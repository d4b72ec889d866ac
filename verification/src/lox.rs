//! The pipeline: source text is scanned, the tokens are parsed, and the
//! statements are run.
//!
//! Lexical errors do not keep the tokens that were found from being parsed,
//! so that one reading reports the lexical errors and the first syntax error.
//! A program with an error of either kind is not run.

use crate::ast::stmt::{statements_view, Stmt, StmtView};
use crate::backend::environment::EnvView;
use crate::backend::interpreter::{Action, Event, Execution, Interpreter};
use crate::backend::machine::MachineView;
use crate::backend::value::ValueView;
use crate::frontend::grammar::parse_program;
use crate::frontend::parser::{program_parsed, token_views, Parser};
use crate::frontend::scanner::{scan, Scanner};
use crate::frontend::scanner_error::ScannerError;
use crate::frontend::syntax_error::{ParserError, SyntaxErrorView};
use crate::lox_error::{LoxError, LoxErrorView};
use vstd::prelude::*;

verus! {

pub type LoxResult<T> = Result<T, LoxError>;

/// What reading a source text gives: every lexical error, and the statements
/// or the first syntax error.
#[derive(Debug)]
pub struct Reading {
    pub errors: Vec<ScannerError>,
    pub program: Result<Vec<Stmt>, ParserError>,
}

/// The statements of a source text, or the error that keeps it from being
/// run: its first lexical error if it has one, else its first syntax error.
pub open spec fn front(source: Seq<char>) -> Result<Seq<StmtView>, LoxErrorView> {
    let scanned = scan(source);
    if scanned.errors.len() > 0 {
        Err(LoxErrorView::Syntax(SyntaxErrorView::Scanner(scanned.errors[0])))
    } else {
        match parse_program(scanned.tokens, 0, Seq::empty()).result {
            Ok(statements) => Ok(statements),
            Err(e) => Err(LoxErrorView::Syntax(SyntaxErrorView::Parser(e))),
        }
    }
}

impl Reading {
    /// Whether the program may be run.
    pub open spec fn outcome(&self) -> Result<Seq<StmtView>, LoxErrorView> {
        if self.errors@.len() > 0 {
            Err(LoxErrorView::Syntax(SyntaxErrorView::Scanner(self.errors@[0])))
        } else {
            match self.program {
                Ok(statements) => Ok(statements_view(statements@)),
                Err(e) => Err(LoxErrorView::Syntax(SyntaxErrorView::Parser(e@))),
            }
        }
    }

    /// The statements, if the text had no error; else the first lexical
    /// error, or the syntax error where there is no lexical one.
    pub fn into_program(self) -> (r: LoxResult<Vec<Stmt>>)
        ensures
            match r {
                Ok(statements) => self.outcome() == Ok::<Seq<StmtView>, LoxErrorView>(
                    statements_view(statements@),
                ),
                Err(e) => self.outcome() == Err::<Seq<StmtView>, LoxErrorView>(e@),
            },
    {
        if self.errors.len() > 0 {
            Err(LoxError::from(self.errors[0]))
        } else {
            match self.program {
                Ok(statements) => Ok(statements),
                Err(e) => Err(LoxError::from(e)),
            }
        }
    }
}

/// The interpreter of the language: the evaluator, whose global scope lasts
/// from one run to the next.
#[derive(Debug)]
pub struct Lox {
    interpreter: Interpreter,
}

impl View for Lox {
    type V = EnvView;

    closed spec fn view(&self) -> EnvView {
        self.interpreter@
    }
}

impl Lox {
    pub open spec fn wf(&self) -> bool {
        self@.depth() >= 1
    }

    /// The state of the machine that this interpreter and `run` make up.
    pub closed spec fn machine(&self, run: &Execution) -> MachineView {
        self.interpreter.machine(run)
    }

    /// An interpreter with an empty global scope.
    pub fn new() -> (r: Self)
        ensures
            r.wf(),
            r@.scopes == seq![Map::<Seq<char>, ValueView>::empty()],
    {
        Self { interpreter: Interpreter::new() }
    }

    /// Scans and parses `source`.
    pub fn read(source: &str) -> (r: Reading)
        ensures
            r.errors@ == scan(source@).errors,
            program_parsed(r.program, 0).result == parse_program(
                scan(source@).tokens,
                0,
                Seq::empty(),
            ).result,
            r.outcome() == front(source@),
    {
        let mut scanner = Scanner::new(source);
        scanner.scan_tokens();
        let (tokens, errors) = scanner.into_parts();
        assert(token_views(tokens@) =~= tokens.deep_view());
        assert(Seq::<ScannerError>::empty() + scan(source@).errors =~= scan(source@).errors);
        assert(Seq::<crate::frontend::token::TokenView>::empty() + scan(source@).tokens =~= scan(
            source@,
        ).tokens);
        let mut parser = Parser::new(tokens.as_slice());
        let program = parser.parse();
        Reading { errors, program }
    }

    /// Scans and parses `source`, and gives its statements if it may be run.
    pub fn load(source: &str) -> (r: LoxResult<Vec<Stmt>>)
        ensures
            match r {
                Ok(statements) => front(source@) == Ok::<Seq<StmtView>, LoxErrorView>(
                    statements_view(statements@),
                ),
                Err(e) => front(source@) == Err::<Seq<StmtView>, LoxErrorView>(e@),
            },
    {
        Self::read(source).into_program()
    }

    /// Prepares the execution of `statements` in the global scope.
    pub fn interpret<'a>(&self, statements: &'a [Stmt]) -> (run: Execution<'a>)
        ensures
            self.machine(&run) == MachineView::ready(self@, statements_view(statements@)),
    {
        self.interpreter.interpret(statements)
    }

    /// Takes one step of `run`.
    pub fn step<'a>(&mut self, run: &mut Execution<'a>, event: Event) -> (action: Action)
        requires
            old(self).wf(),
        ensures
            final(self).wf(),
            final(self).machine(final(run)) == old(self).machine(old(run)).step(event@).machine,
            action@ == old(self).machine(old(run)).step(event@).action,
    {
        self.interpreter.step(run, event)
    }

    /// Steps until an action other than `Continue` comes, but no more than
    /// `budget` further steps after the first.
    pub fn advance<'a>(&mut self, run: &mut Execution<'a>, event: Event, budget: usize) -> (action:
        Action)
        requires
            old(self).wf(),
        ensures
            final(self).wf(),
            final(self).machine(final(run)) == old(self).machine(old(run)).advance(
                event@,
                budget as nat,
            ).machine,
            action@ == old(self).machine(old(run)).advance(event@, budget as nat).action,
    {
        self.interpreter.advance(run, event, budget)
    }
}

} // verus!
