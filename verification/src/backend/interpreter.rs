//! The evaluator: a machine that walks the syntax tree one step at a time.
//!
//! The machine does not print, and it does not compute with binary64
//! numbers beyond comparing and negating them. Each step returns an
//! [`Action`]; where the action is a request, the caller's next [`Event`]
//! carries the answer. A program that loops forever is a machine that never
//! returns `Finished`: the loop is the caller's.

use crate::ast::expr::{Expr, ExprView};
use crate::ast::stmt::{lemma_block_view, statements_view, Stmt};
use crate::backend::environment::{Env, EnvView};
use crate::backend::machine::{
    answer, apply_binary, apply_unary, arithmetic_of, comparison_of, continue_loop, deliver,
    next_round, result_of, start_expression, start_statement, ActionView, ArithOp, EventView,
    FocusView, FrameView, LoopStage, MachineView, RequestView, Step,
};
use crate::backend::number::Number;
use crate::backend::runtime_error::{RuntimeError, RuntimeErrorKind, RuntimeErrorView};
use crate::backend::value::{Value, ValueView};
use crate::frontend::token::TokenType;
use vstd::prelude::*;
use vstd::string::*;

verus! {

/// What the caller is asked to compute.
#[derive(Debug)]
pub enum Request {
    /// The binary64 value of a number literal, given by its text.
    ParseNumber(String),
    /// The result of an operation on two numbers, left operand first.
    Arithmetic(ArithOp, Number, Number),
    /// The display form of a number.
    FormatNumber(Number),
}

impl View for Request {
    type V = RequestView;

    open spec fn view(&self) -> RequestView {
        match self {
            Request::ParseNumber(lexeme) => RequestView::ParseNumber(lexeme@),
            Request::Arithmetic(op, left, right) => RequestView::Arithmetic(*op, *left, *right),
            Request::FormatNumber(n) => RequestView::FormatNumber(*n),
        }
    }
}

impl Clone for Request {
    fn clone(&self) -> (r: Self)
        ensures
            r == *self,
    {
        match self {
            Request::ParseNumber(lexeme) => Request::ParseNumber(lexeme.clone()),
            Request::Arithmetic(op, left, right) => Request::Arithmetic(*op, *left, *right),
            Request::FormatNumber(n) => Request::FormatNumber(*n),
        }
    }
}

/// What a step asks of the caller.
#[derive(Debug)]
pub enum Action {
    /// Nothing: step again.
    Continue,
    /// Write this line to the output, then step again.
    Print(String),
    /// Answer this request with the next event.
    Ask(Request),
    /// The program has ended, well or with an error.
    Finished(Result<(), RuntimeError>),
}

impl View for Action {
    type V = ActionView;

    open spec fn view(&self) -> ActionView {
        match self {
            Action::Continue => ActionView::Continue,
            Action::Print(line) => ActionView::Print(line@),
            Action::Ask(request) => ActionView::Ask(request@),
            Action::Finished(result) => ActionView::Finished(
                match result {
                    Ok(_) => Ok(()),
                    Err(e) => Err(e@),
                },
            ),
        }
    }
}

/// What the caller hands to a step.
#[derive(Debug)]
pub enum Event {
    /// No answer.
    Resume,
    /// The number that was asked for.
    Number(Number),
    /// The text that was asked for.
    Text(String),
}

impl View for Event {
    type V = EventView;

    open spec fn view(&self) -> EventView {
        match self {
            Event::Resume => EventView::Resume,
            Event::Number(n) => EventView::Number(*n),
            Event::Text(t) => EventView::Text(t@),
        }
    }
}

/// The tree of an expression that may be absent.
pub open spec fn optional_view(e: Option<&Expr>) -> Option<ExprView> {
    match e {
        Some(e) => Some(e@),
        None => None,
    }
}

/// What remains to be done once the focus has given its value.
#[allow(inconsistent_fields)]
#[derive(Debug)]
pub enum Frame<'a> {
    Sequence { statements: &'a [Stmt], next: usize },
    EndScope,
    Discard,
    Print,
    Define { name: &'a str },
    Branch { when_true: &'a Stmt, when_false: Option<&'a Stmt> },
    Loop {
        stage: LoopStage,
        condition: Option<&'a Expr>,
        increment: Option<&'a Expr>,
        body: &'a Stmt,
    },
    Unary { operator: TokenType },
    BinaryLeft { operator: TokenType, left: &'a Expr },
    BinaryApply { operator: TokenType, right: Value },
    ConcatAfter { left: String },
    ConcatBefore { right: String },
    LogicalRight { operator: TokenType, right: &'a Expr },
    Assign { name: &'a str },
}

impl<'a> View for Frame<'a> {
    type V = FrameView;

    open spec fn view(&self) -> FrameView {
        match self {
            Frame::Sequence { statements, next } => FrameView::Sequence {
                statements: statements_view(statements@),
                next: *next as nat,
            },
            Frame::EndScope => FrameView::EndScope,
            Frame::Discard => FrameView::Discard,
            Frame::Print => FrameView::Print,
            Frame::Define { name } => FrameView::Define { name: name@ },
            Frame::Branch { when_true, when_false } => FrameView::Branch {
                when_true: when_true@,
                when_false: match when_false {
                    Some(s) => Some(s@),
                    None => None,
                },
            },
            Frame::Loop { stage, condition, increment, body } => FrameView::Loop {
                stage: *stage,
                condition: optional_view(*condition),
                increment: optional_view(*increment),
                body: body@,
            },
            Frame::Unary { operator } => FrameView::Unary { operator: *operator },
            Frame::BinaryLeft { operator, left } => FrameView::BinaryLeft {
                operator: *operator,
                left: left@,
            },
            Frame::BinaryApply { operator, right } => FrameView::BinaryApply {
                operator: *operator,
                right: right@,
            },
            Frame::ConcatAfter { left } => FrameView::ConcatAfter { left: left@ },
            Frame::ConcatBefore { right } => FrameView::ConcatBefore { right: right@ },
            Frame::LogicalRight { operator, right } => FrameView::LogicalRight {
                operator: *operator,
                right: right@,
            },
            Frame::Assign { name } => FrameView::Assign { name: name@ },
        }
    }
}

impl<'a> DeepView for Frame<'a> {
    type V = FrameView;

    open spec fn deep_view(&self) -> FrameView {
        self@
    }
}

/// What the machine is working on.
#[derive(Debug)]
pub enum Focus<'a> {
    Statement(&'a Stmt),
    Expression(&'a Expr),
    Value(Value),
    Await(Request),
    Raise(RuntimeError),
}

impl<'a> View for Focus<'a> {
    type V = FocusView;

    open spec fn view(&self) -> FocusView {
        match self {
            Focus::Statement(s) => FocusView::Statement(s@),
            Focus::Expression(e) => FocusView::Expression(e@),
            Focus::Value(v) => FocusView::Value(v@),
            Focus::Await(request) => FocusView::Await(request@),
            Focus::Raise(error) => FocusView::Raise(error@),
        }
    }
}

/// The step that leaves the chain `env`, the stack `stack`, and the focus and
/// action of `r`.
pub open spec fn step_of<'a>(env: EnvView, stack: Seq<FrameView>, r: (Focus<'a>, Action)) -> Step {
    Step { machine: MachineView { env, focus: r.0@, stack }, action: r.1@ }
}

fn push_frame<'a>(stack: &mut Vec<Frame<'a>>, frame: Frame<'a>)
    ensures
        final(stack).deep_view() == old(stack).deep_view().push(frame@),
{
    stack.push(frame);
    assert(stack.deep_view() =~= old(stack).deep_view().push(frame@));
}

fn pop_frame<'a>(stack: &mut Vec<Frame<'a>>) -> (r: Option<Frame<'a>>)
    ensures
        r is Some == (old(stack).deep_view().len() > 0),
        r matches Some(frame) ==> frame@ == old(stack).deep_view().last()
            && final(stack).deep_view() == old(stack).deep_view().drop_last(),
        r is None ==> final(stack).deep_view() == old(stack).deep_view(),
{
    let r = stack.pop();
    proof {
        if r is Some {
            assert(stack.deep_view() =~= old(stack).deep_view().drop_last());
        } else {
            assert(stack.deep_view() =~= old(stack).deep_view());
        }
    }
    r
}

fn invalid_operation<'a>() -> (r: Focus<'a>)
    ensures
        r@ == FocusView::Raise(RuntimeErrorView::invalid_operation()),
{
    Focus::Raise(RuntimeError { kind: RuntimeErrorKind::InvalidOperation })
}

fn request<'a>(asked: Request) -> (r: (Focus<'a>, Action))
    ensures
        r.0@ == FocusView::Await(asked@),
        r.1@ == ActionView::Ask(asked@),
{
    let copy = asked.clone();
    (Focus::Await(asked), Action::Ask(copy))
}

/// The first step of a statement.
fn begin_statement<'a>(env: &mut Env, stack: &mut Vec<Frame<'a>>, statement: &'a Stmt) -> (r: (
    Focus<'a>,
    Action,
))
    requires
        old(env).wf(),
    ensures
        final(env).wf(),
        step_of(final(env)@, final(stack).deep_view(), r) == start_statement(
            old(env)@,
            old(stack).deep_view(),
            statement@,
        ),
{
    match statement {
        Stmt::Block(statements) => {
            proof {
                lemma_block_view(*statements);
            }
            env.begin_scope();
            push_frame(stack, Frame::EndScope);
            push_frame(stack, Frame::Sequence { statements: statements.as_slice(), next: 0 });
            (Focus::Value(Value::Nil), Action::Continue)
        },
        Stmt::Expression(e) => {
            push_frame(stack, Frame::Discard);
            (Focus::Expression(e), Action::Continue)
        },
        Stmt::Print(e) => {
            push_frame(stack, Frame::Print);
            (Focus::Expression(e), Action::Continue)
        },
        Stmt::Var { name, initializer } => {
            match initializer {
                Some(e) => {
                    push_frame(stack, Frame::Define { name: name.lexeme.as_str() });
                    (Focus::Expression(e), Action::Continue)
                },
                None => {
                    env.define(name.lexeme.as_str(), &Value::Nil);
                    (Focus::Value(Value::Nil), Action::Continue)
                },
            }
        },
        Stmt::Conditional { condition, when_true, when_false } => {
            let otherwise: Option<&'a Stmt> = match when_false {
                Some(s) => Some(&**s),
                None => None,
            };
            push_frame(stack, Frame::Branch { when_true: &**when_true, when_false: otherwise });
            (Focus::Expression(condition), Action::Continue)
        },
        Stmt::While { condition, body } => {
            push_frame(
                stack,
                Frame::Loop {
                    stage: LoopStage::Next,
                    condition: Some(condition),
                    increment: None,
                    body: &**body,
                },
            );
            (Focus::Value(Value::Nil), Action::Continue)
        },
        Stmt::For { initializer, condition, increment, body } => {
            env.begin_scope();
            push_frame(stack, Frame::EndScope);
            push_frame(
                stack,
                Frame::Loop {
                    stage: LoopStage::Next,
                    condition: condition.as_ref(),
                    increment: increment.as_ref(),
                    body: &**body,
                },
            );
            match initializer {
                Some(s) => (Focus::Statement(&**s), Action::Continue),
                None => (Focus::Value(Value::Nil), Action::Continue),
            }
        },
    }
}

/// The first step of an expression.
fn begin_expression<'a>(env: &Env, stack: &mut Vec<Frame<'a>>, e: &'a Expr) -> (r: (
    Focus<'a>,
    Action,
))
    requires
        env.wf(),
    ensures
        step_of(env@, final(stack).deep_view(), r) == start_expression(
            env@,
            old(stack).deep_view(),
            e@,
        ),
{
    match e {
        Expr::BoolLiteral(b) => (Focus::Value(Value::Bool(*b)), Action::Continue),
        Expr::NumberLiteral(lexeme) => request(Request::ParseNumber(lexeme.clone())),
        Expr::StringLiteral(s) => (Focus::Value(Value::String(s.clone())), Action::Continue),
        Expr::Nil => (Focus::Value(Value::Nil), Action::Continue),
        Expr::Grouping(inner) => (Focus::Expression(&**inner), Action::Continue),
        Expr::Unary { operator, right } => {
            push_frame(stack, Frame::Unary { operator: operator.token_type });
            (Focus::Expression(&**right), Action::Continue)
        },
        Expr::Binary { left, operator, right } => {
            push_frame(stack, Frame::BinaryLeft { operator: operator.token_type, left: &**left });
            (Focus::Expression(&**right), Action::Continue)
        },
        Expr::Logical { left, operator, right } => {
            if operator.token_type == TokenType::And || operator.token_type == TokenType::Or {
                push_frame(
                    stack,
                    Frame::LogicalRight { operator: operator.token_type, right: &**right },
                );
                (Focus::Expression(&**left), Action::Continue)
            } else {
                (invalid_operation(), Action::Continue)
            }
        },
        Expr::Variable { name } => {
            match env.get(name.lexeme.as_str()) {
                Ok(value) => (Focus::Value(value.clone()), Action::Continue),
                Err(e) => (Focus::Raise(RuntimeError::from(e)), Action::Continue),
            }
        },
        Expr::Assignment { name, value } => {
            push_frame(stack, Frame::Assign { name: name.lexeme.as_str() });
            (Focus::Expression(&**value), Action::Continue)
        },
    }
}

/// A prefix operator applied to a value.
fn unary<'a>(operator: TokenType, value: Value) -> (r: Focus<'a>)
    ensures
        r@ == apply_unary(operator, value@),
{
    match operator {
        TokenType::Minus => match value {
            Value::Number(n) => Focus::Value(Value::Number(n.negate())),
            _ => invalid_operation(),
        },
        TokenType::Bang => Focus::Value(Value::Bool(!value.is_truthy())),
        _ => invalid_operation(),
    }
}

fn arithmetic(operator: TokenType) -> (r: Option<ArithOp>)
    ensures
        r == arithmetic_of(operator),
{
    match operator {
        TokenType::Plus => Some(ArithOp::Add),
        TokenType::Minus => Some(ArithOp::Subtract),
        TokenType::Star => Some(ArithOp::Multiply),
        TokenType::Slash => Some(ArithOp::Divide),
        _ => None,
    }
}

fn comparison(operator: TokenType, left: &Number, right: &Number) -> (r: Option<bool>)
    ensures
        r == comparison_of(operator, *left, *right),
{
    match operator {
        TokenType::Greater => Some(left.greater(right)),
        TokenType::GreaterEqual => Some(left.greater_or_equal(right)),
        TokenType::Less => Some(left.less(right)),
        TokenType::LessEqual => Some(left.less_or_equal(right)),
        _ => None,
    }
}

/// An infix operator applied to two values.
fn binary<'a>(stack: &mut Vec<Frame<'a>>, operator: TokenType, left: Value, right: Value) -> (r: (
    Focus<'a>,
    Action,
))
    ensures
        forall|env: EnvView|
            step_of(env, final(stack).deep_view(), r) == #[trigger] apply_binary(
                env,
                old(stack).deep_view(),
                operator,
                left@,
                right@,
            ),
{
    if operator == TokenType::EqualEqual {
        return (Focus::Value(Value::Bool(left == right)), Action::Continue);
    }
    if operator == TokenType::BangEqual {
        return (Focus::Value(Value::Bool(!(left == right))), Action::Continue);
    }
    match (left, right) {
        (Value::Number(l), Value::Number(r)) => {
            match arithmetic(operator) {
                Some(op) => request(Request::Arithmetic(op, l, r)),
                None => match comparison(operator, &l, &r) {
                    Some(b) => (Focus::Value(Value::Bool(b)), Action::Continue),
                    None => (invalid_operation(), Action::Continue),
                },
            }
        },
        (Value::String(l), r) => {
            if operator == TokenType::Plus {
                match r {
                    Value::Number(n) => {
                        push_frame(stack, Frame::ConcatAfter { left: l });
                        request(Request::FormatNumber(n))
                    },
                    other => {
                        match other.text() {
                            Some(t) => (
                                Focus::Value(Value::String(l.concat(t.as_str()))),
                                Action::Continue,
                            ),
                            None => (invalid_operation(), Action::Continue),
                        }
                    },
                }
            } else {
                (invalid_operation(), Action::Continue)
            }
        },
        (l, Value::String(r)) => {
            if operator == TokenType::Plus {
                match l {
                    Value::Number(n) => {
                        push_frame(stack, Frame::ConcatBefore { right: r });
                        request(Request::FormatNumber(n))
                    },
                    other => {
                        match other.text() {
                            Some(t) => (
                                Focus::Value(Value::String(t.concat(r.as_str()))),
                                Action::Continue,
                            ),
                            None => (invalid_operation(), Action::Continue),
                        }
                    },
                }
            } else {
                (invalid_operation(), Action::Continue)
            }
        },
        _ => (invalid_operation(), Action::Continue),
    }
}

/// The start of a loop's next round.
fn begin_round<'a>(
    stack: &mut Vec<Frame<'a>>,
    condition: Option<&'a Expr>,
    increment: Option<&'a Expr>,
    body: &'a Stmt,
) -> (r: (Focus<'a>, Action))
    ensures
        forall|env: EnvView|
            step_of(env, final(stack).deep_view(), r) == #[trigger] next_round(
                env,
                old(stack).deep_view(),
                optional_view(condition),
                optional_view(increment),
                body@,
            ),
{
    match condition {
        Some(c) => {
            push_frame(stack, Frame::Loop { stage: LoopStage::Test, condition, increment, body });
            (Focus::Expression(c), Action::Continue)
        },
        None => {
            push_frame(stack, Frame::Loop { stage: LoopStage::Body, condition, increment, body });
            (Focus::Statement(body), Action::Continue)
        },
    }
}

/// What a loop frame does with the value it is handed.
fn resume_loop<'a>(
    stack: &mut Vec<Frame<'a>>,
    stage: LoopStage,
    condition: Option<&'a Expr>,
    increment: Option<&'a Expr>,
    body: &'a Stmt,
    value: Value,
) -> (r: (Focus<'a>, Action))
    ensures
        forall|env: EnvView|
            step_of(env, final(stack).deep_view(), r) == #[trigger] continue_loop(
                env,
                old(stack).deep_view(),
                stage,
                optional_view(condition),
                optional_view(increment),
                body@,
                value@,
            ),
{
    match stage {
        LoopStage::Next => begin_round(stack, condition, increment, body),
        LoopStage::Test => {
            if value.is_truthy() {
                push_frame(stack, Frame::Loop { stage: LoopStage::Body, condition, increment, body });
                (Focus::Statement(body), Action::Continue)
            } else {
                (Focus::Value(Value::Nil), Action::Continue)
            }
        },
        LoopStage::Body => {
            match increment {
                Some(i) => {
                    push_frame(
                        stack,
                        Frame::Loop { stage: LoopStage::Next, condition, increment, body },
                    );
                    (Focus::Expression(i), Action::Continue)
                },
                None => begin_round(stack, condition, increment, body),
            }
        },
    }
}

/// What `frame`, taken off the stack, does with `value`.
fn hand_over<'a>(env: &mut Env, stack: &mut Vec<Frame<'a>>, frame: Frame<'a>, value: Value) -> (r: (
    Focus<'a>,
    Action,
))
    requires
        old(env).wf(),
    ensures
        final(env).wf(),
        step_of(final(env)@, final(stack).deep_view(), r) == deliver(
            old(env)@,
            old(stack).deep_view(),
            frame@,
            value@,
        ),
{
    match frame {
        Frame::Sequence { statements, next } => {
            if next < statements.len() {
                push_frame(stack, Frame::Sequence { statements, next: next + 1 });
                (Focus::Statement(&statements[next]), Action::Continue)
            } else {
                (Focus::Value(Value::Nil), Action::Continue)
            }
        },
        Frame::EndScope => {
            env.end_scope();
            (Focus::Value(value), Action::Continue)
        },
        Frame::Discard => (Focus::Value(Value::Nil), Action::Continue),
        Frame::Print => {
            match value {
                Value::Number(n) => {
                    push_frame(stack, Frame::Print);
                    request(Request::FormatNumber(n))
                },
                other => {
                    match other.text() {
                        Some(line) => (Focus::Value(Value::Nil), Action::Print(line)),
                        None => (invalid_operation(), Action::Continue),
                    }
                },
            }
        },
        Frame::Define { name } => {
            env.define(name, &value);
            (Focus::Value(Value::Nil), Action::Continue)
        },
        Frame::Branch { when_true, when_false } => {
            if value.is_truthy() {
                (Focus::Statement(when_true), Action::Continue)
            } else {
                match when_false {
                    Some(s) => (Focus::Statement(s), Action::Continue),
                    None => (Focus::Value(Value::Nil), Action::Continue),
                }
            }
        },
        Frame::Loop { stage, condition, increment, body } => resume_loop(
            stack,
            stage,
            condition,
            increment,
            body,
            value,
        ),
        Frame::Unary { operator } => (unary(operator, value), Action::Continue),
        Frame::BinaryLeft { operator, left } => {
            push_frame(stack, Frame::BinaryApply { operator, right: value });
            (Focus::Expression(left), Action::Continue)
        },
        Frame::BinaryApply { operator, right } => binary(stack, operator, value, right),
        Frame::ConcatAfter { left } => {
            match value {
                Value::String(s) => (
                    Focus::Value(Value::String(left.concat(s.as_str()))),
                    Action::Continue,
                ),
                _ => (invalid_operation(), Action::Continue),
            }
        },
        Frame::ConcatBefore { right } => {
            match value {
                Value::String(s) => (
                    Focus::Value(Value::String(s.concat(right.as_str()))),
                    Action::Continue,
                ),
                _ => (invalid_operation(), Action::Continue),
            }
        },
        Frame::LogicalRight { operator, right } => {
            if operator == TokenType::And {
                if value.is_truthy() {
                    (Focus::Expression(right), Action::Continue)
                } else {
                    (Focus::Value(value), Action::Continue)
                }
            } else if operator == TokenType::Or {
                if value.is_truthy() {
                    (Focus::Value(value), Action::Continue)
                } else {
                    (Focus::Expression(right), Action::Continue)
                }
            } else {
                (invalid_operation(), Action::Continue)
            }
        },
        Frame::Assign { name } => {
            match env.assign(name, &value) {
                Ok(_) => (Focus::Value(value), Action::Continue),
                Err(e) => (Focus::Raise(RuntimeError::from(e)), Action::Continue),
            }
        },
    }
}

/// What an event does to a request.
fn reply<'a>(pending: Request, event: Event) -> (r: (Focus<'a>, Action))
    ensures
        forall|env: EnvView, stack: Seq<FrameView>|
            step_of(env, stack, r) == #[trigger] answer(env, stack, pending@, event@),
{
    match (pending, event) {
        (Request::ParseNumber(_), Event::Number(n)) => (
            Focus::Value(Value::Number(n)),
            Action::Continue,
        ),
        (Request::Arithmetic(_, _, _), Event::Number(n)) => (
            Focus::Value(Value::Number(n)),
            Action::Continue,
        ),
        (Request::FormatNumber(_), Event::Text(t)) => (
            Focus::Value(Value::String(t)),
            Action::Continue,
        ),
        (pending, _) => request(pending),
    }
}

/// One run of a program or of an expression: the focus and the frames.
#[derive(Debug)]
pub struct Execution<'a> {
    focus: Focus<'a>,
    stack: Vec<Frame<'a>>,
}

impl<'a> Execution<'a> {
    pub closed spec fn focus(&self) -> FocusView {
        self.focus@
    }

    pub closed spec fn stack(&self) -> Seq<FrameView> {
        self.stack.deep_view()
    }

    /// The value that an evaluation has ended with: there is one when no
    /// frame is left and the focus is a value.
    pub fn value(&self) -> (r: Option<&Value>)
        ensures
            match r {
                Some(v) => result_of(self.focus(), self.stack()) == Some(v@),
                None => result_of(self.focus(), self.stack()) is None,
            },
    {
        if self.stack.len() == 0 {
            match &self.focus {
                Focus::Value(v) => Some(v),
                _ => None,
            }
        } else {
            None
        }
    }
}

/// The evaluator's lasting state: the scope chain, which outlives each run.
#[derive(Debug)]
pub struct Interpreter {
    env: Env,
}

impl View for Interpreter {
    type V = EnvView;

    closed spec fn view(&self) -> EnvView {
        self.env@
    }
}

impl Interpreter {
    pub open spec fn wf(&self) -> bool {
        self@.depth() >= 1
    }

    /// The state of the machine that this evaluator and `run` make up.
    pub open spec fn machine(&self, run: &Execution) -> MachineView {
        MachineView { env: self@, focus: run.focus(), stack: run.stack() }
    }

    /// An evaluator with an empty global scope.
    pub fn new() -> (r: Self)
        ensures
            r.wf(),
            r@.scopes == seq![Map::<Seq<char>, ValueView>::empty()],
    {
        Self { env: Env::new() }
    }

    /// The scope chain.
    pub fn env(&self) -> (r: &Env)
        ensures
            r@ == self@,
    {
        &self.env
    }

    /// Prepares the execution of `statements`, in order, in the current
    /// scope. Nothing is executed before the first step.
    pub fn interpret<'a>(&self, statements: &'a [Stmt]) -> (run: Execution<'a>)
        ensures
            self.machine(&run) == MachineView::ready(self@, statements_view(statements@)),
    {
        let mut stack: Vec<Frame<'a>> = Vec::new();
        push_frame(&mut stack, Frame::Sequence { statements, next: 0 });
        let run = Execution { focus: Focus::Value(Value::Nil), stack };
        assert(run.stack() =~= seq![
            FrameView::Sequence { statements: statements_view(statements@), next: 0 },
        ]);
        run
    }

    /// Prepares the evaluation of `e` in the current scope.
    pub fn evaluate<'a>(&self, e: &'a Expr) -> (run: Execution<'a>)
        ensures
            self.machine(&run) == MachineView::evaluating(self@, e@),
    {
        let run = Execution { focus: Focus::Expression(e), stack: Vec::new() };
        assert(run.stack() =~= Seq::<FrameView>::empty());
        run
    }

    /// Takes one step of `run`.
    pub fn step<'a>(&mut self, run: &mut Execution<'a>, event: Event) -> (action: Action)
        requires
            old(self).wf(),
        ensures
            final(self).wf(),
            final(self).machine(final(run)) == old(self).machine(old(run)).step(event@).machine,
            action@ == old(self).machine(old(run)).step(event@).action,
    {
        let mut focus = Focus::Value(Value::Nil);
        core::mem::swap(&mut run.focus, &mut focus);
        let next: (Focus<'a>, Action) = match focus {
            Focus::Statement(s) => begin_statement(&mut self.env, &mut run.stack, s),
            Focus::Expression(e) => begin_expression(&self.env, &mut run.stack, e),
            Focus::Value(v) => {
                match pop_frame(&mut run.stack) {
                    Some(frame) => hand_over(&mut self.env, &mut run.stack, frame, v),
                    None => (Focus::Value(v), Action::Finished(Ok(()))),
                }
            },
            Focus::Raise(error) => {
                match pop_frame(&mut run.stack) {
                    Some(frame) => {
                        match frame {
                            Frame::EndScope => {
                                self.env.end_scope();
                            },
                            _ => {},
                        }
                        (Focus::Raise(error), Action::Continue)
                    },
                    None => {
                        let copy = error.clone();
                        (Focus::Raise(error), Action::Finished(Err(copy)))
                    },
                }
            },
            Focus::Await(pending) => reply(pending, event),
        };
        run.focus = next.0;
        next.1
    }

    /// Steps until an action other than `Continue` comes, but no more than
    /// `budget` further steps after the first. To run a program, call this
    /// again and again, each time with the answer to the action before, until
    /// the action is `Finished`.
    pub fn advance<'a>(&mut self, run: &mut Execution<'a>, event: Event, budget: usize) -> (action:
        Action)
        requires
            old(self).wf(),
        ensures
            final(self).wf(),
            final(self).machine(final(run)) == old(self).machine(old(run)).advance(
                event@,
                budget as nat,
            ).machine,
            action@ == old(self).machine(old(run)).advance(event@, budget as nat).action,
    {
        let ghost start = self.machine(run);
        let mut action = self.step(run, event);
        let mut left: usize = budget;
        while left > 0 && matches!(action, Action::Continue)
            invariant
                self.wf(),
                start.advance(event@, budget as nat) == (if action@ is Continue && left > 0 {
                    self.machine(run).advance(EventView::Resume, (left - 1) as nat)
                } else {
                    Step { machine: self.machine(run), action: action@ }
                }),
            decreases left,
        {
            action = self.step(run, Event::Resume);
            left -= 1;
        }
        action
    }
}

} // verus!
