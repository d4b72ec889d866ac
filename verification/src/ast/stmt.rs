//! Statements.

use crate::ast::expr::{Expr, ExprView};
use crate::frontend::token::{Token, TokenView};
use vstd::prelude::*;

verus! {

/// A statement. Each node owns its parts.
#[derive(Debug)]
#[allow(inconsistent_fields)]
pub enum Stmt {
    Block(Vec<Stmt>),
    Expression(Expr),
    Print(Expr),
    Var { name: Token, initializer: Option<Expr> },
    Conditional { condition: Expr, when_true: Box<Stmt>, when_false: Option<Box<Stmt>> },
    While { condition: Expr, body: Box<Stmt> },
    For {
        initializer: Option<Box<Stmt>>,
        condition: Option<Expr>,
        increment: Option<Expr>,
        body: Box<Stmt>,
    },
}

/// A statement as a mathematical tree.
#[allow(inconsistent_fields)]
pub enum StmtView {
    Block(Seq<StmtView>),
    Expression(ExprView),
    Print(ExprView),
    Var { name: TokenView, initializer: Option<ExprView> },
    Conditional { condition: ExprView, when_true: Box<StmtView>, when_false: Option<Box<StmtView>> },
    While { condition: ExprView, body: Box<StmtView> },
    For {
        initializer: Option<Box<StmtView>>,
        condition: Option<ExprView>,
        increment: Option<ExprView>,
        body: Box<StmtView>,
    },
}

/// The tree of an expression that may be absent.
pub open spec fn optional_expr_view(e: Option<Expr>) -> Option<ExprView> {
    match e {
        Some(e) => Some(e@),
        None => None,
    }
}

impl Stmt {
    /// The tree that this statement stands for.
    pub open spec fn model(&self) -> StmtView
        decreases self,
    {
        match self {
            Stmt::Block(statements) => StmtView::Block(
                Seq::new(
                    statements@.len(),
                    |i: int|
                        if 0 <= i < statements@.len() {
                            statements@[i].model()
                        } else {
                            StmtView::Block(Seq::empty())
                        },
                ),
            ),
            Stmt::Expression(e) => StmtView::Expression(e@),
            Stmt::Print(e) => StmtView::Print(e@),
            Stmt::Var { name, initializer } => StmtView::Var {
                name: name@,
                initializer: optional_expr_view(*initializer),
            },
            Stmt::Conditional { condition, when_true, when_false } => StmtView::Conditional {
                condition: condition@,
                when_true: Box::new(when_true.model()),
                when_false: match when_false {
                    Some(s) => Some(Box::new(s.model())),
                    None => None,
                },
            },
            Stmt::While { condition, body } => StmtView::While {
                condition: condition@,
                body: Box::new(body.model()),
            },
            Stmt::For { initializer, condition, increment, body } => StmtView::For {
                initializer: match initializer {
                    Some(s) => Some(Box::new(s.model())),
                    None => None,
                },
                condition: optional_expr_view(*condition),
                increment: optional_expr_view(*increment),
                body: Box::new(body.model()),
            },
        }
    }

    pub fn new_conditional(condition: Expr, when_true: Stmt, when_false: Option<Stmt>) -> (r: Self)
        ensures
            r@ == (StmtView::Conditional {
                condition: condition@,
                when_true: Box::new(when_true@),
                when_false: match when_false {
                    Some(s) => Some(Box::new(s@)),
                    None => None,
                },
            }),
    {
        let when_false = match when_false {
            Some(s) => Some(Box::new(s)),
            None => None,
        };
        Self::Conditional { condition, when_true: Box::new(when_true), when_false }
    }

    pub fn new_while(condition: Expr, body: Stmt) -> (r: Self)
        ensures
            r == (Stmt::While { condition, body: Box::new(body) }),
    {
        Self::While { condition, body: Box::new(body) }
    }

    pub fn new_for(
        initializer: Option<Stmt>,
        condition: Option<Expr>,
        increment: Option<Expr>,
        body: Stmt,
    ) -> (r: Self)
        ensures
            r@ == (StmtView::For {
                initializer: match initializer {
                    Some(s) => Some(Box::new(s@)),
                    None => None,
                },
                condition: optional_expr_view(condition),
                increment: optional_expr_view(increment),
                body: Box::new(body@),
            }),
    {
        let initializer = match initializer {
            Some(s) => Some(Box::new(s)),
            None => None,
        };
        Self::For { initializer, condition, increment, body: Box::new(body) }
    }
}

impl View for Stmt {
    type V = StmtView;

    open spec fn view(&self) -> StmtView {
        self.model()
    }
}

impl DeepView for Stmt {
    type V = StmtView;

    open spec fn deep_view(&self) -> StmtView {
        self.model()
    }
}

/// The trees of a sequence of statements.
pub open spec fn statements_view(statements: Seq<Stmt>) -> Seq<StmtView> {
    Seq::new(statements.len(), |i: int| statements[i]@)
}

/// A block stands for the block of its statements' trees.
pub proof fn lemma_block_view(statements: Vec<Stmt>)
    ensures
        Stmt::Block(statements)@ == StmtView::Block(statements_view(statements@)),
{
    let a = Stmt::Block(statements)@;
    assert(a->Block_0 =~= statements_view(statements@));
}

} // verus!
