//! Expressions.

use crate::frontend::token::{Token, TokenView};
use vstd::prelude::*;
use vstd::string::*;

verus! {

/// An expression. Each node owns its operands.
///
/// A number literal keeps its decimal text: the evaluator asks its caller for
/// the binary64 value when the literal is evaluated.
#[derive(Debug)]
pub enum Expr {
    Unary { operator: Token, right: Box<Expr> },
    Binary { left: Box<Expr>, operator: Token, right: Box<Expr> },
    Logical { left: Box<Expr>, operator: Token, right: Box<Expr> },
    Grouping(Box<Expr>),
    Variable { name: Token },
    Assignment { name: Token, value: Box<Expr> },
    BoolLiteral(bool),
    NumberLiteral(String),
    StringLiteral(String),
    Nil,
}

/// An expression as a mathematical tree, with texts as sequences of
/// characters.
pub enum ExprView {
    Unary { operator: TokenView, right: Box<ExprView> },
    Binary { left: Box<ExprView>, operator: TokenView, right: Box<ExprView> },
    Logical { left: Box<ExprView>, operator: TokenView, right: Box<ExprView> },
    Grouping(Box<ExprView>),
    Variable { name: TokenView },
    Assignment { name: TokenView, value: Box<ExprView> },
    BoolLiteral(bool),
    NumberLiteral(Seq<char>),
    StringLiteral(Seq<char>),
    Nil,
}

impl Expr {
    /// The tree that this expression stands for.
    pub open spec fn model(&self) -> ExprView
        decreases self,
    {
        match self {
            Expr::Unary { operator, right } => ExprView::Unary {
                operator: operator@,
                right: Box::new(right.model()),
            },
            Expr::Binary { left, operator, right } => ExprView::Binary {
                left: Box::new(left.model()),
                operator: operator@,
                right: Box::new(right.model()),
            },
            Expr::Logical { left, operator, right } => ExprView::Logical {
                left: Box::new(left.model()),
                operator: operator@,
                right: Box::new(right.model()),
            },
            Expr::Grouping(inner) => ExprView::Grouping(Box::new(inner.model())),
            Expr::Variable { name } => ExprView::Variable { name: name@ },
            Expr::Assignment { name, value } => ExprView::Assignment {
                name: name@,
                value: Box::new(value.model()),
            },
            Expr::BoolLiteral(value) => ExprView::BoolLiteral(*value),
            Expr::NumberLiteral(lexeme) => ExprView::NumberLiteral(lexeme@),
            Expr::StringLiteral(value) => ExprView::StringLiteral(value@),
            Expr::Nil => ExprView::Nil,
        }
    }

    pub fn new_unary(operator: Token, right: Expr) -> (r: Expr)
        ensures
            r == (Expr::Unary { operator, right: Box::new(right) }),
    {
        Self::Unary { operator, right: Box::new(right) }
    }

    pub fn new_binary(left: Expr, operator: Token, right: Expr) -> (r: Expr)
        ensures
            r == (Expr::Binary { left: Box::new(left), operator, right: Box::new(right) }),
    {
        Self::Binary { left: Box::new(left), operator, right: Box::new(right) }
    }

    pub fn new_logical(left: Expr, operator: Token, right: Expr) -> (r: Expr)
        ensures
            r == (Expr::Logical { left: Box::new(left), operator, right: Box::new(right) }),
    {
        Self::Logical { left: Box::new(left), operator, right: Box::new(right) }
    }

    pub fn new_grouping(expr: Expr) -> (r: Expr)
        ensures
            r == Expr::Grouping(Box::new(expr)),
    {
        Self::Grouping(Box::new(expr))
    }

    pub fn new_assignment(name: Token, value: Expr) -> (r: Expr)
        ensures
            r == (Expr::Assignment { name, value: Box::new(value) }),
    {
        Self::Assignment { name, value: Box::new(value) }
    }

    /// Writes the expression in prefix form.
    pub fn print(e: &Expr) -> (r: String)
        ensures
            r@ == e@.prefix_form(),
        decreases e,
    {
        match e {
            Expr::Unary { operator, right } => {
                let right_text = Expr::print(right);
                String::from_str("(").concat(operator.lexeme.as_str()).concat(" ").concat(
                    right_text.as_str(),
                ).concat(")")
            },
            Expr::Binary { left, operator, right } => {
                let left_text = Expr::print(left);
                let right_text = Expr::print(right);
                String::from_str("(").concat(operator.lexeme.as_str()).concat(" ").concat(
                    left_text.as_str(),
                ).concat(" ").concat(right_text.as_str()).concat(")")
            },
            Expr::Logical { left, operator, right } => {
                let left_text = Expr::print(left);
                let right_text = Expr::print(right);
                String::from_str("(").concat(operator.lexeme.as_str()).concat(" ").concat(
                    left_text.as_str(),
                ).concat(" ").concat(right_text.as_str()).concat(")")
            },
            Expr::Grouping(inner) => {
                let inner_text = Expr::print(inner);
                String::from_str("(group ").concat(inner_text.as_str()).concat(")")
            },
            Expr::Variable { name } => name.lexeme.clone(),
            Expr::Assignment { name, value } => {
                let value_text = Expr::print(value);
                name.lexeme.clone().concat(" ").concat(value_text.as_str())
            },
            Expr::BoolLiteral(value) => {
                if *value {
                    String::from_str("true")
                } else {
                    String::from_str("false")
                }
            },
            Expr::NumberLiteral(lexeme) => lexeme.clone(),
            Expr::StringLiteral(value) => value.clone(),
            Expr::Nil => String::from_str("nil"),
        }
    }
}

impl View for Expr {
    type V = ExprView;

    open spec fn view(&self) -> ExprView {
        self.model()
    }
}

impl DeepView for Expr {
    type V = ExprView;

    open spec fn deep_view(&self) -> ExprView {
        self.model()
    }
}

impl ExprView {
    /// The prefix form of an expression: an operator comes first, in
    /// parentheses with its operands; a grouping is marked `group`; a literal
    /// or a name stands as it was written.
    pub open spec fn prefix_form(self) -> Seq<char>
        decreases self,
    {
        match self {
            ExprView::Unary { operator, right } => "("@ + operator.lexeme + " "@
                + right.prefix_form() + ")"@,
            ExprView::Binary { left, operator, right } => "("@ + operator.lexeme + " "@
                + left.prefix_form() + " "@ + right.prefix_form() + ")"@,
            ExprView::Logical { left, operator, right } => "("@ + operator.lexeme + " "@
                + left.prefix_form() + " "@ + right.prefix_form() + ")"@,
            ExprView::Grouping(inner) => "(group "@ + inner.prefix_form() + ")"@,
            ExprView::Variable { name } => name.lexeme,
            ExprView::Assignment { name, value } => name.lexeme + " "@ + value.prefix_form(),
            ExprView::BoolLiteral(value) => if value {
                "true"@
            } else {
                "false"@
            },
            ExprView::NumberLiteral(lexeme) => lexeme,
            ExprView::StringLiteral(value) => value,
            ExprView::Nil => "nil"@,
        }
    }
}

} // verus!
