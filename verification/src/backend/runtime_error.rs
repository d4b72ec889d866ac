//! What can go wrong while a program runs.

use vstd::prelude::*;
use vstd::string::*;

verus! {

/// The kinds of run-time error.
#[derive(Debug)]
pub enum RuntimeErrorKind {
    /// An operator met an operand of a kind it does not take.
    InvalidOperation,
    InvalidArithmeticOperation,
    /// A name was read or assigned that no visible scope holds.
    UndefinedVariable { name: String },
}

pub enum RuntimeErrorKindView {
    InvalidOperation,
    InvalidArithmeticOperation,
    UndefinedVariable { name: Seq<char> },
}

impl RuntimeErrorKindView {
    pub open spec fn text(self) -> Seq<char> {
        match self {
            RuntimeErrorKindView::InvalidOperation => "InvalidOperation"@,
            RuntimeErrorKindView::InvalidArithmeticOperation => "InvalidArithmeticOperation"@,
            RuntimeErrorKindView::UndefinedVariable { name } => "UndefinedVariable("@ + name
                + ")"@,
        }
    }
}

impl View for RuntimeErrorKind {
    type V = RuntimeErrorKindView;

    open spec fn view(&self) -> RuntimeErrorKindView {
        match self {
            RuntimeErrorKind::InvalidOperation => RuntimeErrorKindView::InvalidOperation,
            RuntimeErrorKind::InvalidArithmeticOperation =>
                RuntimeErrorKindView::InvalidArithmeticOperation,
            RuntimeErrorKind::UndefinedVariable { name } => RuntimeErrorKindView::UndefinedVariable {
                name: name@,
            },
        }
    }
}

impl Clone for RuntimeErrorKind {
    fn clone(&self) -> (r: Self)
        ensures
            r == *self,
    {
        match self {
            RuntimeErrorKind::InvalidOperation => RuntimeErrorKind::InvalidOperation,
            RuntimeErrorKind::InvalidArithmeticOperation =>
                RuntimeErrorKind::InvalidArithmeticOperation,
            RuntimeErrorKind::UndefinedVariable { name } => RuntimeErrorKind::UndefinedVariable {
                name: name.clone(),
            },
        }
    }
}

impl RuntimeErrorKind {
    pub fn to_string(&self) -> (r: String)
        ensures
            r@ == self@.text(),
    {
        match self {
            RuntimeErrorKind::InvalidOperation => String::from_str("InvalidOperation"),
            RuntimeErrorKind::InvalidArithmeticOperation => String::from_str(
                "InvalidArithmeticOperation",
            ),
            RuntimeErrorKind::UndefinedVariable { name } => String::from_str(
                "UndefinedVariable(",
            ).concat(name.as_str()).concat(")"),
        }
    }
}

/// A run-time error.
#[derive(Debug)]
pub struct RuntimeError {
    pub kind: RuntimeErrorKind,
}

pub struct RuntimeErrorView {
    pub kind: RuntimeErrorKindView,
}

impl RuntimeErrorView {
    pub open spec fn text(self) -> Seq<char> {
        "RuntimeError: "@ + self.kind.text()
    }

    pub open spec fn invalid_operation() -> RuntimeErrorView {
        RuntimeErrorView { kind: RuntimeErrorKindView::InvalidOperation }
    }

    pub open spec fn undefined_variable(name: Seq<char>) -> RuntimeErrorView {
        RuntimeErrorView { kind: RuntimeErrorKindView::UndefinedVariable { name } }
    }
}

impl View for RuntimeError {
    type V = RuntimeErrorView;

    open spec fn view(&self) -> RuntimeErrorView {
        RuntimeErrorView { kind: self.kind@ }
    }
}

impl Clone for RuntimeError {
    fn clone(&self) -> (r: Self)
        ensures
            r == *self,
    {
        RuntimeError { kind: self.kind.clone() }
    }
}

impl RuntimeError {
    pub fn new(kind: RuntimeErrorKind) -> (r: Self)
        ensures
            r == (RuntimeError { kind }),
    {
        RuntimeError { kind }
    }

    pub fn to_string(&self) -> (r: String)
        ensures
            r@ == self@.text(),
    {
        let kind = self.kind.to_string();
        String::from_str("RuntimeError: ").concat(kind.as_str())
    }
}

} // verus!
