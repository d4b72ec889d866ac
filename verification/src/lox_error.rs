//! The one error type of the whole pipeline. It records the stage that
//! failed: the front end, which scans and parses, or the run.

use crate::backend::environment::EnvError;
use crate::backend::runtime_error::{RuntimeError, RuntimeErrorKind, RuntimeErrorView};
use crate::frontend::scanner_error::ScannerError;
use crate::frontend::syntax_error::{ParserError, SyntaxError, SyntaxErrorView};
use vstd::prelude::*;
use vstd::std_specs::convert::FromSpecImpl;
use vstd::string::*;

verus! {

#[derive(Debug)]
pub enum LoxError {
    Syntax(SyntaxError),
    Runtime(RuntimeError),
}

pub enum LoxErrorView {
    Syntax(SyntaxErrorView),
    Runtime(RuntimeErrorView),
}

impl LoxErrorView {
    pub open spec fn text(self) -> Seq<char> {
        match self {
            LoxErrorView::Syntax(e) => e.text(),
            LoxErrorView::Runtime(e) => e.text(),
        }
    }
}

impl View for LoxError {
    type V = LoxErrorView;

    open spec fn view(&self) -> LoxErrorView {
        match self {
            LoxError::Syntax(e) => LoxErrorView::Syntax(e@),
            LoxError::Runtime(e) => LoxErrorView::Runtime(e@),
        }
    }
}

impl LoxError {
    pub fn to_string(&self) -> (r: String)
        ensures
            r@ == self@.text(),
    {
        match self {
            LoxError::Syntax(e) => e.to_string(),
            LoxError::Runtime(e) => e.to_string(),
        }
    }
}

impl From<SyntaxError> for LoxError {
    fn from(value: SyntaxError) -> (r: LoxError) {
        LoxError::Syntax(value)
    }
}

impl FromSpecImpl<SyntaxError> for LoxError {
    open spec fn obeys_from_spec() -> bool {
        true
    }

    open spec fn from_spec(value: SyntaxError) -> LoxError {
        LoxError::Syntax(value)
    }
}

impl From<RuntimeError> for LoxError {
    fn from(value: RuntimeError) -> (r: LoxError) {
        LoxError::Runtime(value)
    }
}

impl FromSpecImpl<RuntimeError> for LoxError {
    open spec fn obeys_from_spec() -> bool {
        true
    }

    open spec fn from_spec(value: RuntimeError) -> LoxError {
        LoxError::Runtime(value)
    }
}

impl From<ParserError> for LoxError {
    fn from(value: ParserError) -> (r: LoxError) {
        LoxError::Syntax(SyntaxError::Parser(value))
    }
}

impl FromSpecImpl<ParserError> for LoxError {
    open spec fn obeys_from_spec() -> bool {
        true
    }

    open spec fn from_spec(value: ParserError) -> LoxError {
        LoxError::Syntax(SyntaxError::Parser(value))
    }
}

impl From<ScannerError> for LoxError {
    fn from(value: ScannerError) -> (r: LoxError) {
        LoxError::Syntax(SyntaxError::Scanner(value))
    }
}

impl FromSpecImpl<ScannerError> for LoxError {
    open spec fn obeys_from_spec() -> bool {
        true
    }

    open spec fn from_spec(value: ScannerError) -> LoxError {
        LoxError::Syntax(SyntaxError::Scanner(value))
    }
}

impl From<EnvError> for LoxError {
    fn from(value: EnvError) -> (r: LoxError) {
        LoxError::Runtime(RuntimeError::from(value))
    }
}

impl FromSpecImpl<EnvError> for LoxError {
    open spec fn obeys_from_spec() -> bool {
        true
    }

    open spec fn from_spec(value: EnvError) -> LoxError {
        match value {
            EnvError::UndefinedVariable { name } => LoxError::Runtime(
                RuntimeError { kind: RuntimeErrorKind::UndefinedVariable { name } },
            ),
        }
    }
}

} // verus!
