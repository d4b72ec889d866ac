//! Run-time values, the scope chain and the evaluator.

pub mod environment;
pub mod interpreter;
pub mod machine;
pub mod number;
pub mod runtime_error;
pub mod semantics;
pub mod value;

pub use crate::backend::environment::{Env, EnvError, EnvErrorView, EnvView};
pub use crate::backend::interpreter::{Action, Event, Execution, Interpreter, Request};
pub use crate::backend::machine::{ArithOp, LoopStage, MachineView};
pub use crate::backend::number::Number;
pub use crate::backend::runtime_error::{
    RuntimeError, RuntimeErrorKind, RuntimeErrorKindView, RuntimeErrorView,
};
pub use crate::backend::value::{Value, ValueView};
