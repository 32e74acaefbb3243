//! A small stack-oriented bytecode virtual machine.
//!
//! The machine executes frames: fixed programs (instructions, a constant pool and two
//! name tables) paired with their run-time state (operand stack, instruction pointer and
//! two scopes). Every operation is total: a violated expectation is reported as a
//! [`VmError`] instead of aborting.

pub mod arith;
pub mod builtin;
pub mod compare;
pub mod dispatch;
pub mod error;
pub mod frame;
pub mod handlers;
pub mod instruction;
pub mod laws;
pub mod machine;
pub mod render;
pub mod scope;
pub mod single;
pub mod value;

pub use arith::{ArithOp, FloatRequest, Outcome, OutcomeView};
pub use compare::Relation;
pub use dispatch::{Effect, EffectView};
pub use error::VmError;
pub use instruction::{CompareOps, Instruction};
pub use machine::{Action, ActionView, Machine, MachineView};
pub use scope::{Binding, Scope};
pub use value::{Frame, FrameView, Value, ValueView};
