//! A small interpreter for an imperative toy language: integer arithmetic,
//! conditionals, do-while loops, assignment, printing, and recursive function
//! calls. Programs are abstract syntax trees; execution runs a statement
//! against a call stack of variable frames and records every print and every
//! stack mutation in an append-only change log.

pub mod eval;
pub mod laws;
pub mod state;
pub mod syntax;
pub mod text;

pub use eval::{ArgsOutcome, EvalError, ExprOutcome, StmtOutcome};
pub use state::{Change, ChangeView, Stack, StackFrame, State, StateView};
pub use syntax::{BinOp, Expr, ExprView, Function, FunctionView, Statement, StatementView};
pub use text::int_to_string;
