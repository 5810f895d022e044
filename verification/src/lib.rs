//! The evaluation engine of a minimal interpreted language: a lexically
//! scoped variable environment ([`Bindings`]), a value model that evaluates
//! expressions to values ([`Expr`]), statements executed against the
//! environment for effect ([`Stmt`]), and a driver ([`Program`]) that seeds
//! the global scope with the built-ins, runs the top-level definitions in
//! order, and invokes the `main` entry point.
//!
//! Every operation is specified against a mathematical model: environments
//! are sequences of maps from names to value models (`bindings`), and the
//! meaning of evaluation is a total, fuel-bounded semantics (`sema`) that
//! the executable interpreter (`interp`) provably implements.  The scoping
//! and mutation disciplines of the language — block teardown, immutable
//! globals, shadowing, globals-only function activations, duplicate
//! rejection, the entry contract, and argument order — are proved in `laws`.
//!
//! Failures are never panics: every violation aborts the run with a variant
//! of [`Error`], and the contracts say exactly which inputs produce which.
//! The `print` built-in's effect is modelled as the ordered sequence of
//! lines a run emits; [`Program::run`] returns them, and writing them to an
//! actual output stream is left to the embedding process.

pub mod ast;
pub mod bindings;
pub mod error;
pub mod interp;
pub mod laws;
pub mod program;
pub mod render;
pub mod sema;

pub use ast::{Block, Definition, Expr, FnDef, Stmt};
pub use bindings::{Bindings, Frame};
pub use error::Error;
pub use program::Program;
