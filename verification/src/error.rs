use vstd::prelude::*;

verus! {

/// The failure taxonomy of the interpreter.  Every variant is detected at the
/// point of violation and aborts the whole run: the interpreted language has
/// no user-catchable exceptions, so the driver surfaces the variant instead.
#[derive(Clone, Copy, Debug, PartialEq, Eq, Structural)]
pub enum Error {
    /// `add` was called with a name already present in the topmost frame.
    DuplicateBinding,
    /// `get` or `change` could not locate a name in any eligible frame.
    UnboundName,
    /// `change` targeted a name that exists only in the global frame.
    ImmutableGlobal,
    /// A call's callee evaluated to a value without call semantics.
    NotCallable,
    /// A call supplied a different argument count than the callable declares.
    ArityMismatch,
    /// `main` was unbound at run start.
    EntryPointMissing,
    /// `main` was bound to a non-Function value at run start.
    EntryPointWrongType,
    /// The evaluation depth bound was exhausted.  Evaluation is total here, so
    /// a depth budget replaces the unbounded recursion of a naive walker; a
    /// run that would diverge, or nest deeper than the budget, reports this.
    OutOfFuel,
}

} // verus!
