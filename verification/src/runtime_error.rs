//! The error taxonomy every component reports through. Each operation of the
//! core returns its error to the caller; the core never panics on reachable
//! input.

use vstd::prelude::*;

use crate::internal_error::InternalError;

verus! {

/// Everything that can go wrong while feeding tokens to the runtime.
#[derive(Clone, Debug, PartialEq, Eq)]
pub enum RuntimeError {
    /// A lower-level or internal-consistency failure the core must surface.
    InternalError(InternalError),
    /// An operation needed more stack items than were present; the stack is
    /// left unmodified.
    StackUnderflow,
    /// A push would exceed the store's configured maximum depth.
    StackOverflow,
    /// An arithmetic operation received operand kinds with no defined
    /// coercion.
    IncompatibleTypes,
    /// Neither dictionary resolution nor literal parsing succeeded for the
    /// carried token.
    NoWordsByName(String),
    /// Division or modulus with a zero right-hand operand.
    DivisionByZero,
    /// Unsigned subtraction would have gone below zero.
    ArithmeticUnderflow,
    /// Activating a vocabulary would exceed the maximum simultaneous count.
    VocabularyCapacityExceeded,
}

} // verus!
