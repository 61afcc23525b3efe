//! The adapter that lets a value that can only be shown serve as a cause.

use vstd::prelude::*;
use vstd::string::to_string_from_display_ensures;
use core::fmt::{Debug, Display};
use crate::stack_error::PlainError;

verus! {

/// Wraps a value that can be shown but is no error, so that it can stand
/// where a cause is expected. The wrapper has no cause of its own: wrapping
/// an error that has a cause loses that cause.
pub struct DisplayError<E>(E);

/// What `{:?}` writes for `value`.
///
/// The body is `format!("{:?}", value)`. Nothing is claimed of the text: it is whatever the
/// `Debug` impl of `E` writes.
#[verifier::external_body]
fn debug_text<E: Debug>(value: &E) -> (text: String) {
    format!("{:?}", value)
}

impl<E> DisplayError<E> {
    /// The wrapped value.
    pub closed spec fn inner(&self) -> E {
        self.0
    }

    /// The wrapper of `error`.
    pub closed spec fn wrap(error: E) -> DisplayError<E> {
        DisplayError(error)
    }

    /// Unwraps and returns the inner value.
    pub fn into_inner(self) -> (error: E)
        ensures
            error == self.inner(),
    {
        self.0
    }

    /// The cause of the wrapper: it has none.
    pub fn source(&self) -> (r: Option<&PlainError>)
        ensures
            r is None,
    {
        None
    }

    /// Unwrapping what was wrapped gives the value back.
    pub proof fn lemma_wrap_then_unwrap(error: E)
        ensures
            Self::wrap(error).inner() == error,
    {
    }
}

impl<E: Debug + Display> DisplayError<E> {
    /// Wraps `error`. There is no other way into the wrapper: nothing converts into it
    /// silently.
    pub fn new(error: E) -> (wrapped: DisplayError<E>)
        ensures
            wrapped == Self::wrap(error),
    {
        DisplayError(error)
    }
}

impl<E: Display> DisplayError<E> {
    /// The text that the wrapped value shows.
    pub fn to_string(&self) -> (text: String)
        ensures
            to_string_from_display_ensures::<E>(&self.inner(), text),
    {
        self.0.to_string()
    }
}

impl<E: Debug> DisplayError<E> {
    /// The text that the wrapped value shows to a developer.
    pub fn debug_string(&self) -> (text: String) {
        debug_text(&self.0)
    }
}

} // verus!
