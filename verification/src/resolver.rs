//! How a generated accessor decides of which sort the cause of an error is.
//!
//! The decision is made by the type of the field that carries the cause.
//! Each resolver has a method `resolve` of its own for a cause whose type
//! has the capability, and gives way to its fallback for any other type. So
//! for one cause exactly one of the two resolvers hands something out: the
//! first an error with the capability, the second a plain error.

use vstd::prelude::*;
use crate::boxed_stack_error::BoxedStackError;
use crate::stack_error::{PlainError, StackError};

verus! {

/// Looks at the value of a field that carries the cause, for a cause with
/// the capability.
pub struct StackSourceResolver<'a, T: ?Sized>(pub &'a T);

impl<'a, T: StackError> StackSourceResolver<'a, T> {
    /// A cause with the capability is handed out, with its type erased.
    pub fn resolve(&self) -> (r: Option<BoxedStackError>)
        ensures
            r matches Some(cause) && cause.erased_frame() == self.0.frame()
                && cause.erased_causes() == self.0.causes(),
    {
        Some(BoxedStackError::capture(self.0))
    }
}

/// What stands in for a cause without the capability: a resolver gives way
/// to it where the type of the cause has no capability.
pub struct NotStackErrorFallback;

impl NotStackErrorFallback {
    /// A cause without the capability is no cause to walk into.
    pub fn resolve(&self) -> (r: Option<BoxedStackError>)
        ensures
            r is None,
    {
        None
    }
}

impl<T: ?Sized> core::ops::Deref for StackSourceResolver<'_, T> {
    type Target = NotStackErrorFallback;

    fn deref(&self) -> &NotStackErrorFallback {
        &NotStackErrorFallback
    }
}

/// What a plain cause is recorded from: the cause itself.
pub struct PlainSourceFallback<'a, T: ?Sized>(pub &'a T);

impl<'a> PlainSourceFallback<'a, PlainError> {
    /// A plain cause is handed out as its record.
    pub fn resolve(&self) -> (r: Option<PlainError>)
        ensures
            r matches Some(record) && record.messages() == self.0.messages(),
    {
        Some(crate::stack_error::record_plain(self.0))
    }
}

/// Looks at the value of a field that carries the cause, for a plain cause.
pub struct PlainSourceResolver<'a, T: ?Sized>(pub PlainSourceFallback<'a, T>);

impl<'a, T: StackError> PlainSourceResolver<'a, T> {
    /// A cause with the capability is no plain cause.
    pub fn resolve(&self) -> (r: Option<PlainError>)
        ensures
            r is None,
    {
        None
    }
}

impl<'a, T: ?Sized> core::ops::Deref for PlainSourceResolver<'a, T> {
    type Target = PlainSourceFallback<'a, T>;

    fn deref(&self) -> (fallback: &PlainSourceFallback<'a, T>)
        ensures
            *fallback == self.0,
    {
        &self.0
    }
}

} // verus!
