//! Location-tracking errors.
//!
//! Two things are here. The first is what happens when an error type is
//! defined: its `suzu` annotations are rewritten ([`suzu_attr`]), each of its
//! units is given the field that captures where an error is constructed and
//! the field that carries the cause ([`helper`], [`attribute`]), and the
//! implementation of the capability is planned and written ([`derive`]); a
//! function can be made to return the report of its outcome ([`report`]).
//! All of this works on the [`schema`] of a definition and fails with the
//! [`diagnostic`]s of the definition.
//!
//! The second is what happens when a program runs: an error with the
//! capability ([`stack_error`]) knows its [`location`], can be kept with its
//! type erased ([`boxed_stack_error`]), and is shown with the whole chain of
//! causes behind it ([`stack_report`]). A value that can only be shown
//! becomes a cause through the adapter of [`display_error`].

pub mod attribute;
pub mod boxed_stack_error;
pub mod derive;
pub mod diagnostic;
pub mod display_error;
pub mod helper;
pub mod location;
pub mod report;
pub mod resolver;
pub mod schema;
pub mod stack_error;
pub mod stack_report;
pub mod suzu_attr;
pub mod text;
pub mod views;

pub use crate::boxed_stack_error::{BoxedStackError, ErasedError};
pub use crate::display_error::DisplayError;
pub use crate::location::Location;
pub use crate::resolver::{
    NotStackErrorFallback, PlainSourceFallback, PlainSourceResolver, StackSourceResolver,
};
pub use crate::stack_error::{record_plain, PlainError, StackError};
pub use crate::stack_report::StackReport;
