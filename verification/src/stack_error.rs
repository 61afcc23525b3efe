//! The capability interface of location-aware errors, and the causes that
//! such an error can have.

use vstd::prelude::*;
use std::sync::Arc;
use crate::boxed_stack_error::BoxedStackError;
use crate::location::{Location, LocationView};

verus! {

/// What an error with the capability reports of itself.
pub struct FrameView {
    pub type_label: Seq<char>,
    pub message: Seq<char>,
    pub location: LocationView,
}

/// One cause in a chain, as a report shows it.
pub enum CauseView {
    /// A cause with the capability: it has a type name and a location.
    Stack(FrameView),
    /// Any other cause: it has a message only.
    Plain(Seq<char>),
}

/// Whether the causes with the capability come before the plain ones.
pub open spec fn stack_causes_first(causes: Seq<CauseView>) -> bool {
    forall|i: int, j: int|
        #![trigger causes[i], causes[j]]
        0 <= i < j < causes.len() && causes[j] is Stack ==> causes[i] is Stack
}

/// The causes that a chain of plain messages stands for.
pub open spec fn plain_causes(messages: Seq<Seq<char>>) -> Seq<CauseView> {
    Seq::new(messages.len(), |i: int| CauseView::Plain(messages[i]))
}

/// A cause without the capability, such as a failure of the system: its
/// message, and the cause that it has itself.
#[derive(Debug)]
pub struct PlainError {
    message: String,
    source: Option<Box<PlainError>>,
}

impl PlainError {
    /// The messages of this error and of the errors behind it, nearest first.
    pub closed spec fn messages(&self) -> Seq<Seq<char>>
        decreases self,
    {
        seq![self.message@] + match self.source {
            Some(source) => source.messages(),
            None => Seq::empty(),
        }
    }

    /// There is at least the error's own message.
    pub proof fn lemma_messages_nonempty(&self)
        ensures
            self.messages().len() > 0,
    {
    }

    /// An error without a cause.
    pub fn new(message: String) -> (e: PlainError)
        ensures
            e.messages() == seq![message@],
    {
        let e = PlainError { message, source: None };
        e
    }

    /// This error with `source` as its cause, in place of the one it had.
    pub fn with_source(self, source: PlainError) -> (e: PlainError)
        ensures
            e.messages() == seq![self.messages()[0]] + source.messages(),
    {
        PlainError { message: self.message, source: Some(Box::new(source)) }
    }

    /// The error's own message.
    pub fn message(&self) -> (text: &str)
        ensures
            text@ == self.messages()[0],
    {
        self.message.as_str()
    }

    /// The cause of this error, where it has one.
    pub fn source(&self) -> (r: Option<&PlainError>)
        ensures
            match r {
                Some(source) => self.messages() == seq![self.messages()[0]] + source.messages(),
                None => self.messages().len() == 1,
            },
    {
        match &self.source {
            Some(source) => {
                let source: &PlainError = source;
                Some(source)
            },
            None => {
                None
            },
        }
    }
}

impl Clone for PlainError {
    fn clone(&self) -> (copy: PlainError)
        ensures
            copy.messages() == self.messages(),
        decreases self,
    {
        PlainError {
            message: self.message.clone(),
            source: match &self.source {
                Some(source) => {
                    let source: &PlainError = source;
                    Some(Box::new(source.clone()))
                },
                None => None,
            },
        }
    }
}

/// Records a plain cause: the record of a plain error is its copy.
pub fn record_plain(cause: &PlainError) -> (record: PlainError)
    ensures
        record.messages() == cause.messages(),
{
    cause.clone()
}

/// The capability of an error that knows where it was constructed.
///
/// The cause of such an error is of one of two sorts: an error with the
/// capability, or a plain error. An accessor hands a cause out as a record of
/// what the cause reports, so an implementation can hold its cause as a value
/// of any type. `causes` is the whole chain behind the error, nearest cause
/// first: the causes with the capability, then the plain ones.
pub trait StackError {
    /// What the error reports of itself. An implementation in verified code
    /// says what it is; for any other it is left open.
    open spec fn frame(&self) -> FrameView {
        arbitrary()
    }

    /// The chain of causes behind the error, nearest first. An implementation
    /// in verified code says what it is; for any other it is left open.
    open spec fn causes(&self) -> Seq<CauseView> {
        arbitrary()
    }

    /// Where the error was constructed.
    fn location(&self) -> (at: &Location)
        ensures
            at@ == self.frame().location,
    ;

    /// The name of the error's type.
    fn type_label(&self) -> (label: &'static str)
        ensures
            label@ == self.frame().type_label,
    ;

    /// The error's own message.
    fn message(&self) -> (text: String)
        ensures
            text@ == self.frame().message,
    ;

    /// The cause, where it has the capability.
    fn stack_source(&self) -> (r: Option<BoxedStackError>)
        ensures
            match r {
                Some(cause) => self.causes() == seq![CauseView::Stack(cause.erased_frame())]
                    + cause.erased_causes(),
                None => self.causes().len() == 0 || self.causes()[0] is Plain,
            },
    ;

    /// The cause, where it is a plain error.
    fn plain_source(&self) -> (r: Option<PlainError>)
        ensures
            match r {
                Some(cause) => self.causes() == plain_causes(cause.messages()),
                None => self.causes().len() == 0 || self.causes()[0] is Stack,
            },
    ;

    /// The number of causes behind the error.
    fn depth(&self) -> (n: usize)
        requires
            self.causes().len() <= usize::MAX,
        ensures
            n == self.causes().len(),
    {
        match self.stack_source() {
            Some(cause) => {
                1 + cause.count_causes()
            },
            None => match self.plain_source() {
                Some(cause) => {
                    count_messages(&cause)
                },
                None => 0,
            },
        }
    }
}

/// The length of a chain of plain errors.
pub fn count_messages(first: &PlainError) -> (n: usize)
    requires
        first.messages().len() <= usize::MAX,
    ensures
        n == first.messages().len(),
{
    let mut n: usize = 1;
    let mut current = first;
    loop
        invariant
            n + current.messages().len() == first.messages().len() + 1,
            current.messages().len() > 0,
            first.messages().len() <= usize::MAX,
        decreases current.messages().len(),
    {
        match current.source() {
            Some(next) => {
                n = n + 1;
                current = next;
            },
            None => {
                return n;
            },
        }
    }
}

impl<T: StackError> StackError for Box<T> {
    open spec fn frame(&self) -> FrameView {
        (**self).frame()
    }

    open spec fn causes(&self) -> Seq<CauseView> {
        (**self).causes()
    }

    fn location(&self) -> (at: &Location) {
        (**self).location()
    }

    fn type_label(&self) -> (label: &'static str) {
        (**self).type_label()
    }

    fn message(&self) -> (text: String) {
        (**self).message()
    }

    fn stack_source(&self) -> (r: Option<BoxedStackError>) {
        let r = (**self).stack_source();
        assert(self.causes() == (**self).causes());
        r
    }

    fn plain_source(&self) -> (r: Option<PlainError>) {
        (**self).plain_source()
    }
}

impl<T: StackError + ?Sized> StackError for Arc<T> {
    open spec fn frame(&self) -> FrameView {
        (**self).frame()
    }

    open spec fn causes(&self) -> Seq<CauseView> {
        (**self).causes()
    }

    fn location(&self) -> (at: &Location) {
        (**self).location()
    }

    fn type_label(&self) -> (label: &'static str) {
        (**self).type_label()
    }

    fn message(&self) -> (text: String) {
        (**self).message()
    }

    fn stack_source(&self) -> (r: Option<BoxedStackError>) {
        (**self).stack_source()
    }

    fn plain_source(&self) -> (r: Option<PlainError>) {
        (**self).plain_source()
    }
}

} // verus!
