//! Errors with the capability whose concrete type is erased.

use vstd::prelude::*;
use crate::location::Location;
use crate::stack_error::{
    plain_causes, stack_causes_first, CauseView, FrameView, PlainError, StackError,
};

verus! {

/// The cause of an erased error.
#[derive(Debug)]
pub enum Source {
    /// The error is the root of its chain.
    Root,
    /// The cause has the capability.
    Stack(BoxedStackError),
    /// The cause is a plain error.
    Plain(PlainError),
}

/// An error with the capability, as it is kept once its concrete type is
/// erased: what it reported of itself, and its cause.
#[derive(Debug)]
pub struct ErasedError {
    type_label: &'static str,
    message: String,
    location: Location,
    source: Source,
}

/// The handle that carries an error of any type with the capability. It owns
/// exactly one erased error.
#[derive(Debug)]
pub struct BoxedStackError {
    inner: Box<ErasedError>,
}

impl ErasedError {
    /// What the error reports of itself.
    pub closed spec fn erased_frame(&self) -> FrameView {
        FrameView {
            type_label: self.type_label@,
            message: self.message@,
            location: self.location@,
        }
    }

    /// The chain of causes behind the error, nearest first.
    pub closed spec fn erased_causes(&self) -> Seq<CauseView>
        decreases self,
    {
        match self.source {
            Source::Root => Seq::empty(),
            Source::Stack(cause) => seq![CauseView::Stack(cause.inner.erased_frame())]
                + cause.inner.erased_causes(),
            Source::Plain(cause) => plain_causes(cause.messages()),
        }
    }

    /// In the chain behind an error, the causes with the capability come
    /// before the plain ones: once a cause is plain, all behind it are.
    pub proof fn lemma_stack_causes_first(&self)
        ensures
            stack_causes_first(self.erased_causes()),
        decreases self,
    {
        match self.source {
            Source::Root => {},
            Source::Stack(cause) => {
                cause.inner.lemma_stack_causes_first();
                let rest = cause.inner.erased_causes();
                let all = self.erased_causes();
                assert forall|i: int, j: int|
                    #![trigger all[i], all[j]]
                    0 <= i < j < all.len() && all[j] is Stack implies all[i] is Stack by {
                    if i > 0 {
                        assert(all[j] == rest[j - 1]);
                    }
                }
            },
            Source::Plain(cause) => {},
        }
    }

    /// An error without a cause.
    pub fn new(type_label: &'static str, message: String, location: Location) -> (e: ErasedError)
        ensures
            e.erased_frame() == (FrameView {
                type_label: type_label@,
                message: message@,
                location: location@,
            }),
            e.erased_causes() == Seq::<CauseView>::empty(),
    {
        ErasedError { type_label, message, location, source: Source::Root }
    }

    /// This error with `cause` as its cause, in place of the one it had.
    pub fn with_stack_source(self, cause: BoxedStackError) -> (e: ErasedError)
        ensures
            e.erased_frame() == self.erased_frame(),
            e.erased_causes() == seq![CauseView::Stack(cause.erased_frame())]
                + cause.erased_causes(),
    {
        ErasedError {
            type_label: self.type_label,
            message: self.message,
            location: self.location,
            source: Source::Stack(cause),
        }
    }

    /// This error with the plain error `cause` as its cause, in place of the one it had.
    pub fn with_plain_source(self, cause: PlainError) -> (e: ErasedError)
        ensures
            e.erased_frame() == self.erased_frame(),
            e.erased_causes() == plain_causes(cause.messages()),
    {
        ErasedError {
            type_label: self.type_label,
            message: self.message,
            location: self.location,
            source: Source::Plain(cause),
        }
    }

    /// The cause, where it has the capability.
    pub fn stack_cause(&self) -> (r: Option<&BoxedStackError>)
        ensures
            match r {
                Some(cause) => self.erased_causes() == seq![CauseView::Stack(cause.erased_frame())]
                    + cause.erased_causes(),
                None => self.erased_causes().len() == 0 || self.erased_causes()[0] is Plain,
            },
    {
        match &self.source {
            Source::Stack(cause) => Some(cause),
            Source::Plain(cause) => {
                None
            },
            Source::Root => None,
        }
    }

    /// The cause, where it is a plain error.
    pub fn plain_cause(&self) -> (r: Option<&PlainError>)
        ensures
            match r {
                Some(cause) => self.erased_causes() == plain_causes(cause.messages()),
                None => self.erased_causes().len() == 0 || self.erased_causes()[0] is Stack,
            },
    {
        match &self.source {
            Source::Plain(cause) => Some(cause),
            _ => None,
        }
    }

    /// What `error` reports, kept with its type erased.
    pub fn capture<T: StackError + ?Sized>(error: &T) -> (e: ErasedError)
        ensures
            e.erased_frame() == error.frame(),
            e.erased_causes() == error.causes(),
    {
        let source = match error.stack_source() {
            Some(cause) => Source::Stack(cause),
            None => match error.plain_source() {
                Some(cause) => Source::Plain(cause),
                None => {
                    Source::Root
                },
            },
        };
        ErasedError {
            type_label: error.type_label(),
            message: error.message(),
            location: error.location().clone(),
            source,
        }
    }
}

impl Clone for ErasedError {
    fn clone(&self) -> (copy: ErasedError)
        ensures
            copy.erased_frame() == self.erased_frame(),
            copy.erased_causes() == self.erased_causes(),
        decreases self,
    {
        ErasedError {
            type_label: self.type_label,
            message: self.message.clone(),
            location: self.location.clone(),
            source: match &self.source {
                Source::Root => Source::Root,
                Source::Stack(cause) => {
                    let inner: &ErasedError = &cause.inner;
                    Source::Stack(BoxedStackError { inner: Box::new(inner.clone()) })
                },
                Source::Plain(cause) => Source::Plain(cause.clone()),
            },
        }
    }
}

impl BoxedStackError {
    /// What the error in the handle reports of itself.
    pub closed spec fn erased_frame(&self) -> FrameView {
        self.inner.erased_frame()
    }

    /// The chain of causes behind the error in the handle, nearest first.
    pub closed spec fn erased_causes(&self) -> Seq<CauseView> {
        self.inner.erased_causes()
    }

    /// The handle that owns `inner`.
    pub closed spec fn handle_of(inner: Box<ErasedError>) -> BoxedStackError {
        BoxedStackError { inner }
    }

    /// The erased error that the handle owns.
    pub closed spec fn erased(&self) -> Box<ErasedError> {
        self.inner
    }

    /// In the chain behind the error in the handle, the causes with the
    /// capability come before the plain ones.
    pub proof fn lemma_stack_causes_first(&self)
        ensures
            stack_causes_first(self.erased_causes()),
    {
        self.inner.lemma_stack_causes_first();
    }

    /// The handle of an erased error owns that error and no other, and every
    /// handle is the handle of the error that it owns: wrapping and unwrapping
    /// give back what went in, with its frame and its causes.
    pub proof fn lemma_handle_of(inner: Box<ErasedError>)
        ensures
            Self::handle_of(inner).erased() == inner,
            Self::handle_of(inner).erased_frame() == inner.erased_frame(),
            Self::handle_of(inner).erased_causes() == inner.erased_causes(),
            forall|boxed: BoxedStackError| #[trigger]
                boxed.erased() == inner ==> boxed == Self::handle_of(inner),
    {
    }

    /// What the handle reports is what the error that it owns reports.
    pub proof fn lemma_erased(&self)
        ensures
            Self::handle_of(self.erased()) == *self,
            self.erased().erased_frame() == self.erased_frame(),
            self.erased().erased_causes() == self.erased_causes(),
    {
    }

    /// Erases the type of an error with the capability.
    pub fn new<T: StackError>(inner: T) -> (boxed: BoxedStackError)
        ensures
            boxed.erased_frame() == inner.frame(),
            boxed.erased_causes() == inner.causes(),
    {
        BoxedStackError { inner: Box::new(ErasedError::capture(&inner)) }
    }

    /// Erases the type of an error with the capability that is held by someone else.
    pub fn capture<T: StackError + ?Sized>(error: &T) -> (boxed: BoxedStackError)
        ensures
            boxed.erased_frame() == error.frame(),
            boxed.erased_causes() == error.causes(),
    {
        BoxedStackError { inner: Box::new(ErasedError::capture(error)) }
    }

    /// The cause, where it has the capability.
    pub fn stack_cause(&self) -> (r: Option<&BoxedStackError>)
        ensures
            match r {
                Some(cause) => self.erased_causes() == seq![CauseView::Stack(cause.erased_frame())]
                    + cause.erased_causes(),
                None => self.erased_causes().len() == 0 || self.erased_causes()[0] is Plain,
            },
    {
        self.inner.stack_cause()
    }

    /// The cause, where it is a plain error.
    pub fn plain_cause(&self) -> (r: Option<&PlainError>)
        ensures
            match r {
                Some(cause) => self.erased_causes() == plain_causes(cause.messages()),
                None => self.erased_causes().len() == 0 || self.erased_causes()[0] is Stack,
            },
    {
        self.inner.plain_cause()
    }

    /// Hands out the erased error.
    pub fn into_inner(self) -> (inner: Box<ErasedError>)
        ensures
            inner == self.erased(),
            inner.erased_frame() == self.erased_frame(),
            inner.erased_causes() == self.erased_causes(),
    {
        self.inner
    }

    /// The number of causes behind the error in the handle.
    pub fn count_causes(&self) -> (n: usize)
        requires
            self.erased_causes().len() <= usize::MAX,
        ensures
            n == self.erased_causes().len(),
    {
        let mut n: usize = 0;
        let mut current: &ErasedError = &self.inner;
        loop
            invariant
                n + current.erased_causes().len() == self.erased_causes().len(),
                self.erased_causes().len() <= usize::MAX,
            decreases current.erased_causes().len(),
        {
            match &current.source {
                Source::Root => {
                    return n;
                },
                Source::Stack(cause) => {
                    n = n + 1;
                    current = &cause.inner;
                },
                Source::Plain(cause) => {
                    return n + crate::stack_error::count_messages(cause);
                },
            }
        }
    }
}

impl Clone for BoxedStackError {
    fn clone(&self) -> (copy: BoxedStackError)
        ensures
            copy.erased_frame() == self.erased_frame(),
            copy.erased_causes() == self.erased_causes(),
    {
        let inner: &ErasedError = &self.inner;
        BoxedStackError { inner: Box::new(inner.clone()) }
    }
}

impl StackError for ErasedError {
    open spec fn frame(&self) -> FrameView {
        self.erased_frame()
    }

    open spec fn causes(&self) -> Seq<CauseView> {
        self.erased_causes()
    }

    fn location(&self) -> (at: &Location) {
        &self.location
    }

    fn type_label(&self) -> (label: &'static str) {
        self.type_label
    }

    fn message(&self) -> (text: String) {
        self.message.clone()
    }

    fn stack_source(&self) -> (r: Option<BoxedStackError>) {
        match self.stack_cause() {
            Some(cause) => Some(cause.clone()),
            None => None,
        }
    }

    fn plain_source(&self) -> (r: Option<PlainError>) {
        match self.plain_cause() {
            Some(cause) => Some(cause.clone()),
            None => None,
        }
    }
}

impl StackError for BoxedStackError {
    open spec fn frame(&self) -> FrameView {
        self.erased_frame()
    }

    open spec fn causes(&self) -> Seq<CauseView> {
        self.erased_causes()
    }

    fn location(&self) -> (at: &Location) {
        self.inner.location()
    }

    fn type_label(&self) -> (label: &'static str) {
        self.inner.type_label()
    }

    fn message(&self) -> (text: String) {
        self.inner.message()
    }

    fn stack_source(&self) -> (r: Option<BoxedStackError>) {
        self.inner.stack_source()
    }

    fn plain_source(&self) -> (r: Option<PlainError>) {
        self.inner.plain_source()
    }
}

impl From<Box<ErasedError>> for BoxedStackError {
    fn from(inner: Box<ErasedError>) -> (boxed: BoxedStackError) {
        BoxedStackError { inner }
    }
}

impl vstd::std_specs::convert::FromSpecImpl<Box<ErasedError>> for BoxedStackError {
    open spec fn obeys_from_spec() -> bool {
        true
    }

    open spec fn from_spec(inner: Box<ErasedError>) -> BoxedStackError {
        BoxedStackError::handle_of(inner)
    }
}

impl From<BoxedStackError> for Box<ErasedError> {
    fn from(boxed: BoxedStackError) -> (inner: Box<ErasedError>) {
        boxed.inner
    }
}

impl vstd::std_specs::convert::FromSpecImpl<BoxedStackError> for Box<ErasedError> {
    open spec fn obeys_from_spec() -> bool {
        true
    }

    open spec fn from_spec(boxed: BoxedStackError) -> Box<ErasedError> {
        boxed.erased()
    }
}

} // verus!
