//! The report of an error and of the chain of causes behind it.

use vstd::prelude::*;
use crate::boxed_stack_error::BoxedStackError;
use crate::location::{location_text, Location};
use crate::stack_error::{plain_causes, CauseView, FrameView, PlainError, StackError};
use crate::text::{decimal_text, push_decimal};

verus! {

/// How an error with the capability is written: its type, its message and
/// its location.
pub open spec fn frame_text(frame: FrameView) -> Seq<char> {
    frame.type_label + ": "@ + frame.message + ", at "@ + location_text(frame.location)
}

/// How a cause is written: a plain cause by its message alone.
pub open spec fn cause_text(cause: CauseView) -> Seq<char> {
    match cause {
        CauseView::Stack(frame) => frame_text(frame),
        CauseView::Plain(message) => message,
    }
}

/// The line of the cause with the number `index`.
pub open spec fn cause_line(index: nat, cause: CauseView) -> Seq<char> {
    "  "@ + decimal_text(index) + "| "@ + cause_text(cause) + "\n"@
}

/// The lines of a chain of causes, numbered from `first` on.
pub open spec fn cause_lines(causes: Seq<CauseView>, first: nat) -> Seq<char>
    decreases causes.len(),
{
    if causes.len() == 0 {
        Seq::empty()
    } else {
        cause_line(first, causes[0]) + cause_lines(causes.drop_first(), first + 1)
    }
}

/// The report of an error: its own frame; then, where it has causes, the
/// banner and the causes, numbered from 1 on. The report ends with a newline.
pub open spec fn report_text(frame: FrameView, causes: Seq<CauseView>) -> Seq<char> {
    "Error: "@ + frame_text(frame) + if causes.len() == 0 {
        "\n"@
    } else {
        "\nCaused by the following errors (recent errors listed first):\n"@ + cause_lines(causes, 1)
    }
}

fn push_frame(out: &mut String, label: &str, message: &str, location: &Location)
    ensures
        final(out)@ == old(out)@ + frame_text(
            FrameView { type_label: label@, message: message@, location: location@ },
        ),
{
    let at = location.to_string();
    out.append(label);
    out.append(": ");
    out.append(message);
    out.append(", at ");
    out.append(at.as_str());
}

/// The lines of a chain that starts with a plain cause are the line of that
/// cause and the lines of what is behind it.
proof fn lemma_plain_lines(messages: Seq<Seq<char>>, first: nat)
    requires
        messages.len() > 0,
    ensures
        cause_lines(plain_causes(messages), first) == cause_line(
            first,
            CauseView::Plain(messages[0]),
        ) + cause_lines(plain_causes(messages.drop_first()), first + 1),
{
    assert(plain_causes(messages).drop_first() =~= plain_causes(messages.drop_first()));
}

/// Appends the report of `error` to `out`.
pub fn write_report<E: StackError + ?Sized>(error: &E, out: &mut String)
    requires
        error.causes().len() < u64::MAX,
    ensures
        final(out)@ == old(out)@ + report_text(error.frame(), error.causes()),
{
    let ghost all = error.causes();
    let message = error.message();
    out.append("Error: ");
    push_frame(out, error.type_label(), message.as_str(), error.location());
    let first_stack = error.stack_source();
    let first_plain = match first_stack {
        Some(_) => None,
        None => error.plain_source(),
    };
    let mut stack: Option<&BoxedStackError> = first_stack.as_ref();
    let mut plain: Option<&PlainError> = first_plain.as_ref();
    if stack.is_none() && plain.is_none() {
        out.append("\n");
        return ;
    }
    proof {
        match plain {
            Some(cause) => {
                cause.lemma_messages_nonempty();
            },
            None => {},
        }
    }
    out.append("\nCaused by the following errors (recent errors listed first):\n");
    let ghost head = out@;
    let mut index: u64 = 1;
    let ghost mut rest = all;
    // The causes with the capability.
    loop
        invariant
            1 <= index,
            index + rest.len() == all.len() + 1,
            all.len() < u64::MAX,
            out@ + cause_lines(rest, index as nat) == head + cause_lines(all, 1),
            match stack {
                Some(cause) => rest == seq![CauseView::Stack(cause.erased_frame())]
                    + cause.erased_causes(),
                None => match plain {
                    Some(cause) => rest == plain_causes(cause.messages()),
                    None => rest.len() == 0,
                },
            },
        ensures
            stack is None,
            1 <= index,
            index + rest.len() == all.len() + 1,
            all.len() < u64::MAX,
            out@ + cause_lines(rest, index as nat) == head + cause_lines(all, 1),
            match plain {
                Some(cause) => rest == plain_causes(cause.messages()),
                None => rest.len() == 0,
            },
        decreases rest.len(),
    {
        let cause = match stack {
            Some(cause) => cause,
            None => {
                break ;
            },
        };
        let message = cause.message();
        out.append("  ");
        push_decimal(out, index);
        out.append("| ");
        push_frame(out, cause.type_label(), message.as_str(), cause.location());
        out.append("\n");
        proof {
            rest = rest.drop_first();
        }
        index = index + 1;
        stack = cause.stack_cause();
        if stack.is_none() {
            plain = cause.plain_cause();
        }
    }
    // The plain causes.
    loop
        invariant
            1 <= index,
            index + rest.len() == all.len() + 1,
            all.len() < u64::MAX,
            out@ + cause_lines(rest, index as nat) == head + cause_lines(all, 1),
            match plain {
                Some(cause) => rest == plain_causes(cause.messages()),
                None => rest.len() == 0,
            },
        ensures
            rest.len() == 0,
            out@ + cause_lines(rest, index as nat) == head + cause_lines(all, 1),
        decreases rest.len(),
    {
        let cause = match plain {
            Some(cause) => cause,
            None => {
                break ;
            },
        };
        let ghost messages = cause.messages();
        proof {
            cause.lemma_messages_nonempty();
            lemma_plain_lines(messages, index as nat);
        }
        out.append("  ");
        push_decimal(out, index);
        out.append("| ");
        out.append(cause.message());
        out.append("\n");
        plain = cause.source();
        proof {
            rest = plain_causes(messages.drop_first());
        }
        index = index + 1;
    }
}

/// The report of `error`.
pub fn format_report<E: StackError + ?Sized>(error: &E) -> (text: String)
    requires
        error.causes().len() < u64::MAX,
    ensures
        text@ == report_text(error.frame(), error.causes()),
{
    let mut text = String::new();
    write_report(error, &mut text);
    text
}

/// The outcome of an operation, ready to be shown where a program ends:
/// success, or an error with the capability.
pub struct StackReport<E: StackError>(Result<(), E>);

impl<E: StackError> StackReport<E> {
    /// The outcome that the report holds.
    pub closed spec fn outcome(&self) -> Result<(), E> {
        self.0
    }

    /// The report that holds `result`.
    pub closed spec fn report_of(result: Result<(), E>) -> StackReport<E> {
        StackReport(result)
    }

    /// The report that holds an outcome holds that outcome and no other, and
    /// every report is the one that holds its outcome. So a conversion into a
    /// report shows what `display_text` says of the outcome that went in.
    pub proof fn lemma_report_of(result: Result<(), E>)
        ensures
            Self::report_of(result).outcome() == result,
            forall|report: StackReport<E>| #[trigger]
                report.outcome() == result ==> report == Self::report_of(result),
    {
    }

    /// The report of a failure: the same as the conversion of `error`, and of
    /// `Err(error)`, into a report.
    pub fn from_error(error: E) -> (report: StackReport<E>)
        ensures
            report.outcome() == Err::<(), E>(error),
            report == Self::report_of(Err(error)),
    {
        StackReport(Err(error))
    }

    /// The report of an outcome: the same as the conversion of `result` into a report.
    pub fn from_result(result: Result<(), E>) -> (report: StackReport<E>)
        ensures
            report.outcome() == result,
            report == Self::report_of(result),
    {
        StackReport(result)
    }

    /// The error of a failure.
    pub fn error(&self) -> (r: Option<&E>)
        ensures
            match r {
                Some(error) => self.outcome() == Err::<(), E>(*error),
                None => self.outcome() is Ok,
            },
    {
        match &self.0 {
            Ok(()) => None,
            Err(error) => Some(error),
        }
    }

    /// What the report shows: nothing for a success, the report of the error for a failure.
    pub open spec fn display_text(&self) -> Seq<char> {
        match self.outcome() {
            Ok(()) => Seq::empty(),
            Err(error) => report_text(error.frame(), error.causes()),
        }
    }

    /// The text that the report shows.
    pub fn to_string(&self) -> (text: String)
        requires
            self.outcome() matches Err(error) ==> error.causes().len() < u64::MAX,
        ensures
            text@ == self.display_text(),
    {
        match &self.0 {
            Ok(()) => String::new(),
            Err(error) => format_report(error),
        }
    }

    /// The text that the report shows to a developer: the same as `to_string`.
    pub fn debug_string(&self) -> (text: String)
        requires
            self.outcome() matches Err(error) ==> error.causes().len() < u64::MAX,
        ensures
            text@ == self.display_text(),
    {
        self.to_string()
    }

    /// Whether the report is that of a failure, which ends a program with a
    /// status other than success.
    pub fn is_failure(&self) -> (failed: bool)
        ensures
            failed == (self.outcome() is Err),
    {
        self.0.is_err()
    }
}

/// The frames that a report shows after the first: one for each cause, numbered from 1 on.
pub open spec fn numbered_frames(causes: Seq<CauseView>, first: nat) -> Seq<Seq<char>> {
    Seq::new(causes.len(), |i: int| cause_line((first + i) as nat, causes[i]))
}

/// The lines of a chain of causes are its numbered frames, one after the other.
pub proof fn lemma_cause_lines_are_frames(causes: Seq<CauseView>, first: nat)
    ensures
        cause_lines(causes, first) == numbered_frames(causes, first).flatten(),
    decreases causes.len(),
{
    if causes.len() > 0 {
        lemma_cause_lines_are_frames(causes.drop_first(), first + 1);
        assert(numbered_frames(causes, first).drop_first() =~= numbered_frames(
            causes.drop_first(),
            first + 1,
        ));
    }
}

/// The report of an error without a cause is exactly one line:
/// `Error: type: message, at file:line:column`. It has no banner.
pub proof fn lemma_report_without_cause(frame: FrameView)
    ensures
        report_text(frame, Seq::empty()) == "Error: "@ + frame.type_label + ": "@ + frame.message
            + ", at "@ + frame.location.file + ":"@ + decimal_text(frame.location.line as nat)
            + ":"@ + decimal_text(frame.location.column as nat) + "\n"@,
{
}

/// The report of an error whose cause has the capability and has a plain
/// cause itself: the first frame, the banner, the frame `1` with a location,
/// and the frame `2` without one. It ends with one newline.
pub proof fn lemma_report_with_both_causes(root: FrameView, cause: FrameView, plain: Seq<char>)
    ensures
        report_text(root, seq![CauseView::Stack(cause), CauseView::Plain(plain)]) == "Error: "@
            + frame_text(root)
            + "\nCaused by the following errors (recent errors listed first):\n"@ + "  1| "@
            + frame_text(cause) + "\n"@ + "  2| "@ + plain + "\n"@,
{
    let causes = seq![CauseView::Stack(cause), CauseView::Plain(plain)];
    reveal_strlit("  1| ");
    reveal_strlit("  2| ");
    reveal_strlit("  ");
    reveal_strlit("| ");
    assert(cause_lines(causes.drop_first().drop_first(), 3) =~= Seq::<char>::empty());
    assert(cause_lines(causes.drop_first(), 2) =~= "  2| "@ + plain + "\n"@);
}

/// A report shows one frame after the first for each cause of the error, and
/// the banner stands before them exactly when there is one. So the depth of
/// an error, which is the number of its causes, is the number of frames that
/// its report shows after the first.
pub proof fn lemma_depth_counts_frames<E: StackError + ?Sized>(error: &E)
    ensures
        numbered_frames(error.causes(), 1).len() == error.causes().len(),
        report_text(error.frame(), error.causes()) == "Error: "@ + frame_text(error.frame()) + (
        if error.causes().len() == 0 {
            "\n"@
        } else {
            "\nCaused by the following errors (recent errors listed first):\n"@
                + numbered_frames(error.causes(), 1).flatten()
        }),
{
    lemma_cause_lines_are_frames(error.causes(), 1);
}

impl<E: StackError> From<E> for StackReport<E> {
    fn from(error: E) -> (report: StackReport<E>) {
        StackReport(Err(error))
    }
}

impl<E: StackError> vstd::std_specs::convert::FromSpecImpl<E> for StackReport<E> {
    open spec fn obeys_from_spec() -> bool {
        true
    }

    open spec fn from_spec(error: E) -> StackReport<E> {
        StackReport::report_of(Err(error))
    }
}

impl<E: StackError> From<Result<(), E>> for StackReport<E> {
    fn from(result: Result<(), E>) -> (report: StackReport<E>) {
        StackReport(result)
    }
}

impl<E: StackError> vstd::std_specs::convert::FromSpecImpl<Result<(), E>> for StackReport<E> {
    open spec fn obeys_from_spec() -> bool {
        true
    }

    open spec fn from_spec(result: Result<(), E>) -> StackReport<E> {
        StackReport::report_of(result)
    }
}

} // verus!
