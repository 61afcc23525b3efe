//! The non-error adapter as the cause of errors with the capability.

use suzunari_error::stack_report::format_report;
use suzunari_error::{
    BoxedStackError, DisplayError, Location, PlainError, StackError, StackReport,
};

const FILE: &str = "tests/display_error_integration.rs";

// A type that can be shown but is no error.
struct FakeLibError {
    message: &'static str,
}

impl std::fmt::Display for FakeLibError {
    fn fmt(&self, f: &mut std::fmt::Formatter<'_>) -> std::fmt::Result {
        f.write_str(self.message)
    }
}

impl std::fmt::Debug for FakeLibError {
    fn fmt(&self, f: &mut std::fmt::Formatter<'_>) -> std::fmt::Result {
        f.write_str(&format!("FakeLibError({})", self.message))
    }
}

/// An error whose cause is held behind the adapter.
struct ConvertError {
    label: &'static str,
    display: &'static str,
    source: DisplayError<FakeLibError>,
    location: Location,
}

impl StackError for ConvertError {
    fn location(&self) -> &Location {
        &self.location
    }

    fn type_label(&self) -> &'static str {
        self.label
    }

    fn message(&self) -> String {
        self.display.to_string()
    }

    fn stack_source(&self) -> Option<BoxedStackError> {
        None
    }

    fn plain_source(&self) -> Option<PlainError> {
        Some(PlainError::new(self.source.to_string()))
    }
}

impl From<ConvertError> for BoxedStackError {
    fn from(error: ConvertError) -> Self {
        BoxedStackError::new(error)
    }
}

fn context(
    result: Result<(), DisplayError<FakeLibError>>,
    label: &'static str,
    display: &'static str,
    line: u32,
) -> Result<(), ConvertError> {
    result.map_err(|source| ConvertError {
        label,
        display,
        source,
        location: Location::current(FILE, line, 10),
    })
}

#[test]
fn test_source_from_auto_convert() {
    fn fake_op() -> Result<(), FakeLibError> {
        Err(FakeLibError { message: "fake lib broke" })
    }
    let err = context(fake_op().map_err(DisplayError::new), "AutoConvertError", "operation failed", 61)
        .unwrap_err();

    let report = StackReport::from_error(err).debug_string();
    assert!(report.contains("operation failed"));
    assert!(report.contains("fake lib broke"));
    assert_eq!(
        report,
        "Error: AutoConvertError: operation failed, at tests/display_error_integration.rs:61:10\nCaused by the following errors (recent errors listed first):\n  1| fake lib broke\n"
    );
}

#[test]
fn test_map_err_manual_convert() {
    fn fake_op() -> Result<(), FakeLibError> {
        Err(FakeLibError { message: "manual" })
    }
    // Wrap with DisplayError::new via map_err
    let err = context(
        fake_op().map_err(DisplayError::new),
        "ManualConvertError",
        "manual convert failed",
        74,
    )
    .unwrap_err();

    let report = StackReport::from_error(err).debug_string();
    assert!(report.contains("manual convert failed"));
    assert!(report.contains("manual"));
}

#[test]
fn test_display_error_with_boxed_stack_error() {
    fn fake_op() -> Result<(), FakeLibError> {
        Err(FakeLibError { message: "boxed" })
    }
    let err = context(fake_op().map_err(DisplayError::new), "AutoConvertError", "operation failed", 117)
        .unwrap_err();
    let boxed: BoxedStackError = err.into();
    let report = StackReport::from_error(boxed).debug_string();
    assert!(report.contains("operation failed"));
    assert!(report.contains("  1| boxed\n"));
}

#[test]
fn adapter_shows_what_it_wraps() {
    let wrapped = DisplayError::new(FakeLibError { message: "shown" });
    assert_eq!(wrapped.to_string(), "shown");
    assert_eq!(wrapped.debug_string(), "FakeLibError(shown)");
    assert!(wrapped.source().is_none());
    assert_eq!(wrapped.into_inner().message, "shown");
    let text = DisplayError::new("plain text");
    assert_eq!(text.to_string(), "plain text");
    assert_eq!(text.debug_string(), "\"plain text\"");
    let number = DisplayError::new(42u8);
    assert_eq!(number.to_string(), "42");
    assert_eq!(format_report(&suzunari_error::ErasedError::new(
        "E",
        number.to_string(),
        Location::current(FILE, 1, 1),
    )), "Error: E: 42, at tests/display_error_integration.rs:1:1\n");
}
