//! Where an error was constructed: a file, a line and a column.

use vstd::prelude::*;
use crate::text::{decimal_text, push_decimal};

verus! {

/// A place in source code. It is captured once, where an error is
/// constructed, and never changes afterwards.
#[derive(Debug)]
pub struct Location {
    file: String,
    line: u32,
    column: u32,
}

/// What a `Location` holds.
pub struct LocationView {
    pub file: Seq<char>,
    pub line: u32,
    pub column: u32,
}

/// How a location is written: `file:line:column`.
pub open spec fn location_text(at: LocationView) -> Seq<char> {
    at.file + ":"@ + decimal_text(at.line as nat) + ":"@ + decimal_text(at.column as nat)
}

impl View for Location {
    type V = LocationView;

    closed spec fn view(&self) -> LocationView {
        LocationView { file: self.file@, line: self.line, column: self.column }
    }
}

impl Location {
    /// The location of the call site whose file, line and column are given.
    pub fn current(file: &str, line: u32, column: u32) -> (at: Location)
        ensures
            at@ == (LocationView { file: file@, line, column }),
    {
        Location { file: file.to_owned(), line, column }
    }

    /// The name of the source file.
    pub fn file(&self) -> (file: &str)
        ensures
            file@ == self@.file,
    {
        self.file.as_str()
    }

    /// The line number.
    pub fn line(&self) -> (line: u32)
        ensures
            line == self@.line,
    {
        self.line
    }

    /// The column number.
    pub fn column(&self) -> (column: u32)
        ensures
            column == self@.column,
    {
        self.column
    }

    /// The location as text: `file:line:column`.
    pub fn to_string(&self) -> (text: String)
        ensures
            text@ == location_text(self@),
    {
        let mut text = self.file.clone();
        text.append(":");
        push_decimal(&mut text, self.line as u64);
        text.append(":");
        push_decimal(&mut text, self.column as u64);
        text
    }
}

impl Clone for Location {
    fn clone(&self) -> (copy: Location)
        ensures
            copy@ == self@,
    {
        Location { file: self.file.clone(), line: self.line, column: self.column }
    }
}

} // verus!
