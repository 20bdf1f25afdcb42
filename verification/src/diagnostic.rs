//! Recoverable diagnostics and hard parse failures.

use vstd::prelude::*;
use vstd::string::StringExecFns;

verus! {

/// How much a recoverable diagnostic weighs.
#[derive(Debug, Clone, Copy, PartialEq, Eq, Structural)]
pub enum Severity {
    /// Reported and otherwise without consequence.
    Warning,
    /// Reported, and the run ends with a failing status.
    Error,
}

/// What a recoverable diagnostic complains about.
#[derive(Debug, Clone, Copy, PartialEq, Eq, Structural)]
pub enum DiagnosticKind {
    /// A line that is no assignment, no marker, no comment and not blank.
    IllFormedLine,
    /// Text behind a recognized value or marker that is no comment.
    TrailingContent,
}

/// One recoverable diagnostic, with the text it is about.
#[derive(Debug, Clone, PartialEq, Eq)]
pub struct Diagnostic {
    pub severity: Severity,
    pub kind: DiagnosticKind,
    /// The whole line, or the whole remainder, as it was read.
    pub text: String,
}

/// The mathematical content of a [`Diagnostic`].
pub struct DiagnosticView {
    pub severity: Severity,
    pub kind: DiagnosticKind,
    pub text: Seq<char>,
}

impl View for Diagnostic {
    type V = DiagnosticView;

    open spec fn view(&self) -> DiagnosticView {
        DiagnosticView { severity: self.severity, kind: self.kind, text: self.text@ }
    }
}

impl DeepView for Diagnostic {
    type V = DiagnosticView;

    open spec fn deep_view(&self) -> DiagnosticView {
        self@
    }
}

impl DiagnosticView {
    /// The words that introduce the quoted text in the message.
    pub open spec fn lead(self) -> Seq<char> {
        match (self.kind, self.severity) {
            (DiagnosticKind::IllFormedLine, Severity::Warning) => "ignored ill-formed line: '"@,
            (DiagnosticKind::IllFormedLine, Severity::Error) => "ill-formed line: '"@,
            (DiagnosticKind::TrailingContent, Severity::Warning) => "ignore tailing content: '"@,
            (DiagnosticKind::TrailingContent, Severity::Error) => "unprocessed tailing content: '"@,
        }
    }

    /// The message for a reader: the lead, then the text between single quotes.
    pub open spec fn message(self) -> Seq<char> {
        self.lead() + self.text + "'"@
    }
}

impl Diagnostic {
    /// Words the diagnostic for a reader.
    pub fn message(&self) -> (out: String)
        ensures
            out@ == self@.message(),
    {
        let lead = match (self.kind, self.severity) {
            (DiagnosticKind::IllFormedLine, Severity::Warning) => "ignored ill-formed line: '",
            (DiagnosticKind::IllFormedLine, Severity::Error) => "ill-formed line: '",
            (DiagnosticKind::TrailingContent, Severity::Warning) => "ignore tailing content: '",
            (DiagnosticKind::TrailingContent, Severity::Error) => "unprocessed tailing content: '",
        };
        let mut out = lead.to_owned();
        out.append(self.text.as_str());
        out.append("'");
        out
    }
}

/// Why a value text could not be read.
#[derive(Debug, Clone, Copy, PartialEq, Eq, Structural)]
pub enum ParseErrorKind {
    /// A quoted string ends in a backslash with nothing behind it.
    InvalidEscape,
    /// A quoted string has no closing quote.
    InvalidDelimiter,
    /// The text has the shape of no known literal.
    Unrecognized,
}

/// A hard failure: the run stops and no document is produced.
#[derive(Debug, Clone, PartialEq, Eq)]
pub struct ParseError {
    pub kind: ParseErrorKind,
    /// The value text that could not be read, as it stood behind `=`.
    pub text: String,
}

/// The mathematical content of a [`ParseError`].
pub struct ParseErrorView {
    pub kind: ParseErrorKind,
    pub text: Seq<char>,
}

impl View for ParseError {
    type V = ParseErrorView;

    open spec fn view(&self) -> ParseErrorView {
        ParseErrorView { kind: self.kind, text: self.text@ }
    }
}

impl ParseErrorView {
    /// The message for a reader: what went wrong, then the offending text.
    pub open spec fn message(self) -> Seq<char> {
        match self.kind {
            ParseErrorKind::InvalidEscape => "found invalid string escape sequence in value "@
                + self.text,
            ParseErrorKind::InvalidDelimiter => "found invalid string delimiter in value "@
                + self.text,
            ParseErrorKind::Unrecognized => "failed to parse value "@ + self.text,
        }
    }
}

impl ParseError {
    /// Words the failure for a reader.
    pub fn message(&self) -> (out: String)
        ensures
            out@ == self@.message(),
    {
        let lead = match self.kind {
            ParseErrorKind::InvalidEscape => "found invalid string escape sequence in value ",
            ParseErrorKind::InvalidDelimiter => "found invalid string delimiter in value ",
            ParseErrorKind::Unrecognized => "failed to parse value ",
        };
        let mut out = lead.to_owned();
        out.append(self.text.as_str());
        out
    }
}

} // verus!
