//! Line classification: which construct, if any, a line of input is.

use vstd::prelude::*;
use crate::text::{split_once, split_once_at, strip_prefix, strip_prefix_of};

verus! {

/// What a line of input is, with the parts that its construct names.
pub enum Shape {
    /// `# CONFIG_<name> is not set<tail>`, read as such on request only.
    Marker { name: Seq<char>, tail: Seq<char> },
    /// `CONFIG_<name>=<text>`: `text` holds the value and what follows it.
    Assignment { name: Seq<char>, text: Seq<char> },
    /// Anything else.
    Other,
}

/// What every assignment begins with.
pub open spec fn option_prefix() -> Seq<char> {
    "CONFIG_"@
}

/// What every marker of a disabled option begins with.
pub open spec fn negated_prefix() -> Seq<char> {
    "# CONFIG_"@
}

/// What follows the name and one space in a marker of a disabled option.
pub open spec fn not_set_phrase() -> Seq<char> {
    "is not set"@
}

/// The marker that `line` is, if it is one: behind the negated prefix the
/// name runs up to the first space, and the phrase follows that space.
pub open spec fn as_marker(line: Seq<char>) -> Shape {
    match strip_prefix(line, negated_prefix()) {
        Some(rest) => match split_once(rest, ' ') {
            Some((name, behind)) => match strip_prefix(behind, not_set_phrase()) {
                Some(tail) => Shape::Marker { name, tail },
                None => Shape::Other,
            },
            None => Shape::Other,
        },
        None => Shape::Other,
    }
}

/// The assignment that `line` is, if it is one: behind the option prefix the
/// name runs up to the first `=`.
pub open spec fn as_assignment(line: Seq<char>) -> Shape {
    match strip_prefix(line, option_prefix()) {
        Some(rest) => match split_once(rest, '=') {
            Some((name, text)) => Shape::Assignment { name, text },
            None => Shape::Other,
        },
        None => Shape::Other,
    }
}

/// Classifies `line`. With `not_set_as_no`, a line that begins with the
/// negated prefix is a marker or nothing; any other line is an assignment
/// or nothing.
pub open spec fn classify(line: Seq<char>, not_set_as_no: bool) -> Shape {
    if not_set_as_no && negated_prefix().is_prefix_of(line) {
        as_marker(line)
    } else {
        as_assignment(line)
    }
}

/// A classified line: the parts are slices of the line itself.
#[derive(Debug, Clone, Copy, PartialEq, Eq)]
pub enum Line<'a> {
    Marker { name: &'a str, tail: &'a str },
    Assignment { name: &'a str, text: &'a str },
    Other,
}

impl<'a> View for Line<'a> {
    type V = Shape;

    open spec fn view(&self) -> Shape {
        match self {
            Line::Marker { name, tail } => Shape::Marker { name: name@, tail: tail@ },
            Line::Assignment { name, text } => Shape::Assignment { name: name@, text: text@ },
            Line::Other => Shape::Other,
        }
    }
}

/// Classifies one line of input.
pub fn classify_line<'a>(line: &'a str, not_set_as_no: bool) -> (out: Line<'a>)
    ensures
        out@ == classify(line@, not_set_as_no),
{
    if not_set_as_no {
        if let Some(rest) = strip_prefix_of(line, "# CONFIG_") {
            if let Some((name, behind)) = split_once_at(rest, ' ') {
                if let Some(tail) = strip_prefix_of(behind, "is not set") {
                    return Line::Marker { name, tail };
                }
            }
            return Line::Other;
        }
    }
    if let Some(rest) = strip_prefix_of(line, "CONFIG_") {
        if let Some((name, text)) = split_once_at(rest, '=') {
            return Line::Assignment { name, text };
        }
    }
    Line::Other
}

} // verus!
