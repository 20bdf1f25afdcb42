//! Value inference: the type of a value is read off its lexical shape.
//!
//! The shapes are tried in a fixed order and the first that fits wins: a
//! quoted string, one of the letters `n`, `m`, `y`, a decimal literal, a
//! hexadecimal literal. A text that begins with one of the three letters is
//! therefore always a tri-state, whatever follows the letter.

use vstd::prelude::*;
use vstd::std_specs::iter::IteratorSpec;
use vstd::string::StrSliceExecFns;
use crate::diagnostic::{ParseError, ParseErrorKind, ParseErrorView};
use crate::value::{is_hex, is_int, Tristate, Value, ValueView};

verus! {

broadcast use vstd::string::group_string_axioms;

/// What scanning finds behind the opening quote of a string.
pub enum Quoted {
    /// The closing quote was found: the payload with its escapes resolved,
    /// and the text behind the closing quote.
    Closed { payload: Seq<char>, rest: Seq<char> },
    /// The text ends in a backslash that escapes nothing.
    DanglingEscape,
    /// The text ends before any closing quote.
    Unterminated,
}

impl Quoted {
    /// The same outcome for a text that has the payload `head` in front.
    pub open spec fn behind(self, head: Seq<char>) -> Quoted {
        match self {
            Quoted::Closed { payload, rest } => Quoted::Closed { payload: head + payload, rest },
            other => other,
        }
    }
}

/// Scans `t`, the text behind an opening quote. A backslash stands for the
/// character that follows it, whichever it is; the first quote that no
/// backslash precedes closes the string.
pub open spec fn scan_quoted(t: Seq<char>) -> Quoted
    decreases t.len(),
{
    if t.len() == 0 {
        Quoted::Unterminated
    } else if t[0] == '"' {
        Quoted::Closed { payload: Seq::empty(), rest: t.skip(1) }
    } else if t[0] == '\\' {
        if t.len() == 1 {
            Quoted::DanglingEscape
        } else {
            scan_quoted(t.skip(2)).behind(seq![t[1]])
        }
    } else {
        scan_quoted(t.skip(1)).behind(seq![t[0]])
    }
}

/// A value with the text that follows its literal.
pub struct Inferred {
    pub value: ValueView,
    pub tail: Seq<char>,
}

/// The value that the text `s` stands for, or why it stands for none.
pub open spec fn infer(s: Seq<char>) -> Result<Inferred, ParseErrorKind> {
    if s.len() > 0 && s[0] == '"' {
        match scan_quoted(s.skip(1)) {
            Quoted::Closed { payload, rest } => Ok(
                Inferred { value: ValueView::String(payload), tail: rest },
            ),
            Quoted::DanglingEscape => Err(ParseErrorKind::InvalidEscape),
            Quoted::Unterminated => Err(ParseErrorKind::InvalidDelimiter),
        }
    } else if s.len() > 0 && s[0] == 'n' {
        Ok(Inferred { value: ValueView::Tristate(Tristate::No), tail: s.skip(1) })
    } else if s.len() > 0 && s[0] == 'm' {
        Ok(Inferred { value: ValueView::Tristate(Tristate::Module), tail: s.skip(1) })
    } else if s.len() > 0 && s[0] == 'y' {
        Ok(Inferred { value: ValueView::Tristate(Tristate::Yes), tail: s.skip(1) })
    } else if is_int(s) {
        Ok(Inferred { value: ValueView::Int(s), tail: Seq::empty() })
    } else if is_hex(s) {
        Ok(Inferred { value: ValueView::Hex(s), tail: Seq::empty() })
    } else {
        Err(ParseErrorKind::Unrecognized)
    }
}

/// What `infer` yields, with the offending text beside the kind of a failure.
pub open spec fn infer_result(s: Seq<char>) -> Result<Inferred, ParseErrorView> {
    match infer(s) {
        Ok(inferred) => Ok(inferred),
        Err(kind) => Err(ParseErrorView { kind, text: s }),
    }
}

/// Reads the value that `s` stands for and hands it back with the text that
/// follows the literal.
pub fn infer_value<'a>(s: &'a str) -> (out: Result<(Value, &'a str), ParseError>)
    ensures
        match infer_result(s@) {
            Ok(inferred) => out matches Ok((value, tail)) && value@ == inferred.value && tail@
                == inferred.tail,
            Err(error) => out matches Err(e) && e@ == error,
        },
{
    let n = s.unicode_len();
    let mut chars = s.chars();
    match chars.next() {
        Some('"') => {
            let ghost t = s@.skip(1);
            let mut unescaped = String::new();
            let mut i: usize = 1;
            loop
                invariant
                    1 <= i <= n == s@.len(),
                    s@[0] == '"',
                    t == s@.skip(1),
                    chars.remaining() == s@.skip(i as int),
                    scan_quoted(t) == scan_quoted(s@.skip(i as int)).behind(unescaped@),
                decreases n - i,
            {
                let ghost here = s@.skip(i as int);
                match chars.next() {
                    None => {
                        return Err(
                            ParseError { kind: ParseErrorKind::InvalidDelimiter, text: s.to_owned() },
                        );
                    },
                    Some('"') => {
                        let tail = s.substring_char(i + 1, n);
                        assert(tail@ =~= here.skip(1));
                        assert(unescaped@ + Seq::<char>::empty() =~= unescaped@);
                        return Ok((Value::String(unescaped), tail));
                    },
                    Some('\\') => {
                        match chars.next() {
                            None => {
                                return Err(
                                    ParseError {
                                        kind: ParseErrorKind::InvalidEscape,
                                        text: s.to_owned(),
                                    },
                                );
                            },
                            Some(escaped) => {
                                proof {
                                    lemma_behind_behind(
                                        scan_quoted(here.skip(2)),
                                        unescaped@,
                                        seq![escaped],
                                    );
                                    assert(here.skip(2) =~= s@.skip(i + 2));
                                    assert(unescaped@.push(escaped) =~= unescaped@ + seq![escaped]);
                                }
                                unescaped.push(escaped);
                                i = i + 2;
                            },
                        }
                    },
                    Some(other) => {
                        proof {
                            lemma_behind_behind(scan_quoted(here.skip(1)), unescaped@, seq![other]);
                            assert(here.skip(1) =~= s@.skip(i + 1));
                            assert(unescaped@.push(other) =~= unescaped@ + seq![other]);
                        }
                        unescaped.push(other);
                        i = i + 1;
                    },
                }
            }
        },
        Some('n') => {
            let tail = s.substring_char(1, n);
            assert(tail@ =~= s@.skip(1));
            Ok((Value::Tristate(Tristate::No), tail))
        },
        Some('m') => {
            let tail = s.substring_char(1, n);
            assert(tail@ =~= s@.skip(1));
            Ok((Value::Tristate(Tristate::Module), tail))
        },
        Some('y') => {
            let tail = s.substring_char(1, n);
            assert(tail@ =~= s@.skip(1));
            Ok((Value::Tristate(Tristate::Yes), tail))
        },
        _ => {
            if Value::validate_int(s) {
                let tail = s.substring_char(n, n);
                assert(tail@ =~= Seq::<char>::empty());
                Ok((Value::Int(s.to_owned()), tail))
            } else if Value::validate_hex(s) {
                let tail = s.substring_char(n, n);
                assert(tail@ =~= Seq::<char>::empty());
                Ok((Value::Hex(s.to_owned()), tail))
            } else {
                Err(ParseError { kind: ParseErrorKind::Unrecognized, text: s.to_owned() })
            }
        },
    }
}

/// Putting `first` and then `second` in front of an outcome is putting
/// `first + second` in front of it.
proof fn lemma_behind_behind(q: Quoted, first: Seq<char>, second: Seq<char>)
    ensures
        q.behind(second).behind(first) == q.behind(first + second),
{
    match q {
        Quoted::Closed { payload, rest } => {
            assert(first + (second + payload) =~= (first + second) + payload);
        },
        _ => {},
    }
}

} // verus!
