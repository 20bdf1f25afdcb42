//! Typed configuration values and their rendering.

use vstd::prelude::*;
use vstd::std_specs::iter::IteratorSpec;
use vstd::string::StringExecFns;
use crate::text::{
    all_digits, all_hexdigits, ascii_digit, ascii_hexdigit, is_ascii_digit, is_ascii_hexdigit,
};

verus! {

broadcast use vstd::string::group_string_axioms;

/// A three-valued setting: disabled, built as a loadable unit, or built in.
#[derive(Debug, Clone, Copy, PartialEq, Eq, Structural)]
pub enum Tristate {
    No,
    Module,
    Yes,
}

impl Tristate {
    /// The bare keyword that stands for this setting in the output document.
    pub open spec fn keyword(self) -> Seq<char> {
        match self {
            Tristate::No => "no"@,
            Tristate::Module => "module"@,
            Tristate::Yes => "yes"@,
        }
    }

    /// Renders the setting as its keyword.
    pub fn to_nix(self) -> (out: String)
        ensures
            out@ == self.keyword(),
    {
        match self {
            Tristate::No => "no".to_owned(),
            Tristate::Module => "module".to_owned(),
            Tristate::Yes => "yes".to_owned(),
        }
    }
}

impl From<bool> for Tristate {
    /// A yes-or-no answer as a tri-state: `true` is `Yes`, `false` is `No`.
    fn from(value: bool) -> (out: Self) {
        match value {
            true => Tristate::Yes,
            false => Tristate::No,
        }
    }
}

impl vstd::std_specs::convert::FromSpecImpl<bool> for Tristate {
    open spec fn obeys_from_spec() -> bool {
        true
    }

    open spec fn from_spec(value: bool) -> Tristate {
        if value {
            Tristate::Yes
        } else {
            Tristate::No
        }
    }
}

/// A configuration value, classified by its lexical shape alone.
#[derive(Debug, Clone, PartialEq, Eq)]
pub enum Value {
    Tristate(Tristate),
    /// The payload of a quoted string, with its escapes resolved.
    String(String),
    /// A hexadecimal literal, kept as the text it was written as.
    Hex(String),
    /// A decimal literal, kept as the text it was written as.
    Int(String),
}

/// The mathematical content of a [`Value`].
pub enum ValueView {
    Tristate(Tristate),
    String(Seq<char>),
    Hex(Seq<char>),
    Int(Seq<char>),
}

impl View for Value {
    type V = ValueView;

    open spec fn view(&self) -> ValueView {
        match self {
            Value::Tristate(t) => ValueView::Tristate(*t),
            Value::String(s) => ValueView::String(s@),
            Value::Hex(s) => ValueView::Hex(s@),
            Value::Int(s) => ValueView::Int(s@),
        }
    }
}

/// Whether `c` is one of the three characters that a freeform literal
/// protects with a backslash.
pub open spec fn needs_escape(c: char) -> bool {
    c == '"' || c == '\\' || c == '$'
}

/// One character as it stands inside a freeform literal.
pub open spec fn escape_char(c: char) -> Seq<char> {
    if needs_escape(c) {
        seq!['\\', c]
    } else {
        seq![c]
    }
}

/// The text `s` with every `"`, `\` and `$` prefixed by a backslash and every
/// other character unchanged.
pub open spec fn escape(s: Seq<char>) -> Seq<char>
    decreases s.len(),
{
    if s.len() == 0 {
        Seq::empty()
    } else {
        escape(s.drop_last()) + escape_char(s.last())
    }
}

/// The freeform literal that carries the text `s`.
pub open spec fn freeform(s: Seq<char>) -> Seq<char> {
    "freeform \""@ + escape(s) + "\""@
}

/// Whether `s` is an optional `-` followed by decimal digits only.
pub open spec fn is_int(s: Seq<char>) -> bool {
    if s.len() > 0 && s[0] == '-' {
        all_digits(s.skip(1))
    } else {
        all_digits(s)
    }
}

/// Whether `s` is `0x` or `0X` followed by hexadecimal digits only.
pub open spec fn is_hex(s: Seq<char>) -> bool {
    &&& s.len() >= 2
    &&& s[0] == '0'
    &&& s[1] == 'x' || s[1] == 'X'
    &&& all_hexdigits(s.skip(2))
}

impl ValueView {
    /// The value as it is written in the output document.
    pub open spec fn nix(self) -> Seq<char> {
        match self {
            ValueView::Tristate(t) => t.keyword(),
            ValueView::String(s) => freeform(s),
            ValueView::Hex(s) => freeform(s),
            ValueView::Int(s) => freeform(s),
        }
    }
}

impl Value {
    /// Renders the value: a tri-state as its keyword, anything else as a
    /// freeform literal.
    pub fn to_nix(&self) -> (out: String)
        ensures
            out@ == self@.nix(),
    {
        match self {
            Value::Tristate(t) => t.to_nix(),
            Value::String(s) => Self::to_nix_freeform_string(s.as_str()),
            Value::Hex(s) => Self::to_nix_freeform_string(s.as_str()),
            Value::Int(s) => Self::to_nix_freeform_string(s.as_str()),
        }
    }

    /// Decides whether `s` has the shape of a decimal literal.
    pub fn validate_int(s: &str) -> (ok: bool)
        ensures
            ok == is_int(s@),
    {
        let mut chars = s.chars();
        let mut first = true;
        let ghost mut i: int = 0;
        loop
            invariant
                0 <= i <= s@.len(),
                first == (i == 0),
                chars.remaining() == s@.skip(i),
                forall|j: int|
                    0 <= j < i ==> (j == 0 && s@[0] == '-') || ascii_digit(#[trigger] s@[j]),
            decreases s@.len() - i,
        {
            match chars.next() {
                None => {
                    assert(is_int(s@)) by {
                        if s@.len() > 0 && s@[0] == '-' {
                            assert forall|k: int| 0 <= k < s@.skip(1).len() implies ascii_digit(
                                #[trigger] s@.skip(1)[k],
                            ) by {
                                assert(s@.skip(1)[k] == s@[k + 1]);
                            }
                        }
                    }
                    return true;
                },
                Some(c) => {
                    if !(is_ascii_digit(c) || (first && c == '-')) {
                        assert(!is_int(s@)) by {
                            if s@[0] == '-' {
                                assert(s@.skip(1)[i - 1] == s@[i]);
                            } else {
                                assert(s@[i] == c);
                            }
                        }
                        return false;
                    }
                },
            }
            first = false;
            proof {
                i = i + 1;
            }
        }
    }

    /// Decides whether `s` has the shape of a hexadecimal literal.
    pub fn validate_hex(s: &str) -> (ok: bool)
        ensures
            ok == is_hex(s@),
    {
        let mut chars = s.chars();
        match chars.next() {
            Some('0') => {},
            _ => {
                return false;
            },
        }
        match chars.next() {
            Some('x') | Some('X') => {},
            _ => {
                return false;
            },
        }
        let ghost mut i: int = 2;
        loop
            invariant
                2 <= i <= s@.len(),
                s@[0] == '0',
                s@[1] == 'x' || s@[1] == 'X',
                chars.remaining() == s@.skip(i),
                forall|j: int| 2 <= j < i ==> ascii_hexdigit(#[trigger] s@[j]),
            decreases s@.len() - i,
        {
            match chars.next() {
                None => {
                    assert forall|k: int| 0 <= k < s@.skip(2).len() implies ascii_hexdigit(
                        #[trigger] s@.skip(2)[k],
                    ) by {
                        assert(s@.skip(2)[k] == s@[k + 2]);
                    }
                    return true;
                },
                Some(c) => {
                    if !is_ascii_hexdigit(c) {
                        assert(s@.skip(2)[i - 2] == c);
                        return false;
                    }
                },
            }
            proof {
                i = i + 1;
            }
        }
    }

    /// Wraps the escaped form of `s` in a freeform literal.
    pub fn to_nix_freeform_string(s: &str) -> (out: String)
        ensures
            out@ == freeform(s@),
    {
        let escaped = Self::escape_string_to_nix(s);
        let mut out = "freeform \"".to_owned();
        out.append(escaped.as_str());
        out.append("\"");
        out
    }

    /// Prefixes every `"`, `\` and `$` of `s` with a backslash.
    pub fn escape_string_to_nix(s: &str) -> (out: String)
        ensures
            out@ == escape(s@),
    {
        let mut result = String::new();
        let mut chars = s.chars();
        let ghost mut i: int = 0;
        loop
            invariant
                0 <= i <= s@.len(),
                chars.remaining() == s@.skip(i),
                result@ == escape(s@.take(i)),
            decreases s@.len() - i,
        {
            match chars.next() {
                None => {
                    assert(s@.take(i) =~= s@);
                    return result;
                },
                Some(c) => {
                    if c == '"' || c == '\\' || c == '$' {
                        result.push('\\');
                    }
                    result.push(c);
                    proof {
                        assert(s@.take(i + 1).drop_last() =~= s@.take(i));
                        assert(s@.take(i + 1).last() == c);
                        i = i + 1;
                    }
                },
            }
        }
    }
}

} // verus!
