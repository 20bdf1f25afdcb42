//! Character classes and scanning helpers over text, viewed as `Seq<char>`.

use vstd::prelude::*;
use vstd::std_specs::iter::IteratorSpec;
use vstd::string::StrSliceExecFns;

verus! {

broadcast use vstd::string::group_string_axioms;

/// Whether `c` carries the Unicode `White_Space` property, as
/// `char::is_whitespace` reports it.
pub uninterp spec fn white_space(c: char) -> bool;

/// `char::is_whitespace` decides the Unicode `White_Space` property of its
/// argument; the property itself is left abstract here.
pub assume_specification[ char::is_whitespace ](c: char) -> (b: bool)
    ensures
        b == white_space(c),
;

/// `String::push` appends the given character to the end of the string.
pub assume_specification[ std::string::String::push ](s: &mut std::string::String, ch: char)
    ensures
        final(s)@ == old(s)@.push(ch),
;

/// Whether `c` is one of the ASCII decimal digits `0` to `9`.
pub open spec fn ascii_digit(c: char) -> bool {
    '0' <= c <= '9'
}

/// Whether `c` is an ASCII hexadecimal digit, in either case.
pub open spec fn ascii_hexdigit(c: char) -> bool {
    ('0' <= c <= '9') || ('a' <= c <= 'f') || ('A' <= c <= 'F')
}

/// Whether every character of `s` is an ASCII decimal digit.
pub open spec fn all_digits(s: Seq<char>) -> bool {
    forall|i: int| 0 <= i < s.len() ==> ascii_digit(#[trigger] s[i])
}

/// Whether every character of `s` is an ASCII hexadecimal digit.
pub open spec fn all_hexdigits(s: Seq<char>) -> bool {
    forall|i: int| 0 <= i < s.len() ==> ascii_hexdigit(#[trigger] s[i])
}

/// `s` without its leading white space.
pub open spec fn trim_start(s: Seq<char>) -> Seq<char>
    decreases s.len(),
{
    if s.len() > 0 && white_space(s.first()) {
        trim_start(s.drop_first())
    } else {
        s
    }
}

/// `s` without its trailing white space.
pub open spec fn trim_end(s: Seq<char>) -> Seq<char>
    decreases s.len(),
{
    if s.len() > 0 && white_space(s.last()) {
        trim_end(s.drop_last())
    } else {
        s
    }
}

/// `s` without the white space that surrounds it.
pub open spec fn trim(s: Seq<char>) -> Seq<char> {
    trim_end(trim_start(s))
}

/// Whether `s`, once trimmed, is empty or begins with `#`: such text is
/// passed over in silence.
pub open spec fn blank_or_comment(s: Seq<char>) -> bool {
    trim(s).len() == 0 || trim(s).first() == '#'
}

/// The index of the first `c` in `s`, or the length of `s` where it holds none.
pub open spec fn index_of(s: Seq<char>, c: char) -> int
    decreases s.len(),
{
    if s.len() == 0 || s.first() == c {
        0
    } else {
        1 + index_of(s.drop_first(), c)
    }
}

/// The two parts of `s` around its first `c`, where it holds one.
pub open spec fn split_once(s: Seq<char>, c: char) -> Option<(Seq<char>, Seq<char>)> {
    let i = index_of(s, c);
    if i < s.len() {
        Some((s.take(i), s.skip(i + 1)))
    } else {
        None
    }
}

/// `s` behind `prefix`, where it begins with it.
pub open spec fn strip_prefix(s: Seq<char>, prefix: Seq<char>) -> Option<Seq<char>> {
    if prefix.is_prefix_of(s) {
        Some(s.skip(prefix.len() as int))
    } else {
        None
    }
}

/// Leading white space does not change what `trim_start` leaves.
pub proof fn lemma_trim_start_skips(s: Seq<char>, i: int)
    requires
        0 <= i <= s.len(),
        forall|j: int| 0 <= j < i ==> white_space(#[trigger] s[j]),
    ensures
        trim_start(s) == trim_start(s.skip(i)),
    decreases i,
{
    if i == 0 {
        assert(s.skip(0) =~= s);
    } else {
        assert(white_space(s[0]));
        let rest = s.drop_first();
        assert forall|j: int| 0 <= j < i - 1 implies white_space(#[trigger] rest[j]) by {
            assert(rest[j] == s[j + 1]);
        }
        lemma_trim_start_skips(rest, i - 1);
        assert(rest.skip(i - 1) =~= s.skip(i));
    }
}

/// Text that begins with a character that is no white space keeps that
/// character when its end is trimmed.
pub proof fn lemma_trim_end_keeps_first(s: Seq<char>)
    requires
        s.len() > 0,
        !white_space(s.first()),
    ensures
        trim_end(s).len() > 0,
        trim_end(s).first() == s.first(),
    decreases s.len(),
{
    if white_space(s.last()) {
        assert(s.len() > 1);
        lemma_trim_end_keeps_first(s.drop_last());
    }
}

/// `blank_or_comment` looks at nothing but the first character of `s` that
/// is no white space: `i` is its index, or the length of `s` where there is none.
pub proof fn lemma_blank_or_comment(s: Seq<char>, i: int)
    requires
        0 <= i <= s.len(),
        forall|j: int| 0 <= j < i ==> white_space(#[trigger] s[j]),
        i < s.len() ==> !white_space(s[i]),
    ensures
        blank_or_comment(s) <==> (i == s.len() || s[i] == '#'),
{
    lemma_trim_start_skips(s, i);
    let rest = s.skip(i);
    if i < s.len() {
        assert(rest.first() == s[i]);
        assert(trim_start(rest) == rest);
        lemma_trim_end_keeps_first(rest);
    } else {
        assert(rest.len() == 0);
    }
}

/// `index_of` lies inside `s` or at its end, no earlier character is `c`,
/// and the character at it, where there is one, is `c`.
pub proof fn lemma_index_of(s: Seq<char>, c: char)
    ensures
        0 <= index_of(s, c) <= s.len(),
        index_of(s, c) < s.len() ==> s[index_of(s, c)] == c,
        forall|j: int| 0 <= j < index_of(s, c) ==> #[trigger] s[j] != c,
    decreases s.len(),
{
    if s.len() == 0 || s.first() == c {
    } else {
        let rest = s.drop_first();
        lemma_index_of(rest, c);
        assert forall|j: int| 0 <= j < index_of(s, c) implies #[trigger] s[j] != c by {
            if j > 0 {
                assert(rest[j - 1] == s[j]);
            }
        }
    }
}

/// An index whose character is `c`, with no `c` before it, is `index_of`; so
/// is the length of a text that holds no `c`.
pub proof fn lemma_index_of_unique(s: Seq<char>, c: char, i: int)
    requires
        0 <= i <= s.len(),
        forall|j: int| 0 <= j < i ==> #[trigger] s[j] != c,
        i < s.len() ==> s[i] == c,
    ensures
        index_of(s, c) == i,
{
    lemma_index_of(s, c);
    let k = index_of(s, c);
    if k < i {
        assert(s[k] != c);
    } else if i < k {
        assert(s[i] != c);
    }
}

/// Decides whether `c` is an ASCII decimal digit.
pub fn is_ascii_digit(c: char) -> (b: bool)
    ensures
        b == ascii_digit(c),
{
    '0' <= c && c <= '9'
}

/// Decides whether `c` is an ASCII hexadecimal digit.
pub fn is_ascii_hexdigit(c: char) -> (b: bool)
    ensures
        b == ascii_hexdigit(c),
{
    ('0' <= c && c <= '9') || ('a' <= c && c <= 'f') || ('A' <= c && c <= 'F')
}

/// Decides whether `s` begins with the characters of `prefix`.
pub fn starts_with(s: &str, prefix: &str) -> (b: bool)
    ensures
        b == prefix@.is_prefix_of(s@),
{
    let mut text = s.chars();
    let mut wanted = prefix.chars();
    let ghost mut i: int = 0;
    loop
        invariant
            0 <= i <= prefix@.len(),
            i <= s@.len(),
            text.remaining() == s@.skip(i),
            wanted.remaining() == prefix@.skip(i),
            forall|j: int| 0 <= j < i ==> s@[j] == prefix@[j],
        decreases prefix@.len() - i,
    {
        match wanted.next() {
            None => {
                assert(prefix@ =~= s@.subrange(0, prefix@.len() as int));
                return true;
            },
            Some(p) => {
                match text.next() {
                    None => {
                        return false;
                    },
                    Some(c) => {
                        if c != p {
                            return false;
                        }
                    },
                }
            },
        }
        proof {
            i = i + 1;
        }
    }
}

/// Takes `prefix` off the front of `s`, where `s` begins with it.
pub fn strip_prefix_of<'a>(s: &'a str, prefix: &str) -> (out: Option<&'a str>)
    ensures
        match strip_prefix(s@, prefix@) {
            Some(rest) => out matches Some(r) && r@ == rest,
            None => out is None,
        },
{
    if starts_with(s, prefix) {
        let from = prefix.unicode_len();
        let to = s.unicode_len();
        let rest = s.substring_char(from, to);
        assert(rest@ =~= s@.skip(from as int));
        Some(rest)
    } else {
        None
    }
}

/// Parts `s` at its first `c`: the text before it and the text behind it.
pub fn split_once_at<'a>(s: &'a str, c: char) -> (out: Option<(&'a str, &'a str)>)
    ensures
        match split_once(s@, c) {
            Some((before, behind)) => out matches Some((a, b)) && a@ == before && b@ == behind,
            None => out is None,
        },
{
    let n = s.unicode_len();
    let mut chars = s.chars();
    let mut i: usize = 0;
    loop
        invariant
            0 <= i <= n == s@.len(),
            chars.remaining() == s@.skip(i as int),
            forall|j: int| 0 <= j < i ==> #[trigger] s@[j] != c,
        decreases n - i,
    {
        match chars.next() {
            None => {
                proof {
                    lemma_index_of_unique(s@, c, i as int);
                }
                return None;
            },
            Some(found) => {
                if found == c {
                    proof {
                        lemma_index_of_unique(s@, c, i as int);
                    }
                    let before = s.substring_char(0, i);
                    let behind = s.substring_char(i + 1, n);
                    assert(before@ =~= s@.take(i as int));
                    assert(behind@ =~= s@.skip(i + 1));
                    return Some((before, behind));
                }
            },
        }
        i = i + 1;
    }
}

/// Decides whether `s`, once trimmed, is empty or begins with `#`.
pub fn is_blank_or_comment(s: &str) -> (b: bool)
    ensures
        b == blank_or_comment(s@),
{
    let mut chars = s.chars();
    let ghost mut i: int = 0;
    loop
        invariant
            0 <= i <= s@.len(),
            chars.remaining() == s@.skip(i),
            forall|j: int| 0 <= j < i ==> white_space(#[trigger] s@[j]),
        decreases s@.len() - i,
    {
        match chars.next() {
            None => {
                proof {
                    lemma_blank_or_comment(s@, i);
                }
                return true;
            },
            Some(c) => {
                if !c.is_whitespace() {
                    proof {
                        lemma_blank_or_comment(s@, i);
                    }
                    return c == '#';
                }
            },
        }
        proof {
            i = i + 1;
        }
    }
}

} // verus!
