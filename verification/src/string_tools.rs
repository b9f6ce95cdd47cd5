//! Small helpers on the text that probes of the host hand back.

use vstd::prelude::*;
use vstd::string::StrSliceExecFns;
use vstd::utf8::decode_utf8;
use vstd::utf8::encode_utf8;
use vstd::utf8::encode_utf8_decode_utf8;
use vstd::utf8::valid_utf8;

use crate::error::DeviceInfoError;

verus! {

/// `text` and `other` hold the same characters.
pub fn same_text(text: &str, other: &str) -> (same: bool)
    ensures
        same == (text@ == other@),
{
    text.to_owned() == other.to_owned()
}

/// `s` without one trailing line break: a final `"\r\n"` is cut off as a
/// whole, otherwise a final `"\n"` is, otherwise `s` is returned as it is.
pub open spec fn without_trailing_newline(s: Seq<char>) -> Seq<char> {
    if s.len() >= 2 && s[s.len() - 2] == '\r' && s[s.len() - 1] == '\n' {
        s.subrange(0, s.len() - 2)
    } else if s.len() >= 1 && s[s.len() - 1] == '\n' {
        s.subrange(0, s.len() - 1)
    } else {
        s
    }
}

/// Cuts one trailing line break (`"\r\n"` or `"\n"`) off `input`.
pub fn strip_trailing_newline(input: &str) -> (stripped: &str)
    ensures
        stripped@ == without_trailing_newline(input@),
{
    let n: usize = input.unicode_len();
    if n >= 2 && input.get_char(n - 2) == '\r' && input.get_char(n - 1) == '\n' {
        input.substring_char(0, n - 2)
    } else if n >= 1 && input.get_char(n - 1) == '\n' {
        input.substring_char(0, n - 1)
    } else {
        assert(input@.subrange(0, n as int) == input@);
        input
    }
}

/// Whether `c` is white space as Unicode defines it (the property
/// `White_Space`): what `char::is_whitespace` answers.
pub uninterp spec fn is_white_space(c: char) -> bool;

/// `char::is_whitespace`. The contract gives its answer a name and claims
/// nothing more of it.
#[verifier::external_body]
fn is_whitespace(c: char) -> (blank: bool)
    ensures
        blank == is_white_space(c),
{
    c.is_whitespace()
}

/// How many characters of white space `s` begins with.
pub open spec fn leading_blanks(s: Seq<char>) -> nat
    decreases s.len(),
{
    if s.len() > 0 && is_white_space(s[0]) {
        1 + leading_blanks(s.drop_first())
    } else {
        0
    }
}

/// How many characters of white space `s` ends with.
pub open spec fn trailing_blanks(s: Seq<char>) -> nat
    decreases s.len(),
{
    if s.len() > 0 && is_white_space(s.last()) {
        1 + trailing_blanks(s.drop_last())
    } else {
        0
    }
}

/// `s` without the white space that it begins and ends with.
pub open spec fn trimmed(s: Seq<char>) -> Seq<char> {
    let rest = s.subrange(leading_blanks(s) as int, s.len() as int);
    rest.subrange(0, rest.len() - trailing_blanks(rest))
}

/// The white space at the start of `s` ends at the first character that is
/// none.
proof fn lemma_leading_blanks(s: Seq<char>, start: int)
    requires
        0 <= start <= s.len(),
        forall|i: int| 0 <= i < start ==> is_white_space(#[trigger] s[i]),
        start < s.len() ==> !is_white_space(s[start]),
    ensures
        leading_blanks(s) == start,
    decreases start,
{
    if start > 0 {
        let rest = s.drop_first();
        assert forall|i: int| 0 <= i < start - 1 implies is_white_space(#[trigger] rest[i]) by {
            assert(rest[i] == s[i + 1]);
        }
        lemma_leading_blanks(rest, start - 1);
    }
}

/// The white space at the end of `s` begins after the last character that
/// is none.
proof fn lemma_trailing_blanks(s: Seq<char>, end: int)
    requires
        0 <= end <= s.len(),
        forall|i: int| end <= i < s.len() ==> is_white_space(#[trigger] s[i]),
        end > 0 ==> !is_white_space(s[end - 1]),
    ensures
        trailing_blanks(s) == s.len() - end,
    decreases s.len() - end,
{
    if end < s.len() {
        let rest = s.drop_last();
        assert forall|i: int| end <= i < rest.len() implies is_white_space(#[trigger] rest[i]) by {
            assert(rest[i] == s[i]);
        }
        lemma_trailing_blanks(rest, end);
    }
}

/// Cuts the white space off both ends of `input`.
///
/// The text is walked character by character from either end, so the cost
/// grows with the square of the white space cut off.
pub fn trim(input: &str) -> (kept: &str)
    ensures
        kept@ == trimmed(input@),
{
    let n: usize = input.unicode_len();
    let mut start: usize = 0;
    while start < n && is_whitespace(input.get_char(start))
        invariant
            start <= n,
            n == input@.len(),
            forall|i: int| 0 <= i < start ==> is_white_space(#[trigger] input@[i]),
        decreases n - start,
    {
        start += 1;
    }
    let mut end: usize = n;
    while end > start && is_whitespace(input.get_char(end - 1))
        invariant
            start <= end <= n,
            n == input@.len(),
            forall|i: int| end <= i < n ==> is_white_space(#[trigger] input@[i]),
        decreases end,
    {
        end -= 1;
    }
    proof {
        let s = input@;
        lemma_leading_blanks(s, start as int);
        let rest = s.subrange(start as int, n as int);
        assert forall|i: int| end - start <= i < rest.len() implies is_white_space(
            #[trigger] rest[i],
        ) by {
            assert(rest[i] == s[i + start]);
        }
        if end > start {
            assert(rest[end - start - 1] == s[end - 1]);
        }
        lemma_trailing_blanks(rest, end - start);
        assert(rest.subrange(0, end - start) =~= s.subrange(start as int, end as int));
    }
    input.substring_char(start, end)
}

/// `String::from_utf8`, the error dropped: the text whose UTF-8 encoding
/// `bytes` is, and `None` exactly where `bytes` is no valid UTF-8.
#[verifier::external_body]
pub(crate) fn text_of_bytes(bytes: Vec<u8>) -> (text: Option<String>)
    ensures
        match text {
            Some(t) => valid_utf8(bytes@) && encode_utf8(t@) == bytes@,
            None => !valid_utf8(bytes@),
        },
{
    String::from_utf8(bytes).ok()
}

/// What a probe wrote, as text. A probe that wrote bytes which are no valid
/// UTF-8 has failed: there is nothing to collect from it.
pub fn probe_text(output: Vec<u8>) -> (text: Result<String, DeviceInfoError>)
    ensures
        match text {
            Ok(t) => valid_utf8(output@) && t@ == decode_utf8(output@),
            Err(e) => !valid_utf8(output@) && e == DeviceInfoError::Collection,
        },
{
    match text_of_bytes(output) {
        Some(t) => {
            proof {
                encode_utf8_decode_utf8(t@);
            }
            Ok(t)
        },
        None => Err(DeviceInfoError::Collection),
    }
}

} // verus!
