//! Checks on configuration texts.
use vstd::prelude::*;
use vstd::string::*;

use crate::text::joined;

verus! {

/// Whether a character may stand in a protocol name or version.
pub open spec fn is_protocol_char(c: char) -> bool {
    'a' <= c <= 'z' || 'A' <= c <= 'Z' || '0' <= c <= '9' || c == '.' || c == '-' || c == '_'
}

/// Whether a text may be a protocol name or version.
pub open spec fn is_protocol_string(s: Seq<char>) -> bool {
    forall|i: int| 0 <= i < s.len() ==> is_protocol_char(#[trigger] s[i])
}

/// Accepts a protocol name or version: only ASCII letters and digits, `.`, `-` and `_` are allowed.
/// A caller that does not know its text to be valid asks `protocol_string_fault` first.
pub fn validate_protocol_string(s: &str)
    requires
        is_protocol_string(s@),
{
    if protocol_string_fault(s).is_some() {
        unreached::<()>();
    }
}

/// What is wrong with a protocol name or version: the message to fail with, or nothing where the
/// text is valid.
pub fn protocol_string_fault(s: &str) -> (r: Option<String>)
    ensures
        r is None <==> is_protocol_string(s@),
        r matches Some(message) ==> message@
            == "Invalid character in protocol string (only alphanumeric, '.', '-', '_' are allowed): "@
            + s@,
{
    let len: usize = s.unicode_len();
    let mut i: usize = 0;
    while i < len
        invariant
            len == s@.len(),
            i <= len,
            forall|j: int| 0 <= j < i ==> is_protocol_char(#[trigger] s@[j]),
        decreases len - i,
    {
        let c = s.get_char(i);
        let valid = ('a' <= c && c <= 'z') || ('A' <= c && c <= 'Z') || ('0' <= c && c <= '9')
            || c == '.' || c == '-' || c == '_';
        if !valid {
            assert(!is_protocol_char(s@[i as int]));
            return Some(
                joined(
                    "Invalid character in protocol string (only alphanumeric, '.', '-', '_' are allowed): ",
                    s,
                ),
            );
        }
        i = i + 1;
    }
    None
}

/// A protocol name or version is made of ASCII letters, ASCII digits, full stops, hyphens and
/// underscores, and of nothing else; putting two together gives one again.
pub proof fn law_protocol_strings_are_plain(a: Seq<char>, b: Seq<char>, c: char)
    ensures
        is_protocol_string(seq![c]) <==> 0x61 <= c as u32 <= 0x7a || 0x41 <= c as u32 <= 0x5a
            || 0x30 <= c as u32 <= 0x39 || c as u32 == 0x2e || c as u32 == 0x2d || c as u32
            == 0x5f,
        is_protocol_string(a + b) <==> is_protocol_string(a) && is_protocol_string(b),
{
    if is_protocol_string(seq![c]) {
        assert(is_protocol_char(seq![c][0]));
    }
    if is_protocol_string(a + b) {
        assert forall|i: int| 0 <= i < a.len() implies is_protocol_char(#[trigger] a[i]) by {
            assert((a + b)[i] == a[i]);
        }
        assert forall|i: int| 0 <= i < b.len() implies is_protocol_char(#[trigger] b[i]) by {
            assert((a + b)[a.len() + i] == b[i]);
        }
    }
}

} // verus!
