//! Text helpers: what the protocol strings and event streams are cut into.
use vstd::prelude::*;
use vstd::string::*;

verus! {

/// Whether `c` is white space, that is, has the Unicode `White_Space` property.
pub open spec fn is_white(c: char) -> bool {
    let n = c as u32;
    ||| 0x9 <= n <= 0xd
    ||| n == 0x20
    ||| n == 0x85
    ||| n == 0xa0
    ||| n == 0x1680
    ||| 0x2000 <= n <= 0x200a
    ||| 0x2028 <= n <= 0x2029
    ||| n == 0x202f
    ||| n == 0x205f
    ||| n == 0x3000
}

/// `char::is_whitespace`: tells the characters that have the Unicode `White_Space` property.
pub assume_specification[ char::is_whitespace ](c: char) -> (r: bool)
    ensures
        r == is_white(c),
;

/// `String::push`: appends one character.
pub assume_specification[ String::push ](s: &mut String, c: char)
    ensures
        final(s)@ == old(s)@.push(c),
;

/// Whether `pattern` occurs in `s`.
pub open spec fn occurs_in(pattern: Seq<char>, s: Seq<char>) -> bool {
    exists|i: int|
        0 <= i <= s.len() - pattern.len() && #[trigger] s.subrange(i, i + pattern.len()) == pattern
}

/// A prefix occurs.
pub proof fn lemma_prefix_occurs(prefix: Seq<char>, s: Seq<char>)
    requires
        prefix.is_prefix_of(s),
    ensures
        occurs_in(prefix, s),
{
    let i: int = 0;
    assert(s.subrange(i, i + prefix.len()) =~= prefix);
}

/// Whether `s` is made of some text, `pattern` and some more text.
pub open spec fn is_around(pattern: Seq<char>, s: Seq<char>) -> bool {
    exists|a: Seq<char>, b: Seq<char>| s == #[trigger] (a + pattern + b)
}

/// A pattern occurs in every text that is written around it, and in no other.
pub proof fn law_occurrences_are_found(pattern: Seq<char>, s: Seq<char>)
    ensures
        occurs_in(pattern, s) <==> is_around(pattern, s),
{
    if occurs_in(pattern, s) {
        let i = choose|i: int|
            0 <= i <= s.len() - pattern.len() && #[trigger] s.subrange(i, i + pattern.len())
                == pattern;
        assert(s =~= s.take(i) + pattern + s.skip(i + pattern.len()));
    }
    if is_around(pattern, s) {
        let (a, b) = choose|a: Seq<char>, b: Seq<char>| s == #[trigger] (a + pattern + b);
        let i: int = a.len() as int;
        assert(s.subrange(i, i + pattern.len()) =~= pattern);
    }
}

/// Whether `pattern` stands in `s` from place `start` on.
fn stands_at(s: &str, pattern: &str, start: usize) -> (r: bool)
    requires
        start + pattern@.len() <= s@.len(),
    ensures
        r == (s@.subrange(start as int, start + pattern@.len()) == pattern@),
{
    let total: usize = s.unicode_len();
    let len: usize = pattern.unicode_len();
    let mut i: usize = 0;
    while i < len
        invariant
            total == s@.len(),
            len == pattern@.len(),
            i <= len,
            start + len <= total,
            forall|j: int| 0 <= j < i ==> #[trigger] pattern@[j] == s@[start + j],
        decreases len - i,
    {
        if s.get_char(start + i) != pattern.get_char(i) {
            assert(s@.subrange(start as int, start + len)[i as int] != pattern@[i as int]);
            return false;
        }
        i = i + 1;
    }
    assert(s@.subrange(start as int, start + len) =~= pattern@);
    true
}

/// Whether a pattern occurs in a text.
pub fn contains(s: &str, pattern: &str) -> (r: bool)
    ensures
        r == occurs_in(pattern@, s@),
{
    let len: usize = s.unicode_len();
    let width: usize = pattern.unicode_len();
    if width == 0 {
        proof {
            assert(pattern@ =~= s@.subrange(0, pattern@.len() as int));
            lemma_prefix_occurs(pattern@, s@);
        }
        return true;
    }
    if width > len {
        return false;
    }
    let mut start: usize = 0;
    while start <= len - width
        invariant
            len == s@.len(),
            width == pattern@.len(),
            0 < width <= len,
            start <= len - width + 1,
            forall|i: int| 0 <= i < start ==> #[trigger] s@.subrange(i, i + width) != pattern@,
        decreases len + 1 - start,
    {
        if stands_at(s, pattern, start) {
            return true;
        }
        start = start + 1;
    }
    false
}

/// The rest of a text behind a prefix, or nothing where the text does not start with it.
pub fn strip_prefix<'a>(s: &'a str, prefix: &str) -> (r: Option<&'a str>)
    ensures
        r matches Some(rest) ==> prefix@.is_prefix_of(s@) && rest@ == s@.skip(prefix@.len() as int),
        r is None ==> !prefix@.is_prefix_of(s@),
{
    let len: usize = s.unicode_len();
    let width: usize = prefix.unicode_len();
    if width > len || !stands_at(s, prefix, 0) {
        return None;
    }
    assert(s@.subrange(width as int, len as int) =~= s@.skip(width as int));
    Some(s.substring_char(width, len))
}

/// `s` without the white space at its start.
pub open spec fn trimmed_start(s: Seq<char>) -> Seq<char>
    decreases s.len(),
{
    if s.len() > 0 && is_white(s[0]) {
        trimmed_start(s.skip(1))
    } else {
        s
    }
}

/// `s` without the white space at its end.
pub open spec fn trimmed_end(s: Seq<char>) -> Seq<char>
    decreases s.len(),
{
    if s.len() > 0 && is_white(s.last()) {
        trimmed_end(s.drop_last())
    } else {
        s
    }
}

/// `s` without the white space at both ends.
pub open spec fn trimmed(s: Seq<char>) -> Seq<char> {
    trimmed_end(trimmed_start(s))
}

proof fn lemma_trimmed_is_shorter(s: Seq<char>)
    ensures
        trimmed_start(s).len() <= s.len(),
        trimmed_end(s).len() <= s.len(),
        trimmed_end(s).len() == s.len() && s.len() > 0 ==> !is_white(s.last()),
        trimmed_start(s).len() == s.len() ==> trimmed_start(s) == s,
    decreases s.len(),
{
    if s.len() > 0 {
        lemma_trimmed_is_shorter(s.skip(1));
        lemma_trimmed_is_shorter(s.drop_last());
    }
}

/// A text that trimming leaves as it is does not end in white space.
pub proof fn lemma_trimmed_ends(s: Seq<char>)
    requires
        trimmed(s) == s,
        s.len() > 0,
    ensures
        !is_white(s.last()),
{
    lemma_trimmed_is_shorter(s);
    lemma_trimmed_is_shorter(trimmed_start(s));
}

/// Removes the white space at both ends.
pub fn trim(s: &str) -> (r: String)
    ensures
        r@ == trimmed(s@),
{
    let len: usize = s.unicode_len();
    let mut start: usize = 0;
    assert(s@.skip(0) =~= s@);
    while start < len && s.get_char(start).is_whitespace()
        invariant
            len == s@.len(),
            start <= len,
            trimmed_start(s@.skip(start as int)) == trimmed_start(s@),
        decreases len - start,
    {
        assert(s@.skip(start as int).skip(1) =~= s@.skip(start + 1));
        start = start + 1;
    }
    assert(trimmed_start(s@) =~= s@.skip(start as int));
    let mut end: usize = len;
    assert(s@.subrange(start as int, end as int) =~= s@.skip(start as int));
    while start < end && s.get_char(end - 1).is_whitespace()
        invariant
            len == s@.len(),
            start <= end <= len,
            trimmed_end(s@.subrange(start as int, end as int)) == trimmed(s@),
        decreases end,
    {
        assert(s@.subrange(start as int, end as int).drop_last() =~= s@.subrange(
            start as int,
            end - 1,
        ));
        end = end - 1;
    }
    s.substring_char(start, end).to_owned()
}

/// `s` without the leading repetitions of `prefix`.
pub open spec fn without_prefixes(s: Seq<char>, prefix: Seq<char>) -> Seq<char>
    decreases s.len(),
{
    if prefix.len() > 0 && prefix.is_prefix_of(s) {
        without_prefixes(s.skip(prefix.len() as int), prefix)
    } else {
        s
    }
}

/// Removes every leading repetition of a prefix.
pub fn strip_prefixes<'a>(s: &'a str, prefix: &str) -> (r: &'a str)
    ensures
        r@ == without_prefixes(s@, prefix@),
{
    let mut rest = s;
    if prefix.is_empty() {
        return rest;
    }
    loop
        invariant
            prefix@.len() > 0,
            without_prefixes(rest@, prefix@) == without_prefixes(s@, prefix@),
        ensures
            rest@ == without_prefixes(s@, prefix@),
        decreases rest@.len(),
    {
        match strip_prefix(rest, prefix) {
            Some(shorter) => {
                rest = shorter;
            },
            None => {
                break;
            },
        }
    }
    rest
}

/// The character that stands for a decimal digit.
pub open spec fn digit(n: nat) -> char {
    (48 + n % 10) as char
}

/// `n` in decimal notation.
pub open spec fn decimal(n: nat) -> Seq<char>
    decreases n,
{
    if n < 10 {
        seq![digit(n)]
    } else {
        decimal(n / 10).push(digit(n))
    }
}

/// Writes a number in decimal notation.
pub fn decimal_text(n: u64) -> (r: String)
    ensures
        r@ == decimal(n as nat),
    decreases n,
{
    let mut text = if n < 10 {
        String::new()
    } else {
        decimal_text(n / 10)
    };
    let last: u8 = 48u8 + (n % 10) as u8;
    text.push(last as char);
    text
}

/// The concatenation of two texts.
pub fn joined(a: &str, b: &str) -> (r: String)
    ensures
        r@ == a@ + b@,
{
    let mut text = a.to_owned();
    text.append(b);
    text
}

/// Whether a text is white space only.
pub open spec fn is_blank_text(s: Seq<char>) -> bool {
    forall|i: int| 0 <= i < s.len() ==> is_white(#[trigger] s[i])
}

proof fn lemma_trimmed_start(s: Seq<char>)
    ensures
        trimmed_start(s).len() <= s.len(),
        trimmed_start(s) == s.skip(s.len() - trimmed_start(s).len()),
        is_blank_text(s.take(s.len() - trimmed_start(s).len())),
        trimmed_start(s).len() > 0 ==> !is_white(trimmed_start(s)[0]),
    decreases s.len(),
{
    if s.len() > 0 && is_white(s[0]) {
        let rest = s.skip(1);
        lemma_trimmed_start(rest);
        let n = s.len() - trimmed_start(s).len();
        assert(rest.skip(n - 1) =~= s.skip(n));
        assert forall|i: int| 0 <= i < n implies is_white(#[trigger] s.take(n)[i]) by {
            if i > 0 {
                assert(s.take(n)[i] == rest.take(n - 1)[i - 1]);
            }
        }
    } else {
        assert(s.skip(0) =~= s);
    }
}

proof fn lemma_trimmed_end(s: Seq<char>)
    ensures
        trimmed_end(s).len() <= s.len(),
        trimmed_end(s) == s.take(trimmed_end(s).len() as int),
        is_blank_text(s.skip(trimmed_end(s).len() as int)),
        trimmed_end(s).len() > 0 ==> !is_white(trimmed_end(s).last()),
    decreases s.len(),
{
    if s.len() > 0 && is_white(s.last()) {
        let rest = s.drop_last();
        lemma_trimmed_end(rest);
        let n = trimmed_end(s).len() as int;
        assert(rest.take(n) =~= s.take(n));
        assert forall|i: int| 0 <= i < s.len() - n implies is_white(#[trigger] s.skip(n)[i]) by {
            if i < s.len() - n - 1 {
                assert(s.skip(n)[i] == rest.skip(n)[i]);
            }
        }
    } else {
        assert(s.take(s.len() as int) =~= s);
    }
}

/// Trimming takes white space from both ends, all of it and nothing else: what it leaves stands in
/// the text with only white space before and behind it, and neither begins nor ends with any.
pub proof fn law_trimming_takes_the_white_ends(s: Seq<char>)
    ensures
        exists|before: Seq<char>, behind: Seq<char>|
            #![trigger is_blank_text(before), is_blank_text(behind)]
            is_blank_text(before) && is_blank_text(behind) && s == before + trimmed(s) + behind,
        trimmed(s).len() > 0 ==> !is_white(trimmed(s)[0]) && !is_white(trimmed(s).last()),
{
    let t = trimmed_start(s);
    lemma_trimmed_start(s);
    lemma_trimmed_end(t);
    let before = s.take(s.len() - t.len());
    let behind = t.skip(trimmed(s).len() as int);
    assert(s =~= before + t);
    assert(t =~= trimmed(s) + behind);
    assert(s =~= before + trimmed(s) + behind);
    assert(is_blank_text(before) && is_blank_text(behind));
}

/// Every leading repetition of a prefix goes, and nothing else.
pub proof fn law_repeated_prefixes_go(s: Seq<char>, prefix: Seq<char>)
    requires
        prefix.len() > 0,
    ensures
        without_prefixes(prefix + s, prefix) == without_prefixes(s, prefix),
        !prefix.is_prefix_of(s) ==> without_prefixes(s, prefix) == s,
{
    assert(prefix.is_prefix_of(prefix + s));
    assert((prefix + s).skip(prefix.len() as int) =~= s);
}

/// The number that some decimal digits stand for.
pub open spec fn number(digits: Seq<char>) -> int
    decreases digits.len(),
{
    if digits.len() == 0 {
        0
    } else {
        number(digits.drop_last()) * 10 + (digits.last() as int - '0' as int)
    }
}

/// A number in decimal notation reads back as the number, has decimal digits only, and no leading
/// zero unless it is zero.
pub proof fn law_decimal_reads_back(n: nat)
    ensures
        number(decimal(n)) == n,
        decimal(n).len() > 0,
        forall|i: int| 0 <= i < decimal(n).len() ==> '0' <= #[trigger] decimal(n)[i] <= '9',
        n > 0 ==> decimal(n)[0] != '0',
    decreases n,
{
    let d = decimal(n);
    if n < 10 {
        assert(d.drop_last() =~= Seq::empty());
        reveal_with_fuel(number, 2);
    } else {
        law_decimal_reads_back(n / 10);
        assert(d.drop_last() =~= decimal(n / 10));
        assert forall|i: int| 0 <= i < d.len() implies '0' <= #[trigger] d[i] <= '9' by {
            if i < d.len() - 1 {
                assert(d[i] == decimal(n / 10)[i]);
            }
        }
        assert(d[0] == decimal(n / 10)[0]);
    }
}

} // verus!
