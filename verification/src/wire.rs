//! The binary notation of numbers and byte strings: what this library relies on from the
//! `postcard` crate.
use vstd::prelude::*;

verus! {

/// A failure of the codec.
#[verifier::external_type_specification]
#[verifier::external_body]
pub struct ExPostcardError(postcard::Error);

/// The text that `Display` gives of a failure of the codec.
pub uninterp spec fn codec_text(e: postcard::Error) -> Seq<char>;

/// What reading a number gives.
pub enum VarintRead {
    /// A number, and how many bytes it took.
    Value { value: nat, used: nat },
    /// The bytes end within the number.
    Short,
    /// The number is too long, or too large for its type.
    Bad,
}

/// A number as a sequence of bytes with seven bits each, the lowest first; all bytes but the last
/// have their highest bit set.
pub open spec fn varint(n: nat) -> Seq<u8>
    decreases n,
{
    if n < 128 {
        seq![n as u8]
    } else {
        seq![(128 + n % 128) as u8] + varint(n / 128)
    }
}

/// Reads a number of at most `limit` bytes, the last of which may not exceed `last_max` if it is
/// the `limit`th.
pub open spec fn read_varint(bytes: Seq<u8>, limit: nat, last_max: nat) -> VarintRead
    decreases limit,
{
    if limit == 0 {
        VarintRead::Bad
    } else if bytes.len() == 0 {
        VarintRead::Short
    } else if bytes[0] < 128 {
        if limit == 1 && bytes[0] > last_max {
            VarintRead::Bad
        } else {
            VarintRead::Value { value: bytes[0] as nat, used: 1 }
        }
    } else {
        match read_varint(bytes.skip(1), (limit - 1) as nat, last_max) {
            VarintRead::Value { value, used } => VarintRead::Value {
                value: (bytes[0] - 128) as nat + 128 * value,
                used: used + 1,
            },
            other => other,
        }
    }
}

/// Reads a number of 32 bits.
pub open spec fn read_varint_u32(bytes: Seq<u8>) -> VarintRead {
    read_varint(bytes, 5, 15)
}

/// Reads a number of the machine's word size.
pub open spec fn read_varint_usize(bytes: Seq<u8>) -> VarintRead {
    if usize::BITS == 64 {
        read_varint(bytes, 10, 1)
    } else {
        read_varint(bytes, 5, 15)
    }
}

/// What reading a byte string gives: a length, then that many bytes.
pub enum BytesRead {
    /// The byte string.
    Value(Seq<u8>),
    /// The bytes end within it.
    Short,
    /// Its length is no number.
    Bad,
}

/// Reads a byte string; what stands behind it is ignored.
pub open spec fn read_byte_string(bytes: Seq<u8>) -> BytesRead {
    match read_varint_usize(bytes) {
        VarintRead::Value { value, used } => if used + value <= bytes.len() {
            BytesRead::Value(bytes.subrange(used as int, (used + value) as int))
        } else {
            BytesRead::Short
        },
        VarintRead::Short => BytesRead::Short,
        VarintRead::Bad => BytesRead::Bad,
    }
}

/// The text of a failure at the end of the bytes.
pub open spec fn short_text() -> Seq<char> {
    "Hit the end of buffer, expected more data"@
}

/// The text of a failure on a number.
pub open spec fn bad_varint_text() -> Seq<char> {
    "Found a varint that didn't terminate. Is the usize too big for this platform?"@
}

/// `postcard::to_stdvec` on two numbers and a byte string: each number as a `varint`, then the
/// byte string's length as a `varint`, then its bytes. Writing to a vector does not fail.
#[verifier::external_body]
pub(crate) fn write_parts(id: u32, kind: u32, data: &[u8]) -> (r: Result<Vec<u8>, postcard::Error>)
    ensures
        r is Ok,
        r matches Ok(v) ==> v@ == varint(id as nat) + varint(kind as nat) + varint(data@.len())
            + data@,
{
    postcard::to_stdvec(&(id, kind, data))
}

/// `postcard::take_from_bytes` for a `u32`: reads a number and hands back the bytes behind it.
#[verifier::external_body]
pub(crate) fn take_u32<'a>(bytes: &'a [u8]) -> (r: Result<(u32, &'a [u8]), postcard::Error>)
    ensures
        match read_varint_u32(bytes@) {
            VarintRead::Value { value, used } => r matches Ok(p) && p.0 == value && p.1@
                == bytes@.skip(used as int),
            VarintRead::Short => r matches Err(e) && codec_text(e) == short_text(),
            VarintRead::Bad => r matches Err(e) && codec_text(e) == bad_varint_text(),
        },
{
    postcard::take_from_bytes(bytes)
}

/// `postcard::from_bytes` for a byte string: reads a length and that many bytes, and ignores what
/// stands behind them.
#[verifier::external_body]
pub(crate) fn read_bytes(bytes: &[u8]) -> (r: Result<Vec<u8>, postcard::Error>)
    ensures
        match read_byte_string(bytes@) {
            BytesRead::Value(data) => r matches Ok(v) && v@ == data,
            BytesRead::Short => r matches Err(e) && codec_text(e) == short_text(),
            BytesRead::Bad => r matches Err(e) && codec_text(e) == bad_varint_text(),
        },
{
    postcard::from_bytes(bytes)
}

/// The `Display` text of a `postcard::Error`.
#[verifier::external_body]
pub(crate) fn error_text(e: &postcard::Error) -> (r: String)
    ensures
        r@ == codec_text(*e),
{
    e.to_string()
}

/// One more than the largest number that `read_varint` takes.
pub open spec fn varint_bound(limit: nat, last_max: nat) -> nat
    decreases limit,
{
    if limit <= 1 {
        last_max + 1
    } else {
        128 * varint_bound((limit - 1) as nat, last_max)
    }
}

/// A number is read back from its notation, whatever follows.
pub proof fn lemma_varint_read_back(n: nat, rest: Seq<u8>, limit: nat, last_max: nat)
    requires
        limit >= 1,
        last_max < 128,
        n < varint_bound(limit, last_max),
    ensures
        read_varint(varint(n) + rest, limit, last_max) == (VarintRead::Value {
            value: n,
            used: varint(n).len(),
        }),
        varint(n).len() >= 1,
    decreases limit,
{
    let bytes = varint(n) + rest;
    if n < 128 {
        assert(bytes[0] == n as u8);
    } else {
        assert(limit >= 2);
        lemma_varint_read_back(n / 128, rest, (limit - 1) as nat, last_max);
        assert(bytes[0] == (128 + n % 128) as u8);
        assert(bytes.skip(1) =~= varint(n / 128) + rest);
    }
}

/// Every `u32` is read back from its notation.
pub proof fn lemma_varint_u32_read_back(n: u32, rest: Seq<u8>)
    ensures
        read_varint_u32(varint(n as nat) + rest) == (VarintRead::Value {
            value: n as nat,
            used: varint(n as nat).len(),
        }),
{
    reveal_with_fuel(varint_bound, 6);
    lemma_varint_read_back(n as nat, rest, 5, 15);
}

/// Every byte string is read back from its notation, whatever follows.
pub proof fn lemma_byte_string_read_back(data: Seq<u8>, rest: Seq<u8>)
    requires
        data.len() <= usize::MAX,
    ensures
        read_byte_string(varint(data.len()) + data + rest) == BytesRead::Value(data),
{
    reveal_with_fuel(varint_bound, 11);
    let head = varint(data.len());
    let bytes = head + data + rest;
    assert(bytes =~= head + (data + rest));
    if usize::BITS == 64 {
        lemma_varint_read_back(data.len(), data + rest, 10, 1);
    } else {
        lemma_varint_read_back(data.len(), data + rest, 5, 15);
    }
    assert(bytes.subrange(head.len() as int, (head.len() + data.len()) as int) =~= data);
}

/// A number that is cut short is not read.
pub proof fn lemma_cut_varint(n: nat, k: int, limit: nat, last_max: nat)
    requires
        limit >= 1,
        last_max < 128,
        n < varint_bound(limit, last_max),
        0 <= k < varint(n).len(),
    ensures
        read_varint(varint(n).take(k), limit, last_max) is Short,
    decreases limit,
{
    let bytes = varint(n).take(k);
    if k > 0 {
        assert(n >= 128);
        assert(bytes[0] == (128 + n % 128) as u8);
        assert(bytes.skip(1) =~= varint(n / 128).take(k - 1));
        lemma_cut_varint(n / 128, k - 1, (limit - 1) as nat, last_max);
    }
}

/// A byte string that is cut short is not read.
pub proof fn lemma_cut_byte_string(data: Seq<u8>, k: int)
    requires
        data.len() <= usize::MAX,
        0 <= k < varint(data.len()).len() + data.len(),
    ensures
        read_byte_string((varint(data.len()) + data).take(k)) is Short,
{
    reveal_with_fuel(varint_bound, 11);
    let head = varint(data.len());
    let bytes = (head + data).take(k);
    if k < head.len() {
        assert(bytes =~= head.take(k));
        if usize::BITS == 64 {
            lemma_cut_varint(data.len(), k, 10, 1);
        } else {
            lemma_cut_varint(data.len(), k, 5, 15);
        }
    } else {
        let rest = data.take(k - head.len());
        assert(bytes =~= head + rest);
        if usize::BITS == 64 {
            lemma_varint_read_back(data.len(), rest, 10, 1);
        } else {
            lemma_varint_read_back(data.len(), rest, 5, 15);
        }
    }
}

/// The notation of a number holds seven bits of it in each byte, the lowest first, and sets the
/// highest bit of every byte but the last.
pub proof fn law_numbers_are_written_lowest_first(n: nat)
    ensures
        varint(n).len() > 0,
        varint(n)[0] as nat % 128 == n % 128,
        n < 128 ==> varint(n).len() == 1 && varint(n)[0] < 128,
        n >= 128 ==> varint(n)[0] >= 128 && varint(n).skip(1) == varint(n / 128),
{
    if n >= 128 {
        assert(varint(n).skip(1) =~= varint(n / 128));
    }
}

} // verus!
