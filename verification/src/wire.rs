//! The fields of the wire format: big-endian integers, one-byte flags and
//! length-prefixed text.
//!
//! Every field has three faces: a spec function that gives its bytes, a spec
//! parser that reads it at a position of a byte sequence, and a pair of
//! executable functions proved against them.

use vstd::prelude::*;
use vstd::utf8::*;
use vstd::slice::*;
use vstd::string::*;

verus! {

/// Why a byte sequence is not the encoding of a value.
#[derive(Clone, Copy, Debug, PartialEq, Eq, Structural)]
pub enum DecodeError {
    /// The action discriminant is none of the four known ones.
    UnknownAction,
    /// A field reaches past the end of the input.
    Truncated,
    /// The bytes of a text are not well-formed UTF-8.
    InvalidUtf8,
    /// A flag byte is neither `0` nor `1`.
    InvalidBool,
}

/// The largest byte length of a text that the four-byte length prefix can
/// announce.
pub const MAX_TEXT_BYTES: usize = 0xFFFF_FFFF;

/// The four bytes of `n`, most significant first.
pub open spec fn be32(n: u32) -> Seq<u8> {
    seq![
        (n / 0x100_0000) as u8,
        (n / 0x1_0000 % 0x100) as u8,
        (n / 0x100 % 0x100) as u8,
        (n % 0x100) as u8,
    ]
}

/// The number that the first four bytes of `b` spell, most significant first.
pub open spec fn be32_value(b: Seq<u8>) -> int
    recommends
        b.len() >= 4,
{
    b[0] as int * 0x100_0000 + b[1] as int * 0x1_0000 + b[2] as int * 0x100 + b[3] as int
}

/// The eight bytes of `n`, most significant first.
pub open spec fn be64(n: u64) -> Seq<u8> {
    be32((n / 0x1_0000_0000) as u32) + be32((n % 0x1_0000_0000) as u32)
}

/// The number that the first eight bytes of `b` spell, most significant first.
pub open spec fn be64_value(b: Seq<u8>) -> int
    recommends
        b.len() >= 8,
{
    be32_value(b.subrange(0, 4)) * 0x1_0000_0000 + be32_value(b.subrange(4, 8))
}

/// The two's-complement bit pattern of `x`, read as an unsigned number.
pub open spec fn i64_bits(x: i64) -> u64 {
    if x >= 0 {
        x as u64
    } else {
        (x + 0x1_0000_0000_0000_0000) as u64
    }
}

/// The signed number whose two's-complement bit pattern is `u`.
pub open spec fn bits_i64(u: u64) -> i64 {
    if u < 0x8000_0000_0000_0000 {
        u as i64
    } else {
        (u - 0x1_0000_0000_0000_0000) as i64
    }
}

/// The encoding of a signed 64-bit number: eight bytes, big-endian two's
/// complement.
pub open spec fn i64_wire(x: i64) -> Seq<u8> {
    be64(i64_bits(x))
}

/// The encoding of a flag: one byte, `0` for false and `1` for true.
pub open spec fn bool_wire(b: bool) -> Seq<u8> {
    seq![if b { 1u8 } else { 0u8 }]
}

/// Whether the UTF-8 form of `s` is short enough for the length prefix.
pub open spec fn text_fits(s: Seq<char>) -> bool {
    encode_utf8(s).len() <= MAX_TEXT_BYTES
}

/// The encoding of a text: the byte length of its UTF-8 form as four
/// big-endian bytes, then the UTF-8 form itself.
pub open spec fn text_wire(s: Seq<char>) -> Seq<u8>
    recommends
        text_fits(s),
{
    be32(encode_utf8(s).len() as u32) + encode_utf8(s)
}

/// Reads a four-byte big-endian number at `pos`; the second component is the
/// position behind it.
pub open spec fn parse_u32(b: Seq<u8>, pos: int) -> Result<(u32, int), DecodeError> {
    if 0 <= pos && pos + 4 <= b.len() {
        Ok((be32_value(b.subrange(pos, pos + 4)) as u32, pos + 4))
    } else {
        Err(DecodeError::Truncated)
    }
}

/// Reads an eight-byte big-endian two's-complement number at `pos`.
pub open spec fn parse_i64(b: Seq<u8>, pos: int) -> Result<(i64, int), DecodeError> {
    if 0 <= pos && pos + 8 <= b.len() {
        Ok((bits_i64(be64_value(b.subrange(pos, pos + 8)) as u64), pos + 8))
    } else {
        Err(DecodeError::Truncated)
    }
}

/// Reads a flag byte at `pos`. Only `0` and `1` are flags.
pub open spec fn parse_bool(b: Seq<u8>, pos: int) -> Result<(bool, int), DecodeError> {
    if !(0 <= pos < b.len()) {
        Err(DecodeError::Truncated)
    } else if b[pos] == 0 {
        Ok((false, pos + 1))
    } else if b[pos] == 1 {
        Ok((true, pos + 1))
    } else {
        Err(DecodeError::InvalidBool)
    }
}

/// Reads a length-prefixed text at `pos`: the prefix must lie within the
/// input, then as many bytes as it announces, and those must be UTF-8.
pub open spec fn parse_text(b: Seq<u8>, pos: int) -> Result<(Seq<char>, int), DecodeError> {
    match parse_u32(b, pos) {
        Err(e) => Err(e),
        Ok((n, start)) => {
            if start + n > b.len() {
                Err(DecodeError::Truncated)
            } else if !valid_utf8(b.subrange(start, start + n)) {
                Err(DecodeError::InvalidUtf8)
            } else {
                Ok((decode_utf8(b.subrange(start, start + n)), start + n))
            }
        },
    }
}

/// `be32` and `be32_value` undo each other on numbers.
pub proof fn lemma_be32_value(n: u32)
    ensures
        be32(n).len() == 4,
        be32_value(be32(n)) == n,
{
}

/// `be32` and `be32_value` undo each other on four bytes.
pub proof fn lemma_be32_bytes(b: Seq<u8>)
    requires
        b.len() == 4,
    ensures
        0 <= be32_value(b) <= u32::MAX,
        be32(be32_value(b) as u32) == b,
{
    lemma_be32_digits(b[0] as int, b[1] as int, b[2] as int, b[3] as int);
    assert(be32(be32_value(b) as u32) =~= b);
}

/// The four base-256 digits of a number that is written out digit by digit.
proof fn lemma_be32_digits(d0: int, d1: int, d2: int, d3: int)
    requires
        0 <= d0 < 0x100,
        0 <= d1 < 0x100,
        0 <= d2 < 0x100,
        0 <= d3 < 0x100,
    ensures
        ({
            let v = d0 * 0x100_0000 + d1 * 0x1_0000 + d2 * 0x100 + d3;
            &&& 0 <= v <= u32::MAX
            &&& v / 0x100_0000 == d0
            &&& v / 0x1_0000 % 0x100 == d1
            &&& v / 0x100 % 0x100 == d2
            &&& v % 0x100 == d3
        }),
{
    let v = d0 * 0x100_0000 + d1 * 0x1_0000 + d2 * 0x100 + d3;
    assert(v / 0x100 == d0 * 0x1_0000 + d1 * 0x100 + d2);
    assert(v / 0x1_0000 == d0 * 0x100 + d1);
    assert(v / 0x100_0000 == d0);
}

/// `be64` and `be64_value` undo each other on numbers.
pub proof fn lemma_be64_value(n: u64)
    ensures
        be64(n).len() == 8,
        be64_value(be64(n)) == n,
{
    let hi = (n / 0x1_0000_0000) as u32;
    let lo = (n % 0x1_0000_0000) as u32;
    lemma_be32_value(hi);
    lemma_be32_value(lo);
    assert(be64(n).subrange(0, 4) =~= be32(hi));
    assert(be64(n).subrange(4, 8) =~= be32(lo));
}

/// `be64` and `be64_value` undo each other on eight bytes.
pub proof fn lemma_be64_bytes(b: Seq<u8>)
    requires
        b.len() == 8,
    ensures
        0 <= be64_value(b) <= u64::MAX,
        be64(be64_value(b) as u64) == b,
{
    let hi = b.subrange(0, 4);
    let lo = b.subrange(4, 8);
    lemma_be32_bytes(hi);
    lemma_be32_bytes(lo);
    let n = be64_value(b) as u64;
    assert((n / 0x1_0000_0000) as u32 == be32_value(hi));
    assert((n % 0x1_0000_0000) as u32 == be32_value(lo));
    assert(be64(n) =~= hi + lo);
    assert(hi + lo =~= b);
}

/// A signed number is the number of its bit pattern.
pub proof fn lemma_i64_of_bits(x: i64)
    ensures
        bits_i64(i64_bits(x)) == x,
{
}

/// A bit pattern is the bit pattern of its signed number.
pub proof fn lemma_bits_of_i64(u: u64)
    ensures
        i64_bits(bits_i64(u)) == u,
{
}

/// Every number takes eight bytes.
pub proof fn lemma_i64_wire_len(x: i64)
    ensures
        i64_wire(x).len() == 8,
{
    lemma_be64_value(i64_bits(x));
}

/// Appends `bytes` to `out`.
pub fn put_bytes(out: &mut Vec<u8>, bytes: &[u8])
    ensures
        final(out)@ == old(out)@ + bytes@,
{
    let mut i: usize = 0;
    while i < bytes.len()
        invariant
            i <= bytes.len(),
            out@ == old(out)@ + bytes@.subrange(0, i as int),
        decreases bytes.len() - i,
    {
        out.push(bytes[i]);
        i += 1;
        assert(out@ =~= old(out)@ + bytes@.subrange(0, i as int));
    }
    assert(bytes@.subrange(0, i as int) =~= bytes@);
}

/// Appends the four big-endian bytes of `n` to `out`.
pub fn put_u32(out: &mut Vec<u8>, n: u32)
    ensures
        final(out)@ == old(out)@ + be32(n),
{
    out.push((n / 0x100_0000) as u8);
    out.push((n / 0x1_0000 % 0x100) as u8);
    out.push((n / 0x100 % 0x100) as u8);
    out.push((n % 0x100) as u8);
    assert(out@ =~= old(out)@ + be32(n));
}

/// Appends the eight big-endian bytes of `n` to `out`.
pub fn put_u64(out: &mut Vec<u8>, n: u64)
    ensures
        final(out)@ == old(out)@ + be64(n),
{
    put_u32(out, (n / 0x1_0000_0000) as u32);
    put_u32(out, (n % 0x1_0000_0000) as u32);
    assert(out@ =~= old(out)@ + be64(n));
}

/// Appends the encoding of `x` to `out`.
pub fn put_i64(out: &mut Vec<u8>, x: i64)
    ensures
        final(out)@ == old(out)@ + i64_wire(x),
{
    let bits: u64 = if x >= 0 {
        x as u64
    } else {
        ((x - i64::MIN) as u64) + 0x8000_0000_0000_0000
    };
    put_u64(out, bits);
}

/// Appends the encoding of `b` to `out`.
pub fn put_bool(out: &mut Vec<u8>, b: bool)
    ensures
        final(out)@ == old(out)@ + bool_wire(b),
{
    out.push(if b { 1 } else { 0 });
    assert(out@ =~= old(out)@ + bool_wire(b));
}

/// Tells whether `s` is short enough to be encoded.
pub fn text_is_encodable(s: &str) -> (b: bool)
    ensures
        b == text_fits(s@),
{
    s.as_bytes().len() <= MAX_TEXT_BYTES
}

/// Appends the encoding of `s` to `out`.
pub fn put_text(out: &mut Vec<u8>, s: &str)
    requires
        text_fits(s@),
    ensures
        final(out)@ == old(out)@ + text_wire(s@),
{
    let raw = s.as_bytes();
    put_u32(out, raw.len() as u32);
    put_bytes(out, raw);
    assert(out@ =~= old(out)@ + text_wire(s@));
}

/// Reads a four-byte big-endian number at `pos`.
pub fn read_u32(bytes: &[u8], pos: usize) -> (r: Result<(u32, usize), DecodeError>)
    ensures
        match r {
            Ok((v, next)) => parse_u32(bytes@, pos as int) == Ok::<(u32, int), DecodeError>(
                (v, next as int),
            ),
            Err(e) => parse_u32(bytes@, pos as int) == Err::<(u32, int), DecodeError>(e),
        },
{
    if pos > bytes.len() || bytes.len() - pos < 4 {
        return Err(DecodeError::Truncated);
    }
    let b0: u32 = bytes[pos] as u32;
    let b1: u32 = bytes[pos + 1] as u32;
    let b2: u32 = bytes[pos + 2] as u32;
    let b3: u32 = bytes[pos + 3] as u32;
    Ok((b0 * 0x100_0000 + b1 * 0x1_0000 + b2 * 0x100 + b3, pos + 4))
}

/// Reads an eight-byte big-endian two's-complement number at `pos`.
pub fn read_i64(bytes: &[u8], pos: usize) -> (r: Result<(i64, usize), DecodeError>)
    ensures
        match r {
            Ok((v, next)) => parse_i64(bytes@, pos as int) == Ok::<(i64, int), DecodeError>(
                (v, next as int),
            ),
            Err(e) => parse_i64(bytes@, pos as int) == Err::<(i64, int), DecodeError>(e),
        },
{
    if pos > bytes.len() || bytes.len() - pos < 8 {
        return Err(DecodeError::Truncated);
    }
    let ghost field = bytes@.subrange(pos as int, pos + 8);
    let hi: u64 = match read_u32(bytes, pos) {
        Ok((v, _)) => v as u64,
        Err(e) => {
            return Err(e);
        },
    };
    let lo: u64 = match read_u32(bytes, pos + 4) {
        Ok((v, _)) => v as u64,
        Err(e) => {
            return Err(e);
        },
    };
    proof {
        assert(field.subrange(0, 4) =~= bytes@.subrange(pos as int, pos + 4));
        assert(field.subrange(4, 8) =~= bytes@.subrange(pos + 4, pos + 8));
        lemma_be32_bytes(field.subrange(0, 4));
        lemma_be32_bytes(field.subrange(4, 8));
    }
    let bits: u64 = hi * 0x1_0000_0000 + lo;
    let value: i64 = if bits < 0x8000_0000_0000_0000 {
        bits as i64
    } else {
        ((bits - 0x8000_0000_0000_0000) as i64) + i64::MIN
    };
    Ok((value, pos + 8))
}

/// Reads a flag byte at `pos`.
pub fn read_bool(bytes: &[u8], pos: usize) -> (r: Result<(bool, usize), DecodeError>)
    ensures
        match r {
            Ok((v, next)) => parse_bool(bytes@, pos as int) == Ok::<(bool, int), DecodeError>(
                (v, next as int),
            ),
            Err(e) => parse_bool(bytes@, pos as int) == Err::<(bool, int), DecodeError>(e),
        },
{
    if pos >= bytes.len() {
        return Err(DecodeError::Truncated);
    }
    let b = bytes[pos];
    if b == 0 {
        Ok((false, pos + 1))
    } else if b == 1 {
        Ok((true, pos + 1))
    } else {
        Err(DecodeError::InvalidBool)
    }
}

/// `core::str::from_utf8`: the bytes as a string slice when they are
/// well-formed UTF-8, and nothing when they are not. The contract takes
/// `valid_utf8` for what the standard library accepts, and says that the
/// slice holds the characters that the bytes encode.
#[verifier::external_body]
fn utf8_text(bytes: &[u8]) -> (r: Option<&str>)
    ensures
        match r {
            Some(s) => valid_utf8(bytes@) && s@ == decode_utf8(bytes@),
            None => !valid_utf8(bytes@),
        },
{
    core::str::from_utf8(bytes).ok()
}

/// Reads a length-prefixed text at `pos`.
pub fn read_text(bytes: &[u8], pos: usize) -> (r: Result<(String, usize), DecodeError>)
    ensures
        match r {
            Ok((s, next)) => parse_text(bytes@, pos as int) == Ok::<(Seq<char>, int), DecodeError>(
                (s@, next as int),
            ),
            Err(e) => parse_text(bytes@, pos as int) == Err::<(Seq<char>, int), DecodeError>(e),
        },
{
    let (n, start) = match read_u32(bytes, pos) {
        Ok(pair) => pair,
        Err(e) => {
            return Err(e);
        },
    };
    if n as usize > bytes.len() - start {
        return Err(DecodeError::Truncated);
    }
    let end: usize = start + n as usize;
    match utf8_text(slice_subrange(bytes, start, end)) {
        Some(s) => Ok((s.to_owned(), end)),
        None => Err(DecodeError::InvalidUtf8),
    }
}

/// A text that was read fits the length prefix again.
pub proof fn lemma_parsed_text_fits(b: Seq<u8>, pos: int)
    requires
        parse_text(b, pos) is Ok,
    ensures
        text_fits(parse_text(b, pos)->Ok_0.0),
        pos < parse_text(b, pos)->Ok_0.1 <= b.len(),
        b.subrange(pos, parse_text(b, pos)->Ok_0.1) == text_wire(parse_text(b, pos)->Ok_0.0),
{
    let n = parse_u32(b, pos)->Ok_0.0;
    let start = pos + 4;
    let raw = b.subrange(start, start + n);
    decode_utf8_encode_utf8(raw);
    lemma_be32_bytes(b.subrange(pos, pos + 4));
    assert(b.subrange(pos, start + n) =~= b.subrange(pos, pos + 4) + raw);
}

/// Reading at the place where a text was written gives the text back,
/// whatever stands before and behind it.
pub proof fn lemma_parse_text_wire(b: Seq<u8>, pos: int, s: Seq<char>)
    requires
        text_fits(s),
        0 <= pos,
        pos + text_wire(s).len() <= b.len(),
        b.subrange(pos, pos + text_wire(s).len()) == text_wire(s),
    ensures
        parse_text(b, pos) == Ok::<(Seq<char>, int), DecodeError>((s, pos + text_wire(s).len())),
{
    let raw = encode_utf8(s);
    let n = raw.len() as u32;
    let field = b.subrange(pos, pos + text_wire(s).len());
    lemma_be32_value(n);
    assert(b.subrange(pos, pos + 4) =~= field.subrange(0, 4));
    assert(field.subrange(0, 4) =~= be32(n));
    assert(b.subrange(pos + 4, pos + 4 + n) =~= field.subrange(4, 4 + n));
    assert(field.subrange(4, 4 + n) =~= raw);
    encode_utf8_valid_utf8(s);
    encode_utf8_decode_utf8(s);
}

/// Reading at the place where a number was written gives the number back.
pub proof fn lemma_parse_i64_wire(b: Seq<u8>, pos: int, x: i64)
    requires
        0 <= pos,
        pos + 8 <= b.len(),
        b.subrange(pos, pos + 8) == i64_wire(x),
    ensures
        i64_wire(x).len() == 8,
        parse_i64(b, pos) == Ok::<(i64, int), DecodeError>((x, pos + 8)),
{
    lemma_be64_value(i64_bits(x));
    lemma_i64_of_bits(x);
}

/// A number that was read is spelled by the bytes it was read from.
pub proof fn lemma_parsed_i64(b: Seq<u8>, pos: int)
    requires
        parse_i64(b, pos) is Ok,
    ensures
        b.subrange(pos, pos + 8) == i64_wire(parse_i64(b, pos)->Ok_0.0),
{
    let field = b.subrange(pos, pos + 8);
    lemma_be64_bytes(field);
    lemma_bits_of_i64(be64_value(field) as u64);
}

} // verus!
