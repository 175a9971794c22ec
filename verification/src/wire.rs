//! Primitive pieces of the wire format: little-endian integers and
//! length-prefixed text.
//!
//! Each piece has an encoder, written as a function from a value to bytes, and
//! a parser, written as a function from bytes to a value and the bytes that
//! are left. The lemmas state that the two are inverse to each other.

use vstd::prelude::*;
use vstd::utf8::*;

verus! {

/// The two bytes of `x`, least significant first.
#[verifier::opaque]
pub open spec fn le_u16(x: u16) -> Seq<u8> {
    seq![(x % 0x100) as u8, (x / 0x100) as u8]
}

/// The number whose little-endian bytes are the first two bytes of `b`.
#[verifier::opaque]
pub open spec fn u16_of_le(b: Seq<u8>) -> u16
    recommends
        b.len() >= 2,
{
    (b[0] + b[1] * 0x100) as u16
}

/// The four bytes of `x`, least significant first: the low half, then the
/// high half.
#[verifier::opaque]
pub open spec fn le_u32(x: u32) -> Seq<u8> {
    le_u16((x % 0x1_0000) as u16) + le_u16((x / 0x1_0000) as u16)
}

/// The number whose little-endian bytes are the first four bytes of `b`.
#[verifier::opaque]
pub open spec fn u32_of_le(b: Seq<u8>) -> u32
    recommends
        b.len() >= 4,
{
    (u16_of_le(b) + u16_of_le(b.skip(2)) * 0x1_0000) as u32
}

/// The eight bytes of `x`, least significant first: the low half, then the
/// high half.
pub open spec fn le_u64(x: u64) -> Seq<u8> {
    le_u32((x % 0x1_0000_0000) as u32) + le_u32((x / 0x1_0000_0000) as u32)
}

/// The number whose little-endian bytes are the first eight bytes of `b`.
pub open spec fn u64_of_le(b: Seq<u8>) -> u64
    recommends
        b.len() >= 8,
{
    (u32_of_le(b) + u32_of_le(b.skip(4)) * 0x1_0000_0000) as u64
}

/// Reads a 32-bit integer from the front of `b`.
pub open spec fn parse_u32(b: Seq<u8>) -> Option<(u32, Seq<u8>)> {
    if b.len() >= 4 {
        Some((u32_of_le(b), b.skip(4)))
    } else {
        None
    }
}

/// Reads a 64-bit integer from the front of `b`.
pub open spec fn parse_u64(b: Seq<u8>) -> Option<(u64, Seq<u8>)> {
    if b.len() >= 8 {
        Some((u64_of_le(b), b.skip(8)))
    } else {
        None
    }
}

/// Reading two bytes that `le_u16` wrote gives the number back.
pub proof fn lemma_u16_of_le_u16(x: u16, tail: Seq<u8>)
    ensures
        le_u16(x).len() == 2,
        u16_of_le(le_u16(x) + tail) == x,
        (le_u16(x) + tail).skip(2) == tail,
{
    reveal(le_u16);
    reveal(u16_of_le);
    let b = le_u16(x) + tail;
    assert(b[0] == (x % 0x100) as u8);
    assert(b[1] == (x / 0x100) as u8);
    assert(b.skip(2) =~= tail);
}

/// Two bytes or more start with the encoding of the number they hold.
pub proof fn lemma_le_u16_of_le(b: Seq<u8>)
    requires
        b.len() >= 2,
    ensures
        b == le_u16(u16_of_le(b)) + b.skip(2),
{
    reveal(le_u16);
    reveal(u16_of_le);
    let x = u16_of_le(b);
    let b0 = b[0] as int;
    let b1 = b[1] as int;
    assert(x == b0 + b1 * 0x100);
    assert(x % 0x100 == b0);
    assert(x / 0x100 == b1);
    assert(b =~= le_u16(x) + b.skip(2));
}

/// Parsing what `le_u32` wrote gives the number back and leaves the tail.
pub proof fn lemma_parse_le_u32(x: u32, tail: Seq<u8>)
    ensures
        le_u32(x).len() == 4,
        parse_u32(le_u32(x) + tail) == Some((x, tail)),
{
    reveal(le_u32);
    reveal(u32_of_le);
    let lo = (x % 0x1_0000) as u16;
    let hi = (x / 0x1_0000) as u16;
    let b = le_u32(x) + tail;
    lemma_u16_of_le_u16(lo, le_u16(hi) + tail);
    lemma_u16_of_le_u16(hi, tail);
    assert(b =~= le_u16(lo) + (le_u16(hi) + tail));
    assert(b.skip(4) =~= tail);
}

/// Whatever `parse_u32` accepts starts with the encoding of the number read.
pub proof fn lemma_le_u32_of_parse(b: Seq<u8>, x: u32, rest: Seq<u8>)
    requires
        parse_u32(b) == Some((x, rest)),
    ensures
        b == le_u32(x) + rest,
{
    reveal(le_u32);
    reveal(u32_of_le);
    let lo = u16_of_le(b);
    let hi = u16_of_le(b.skip(2));
    lemma_le_u16_of_le(b);
    lemma_le_u16_of_le(b.skip(2));
    assert(x == lo + hi * 0x1_0000);
    assert(x % 0x1_0000 == lo);
    assert(x / 0x1_0000 == hi);
    assert(b.skip(2).skip(2) =~= b.skip(4));
    assert(b =~= le_u16(lo) + le_u16(hi) + b.skip(4));
}

/// Parsing what `le_u64` wrote gives the number back and leaves the tail.
pub proof fn lemma_parse_le_u64(x: u64, tail: Seq<u8>)
    ensures
        le_u64(x).len() == 8,
        parse_u64(le_u64(x) + tail) == Some((x, tail)),
{
    let lo = (x % 0x1_0000_0000) as u32;
    let hi = (x / 0x1_0000_0000) as u32;
    let b = le_u64(x) + tail;
    lemma_parse_le_u32(lo, le_u32(hi) + tail);
    lemma_parse_le_u32(hi, tail);
    assert(b =~= le_u32(lo) + (le_u32(hi) + tail));
    assert(b.skip(8) =~= tail);
}

/// Whatever `parse_u64` accepts starts with the encoding of the number read.
pub proof fn lemma_le_u64_of_parse(b: Seq<u8>, x: u64, rest: Seq<u8>)
    requires
        parse_u64(b) == Some((x, rest)),
    ensures
        b == le_u64(x) + rest,
{
    let lo = u32_of_le(b);
    let hi = u32_of_le(b.skip(4));
    lemma_le_u32_of_parse(b, lo, b.skip(4));
    lemma_le_u32_of_parse(b.skip(4), hi, b.skip(4).skip(4));
    assert(x == lo + hi * 0x1_0000_0000);
    assert(x % 0x1_0000_0000 == lo);
    assert(x / 0x1_0000_0000 == hi);
    assert(b.skip(4).skip(4) =~= b.skip(8));
    assert(b =~= le_u32(lo) + le_u32(hi) + b.skip(8));
}

/// A text fits the format when its UTF-8 length can be written as a 32-bit
/// length prefix.
pub open spec fn text_fits(s: Seq<char>) -> bool {
    encode_utf8(s).len() <= u32::MAX
}

/// A text on the wire: the length of its UTF-8 form in bytes, as a 32-bit
/// little-endian integer, and then those bytes.
pub open spec fn text_bytes(s: Seq<char>) -> Seq<u8> {
    le_u32(encode_utf8(s).len() as u32) + encode_utf8(s)
}

/// Reads a text from the front of `b`. It fails when the length prefix is cut
/// short, when it announces more bytes than follow, and when the announced
/// bytes are not UTF-8.
pub open spec fn parse_text(b: Seq<u8>) -> Option<(Seq<char>, Seq<u8>)> {
    match parse_u32(b) {
        Some((n, rest)) => if n <= rest.len() && valid_utf8(rest.take(n as int)) {
            Some((decode_utf8(rest.take(n as int)), rest.skip(n as int)))
        } else {
            None
        },
        None => None,
    }
}

/// Parsing what `text_bytes` wrote gives the text back and leaves the tail.
pub proof fn lemma_parse_text_bytes(s: Seq<char>, tail: Seq<u8>)
    requires
        text_fits(s),
    ensures
        parse_text(text_bytes(s) + tail) == Some((s, tail)),
{
    let body = encode_utf8(s);
    let n = body.len() as u32;
    lemma_parse_le_u32(n, body + tail);
    assert(text_bytes(s) + tail =~= le_u32(n) + (body + tail));
    assert((body + tail).take(n as int) =~= body);
    assert((body + tail).skip(n as int) =~= tail);
    encode_utf8_valid_utf8(s);
    encode_utf8_decode_utf8(s);
}

/// Whatever `parse_text` accepts starts with the encoding of the text read,
/// and that text fits the format.
pub proof fn lemma_text_bytes_of_parse(b: Seq<u8>, s: Seq<char>, rest: Seq<u8>)
    requires
        parse_text(b) == Some((s, rest)),
    ensures
        text_fits(s),
        b == text_bytes(s) + rest,
{
    let (n, after) = parse_u32(b)->0;
    let body = after.take(n as int);
    lemma_le_u32_of_parse(b, n, after);
    decode_utf8_encode_utf8(body);
    assert(after =~= body + rest);
    assert(b =~= le_u32(n) + body + rest);
}

/// A text that was read took its four-byte prefix and its UTF-8 bytes from
/// the input.
pub proof fn lemma_parse_text_consumes(b: Seq<u8>, s: Seq<char>, rest: Seq<u8>)
    requires
        parse_text(b) == Some((s, rest)),
    ensures
        b.len() == 4 + encode_utf8(s).len() + rest.len(),
{
    lemma_text_bytes_of_parse(b, s, rest);
    lemma_parse_le_u32(encode_utf8(s).len() as u32, Seq::empty());
}

/// Appends the two bytes of `x`.
pub fn put_u16(out: &mut Vec<u8>, x: u16)
    ensures
        final(out)@ == old(out)@ + le_u16(x),
{
    out.push((x % 0x100) as u8);
    out.push((x / 0x100) as u8);
    proof {
        reveal(le_u16);
    }
    assert(out@ =~= old(out)@ + le_u16(x));
}

/// Appends the four bytes of `x`.
pub fn put_u32(out: &mut Vec<u8>, x: u32)
    ensures
        final(out)@ == old(out)@ + le_u32(x),
{
    put_u16(out, (x % 0x1_0000) as u16);
    put_u16(out, (x / 0x1_0000) as u16);
    proof {
        reveal(le_u32);
    }
    assert(out@ =~= old(out)@ + le_u32(x));
}

/// Appends the eight bytes of `x`.
pub fn put_u64(out: &mut Vec<u8>, x: u64)
    ensures
        final(out)@ == old(out)@ + le_u64(x),
{
    put_u32(out, (x % 0x1_0000_0000) as u32);
    put_u32(out, (x / 0x1_0000_0000) as u32);
    assert(out@ =~= old(out)@ + le_u64(x));
}

/// Appends `src` as it is.
pub fn put_bytes(out: &mut Vec<u8>, src: &[u8])
    ensures
        final(out)@ == old(out)@ + src@,
{
    let mut i: usize = 0;
    while i < src.len()
        invariant
            i <= src.len(),
            out@ == old(out)@ + src@.take(i as int),
        decreases src.len() - i,
    {
        out.push(src[i]);
        i = i + 1;
        assert(out@ =~= old(out)@ + src@.take(i as int));
    }
    assert(src@.take(i as int) =~= src@);
}

/// Whether a text fits the format.
pub fn fits(s: &str) -> (r: bool)
    ensures
        r == text_fits(s@),
{
    s.as_bytes().len() <= 0xffff_ffff
}

/// Appends a text with its length prefix.
pub fn put_text(out: &mut Vec<u8>, s: &str)
    requires
        text_fits(s@),
    ensures
        final(out)@ == old(out)@ + text_bytes(s@),
{
    let body = s.as_bytes();
    put_u32(out, body.len() as u32);
    put_bytes(out, body);
    assert(out@ =~= old(out)@ + text_bytes(s@));
}

/// The `n` bytes of `input` from `pos` on, as a vector of their own.
pub fn copy_range(input: &[u8], pos: usize, n: usize) -> (r: Vec<u8>)
    requires
        pos + n <= input.len(),
    ensures
        r@ == input@.subrange(pos as int, pos + n),
{
    let mut r: Vec<u8> = Vec::with_capacity(n);
    let mut i: usize = 0;
    while i < n
        invariant
            i <= n,
            pos + n <= input.len(),
            r@ == input@.subrange(pos as int, pos + i),
        decreases n - i,
    {
        r.push(input[pos + i]);
        i = i + 1;
        assert(r@ =~= input@.subrange(pos as int, pos + i));
    }
    r
}

/// The two-byte number at `pos`.
fn read_u16(input: &[u8], pos: usize) -> (x: u16)
    requires
        pos + 2 <= input.len(),
    ensures
        x == u16_of_le(input@.skip(pos as int)),
{
    let b0: u16 = input[pos] as u16;
    let b1: u16 = input[pos + 1] as u16;
    proof {
        reveal(u16_of_le);
    }
    b0 + b1 * 0x100
}

/// The four-byte number at `pos`.
fn read_u32(input: &[u8], pos: usize) -> (x: u32)
    requires
        pos + 4 <= input.len(),
    ensures
        x == u32_of_le(input@.skip(pos as int)),
{
    let lo: u32 = read_u16(input, pos) as u32;
    let hi: u32 = read_u16(input, pos + 2) as u32;
    proof {
        reveal(u32_of_le);
        assert(input@.skip(pos as int).skip(2) =~= input@.skip(pos + 2));
    }
    lo + hi * 0x1_0000
}

/// Reads a 32-bit integer at `pos`. The result holds the number and the
/// position behind it, or nothing where fewer than four bytes are left.
pub fn take_u32(input: &[u8], pos: usize) -> (r: Option<(u32, usize)>)
    requires
        pos <= input.len(),
    ensures
        match r {
            Some((x, next)) => pos <= next <= input.len() && parse_u32(input@.skip(pos as int))
                == Some((x, input@.skip(next as int))),
            None => parse_u32(input@.skip(pos as int)) is None,
        },
{
    if input.len() - pos < 4 {
        return None;
    }
    let x = read_u32(input, pos);
    assert(input@.skip(pos as int).skip(4) =~= input@.skip(pos + 4));
    Some((x, pos + 4))
}

/// Reads a 64-bit integer at `pos`. The result holds the number and the
/// position behind it, or nothing where fewer than eight bytes are left.
pub fn take_u64(input: &[u8], pos: usize) -> (r: Option<(u64, usize)>)
    requires
        pos <= input.len(),
    ensures
        match r {
            Some((x, next)) => pos <= next <= input.len() && parse_u64(input@.skip(pos as int))
                == Some((x, input@.skip(next as int))),
            None => parse_u64(input@.skip(pos as int)) is None,
        },
{
    if input.len() - pos < 8 {
        return None;
    }
    let lo: u64 = read_u32(input, pos) as u64;
    let hi: u64 = read_u32(input, pos + 4) as u64;
    assert(input@.skip(pos as int).skip(4) =~= input@.skip(pos + 4));
    assert(input@.skip(pos as int).skip(8) =~= input@.skip(pos + 8));
    Some((lo + hi * 0x1_0000_0000, pos + 8))
}

/// `String::from_utf8` of the standard library: the bytes become a text
/// exactly when they are valid UTF-8, and the text is the one they encode.
#[verifier::external_body]
fn string_from_utf8(bytes: Vec<u8>) -> (r: Option<String>)
    ensures
        r is Some <==> valid_utf8(bytes@),
        r matches Some(s) ==> s@ == decode_utf8(bytes@),
{
    match String::from_utf8(bytes) {
        Ok(s) => Some(s),
        Err(_) => None,
    }
}

/// Reads a text at `pos`. The result holds the text and the position behind
/// it, or nothing where `parse_text` fails. No more is allocated than the
/// length prefix announces and the input holds.
pub fn take_text(input: &[u8], pos: usize) -> (r: Option<(String, usize)>)
    requires
        pos <= input.len(),
    ensures
        match r {
            Some((s, next)) => pos <= next <= input.len() && parse_text(input@.skip(pos as int))
                == Some((s@, input@.skip(next as int))),
            None => parse_text(input@.skip(pos as int)) is None,
        },
{
    let (n, start) = match take_u32(input, pos) {
        Some(p) => p,
        None => { return None; },
    };
    if input.len() - start < n as usize {
        return None;
    }
    let len: usize = n as usize;
    let body = copy_range(input, start, len);
    assert(input@.skip(start as int).take(n as int) =~= body@);
    assert(input@.skip(start as int).skip(n as int) =~= input@.skip(start + len));
    match string_from_utf8(body) {
        Some(s) => Some((s, start + len)),
        None => None,
    }
}

} // verus!
