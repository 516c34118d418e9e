//! The primitive encodings of the SFTP wire format: big-endian integers and
//! byte strings prefixed by their length as a `uint32`.

use vstd::prelude::*;
use vstd::string::StringSliceAdditionalSpecFns;
use vstd::utf8::*;

use crate::error::Error;
use crate::text::lossy_text;

verus! {

broadcast use vstd::utf8::group_utf8_lib;

/// Big-endian bytes of a `uint32`.
pub open spec fn u32_be(v: u32) -> Seq<u8> {
    seq![(v >> 24u32) as u8, (v >> 16u32) as u8, (v >> 8u32) as u8, v as u8]
}

/// The `uint32` whose big-endian bytes are `b0 b1 b2 b3`.
pub open spec fn u32_from_be(b0: u8, b1: u8, b2: u8, b3: u8) -> u32 {
    ((b0 as u32) << 24u32) | ((b1 as u32) << 16u32) | ((b2 as u32) << 8u32) | (b3 as u32)
}

/// Big-endian bytes of a `uint64`.
pub open spec fn u64_be(v: u64) -> Seq<u8> {
    seq![
        (v >> 56u64) as u8,
        (v >> 48u64) as u8,
        (v >> 40u64) as u8,
        (v >> 32u64) as u8,
        (v >> 24u64) as u8,
        (v >> 16u64) as u8,
        (v >> 8u64) as u8,
        v as u8,
    ]
}

/// The `uint64` whose big-endian bytes are the first eight of `s`.
pub open spec fn u64_from_be(s: Seq<u8>) -> u64 {
    ((s[0] as u64) << 56u64) | ((s[1] as u64) << 48u64) | ((s[2] as u64) << 40u64) | ((
    s[3] as u64) << 32u64) | ((s[4] as u64) << 24u64) | ((s[5] as u64) << 16u64) | ((
    s[6] as u64) << 8u64) | (s[7] as u64)
}

/// A byte string on the wire: its length as a `uint32`, then its bytes.
pub open spec fn put_bytes_spec(b: Seq<u8>) -> Seq<u8> {
    u32_be(b.len() as u32) + b
}

/// A text string on the wire: its UTF-8 bytes as a byte string.
pub open spec fn put_string_spec(c: Seq<char>) -> Seq<u8> {
    put_bytes_spec(encode_utf8(c))
}

/// A byte string fits the wire format when its length fits a `uint32`.
pub open spec fn fits_u32(b: Seq<u8>) -> bool {
    b.len() <= u32::MAX
}

/// A text string fits the wire format when its UTF-8 length fits a `uint32`.
pub open spec fn text_fits(c: Seq<char>) -> bool {
    fits_u32(encode_utf8(c))
}

/// Reads one byte.
pub open spec fn get_u8_spec(s: Seq<u8>) -> Option<(u8, Seq<u8>)> {
    if s.len() >= 1 {
        Some((s[0], s.skip(1)))
    } else {
        None
    }
}

/// Reads a big-endian `uint32`.
pub open spec fn get_u32_spec(s: Seq<u8>) -> Option<(u32, Seq<u8>)> {
    if s.len() >= 4 {
        Some((u32_from_be(s[0], s[1], s[2], s[3]), s.skip(4)))
    } else {
        None
    }
}

/// Reads a big-endian `uint64`.
pub open spec fn get_u64_spec(s: Seq<u8>) -> Option<(u64, Seq<u8>)> {
    if s.len() >= 8 {
        Some((u64_from_be(s), s.skip(8)))
    } else {
        None
    }
}

/// Reads a length-prefixed byte string.
pub open spec fn get_bytes_spec(s: Seq<u8>) -> Option<(Seq<u8>, Seq<u8>)> {
    match get_u32_spec(s) {
        Some((n, r)) => if r.len() >= n {
            Some((r.take(n as int), r.skip(n as int)))
        } else {
            None
        },
        None => None,
    }
}

/// Reads a length-prefixed text string, decoding it lossily.
pub open spec fn get_string_spec(s: Seq<u8>) -> Option<(Seq<char>, Seq<u8>)> {
    match get_bytes_spec(s) {
        Some((b, r)) => Some((lossy_text(b), r)),
        None => None,
    }
}

pub proof fn lemma_u32_roundtrip(v: u32)
    ensures
        u32_from_be(u32_be(v)[0], u32_be(v)[1], u32_be(v)[2], u32_be(v)[3]) == v,
{
    let b0 = (v >> 24u32) as u8;
    let b1 = (v >> 16u32) as u8;
    let b2 = (v >> 8u32) as u8;
    let b3 = v as u8;
    assert(((b0 as u32) << 24u32) | ((b1 as u32) << 16u32) | ((b2 as u32) << 8u32) | (b3 as u32)
        == v) by (bit_vector)
        requires
            b0 == (v >> 24u32) as u8,
            b1 == (v >> 16u32) as u8,
            b2 == (v >> 8u32) as u8,
            b3 == v as u8,
    ;
}

pub proof fn lemma_u64_roundtrip(v: u64)
    ensures
        u64_from_be(u64_be(v)) == v,
{
    let s = u64_be(v);
    let b0 = (v >> 56u64) as u8;
    let b1 = (v >> 48u64) as u8;
    let b2 = (v >> 40u64) as u8;
    let b3 = (v >> 32u64) as u8;
    let b4 = (v >> 24u64) as u8;
    let b5 = (v >> 16u64) as u8;
    let b6 = (v >> 8u64) as u8;
    let b7 = v as u8;
    assert(s[0] == b0 && s[1] == b1 && s[2] == b2 && s[3] == b3 && s[4] == b4 && s[5] == b5
        && s[6] == b6 && s[7] == b7);
    assert(((b0 as u64) << 56u64) | ((b1 as u64) << 48u64) | ((b2 as u64) << 40u64) | ((
    b3 as u64) << 32u64) | ((b4 as u64) << 24u64) | ((b5 as u64) << 16u64) | ((b6 as u64)
        << 8u64) | (b7 as u64) == v) by (bit_vector)
        requires
            b0 == (v >> 56u64) as u8,
            b1 == (v >> 48u64) as u8,
            b2 == (v >> 40u64) as u8,
            b3 == (v >> 32u64) as u8,
            b4 == (v >> 24u64) as u8,
            b5 == (v >> 16u64) as u8,
            b6 == (v >> 8u64) as u8,
            b7 == v as u8,
    ;
}

/// Reading a `uint32` gives back what was written, and the rest is untouched.
pub proof fn lemma_get_put_u32(v: u32, rest: Seq<u8>)
    ensures
        get_u32_spec(u32_be(v) + rest) == Some((v, rest)),
{
    let s = u32_be(v) + rest;
    lemma_u32_roundtrip(v);
    assert(s.skip(4) =~= rest);
}

pub proof fn lemma_get_put_u64(v: u64, rest: Seq<u8>)
    ensures
        get_u64_spec(u64_be(v) + rest) == Some((v, rest)),
{
    let s = u64_be(v) + rest;
    lemma_u64_roundtrip(v);
    assert(s.skip(8) =~= rest);
    assert(u64_from_be(s) == u64_from_be(u64_be(v)));
}

pub proof fn lemma_get_put_u8(v: u8, rest: Seq<u8>)
    ensures
        get_u8_spec(seq![v] + rest) == Some((v, rest)),
{
    assert((seq![v] + rest).skip(1) =~= rest);
}

/// Reading a byte string gives back what was written, and the rest is untouched.
pub proof fn lemma_get_put_bytes(b: Seq<u8>, rest: Seq<u8>)
    requires
        fits_u32(b),
    ensures
        get_bytes_spec(put_bytes_spec(b) + rest) == Some((b, rest)),
{
    let s = put_bytes_spec(b) + rest;
    assert(s =~= u32_be(b.len() as u32) + (b + rest));
    lemma_get_put_u32(b.len() as u32, b + rest);
    assert((b + rest).take(b.len() as int) =~= b);
    assert((b + rest).skip(b.len() as int) =~= rest);
}

/// Reading a text string gives back what was written, and the rest is untouched.
pub proof fn lemma_get_put_string(c: Seq<char>, rest: Seq<u8>)
    requires
        text_fits(c),
    ensures
        get_string_spec(put_string_spec(c) + rest) == Some((c, rest)),
{
    lemma_get_put_bytes(encode_utf8(c), rest);
}

/// Checks that a length fits the `uint32` length prefix of the wire format.
pub fn checked_u32_len(len: usize) -> (r: Result<u32, Error>)
    ensures
        len <= u32::MAX ==> r == Ok::<u32, Error>(len as u32),
        len > u32::MAX ==> crate::error::is_bad_message_text(r, "length exceeds u32::MAX"@),
{
    if len <= u32::MAX as usize {
        Ok(len as u32)
    } else {
        Err(Error::BadMessage("length exceeds u32::MAX".to_owned()))
    }
}

/// Appends one byte.
pub fn put_u8(out: &mut Vec<u8>, v: u8)
    ensures
        final(out)@ == old(out)@ + seq![v],
{
    out.push(v);
    assert(out@ =~= old(out)@ + seq![v]);
}

/// Appends a big-endian `uint32`.
pub fn put_u32(out: &mut Vec<u8>, v: u32)
    ensures
        final(out)@ == old(out)@ + u32_be(v),
{
    out.push((v >> 24u32) as u8);
    out.push((v >> 16u32) as u8);
    out.push((v >> 8u32) as u8);
    out.push(v as u8);
    assert(out@ =~= old(out)@ + u32_be(v));
}

/// Appends a big-endian `uint64`.
pub fn put_u64(out: &mut Vec<u8>, v: u64)
    ensures
        final(out)@ == old(out)@ + u64_be(v),
{
    out.push((v >> 56u64) as u8);
    out.push((v >> 48u64) as u8);
    out.push((v >> 40u64) as u8);
    out.push((v >> 32u64) as u8);
    out.push((v >> 24u64) as u8);
    out.push((v >> 16u64) as u8);
    out.push((v >> 8u64) as u8);
    out.push(v as u8);
    assert(out@ =~= old(out)@ + u64_be(v));
}

/// Appends raw bytes.
pub fn put_slice(out: &mut Vec<u8>, b: &[u8])
    ensures
        final(out)@ == old(out)@ + b@,
{
    let mut i: usize = 0;
    while i < b.len()
        invariant
            i <= b@.len(),
            out@ == old(out)@ + b@.take(i as int),
        decreases b@.len() - i,
    {
        out.push(b[i]);
        i = i + 1;
        assert(b@.take(i as int) =~= b@.take((i - 1) as int).push(b@[i - 1]));
    }
    assert(b@.take(i as int) =~= b@);
}

/// Appends a length-prefixed byte string; fails, writing nothing, when its
/// length does not fit a `uint32`.
pub fn put_bytes(out: &mut Vec<u8>, b: &[u8]) -> (r: Result<(), Error>)
    ensures
        r is Ok <==> fits_u32(b@),
        r is Ok ==> final(out)@ == old(out)@ + put_bytes_spec(b@),
        r is Err ==> final(out)@ == old(out)@ && crate::error::is_bad_message(r),
{
    let n = checked_u32_len(b.len())?;
    put_u32(out, n);
    put_slice(out, b);
    assert(out@ =~= old(out)@ + put_bytes_spec(b@));
    Ok(())
}

/// Appends a length-prefixed text string (its UTF-8 bytes).
pub fn put_string(out: &mut Vec<u8>, s: &str) -> (r: Result<(), Error>)
    ensures
        r is Ok <==> text_fits(s@),
        r is Ok ==> final(out)@ == old(out)@ + put_string_spec(s@),
        r is Err ==> final(out)@ == old(out)@ && crate::error::is_bad_message(r),
{
    put_bytes(out, s.as_bytes())
}

} // verus!
