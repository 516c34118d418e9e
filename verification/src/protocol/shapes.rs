//! Field layouts that several packets share: a request id followed by
//! paths, handles and attributes.

use vstd::prelude::*;

use super::file_attrs::{
    encode_attrs, lemma_attrs_roundtrip, parse_attrs, wire_normal, FileAttributes,
    FileAttributesView,
};
use crate::buf::{Reader, TryBuf};
use crate::error::{is_bad_message, Error};
use crate::wire::{
    fits_u32, get_bytes_spec, get_string_spec, get_u32_spec, lemma_get_put_bytes,
    lemma_get_put_string, lemma_get_put_u32, put_bytes, put_bytes_spec, put_string,
    put_string_spec, put_u32, text_fits, u32_be,
};

verus! {

/// Layout `uint32 id, string text`.
pub open spec fn parse_id_text(s: Seq<u8>) -> Option<((u32, Seq<char>), Seq<u8>)> {
    match get_u32_spec(s) {
        None => None,
        Some((id, s1)) => match get_string_spec(s1) {
            None => None,
            Some((t, s2)) => Some(((id, t), s2)),
        },
    }
}

pub open spec fn encode_id_text(v: (u32, Seq<char>)) -> Seq<u8> {
    u32_be(v.0) + put_string_spec(v.1)
}

pub proof fn lemma_id_text(v: (u32, Seq<char>), rest: Seq<u8>)
    requires
        text_fits(v.1),
    ensures
        parse_id_text(encode_id_text(v) + rest) == Some((v, rest)),
{
    let s1 = put_string_spec(v.1) + rest;
    assert(encode_id_text(v) + rest =~= u32_be(v.0) + s1);
    lemma_get_put_u32(v.0, s1);
    lemma_get_put_string(v.1, rest);
}

pub fn read_id_text(input: &mut Reader) -> (r: Result<(u32, String), Error>)
    ensures
        match parse_id_text(old(input)@) {
            Some((v, rest)) => r matches Ok(x) && x.0 == v.0 && x.1@ == v.1 && final(input)@
                == rest,
            None => is_bad_message(r),
        },
{
    let id = input.try_get_u32()?;
    let t = input.try_get_string()?;
    Ok((id, t))
}

pub fn write_id_text(out: &mut Vec<u8>, id: u32, t: &str) -> (r: Result<(), Error>)
    ensures
        r is Ok <==> text_fits(t@),
        r is Ok ==> final(out)@ == old(out)@ + encode_id_text((id, t@)),
        r is Err ==> final(out)@ == old(out)@ && is_bad_message(r),
{
    if t.as_bytes().len() > u32::MAX as usize {
        return Err(Error::BadMessage("length exceeds u32::MAX".to_owned()));
    }
    put_u32(out, id);
    let ghost mid = out@;
    let r = put_string(out, t);
    assert(r is Ok);
    assert(out@ =~= old(out)@ + encode_id_text((id, t@)));
    Ok(())
}

/// Layout `uint32 id, string first, string second`.
pub open spec fn parse_id_text_text(s: Seq<u8>) -> Option<((u32, Seq<char>, Seq<char>), Seq<u8>)> {
    match parse_id_text(s) {
        None => None,
        Some(((id, a), s2)) => match get_string_spec(s2) {
            None => None,
            Some((b, s3)) => Some(((id, a, b), s3)),
        },
    }
}

pub open spec fn encode_id_text_text(v: (u32, Seq<char>, Seq<char>)) -> Seq<u8> {
    encode_id_text((v.0, v.1)) + put_string_spec(v.2)
}

pub proof fn lemma_id_text_text(v: (u32, Seq<char>, Seq<char>), rest: Seq<u8>)
    requires
        text_fits(v.1),
        text_fits(v.2),
    ensures
        parse_id_text_text(encode_id_text_text(v) + rest) == Some((v, rest)),
{
    let s2 = put_string_spec(v.2) + rest;
    assert(encode_id_text_text(v) + rest =~= encode_id_text((v.0, v.1)) + s2);
    lemma_id_text((v.0, v.1), s2);
    lemma_get_put_string(v.2, rest);
}

pub fn read_id_text_text(input: &mut Reader) -> (r: Result<(u32, String, String), Error>)
    ensures
        match parse_id_text_text(old(input)@) {
            Some((v, rest)) => r matches Ok(x) && x.0 == v.0 && x.1@ == v.1 && x.2@ == v.2
                && final(input)@ == rest,
            None => is_bad_message(r),
        },
{
    let (id, a) = read_id_text(input)?;
    let b = input.try_get_string()?;
    Ok((id, a, b))
}

pub fn write_id_text_text(out: &mut Vec<u8>, id: u32, a: &str, b: &str) -> (r: Result<(), Error>)
    ensures
        r is Ok <==> text_fits(a@) && text_fits(b@),
        r is Ok ==> final(out)@ == old(out)@ + encode_id_text_text((id, a@, b@)),
        r is Err ==> final(out)@ == old(out)@ && is_bad_message(r),
{
    if b.as_bytes().len() > u32::MAX as usize {
        return Err(Error::BadMessage("length exceeds u32::MAX".to_owned()));
    }
    write_id_text(out, id, a)?;
    let r = put_string(out, b);
    assert(r is Ok);
    assert(out@ =~= old(out)@ + encode_id_text_text((id, a@, b@)));
    Ok(())
}

/// Layout `uint32 id, string handle` (an opaque byte string).
pub open spec fn parse_id_bytes(s: Seq<u8>) -> Option<((u32, Seq<u8>), Seq<u8>)> {
    match get_u32_spec(s) {
        None => None,
        Some((id, s1)) => match get_bytes_spec(s1) {
            None => None,
            Some((b, s2)) => Some(((id, b), s2)),
        },
    }
}

pub open spec fn encode_id_bytes(v: (u32, Seq<u8>)) -> Seq<u8> {
    u32_be(v.0) + put_bytes_spec(v.1)
}

pub proof fn lemma_id_bytes(v: (u32, Seq<u8>), rest: Seq<u8>)
    requires
        fits_u32(v.1),
    ensures
        parse_id_bytes(encode_id_bytes(v) + rest) == Some((v, rest)),
{
    let s1 = put_bytes_spec(v.1) + rest;
    assert(encode_id_bytes(v) + rest =~= u32_be(v.0) + s1);
    lemma_get_put_u32(v.0, s1);
    lemma_get_put_bytes(v.1, rest);
}

pub fn read_id_bytes(input: &mut Reader) -> (r: Result<(u32, Vec<u8>), Error>)
    ensures
        match parse_id_bytes(old(input)@) {
            Some((v, rest)) => r matches Ok(x) && x.0 == v.0 && x.1@ == v.1 && final(input)@
                == rest,
            None => is_bad_message(r),
        },
{
    let id = input.try_get_u32()?;
    let b = input.try_get_bytes()?;
    Ok((id, b))
}

pub fn write_id_bytes(out: &mut Vec<u8>, id: u32, b: &[u8]) -> (r: Result<(), Error>)
    ensures
        r is Ok <==> fits_u32(b@),
        r is Ok ==> final(out)@ == old(out)@ + encode_id_bytes((id, b@)),
        r is Err ==> final(out)@ == old(out)@ && is_bad_message(r),
{
    if b.len() > u32::MAX as usize {
        return Err(Error::BadMessage("length exceeds u32::MAX".to_owned()));
    }
    put_u32(out, id);
    let r = put_bytes(out, b);
    assert(r is Ok);
    assert(out@ =~= old(out)@ + encode_id_bytes((id, b@)));
    Ok(())
}

/// Layout `uint32 id, string handle, ATTRS attrs`.
pub open spec fn parse_id_bytes_attrs(s: Seq<u8>) -> Option<((u32, Seq<u8>, FileAttributesView), Seq<u8>)> {
    match parse_id_bytes(s) {
        None => None,
        Some(((id, h), s2)) => match parse_attrs(s2) {
            None => None,
            Some((a, s3)) => Some(((id, h, a), s3)),
        },
    }
}

pub open spec fn encode_id_bytes_attrs(v: (u32, Seq<u8>, FileAttributesView)) -> Seq<u8> {
    encode_id_bytes((v.0, v.1)) + encode_attrs(v.2)
}

pub proof fn lemma_id_bytes_attrs(v: (u32, Seq<u8>, FileAttributesView), rest: Seq<u8>)
    requires
        fits_u32(v.1),
    ensures
        parse_id_bytes_attrs(encode_id_bytes_attrs(v) + rest) == Some(
            ((v.0, v.1, wire_normal(v.2)), rest),
        ),
{
    let s2 = encode_attrs(v.2) + rest;
    assert(encode_id_bytes_attrs(v) + rest =~= encode_id_bytes((v.0, v.1)) + s2);
    lemma_id_bytes((v.0, v.1), s2);
    lemma_attrs_roundtrip(v.2, rest);
}

pub fn read_id_bytes_attrs(input: &mut Reader) -> (r: Result<(u32, Vec<u8>, FileAttributes), Error>)
    ensures
        match parse_id_bytes_attrs(old(input)@) {
            Some((v, rest)) => r matches Ok(x) && x.0 == v.0 && x.1@ == v.1 && x.2@ == v.2
                && final(input)@ == rest,
            None => is_bad_message(r),
        },
{
    let (id, h) = read_id_bytes(input)?;
    let a = FileAttributes::from_bytes(input)?;
    Ok((id, h, a))
}

pub fn write_id_bytes_attrs(out: &mut Vec<u8>, id: u32, h: &[u8], a: &FileAttributes) -> (r: Result<(), Error>)
    ensures
        r is Ok <==> fits_u32(h@),
        r is Ok ==> final(out)@ == old(out)@ + encode_id_bytes_attrs((id, h@, a@)),
        r is Err ==> final(out)@ == old(out)@ && is_bad_message(r),
{
    write_id_bytes(out, id, h)?;
    a.serialize_into(out);
    assert(out@ =~= old(out)@ + encode_id_bytes_attrs((id, h@, a@)));
    Ok(())
}

/// Layout `uint32 id, string path, ATTRS attrs`.
pub open spec fn parse_id_text_attrs(s: Seq<u8>) -> Option<((u32, Seq<char>, FileAttributesView), Seq<u8>)> {
    match parse_id_text(s) {
        None => None,
        Some(((id, t), s2)) => match parse_attrs(s2) {
            None => None,
            Some((a, s3)) => Some(((id, t, a), s3)),
        },
    }
}

pub open spec fn encode_id_text_attrs(v: (u32, Seq<char>, FileAttributesView)) -> Seq<u8> {
    encode_id_text((v.0, v.1)) + encode_attrs(v.2)
}

pub proof fn lemma_id_text_attrs(v: (u32, Seq<char>, FileAttributesView), rest: Seq<u8>)
    requires
        text_fits(v.1),
    ensures
        parse_id_text_attrs(encode_id_text_attrs(v) + rest) == Some(
            ((v.0, v.1, wire_normal(v.2)), rest),
        ),
{
    let s2 = encode_attrs(v.2) + rest;
    assert(encode_id_text_attrs(v) + rest =~= encode_id_text((v.0, v.1)) + s2);
    lemma_id_text((v.0, v.1), s2);
    lemma_attrs_roundtrip(v.2, rest);
}

pub fn read_id_text_attrs(input: &mut Reader) -> (r: Result<(u32, String, FileAttributes), Error>)
    ensures
        match parse_id_text_attrs(old(input)@) {
            Some((v, rest)) => r matches Ok(x) && x.0 == v.0 && x.1@ == v.1 && x.2@ == v.2
                && final(input)@ == rest,
            None => is_bad_message(r),
        },
{
    let (id, t) = read_id_text(input)?;
    let a = FileAttributes::from_bytes(input)?;
    Ok((id, t, a))
}

pub fn write_id_text_attrs(out: &mut Vec<u8>, id: u32, t: &str, a: &FileAttributes) -> (r: Result<(), Error>)
    ensures
        r is Ok <==> text_fits(t@),
        r is Ok ==> final(out)@ == old(out)@ + encode_id_text_attrs((id, t@, a@)),
        r is Err ==> final(out)@ == old(out)@ && is_bad_message(r),
{
    write_id_text(out, id, t)?;
    a.serialize_into(out);
    assert(out@ =~= old(out)@ + encode_id_text_attrs((id, t@, a@)));
    Ok(())
}

} // verus!
