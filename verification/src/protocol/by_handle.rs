//! Requests and replies that carry an opaque handle.

use vstd::prelude::*;
use vstd::string::StringSliceAdditionalSpecFns;

use super::file_attrs::{FileAttributes, FileAttributesView};
use super::shapes::{
    encode_id_bytes, encode_id_bytes_attrs, lemma_id_bytes, parse_id_bytes,
    parse_id_bytes_attrs, read_id_bytes, read_id_bytes_attrs, write_id_bytes,
    write_id_bytes_attrs,
};
use crate::buf::{Reader, TryBuf};
use crate::error::{is_bad_message, Error};
use crate::text::{lossy_text, string_from_utf8_lossy};
use crate::wire::{
    fits_u32, get_bytes_spec, get_u32_spec, get_u64_spec, lemma_get_put_bytes,
    lemma_get_put_u32, lemma_get_put_u64, put_bytes, put_bytes_spec, put_u32, put_u64, u32_be,
    u64_be,
};

verus! {

/// Implementation for `SSH_FXP_CLOSE`
#[derive(Debug, Clone)]
pub struct Close {
    pub id: u32,
    /// The handle, opaque bytes chosen by the server.
    pub handle: Vec<u8>,
}

impl View for Close {
    type V = (u32, Seq<u8>);

    open spec fn view(&self) -> (u32, Seq<u8>) {
        (self.id, self.handle@)
    }
}

impl Close {
    /// Decodes the packet body that follows the type byte.
    pub fn from_bytes(input: &mut Reader) -> (r: Result<Close, Error>)
        ensures
            match parse_id_bytes(old(input)@) {
                Some((v, rest)) => r matches Ok(p) && p@ == v && final(input)@ == rest,
                None => is_bad_message(r),
            },
    {
        let (id, handle) = read_id_bytes(input)?;
        Ok(Close { id, handle })
    }

    /// Appends the packet body; fails, writing nothing, when the handle is too
    /// long for the wire format.
    pub fn serialize_into(&self, out: &mut Vec<u8>) -> (r: Result<(), Error>)
        ensures
            r is Ok <==> fits_u32(self@.1),
            r is Ok ==> final(out)@ == old(out)@ + encode_id_bytes(self@),
            r is Err ==> final(out)@ == old(out)@ && is_bad_message(r),
    {
        write_id_bytes(out, self.id, self.handle.as_slice())
    }
}

/// Implementation for `SSH_FXP_FSTAT`
#[derive(Debug, Clone)]
pub struct Fstat {
    pub id: u32,
    /// The handle, opaque bytes chosen by the server.
    pub handle: Vec<u8>,
}

impl View for Fstat {
    type V = (u32, Seq<u8>);

    open spec fn view(&self) -> (u32, Seq<u8>) {
        (self.id, self.handle@)
    }
}

impl Fstat {
    /// A packet with the given id and handle.
    pub fn new(id: u32, handle: Vec<u8>) -> (p: Fstat)
        ensures
            p@ == (id, handle@),
    {
        Fstat { id, handle }
    }

    /// Decodes the packet body that follows the type byte.
    pub fn from_bytes(input: &mut Reader) -> (r: Result<Fstat, Error>)
        ensures
            match parse_id_bytes(old(input)@) {
                Some((v, rest)) => r matches Ok(p) && p@ == v && final(input)@ == rest,
                None => is_bad_message(r),
            },
    {
        let (id, handle) = read_id_bytes(input)?;
        Ok(Fstat { id, handle })
    }

    /// Appends the packet body; fails, writing nothing, when the handle is too
    /// long for the wire format.
    pub fn serialize_into(&self, out: &mut Vec<u8>) -> (r: Result<(), Error>)
        ensures
            r is Ok <==> fits_u32(self@.1),
            r is Ok ==> final(out)@ == old(out)@ + encode_id_bytes(self@),
            r is Err ==> final(out)@ == old(out)@ && is_bad_message(r),
    {
        write_id_bytes(out, self.id, self.handle.as_slice())
    }
}

/// Implementation for `SSH_FXP_HANDLE`
#[derive(Debug, Clone)]
pub struct Handle {
    pub id: u32,
    /// The handle, opaque bytes chosen by the server.
    pub handle: Vec<u8>,
}

impl View for Handle {
    type V = (u32, Seq<u8>);

    open spec fn view(&self) -> (u32, Seq<u8>) {
        (self.id, self.handle@)
    }
}

impl Handle {
    /// A packet with the given id and handle.
    pub fn new(id: u32, handle: Vec<u8>) -> (p: Handle)
        ensures
            p@ == (id, handle@),
    {
        Handle { id, handle }
    }

    /// Decodes the packet body that follows the type byte.
    pub fn from_bytes(input: &mut Reader) -> (r: Result<Handle, Error>)
        ensures
            match parse_id_bytes(old(input)@) {
                Some((v, rest)) => r matches Ok(p) && p@ == v && final(input)@ == rest,
                None => is_bad_message(r),
            },
    {
        let (id, handle) = read_id_bytes(input)?;
        Ok(Handle { id, handle })
    }

    /// Appends the packet body; fails, writing nothing, when the handle is too
    /// long for the wire format.
    pub fn serialize_into(&self, out: &mut Vec<u8>) -> (r: Result<(), Error>)
        ensures
            r is Ok <==> fits_u32(self@.1),
            r is Ok ==> final(out)@ == old(out)@ + encode_id_bytes(self@),
            r is Err ==> final(out)@ == old(out)@ && is_bad_message(r),
    {
        write_id_bytes(out, self.id, self.handle.as_slice())
    }
}

/// Implementation for `SSH_FXP_READDIR`
#[derive(Debug, Clone)]
pub struct ReadDir {
    pub id: u32,
    /// The handle, opaque bytes chosen by the server.
    pub handle: Vec<u8>,
}

impl View for ReadDir {
    type V = (u32, Seq<u8>);

    open spec fn view(&self) -> (u32, Seq<u8>) {
        (self.id, self.handle@)
    }
}

impl ReadDir {
    /// A packet with the given id and handle.
    pub fn new(id: u32, handle: Vec<u8>) -> (p: ReadDir)
        ensures
            p@ == (id, handle@),
    {
        ReadDir { id, handle }
    }

    /// Decodes the packet body that follows the type byte.
    pub fn from_bytes(input: &mut Reader) -> (r: Result<ReadDir, Error>)
        ensures
            match parse_id_bytes(old(input)@) {
                Some((v, rest)) => r matches Ok(p) && p@ == v && final(input)@ == rest,
                None => is_bad_message(r),
            },
    {
        let (id, handle) = read_id_bytes(input)?;
        Ok(ReadDir { id, handle })
    }

    /// Appends the packet body; fails, writing nothing, when the handle is too
    /// long for the wire format.
    pub fn serialize_into(&self, out: &mut Vec<u8>) -> (r: Result<(), Error>)
        ensures
            r is Ok <==> fits_u32(self@.1),
            r is Ok ==> final(out)@ == old(out)@ + encode_id_bytes(self@),
            r is Err ==> final(out)@ == old(out)@ && is_bad_message(r),
    {
        write_id_bytes(out, self.id, self.handle.as_slice())
    }

    /// A packet whose handle is the UTF-8 bytes of `handle`.
    pub fn from_string(id: u32, handle: String) -> (p: ReadDir)
        ensures
            p@ == (id, vstd::utf8::encode_utf8(handle@)),
    {
        let bytes = handle.as_str().as_bytes();
        ReadDir { id, handle: vstd::slice::slice_to_vec(bytes) }
    }

    /// The handle as text, invalid UTF-8 replaced (for display and logs).
    pub fn handle_str(&self) -> (s: String)
        ensures
            s@ == lossy_text(self.handle@),
    {
        string_from_utf8_lossy(self.handle.as_slice())
    }

    /// The handle as text, invalid UTF-8 replaced.
    pub fn handle_string(&self) -> (s: String)
        ensures
            s@ == lossy_text(self.handle@),
    {
        self.handle_str()
    }

    /// Consumes the packet and returns its handle as text, invalid UTF-8
    /// replaced.
    pub fn into_handle_string(self) -> (s: String)
        ensures
            s@ == lossy_text(self.handle@),
    {
        string_from_utf8_lossy(self.handle.as_slice())
    }
}

/// Implementation for `SSH_FXP_FSETSTAT`
#[derive(Debug, Clone)]
pub struct FSetStat {
    pub id: u32,
    /// File handle (opaque bytes).
    pub handle: Vec<u8>,
    pub attrs: FileAttributes,
}

impl View for FSetStat {
    type V = (u32, Seq<u8>, FileAttributesView);

    open spec fn view(&self) -> (u32, Seq<u8>, FileAttributesView) {
        (self.id, self.handle@, self.attrs@)
    }
}

impl FSetStat {
    /// A request to set `attrs` on the file behind `handle`.
    pub fn new(id: u32, handle: Vec<u8>, attrs: FileAttributes) -> (p: FSetStat)
        ensures
            p@ == (id, handle@, attrs@),
    {
        FSetStat { id, handle, attrs }
    }

    /// Decodes the packet body that follows the type byte.
    pub fn from_bytes(input: &mut Reader) -> (r: Result<FSetStat, Error>)
        ensures
            match parse_id_bytes_attrs(old(input)@) {
                Some((v, rest)) => r matches Ok(p) && p@ == v && final(input)@ == rest,
                None => is_bad_message(r),
            },
    {
        let (id, handle, attrs) = read_id_bytes_attrs(input)?;
        Ok(FSetStat { id, handle, attrs })
    }

    /// Appends the packet body; fails, writing nothing, when the handle is too
    /// long for the wire format.
    pub fn serialize_into(&self, out: &mut Vec<u8>) -> (r: Result<(), Error>)
        ensures
            r is Ok <==> fits_u32(self@.1),
            r is Ok ==> final(out)@ == old(out)@ + encode_id_bytes_attrs(self@),
            r is Err ==> final(out)@ == old(out)@ && is_bad_message(r),
    {
        write_id_bytes_attrs(out, self.id, self.handle.as_slice(), &self.attrs)
    }
}

/// Layout of `SSH_FXP_READ`: `uint32 id, string handle, uint64 offset, uint32 len`.
pub open spec fn parse_read(s: Seq<u8>) -> Option<((u32, Seq<u8>, u64, u32), Seq<u8>)> {
    match parse_id_bytes(s) {
        None => None,
        Some(((id, h), s2)) => match get_u64_spec(s2) {
            None => None,
            Some((offset, s3)) => match get_u32_spec(s3) {
                None => None,
                Some((len, s4)) => Some(((id, h, offset, len), s4)),
            },
        },
    }
}

pub open spec fn encode_read(v: (u32, Seq<u8>, u64, u32)) -> Seq<u8> {
    encode_id_bytes((v.0, v.1)) + (u64_be(v.2) + u32_be(v.3))
}

pub proof fn lemma_read(v: (u32, Seq<u8>, u64, u32), rest: Seq<u8>)
    requires
        fits_u32(v.1),
    ensures
        parse_read(encode_read(v) + rest) == Some((v, rest)),
{
    let s3 = u32_be(v.3) + rest;
    let s2 = u64_be(v.2) + s3;
    assert(encode_read(v) + rest =~= encode_id_bytes((v.0, v.1)) + s2);
    lemma_id_bytes((v.0, v.1), s2);
    lemma_get_put_u64(v.2, s3);
    lemma_get_put_u32(v.3, rest);
}

/// Implementation for `SSH_FXP_READ`
#[derive(Debug, Clone)]
pub struct Read {
    pub id: u32,
    /// File handle (opaque bytes).
    pub handle: Vec<u8>,
    pub offset: u64,
    pub len: u32,
}

impl View for Read {
    type V = (u32, Seq<u8>, u64, u32);

    open spec fn view(&self) -> (u32, Seq<u8>, u64, u32) {
        (self.id, self.handle@, self.offset, self.len)
    }
}

impl Read {
    /// A request for `len` bytes at `offset`.
    pub fn new(id: u32, handle: Vec<u8>, offset: u64, len: u32) -> (p: Read)
        ensures
            p@ == (id, handle@, offset, len),
    {
        Read { id, handle, offset, len }
    }

    /// Decodes the packet body that follows the type byte.
    pub fn from_bytes(input: &mut Reader) -> (r: Result<Read, Error>)
        ensures
            match parse_read(old(input)@) {
                Some((v, rest)) => r matches Ok(p) && p@ == v && final(input)@ == rest,
                None => is_bad_message(r),
            },
    {
        let (id, handle) = read_id_bytes(input)?;
        let offset = input.try_get_u64()?;
        let len = input.try_get_u32()?;
        Ok(Read { id, handle, offset, len })
    }

    /// Appends the packet body; fails, writing nothing, when the handle is too
    /// long for the wire format.
    pub fn serialize_into(&self, out: &mut Vec<u8>) -> (r: Result<(), Error>)
        ensures
            r is Ok <==> fits_u32(self@.1),
            r is Ok ==> final(out)@ == old(out)@ + encode_read(self@),
            r is Err ==> final(out)@ == old(out)@ && is_bad_message(r),
    {
        write_id_bytes(out, self.id, self.handle.as_slice())?;
        put_u64(out, self.offset);
        put_u32(out, self.len);
        assert(out@ =~= old(out)@ + encode_read(self@));
        Ok(())
    }
}

/// Layout of `SSH_FXP_WRITE`: `uint32 id, string handle, uint64 offset, string data`.
pub open spec fn parse_write(s: Seq<u8>) -> Option<((u32, Seq<u8>, u64, Seq<u8>), Seq<u8>)> {
    match parse_id_bytes(s) {
        None => None,
        Some(((id, h), s2)) => match get_u64_spec(s2) {
            None => None,
            Some((offset, s3)) => match get_bytes_spec(s3) {
                None => None,
                Some((data, s4)) => Some(((id, h, offset, data), s4)),
            },
        },
    }
}

pub open spec fn encode_write(v: (u32, Seq<u8>, u64, Seq<u8>)) -> Seq<u8> {
    encode_id_bytes((v.0, v.1)) + (u64_be(v.2) + put_bytes_spec(v.3))
}

pub proof fn lemma_write(v: (u32, Seq<u8>, u64, Seq<u8>), rest: Seq<u8>)
    requires
        fits_u32(v.1),
        fits_u32(v.3),
    ensures
        parse_write(encode_write(v) + rest) == Some((v, rest)),
{
    let s3 = put_bytes_spec(v.3) + rest;
    let s2 = u64_be(v.2) + s3;
    assert(encode_write(v) + rest =~= encode_id_bytes((v.0, v.1)) + s2);
    lemma_id_bytes((v.0, v.1), s2);
    lemma_get_put_u64(v.2, s3);
    lemma_get_put_bytes(v.3, rest);
}

/// Implementation for `SSH_FXP_WRITE`
#[derive(Debug, Clone)]
pub struct Write {
    pub id: u32,
    /// File handle (opaque bytes).
    pub handle: Vec<u8>,
    pub offset: u64,
    pub data: Vec<u8>,
}

impl View for Write {
    type V = (u32, Seq<u8>, u64, Seq<u8>);

    open spec fn view(&self) -> (u32, Seq<u8>, u64, Seq<u8>) {
        (self.id, self.handle@, self.offset, self.data@)
    }
}

impl Write {
    /// A request to write `data` at `offset`.
    pub fn new(id: u32, handle: Vec<u8>, offset: u64, data: Vec<u8>) -> (p: Write)
        ensures
            p@ == (id, handle@, offset, data@),
    {
        Write { id, handle, offset, data }
    }

    /// Decodes the packet body that follows the type byte.
    pub fn from_bytes(input: &mut Reader) -> (r: Result<Write, Error>)
        ensures
            match parse_write(old(input)@) {
                Some((v, rest)) => r matches Ok(p) && p@ == v && final(input)@ == rest,
                None => is_bad_message(r),
            },
    {
        let (id, handle) = read_id_bytes(input)?;
        let offset = input.try_get_u64()?;
        let data = input.try_get_bytes()?;
        Ok(Write { id, handle, offset, data })
    }

    /// Appends the packet body; fails, writing nothing, when the handle or
    /// the data is too long for the wire format.
    pub fn serialize_into(&self, out: &mut Vec<u8>) -> (r: Result<(), Error>)
        ensures
            r is Ok <==> fits_u32(self@.1) && fits_u32(self@.3),
            r is Ok ==> final(out)@ == old(out)@ + encode_write(self@),
            r is Err ==> final(out)@ == old(out)@ && is_bad_message(r),
    {
        if self.data.len() > u32::MAX as usize {
            return Err(Error::BadMessage("length exceeds u32::MAX".to_owned()));
        }
        write_id_bytes(out, self.id, self.handle.as_slice())?;
        put_u64(out, self.offset);
        let r = put_bytes(out, self.data.as_slice());
        assert(r is Ok);
        assert(out@ =~= old(out)@ + encode_write(self@));
        Ok(())
    }
}

} // verus!
