//! Requests that name files by path.

use vstd::prelude::*;

use super::file_attrs::{
    encode_attrs, lemma_attrs_roundtrip, parse_attrs, wire_normal, FileAttributes,
    FileAttributesView,
};
use super::shapes::{
    encode_id_text, encode_id_text_attrs, encode_id_text_text, parse_id_text,
    parse_id_text_attrs, parse_id_text_text, read_id_text, read_id_text_attrs,
    read_id_text_text, write_id_text, write_id_text_attrs, write_id_text_text, lemma_id_text,
};
use crate::buf::Reader;
use crate::error::{is_bad_message, Error};
use crate::wire::{get_u32_spec, lemma_get_put_u32, put_u32, text_fits, u32_be};

verus! {

/// Implementation for `SSH_FXP_OPENDIR`
#[derive(Debug, Clone)]
pub struct OpenDir {
    pub id: u32,
    pub path: String,
}

impl View for OpenDir {
    type V = (u32, Seq<char>);

    open spec fn view(&self) -> (u32, Seq<char>) {
        (self.id, self.path@)
    }
}

impl OpenDir {
    /// Decodes the packet body that follows the type byte.
    pub fn from_bytes(input: &mut Reader) -> (r: Result<OpenDir, Error>)
        ensures
            match parse_id_text(old(input)@) {
                Some((v, rest)) => r matches Ok(p) && p@ == v && final(input)@ == rest,
                None => is_bad_message(r),
            },
    {
        let (id, path) = read_id_text(input)?;
        Ok(OpenDir { id, path })
    }

    /// Appends the packet body; fails, writing nothing, when the text is too
    /// long for the wire format.
    pub fn serialize_into(&self, out: &mut Vec<u8>) -> (r: Result<(), Error>)
        ensures
            r is Ok <==> text_fits(self@.1),
            r is Ok ==> final(out)@ == old(out)@ + encode_id_text(self@),
            r is Err ==> final(out)@ == old(out)@ && is_bad_message(r),
    {
        write_id_text(out, self.id, self.path.as_str())
    }
}

/// Implementation for `SSH_FXP_REMOVE`
#[derive(Debug, Clone)]
pub struct Remove {
    pub id: u32,
    pub filename: String,
}

impl View for Remove {
    type V = (u32, Seq<char>);

    open spec fn view(&self) -> (u32, Seq<char>) {
        (self.id, self.filename@)
    }
}

impl Remove {
    /// Decodes the packet body that follows the type byte.
    pub fn from_bytes(input: &mut Reader) -> (r: Result<Remove, Error>)
        ensures
            match parse_id_text(old(input)@) {
                Some((v, rest)) => r matches Ok(p) && p@ == v && final(input)@ == rest,
                None => is_bad_message(r),
            },
    {
        let (id, filename) = read_id_text(input)?;
        Ok(Remove { id, filename })
    }

    /// Appends the packet body; fails, writing nothing, when the text is too
    /// long for the wire format.
    pub fn serialize_into(&self, out: &mut Vec<u8>) -> (r: Result<(), Error>)
        ensures
            r is Ok <==> text_fits(self@.1),
            r is Ok ==> final(out)@ == old(out)@ + encode_id_text(self@),
            r is Err ==> final(out)@ == old(out)@ && is_bad_message(r),
    {
        write_id_text(out, self.id, self.filename.as_str())
    }
}

/// Implementation for `SSH_FXP_RMDIR`
#[derive(Debug, Clone)]
pub struct RmDir {
    pub id: u32,
    pub path: String,
}

impl View for RmDir {
    type V = (u32, Seq<char>);

    open spec fn view(&self) -> (u32, Seq<char>) {
        (self.id, self.path@)
    }
}

impl RmDir {
    /// Decodes the packet body that follows the type byte.
    pub fn from_bytes(input: &mut Reader) -> (r: Result<RmDir, Error>)
        ensures
            match parse_id_text(old(input)@) {
                Some((v, rest)) => r matches Ok(p) && p@ == v && final(input)@ == rest,
                None => is_bad_message(r),
            },
    {
        let (id, path) = read_id_text(input)?;
        Ok(RmDir { id, path })
    }

    /// Appends the packet body; fails, writing nothing, when the text is too
    /// long for the wire format.
    pub fn serialize_into(&self, out: &mut Vec<u8>) -> (r: Result<(), Error>)
        ensures
            r is Ok <==> text_fits(self@.1),
            r is Ok ==> final(out)@ == old(out)@ + encode_id_text(self@),
            r is Err ==> final(out)@ == old(out)@ && is_bad_message(r),
    {
        write_id_text(out, self.id, self.path.as_str())
    }
}

/// Implementation for `SSH_FXP_REALPATH`
#[derive(Debug, Clone)]
pub struct RealPath {
    pub id: u32,
    pub path: String,
}

impl View for RealPath {
    type V = (u32, Seq<char>);

    open spec fn view(&self) -> (u32, Seq<char>) {
        (self.id, self.path@)
    }
}

impl RealPath {
    /// Decodes the packet body that follows the type byte.
    pub fn from_bytes(input: &mut Reader) -> (r: Result<RealPath, Error>)
        ensures
            match parse_id_text(old(input)@) {
                Some((v, rest)) => r matches Ok(p) && p@ == v && final(input)@ == rest,
                None => is_bad_message(r),
            },
    {
        let (id, path) = read_id_text(input)?;
        Ok(RealPath { id, path })
    }

    /// Appends the packet body; fails, writing nothing, when the text is too
    /// long for the wire format.
    pub fn serialize_into(&self, out: &mut Vec<u8>) -> (r: Result<(), Error>)
        ensures
            r is Ok <==> text_fits(self@.1),
            r is Ok ==> final(out)@ == old(out)@ + encode_id_text(self@),
            r is Err ==> final(out)@ == old(out)@ && is_bad_message(r),
    {
        write_id_text(out, self.id, self.path.as_str())
    }
}

/// Implementation for `SSH_FXP_STAT`
#[derive(Debug, Clone)]
pub struct Stat {
    pub id: u32,
    pub path: String,
}

impl View for Stat {
    type V = (u32, Seq<char>);

    open spec fn view(&self) -> (u32, Seq<char>) {
        (self.id, self.path@)
    }
}

impl Stat {
    /// Decodes the packet body that follows the type byte.
    pub fn from_bytes(input: &mut Reader) -> (r: Result<Stat, Error>)
        ensures
            match parse_id_text(old(input)@) {
                Some((v, rest)) => r matches Ok(p) && p@ == v && final(input)@ == rest,
                None => is_bad_message(r),
            },
    {
        let (id, path) = read_id_text(input)?;
        Ok(Stat { id, path })
    }

    /// Appends the packet body; fails, writing nothing, when the text is too
    /// long for the wire format.
    pub fn serialize_into(&self, out: &mut Vec<u8>) -> (r: Result<(), Error>)
        ensures
            r is Ok <==> text_fits(self@.1),
            r is Ok ==> final(out)@ == old(out)@ + encode_id_text(self@),
            r is Err ==> final(out)@ == old(out)@ && is_bad_message(r),
    {
        write_id_text(out, self.id, self.path.as_str())
    }
}

/// Implementation for `SSH_FXP_LSTAT`
#[derive(Debug, Clone)]
pub struct Lstat {
    pub id: u32,
    pub path: String,
}

impl View for Lstat {
    type V = (u32, Seq<char>);

    open spec fn view(&self) -> (u32, Seq<char>) {
        (self.id, self.path@)
    }
}

impl Lstat {
    /// Decodes the packet body that follows the type byte.
    pub fn from_bytes(input: &mut Reader) -> (r: Result<Lstat, Error>)
        ensures
            match parse_id_text(old(input)@) {
                Some((v, rest)) => r matches Ok(p) && p@ == v && final(input)@ == rest,
                None => is_bad_message(r),
            },
    {
        let (id, path) = read_id_text(input)?;
        Ok(Lstat { id, path })
    }

    /// Appends the packet body; fails, writing nothing, when the text is too
    /// long for the wire format.
    pub fn serialize_into(&self, out: &mut Vec<u8>) -> (r: Result<(), Error>)
        ensures
            r is Ok <==> text_fits(self@.1),
            r is Ok ==> final(out)@ == old(out)@ + encode_id_text(self@),
            r is Err ==> final(out)@ == old(out)@ && is_bad_message(r),
    {
        write_id_text(out, self.id, self.path.as_str())
    }
}

/// Implementation for `SSH_FXP_READLINK`
#[derive(Debug, Clone)]
pub struct ReadLink {
    pub id: u32,
    pub path: String,
}

impl View for ReadLink {
    type V = (u32, Seq<char>);

    open spec fn view(&self) -> (u32, Seq<char>) {
        (self.id, self.path@)
    }
}

impl ReadLink {
    /// Decodes the packet body that follows the type byte.
    pub fn from_bytes(input: &mut Reader) -> (r: Result<ReadLink, Error>)
        ensures
            match parse_id_text(old(input)@) {
                Some((v, rest)) => r matches Ok(p) && p@ == v && final(input)@ == rest,
                None => is_bad_message(r),
            },
    {
        let (id, path) = read_id_text(input)?;
        Ok(ReadLink { id, path })
    }

    /// Appends the packet body; fails, writing nothing, when the text is too
    /// long for the wire format.
    pub fn serialize_into(&self, out: &mut Vec<u8>) -> (r: Result<(), Error>)
        ensures
            r is Ok <==> text_fits(self@.1),
            r is Ok ==> final(out)@ == old(out)@ + encode_id_text(self@),
            r is Err ==> final(out)@ == old(out)@ && is_bad_message(r),
    {
        write_id_text(out, self.id, self.path.as_str())
    }
}

/// Implementation for `SSH_FXP_RENAME`
#[derive(Debug, Clone)]
pub struct Rename {
    pub id: u32,
    pub oldpath: String,
    pub newpath: String,
}

impl View for Rename {
    type V = (u32, Seq<char>, Seq<char>);

    open spec fn view(&self) -> (u32, Seq<char>, Seq<char>) {
        (self.id, self.oldpath@, self.newpath@)
    }
}

impl Rename {
    /// Decodes the packet body that follows the type byte.
    pub fn from_bytes(input: &mut Reader) -> (r: Result<Rename, Error>)
        ensures
            match parse_id_text_text(old(input)@) {
                Some((v, rest)) => r matches Ok(p) && p@ == v && final(input)@ == rest,
                None => is_bad_message(r),
            },
    {
        let (id, oldpath, newpath) = read_id_text_text(input)?;
        Ok(Rename { id, oldpath, newpath })
    }

    /// Appends the packet body; fails, writing nothing, when a path is too
    /// long for the wire format.
    pub fn serialize_into(&self, out: &mut Vec<u8>) -> (r: Result<(), Error>)
        ensures
            r is Ok <==> text_fits(self@.1) && text_fits(self@.2),
            r is Ok ==> final(out)@ == old(out)@ + encode_id_text_text(self@),
            r is Err ==> final(out)@ == old(out)@ && is_bad_message(r),
    {
        write_id_text_text(out, self.id, self.oldpath.as_str(), self.newpath.as_str())
    }
}

/// Implementation for `SSH_FXP_SYMLINK`
#[derive(Debug, Clone)]
pub struct Symlink {
    pub id: u32,
    pub linkpath: String,
    pub targetpath: String,
}

impl View for Symlink {
    type V = (u32, Seq<char>, Seq<char>);

    open spec fn view(&self) -> (u32, Seq<char>, Seq<char>) {
        (self.id, self.linkpath@, self.targetpath@)
    }
}

impl Symlink {
    /// Decodes the packet body that follows the type byte.
    pub fn from_bytes(input: &mut Reader) -> (r: Result<Symlink, Error>)
        ensures
            match parse_id_text_text(old(input)@) {
                Some((v, rest)) => r matches Ok(p) && p@ == v && final(input)@ == rest,
                None => is_bad_message(r),
            },
    {
        let (id, linkpath, targetpath) = read_id_text_text(input)?;
        Ok(Symlink { id, linkpath, targetpath })
    }

    /// Appends the packet body; fails, writing nothing, when a path is too
    /// long for the wire format.
    pub fn serialize_into(&self, out: &mut Vec<u8>) -> (r: Result<(), Error>)
        ensures
            r is Ok <==> text_fits(self@.1) && text_fits(self@.2),
            r is Ok ==> final(out)@ == old(out)@ + encode_id_text_text(self@),
            r is Err ==> final(out)@ == old(out)@ && is_bad_message(r),
    {
        write_id_text_text(out, self.id, self.linkpath.as_str(), self.targetpath.as_str())
    }
}

/// Implementation for `SSH_FXP_MKDIR`
#[derive(Debug, Clone)]
pub struct MkDir {
    pub id: u32,
    pub path: String,
    pub attrs: FileAttributes,
}

impl View for MkDir {
    type V = (u32, Seq<char>, FileAttributesView);

    open spec fn view(&self) -> (u32, Seq<char>, FileAttributesView) {
        (self.id, self.path@, self.attrs@)
    }
}

impl MkDir {
    /// Decodes the packet body that follows the type byte.
    pub fn from_bytes(input: &mut Reader) -> (r: Result<MkDir, Error>)
        ensures
            match parse_id_text_attrs(old(input)@) {
                Some((v, rest)) => r matches Ok(p) && p@ == v && final(input)@ == rest,
                None => is_bad_message(r),
            },
    {
        let (id, path, attrs) = read_id_text_attrs(input)?;
        Ok(MkDir { id, path, attrs })
    }

    /// Appends the packet body; fails, writing nothing, when the path is too
    /// long for the wire format.
    pub fn serialize_into(&self, out: &mut Vec<u8>) -> (r: Result<(), Error>)
        ensures
            r is Ok <==> text_fits(self@.1),
            r is Ok ==> final(out)@ == old(out)@ + encode_id_text_attrs(self@),
            r is Err ==> final(out)@ == old(out)@ && is_bad_message(r),
    {
        write_id_text_attrs(out, self.id, self.path.as_str(), &self.attrs)
    }
}

/// Implementation for `SSH_FXP_SETSTAT`
#[derive(Debug, Clone)]
pub struct SetStat {
    pub id: u32,
    pub path: String,
    pub attrs: FileAttributes,
}

impl View for SetStat {
    type V = (u32, Seq<char>, FileAttributesView);

    open spec fn view(&self) -> (u32, Seq<char>, FileAttributesView) {
        (self.id, self.path@, self.attrs@)
    }
}

impl SetStat {
    /// Decodes the packet body that follows the type byte.
    pub fn from_bytes(input: &mut Reader) -> (r: Result<SetStat, Error>)
        ensures
            match parse_id_text_attrs(old(input)@) {
                Some((v, rest)) => r matches Ok(p) && p@ == v && final(input)@ == rest,
                None => is_bad_message(r),
            },
    {
        let (id, path, attrs) = read_id_text_attrs(input)?;
        Ok(SetStat { id, path, attrs })
    }

    /// Appends the packet body; fails, writing nothing, when the path is too
    /// long for the wire format.
    pub fn serialize_into(&self, out: &mut Vec<u8>) -> (r: Result<(), Error>)
        ensures
            r is Ok <==> text_fits(self@.1),
            r is Ok ==> final(out)@ == old(out)@ + encode_id_text_attrs(self@),
            r is Err ==> final(out)@ == old(out)@ && is_bad_message(r),
    {
        write_id_text_attrs(out, self.id, self.path.as_str(), &self.attrs)
    }
}

/// The `pflags` word of an open request: which access modes are asked for.
#[derive(Debug, Clone, Copy, PartialEq, Eq, Structural)]
pub struct OpenFlags {
    bits: u32,
}

impl OpenFlags {
    /// Bit: open for reading.
    pub const READ: u32 = 0x1;

    /// Bit: open for writing.
    pub const WRITE: u32 = 0x2;

    /// Bit: writes go to the end of the file.
    pub const APPEND: u32 = 0x4;

    /// Bit: create the file when it does not exist.
    pub const CREATE: u32 = 0x8;

    /// Bit: truncate an existing file to zero length.
    pub const TRUNCATE: u32 = 0x10;

    /// Bit: fail when the file exists already (with `CREATE`).
    pub const EXCLUDE: u32 = 0x20;

    pub closed spec fn spec_bits(self) -> u32 {
        self.bits
    }

    /// The flags with exactly these bits.
    pub fn from_bits(bits: u32) -> (f: OpenFlags)
        ensures
            f.spec_bits() == bits,
    {
        OpenFlags { bits }
    }

    /// The bits of the flags.
    pub fn bits(&self) -> (b: u32)
        ensures
            b == self.spec_bits(),
    {
        self.bits
    }

    /// Are all the given bits set here?
    pub fn contains(&self, bits: u32) -> (b: bool)
        ensures
            b == (self.spec_bits() & bits == bits),
    {
        self.bits & bits == bits
    }

    /// The bits of both.
    pub fn union(self, other: OpenFlags) -> (f: OpenFlags)
        ensures
            f.spec_bits() == self.spec_bits() | other.spec_bits(),
    {
        OpenFlags { bits: self.bits | other.bits }
    }
}

/// Layout of `SSH_FXP_OPEN`: `uint32 id, string filename, uint32 pflags, ATTRS attrs`.
pub open spec fn parse_open(s: Seq<u8>) -> Option<((u32, Seq<char>, u32, FileAttributesView), Seq<u8>)> {
    match parse_id_text(s) {
        None => None,
        Some(((id, name), s2)) => match get_u32_spec(s2) {
            None => None,
            Some((flags, s3)) => match parse_attrs(s3) {
                None => None,
                Some((a, s4)) => Some(((id, name, flags, a), s4)),
            },
        },
    }
}

pub open spec fn encode_open(v: (u32, Seq<char>, u32, FileAttributesView)) -> Seq<u8> {
    encode_id_text((v.0, v.1)) + (u32_be(v.2) + encode_attrs(v.3))
}

pub proof fn lemma_open(v: (u32, Seq<char>, u32, FileAttributesView), rest: Seq<u8>)
    requires
        text_fits(v.1),
    ensures
        parse_open(encode_open(v) + rest) == Some(((v.0, v.1, v.2, wire_normal(v.3)), rest)),
{
    let s3 = encode_attrs(v.3) + rest;
    let s2 = u32_be(v.2) + s3;
    assert(encode_open(v) + rest =~= encode_id_text((v.0, v.1)) + s2);
    lemma_id_text((v.0, v.1), s2);
    lemma_get_put_u32(v.2, s3);
    lemma_attrs_roundtrip(v.3, rest);
}

/// Implementation for `SSH_FXP_OPEN`
#[derive(Debug, Clone)]
pub struct Open {
    pub id: u32,
    pub filename: String,
    pub pflags: OpenFlags,
    pub attrs: FileAttributes,
}

impl View for Open {
    type V = (u32, Seq<char>, u32, FileAttributesView);

    open spec fn view(&self) -> (u32, Seq<char>, u32, FileAttributesView) {
        (self.id, self.filename@, self.pflags.spec_bits(), self.attrs@)
    }
}

impl Open {
    /// Decodes the packet body that follows the type byte.
    pub fn from_bytes(input: &mut Reader) -> (r: Result<Open, Error>)
        ensures
            match parse_open(old(input)@) {
                Some((v, rest)) => r matches Ok(p) && p@ == v && final(input)@ == rest,
                None => is_bad_message(r),
            },
    {
        let (id, filename) = read_id_text(input)?;
        let bits = input.try_get_u32()?;
        let attrs = FileAttributes::from_bytes(input)?;
        Ok(Open { id, filename, pflags: OpenFlags { bits }, attrs })
    }

    /// Appends the packet body; fails, writing nothing, when the file name is
    /// too long for the wire format.
    pub fn serialize_into(&self, out: &mut Vec<u8>) -> (r: Result<(), Error>)
        ensures
            r is Ok <==> text_fits(self@.1),
            r is Ok ==> final(out)@ == old(out)@ + encode_open(self@),
            r is Err ==> final(out)@ == old(out)@ && is_bad_message(r),
    {
        write_id_text(out, self.id, self.filename.as_str())?;
        let ghost a1 = out@;
        put_u32(out, self.pflags.bits);
        let ghost a2 = out@;
        self.attrs.serialize_into(out);
        assert(out@ =~= old(out)@ + encode_open(self@));
        Ok(())
    }
}

} // verus!
