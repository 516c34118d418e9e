//! File attributes (`ATTRS`) and directory entries as the wire format
//! carries them.

use vstd::prelude::*;

use crate::buf::{Reader, TryBuf};
use crate::error::{is_bad_message, Error};
use crate::wire::{
    get_string_spec, get_u32_spec, get_u64_spec, lemma_get_put_string, lemma_get_put_u32,
    lemma_get_put_u64, put_string, put_string_spec, put_u32, put_u64, text_fits, u32_be, u64_be,
};

verus! {

/// Flag bit: the size is present.
pub const ATTR_SIZE: u32 = 0x1;

/// Flag bit: the owner and group ids are present.
pub const ATTR_UIDGID: u32 = 0x2;

/// Flag bit: the permissions are present.
pub const ATTR_PERMISSIONS: u32 = 0x4;

/// Flag bit: the access and modification times are present.
pub const ATTR_ACMODTIME: u32 = 0x8;

/// Attributes of a file, each of them optional.
#[derive(Debug, Clone)]
pub struct FileAttributes {
    pub size: Option<u64>,
    pub uid: Option<u32>,
    pub user: Option<String>,
    pub gid: Option<u32>,
    pub group: Option<String>,
    pub permissions: Option<u32>,
    pub atime: Option<u32>,
    pub mtime: Option<u32>,
}

/// The mathematical value of [`FileAttributes`].
pub struct FileAttributesView {
    pub size: Option<u64>,
    pub uid: Option<u32>,
    pub user: Option<Seq<char>>,
    pub gid: Option<u32>,
    pub group: Option<Seq<char>>,
    pub permissions: Option<u32>,
    pub atime: Option<u32>,
    pub mtime: Option<u32>,
}

pub open spec fn opt_text_view(s: Option<String>) -> Option<Seq<char>> {
    match s {
        Some(t) => Some(t@),
        None => None,
    }
}

impl View for FileAttributes {
    type V = FileAttributesView;

    open spec fn view(&self) -> FileAttributesView {
        FileAttributesView {
            size: self.size,
            uid: self.uid,
            user: opt_text_view(self.user),
            gid: self.gid,
            group: opt_text_view(self.group),
            permissions: self.permissions,
            atime: self.atime,
            mtime: self.mtime,
        }
    }
}

/// The flag word that announces which attributes follow.
pub open spec fn attrs_flags(a: FileAttributesView) -> u32 {
    (if a.size is Some { ATTR_SIZE } else { 0u32 }) | (if a.uid is Some || a.gid is Some {
        ATTR_UIDGID
    } else {
        0u32
    }) | (if a.permissions is Some { ATTR_PERMISSIONS } else { 0u32 }) | (if a.atime is Some
        || a.mtime is Some {
        ATTR_ACMODTIME
    } else {
        0u32
    })
}

pub open spec fn unwrap_or_zero(v: Option<u32>) -> u32 {
    match v {
        Some(x) => x,
        None => 0,
    }
}

pub open spec fn enc_opt_u64(v: Option<u64>) -> Seq<u8> {
    match v {
        Some(x) => u64_be(x),
        None => Seq::empty(),
    }
}

pub open spec fn enc_opt_u32(v: Option<u32>) -> Seq<u8> {
    match v {
        Some(x) => u32_be(x),
        None => Seq::empty(),
    }
}

/// The two words of a pair (owner and group, or the two times), present
/// when either member is, an absent member written as zero.
pub open spec fn enc_pair(x: Option<u32>, y: Option<u32>) -> Seq<u8> {
    if x is Some || y is Some {
        u32_be(unwrap_or_zero(x)) + u32_be(unwrap_or_zero(y))
    } else {
        Seq::empty()
    }
}

/// Attributes on the wire: the flag word, then the size, the owner and group
/// ids, the permissions and the two times, each only when flagged.  User and
/// group names are not part of the encoding.
pub open spec fn encode_attrs(a: FileAttributesView) -> Seq<u8> {
    u32_be(attrs_flags(a)) + (enc_opt_u64(a.size) + (enc_pair(a.uid, a.gid) + (enc_opt_u32(
        a.permissions,
    ) + enc_pair(a.atime, a.mtime))))
}

/// What decoding the encoding of `a` gives back: the names are dropped, and
/// an id or time whose partner is present but itself absent reads as zero.
pub open spec fn wire_normal(a: FileAttributesView) -> FileAttributesView {
    FileAttributesView {
        size: a.size,
        uid: if a.uid is Some || a.gid is Some { Some(unwrap_or_zero(a.uid)) } else { None },
        user: None,
        gid: if a.uid is Some || a.gid is Some { Some(unwrap_or_zero(a.gid)) } else { None },
        group: None,
        permissions: a.permissions,
        atime: if a.atime is Some || a.mtime is Some { Some(unwrap_or_zero(a.atime)) } else { None },
        mtime: if a.atime is Some || a.mtime is Some { Some(unwrap_or_zero(a.mtime)) } else { None },
    }
}

/// Attributes that survive an encode and decode unchanged.
pub open spec fn attrs_canonical(a: FileAttributesView) -> bool {
    wire_normal(a) == a
}

/// Reads a `uint64` when `present`.
pub open spec fn opt_u64_spec(present: bool, s: Seq<u8>) -> Option<(Option<u64>, Seq<u8>)> {
    if present {
        match get_u64_spec(s) {
            Some((v, r)) => Some((Some(v), r)),
            None => None,
        }
    } else {
        Some((None, s))
    }
}

/// Reads a `uint32` when `present`.
pub open spec fn opt_u32_spec(present: bool, s: Seq<u8>) -> Option<(Option<u32>, Seq<u8>)> {
    if present {
        match get_u32_spec(s) {
            Some((v, r)) => Some((Some(v), r)),
            None => None,
        }
    } else {
        Some((None, s))
    }
}

/// Decodes attributes.
pub open spec fn parse_attrs(s: Seq<u8>) -> Option<(FileAttributesView, Seq<u8>)> {
    match get_u32_spec(s) {
        None => None,
        Some((f, s1)) => match opt_u64_spec(f & ATTR_SIZE != 0, s1) {
            None => None,
            Some((size, s2)) => match opt_u32_spec(f & ATTR_UIDGID != 0, s2) {
                None => None,
                Some((uid, s3)) => match opt_u32_spec(f & ATTR_UIDGID != 0, s3) {
                    None => None,
                    Some((gid, s4)) => match opt_u32_spec(f & ATTR_PERMISSIONS != 0, s4) {
                        None => None,
                        Some((permissions, s5)) => match opt_u32_spec(
                            f & ATTR_ACMODTIME != 0,
                            s5,
                        ) {
                            None => None,
                            Some((atime, s6)) => match opt_u32_spec(
                                f & ATTR_ACMODTIME != 0,
                                s6,
                            ) {
                                None => None,
                                Some((mtime, s7)) => Some(
                                    (
                                        FileAttributesView {
                                            size,
                                            uid,
                                            user: None,
                                            gid,
                                            group: None,
                                            permissions,
                                            atime,
                                            mtime,
                                        },
                                        s7,
                                    ),
                                ),
                            },
                        },
                    },
                },
            },
        },
    }
}

/// The id or time of a pair as the wire carries it: an absent one is zero.
pub open spec fn word_or_zero(v: Option<u32>) -> Seq<u8> {
    u32_be(
        match v {
            Some(x) => x,
            None => 0u32,
        },
    )
}

/// Attributes on the wire, as SFTP v3 lays them out: the flag word (1 for
/// the size, 2 for owner and group, 4 for the permissions, 8 for the times),
/// then the size as a `uint64`, the owner id then the group id, the
/// permissions, and the access time then the modification time, each only
/// when flagged.
pub proof fn lemma_attrs_wire_layout(a: FileAttributesView)
    ensures
        encode_attrs(a) == u32_be(
            ((if a.size is Some { 1u32 } else { 0u32 }) + (if a.uid is Some || a.gid is Some {
                2u32
            } else {
                0u32
            }) + (if a.permissions is Some { 4u32 } else { 0u32 }) + (if a.atime is Some
                || a.mtime is Some {
                8u32
            } else {
                0u32
            })) as u32,
        ) + (match a.size {
            Some(n) => u64_be(n),
            None => Seq::<u8>::empty(),
        }) + (if a.uid is Some || a.gid is Some {
            word_or_zero(a.uid) + word_or_zero(a.gid)
        } else {
            Seq::<u8>::empty()
        }) + (match a.permissions {
            Some(m) => u32_be(m),
            None => Seq::<u8>::empty(),
        }) + (if a.atime is Some || a.mtime is Some {
            word_or_zero(a.atime) + word_or_zero(a.mtime)
        } else {
            Seq::<u8>::empty()
        }),
{
    let s = if a.size is Some { 1u32 } else { 0u32 };
    let u = if a.uid is Some || a.gid is Some { 2u32 } else { 0u32 };
    let p = if a.permissions is Some { 4u32 } else { 0u32 };
    let t = if a.atime is Some || a.mtime is Some { 8u32 } else { 0u32 };
    assert(attrs_flags(a) == s | u | p | t);
    assert((s | u | p | t) == ((s + u + p + t) as u32)) by (bit_vector)
        requires
            s == 0u32 || s == 1u32,
            u == 0u32 || u == 2u32,
            p == 0u32 || p == 4u32,
            t == 0u32 || t == 8u32,
    ;
    assert(encode_attrs(a) =~= u32_be(((s + u + p + t) as u32)) + enc_opt_u64(a.size) + enc_pair(
        a.uid,
        a.gid,
    ) + enc_opt_u32(a.permissions) + enc_pair(a.atime, a.mtime));
}

proof fn lemma_flags_bits(a: FileAttributesView)
    ensures
        (attrs_flags(a) & ATTR_SIZE != 0) == (a.size is Some),
        (attrs_flags(a) & ATTR_UIDGID != 0) == (a.uid is Some || a.gid is Some),
        (attrs_flags(a) & ATTR_PERMISSIONS != 0) == (a.permissions is Some),
        (attrs_flags(a) & ATTR_ACMODTIME != 0) == (a.atime is Some || a.mtime is Some),
{
    let s = if a.size is Some { 1u32 } else { 0u32 };
    let u = if a.uid is Some || a.gid is Some { 2u32 } else { 0u32 };
    let p = if a.permissions is Some { 4u32 } else { 0u32 };
    let t = if a.atime is Some || a.mtime is Some { 8u32 } else { 0u32 };
    assert(attrs_flags(a) == s | u | p | t);
    assert({
        &&& ((s | u | p | t) & 1u32 != 0) == (s == 1u32)
        &&& ((s | u | p | t) & 2u32 != 0) == (u == 2u32)
        &&& ((s | u | p | t) & 4u32 != 0) == (p == 4u32)
        &&& ((s | u | p | t) & 8u32 != 0) == (t == 8u32)
    }) by (bit_vector)
        requires
            s == 0u32 || s == 1u32,
            u == 0u32 || u == 2u32,
            p == 0u32 || p == 4u32,
            t == 0u32 || t == 8u32,
    ;
}

proof fn lemma_opt_u64(v: Option<u64>, rest: Seq<u8>)
    ensures
        opt_u64_spec(v is Some, enc_opt_u64(v) + rest) == Some((v, rest)),
{
    match v {
        Some(x) => lemma_get_put_u64(x, rest),
        None => assert(enc_opt_u64(v) + rest =~= rest),
    }
}

proof fn lemma_opt_u32(v: Option<u32>, rest: Seq<u8>)
    ensures
        opt_u32_spec(v is Some, enc_opt_u32(v) + rest) == Some((v, rest)),
{
    match v {
        Some(x) => lemma_get_put_u32(x, rest),
        None => assert(enc_opt_u32(v) + rest =~= rest),
    }
}

/// The pair encoding reads back as two optional words, both present exactly
/// when either was.
proof fn lemma_pair(x: Option<u32>, y: Option<u32>, rest: Seq<u8>)
    ensures
        ({
            let present = x is Some || y is Some;
            let nx = if present { Some(unwrap_or_zero(x)) } else { None::<u32> };
            let ny = if present { Some(unwrap_or_zero(y)) } else { None::<u32> };
            &&& opt_u32_spec(present, enc_pair(x, y) + rest) == Some((nx, enc_opt_u32(ny) + rest))
            &&& opt_u32_spec(present, enc_opt_u32(ny) + rest) == Some((ny, rest))
        }),
{
    let present = x is Some || y is Some;
    if present {
        let wy = u32_be(unwrap_or_zero(y)) + rest;
        assert(enc_pair(x, y) + rest =~= u32_be(unwrap_or_zero(x)) + wy);
        lemma_get_put_u32(unwrap_or_zero(x), wy);
        lemma_get_put_u32(unwrap_or_zero(y), rest);
    } else {
        assert(enc_pair(x, y) + rest =~= rest);
        assert(enc_opt_u32(None::<u32>) + rest =~= rest);
    }
}

/// Decoding encoded attributes gives their wire-normal form back, and the
/// bytes after them are untouched.
pub proof fn lemma_attrs_roundtrip(a: FileAttributesView, rest: Seq<u8>)
    ensures
        parse_attrs(encode_attrs(a) + rest) == Some((wire_normal(a), rest)),
{
    lemma_flags_bits(a);
    let n = wire_normal(a);
    let f = attrs_flags(a);
    let s6 = enc_opt_u32(n.mtime) + rest;
    let s5 = enc_pair(a.atime, a.mtime) + rest;
    let s4 = enc_opt_u32(a.permissions) + s5;
    let s3 = enc_opt_u32(n.gid) + s4;
    let s2 = enc_pair(a.uid, a.gid) + s4;
    let s1 = enc_opt_u64(a.size) + s2;
    assert(encode_attrs(a) + rest =~= u32_be(f) + s1);
    lemma_get_put_u32(f, s1);
    lemma_opt_u64(a.size, s2);
    lemma_pair(a.uid, a.gid, s4);
    lemma_opt_u32(a.permissions, s5);
    lemma_pair(a.atime, a.mtime, rest);
}

fn read_opt_u64(input: &mut Reader, present: bool) -> (r: Result<Option<u64>, Error>)
    ensures
        match opt_u64_spec(present, old(input)@) {
            Some((v, rest)) => r == Ok::<Option<u64>, Error>(v) && final(input)@ == rest,
            None => is_bad_message(r),
        },
{
    if present {
        Ok(Some(input.try_get_u64()?))
    } else {
        Ok(None)
    }
}

fn read_opt_u32(input: &mut Reader, present: bool) -> (r: Result<Option<u32>, Error>)
    ensures
        match opt_u32_spec(present, old(input)@) {
            Some((v, rest)) => r == Ok::<Option<u32>, Error>(v) && final(input)@ == rest,
            None => is_bad_message(r),
        },
{
    if present {
        Ok(Some(input.try_get_u32()?))
    } else {
        Ok(None)
    }
}

impl FileAttributes {
    /// Attributes with nothing set.
    pub fn empty() -> (a: FileAttributes)
        ensures
            a@ == (FileAttributesView {
                size: None,
                uid: None,
                user: None,
                gid: None,
                group: None,
                permissions: None,
                atime: None,
                mtime: None,
            }),
    {
        FileAttributes {
            size: None,
            uid: None,
            user: None,
            gid: None,
            group: None,
            permissions: None,
            atime: None,
            mtime: None,
        }
    }

    /// Decodes attributes.
    pub fn from_bytes(input: &mut Reader) -> (r: Result<FileAttributes, Error>)
        ensures
            match parse_attrs(old(input)@) {
                Some((a, rest)) => r matches Ok(v) && v@ == a && final(input)@ == rest,
                None => is_bad_message(r),
            },
    {
        let flags = input.try_get_u32()?;
        let size = read_opt_u64(input, flags & ATTR_SIZE != 0)?;
        let uid = read_opt_u32(input, flags & ATTR_UIDGID != 0)?;
        let gid = read_opt_u32(input, flags & ATTR_UIDGID != 0)?;
        let permissions = read_opt_u32(input, flags & ATTR_PERMISSIONS != 0)?;
        let atime = read_opt_u32(input, flags & ATTR_ACMODTIME != 0)?;
        let mtime = read_opt_u32(input, flags & ATTR_ACMODTIME != 0)?;
        Ok(FileAttributes { size, uid, user: None, gid, group: None, permissions, atime, mtime })
    }

    /// The flag word announcing which attributes are present.
    pub fn flags(&self) -> (f: u32)
        ensures
            f == attrs_flags(self@),
    {
        (if self.size.is_some() {
            ATTR_SIZE
        } else {
            0u32
        }) | (if self.uid.is_some() || self.gid.is_some() {
            ATTR_UIDGID
        } else {
            0u32
        }) | (if self.permissions.is_some() {
            ATTR_PERMISSIONS
        } else {
            0u32
        }) | (if self.atime.is_some() || self.mtime.is_some() {
            ATTR_ACMODTIME
        } else {
            0u32
        })
    }

    /// Appends the encoding of the attributes.
    pub fn serialize_into(&self, out: &mut Vec<u8>)
        ensures
            final(out)@ == old(out)@ + encode_attrs(self@),
    {
        let ghost start = out@;
        put_u32(out, self.flags());
        let ghost a1 = out@;
        put_opt_u64(out, self.size);
        let ghost a2 = out@;
        put_pair(out, self.uid, self.gid);
        let ghost a3 = out@;
        put_opt_u32(out, self.permissions);
        let ghost a4 = out@;
        put_pair(out, self.atime, self.mtime);
        assert(out@ =~= start + encode_attrs(self@));
    }
}

fn put_opt_u64(out: &mut Vec<u8>, v: Option<u64>)
    ensures
        final(out)@ == old(out)@ + enc_opt_u64(v),
{
    match v {
        Some(x) => put_u64(out, x),
        None => {
            assert(out@ =~= old(out)@ + enc_opt_u64(v));
        },
    }
}

fn put_opt_u32(out: &mut Vec<u8>, v: Option<u32>)
    ensures
        final(out)@ == old(out)@ + enc_opt_u32(v),
{
    match v {
        Some(x) => put_u32(out, x),
        None => {
            assert(out@ =~= old(out)@ + enc_opt_u32(v));
        },
    }
}

fn put_pair(out: &mut Vec<u8>, x: Option<u32>, y: Option<u32>)
    ensures
        final(out)@ == old(out)@ + enc_pair(x, y),
{
    if x.is_some() || y.is_some() {
        put_u32(out, unwrap_u32(x));
        put_u32(out, unwrap_u32(y));
        assert(out@ =~= old(out)@ + enc_pair(x, y));
    } else {
        assert(out@ =~= old(out)@ + enc_pair(x, y));
    }
}

fn unwrap_u32(v: Option<u32>) -> (r: u32)
    ensures
        r == unwrap_or_zero(v),
{
    match v {
        Some(x) => x,
        None => 0,
    }
}

/// A directory entry as `SSH_FXP_NAME` lists it.
#[derive(Debug, Clone)]
pub struct File {
    pub filename: String,
    pub longname: String,
    pub attrs: FileAttributes,
}

impl View for File {
    type V = (Seq<char>, Seq<char>, FileAttributesView);

    open spec fn view(&self) -> (Seq<char>, Seq<char>, FileAttributesView) {
        (self.filename@, self.longname@, self.attrs@)
    }
}

/// A directory entry on the wire: file name, long name, attributes.
#[verifier::opaque]
pub open spec fn encode_file(f: (Seq<char>, Seq<char>, FileAttributesView)) -> Seq<u8> {
    put_string_spec(f.0) + (put_string_spec(f.1) + encode_attrs(f.2))
}

#[verifier::opaque]
pub open spec fn file_fits(f: (Seq<char>, Seq<char>, FileAttributesView)) -> bool {
    text_fits(f.0) && text_fits(f.1)
}

#[verifier::opaque]
pub open spec fn file_canonical(f: (Seq<char>, Seq<char>, FileAttributesView)) -> bool {
    attrs_canonical(f.2)
}

/// Decodes a directory entry.
#[verifier::opaque]
pub open spec fn parse_file(s: Seq<u8>) -> Option<((Seq<char>, Seq<char>, FileAttributesView), Seq<u8>)> {
    match get_string_spec(s) {
        None => None,
        Some((name, s1)) => match get_string_spec(s1) {
            None => None,
            Some((long, s2)) => match parse_attrs(s2) {
                None => None,
                Some((a, s3)) => Some(((name, long, a), s3)),
            },
        },
    }
}

pub proof fn lemma_file_roundtrip(f: (Seq<char>, Seq<char>, FileAttributesView), rest: Seq<u8>)
    requires
        file_fits(f),
    ensures
        parse_file(encode_file(f) + rest) == Some(((f.0, f.1, wire_normal(f.2)), rest)),
{
    reveal(parse_file);
    reveal(encode_file);
    reveal(file_fits);
    let s2 = encode_attrs(f.2) + rest;
    let s1 = put_string_spec(f.1) + s2;
    assert(encode_file(f) + rest =~= put_string_spec(f.0) + s1);
    assert(put_string_spec(f.1) + encode_attrs(f.2) + rest =~= s1);
    lemma_get_put_string(f.0, s1);
    lemma_get_put_string(f.1, s2);
    lemma_attrs_roundtrip(f.2, rest);
}

/// Every encoded directory entry takes at least twelve bytes.
pub proof fn lemma_file_min_len(f: (Seq<char>, Seq<char>, FileAttributesView))
    ensures
        encode_file(f).len() >= 12,
{
    reveal(encode_file);
}

impl File {
    /// Decodes a directory entry.
    pub fn from_bytes(input: &mut Reader) -> (r: Result<File, Error>)
        ensures
            match parse_file(old(input)@) {
                Some((f, rest)) => r matches Ok(v) && v@ == f && final(input)@ == rest,
                None => is_bad_message(r),
            },
    {
        reveal(parse_file);
        let filename = input.try_get_string()?;
        let longname = input.try_get_string()?;
        let attrs = FileAttributes::from_bytes(input)?;
        Ok(File { filename, longname, attrs })
    }

    /// Appends the encoding of the entry; fails, writing nothing, when a name
    /// is too long for the wire format.
    pub fn serialize_into(&self, out: &mut Vec<u8>) -> (r: Result<(), Error>)
        ensures
            r is Ok <==> file_fits(self@),
            r is Ok ==> final(out)@ == old(out)@ + encode_file(self@),
            r is Err ==> final(out)@ == old(out)@ && is_bad_message(r),
    {
        reveal(encode_file);
        reveal(file_fits);
        let ghost start = out@;
        if self.filename.as_str().as_bytes().len() > u32::MAX as usize
            || self.longname.as_str().as_bytes().len() > u32::MAX as usize {
            return Err(Error::BadMessage("length exceeds u32::MAX".to_owned()));
        }
        let r1 = put_string(out, self.filename.as_str());
        assert(r1 is Ok);
        let ghost a1 = out@;
        let r2 = put_string(out, self.longname.as_str());
        assert(r2 is Ok);
        let ghost a2 = out@;
        self.attrs.serialize_into(out);
        assert(a1 == start + put_string_spec(self.filename@));
        assert(a2 == a1 + put_string_spec(self.longname@));
        assert(out@ =~= start + encode_file(self@));
        Ok(())
    }
}

} // verus!
