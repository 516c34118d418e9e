//! The packet type that carries every request and reply, and its decoding
//! and encoding as a whole.

use vstd::prelude::*;

use super::by_handle::{
    encode_read, encode_write, lemma_read, lemma_write, parse_read, parse_write, Close,
    FSetStat, Fstat, Handle, Read, ReadDir, Write,
};
use super::data::Data;
use super::extended::{
    encode_extended, encode_extended_reply, lemma_extended, lemma_extended_reply,
    parse_extended, parse_extended_reply, Extended, ExtendedReply,
};
use super::file_attrs::{attrs_canonical, FileAttributesView};
use super::name::{
    encode_attrs_reply, encode_name, lemma_attrs_reply, lemma_name, name_canonical, name_fits,
    parse_attrs_reply, parse_name, Attrs, FileView, Name, MAX_NAME_ENTRIES,
};
use super::paths::{
    encode_open, lemma_open, parse_open, Lstat, MkDir, Open, OpenDir, ReadLink, RealPath,
    Remove, Rename, RmDir, SetStat, Stat, Symlink,
};
use super::shapes::{
    encode_id_bytes, encode_id_bytes_attrs, encode_id_text, encode_id_text_attrs,
    encode_id_text_text, lemma_id_bytes, lemma_id_bytes_attrs, lemma_id_text,
    lemma_id_text_attrs, lemma_id_text_text, parse_id_bytes, parse_id_bytes_attrs,
    parse_id_text, parse_id_text_attrs, parse_id_text_text,
};
use super::status::{
    encode_status, lemma_status, parse_status, status_code_text, status_fits, Status,
    StatusCode,
};
use super::version::{
    encode_version, extensions_fit, lemma_version, names_distinct, parse_version, Extensions,
    Init, Version,
};
use crate::buf::Reader;
use crate::error::{is_bad_message, Error};
use crate::wire::{fits_u32, get_u8_spec, lemma_get_put_u8, text_fits};

verus! {

/// Packet type byte of `SSH_FXP_INIT`.
pub const SSH_FXP_INIT: u8 = 1;

/// Packet type byte of `SSH_FXP_VERSION`.
pub const SSH_FXP_VERSION: u8 = 2;

/// Packet type byte of `SSH_FXP_OPEN`.
pub const SSH_FXP_OPEN: u8 = 3;

/// Packet type byte of `SSH_FXP_CLOSE`.
pub const SSH_FXP_CLOSE: u8 = 4;

/// Packet type byte of `SSH_FXP_READ`.
pub const SSH_FXP_READ: u8 = 5;

/// Packet type byte of `SSH_FXP_WRITE`.
pub const SSH_FXP_WRITE: u8 = 6;

/// Packet type byte of `SSH_FXP_LSTAT`.
pub const SSH_FXP_LSTAT: u8 = 7;

/// Packet type byte of `SSH_FXP_FSTAT`.
pub const SSH_FXP_FSTAT: u8 = 8;

/// Packet type byte of `SSH_FXP_SETSTAT`.
pub const SSH_FXP_SETSTAT: u8 = 9;

/// Packet type byte of `SSH_FXP_FSETSTAT`.
pub const SSH_FXP_FSETSTAT: u8 = 10;

/// Packet type byte of `SSH_FXP_OPENDIR`.
pub const SSH_FXP_OPENDIR: u8 = 11;

/// Packet type byte of `SSH_FXP_READDIR`.
pub const SSH_FXP_READDIR: u8 = 12;

/// Packet type byte of `SSH_FXP_REMOVE`.
pub const SSH_FXP_REMOVE: u8 = 13;

/// Packet type byte of `SSH_FXP_MKDIR`.
pub const SSH_FXP_MKDIR: u8 = 14;

/// Packet type byte of `SSH_FXP_RMDIR`.
pub const SSH_FXP_RMDIR: u8 = 15;

/// Packet type byte of `SSH_FXP_REALPATH`.
pub const SSH_FXP_REALPATH: u8 = 16;

/// Packet type byte of `SSH_FXP_STAT`.
pub const SSH_FXP_STAT: u8 = 17;

/// Packet type byte of `SSH_FXP_RENAME`.
pub const SSH_FXP_RENAME: u8 = 18;

/// Packet type byte of `SSH_FXP_READLINK`.
pub const SSH_FXP_READLINK: u8 = 19;

/// Packet type byte of `SSH_FXP_SYMLINK`.
pub const SSH_FXP_SYMLINK: u8 = 20;

/// Packet type byte of `SSH_FXP_STATUS`.
pub const SSH_FXP_STATUS: u8 = 101;

/// Packet type byte of `SSH_FXP_HANDLE`.
pub const SSH_FXP_HANDLE: u8 = 102;

/// Packet type byte of `SSH_FXP_DATA`.
pub const SSH_FXP_DATA: u8 = 103;

/// Packet type byte of `SSH_FXP_NAME`.
pub const SSH_FXP_NAME: u8 = 104;

/// Packet type byte of `SSH_FXP_ATTRS`.
pub const SSH_FXP_ATTRS: u8 = 105;

/// Packet type byte of `SSH_FXP_EXTENDED`.
pub const SSH_FXP_EXTENDED: u8 = 200;

/// Packet type byte of `SSH_FXP_EXTENDED_REPLY`.
pub const SSH_FXP_EXTENDED_REPLY: u8 = 201;

/// Every request and reply of the protocol.
#[derive(Debug)]
pub enum Packet {
    Init(Init),
    Version(Version),
    Open(Open),
    Close(Close),
    Read(Read),
    Write(Write),
    Lstat(Lstat),
    Fstat(Fstat),
    SetStat(SetStat),
    FSetStat(FSetStat),
    OpenDir(OpenDir),
    ReadDir(ReadDir),
    Remove(Remove),
    MkDir(MkDir),
    RmDir(RmDir),
    RealPath(RealPath),
    Stat(Stat),
    Rename(Rename),
    ReadLink(ReadLink),
    Symlink(Symlink),
    Status(Status),
    Handle(Handle),
    Data(Data),
    Name(Name),
    Attrs(Attrs),
    Extended(Extended),
    ExtendedReply(ExtendedReply),
}

/// The mathematical value of a [`Packet`].
pub enum PacketView {
    Init((u32, Extensions)),
    Version((u32, Extensions)),
    Open((u32, Seq<char>, u32, FileAttributesView)),
    Close((u32, Seq<u8>)),
    Read((u32, Seq<u8>, u64, u32)),
    Write((u32, Seq<u8>, u64, Seq<u8>)),
    Lstat((u32, Seq<char>)),
    Fstat((u32, Seq<u8>)),
    SetStat((u32, Seq<char>, FileAttributesView)),
    FSetStat((u32, Seq<u8>, FileAttributesView)),
    OpenDir((u32, Seq<char>)),
    ReadDir((u32, Seq<u8>)),
    Remove((u32, Seq<char>)),
    MkDir((u32, Seq<char>, FileAttributesView)),
    RmDir((u32, Seq<char>)),
    RealPath((u32, Seq<char>)),
    Stat((u32, Seq<char>)),
    Rename((u32, Seq<char>, Seq<char>)),
    ReadLink((u32, Seq<char>)),
    Symlink((u32, Seq<char>, Seq<char>)),
    Status((u32, StatusCode, Seq<char>, Seq<char>)),
    Handle((u32, Seq<u8>)),
    Data((u32, Seq<u8>)),
    Name((u32, Seq<FileView>)),
    Attrs((u32, FileAttributesView)),
    Extended((u32, Seq<char>, Seq<u8>)),
    ExtendedReply((u32, Seq<u8>)),
}

impl View for Packet {
    type V = PacketView;

    open spec fn view(&self) -> PacketView {
        match self {
            Packet::Init(p) => PacketView::Init(p@),
            Packet::Version(p) => PacketView::Version(p@),
            Packet::Open(p) => PacketView::Open(p@),
            Packet::Close(p) => PacketView::Close(p@),
            Packet::Read(p) => PacketView::Read(p@),
            Packet::Write(p) => PacketView::Write(p@),
            Packet::Lstat(p) => PacketView::Lstat(p@),
            Packet::Fstat(p) => PacketView::Fstat(p@),
            Packet::SetStat(p) => PacketView::SetStat(p@),
            Packet::FSetStat(p) => PacketView::FSetStat(p@),
            Packet::OpenDir(p) => PacketView::OpenDir(p@),
            Packet::ReadDir(p) => PacketView::ReadDir(p@),
            Packet::Remove(p) => PacketView::Remove(p@),
            Packet::MkDir(p) => PacketView::MkDir(p@),
            Packet::RmDir(p) => PacketView::RmDir(p@),
            Packet::RealPath(p) => PacketView::RealPath(p@),
            Packet::Stat(p) => PacketView::Stat(p@),
            Packet::Rename(p) => PacketView::Rename(p@),
            Packet::ReadLink(p) => PacketView::ReadLink(p@),
            Packet::Symlink(p) => PacketView::Symlink(p@),
            Packet::Status(p) => PacketView::Status(p@),
            Packet::Handle(p) => PacketView::Handle(p@),
            Packet::Data(p) => PacketView::Data(p@),
            Packet::Name(p) => PacketView::Name(p@),
            Packet::Attrs(p) => PacketView::Attrs(p@),
            Packet::Extended(p) => PacketView::Extended(p@),
            Packet::ExtendedReply(p) => PacketView::ExtendedReply(p@),
        }
    }
}

/// The type byte of a packet.
pub open spec fn packet_type(p: PacketView) -> u8 {
    match p {
        PacketView::Init(_) => SSH_FXP_INIT,
        PacketView::Version(_) => SSH_FXP_VERSION,
        PacketView::Open(_) => SSH_FXP_OPEN,
        PacketView::Close(_) => SSH_FXP_CLOSE,
        PacketView::Read(_) => SSH_FXP_READ,
        PacketView::Write(_) => SSH_FXP_WRITE,
        PacketView::Lstat(_) => SSH_FXP_LSTAT,
        PacketView::Fstat(_) => SSH_FXP_FSTAT,
        PacketView::SetStat(_) => SSH_FXP_SETSTAT,
        PacketView::FSetStat(_) => SSH_FXP_FSETSTAT,
        PacketView::OpenDir(_) => SSH_FXP_OPENDIR,
        PacketView::ReadDir(_) => SSH_FXP_READDIR,
        PacketView::Remove(_) => SSH_FXP_REMOVE,
        PacketView::MkDir(_) => SSH_FXP_MKDIR,
        PacketView::RmDir(_) => SSH_FXP_RMDIR,
        PacketView::RealPath(_) => SSH_FXP_REALPATH,
        PacketView::Stat(_) => SSH_FXP_STAT,
        PacketView::Rename(_) => SSH_FXP_RENAME,
        PacketView::ReadLink(_) => SSH_FXP_READLINK,
        PacketView::Symlink(_) => SSH_FXP_SYMLINK,
        PacketView::Status(_) => SSH_FXP_STATUS,
        PacketView::Handle(_) => SSH_FXP_HANDLE,
        PacketView::Data(_) => SSH_FXP_DATA,
        PacketView::Name(_) => SSH_FXP_NAME,
        PacketView::Attrs(_) => SSH_FXP_ATTRS,
        PacketView::Extended(_) => SSH_FXP_EXTENDED,
        PacketView::ExtendedReply(_) => SSH_FXP_EXTENDED_REPLY,
    }
}

/// The bytes after the type byte.
pub open spec fn encode_payload(p: PacketView) -> Seq<u8> {
    match p {
        PacketView::Init(v) => encode_version(v),
        PacketView::Version(v) => encode_version(v),
        PacketView::Open(v) => encode_open(v),
        PacketView::Close(v) => encode_id_bytes(v),
        PacketView::Read(v) => encode_read(v),
        PacketView::Write(v) => encode_write(v),
        PacketView::Lstat(v) => encode_id_text(v),
        PacketView::Fstat(v) => encode_id_bytes(v),
        PacketView::SetStat(v) => encode_id_text_attrs(v),
        PacketView::FSetStat(v) => encode_id_bytes_attrs(v),
        PacketView::OpenDir(v) => encode_id_text(v),
        PacketView::ReadDir(v) => encode_id_bytes(v),
        PacketView::Remove(v) => encode_id_text(v),
        PacketView::MkDir(v) => encode_id_text_attrs(v),
        PacketView::RmDir(v) => encode_id_text(v),
        PacketView::RealPath(v) => encode_id_text(v),
        PacketView::Stat(v) => encode_id_text(v),
        PacketView::Rename(v) => encode_id_text_text(v),
        PacketView::ReadLink(v) => encode_id_text(v),
        PacketView::Symlink(v) => encode_id_text_text(v),
        PacketView::Status(v) => encode_status(v),
        PacketView::Handle(v) => encode_id_bytes(v),
        PacketView::Data(v) => encode_id_bytes(v),
        PacketView::Name(v) => encode_name(v),
        PacketView::Attrs(v) => encode_attrs_reply(v),
        PacketView::Extended(v) => encode_extended(v),
        PacketView::ExtendedReply(v) => encode_extended_reply(v),
    }
}

/// A packet without its length: the type byte, then the payload.
pub open spec fn encode_body(p: PacketView) -> Seq<u8> {
    seq![packet_type(p)] + encode_payload(p)
}

/// Every length and count of the packet fits the wire format.
pub open spec fn payload_fits(p: PacketView) -> bool {
    match p {
        PacketView::Init(v) => extensions_fit(v.1),
        PacketView::Version(v) => extensions_fit(v.1),
        PacketView::Open(v) => text_fits(v.1),
        PacketView::Close(v) => fits_u32(v.1),
        PacketView::Read(v) => fits_u32(v.1),
        PacketView::Write(v) => fits_u32(v.1) && fits_u32(v.3),
        PacketView::Lstat(v) => text_fits(v.1),
        PacketView::Fstat(v) => fits_u32(v.1),
        PacketView::SetStat(v) => text_fits(v.1),
        PacketView::FSetStat(v) => fits_u32(v.1),
        PacketView::OpenDir(v) => text_fits(v.1),
        PacketView::ReadDir(v) => fits_u32(v.1),
        PacketView::Remove(v) => text_fits(v.1),
        PacketView::MkDir(v) => text_fits(v.1),
        PacketView::RmDir(v) => text_fits(v.1),
        PacketView::RealPath(v) => text_fits(v.1),
        PacketView::Stat(v) => text_fits(v.1),
        PacketView::Rename(v) => text_fits(v.1) && text_fits(v.2),
        PacketView::ReadLink(v) => text_fits(v.1),
        PacketView::Symlink(v) => text_fits(v.1) && text_fits(v.2),
        PacketView::Status(v) => status_fits(v),
        PacketView::Handle(v) => fits_u32(v.1),
        PacketView::Data(v) => fits_u32(v.1),
        PacketView::Name(v) => name_fits(v),
        PacketView::Attrs(v) => true,
        PacketView::Extended(v) => text_fits(v.1),
        PacketView::ExtendedReply(v) => true,
    }
}

/// Decoding gives back exactly what was encoded: attributes are in
/// wire-normal form, extension names occur once, and a name reply lists at
/// most [`MAX_NAME_ENTRIES`] entries.
pub open spec fn packet_canonical(p: PacketView) -> bool {
    match p {
        PacketView::Init(v) => names_distinct(v.1),
        PacketView::Version(v) => names_distinct(v.1),
        PacketView::Open(v) => attrs_canonical(v.3),
        PacketView::Close(v) => true,
        PacketView::Read(v) => true,
        PacketView::Write(v) => true,
        PacketView::Lstat(v) => true,
        PacketView::Fstat(v) => true,
        PacketView::SetStat(v) => attrs_canonical(v.2),
        PacketView::FSetStat(v) => attrs_canonical(v.2),
        PacketView::OpenDir(v) => true,
        PacketView::ReadDir(v) => true,
        PacketView::Remove(v) => true,
        PacketView::MkDir(v) => attrs_canonical(v.2),
        PacketView::RmDir(v) => true,
        PacketView::RealPath(v) => true,
        PacketView::Stat(v) => true,
        PacketView::Rename(v) => true,
        PacketView::ReadLink(v) => true,
        PacketView::Symlink(v) => true,
        PacketView::Status(v) => true,
        PacketView::Handle(v) => true,
        PacketView::Data(v) => true,
        PacketView::Name(v) => name_canonical(v) && v.1.len() <= MAX_NAME_ENTRIES,
        PacketView::Attrs(v) => attrs_canonical(v.1),
        PacketView::Extended(v) => true,
        PacketView::ExtendedReply(v) => true,
    }
}

/// The id that a request carries; replies and the version exchange count as 0.
pub open spec fn request_id(p: PacketView) -> u32 {
    match p {
        PacketView::Open(v) => v.0,
        PacketView::Close(v) => v.0,
        PacketView::Read(v) => v.0,
        PacketView::Write(v) => v.0,
        PacketView::Lstat(v) => v.0,
        PacketView::Fstat(v) => v.0,
        PacketView::SetStat(v) => v.0,
        PacketView::FSetStat(v) => v.0,
        PacketView::OpenDir(v) => v.0,
        PacketView::ReadDir(v) => v.0,
        PacketView::Remove(v) => v.0,
        PacketView::MkDir(v) => v.0,
        PacketView::RmDir(v) => v.0,
        PacketView::RealPath(v) => v.0,
        PacketView::Stat(v) => v.0,
        PacketView::Rename(v) => v.0,
        PacketView::ReadLink(v) => v.0,
        PacketView::Symlink(v) => v.0,
        PacketView::Extended(v) => v.0,
        _ => 0,
    }
}

/// Decodes the payload of a packet of type `t`; an unknown type is refused.
pub open spec fn parse_body(t: u8, s: Seq<u8>) -> Option<(PacketView, Seq<u8>)> {
    if t == SSH_FXP_INIT {
        match parse_version(s) {
            Some((v, r)) => Some((PacketView::Init(v), r)),
            None => None,
        }
    } else if t == SSH_FXP_VERSION {
        match parse_version(s) {
            Some((v, r)) => Some((PacketView::Version(v), r)),
            None => None,
        }
    } else if t == SSH_FXP_OPEN {
        match parse_open(s) {
            Some((v, r)) => Some((PacketView::Open(v), r)),
            None => None,
        }
    } else if t == SSH_FXP_CLOSE {
        match parse_id_bytes(s) {
            Some((v, r)) => Some((PacketView::Close(v), r)),
            None => None,
        }
    } else if t == SSH_FXP_READ {
        match parse_read(s) {
            Some((v, r)) => Some((PacketView::Read(v), r)),
            None => None,
        }
    } else if t == SSH_FXP_WRITE {
        match parse_write(s) {
            Some((v, r)) => Some((PacketView::Write(v), r)),
            None => None,
        }
    } else if t == SSH_FXP_LSTAT {
        match parse_id_text(s) {
            Some((v, r)) => Some((PacketView::Lstat(v), r)),
            None => None,
        }
    } else if t == SSH_FXP_FSTAT {
        match parse_id_bytes(s) {
            Some((v, r)) => Some((PacketView::Fstat(v), r)),
            None => None,
        }
    } else if t == SSH_FXP_SETSTAT {
        match parse_id_text_attrs(s) {
            Some((v, r)) => Some((PacketView::SetStat(v), r)),
            None => None,
        }
    } else if t == SSH_FXP_FSETSTAT {
        match parse_id_bytes_attrs(s) {
            Some((v, r)) => Some((PacketView::FSetStat(v), r)),
            None => None,
        }
    } else if t == SSH_FXP_OPENDIR {
        match parse_id_text(s) {
            Some((v, r)) => Some((PacketView::OpenDir(v), r)),
            None => None,
        }
    } else if t == SSH_FXP_READDIR {
        match parse_id_bytes(s) {
            Some((v, r)) => Some((PacketView::ReadDir(v), r)),
            None => None,
        }
    } else if t == SSH_FXP_REMOVE {
        match parse_id_text(s) {
            Some((v, r)) => Some((PacketView::Remove(v), r)),
            None => None,
        }
    } else if t == SSH_FXP_MKDIR {
        match parse_id_text_attrs(s) {
            Some((v, r)) => Some((PacketView::MkDir(v), r)),
            None => None,
        }
    } else if t == SSH_FXP_RMDIR {
        match parse_id_text(s) {
            Some((v, r)) => Some((PacketView::RmDir(v), r)),
            None => None,
        }
    } else if t == SSH_FXP_REALPATH {
        match parse_id_text(s) {
            Some((v, r)) => Some((PacketView::RealPath(v), r)),
            None => None,
        }
    } else if t == SSH_FXP_STAT {
        match parse_id_text(s) {
            Some((v, r)) => Some((PacketView::Stat(v), r)),
            None => None,
        }
    } else if t == SSH_FXP_RENAME {
        match parse_id_text_text(s) {
            Some((v, r)) => Some((PacketView::Rename(v), r)),
            None => None,
        }
    } else if t == SSH_FXP_READLINK {
        match parse_id_text(s) {
            Some((v, r)) => Some((PacketView::ReadLink(v), r)),
            None => None,
        }
    } else if t == SSH_FXP_SYMLINK {
        match parse_id_text_text(s) {
            Some((v, r)) => Some((PacketView::Symlink(v), r)),
            None => None,
        }
    } else if t == SSH_FXP_STATUS {
        match parse_status(s) {
            Some((v, r)) => Some((PacketView::Status(v), r)),
            None => None,
        }
    } else if t == SSH_FXP_HANDLE {
        match parse_id_bytes(s) {
            Some((v, r)) => Some((PacketView::Handle(v), r)),
            None => None,
        }
    } else if t == SSH_FXP_DATA {
        match parse_id_bytes(s) {
            Some((v, r)) => Some((PacketView::Data(v), r)),
            None => None,
        }
    } else if t == SSH_FXP_NAME {
        match parse_name(s) {
            Some((v, r)) => Some((PacketView::Name(v), r)),
            None => None,
        }
    } else if t == SSH_FXP_ATTRS {
        match parse_attrs_reply(s) {
            Some((v, r)) => Some((PacketView::Attrs(v), r)),
            None => None,
        }
    } else if t == SSH_FXP_EXTENDED {
        match parse_extended(s) {
            Some((v, r)) => Some((PacketView::Extended(v), r)),
            None => None,
        }
    } else if t == SSH_FXP_EXTENDED_REPLY {
        match parse_extended_reply(s) {
            Some((v, r)) => Some((PacketView::ExtendedReply(v), r)),
            None => None,
        }
    } else {
        None
    }
}

/// Is the packet one that a client sends: a request, or the version
/// exchange's `init`?
pub open spec fn is_request(p: PacketView) -> bool {
    match p {
        PacketView::Version(_) | PacketView::Status(_) | PacketView::Handle(_) | PacketView::Data(_)
        | PacketView::Name(_) | PacketView::Attrs(_) | PacketView::ExtendedReply(_) => false,
        _ => true,
    }
}

/// Decodes a packet: its type byte, then the payload of that type.
pub open spec fn parse_packet(s: Seq<u8>) -> Option<(PacketView, Seq<u8>)> {
    match get_u8_spec(s) {
        None => None,
        Some((t, s1)) => parse_body(t, s1),
    }
}

/// A packet reads back as it was encoded, when its lengths fit the wire
/// format and it is in the canonical form that decoding produces.
pub proof fn lemma_packet_roundtrip(p: PacketView)
    requires
        payload_fits(p),
        packet_canonical(p),
    ensures
        parse_packet(encode_body(p)) == Some((p, Seq::<u8>::empty())),
{
    let e = Seq::<u8>::empty();
    assert(encode_payload(p) + e =~= encode_payload(p));
    match p {
        PacketView::Init(v) => {
            lemma_version(v);
        },
        PacketView::Version(v) => {
            lemma_version(v);
        },
        PacketView::Open(v) => {
            lemma_open(v, e);
        },
        PacketView::Close(v) => {
            lemma_id_bytes(v, e);
        },
        PacketView::Read(v) => {
            lemma_read(v, e);
        },
        PacketView::Write(v) => {
            lemma_write(v, e);
        },
        PacketView::Lstat(v) => {
            lemma_id_text(v, e);
        },
        PacketView::Fstat(v) => {
            lemma_id_bytes(v, e);
        },
        PacketView::SetStat(v) => {
            lemma_id_text_attrs(v, e);
        },
        PacketView::FSetStat(v) => {
            lemma_id_bytes_attrs(v, e);
        },
        PacketView::OpenDir(v) => {
            lemma_id_text(v, e);
        },
        PacketView::ReadDir(v) => {
            lemma_id_bytes(v, e);
        },
        PacketView::Remove(v) => {
            lemma_id_text(v, e);
        },
        PacketView::MkDir(v) => {
            lemma_id_text_attrs(v, e);
        },
        PacketView::RmDir(v) => {
            lemma_id_text(v, e);
        },
        PacketView::RealPath(v) => {
            lemma_id_text(v, e);
        },
        PacketView::Stat(v) => {
            lemma_id_text(v, e);
        },
        PacketView::Rename(v) => {
            lemma_id_text_text(v, e);
        },
        PacketView::ReadLink(v) => {
            lemma_id_text(v, e);
        },
        PacketView::Symlink(v) => {
            lemma_id_text_text(v, e);
        },
        PacketView::Status(v) => {
            lemma_status(v, e);
        },
        PacketView::Handle(v) => {
            lemma_id_bytes(v, e);
        },
        PacketView::Data(v) => {
            lemma_id_bytes(v, e);
        },
        PacketView::Name(v) => {
            lemma_name(v, e);
        },
        PacketView::Attrs(v) => {
            lemma_attrs_reply(v, e);
        },
        PacketView::Extended(v) => {
            lemma_extended(v);
        },
        PacketView::ExtendedReply(v) => {
            lemma_extended_reply(v);
        },
    }
    lemma_get_put_u8(packet_type(p), encode_payload(p));
}

/// Decodes the payload of a request (types 1 to 20).
fn parse_request_body(t: u8, input: &mut Reader) -> (r: Result<Packet, Error>)
    ensures
        match parse_body(t, old(input)@) {
            Some((v, rest)) => r matches Ok(p) && p@ == v && final(input)@ == rest,
            None => is_bad_message(r),
        },
{
    if t == SSH_FXP_INIT {
        return Ok(Packet::Init(Init::from_bytes(input)?));
    }
    if t == SSH_FXP_VERSION {
        return Ok(Packet::Version(Version::from_bytes(input)?));
    }
    if t == SSH_FXP_OPEN {
        return Ok(Packet::Open(Open::from_bytes(input)?));
    }
    if t == SSH_FXP_CLOSE {
        return Ok(Packet::Close(Close::from_bytes(input)?));
    }
    if t == SSH_FXP_READ {
        return Ok(Packet::Read(Read::from_bytes(input)?));
    }
    if t == SSH_FXP_WRITE {
        return Ok(Packet::Write(Write::from_bytes(input)?));
    }
    if t == SSH_FXP_LSTAT {
        return Ok(Packet::Lstat(Lstat::from_bytes(input)?));
    }
    if t == SSH_FXP_FSTAT {
        return Ok(Packet::Fstat(Fstat::from_bytes(input)?));
    }
    if t == SSH_FXP_SETSTAT {
        return Ok(Packet::SetStat(SetStat::from_bytes(input)?));
    }
    if t == SSH_FXP_FSETSTAT {
        return Ok(Packet::FSetStat(FSetStat::from_bytes(input)?));
    }
    if t == SSH_FXP_OPENDIR {
        return Ok(Packet::OpenDir(OpenDir::from_bytes(input)?));
    }
    if t == SSH_FXP_READDIR {
        return Ok(Packet::ReadDir(ReadDir::from_bytes(input)?));
    }
    if t == SSH_FXP_REMOVE {
        return Ok(Packet::Remove(Remove::from_bytes(input)?));
    }
    if t == SSH_FXP_MKDIR {
        return Ok(Packet::MkDir(MkDir::from_bytes(input)?));
    }
    if t == SSH_FXP_RMDIR {
        return Ok(Packet::RmDir(RmDir::from_bytes(input)?));
    }
    if t == SSH_FXP_REALPATH {
        return Ok(Packet::RealPath(RealPath::from_bytes(input)?));
    }
    if t == SSH_FXP_STAT {
        return Ok(Packet::Stat(Stat::from_bytes(input)?));
    }
    if t == SSH_FXP_RENAME {
        return Ok(Packet::Rename(Rename::from_bytes(input)?));
    }
    if t == SSH_FXP_READLINK {
        return Ok(Packet::ReadLink(ReadLink::from_bytes(input)?));
    }
    if t == SSH_FXP_SYMLINK {
        return Ok(Packet::Symlink(Symlink::from_bytes(input)?));
    }
    parse_reply_body(t, input)
}

/// Decodes the payload of a reply or an extension packet.
fn parse_reply_body(t: u8, input: &mut Reader) -> (r: Result<Packet, Error>)
    requires
        !(1 <= t <= 20),
    ensures
        match parse_body(t, old(input)@) {
            Some((v, rest)) => r matches Ok(p) && p@ == v && final(input)@ == rest,
            None => is_bad_message(r),
        },
{
    if t == SSH_FXP_STATUS {
        return Ok(Packet::Status(Status::from_bytes(input)?));
    }
    if t == SSH_FXP_HANDLE {
        return Ok(Packet::Handle(Handle::from_bytes(input)?));
    }
    if t == SSH_FXP_DATA {
        return Ok(Packet::Data(Data::from_bytes(input)?));
    }
    if t == SSH_FXP_NAME {
        return Ok(Packet::Name(Name::from_bytes(input)?));
    }
    if t == SSH_FXP_ATTRS {
        return Ok(Packet::Attrs(Attrs::from_bytes(input)?));
    }
    if t == SSH_FXP_EXTENDED {
        return Ok(Packet::Extended(Extended::from_bytes(input)?));
    }
    if t == SSH_FXP_EXTENDED_REPLY {
        return Ok(Packet::ExtendedReply(ExtendedReply::from_bytes(input)?));
    }
    Err(Error::BadMessage("unknown type".to_owned()))
}

impl Packet {
    /// Decodes a packet (its type byte and payload) from the front of
    /// `input`, leaving whatever follows unread.
    pub fn try_from_buf(input: &mut Reader) -> (r: Result<Packet, Error>)
        ensures
            match parse_packet(old(input)@) {
                Some((v, rest)) => r matches Ok(p) && p@ == v && final(input)@ == rest,
                None => is_bad_message(r),
            },
    {
        let t = input.try_get_u8()?;
        parse_request_body(t, input)
    }

    /// The type byte of the packet.
    pub fn packet_type(&self) -> (t: u8)
        ensures
            t == packet_type(self@),
    {
        match self {
            Packet::Init(_) => SSH_FXP_INIT,
            Packet::Version(_) => SSH_FXP_VERSION,
            Packet::Open(_) => SSH_FXP_OPEN,
            Packet::Close(_) => SSH_FXP_CLOSE,
            Packet::Read(_) => SSH_FXP_READ,
            Packet::Write(_) => SSH_FXP_WRITE,
            Packet::Lstat(_) => SSH_FXP_LSTAT,
            Packet::Fstat(_) => SSH_FXP_FSTAT,
            Packet::SetStat(_) => SSH_FXP_SETSTAT,
            Packet::FSetStat(_) => SSH_FXP_FSETSTAT,
            Packet::OpenDir(_) => SSH_FXP_OPENDIR,
            Packet::ReadDir(_) => SSH_FXP_READDIR,
            Packet::Remove(_) => SSH_FXP_REMOVE,
            Packet::MkDir(_) => SSH_FXP_MKDIR,
            Packet::RmDir(_) => SSH_FXP_RMDIR,
            Packet::RealPath(_) => SSH_FXP_REALPATH,
            Packet::Stat(_) => SSH_FXP_STAT,
            Packet::Rename(_) => SSH_FXP_RENAME,
            Packet::ReadLink(_) => SSH_FXP_READLINK,
            Packet::Symlink(_) => SSH_FXP_SYMLINK,
            Packet::Status(_) => SSH_FXP_STATUS,
            Packet::Handle(_) => SSH_FXP_HANDLE,
            Packet::Data(_) => SSH_FXP_DATA,
            Packet::Name(_) => SSH_FXP_NAME,
            Packet::Attrs(_) => SSH_FXP_ATTRS,
            Packet::Extended(_) => SSH_FXP_EXTENDED,
            Packet::ExtendedReply(_) => SSH_FXP_EXTENDED_REPLY,
        }
    }

    /// The id of a request; replies and the version exchange answer 0.
    pub fn get_request_id(&self) -> (id: u32)
        ensures
            id == request_id(self@),
    {
        match self {
            Packet::Open(p) => p.id,
            Packet::Close(p) => p.id,
            Packet::Read(p) => p.id,
            Packet::Write(p) => p.id,
            Packet::Lstat(p) => p.id,
            Packet::Fstat(p) => p.id,
            Packet::SetStat(p) => p.id,
            Packet::FSetStat(p) => p.id,
            Packet::OpenDir(p) => p.id,
            Packet::ReadDir(p) => p.id,
            Packet::Remove(p) => p.id,
            Packet::MkDir(p) => p.id,
            Packet::RmDir(p) => p.id,
            Packet::RealPath(p) => p.id,
            Packet::Stat(p) => p.id,
            Packet::Rename(p) => p.id,
            Packet::ReadLink(p) => p.id,
            Packet::Symlink(p) => p.id,
            Packet::Extended(p) => p.id,
            _ => 0,
        }
    }

    /// Appends the payload (everything after the type byte); fails, writing
    /// nothing, when a length or count does not fit the wire format.
    pub fn serialize_payload(&self, out: &mut Vec<u8>) -> (r: Result<(), Error>)
        ensures
            r is Ok <==> payload_fits(self@),
            r is Ok ==> final(out)@ == old(out)@ + encode_payload(self@),
            r is Err ==> final(out)@ == old(out)@ && is_bad_message(r),
    {
        match self {
            Packet::Init(p) => p.serialize_into(out),
            Packet::Version(p) => p.serialize_into(out),
            Packet::Open(p) => p.serialize_into(out),
            Packet::Close(p) => p.serialize_into(out),
            Packet::Read(p) => p.serialize_into(out),
            Packet::Write(p) => p.serialize_into(out),
            Packet::Lstat(p) => p.serialize_into(out),
            Packet::Fstat(p) => p.serialize_into(out),
            Packet::SetStat(p) => p.serialize_into(out),
            Packet::FSetStat(p) => p.serialize_into(out),
            Packet::OpenDir(p) => p.serialize_into(out),
            Packet::ReadDir(p) => p.serialize_into(out),
            Packet::Remove(p) => p.serialize_into(out),
            Packet::MkDir(p) => p.serialize_into(out),
            Packet::RmDir(p) => p.serialize_into(out),
            Packet::RealPath(p) => p.serialize_into(out),
            Packet::Stat(p) => p.serialize_into(out),
            Packet::Rename(p) => p.serialize_into(out),
            Packet::ReadLink(p) => p.serialize_into(out),
            Packet::Symlink(p) => p.serialize_into(out),
            Packet::Status(p) => p.serialize_into(out),
            Packet::Handle(p) => p.serialize_into(out),
            Packet::Data(p) => p.serialize_into(out),
            Packet::Name(p) => p.serialize_into(out),
            Packet::Attrs(p) => {
                p.serialize_into(out);
                Ok(())
            },
            Packet::Extended(p) => p.serialize_into(out),
            Packet::ExtendedReply(p) => {
                p.serialize_into(out);
                Ok(())
            },
        }
    }

    /// Is this a packet that a client sends (see [`is_request`])?  The
    /// others are the server's replies.
    pub fn is_request(&self) -> (b: bool)
        ensures
            b == is_request(self@),
    {
        match self {
            Packet::Version(_) | Packet::Status(_) | Packet::Handle(_) | Packet::Data(_)
            | Packet::Name(_) | Packet::Attrs(_) | Packet::ExtendedReply(_) => false,
            _ => true,
        }
    }

    /// A status reply.
    pub fn status(id: u32, status_code: StatusCode, msg: String, tag: String) -> (p: Packet)
        ensures
            p@ == PacketView::Status((id, status_code, msg@, tag@)),
    {
        Packet::Status(Status { id, status_code, error_message: msg, language_tag: tag })
    }

    /// A status reply whose message is the text of the code, in `en-US`.
    pub fn error(id: u32, status_code: StatusCode) -> (p: Packet)
        ensures
            p@ == PacketView::Status((id, status_code, status_code_text(status_code), "en-US"@)),
    {
        Packet::status(id, status_code, status_code.message(), "en-US".to_owned())
    }
}

} // verus!

verus! {

impl From<Init> for Packet {
    fn from(input: Init) -> (p: Packet) {
        Packet::Init(input)
    }
}

impl vstd::std_specs::convert::FromSpecImpl<Init> for Packet {
    open spec fn obeys_from_spec() -> bool {
        true
    }

    open spec fn from_spec(input: Init) -> Packet {
        Packet::Init(input)
    }
}

impl From<Version> for Packet {
    fn from(input: Version) -> (p: Packet) {
        Packet::Version(input)
    }
}

impl vstd::std_specs::convert::FromSpecImpl<Version> for Packet {
    open spec fn obeys_from_spec() -> bool {
        true
    }

    open spec fn from_spec(input: Version) -> Packet {
        Packet::Version(input)
    }
}

impl From<Open> for Packet {
    fn from(input: Open) -> (p: Packet) {
        Packet::Open(input)
    }
}

impl vstd::std_specs::convert::FromSpecImpl<Open> for Packet {
    open spec fn obeys_from_spec() -> bool {
        true
    }

    open spec fn from_spec(input: Open) -> Packet {
        Packet::Open(input)
    }
}

impl From<Close> for Packet {
    fn from(input: Close) -> (p: Packet) {
        Packet::Close(input)
    }
}

impl vstd::std_specs::convert::FromSpecImpl<Close> for Packet {
    open spec fn obeys_from_spec() -> bool {
        true
    }

    open spec fn from_spec(input: Close) -> Packet {
        Packet::Close(input)
    }
}

impl From<Read> for Packet {
    fn from(input: Read) -> (p: Packet) {
        Packet::Read(input)
    }
}

impl vstd::std_specs::convert::FromSpecImpl<Read> for Packet {
    open spec fn obeys_from_spec() -> bool {
        true
    }

    open spec fn from_spec(input: Read) -> Packet {
        Packet::Read(input)
    }
}

impl From<Write> for Packet {
    fn from(input: Write) -> (p: Packet) {
        Packet::Write(input)
    }
}

impl vstd::std_specs::convert::FromSpecImpl<Write> for Packet {
    open spec fn obeys_from_spec() -> bool {
        true
    }

    open spec fn from_spec(input: Write) -> Packet {
        Packet::Write(input)
    }
}

impl From<Lstat> for Packet {
    fn from(input: Lstat) -> (p: Packet) {
        Packet::Lstat(input)
    }
}

impl vstd::std_specs::convert::FromSpecImpl<Lstat> for Packet {
    open spec fn obeys_from_spec() -> bool {
        true
    }

    open spec fn from_spec(input: Lstat) -> Packet {
        Packet::Lstat(input)
    }
}

impl From<Fstat> for Packet {
    fn from(input: Fstat) -> (p: Packet) {
        Packet::Fstat(input)
    }
}

impl vstd::std_specs::convert::FromSpecImpl<Fstat> for Packet {
    open spec fn obeys_from_spec() -> bool {
        true
    }

    open spec fn from_spec(input: Fstat) -> Packet {
        Packet::Fstat(input)
    }
}

impl From<SetStat> for Packet {
    fn from(input: SetStat) -> (p: Packet) {
        Packet::SetStat(input)
    }
}

impl vstd::std_specs::convert::FromSpecImpl<SetStat> for Packet {
    open spec fn obeys_from_spec() -> bool {
        true
    }

    open spec fn from_spec(input: SetStat) -> Packet {
        Packet::SetStat(input)
    }
}

impl From<FSetStat> for Packet {
    fn from(input: FSetStat) -> (p: Packet) {
        Packet::FSetStat(input)
    }
}

impl vstd::std_specs::convert::FromSpecImpl<FSetStat> for Packet {
    open spec fn obeys_from_spec() -> bool {
        true
    }

    open spec fn from_spec(input: FSetStat) -> Packet {
        Packet::FSetStat(input)
    }
}

impl From<OpenDir> for Packet {
    fn from(input: OpenDir) -> (p: Packet) {
        Packet::OpenDir(input)
    }
}

impl vstd::std_specs::convert::FromSpecImpl<OpenDir> for Packet {
    open spec fn obeys_from_spec() -> bool {
        true
    }

    open spec fn from_spec(input: OpenDir) -> Packet {
        Packet::OpenDir(input)
    }
}

impl From<ReadDir> for Packet {
    fn from(input: ReadDir) -> (p: Packet) {
        Packet::ReadDir(input)
    }
}

impl vstd::std_specs::convert::FromSpecImpl<ReadDir> for Packet {
    open spec fn obeys_from_spec() -> bool {
        true
    }

    open spec fn from_spec(input: ReadDir) -> Packet {
        Packet::ReadDir(input)
    }
}

impl From<Remove> for Packet {
    fn from(input: Remove) -> (p: Packet) {
        Packet::Remove(input)
    }
}

impl vstd::std_specs::convert::FromSpecImpl<Remove> for Packet {
    open spec fn obeys_from_spec() -> bool {
        true
    }

    open spec fn from_spec(input: Remove) -> Packet {
        Packet::Remove(input)
    }
}

impl From<MkDir> for Packet {
    fn from(input: MkDir) -> (p: Packet) {
        Packet::MkDir(input)
    }
}

impl vstd::std_specs::convert::FromSpecImpl<MkDir> for Packet {
    open spec fn obeys_from_spec() -> bool {
        true
    }

    open spec fn from_spec(input: MkDir) -> Packet {
        Packet::MkDir(input)
    }
}

impl From<RmDir> for Packet {
    fn from(input: RmDir) -> (p: Packet) {
        Packet::RmDir(input)
    }
}

impl vstd::std_specs::convert::FromSpecImpl<RmDir> for Packet {
    open spec fn obeys_from_spec() -> bool {
        true
    }

    open spec fn from_spec(input: RmDir) -> Packet {
        Packet::RmDir(input)
    }
}

impl From<RealPath> for Packet {
    fn from(input: RealPath) -> (p: Packet) {
        Packet::RealPath(input)
    }
}

impl vstd::std_specs::convert::FromSpecImpl<RealPath> for Packet {
    open spec fn obeys_from_spec() -> bool {
        true
    }

    open spec fn from_spec(input: RealPath) -> Packet {
        Packet::RealPath(input)
    }
}

impl From<Stat> for Packet {
    fn from(input: Stat) -> (p: Packet) {
        Packet::Stat(input)
    }
}

impl vstd::std_specs::convert::FromSpecImpl<Stat> for Packet {
    open spec fn obeys_from_spec() -> bool {
        true
    }

    open spec fn from_spec(input: Stat) -> Packet {
        Packet::Stat(input)
    }
}

impl From<Rename> for Packet {
    fn from(input: Rename) -> (p: Packet) {
        Packet::Rename(input)
    }
}

impl vstd::std_specs::convert::FromSpecImpl<Rename> for Packet {
    open spec fn obeys_from_spec() -> bool {
        true
    }

    open spec fn from_spec(input: Rename) -> Packet {
        Packet::Rename(input)
    }
}

impl From<ReadLink> for Packet {
    fn from(input: ReadLink) -> (p: Packet) {
        Packet::ReadLink(input)
    }
}

impl vstd::std_specs::convert::FromSpecImpl<ReadLink> for Packet {
    open spec fn obeys_from_spec() -> bool {
        true
    }

    open spec fn from_spec(input: ReadLink) -> Packet {
        Packet::ReadLink(input)
    }
}

impl From<Symlink> for Packet {
    fn from(input: Symlink) -> (p: Packet) {
        Packet::Symlink(input)
    }
}

impl vstd::std_specs::convert::FromSpecImpl<Symlink> for Packet {
    open spec fn obeys_from_spec() -> bool {
        true
    }

    open spec fn from_spec(input: Symlink) -> Packet {
        Packet::Symlink(input)
    }
}

impl From<Status> for Packet {
    fn from(input: Status) -> (p: Packet) {
        Packet::Status(input)
    }
}

impl vstd::std_specs::convert::FromSpecImpl<Status> for Packet {
    open spec fn obeys_from_spec() -> bool {
        true
    }

    open spec fn from_spec(input: Status) -> Packet {
        Packet::Status(input)
    }
}

impl From<Handle> for Packet {
    fn from(input: Handle) -> (p: Packet) {
        Packet::Handle(input)
    }
}

impl vstd::std_specs::convert::FromSpecImpl<Handle> for Packet {
    open spec fn obeys_from_spec() -> bool {
        true
    }

    open spec fn from_spec(input: Handle) -> Packet {
        Packet::Handle(input)
    }
}

impl From<Data> for Packet {
    fn from(input: Data) -> (p: Packet) {
        Packet::Data(input)
    }
}

impl vstd::std_specs::convert::FromSpecImpl<Data> for Packet {
    open spec fn obeys_from_spec() -> bool {
        true
    }

    open spec fn from_spec(input: Data) -> Packet {
        Packet::Data(input)
    }
}

impl From<Name> for Packet {
    fn from(input: Name) -> (p: Packet) {
        Packet::Name(input)
    }
}

impl vstd::std_specs::convert::FromSpecImpl<Name> for Packet {
    open spec fn obeys_from_spec() -> bool {
        true
    }

    open spec fn from_spec(input: Name) -> Packet {
        Packet::Name(input)
    }
}

impl From<Attrs> for Packet {
    fn from(input: Attrs) -> (p: Packet) {
        Packet::Attrs(input)
    }
}

impl vstd::std_specs::convert::FromSpecImpl<Attrs> for Packet {
    open spec fn obeys_from_spec() -> bool {
        true
    }

    open spec fn from_spec(input: Attrs) -> Packet {
        Packet::Attrs(input)
    }
}

impl From<Extended> for Packet {
    fn from(input: Extended) -> (p: Packet) {
        Packet::Extended(input)
    }
}

impl vstd::std_specs::convert::FromSpecImpl<Extended> for Packet {
    open spec fn obeys_from_spec() -> bool {
        true
    }

    open spec fn from_spec(input: Extended) -> Packet {
        Packet::Extended(input)
    }
}

impl From<ExtendedReply> for Packet {
    fn from(input: ExtendedReply) -> (p: Packet) {
        Packet::ExtendedReply(input)
    }
}

impl vstd::std_specs::convert::FromSpecImpl<ExtendedReply> for Packet {
    open spec fn obeys_from_spec() -> bool {
        true
    }

    open spec fn from_spec(input: ExtendedReply) -> Packet {
        Packet::ExtendedReply(input)
    }
}

} // verus!
