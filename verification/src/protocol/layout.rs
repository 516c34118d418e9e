//! The wire layout of every packet, stated field by field as SFTP version 3
//! (draft-ietf-secsh-filexfer-02) lays it out, and proved of the encoders.

use vstd::prelude::*;
use vstd::utf8::encode_utf8;

use super::file_attrs::{encode_attrs, encode_file};
use super::name::{encode_files, FileView};
use super::packet::{
    encode_body, is_request, lemma_packet_roundtrip, packet_type, parse_packet, Packet, PacketView,
};
use super::paths::{Rename, Symlink};
use super::status::status_code_value;
use super::version::{encode_extensions, Extensions};
use crate::wire::{put_string_spec, text_fits, u32_be, u64_be};

verus! {

/// A text string as the wire carries it: its UTF-8 length as a big-endian
/// `uint32`, then its UTF-8 bytes.
pub open spec fn wire_text(c: Seq<char>) -> Seq<u8> {
    u32_be(encode_utf8(c).len() as u32) + encode_utf8(c)
}

/// A rename request on the wire is type 18, the id, the old path and then
/// the new path; and those bytes read back as that very rename, old path
/// first.
pub proof fn lemma_rename_wire_order(r: Rename)
    requires
        text_fits(r.oldpath@),
        text_fits(r.newpath@),
    ensures
        encode_body(Packet::Rename(r)@) == seq![18u8] + u32_be(r.id) + wire_text(r.oldpath@)
            + wire_text(r.newpath@),
        parse_packet(seq![18u8] + u32_be(r.id) + wire_text(r.oldpath@) + wire_text(r.newpath@))
            == Some((PacketView::Rename((r.id, r.oldpath@, r.newpath@)), Seq::<u8>::empty())),
{
    let p = Packet::Rename(r)@;
    assert(encode_body(p) =~= seq![18u8] + u32_be(r.id) + wire_text(r.oldpath@) + wire_text(
        r.newpath@,
    ));
    lemma_packet_roundtrip(p);
}

/// A symlink request on the wire is type 20, the id, the link path and then
/// the target path; and those bytes read back as that very request, link
/// path first.
pub proof fn lemma_symlink_wire_order(r: Symlink)
    requires
        text_fits(r.linkpath@),
        text_fits(r.targetpath@),
    ensures
        encode_body(Packet::Symlink(r)@) == seq![20u8] + u32_be(r.id) + wire_text(r.linkpath@)
            + wire_text(r.targetpath@),
        parse_packet(seq![20u8] + u32_be(r.id) + wire_text(r.linkpath@) + wire_text(
            r.targetpath@,
        )) == Some((PacketView::Symlink((r.id, r.linkpath@, r.targetpath@)), Seq::<u8>::empty())),
{
    let p = Packet::Symlink(r)@;
    assert(encode_body(p) =~= seq![20u8] + u32_be(r.id) + wire_text(r.linkpath@) + wire_text(
        r.targetpath@,
    ));
    lemma_packet_roundtrip(p);
}

/// A byte string as the wire carries it: its length as a big-endian
/// `uint32`, then the bytes.
pub open spec fn wire_bytes(b: Seq<u8>) -> Seq<u8> {
    u32_be(b.len() as u32) + b
}

/// The directory entries of a name reply as the wire carries them, one after
/// the other: file name, long name, attributes.
pub open spec fn wire_entries(fs: Seq<FileView>) -> Seq<u8>
    decreases fs.len(),
{
    if fs.len() == 0 {
        Seq::empty()
    } else {
        wire_text(fs[0].0) + wire_text(fs[0].1) + encode_attrs(fs[0].2) + wire_entries(
            fs.drop_first(),
        )
    }
}

/// Extension pairs as the wire carries them, one after the other: name, then
/// data.
pub open spec fn wire_pairs(m: Extensions) -> Seq<u8>
    decreases m.len(),
{
    if m.len() == 0 {
        Seq::empty()
    } else {
        wire_text(m[0].0) + wire_text(m[0].1) + wire_pairs(m.drop_first())
    }
}

/// Each packet as draft-ietf-secsh-filexfer-02 lays it out: the type number,
/// then the fields in the order the draft gives them.  Attributes are laid
/// out as [`lemma_attrs_wire_layout`] states.
pub open spec fn sftp_v3_layout(p: PacketView) -> Seq<u8> {
    match p {
        PacketView::Init((v, m)) => seq![1u8] + u32_be(v) + wire_pairs(m),
        PacketView::Version((v, m)) => seq![2u8] + u32_be(v) + wire_pairs(m),
        PacketView::Open((id, path, flags, a)) => seq![3u8] + u32_be(id) + wire_text(path)
            + u32_be(flags) + encode_attrs(a),
        PacketView::Close((id, h)) => seq![4u8] + u32_be(id) + wire_bytes(h),
        PacketView::Read((id, h, off, len)) => seq![5u8] + u32_be(id) + wire_bytes(h) + u64_be(off)
            + u32_be(len),
        PacketView::Write((id, h, off, d)) => seq![6u8] + u32_be(id) + wire_bytes(h) + u64_be(off)
            + wire_bytes(d),
        PacketView::Lstat((id, path)) => seq![7u8] + u32_be(id) + wire_text(path),
        PacketView::Fstat((id, h)) => seq![8u8] + u32_be(id) + wire_bytes(h),
        PacketView::SetStat((id, path, a)) => seq![9u8] + u32_be(id) + wire_text(path)
            + encode_attrs(a),
        PacketView::FSetStat((id, h, a)) => seq![10u8] + u32_be(id) + wire_bytes(h) + encode_attrs(
            a,
        ),
        PacketView::OpenDir((id, path)) => seq![11u8] + u32_be(id) + wire_text(path),
        PacketView::ReadDir((id, h)) => seq![12u8] + u32_be(id) + wire_bytes(h),
        PacketView::Remove((id, path)) => seq![13u8] + u32_be(id) + wire_text(path),
        PacketView::MkDir((id, path, a)) => seq![14u8] + u32_be(id) + wire_text(path)
            + encode_attrs(a),
        PacketView::RmDir((id, path)) => seq![15u8] + u32_be(id) + wire_text(path),
        PacketView::RealPath((id, path)) => seq![16u8] + u32_be(id) + wire_text(path),
        PacketView::Stat((id, path)) => seq![17u8] + u32_be(id) + wire_text(path),
        PacketView::Rename((id, old, new)) => seq![18u8] + u32_be(id) + wire_text(old) + wire_text(
            new,
        ),
        PacketView::ReadLink((id, path)) => seq![19u8] + u32_be(id) + wire_text(path),
        PacketView::Symlink((id, link, target)) => seq![20u8] + u32_be(id) + wire_text(link)
            + wire_text(target),
        PacketView::Status((id, code, msg, tag)) => seq![101u8] + u32_be(id) + u32_be(
            status_code_value(code),
        ) + wire_text(msg) + wire_text(tag),
        PacketView::Handle((id, h)) => seq![102u8] + u32_be(id) + wire_bytes(h),
        PacketView::Data((id, d)) => seq![103u8] + u32_be(id) + wire_bytes(d),
        PacketView::Name((id, fs)) => seq![104u8] + u32_be(id) + u32_be(fs.len() as u32)
            + wire_entries(fs),
        PacketView::Attrs((id, a)) => seq![105u8] + u32_be(id) + encode_attrs(a),
        PacketView::Extended((id, req, d)) => seq![200u8] + u32_be(id) + wire_text(req) + d,
        PacketView::ExtendedReply((id, d)) => seq![201u8] + u32_be(id) + d,
    }
}

proof fn lemma_wire_entries(fs: Seq<FileView>)
    ensures
        encode_files(fs) == wire_entries(fs),
    decreases fs.len(),
{
    if fs.len() > 0 {
        lemma_wire_entries(fs.drop_first());
        let f = fs[0];
        reveal(encode_file);
        assert(encode_files(fs) == encode_file(f) + encode_files(fs.drop_first()));
        assert(put_string_spec(f.0) == wire_text(f.0));
        assert(put_string_spec(f.1) == wire_text(f.1));
        assert(encode_file(f) == wire_text(f.0) + (wire_text(f.1) + encode_attrs(f.2)));
        assert(encode_files(fs) =~= wire_entries(fs));
    }
}

proof fn lemma_wire_pairs(m: Extensions)
    ensures
        encode_extensions(m) == wire_pairs(m),
    decreases m.len(),
{
    if m.len() > 0 {
        lemma_wire_pairs(m.drop_first());
        assert(encode_extensions(m) =~= wire_pairs(m));
    }
}

/// Every packet is encoded as the protocol lays it out: the type number
/// (1 init, 2 version, 3 open, ... 20 symlink, 101 status, 102 handle, 103
/// data, 104 name, 105 attrs, 200 extended, 201 extended reply), then its
/// fields in the protocol's order.
#[verifier::rlimit(60)]
pub proof fn lemma_packet_wire_layout(p: PacketView)
    ensures
        encode_body(p) == sftp_v3_layout(p),
{
    match p {
        PacketView::Init(x) => {
            lemma_wire_pairs(x.1);
            assert(encode_body(p) =~= sftp_v3_layout(p));
        },
        PacketView::Version(x) => {
            lemma_wire_pairs(x.1);
            assert(encode_body(p) =~= sftp_v3_layout(p));
        },
        PacketView::Open(x) => {
            assert(encode_body(p) =~= sftp_v3_layout(p));
        },
        PacketView::Close(x) => {
            assert(encode_body(p) =~= sftp_v3_layout(p));
        },
        PacketView::Read(x) => {
            assert(encode_body(p) =~= sftp_v3_layout(p));
        },
        PacketView::Write(x) => {
            assert(encode_body(p) =~= sftp_v3_layout(p));
        },
        PacketView::Lstat(x) => {
            assert(encode_body(p) =~= sftp_v3_layout(p));
        },
        PacketView::Fstat(x) => {
            assert(encode_body(p) =~= sftp_v3_layout(p));
        },
        PacketView::SetStat(x) => {
            assert(encode_body(p) =~= sftp_v3_layout(p));
        },
        PacketView::FSetStat(x) => {
            assert(encode_body(p) =~= sftp_v3_layout(p));
        },
        PacketView::OpenDir(x) => {
            assert(encode_body(p) =~= sftp_v3_layout(p));
        },
        PacketView::ReadDir(x) => {
            assert(encode_body(p) =~= sftp_v3_layout(p));
        },
        PacketView::Remove(x) => {
            assert(encode_body(p) =~= sftp_v3_layout(p));
        },
        PacketView::MkDir(x) => {
            assert(encode_body(p) =~= sftp_v3_layout(p));
        },
        PacketView::RmDir(x) => {
            assert(encode_body(p) =~= sftp_v3_layout(p));
        },
        PacketView::RealPath(x) => {
            assert(encode_body(p) =~= sftp_v3_layout(p));
        },
        PacketView::Stat(x) => {
            assert(encode_body(p) =~= sftp_v3_layout(p));
        },
        PacketView::Rename(x) => {
            assert(encode_body(p) =~= sftp_v3_layout(p));
        },
        PacketView::ReadLink(x) => {
            assert(encode_body(p) =~= sftp_v3_layout(p));
        },
        PacketView::Symlink(x) => {
            assert(encode_body(p) =~= sftp_v3_layout(p));
        },
        PacketView::Status(x) => {
            assert(encode_body(p) =~= sftp_v3_layout(p));
        },
        PacketView::Handle(x) => {
            assert(encode_body(p) =~= sftp_v3_layout(p));
        },
        PacketView::Data(x) => {
            assert(encode_body(p) =~= sftp_v3_layout(p));
        },
        PacketView::Name(x) => {
            lemma_wire_entries(x.1);
            assert(encode_body(p) =~= sftp_v3_layout(p));
        },
        PacketView::Attrs(x) => {
            assert(encode_body(p) =~= sftp_v3_layout(p));
        },
        PacketView::Extended(x) => {
            assert(encode_body(p) =~= sftp_v3_layout(p));
        },
        PacketView::ExtendedReply(x) => {
            assert(encode_body(p) =~= sftp_v3_layout(p));
        },
    }
}

/// A client sends init (1), the requests numbered 3 to 20 and the extended
/// request (200); every other packet (version, 2, and the replies numbered
/// from 101) is a server's.
pub proof fn lemma_requests_are_client_packets(p: PacketView)
    ensures
        packet_type(p) == sftp_v3_layout(p)[0],
        is_request(p) <==> (packet_type(p) == 1 || 3 <= packet_type(p) <= 20 || packet_type(p)
            == 200),
{
    lemma_packet_wire_layout(p);
    assert(encode_body(p)[0] == packet_type(p));
    match p {
        PacketView::Init(_) => {},
        PacketView::Version(_) => {},
        PacketView::Open(_) => {},
        PacketView::Close(_) => {},
        PacketView::Read(_) => {},
        PacketView::Write(_) => {},
        PacketView::Lstat(_) => {},
        PacketView::Fstat(_) => {},
        PacketView::SetStat(_) => {},
        PacketView::FSetStat(_) => {},
        PacketView::OpenDir(_) => {},
        PacketView::ReadDir(_) => {},
        PacketView::Remove(_) => {},
        PacketView::MkDir(_) => {},
        PacketView::RmDir(_) => {},
        PacketView::RealPath(_) => {},
        PacketView::Stat(_) => {},
        PacketView::Rename(_) => {},
        PacketView::ReadLink(_) => {},
        PacketView::Symlink(_) => {},
        PacketView::Status(_) => {},
        PacketView::Handle(_) => {},
        PacketView::Data(_) => {},
        PacketView::Name(_) => {},
        PacketView::Attrs(_) => {},
        PacketView::Extended(_) => {},
        PacketView::ExtendedReply(_) => {},
    }
}

} // verus!
