//! Packets as they travel: a `uint32` length, then the type byte and the
//! payload.  Serialization checks every length against the wire format and
//! against the largest packet this crate accepts.

use vstd::prelude::*;
use vstd::pervasive::VecAdditionalExecFns;

use super::by_handle::{encode_read, encode_write, Write};
use super::data::{Data, DataPayload};
use super::packet::{
    encode_body, encode_payload, lemma_packet_roundtrip, packet_canonical, packet_type,
    parse_packet, payload_fits, Packet, PacketView, SSH_FXP_DATA, SSH_FXP_READ, SSH_FXP_WRITE,
};
use super::shapes::encode_id_bytes;
use crate::error::{is_bad_message, is_bad_message_text, Error};
use crate::text::{limit_message, limit_text};
use crate::wire::{
    fits_u32, get_u32_spec, lemma_get_put_u32, put_bytes_spec, put_slice, put_u32, put_u64,
    put_u8, u32_be, u64_be,
};

verus! {

/// The largest packet (length field excluded) this crate sends or accepts:
/// 256 MiB.
pub const MAX_PACKET_SIZE: usize = 268435456;

/// A packet on the wire: its length, then its body.
pub open spec fn frame(p: PacketView) -> Seq<u8> {
    u32_be(encode_body(p).len() as u32) + encode_body(p)
}

/// A packet can be sent: its lengths fit the wire format and its body is at
/// most [`MAX_PACKET_SIZE`] bytes.
pub open spec fn frame_fits(p: PacketView) -> bool {
    payload_fits(p) && encode_body(p).len() <= MAX_PACKET_SIZE
}

/// What a peer reads of a sent packet: the length field gives the length of
/// the body, which is within the limit an incoming packet is checked
/// against, and the body decodes to the packet with nothing left over.
pub proof fn lemma_frame_roundtrip(p: PacketView)
    requires
        frame_fits(p),
        packet_canonical(p),
    ensures
        get_u32_spec(frame(p)) == Some((encode_body(p).len() as u32, encode_body(p))),
        encode_body(p).len() <= MAX_PACKET_SIZE,
        parse_packet(encode_body(p)) == Some((p, Seq::<u8>::empty())),
{
    lemma_get_put_u32(encode_body(p).len() as u32, encode_body(p));
    lemma_packet_roundtrip(p);
}

/// Checks a packet length against [`MAX_PACKET_SIZE`] and narrows it to the
/// `uint32` of the length field.
pub fn checked_packet_length(length: usize) -> (r: Result<u32, Error>)
    ensures
        length <= MAX_PACKET_SIZE ==> r == Ok::<u32, Error>(length as u32),
        length > MAX_PACKET_SIZE ==> is_bad_message_text(
            r,
            limit_message("length "@, length as nat, MAX_PACKET_SIZE as nat),
        ),
{
    if length > MAX_PACKET_SIZE {
        return Err(Error::BadMessage(limit_text("length ", length as u64, MAX_PACKET_SIZE as u64)));
    }
    Ok(length as u32)
}

/// Adds two lengths, refusing to wrap around.
pub fn checked_add_len(lhs: usize, rhs: usize) -> (r: Result<usize, Error>)
    ensures
        lhs + rhs <= usize::MAX ==> r == Ok::<usize, Error>((lhs + rhs) as usize),
        lhs + rhs > usize::MAX ==> crate::error::is_bad_message_text(r, "length overflow"@),
{
    match lhs.checked_add(rhs) {
        Some(n) => Ok(n),
        None => Err(Error::BadMessage("length overflow".to_owned())),
    }
}

/// The body length of a write request, checked against [`MAX_PACKET_SIZE`].
pub fn checked_write_packet_payload_len(write: &Write) -> (r: Result<usize, Error>)
    ensures
        r is Ok <==> 21 + write.handle@.len() + write.data@.len() <= MAX_PACKET_SIZE,
        r matches Ok(n) ==> n == 21 + write.handle@.len() + write.data@.len(),
        r is Err ==> is_bad_message(r),
{
    let length = checked_add_len(1, 4)?;
    let length = checked_add_len(length, 4)?;
    let length = checked_add_len(length, write.handle.len())?;
    let length = checked_add_len(length, 8)?;
    let length = checked_add_len(length, 4)?;
    let length = checked_add_len(length, write.data.len())?;
    checked_packet_length(length)?;
    Ok(length)
}

/// The body length of a data reply, checked against [`MAX_PACKET_SIZE`].
pub fn checked_data_packet_payload_len(data: &Data) -> (r: Result<usize, Error>)
    ensures
        r is Ok <==> 9 + data@.1.len() <= MAX_PACKET_SIZE,
        r matches Ok(n) ==> n == 9 + data@.1.len(),
        r is Err ==> is_bad_message(r),
{
    let length = checked_add_len(1, 4)?;
    let length = checked_add_len(length, 4)?;
    let length = checked_add_len(length, data.data.len())?;
    checked_packet_length(length)?;
    Ok(length)
}

proof fn lemma_read_body_len(v: (u32, Seq<u8>, u64, u32))
    ensures
        encode_body(PacketView::Read(v)).len() == 21 + v.1.len(),
{
}

proof fn lemma_write_body_len(v: (u32, Seq<u8>, u64, Seq<u8>))
    ensures
        encode_body(PacketView::Write(v)).len() == 21 + v.1.len() + v.3.len(),
{
}

proof fn lemma_data_body_len(v: (u32, Seq<u8>))
    ensures
        encode_body(PacketView::Data(v)).len() == 9 + v.1.len(),
{
}

/// Frames a read request directly, without building a [`Packet`].
pub fn serialize_read_packet(id: u32, handle: &[u8], offset: u64, len: u32) -> (r: Result<Vec<u8>, Error>)
    ensures
        r is Ok <==> frame_fits(PacketView::Read((id, handle@, offset, len))),
        r matches Ok(b) ==> b@ == frame(PacketView::Read((id, handle@, offset, len))),
        r is Err ==> is_bad_message(r),
{
    let ghost p = PacketView::Read((id, handle@, offset, len));
    proof {
        lemma_read_body_len((id, handle@, offset, len));
    }
    let payload_len = checked_add_len(1, 4)?;
    let payload_len = checked_add_len(payload_len, 4)?;
    let payload_len = checked_add_len(payload_len, handle.len())?;
    let payload_len = checked_add_len(payload_len, 8)?;
    let payload_len = checked_add_len(payload_len, 4)?;
    let packet_len = checked_packet_length(payload_len)?;
    let mut buf: Vec<u8> = Vec::with_capacity(4 + payload_len);
    put_u32(&mut buf, packet_len);
    put_u8(&mut buf, SSH_FXP_READ);
    put_u32(&mut buf, id);
    put_u32(&mut buf, handle.len() as u32);
    put_slice(&mut buf, handle);
    put_u64(&mut buf, offset);
    put_u32(&mut buf, len);
    assert(buf@ =~= frame(p));
    Ok(buf)
}

/// Frames a write request directly, without building a [`Packet`].
pub fn serialize_write_packet(id: u32, handle: &[u8], offset: u64, data: &[u8]) -> (r: Result<Vec<u8>, Error>)
    ensures
        r is Ok <==> frame_fits(PacketView::Write((id, handle@, offset, data@))),
        r matches Ok(b) ==> b@ == frame(PacketView::Write((id, handle@, offset, data@))),
        r is Err ==> is_bad_message(r),
{
    let ghost p = PacketView::Write((id, handle@, offset, data@));
    proof {
        lemma_write_body_len((id, handle@, offset, data@));
    }
    let write = Write {
        id,
        handle: vstd::slice::slice_to_vec(handle),
        offset,
        data: vstd::slice::slice_to_vec(data),
    };
    let payload_len = checked_write_packet_payload_len(&write)?;
    let packet_len = checked_packet_length(payload_len)?;
    let mut buf: Vec<u8> = Vec::with_capacity(4 + payload_len);
    put_u32(&mut buf, packet_len);
    put_u8(&mut buf, SSH_FXP_WRITE);
    put_u32(&mut buf, id);
    put_u32(&mut buf, handle.len() as u32);
    put_slice(&mut buf, handle);
    put_u64(&mut buf, offset);
    put_u32(&mut buf, data.len() as u32);
    put_slice(&mut buf, data);
    assert(buf@ =~= frame(p));
    Ok(buf)
}

/// Overwrites the first four bytes with a big-endian `uint32`.
fn patch_u32(buf: &mut Vec<u8>, v: u32)
    requires
        old(buf)@.len() >= 4,
    ensures
        final(buf)@ == u32_be(v) + old(buf)@.skip(4),
{
    buf.set(0, (v >> 24u32) as u8);
    buf.set(1, (v >> 16u32) as u8);
    buf.set(2, (v >> 8u32) as u8);
    buf.set(3, v as u8);
    assert(buf@ =~= u32_be(v) + old(buf)@.skip(4));
}

/// Writes `packet`, framed, into `buf` (whatever `buf` held is dropped); on
/// failure `buf` is left empty.
pub fn serialize_packet_into_buf(packet: Packet, buf: &mut Vec<u8>) -> (r: Result<(), Error>)
    ensures
        r is Ok <==> frame_fits(packet@),
        r is Ok ==> final(buf)@ == frame(packet@),
        r is Err ==> final(buf)@ == Seq::<u8>::empty() && is_bad_message(r),
{
    buf.clear();
    let capacity: usize = match &packet {
        Packet::Write(w) => {
            match checked_write_packet_payload_len(w) {
                Ok(n) => 4 + n,
                Err(e) => {
                    proof {
                        lemma_write_body_len(w@);
                    }
                    return Err(e);
                },
            }
        },
        Packet::Data(d) => {
            match checked_data_packet_payload_len(d) {
                Ok(n) => 4 + n,
                Err(e) => {
                    proof {
                        lemma_data_body_len(d@);
                    }
                    return Err(e);
                },
            }
        },
        _ => 256,
    };
    buf.reserve(capacity);
    put_u32(buf, 0);
    put_u8(buf, packet.packet_type());
    let ghost head = buf@;
    match packet.serialize_payload(buf) {
        Ok(()) => {},
        Err(e) => {
            buf.clear();
            return Err(e);
        },
    }
    assert(buf@.skip(4) =~= encode_body(packet@));
    let length = match checked_packet_length(buf.len() - 4) {
        Ok(n) => n,
        Err(e) => {
            buf.clear();
            return Err(e);
        },
    };
    patch_u32(buf, length);
    Ok(())
}

/// Writes `packet`, framed, into `buf` and returns a copy of the bytes.
pub fn serialize_packet_into(packet: Packet, buf: &mut Vec<u8>) -> (r: Result<Vec<u8>, Error>)
    ensures
        r is Ok <==> frame_fits(packet@),
        r matches Ok(b) ==> b@ == frame(packet@) && final(buf)@ == frame(packet@),
        r is Err ==> final(buf)@ == Seq::<u8>::empty() && is_bad_message(r),
{
    serialize_packet_into_buf(packet, buf)?;
    Ok(buf.clone())
}

/// A framed packet ready to send: either one buffer, or a header followed
/// by a data payload that is sent as it is, without copying it.
pub enum SerializedPacket {
    Contiguous(Vec<u8>),
    Split { header: Vec<u8>, data: DataPayload },
}

/// The bytes a serialized packet puts on the wire.
pub open spec fn serialized_bytes(s: SerializedPacket) -> Seq<u8> {
    match s {
        SerializedPacket::Contiguous(b) => b@,
        SerializedPacket::Split { header, data } => header@ + data@,
    }
}

/// Frames `packet`; a data reply is split into its 13-byte header and its
/// payload, any other packet is framed into `buf` and copied out.
pub fn serialize_packet_split(packet: Packet, buf: &mut Vec<u8>) -> (r: Result<SerializedPacket, Error>)
    ensures
        r is Ok <==> frame_fits(packet@),
        r matches Ok(s) ==> serialized_bytes(s) == frame(packet@),
        r matches Ok(s) ==> (packet is Data <==> s is Split),
        r matches Ok(SerializedPacket::Split { header, data }) ==> header@.len() == 13 && data@
            == packet@->Data_0.1 && final(buf)@ == Seq::<u8>::empty(),
        r matches Ok(SerializedPacket::Contiguous(b)) ==> final(buf)@ == b@,
        r is Err ==> is_bad_message(r),
        r is Err && packet is Data ==> final(buf)@ == old(buf)@,
        r is Err && !(packet is Data) ==> final(buf)@ == Seq::<u8>::empty(),
{
    match packet {
        Packet::Data(mut data) => {
            proof {
                lemma_data_body_len(data@);
            }
            let payload_len = checked_data_packet_payload_len(&data)?;
            let packet_len = checked_packet_length(payload_len)?;
            let data_len = data.data.len() as u32;
            buf.clear();
            buf.reserve(13);
            put_u32(buf, packet_len);
            put_u8(buf, SSH_FXP_DATA);
            put_u32(buf, data.id);
            put_u32(buf, data_len);
            if data.data.try_prepend(buf.as_slice()) {
                buf.clear();
                return Ok(SerializedPacket::Split { header: Vec::new(), data: data.data });
            }
            let header = buf.split_off(0);
            assert(header@ + data.data@ =~= frame(PacketView::Data(data@)));
            Ok(SerializedPacket::Split { header, data: data.data })
        },
        other => {
            let bytes = serialize_packet_into(other, buf)?;
            Ok(SerializedPacket::Contiguous(bytes))
        },
    }
}

} // verus!

verus! {

impl Packet {
    /// The packet, framed, in a buffer of its own.
    pub fn try_into_bytes(self) -> (r: Result<Vec<u8>, Error>)
        ensures
            r is Ok <==> frame_fits(self@),
            r matches Ok(b) ==> b@ == frame(self@),
            r is Err ==> is_bad_message(r),
    {
        let mut buf: Vec<u8> = Vec::new();
        serialize_packet_into_buf(self, &mut buf)?;
        Ok(buf)
    }
}

} // verus!

verus! {

/// How far a split packet has been sent after a vectored write of
/// `written` more bytes, when `header_done` bytes of its header and
/// `data_done` bytes of its payload had gone out: the header is completed
/// first, the rest counts against the payload.  `None` when the write took
/// nothing, which ends the sending with an error.
pub fn advance_split_write(
    header_len: usize,
    data_len: usize,
    header_done: usize,
    data_done: usize,
    written: usize,
) -> (r: Option<(usize, usize)>)
    requires
        header_done <= header_len,
        data_done <= data_len,
        written <= (header_len - header_done) + (data_len - data_done),
    ensures
        written == 0 ==> r is None,
        written > 0 ==> r == Some(
            if written <= header_len - header_done {
                ((header_done + written) as usize, data_done)
            } else {
                (header_len, (data_done + written - (header_len - header_done)) as usize)
            },
        ),
        r matches Some((h, d)) ==> h <= header_len && d <= data_len && h + d == header_done
            + data_done + written,
{
    if written == 0 {
        return None;
    }
    let header_left = header_len - header_done;
    if written <= header_left {
        Some((header_done + written, data_done))
    } else {
        Some((header_len, data_done + (written - header_left)))
    }
}

} // verus!
