//! The decisions of the server's request loop: which packets are served,
//! what answers one that is not, when the loop goes on, and when the write
//! buffer is given back to the allocator.

use vstd::prelude::*;

use crate::buf::Reader;
use crate::error::Error;
use crate::protocol::packet::{is_request, parse_packet, Packet, PacketView};
use crate::protocol::status::{status_code_text, StatusCode};

verus! {

/// The capacity of a fresh read or write buffer: 32 KiB.
pub const PACKET_BUF_CAPACITY: usize = 32768;

/// A write buffer that has grown past this (256 KiB) is replaced by a fresh
/// one after a response.
pub const MAX_REUSABLE_WRITE_BUF_SIZE: usize = 262144;

/// The answer to a packet the server cannot serve: a `BadMessage` status
/// with id 0.
pub open spec fn bad_message_reply() -> PacketView {
    PacketView::Status((0, StatusCode::BadMessage, status_code_text(StatusCode::BadMessage), "en-US"@))
}

/// Decodes an incoming packet as a request for the handler.  A packet that
/// does not decode, or that is a reply rather than a request, is answered
/// with [`bad_message_reply`], which comes back as the error.
pub fn decode_request(bytes: &[u8]) -> (r: Result<Packet, Packet>)
    ensures
        r is Ok <==> (parse_packet(bytes@) matches Some((v, _)) && is_request(v)),
        r matches Ok(p) ==> (parse_packet(bytes@) matches Some((v, _)) && p@ == v),
        r matches Err(e) ==> e@ == bad_message_reply(),
{
    let mut input = Reader::new(bytes);
    match Packet::try_from_buf(&mut input) {
        Ok(p) => {
            if p.is_request() {
                Ok(p)
            } else {
                Err(Packet::error(0, StatusCode::BadMessage))
            }
        },
        Err(_) => Err(Packet::error(0, StatusCode::BadMessage)),
    }
}

/// The reply to a request that the handler answered: its packet, or, when it
/// refused the request, an error status with the request's id.
pub fn reply_packet(id: u32, result: Result<Packet, StatusCode>) -> (p: Packet)
    ensures
        result matches Ok(q) ==> p == q,
        result matches Err(c) ==> p@ == PacketView::Status(
            (id, c, status_code_text(c), "en-US"@),
        ),
{
    match result {
        Ok(q) => q,
        Err(c) => Packet::error(id, c),
    }
}

/// Does the request loop go on after this round?  Only while rounds
/// succeed: the end of the stream, or any other error, ends it.
pub fn keep_serving(result: Result<(), Error>) -> (r: bool)
    ensures
        r == result is Ok,
{
    match result {
        Err(Error::UnexpectedEof) => false,
        Err(_) => false,
        Ok(_) => true,
    }
}

/// Has a write buffer of this capacity grown too large to keep?
pub fn write_buf_oversized(capacity: usize) -> (r: bool)
    ensures
        r == (capacity > MAX_REUSABLE_WRITE_BUF_SIZE),
{
    capacity > MAX_REUSABLE_WRITE_BUF_SIZE
}

/// Empties the write buffer after a response, replacing it with a fresh one
/// of [`PACKET_BUF_CAPACITY`] when it has grown too large to keep.
pub fn reset_write_buf_if_oversized(write_buf: &mut Vec<u8>)
    ensures
        final(write_buf)@ == Seq::<u8>::empty(),
{
    if write_buf_oversized(vec_capacity(write_buf)) {
        *write_buf = Vec::with_capacity(PACKET_BUF_CAPACITY);
    } else {
        write_buf.clear();
    }
}

/// Calls `Vec::capacity`.  Trusted: std documents that the capacity is at
/// least the length; what more the allocator gave is not stated.
#[verifier::external_body]
fn vec_capacity(v: &Vec<u8>) -> (c: usize)
    ensures
        c >= v@.len(),
{
    v.capacity()
}

} // verus!
