//! The decisions of the client's packet loop: which incoming packets reach
//! the handler, when the read half stops, and when the write half shuts the
//! stream down.

use vstd::prelude::*;

use crate::buf::Reader;
use crate::error::{is_bad_message, Error};
use crate::protocol::by_handle::Handle;
use crate::protocol::data::Data;
use crate::protocol::extended::ExtendedReply;
use crate::protocol::name::{Attrs, Name};
use crate::protocol::packet::{is_request, parse_packet, Packet, PacketView};
use crate::protocol::status::Status;
use crate::protocol::version::Version;

verus! {

/// The text of the error for a packet that a client cannot process.
pub open spec fn unprocessable_text() -> Seq<char> {
    "A packet was received that could not be processed."@
}

/// A packet that a server sends.
#[derive(Debug)]
pub enum Reply {
    Version(Version),
    Status(Status),
    Handle(Handle),
    Data(Data),
    Name(Name),
    Attrs(Attrs),
    ExtendedReply(ExtendedReply),
}

impl View for Reply {
    type V = PacketView;

    open spec fn view(&self) -> PacketView {
        match self {
            Reply::Version(p) => PacketView::Version(p@),
            Reply::Status(p) => PacketView::Status(p@),
            Reply::Handle(p) => PacketView::Handle(p@),
            Reply::Data(p) => PacketView::Data(p@),
            Reply::Name(p) => PacketView::Name(p@),
            Reply::Attrs(p) => PacketView::Attrs(p@),
            Reply::ExtendedReply(p) => PacketView::ExtendedReply(p@),
        }
    }
}

/// Decodes an incoming packet as a reply for the handler.  A packet that
/// does not decode fails with the decoding error; a request, which a server
/// never sends, fails with `UnexpectedBehavior`.
pub fn decode_reply(bytes: &[u8]) -> (r: Result<Reply, Error>)
    ensures
        parse_packet(bytes@) is None ==> is_bad_message(r),
        parse_packet(bytes@) matches Some((v, _)) ==> if is_request(v) {
            r matches Err(Error::UnexpectedBehavior(m)) && m@ == unprocessable_text()
        } else {
            r matches Ok(p) && p@ == v
        },
{
    let mut input = Reader::new(bytes);
    match Packet::try_from_buf(&mut input)? {
        Packet::Version(p) => Ok(Reply::Version(p)),
        Packet::Status(p) => Ok(Reply::Status(p)),
        Packet::Handle(p) => Ok(Reply::Handle(p)),
        Packet::Data(p) => Ok(Reply::Data(p)),
        Packet::Name(p) => Ok(Reply::Name(p)),
        Packet::Attrs(p) => Ok(Reply::Attrs(p)),
        Packet::ExtendedReply(p) => Ok(Reply::ExtendedReply(p)),
        _ => Err(
            Error::UnexpectedBehavior(
                "A packet was received that could not be processed.".to_owned(),
            ),
        ),
    }
}

/// Does the read half go on after a round?  Only the end of the stream
/// stops it; other errors are reported and reading goes on.
pub fn reader_continues(result: &Result<(), Error>) -> (r: bool)
    ensures
        r == !(result matches Err(Error::UnexpectedEof)),
{
    match result {
        Err(Error::UnexpectedEof) => false,
        _ => true,
    }
}

/// Is this outgoing message the request to shut the stream down (an empty
/// one) rather than bytes to write?
pub fn is_shutdown_request(data: &[u8]) -> (r: bool)
    ensures
        r == (data@.len() == 0),
{
    data.len() == 0
}

} // verus!
