//! `SSH_FXP_EXTENDED` requests and `SSH_FXP_EXTENDED_REPLY` replies, whose
//! data runs to the end of the packet.

use vstd::prelude::*;

use super::shapes::{encode_id_text, lemma_id_text, parse_id_text, read_id_text, write_id_text};
use crate::buf::Reader;
use crate::error::{is_bad_message, Error};
use crate::wire::{get_u32_spec, lemma_get_put_u32, put_slice, put_u32, text_fits, u32_be};

verus! {

/// Takes every byte left in the packet.
pub fn remaining_to_vec(input: &mut Reader) -> (v: Vec<u8>)
    ensures
        v@ == old(input)@,
        final(input)@ == Seq::<u8>::empty(),
{
    input.take_remaining()
}

/// Layout `uint32 id, string request, data to the end of the packet`.
pub open spec fn parse_extended(s: Seq<u8>) -> Option<((u32, Seq<char>, Seq<u8>), Seq<u8>)> {
    match parse_id_text(s) {
        None => None,
        Some(((id, request), s2)) => Some(((id, request, s2), Seq::empty())),
    }
}

pub open spec fn encode_extended(v: (u32, Seq<char>, Seq<u8>)) -> Seq<u8> {
    encode_id_text((v.0, v.1)) + v.2
}

pub proof fn lemma_extended(v: (u32, Seq<char>, Seq<u8>))
    requires
        text_fits(v.1),
    ensures
        parse_extended(encode_extended(v)) == Some((v, Seq::<u8>::empty())),
{
    lemma_id_text((v.0, v.1), v.2);
}

/// Implementation for `SSH_FXP_EXTENDED`
#[derive(Debug, Clone)]
pub struct Extended {
    pub id: u32,
    pub request: String,
    pub data: Vec<u8>,
}

impl View for Extended {
    type V = (u32, Seq<char>, Seq<u8>);

    open spec fn view(&self) -> (u32, Seq<char>, Seq<u8>) {
        (self.id, self.request@, self.data@)
    }
}

impl Extended {
    /// Decodes the packet body that follows the type byte.
    pub fn from_bytes(input: &mut Reader) -> (r: Result<Extended, Error>)
        ensures
            match parse_extended(old(input)@) {
                Some((v, rest)) => r matches Ok(p) && p@ == v && final(input)@ == rest,
                None => is_bad_message(r),
            },
    {
        let (id, request) = read_id_text(input)?;
        let data = remaining_to_vec(input);
        Ok(Extended { id, request, data })
    }

    /// Appends the packet body (the data without a length); fails, writing
    /// nothing, when the request name is too long for the wire format.
    pub fn serialize_into(&self, out: &mut Vec<u8>) -> (r: Result<(), Error>)
        ensures
            r is Ok <==> text_fits(self@.1),
            r is Ok ==> final(out)@ == old(out)@ + encode_extended(self@),
            r is Err ==> final(out)@ == old(out)@ && is_bad_message(r),
    {
        write_id_text(out, self.id, self.request.as_str())?;
        put_slice(out, self.data.as_slice());
        assert(out@ =~= old(out)@ + encode_extended(self@));
        Ok(())
    }
}

/// Layout `uint32 id, data to the end of the packet`.
pub open spec fn parse_extended_reply(s: Seq<u8>) -> Option<((u32, Seq<u8>), Seq<u8>)> {
    match get_u32_spec(s) {
        None => None,
        Some((id, s1)) => Some(((id, s1), Seq::empty())),
    }
}

pub open spec fn encode_extended_reply(v: (u32, Seq<u8>)) -> Seq<u8> {
    u32_be(v.0) + v.1
}

pub proof fn lemma_extended_reply(v: (u32, Seq<u8>))
    ensures
        parse_extended_reply(encode_extended_reply(v)) == Some((v, Seq::<u8>::empty())),
{
    lemma_get_put_u32(v.0, v.1);
}

/// Implementation for `SSH_FXP_EXTENDED_REPLY`
#[derive(Debug, Clone)]
pub struct ExtendedReply {
    pub id: u32,
    pub data: Vec<u8>,
}

impl View for ExtendedReply {
    type V = (u32, Seq<u8>);

    open spec fn view(&self) -> (u32, Seq<u8>) {
        (self.id, self.data@)
    }
}

impl ExtendedReply {
    /// Decodes the packet body that follows the type byte.
    pub fn from_bytes(input: &mut Reader) -> (r: Result<ExtendedReply, Error>)
        ensures
            match parse_extended_reply(old(input)@) {
                Some((v, rest)) => r matches Ok(p) && p@ == v && final(input)@ == rest,
                None => is_bad_message(r),
            },
    {
        let id = input.try_get_u32()?;
        let data = remaining_to_vec(input);
        Ok(ExtendedReply { id, data })
    }

    /// Appends the packet body (the data without a length).
    pub fn serialize_into(&self, out: &mut Vec<u8>)
        ensures
            final(out)@ == old(out)@ + encode_extended_reply(self@),
    {
        put_u32(out, self.id);
        put_slice(out, self.data.as_slice());
        assert(out@ =~= old(out)@ + encode_extended_reply(self@));
    }
}

} // verus!
