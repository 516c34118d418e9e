//! `SSH_FXP_DATA`: the reply to a read.

use vstd::prelude::*;

use super::shapes::{encode_id_bytes, parse_id_bytes, read_id_bytes, write_id_bytes};
use crate::buf::Reader;
use crate::error::{is_bad_message, Error};
use crate::wire::fits_u32;

verus! {

/// The bytes a data reply carries.
#[derive(Debug, Clone)]
pub enum DataPayload {
    Bytes(Vec<u8>),
}

impl View for DataPayload {
    type V = Seq<u8>;

    open spec fn view(&self) -> Seq<u8> {
        match self {
            DataPayload::Bytes(b) => b@,
        }
    }
}

impl DataPayload {
    /// Number of bytes.
    pub fn len(&self) -> (n: usize)
        ensures
            n == self@.len(),
    {
        match self {
            DataPayload::Bytes(b) => b.len(),
        }
    }

    /// Is the payload empty?
    pub fn is_empty(&self) -> (e: bool)
        ensures
            e == (self@.len() == 0),
    {
        self.len() == 0
    }

    /// The bytes, borrowed.
    pub fn as_slice(&self) -> (s: &[u8])
        ensures
            s@ == self@,
    {
        match self {
            DataPayload::Bytes(b) => b.as_slice(),
        }
    }

    /// The bytes, owned.
    pub fn into_bytes(self) -> (b: Vec<u8>)
        ensures
            b@ == self@,
    {
        match self {
            DataPayload::Bytes(b) => b,
        }
    }

    /// Tries to put `prefix` in front of the payload without copying it; a
    /// plain byte buffer has no room reserved for that, so this never does.
    pub fn try_prepend(&mut self, prefix: &[u8]) -> (done: bool)
        ensures
            !done,
            final(self)@ == old(self)@,
    {
        false
    }

    /// Are the bytes of the two payloads the same?
    pub fn eq_bytes(&self, other: &[u8]) -> (b: bool)
        ensures
            b == (self@ == other@),
    {
        let a = self.as_slice();
        if a.len() != other.len() {
            return false;
        }
        let mut i: usize = 0;
        while i < a.len()
            invariant
                i <= a@.len(),
                a@.len() == other@.len(),
                a@ == self@,
                forall|j: int| 0 <= j < i ==> a@[j] == other@[j],
            decreases a@.len() - i,
        {
            if a[i] != other[i] {
                return false;
            }
            i = i + 1;
        }
        assert(a@ =~= other@);
        true
    }
}

impl From<Vec<u8>> for DataPayload {
    fn from(data: Vec<u8>) -> (p: DataPayload) {
        DataPayload::Bytes(data)
    }
}

impl vstd::std_specs::convert::FromSpecImpl<Vec<u8>> for DataPayload {
    open spec fn obeys_from_spec() -> bool {
        true
    }

    open spec fn from_spec(v: Vec<u8>) -> DataPayload {
        DataPayload::Bytes(v)
    }
}

/// Implementation for `SSH_FXP_DATA`
#[derive(Debug, Clone)]
pub struct Data {
    pub id: u32,
    pub data: DataPayload,
}

impl View for Data {
    type V = (u32, Seq<u8>);

    open spec fn view(&self) -> (u32, Seq<u8>) {
        (self.id, self.data@)
    }
}

impl Data {
    /// A reply carrying `data`.
    pub fn new(id: u32, data: Vec<u8>) -> (p: Data)
        ensures
            p@ == (id, data@),
    {
        Data { id, data: DataPayload::Bytes(data) }
    }

    /// Decodes the packet body that follows the type byte.
    pub fn from_bytes(input: &mut Reader) -> (r: Result<Data, Error>)
        ensures
            match parse_id_bytes(old(input)@) {
                Some((v, rest)) => r matches Ok(p) && p@ == v && final(input)@ == rest,
                None => is_bad_message(r),
            },
    {
        let (id, data) = read_id_bytes(input)?;
        Ok(Data { id, data: DataPayload::Bytes(data) })
    }

    /// Appends the packet body; fails, writing nothing, when the payload is
    /// too long for the wire format.
    pub fn serialize_into(&self, out: &mut Vec<u8>) -> (r: Result<(), Error>)
        ensures
            r is Ok <==> fits_u32(self@.1),
            r is Ok ==> final(out)@ == old(out)@ + encode_id_bytes(self@),
            r is Err ==> final(out)@ == old(out)@ && is_bad_message(r),
    {
        write_id_bytes(out, self.id, self.data.as_slice())
    }
}

} // verus!
