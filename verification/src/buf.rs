//! A read cursor over a received packet, with the checked reads of the wire
//! format's primitives.

use vstd::prelude::*;
use vstd::utf8::valid_utf8;

use crate::error::{is_bad_message, Error};
use crate::text::{decimal_chars, decimal_text, string_from_utf8_lossy};
use vstd::string::StringExecFns;
use crate::wire::{get_bytes_spec, get_string_spec, get_u32_spec, get_u64_spec, get_u8_spec};

verus! {

broadcast use vstd::utf8::group_utf8_lib;

/// A cursor over packet bytes; its view is the part not read yet.
pub struct Reader<'a> {
    data: &'a [u8],
    pos: usize,
}

impl<'a> View for Reader<'a> {
    type V = Seq<u8>;

    closed spec fn view(&self) -> Seq<u8> {
        self.data@.skip(self.pos as int)
    }
}

/// The text of the error a short read raises, in the words of the `bytes`
/// crate.
pub open spec fn not_enough_text(requested: nat, available: nat) -> Seq<char> {
    "Not enough bytes remaining in buffer to read value (requested "@ + decimal_chars(requested)
        + " but only "@ + decimal_chars(available) + " available)"@
}

/// The error a short read raises, in the words of the `bytes` crate.
fn not_enough(requested: usize, available: usize) -> (e: Error)
    ensures
        e matches Error::BadMessage(m) && m@ == not_enough_text(requested as nat, available as nat),
{
    let mut msg = "Not enough bytes remaining in buffer to read value (requested ".to_owned();
    let a = decimal_text(requested as u64);
    msg.append(a.as_str());
    msg.append(" but only ");
    let b = decimal_text(available as u64);
    msg.append(b.as_str());
    msg.append(" available)");
    Error::BadMessage(msg)
}

impl<'a> Reader<'a> {
    #[verifier::type_invariant]
    closed spec fn inv(self) -> bool {
        self.pos <= self.data@.len()
    }

    /// A cursor at the start of `data`.
    pub fn new(data: &'a [u8]) -> (r: Reader<'a>)
        ensures
            r@ == data@,
    {
        let r = Reader { data, pos: 0 };
        assert(data@.skip(0) =~= data@);
        r
    }

    /// Number of bytes not read yet.
    pub fn remaining(&self) -> (n: usize)
        ensures
            n == self@.len(),
    {
        proof {
            use_type_invariant(self);
        }
        self.data.len() - self.pos
    }

    /// Are there bytes left to read?
    pub fn has_remaining(&self) -> (b: bool)
        ensures
            b == (self@.len() > 0),
    {
        self.remaining() > 0
    }

    /// The bytes not read yet, without consuming them.
    pub fn chunk(&self) -> (s: &'a [u8])
        ensures
            s@ == self@,
    {
        proof {
            use_type_invariant(self);
        }
        vstd::slice::slice_subrange(self.data, self.pos, self.data.len())
    }

    /// Reads one byte.
    pub fn try_get_u8(&mut self) -> (r: Result<u8, Error>)
        ensures
            match get_u8_spec(old(self)@) {
                Some((v, rest)) => r == Ok::<u8, Error>(v) && final(self)@ == rest,
                None => is_bad_message(r) && final(self)@ == old(self)@,
            },
    {
        proof {
            use_type_invariant(&*self);
        }
        if self.data.len() - self.pos < 1 {
            return Err(not_enough(1, self.data.len() - self.pos));
        }
        let v = self.data[self.pos];
        self.pos = self.pos + 1;
        assert(self@ =~= old(self)@.skip(1));
        Ok(v)
    }

    /// Reads a big-endian `uint32`.
    pub fn try_get_u32(&mut self) -> (r: Result<u32, Error>)
        ensures
            match get_u32_spec(old(self)@) {
                Some((v, rest)) => r == Ok::<u32, Error>(v) && final(self)@ == rest,
                None => is_bad_message(r) && final(self)@ == old(self)@,
            },
    {
        proof {
            use_type_invariant(&*self);
        }
        if self.data.len() - self.pos < 4 {
            return Err(not_enough(4, self.data.len() - self.pos));
        }
        let p = self.pos;
        let v = ((self.data[p] as u32) << 24u32) | ((self.data[p + 1] as u32) << 16u32) | ((
        self.data[p + 2] as u32) << 8u32) | (self.data[p + 3] as u32);
        self.pos = p + 4;
        assert(self@ =~= old(self)@.skip(4));
        Ok(v)
    }

    /// Reads a big-endian `uint64`.
    pub fn try_get_u64(&mut self) -> (r: Result<u64, Error>)
        ensures
            match get_u64_spec(old(self)@) {
                Some((v, rest)) => r == Ok::<u64, Error>(v) && final(self)@ == rest,
                None => is_bad_message(r) && final(self)@ == old(self)@,
            },
    {
        proof {
            use_type_invariant(&*self);
        }
        if self.data.len() - self.pos < 8 {
            return Err(not_enough(8, self.data.len() - self.pos));
        }
        let p = self.pos;
        let d = self.data;
        let v = ((d[p] as u64) << 56u64) | ((d[p + 1] as u64) << 48u64) | ((d[p + 2] as u64)
            << 40u64) | ((d[p + 3] as u64) << 32u64) | ((d[p + 4] as u64) << 24u64) | ((d[p
            + 5] as u64) << 16u64) | ((d[p + 6] as u64) << 8u64) | (d[p + 7] as u64);
        self.pos = p + 8;
        assert(self@ =~= old(self)@.skip(8));
        Ok(v)
    }

    /// Takes the next `n` bytes.
    pub fn copy_to_vec(&mut self, n: usize) -> (v: Vec<u8>)
        requires
            n <= old(self)@.len(),
        ensures
            v@ == old(self)@.take(n as int),
            final(self)@ == old(self)@.skip(n as int),
    {
        proof {
            use_type_invariant(&*self);
        }
        let p = self.pos;
        let total = self.data.len();
        assert(self@.len() == total - p);
        let s = vstd::slice::slice_subrange(self.data, p, p + n);
        let v = vstd::slice::slice_to_vec(s);
        self.pos = p + n;
        assert(v@ =~= old(self)@.take(n as int));
        assert(self@ =~= old(self)@.skip(n as int));
        v
    }

    /// Takes everything not read yet.
    pub fn take_remaining(&mut self) -> (v: Vec<u8>)
        ensures
            v@ == old(self)@,
            final(self)@ == Seq::<u8>::empty(),
    {
        let n = self.remaining();
        let v = self.copy_to_vec(n);
        assert(old(self)@.take(n as int) =~= old(self)@);
        assert(self@ =~= Seq::<u8>::empty());
        v
    }
}

/// Checked reads of length-prefixed strings on top of the primitive reads.
pub trait TryBuf {
    /// The bytes not read yet.
    spec fn unread(&self) -> Seq<u8>;

    /// Reads a length-prefixed byte string.
    fn try_get_bytes(&mut self) -> (r: Result<Vec<u8>, Error>)
        ensures
            match get_bytes_spec(old(self).unread()) {
                Some((b, rest)) => r matches Ok(v) && v@ == b && final(self).unread() == rest,
                None => is_bad_message(r) && match get_u32_spec(old(self).unread()) {
                    Some((_, after_len)) => final(self).unread() == after_len,
                    None => final(self).unread() == old(self).unread(),
                },
            },
    ;

    /// Reads a length-prefixed string, decoding invalid UTF-8 lossily.
    fn try_get_string(&mut self) -> (r: Result<String, Error>)
        ensures
            match get_string_spec(old(self).unread()) {
                Some((c, rest)) => r matches Ok(s) && s@ == c && final(self).unread() == rest,
                None => is_bad_message(r),
            },
            get_bytes_spec(old(self).unread()) matches Some((b, _)) ==> (!valid_utf8(b) ==> (
            r matches Ok(s) && s@.contains('\u{FFFD}'))),
    ;
}

impl<'a> TryBuf for Reader<'a> {
    open spec fn unread(&self) -> Seq<u8> {
        self@
    }

    fn try_get_bytes(&mut self) -> (r: Result<Vec<u8>, Error>) {
        let len = self.try_get_u32()?;
        let len = len as usize;
        if self.remaining() < len {
            return Err(Error::BadMessage("no remaining for bytes".to_owned()));
        }
        Ok(self.copy_to_vec(len))
    }

    fn try_get_string(&mut self) -> (r: Result<String, Error>) {
        let bytes = self.try_get_bytes()?;
        Ok(string_from_utf8_lossy(bytes.as_slice()))
    }
}

} // verus!
