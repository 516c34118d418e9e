//! The rules by which incoming packets are read: the length check, the
//! choice between the reusable read buffer and a buffer of its own, and how
//! much the reusable buffer may grow.

use vstd::prelude::*;
use vstd::arithmetic::power2::{
    lemma2_to64, lemma_pow2_pos, lemma_pow2_strictly_increases, lemma_pow2_unfold, pow2,
};

use crate::error::{is_bad_message_text, Error};
use crate::protocol::framing::MAX_PACKET_SIZE;
use crate::text::{limit_message, limit_text};

verus! {

/// The largest packet read through the reusable buffer, and the most that
/// buffer grows to: 256 KiB.
pub const MAX_REUSABLE_PACKET_SIZE: usize = 262144;

/// The smallest of `p`, `2p`, `4p`, ... that is at least `n` (`p` itself when
/// `p` is 0).
pub open spec fn pow2_at_least(n: nat, p: nat) -> nat
    decreases if p >= n { 0 } else { n - p },
{
    if p == 0 || p >= n {
        p
    } else {
        pow2_at_least(n, 2 * p)
    }
}

/// The capacity the reusable buffer is given for a packet of `length`
/// bytes: none for an empty packet, else the smallest power of two that
/// holds it, at most [`MAX_REUSABLE_PACKET_SIZE`].
pub open spec fn spec_reusable_capacity(length: nat) -> nat {
    if length == 0 {
        0
    } else if pow2_at_least(length, 1) <= MAX_REUSABLE_PACKET_SIZE {
        pow2_at_least(length, 1)
    } else {
        MAX_REUSABLE_PACKET_SIZE as nat
    }
}

/// Is `n` a power of two?
pub open spec fn is_power_of_two(n: nat) -> bool {
    exists|k: nat| pow2(k) == n
}

proof fn lemma_pow2_at_least_shape(n: nat, p: nat, k: nat)
    requires
        p == pow2(k),
    ensures
        pow2_at_least(n, p) >= n,
        p < n ==> pow2_at_least(n, p) < 2 * n,
        is_power_of_two(pow2_at_least(n, p)),
    decreases if p >= n { 0 } else { n - p },
{
    lemma_pow2_pos(k);
    if p < n {
        lemma_pow2_unfold(k + 1);
        lemma_pow2_at_least_shape(n, 2 * p, k + 1);
    } else {
        assert(pow2(k) == pow2_at_least(n, p));
    }
}

/// The reusable capacity for a packet is no capacity for an empty one; for
/// one that fits the reusable limit, a power of two that holds it and is less
/// than twice its length; for a larger one, the limit itself.
pub proof fn lemma_reusable_capacity_shape(length: nat)
    ensures
        length == 0 ==> spec_reusable_capacity(length) == 0,
        0 < length <= MAX_REUSABLE_PACKET_SIZE ==> {
            let c = spec_reusable_capacity(length);
            &&& length <= c < 2 * length
            &&& c <= MAX_REUSABLE_PACKET_SIZE
            &&& is_power_of_two(c)
        },
        length > MAX_REUSABLE_PACKET_SIZE ==> spec_reusable_capacity(length)
            == MAX_REUSABLE_PACKET_SIZE,
{
    lemma2_to64();
    lemma_pow2_at_least_shape(length, 1, 0);
    if 0 < length <= MAX_REUSABLE_PACKET_SIZE {
        let c = pow2_at_least(length, 1);
        if c > MAX_REUSABLE_PACKET_SIZE {
            let k = choose|k: nat| pow2(k) == c;
            if k <= 18 {
                if k < 18 {
                    lemma_pow2_strictly_increases(k, 18);
                }
            } else {
                lemma_pow2_strictly_increases(18, k);
                lemma_pow2_unfold(k);
                lemma_pow2_strictly_increases(18, (k - 1) as nat);
            }
        }
    } else if length > MAX_REUSABLE_PACKET_SIZE {
        assert(pow2_at_least(length, 1) >= length);
    }
}

proof fn lemma_pow2_at_least_ge(n: nat, p: nat)
    ensures
        pow2_at_least(n, p) >= p,
        p > 0 ==> pow2_at_least(n, p) >= n,
    decreases if p >= n { 0 } else { n - p },
{
    if p != 0 && p < n {
        lemma_pow2_at_least_ge(n, 2 * p);
    }
}

/// The capacity the reusable read buffer is given for a packet of `length`
/// bytes.
pub fn reusable_capacity_for(length: usize) -> (r: usize)
    ensures
        r == spec_reusable_capacity(length as nat),
{
    if length == 0 {
        return 0;
    }
    let mut p: usize = 1;
    let ghost mut k: nat = 0;
    proof {
        lemma2_to64();
    }
    while p < length && p < MAX_REUSABLE_PACKET_SIZE
        invariant
            p == pow2(k),
            k <= 18,
            pow2(18) == MAX_REUSABLE_PACKET_SIZE,
            pow2_at_least(length as nat, p as nat) == pow2_at_least(length as nat, 1),
        decreases MAX_REUSABLE_PACKET_SIZE - p,
    {
        proof {
            if k >= 18 {
                if k > 18 {
                    lemma_pow2_strictly_increases(18, k);
                }
            }
            lemma_pow2_unfold(k + 1);
            lemma_pow2_pos(k);
            if k + 1 < 18 {
                lemma_pow2_strictly_increases(k + 1, 18);
            }
        }
        p = p * 2;
        proof {
            k = k + 1;
        }
    }
    proof {
        lemma_pow2_at_least_ge(length as nat, p as nat);
        if k < 18 {
            lemma_pow2_strictly_increases(k, 18);
        }
    }
    p
}

/// The capacity reserved before a packet of `length` bytes is read into a
/// buffer: the reusable capacity, or the length itself when that is more.
pub fn payload_capacity(length: usize) -> (r: usize)
    ensures
        r == if spec_reusable_capacity(length as nat) >= length {
            spec_reusable_capacity(length as nat)
        } else {
            length as nat
        },
{
    let c = reusable_capacity_for(length);
    if c >= length {
        c
    } else {
        length
    }
}

/// Checks the length field of an incoming packet against
/// [`MAX_PACKET_SIZE`].
pub fn check_incoming_length(length: u32) -> (r: Result<usize, Error>)
    ensures
        length <= MAX_PACKET_SIZE ==> r == Ok::<usize, Error>(length as usize),
        length > MAX_PACKET_SIZE ==> is_bad_message_text(
            r,
            limit_message("packet length "@, length as nat, MAX_PACKET_SIZE as nat),
        ),
{
    if length as usize > MAX_PACKET_SIZE {
        return Err(
            Error::BadMessage(limit_text("packet length ", length as u64, MAX_PACKET_SIZE as u64)),
        );
    }
    Ok(length as usize)
}

/// Is a packet of `length` bytes read through the reusable buffer (rather
/// than into a buffer of its own)?
pub fn uses_reusable_buffer(length: usize) -> (r: bool)
    ensures
        r == (length <= MAX_REUSABLE_PACKET_SIZE),
{
    length <= MAX_REUSABLE_PACKET_SIZE
}

/// Accounts for one read from the stream while a payload of `length` bytes
/// fills, `filled` of them so far: a read of nothing means the stream ended
/// in the middle of the packet.
pub fn payload_progress(filled: usize, read: usize, length: usize) -> (r: Result<usize, Error>)
    requires
        filled + read <= length,
    ensures
        read == 0 ==> r matches Err(Error::UnexpectedEof),
        read > 0 ==> r == Ok::<usize, Error>((filled + read) as usize),
{
    if read == 0 {
        return Err(Error::UnexpectedEof);
    }
    Ok(filled + read)
}

} // verus!
