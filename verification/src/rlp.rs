//! RLP (recursive length prefix) encoding.
//!
//! Only what the engine serializes is needed: byte strings, unsigned
//! integers (shortest big-endian form), and lists of already-encoded
//! payloads.  The spec functions define the byte format; the executable
//! builders are proved to produce exactly those bytes.

use vstd::prelude::*;

use crate::bytes::{min_be, pow256};
use crate::u256::U256;

verus! {

/// The RLP encoding of a byte string.
pub open spec fn rlp_str_of(b: Seq<u8>) -> Seq<u8> {
    if b.len() == 1 && b[0] < 0x80 {
        b
    } else if b.len() <= 55 {
        seq![(0x80 + b.len()) as u8] + b
    } else {
        seq![(0xb7 + min_be(b.len() as nat).len()) as u8] + min_be(b.len() as nat) + b
    }
}

/// The RLP encoding of an unsigned integer: its shortest big-endian
/// form encoded as a byte string.
pub open spec fn rlp_uint_of(n: nat) -> Seq<u8> {
    rlp_str_of(min_be(n))
}

/// The RLP list header wrapped around an already-encoded payload.
pub open spec fn rlp_list_of(payload: Seq<u8>) -> Seq<u8> {
    if payload.len() <= 55 {
        seq![(0xc0 + payload.len()) as u8] + payload
    } else {
        seq![(0xf7 + min_be(payload.len() as nat).len()) as u8] + min_be(payload.len() as nat)
            + payload
    }
}

/// A number below 256^k has a shortest encoding of at most k bytes.
pub proof fn lemma_min_be_len(n: nat, k: nat)
    requires
        n < pow256(k),
    ensures
        min_be(n).len() <= k,
    decreases k,
{
    if n == 0 {
    } else {
        if k == 0 {
        } else {
            assert(n / 256 < pow256((k - 1) as nat)) by (nonlinear_arith)
                requires
                    n < 256 * pow256((k - 1) as nat),
            ;
            lemma_min_be_len(n / 256, (k - 1) as nat);
        }
    }
}

/// Any machine-sized length is below 256^8.
pub proof fn lemma_usize_len_small(n: usize)
    ensures
        (n as nat) < pow256(8),
{
    reveal_with_fuel(pow256, 9);
}

/// Append raw bytes.
pub fn append_bytes(out: &mut Vec<u8>, b: &Vec<u8>)
    ensures
        final(out)@ == old(out)@ + b@,
{
    let ghost start = out@;
    let mut i: usize = 0;
    while i < b.len()
        invariant
            i <= b@.len(),
            out@ == start + b@.subrange(0, i as int),
        decreases b@.len() - i,
    {
        out.push(b[i]);
        proof {
            assert(start + b@.subrange(0, i + 1) =~= (start + b@.subrange(0, i as int)).push(
                b@[i as int],
            ));
        }
        i += 1;
    }
    proof {
        assert(b@.subrange(0, b@.len() as int) =~= b@);
    }
}

/// Append the RLP encoding of a byte string.
pub fn append_str(out: &mut Vec<u8>, b: &Vec<u8>)
    ensures
        final(out)@ == old(out)@ + rlp_str_of(b@),
{
    if b.len() == 1 && b[0] < 0x80 {
        out.push(b[0]);
        proof {
            assert(old(out)@.push(b@[0]) =~= old(out)@ + b@);
        }
    } else if b.len() <= 55 {
        let tag: u8 = 0x80 + (b.len() as u8);
        out.push(tag);
        append_bytes(out, b);
        proof {
            assert(old(out)@.push(tag) + b@ =~= old(out)@ + (seq![(0x80 + b@.len()) as u8] + b@));
        }
    } else {
        let len_bytes = U256::from_u128(b.len() as u128).to_min_be_bytes();
        proof {
            lemma_usize_len_small(b.len());
            lemma_min_be_len(b@.len(), 8);
        }
        let tag: u8 = 0xb7 + (len_bytes.len() as u8);
        out.push(tag);
        append_bytes(out, &len_bytes);
        append_bytes(out, b);
        proof {
            assert(old(out)@.push(tag) + len_bytes@ + b@ =~= old(out)@ + (seq![(0xb7 + min_be(
                b@.len() as nat,
            ).len()) as u8] + min_be(b@.len() as nat) + b@));
        }
    }
}

/// Append the RLP encoding of an unsigned 256-bit integer.
pub fn append_uint(out: &mut Vec<u8>, v: &U256)
    ensures
        final(out)@ == old(out)@ + rlp_uint_of(v@),
{
    let m = v.to_min_be_bytes();
    append_str(out, &m);
}

/// Append the RLP list header and an already-encoded payload.
pub fn append_list_payload(out: &mut Vec<u8>, payload: &Vec<u8>)
    ensures
        final(out)@ == old(out)@ + rlp_list_of(payload@),
{
    if payload.len() <= 55 {
        let tag: u8 = 0xc0 + (payload.len() as u8);
        out.push(tag);
        append_bytes(out, payload);
        proof {
            assert(old(out)@.push(tag) + payload@ =~= old(out)@ + (seq![(0xc0
                + payload@.len()) as u8] + payload@));
        }
    } else {
        let len_bytes = U256::from_u128(payload.len() as u128).to_min_be_bytes();
        proof {
            lemma_usize_len_small(payload.len());
            lemma_min_be_len(payload@.len(), 8);
        }
        let tag: u8 = 0xf7 + (len_bytes.len() as u8);
        out.push(tag);
        append_bytes(out, &len_bytes);
        append_bytes(out, payload);
        proof {
            assert(old(out)@.push(tag) + len_bytes@ + payload@ =~= old(out)@ + (seq![(0xf7
                + min_be(payload@.len() as nat).len()) as u8] + min_be(payload@.len() as nat)
                + payload@));
        }
    }
}

/// The RLP encoding of a whole list given its encoded payload.
pub fn encode_list_payload(payload: &Vec<u8>) -> (r: Vec<u8>)
    ensures
        r@ == rlp_list_of(payload@),
{
    let mut out: Vec<u8> = Vec::new();
    append_list_payload(&mut out, payload);
    proof {
        assert(Seq::<u8>::empty() + rlp_list_of(payload@) =~= rlp_list_of(payload@));
    }
    out
}

} // verus!
