//! The 2048-bit log bloom filter.
//!
//! Accruing an input sets three filter bits derived from slices of its
//! Keccak-256 digest; membership tests those three bits.  The filter can
//! say "absent" with certainty but "present" only probabilistically.

use vstd::prelude::*;

use crate::bytes::clone_bytes;
use crate::hashing::{keccak256, keccak256_of};
use crate::types::{Log, LogV};

verus! {

/// A 2048-bit filter stored as 256 bytes.
#[derive(Debug)]
pub struct Bloom {
    pub bits: Vec<u8>,
}

impl View for Bloom {
    type V = Seq<u8>;

    open spec fn view(&self) -> Seq<u8> {
        self.bits@
    }
}

pub open spec fn bloom_wf(b: Seq<u8>) -> bool {
    b.len() == 256
}

/// The empty filter.
pub open spec fn zero_bloom() -> Seq<u8> {
    Seq::new(256, |i: int| 0u8)
}

/// Whether filter bit `i` is set; bit `i` lives in byte `255 - i / 8`.
pub open spec fn bit_set(b: Seq<u8>, i: nat) -> bool {
    (b[255 - i / 8] >> ((i % 8) as u8)) & 1u8 == 1u8
}

/// The `k`-th (of three) filter bit position derived from a digest: the
/// low eleven bits of the big-endian pair at offset `2k`.
pub open spec fn digest_bit(d: Seq<u8>, k: int) -> nat {
    ((d[2 * k] as nat) % 8) * 256 + (d[2 * k + 1] as nat)
}

/// `b` with filter bit `i` set.
pub open spec fn with_bit(b: Seq<u8>, i: nat) -> Seq<u8> {
    b.update(255 - i / 8, b[255 - i / 8] | (1u8 << ((i % 8) as u8)))
}

/// `b` after accruing one digest: its three derived bits set.
pub open spec fn accrue_digest(b: Seq<u8>, d: Seq<u8>) -> Seq<u8> {
    with_bit(with_bit(with_bit(b, digest_bit(d, 0)), digest_bit(d, 1)), digest_bit(d, 2))
}

/// `b` after accruing one raw input.
pub open spec fn accrue_input(b: Seq<u8>, input: Seq<u8>) -> Seq<u8> {
    accrue_digest(b, keccak256_of(input))
}

/// The membership test: all three bits derived from the digest are set.
pub open spec fn digest_in_bloom(b: Seq<u8>, d: Seq<u8>) -> bool {
    &&& bit_set(b, digest_bit(d, 0))
    &&& bit_set(b, digest_bit(d, 1))
    &&& bit_set(b, digest_bit(d, 2))
}

/// `b` after accruing a sequence of raw inputs in order.
pub open spec fn accrue_topics(b: Seq<u8>, topics: Seq<Seq<u8>>) -> Seq<u8>
    decreases topics.len(),
{
    if topics.len() == 0 {
        b
    } else {
        accrue_topics(accrue_input(b, topics.first()), topics.drop_first())
    }
}

/// `b` after accruing one log: its address, then each topic in order.
pub open spec fn accrue_log(b: Seq<u8>, log: LogV) -> Seq<u8> {
    accrue_topics(accrue_input(b, log.address), log.topics)
}

/// `b` after accruing a sequence of logs in order.
pub open spec fn accrue_logs(b: Seq<u8>, logs: Seq<LogV>) -> Seq<u8>
    decreases logs.len(),
{
    if logs.len() == 0 {
        b
    } else {
        accrue_logs(accrue_log(b, logs.first()), logs.drop_first())
    }
}

/// Every bit set in `b1` is set in `b2` (and both are filters).
pub open spec fn bloom_covers(b1: Seq<u8>, b2: Seq<u8>) -> bool {
    &&& bloom_wf(b1)
    &&& bloom_wf(b2)
    &&& forall|j: nat|
        #![trigger bit_set(b1, j)]
        #![trigger bit_set(b2, j)]
        j < 2048 && bit_set(b1, j) ==> bit_set(b2, j)
}

/// Every digest bit position is a filter position.
pub proof fn lemma_digest_bit_range(d: Seq<u8>, k: int)
    ensures
        digest_bit(d, k) < 2048,
{
}

/// Setting one bit sets exactly that bit.
pub proof fn lemma_with_bit(b: Seq<u8>, i: nat, j: nat)
    requires
        bloom_wf(b),
        i < 2048,
        j < 2048,
    ensures
        bloom_wf(with_bit(b, i)),
        bit_set(with_bit(b, i), j) == (bit_set(b, j) || i == j),
{
    let bi = 255 - i / 8;
    let bj = 255 - j / 8;
    let x = b[bi];
    let m = (i % 8) as u8;
    let t = (j % 8) as u8;
    if bi == bj {
        assert((((x | (1u8 << m)) >> t) & 1u8 == 1u8) == (((x >> t) & 1u8 == 1u8) || m == t))
            by (bit_vector)
            requires
                m < 8,
                t < 8,
        ;
        assert(i / 8 == j / 8);
        assert((i == j) == (m == t));
    } else {
        assert(with_bit(b, i)[bj] == b[bj]);
        assert(i != j);
    }
}

/// Accruing a digest only adds bits, and adds its three derived bits.
pub proof fn lemma_accrue_digest(b: Seq<u8>, d: Seq<u8>)
    requires
        bloom_wf(b),
    ensures
        bloom_covers(b, accrue_digest(b, d)),
        digest_in_bloom(accrue_digest(b, d), d),
{
    let i0 = digest_bit(d, 0);
    let i1 = digest_bit(d, 1);
    let i2 = digest_bit(d, 2);
    let b1 = with_bit(b, i0);
    let b2 = with_bit(b1, i1);
    let b3 = with_bit(b2, i2);
    lemma_digest_bit_range(d, 0);
    lemma_digest_bit_range(d, 1);
    lemma_digest_bit_range(d, 2);
    assert forall|j: nat| j < 2048 implies (bit_set(b1, j) == (bit_set(b, j) || i0 == j)) by {
        lemma_with_bit(b, i0, j);
    }
    assert(bloom_wf(b1)) by {
        lemma_with_bit(b, i0, i0);
    }
    assert forall|j: nat| j < 2048 implies (bit_set(b2, j) == (bit_set(b1, j) || i1 == j)) by {
        lemma_with_bit(b1, i1, j);
    }
    assert(bloom_wf(b2)) by {
        lemma_with_bit(b1, i1, i1);
    }
    assert forall|j: nat| j < 2048 implies (bit_set(b3, j) == (bit_set(b2, j) || i2 == j)) by {
        lemma_with_bit(b2, i2, j);
    }
    assert(bloom_wf(b3)) by {
        lemma_with_bit(b2, i2, i2);
    }
    assert(bit_set(b3, i0) && bit_set(b3, i1) && bit_set(b3, i2));
}

/// Accruing a topic list only adds bits.
pub proof fn lemma_accrue_topics_covers(b: Seq<u8>, topics: Seq<Seq<u8>>)
    requires
        bloom_wf(b),
    ensures
        bloom_covers(b, accrue_topics(b, topics)),
    decreases topics.len(),
{
    if topics.len() == 0 {
    } else {
        lemma_accrue_digest(b, keccak256_of(topics.first()));
        lemma_accrue_topics_covers(accrue_input(b, topics.first()), topics.drop_first());
    }
}

/// Each accrued topic passes the membership test afterwards.
pub proof fn lemma_accrue_topics_in(b: Seq<u8>, topics: Seq<Seq<u8>>, k: int)
    requires
        bloom_wf(b),
        0 <= k < topics.len(),
    ensures
        digest_in_bloom(accrue_topics(b, topics), keccak256_of(topics[k])),
    decreases topics.len(),
{
    let b1 = accrue_input(b, topics.first());
    lemma_accrue_digest(b, keccak256_of(topics.first()));
    if k == 0 {
        lemma_accrue_topics_covers(b1, topics.drop_first());
        lemma_digest_bit_range(keccak256_of(topics[0]), 0);
        lemma_digest_bit_range(keccak256_of(topics[0]), 1);
        lemma_digest_bit_range(keccak256_of(topics[0]), 2);
    } else {
        lemma_accrue_topics_in(b1, topics.drop_first(), k - 1);
        assert(topics.drop_first()[k - 1] == topics[k]);
    }
}

/// Accruing a log only adds bits.
pub proof fn lemma_accrue_log_covers(b: Seq<u8>, log: LogV)
    requires
        bloom_wf(b),
    ensures
        bloom_covers(b, accrue_log(b, log)),
{
    lemma_accrue_digest(b, keccak256_of(log.address));
    lemma_accrue_topics_covers(accrue_input(b, log.address), log.topics);
}

/// Accruing a log list only adds bits.
pub proof fn lemma_accrue_logs_covers(b: Seq<u8>, logs: Seq<LogV>)
    requires
        bloom_wf(b),
    ensures
        bloom_covers(b, accrue_logs(b, logs)),
    decreases logs.len(),
{
    if logs.len() == 0 {
    } else {
        lemma_accrue_log_covers(b, logs.first());
        lemma_accrue_logs_covers(accrue_log(b, logs.first()), logs.drop_first());
    }
}

/// The bitwise union of two filters.
pub open spec fn bloom_or(a: Seq<u8>, b: Seq<u8>) -> Seq<u8> {
    Seq::new(256, |i: int| a[i] | b[i])
}

/// The empty filter is the union's neutral element.
pub proof fn lemma_or_zero(b: Seq<u8>)
    requires
        bloom_wf(b),
    ensures
        bloom_or(b, zero_bloom()) == b,
        bloom_or(zero_bloom(), b) == b,
{
    assert forall|i: int| 0 <= i < 256 implies bloom_or(b, zero_bloom())[i] == b[i] && bloom_or(
        zero_bloom(),
        b,
    )[i] == b[i] by {
        let x = b[i];
        assert(x | 0u8 == x && 0u8 | x == x) by (bit_vector);
    }
    assert(bloom_or(b, zero_bloom()) =~= b);
    assert(bloom_or(zero_bloom(), b) =~= b);
}

/// Setting a bit in the right part of a union sets it in the union.
proof fn lemma_with_bit_or(a: Seq<u8>, b: Seq<u8>, i: nat)
    requires
        bloom_wf(a),
        bloom_wf(b),
        i < 2048,
    ensures
        with_bit(bloom_or(a, b), i) == bloom_or(a, with_bit(b, i)),
{
    let k = 255 - i / 8;
    let m = 1u8 << ((i % 8) as u8);
    assert forall|j: int| 0 <= j < 256 implies with_bit(bloom_or(a, b), i)[j] == bloom_or(
        a,
        with_bit(b, i),
    )[j] by {
        if j == k {
            let x = a[k];
            let y = b[k];
            assert((x | y) | m == x | (y | m)) by (bit_vector);
        }
    }
    assert(with_bit(bloom_or(a, b), i) =~= bloom_or(a, with_bit(b, i)));
}

/// Accruing a digest into the right part of a union accrues it into
/// the union.
proof fn lemma_accrue_digest_or(a: Seq<u8>, b: Seq<u8>, d: Seq<u8>)
    requires
        bloom_wf(a),
        bloom_wf(b),
    ensures
        accrue_digest(bloom_or(a, b), d) == bloom_or(a, accrue_digest(b, d)),
{
    let i0 = digest_bit(d, 0);
    let i1 = digest_bit(d, 1);
    let i2 = digest_bit(d, 2);
    lemma_digest_bit_range(d, 0);
    lemma_digest_bit_range(d, 1);
    lemma_digest_bit_range(d, 2);
    lemma_with_bit(b, i0, i0);
    lemma_with_bit(with_bit(b, i0), i1, i1);
    lemma_with_bit_or(a, b, i0);
    lemma_with_bit_or(a, with_bit(b, i0), i1);
    lemma_with_bit_or(a, with_bit(with_bit(b, i0), i1), i2);
}

/// Accruing a topic list distributes over a union in the same way.
proof fn lemma_accrue_topics_or(a: Seq<u8>, b: Seq<u8>, topics: Seq<Seq<u8>>)
    requires
        bloom_wf(a),
        bloom_wf(b),
    ensures
        accrue_topics(bloom_or(a, b), topics) == bloom_or(a, accrue_topics(b, topics)),
    decreases topics.len(),
{
    if topics.len() == 0 {
    } else {
        lemma_accrue_digest_or(a, b, keccak256_of(topics.first()));
        lemma_accrue_digest(b, keccak256_of(topics.first()));
        lemma_accrue_topics_or(a, accrue_input(b, topics.first()), topics.drop_first());
    }
}

/// Accruing one log distributes over a union.
proof fn lemma_accrue_log_or(a: Seq<u8>, b: Seq<u8>, log: LogV)
    requires
        bloom_wf(a),
        bloom_wf(b),
    ensures
        accrue_log(bloom_or(a, b), log) == bloom_or(a, accrue_log(b, log)),
{
    lemma_accrue_digest_or(a, b, keccak256_of(log.address));
    lemma_accrue_digest(b, keccak256_of(log.address));
    lemma_accrue_topics_or(a, accrue_input(b, log.address), log.topics);
}

/// Accruing a log list distributes over a union.
pub proof fn lemma_accrue_logs_or(a: Seq<u8>, b: Seq<u8>, logs: Seq<LogV>)
    requires
        bloom_wf(a),
        bloom_wf(b),
    ensures
        accrue_logs(bloom_or(a, b), logs) == bloom_or(a, accrue_logs(b, logs)),
    decreases logs.len(),
{
    if logs.len() == 0 {
    } else {
        lemma_accrue_log_or(a, b, logs.first());
        lemma_accrue_log_covers(b, logs.first());
        lemma_accrue_logs_or(a, accrue_log(b, logs.first()), logs.drop_first());
    }
}

/// Accruing into any filter is accruing into the empty filter and
/// taking the union.
pub proof fn lemma_accrue_logs_shift(b: Seq<u8>, logs: Seq<LogV>)
    requires
        bloom_wf(b),
    ensures
        accrue_logs(b, logs) == bloom_or(b, accrue_logs(zero_bloom(), logs)),
{
    lemma_or_zero(b);
    lemma_accrue_logs_or(b, zero_bloom(), logs);
}

/// Accruing a concatenation accrues the parts in order.
pub proof fn lemma_accrue_logs_concat(b: Seq<u8>, a: Seq<LogV>, c: Seq<LogV>)
    ensures
        accrue_logs(b, a + c) == accrue_logs(accrue_logs(b, a), c),
    decreases a.len(),
{
    if a.len() == 0 {
        assert(a + c =~= c);
    } else {
        assert((a + c).first() == a.first());
        assert((a + c).drop_first() =~= a.drop_first() + c);
        lemma_accrue_logs_concat(accrue_log(b, a.first()), a.drop_first(), c);
    }
}

/// After accruing a log, its address and every topic pass the test.
pub proof fn lemma_accrue_log_in(b: Seq<u8>, log: LogV)
    requires
        bloom_wf(b),
    ensures
        digest_in_bloom(accrue_log(b, log), keccak256_of(log.address)),
        forall|k: int|
            0 <= k < log.topics.len() ==> digest_in_bloom(
                accrue_log(b, log),
                keccak256_of(#[trigger] log.topics[k]),
            ),
{
    let b1 = accrue_input(b, log.address);
    lemma_accrue_digest(b, keccak256_of(log.address));
    lemma_accrue_topics_covers(b1, log.topics);
    let da = keccak256_of(log.address);
    lemma_digest_bit_range(da, 0);
    lemma_digest_bit_range(da, 1);
    lemma_digest_bit_range(da, 2);
    assert forall|k: int| 0 <= k < log.topics.len() implies digest_in_bloom(
        accrue_log(b, log),
        keccak256_of(#[trigger] log.topics[k]),
    ) by {
        lemma_accrue_topics_in(b1, log.topics, k);
    }
}

/// No false negatives: after a log list is accrued into a filter, the
/// membership test for each accrued log's address and each of its topics
/// answers "present".
pub proof fn lemma_bloom_no_false_negative(b: Seq<u8>, logs: Seq<LogV>, i: int)
    requires
        bloom_wf(b),
        0 <= i < logs.len(),
    ensures
        digest_in_bloom(accrue_logs(b, logs), keccak256_of(logs[i].address)),
        forall|k: int|
            0 <= k < logs[i].topics.len() ==> digest_in_bloom(
                accrue_logs(b, logs),
                keccak256_of(#[trigger] logs[i].topics[k]),
            ),
    decreases logs.len(),
{
    let b1 = accrue_log(b, logs.first());
    lemma_accrue_log_covers(b, logs.first());
    if i == 0 {
        lemma_accrue_log_in(b, logs.first());
        lemma_accrue_logs_covers(b1, logs.drop_first());
        let da = keccak256_of(logs[0].address);
        lemma_digest_bit_range(da, 0);
        lemma_digest_bit_range(da, 1);
        lemma_digest_bit_range(da, 2);
        assert forall|k: int| 0 <= k < logs[0].topics.len() implies digest_in_bloom(
            accrue_logs(b, logs),
            keccak256_of(#[trigger] logs[0].topics[k]),
        ) by {
            let dt = keccak256_of(logs[0].topics[k]);
            lemma_digest_bit_range(dt, 0);
            lemma_digest_bit_range(dt, 1);
            lemma_digest_bit_range(dt, 2);
        }
    } else {
        lemma_bloom_no_false_negative(b1, logs.drop_first(), i - 1);
        assert(logs.drop_first()[i - 1] == logs[i]);
    }
}

/// The `k`-th filter bit position of a 32-byte digest.
fn digest_index(d: &Vec<u8>, k: usize) -> (r: usize)
    requires
        d@.len() == 32,
        k < 3,
    ensures
        r == digest_bit(d@, k as int),
        r < 2048,
{
    let hi = d[2 * k];
    let lo = d[2 * k + 1];
    ((hi as usize) % 8) * 256 + (lo as usize)
}

impl Bloom {
    /// The empty filter, as each receipt and block starts with.
    pub fn new_empty() -> (r: Bloom)
        ensures
            r@ == zero_bloom(),
            bloom_wf(r@),
    {
        let mut bits: Vec<u8> = Vec::new();
        let mut i: usize = 0;
        while i < 256
            invariant
                i <= 256,
                bits@.len() == i,
                forall|j: int| 0 <= j < i ==> bits@[j] == 0u8,
            decreases 256 - i,
        {
            bits.push(0u8);
            i += 1;
        }
        proof {
            assert(bits@ =~= zero_bloom());
        }
        Bloom { bits }
    }

    pub fn clone_bloom(&self) -> (r: Bloom)
        ensures
            r@ == self@,
    {
        Bloom { bits: clone_bytes(&self.bits) }
    }

    pub fn eq_bloom(&self, other: &Bloom) -> (r: bool)
        ensures
            r == (self@ == other@),
    {
        crate::bytes::bytes_eq(&self.bits, &other.bits)
    }

    /// Set one filter bit.
    fn set_filter_bit(&mut self, idx: usize)
        requires
            bloom_wf(old(self)@),
            idx < 2048,
        ensures
            final(self)@ == with_bit(old(self)@, idx as nat),
            bloom_wf(final(self)@),
    {
        let byte_i: usize = 255 - idx / 8;
        let updated = self.bits[byte_i] | (1u8 << ((idx % 8) as u8));
        self.bits.set(byte_i, updated);
        proof {
            assert(self@ =~= with_bit(old(self)@, idx as nat));
        }
    }

    /// Read one filter bit.
    fn get_filter_bit(&self, idx: usize) -> (r: bool)
        requires
            bloom_wf(self@),
            idx < 2048,
        ensures
            r == bit_set(self@, idx as nat),
    {
        (self.bits[255 - idx / 8] >> ((idx % 8) as u8)) & 1u8 == 1u8
    }

    /// Set the three filter bits derived from the digest of `input`.
    pub fn accrue(&mut self, input: &Vec<u8>)
        requires
            bloom_wf(old(self)@),
        ensures
            final(self)@ == accrue_input(old(self)@, input@),
            bloom_wf(final(self)@),
    {
        let d = keccak256(input);
        let i0 = digest_index(&d, 0);
        let i1 = digest_index(&d, 1);
        let i2 = digest_index(&d, 2);
        self.set_filter_bit(i0);
        self.set_filter_bit(i1);
        self.set_filter_bit(i2);
    }

    /// Membership test for a raw input: all three derived bits set.
    pub fn contains_input(&self, input: &Vec<u8>) -> (r: bool)
        requires
            bloom_wf(self@),
        ensures
            r == digest_in_bloom(self@, keccak256_of(input@)),
    {
        let d = keccak256(input);
        let i0 = digest_index(&d, 0);
        let i1 = digest_index(&d, 1);
        let i2 = digest_index(&d, 2);
        self.get_filter_bit(i0) && self.get_filter_bit(i1) && self.get_filter_bit(i2)
    }

    /// Accrue one log: its address, then each topic in order.
    pub fn add_log(&mut self, log: &Log)
        requires
            bloom_wf(old(self)@),
        ensures
            final(self)@ == accrue_log(old(self)@, log@),
            bloom_wf(final(self)@),
    {
        let ghost target = accrue_log(old(self)@, log@);
        self.accrue(&log.address.bytes);
        let ghost topics_v = log@.topics;
        let mut i: usize = 0;
        proof {
            assert(topics_v.skip(0) =~= topics_v);
        }
        while i < log.topics.len()
            invariant
                i <= log.topics@.len(),
                topics_v == log@.topics,
                topics_v.len() == log.topics@.len(),
                bloom_wf(self@),
                target == accrue_topics(self@, topics_v.skip(i as int)),
            decreases log.topics@.len() - i,
        {
            let t = &log.topics[i];
            proof {
                assert(topics_v.skip(i as int).first() == t@);
                assert(topics_v.skip(i as int).drop_first() =~= topics_v.skip(i + 1));
            }
            self.accrue(&t.bytes);
            i += 1;
        }
        proof {
            assert(topics_v.skip(topics_v.len() as int) =~= Seq::<Seq<u8>>::empty());
        }
    }
}

/// The log models of a log sequence.
pub open spec fn logs_view(s: Seq<Log>) -> Seq<LogV> {
    s.map_values(|l: Log| l@)
}

/// Accrue every log of a list into a filter, in order.
pub fn logs_bloom(logs: &Vec<Log>, bloom: &mut Bloom)
    requires
        bloom_wf(old(bloom)@),
    ensures
        final(bloom)@ == accrue_logs(old(bloom)@, logs_view(logs@)),
        bloom_wf(final(bloom)@),
{
    let ghost b0 = bloom@;
    let ghost logs_v = logs_view(logs@);
    let mut i: usize = 0;
    proof {
        assert(logs_v.skip(0) =~= logs_v);
    }
    while i < logs.len()
        invariant
            i <= logs@.len(),
            b0 == old(bloom)@,
            logs_v == logs_view(logs@),
            logs_v.len() == logs@.len(),
            bloom_wf(bloom@),
            accrue_logs(b0, logs_v) == accrue_logs(bloom@, logs_v.skip(i as int)),
        decreases logs@.len() - i,
    {
        let l = &logs[i];
        proof {
            assert(logs_v.skip(i as int).first() == l@);
            assert(logs_v.skip(i as int).drop_first() =~= logs_v.skip(i + 1));
        }
        bloom.add_log(l);
        i += 1;
    }
    proof {
        assert(logs_v.skip(logs_v.len() as int) =~= Seq::<LogV>::empty());
    }
}

} // verus!
