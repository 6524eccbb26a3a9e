//! Wire encodings of the engine's objects: transactions, the canonical
//! signing message, logs, receipts and headers, and the derived hashes.

use vstd::prelude::*;

use crate::bloom::logs_view;
use crate::bytes::be_val;
use crate::hashing::{keccak256, keccak256_of};
use crate::rlp::{
    append_list_payload, append_str, append_uint, encode_list_payload, rlp_list_of, rlp_str_of,
    rlp_uint_of,
};
use crate::types::{
    sig_chain_id, Address, Header, Log, LogV, Receipt, Transaction, TransactionAction, Word,
};
use crate::u256::U256;

verus! {

/// A call's target is a 20-byte string; creation is the empty string.
pub open spec fn action_encoding(a: TransactionAction) -> Seq<u8> {
    match a {
        TransactionAction::Call(t) => rlp_str_of(t@),
        TransactionAction::Create => rlp_str_of(Seq::empty()),
    }
}

/// The nine encoded transaction fields, in wire order.
pub open spec fn tx_payload(tx: Transaction) -> Seq<u8> {
    rlp_uint_of(tx.nonce@) + rlp_uint_of(tx.gas_price@) + rlp_uint_of(tx.gas_limit@)
        + action_encoding(tx.action) + rlp_uint_of(tx.value@) + rlp_str_of(tx.input@)
        + rlp_uint_of(tx.signature.v as nat) + rlp_uint_of(be_val(tx.signature.r@)) + rlp_uint_of(
        be_val(tx.signature.s@),
    )
}

/// The wire form of a signed transaction.
pub open spec fn tx_encoding(tx: Transaction) -> Seq<u8> {
    rlp_list_of(tx_payload(tx))
}

/// The transaction hash.
pub open spec fn tx_hash_of(tx: Transaction) -> Seq<u8> {
    keccak256_of(tx_encoding(tx))
}

/// The canonical signing message: the six data fields, and, when the
/// signature declares a chain identifier, that identifier and two empty
/// items.
pub open spec fn tx_message_encoding(tx: Transaction) -> Seq<u8> {
    let base = rlp_uint_of(tx.nonce@) + rlp_uint_of(tx.gas_price@) + rlp_uint_of(tx.gas_limit@)
        + action_encoding(tx.action) + rlp_uint_of(tx.value@) + rlp_str_of(tx.input@);
    match sig_chain_id(tx.signature.v) {
        Some(cid) => rlp_list_of(
            base + rlp_uint_of(cid as nat) + rlp_uint_of(0) + rlp_uint_of(0),
        ),
        None => rlp_list_of(base),
    }
}

/// The hash the signature covers.
pub open spec fn tx_message_hash_of(tx: Transaction) -> Seq<u8> {
    keccak256_of(tx_message_encoding(tx))
}

/// The encoded topic words of a log, concatenated.
pub open spec fn topics_payload(ts: Seq<Seq<u8>>) -> Seq<u8>
    decreases ts.len(),
{
    if ts.len() == 0 {
        Seq::empty()
    } else {
        rlp_str_of(ts.first()) + topics_payload(ts.drop_first())
    }
}

/// The wire form of one log: address, topic list, payload.
pub open spec fn log_encoding(l: LogV) -> Seq<u8> {
    rlp_list_of(rlp_str_of(l.address) + rlp_list_of(topics_payload(l.topics)) + rlp_str_of(l.data))
}

/// The encoded logs of a receipt, concatenated.
pub open spec fn logs_payload(ls: Seq<LogV>) -> Seq<u8>
    decreases ls.len(),
{
    if ls.len() == 0 {
        Seq::empty()
    } else {
        log_encoding(ls.first()) + logs_payload(ls.drop_first())
    }
}

/// The wire form of one receipt: status root, gas, bloom, log list.
pub open spec fn receipt_encoding(rc: Receipt) -> Seq<u8> {
    rlp_list_of(
        rlp_str_of(rc.state_root@) + rlp_uint_of(rc.used_gas@) + rlp_str_of(rc.logs_bloom@)
            + rlp_list_of(logs_payload(logs_view(rc.logs@))),
    )
}

/// The encoded receipts of a block, concatenated.
pub open spec fn receipts_payload(rs: Seq<Receipt>) -> Seq<u8>
    decreases rs.len(),
{
    if rs.len() == 0 {
        Seq::empty()
    } else {
        receipt_encoding(rs.first()) + receipts_payload(rs.drop_first())
    }
}

/// The wire form of the receipt list, whose hash is the receipts root.
pub open spec fn receipts_list_encoding(rs: Seq<Receipt>) -> Seq<u8> {
    rlp_list_of(receipts_payload(rs))
}

/// The wire form of a block header: its fifteen fields in order.
pub open spec fn header_encoding(h: Header) -> Seq<u8> {
    rlp_list_of(
        rlp_str_of(h.parent_hash@) + rlp_str_of(h.ommers_hash@) + rlp_str_of(h.beneficiary@)
            + rlp_str_of(h.state_root@) + rlp_str_of(h.transactions_root@) + rlp_str_of(
            h.receipts_root@,
        ) + rlp_str_of(h.logs_bloom@) + rlp_uint_of(h.difficulty@) + rlp_uint_of(h.number@)
            + rlp_uint_of(h.gas_limit@) + rlp_uint_of(h.gas_used@) + rlp_uint_of(
            h.timestamp as nat,
        ) + rlp_str_of(h.extra_data@) + rlp_str_of(h.mix_hash@) + rlp_str_of(h.nonce64@),
    )
}

/// The block hash: the digest of the encoded header.
pub open spec fn header_hash_of(h: Header) -> Seq<u8> {
    keccak256_of(header_encoding(h))
}

/// The two-item stream hashed to derive a created contract's address.
pub open spec fn create_address_stream(sender: Seq<u8>, nonce: nat) -> Seq<u8> {
    rlp_list_of(rlp_str_of(sender) + rlp_uint_of(nonce))
}

/// The address of a contract created by `sender` at `nonce`: the low
/// twenty bytes of the stream digest.
pub open spec fn create_address_of(sender: Seq<u8>, nonce: nat) -> Seq<u8> {
    keccak256_of(create_address_stream(sender, nonce)).skip(12)
}

/// Append one encoded action field.
fn append_action(out: &mut Vec<u8>, a: &TransactionAction)
    ensures
        final(out)@ == old(out)@ + action_encoding(*a),
{
    match a {
        TransactionAction::Call(t) => {
            append_str(out, &t.bytes);
        },
        TransactionAction::Create => {
            let empty: Vec<u8> = Vec::new();
            append_str(out, &empty);
        },
    }
}

/// Encode the six data fields shared by both transaction forms.
fn append_base_fields(out: &mut Vec<u8>, tx: &Transaction)
    ensures
        final(out)@ == old(out)@ + (rlp_uint_of(tx.nonce@) + rlp_uint_of(tx.gas_price@)
            + rlp_uint_of(tx.gas_limit@) + action_encoding(tx.action) + rlp_uint_of(tx.value@)
            + rlp_str_of(tx.input@)),
{
    append_uint(out, &tx.nonce);
    append_uint(out, &tx.gas_price);
    append_uint(out, &tx.gas_limit);
    append_action(out, &tx.action);
    append_uint(out, &tx.value);
    append_str(out, &tx.input);
    proof {
        assert(final(out)@ =~= old(out)@ + (rlp_uint_of(tx.nonce@) + rlp_uint_of(tx.gas_price@)
            + rlp_uint_of(tx.gas_limit@) + action_encoding(tx.action) + rlp_uint_of(tx.value@)
            + rlp_str_of(tx.input@)));
    }
}

/// The wire encoding of a signed transaction.
pub fn encode_transaction(tx: &Transaction) -> (r: Vec<u8>)
    requires
        tx.wf(),
    ensures
        r@ == tx_encoding(*tx),
{
    let mut payload: Vec<u8> = Vec::new();
    append_base_fields(&mut payload, tx);
    let v256 = U256::from_u64(tx.signature.v);
    append_uint(&mut payload, &v256);
    let rv = U256::from_be_bytes(&tx.signature.r.bytes);
    append_uint(&mut payload, &rv);
    let sv = U256::from_be_bytes(&tx.signature.s.bytes);
    append_uint(&mut payload, &sv);
    proof {
        assert(payload@ =~= tx_payload(*tx));
    }
    encode_list_payload(&payload)
}

/// The transaction hash: the digest of the wire encoding.
pub fn transaction_hash(tx: &Transaction) -> (r: Word)
    requires
        tx.wf(),
    ensures
        r@ == tx_hash_of(*tx),
        r.wf(),
{
    let encoded = encode_transaction(tx);
    Word::new(keccak256(&encoded))
}

/// The canonical signing message bytes.
pub fn encode_transaction_message(tx: &Transaction) -> (r: Vec<u8>)
    requires
        tx.wf(),
    ensures
        r@ == tx_message_encoding(*tx),
{
    let mut payload: Vec<u8> = Vec::new();
    append_base_fields(&mut payload, tx);
    match tx.signature.chain_id() {
        Some(cid) => {
            let c256 = U256::from_u64(cid);
            append_uint(&mut payload, &c256);
            let z = U256::zero();
            append_uint(&mut payload, &z);
            append_uint(&mut payload, &z);
            proof {
                assert(payload@ =~= (rlp_uint_of(tx.nonce@) + rlp_uint_of(tx.gas_price@)
                    + rlp_uint_of(tx.gas_limit@) + action_encoding(tx.action) + rlp_uint_of(
                    tx.value@,
                ) + rlp_str_of(tx.input@)) + rlp_uint_of(cid as nat) + rlp_uint_of(0)
                    + rlp_uint_of(0));
            }
        },
        None => {
            proof {
                assert(payload@ =~= rlp_uint_of(tx.nonce@) + rlp_uint_of(tx.gas_price@)
                    + rlp_uint_of(tx.gas_limit@) + action_encoding(tx.action) + rlp_uint_of(
                    tx.value@,
                ) + rlp_str_of(tx.input@));
            }
        },
    }
    encode_list_payload(&payload)
}

/// The 32-byte hash the signature covers.
pub fn transaction_message_hash(tx: &Transaction) -> (r: Vec<u8>)
    requires
        tx.wf(),
    ensures
        r@ == tx_message_hash_of(*tx),
        r@.len() == 32,
{
    let encoded = encode_transaction_message(tx);
    keccak256(&encoded)
}

/// The wire encoding of one log.
pub fn encode_log_into(out: &mut Vec<u8>, l: &Log)
    ensures
        final(out)@ == old(out)@ + log_encoding(l@),
{
    let mut topics: Vec<u8> = Vec::new();
    let ghost ts = l@.topics;
    let mut i: usize = 0;
    proof {
        assert(ts.skip(0) =~= ts);
        assert(topics_payload(ts) == Seq::<u8>::empty() + topics_payload(ts.skip(0)));
    }
    while i < l.topics.len()
        invariant
            i <= l.topics@.len(),
            ts == l@.topics,
            ts.len() == l.topics@.len(),
            topics_payload(ts) == topics@ + topics_payload(ts.skip(i as int)),
        decreases l.topics@.len() - i,
    {
        let t = &l.topics[i];
        proof {
            assert(ts.skip(i as int).first() == t@);
            assert(ts.skip(i as int).drop_first() =~= ts.skip(i + 1));
        }
        append_str(&mut topics, &t.bytes);
        proof {
            assert(topics_payload(ts) =~= topics@ + topics_payload(ts.skip(i + 1)));
        }
        i += 1;
    }
    proof {
        assert(ts.skip(ts.len() as int) =~= Seq::<Seq<u8>>::empty());
        assert(topics@ + Seq::<u8>::empty() =~= topics@);
        assert(topics@ == topics_payload(ts));
    }
    let mut payload: Vec<u8> = Vec::new();
    append_str(&mut payload, &l.address.bytes);
    append_list_payload(&mut payload, &topics);
    append_str(&mut payload, &l.data);
    proof {
        assert(payload@ =~= rlp_str_of(l@.address) + rlp_list_of(topics_payload(l@.topics))
            + rlp_str_of(l@.data));
    }
    append_list_payload(out, &payload);
}

/// The wire encoding of one receipt.
pub fn encode_receipt_into(out: &mut Vec<u8>, rc: &Receipt)
    ensures
        final(out)@ == old(out)@ + receipt_encoding(*rc),
{
    let mut logs_enc: Vec<u8> = Vec::new();
    let ghost ls = logs_view(rc.logs@);
    let mut i: usize = 0;
    proof {
        assert(ls.skip(0) =~= ls);
        assert(logs_payload(ls) == Seq::<u8>::empty() + logs_payload(ls.skip(0)));
    }
    while i < rc.logs.len()
        invariant
            i <= rc.logs@.len(),
            ls == logs_view(rc.logs@),
            ls.len() == rc.logs@.len(),
            logs_payload(ls) == logs_enc@ + logs_payload(ls.skip(i as int)),
        decreases rc.logs@.len() - i,
    {
        let l = &rc.logs[i];
        proof {
            assert(ls.skip(i as int).first() == l@);
            assert(ls.skip(i as int).drop_first() =~= ls.skip(i + 1));
        }
        encode_log_into(&mut logs_enc, l);
        proof {
            assert(logs_payload(ls) =~= logs_enc@ + logs_payload(ls.skip(i + 1)));
        }
        i += 1;
    }
    proof {
        assert(ls.skip(ls.len() as int) =~= Seq::<LogV>::empty());
        assert(logs_enc@ + Seq::<u8>::empty() =~= logs_enc@);
        assert(logs_enc@ == logs_payload(ls));
    }
    let mut payload: Vec<u8> = Vec::new();
    append_str(&mut payload, &rc.state_root.bytes);
    append_uint(&mut payload, &rc.used_gas);
    append_str(&mut payload, &rc.logs_bloom.bits);
    append_list_payload(&mut payload, &logs_enc);
    proof {
        assert(payload@ =~= rlp_str_of(rc.state_root@) + rlp_uint_of(rc.used_gas@) + rlp_str_of(
            rc.logs_bloom@,
        ) + rlp_list_of(logs_payload(logs_view(rc.logs@))));
    }
    append_list_payload(out, &payload);
}

/// The wire encoding of the whole receipt list.
pub fn encode_receipts_list(rs: &Vec<Receipt>) -> (r: Vec<u8>)
    ensures
        r@ == receipts_list_encoding(rs@),
{
    let mut payload: Vec<u8> = Vec::new();
    let mut i: usize = 0;
    proof {
        assert(rs@.skip(0) =~= rs@);
        assert(receipts_payload(rs@) == Seq::<u8>::empty() + receipts_payload(rs@.skip(0)));
    }
    while i < rs.len()
        invariant
            i <= rs@.len(),
            receipts_payload(rs@) == payload@ + receipts_payload(rs@.skip(i as int)),
        decreases rs@.len() - i,
    {
        let rc = &rs[i];
        proof {
            assert(rs@.skip(i as int).first() == *rc);
            assert(rs@.skip(i as int).drop_first() =~= rs@.skip(i + 1));
        }
        encode_receipt_into(&mut payload, rc);
        proof {
            assert(receipts_payload(rs@) =~= payload@ + receipts_payload(rs@.skip(i + 1)));
        }
        i += 1;
    }
    proof {
        assert(rs@.skip(rs@.len() as int) =~= Seq::<Receipt>::empty());
        assert(payload@ + Seq::<u8>::empty() =~= payload@);
        assert(payload@ == receipts_payload(rs@));
    }
    encode_list_payload(&payload)
}

/// The wire encoding of a block header.
pub fn encode_header(h: &Header) -> (r: Vec<u8>)
    ensures
        r@ == header_encoding(*h),
{
    let mut payload: Vec<u8> = Vec::new();
    append_str(&mut payload, &h.parent_hash.bytes);
    append_str(&mut payload, &h.ommers_hash.bytes);
    append_str(&mut payload, &h.beneficiary.bytes);
    append_str(&mut payload, &h.state_root.bytes);
    append_str(&mut payload, &h.transactions_root.bytes);
    append_str(&mut payload, &h.receipts_root.bytes);
    append_str(&mut payload, &h.logs_bloom.bits);
    append_uint(&mut payload, &h.difficulty);
    append_uint(&mut payload, &h.number);
    append_uint(&mut payload, &h.gas_limit);
    append_uint(&mut payload, &h.gas_used);
    let ts = U256::from_u64(h.timestamp);
    append_uint(&mut payload, &ts);
    append_str(&mut payload, &h.extra_data);
    append_str(&mut payload, &h.mix_hash.bytes);
    append_str(&mut payload, &h.nonce64);
    proof {
        assert(payload@ =~= rlp_str_of(h.parent_hash@) + rlp_str_of(h.ommers_hash@) + rlp_str_of(
            h.beneficiary@,
        ) + rlp_str_of(h.state_root@) + rlp_str_of(h.transactions_root@) + rlp_str_of(
            h.receipts_root@,
        ) + rlp_str_of(h.logs_bloom@) + rlp_uint_of(h.difficulty@) + rlp_uint_of(h.number@)
            + rlp_uint_of(h.gas_limit@) + rlp_uint_of(h.gas_used@) + rlp_uint_of(
            h.timestamp as nat,
        ) + rlp_str_of(h.extra_data@) + rlp_str_of(h.mix_hash@) + rlp_str_of(h.nonce64@));
    }
    encode_list_payload(&payload)
}

/// The block hash of a header.
pub fn header_hash(h: &Header) -> (r: Word)
    ensures
        r@ == header_hash_of(*h),
        r.wf(),
{
    let encoded = encode_header(h);
    Word::new(keccak256(&encoded))
}

/// The deterministic address of a contract created by `caller` with its
/// account nonce: the low twenty bytes of the digest of the two-item
/// stream.
pub fn create_address(caller: &Address, nonce: &U256) -> (r: Address)
    requires
        caller.wf(),
    ensures
        r@ == create_address_of(caller@, nonce@),
        r.wf(),
{
    let mut payload: Vec<u8> = Vec::new();
    append_str(&mut payload, &caller.bytes);
    append_uint(&mut payload, &nonce);
    proof {
        assert(payload@ =~= rlp_str_of(caller@) + rlp_uint_of(nonce@));
    }
    let stream = encode_list_payload(&payload);
    let digest = keccak256(&stream);
    let mut addr_bytes: Vec<u8> = Vec::new();
    let mut i: usize = 12;
    while i < 32
        invariant
            12 <= i <= 32,
            digest@.len() == 32,
            addr_bytes@ == digest@.subrange(12, i as int),
        decreases 32 - i,
    {
        addr_bytes.push(digest[i]);
        proof {
            assert(digest@.subrange(12, i + 1) =~= digest@.subrange(12, i as int).push(
                digest@[i as int],
            ));
        }
        i += 1;
    }
    proof {
        assert(digest@.subrange(12, 32) =~= digest@.skip(12));
    }
    Address::new(addr_bytes)
}

} // verus!
