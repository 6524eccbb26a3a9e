//! Engine-wide properties, stated and proved over the spec-level
//! models that the executable contracts are pinned to.

use vstd::prelude::*;

use crate::assembler::{
    block_logs, receipts_payload_of, sum_used_gas, txs_payload_of, PendingEntry,
};
use crate::encode::{create_address_of, header_encoding, header_hash_of, receipt_encoding,
    tx_encoding};
use crate::state::{
    account_empty_spec, account_or_default, apply_entry_spec, apply_entry_wf, code_or_empty,
    remove_account_spec, ApplyEntry, StateV,
};
use crate::types::{sig_chain_id, AccountV, AdmissionError, Header, Transaction};
use crate::u256::u256_bound;
use crate::validator::{admission_spec, fee_sat, AdmissionVerdictV};

verus! {

/// The nonce gate.  With a matching (or undeclared) chain identifier:
/// a transaction below the account nonce is rejected as stale; one at
/// the account nonce with a sufficient balance is admitted with no
/// dependency; one a step ahead with a sufficient balance is admitted
/// depending on the predecessor (signer, nonce) slot.
pub proof fn lemma_nonce_gate(tx: Transaction, signer: Seq<u8>, account: AccountV, chain_id: u64)
    requires
        (match sig_chain_id(tx.signature.v) {
            Some(c) => c == chain_id,
            None => true,
        }),
    ensures
        tx.nonce@ < account.nonce ==> admission_spec(tx, signer, account, chain_id) == Err::<
            AdmissionVerdictV,
            AdmissionError,
        >(AdmissionError::Stale),
        (tx.nonce@ == account.nonce && account.balance >= fee_sat(tx.gas_price@, tx.gas_limit@))
            ==> (admission_spec(tx, signer, account, chain_id) matches Ok(v) && v.provides == (
        signer,
        tx.nonce@,
        ) && v.depends_on is None),
        (tx.nonce@ == account.nonce + 1 && account.balance >= fee_sat(
            tx.gas_price@,
            tx.gas_limit@,
        )) ==> (admission_spec(tx, signer, account, chain_id) matches Ok(v) && v.depends_on
            == Some((signer, account.nonce))),
{
}

/// The fee gate.  With a matching chain identifier and a non-stale
/// nonce, and a fee product inside the 256-bit range: a fee above the
/// balance is rejected as unpayable, and a fee exactly equal to the
/// balance is admitted.  (A product at or above 2^256 clamps, so a
/// balance of 2^256 - 1 would be admitted there although the true
/// product exceeds it; such inputs are outside this statement.)
pub proof fn lemma_fee_gate(tx: Transaction, signer: Seq<u8>, account: AccountV, chain_id: u64)
    requires
        (match sig_chain_id(tx.signature.v) {
            Some(c) => c == chain_id,
            None => true,
        }),
        tx.nonce@ >= account.nonce,
        tx.gas_price@ * tx.gas_limit@ < u256_bound(),
    ensures
        tx.gas_price@ * tx.gas_limit@ > account.balance ==> admission_spec(
            tx,
            signer,
            account,
            chain_id,
        ) == Err::<AdmissionVerdictV, AdmissionError>(AdmissionError::Payment),
        tx.gas_price@ * tx.gas_limit@ == account.balance ==> admission_spec(
            tx,
            signer,
            account,
            chain_id,
        ) is Ok,
{
}

/// Address derivation is a pure function of sender and nonce: equal
/// inputs always derive the same contract address.
pub proof fn lemma_create_address_deterministic(s1: Seq<u8>, n1: nat, s2: Seq<u8>, n2: nat)
    requires
        s1 == s2,
        n1 == n2,
    ensures
        create_address_of(s1, n1) == create_address_of(s2, n2),
{
}

/// Account reclamation.  When an account reads as zero nonce, zero
/// balance and no code, it is empty, and the removal pass takes it out
/// of the account, code and storage maps alike.
pub proof fn lemma_account_reclamation(s: StateV, addr: Seq<u8>)
    requires
        account_or_default(s, addr).nonce == 0,
        account_or_default(s, addr).balance == 0,
        code_or_empty(s, addr).len() == 0,
    ensures
        account_empty_spec(s, addr),
        !remove_account_spec(s, addr).accounts.contains_key(addr),
        !remove_account_spec(s, addr).codes.contains_key(addr),
        forall|k: Seq<u8>| !remove_account_spec(s, addr).storage.contains_key((addr, k)),
{
    assert forall|k: Seq<u8>| !remove_account_spec(s, addr).storage.contains_key(
        (addr, k),
    ) by {
        assert(crate::state::storage_prefix(addr).contains((addr, k)));
    }
}

/// Account reclamation through a changeset.  A modify entry that
/// zeroes the account, writes no code and no storage, applied with the
/// reclamation flag to a state holding no code for the address, leaves
/// the address in none of the three maps.
pub proof fn lemma_apply_reclaims(s: StateV, e: ApplyEntry)
    requires
        apply_entry_wf(e),
        (e matches ApplyEntry::Modify { basic, code, storage, .. } ==> basic@.nonce == 0
            && basic@.balance == 0 && code is None && storage@.len() == 0),
        (e matches ApplyEntry::Modify { address, .. } ==> code_or_empty(s, address@).len() == 0),
        e is Modify,
    ensures
        e matches ApplyEntry::Modify { address, .. } ==> {
            let s2 = apply_entry_spec(s, e, true);
            &&& !s2.accounts.contains_key(address@)
            &&& !s2.codes.contains_key(address@)
            &&& forall|k: Seq<u8>| !s2.storage.contains_key((address@, k))
        },
{
    match e {
        ApplyEntry::Modify { address, basic, code, storage, reset_storage } => {
            let s1 = StateV { accounts: s.accounts.insert(address@, basic@), ..s };
            let s3 = if reset_storage {
                StateV {
                    storage: s1.storage.remove_keys(crate::state::storage_prefix(address@)),
                    ..s1
                }
            } else {
                s1
            };
            assert(crate::state::apply_storage_items(s3, address@, storage@) == s3);
            assert(account_empty_spec(s3, address@));
            lemma_account_reclamation(s3, address@);
        },
        ApplyEntry::Delete { .. } => {},
    }
}

/// The union of the buffered receipts' own filters, in order.
pub open spec fn receipt_blooms_or(p: Seq<PendingEntry>) -> Seq<u8>
    decreases p.len(),
{
    if p.len() == 0 {
        crate::bloom::zero_bloom()
    } else {
        crate::bloom::bloom_or(
            crate::bloom::accrue_logs(
                crate::bloom::zero_bloom(),
                crate::bloom::logs_view(p.first().2.logs@),
            ),
            receipt_blooms_or(p.drop_first()),
        )
    }
}

/// The block filter is the bitwise union of the per-transaction
/// filters: accruing every buffered receipt's logs in order equals the
/// union of the filters each receipt accrues on its own.
pub proof fn lemma_block_bloom_is_union(p: Seq<PendingEntry>)
    ensures
        crate::bloom::accrue_logs(crate::bloom::zero_bloom(), block_logs(p))
            == receipt_blooms_or(p),
    decreases p.len(),
{
    let zero = crate::bloom::zero_bloom();
    if p.len() == 0 {
    } else {
        let first_logs = crate::bloom::logs_view(p.first().2.logs@);
        crate::bloom::lemma_accrue_logs_concat(zero, first_logs, block_logs(p.drop_first()));
        crate::bloom::lemma_accrue_logs_covers(zero, first_logs);
        crate::bloom::lemma_accrue_logs_shift(
            crate::bloom::accrue_logs(zero, first_logs),
            block_logs(p.drop_first()),
        );
        lemma_block_bloom_is_union(p.drop_first());
    }
}

/// Block determinism, part one: pointwise-identical buffered outcomes
/// denote identical receipts payloads, transaction payloads, log
/// sequences and gas sums, so the derived receipts root, bloom and
/// header are the same on every replay.
pub proof fn lemma_block_determinism(p1: Seq<PendingEntry>, p2: Seq<PendingEntry>)
    requires
        p1.len() == p2.len(),
        forall|i: int|
            0 <= i < p1.len() ==> tx_encoding((#[trigger] p1[i]).0) == tx_encoding(
                (#[trigger] p2[i]).0,
            ) && receipt_encoding(p1[i].2) == receipt_encoding(p2[i].2) && crate::bloom::logs_view(
                p1[i].2.logs@,
            ) == crate::bloom::logs_view(p2[i].2.logs@) && p1[i].2.used_gas@ == p2[i].2.used_gas@,
    ensures
        receipts_payload_of(p1) == receipts_payload_of(p2),
        txs_payload_of(p1) == txs_payload_of(p2),
        block_logs(p1) == block_logs(p2),
        sum_used_gas(p1) == sum_used_gas(p2),
    decreases p1.len(),
{
    if p1.len() == 0 {
    } else {
        assert(p1.first() == p1[0] && p2.first() == p2[0]);
        assert forall|i: int| 0 <= i < p1.drop_first().len() implies tx_encoding(
            (#[trigger] p1.drop_first()[i]).0,
        ) == tx_encoding((#[trigger] p2.drop_first()[i]).0) && receipt_encoding(
            p1.drop_first()[i].2,
        ) == receipt_encoding(p2.drop_first()[i].2) && crate::bloom::logs_view(
            p1.drop_first()[i].2.logs@,
        ) == crate::bloom::logs_view(p2.drop_first()[i].2.logs@) && p1.drop_first()[i].2.used_gas@
            == p2.drop_first()[i].2.used_gas@ by {
            assert(p1.drop_first()[i] == p1[i + 1]);
            assert(p2.drop_first()[i] == p2[i + 1]);
        }
        lemma_block_determinism(p1.drop_first(), p2.drop_first());
    }
}

/// Block determinism, part two: headers whose fields denote the same
/// bytes have the same wire encoding and therefore the same block
/// hash.
pub proof fn lemma_header_determinism(h1: Header, h2: Header)
    requires
        h1.parent_hash@ == h2.parent_hash@,
        h1.ommers_hash@ == h2.ommers_hash@,
        h1.beneficiary@ == h2.beneficiary@,
        h1.state_root@ == h2.state_root@,
        h1.transactions_root@ == h2.transactions_root@,
        h1.receipts_root@ == h2.receipts_root@,
        h1.logs_bloom@ == h2.logs_bloom@,
        h1.difficulty@ == h2.difficulty@,
        h1.number@ == h2.number@,
        h1.gas_limit@ == h2.gas_limit@,
        h1.gas_used@ == h2.gas_used@,
        h1.timestamp == h2.timestamp,
        h1.extra_data@ == h2.extra_data@,
        h1.mix_hash@ == h2.mix_hash@,
        h1.nonce64@ == h2.nonce64@,
    ensures
        header_encoding(h1) == header_encoding(h2),
        header_hash_of(h1) == header_hash_of(h2),
{
}

} // verus!
