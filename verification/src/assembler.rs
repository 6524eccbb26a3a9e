//! The block assembler: buffers per-transaction outcomes and finalizes
//! them into a block with receipts root, aggregated bloom and a
//! consensus digest.

use vstd::prelude::*;

use crate::bloom::{accrue_logs, bloom_wf, logs_bloom, logs_view, zero_bloom, Bloom};
use crate::bytes::clone_bytes;
use crate::encode::{header_hash, header_hash_of, transaction_hash, tx_encoding, tx_hash_of};
use crate::hashing::{keccak256, keccak256_of};
use crate::types::{
    zero_word, Address, Block, CallOrCreateInfo, ExitReason, Header, Log, LogV, Receipt,
    Transaction, TransactionAction, TransactionStatus, Word,
};
use crate::u256::{u256_bound, U256};
use crate::validator::{recover_signer, signer_of};

verus! {

/// The status root marking a succeeding execution: one, big-endian.
pub open spec fn success_status_root() -> Seq<u8> {
    Seq::new(32, |i: int| if i == 31 { 1u8 } else { 0u8 })
}

/// The four-byte engine tag carried by the consensus digest.
pub open spec fn engine_id_spec() -> Seq<u8> {
    seq![102u8, 114u8, 111u8, 110u8]
}

/// The engine tag as bytes.
pub fn engine_id() -> (r: Vec<u8>)
    ensures
        r@ == engine_id_spec(),
{
    let mut out: Vec<u8> = Vec::new();
    out.push(102u8);
    out.push(114u8);
    out.push(111u8);
    out.push(110u8);
    proof {
        assert(out@ =~= engine_id_spec());
    }
    out
}

/// The digest emitted at block finalization: the engine tag, the new
/// block's hash, and the hashes of its transactions in order.
#[derive(Debug)]
pub struct ConsensusDigest {
    pub engine_tag: Vec<u8>,
    pub block_hash: Word,
    pub transaction_hashes: Vec<Word>,
}

/// One buffered outcome: the transaction, its status, its receipt.
pub type PendingEntry = (Transaction, TransactionStatus, Receipt);

/// The gas consumed by the buffered receipts, in order.
pub open spec fn sum_used_gas(pending: Seq<PendingEntry>) -> nat
    decreases pending.len(),
{
    if pending.len() == 0 {
        0
    } else {
        (pending.first().2.used_gas@ + sum_used_gas(pending.drop_first())) as nat
    }
}

/// The logs of the buffered receipts, concatenated in order.
pub open spec fn block_logs(pending: Seq<PendingEntry>) -> Seq<LogV>
    decreases pending.len(),
{
    if pending.len() == 0 {
        Seq::empty()
    } else {
        logs_view(pending.first().2.logs@) + block_logs(pending.drop_first())
    }
}

/// The concatenated wire encodings of the buffered transactions.
pub open spec fn txs_payload_of(pending: Seq<PendingEntry>) -> Seq<u8>
    decreases pending.len(),
{
    if pending.len() == 0 {
        Seq::empty()
    } else {
        tx_encoding(pending.first().0) + txs_payload_of(pending.drop_first())
    }
}

/// The concatenated wire encodings of the buffered receipts.
pub open spec fn receipts_payload_of(pending: Seq<PendingEntry>) -> Seq<u8>
    decreases pending.len(),
{
    if pending.len() == 0 {
        Seq::empty()
    } else {
        crate::encode::receipt_encoding(pending.first().2) + receipts_payload_of(
            pending.drop_first(),
        )
    }
}

/// Every buffered transaction is well-formed.
pub open spec fn pending_wf(pending: Seq<PendingEntry>) -> bool {
    forall|i: int| 0 <= i < pending.len() ==> (#[trigger] pending[i]).0.wf()
}

/// Copy a word-valued success root or failure root.
fn status_root_word(succeed: bool) -> (r: Word)
    ensures
        r.wf(),
        succeed ==> r@ == success_status_root(),
        !succeed ==> r@ == zero_word(),
{
    if succeed {
        let mut bytes: Vec<u8> = Vec::new();
        let mut i: usize = 0;
        while i < 31
            invariant
                i <= 31,
                bytes@.len() == i,
                forall|j: int| 0 <= j < i ==> bytes@[j] == 0u8,
            decreases 31 - i,
        {
            bytes.push(0u8);
            i += 1;
        }
        bytes.push(1u8);
        proof {
            assert(bytes@ =~= success_status_root());
        }
        Word { bytes }
    } else {
        Word::zero()
    }
}

/// Copy a log list; the copies denote the same logs.
pub fn clone_logs(logs: &Vec<Log>) -> (r: Vec<Log>)
    ensures
        logs_view(r@) == logs_view(logs@),
{
    let mut r: Vec<Log> = Vec::new();
    let mut i: usize = 0;
    while i < logs.len()
        invariant
            i <= logs@.len(),
            r@.len() == i,
            forall|j: int| 0 <= j < i ==> #[trigger] r@[j]@ == logs@[j]@,
        decreases logs@.len() - i,
    {
        let l = &logs[i];
        r.push(l.clone_log());
        i += 1;
    }
    proof {
        assert(logs_view(r@) =~= logs_view(logs@));
    }
    r
}

/// Copy a transaction; the copy has the same wire form and hash.
pub fn clone_transaction(tx: &Transaction) -> (r: Transaction)
    requires
        tx.wf(),
    ensures
        r.wf(),
        tx_encoding(r) == tx_encoding(*tx),
        tx_hash_of(r) == tx_hash_of(*tx),
{
    let action = match &tx.action {
        TransactionAction::Call(t) => TransactionAction::Call(t.clone_addr()),
        TransactionAction::Create => TransactionAction::Create,
    };
    let r = Transaction {
        nonce: tx.nonce,
        gas_price: tx.gas_price,
        gas_limit: tx.gas_limit,
        action,
        value: tx.value,
        input: clone_bytes(&tx.input),
        signature: crate::types::TransactionSignature {
            v: tx.signature.v,
            r: tx.signature.r.clone_word(),
            s: tx.signature.s.clone_word(),
        },
    };
    proof {
        assert(crate::encode::action_encoding(r.action) == crate::encode::action_encoding(
            tx.action,
        ));
        assert(crate::encode::tx_payload(r) == crate::encode::tx_payload(*tx));
    }
    r
}

/// Copy a receipt; the copy has the same wire form and fields.
pub fn clone_receipt(rc: &Receipt) -> (r: Receipt)
    ensures
        r.state_root@ == rc.state_root@,
        r.used_gas == rc.used_gas,
        r.logs_bloom@ == rc.logs_bloom@,
        logs_view(r.logs@) == logs_view(rc.logs@),
        crate::encode::receipt_encoding(r) == crate::encode::receipt_encoding(*rc),
{
    Receipt {
        state_root: rc.state_root.clone_word(),
        used_gas: rc.used_gas,
        logs_bloom: rc.logs_bloom.clone_bloom(),
        logs: clone_logs(&rc.logs),
    }
}

/// Copy a status entry; the copy denotes the same status.
pub fn clone_status(st: &TransactionStatus) -> (r: TransactionStatus)
    ensures
        r.transaction_hash@ == st.transaction_hash@,
        r.transaction_index == st.transaction_index,
        r.from@ == st.from@,
        logs_view(r.logs@) == logs_view(st.logs@),
        r.logs_bloom@ == st.logs_bloom@,
{
    let to = match &st.to {
        Some(a) => Some(a.clone_addr()),
        None => None,
    };
    let contract_address = match &st.contract_address {
        Some(a) => Some(a.clone_addr()),
        None => None,
    };
    TransactionStatus {
        transaction_hash: st.transaction_hash.clone_word(),
        transaction_index: st.transaction_index,
        from: st.from.clone_addr(),
        to,
        contract_address,
        logs: clone_logs(&st.logs),
        logs_bloom: st.logs_bloom.clone_bloom(),
    }
}

/// The block assembler owns the pending buffer and the finalized
/// current block, receipts and statuses.
pub struct BlockAssembler {
    pub pending: Vec<PendingEntry>,
    pub current_block: Option<Block>,
    pub current_receipts: Option<Vec<Receipt>>,
    pub current_statuses: Option<Vec<TransactionStatus>>,
}

impl BlockAssembler {
    pub fn new() -> (r: BlockAssembler)
        ensures
            r.pending@.len() == 0,
            r.current_block is None,
            r.current_receipts is None,
            r.current_statuses is None,
    {
        BlockAssembler {
            pending: Vec::new(),
            current_block: None,
            current_receipts: None,
            current_statuses: None,
        }
    }

    /// Start a block: the pending buffer is cleared.
    pub fn begin(&mut self)
        ensures
            final(self).pending@.len() == 0,
            final(self).current_block == old(self).current_block,
            final(self).current_receipts == old(self).current_receipts,
            final(self).current_statuses == old(self).current_statuses,
    {
        self.pending.clear();
    }

    /// The buffered outcomes of the block under construction.
    pub fn pending_count(&self) -> (r: usize)
        ensures
            r == self.pending@.len(),
    {
        self.pending.len()
    }

    /// The finalized current block.
    pub fn current_block(&self) -> (r: &Option<Block>)
        ensures
            r == &self.current_block,
    {
        &self.current_block
    }

    /// The finalized current receipts.
    pub fn current_receipts(&self) -> (r: &Option<Vec<Receipt>>)
        ensures
            r == &self.current_receipts,
    {
        &self.current_receipts
    }

    /// The finalized current statuses.
    pub fn current_transaction_statuses(&self) -> (r: &Option<Vec<TransactionStatus>>)
        ensures
            r == &self.current_statuses,
    {
        &self.current_statuses
    }

    /// The hash of the finalized current block.
    pub fn current_block_hash(&self) -> (r: Option<Word>)
        ensures
            (match self.current_block {
                Some(b) => r matches Some(h) && h@ == header_hash_of(b.header) && h.wf(),
                None => r is None,
            }),
    {
        match &self.current_block {
            Some(b) => Some(header_hash(&b.header)),
            None => None,
        }
    }

    /// Record one executed transaction: recover its signer, derive its
    /// status and receipt from the execution outcome, and append them
    /// to the pending buffer in execution order.  Returns the signer,
    /// the created contract address if any, the transaction hash, and
    /// whether execution succeeded.
    pub fn transact(&mut self, transaction: Transaction, info: CallOrCreateInfo) -> (r: Result<
        (Address, Option<Address>, Word, bool),
        crate::types::AdmissionError,
    >)
        requires
            transaction.wf(),
            old(self).pending@.len() < u32::MAX,
        ensures
            (signer_of(transaction) is None) ==> (r == Err::<
                (Address, Option<Address>, Word, bool),
                crate::types::AdmissionError,
            >(crate::types::AdmissionError::InvalidSignature) && *final(self) == *old(self)),
            signer_of(transaction) matches Some(s) ==> (r matches Ok(out) && {
                &&& out.0@ == s
                &&& out.2@ == tx_hash_of(transaction)
                &&& out.3 == (info.exit_reason_spec() is Succeed)
                &&& (info matches CallOrCreateInfo::Create(ci) ==> out.1 matches Some(c) && c@
                    == ci.value@)
                &&& (info is Call ==> out.1 is None)
                &&& final(self).pending@.len() == old(self).pending@.len() + 1
                &&& final(self).pending@.drop_last() == old(self).pending@
                &&& {
                    let entry = final(self).pending@.last();
                    &&& entry.0.wf()
                    &&& tx_hash_of(entry.0) == tx_hash_of(transaction)
                    &&& tx_encoding(entry.0) == tx_encoding(transaction)
                    &&& (transaction.action matches TransactionAction::Call(t) ==> entry.1.to
                        matches Some(a) && a@ == t@)
                    &&& (transaction.action is Create ==> entry.1.to is None)
                    &&& (info matches CallOrCreateInfo::Create(ci) ==> entry.1.contract_address
                        matches Some(c) && c@ == ci.value@)
                    &&& (info is Call ==> entry.1.contract_address is None)
                    &&& entry.1.transaction_hash@ == tx_hash_of(transaction)
                    &&& entry.1.transaction_index == old(self).pending@.len()
                    &&& entry.1.from@ == s
                    &&& logs_view(entry.1.logs@) == logs_view(info.logs_spec())
                    &&& entry.1.logs_bloom@ == accrue_logs(
                        zero_bloom(),
                        logs_view(info.logs_spec()),
                    )
                    &&& entry.2.state_root@ == (if info.exit_reason_spec() is Succeed {
                        success_status_root()
                    } else {
                        zero_word()
                    })
                    &&& entry.2.used_gas@ == info.used_gas_spec()
                    &&& logs_view(entry.2.logs@) == logs_view(info.logs_spec())
                    &&& entry.2.logs_bloom@ == accrue_logs(
                        zero_bloom(),
                        logs_view(info.logs_spec()),
                    )
                }
                &&& final(self).current_block == old(self).current_block
                &&& final(self).current_receipts == old(self).current_receipts
                &&& final(self).current_statuses == old(self).current_statuses
            }),
    {
        let source = match recover_signer(&transaction) {
            Some(s) => s,
            None => {
                return Err(crate::types::AdmissionError::InvalidSignature);
            },
        };
        let tx_hash = transaction_hash(&transaction);
        let transaction_index = self.pending.len() as u32;
        let to: Option<Address> = match &transaction.action {
            TransactionAction::Call(t) => Some(t.clone_addr()),
            TransactionAction::Create => None,
        };
        let (contract_address, succeed, used_gas, logs): (
            Option<Address>,
            bool,
            U256,
            Vec<Log>,
        ) = match info {
            CallOrCreateInfo::Call(ci) => {
                let succeed = match &ci.exit_reason {
                    ExitReason::Succeed(_) => true,
                    _ => false,
                };
                (None, succeed, ci.used_gas, ci.logs)
            },
            CallOrCreateInfo::Create(ci) => {
                let succeed = match &ci.exit_reason {
                    ExitReason::Succeed(_) => true,
                    _ => false,
                };
                (Some(ci.value), succeed, ci.used_gas, ci.logs)
            },
        };
        let mut bloom = Bloom::new_empty();
        logs_bloom(&logs, &mut bloom);
        let status = TransactionStatus {
            transaction_hash: tx_hash.clone_word(),
            transaction_index,
            from: source.clone_addr(),
            to,
            contract_address: match &contract_address {
                Some(a) => Some(a.clone_addr()),
                None => None,
            },
            logs: clone_logs(&logs),
            logs_bloom: bloom.clone_bloom(),
        };
        let receipt = Receipt {
            state_root: status_root_word(succeed),
            used_gas,
            logs_bloom: bloom,
            logs,
        };
        let entry_tx = clone_transaction(&transaction);
        let ghost pending_before = self.pending@;
        self.pending.push((entry_tx, status, receipt));
        proof {
            assert(self.pending@.drop_last() =~= pending_before);
        }
        Ok((source, contract_address, tx_hash, succeed))
    }

    /// Finalize the block under construction: assemble the header from
    /// the buffered outcomes (receipts root, aggregated bloom, summed
    /// gas), replace the current block, receipts and statuses, and
    /// return the consensus digest with the block hash and the
    /// transaction hashes in order.  The pending buffer is left for
    /// the next `begin` to clear.
    pub fn store_block(
        &mut self,
        author: Address,
        state_root: Word,
        block_number: U256,
        block_gas_limit: U256,
        timestamp: u64,
    ) -> (r: ConsensusDigest)
        requires
            author.wf(),
            state_root.wf(),
            pending_wf(old(self).pending@),
            sum_used_gas(old(self).pending@) < u256_bound(),
        ensures
            final(self).pending@ == old(self).pending@,
            r.engine_tag@ == engine_id_spec(),
            r.transaction_hashes@.len() == old(self).pending@.len(),
            forall|i: int|
                0 <= i < old(self).pending@.len() ==> (#[trigger] r.transaction_hashes@[i])@
                    == tx_hash_of(old(self).pending@[i].0),
            final(self).current_block matches Some(b) && {
                &&& b.header.parent_hash@ == (match old(self).current_block {
                    Some(cb) => header_hash_of(cb.header),
                    None => zero_word(),
                })
                &&& b.header.ommers_hash@ == keccak256_of(
                    crate::rlp::rlp_list_of(Seq::<u8>::empty()),
                )
                &&& b.header.beneficiary@ == author@
                &&& b.header.state_root@ == state_root@
                &&& b.header.transactions_root@ == keccak256_of(
                    crate::rlp::rlp_list_of(txs_payload_of(old(self).pending@)),
                )
                &&& b.header.receipts_root@ == keccak256_of(
                    crate::rlp::rlp_list_of(receipts_payload_of(old(self).pending@)),
                )
                &&& b.header.logs_bloom@ == accrue_logs(
                    zero_bloom(),
                    block_logs(old(self).pending@),
                )
                &&& b.header.difficulty@ == 0
                &&& b.header.number == block_number
                &&& b.header.gas_limit == block_gas_limit
                &&& b.header.gas_used@ == sum_used_gas(old(self).pending@)
                &&& b.header.timestamp == timestamp
                &&& b.header.extra_data@ == Seq::<u8>::empty()
                &&& b.header.mix_hash@ == zero_word()
                &&& b.header.nonce64@ == Seq::new(8, |i: int| 0u8)
                &&& b.transactions@.len() == old(self).pending@.len()
                &&& b.ommers@.len() == 0
                &&& r.block_hash@ == header_hash_of(b.header)
            },
            final(self).current_receipts matches Some(rs) && rs@.len() == old(
                self,
            ).pending@.len() && (forall|i: int|
                0 <= i < rs@.len() ==> crate::encode::receipt_encoding(#[trigger] rs@[i])
                    == crate::encode::receipt_encoding(old(self).pending@[i].2)),
            final(self).current_statuses matches Some(sts) && sts@.len() == old(
                self,
            ).pending@.len(),
    {
        let ghost p0 = self.pending@;
        let mut transactions: Vec<Transaction> = Vec::new();
        let mut statuses: Vec<TransactionStatus> = Vec::new();
        let mut receipts: Vec<Receipt> = Vec::new();
        let mut txs_enc: Vec<u8> = Vec::new();
        let mut rcs_enc: Vec<u8> = Vec::new();
        let mut block_bloom = Bloom::new_empty();
        let mut gas_used = U256::zero();
        let mut i: usize = 0;
        proof {
            assert(p0.skip(0) =~= p0);
        }
        while i < self.pending.len()
            invariant
                i <= p0.len(),
                self.pending@ == p0,
                pending_wf(p0),
                sum_used_gas(p0) < u256_bound(),
                transactions@.len() == i,
                statuses@.len() == i,
                receipts@.len() == i,
                forall|j: int|
                    0 <= j < i ==> (#[trigger] transactions@[j]).wf() && tx_encoding(
                        transactions@[j],
                    ) == tx_encoding(p0[j].0) && tx_hash_of(transactions@[j]) == tx_hash_of(
                        p0[j].0,
                    ),
                forall|j: int|
                    0 <= j < i ==> crate::encode::receipt_encoding(#[trigger] receipts@[j])
                        == crate::encode::receipt_encoding(p0[j].2),
                txs_payload_of(p0) == txs_enc@ + txs_payload_of(p0.skip(i as int)),
                receipts_payload_of(p0) == rcs_enc@ + receipts_payload_of(p0.skip(i as int)),
                bloom_wf(block_bloom@),
                accrue_logs(zero_bloom(), block_logs(p0)) == accrue_logs(
                    block_bloom@,
                    block_logs(p0.skip(i as int)),
                ),
                sum_used_gas(p0) == gas_used@ + sum_used_gas(p0.skip(i as int)),
            decreases p0.len() - i,
        {
            proof {
                assert(p0.skip(i as int).first() == p0[i as int]);
                assert(p0.skip(i as int).drop_first() =~= p0.skip(i + 1));
            }
            let e = &self.pending[i];
            let tx = clone_transaction(&e.0);
            let tx_bytes = crate::encode::encode_transaction(&tx);
            crate::rlp::append_bytes(&mut txs_enc, &tx_bytes);
            transactions.push(tx);
            statuses.push(clone_status(&e.1));
            let rc = clone_receipt(&e.2);
            crate::encode::encode_receipt_into(&mut rcs_enc, &rc);
            let ghost bloom_pre = block_bloom@;
            logs_bloom(&rc.logs, &mut block_bloom);
            proof {
                crate::bloom::lemma_accrue_logs_concat(
                    bloom_pre,
                    logs_view(p0[i as int].2.logs@),
                    block_logs(p0.skip(i + 1)),
                );
            }
            let new_gas = match gas_used.checked_add(&rc.used_gas) {
                Some(g) => g,
                None => {
                    proof {
                        assert(sum_used_gas(p0.skip(i as int)) >= rc.used_gas@);
                        assert(false);
                    }
                    U256::zero()
                },
            };
            gas_used = new_gas;
            receipts.push(rc);
            proof {
                assert(txs_payload_of(p0) =~= txs_enc@ + txs_payload_of(p0.skip(i + 1)));
                assert(receipts_payload_of(p0) =~= rcs_enc@ + receipts_payload_of(p0.skip(i + 1)));
            }
            i += 1;
        }
        proof {
            assert(p0.skip(p0.len() as int) =~= Seq::<PendingEntry>::empty());
            assert(txs_enc@ + Seq::<u8>::empty() =~= txs_enc@);
            assert(rcs_enc@ + Seq::<u8>::empty() =~= rcs_enc@);
            assert(txs_enc@ == txs_payload_of(p0));
            assert(rcs_enc@ == receipts_payload_of(p0));
        }
        let parent_hash = match self.current_block_hash() {
            Some(h) => h,
            None => Word::zero(),
        };
        let empty_payload: Vec<u8> = Vec::new();
        let ommers_list = crate::rlp::encode_list_payload(&empty_payload);
        let ommers_hash = Word::new(keccak256(&ommers_list));
        let txs_list = crate::rlp::encode_list_payload(&txs_enc);
        let transactions_root = Word::new(keccak256(&txs_list));
        let rcs_list = crate::rlp::encode_list_payload(&rcs_enc);
        let receipts_root = Word::new(keccak256(&rcs_list));
        let mut nonce64: Vec<u8> = Vec::new();
        let mut k: usize = 0;
        while k < 8
            invariant
                k <= 8,
                nonce64@.len() == k,
                forall|j: int| 0 <= j < k ==> nonce64@[j] == 0u8,
            decreases 8 - k,
        {
            nonce64.push(0u8);
            k += 1;
        }
        proof {
            assert(nonce64@ =~= Seq::new(8, |i: int| 0u8));
        }
        let header = Header {
            parent_hash,
            ommers_hash,
            beneficiary: author,
            state_root,
            transactions_root,
            receipts_root,
            logs_bloom: block_bloom,
            difficulty: U256::zero(),
            number: block_number,
            gas_limit: block_gas_limit,
            gas_used,
            timestamp,
            extra_data: Vec::new(),
            mix_hash: Word::zero(),
            nonce64,
        };
        let block_hash = header_hash(&header);
        let mut transaction_hashes: Vec<Word> = Vec::new();
        let mut t: usize = 0;
        while t < transactions.len()
            invariant
                t <= transactions@.len(),
                transactions@.len() == p0.len(),
                transaction_hashes@.len() == t,
                forall|j: int|
                    0 <= j < transactions@.len() ==> (#[trigger] transactions@[j]).wf()
                        && tx_hash_of(transactions@[j]) == tx_hash_of(p0[j].0),
                forall|j: int|
                    0 <= j < t ==> (#[trigger] transaction_hashes@[j])@ == tx_hash_of(p0[j].0),
            decreases transactions@.len() - t,
        {
            let h = transaction_hash(&transactions[t]);
            transaction_hashes.push(h);
            t += 1;
        }
        let block = Block { header, transactions, ommers: Vec::new() };
        self.current_block = Some(block);
        self.current_receipts = Some(receipts);
        self.current_statuses = Some(statuses);
        ConsensusDigest {
            engine_tag: engine_id(),
            block_hash,
            transaction_hashes,
        }
    }
}

} // verus!
