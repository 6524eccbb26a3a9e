//! Core object model: addresses, words, accounts, logs, transactions,
//! receipts and the tagged execution outcomes.

use vstd::prelude::*;

use crate::bloom::Bloom;
use crate::bytes::clone_bytes;
use crate::u256::U256;

verus! {

/// A 160-bit account address; well-formed values hold exactly 20 bytes.
#[derive(Debug)]
pub struct Address {
    pub bytes: Vec<u8>,
}

/// The all-zero address.
pub open spec fn zero_address() -> Seq<u8> {
    Seq::new(20, |i: int| 0u8)
}

impl View for Address {
    type V = Seq<u8>;

    open spec fn view(&self) -> Seq<u8> {
        self.bytes@
    }
}

impl Address {
    pub open spec fn wf(&self) -> bool {
        self@.len() == 20
    }

    pub fn new(bytes: Vec<u8>) -> (r: Address)
        requires
            bytes@.len() == 20,
        ensures
            r@ == bytes@,
            r.wf(),
    {
        Address { bytes }
    }

    pub fn zero() -> (r: Address)
        ensures
            r.wf(),
            r@ == zero_address(),
    {
        let mut bytes: Vec<u8> = Vec::new();
        let mut i: usize = 0;
        while i < 20
            invariant
                i <= 20,
                bytes@.len() == i,
                forall|j: int| 0 <= j < i ==> bytes@[j] == 0u8,
            decreases 20 - i,
        {
            bytes.push(0u8);
            i += 1;
        }
        proof {
            assert(bytes@ =~= zero_address());
        }
        Address { bytes }
    }

    pub fn clone_addr(&self) -> (r: Address)
        ensures
            r@ == self@,
    {
        Address { bytes: clone_bytes(&self.bytes) }
    }

    pub fn eq_addr(&self, other: &Address) -> (r: bool)
        ensures
            r == (self@ == other@),
    {
        crate::bytes::bytes_eq(&self.bytes, &other.bytes)
    }
}

/// A 256-bit word (storage keys and values, hashes, topics); well-formed
/// values hold exactly 32 bytes.
#[derive(Debug)]
pub struct Word {
    pub bytes: Vec<u8>,
}

/// The all-zero word, which also stands for an absent storage slot.
pub open spec fn zero_word() -> Seq<u8> {
    Seq::new(32, |i: int| 0u8)
}

impl View for Word {
    type V = Seq<u8>;

    open spec fn view(&self) -> Seq<u8> {
        self.bytes@
    }
}

impl Word {
    pub open spec fn wf(&self) -> bool {
        self@.len() == 32
    }

    pub fn new(bytes: Vec<u8>) -> (r: Word)
        requires
            bytes@.len() == 32,
        ensures
            r@ == bytes@,
            r.wf(),
    {
        Word { bytes }
    }

    pub fn zero() -> (r: Word)
        ensures
            r.wf(),
            r@ == zero_word(),
    {
        let mut bytes: Vec<u8> = Vec::new();
        let mut i: usize = 0;
        while i < 32
            invariant
                i <= 32,
                bytes@.len() == i,
                forall|j: int| 0 <= j < i ==> bytes@[j] == 0u8,
            decreases 32 - i,
        {
            bytes.push(0u8);
            i += 1;
        }
        proof {
            assert(bytes@ =~= zero_word());
        }
        Word { bytes }
    }

    pub fn clone_word(&self) -> (r: Word)
        ensures
            r@ == self@,
    {
        Word { bytes: clone_bytes(&self.bytes) }
    }

    pub fn eq_word(&self, other: &Word) -> (r: bool)
        ensures
            r == (self@ == other@),
    {
        crate::bytes::bytes_eq(&self.bytes, &other.bytes)
    }

    pub fn is_zero(&self) -> (r: bool)
        requires
            self.wf(),
        ensures
            r == (self@ == zero_word()),
    {
        let mut i: usize = 0;
        while i < 32
            invariant
                i <= 32,
                self@.len() == 32,
                forall|j: int| 0 <= j < i ==> self@[j] == 0u8,
            decreases 32 - i,
        {
            if self.bytes[i] != 0u8 {
                proof {
                    assert(self@[i as int] != zero_word()[i as int]);
                }
                return false;
            }
            i += 1;
        }
        proof {
            assert(self@ =~= zero_word());
        }
        true
    }

    /// The word holding the 32-byte big-endian form of a 256-bit value.
    pub fn from_u256(v: &U256) -> (r: Word)
        ensures
            r.wf(),
            crate::bytes::be_val(r@) == v@,
    {
        Word { bytes: v.to_be_bytes32() }
    }
}

/// Account state: nonce and balance, both 256-bit.
#[derive(Clone, Copy, Debug, PartialEq, Eq, Structural)]
pub struct Account {
    pub nonce: U256,
    pub balance: U256,
}

/// The mathematical account model.
pub struct AccountV {
    pub nonce: nat,
    pub balance: nat,
}

impl View for Account {
    type V = AccountV;

    open spec fn view(&self) -> AccountV {
        AccountV { nonce: self.nonce@, balance: self.balance@ }
    }
}

impl Account {
    /// The account every unknown address maps to.
    pub fn empty() -> (r: Account)
        ensures
            r@.nonce == 0,
            r@.balance == 0,
    {
        Account { nonce: U256::zero(), balance: U256::zero() }
    }
}

/// A log emitted by execution: source address, topic words, payload.
#[derive(Debug)]
pub struct Log {
    pub address: Address,
    pub topics: Vec<Word>,
    pub data: Vec<u8>,
}

/// The mathematical log model.
pub struct LogV {
    pub address: Seq<u8>,
    pub topics: Seq<Seq<u8>>,
    pub data: Seq<u8>,
}

impl View for Log {
    type V = LogV;

    open spec fn view(&self) -> LogV {
        LogV {
            address: self.address@,
            topics: self.topics@.map_values(|w: Word| w@),
            data: self.data@,
        }
    }
}

impl Log {
    pub open spec fn wf(&self) -> bool {
        &&& self.address.wf()
        &&& forall|i: int| 0 <= i < self.topics@.len() ==> (#[trigger] self.topics@[i]).wf()
    }

    pub fn clone_log(&self) -> (r: Log)
        ensures
            r@ == self@,
            self.wf() ==> r.wf(),
    {
        let mut topics: Vec<Word> = Vec::new();
        let mut i: usize = 0;
        while i < self.topics.len()
            invariant
                i <= self.topics@.len(),
                topics@.len() == i,
                forall|j: int| 0 <= j < i ==> #[trigger] topics@[j]@ == self.topics@[j]@,
            decreases self.topics@.len() - i,
        {
            let t = &self.topics[i];
            topics.push(t.clone_word());
            i += 1;
        }
        let r = Log {
            address: self.address.clone_addr(),
            topics,
            data: clone_bytes(&self.data),
        };
        proof {
            assert(r@.topics =~= self@.topics);
        }
        r
    }
}

/// Immutable per-transaction context handed to the state backend.
#[derive(Debug)]
pub struct Vicinity {
    pub gas_price: U256,
    pub origin: Address,
}

/// The four-way tagged outcome of one execution: bytes for success and
/// revert, the interpreter status code otherwise.
#[derive(Debug)]
pub enum ExitReason {
    Succeed(Vec<u8>),
    Error(i32),
    Revert(Vec<u8>),
    Fatal(i32),
}

/// What a transaction asks for: a call to a target, or contract creation.
#[derive(Debug)]
pub enum TransactionAction {
    Call(Address),
    Create,
}

/// A recoverable ECDSA signature: the replay-protection byte `v` and the
/// two curve points as 32-byte words.
#[derive(Debug)]
pub struct TransactionSignature {
    pub v: u64,
    pub r: Word,
    pub s: Word,
}

/// The chain identifier a signature declares, when it declares one.
pub open spec fn sig_chain_id(v: u64) -> Option<u64> {
    if v > 36 {
        Some((((v - 35) / 2) as u64))
    } else {
        None
    }
}

/// The normalized recovery bit of a signature.
pub open spec fn sig_standard_v(v: u64) -> u8 {
    (((v - 1) % 2) as u8)
}

impl TransactionSignature {
    pub open spec fn wf(&self) -> bool {
        &&& self.r.wf()
        &&& self.s.wf()
        &&& (self.v == 27 || self.v == 28 || self.v >= 35)
    }

    pub fn chain_id(&self) -> (r: Option<u64>)
        ensures
            r == sig_chain_id(self.v),
    {
        if self.v > 36 {
            Some((self.v - 35) / 2)
        } else {
            None
        }
    }

    pub fn standard_v(&self) -> (r: u8)
        requires
            self.wf(),
        ensures
            r == sig_standard_v(self.v),
            r < 2,
    {
        ((self.v - 1) % 2) as u8
    }
}

/// A decoded transaction, as the admission entry point receives it.
#[derive(Debug)]
pub struct Transaction {
    pub nonce: U256,
    pub gas_price: U256,
    pub gas_limit: U256,
    pub action: TransactionAction,
    pub value: U256,
    pub input: Vec<u8>,
    pub signature: TransactionSignature,
}

impl Transaction {
    pub open spec fn wf(&self) -> bool {
        &&& self.signature.wf()
        &&& (self.action matches TransactionAction::Call(a) ==> a.wf())
    }
}

/// Post-execution record of one transaction.
#[derive(Debug)]
pub struct Receipt {
    pub state_root: Word,
    pub used_gas: U256,
    pub logs_bloom: Bloom,
    pub logs: Vec<Log>,
}

/// Status entry produced alongside a receipt.
#[derive(Debug)]
pub struct TransactionStatus {
    pub transaction_hash: Word,
    pub transaction_index: u32,
    pub from: Address,
    pub to: Option<Address>,
    pub contract_address: Option<Address>,
    pub logs: Vec<Log>,
    pub logs_bloom: Bloom,
}

/// A block header, in the fifteen-field wire layout.
#[derive(Debug)]
pub struct Header {
    pub parent_hash: Word,
    pub ommers_hash: Word,
    pub beneficiary: Address,
    pub state_root: Word,
    pub transactions_root: Word,
    pub receipts_root: Word,
    pub logs_bloom: Bloom,
    pub difficulty: U256,
    pub number: U256,
    pub gas_limit: U256,
    pub gas_used: U256,
    pub timestamp: u64,
    pub extra_data: Vec<u8>,
    pub mix_hash: Word,
    pub nonce64: Vec<u8>,
}

impl Header {
    pub open spec fn wf(&self) -> bool {
        &&& self.parent_hash.wf()
        &&& self.ommers_hash.wf()
        &&& self.beneficiary.wf()
        &&& self.state_root.wf()
        &&& self.transactions_root.wf()
        &&& self.receipts_root.wf()
        &&& crate::bloom::bloom_wf(self.logs_bloom@)
        &&& self.mix_hash.wf()
        &&& self.nonce64@.len() == 8
    }
}

/// An assembled block: header, transaction list, and the (always empty)
/// ommer list.
#[derive(Debug)]
pub struct Block {
    pub header: Header,
    pub transactions: Vec<Transaction>,
    pub ommers: Vec<Header>,
}

/// What the interpreter reports for one call: exit reason, returned
/// bytes, gas consumed, logs emitted.
#[derive(Debug)]
pub struct CallInfo {
    pub exit_reason: ExitReason,
    pub value: Vec<u8>,
    pub used_gas: U256,
    pub logs: Vec<Log>,
}

/// What the interpreter reports for one creation: exit reason, the
/// created address, gas consumed, logs emitted.
#[derive(Debug)]
pub struct CreateInfo {
    pub exit_reason: ExitReason,
    pub value: Address,
    pub used_gas: U256,
    pub logs: Vec<Log>,
}

/// One executed transaction's interpreter outcome.
#[derive(Debug)]
pub enum CallOrCreateInfo {
    Call(CallInfo),
    Create(CreateInfo),
}

impl CallOrCreateInfo {
    /// The exit reason of either outcome form.
    pub open spec fn exit_reason_spec(&self) -> ExitReason {
        match self {
            CallOrCreateInfo::Call(ci) => ci.exit_reason,
            CallOrCreateInfo::Create(ci) => ci.exit_reason,
        }
    }

    /// The emitted logs of either outcome form.
    pub open spec fn logs_spec(&self) -> Seq<Log> {
        match self {
            CallOrCreateInfo::Call(ci) => ci.logs@,
            CallOrCreateInfo::Create(ci) => ci.logs@,
        }
    }

    /// The gas consumption of either outcome form.
    pub open spec fn used_gas_spec(&self) -> nat {
        match self {
            CallOrCreateInfo::Call(ci) => ci.used_gas@,
            CallOrCreateInfo::Create(ci) => ci.used_gas@,
        }
    }
}

/// A value handed back by a dispatched transaction: raw bytes for a call,
/// the created address for a creation.
#[derive(Debug)]
pub enum ReturnValue {
    Bytes(Vec<u8>),
    Hash(Address),
}

/// Why a transaction was refused admission.
#[derive(Clone, Copy, Debug, PartialEq, Eq, Structural)]
pub enum AdmissionError {
    InvalidSignature,
    InvalidChainId,
    Stale,
    Payment,
}

/// Errors of direct state operations.
#[derive(Clone, Copy, Debug, PartialEq, Eq, Structural)]
pub enum StateError {
    BalanceLow,
    FeeOverflow,
    PaymentOverflow,
    InvalidNonce,
}

/// The invocation kinds of the host-interface ABI.
#[derive(Clone, Copy, Debug, PartialEq, Eq, Structural)]
pub enum CallKind {
    Call,
    DelegateCall,
    CallCode,
    Create,
    Create2,
}

/// What a storage write did, as reported through the host interface.
#[derive(Clone, Copy, Debug, PartialEq, Eq, Structural)]
pub enum StorageStatus {
    Unchanged,
    Modified,
    Deleted,
}

/// The address a hashed account identifier truncates to: its low
/// twenty bytes, left-padded with zeros when the hash is shorter.
pub open spec fn truncated_address(hashed: Seq<u8>) -> Seq<u8> {
    if hashed.len() >= 20 {
        hashed.skip(hashed.len() - 20)
    } else {
        Seq::new((20 - hashed.len()) as nat, |i: int| 0u8) + hashed
    }
}

/// Maps host account identifiers to engine addresses by hashing and
/// truncating; the caller supplies the hash bytes.
#[derive(Debug)]
pub struct HashTruncateConvertAccountId;

impl HashTruncateConvertAccountId {
    /// Right-align a hashed account identifier into a 20-byte address.
    pub fn convert_account_id(hashed: &Vec<u8>) -> (r: Address)
        ensures
            r@ == truncated_address(hashed@),
            r.wf(),
    {
        let mut bytes: Vec<u8> = Vec::new();
        if hashed.len() >= 20 {
            let start = hashed.len() - 20;
            let mut i: usize = start;
            while i < hashed.len()
                invariant
                    start == hashed@.len() - 20,
                    start <= i <= hashed@.len(),
                    bytes@ == hashed@.subrange(start as int, i as int),
                decreases hashed@.len() - i,
            {
                bytes.push(hashed[i]);
                proof {
                    assert(hashed@.subrange(start as int, i + 1) =~= hashed@.subrange(
                        start as int,
                        i as int,
                    ).push(hashed@[i as int]));
                }
                i += 1;
            }
            proof {
                assert(hashed@.subrange(start as int, hashed@.len() as int) =~= hashed@.skip(
                    start as int,
                ));
            }
        } else {
            let pad = 20 - hashed.len();
            let mut i: usize = 0;
            while i < pad
                invariant
                    pad == 20 - hashed@.len(),
                    i <= pad,
                    bytes@.len() == i,
                    forall|j: int| 0 <= j < i ==> bytes@[j] == 0u8,
                decreases pad - i,
            {
                bytes.push(0u8);
                i += 1;
            }
            let mut k: usize = 0;
            while k < hashed.len()
                invariant
                    pad == 20 - hashed@.len(),
                    k <= hashed@.len(),
                    bytes@.len() == pad + k,
                    forall|j: int| 0 <= j < pad ==> bytes@[j] == 0u8,
                    forall|j: int| 0 <= j < k ==> bytes@[pad + j] == hashed@[j],
                decreases hashed@.len() - k,
            {
                bytes.push(hashed[k]);
                k += 1;
            }
            proof {
                assert(bytes@ =~= truncated_address(hashed@));
            }
        }
        Address::new(bytes)
    }
}

} // verus!
