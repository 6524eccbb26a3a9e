//! The execution dispatcher and the host-interface bridge.
//!
//! The dispatcher decides call against create, answers precompiled
//! addresses directly, and otherwise prepares an invocation plan for an
//! external interpreter; a separate step folds the interpreter's
//! outcome back into the state.  The bridge translates the
//! interpreter's callbacks into state-backend operations.

use vstd::prelude::*;

use crate::bytes::be_val;
use crate::hashing::{keccak256_of, sha256, sha256_of};
use crate::state::{
    account_or_default, apply_storage_item, code_or_empty, storage_or_zero, Backend,
};
use crate::types::{
    zero_address, zero_word, Address, CallKind, ExitReason, Log, StorageStatus, TransactionAction,
    Word,
};
use crate::u256::{u256_bound, U256};

verus! {

/// The interpreter status code for success.
pub const VM_SUCCESS: i32 = 0;

/// The interpreter status code for an explicit revert.
pub const VM_REVERT: i32 = 2;

/// The address whose precompiled function is SHA-256 of the input.
pub open spec fn sha256_precompile() -> Seq<u8> {
    Seq::new(20, |i: int| if i == 19 { 2u8 } else { 0u8 })
}

/// The address whose precompiled function is Keccak-256 of the input.
pub open spec fn keccak_precompile() -> Seq<u8> {
    Seq::new(20, |i: int| if i == 19 { 9u8 } else { 0u8 })
}

/// Whether an address is the fixed precompile address ending in `last`.
fn is_fixed_address(address: &Address, last: u8) -> (r: bool)
    requires
        address.wf(),
    ensures
        r == (address@ == Seq::new(20, |i: int| if i == 19 { last } else { 0u8 })),
{
    let ghost target = Seq::new(20, |i: int| if i == 19 { last } else { 0u8 });
    let mut i: usize = 0;
    while i < 19
        invariant
            i <= 19,
            address@.len() == 20,
            target == Seq::new(20, |j: int| if j == 19 { last } else { 0u8 }),
            forall|j: int| 0 <= j < i ==> address@[j] == 0u8,
        decreases 19 - i,
    {
        if address.bytes[i] != 0 {
            proof {
                assert(address@[i as int] != target[i as int]);
            }
            return false;
        }
        i += 1;
    }
    if address.bytes[19] != last {
        proof {
            assert(address@[19] != target[19]);
        }
        return false;
    }
    proof {
        assert(address@ =~= target);
    }
    true
}

/// What one precompiled call produces: a hit flag, the output bytes,
/// and the gas handed back (the full requested gas: the reference
/// metering treats a precompiled call as consuming its whole budget).
pub open spec fn precompile_hit(target: Seq<u8>) -> bool {
    target == sha256_precompile() || target == keccak_precompile()
}

pub open spec fn precompile_output(target: Seq<u8>, data: Seq<u8>) -> Seq<u8> {
    if target == sha256_precompile() {
        sha256_of(data)
    } else if target == keccak_precompile() {
        keccak256_of(data)
    } else {
        seq![0u8]
    }
}

/// Run the fixed table of precompiled functions against a target
/// address: SHA-256 and Keccak-256, each answering with the full
/// requested gas; a miss returns a one-byte placeholder output.
pub fn execute_precompiles(
    target: &Address,
    _value: &U256,
    data: &Vec<u8>,
    gas_limit: &u32,
    _gas_price: &U256,
) -> (r: (bool, Vec<u8>, i64))
    requires
        target.wf(),
    ensures
        r.0 == precompile_hit(target@),
        r.1@ == precompile_output(target@, data@),
        r.2 == *gas_limit as i64,
{
    if is_fixed_address(target, 2) {
        let out = sha256(data);
        (true, out, *gas_limit as i64)
    } else if is_fixed_address(target, 9) {
        proof {
            assert(sha256_precompile()[19] != keccak_precompile()[19]);
        }
        let out = crate::hashing::keccak256(data);
        (true, out, *gas_limit as i64)
    } else {
        let mut out: Vec<u8> = Vec::new();
        out.push(0u8);
        proof {
            assert(out@ =~= seq![0u8]);
        }
        (false, out, *gas_limit as i64)
    }
}

/// The per-transaction and per-block context handed to the interpreter.
#[derive(Debug)]
pub struct TxContext {
    pub tx_gas_price: U256,
    pub tx_origin: Address,
    pub block_coinbase: Address,
    pub block_number: i64,
    pub block_timestamp: i64,
    pub block_gas_limit: i64,
    pub block_difficulty: U256,
    pub chain_id: U256,
}

impl TxContext {
    pub open spec fn wf(&self) -> bool {
        &&& self.tx_origin.wf()
        &&& self.block_coinbase.wf()
    }

    pub fn new(
        tx_gas_price: U256,
        tx_origin: Address,
        block_coinbase: Address,
        block_number: i64,
        block_timestamp: i64,
        block_gas_limit: i64,
        block_difficulty: U256,
        chain_id: U256,
    ) -> (r: TxContext)
        ensures
            r.tx_gas_price == tx_gas_price,
            r.tx_origin == tx_origin,
            r.block_coinbase == block_coinbase,
            r.block_number == block_number,
            r.block_timestamp == block_timestamp,
            r.block_gas_limit == block_gas_limit,
            r.block_difficulty == block_difficulty,
            r.chain_id == chain_id,
    {
        TxContext {
            tx_gas_price,
            tx_origin,
            block_coinbase,
            block_number,
            block_timestamp,
            block_gas_limit,
            block_difficulty,
            chain_id,
        }
    }
}

/// Everything an external interpreter needs for one run.
#[derive(Debug)]
pub struct VmInvocation {
    pub kind: CallKind,
    pub source: Address,
    pub target: Address,
    pub value: U256,
    pub data: Vec<u8>,
    pub code: Vec<u8>,
    pub gas_limit: u32,
    pub tx_context: TxContext,
    pub depth: i32,
}

/// The dispatcher's decision: already answered (precompiled), or an
/// invocation to hand to the interpreter.
#[derive(Debug)]
pub enum ExecPlan {
    Done { output: Vec<u8>, gas_left: i64, status_code: i32 },
    RunVm(VmInvocation),
}

/// The code an invocation runs: the target's stored code for a call,
/// the supplied data for a creation (and for the remaining kinds).
pub open spec fn invocation_code(
    state: crate::state::StateV,
    kind: CallKind,
    target: Seq<u8>,
    data: Seq<u8>,
) -> Seq<u8> {
    match kind {
        CallKind::Call => code_or_empty(state, target),
        _ => data,
    }
}

/// Decide one raw execution: answer a precompiled target directly,
/// otherwise assemble the interpreter invocation (code selection and
/// context) without running it.
pub fn execute_ssvm_prepare(
    backend: &Backend,
    source: Address,
    target: Address,
    value: U256,
    data: Vec<u8>,
    gas_limit: u32,
    gas_price: U256,
    _nonce: U256,
    call_kind: CallKind,
) -> (r: ExecPlan)
    requires
        backend.wf(),
        source.wf(),
        target.wf(),
        backend.ctx.block_number <= i64::MAX,
        backend.ctx.timestamp <= i64::MAX,
    ensures
        precompile_hit(target@) ==> (r matches ExecPlan::Done { output, gas_left, status_code }
            && output@ == precompile_output(target@, data@) && gas_left == gas_limit as i64
            && status_code == VM_SUCCESS),
        !precompile_hit(target@) ==> (r matches ExecPlan::RunVm(inv) && inv.kind == call_kind
            && inv.source@ == source@ && inv.target@ == target@ && inv.value == value && inv.data@
            == data@ && inv.code@ == invocation_code(backend.state(), call_kind, target@, data@)
            && inv.gas_limit == gas_limit && inv.depth == 0 && inv.tx_context.tx_gas_price
            == gas_price && inv.tx_context.tx_origin@ == source@ && inv.tx_context.block_coinbase@
            == zero_address() && inv.tx_context.block_number == backend.ctx.block_number as i64
            && inv.tx_context.block_timestamp == backend.ctx.timestamp as i64
            && inv.tx_context.block_gas_limit == gas_limit as i64
            && inv.tx_context.block_difficulty@ == 0 && inv.tx_context.chain_id@
            == backend.ctx.chain_id),
{
    let (hit, output, gas_left) = execute_precompiles(&target, &value, &data, &gas_limit,
        &gas_price);
    if hit {
        return ExecPlan::Done { output, gas_left, status_code: VM_SUCCESS };
    }
    let code = match call_kind {
        CallKind::Call => backend.code(&target),
        _ => crate::bytes::clone_bytes(&data),
    };
    let coinbase = Address::zero();
    let difficulty = U256::zero();
    let chain = backend.chain_id();
    let tx_context = TxContext::new(
        gas_price,
        source.clone_addr(),
        coinbase,
        backend.ctx.block_number as i64,
        backend.ctx.timestamp as i64,
        gas_limit as i64,
        difficulty,
        chain,
    );
    ExecPlan::RunVm(
        VmInvocation {
            kind: call_kind,
            source,
            target,
            value,
            data,
            code,
            gas_limit,
            tx_context,
            depth: 0,
        },
    )
}

/// Fold an interpreter outcome into the four-way exit reason.
pub fn exit_reason_of_status(status_code: i32, output: Vec<u8>) -> (r: ExitReason)
    ensures
        status_code == VM_SUCCESS ==> (r matches ExitReason::Succeed(o) && o@ == output@),
        status_code == VM_REVERT ==> (r matches ExitReason::Revert(o) && o@ == output@),
        status_code < 0 ==> (r matches ExitReason::Fatal(c) && c == status_code),
        (status_code > 0 && status_code != VM_REVERT) ==> (r matches ExitReason::Error(c) && c
            == status_code),
{
    if status_code == VM_SUCCESS {
        ExitReason::Succeed(output)
    } else if status_code == VM_REVERT {
        ExitReason::Revert(output)
    } else if status_code < 0 {
        ExitReason::Fatal(status_code)
    } else {
        ExitReason::Error(status_code)
    }
}

/// Book a finished creation: the produced bytes become the contract's
/// code and the creator's nonce steps forward.
pub fn finish_create(backend: &mut Backend, source: &Address, created: Address, output: Vec<u8>)
    requires
        old(backend).wf(),
        source.wf(),
        created.wf(),
        account_or_default(old(backend).state(), source@).nonce + 1 < u256_bound(),
    ensures
        final(backend).wf(),
        final(backend).state().codes == old(backend).state().codes.insert(created@, output@),
        final(backend).state().accounts == old(backend).state().accounts.insert(
            source@,
            (crate::types::AccountV {
                nonce: (account_or_default(old(backend).state(), source@).nonce + 1) as nat,
                balance: account_or_default(old(backend).state(), source@).balance,
            }),
        ),
        final(backend).state().storage == old(backend).state().storage,
        final(backend).events_view() == old(backend).events_view(),
        final(backend).vicinity == old(backend).vicinity,
        final(backend).ctx == old(backend).ctx,
    {
    backend.inc_nonce(source);
    backend.insert_code(created, output);
}

/// Book a finished call: the caller's nonce steps forward.
pub fn finish_call(backend: &mut Backend, source: &Address)
    requires
        old(backend).wf(),
        source.wf(),
        account_or_default(old(backend).state(), source@).nonce + 1 < u256_bound(),
    ensures
        final(backend).wf(),
        final(backend).state().accounts == old(backend).state().accounts.insert(
            source@,
            (crate::types::AccountV {
                nonce: (account_or_default(old(backend).state(), source@).nonce + 1) as nat,
                balance: account_or_default(old(backend).state(), source@).balance,
            }),
        ),
        final(backend).state().codes == old(backend).state().codes,
        final(backend).state().storage == old(backend).state().storage,
        final(backend).events_view() == old(backend).events_view(),
        final(backend).vicinity == old(backend).vicinity,
        final(backend).ctx == old(backend).ctx,
{
    backend.inc_nonce(source);
}

/// Route one transaction-level execution: a call pairs the target with
/// the interpreter's call outcome, a creation pairs the created address
/// with the creation outcome.
pub fn execute(
    from: Address,
    _input: Vec<u8>,
    _value: U256,
    _gas_limit: U256,
    _gas_price: Option<U256>,
    _nonce: Option<U256>,
    action: TransactionAction,
    info: crate::types::CallOrCreateInfo,
) -> (r: (Option<Address>, Option<Address>, crate::types::CallOrCreateInfo))
    requires
        (action is Call) == (info is Call),
    ensures
        (match action {
            TransactionAction::Call(t) => r.0 matches Some(a) && a@ == t@ && r.1 is None,
            TransactionAction::Create => r.0 is None && (r.2 matches
            crate::types::CallOrCreateInfo::Create(ci) ==> (r.1 matches Some(c) && c@
                == ci.value@)),
        }),
        r.2 == info,
{
    match action {
        TransactionAction::Call(target) => (Some(target), None, info),
        TransactionAction::Create => {
            match &info {
                crate::types::CallOrCreateInfo::Create(ci) => {
                    let created = ci.value.clone_addr();
                    (None, Some(created), info)
                },
                crate::types::CallOrCreateInfo::Call(_) => {
                    proof {
                        assert(false);
                    }
                    (None, None, info)
                },
            }
        },
    }
}

/// The host-interface bridge: the capability object the interpreter
/// calls back into, carrying the transaction context and a call-depth
/// counter.
#[derive(Debug)]
pub struct HostContext {
    pub tx_context: TxContext,
    pub depth: i32,
}

impl HostContext {
    pub open spec fn wf(&self) -> bool {
        self.tx_context.wf()
    }

    pub fn new(tx_context: TxContext) -> (r: HostContext)
        ensures
            r.tx_context == tx_context,
            r.depth == 0,
    {
        HostContext { tx_context, depth: 0 }
    }

    /// Account existence is answered affirmatively for every address.
    pub fn account_exists(&mut self, _addr: &Address) -> (r: bool)
        ensures
            r == true,
    {
        true
    }

    /// Read one storage slot.
    pub fn get_storage(&mut self, backend: &Backend, address: &Address, key: &Word) -> (r: Word)
        requires
            backend.wf(),
        ensures
            r@ == storage_or_zero(backend.state(), address@, key@),
            r.wf(),
    {
        backend.storage(address, key)
    }

    /// Write one storage slot and report what the write did.
    pub fn set_storage(
        &mut self,
        backend: &mut Backend,
        address: Address,
        key: Word,
        value: Word,
    ) -> (r: StorageStatus)
        requires
            old(backend).wf(),
            address.wf(),
            key.wf(),
            value.wf(),
        ensures
            final(backend).wf(),
            final(backend).state() == apply_storage_item(
                old(backend).state(),
                address@,
                key@,
                value@,
            ),
            final(backend).events_view() == old(backend).events_view(),
            final(backend).vicinity == old(backend).vicinity,
            final(backend).ctx == old(backend).ctx,
            r == (if storage_or_zero(old(backend).state(), address@, key@) == value@ {
                StorageStatus::Unchanged
            } else if value@ == zero_word() {
                StorageStatus::Deleted
            } else {
                StorageStatus::Modified
            }),
    {
        let previous = backend.storage(&address, &key);
        let status = if previous.eq_word(&value) {
            StorageStatus::Unchanged
        } else if value.is_zero() {
            StorageStatus::Deleted
        } else {
            StorageStatus::Modified
        };
        backend.set_storage(address, key, value);
        status
    }

    /// Read an account balance as a 32-byte big-endian word.
    pub fn get_balance(&mut self, backend: &Backend, address: &Address) -> (r: Word)
        ensures
            be_val(r@) == account_or_default(backend.state(), address@).balance,
            r.wf(),
    {
        let account = backend.basic(address);
        Word::from_u256(&account.balance)
    }

    /// Read an account's code length.
    pub fn get_code_size(&mut self, backend: &Backend, address: &Address) -> (r: usize)
        ensures
            r == code_or_empty(backend.state(), address@).len(),
    {
        backend.code_size(address)
    }

    /// Read the digest of an account's code.
    pub fn get_code_hash(&mut self, backend: &Backend, address: &Address) -> (r: Word)
        ensures
            r@ == keccak256_of(code_or_empty(backend.state(), address@)),
            r.wf(),
    {
        backend.code_hash(address)
    }

    /// Present for interpreter compatibility; copies nothing.
    pub fn copy_code(&mut self, _addr: &Address, _offset: usize, _buffer_size: usize) -> (r: usize)
        ensures
            r == 0,
    {
        0
    }

    /// Present for interpreter compatibility; removes nothing.
    pub fn selfdestruct(&mut self, _addr: &Address, _beneficiary: &Address)
        ensures
            *final(self) == *old(self),
    {
    }

    /// The fixed-width transaction/block context tuple.
    pub fn get_tx_context(&mut self) -> (r: (Word, Address, Address, i64, i64, i64, Word))
        requires
            old(self).wf(),
        ensures
            be_val(r.0@) == old(self).tx_context.tx_gas_price@,
            r.1@ == old(self).tx_context.tx_origin@,
            r.2@ == old(self).tx_context.block_coinbase@,
            r.3 == old(self).tx_context.block_number,
            r.4 == old(self).tx_context.block_timestamp,
            r.5 == old(self).tx_context.block_gas_limit,
            be_val(r.6@) == old(self).tx_context.block_difficulty@,
            *final(self) == *old(self),
    {
        (
            Word::from_u256(&self.tx_context.tx_gas_price),
            self.tx_context.tx_origin.clone_addr(),
            self.tx_context.block_coinbase.clone_addr(),
            self.tx_context.block_number,
            self.tx_context.block_timestamp,
            self.tx_context.block_gas_limit,
            Word::from_u256(&self.tx_context.block_difficulty),
        )
    }

    /// The hash of a recent block by number.
    pub fn get_block_hash(&mut self, backend: &Backend, block_number: i64) -> (r: Word)
        requires
            backend.wf(),
            block_number >= 0,
        ensures
            block_number > u32::MAX ==> r@ == zero_word(),
            block_number <= u32::MAX ==> r@ == (if crate::state::hashes_model(
                backend.ctx.block_hashes@,
            ).contains_key((block_number as u32)) {
                crate::state::hashes_model(backend.ctx.block_hashes@)[(block_number as u32)]
            } else {
                zero_word()
            }),
            r.wf(),
    {
        let number = U256::from_u64(block_number as u64);
        backend.block_hash(&number)
    }

    /// Emit one log through the backend's event sink.
    pub fn emit_log(&mut self, backend: &mut Backend, address: Address, topics: Vec<Word>,
        data: Vec<u8>)
        requires
            old(backend).wf(),
        ensures
            final(backend).wf(),
            final(backend).state() == old(backend).state(),
            final(backend).events_view().len() == old(backend).events_view().len() + 1,
            final(backend).events_view().last().address == address@,
            final(backend).events_view().last().topics == topics@.map_values(|w: Word| w@),
            final(backend).events_view().last().data == data@,
            final(backend).events_view().drop_last() == old(backend).events_view(),
            final(backend).vicinity == old(backend).vicinity,
            final(backend).ctx == old(backend).ctx,
    {
        let log = Log { address, topics, data };
        backend.deposit_event(log);
        proof {
            assert(final(backend).events_view().drop_last() =~= old(backend).events_view());
        }
    }

    /// A nested call re-enters the dispatcher one level deeper: a
    /// precompiled target is answered at once, anything else becomes a
    /// fresh interpreter invocation.
    pub fn call(
        &mut self,
        backend: &Backend,
        kind: CallKind,
        destination: Address,
        sender: Address,
        value: U256,
        input: Vec<u8>,
        gas: i64,
        _is_static: bool,
    ) -> (r: ExecPlan)
        requires
            old(self).wf(),
            backend.wf(),
            sender.wf(),
            destination.wf(),
            0 <= gas <= u32::MAX,
            old(self).depth < i32::MAX,
            backend.ctx.block_number <= i64::MAX,
            backend.ctx.timestamp <= i64::MAX,
        ensures
            final(self).depth == old(self).depth + 1,
            final(self).tx_context == old(self).tx_context,
            precompile_hit(destination@) ==> (r matches ExecPlan::Done {
                output,
                gas_left,
                status_code,
            } && output@ == precompile_output(destination@, input@) && gas_left == gas
                && status_code == VM_SUCCESS),
            !precompile_hit(destination@) ==> (r matches ExecPlan::RunVm(inv) && inv.kind == kind
                && inv.source@ == sender@ && inv.target@ == destination@ && inv.value == value
                && inv.data@ == input@ && inv.code@ == invocation_code(
                backend.state(),
                kind,
                destination@,
                input@,
            ) && inv.gas_limit == gas as u32 && inv.depth == old(self).depth + 1),
    {
        let nonce = backend.basic(&sender).nonce;
        let plan = execute_ssvm_prepare(
            backend,
            sender,
            destination,
            value,
            input,
            gas as u32,
            self.tx_context.tx_gas_price,
            nonce,
            kind,
        );
        self.depth = self.depth + 1;
        match plan {
            ExecPlan::Done { output, gas_left, status_code } => ExecPlan::Done {
                output,
                gas_left,
                status_code,
            },
            ExecPlan::RunVm(inv) => {
                let deeper = VmInvocation {
                    kind: inv.kind,
                    source: inv.source,
                    target: inv.target,
                    value: inv.value,
                    data: inv.data,
                    code: inv.code,
                    gas_limit: inv.gas_limit,
                    tx_context: inv.tx_context,
                    depth: self.depth,
                };
                ExecPlan::RunVm(deeper)
            },
        }
    }
}

} // verus!
