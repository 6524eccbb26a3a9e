//! Block assembly tests: per-transaction receipts, finalization roots,
//! replay determinism, and the two end-to-end scenarios.

use eth_engine::assembler::BlockAssembler;
use eth_engine::dispatcher::{execute_ssvm_prepare, finish_call, finish_create, ExecPlan, HostContext, TxContext};
use eth_engine::hashing::keccak256;
use eth_engine::state::{Backend, BlockContext};
use eth_engine::types::{
    Account, Address, CallInfo, CallKind, CallOrCreateInfo, CreateInfo, ExitReason, Log,
    StorageStatus, Transaction, TransactionAction, TransactionSignature, Vicinity, Word,
};
use eth_engine::u256::U256;
use eth_engine::validator::validate_unsigned;

const CHAIN_ID: u64 = 5;

fn addr(last: u8) -> Address {
    let mut b = vec![0u8; 19];
    b.push(last);
    Address::new(b)
}

fn word_u64(n: u64) -> Word {
    Word::from_u256(&U256::from_u64(n))
}

fn hexv(s: &str) -> Vec<u8> {
    hex::decode(s).unwrap()
}

fn secret() -> [u8; 32] {
    let mut s = [0u8; 32];
    s[31] = 0x42;
    s[0] = 0x01;
    s
}

fn signer_address(secret: &[u8; 32]) -> Address {
    let sk = libsecp256k1::SecretKey::parse(secret).unwrap();
    let pk = libsecp256k1::PublicKey::from_secret_key(&sk);
    let ser = pk.serialize();
    let digest = keccak256(&ser[1..65].to_vec());
    Address::new(digest[12..].to_vec())
}

fn make_tx(
    nonce: u64,
    gas_price: u64,
    gas_limit: u64,
    action: TransactionAction,
    value: u64,
    input: Vec<u8>,
) -> Transaction {
    let unsigned = Transaction {
        nonce: U256::from_u64(nonce),
        gas_price: U256::from_u64(gas_price),
        gas_limit: U256::from_u64(gas_limit),
        action,
        value: U256::from_u64(value),
        input,
        signature: TransactionSignature { v: 27, r: Word::zero(), s: Word::zero() },
    };
    let msg = eth_engine::encode::transaction_message_hash(&unsigned);
    let sk = libsecp256k1::SecretKey::parse(&secret()).unwrap();
    let m = libsecp256k1::Message::parse_slice(&msg).unwrap();
    let (sig, recid) = libsecp256k1::sign(&m, &sk);
    let ser = sig.serialize();
    Transaction {
        signature: TransactionSignature {
            v: 27 + recid.serialize() as u64,
            r: Word::new(ser[..32].to_vec()),
            s: Word::new(ser[32..].to_vec()),
        },
        ..unsigned
    }
}

fn fresh_backend() -> Backend {
    let vicinity = Vicinity { gas_price: U256::one(), origin: signer_address(&secret()) };
    Backend::new(vicinity, BlockContext::new(CHAIN_ID, 1, 1_000))
}

fn call_success(used_gas: u64, logs: Vec<Log>) -> CallOrCreateInfo {
    CallOrCreateInfo::Call(CallInfo {
        exit_reason: ExitReason::Succeed(Vec::new()),
        value: Vec::new(),
        used_gas: U256::from_u64(used_gas),
        logs,
    })
}

fn finalize(assembler: &mut BlockAssembler) -> eth_engine::assembler::ConsensusDigest {
    assembler.store_block(
        addr(0xee),
        Word::zero(),
        U256::from_u64(1),
        U256::from_u64(1_000_000),
        12345,
    )
}

#[test]
fn empty_block_has_canonical_roots() {
    let mut builder = BlockAssembler::new();
    builder.begin();
    let digest = finalize(&mut builder);
    let block = builder.current_block().as_ref().unwrap();
    // the receipts root of an empty list and the empty ommers hash
    assert_eq!(
        block.header.receipts_root.bytes,
        hexv("1dcc4de8dec75d7aab85b567b6ccd41ad312451b948a7413f0a142fd40d49347")
    );
    assert_eq!(
        block.header.ommers_hash.bytes,
        hexv("1dcc4de8dec75d7aab85b567b6ccd41ad312451b948a7413f0a142fd40d49347")
    );
    assert_eq!(block.header.parent_hash.bytes, Word::zero().bytes);
    assert_eq!(block.header.gas_used.lo, 0);
    assert_eq!(digest.engine_tag, b"fron".to_vec());
    assert!(digest.transaction_hashes.is_empty());
    // the digest names the stored block
    let recomputed = builder.current_block_hash().unwrap();
    assert_eq!(digest.block_hash.bytes, recomputed.bytes);
}

#[test]
fn transact_builds_success_receipt_and_bloom() {
    let mut builder = BlockAssembler::new();
    builder.begin();
    let log = Log { address: addr(0x77), topics: vec![word_u64(3)], data: vec![9] };
    let tx = make_tx(0, 1, 100, TransactionAction::Call(addr(0xb0)), 50, vec![]);
    let (source, created, _hash, ok) = builder.transact(tx, call_success(21, vec![log])).unwrap();
    assert!(ok);
    assert!(created.is_none());
    assert_eq!(source.bytes, signer_address(&secret()).bytes);
    assert_eq!(builder.pending_count(), 1);
    let entry = &builder.pending[0];
    // success marker: one, big-endian, in 32 bytes
    let mut expect_root = vec![0u8; 31];
    expect_root.push(1);
    assert_eq!(entry.2.state_root.bytes, expect_root);
    assert_eq!(entry.2.used_gas.lo, 21);
    assert_eq!(entry.1.transaction_index, 0);
    assert_eq!(entry.1.to.as_ref().unwrap().bytes, addr(0xb0).bytes);
    // the receipt bloom answers "present" for the log address and topic
    assert!(entry.2.logs_bloom.contains_input(&addr(0x77).bytes));
    assert!(entry.2.logs_bloom.contains_input(&word_u64(3).bytes));
}

#[test]
fn failed_exit_maps_to_zero_status_root() {
    let mut builder = BlockAssembler::new();
    builder.begin();
    let tx = make_tx(0, 1, 100, TransactionAction::Call(addr(0xb0)), 0, vec![]);
    let info = CallOrCreateInfo::Call(CallInfo {
        exit_reason: ExitReason::Revert(vec![1]),
        value: vec![1],
        used_gas: U256::from_u64(5),
        logs: vec![],
    });
    let (_, _, _, ok) = builder.transact(tx, info).unwrap();
    assert!(!ok);
    assert_eq!(builder.pending[0].2.state_root.bytes, Word::zero().bytes);
}

#[test]
fn block_bloom_covers_all_receipt_logs() {
    let mut builder = BlockAssembler::new();
    builder.begin();
    let log1 = Log { address: addr(0x71), topics: vec![word_u64(1)], data: vec![] };
    let log2 = Log { address: addr(0x72), topics: vec![word_u64(2), word_u64(3)], data: vec![] };
    let tx1 = make_tx(0, 1, 100, TransactionAction::Create, 0, vec![]);
    let tx2 = make_tx(1, 1, 100, TransactionAction::Call(addr(0xb0)), 0, vec![]);
    builder.transact(tx1, call_success(1, vec![log1])).unwrap();
    builder.transact(tx2, call_success(2, vec![log2])).unwrap();
    finalize(&mut builder);
    let block = builder.current_block().as_ref().unwrap();
    assert!(block.header.logs_bloom.contains_input(&addr(0x71).bytes));
    assert!(block.header.logs_bloom.contains_input(&addr(0x72).bytes));
    assert!(block.header.logs_bloom.contains_input(&word_u64(1).bytes));
    assert!(block.header.logs_bloom.contains_input(&word_u64(2).bytes));
    assert!(block.header.logs_bloom.contains_input(&word_u64(3).bytes));
    assert_eq!(block.header.gas_used.lo, 3);
    assert_eq!(builder.current_receipts().as_ref().unwrap().len(), 2);
    assert_eq!(builder.current_transaction_statuses().as_ref().unwrap().len(), 2);
}

fn build_block_once() -> (Vec<u8>, Vec<u8>, Vec<u8>) {
    let mut builder = BlockAssembler::new();
    builder.begin();
    let log = Log { address: addr(0x71), topics: vec![word_u64(1)], data: vec![4, 5] };
    let tx = make_tx(0, 1, 100, TransactionAction::Call(addr(0xb0)), 50, vec![7]);
    builder.transact(tx, call_success(21, vec![log])).unwrap();
    let digest = finalize(&mut builder);
    let block = builder.current_block().as_ref().unwrap();
    (
        block.header.receipts_root.bytes.clone(),
        block.header.logs_bloom.bits.clone(),
        digest.block_hash.bytes.clone(),
    )
}

#[test]
fn replaying_a_block_is_byte_identical() {
    let first = build_block_once();
    let second = build_block_once();
    assert_eq!(first.0, second.0);
    assert_eq!(first.1, second.1);
    assert_eq!(first.2, second.2);
}

#[test]
fn value_call_scenario() {
    // account A: nonce 0, balance 1000; call B with value 50, gas 1 * 100
    let mut backend = fresh_backend();
    let a = signer_address(&secret());
    let b_addr = addr(0xb0);
    backend.put_account(
        a.clone_addr(),
        Account { nonce: U256::zero(), balance: U256::from_u64(1000) },
    );
    let mut builder = BlockAssembler::new();
    builder.begin();
    let baseline = {
        let mut empty_asm = BlockAssembler::new();
        empty_asm.begin();
        finalize(&mut empty_asm);
        empty_asm.current_block().as_ref().unwrap().header.receipts_root.bytes.clone()
    };
    let tx = make_tx(0, 1, 100, TransactionAction::Call(b_addr.clone_addr()), 50, vec![]);
    let verdict = validate_unsigned(&backend, &tx, CHAIN_ID);
    assert!(verdict.is_ok());
    // the target holds no code, so the interpreter plan carries empty code
    let plan = execute_ssvm_prepare(
        &backend,
        a.clone_addr(),
        b_addr.clone_addr(),
        U256::from_u64(50),
        Vec::new(),
        100,
        U256::one(),
        U256::zero(),
        CallKind::Call,
    );
    match plan {
        ExecPlan::RunVm(inv) => assert!(inv.code.is_empty()),
        ExecPlan::Done { .. } => panic!("plain address must not be precompiled"),
    }
    // the empty program succeeds; its effect is the value transfer
    backend.transfer(&a, &b_addr, &U256::from_u64(50)).unwrap();
    finish_call(&mut backend, &a);
    let (_, _, _, ok) = builder.transact(tx, call_success(21, vec![])).unwrap();
    assert!(ok);
    assert_eq!(backend.basic(&a).nonce.lo, 1);
    assert_eq!(backend.basic(&b_addr).balance.lo, 50);
    assert_eq!(backend.basic(&a).balance.lo, 950);
    finalize(&mut builder);
    let root = builder.current_block().as_ref().unwrap().header.receipts_root.bytes.clone();
    assert_ne!(root, baseline);
    let mut expect_root = vec![0u8; 31];
    expect_root.push(1);
    assert_eq!(builder.pending[0].2.state_root.bytes, expect_root);
}

#[test]
fn create_scenario_stores_code_at_derived_address() {
    let mut backend = fresh_backend();
    let a = signer_address(&secret());
    backend.put_account(
        a.clone_addr(),
        Account { nonce: U256::zero(), balance: U256::from_u64(1000) },
    );
    let nonce = backend.basic(&a).nonce;
    let created = eth_engine::encode::create_address(&a, &nonce);
    let plan = execute_ssvm_prepare(
        &backend,
        a.clone_addr(),
        created.clone_addr(),
        U256::zero(),
        Vec::new(),
        100,
        U256::one(),
        nonce,
        CallKind::Create,
    );
    match plan {
        ExecPlan::RunVm(inv) => assert!(inv.code.is_empty()),
        ExecPlan::Done { .. } => panic!("create must reach the interpreter"),
    }
    // the interpreter returns the deployed bytes
    let deployed = vec![0x60, 0x00, 0x60, 0x00];
    finish_create(&mut backend, &a, created.clone_addr(), deployed.clone());
    assert_eq!(backend.code(&created), deployed);
    assert_eq!(backend.basic(&a).nonce.lo, 1);
    // the status carries the created address
    let mut builder = BlockAssembler::new();
    builder.begin();
    let tx = make_tx(0, 1, 100, TransactionAction::Create, 0, vec![]);
    let info = CallOrCreateInfo::Create(CreateInfo {
        exit_reason: ExitReason::Succeed(Vec::new()),
        value: created.clone_addr(),
        used_gas: U256::from_u64(30),
        logs: vec![],
    });
    let (_, reported, _, ok) = builder.transact(tx, info).unwrap();
    assert!(ok);
    assert_eq!(reported.unwrap().bytes, created.bytes);
    assert_eq!(
        builder.pending[0].1.contract_address.as_ref().unwrap().bytes,
        created.bytes
    );
}

#[test]
fn bridge_storage_and_context_roundtrip() {
    let mut backend = fresh_backend();
    let ctx = TxContext::new(
        U256::from_u64(7),
        signer_address(&secret()),
        Address::zero(),
        1,
        1_000,
        100,
        U256::zero(),
        U256::from_u64(CHAIN_ID),
    );
    let mut host = HostContext::new(ctx);
    let owner = addr(0x20);
    assert!(host.account_exists(&owner));
    let st = host.set_storage(&mut backend, owner.clone_addr(), word_u64(1), word_u64(9));
    assert_eq!(st, StorageStatus::Modified);
    let st2 = host.set_storage(&mut backend, owner.clone_addr(), word_u64(1), word_u64(9));
    assert_eq!(st2, StorageStatus::Unchanged);
    let st3 = host.set_storage(&mut backend, owner.clone_addr(), word_u64(1), Word::zero());
    assert_eq!(st3, StorageStatus::Deleted);
    let read = host.get_storage(&backend, &owner, &word_u64(1));
    assert_eq!(read.bytes, Word::zero().bytes);
    backend.deposit(&owner, &U256::from_u64(64)).unwrap();
    let bal = host.get_balance(&backend, &owner);
    assert_eq!(bal.bytes, word_u64(64).bytes);
    let (gas_price_w, origin, coinbase, number, timestamp, gas_limit, difficulty) =
        host.get_tx_context();
    assert_eq!(gas_price_w.bytes, word_u64(7).bytes);
    assert_eq!(origin.bytes, signer_address(&secret()).bytes);
    assert_eq!(coinbase.bytes, Address::zero().bytes);
    assert_eq!((number, timestamp, gas_limit), (1, 1_000, 100));
    assert_eq!(difficulty.bytes, Word::zero().bytes);
    host.emit_log(&mut backend, owner.clone_addr(), vec![word_u64(2)], vec![8]);
    assert_eq!(backend.events.len(), 1);
    assert_eq!(backend.events[0].data, vec![8]);
    // a nested call to a precompiled address answers directly, one level deeper
    let plan = host.call(
        &backend,
        CallKind::Call,
        addr(2),
        owner,
        U256::zero(),
        vec![0xaa],
        500,
        false,
    );
    assert_eq!(host.depth, 1);
    match plan {
        ExecPlan::Done { output, gas_left, status_code } => {
            assert_eq!(output, eth_engine::hashing::sha256(&vec![0xaa]));
            assert_eq!(gas_left, 500);
            assert_eq!(status_code, eth_engine::dispatcher::VM_SUCCESS);
        },
        ExecPlan::RunVm(_) => panic!("precompiled target must be answered directly"),
    }
}

#[test]
fn header_encoding_matches_reference_stream() {
    let mut builder = BlockAssembler::new();
    builder.begin();
    finalize(&mut builder);
    let block = builder.current_block().as_ref().unwrap();
    let h = &block.header;
    let ours = eth_engine::encode::encode_header(h);
    let mut stream = rlp::RlpStream::new_list(15);
    stream.append(&h.parent_hash.bytes);
    stream.append(&h.ommers_hash.bytes);
    stream.append(&h.beneficiary.bytes);
    stream.append(&h.state_root.bytes);
    stream.append(&h.transactions_root.bytes);
    stream.append(&h.receipts_root.bytes);
    stream.append(&h.logs_bloom.bits);
    stream.append(&0u64);
    stream.append(&1u64);
    stream.append(&1_000_000u64);
    stream.append(&0u64);
    stream.append(&12345u64);
    stream.append(&h.extra_data);
    stream.append(&h.mix_hash.bytes);
    stream.append(&h.nonce64);
    assert_eq!(ours, stream.out().to_vec());
    assert_eq!(
        builder.current_block_hash().unwrap().bytes,
        keccak256(&ours)
    );
}
