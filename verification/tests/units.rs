//! Unit tests for the arithmetic, encoding, bloom and state-backend
//! building blocks.

use eth_engine::bloom::Bloom;
use eth_engine::dispatcher::{execute, HostContext, TxContext};
use eth_engine::hashing::{keccak256, sha256};
use eth_engine::state::{checked_fee, ApplyEntry, Backend, BlockContext};
use eth_engine::types::{
    Account, Address, CallInfo, CallOrCreateInfo, CreateInfo, ExitReason,
    HashTruncateConvertAccountId, Log, StateError, TransactionAction, Word,
};
use eth_engine::u256::{mul_wide_u128, U256};

fn addr(last: u8) -> Address {
    let mut b = vec![0u8; 19];
    b.push(last);
    Address::new(b)
}

fn word_u64(n: u64) -> Word {
    Word::from_u256(&U256::from_u64(n))
}

fn hexv(s: &str) -> Vec<u8> {
    hex::decode(s).unwrap()
}

#[test]
fn u256_add_sub_exact() {
    let a = U256::from_u64(10);
    let b = U256::from_u64(32);
    let s = a.checked_add(&b).unwrap();
    assert!(s.eq_val(&U256::from_u64(42)));
    let d = b.checked_sub(&a).unwrap();
    assert!(d.eq_val(&U256::from_u64(22)));
    assert!(a.checked_sub(&b).is_none());
    let max = U256::max_value();
    assert!(max.checked_add(&U256::one()).is_none());
}

#[test]
fn u256_add_carries_across_limbs() {
    let a = U256 { hi: 0, lo: u128::MAX };
    let s = a.checked_add(&U256::one()).unwrap();
    assert_eq!(s.hi, 1);
    assert_eq!(s.lo, 0);
}

#[test]
fn u256_mul_exact_and_saturating() {
    let p = U256::from_u64(1_000_000_007);
    let q = U256::from_u64(998_244_353);
    let r = p.checked_mul(&q).unwrap();
    assert_eq!(r.lo, 1_000_000_007u128 * 998_244_353u128);
    assert_eq!(r.hi, 0);
    let big = U256 { hi: 1, lo: 0 };
    assert!(big.checked_mul(&big).is_none());
    let sat = big.saturating_mul(&big);
    assert!(sat.eq_val(&U256::max_value()));
    let wide = mul_wide_u128(u128::MAX, u128::MAX);
    // (2^128 - 1)^2 = 2^256 - 2^129 + 1
    assert_eq!(wide.lo, 1);
    assert_eq!(wide.hi, u128::MAX - 1);
}

#[test]
fn u256_byte_conversions() {
    let v = U256::from_u64(0x0102);
    let be = v.to_be_bytes32();
    assert_eq!(be.len(), 32);
    assert_eq!(&be[30..], &[0x01, 0x02]);
    assert_eq!(v.to_min_be_bytes(), vec![0x01, 0x02]);
    assert_eq!(U256::zero().to_min_be_bytes(), Vec::<u8>::new());
    assert_eq!(U256::from_u64(255).to_min_be_bytes(), vec![255u8]);
    assert_eq!(U256::from_u64(256).to_min_be_bytes(), vec![1u8, 0u8]);
    let back = U256::from_be_bytes(&be);
    assert!(back.eq_val(&v));
}

#[test]
fn rlp_matches_reference_crate() {
    // byte strings of each header form
    for payload in [
        Vec::<u8>::new(),
        vec![0x7f],
        vec![0x80],
        vec![1u8; 55],
        vec![2u8; 56],
        vec![3u8; 300],
    ] {
        let mut ours: Vec<u8> = Vec::new();
        eth_engine::rlp::append_str(&mut ours, &payload);
        let theirs = rlp::encode(&payload);
        assert_eq!(ours, theirs.to_vec());
    }
    // integers in shortest big-endian form
    for n in [0u64, 15, 127, 128, 1024, u64::MAX] {
        let mut ours: Vec<u8> = Vec::new();
        eth_engine::rlp::append_uint(&mut ours, &U256::from_u64(n));
        let theirs = rlp::encode(&n);
        assert_eq!(ours, theirs.to_vec());
    }
}

#[test]
fn create_address_matches_reference_stream() {
    let caller = addr(0xaa);
    let nonce: u64 = 7;
    let ours = eth_engine::encode::create_address(&caller, &U256::from_u64(nonce));
    let mut stream = rlp::RlpStream::new_list(2);
    stream.append(&caller.bytes);
    stream.append(&nonce);
    let digest = keccak256(&stream.out().to_vec());
    assert_eq!(ours.bytes, digest[12..].to_vec());
}

#[test]
fn create_address_differs_on_sender_and_nonce() {
    let a1 = eth_engine::encode::create_address(&addr(1), &U256::from_u64(0));
    let a2 = eth_engine::encode::create_address(&addr(2), &U256::from_u64(0));
    let a3 = eth_engine::encode::create_address(&addr(1), &U256::from_u64(1));
    let a4 = eth_engine::encode::create_address(&addr(1), &U256::from_u64(0));
    assert_ne!(a1.bytes, a2.bytes);
    assert_ne!(a1.bytes, a3.bytes);
    assert_eq!(a1.bytes, a4.bytes);
}

#[test]
fn keccak_and_sha256_known_digests() {
    let empty: Vec<u8> = Vec::new();
    assert_eq!(
        keccak256(&empty),
        hexv("c5d2460186f7233c927e7db2dcc703c0e500b653ca82273b7bfad8045d85a470")
    );
    assert_eq!(
        sha256(&empty),
        hexv("e3b0c44298fc1c149afbf4c8996fb92427ae41e4649b934ca495991b7852b855")
    );
}

#[test]
fn bloom_matches_reference_crate() {
    let input = b"hello bloom".to_vec();
    let mut ours = Bloom::new_empty();
    ours.accrue(&input);
    let mut theirs = ethereum_types::Bloom::default();
    theirs.accrue(ethereum_types::BloomInput::Raw(&input));
    assert_eq!(ours.bits, theirs.as_bytes().to_vec());
    assert!(ours.contains_input(&input));
}

#[test]
fn bloom_no_false_negative_for_log() {
    let log = Log {
        address: addr(0x11),
        topics: vec![word_u64(5), word_u64(900)],
        data: vec![1, 2, 3],
    };
    let mut bloom = Bloom::new_empty();
    bloom.add_log(&log);
    assert!(bloom.contains_input(&log.address.bytes));
    assert!(bloom.contains_input(&log.topics[0].bytes));
    assert!(bloom.contains_input(&log.topics[1].bytes));
    // an unrelated value stays out of this sparse filter
    assert!(!bloom.contains_input(&b"unrelated".to_vec()));
}

#[test]
fn precompiles_compute_digests_for_full_gas() {
    let data = b"abc".to_vec();
    let (hit, out, gas) = eth_engine::dispatcher::execute_precompiles(
        &addr(2),
        &U256::zero(),
        &data,
        &77,
        &U256::one(),
    );
    assert!(hit);
    assert_eq!(out, sha256(&data));
    assert_eq!(gas, 77);
    let (hit9, out9, _) = eth_engine::dispatcher::execute_precompiles(
        &addr(9),
        &U256::zero(),
        &data,
        &77,
        &U256::one(),
    );
    assert!(hit9);
    assert_eq!(out9, keccak256(&data));
    let (miss, out_miss, gas_miss) = eth_engine::dispatcher::execute_precompiles(
        &addr(5),
        &U256::zero(),
        &data,
        &77,
        &U256::one(),
    );
    assert!(!miss);
    assert_eq!(out_miss, vec![0u8]);
    assert_eq!(gas_miss, 77);
}

#[test]
fn exit_reasons_follow_status_codes() {
    assert!(matches!(
        eth_engine::dispatcher::exit_reason_of_status(0, vec![1]),
        ExitReason::Succeed(_)
    ));
    assert!(matches!(
        eth_engine::dispatcher::exit_reason_of_status(2, vec![]),
        ExitReason::Revert(_)
    ));
    assert!(matches!(
        eth_engine::dispatcher::exit_reason_of_status(3, vec![]),
        ExitReason::Error(3)
    ));
    assert!(matches!(
        eth_engine::dispatcher::exit_reason_of_status(-2, vec![]),
        ExitReason::Fatal(-2)
    ));
}

fn fresh_backend() -> Backend {
    let vicinity = eth_engine::types::Vicinity { gas_price: U256::one(), origin: addr(0xfe) };
    Backend::new(vicinity, BlockContext::new(5, 1, 1_000))
}

#[test]
fn backend_balances_and_errors() {
    let mut b = fresh_backend();
    let a = addr(1);
    let c = addr(2);
    b.put_account(a.clone_addr(), Account { nonce: U256::zero(), balance: U256::from_u64(100) });
    assert_eq!(b.basic(&a).balance.lo, 100);
    b.deposit(&a, &U256::from_u64(30)).unwrap();
    assert_eq!(b.basic(&a).balance.lo, 130);
    assert_eq!(b.withdraw(&a, &U256::from_u64(200)), Err(StateError::BalanceLow));
    b.withdraw(&a, &U256::from_u64(30)).unwrap();
    assert_eq!(b.basic(&a).balance.lo, 100);
    b.transfer(&a, &c, &U256::from_u64(40)).unwrap();
    assert_eq!(b.basic(&a).balance.lo, 60);
    assert_eq!(b.basic(&c).balance.lo, 40);
    assert_eq!(b.transfer(&a, &c, &U256::from_u64(61)), Err(StateError::BalanceLow));
    // overflow of the destination balance
    b.put_account(c.clone_addr(), Account { nonce: U256::zero(), balance: U256::max_value() });
    assert_eq!(b.transfer(&a, &c, &U256::from_u64(1)), Err(StateError::PaymentOverflow));
    assert_eq!(b.deposit(&c, &U256::one()), Err(StateError::PaymentOverflow));
    // nonce stepping with the expected-nonce check
    assert_eq!(
        b.inc_nonce_checked(&a, &U256::from_u64(3)),
        Err(StateError::InvalidNonce)
    );
    b.inc_nonce_checked(&a, &U256::zero()).unwrap();
    assert_eq!(b.basic(&a).nonce.lo, 1);
}

#[test]
fn fee_computation_overflows_are_reported() {
    assert_eq!(
        checked_fee(&U256::from_u64(3), &U256::from_u64(100)).unwrap().lo,
        300
    );
    let big = U256 { hi: 1, lo: 0 };
    assert_eq!(checked_fee(&big, &big), Err(StateError::FeeOverflow));
}

#[test]
fn storage_is_sparse_with_zero_deletion() {
    let mut b = fresh_backend();
    let a = addr(7);
    let key = word_u64(1);
    assert_eq!(b.storage(&a, &key).bytes, Word::zero().bytes);
    b.set_storage(a.clone_addr(), word_u64(1), word_u64(55));
    assert_eq!(b.storage(&a, &word_u64(1)).bytes, word_u64(55).bytes);
    b.set_storage(a.clone_addr(), word_u64(1), Word::zero());
    assert_eq!(b.storage(&a, &word_u64(1)).bytes, Word::zero().bytes);
}

#[test]
fn account_reclamation_empties_all_maps() {
    let mut b = fresh_backend();
    let a = addr(3);
    b.put_account(a.clone_addr(), Account { nonce: U256::one(), balance: U256::from_u64(9) });
    b.set_storage(a.clone_addr(), word_u64(1), word_u64(2));
    assert!(!b.is_account_empty(&a));
    // a changeset that zeroes the account and clears its storage
    let entry = ApplyEntry::Modify {
        address: a.clone_addr(),
        basic: Account { nonce: U256::zero(), balance: U256::zero() },
        code: None,
        storage: vec![(word_u64(1), Word::zero())],
        reset_storage: false,
    };
    b.apply(vec![entry], Vec::new(), false);
    assert!(b.is_account_empty(&a));
    b.remove_account_if_empty(&a);
    assert!(b.is_account_empty(&a));
    assert_eq!(b.storage(&a, &word_u64(1)).bytes, Word::zero().bytes);
    assert_eq!(b.code(&a), Vec::<u8>::new());
}

#[test]
fn apply_emits_logs_in_order() {
    let mut b = fresh_backend();
    let l1 = Log { address: addr(1), topics: vec![], data: vec![1] };
    let l2 = Log { address: addr(2), topics: vec![], data: vec![2] };
    b.apply(Vec::new(), vec![l1, l2], false);
    assert_eq!(b.events.len(), 2);
    assert_eq!(b.events[0].data, vec![1]);
    assert_eq!(b.events[1].data, vec![2]);
}

#[test]
fn module_account_id_is_padded_tag() {
    let id = eth_engine::state::Module::account_id();
    assert_eq!(id.len(), 32);
    assert_eq!(&id[..8], b"ssvmmoid");
    assert!(id[8..].iter().all(|b| *b == 0));
}

#[test]
fn account_id_conversion_truncates_or_pads() {
    let long = (0u8..32).collect::<Vec<u8>>();
    let a = HashTruncateConvertAccountId::convert_account_id(&long);
    assert_eq!(a.bytes, (12u8..32).collect::<Vec<u8>>());
    let short = vec![9u8, 8u8];
    let p = HashTruncateConvertAccountId::convert_account_id(&short);
    let mut expect = vec![0u8; 18];
    expect.extend_from_slice(&[9, 8]);
    assert_eq!(p.bytes, expect);
}

#[test]
fn block_hash_lookup_respects_range() {
    let mut ctx = BlockContext::new(5, 10, 1_000);
    ctx.put_block_hash(9, word_u64(0xabcd));
    let vicinity = eth_engine::types::Vicinity { gas_price: U256::one(), origin: addr(0xfe) };
    let b = Backend::new(vicinity, ctx);
    assert_eq!(b.block_hash(&U256::from_u64(9)).bytes, word_u64(0xabcd).bytes);
    assert_eq!(b.block_hash(&U256::from_u64(8)).bytes, Word::zero().bytes);
    let too_big = U256::from_u128((u32::MAX as u128) + 1);
    assert_eq!(b.block_hash(&too_big).bytes, Word::zero().bytes);
}

#[test]
fn backend_read_accessors_reflect_context() {
    let b = fresh_backend();
    assert!(b.gas_price().eq_val(&U256::one()));
    assert_eq!(b.origin().bytes, addr(0xfe).bytes);
    assert!(b.block_number().eq_val(&U256::one()));
    assert!(b.block_timestamp().eq_val(&U256::from_u64(1_000)));
    assert!(b.chain_id().eq_val(&U256::from_u64(5)));
    assert!(b.block_difficulty().is_zero());
    assert!(b.block_gas_limit().is_zero());
    assert_eq!(b.block_coinbase().bytes, Address::zero().bytes);
    assert!(b.address_exists(&addr(1)));
}

#[test]
fn code_accessors_and_hash() {
    let mut b = fresh_backend();
    let a = addr(4);
    assert_eq!(b.code_size(&a), 0);
    let empty: Vec<u8> = Vec::new();
    assert_eq!(b.code_hash(&a).bytes, keccak256(&empty));
    b.insert_code(a.clone_addr(), vec![1, 2, 3]);
    assert_eq!(b.code(&a), vec![1, 2, 3]);
    assert_eq!(b.code_size(&a), 3);
    assert_eq!(b.code_hash(&a).bytes, keccak256(&vec![1, 2, 3]));
}

#[test]
fn receipts_list_of_nothing_is_the_empty_list() {
    let encoded = eth_engine::encode::encode_receipts_list(&Vec::new());
    assert_eq!(encoded, vec![0xc0u8]);
}

#[test]
fn execute_routes_call_and_create() {
    let call_info = CallOrCreateInfo::Call(CallInfo {
        exit_reason: ExitReason::Succeed(vec![]),
        value: vec![],
        used_gas: U256::zero(),
        logs: vec![],
    });
    let (to, created, _) = execute(
        addr(1),
        vec![],
        U256::zero(),
        U256::from_u64(100),
        None,
        None,
        TransactionAction::Call(addr(9)),
        call_info,
    );
    assert_eq!(to.unwrap().bytes, addr(9).bytes);
    assert!(created.is_none());
    let create_info = CallOrCreateInfo::Create(CreateInfo {
        exit_reason: ExitReason::Succeed(vec![]),
        value: addr(0xcc),
        used_gas: U256::zero(),
        logs: vec![],
    });
    let (to2, created2, _) = execute(
        addr(1),
        vec![],
        U256::zero(),
        U256::from_u64(100),
        None,
        None,
        TransactionAction::Create,
        create_info,
    );
    assert!(to2.is_none());
    assert_eq!(created2.unwrap().bytes, addr(0xcc).bytes);
}

#[test]
fn bridge_compatibility_callbacks_are_inert() {
    let ctx = TxContext::new(
        U256::one(),
        addr(1),
        Address::zero(),
        1,
        2,
        3,
        U256::zero(),
        U256::from_u64(5),
    );
    let mut host = HostContext::new(ctx);
    assert_eq!(host.copy_code(&addr(1), 0, 16), 0);
    host.selfdestruct(&addr(1), &addr(2));
    let mut b = fresh_backend();
    b.insert_code(addr(3), vec![9, 9]);
    assert_eq!(host.get_code_size(&b, &addr(3)), 2);
    assert_eq!(host.get_code_hash(&b, &addr(3)).bytes, keccak256(&vec![9, 9]));
    // block-hash lookup through the bridge
    let mut ctx2 = BlockContext::new(5, 10, 1_000);
    ctx2.put_block_hash(4, word_u64(0xfeed));
    let vicinity = eth_engine::types::Vicinity { gas_price: U256::one(), origin: addr(0xfe) };
    let b2 = Backend::new(vicinity, ctx2);
    assert_eq!(host.get_block_hash(&b2, 4).bytes, word_u64(0xfeed).bytes);
    assert_eq!(host.get_block_hash(&b2, 5).bytes, Word::zero().bytes);
}
