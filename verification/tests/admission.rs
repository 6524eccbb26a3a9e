//! Admission tests: signer recovery round trip, nonce gate, fee gate,
//! chain-identifier gate.

use eth_engine::hashing::keccak256;
use eth_engine::state::{Backend, BlockContext};
use eth_engine::types::{
    Account, Address, AdmissionError, Transaction, TransactionAction, TransactionSignature,
    Vicinity, Word,
};
use eth_engine::u256::U256;
use eth_engine::validator::validate_unsigned;

const CHAIN_ID: u64 = 5;

fn addr(last: u8) -> Address {
    let mut b = vec![0u8; 19];
    b.push(last);
    Address::new(b)
}

fn secret() -> [u8; 32] {
    let mut s = [0u8; 32];
    s[31] = 0x42;
    s[0] = 0x01;
    s
}

fn signer_address(secret: &[u8; 32]) -> Address {
    let sk = libsecp256k1::SecretKey::parse(secret).unwrap();
    let pk = libsecp256k1::PublicKey::from_secret_key(&sk);
    let ser = pk.serialize();
    let digest = keccak256(&ser[1..65].to_vec());
    Address::new(digest[12..].to_vec())
}

fn make_tx(
    nonce: u64,
    gas_price: u64,
    gas_limit: u64,
    action: TransactionAction,
    value: u64,
    input: Vec<u8>,
    secret: &[u8; 32],
    chain_id: Option<u64>,
) -> Transaction {
    let v_base: u64 = match chain_id {
        Some(c) => 35 + 2 * c,
        None => 27,
    };
    let unsigned = Transaction {
        nonce: U256::from_u64(nonce),
        gas_price: U256::from_u64(gas_price),
        gas_limit: U256::from_u64(gas_limit),
        action,
        value: U256::from_u64(value),
        input,
        signature: TransactionSignature { v: v_base, r: Word::zero(), s: Word::zero() },
    };
    let msg = eth_engine::encode::transaction_message_hash(&unsigned);
    let sk = libsecp256k1::SecretKey::parse(secret).unwrap();
    let m = libsecp256k1::Message::parse_slice(&msg).unwrap();
    let (sig, recid) = libsecp256k1::sign(&m, &sk);
    let ser = sig.serialize();
    Transaction {
        signature: TransactionSignature {
            v: v_base + recid.serialize() as u64,
            r: Word::new(ser[..32].to_vec()),
            s: Word::new(ser[32..].to_vec()),
        },
        ..unsigned
    }
}

fn backend_with(account_last: u8, nonce: u64, balance: u64) -> (Backend, Address) {
    let vicinity = Vicinity { gas_price: U256::one(), origin: addr(account_last) };
    let mut b = Backend::new(vicinity, BlockContext::new(CHAIN_ID, 1, 1_000));
    let a = signer_address(&secret());
    b.put_account(
        a.clone_addr(),
        Account { nonce: U256::from_u64(nonce), balance: U256::from_u64(balance) },
    );
    (b, a)
}

#[test]
fn signature_round_trip_recovers_signer() {
    let tx = make_tx(0, 1, 100, TransactionAction::Call(addr(0xb0)), 50, vec![], &secret(), None);
    let recovered = eth_engine::validator::recover_signer(&tx).unwrap();
    assert_eq!(recovered.bytes, signer_address(&secret()).bytes);
}

#[test]
fn admission_accepts_funded_matching_nonce() {
    let (b, a) = backend_with(1, 0, 1000);
    let tx = make_tx(0, 1, 100, TransactionAction::Call(addr(0xb0)), 50, vec![], &secret(), None);
    let verdict = validate_unsigned(&b, &tx, CHAIN_ID).unwrap();
    assert_eq!(verdict.provides.0.bytes, a.bytes);
    assert!(verdict.provides.1.eq_val(&U256::zero()));
    assert!(verdict.depends_on.is_none());
}

#[test]
fn nonce_gate_rejects_stale_and_flags_future() {
    let (b, a) = backend_with(1, 5, 1000);
    let stale = make_tx(4, 1, 100, TransactionAction::Create, 0, vec![], &secret(), None);
    assert!(matches!(validate_unsigned(&b, &stale, CHAIN_ID), Err(AdmissionError::Stale)));
    let current = make_tx(5, 1, 100, TransactionAction::Create, 0, vec![], &secret(), None);
    let v = validate_unsigned(&b, &current, CHAIN_ID).unwrap();
    assert!(v.depends_on.is_none());
    let future = make_tx(6, 1, 100, TransactionAction::Create, 0, vec![], &secret(), None);
    let v6 = validate_unsigned(&b, &future, CHAIN_ID).unwrap();
    let dep = v6.depends_on.unwrap();
    assert_eq!(dep.0.bytes, a.bytes);
    assert!(dep.1.eq_val(&U256::from_u64(5)));
    assert!(v6.provides.1.eq_val(&U256::from_u64(6)));
}

#[test]
fn fee_gate_compares_fee_to_balance() {
    // fee = 2 * 100 = 200 > 199: rejected
    let (b, _) = backend_with(1, 0, 199);
    let tx = make_tx(0, 2, 100, TransactionAction::Create, 0, vec![], &secret(), None);
    assert!(matches!(validate_unsigned(&b, &tx, CHAIN_ID), Err(AdmissionError::Payment)));
    // fee exactly equal to the balance: admitted
    let (b2, _) = backend_with(1, 0, 200);
    let tx2 = make_tx(0, 2, 100, TransactionAction::Create, 0, vec![], &secret(), None);
    assert!(validate_unsigned(&b2, &tx2, CHAIN_ID).is_ok());
}

#[test]
fn chain_identifier_must_match() {
    let (b, _) = backend_with(1, 0, 1000);
    let tx = make_tx(0, 1, 100, TransactionAction::Create, 0, vec![], &secret(), Some(CHAIN_ID));
    assert!(validate_unsigned(&b, &tx, CHAIN_ID).is_ok());
    let wrong = make_tx(
        0,
        1,
        100,
        TransactionAction::Create,
        0,
        vec![],
        &secret(),
        Some(CHAIN_ID + 1),
    );
    assert!(matches!(validate_unsigned(&b, &wrong, CHAIN_ID), Err(AdmissionError::InvalidChainId)));
}

#[test]
fn garbage_signature_is_rejected() {
    let (b, _) = backend_with(1, 0, 1000);
    let tx = Transaction {
        nonce: U256::zero(),
        gas_price: U256::one(),
        gas_limit: U256::from_u64(100),
        action: TransactionAction::Create,
        value: U256::zero(),
        input: vec![],
        signature: TransactionSignature {
            v: 27,
            r: Word::new(vec![0xffu8; 32]),
            s: Word::new(vec![0xffu8; 32]),
        },
    };
    assert!(matches!(
        validate_unsigned(&b, &tx, CHAIN_ID),
        Err(AdmissionError::InvalidSignature)
    ));
}

#[test]
fn transaction_hash_matches_reference_stream() {
    let target = addr(0xb0);
    let tx = make_tx(
        1,
        3,
        21000,
        TransactionAction::Call(target),
        7,
        vec![0xde, 0xad],
        &secret(),
        None,
    );
    let ours = eth_engine::encode::encode_transaction(&tx);
    let mut stream = rlp::RlpStream::new_list(9);
    stream.append(&1u64);
    stream.append(&3u64);
    stream.append(&21000u64);
    stream.append(&tx_action_bytes(&tx));
    stream.append(&7u64);
    stream.append(&tx.input);
    stream.append(&tx.signature.v);
    stream.append(&strip_zeros(&tx.signature.r.bytes));
    stream.append(&strip_zeros(&tx.signature.s.bytes));
    assert_eq!(ours, stream.out().to_vec());
    let hash = eth_engine::encode::transaction_hash(&tx);
    assert_eq!(hash.bytes, keccak256(&ours));
}

fn tx_action_bytes(tx: &Transaction) -> Vec<u8> {
    match &tx.action {
        TransactionAction::Call(t) => t.bytes.clone(),
        TransactionAction::Create => Vec::new(),
    }
}

fn strip_zeros(b: &[u8]) -> Vec<u8> {
    let mut i = 0;
    while i < b.len() && b[i] == 0 {
        i += 1;
    }
    b[i..].to_vec()
}

#[test]
fn signing_message_with_chain_id_matches_reference_stream() {
    let tx = make_tx(
        2,
        5,
        400,
        TransactionAction::Call(addr(0x33)),
        9,
        vec![0x01],
        &secret(),
        Some(CHAIN_ID),
    );
    let ours = eth_engine::encode::encode_transaction_message(&tx);
    let mut stream = rlp::RlpStream::new_list(9);
    stream.append(&2u64);
    stream.append(&5u64);
    stream.append(&400u64);
    stream.append(&tx_action_bytes(&tx));
    stream.append(&9u64);
    stream.append(&tx.input);
    stream.append(&CHAIN_ID);
    stream.append(&0u8);
    stream.append(&0u8);
    assert_eq!(ours, stream.out().to_vec());
}

#[test]
fn signing_message_without_chain_id_has_six_items() {
    let tx = make_tx(0, 1, 100, TransactionAction::Create, 0, vec![], &secret(), None);
    let ours = eth_engine::encode::encode_transaction_message(&tx);
    let mut stream = rlp::RlpStream::new_list(6);
    stream.append(&0u64);
    stream.append(&1u64);
    stream.append(&100u64);
    stream.append(&tx_action_bytes(&tx));
    stream.append(&0u64);
    stream.append(&tx.input);
    assert_eq!(ours, stream.out().to_vec());
}
