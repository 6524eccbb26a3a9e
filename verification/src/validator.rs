//! Transaction admission: signer recovery, chain-identifier check,
//! nonce ordering and fee affordability.

use vstd::prelude::*;

use crate::bytes::clone_bytes;
use crate::encode::{transaction_message_hash, tx_message_hash_of};
use crate::hashing::{keccak256, keccak256_of, secp256k1_recover, secp256k1_recover_of};
use crate::rlp::append_bytes;
use crate::state::{account_or_default, Backend};
use crate::types::{sig_chain_id, sig_standard_v, Account, AccountV, AdmissionError, Address,
    Transaction};
use crate::u256::{u256_bound, U256};

verus! {

/// The signer address a transaction recovers to: the low twenty bytes
/// of the digest of the recovered public key; nothing when recovery
/// fails.
pub open spec fn signer_of(tx: Transaction) -> Option<Seq<u8>> {
    match secp256k1_recover_of(
        tx_message_hash_of(tx),
        tx.signature.r@ + tx.signature.s@,
        sig_standard_v(tx.signature.v),
    ) {
        Some(p) => Some(keccak256_of(p).skip(12)),
        None => None,
    }
}

/// The admission fee, computed with clamping multiplication.
pub open spec fn fee_sat(gas_price: nat, gas_limit: nat) -> nat {
    if gas_price * gas_limit >= u256_bound() {
        (u256_bound() - 1) as nat
    } else {
        gas_price * gas_limit
    }
}

/// An admitted transaction's verdict, mathematically: the slot it
/// fills and the slot it waits for.
pub struct AdmissionVerdictV {
    pub provides: (Seq<u8>, nat),
    pub depends_on: Option<(Seq<u8>, nat)>,
}

/// The admission decision for a recovered signer with known account
/// state: the declared chain identifier must match, the nonce must not
/// be stale, and the balance must cover the fee; an admitted
/// transaction provides its own (signer, nonce) slot and depends on the
/// predecessor slot when its nonce runs ahead.
pub open spec fn admission_spec(
    tx: Transaction,
    signer: Seq<u8>,
    account: AccountV,
    chain_id: u64,
) -> Result<AdmissionVerdictV, AdmissionError> {
    let chain_mismatch = match sig_chain_id(tx.signature.v) {
        Some(c) => c != chain_id,
        None => false,
    };
    if chain_mismatch {
        Err(AdmissionError::InvalidChainId)
    } else if tx.nonce@ < account.nonce {
        Err(AdmissionError::Stale)
    } else if account.balance < fee_sat(tx.gas_price@, tx.gas_limit@) {
        Err(AdmissionError::Payment)
    } else {
        Ok(
            AdmissionVerdictV {
                provides: (signer, tx.nonce@),
                depends_on: if tx.nonce@ > account.nonce {
                    Some((signer, (tx.nonce@ - 1) as nat))
                } else {
                    None
                },
            },
        )
    }
}

/// An admission verdict for the external ordering layer.
#[derive(Debug)]
pub struct AdmissionVerdict {
    pub provides: (Address, U256),
    pub depends_on: Option<(Address, U256)>,
}

impl View for AdmissionVerdict {
    type V = AdmissionVerdictV;

    open spec fn view(&self) -> AdmissionVerdictV {
        AdmissionVerdictV {
            provides: (self.provides.0@, self.provides.1@),
            depends_on: match self.depends_on {
                Some(d) => Some((d.0@, d.1@)),
                None => None,
            },
        }
    }
}

/// Recover the signer of a transaction from its signature over the
/// canonical signing-message hash.
pub fn recover_signer(tx: &Transaction) -> (r: Option<Address>)
    requires
        tx.wf(),
    ensures
        (match r {
            Some(a) => signer_of(*tx) == Some(a@) && a.wf(),
            None => signer_of(*tx) is None,
        }),
{
    let msg = transaction_message_hash(tx);
    let mut rs = clone_bytes(&tx.signature.r.bytes);
    append_bytes(&mut rs, &tx.signature.s.bytes);
    let v = tx.signature.standard_v();
    match secp256k1_recover(&msg, &rs, v) {
        Some(pubkey) => {
            let digest = keccak256(&pubkey);
            let mut addr_bytes: Vec<u8> = Vec::new();
            let mut i: usize = 12;
            while i < 32
                invariant
                    12 <= i <= 32,
                    digest@.len() == 32,
                    addr_bytes@ == digest@.subrange(12, i as int),
                decreases 32 - i,
            {
                addr_bytes.push(digest[i]);
                proof {
                    assert(digest@.subrange(12, i + 1) =~= digest@.subrange(12, i as int).push(
                        digest@[i as int],
                    ));
                }
                i += 1;
            }
            proof {
                assert(digest@.subrange(12, 32) =~= digest@.skip(12));
            }
            Some(Address::new(addr_bytes))
        },
        None => None,
    }
}

/// Decide admission for a transaction whose signer and account state
/// are known.
pub fn validate_admission(
    tx: &Transaction,
    signer: &Address,
    account: &Account,
    chain_id: u64,
) -> (r: Result<AdmissionVerdict, AdmissionError>)
    requires
        tx.wf(),
        signer.wf(),
    ensures
        (match admission_spec(*tx, signer@, account@, chain_id) {
            Ok(vv) => r matches Ok(v) && v@ == vv && v.provides.0.wf(),
            Err(e) => r == Err::<AdmissionVerdict, AdmissionError>(e),
        }),
{
    if let Some(c) = tx.signature.chain_id() {
        if c != chain_id {
            return Err(AdmissionError::InvalidChainId);
        }
    }
    if tx.nonce.lt(&account.nonce) {
        return Err(AdmissionError::Stale);
    }
    let fee = tx.gas_price.saturating_mul(&tx.gas_limit);
    proof {
        crate::u256::lemma_view_bound(tx.gas_price);
        crate::u256::lemma_view_bound(tx.gas_limit);
        assert(fee@ == fee_sat(tx.gas_price@, tx.gas_limit@));
    }
    if account.balance.lt(&fee) {
        return Err(AdmissionError::Payment);
    }
    let depends_on = if account.nonce.lt(&tx.nonce) {
        let one = U256::one();
        let prev = match tx.nonce.checked_sub(&one) {
            Some(prev) => prev,
            None => {
                proof {
                    assert(false);
                }
                U256::zero()
            },
        };
        Some((signer.clone_addr(), prev))
    } else {
        None
    };
    Ok(AdmissionVerdict { provides: (signer.clone_addr(), tx.nonce), depends_on })
}

/// Decide admission of a transaction against the current state:
/// recover the signer, then check chain identifier, nonce ordering and
/// fee affordability.  This decides admission only; it executes nothing.
pub fn validate_unsigned(backend: &Backend, tx: &Transaction, chain_id: u64) -> (r: Result<
    AdmissionVerdict,
    AdmissionError,
>)
    requires
        tx.wf(),
        backend.wf(),
    ensures
        (match signer_of(*tx) {
            None => r == Err::<AdmissionVerdict, AdmissionError>(AdmissionError::InvalidSignature),
            Some(s) => (match admission_spec(
                *tx,
                s,
                account_or_default(backend.state(), s),
                chain_id,
            ) {
                Ok(vv) => r matches Ok(v) && v@ == vv,
                Err(e) => r == Err::<AdmissionVerdict, AdmissionError>(e),
            }),
        }),
{
    let signer = match recover_signer(tx) {
        Some(s) => s,
        None => {
            return Err(AdmissionError::InvalidSignature);
        },
    };
    let account = backend.basic(&signer);
    validate_admission(tx, &signer, &account, chain_id)
}

} // verus!
