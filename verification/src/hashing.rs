//! Trusted entry points to the outside hash and signature-recovery
//! functions.  Each digest is given a name: a spec function of the input
//! alone, believed of the outside call and used by every contract that
//! speaks of the digest.

use vstd::prelude::*;

verus! {

/// The Keccak-256 digest of a byte string.
pub uninterp spec fn keccak256_of(data: Seq<u8>) -> Seq<u8>;

/// The SHA-256 digest of a byte string.
pub uninterp spec fn sha256_of(data: Seq<u8>) -> Seq<u8>;

/// The public key (64 bytes, uncompressed, without prefix) recovered from
/// a 32-byte message digest, a 64-byte `r || s` signature and a recovery
/// bit; `None` when recovery fails.
pub uninterp spec fn secp256k1_recover_of(msg: Seq<u8>, rs: Seq<u8>, recovery_id: u8) -> Option<
    Seq<u8>,
>;

/// Relies on sha3::Keccak256 through the Digest trait: the 32-byte
/// Keccak-256 digest, a function of the input bytes alone.
#[verifier::external_body]
pub fn keccak256(data: &Vec<u8>) -> (r: Vec<u8>)
    ensures
        r@ == keccak256_of(data@),
        r@.len() == 32,
{
    let d = <sha3::Keccak256 as sha3::Digest>::digest(data.as_slice());
    d.as_slice().to_vec()
}

/// Relies on sha2::Sha256 through the Digest trait: the 32-byte SHA-256
/// digest, a function of the input bytes alone.
#[verifier::external_body]
pub fn sha256(data: &Vec<u8>) -> (r: Vec<u8>)
    ensures
        r@ == sha256_of(data@),
        r@.len() == 32,
{
    let d = <sha2::Sha256 as sha2::Digest>::digest(data.as_slice());
    d.as_slice().to_vec()
}

/// Relies on libsecp256k1::recover (with Message, Signature and
/// RecoveryId parsed from the argument bytes, and the 65-byte serialized
/// public key trimmed of its constant prefix byte): ECDSA public-key
/// recovery over secp256k1, a function of the arguments alone.
#[verifier::external_body]
pub fn secp256k1_recover(msg: &Vec<u8>, rs: &Vec<u8>, recovery_id: u8) -> (r: Option<Vec<u8>>)
    requires
        msg@.len() == 32,
        rs@.len() == 64,
        recovery_id < 4,
    ensures
        (r matches Some(p) ==> secp256k1_recover_of(msg@, rs@, recovery_id) == Some(p@)
            && p@.len() == 64),
        (r is None ==> secp256k1_recover_of(msg@, rs@, recovery_id) is None),
{
    let rid = libsecp256k1::RecoveryId::parse(recovery_id).ok()?;
    let sig = libsecp256k1::Signature::parse_standard_slice(rs.as_slice()).ok()?;
    let m = libsecp256k1::Message::parse_slice(msg.as_slice()).ok()?;
    let pk = libsecp256k1::recover(&m, &sig, &rid).ok()?;
    Some(pk.serialize()[1..65].to_vec())
}

} // verus!
