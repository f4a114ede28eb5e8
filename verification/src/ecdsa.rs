//! Recoverable ECDSA signatures over secp256k1, made by the `secp256k1`
//! crate, and how a signature is bound to a chain.

use vstd::prelude::*;
use secp256k1::ecdsa::RecoverableSignature;
use secp256k1::{Message, SecretKey};
use crate::big_endian::{
    be_value, is_minimal, lemma_be_value_zeros, lemma_leading_zeros_bound, lemma_minimal_be,
    lemma_strip_zeros_is_minimal_be, minimal_be, strip_leading_zeros,
};

verus! {

/// Why a signature could not be made.
#[derive(Debug, Clone, Copy, PartialEq, Eq, Structural)]
pub enum SignError {
    /// The private key is zero, not below the order of the curve, or not 32
    /// bytes long.
    InvalidKey,
    /// The digest is not 32 bytes long.
    InvalidMessage,
}

/// The order of the group of secp256k1.
pub open spec fn curve_order() -> nat {
    0xffffffff_ffffffff_ffffffff_fffffffe_baaedce6_af48a03b_bfd25e8c_d0364141nat
}

/// A private key is 32 bytes that denote, most significant byte first, a
/// number above zero and below the order of the curve.
pub open spec fn valid_secret_key(key: Seq<u8>) -> bool {
    key.len() == 32 && 0 < be_value(key) < curve_order()
}

/// The signature that the `secp256k1` crate makes of a digest of 32 bytes
/// with a valid private key: the recovery id, and the 64 bytes of `r` and `s`.
/// The nonce is derived from digest and key, so the signature is a function
/// of the two.
pub uninterp spec fn ecdsa_recoverable(digest: Seq<u8>, key: Seq<u8>) -> (u8, Seq<u8>);

/// `secp256k1::Error`: the verifier sees nothing inside it.
#[verifier::external_type_specification]
#[verifier::external_body]
pub struct ExSecp256k1Error(secp256k1::Error);

/// `RecoverableSignature::sign_ecdsa_recoverable` of the `secp256k1` crate,
/// on a key made by `SecretKey::from_secret_bytes` and a message made by
/// `Message::from_digest`, its result taken apart by `serialize_compact`.
/// Nothing of this is proved. The contract claims that the only failure is
/// that of the key, which is refused exactly when it is zero or not below the
/// order of the curve; that the recovery id is at most 3; and that the
/// signature depends on digest and key alone. Which signature it is, is not
/// stated but named.
#[verifier::external_body]
fn sign_recoverable(digest: &[u8; 32], key: &[u8; 32]) -> (signed: Result<
    (u8, [u8; 64]),
    secp256k1::Error,
>)
    ensures
        signed is Ok <==> valid_secret_key(key@),
        signed matches Ok((id, compact)) ==> id <= 3 && (id, compact@) == ecdsa_recoverable(
            digest@,
            key@,
        ),
{
    let secret = SecretKey::from_secret_bytes(*key)?;
    let message = Message::from_digest(*digest);
    let (id, compact) = RecoverableSignature::sign_ecdsa_recoverable(message, &secret)
        .serialize_compact();
    Ok((id.to_u8(), compact))
}

/// A signature bound to a chain. Neither `r` nor `s` begins with a zero byte
/// or is longer than 32 bytes.
#[derive(Debug)]
pub struct EcdsaSig {
    v: u64,
    r: Vec<u8>,
    s: Vec<u8>,
}

/// A signature as a mathematical value: the number `v`, and `r` and `s` as
/// big-endian byte strings.
pub struct Signature {
    pub v: nat,
    pub r: Seq<u8>,
    pub s: Seq<u8>,
}

impl Signature {
    /// Neither `r` nor `s` begins with a zero byte or is longer than 32
    /// bytes, and `v` fits in 64 bits.
    pub open spec fn normalized(self) -> bool {
        &&& self.v <= u64::MAX
        &&& is_minimal(self.r)
        &&& is_minimal(self.s)
        &&& self.r.len() <= 32
        &&& self.s.len() <= 32
    }
}

impl View for EcdsaSig {
    type V = Signature;

    closed spec fn view(&self) -> Signature {
        Signature { v: self.v as nat, r: self.r@, s: self.s@ }
    }
}

/// The number that binds a recovery id to a chain.
pub open spec fn replay_protected_v(recovery_id: u8, chain_id: u8) -> nat {
    (recovery_id + chain_id * 2 + 35) as nat
}

/// The signature that a recovery id and the 64 bytes of `r` and `s` give on
/// a chain: `r` and `s` are the shortest strings that denote the two numbers.
pub open spec fn chain_signature(recovery_id: u8, compact: Seq<u8>, chain_id: u8) -> Signature {
    Signature {
        v: replay_protected_v(recovery_id, chain_id),
        r: minimal_be(be_value(compact.subrange(0, 32))),
        s: minimal_be(be_value(compact.subrange(32, 64))),
    }
}

/// The signature that is made of 64 bytes of `r` and `s` is normalized, and
/// a component of it is empty exactly where its number is zero: no
/// significant byte is stripped.
pub proof fn lemma_chain_signature_normalized(recovery_id: u8, compact: Seq<u8>, chain_id: u8)
    requires
        compact.len() == 64,
    ensures
        chain_signature(recovery_id, compact, chain_id).normalized(),
        be_value(chain_signature(recovery_id, compact, chain_id).r) == be_value(
            compact.subrange(0, 32),
        ),
        be_value(chain_signature(recovery_id, compact, chain_id).s) == be_value(
            compact.subrange(32, 64),
        ),
        chain_signature(recovery_id, compact, chain_id).r.len() == 0 <==> be_value(
            compact.subrange(0, 32),
        ) == 0,
        chain_signature(recovery_id, compact, chain_id).s.len() == 0 <==> be_value(
            compact.subrange(32, 64),
        ) == 0,
{
    let r = compact.subrange(0, 32);
    let s = compact.subrange(32, 64);
    lemma_minimal_be(be_value(r));
    lemma_minimal_be(be_value(s));
    lemma_strip_zeros_is_minimal_be(r);
    lemma_strip_zeros_is_minimal_be(s);
    lemma_leading_zeros_bound(r);
    lemma_leading_zeros_bound(s);
}

/// Signatures made for two chains share `v` only where the recovery ids
/// differ by twice the distance of the chains, the other way round. Recovery
/// ids 0 and 1 never do, so with them `v` differs.
pub proof fn lemma_v_binds_chain(id_a: u8, chain_a: u8, id_b: u8, chain_b: u8)
    requires
        chain_a != chain_b,
    ensures
        replay_protected_v(id_a, chain_a) == replay_protected_v(id_b, chain_b) <==> id_a - id_b
            == 2 * (chain_b - chain_a),
        id_a <= 1 && id_b <= 1 ==> replay_protected_v(id_a, chain_a) != replay_protected_v(
            id_b,
            chain_b,
        ),
{
}

/// A key of zero bytes is not valid.
pub proof fn lemma_zero_key_invalid(key: Seq<u8>)
    requires
        forall|i: int| 0 <= i < key.len() ==> key[i] == 0,
    ensures
        !valid_secret_key(key),
{
    lemma_be_value_zeros(key);
}

impl EcdsaSig {
    #[verifier::type_invariant]
    spec fn normalized(self) -> bool {
        self@.normalized()
    }

    /// Binds a signature to a chain: computes `v`, and strips the leading zero
    /// bytes of `r` and `s`, so that a component is empty only where its number
    /// is zero.
    pub fn from_recoverable(recovery_id: u8, compact: &[u8; 64], chain_id: u8) -> (sig: EcdsaSig)
        ensures
            sig@ == chain_signature(recovery_id, compact@, chain_id),
            sig@.normalized(),
            sig@.r.len() == 0 <==> be_value(compact@.subrange(0, 32)) == 0,
            sig@.s.len() == 0 <==> be_value(compact@.subrange(32, 64)) == 0,
    {
        let v: u64 = recovery_id as u64 + chain_id as u64 * 2 + 35;
        let r = strip_leading_zeros(&compact[0..32]);
        let s = strip_leading_zeros(&compact[32..64]);
        proof {
            lemma_minimal_be(be_value(compact@.subrange(0, 32)));
            lemma_minimal_be(be_value(compact@.subrange(32, 64)));
        }
        EcdsaSig { v, r, s }
    }

    /// The number that holds the recovery id and the chain id.
    pub fn v(&self) -> (v: u64)
        ensures
            v == self@.v,
            self@.normalized(),
    {
        proof {
            use_type_invariant(self);
        }
        self.v
    }

    /// `r`, big-endian: at most 32 bytes, the first of which is not zero.
    pub fn r(&self) -> (r: &[u8])
        ensures
            r@ == self@.r,
            is_minimal(r@),
            r@.len() <= 32,
    {
        proof {
            use_type_invariant(self);
        }
        self.r.as_slice()
    }

    /// `s`, big-endian: at most 32 bytes, the first of which is not zero.
    pub fn s(&self) -> (s: &[u8])
        ensures
            s@ == self@.s,
            is_minimal(s@),
            s@.len() <= 32,
    {
        proof {
            use_type_invariant(self);
        }
        self.s.as_slice()
    }
}

/// The bytes of a slice of 32 bytes as an array.
fn to_array_32(bytes: &[u8]) -> (out: [u8; 32])
    requires
        bytes@.len() == 32,
    ensures
        out@ == bytes@,
{
    let mut out = [0u8; 32];
    let mut i: usize = 0;
    while i < 32
        invariant
            i <= 32,
            bytes@.len() == 32,
            forall|j: int| 0 <= j < i ==> out@[j] == bytes@[j],
        decreases 32 - i,
    {
        out[i] = bytes[i];
        i += 1;
    }
    out
}

/// Signs the digest `hash` with `private_key` and binds the signature to the
/// chain `chain_id`. The digest is looked at first: where it is not 32 bytes
/// long the key is not examined.
pub fn ecdsa_sign(hash: &[u8], private_key: &[u8], chain_id: &u8) -> (signed: Result<
    EcdsaSig,
    SignError,
>)
    ensures
        match signed {
            Ok(sig) => {
                &&& hash@.len() == 32
                &&& valid_secret_key(private_key@)
                &&& sig@ == chain_signature(
                    ecdsa_recoverable(hash@, private_key@).0,
                    ecdsa_recoverable(hash@, private_key@).1,
                    *chain_id,
                )
                &&& sig@.normalized()
                &&& ecdsa_recoverable(hash@, private_key@).0 <= 3
                &&& ecdsa_recoverable(hash@, private_key@).1.len() == 64
            },
            Err(SignError::InvalidMessage) => hash@.len() != 32,
            Err(SignError::InvalidKey) => hash@.len() == 32 && !valid_secret_key(private_key@),
        },
{
    if hash.len() != 32 {
        return Err(SignError::InvalidMessage);
    }
    if private_key.len() != 32 {
        return Err(SignError::InvalidKey);
    }
    let digest = to_array_32(hash);
    let key = to_array_32(private_key);
    match sign_recoverable(&digest, &key) {
        Ok((recovery_id, compact)) => {
            Ok(EcdsaSig::from_recoverable(recovery_id, &compact, *chain_id))
        },
        Err(_) => Err(SignError::InvalidKey),
    }
}

} // verus!
