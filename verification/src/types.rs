//! The fixed-size values that a transaction is made of.

use vstd::prelude::*;
use crate::big_endian::{
    be_value, lemma_be_value_padded, lemma_be_value_zeros, lemma_minimal_be, minimal_be,
    strip_leading_zeros, u64_to_minimal_bytes,
};

verus! {

/// An unsigned 256-bit integer, held as 32 bytes, most significant byte
/// first.
#[derive(Clone, Copy, Debug, PartialEq, Eq, Default)]
pub struct U256(pub [u8; 32]);

/// A 160-bit address.
#[derive(Clone, Copy, Debug, PartialEq, Eq, Default)]
pub struct H160(pub [u8; 20]);

/// A 256-bit value: a digest or a private key.
#[derive(Clone, Copy, Debug, PartialEq, Eq, Default)]
pub struct H256(pub [u8; 32]);

impl View for U256 {
    type V = nat;

    open spec fn view(&self) -> nat {
        be_value(self.0@)
    }
}

impl View for H160 {
    type V = Seq<u8>;

    open spec fn view(&self) -> Seq<u8> {
        self.0@
    }
}

impl View for H256 {
    type V = Seq<u8>;

    open spec fn view(&self) -> Seq<u8> {
        self.0@
    }
}

impl U256 {
    /// The number zero.
    pub fn zero() -> (zero: U256)
        ensures
            zero@ == 0,
    {
        let zero = U256([0u8; 32]);
        proof {
            lemma_be_value_zeros(zero.0@);
        }
        zero
    }

    /// The number that `bytes` denote, most significant byte first. There is
    /// none where `bytes` are more than 32.
    pub fn from_big_endian(bytes: &[u8]) -> (number: Option<U256>)
        ensures
            number is Some <==> bytes@.len() <= 32,
            number matches Some(n) ==> n@ == be_value(bytes@),
    {
        if bytes.len() > 32 {
            return None;
        }
        let pad: usize = 32 - bytes.len();
        let mut out = [0u8; 32];
        let mut i: usize = 0;
        while i < bytes.len()
            invariant
                pad + bytes@.len() == 32,
                i <= bytes@.len(),
                forall|j: int| 0 <= j < pad ==> out@[j] == 0,
                forall|j: int| 0 <= j < i ==> out@[pad + j] == bytes@[j],
            decreases bytes@.len() - i,
        {
            out[pad + i] = bytes[i];
            i += 1;
        }
        proof {
            assert(out@.skip(pad as int) =~= bytes@);
            lemma_be_value_padded(out@, bytes@);
        }
        Some(U256(out))
    }

    /// The number `value`.
    pub fn from_u64(value: u64) -> (number: U256)
        ensures
            number@ == value,
    {
        let bytes = u64_to_minimal_bytes(value);
        proof {
            lemma_minimal_be(value as nat);
        }
        match U256::from_big_endian(bytes.as_slice()) {
            Some(number) => number,
            None => U256::zero(),
        }
    }

    /// The bytes of the number without leading zero bytes; none for zero.
    pub fn to_minimal_bytes(&self) -> (out: Vec<u8>)
        ensures
            out@ == minimal_be(self@),
            out@.len() <= 32,
    {
        strip_leading_zeros(&self.0)
    }
}

} // verus!
