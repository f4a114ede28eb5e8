//! Unsigned integers as big-endian byte strings.

use vstd::prelude::*;

verus! {

/// The number that `bytes` denotes, most significant byte first.
pub open spec fn be_value(bytes: Seq<u8>) -> nat
    decreases bytes.len(),
{
    if bytes.len() == 0 {
        0
    } else {
        be_value(bytes.drop_last()) * 256 + bytes.last() as nat
    }
}

/// The shortest big-endian byte string that denotes `n`. Zero is the empty
/// string.
pub open spec fn minimal_be(n: nat) -> Seq<u8>
    decreases n,
{
    if n == 0 {
        Seq::empty()
    } else {
        minimal_be(n / 256).push((n % 256) as u8)
    }
}

/// How many zero bytes stand at the front of `bytes`.
pub open spec fn leading_zeros(bytes: Seq<u8>) -> nat
    decreases bytes.len(),
{
    if bytes.len() == 0 || bytes[0] != 0 {
        0
    } else {
        1 + leading_zeros(bytes.drop_first())
    }
}

/// `bytes` without its leading zero bytes.
pub open spec fn strip_zeros(bytes: Seq<u8>) -> Seq<u8> {
    bytes.skip(leading_zeros(bytes) as int)
}

/// A byte string is minimal when it does not begin with a zero byte.
pub open spec fn is_minimal(bytes: Seq<u8>) -> bool {
    bytes.len() > 0 ==> bytes[0] != 0
}

/// The leading zero bytes of a string are zero bytes of the string, and the
/// byte behind them, if there is one, is not zero.
pub proof fn lemma_leading_zeros_bound(bytes: Seq<u8>)
    ensures
        leading_zeros(bytes) <= bytes.len(),
        forall|i: int| 0 <= i < leading_zeros(bytes) ==> bytes[i] == 0,
        leading_zeros(bytes) < bytes.len() ==> bytes[leading_zeros(bytes) as int] != 0,
    decreases bytes.len(),
{
    if bytes.len() == 0 || bytes[0] != 0 {
    } else {
        let rest = bytes.drop_first();
        lemma_leading_zeros_bound(rest);
        assert forall|i: int| 0 <= i < leading_zeros(bytes) implies bytes[i] == 0 by {
            if i > 0 {
                assert(bytes[i] == rest[i - 1]);
            }
        }
    }
}

/// A zero byte at the front does not change the number denoted.
pub proof fn lemma_be_value_drop_zero(bytes: Seq<u8>)
    requires
        bytes.len() > 0,
        bytes[0] == 0,
    ensures
        be_value(bytes) == be_value(bytes.drop_first()),
    decreases bytes.len(),
{
    if bytes.len() == 1 {
        assert(be_value(bytes.drop_last()) == 0);
    } else {
        lemma_be_value_drop_zero(bytes.drop_last());
        assert(bytes.drop_last().drop_first() =~= bytes.drop_first().drop_last());
    }
}

/// Zero bytes in front of a string do not change the number denoted.
pub proof fn lemma_be_value_padded(padded: Seq<u8>, bytes: Seq<u8>)
    requires
        bytes.len() <= padded.len(),
        forall|i: int| 0 <= i < padded.len() - bytes.len() ==> padded[i] == 0,
        padded.skip(padded.len() - bytes.len()) == bytes,
    ensures
        be_value(padded) == be_value(bytes),
    decreases padded.len(),
{
    if padded.len() > bytes.len() {
        let rest = padded.drop_first();
        lemma_be_value_drop_zero(padded);
        assert forall|i: int| 0 <= i < rest.len() - bytes.len() implies rest[i] == 0 by {
            assert(rest[i] == padded[i + 1]);
        }
        assert(rest.skip(rest.len() - bytes.len()) =~= bytes);
        lemma_be_value_padded(rest, bytes);
    } else {
        assert(padded =~= bytes);
    }
}

/// Stripping leading zero bytes keeps the number denoted.
pub proof fn lemma_strip_zeros_value(bytes: Seq<u8>)
    ensures
        be_value(strip_zeros(bytes)) == be_value(bytes),
        is_minimal(strip_zeros(bytes)),
    decreases bytes.len(),
{
    lemma_leading_zeros_bound(bytes);
    if bytes.len() == 0 || bytes[0] != 0 {
        assert(strip_zeros(bytes) =~= bytes);
    } else {
        let rest = bytes.drop_first();
        lemma_strip_zeros_value(rest);
        lemma_be_value_drop_zero(bytes);
        assert(strip_zeros(bytes) =~= strip_zeros(rest));
    }
}

/// A string of zero bytes denotes zero.
pub proof fn lemma_be_value_zeros(bytes: Seq<u8>)
    requires
        forall|i: int| 0 <= i < bytes.len() ==> bytes[i] == 0,
    ensures
        be_value(bytes) == 0,
    decreases bytes.len(),
{
    if bytes.len() > 0 {
        lemma_be_value_zeros(bytes.drop_last());
    }
}

/// Only strings of zero bytes denote zero.
pub proof fn lemma_be_value_zero(bytes: Seq<u8>)
    requires
        be_value(bytes) == 0,
    ensures
        forall|i: int| 0 <= i < bytes.len() ==> bytes[i] == 0,
    decreases bytes.len(),
{
    if bytes.len() > 0 {
        let init = bytes.drop_last();
        lemma_be_value_zero(init);
        assert forall|i: int| 0 <= i < bytes.len() implies bytes[i] == 0 by {
            if i < bytes.len() - 1 {
                assert(bytes[i] == init[i]);
            }
        }
    }
}

/// The minimal string of `n` denotes `n`, does not begin with a zero byte,
/// and is empty exactly when `n` is zero.
pub proof fn lemma_minimal_be(n: nat)
    ensures
        be_value(minimal_be(n)) == n,
        is_minimal(minimal_be(n)),
        minimal_be(n).len() == 0 <==> n == 0,
    decreases n,
{
    if n != 0 {
        let init = minimal_be(n / 256);
        lemma_minimal_be(n / 256);
        assert(minimal_be(n).drop_last() =~= init);
    }
}

/// `256` to the power of `k`: the first number that `k` bytes cannot denote.
pub open spec fn byte_limit(k: nat) -> nat
    decreases k,
{
    if k == 0 {
        1
    } else {
        256 * byte_limit((k - 1) as nat)
    }
}

/// A number below `256` to the power of `k` has a minimal string of at most
/// `k` bytes.
pub proof fn lemma_minimal_be_len(n: nat, k: nat)
    requires
        n < byte_limit(k),
    ensures
        minimal_be(n).len() <= k,
    decreases k,
{
    if n != 0 {
        lemma_minimal_be_len(n / 256, (k - 1) as nat);
    }
}

/// A number of 64 bits has a minimal string of at most eight bytes.
pub proof fn lemma_minimal_be_u64(n: nat)
    requires
        n <= u64::MAX,
    ensures
        minimal_be(n).len() <= 8,
{
    assert(byte_limit(8) == 0x1_0000_0000_0000_0000) by {
        reveal_with_fuel(byte_limit, 9);
    }
    lemma_minimal_be_len(n, 8);
}

/// A minimal string is the minimal string of the number that it denotes: no
/// two minimal strings denote the same number.
pub proof fn lemma_minimal_be_unique(bytes: Seq<u8>)
    requires
        is_minimal(bytes),
    ensures
        minimal_be(be_value(bytes)) == bytes,
    decreases bytes.len(),
{
    if bytes.len() > 0 {
        let init = bytes.drop_last();
        let n = be_value(bytes);
        if n == 0 {
            lemma_be_value_zero(bytes);
        }
        lemma_minimal_be_unique(init);
        assert(init.push(bytes.last()) =~= bytes);
    }
}

/// Stripping the leading zero bytes of a string gives the minimal string of
/// the number that it denotes.
pub proof fn lemma_strip_zeros_is_minimal_be(bytes: Seq<u8>)
    ensures
        strip_zeros(bytes) == minimal_be(be_value(bytes)),
{
    lemma_strip_zeros_value(bytes);
    lemma_minimal_be_unique(strip_zeros(bytes));
}

/// Copies `bytes` without its leading zero bytes.
pub fn strip_leading_zeros(bytes: &[u8]) -> (out: Vec<u8>)
    ensures
        out@ == strip_zeros(bytes@),
        out@ == minimal_be(be_value(bytes@)),
        out@.len() <= bytes@.len(),
{
    let mut start: usize = 0;
    assert(bytes@.skip(0) =~= bytes@);
    while start < bytes.len() && bytes[start] == 0
        invariant
            start <= bytes.len(),
            leading_zeros(bytes@) == start + leading_zeros(bytes@.skip(start as int)),
        decreases bytes.len() - start,
    {
        proof {
            let rest = bytes@.skip(start as int);
            assert(rest.drop_first() =~= bytes@.skip(start + 1));
        }
        start += 1;
    }
    proof {
        lemma_strip_zeros_is_minimal_be(bytes@);
    }
    let mut out: Vec<u8> = Vec::new();
    let mut i: usize = start;
    while i < bytes.len()
        invariant
            start <= i <= bytes.len(),
            out@ == bytes@.subrange(start as int, i as int),
        decreases bytes.len() - i,
    {
        out.push(bytes[i]);
        i += 1;
    }
    out
}

/// The shortest big-endian byte string that denotes `v`.
pub fn u64_to_minimal_bytes(v: u64) -> (out: Vec<u8>)
    ensures
        out@ == minimal_be(v as nat),
        out@.len() <= 8,
    decreases v,
{
    if v == 0 {
        Vec::new()
    } else {
        let mut out = u64_to_minimal_bytes(v / 256);
        out.push((v % 256) as u8);
        proof {
            lemma_minimal_be_u64(v as nat);
        }
        out
    }
}

} // verus!
