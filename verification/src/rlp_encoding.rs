//! The recursive length prefix encoding of byte strings and of lists of them,
//! as functions on byte sequences.

use vstd::prelude::*;
use crate::big_endian::{byte_limit, lemma_minimal_be, lemma_minimal_be_len, minimal_be};

verus! {

/// The longest payload whose length the encoder writes out in full.
pub const MAX_PAYLOAD_LEN: usize = 0xffff_ffff;

/// The header of an item with a payload of `len` bytes. `base` is `0x80`
/// for a string and `0xc0` for a list. Up to 55 bytes the length is added to
/// the base; above that the header holds the number of length bytes and then
/// the length, big-endian without leading zero bytes.
pub open spec fn rlp_header(base: int, len: nat) -> Seq<u8> {
    if len <= 55 {
        seq![(base + len) as u8]
    } else {
        seq![(base + 55 + minimal_be(len).len()) as u8] + minimal_be(len)
    }
}

/// The encoding of a byte string. A single byte below `0x80` stands for
/// itself; every other string follows its header.
pub open spec fn rlp_string(bytes: Seq<u8>) -> Seq<u8> {
    if bytes.len() == 1 && bytes[0] < 0x80 {
        bytes
    } else {
        rlp_header(0x80, bytes.len()) + bytes
    }
}

/// The encoding of a list whose items, already encoded and concatenated, are
/// `payload`.
pub open spec fn rlp_list(payload: Seq<u8>) -> Seq<u8> {
    rlp_header(0xc0, payload.len()) + payload
}

/// The encodings of the strings `items`, one after the other.
pub open spec fn rlp_strings(items: Seq<Seq<u8>>) -> Seq<u8>
    decreases items.len(),
{
    if items.len() == 0 {
        Seq::empty()
    } else {
        rlp_strings(items.drop_last()) + rlp_string(items.last())
    }
}

/// The encoding of the list of the strings `items`.
pub open spec fn rlp_list_of_strings(items: Seq<Seq<u8>>) -> Seq<u8> {
    rlp_list(rlp_strings(items))
}

/// A length that fits in four bytes has at most four length bytes, and at
/// least one unless it is zero.
pub proof fn lemma_length_bytes(len: nat)
    requires
        len <= MAX_PAYLOAD_LEN,
    ensures
        minimal_be(len).len() <= 4,
        len > 0 ==> minimal_be(len).len() >= 1,
{
    assert(byte_limit(4) == 0x1_0000_0000) by {
        reveal_with_fuel(byte_limit, 5);
    }
    lemma_minimal_be_len(len, 4);
}

/// A header has between one and five bytes, and one byte for a payload of
/// up to 55 bytes.
pub proof fn lemma_header_len(base: int, len: nat)
    requires
        len <= MAX_PAYLOAD_LEN,
    ensures
        1 <= rlp_header(base, len).len() <= 5,
        len <= 55 ==> rlp_header(base, len).len() == 1,
{
    lemma_length_bytes(len);
}

/// The encoding of a string is at most five bytes longer than the string,
/// and at most one byte longer for a string of up to 55 bytes.
pub proof fn lemma_rlp_string_len(bytes: Seq<u8>)
    requires
        bytes.len() <= MAX_PAYLOAD_LEN,
    ensures
        1 <= rlp_string(bytes).len() <= bytes.len() + 5,
        bytes.len() <= 55 ==> rlp_string(bytes).len() <= bytes.len() + 1,
{
    lemma_header_len(0x80, bytes.len());
}

/// Appending one string to a sequence of strings appends its encoding.
pub proof fn lemma_rlp_strings_push(items: Seq<Seq<u8>>, item: Seq<u8>)
    ensures
        rlp_strings(items.push(item)) == rlp_strings(items) + rlp_string(item),
{
    assert(items.push(item).drop_last() =~= items);
}

/// Every string of `items` is short enough for the encoder.
pub open spec fn encodable_strings(items: Seq<Seq<u8>>) -> bool {
    forall|i: int| 0 <= i < items.len() ==> (#[trigger] items[i]).len() <= MAX_PAYLOAD_LEN
}

/// The first byte of a header tells whether the length is held in it or
/// follows it, and then how many bytes the length takes.
proof fn lemma_header_shape(base: int, len: nat)
    requires
        base == 0x80 || base == 0xc0,
        len <= MAX_PAYLOAD_LEN,
    ensures
        len <= 55 ==> rlp_header(base, len) == seq![(base + len) as u8],
        len > 55 ==> {
            &&& 1 <= minimal_be(len).len() <= 4
            &&& rlp_header(base, len)[0] == base + 55 + minimal_be(len).len()
            &&& rlp_header(base, len).len() == 1 + minimal_be(len).len()
            &&& rlp_header(base, len).subrange(1, 1 + minimal_be(len).len() as int)
                == minimal_be(len)
        },
{
    lemma_length_bytes(len);
    if len > 55 {
        assert(rlp_header(base, len).subrange(1, 1 + minimal_be(len).len() as int)
            =~= minimal_be(len));
    }
}

/// Where two headers with one base, each followed by more bytes, agree, they
/// are headers for the same length.
proof fn lemma_header_prefix_free(
    base: int,
    len_a: nat,
    rest_a: Seq<u8>,
    len_b: nat,
    rest_b: Seq<u8>,
)
    requires
        base == 0x80 || base == 0xc0,
        len_a <= MAX_PAYLOAD_LEN,
        len_b <= MAX_PAYLOAD_LEN,
        rlp_header(base, len_a) + rest_a == rlp_header(base, len_b) + rest_b,
    ensures
        len_a == len_b,
        rest_a == rest_b,
{
    let head_a = rlp_header(base, len_a);
    let head_b = rlp_header(base, len_b);
    let whole = head_a + rest_a;
    lemma_header_shape(base, len_a);
    lemma_header_shape(base, len_b);
    assert(whole[0] == head_a[0]);
    assert((head_b + rest_b)[0] == head_b[0]);
    if len_a > 55 && len_b > 55 {
        let n = minimal_be(len_a).len() as int;
        assert(minimal_be(len_b).len() == n);
        assert(whole.subrange(1, 1 + n) =~= head_a.subrange(1, 1 + n));
        assert((head_b + rest_b).subrange(1, 1 + n) =~= head_b.subrange(1, 1 + n));
        lemma_minimal_be(len_a);
        lemma_minimal_be(len_b);
    }
    assert(len_a == len_b);
    assert(rest_a =~= whole.skip(head_a.len() as int));
    assert(rest_b =~= (head_b + rest_b).skip(head_b.len() as int));
}

/// No encoding of a string is the beginning of the encoding of another:
/// where the encodings of two strings, each followed by more bytes, agree,
/// the strings are the same and so is what follows them.
pub proof fn lemma_rlp_string_prefix_free(
    a: Seq<u8>,
    rest_a: Seq<u8>,
    b: Seq<u8>,
    rest_b: Seq<u8>,
)
    requires
        a.len() <= MAX_PAYLOAD_LEN,
        b.len() <= MAX_PAYLOAD_LEN,
        rlp_string(a) + rest_a == rlp_string(b) + rest_b,
    ensures
        a == b,
        rest_a == rest_b,
{
    let whole = rlp_string(a) + rest_a;
    let small_a = a.len() == 1 && a[0] < 0x80;
    let small_b = b.len() == 1 && b[0] < 0x80;
    lemma_header_shape(0x80, a.len());
    lemma_header_shape(0x80, b.len());
    assert(whole[0] == rlp_string(a)[0]);
    assert((rlp_string(b) + rest_b)[0] == rlp_string(b)[0]);
    if small_a && small_b {
        assert(a =~= b);
        assert(rest_a =~= whole.skip(1));
        assert(rest_b =~= (rlp_string(b) + rest_b).skip(1));
    } else if !small_a && !small_b {
        assert(whole =~= rlp_header(0x80, a.len()) + (a + rest_a));
        assert(rlp_string(b) + rest_b =~= rlp_header(0x80, b.len()) + (b + rest_b));
        lemma_header_prefix_free(0x80, a.len(), a + rest_a, b.len(), b + rest_b);
        assert(a =~= (a + rest_a).subrange(0, a.len() as int));
        assert(b =~= (b + rest_b).subrange(0, b.len() as int));
        assert(rest_a =~= (a + rest_a).skip(a.len() as int));
        assert(rest_b =~= (b + rest_b).skip(b.len() as int));
    } else {
        assert(rlp_header(0x80, a.len())[0] >= 0x80);
        assert(rlp_header(0x80, b.len())[0] >= 0x80);
        assert(false);
    }
}

/// The encoding of a list gives its payload back.
pub proof fn lemma_rlp_list_injective(a: Seq<u8>, b: Seq<u8>)
    requires
        a.len() <= MAX_PAYLOAD_LEN,
        b.len() <= MAX_PAYLOAD_LEN,
        rlp_list(a) == rlp_list(b),
    ensures
        a == b,
{
    lemma_header_prefix_free(0xc0, a.len(), a, b.len(), b);
}

/// The encodings of a sequence of strings begin with that of the first.
pub proof fn lemma_rlp_strings_first(items: Seq<Seq<u8>>)
    requires
        items.len() > 0,
    ensures
        rlp_strings(items) == rlp_string(items[0]) + rlp_strings(items.drop_first()),
    decreases items.len(),
{
    if items.len() == 1 {
        assert(rlp_strings(items.drop_last()) =~= Seq::<u8>::empty());
        assert(rlp_strings(items.drop_first()) =~= Seq::<u8>::empty());
        assert(rlp_strings(items) =~= rlp_string(items[0]) + rlp_strings(items.drop_first()));
    } else {
        lemma_rlp_strings_first(items.drop_last());
        assert(items.drop_last().drop_first() =~= items.drop_first().drop_last());
        assert(items.drop_first().last() == items.last());
        assert(rlp_strings(items) =~= rlp_string(items[0]) + rlp_strings(items.drop_first()));
    }
}

/// The concatenated encodings of strings give the strings back: two
/// sequences of strings with the same encodings are the same sequence.
pub proof fn lemma_rlp_strings_injective(a: Seq<Seq<u8>>, b: Seq<Seq<u8>>)
    requires
        encodable_strings(a),
        encodable_strings(b),
        rlp_strings(a) == rlp_strings(b),
    ensures
        a == b,
    decreases a.len(),
{
    if a.len() == 0 || b.len() == 0 {
        if a.len() > 0 {
            lemma_rlp_strings_first(a);
            lemma_rlp_string_len(a[0]);
        }
        if b.len() > 0 {
            lemma_rlp_strings_first(b);
            lemma_rlp_string_len(b[0]);
        }
        assert(a =~= b);
    } else {
        lemma_rlp_strings_first(a);
        lemma_rlp_strings_first(b);
        lemma_rlp_string_prefix_free(
            a[0],
            rlp_strings(a.drop_first()),
            b[0],
            rlp_strings(b.drop_first()),
        );
        let rest_a = a.drop_first();
        let rest_b = b.drop_first();
        assert forall|i: int| 0 <= i < rest_a.len() implies (#[trigger] rest_a[i]).len()
            <= MAX_PAYLOAD_LEN by {
            assert(rest_a[i] == a[i + 1]);
        }
        assert forall|i: int| 0 <= i < rest_b.len() implies (#[trigger] rest_b[i]).len()
            <= MAX_PAYLOAD_LEN by {
            assert(rest_b[i] == b[i + 1]);
        }
        lemma_rlp_strings_injective(rest_a, rest_b);
        assert(a =~= seq![a[0]] + a.drop_first());
        assert(b =~= seq![b[0]] + b.drop_first());
    }
}

/// The encoding of a list of strings gives the strings back: two lists of
/// strings with the same encoding are the same list.
pub proof fn lemma_rlp_list_of_strings_injective(a: Seq<Seq<u8>>, b: Seq<Seq<u8>>)
    requires
        encodable_strings(a),
        encodable_strings(b),
        rlp_strings(a).len() <= MAX_PAYLOAD_LEN,
        rlp_strings(b).len() <= MAX_PAYLOAD_LEN,
        rlp_list_of_strings(a) == rlp_list_of_strings(b),
    ensures
        a == b,
{
    lemma_rlp_list_injective(rlp_strings(a), rlp_strings(b));
    lemma_rlp_strings_injective(a, b);
}

} // verus!
