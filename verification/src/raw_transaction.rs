//! Transactions and their encodings.

use vstd::prelude::*;
use rlp::RlpStream;
use crate::big_endian::{
    lemma_leading_zeros_bound, lemma_minimal_be, lemma_minimal_be_u64,
    lemma_strip_zeros_is_minimal_be, minimal_be, u64_to_minimal_bytes,
};
use crate::ecdsa::{
    chain_signature, ecdsa_recoverable, ecdsa_sign, lemma_chain_signature_normalized,
    lemma_v_binds_chain, valid_secret_key, EcdsaSig, SignError, Signature,
};
use crate::keccak::{keccak256, keccak256_hash};
use crate::rlp_encoding::{
    encodable_strings, lemma_rlp_list_of_strings_injective, lemma_rlp_string_len,
    lemma_rlp_strings_push, rlp_list_of_strings, rlp_string, rlp_strings, MAX_PAYLOAD_LEN,
};
use crate::rlp_stream::{
    stream_accepts, stream_append, stream_begin_unbounded_list, stream_bytes,
    stream_finalize_unbounded_list, stream_lists, stream_new, stream_out,
};
use crate::types::{H160, H256, U256};

verus! {

/// Description of a transaction, pending or in the chain.
#[derive(Debug, Default, Clone, PartialEq, Eq)]
pub struct RawTransaction {
    /// Nonce
    pub nonce: U256,
    /// Recipient (None when contract creation)
    pub to: Option<H160>,
    /// Transferred value
    pub value: U256,
    /// Gas price
    pub gas_price: U256,
    /// Gas amount
    pub gas: U256,
    /// Input data
    pub data: Vec<u8>,
}

/// A transaction as a mathematical value.
pub struct Transaction {
    pub nonce: nat,
    pub to: Option<Seq<u8>>,
    pub value: nat,
    pub gas_price: nat,
    pub gas: nat,
    pub data: Seq<u8>,
}

impl View for RawTransaction {
    type V = Transaction;

    open spec fn view(&self) -> Transaction {
        Transaction {
            nonce: self.nonce@,
            to: match self.to {
                Some(address) => Some(address@),
                None => None,
            },
            value: self.value@,
            gas_price: self.gas_price@,
            gas: self.gas@,
            data: self.data@,
        }
    }
}

/// The item that stands for the recipient: the address, or the empty string
/// where the transaction creates a contract.
pub open spec fn recipient_item(to: Option<Seq<u8>>) -> Seq<u8> {
    match to {
        Some(address) => address,
        None => Seq::empty(),
    }
}

/// The six items of a transaction, in the order in which they are encoded:
/// nonce, gas price, gas, recipient, value, data. A number is the shortest
/// big-endian string that denotes it.
pub open spec fn transaction_items(tx: Transaction) -> Seq<Seq<u8>> {
    seq![
        minimal_be(tx.nonce),
        minimal_be(tx.gas_price),
        minimal_be(tx.gas),
        recipient_item(tx.to),
        minimal_be(tx.value),
        tx.data,
    ]
}

/// The items that are hashed for the chain `chain_id`: those of the
/// transaction, then the chain id and the number zero twice. The chain id is
/// a number like the others: chain 0 is the empty string.
pub open spec fn unsigned_items(tx: Transaction, chain_id: u8) -> Seq<Seq<u8>> {
    transaction_items(tx) + seq![minimal_be(chain_id as nat), minimal_be(0), minimal_be(0)]
}

/// The items of a signed transaction: those of the transaction, then `v`,
/// `r` and `s`.
pub open spec fn signed_items(tx: Transaction, sig: Signature) -> Seq<Seq<u8>> {
    transaction_items(tx) + seq![minimal_be(sig.v), sig.r, sig.s]
}

/// The bytes that are hashed for the chain `chain_id`.
pub open spec fn unsigned_encoding(tx: Transaction, chain_id: u8) -> Seq<u8> {
    rlp_list_of_strings(unsigned_items(tx, chain_id))
}

/// The bytes of a signed transaction.
pub open spec fn signed_encoding(tx: Transaction, sig: Signature) -> Seq<u8> {
    rlp_list_of_strings(signed_items(tx, sig))
}

/// The digest that is signed for the chain `chain_id`.
pub open spec fn signing_hash(tx: Transaction, chain_id: u8) -> Seq<u8> {
    keccak256(unsigned_encoding(tx, chain_id))
}

/// The signature of a transaction with `key` for the chain `chain_id`.
pub open spec fn transaction_signature(tx: Transaction, key: Seq<u8>, chain_id: u8) -> Signature {
    let signed = ecdsa_recoverable(signing_hash(tx, chain_id), key);
    chain_signature(signed.0, signed.1, chain_id)
}

/// The longest input data with which a transaction can be encoded: the
/// encoder writes the length of a list in four bytes, and the other items
/// take less than 256 bytes of it.
pub const MAX_DATA_LEN: usize = 0xffff_ff00;

/// The bytes that the six items of a transaction take at most, besides the
/// input data.
pub const ITEMS_OVERHEAD: usize = 158;

/// Appends one string to a stream that holds, behind `before`, the encodings
/// of `items`.
fn append_item(
    s: &mut RlpStream,
    bytes: &[u8],
    Ghost(before): Ghost<Seq<u8>>,
    Ghost(items): Ghost<Seq<Seq<u8>>>,
)
    requires
        bytes@.len() <= MAX_PAYLOAD_LEN,
        stream_accepts(*old(s)),
        stream_bytes(*old(s)) == before + rlp_strings(items),
    ensures
        stream_bytes(*final(s)) == before + rlp_strings(items.push(bytes@)),
        stream_lists(*final(s)) == stream_lists(*old(s)),
        rlp_strings(items.push(bytes@)).len() <= rlp_strings(items).len() + bytes@.len() + 5,
        bytes@.len() <= 55 ==> rlp_strings(items.push(bytes@)).len() <= rlp_strings(items).len()
            + bytes@.len() + 1,
{
    stream_append(s, bytes);
    proof {
        lemma_rlp_strings_push(items, bytes@);
        lemma_rlp_string_len(bytes@);
    }
}

impl RawTransaction {
    /// Appends the six items of the transaction to `s`: nonce, gas price, gas,
    /// recipient, value and input data, each as a string.
    pub(crate) fn encode(&self, s: &mut RlpStream)
        requires
            self.data@.len() <= MAX_PAYLOAD_LEN,
            stream_accepts(*old(s)),
        ensures
            stream_bytes(*final(s)) == stream_bytes(*old(s)) + rlp_strings(
                transaction_items(self@),
            ),
            stream_lists(*final(s)) == stream_lists(*old(s)),
            rlp_strings(transaction_items(self@)).len() <= self.data@.len() + ITEMS_OVERHEAD,
    {
        let ghost before = stream_bytes(*s);
        let ghost mut items: Seq<Seq<u8>> = Seq::empty();

        let nonce = self.nonce.to_minimal_bytes();
        append_item(s, nonce.as_slice(), Ghost(before), Ghost(items));
        proof {
            items = items.push(nonce@);
        }
        let gas_price = self.gas_price.to_minimal_bytes();
        append_item(s, gas_price.as_slice(), Ghost(before), Ghost(items));
        proof {
            items = items.push(gas_price@);
        }
        let gas = self.gas.to_minimal_bytes();
        append_item(s, gas.as_slice(), Ghost(before), Ghost(items));
        proof {
            items = items.push(gas@);
        }
        if let Some(ref t) = self.to {
            append_item(s, &t.0, Ghost(before), Ghost(items));
        } else {
            let none: Vec<u8> = Vec::new();
            append_item(s, none.as_slice(), Ghost(before), Ghost(items));
        }
        proof {
            items = items.push(recipient_item(self@.to));
        }
        let value = self.value.to_minimal_bytes();
        append_item(s, value.as_slice(), Ghost(before), Ghost(items));
        proof {
            items = items.push(value@);
        }
        append_item(s, self.data.as_slice(), Ghost(before), Ghost(items));
        proof {
            items = items.push(self.data@);
            assert(items =~= transaction_items(self@));
        }
    }

    /// The bytes that are hashed for the chain `chain_id`: the list of the six
    /// items of the transaction, the chain id as a number, and the number zero
    /// twice.
    pub fn encode_unsigned(&self, chain_id: u8) -> (out: Vec<u8>)
        requires
            self.data@.len() <= MAX_DATA_LEN,
        ensures
            out@ == unsigned_encoding(self@, chain_id),
    {
        let mut s = stream_new();
        stream_begin_unbounded_list(&mut s);
        let ghost before = stream_bytes(s);
        self.encode(&mut s);
        let ghost mut items = transaction_items(self@);

        let chain = u64_to_minimal_bytes(chain_id as u64);
        append_item(&mut s, chain.as_slice(), Ghost(before), Ghost(items));
        proof {
            items = items.push(chain@);
        }
        let zero = U256::zero().to_minimal_bytes();
        append_item(&mut s, zero.as_slice(), Ghost(before), Ghost(items));
        proof {
            items = items.push(zero@);
        }
        append_item(&mut s, zero.as_slice(), Ghost(before), Ghost(items));
        proof {
            items = items.push(zero@);
            assert(items =~= unsigned_items(self@, chain_id));
            assert(stream_bytes(s).subrange(1, stream_bytes(s).len() as int) =~= rlp_strings(
                items,
            ));
        }
        stream_finalize_unbounded_list(&mut s);
        stream_out(s)
    }

    /// The digest that is signed for the chain `chain_id`: the Keccak-256 hash
    /// of the bytes that `encode_unsigned` gives.
    pub fn hash(&self, chain_id: u8) -> (digest: Vec<u8>)
        requires
            self.data@.len() <= MAX_DATA_LEN,
        ensures
            digest@ == signing_hash(self@, chain_id),
            digest@.len() == 32,
    {
        let bytes = self.encode_unsigned(chain_id);
        keccak256_hash(bytes.as_slice())
    }

    /// The bytes of the transaction signed with `sig`: the list of the six
    /// items of the transaction and of `v`, `r` and `s`.
    pub fn encode_signed(&self, sig: &EcdsaSig) -> (out: Vec<u8>)
        requires
            self.data@.len() <= MAX_DATA_LEN,
        ensures
            out@ == signed_encoding(self@, sig@),
    {
        let mut s = stream_new();
        stream_begin_unbounded_list(&mut s);
        let ghost before = stream_bytes(s);
        self.encode(&mut s);
        let ghost mut items = transaction_items(self@);

        let v = u64_to_minimal_bytes(sig.v());
        append_item(&mut s, v.as_slice(), Ghost(before), Ghost(items));
        proof {
            items = items.push(v@);
        }
        append_item(&mut s, sig.r(), Ghost(before), Ghost(items));
        proof {
            items = items.push(sig@.r);
        }
        append_item(&mut s, sig.s(), Ghost(before), Ghost(items));
        proof {
            items = items.push(sig@.s);
            assert(items =~= signed_items(self@, sig@));
            assert(stream_bytes(s).subrange(1, stream_bytes(s).len() as int) =~= rlp_strings(
                items,
            ));
        }
        stream_finalize_unbounded_list(&mut s);
        stream_out(s)
    }

    /// Signs the transaction for the chain `chain_id` and returns the bytes of
    /// the signed transaction. Fails, with no bytes, exactly when the private
    /// key is not valid. The signature that is encoded is normalized, made of
    /// 64 bytes and a recovery id of at most 3.
    pub fn sign(&self, private_key: &H256, chain_id: &u8) -> (signed: Result<Vec<u8>, SignError>)
        requires
            self.data@.len() <= MAX_DATA_LEN,
        ensures
            match signed {
                Ok(bytes) => {
                    &&& valid_secret_key(private_key@)
                    &&& bytes@ == signed_encoding(
                        self@,
                        transaction_signature(self@, private_key@, *chain_id),
                    )
                    &&& transaction_signature(self@, private_key@, *chain_id).normalized()
                    &&& ecdsa_recoverable(signing_hash(self@, *chain_id), private_key@).0 <= 3
                    &&& ecdsa_recoverable(signing_hash(self@, *chain_id), private_key@).1.len()
                        == 64
                },
                Err(e) => e == SignError::InvalidKey && !valid_secret_key(private_key@),
            },
    {
        let hash = self.hash(*chain_id);
        match ecdsa_sign(hash.as_slice(), &private_key.0, chain_id) {
            Ok(sig) => Ok(self.encode_signed(&sig)),
            Err(e) => Err(e),
        }
    }
}

/// A number of 256 bits is an item of at most 32 bytes.
proof fn lemma_number_item_len(n: U256)
    ensures
        minimal_be(n@).len() <= 32,
{
    lemma_strip_zeros_is_minimal_be(n.0@);
    lemma_leading_zeros_bound(n.0@);
}

/// What one more string adds to the length of the encodings of a sequence of
/// strings.
proof fn lemma_rlp_strings_push_len(items: Seq<Seq<u8>>, item: Seq<u8>)
    requires
        item.len() <= MAX_PAYLOAD_LEN,
    ensures
        rlp_strings(items.push(item)).len() <= rlp_strings(items).len() + item.len() + 5,
        item.len() <= 55 ==> rlp_strings(items.push(item)).len() <= rlp_strings(items).len()
            + item.len() + 1,
{
    lemma_rlp_strings_push(items, item);
    lemma_rlp_string_len(item);
}

/// The six items of a transaction are short enough for the encoder, and
/// their encodings take little more than the input data.
pub proof fn lemma_transaction_items_len(raw: RawTransaction)
    requires
        raw.data@.len() <= MAX_PAYLOAD_LEN,
    ensures
        encodable_strings(transaction_items(raw@)),
        rlp_strings(transaction_items(raw@)).len() <= raw.data@.len() + ITEMS_OVERHEAD,
{
    let tx = raw@;
    lemma_number_item_len(raw.nonce);
    lemma_number_item_len(raw.gas_price);
    lemma_number_item_len(raw.gas);
    lemma_number_item_len(raw.value);
    let i0 = Seq::<Seq<u8>>::empty();
    let i1 = i0.push(minimal_be(tx.nonce));
    let i2 = i1.push(minimal_be(tx.gas_price));
    let i3 = i2.push(minimal_be(tx.gas));
    let i4 = i3.push(recipient_item(tx.to));
    let i5 = i4.push(minimal_be(tx.value));
    let i6 = i5.push(tx.data);
    lemma_rlp_strings_push_len(i0, minimal_be(tx.nonce));
    lemma_rlp_strings_push_len(i1, minimal_be(tx.gas_price));
    lemma_rlp_strings_push_len(i2, minimal_be(tx.gas));
    lemma_rlp_strings_push_len(i3, recipient_item(tx.to));
    lemma_rlp_strings_push_len(i4, minimal_be(tx.value));
    lemma_rlp_strings_push_len(i5, tx.data);
    assert(i6 =~= transaction_items(tx));
}

/// The items that are hashed are short enough for the encoder, and so is
/// the list of them.
pub proof fn lemma_unsigned_items_len(raw: RawTransaction, chain_id: u8)
    requires
        raw.data@.len() <= MAX_DATA_LEN,
    ensures
        encodable_strings(unsigned_items(raw@, chain_id)),
        rlp_strings(unsigned_items(raw@, chain_id)).len() <= MAX_PAYLOAD_LEN,
{
    lemma_transaction_items_len(raw);
    let i6 = transaction_items(raw@);
    lemma_minimal_be_u64(chain_id as nat);
    let i7 = i6.push(minimal_be(chain_id as nat));
    let i8 = i7.push(minimal_be(0));
    let i9 = i8.push(minimal_be(0));
    lemma_rlp_strings_push_len(i6, minimal_be(chain_id as nat));
    lemma_rlp_strings_push_len(i7, minimal_be(0));
    lemma_rlp_strings_push_len(i8, minimal_be(0));
    assert(i9 =~= unsigned_items(raw@, chain_id));
}

/// The items of a signed transaction are short enough for the encoder, and
/// so is the list of them.
pub proof fn lemma_signed_items_len(raw: RawTransaction, sig: Signature)
    requires
        raw.data@.len() <= MAX_DATA_LEN,
        sig.normalized(),
    ensures
        encodable_strings(signed_items(raw@, sig)),
        rlp_strings(signed_items(raw@, sig)).len() <= MAX_PAYLOAD_LEN,
{
    lemma_transaction_items_len(raw);
    lemma_minimal_be_u64(sig.v);
    let i6 = transaction_items(raw@);
    let i7 = i6.push(minimal_be(sig.v));
    let i8 = i7.push(sig.r);
    let i9 = i8.push(sig.s);
    lemma_rlp_strings_push_len(i6, minimal_be(sig.v));
    lemma_rlp_strings_push_len(i7, sig.r);
    lemma_rlp_strings_push_len(i8, sig.s);
    assert(i9 =~= signed_items(raw@, sig));
}

/// Two transactions with the same six items are the same transaction.
proof fn lemma_transaction_items_injective(a: RawTransaction, b: RawTransaction)
    requires
        transaction_items(a@) == transaction_items(b@),
    ensures
        a@ == b@,
{
    lemma_minimal_be(a@.nonce);
    lemma_minimal_be(b@.nonce);
    lemma_minimal_be(a@.gas_price);
    lemma_minimal_be(b@.gas_price);
    lemma_minimal_be(a@.gas);
    lemma_minimal_be(b@.gas);
    lemma_minimal_be(a@.value);
    lemma_minimal_be(b@.value);
    assert(a@.to == b@.to) by {
        if let Some(address) = a.to {
            assert(address@.len() == 20);
        }
        if let Some(address) = b.to {
            assert(address@.len() == 20);
        }
    }
}

/// The bytes that are hashed depend on nothing but the fields of the
/// transaction and the chain id: transactions with the same fields have, for
/// one chain, the same bytes and the same digest to sign.
pub proof fn lemma_unsigned_encoding_deterministic(
    a: RawTransaction,
    b: RawTransaction,
    chain_id: u8,
)
    requires
        a@ == b@,
    ensures
        unsigned_encoding(a@, chain_id) == unsigned_encoding(b@, chain_id),
        signing_hash(a@, chain_id) == signing_hash(b@, chain_id),
{
}

/// The bytes that are hashed give the transaction and the chain id back: no
/// two transactions, and no two chains, share them.
pub proof fn lemma_unsigned_encoding_injective(
    a: RawTransaction,
    chain_a: u8,
    b: RawTransaction,
    chain_b: u8,
)
    requires
        a.data@.len() <= MAX_DATA_LEN,
        b.data@.len() <= MAX_DATA_LEN,
        unsigned_encoding(a@, chain_a) == unsigned_encoding(b@, chain_b),
    ensures
        a@ == b@,
        chain_a == chain_b,
{
    let items_a = unsigned_items(a@, chain_a);
    let items_b = unsigned_items(b@, chain_b);
    lemma_unsigned_items_len(a, chain_a);
    lemma_unsigned_items_len(b, chain_b);
    lemma_rlp_list_of_strings_injective(items_a, items_b);
    assert(transaction_items(a@) =~= items_a.subrange(0, 6));
    assert(transaction_items(b@) =~= items_b.subrange(0, 6));
    lemma_transaction_items_injective(a, b);
    assert(items_a[6] == minimal_be(chain_a as nat));
    assert(items_b[6] == minimal_be(chain_b as nat));
    lemma_minimal_be(chain_a as nat);
    lemma_minimal_be(chain_b as nat);
}

/// The bytes of a signed transaction give the transaction and the signature
/// back: no two signed transactions share them.
pub proof fn lemma_signed_encoding_injective(
    a: RawTransaction,
    sig_a: Signature,
    b: RawTransaction,
    sig_b: Signature,
)
    requires
        a.data@.len() <= MAX_DATA_LEN,
        b.data@.len() <= MAX_DATA_LEN,
        sig_a.normalized(),
        sig_b.normalized(),
        signed_encoding(a@, sig_a) == signed_encoding(b@, sig_b),
    ensures
        a@ == b@,
        sig_a == sig_b,
{
    let items_a = signed_items(a@, sig_a);
    let items_b = signed_items(b@, sig_b);
    lemma_signed_items_len(a, sig_a);
    lemma_signed_items_len(b, sig_b);
    lemma_rlp_list_of_strings_injective(items_a, items_b);
    assert(transaction_items(a@) =~= items_a.subrange(0, 6));
    assert(transaction_items(b@) =~= items_b.subrange(0, 6));
    lemma_transaction_items_injective(a, b);
    assert(items_a[6] == minimal_be(sig_a.v));
    assert(items_b[6] == minimal_be(sig_b.v));
    assert(items_a[7] == sig_a.r);
    assert(items_b[7] == sig_b.r);
    assert(items_a[8] == sig_a.s);
    assert(items_b[8] == sig_b.s);
    lemma_minimal_be(sig_a.v);
    lemma_minimal_be(sig_b.v);
}

/// A signature binds a transaction to its chain. Whatever the signer gives
/// for two different chains, the bytes that are hashed differ, and where the
/// two values of `v` differ, so do the bytes of the signed transaction. With
/// recovery ids 0 and 1 the values of `v` always differ.
pub proof fn lemma_chain_id_binding(
    raw: RawTransaction,
    id_a: u8,
    compact_a: Seq<u8>,
    chain_a: u8,
    id_b: u8,
    compact_b: Seq<u8>,
    chain_b: u8,
)
    requires
        raw.data@.len() <= MAX_DATA_LEN,
        compact_a.len() == 64,
        compact_b.len() == 64,
        chain_a != chain_b,
    ensures
        unsigned_encoding(raw@, chain_a) != unsigned_encoding(raw@, chain_b),
        chain_signature(id_a, compact_a, chain_a).v != chain_signature(id_b, compact_b, chain_b).v
            ==> signed_encoding(raw@, chain_signature(id_a, compact_a, chain_a))
            != signed_encoding(raw@, chain_signature(id_b, compact_b, chain_b)),
        id_a <= 1 && id_b <= 1 ==> {
            &&& chain_signature(id_a, compact_a, chain_a).v != chain_signature(
                id_b,
                compact_b,
                chain_b,
            ).v
            &&& signed_encoding(raw@, chain_signature(id_a, compact_a, chain_a))
                != signed_encoding(raw@, chain_signature(id_b, compact_b, chain_b))
        },
{
    let sig_a = chain_signature(id_a, compact_a, chain_a);
    let sig_b = chain_signature(id_b, compact_b, chain_b);
    lemma_v_binds_chain(id_a, chain_a, id_b, chain_b);
    lemma_chain_signature_normalized(id_a, compact_a, chain_a);
    lemma_chain_signature_normalized(id_b, compact_b, chain_b);
    if signed_encoding(raw@, sig_a) == signed_encoding(raw@, sig_b) {
        lemma_signed_encoding_injective(raw, sig_a, raw, sig_b);
    }
    if unsigned_encoding(raw@, chain_a) == unsigned_encoding(raw@, chain_b) {
        lemma_unsigned_encoding_injective(raw, chain_a, raw, chain_b);
    }
}

/// Signing binds a transaction to its chain. Signed with one key for two
/// different chains, a transaction has two different digests to sign from
/// different bytes, and two different byte sequences as long as the two
/// values of `v` differ, which they do where both recovery ids are 0 or 1.
/// The signatures are those that `sign` encodes.
pub proof fn lemma_sign_binds_chain(raw: RawTransaction, key: Seq<u8>, chain_a: u8, chain_b: u8)
    requires
        raw.data@.len() <= MAX_DATA_LEN,
        chain_a != chain_b,
    ensures
        unsigned_encoding(raw@, chain_a) != unsigned_encoding(raw@, chain_b),
        ({
            let made_a = ecdsa_recoverable(signing_hash(raw@, chain_a), key);
            let made_b = ecdsa_recoverable(signing_hash(raw@, chain_b), key);
            let sig_a = transaction_signature(raw@, key, chain_a);
            let sig_b = transaction_signature(raw@, key, chain_b);
            made_a.1.len() == 64 && made_b.1.len() == 64 ==> {
                &&& sig_a.v != sig_b.v ==> signed_encoding(raw@, sig_a) != signed_encoding(
                    raw@,
                    sig_b,
                )
                &&& made_a.0 <= 1 && made_b.0 <= 1 ==> sig_a.v != sig_b.v && signed_encoding(
                    raw@,
                    sig_a,
                ) != signed_encoding(raw@, sig_b)
            }
        }),
{
    let made_a = ecdsa_recoverable(signing_hash(raw@, chain_a), key);
    let made_b = ecdsa_recoverable(signing_hash(raw@, chain_b), key);
    if unsigned_encoding(raw@, chain_a) == unsigned_encoding(raw@, chain_b) {
        lemma_unsigned_encoding_injective(raw, chain_a, raw, chain_b);
    }
    if made_a.1.len() == 64 && made_b.1.len() == 64 {
        lemma_chain_id_binding(raw, made_a.0, made_a.1, chain_a, made_b.0, made_b.1, chain_b);
    }
}

/// A transaction that creates a contract has the empty string as its
/// recipient, which is encoded as the single byte `0x80`: not as an address
/// of zero bytes.
pub proof fn lemma_contract_creation_item(tx: Transaction)
    requires
        tx.to is None,
    ensures
        transaction_items(tx)[3] == Seq::<u8>::empty(),
        rlp_string(transaction_items(tx)[3]) == seq![0x80u8],
{
}

} // verus!
