//! The `rlp` crate's stream encoder, as far as the transaction encoder uses
//! it. Nothing in this module is proved: each contract states what the
//! crate's source shows of one method of `rlp::RlpStream`.

use vstd::prelude::*;
use rlp::RlpStream;
use crate::rlp_encoding::{rlp_list, rlp_string, MAX_PAYLOAD_LEN};

verus! {

/// `rlp::RlpStream`: the verifier sees nothing inside it.
#[verifier::external_type_specification]
#[verifier::external_body]
pub struct ExRlpStream(RlpStream);

/// The bytes that a stream's buffer holds.
pub uninterp spec fn stream_bytes(s: RlpStream) -> Seq<u8>;

/// The lists of a stream that are still open, outermost first. Each entry
/// gives the index in the buffer at which the list's payload begins, and
/// whether the list was begun without a length.
pub uninterp spec fn stream_lists(s: RlpStream) -> Seq<(int, bool)>;

/// A stream may take a string while the innermost open list, if there is one,
/// was begun without a length: such a list is not closed by the items that it
/// takes.
pub open spec fn stream_accepts(s: RlpStream) -> bool {
    stream_lists(s).len() > 0 ==> stream_lists(s).last().1
}

/// The list around the innermost open list, if there is one, was begun without
/// a length: it is not closed by the list that is closed inside it.
pub open spec fn stream_accepts_after_close(s: RlpStream) -> bool {
    stream_lists(s).len() > 1 ==> stream_lists(s)[stream_lists(s).len() - 2].1
}

/// `RlpStream::new`: a stream with an empty buffer and no open list.
#[verifier::external_body]
pub(crate) fn stream_new() -> (s: RlpStream)
    ensures
        stream_bytes(s) == Seq::<u8>::empty(),
        stream_lists(s) == Seq::<(int, bool)>::empty(),
{
    RlpStream::new()
}

/// `RlpStream::begin_unbounded_list`: writes one byte, which the header of the
/// list will take when the list is closed, and opens a list without a length
/// whose payload begins after that byte.
#[verifier::external_body]
pub(crate) fn stream_begin_unbounded_list(s: &mut RlpStream)
    ensures
        stream_bytes(*final(s)) == stream_bytes(*old(s)).push(0u8),
        stream_lists(*final(s)) == stream_lists(*old(s)).push(
            (stream_bytes(*old(s)).len() as int + 1, true),
        ),
{
    s.begin_unbounded_list();
}

/// `RlpStream::append` with a byte string: writes the encoding of the string
/// at the end of the buffer and leaves the open lists as they are. Two inputs
/// are left out: a string of more than `MAX_PAYLOAD_LEN` bytes, whose length
/// the method cuts to 32 bits, and a stream whose innermost open list was
/// begun with a length, which the method closes when it is full and beyond
/// which it panics.
#[verifier::external_body]
pub(crate) fn stream_append(s: &mut RlpStream, bytes: &[u8])
    requires
        bytes@.len() <= MAX_PAYLOAD_LEN,
        stream_accepts(*old(s)),
    ensures
        stream_bytes(*final(s)) == stream_bytes(*old(s)) + rlp_string(bytes@),
        stream_lists(*final(s)) == stream_lists(*old(s)),
{
    s.append(&bytes);
}

/// `RlpStream::finalize_unbounded_list`: closes the innermost open list. The
/// byte that was kept before the payload begins the header of the list, and
/// the payload follows the header. Left out are a stream with no open list or
/// whose innermost open list was begun with a length, where the method
/// panics; a payload of more than `MAX_PAYLOAD_LEN` bytes, whose length the
/// method cuts to 32 bits; and a list around the closed one that was begun
/// with a length, which the closed list may fill. That the payload begins
/// behind the kept byte and inside the buffer holds of every stream; a caller
/// has it from the contracts of the methods that brought the stream there.
#[verifier::external_body]
pub(crate) fn stream_finalize_unbounded_list(s: &mut RlpStream)
    requires
        stream_lists(*old(s)).len() > 0,
        stream_lists(*old(s)).last().1,
        stream_accepts_after_close(*old(s)),
        1 <= stream_lists(*old(s)).last().0 <= stream_bytes(*old(s)).len(),
        stream_bytes(*old(s)).len() - stream_lists(*old(s)).last().0 <= MAX_PAYLOAD_LEN,
    ensures
        stream_bytes(*final(s)) == stream_bytes(*old(s)).subrange(
            0,
            stream_lists(*old(s)).last().0 - 1,
        ) + rlp_list(
            stream_bytes(*old(s)).subrange(
                stream_lists(*old(s)).last().0,
                stream_bytes(*old(s)).len() as int,
            ),
        ),
        stream_lists(*final(s)) == stream_lists(*old(s)).drop_last(),
{
    s.finalize_unbounded_list();
}

/// `RlpStream::out`: the buffer of a stream with no open list. The method
/// panics while a list is open.
#[verifier::external_body]
pub(crate) fn stream_out(s: RlpStream) -> (out: Vec<u8>)
    requires
        stream_lists(s).len() == 0,
    ensures
        out@ == stream_bytes(s),
{
    s.out().to_vec()
}

} // verus!
