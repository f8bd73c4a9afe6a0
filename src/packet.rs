use vstd::prelude::*;

use bytes::Bytes;

use crate::wrapping_id::MessageId;

verus! {

/// Payloads of at least this many bytes are sent as fragments of this size.
pub const FRAGMENT_SIZE: usize = 500;

/// One complete application payload in flight.
#[derive(Clone, Debug, PartialEq, Eq)]
pub struct SingleData {
    /// Present for the modes that track an id (sequenced and reliable); for the
    /// tick-buffered mode it carries the tick at which the payload was enqueued.
    pub id: Option<MessageId>,
    pub bytes: Bytes,
}

/// One shard of an oversized payload.
#[derive(Clone, Debug, PartialEq, Eq)]
pub struct FragmentData {
    pub message_id: MessageId,
    pub fragment_id: u8,
    pub num_fragments: u8,
    pub bytes: Bytes,
}

/// A unit on the wire: a whole payload or one shard of one.
#[derive(Clone, Debug, PartialEq, Eq)]
pub enum MessageData {
    Single(SingleData),
    Fragment(FragmentData),
}

/// `bytes::Bytes`, the shared, cheaply sliced buffer that payloads travel in.
#[verifier::external_type_specification]
#[verifier::external_body]
pub struct ExBytes(Bytes);

/// The bytes that a `Bytes` buffer holds.
pub uninterp spec fn bytes_view(b: Bytes) -> Seq<u8>;

/// Relies on `Bytes::from(Vec<u8>)`: the buffer holds the vector's bytes.
#[verifier::external_body]
pub(crate) fn bytes_from_vec(v: Vec<u8>) -> (r: Bytes)
    ensures
        bytes_view(r) == v@,
{
    Bytes::from(v)
}

/// Relies on `Bytes::len`: the number of bytes held.
#[verifier::external_body]
pub(crate) fn bytes_len(b: &Bytes) -> (r: usize)
    ensures
        r == bytes_view(*b).len(),
{
    b.len()
}

/// Relies on `Bytes::slice`: a buffer over `b[start..end]`; it panics unless
/// `start <= end <= b.len()`.
#[verifier::external_body]
pub(crate) fn bytes_slice(b: &Bytes, start: usize, end: usize) -> (r: Bytes)
    requires
        start <= end <= bytes_view(*b).len(),
    ensures
        bytes_view(r) == bytes_view(*b).subrange(start as int, end as int),
{
    b.slice(start..end)
}

/// Relies on `Bytes::clone`: a handle on the same bytes.
pub assume_specification[ <Bytes as Clone>::clone ](b: &Bytes) -> (r: Bytes)
    ensures
        bytes_view(r) == bytes_view(*b),
;

/// Relies on `Vec::<u8>::from(Bytes)`: a vector of the buffer's bytes.
#[verifier::external_body]
pub(crate) fn bytes_into_vec(b: Bytes) -> (r: Vec<u8>)
    ensures
        r@ == bytes_view(b),
{
    Vec::from(b)
}

} // verus!
