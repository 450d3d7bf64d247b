//! The fixed-capacity payload buffer and the payload conversions.

use vstd::prelude::*;

verus! {

/// Capacity of a payload buffer, in bytes.
pub const PACKET_LEN: usize = 32;

/// heapless's fixed-capacity vector, declared so that it can stand in
/// signatures; its contents are reached only through `raw_bytes`.
#[verifier::external_type_specification]
#[verifier::external_body]
#[verifier::reject_recursive_types(T)]
pub struct ExHeaplessVec<T, const N: usize>(heapless::Vec<T, N>);

/// A payload in its wire form: at most `PACKET_LEN` bytes, stored inline.
pub type Raw = heapless::Vec<u8, 32>;

/// The bytes that a payload buffer holds, in order.
pub uninterp spec fn raw_bytes(v: heapless::Vec<u8, 32>) -> Seq<u8>;

/// Relies on heapless::Vec::as_slice: the slice holds the stored bytes, of
/// which there are never more than the capacity.
#[verifier::external_body]
pub(crate) fn raw_as_slice(v: &Raw) -> (r: &[u8])
    ensures
        r@ == raw_bytes(*v),
        r@.len() <= PACKET_LEN,
{
    v.as_slice()
}

/// Relies on heapless::Vec::from_slice: it copies the slice when it fits in the
/// capacity, and fails otherwise.
#[verifier::external_body]
pub(crate) fn raw_from_slice(s: &[u8]) -> (r: Result<Raw, ()>)
    ensures
        s@.len() <= PACKET_LEN <==> r is Ok,
        r matches Ok(v) ==> raw_bytes(v) == s@,
{
    heapless::Vec::from_slice(s)
}

/// Relies on heapless::Vec::clone: the copy holds the same bytes.
#[verifier::external_body]
pub(crate) fn raw_clone(v: &Raw) -> (r: Raw)
    ensures
        raw_bytes(r) == raw_bytes(*v),
{
    v.clone()
}

} // verus!

verus! {

/// A payload that can be rendered into a raw buffer.
pub trait Encode {
    /// The bytes that this payload renders to.
    spec fn render(&self) -> Seq<u8>;

    fn data(&self) -> (r: Raw)
        ensures
            raw_bytes(r) == self.render(),
            raw_bytes(r).len() <= PACKET_LEN,
    ;
}

/// A payload that can be read back from a raw buffer.
pub trait Decode: Sized {
    type Error;

    /// Whether the bytes `raw` stand for some value of this type.
    spec fn decodable(raw: Seq<u8>) -> bool;

    /// Whether `v` is a value that the bytes `raw` stand for.
    spec fn decodes(raw: Seq<u8>, v: Self) -> bool;

    fn decode(raw: Raw) -> (r: Result<Self, Self::Error>)
        ensures
            r is Ok <==> Self::decodable(raw_bytes(raw)),
            r matches Ok(v) ==> Self::decodes(raw_bytes(raw), v),
    ;
}

impl Encode for Raw {
    open spec fn render(&self) -> Seq<u8> {
        raw_bytes(*self)
    }

    fn data(&self) -> (r: Raw) {
        let r = raw_clone(self);
        let _ = raw_as_slice(&r);
        r
    }
}

impl Decode for Raw {
    type Error = core::convert::Infallible;

    /// A raw buffer read as itself always succeeds.
    open spec fn decodable(raw: Seq<u8>) -> bool {
        true
    }

    /// A raw buffer read as itself holds the same bytes.
    open spec fn decodes(raw: Seq<u8>, v: Raw) -> bool {
        raw_bytes(v) == raw
    }

    fn decode(raw: Raw) -> (r: Result<Self, Self::Error>) {
        Ok(raw)
    }
}

/// Reading a raw payload back from what it renders to succeeds and gives a
/// buffer with the same bytes.
pub proof fn lemma_raw_round_trip(v: Raw)
    ensures
        <Raw as Decode>::decodable(v.render()),
        forall|w: Raw| #[trigger] <Raw as Decode>::decodes(v.render(), w) <==> raw_bytes(w) == raw_bytes(v),
{
}

} // verus!
