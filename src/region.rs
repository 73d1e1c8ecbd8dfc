//! The memory-mapped byte region that backs the presence store.
use vstd::prelude::*;

verus! {

#[verifier::external_type_specification]
#[verifier::external_body]
pub struct ExMmapMut(memmap2::MmapMut);

/// The bytes that a mapping currently holds.
pub uninterp spec fn mapped_bytes(m: memmap2::MmapMut) -> Seq<u8>;

/// Relies on `<memmap2::MmapMut as Deref>::deref`: the mapping's bytes as a
/// slice.
#[verifier::external_body]
pub(crate) fn map_bytes(m: &memmap2::MmapMut) -> (r: &[u8])
    ensures
        r@ == mapped_bytes(*m),
{
    &m[..]
}

/// Relies on `<memmap2::MmapMut as DerefMut>::deref_mut`: the mapping's
/// bytes as a mutable slice; what is written through it is what the
/// mapping holds afterwards.
#[verifier::external_body]
pub(crate) fn map_bytes_mut(m: &mut memmap2::MmapMut) -> (r: &mut [u8])
    ensures
        r@ == mapped_bytes(*old(m)),
        mapped_bytes(*final(m)) == final(r)@,
{
    &mut m[..]
}

} // verus!
