//! Memory-mapped files and shared ownership: the `memmap2` crate's
//! read-only mapping, and `Arc` clones. Nothing in this file is proved.

use memmap2::Mmap;
use std::sync::Arc;
use vstd::prelude::*;

verus! {

/// `memmap2::Mmap`, a read-only mapping of a file: nothing is seen of
/// what is in it but through `mapped_bytes`.
#[verifier::external_type_specification]
#[verifier::external_body]
pub struct ExMmap(memmap2::Mmap);

/// The bytes that a mapping holds. A mapping is read-only, and the file
/// behind it only grows: it holds the same bytes for as long as it lives.
pub uninterp spec fn mapped_bytes(map: &Mmap) -> Seq<u8>;

/// Borrows the bytes of a mapping, through `memmap2::Mmap`'s `Deref`.
#[verifier::external_body]
pub(crate) fn mapped_data(map: &Mmap) -> (data: &[u8])
    ensures
        data@ == mapped_bytes(map),
{
    map
}

/// Another handle on a shared value, made with `Arc::clone`: it points at
/// the same value.
#[verifier::external_body]
pub(crate) fn share<T>(shared: &Arc<T>) -> (res: Arc<T>)
    ensures
        res == *shared,
{
    Arc::clone(shared)
}

} // verus!
