//! Fingerprints of selections of several cells: a 64-bit hash over the cells'
//! version stamps, in order.

use crate::versioned_cell::versions;
use crate::versioned_cell::VersionedCell;
use seahash::SeaHasher;
use vstd::prelude::*;

verus! {

#[verifier::external_type_specification]
#[verifier::external_body]
pub struct ExSeaHasher(SeaHasher);

/// The 64-bit words that a hasher has been fed since it was made, in order.
pub uninterp spec fn absorbed(hasher: SeaHasher) -> Seq<u64>;

/// Whether a hasher was made with the fixed seeds of `SeaHasher::new`.
pub uninterp spec fn default_seeded(hasher: SeaHasher) -> bool;

/// The digest that a hasher made by `SeaHasher::new` reports after it was fed
/// `words`, one `write_u64` each.
pub uninterp spec fn sea_hash(words: Seq<u64>) -> u64;

/// The most words that one hasher is fed here: the hasher counts the bytes
/// it was fed in a `u64`, eight for each word.
pub const MAX_HASHED: u64 = 0x1fff_ffff_ffff_fffe;

/// Calls `seahash::SeaHasher::new`, which makes a hasher with the crate's
/// fixed default seeds that has been fed nothing.
#[verifier::external_body]
fn new_hasher() -> (hasher: SeaHasher)
    ensures
        absorbed(hasher) == Seq::<u64>::empty(),
        default_seeded(hasher),
{
    SeaHasher::new()
}

/// Calls `std::hash::Hasher::write_u64` on a `SeaHasher`, which feeds it the
/// eight little-endian bytes of `word` and adds eight to its byte count. The
/// seeds it was made with stay part of its state.
#[verifier::external_body]
fn write_word(hasher: &mut SeaHasher, word: u64)
    requires
        absorbed(*old(hasher)).len() < MAX_HASHED,
    ensures
        absorbed(*final(hasher)) == absorbed(*old(hasher)).push(word),
        default_seeded(*final(hasher)) == default_seeded(*old(hasher)),
{
    std::hash::Hasher::write_u64(hasher, word)
}

/// Calls `std::hash::Hasher::finish` on a `SeaHasher`, which computes the
/// digest from the hasher's state and leaves the hasher as it is. The state
/// is determined by the seeds and the words fed.
#[verifier::external_body]
fn finish(hasher: &SeaHasher) -> (digest: u64)
    requires
        default_seeded(*hasher),
        absorbed(*hasher).len() <= MAX_HASHED,
    ensures
        digest == sea_hash(absorbed(*hasher)),
{
    std::hash::Hasher::finish(hasher)
}

/// The version stamps of the cells that `cells` refers to, in order.
pub open spec fn versions_of<T>(cells: Seq<&VersionedCell<T>>) -> Seq<u64> {
    cells.map_values(|cell: &VersionedCell<T>| cell.stamp())
}

/// The hash of `versions`, in order.
pub fn hash_versions(versions: &[u64]) -> (digest: u64)
    requires
        versions@.len() <= MAX_HASHED,
    ensures
        digest == sea_hash(versions@),
{
    let mut hasher = new_hasher();
    let mut i: usize = 0;
    while i < versions.len()
        invariant
            i <= versions@.len() <= MAX_HASHED,
            absorbed(hasher) == versions@.take(i as int),
            default_seeded(hasher),
        decreases versions@.len() - i,
    {
        write_word(&mut hasher, versions[i]);
        assert(versions@.take(i as int).push(versions@[i as int]) =~= versions@.take(i + 1));
        i = i + 1;
    }
    assert(versions@.take(versions@.len() as int) =~= versions@);
    finish(&hasher)
}

/// The fingerprint of a slice of cells: the hash of their version stamps, in
/// order.
pub fn fingerprint<T>(cells: &[VersionedCell<T>]) -> (digest: u64)
    requires
        cells@.len() <= MAX_HASHED,
    ensures
        digest == sea_hash(versions(cells@)),
{
    let mut hasher = new_hasher();
    let mut i: usize = 0;
    while i < cells.len()
        invariant
            i <= cells@.len() <= MAX_HASHED,
            absorbed(hasher) == versions(cells@).take(i as int),
            default_seeded(hasher),
        decreases cells@.len() - i,
    {
        write_word(&mut hasher, cells[i].version());
        assert(versions(cells@).take(i as int).push(cells@[i as int].stamp()) =~= versions(
            cells@,
        ).take(i + 1));
        i = i + 1;
    }
    assert(versions(cells@).take(cells@.len() as int) =~= versions(cells@));
    finish(&hasher)
}

/// The fingerprint of a collection of cells: the hash of their version
/// stamps, in order.
pub fn fingerprint_of<T>(cells: &Vec<&VersionedCell<T>>) -> (digest: u64)
    requires
        cells@.len() <= MAX_HASHED,
    ensures
        digest == sea_hash(versions_of(cells@)),
{
    let mut hasher = new_hasher();
    let mut i: usize = 0;
    while i < cells.len()
        invariant
            i <= cells@.len() <= MAX_HASHED,
            absorbed(hasher) == versions_of(cells@).take(i as int),
            default_seeded(hasher),
        decreases cells@.len() - i,
    {
        write_word(&mut hasher, cells[i].version());
        assert(versions_of(cells@).take(i as int).push(cells@[i as int].stamp()) =~= versions_of(
            cells@,
        ).take(i + 1));
        i = i + 1;
    }
    assert(versions_of(cells@).take(cells@.len() as int) =~= versions_of(cells@));
    finish(&hasher)
}

} // verus!
