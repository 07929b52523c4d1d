//! What this crate relies on from `fixedbitset::FixedBitSet`.
//!
//! None of the contracts in this file is proved: each restates, over the
//! sequence of bits that a set holds, what the `fixedbitset` crate documents
//! and implements for one of its methods.

use fixedbitset::FixedBitSet;
use vstd::prelude::*;

verus! {

#[verifier::external_type_specification]
#[verifier::external_body]
pub struct ExFixedBitSet(FixedBitSet);

/// The bits that a `FixedBitSet` holds, in index order; its length is the
/// set's length in bits.
pub uninterp spec fn bits(set: FixedBitSet) -> Seq<bool>;

/// Whether `blocks` stores `cells` the way `fixedbitset` lays bits out: 32 to
/// a block, bit `i` at position `i % 32` of block `i / 32`.
pub open spec fn packs(blocks: Seq<u32>, cells: Seq<bool>) -> bool {
    &&& blocks.len() == (cells.len() + 31) / 32
    &&& forall|i: int|
        0 <= i < cells.len() ==> #[trigger] cells[i] == (blocks[i / 32] & (1u32 << ((i % 32) as u32))
            != 0)
}

/// `FixedBitSet::with_capacity`: a set of `capacity` bits, all of them clear.
pub assume_specification[ FixedBitSet::with_capacity ](capacity: usize) -> (set: FixedBitSet)
    ensures
        bits(set) == Seq::new(capacity as nat, |i: int| false),
;

/// `FixedBitSet::len`: the length in bits, set and unset bits alike.
pub assume_specification[ FixedBitSet::len ](set: &FixedBitSet) -> (len: usize)
    ensures
        len == bits(*set).len(),
;

/// `FixedBitSet::contains`: whether the bit at `bit` is enabled. Nothing is
/// claimed here for a `bit` at or beyond the set's length.
pub assume_specification[ FixedBitSet::contains ](set: &FixedBitSet, bit: usize) -> (enabled: bool)
    ensures
        bit < bits(*set).len() ==> enabled == bits(*set)[bit as int],
;

/// `FixedBitSet::set`: writes `enabled` at `bit` and leaves every other bit
/// and the length as they were. It panics when `bit` is out of bounds, which
/// the precondition excludes.
pub assume_specification[ FixedBitSet::set ](set: &mut FixedBitSet, bit: usize, enabled: bool)
    requires
        bit < bits(*old(set)).len(),
    ensures
        bits(*final(set)) == bits(*old(set)).update(bit as int, enabled),
;

/// `FixedBitSet::toggle`: inverts the bit at `bit` and leaves every other bit
/// and the length as they were. It panics when `bit` is out of bounds, which
/// the precondition excludes.
pub assume_specification[ FixedBitSet::toggle ](set: &mut FixedBitSet, bit: usize)
    requires
        bit < bits(*old(set)).len(),
    ensures
        bits(*final(set)) == bits(*old(set)).update(bit as int, !bits(*old(set))[bit as int]),
;

/// `FixedBitSet::as_slice`: the `u32` blocks behind the set, which hold its
/// bits 32 to a block, lowest position first.
pub assume_specification<'a>[ FixedBitSet::as_slice ](set: &'a FixedBitSet) -> (blocks: &'a [u32])
    ensures
        packs(blocks@, bits(*set)),
;

} // verus!
