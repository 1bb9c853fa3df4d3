//! One-to-one tables of integers: `bimap::BiHashMap`.

use vstd::prelude::*;

use bimap::BiHashMap;

verus! {

/// A table in which each left value has one right value, and each right value one left value.
#[verifier::external_type_specification]
#[verifier::external_body]
#[verifier::reject_recursive_types(L)]
#[verifier::reject_recursive_types(R)]
#[verifier::reject_recursive_types(LS)]
#[verifier::reject_recursive_types(RS)]
pub struct ExBiHashMap<L, R, LS, RS>(BiHashMap<L, R, LS, RS>);

/// The right value of each left value in the table.
pub uninterp spec fn pairs(table: BiHashMap<u64, u64>) -> Map<u64, u64>;

/// A table after the pair has been put in: what else paired either of its two values is gone.
pub open spec fn with_pair(table: Map<u64, u64>, left: u64, right: u64) -> Map<u64, u64> {
    Map::new(
        |l: u64| l == left || (table.contains_key(l) && table[l] != right),
        |l: u64|
            if l == left {
                right
            } else {
                table[l]
            },
    )
}

/// `BiHashMap::new`: an empty table.
#[verifier::external_body]
pub(crate) fn new_table() -> (table: BiHashMap<u64, u64>)
    ensures
        pairs(table).dom() == Set::<u64>::empty(),
{
    BiHashMap::new()
}

/// `BiHashMap::contains_left`: whether the left value is paired.
#[verifier::external_body]
pub(crate) fn contains_left(table: &BiHashMap<u64, u64>, left: u64) -> (found: bool)
    ensures
        found == pairs(*table).contains_key(left),
{
    table.contains_left(&left)
}

/// `BiHashMap::insert`: pairs the two values, and unpairs them from any others.
#[verifier::external_body]
pub(crate) fn insert(table: &mut BiHashMap<u64, u64>, left: u64, right: u64)
    ensures
        pairs(*final(table)) == with_pair(pairs(*old(table)), left, right),
{
    table.insert(left, right);
}

/// `BiHashMap::remove_by_left`: unpairs the left value, where it is paired.
#[verifier::external_body]
pub(crate) fn remove_by_left(table: &mut BiHashMap<u64, u64>, left: u64)
    ensures
        pairs(*final(table)) == pairs(*old(table)).remove(left),
{
    table.remove_by_left(&left);
}

} // verus!
