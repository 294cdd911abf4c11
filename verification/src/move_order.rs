//! Ordering of the move list: longer sequences first.

use vstd::prelude::*;
use indexmap::IndexMap;
use crate::indexed::move_entries;
use crate::models::move_def::Move;

verus! {

/// Compares two moves so that the one with the longer sequence comes first.
pub fn longer_first(a: &Move, b: &Move) -> (r: core::cmp::Ordering)
    ensures
        (r == core::cmp::Ordering::Less) == (b.reversed_sequence@.len() < a.reversed_sequence@.len()),
        (r == core::cmp::Ordering::Equal) == (b.reversed_sequence@.len() == a.reversed_sequence@.len()),
        (r == core::cmp::Ordering::Greater) == (b.reversed_sequence@.len() > a.reversed_sequence@.len()),
{
    let la = a.reversed_sequence.len();
    let lb = b.reversed_sequence.len();
    if lb < la {
        core::cmp::Ordering::Less
    } else if lb == la {
        core::cmp::Ordering::Equal
    } else {
        core::cmp::Ordering::Greater
    }
}

/// `new` holds the pairs of `old` rearranged by `perm`, longer sequences
/// first, pairs of equal length in their former order.
pub open spec fn stable_longest_first_by(old: Seq<(Seq<char>, Move)>, new: Seq<(Seq<char>, Move)>, perm: Seq<int>) -> bool {
    &&& perm.len() == old.len()
    &&& new.len() == old.len()
    &&& forall|i: int| 0 <= i < new.len() ==> 0 <= #[trigger] perm[i] < old.len() && new[i] == old[perm[i]]
    &&& forall|i: int, j: int| 0 <= i < j < new.len() ==> #[trigger] perm[i] != #[trigger] perm[j]
    &&& forall|i: int, j: int| 0 <= i < j < new.len() ==> move_len(#[trigger] new[i].1) >= move_len(#[trigger] new[j].1)
    &&& forall|i: int, j: int|
        0 <= i < j < new.len() && move_len(#[trigger] new[i].1) == move_len(#[trigger] new[j].1) ==> perm[i] < perm[j]
}

/// `new` is a stable rearrangement of `old`, longer sequences first.
pub open spec fn stable_longest_first(old: Seq<(Seq<char>, Move)>, new: Seq<(Seq<char>, Move)>) -> bool {
    exists|perm: Seq<int>| stable_longest_first_by(old, new, perm)
}

/// The number of steps of a move.
pub open spec fn move_len(m: Move) -> nat {
    m.reversed_sequence@.len()
}

/// `IndexMap::sort_by` with `longer_first`. The crate documents the sort as
/// stable: afterwards the map holds the same pairs, longer sequences first,
/// and pairs of equal length in their former order.
#[verifier::external_body]
pub(crate) fn moves_sort_longest_first(m: &mut IndexMap<String, Move>)
    ensures
        stable_longest_first(move_entries(*old(m)), move_entries(*final(m))),
{
    m.sort_by(|_, a, _, b| longer_first(a, b));
}

} // verus!
