//! The ordered maps of `indexmap` that hold the actions and the moves, and
//! the calls made on them.

use vstd::prelude::*;
use indexmap::IndexMap;
use crate::keyed::insert_key;
use crate::models::action::Action;
use crate::models::move_def::Move;

verus! {

#[verifier::external_type_specification]
#[verifier::external_body]
#[verifier::reject_recursive_types(K)]
#[verifier::reject_recursive_types(V)]
#[verifier::reject_recursive_types(S)]
pub struct ExIndexMap<K, V, S>(IndexMap<K, V, S>);

/// The pairs held by a map of actions, in the map's order, each name taken
/// as its characters.
pub uninterp spec fn action_entries(m: IndexMap<String, Action>) -> Seq<(Seq<char>, Action)>;

/// The pairs held by a map of moves, in the map's order, each name taken as
/// its characters.
pub uninterp spec fn move_entries(m: IndexMap<String, Move>) -> Seq<(Seq<char>, Move)>;

/// `IndexMap::new`: an empty map.
#[verifier::external_body]
pub(crate) fn actions_new() -> (r: IndexMap<String, Action>)
    ensures
        action_entries(r) == Seq::<(Seq<char>, Action)>::empty(),
{
    IndexMap::new()
}

/// `IndexMap::insert`: as the crate documents it, a name already present
/// keeps its place and gets the new value; a new name is added last.
#[verifier::external_body]
pub(crate) fn actions_insert(m: &mut IndexMap<String, Action>, key: String, value: Action)
    ensures
        action_entries(*final(m)) == insert_key(action_entries(*old(m)), key@, value),
{
    m.insert(key, value);
}

/// `IndexMap::len`: the number of pairs.
#[verifier::external_body]
pub(crate) fn actions_len(m: &IndexMap<String, Action>) -> (r: usize)
    ensures
        r == action_entries(*m).len(),
{
    m.len()
}

/// `IndexMap::get_index`: the pair at position `i`.
#[verifier::external_body]
pub(crate) fn actions_get<'a>(m: &'a IndexMap<String, Action>, i: usize) -> (r: (&'a String, &'a Action))
    requires
        i < action_entries(*m).len(),
    ensures
        r.0@ == action_entries(*m)[i as int].0,
        *r.1 == action_entries(*m)[i as int].1,
{
    m.get_index(i).unwrap()
}

/// `IndexMut<usize>` of `IndexMap`: the value at position `i`, to be changed
/// in place; the name and the other pairs stay as they are.
#[verifier::external_body]
pub(crate) fn actions_value_mut<'a>(m: &'a mut IndexMap<String, Action>, i: usize) -> (r: &'a mut Action)
    requires
        i < action_entries(*old(m)).len(),
    ensures
        *r == action_entries(*old(m))[i as int].1,
        action_entries(*final(m)) == action_entries(*old(m)).update(
            i as int,
            (action_entries(*old(m))[i as int].0, *final(r)),
        ),
{
    &mut m[i]
}

/// `IndexMap::new`: an empty map.
#[verifier::external_body]
pub(crate) fn moves_new() -> (r: IndexMap<String, Move>)
    ensures
        move_entries(r) == Seq::<(Seq<char>, Move)>::empty(),
{
    IndexMap::new()
}

/// `IndexMap::insert`: as the crate documents it, a name already present
/// keeps its place and gets the new value; a new name is added last.
#[verifier::external_body]
pub(crate) fn moves_insert(m: &mut IndexMap<String, Move>, key: String, value: Move)
    ensures
        move_entries(*final(m)) == insert_key(move_entries(*old(m)), key@, value),
{
    m.insert(key, value);
}

/// `IndexMap::len`: the number of pairs.
#[verifier::external_body]
pub(crate) fn moves_len(m: &IndexMap<String, Move>) -> (r: usize)
    ensures
        r == move_entries(*m).len(),
{
    m.len()
}

/// `IndexMap::get_index`: the pair at position `i`.
#[verifier::external_body]
pub(crate) fn moves_get<'a>(m: &'a IndexMap<String, Move>, i: usize) -> (r: (&'a String, &'a Move))
    requires
        i < move_entries(*m).len(),
    ensures
        r.0@ == move_entries(*m)[i as int].0,
        *r.1 == move_entries(*m)[i as int].1,
{
    m.get_index(i).unwrap()
}

} // verus!
