//! Moves and the moves matched on a frame.

use vstd::prelude::*;
use crate::models::sequence_step::{SequenceStep, StepModel};

verus! {

/// A move; its sequence is stored last step first.
pub struct Move {
    pub reversed_sequence: Vec<SequenceStep>,
    pub require_neutrals: bool,
    pub require_charge: bool,
    pub charge_frames: u32,
    pub priority: i32,
}

/// The steps of a move, last step first.
pub open spec fn steps(m: Move) -> Seq<StepModel> {
    m.reversed_sequence@.map_values(|s: SequenceStep| s@)
}

/// What a `Move` holds, as plain values; its steps are last step first.
pub struct MoveModel {
    pub steps: Seq<StepModel>,
    pub require_neutrals: bool,
    pub require_charge: bool,
    pub charge_frames: u32,
    pub priority: i32,
}

impl View for Move {
    type V = MoveModel;

    open spec fn view(&self) -> MoveModel {
        MoveModel {
            steps: steps(*self),
            require_neutrals: self.require_neutrals,
            require_charge: self.require_charge,
            charge_frames: self.charge_frames,
            priority: self.priority,
        }
    }
}

/// The views of steps.
pub open spec fn step_views(s: Seq<SequenceStep>) -> Seq<StepModel> {
    s.map_values(|x: SequenceStep| x@)
}

impl Move {
    /// A move whose sequence is `sequence`, stored in reverse order.
    pub fn new(
        sequence: Vec<SequenceStep>,
        require_neutrals: bool,
        require_charge: bool,
        charge_frames: u32,
        priority: i32,
    ) -> (r: Self)
        ensures
            r.reversed_sequence@ == sequence@.reverse(),
            r@.steps == step_views(sequence@).reverse(),
            r.require_neutrals == require_neutrals,
            r.require_charge == require_charge,
            r.charge_frames == charge_frames,
            r.priority == priority,
    {
        let ghost original = sequence@;
        let mut rest = sequence;
        let mut reversed_sequence: Vec<SequenceStep> = Vec::new();
        while rest.len() > 0
            invariant
                rest@.len() + reversed_sequence@.len() == original.len(),
                rest@ == original.subrange(0, rest@.len() as int),
                reversed_sequence@ == original.reverse().subrange(0, reversed_sequence@.len() as int),
            decreases rest@.len(),
        {
            let ghost before = reversed_sequence@;
            let step = rest.pop().unwrap();
            reversed_sequence.push(step);
            assert(reversed_sequence@ =~= original.reverse().subrange(0, reversed_sequence@.len() as int));
        }
        assert(reversed_sequence@ =~= original.reverse());
        assert(step_views(original).reverse() =~= step_views(original.reverse()));
        Move { reversed_sequence, require_neutrals, require_charge, charge_frames, priority }
    }
}

/// A move matched on the current frame.
pub struct MatchedMove {
    pub name: String,
    pub priority: i32,
    pub total_frames: u32,
    pub perfect_input: bool,
}

/// What a `MatchedMove` holds, as plain values.
pub struct MatchedModel {
    pub name: Seq<char>,
    pub priority: i32,
    pub total_frames: u32,
    pub perfect_input: bool,
}

impl View for MatchedMove {
    type V = MatchedModel;

    open spec fn view(&self) -> MatchedModel {
        MatchedModel {
            name: self.name@,
            priority: self.priority,
            total_frames: self.total_frames,
            perfect_input: self.perfect_input,
        }
    }
}

/// The views of matched moves.
pub open spec fn mviews(s: Seq<MatchedMove>) -> Seq<MatchedModel> {
    s.map_values(|m: MatchedMove| m@)
}

/// `t` with `x` placed after every element whose priority is not greater
/// than that of `x`, counting from the end.
pub open spec fn insert_by_priority(t: Seq<MatchedModel>, x: MatchedModel) -> Seq<MatchedModel>
    decreases t.len(),
{
    if t.len() == 0 {
        seq![x]
    } else if t.last().priority <= x.priority {
        t.push(x)
    } else {
        insert_by_priority(t.drop_last(), x).push(t.last())
    }
}

/// The stable sort of `s` by priority, lowest first.
pub open spec fn sort_by_priority(s: Seq<MatchedModel>) -> Seq<MatchedModel>
    decreases s.len(),
{
    if s.len() == 0 {
        Seq::empty()
    } else {
        insert_by_priority(sort_by_priority(s.drop_last()), s.last())
    }
}

/// Priorities never decrease along `s`.
pub open spec fn priority_sorted(s: Seq<MatchedModel>) -> bool {
    forall|i: int, j: int| 0 <= i < j < s.len() ==> #[trigger] s[i].priority <= #[trigger] s[j].priority
}

/// Inserting into a sorted sequence keeps it sorted and adds the element.
pub proof fn lemma_insert_by_priority(t: Seq<MatchedModel>, x: MatchedModel)
    requires
        priority_sorted(t),
    ensures
        priority_sorted(insert_by_priority(t, x)),
        insert_by_priority(t, x).len() == t.len() + 1,
        insert_by_priority(t, x).to_multiset() == t.to_multiset().insert(x),
    decreases t.len(),
{
    broadcast use vstd::seq_lib::group_to_multiset_ensures;
    if t.len() == 0 {
        assert(seq![x] =~= Seq::<MatchedModel>::empty().push(x));
    } else if t.last().priority <= x.priority {
    } else {
        let u = t.drop_last();
        assert(priority_sorted(u));
        lemma_insert_by_priority(u, x);
        let v = insert_by_priority(u, x);
        assert(t =~= u.push(t.last()));
        assert forall|i: int, j: int| 0 <= i < j < v.push(t.last()).len() implies #[trigger] v.push(t.last())[i].priority
            <= #[trigger] v.push(t.last())[j].priority by {
            if j == v.len() {
                // every element of v is either x or an element of u, all at most t.last()
                assert(v.to_multiset().contains(v[i]));
                assert(v[i] == x || u.to_multiset().contains(v[i]));
                if v[i] != x {
                    assert(u.contains(v[i]));
                    let k = choose|k: int| 0 <= k < u.len() && u[k] == v[i];
                    assert(t[k] == u[k]);
                    assert(t[k].priority <= t[t.len() - 1].priority);
                }
            }
        }
    }
}

/// The sort by priority is sorted and a permutation.
pub proof fn lemma_sort_by_priority(s: Seq<MatchedModel>)
    ensures
        priority_sorted(sort_by_priority(s)),
        sort_by_priority(s).to_multiset() == s.to_multiset(),
        sort_by_priority(s).len() == s.len(),
    decreases s.len(),
{
    broadcast use vstd::seq_lib::group_to_multiset_ensures;
    if s.len() > 0 {
        lemma_sort_by_priority(s.drop_last());
        lemma_insert_by_priority(sort_by_priority(s.drop_last()), s.last());
        assert(s =~= s.drop_last().push(s.last()));
    }
}

} // verus!
