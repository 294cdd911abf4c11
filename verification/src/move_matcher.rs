//! Matches the recent input against the move list.

use vstd::prelude::*;
use indexmap::IndexMap;
use crate::frame_fighter::FrameFighter;
use crate::keyed::{lookup, find_key, lemma_key_index_same_names};
use crate::text::{names, has_substring, str_eq, str_contains, contains_name, copy_string, join_with, join_strings};
use vstd::string::StringExecFns;
use crate::indexed::{move_entries, moves_new, moves_insert, moves_len, moves_get};
use crate::move_order::{moves_sort_longest_first, stable_longest_first, stable_longest_first_by, move_len};
use crate::input_history::{history_after, same_as_newest, held_again, entry_for, keep_first, hold_newest, entry_from_state};
use crate::models::frame_input_state::{FrameInputState, FrameModel};
use crate::models::history_item::{HistoryItem, HistoryModel, hviews};
use crate::models::move_def::{Move, MoveModel, step_views, MatchedMove, MatchedModel, steps, mviews, insert_by_priority, sort_by_priority, priority_sorted, lemma_sort_by_priority};
use crate::models::sequence_step::{SequenceStep, StepModel};

verus! {

/// How an entry of the history satisfies a step.
pub enum StepResult {
    /// The entry does not satisfy the step.
    Invalid,
    /// The entry satisfies the step as written.
    Perfect,
    /// A lenient ender: the entry before this one holds the step's movement
    /// and this one its actions.
    TwoStep,
    /// A lenient ender over three entries: the step's movement, then neutral
    /// or the movement again, then the actions on neutral.
    ThreeStep,
}

/// The step's movement is empty or is the entry's movement.
pub open spec fn strict_match(h: HistoryModel, st: StepModel) -> bool {
    st.movement.len() == 0 || st.movement == h.movement
}

/// The step's movement is empty or occurs inside the entry's movement
/// (so that a cardinal matches the diagonals that contain it).
pub open spec fn charge_match(h: HistoryModel, st: StepModel) -> bool {
    st.movement.len() == 0 || has_substring(h.movement, st.movement)
}

/// The entry's movement is neutral.
pub open spec fn neutral(h: HistoryModel) -> bool {
    h.movement == "neutral"@
}

/// A step without actions needs an entry without actions; otherwise every
/// action of the step is a basic or composite action of the entry.
pub open spec fn actions_match_spec(h: HistoryModel, st: StepModel) -> bool {
    if st.actions.len() == 0 {
        h.basic_actions.len() == 0 && h.composite_actions.len() == 0
    } else {
        forall|k: int|
            0 <= k < st.actions.len() ==> h.basic_actions.contains(#[trigger] st.actions[k])
                || h.composite_actions.contains(st.actions[k])
    }
}

/// How entry `current` of the history, at position `buf_idx`, satisfies the
/// step at position `step_idx` of move `mv`. `buffer` is the full history,
/// from which the entries before `current` are read for a lenient ender.
pub open spec fn step_result(
    mv: Move,
    st: StepModel,
    current: HistoryModel,
    step_idx: int,
    buf_idx: int,
    buffer: Seq<HistoryModel>,
) -> StepResult {
    let is_first = step_idx == steps(mv).len() - 1;
    let is_last = step_idx == 0;
    if mv.require_charge {
        if !charge_match(current, st) || !actions_match_spec(current, st) {
            StepResult::Invalid
        } else if is_first && (match lookup(current.charge, st.movement) {
            Some(c) => c < mv.charge_frames,
            None => 0 < mv.charge_frames,
        }) {
            StepResult::Invalid
        } else {
            StepResult::Perfect
        }
    } else {
        let movement = strict_match(current, st);
        let actions = actions_match_spec(current, st);
        let base = if !movement || !actions {
            StepResult::Invalid
        } else {
            StepResult::Perfect
        };
        if buf_idx + 1 < buffer.len() && is_last && st.modifiers.contains(FrameFighter::LENIENT_ENDER) && actions {
            let prev_a = buffer[buf_idx + 1];
            if strict_match(prev_a, st) && (neutral(current) || movement) {
                StepResult::TwoStep
            } else if buf_idx + 2 < buffer.len() && strict_match(buffer[buf_idx + 2], st) && (neutral(prev_a)
                || strict_match(prev_a, st)) && neutral(current) {
                StepResult::ThreeStep
            } else {
                base
            }
        } else {
            base
        }
    }
}

/// The rest of an attempt to match `mv` against `buf`, from step `step_idx`
/// and entry `buf_idx`, with `matches` steps matched so far. The result is
/// (matched, perfect input, total frames); `None` where an entry past the
/// end of `buf` would be read or a frame count would overflow.
pub open spec fn attempt(
    buffer: Seq<HistoryModel>,
    mv: Move,
    buf: Seq<HistoryModel>,
    step_idx: int,
    buf_idx: int,
    matches: int,
    perfect: bool,
    total: int,
) -> Option<(bool, bool, u32)>
    decreases steps(mv).len() - step_idx,
{
    let seq = steps(mv);
    if step_idx < 0 || step_idx >= seq.len() {
        Some((false, false, 0u32))
    } else if buf_idx < 0 || buf_idx >= buf.len() {
        if matches == seq.len() {
            Some((true, perfect, total as u32))
        } else {
            attempt(buffer, mv, buf, step_idx + 1, buf_idx, matches, perfect, total)
        }
    } else {
        let st = seq[step_idx];
        let current = buf[buf_idx];
        let sf0: int = if step_idx != seq.len() - 1 {
            current.frames as int
        } else {
            0
        };
        let res = step_result(mv, st, current, step_idx, buf_idx, buffer);
        if res is Invalid {
            Some((false, false, 0u32))
        } else if (res is TwoStep && buf_idx + 1 >= buf.len()) || (res is ThreeStep && buf_idx + 2 >= buf.len()) {
            None
        } else {
            let sf: int = if res is TwoStep {
                sf0 + buf[buf_idx + 1].frames
            } else if res is ThreeStep {
                sf0 + buf[buf_idx + 1].frames + buf[buf_idx + 2].frames
            } else {
                sf0
            };
            let nb: int = if res is TwoStep {
                buf_idx + 2
            } else if res is ThreeStep {
                buf_idx + 3
            } else {
                buf_idx + 1
            };
            let np = perfect && res is Perfect;
            let nm = if sf <= st.input_window {
                matches + 1
            } else {
                matches
            };
            if sf > u32::MAX || total + sf > u32::MAX {
                None
            } else if nm == seq.len() {
                Some((true, np, (total + sf) as u32))
            } else {
                attempt(buffer, mv, buf, step_idx + 1, nb, nm, np, total + sf)
            }
        }
    }
}

/// Matching `mv` against the history: the full history when the move
/// requires neutrals, otherwise the history without empty inputs.
pub open spec fn match_result(buffer: Seq<HistoryModel>, stripped: Seq<HistoryModel>, mv: Move) -> Option<(bool, bool, u32)> {
    let buf = if mv.require_neutrals {
        buffer
    } else {
        stripped
    };
    if steps(mv).len() == 0 || buf.len() == 0 || buf.len() < steps(mv).len() {
        Some((false, false, 0u32))
    } else {
        attempt(buffer, mv, buf, 0, 0, 0, true, 0)
    }
}


/// The moves matched, in the order of the move list.
pub open spec fn found_moves(
    entries: Seq<(Seq<char>, Move)>,
    buffer: Seq<HistoryModel>,
    stripped: Seq<HistoryModel>,
) -> Seq<MatchedModel>
    decreases entries.len(),
{
    if entries.len() == 0 {
        Seq::empty()
    } else {
        let prev = found_moves(entries.drop_last(), buffer, stripped);
        let e = entries.last();
        match match_result(buffer, stripped, e.1) {
            Some(r) => if r.0 {
                prev.push(MatchedModel { name: e.0, priority: e.1.priority, total_frames: r.2, perfect_input: r.1 })
            } else {
                prev
            },
            None => prev,
        }
    }
}

/// Matching every move stays inside the history and free of overflow.
pub open spec fn matching_in_bounds(
    entries: Seq<(Seq<char>, Move)>,
    buffer: Seq<HistoryModel>,
    stripped: Seq<HistoryModel>,
) -> bool {
    forall|i: int| 0 <= i < entries.len() ==> #[trigger] match_result(buffer, stripped, entries[i].1) is Some
}

/// An input with a neutral movement and no action.
pub open spec fn empty_input(movement: Seq<char>, basic: Seq<Seq<char>>, composite: Seq<Seq<char>>) -> bool {
    movement == "neutral"@ && basic.len() == 0 && composite.len() == 0
}

/// The history without empty inputs after a frame: when the frame repeats
/// the newest entry, its newest entry is held again; otherwise a frame that
/// is not an empty input becomes its newest entry, and it keeps at most
/// `size` entries.
pub open spec fn stripped_after(
    buffer: Seq<HistoryModel>,
    stripped: Seq<HistoryModel>,
    size: usize,
    max_frames: u32,
    st: FrameModel,
) -> Seq<HistoryModel> {
    if same_as_newest(buffer, st) {
        if stripped.len() > 0 {
            stripped.update(0, held_again(stripped[0], max_frames, st.charge))
        } else {
            stripped
        }
    } else if !empty_input(st.movement, st.basic_actions, st.composite_actions) {
        keep_first(seq![entry_for(st)].add(stripped), size)
    } else {
        keep_first(stripped, size)
    }
}

/// No entry is an empty input.
pub open spec fn no_empty_inputs(s: Seq<HistoryModel>) -> bool {
    forall|i: int| 0 <= i < s.len() ==> !empty_input(#[trigger] s[i].movement, s[i].basic_actions, s[i].composite_actions)
}

/// The models of named moves.
pub open spec fn mmodels(s: Seq<(Seq<char>, Move)>) -> Seq<(Seq<char>, MoveModel)> {
    s.map_values(|e: (Seq<char>, Move)| (e.0, e.1@))
}

/// Inserting a move and taking the models commute.
pub proof fn lemma_mmodels_insert(s: Seq<(Seq<char>, Move)>, k: Seq<char>, v: Move)
    ensures
        mmodels(crate::keyed::insert_key(s, k, v)) == crate::keyed::insert_key(mmodels(s), k, v@),
{
    crate::keyed::lemma_insert_names(s, mmodels(s), k, v, v@);
    crate::keyed::lemma_key_index(s, k);
    assert(mmodels(crate::keyed::insert_key(s, k, v)) =~= crate::keyed::insert_key(mmodels(s), k, v@));
}

/// `new` holds the move models of `old` rearranged by `perm`, longer
/// sequences first, moves of equal length in their former order.
pub open spec fn models_longest_first_by(
    old: Seq<(Seq<char>, MoveModel)>,
    new: Seq<(Seq<char>, MoveModel)>,
    perm: Seq<int>,
) -> bool {
    &&& perm.len() == old.len()
    &&& new.len() == old.len()
    &&& forall|i: int| 0 <= i < new.len() ==> 0 <= #[trigger] perm[i] < old.len() && new[i] == old[perm[i]]
    &&& forall|i: int, j: int| 0 <= i < j < new.len() ==> #[trigger] perm[i] != #[trigger] perm[j]
    &&& forall|i: int, j: int| 0 <= i < j < new.len() ==> (#[trigger] new[i].1).steps.len() >= (#[trigger] new[j].1).steps.len()
    &&& forall|i: int, j: int|
        0 <= i < j < new.len() && (#[trigger] new[i].1).steps.len() == (#[trigger] new[j].1).steps.len() ==> perm[i] < perm[j]
}

/// `new` is a stable rearrangement of the move models `old`, longer sequences first.
pub open spec fn models_longest_first(old: Seq<(Seq<char>, MoveModel)>, new: Seq<(Seq<char>, MoveModel)>) -> bool {
    exists|perm: Seq<int>| models_longest_first_by(old, new, perm)
}

/// A stable ordering of moves, longest first, is one of their models too.
pub proof fn lemma_mmodels_sorted(old: Seq<(Seq<char>, Move)>, new: Seq<(Seq<char>, Move)>)
    requires
        stable_longest_first(old, new),
    ensures
        models_longest_first(mmodels(old), mmodels(new)),
{
    let perm = choose|perm: Seq<int>| #[trigger] stable_longest_first_by(old, new, perm);
    let mo = mmodels(old);
    let mn = mmodels(new);
    assert forall|i: int| 0 <= i < mn.len() implies 0 <= #[trigger] perm[i] < mo.len() && mn[i] == mo[perm[i]] by {
        assert(new[i] == old[perm[i]]);
    }
    assert forall|i: int, j: int| 0 <= i < j < mn.len() implies (#[trigger] mn[i].1).steps.len() >= (#[trigger] mn[j].1).steps.len() by {
        assert(move_len(new[i].1) >= move_len(new[j].1));
    }
    assert forall|i: int, j: int|
        0 <= i < j < mn.len() && (#[trigger] mn[i].1).steps.len() == (#[trigger] mn[j].1).steps.len() implies perm[i] < perm[j] by {
        assert(move_len(new[i].1) == move_len(new[j].1));
    }
    assert(models_longest_first_by(mo, mn, perm));
}

/// Matches the recent input against a list of moves.
pub struct MoveMatcher {
    pub matched_moves: Vec<MatchedMove>,
    pub buffer: Vec<HistoryItem>,
    pub buffer_stripped: Vec<HistoryItem>,
    pub size: usize,
    pub max_frames: u32,
    pub moves: IndexMap<String, Move>,
}

impl MoveMatcher {
    /// No move and an empty history of at most 20 entries, counting up to 999 frames.
    pub fn new() -> (r: Self)
        ensures
            r.matched_moves@.len() == 0,
            r.buffer@.len() == 0,
            r.buffer_stripped@.len() == 0,
            r.size == 20,
            r.max_frames == 999,
            move_entries(r.moves).len() == 0,
    {
        MoveMatcher {
            matched_moves: Vec::new(),
            size: 20,
            max_frames: 999,
            moves: moves_new(),
            buffer: Vec::new(),
            buffer_stripped: Vec::new(),
        }
    }

    /// Adds (or replaces) the move `name` with the given sequence.
    pub fn add_move(
        &mut self,
        name: String,
        sequence: Vec<SequenceStep>,
        require_neutrals: bool,
        require_charge: bool,
        charge_frames: u32,
        priority: i32,
    )
        ensures
            exists|m: Move|
                {
                    &&& move_entries(final(self).moves) == crate::keyed::insert_key(move_entries(old(self).moves), name@, m)
                    &&& m.reversed_sequence@ == sequence@.reverse()
                    &&& m.require_neutrals == require_neutrals
                    &&& m.require_charge == require_charge
                    &&& m.charge_frames == charge_frames
                    &&& m.priority == priority
                },
            mmodels(move_entries(final(self).moves)) == crate::keyed::insert_key(
                mmodels(move_entries(old(self).moves)),
                name@,
                MoveModel {
                    steps: step_views(sequence@).reverse(),
                    require_neutrals,
                    require_charge,
                    charge_frames,
                    priority,
                },
            ),
            final(self).matched_moves == old(self).matched_moves,
            final(self).buffer == old(self).buffer,
            final(self).buffer_stripped == old(self).buffer_stripped,
            final(self).size == old(self).size,
            final(self).max_frames == old(self).max_frames,
    {
        let m = Move::new(sequence, require_neutrals, require_charge, charge_frames, priority);
        proof {
            lemma_mmodels_insert(move_entries(self.moves), name@, m);
        }
        moves_insert(&mut self.moves, name, m);
    }

    /// Orders the moves longest sequence first, keeping the order of moves of
    /// equal length.
    pub fn sort_moves(&mut self)
        ensures
            stable_longest_first(move_entries(old(self).moves), move_entries(final(self).moves)),
            final(self).matched_moves == old(self).matched_moves,
            final(self).buffer == old(self).buffer,
            final(self).buffer_stripped == old(self).buffer_stripped,
            final(self).size == old(self).size,
            final(self).max_frames == old(self).max_frames,
    {
        moves_sort_longest_first(&mut self.moves);
    }

    /// The moves matched on the last frame, lowest priority number first.
    pub fn matched_moves_for_godot(&self) -> (r: &Vec<MatchedMove>)
        ensures
            r@ == self.matched_moves@,
    {
        &self.matched_moves
    }

    /// Sets the number of entries the history keeps.
    pub fn set_size(&mut self, size: usize)
        ensures
            final(self).size == size,
            final(self).max_frames == old(self).max_frames,
            final(self).matched_moves == old(self).matched_moves,
            final(self).buffer == old(self).buffer,
            final(self).buffer_stripped == old(self).buffer_stripped,
            final(self).moves == old(self).moves,
    {
        self.size = size;
    }

    /// Sets the number of frames an entry counts up to.
    pub fn set_max_frames(&mut self, max_frames: u32)
        ensures
            final(self).max_frames == max_frames,
            final(self).size == old(self).size,
            final(self).matched_moves == old(self).matched_moves,
            final(self).buffer == old(self).buffer,
            final(self).buffer_stripped == old(self).buffer_stripped,
            final(self).moves == old(self).moves,
    {
        self.max_frames = max_frames;
    }

    /// Whether recording `state` stays free of overflow: the newest entries
    /// are below the largest frame count when they would be held again.
    pub fn can_add_buffer_entry(&self, state: &FrameInputState) -> (r: bool)
        ensures
            r == (same_as_newest(hviews(self.buffer@), state@) ==> self.buffer@[0].frames < u32::MAX
                && (self.buffer_stripped@.len() > 0 ==> self.buffer_stripped@[0].frames < u32::MAX)),
    {
        if self.buffer.len() > 0 && self.buffer[0].all == state.all {
            self.buffer[0].frames < u32::MAX && (self.buffer_stripped.len() == 0 || self.buffer_stripped[0].frames < u32::MAX)
        } else {
            true
        }
    }

    /// Records the input of a frame in both histories.
    pub fn add_buffer_entry(&mut self, state: &FrameInputState)
        requires
            same_as_newest(hviews(old(self).buffer@), state@) ==> old(self).buffer@[0].frames < u32::MAX
                && (old(self).buffer_stripped@.len() > 0 ==> old(self).buffer_stripped@[0].frames < u32::MAX),
        ensures
            hviews(final(self).buffer@) == history_after(hviews(old(self).buffer@), old(self).size, old(self).max_frames, state@),
            hviews(final(self).buffer_stripped@) == stripped_after(
                hviews(old(self).buffer@),
                hviews(old(self).buffer_stripped@),
                old(self).size,
                old(self).max_frames,
                state@,
            ),
            no_empty_inputs(hviews(old(self).buffer_stripped@)) ==> no_empty_inputs(hviews(final(self).buffer_stripped@)),
            final(self).matched_moves == old(self).matched_moves,
            final(self).size == old(self).size,
            final(self).max_frames == old(self).max_frames,
            final(self).moves == old(self).moves,
    {
        let ghost b0 = hviews(self.buffer@);
        let ghost s0 = hviews(self.buffer_stripped@);
        if self.buffer.len() > 0 && self.buffer[0].all == state.all {
            hold_newest(&mut self.buffer, self.max_frames, state);
            if self.buffer_stripped.len() > 0 {
                hold_newest(&mut self.buffer_stripped, self.max_frames, state);
            }
            proof {
                let s1 = hviews(self.buffer_stripped@);
                assert forall|i: int| 0 <= i < s1.len() implies s1[i].movement == s0[i].movement
                    && s1[i].basic_actions == s0[i].basic_actions && s1[i].composite_actions == s0[i].composite_actions by {
                }
            }
            return;
        }
        self.buffer.insert(0, entry_from_state(state));
        assert(hviews(self.buffer@) =~= seq![entry_for(state@)].add(b0));
        let empty = str_eq(state.movement.as_str(), "neutral") && state.basic_actions.len() == 0
            && state.composite_actions.len() == 0;
        if !empty {
            let newest = self.buffer[0].copy();
            self.buffer_stripped.insert(0, newest);
            assert(hviews(self.buffer_stripped@) =~= seq![entry_for(state@)].add(s0));
        }
        self.buffer.truncate(self.size);
        self.buffer_stripped.truncate(self.size);
        assert(hviews(self.buffer@) =~= keep_first(seq![entry_for(state@)].add(b0), self.size));
        assert(hviews(self.buffer_stripped@) =~= stripped_after(b0, s0, self.size, self.max_frames, state@));
        proof {
            let s1 = hviews(self.buffer_stripped@);
            if no_empty_inputs(s0) {
                assert forall|i: int| 0 <= i < s1.len() implies !empty_input(#[trigger] s1[i].movement, s1[i].basic_actions, s1[i].composite_actions) by {
                    if !empty {
                        if i > 0 {
                            assert(s1[i] == s0[i - 1]);
                        }
                    } else {
                        assert(s1[i] == s0[i]);
                    }
                }
            }
        }
    }
}


/// Whether `v` holds `x`.
fn contains_u32(v: &Vec<u32>, x: u32) -> (r: bool)
    ensures
        r == v@.contains(x),
{
    let mut i: usize = 0;
    while i < v.len()
        invariant
            i <= v.len(),
            forall|j: int| 0 <= j < i ==> v@[j] != x,
        decreases v.len() - i,
    {
        if v[i] == x {
            return true;
        }
        i += 1;
    }
    false
}

/// Places `x` into `sorted` after every element whose priority is not
/// greater than its own.
fn insert_matched(sorted: &mut Vec<MatchedMove>, x: MatchedMove)
    ensures
        mviews(final(sorted)@) == insert_by_priority(mviews(old(sorted)@), x@),
{
    let ghost t = mviews(sorted@);
    let mut k: usize = sorted.len();
    assert(t.take(k as int) =~= t);
    assert(t.skip(k as int) =~= Seq::<MatchedModel>::empty());
    while k > 0 && sorted[k - 1].priority > x.priority
        invariant
            k <= sorted@.len(),
            t == mviews(sorted@),
            insert_by_priority(t, x@) == insert_by_priority(t.take(k as int), x@) + t.skip(k as int),
        decreases k,
    {
        assert(t.take(k as int).drop_last() =~= t.take(k - 1));
        assert(t.take(k as int).last() == t[k - 1]);
        assert(t.skip(k - 1) =~= seq![t[k - 1]] + t.skip(k as int));
        assert(insert_by_priority(t.take(k - 1), x@).push(t[k - 1]) + t.skip(k as int)
            =~= insert_by_priority(t.take(k - 1), x@) + t.skip(k - 1));
        k -= 1;
    }
    if k > 0 {
        assert(t.take(k as int).last() == t[k - 1]);
        assert(insert_by_priority(t.take(k as int), x@) == t.take(k as int).push(x@));
    } else {
        assert(insert_by_priority(t.take(0), x@) == seq![x@]);
    }
    let ghost xv = x@;
    sorted.insert(k, x);
    assert(mviews(sorted@) =~= t.take(k as int).push(xv) + t.skip(k as int));
}

/// The stable sort of `v` by priority, lowest first.
fn sort_matched(v: Vec<MatchedMove>) -> (r: Vec<MatchedMove>)
    ensures
        mviews(r@) == sort_by_priority(mviews(v@)),
{
    let ghost s = mviews(v@);
    let mut rest = v;
    let mut taken: Vec<MatchedMove> = Vec::new();
    while rest.len() > 0
        invariant
            s == mviews(rest@) + mviews(taken@).reverse(),
        decreases rest@.len(),
    {
        let ghost before_rest = rest@;
        let x = rest.pop().unwrap();
        let ghost before_taken = taken@;
        taken.push(x);
        assert(mviews(rest@) + mviews(taken@).reverse() =~= mviews(before_rest) + mviews(before_taken).reverse());
    }
    // `taken` holds the elements last first; insert them first to last.
    let ghost order = mviews(taken@).reverse();
    assert(order =~= s);
    let mut sorted: Vec<MatchedMove> = Vec::new();
    let mut n: usize = 0;
    let total = taken.len();
    while taken.len() > 0
        invariant
            order == s,
            n + taken@.len() == total,
            total == s.len(),
            mviews(taken@).reverse() == s.skip(n as int),
            mviews(sorted@) == sort_by_priority(s.take(n as int)),
        decreases taken@.len(),
    {
        let ghost before = taken@;
        let x = taken.pop().unwrap();
        assert(x@ == s[n as int]) by {
            assert(mviews(before).reverse()[0] == mviews(before)[before.len() - 1]);
            assert(s.skip(n as int)[0] == s[n as int]);
        }
        assert(s.take(n + 1).drop_last() =~= s.take(n as int));
        assert(s.take(n + 1).last() == s[n as int]);
        insert_matched(&mut sorted, x);
        assert(mviews(taken@).reverse() =~= s.skip(n + 1)) by {
            assert(mviews(before).reverse() =~= s.skip(n as int));
            assert forall|j: int| 0 <= j < mviews(taken@).reverse().len() implies mviews(taken@).reverse()[j] == s.skip(n + 1)[j] by {
                assert(mviews(taken@).reverse()[j] == mviews(before).reverse()[j + 1]);
            }
        }
        n += 1;
    }
    assert(s.take(n as int) =~= s);
    sorted
}

impl MoveMatcher {
    /// The step's movement is empty or is the entry's movement.
    fn strict_movement_match(input: &HistoryItem, step: &SequenceStep) -> (r: bool)
        ensures
            r == strict_match(input@, step@),
    {
        step.movement.as_str().is_empty() || step.movement == input.movement
    }

    /// The step's movement is empty or occurs in the entry's movement.
    fn charge_movement_match(input: &HistoryItem, step: &SequenceStep) -> (r: bool)
        ensures
            r == charge_match(input@, step@),
    {
        step.movement.as_str().is_empty() || str_contains(input.movement.as_str(), step.movement.as_str())
    }

    /// The step's movement is empty or is the entry's movement.
    fn lenient_movement_match(input: &HistoryItem, step: &SequenceStep) -> (r: bool)
        ensures
            r == strict_match(input@, step@),
    {
        step.movement.as_str().is_empty() || step.movement == input.movement
    }

    /// The entry's movement is neutral.
    fn neutral_movement(input: &HistoryItem) -> (r: bool)
        ensures
            r == neutral(input@),
    {
        str_eq(input.movement.as_str(), "neutral")
    }

    /// The entry holds the actions of the step (none, for a step without actions).
    fn actions_match(input: &HistoryItem, step: &SequenceStep) -> (r: bool)
        ensures
            r == actions_match_spec(input@, step@),
    {
        if step.actions.len() == 0 {
            return input.basic_actions.len() == 0 && input.composite_actions.len() == 0;
        }
        let ghost req = names(step.actions@);
        let mut k: usize = 0;
        while k < step.actions.len()
            invariant
                k <= step.actions.len(),
                req == names(step.actions@),
                forall|j: int|
                    0 <= j < k ==> input@.basic_actions.contains(#[trigger] req[j]) || input@.composite_actions.contains(req[j]),
            decreases step.actions.len() - k,
        {
            let a = step.actions[k].as_str();
            if !(contains_name(&input.basic_actions, a) || contains_name(&input.composite_actions, a)) {
                assert(req[k as int] == a@);
                return false;
            }
            k += 1;
        }
        true
    }

    /// How `current`, at position `buf_idx`, satisfies the step at position
    /// `step_idx` of `move_def`.
    fn satisfies_step(
        &self,
        move_def: &Move,
        step: &SequenceStep,
        current: &HistoryItem,
        step_idx: usize,
        buf_idx: usize,
    ) -> (r: StepResult)
        requires
            step_idx < move_def.reversed_sequence@.len(),
        ensures
            r == step_result(*move_def, step@, current@, step_idx as int, buf_idx as int, hviews(self.buffer@)),
    {
        let is_first_step = step_idx == move_def.reversed_sequence.len() - 1;
        let is_last_step = step_idx == 0;
        if move_def.require_charge {
            let movement = MoveMatcher::charge_movement_match(current, step);
            let actions = MoveMatcher::actions_match(current, step);
            if !movement || !actions {
                return StepResult::Invalid;
            }
            if is_first_step {
                proof {
                    lemma_key_index_same_names(crate::keyed::kv(current.charge@), current@.charge, step@.movement);
                }
                match find_key(&current.charge, step.movement.as_str()) {
                    Some(j) => {
                        if current.charge[j].1 < move_def.charge_frames {
                            return StepResult::Invalid;
                        }
                    },
                    None => {
                        if move_def.charge_frames > 0 {
                            return StepResult::Invalid;
                        }
                    },
                }
            }
            return StepResult::Perfect;
        }
        let movement = MoveMatcher::strict_movement_match(current, step);
        let actions = MoveMatcher::actions_match(current, step);
        let base = if !movement || !actions {
            StepResult::Invalid
        } else {
            StepResult::Perfect
        };
        if self.buffer.len() > 1 && buf_idx < self.buffer.len() - 1 && is_last_step && contains_u32(&step.modifiers, FrameFighter::LENIENT_ENDER)
            && actions {
            let prev_a = &self.buffer[buf_idx + 1];
            assert(hviews(self.buffer@)[buf_idx + 1] == prev_a@);
            if MoveMatcher::lenient_movement_match(prev_a, step) && (MoveMatcher::neutral_movement(current) || movement) {
                return StepResult::TwoStep;
            }
            if buf_idx < self.buffer.len() - 2 {
                let prev_b = &self.buffer[buf_idx + 2];
                assert(hviews(self.buffer@)[buf_idx + 2] == prev_b@);
                if MoveMatcher::lenient_movement_match(prev_b, step) && (MoveMatcher::neutral_movement(prev_a)
                    || MoveMatcher::lenient_movement_match(prev_a, step)) && MoveMatcher::neutral_movement(current) {
                    return StepResult::ThreeStep;
                }
            }
        }
        base
    }
}


impl MoveMatcher {
    /// Matches `move_def` against the history; `None` where the match would
    /// read past the end of the history or overflow a frame count.
    fn match_move(&self, move_def: &Move) -> (r: Option<(bool, bool, u32)>)
        ensures
            r == match_result(hviews(self.buffer@), hviews(self.buffer_stripped@), *move_def),
    {
        let ghost big = hviews(self.buffer@);
        let seq = &move_def.reversed_sequence;
        let buf = if move_def.require_neutrals {
            &self.buffer
        } else {
            &self.buffer_stripped
        };
        let ghost hb = hviews(buf@);
        if seq.len() == 0 || buf.len() == 0 || buf.len() < seq.len() {
            return Some((false, false, 0));
        }
        let mut step_idx: usize = 0;
        let mut buf_idx: usize = 0;
        let mut matches: usize = 0;
        let mut perfect = true;
        let mut total: u32 = 0;
        while step_idx < seq.len()
            invariant
                big == hviews(self.buffer@),
                hb == hviews(buf@),
                hb == (if move_def.require_neutrals { big } else { hviews(self.buffer_stripped@) }),
                seq@ == move_def.reversed_sequence@,
                seq@.len() == steps(*move_def).len(),
                seq@.len() > 0,
                hb.len() >= seq@.len(),
                step_idx <= seq@.len(),
                matches <= step_idx,
                buf_idx <= buf@.len(),
                attempt(big, *move_def, hb, 0, 0, 0, true, 0) == attempt(
                    big,
                    *move_def,
                    hb,
                    step_idx as int,
                    buf_idx as int,
                    matches as int,
                    perfect,
                    total as int,
                ),
            decreases seq@.len() - step_idx,
        {
            let step = &seq[step_idx];
            assert(steps(*move_def)[step_idx as int] == step@);
            if buf_idx < buf.len() {
                let current = &buf[buf_idx];
                assert(hb[buf_idx as int] == current@);
                let sf0: u64 = if step_idx != seq.len() - 1 {
                    current.frames as u64
                } else {
                    0
                };
                let res = self.satisfies_step(move_def, step, current, step_idx, buf_idx);
                match res {
                    StepResult::Invalid => {
                        return Some((false, false, 0));
                    },
                    _ => {},
                }
                let mut sf: u64 = sf0;
                let mut nb: usize = buf_idx + 1;
                let mut np = perfect;
                match res {
                    StepResult::TwoStep => {
                        if buf.len() - buf_idx <= 1 {
                            return None;
                        }
                        assert(hb[buf_idx + 1] == buf@[buf_idx + 1]@);
                        sf = sf0 + buf[buf_idx + 1].frames as u64;
                        nb = buf_idx + 2;
                        np = false;
                    },
                    StepResult::ThreeStep => {
                        if buf.len() - buf_idx <= 2 {
                            return None;
                        }
                        assert(hb[buf_idx + 1] == buf@[buf_idx + 1]@);
                        assert(hb[buf_idx + 2] == buf@[buf_idx + 2]@);
                        sf = sf0 + buf[buf_idx + 1].frames as u64 + buf[buf_idx + 2].frames as u64;
                        nb = buf_idx + 3;
                        np = false;
                    },
                    _ => {},
                }
                if sf > u32::MAX as u64 || total as u64 + sf > u32::MAX as u64 {
                    return None;
                }
                let nm = if sf <= step.input_window as u64 {
                    matches + 1
                } else {
                    matches
                };
                total = (total as u64 + sf) as u32;
                if nm == seq.len() {
                    return Some((true, np, total));
                }
                buf_idx = nb;
                matches = nm;
                perfect = np;
            } else {
                if matches == seq.len() {
                    return Some((true, perfect, total));
                }
            }
            step_idx += 1;
        }
        Some((false, false, 0))
    }

    /// Whether matching every move stays inside the history and free of overflow.
    pub fn can_process_frame(&self) -> (r: bool)
        ensures
            r == matching_in_bounds(move_entries(self.moves), hviews(self.buffer@), hviews(self.buffer_stripped@)),
    {
        let n = moves_len(&self.moves);
        let mut i: usize = 0;
        while i < n
            invariant
                i <= n,
                n == move_entries(self.moves).len(),
                forall|k: int|
                    0 <= k < i ==> #[trigger] match_result(
                        hviews(self.buffer@),
                        hviews(self.buffer_stripped@),
                        move_entries(self.moves)[k].1,
                    ) is Some,
            decreases n - i,
        {
            let (_, m) = moves_get(&self.moves, i);
            if self.match_move(m).is_none() {
                return false;
            }
            i += 1;
        }
        true
    }

    /// Empties both histories.
    fn clear_buffers(&mut self)
        ensures
            final(self).buffer@.len() == 0,
            final(self).buffer_stripped@.len() == 0,
            final(self).matched_moves == old(self).matched_moves,
            final(self).size == old(self).size,
            final(self).max_frames == old(self).max_frames,
            final(self).moves == old(self).moves,
    {
        self.buffer.clear();
        self.buffer_stripped.clear();
    }

    /// Matches every move against the history. The matched moves are kept,
    /// lowest priority number first; when any move matched, both histories
    /// are emptied.
    pub fn process_frame(&mut self)
        requires
            matching_in_bounds(move_entries(old(self).moves), hviews(old(self).buffer@), hviews(old(self).buffer_stripped@)),
        ensures
            mviews(final(self).matched_moves@) == sort_by_priority(
                found_moves(move_entries(old(self).moves), hviews(old(self).buffer@), hviews(old(self).buffer_stripped@)),
            ),
            priority_sorted(mviews(final(self).matched_moves@)),
            final(self).matched_moves@.len() == found_moves(
                move_entries(old(self).moves),
                hviews(old(self).buffer@),
                hviews(old(self).buffer_stripped@),
            ).len(),
            final(self).matched_moves@.len() > 0 ==> final(self).buffer@.len() == 0 && final(self).buffer_stripped@.len() == 0,
            final(self).matched_moves@.len() == 0 ==> final(self).buffer == old(self).buffer
                && final(self).buffer_stripped == old(self).buffer_stripped,
            final(self).moves == old(self).moves,
            final(self).size == old(self).size,
            final(self).max_frames == old(self).max_frames,
    {
        let ghost e = move_entries(self.moves);
        let ghost b = hviews(self.buffer@);
        let ghost st = hviews(self.buffer_stripped@);
        let n = moves_len(&self.moves);
        let mut found: Vec<MatchedMove> = Vec::new();
        let mut i: usize = 0;
        while i < n
            invariant
                i <= n,
                n == e.len(),
                e == move_entries(self.moves),
                b == hviews(self.buffer@),
                st == hviews(self.buffer_stripped@),
                matching_in_bounds(e, b, st),
                mviews(found@) == found_moves(e.take(i as int), b, st),
            decreases n - i,
        {
            assert(e.take(i + 1).drop_last() =~= e.take(i as int));
            assert(e.take(i + 1).last() == e[i as int]);
            let (name, m) = moves_get(&self.moves, i);
            let r = self.match_move(m);
            assert(match_result(b, st, e[i as int].1) is Some);
            match r {
                Some((matched, perfect, total)) => {
                    if matched {
                        let ghost before = found@;
                        found.push(MatchedMove { name: copy_string(name), priority: m.priority, total_frames: total, perfect_input: perfect });
                        assert(mviews(found@) =~= mviews(before).push(found@[found@.len() - 1]@));
                    }
                },
                None => {},
            }
            i += 1;
        }
        assert(e.take(n as int) =~= e);
        self.matched_moves = sort_matched(found);
        proof {
            lemma_sort_by_priority(found_moves(e, b, st));
        }
        if self.matched_moves.len() > 0 {
            self.clear_buffers();
        }
    }
}


/// An entry as it is printed: its movement and basic actions.
pub open spec fn entry_text(h: HistoryModel) -> Seq<char> {
    "{"@ + h.movement + "."@ + join_with(h.basic_actions, ","@) + "}"@
}

/// A history as it is printed, after `label`.
pub open spec fn buffer_text(label: Seq<char>, s: Seq<HistoryModel>) -> Seq<char> {
    label + "[ "@ + join_with(s.map_values(|h: HistoryModel| entry_text(h)), " | "@) + " ]"@
}

/// The text of a history, after `label`.
fn history_text(label: &str, s: &Vec<HistoryItem>) -> (r: String)
    ensures
        r@ == buffer_text(label@, hviews(s@)),
{
    let ghost hv = hviews(s@);
    let mut items: Vec<String> = Vec::new();
    let mut i: usize = 0;
    while i < s.len()
        invariant
            i <= s.len(),
            hv == hviews(s@),
            names(items@) == hv.take(i as int).map_values(|h: HistoryModel| entry_text(h)),
        decreases s.len() - i,
    {
        let item = &s[i];
        let mut st = String::new();
        st.append("{");
        st.append(item.movement.as_str());
        st.append(".");
        let joined = join_strings(&item.basic_actions, ",");
        st.append(joined.as_str());
        st.append("}");
        assert(st@ =~= entry_text(hv[i as int]));
        let ghost before = items@;
        items.push(st);
        assert(names(items@) =~= names(before).push(entry_text(hv[i as int])));
        assert(hv.take(i + 1).map_values(|h: HistoryModel| entry_text(h)) =~= hv.take(i as int).map_values(
            |h: HistoryModel| entry_text(h),
        ).push(entry_text(hv[i as int])));
        i += 1;
    }
    assert(hv.take(i as int) =~= hv);
    let mut r = String::new();
    r.append(label);
    r.append("[ ");
    let joined = join_strings(&items, " | ");
    r.append(joined.as_str());
    r.append(" ]");
    assert(r@ =~= buffer_text(label@, hv));
    r
}

impl MoveMatcher {
    /// The two histories as they are printed: the full one, then the one
    /// without empty inputs.
    pub fn print_buffers(&self) -> (r: (String, String))
        ensures
            r.0@ == buffer_text("Standard: "@, hviews(self.buffer@)),
            r.1@ == buffer_text("Stripped: "@, hviews(self.buffer_stripped@)),
    {
        (history_text("Standard: ", &self.buffer), history_text("Stripped: ", &self.buffer_stripped))
    }
}

impl Default for MoveMatcher {
    /// The same as `new`.
    fn default() -> (r: Self)
        ensures
            r.matched_moves@.len() == 0,
            r.buffer@.len() == 0,
            r.buffer_stripped@.len() == 0,
            r.size == 20,
            r.max_frames == 999,
            move_entries(r.moves).len() == 0,
    {
        MoveMatcher::new()
    }
}

} // verus!
