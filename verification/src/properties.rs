//! Properties of the input processor that hold across its operations.

use vstd::prelude::*;
use crate::frame_fighter::{FrameFighter, is_cardinal_name, is_movement_name, expected_ender_name};
use crate::keyed::{lookup, has_key, insert_key, key_index, lemma_key_index, lemma_key_index_same_names, distinct_keys, lemma_insert_distinct};
use crate::action_controller::{
    ControllerModel, ActionKind, ActionModel, pressed_now, opposite_held, process_step, process_upto, charge_map_of,
    charge_keys_complete, with_charge_map, with_dependencies, marked, pressed_movement, pressed_basics,
    pressed_composites, frame_of, dependency_map_of, clamp_charge, next_charge,
    basic_input, swap_inputs, swap_opposites, with_side, inverted, count_pressed, dep_pressed,
};
use crate::fighter_input::configured;
use crate::action_controller::{with_directions, with_direction_actions, with_direction_opposites, with_basic, with_composite, with_charge_key, with_opposite, lemma_process_shape};
use crate::input_history::{history_after, same_as_newest, keep_first, entry_for, held_again, next_frames};
use crate::move_order::stable_longest_first;
use crate::move_matcher::{
    match_result, attempt, step_result, strict_match, actions_match_spec, stripped_after, no_empty_inputs,
    empty_input, StepResult, found_moves, matching_in_bounds, charge_match,
};
use crate::models::frame_input_state::FrameModel;
use crate::models::history_item::HistoryModel;
use crate::models::move_def::{Move, steps};
use crate::models::sequence_step::StepModel;

verus! {

/// Every cardinal direction is a movement.
pub proof fn cardinals_are_movements(s: Seq<char>)
    ensures
        is_cardinal_name(s) ==> is_movement_name(s),
{
}

/// The direction that ends a cardinal-to-diagonal sequence is a cardinal
/// direction, or "neutral" for any other pair.
pub proof fn expected_ender_is_cardinal_or_neutral(a: Seq<char>, b: Seq<char>)
    ensures
        is_cardinal_name(expected_ender_name(a, b)) || expected_ender_name(a, b) == "neutral"@,
{
}

/// Evaluating the actions after position `k` leaves the action at `k` as its
/// own evaluation made it; the opposites never change.
proof fn lemma_process_keeps(c: ControllerModel, inputs: Seq<Seq<char>>, n: nat, k: int)
    requires
        0 <= k < n <= c.actions.len(),
    ensures
        process_upto(c, inputs, n).actions[k] == process_upto(c, inputs, (k + 1) as nat).actions[k],
        process_upto(c, inputs, n).opposites == c.opposites,
        process_upto(c, inputs, n).actions.len() == c.actions.len(),
    decreases n,
{
    lemma_process_opposites(c, inputs, n);
    if n > k + 1 {
        lemma_process_keeps(c, inputs, (n - 1) as nat, k);
    }
}

/// Evaluating actions changes neither the opposites nor the number of actions,
/// and leaves the actions not yet evaluated as they were.
proof fn lemma_process_opposites(c: ControllerModel, inputs: Seq<Seq<char>>, n: nat)
    requires
        n <= c.actions.len(),
    ensures
        process_upto(c, inputs, n).opposites == c.opposites,
        process_upto(c, inputs, n).actions.len() == c.actions.len(),
        forall|i: int| n <= i < c.actions.len() ==> #[trigger] process_upto(c, inputs, n).actions[i] == c.actions[i],
    decreases n,
{
    if n > 0 {
        lemma_process_opposites(c, inputs, (n - 1) as nat);
    }
}

/// What the evaluation of the action at `k` makes of it.
proof fn lemma_process_at(c: ControllerModel, inputs: Seq<Seq<char>>, k: int)
    requires
        0 <= k < c.actions.len(),
    ensures
        process_upto(c, inputs, (k + 1) as nat).actions[k] == (
            c.actions[k].0,
            ActionModel { pressed: pressed_now(process_upto(c, inputs, k as nat), c.actions[k].0, c.actions[k].1, inputs), ..c.actions[k].1 },
        ),
        process_upto(c, inputs, k as nat).opposites == c.opposites,
{
    lemma_process_opposites(c, inputs, k as nat);
}

/// Opposite directions cancel each other: two movement actions whose
/// opposites are bound to each other's input are never both pressed after a
/// frame, whatever inputs are pressed.
pub proof fn opposite_directions_never_both_pressed(c: ControllerModel, inputs: Seq<Seq<char>>, i: int, j: int)
    requires
        0 <= i < c.actions.len(),
        0 <= j < c.actions.len(),
        is_movement_name(c.actions[i].0),
        is_movement_name(c.actions[j].0),
        c.actions[i].1.kind is Basic,
        c.actions[j].1.kind is Basic,
        lookup(c.opposites, c.actions[i].0) is Some,
        lookup(c.opposites, c.actions[i].0).unwrap().1 == c.actions[j].1.kind->input_action,
        lookup(c.opposites, c.actions[j].0) is Some,
        lookup(c.opposites, c.actions[j].0).unwrap().1 == c.actions[i].1.kind->input_action,
    ensures
        !(process_upto(c, inputs, c.actions.len()).actions[i].1.pressed && process_upto(c, inputs, c.actions.len()).actions[j].1.pressed),
{
    let n = c.actions.len();
    lemma_process_keeps(c, inputs, n, i);
    lemma_process_keeps(c, inputs, n, j);
    lemma_process_at(c, inputs, i);
    lemma_process_at(c, inputs, j);
}

/// Charge counters stay between 0 and 9999 through a frame.
pub proof fn charge_stays_bounded(c: ControllerModel, inputs: Seq<Seq<char>>, n: nat)
    requires
        n <= c.actions.len(),
        forall|k: int| 0 <= k < c.charge.len() ==> #[trigger] c.charge[k].1 <= 9999,
    ensures
        forall|k: int|
            0 <= k < process_upto(c, inputs, n).charge.len() ==> #[trigger] process_upto(c, inputs, n).charge[k].1 <= 9999,
    decreases n,
{
    if n > 0 {
        charge_stays_bounded(c, inputs, (n - 1) as nat);
        let p = process_upto(c, inputs, (n - 1) as nat);
        let name = p.actions[n - 1].0;
        lemma_key_index(p.charge, name);
    }
}

/// Inserting a name keeps the names already present.
proof fn lemma_insert_keeps_keys<V>(t: Seq<(Seq<char>, V)>, k: Seq<char>, v: V, k2: Seq<char>)
    requires
        has_key(t, k2),
    ensures
        has_key(insert_key(t, k, v), k2),
{
    lemma_key_index(t, k);
    lemma_key_index(t, k2);
    let u = insert_key(t, k, v);
    lemma_key_index(u, k2);
    let i2 = key_index(t, k2);
    assert(u[i2].0 == k2);
}

/// The rebuilt charge counters cover every action that charges.
proof fn lemma_charge_map_covers(s: Seq<(Seq<char>, ActionModel)>)
    ensures
        forall|i: int| 0 <= i < s.len() && #[trigger] s[i].1.charge_type != FrameFighter::CHARGE_NONE ==> has_key(charge_map_of(s), s[i].0),
    decreases s.len(),
{
    if s.len() > 0 {
        let t = s.drop_last();
        lemma_charge_map_covers(t);
        assert forall|i: int| 0 <= i < s.len() && #[trigger] s[i].1.charge_type != FrameFighter::CHARGE_NONE implies has_key(charge_map_of(s), s[i].0) by {
            if i < s.len() - 1 {
                assert(t[i] == s[i]);
                if s.last().1.charge_type != FrameFighter::CHARGE_NONE {
                    lemma_insert_keeps_keys(charge_map_of(t), s.last().0, 0u32, s[i].0);
                }
            } else {
                let u = charge_map_of(t);
                let k = s[i].0;
                lemma_key_index(u, k);
                let w = insert_key(u, k, 0u32);
                assert(charge_map_of(s) == w);
                lemma_key_index(w, k);
                if key_index(u, k) >= 0 {
                    lemma_key_index_same_names(w, u, k);
                } else {
                    assert(w[u.len() as int].0 == k);
                }
            }
        }
    }
}

/// After an action map is set up, every action that charges has a charge
/// counter, so evaluating a frame never misses one.
pub proof fn configured_controller_has_charge_keys(c: ControllerModel, m: crate::fighter_action_map::ActionMapModel)
    ensures
        charge_keys_complete(configured(c, m)),
{
    let c3 = crate::fighter_input::with_custom_composites(
        crate::fighter_input::with_custom_actions(
            crate::action_controller::with_direction_opposites(
                crate::action_controller::with_direction_actions(c, m.up, m.down, m.forward, m.back, FrameFighter::CHARGE_IMMEDIATE),
                m.up,
                m.down,
                m.forward,
                m.back,
            ),
            m.actions,
        ),
        m.composite_actions,
    );
    let c4 = with_charge_map(c3);
    lemma_charge_map_covers(c3.actions);
    let d = with_dependencies(c4);
    assert forall|i: int| 0 <= i < d.actions.len() && #[trigger] d.actions[i].1.charge_type != FrameFighter::CHARGE_NONE implies has_key(d.charge, d.actions[i].0) by {
        assert(d.actions[i] == (c4.actions[i].0, marked(c4.actions[i].0, c4.actions[i].1, dependency_map_of(c4.actions))));
        assert(d.actions[i].1.charge_type == c4.actions[i].1.charge_type);
    }
}

/// The evaluated frame reports "neutral" or a movement as its movement, and
/// no movement among its basic or composite actions.
pub proof fn frame_state_separates_movement(c: ControllerModel)
    ensures
        frame_of(c).movement == "neutral"@ || is_movement_name(frame_of(c).movement),
        forall|k: int| 0 <= k < frame_of(c).basic_actions.len() ==> !is_movement_name(#[trigger] frame_of(c).basic_actions[k]),
        forall|k: int| 0 <= k < frame_of(c).composite_actions.len() ==> !is_movement_name(#[trigger] frame_of(c).composite_actions[k]),
{
    lemma_pressed_lists(c.actions);
}

proof fn lemma_pressed_lists(s: Seq<(Seq<char>, ActionModel)>)
    ensures
        pressed_movement(s) == "neutral"@ || is_movement_name(pressed_movement(s)),
        forall|k: int| 0 <= k < pressed_basics(s).len() ==> !is_movement_name(#[trigger] pressed_basics(s)[k]),
        forall|k: int| 0 <= k < pressed_composites(s).len() ==> !is_movement_name(#[trigger] pressed_composites(s)[k]),
    decreases s.len(),
{
    if s.len() > 0 {
        let t = s.drop_last();
        lemma_pressed_lists(t);
        assert forall|k: int| 0 <= k < pressed_basics(s).len() implies !is_movement_name(#[trigger] pressed_basics(s)[k]) by {
            if k < pressed_basics(t).len() {
                assert(pressed_basics(s)[k] == pressed_basics(t)[k]);
            }
        }
        assert forall|k: int| 0 <= k < pressed_composites(s).len() implies !is_movement_name(#[trigger] pressed_composites(s)[k]) by {
            if k < pressed_composites(t).len() {
                assert(pressed_composites(s)[k] == pressed_composites(t)[k]);
            }
        }
    }
}

/// A history that held at most `size` entries still does after a frame.
pub proof fn history_stays_within_size(entries: Seq<HistoryModel>, size: usize, max_frames: u32, st: FrameModel)
    requires
        entries.len() <= size,
    ensures
        history_after(entries, size, max_frames, st).len() <= size,
{
}

/// A frame that repeats the newest entry's input adds no entry.
pub proof fn repeated_input_adds_no_entry(entries: Seq<HistoryModel>, size: usize, max_frames: u32, st: FrameModel)
    requires
        same_as_newest(entries, st),
    ensures
        history_after(entries, size, max_frames, st).len() == entries.len(),
{
}

/// After a frame the newest entry has been held for at most `max_frames`
/// frames, or for one frame when it is new.
pub proof fn newest_entry_frames_capped(entries: Seq<HistoryModel>, size: usize, max_frames: u32, st: FrameModel)
    requires
        history_after(entries, size, max_frames, st).len() > 0,
    ensures
        history_after(entries, size, max_frames, st)[0].frames <= max_frames
            || history_after(entries, size, max_frames, st)[0].frames == 1,
{
}

/// The history without empty inputs never gains an empty input.
pub proof fn stripped_history_has_no_empty_input(
    buffer: Seq<HistoryModel>,
    stripped: Seq<HistoryModel>,
    size: usize,
    max_frames: u32,
    st: FrameModel,
)
    requires
        no_empty_inputs(stripped),
    ensures
        no_empty_inputs(stripped_after(buffer, stripped, size, max_frames, st)),
{
    let r = stripped_after(buffer, stripped, size, max_frames, st);
    assert forall|i: int| 0 <= i < r.len() implies !empty_input(#[trigger] r[i].movement, r[i].basic_actions, r[i].composite_actions) by {
        if same_as_newest(buffer, st) {
        } else if !empty_input(st.movement, st.basic_actions, st.composite_actions) {
            if i > 0 {
                assert(r[i] == stripped[i - 1]);
            }
        } else {
            assert(r[i] == stripped[i]);
        }
    }
}

/// A one-step move without charge and without a lenient ender matches
/// exactly when the newest entry of its history has the step's movement and
/// actions; it is then a perfect input of zero frames.
pub proof fn single_step_move_matches_newest_input(buffer: Seq<HistoryModel>, stripped: Seq<HistoryModel>, mv: Move)
    requires
        steps(mv).len() == 1,
        !mv.require_charge,
        !steps(mv)[0].modifiers.contains(FrameFighter::LENIENT_ENDER),
        (if mv.require_neutrals { buffer } else { stripped }).len() > 0,
    ensures
        ({
            let buf = if mv.require_neutrals { buffer } else { stripped };
            let ok = strict_match(buf[0], steps(mv)[0]) && actions_match_spec(buf[0], steps(mv)[0]);
            match_result(buffer, stripped, mv) == if ok { Some((true, true, 0u32)) } else { Some((false, false, 0u32)) }
        }),
{
    let buf = if mv.require_neutrals { buffer } else { stripped };
    let st = steps(mv)[0];
    let res = step_result(mv, st, buf[0], 0, 0, buffer);
    assert(attempt(buffer, mv, buf, 1, 1, 1, true, 0) == Some((false, false, 0u32)));
}


/// Inserting gives the inserted value for its name and leaves other names as
/// they were.
proof fn lemma_lookup_insert<V>(s: Seq<(Seq<char>, V)>, k: Seq<char>, v: V, k2: Seq<char>)
    ensures
        lookup(insert_key(s, k, v), k) == Some(v),
        k2 != k ==> lookup(insert_key(s, k, v), k2) == lookup(s, k2),
{
    lemma_key_index(s, k);
    lemma_key_index(s, k2);
    let u = insert_key(s, k, v);
    lemma_key_index(u, k);
    lemma_key_index(u, k2);
    if key_index(s, k) >= 0 {
        lemma_key_index_same_names(u, s, k);
        lemma_key_index_same_names(u, s, k2);
    } else {
        assert(u[s.len() as int].0 == k);
        if k2 != k {
            if key_index(s, k2) >= 0 {
                crate::keyed::lemma_key_index_at(u, k2, key_index(s, k2));
            } else {
                crate::keyed::lemma_key_index_absent(u, k2);
            }
        }
    }
}

/// Binding the directions makes each of them a basic action on its input,
/// recorded with its opposite and that opposite's input.
proof fn lemma_bound_direction_lookups(
    c: ControllerModel,
    up: Seq<char>,
    down: Seq<char>,
    forward: Seq<char>,
    back: Seq<char>,
    charge_type: u32,
)
    ensures
        ({
            let d = with_directions(c, up, down, forward, back, charge_type);
            &&& lookup(d.actions, "up"@) == Some(crate::models::action::basic_model(up, charge_type))
            &&& lookup(d.actions, "down"@) == Some(crate::models::action::basic_model(down, charge_type))
            &&& lookup(d.actions, "forward"@) == Some(crate::models::action::basic_model(forward, charge_type))
            &&& lookup(d.actions, "back"@) == Some(crate::models::action::basic_model(back, charge_type))
            &&& lookup(d.opposites, "up"@) == Some(("down"@, down))
            &&& lookup(d.opposites, "down"@) == Some(("up"@, up))
            &&& lookup(d.opposites, "back"@) == Some(("forward"@, forward))
            &&& lookup(d.opposites, "forward"@) == Some(("back"@, back))
        }),
{
    reveal_strlit("up");
    reveal_strlit("down");
    reveal_strlit("forward");
    reveal_strlit("back");
    reveal_strlit("up_forward");
    reveal_strlit("down_forward");
    reveal_strlit("up_back");
    reveal_strlit("down_back");
    assert("down"@ != "back"@) by {
        assert("down"@[0] == 'd');
        assert("back"@[0] == 'b');
    }
    let d = with_directions(c, up, down, forward, back, charge_type);
    let ct = charge_type;
    let n = FrameFighter::CHARGE_NONE;
    // The actions: four basic directions, then four composite diagonals.
    let a0 = c.actions;
    let a1 = insert_key(a0, "up"@, crate::models::action::basic_model(up, ct));
    let a2 = insert_key(a1, "down"@, crate::models::action::basic_model(down, ct));
    let a3 = insert_key(a2, "forward"@, crate::models::action::basic_model(forward, ct));
    let a4 = insert_key(a3, "back"@, crate::models::action::basic_model(back, ct));
    let a5 = insert_key(a4, "up_forward"@, crate::models::action::composite_model(seq!["up"@, "forward"@], n, true));
    let a6 = insert_key(a5, "down_forward"@, crate::models::action::composite_model(seq!["down"@, "forward"@], n, true));
    let a7 = insert_key(a6, "up_back"@, crate::models::action::composite_model(seq!["up"@, "back"@], n, true));
    let a8 = insert_key(a7, "down_back"@, crate::models::action::composite_model(seq!["down"@, "back"@], n, true));
    assert(d.actions == a8);
    let dirs = seq!["up"@, "down"@, "forward"@, "back"@];
    lemma_lookup_insert(a0, "up"@, crate::models::action::basic_model(up, ct), "down"@);
    lemma_lookup_insert(a1, "down"@, crate::models::action::basic_model(down, ct), "up"@);
    lemma_lookup_insert(a2, "forward"@, crate::models::action::basic_model(forward, ct), "up"@);
    lemma_lookup_insert(a2, "forward"@, crate::models::action::basic_model(forward, ct), "down"@);
    lemma_lookup_insert(a3, "back"@, crate::models::action::basic_model(back, ct), "up"@);
    lemma_lookup_insert(a3, "back"@, crate::models::action::basic_model(back, ct), "down"@);
    lemma_lookup_insert(a3, "back"@, crate::models::action::basic_model(back, ct), "forward"@);
    assert forall|k: Seq<char>| dirs.contains(k) implies lookup(a8, k) == lookup(a4, k) by {
        assert(k == "up"@ || k == "down"@ || k == "forward"@ || k == "back"@);
        assert(k.len() == 2 || k.len() == 4 || k.len() == 7);
        assert(k != "up_forward"@ && k != "down_forward"@ && k != "down_back"@);
        assert(k != "up_back"@) by {
            if k.len() == 7 {
                assert(k[0] == 'f');
                assert("up_back"@[0] == 'u');
            }
        }
        lemma_lookup_insert(a4, "up_forward"@, crate::models::action::composite_model(seq!["up"@, "forward"@], n, true), k);
        lemma_lookup_insert(a5, "down_forward"@, crate::models::action::composite_model(seq!["down"@, "forward"@], n, true), k);
        lemma_lookup_insert(a6, "up_back"@, crate::models::action::composite_model(seq!["up"@, "back"@], n, true), k);
        lemma_lookup_insert(a7, "down_back"@, crate::models::action::composite_model(seq!["down"@, "back"@], n, true), k);
    }
    assert(dirs.contains("up"@) && dirs.contains("down"@) && dirs.contains("forward"@) && dirs.contains("back"@)) by {
        assert(dirs[0] == "up"@);
        assert(dirs[1] == "down"@);
        assert(dirs[2] == "forward"@);
        assert(dirs[3] == "back"@);
    }
    // The opposites.
    let o0 = d.opposites;
    let c3 = with_charge_key(
        with_charge_key(with_charge_key(with_charge_key(with_direction_actions(c, up, down, forward, back, ct), "up"@), "down"@), "back"@),
        "forward"@,
    );
    let p0 = c3.opposites;
    let p1 = insert_key(p0, "up"@, ("down"@, down));
    let p2 = insert_key(p1, "down"@, ("up"@, up));
    let p3 = insert_key(p2, "back"@, ("forward"@, forward));
    let p4 = insert_key(p3, "forward"@, ("back"@, back));
    assert(d.opposites == p4);
    lemma_lookup_insert(p0, "up"@, ("down"@, down), "down"@);
    lemma_lookup_insert(p1, "down"@, ("up"@, up), "up"@);
    lemma_lookup_insert(p2, "back"@, ("forward"@, forward), "up"@);
    lemma_lookup_insert(p2, "back"@, ("forward"@, forward), "down"@);
    lemma_lookup_insert(p3, "forward"@, ("back"@, back), "up"@);
    lemma_lookup_insert(p3, "forward"@, ("back"@, back), "down"@);
    lemma_lookup_insert(p3, "forward"@, ("back"@, back), "back"@);
}

/// Once the directions are bound, up and down are never both pressed after a
/// frame, nor back and forward.
pub proof fn bound_directions_never_both_pressed(
    c: ControllerModel,
    up: Seq<char>,
    down: Seq<char>,
    forward: Seq<char>,
    back: Seq<char>,
    charge_type: u32,
    inputs: Seq<Seq<char>>,
)
    ensures
        ({
            let d = with_directions(c, up, down, forward, back, charge_type);
            let p = process_upto(d, inputs, d.actions.len());
            &&& lookup(p.actions, "up"@) is Some && lookup(p.actions, "down"@) is Some
            &&& !(lookup(p.actions, "up"@).unwrap().pressed && lookup(p.actions, "down"@).unwrap().pressed)
            &&& lookup(p.actions, "back"@) is Some && lookup(p.actions, "forward"@) is Some
            &&& !(lookup(p.actions, "back"@).unwrap().pressed && lookup(p.actions, "forward"@).unwrap().pressed)
        }),
{
    reveal_strlit("up");
    reveal_strlit("down");
    reveal_strlit("forward");
    reveal_strlit("back");
    lemma_bound_direction_lookups(c, up, down, forward, back, charge_type);
    let d = with_directions(c, up, down, forward, back, charge_type);
    let a8 = d.actions;
    // Positions of the four directions.
    lemma_key_index(a8, "up"@);
    lemma_key_index(a8, "down"@);
    lemma_key_index(a8, "forward"@);
    lemma_key_index(a8, "back"@);
    let iu = key_index(a8, "up"@);
    let id = key_index(a8, "down"@);
    let i_f = key_index(a8, "forward"@);
    let ib = key_index(a8, "back"@);
    opposite_directions_never_both_pressed(d, inputs, iu, id);
    opposite_directions_never_both_pressed(d, inputs, ib, i_f);
    // Evaluation keeps the names, so the lookups find the same positions.
    let p = process_upto(d, inputs, d.actions.len());
    lemma_process_shape(d, inputs, d.actions.len());
    assert forall|k: Seq<char>| key_index(p.actions, k) == key_index(d.actions, k) by {
        lemma_key_index_same_names(p.actions, d.actions, k);
    }
}


/// The entry at `i` has another signature than the entry before it.
pub open spec fn differs_from_previous(entries: Seq<HistoryModel>, i: int) -> bool {
    entries[i].all != entries[i - 1].all
}

/// Every entry has been held for 1 to `max_frames` frames.
pub open spec fn frames_within(entries: Seq<HistoryModel>, max_frames: u32) -> bool {
    forall|i: int| 0 <= i < entries.len() ==> 1 <= #[trigger] entries[i].frames <= max_frames
}

/// A history as it is kept: at most `size` entries, each held for 1 to
/// `max_frames` frames, and no two neighbouring entries with the same
/// signature.
pub open spec fn well_kept(entries: Seq<HistoryModel>, size: usize, max_frames: u32) -> bool {
    &&& entries.len() <= size
    &&& frames_within(entries, max_frames)
    &&& forall|i: int| 0 < i < entries.len() ==> #[trigger] differs_from_previous(entries, i)
}

/// The input history stays well kept through every frame: it holds at most
/// `size` entries, counts each up to `max_frames` frames, and never holds
/// two neighbouring entries with the same signature.
pub proof fn history_stays_well_kept(entries: Seq<HistoryModel>, size: usize, max_frames: u32, st: FrameModel)
    requires
        max_frames >= 1,
        well_kept(entries, size, max_frames),
    ensures
        well_kept(history_after(entries, size, max_frames, st), size, max_frames),
{
    let r = history_after(entries, size, max_frames, st);
    if same_as_newest(entries, st) {
        assert(entries[0].frames <= max_frames);
        assert forall|i: int| 0 <= i < r.len() implies 1 <= #[trigger] r[i].frames <= max_frames by {
            if i > 0 {
                assert(r[i] == entries[i]);
            }
        }
        assert forall|i: int| 0 < i < r.len() implies #[trigger] differs_from_previous(r, i) by {
            assert(r[i].all == entries[i].all);
            assert(r[i - 1].all == entries[i - 1].all);
            assert(differs_from_previous(entries, i));
        }
    } else {
        let t = seq![entry_for(st)].add(entries);
        assert forall|i: int| 0 <= i < r.len() implies 1 <= #[trigger] r[i].frames <= max_frames by {
            assert(r[i] == t[i]);
            if i > 0 {
                assert(t[i] == entries[i - 1]);
            }
        }
        assert forall|i: int| 0 < i < r.len() implies #[trigger] differs_from_previous(r, i) by {
            assert(r[i] == t[i]);
            assert(r[i - 1] == t[i - 1]);
            assert(t[i] == entries[i - 1]);
            if i > 1 {
                assert(t[i - 1] == entries[i - 2]);
                assert(differs_from_previous(entries, i - 1));
            }
        }
    }
}

/// The two histories of the move matcher as they are kept: the full one
/// well kept, the one without empty inputs within the same size and frame
/// counts.
pub open spec fn matcher_histories_kept(
    buffer: Seq<HistoryModel>,
    stripped: Seq<HistoryModel>,
    size: usize,
    max_frames: u32,
) -> bool {
    &&& well_kept(buffer, size, max_frames)
    &&& stripped.len() <= size
    &&& frames_within(stripped, max_frames)
    &&& no_empty_inputs(stripped)
}

/// Recording a frame keeps both histories of the move matcher as they are
/// kept.
pub proof fn matcher_histories_stay_kept(
    buffer: Seq<HistoryModel>,
    stripped: Seq<HistoryModel>,
    size: usize,
    max_frames: u32,
    st: FrameModel,
)
    requires
        max_frames >= 1,
        matcher_histories_kept(buffer, stripped, size, max_frames),
    ensures
        matcher_histories_kept(
            history_after(buffer, size, max_frames, st),
            stripped_after(buffer, stripped, size, max_frames, st),
            size,
            max_frames,
        ),
{
    history_stays_well_kept(buffer, size, max_frames, st);
    stripped_history_has_no_empty_input(buffer, stripped, size, max_frames, st);
    let r = stripped_after(buffer, stripped, size, max_frames, st);
    if same_as_newest(buffer, st) {
        if stripped.len() > 0 {
            assert(stripped[0].frames <= max_frames);
        }
        assert forall|i: int| 0 <= i < r.len() implies 1 <= #[trigger] r[i].frames <= max_frames by {
            if i > 0 {
                assert(r[i] == stripped[i]);
            }
        }
    } else if !empty_input(st.movement, st.basic_actions, st.composite_actions) {
        let t = seq![entry_for(st)].add(stripped);
        assert forall|i: int| 0 <= i < r.len() implies 1 <= #[trigger] r[i].frames <= max_frames by {
            assert(r[i] == t[i]);
            if i > 0 {
                assert(t[i] == stripped[i - 1]);
            }
        }
    } else {
        assert forall|i: int| 0 <= i < r.len() implies 1 <= #[trigger] r[i].frames <= max_frames by {
            assert(r[i] == stripped[i]);
        }
    }
}

/// No move matches empty histories.
proof fn lemma_nothing_found_in_empty_histories(entries: Seq<(Seq<char>, Move)>)
    ensures
        found_moves(entries, Seq::empty(), Seq::empty()).len() == 0,
        matching_in_bounds(entries, Seq::empty(), Seq::empty()),
    decreases entries.len(),
{
    if entries.len() > 0 {
        lemma_nothing_found_in_empty_histories(entries.drop_last());
    }
}

/// A matched sequence is consumed: matching again on the histories that the
/// previous matching left behind (emptied when a move matched, unchanged
/// otherwise) stays inside the histories and finds nothing.
pub proof fn matching_again_finds_nothing(
    entries: Seq<(Seq<char>, Move)>,
    buffer: Seq<HistoryModel>,
    stripped: Seq<HistoryModel>,
)
    requires
        matching_in_bounds(entries, buffer, stripped),
    ensures
        ({
            let found = found_moves(entries, buffer, stripped);
            let b = if found.len() > 0 { Seq::<HistoryModel>::empty() } else { buffer };
            let s = if found.len() > 0 { Seq::<HistoryModel>::empty() } else { stripped };
            &&& matching_in_bounds(entries, b, s)
            &&& found_moves(entries, b, s).len() == 0
        }),
{
    lemma_nothing_found_in_empty_histories(entries);
}


/// Exchanging inputs keeps every name in its place.
proof fn lemma_swap_inputs_names(s: Seq<(Seq<char>, ActionModel)>, x: Seq<char>, y: Seq<char>)
    ensures
        swap_inputs(s, x, y).len() == s.len(),
        forall|i: int| 0 <= i < s.len() ==> #[trigger] swap_inputs(s, x, y)[i].0 == s[i].0,
        forall|k: Seq<char>| #[trigger] key_index(swap_inputs(s, x, y), k) == key_index(s, k),
{
    lemma_key_index(s, x);
    lemma_key_index(s, y);
    assert forall|k: Seq<char>| #[trigger] key_index(swap_inputs(s, x, y), k) == key_index(s, k) by {
        lemma_key_index_same_names(swap_inputs(s, x, y), s, k);
    }
}

/// Exchanging opposite inputs keeps every name in its place.
proof fn lemma_swap_opposites_names(o: Seq<(Seq<char>, (Seq<char>, Seq<char>))>, x: Seq<char>, y: Seq<char>)
    ensures
        swap_opposites(o, x, y).len() == o.len(),
        forall|i: int| 0 <= i < o.len() ==> #[trigger] swap_opposites(o, x, y)[i].0 == o[i].0,
        forall|k: Seq<char>| #[trigger] key_index(swap_opposites(o, x, y), k) == key_index(o, k),
{
    lemma_key_index(o, x);
    lemma_key_index(o, y);
    assert forall|k: Seq<char>| #[trigger] key_index(swap_opposites(o, x, y), k) == key_index(o, k) by {
        lemma_key_index_same_names(swap_opposites(o, x, y), o, k);
    }
}

/// The input that the action named `name` reads.
pub open spec fn input_of(c: ControllerModel, name: Seq<char>) -> Seq<char> {
    basic_input(lookup(c.actions, name).unwrap()).unwrap()
}

/// Forward and back are basic actions, and the opposite input recorded for
/// each of them is the input of the other.
pub open spec fn forward_back_bound(c: ControllerModel) -> bool {
    &&& lookup(c.actions, "forward"@) is Some
    &&& basic_input(lookup(c.actions, "forward"@).unwrap()) is Some
    &&& lookup(c.actions, "back"@) is Some
    &&& basic_input(lookup(c.actions, "back"@).unwrap()) is Some
    &&& lookup(c.opposites, "forward"@) is Some
    &&& lookup(c.opposites, "forward"@).unwrap().1 == input_of(c, "back"@)
    &&& lookup(c.opposites, "back"@) is Some
    &&& lookup(c.opposites, "back"@).unwrap().1 == input_of(c, "forward"@)
}

/// Switching sides stores the side; between player two and any other side,
/// forward and back exchange their inputs, and the opposite input recorded
/// for each still is the input of the other. Otherwise the actions and the
/// opposites stay as they were.
pub proof fn switching_side_swaps_forward_and_back(c: ControllerModel, side: u32)
    requires
        forward_back_bound(c),
    ensures
        with_side(c, side).side == side,
        forward_back_bound(with_side(c, side)),
        inverted(side) != inverted(c.side) ==> input_of(with_side(c, side), "forward"@) == input_of(c, "back"@)
            && input_of(with_side(c, side), "back"@) == input_of(c, "forward"@),
        inverted(side) == inverted(c.side) ==> with_side(c, side).actions == c.actions
            && with_side(c, side).opposites == c.opposites,
{
    reveal_strlit("forward");
    reveal_strlit("back");
    assert("forward"@.len() != "back"@.len());
    let a = c.actions;
    let o = c.opposites;
    let x = "forward"@;
    let y = "back"@;
    lemma_key_index(a, x);
    lemma_key_index(a, y);
    lemma_key_index(o, x);
    lemma_key_index(o, y);
    lemma_swap_inputs_names(a, x, y);
    lemma_swap_opposites_names(o, x, y);
    let i = key_index(a, x);
    let j = key_index(a, y);
    assert(i != j);
    let oi = key_index(o, x);
    let oj = key_index(o, y);
    assert(oi != oj);
    let sa = swap_inputs(a, x, y);
    let so = swap_opposites(o, x, y);
    assert(key_index(sa, x) == i);
    assert(key_index(sa, y) == j);
    assert(key_index(so, x) == oi);
    assert(key_index(so, y) == oj);
}

/// Forward and back, bound as each other's opposite, are never both pressed
/// after a frame, whatever inputs are pressed.
pub proof fn forward_and_back_never_both_pressed(c: ControllerModel, inputs: Seq<Seq<char>>)
    requires
        forward_back_bound(c),
    ensures
        ({
            let p = process_upto(c, inputs, c.actions.len());
            &&& lookup(p.actions, "forward"@) is Some && lookup(p.actions, "back"@) is Some
            &&& !(lookup(p.actions, "forward"@).unwrap().pressed && lookup(p.actions, "back"@).unwrap().pressed)
        }),
{
    reveal_strlit("forward");
    reveal_strlit("back");
    let x = "forward"@;
    let y = "back"@;
    lemma_key_index(c.actions, x);
    lemma_key_index(c.actions, y);
    let i = key_index(c.actions, x);
    let j = key_index(c.actions, y);
    assert(is_movement_name(x));
    assert(is_movement_name(y));
    opposite_directions_never_both_pressed(c, inputs, i, j);
    let p = process_upto(c, inputs, c.actions.len());
    lemma_process_shape(c, inputs, c.actions.len());
    assert forall|k: Seq<char>| key_index(p.actions, k) == key_index(c.actions, k) by {
        lemma_key_index_same_names(p.actions, c.actions, k);
    }
}

/// After switching to any side, forward and back, bound as each other's
/// opposite, are still never both pressed after a frame.
pub proof fn switched_forward_and_back_never_both_pressed(c: ControllerModel, side: u32, inputs: Seq<Seq<char>>)
    requires
        forward_back_bound(c),
    ensures
        ({
            let d = with_side(c, side);
            let p = process_upto(d, inputs, d.actions.len());
            !(lookup(p.actions, "forward"@).unwrap().pressed && lookup(p.actions, "back"@).unwrap().pressed)
        }),
{
    switching_side_swaps_forward_and_back(c, side);
    forward_and_back_never_both_pressed(with_side(c, side), inputs);
}


/// Switching to a side and back restores the controller.
pub proof fn switching_side_back_restores(c: ControllerModel, side: u32)
    requires
        forward_back_bound(c),
    ensures
        with_side(with_side(c, side), c.side) == c,
{
    switching_side_swaps_forward_and_back(c, side);
    let d = with_side(c, side);
    if inverted(side) != inverted(c.side) {
        reveal_strlit("forward");
        reveal_strlit("back");
        assert("forward"@.len() != "back"@.len());
        let a = c.actions;
        let o = c.opposites;
        let x = "forward"@;
        let y = "back"@;
        lemma_key_index(a, x);
        lemma_key_index(a, y);
        lemma_key_index(o, x);
        lemma_key_index(o, y);
        lemma_swap_inputs_names(a, x, y);
        lemma_swap_opposites_names(o, x, y);
        lemma_swap_inputs_names(d.actions, x, y);
        lemma_swap_opposites_names(d.opposites, x, y);
        let i = key_index(a, x);
        let j = key_index(a, y);
        let e = with_side(d, c.side);
        assert(e.actions =~= a) by {
            assert(e.actions[i] =~~= a[i]);
            assert(e.actions[j] =~~= a[j]);
        }
        assert(e.opposites =~= o);
    }
}



/// Once the directions are bound, forward and back are basic actions reading
/// their inputs, each recorded as the other's opposite.
pub proof fn bound_directions_bind_forward_and_back(
    c: ControllerModel,
    up: Seq<char>,
    down: Seq<char>,
    forward: Seq<char>,
    back: Seq<char>,
    charge_type: u32,
)
    ensures
        forward_back_bound(with_directions(c, up, down, forward, back, charge_type)),
        input_of(with_directions(c, up, down, forward, back, charge_type), "forward"@) == forward,
        input_of(with_directions(c, up, down, forward, back, charge_type), "back"@) == back,
{
    lemma_bound_direction_lookups(c, up, down, forward, back, charge_type);
}


/// No name occurs twice among the actions, the charge counters, the
/// opposites or the record of dependencies.
pub open spec fn names_distinct(c: ControllerModel) -> bool {
    &&& distinct_keys(c.actions)
    &&& distinct_keys(c.charge)
    &&& distinct_keys(c.opposites)
    &&& distinct_keys(c.dependency_input)
}

/// Two sequences with the same names in the same places are both distinct
/// or both not.
proof fn lemma_same_names_distinct<V, W>(s: Seq<(Seq<char>, V)>, t: Seq<(Seq<char>, W)>)
    requires
        s.len() == t.len(),
        forall|j: int| 0 <= j < s.len() ==> #[trigger] s[j].0 == t[j].0,
        distinct_keys(s),
    ensures
        distinct_keys(t),
{
    assert forall|i: int, j: int| 0 <= i < j < t.len() implies t[i].0 != t[j].0 by {
        assert(s[i].0 == t[i].0);
        assert(s[j].0 == t[j].0);
    }
}

/// The rebuilt charge counters have distinct names.
proof fn lemma_charge_map_distinct(s: Seq<(Seq<char>, ActionModel)>)
    ensures
        distinct_keys(charge_map_of(s)),
    decreases s.len(),
{
    if s.len() > 0 {
        lemma_charge_map_distinct(s.drop_last());
        if s.last().1.charge_type != FrameFighter::CHARGE_NONE {
            lemma_insert_distinct(charge_map_of(s.drop_last()), s.last().0, 0u32);
        }
    }
}

/// Recording dependencies as released keeps names distinct.
proof fn lemma_released_distinct(m: Seq<(Seq<char>, bool)>, ds: Seq<Seq<char>>)
    requires
        distinct_keys(m),
    ensures
        distinct_keys(crate::action_controller::with_released(m, ds)),
    decreases ds.len(),
{
    if ds.len() > 0 {
        lemma_released_distinct(m, ds.drop_last());
        lemma_insert_distinct(crate::action_controller::with_released(m, ds.drop_last()), ds.last(), false);
    }
}

/// The rebuilt record of dependencies has distinct names.
proof fn lemma_dependency_map_distinct(s: Seq<(Seq<char>, ActionModel)>)
    ensures
        distinct_keys(dependency_map_of(s)),
    decreases s.len(),
{
    if s.len() > 0 {
        lemma_dependency_map_distinct(s.drop_last());
        match s.last().1.kind {
            ActionKind::Composite { dependencies, require_all } => {
                lemma_released_distinct(dependency_map_of(s.drop_last()), dependencies);
            },
            ActionKind::Basic { .. } => {},
        }
    }
}

/// Every operation of the controller keeps its names distinct: adding an
/// action, creating a charge counter, recording an opposite, rebuilding the
/// charge counters or the dependencies, switching sides and evaluating a
/// frame.
pub proof fn controller_names_stay_distinct(
    c: ControllerModel,
    name: Seq<char>,
    input_action: Seq<char>,
    dependencies: Seq<Seq<char>>,
    charge_type: u32,
    require_all: bool,
    opposite: Seq<char>,
    side: u32,
    inputs: Seq<Seq<char>>,
)
    requires
        names_distinct(c),
    ensures
        names_distinct(with_basic(c, name, input_action, charge_type)),
        names_distinct(with_composite(c, name, dependencies, charge_type, require_all)),
        names_distinct(with_charge_key(c, name)),
        names_distinct(with_opposite(c, name, opposite, input_action)),
        names_distinct(with_charge_map(c)),
        names_distinct(with_dependencies(c)),
        names_distinct(with_side(c, side)),
        names_distinct(process_upto(c, inputs, c.actions.len())),
{
    lemma_insert_distinct(c.actions, name, crate::models::action::basic_model(input_action, charge_type));
    lemma_insert_distinct(c.actions, name, crate::models::action::composite_model(dependencies, charge_type, require_all));
    lemma_insert_distinct(c.charge, name, 0u32);
    lemma_insert_distinct(c.opposites, name, (opposite, input_action));
    lemma_charge_map_distinct(c.actions);
    lemma_dependency_map_distinct(c.actions);
    let d = with_dependencies(c);
    lemma_same_names_distinct(c.actions, d.actions);
    lemma_swap_inputs_names(c.actions, "forward"@, "back"@);
    lemma_swap_opposites_names(c.opposites, "forward"@, "back"@);
    lemma_same_names_distinct(c.actions, swap_inputs(c.actions, "forward"@, "back"@));
    lemma_same_names_distinct(c.opposites, swap_opposites(c.opposites, "forward"@, "back"@));
    lemma_process_shape(c, inputs, c.actions.len());
    let p = process_upto(c, inputs, c.actions.len());
    lemma_same_names_distinct(c.actions, p.actions);
    lemma_same_names_distinct(c.charge, p.charge);
    lemma_same_names_distinct(c.dependency_input, p.dependency_input);
}

/// The move list keeps its names distinct: adding a move, and ordering the
/// moves longest first.
pub proof fn move_names_stay_distinct(
    entries: Seq<(Seq<char>, Move)>,
    name: Seq<char>,
    m: Move,
    sorted: Seq<(Seq<char>, Move)>,
)
    requires
        distinct_keys(entries),
    ensures
        distinct_keys(insert_key(entries, name, m)),
        stable_longest_first(entries, sorted) ==> distinct_keys(sorted),
{
    lemma_insert_distinct(entries, name, m);
    if stable_longest_first(entries, sorted) {
        let perm = choose|perm: Seq<int>| #[trigger] crate::move_order::stable_longest_first_by(entries, sorted, perm);
        assert forall|i: int, j: int| 0 <= i < j < sorted.len() implies sorted[i].0 != sorted[j].0 by {
            assert(sorted[i] == entries[perm[i]]);
            assert(sorted[j] == entries[perm[j]]);
            assert(perm[i] != perm[j]);
        }
    }
}


/// The charge recorded for the step's movement reaches what the move needs;
/// an unrecorded charge counts as none.
pub open spec fn charged_enough(mv: Move, st: StepModel, h: HistoryModel) -> bool {
    match lookup(h.charge, st.movement) {
        Some(c) => c >= mv.charge_frames,
        None => mv.charge_frames == 0,
    }
}

/// Whether entry `h` satisfies step `st` of a move without lenient enders:
/// for a charge move, the step's movement occurs in the entry's movement,
/// its actions are held and the first step has been charged enough; for any
/// other move, the entry has the step's movement and actions.
pub open spec fn plain_step_fits(mv: Move, st: StepModel, h: HistoryModel, is_first: bool) -> bool {
    if mv.require_charge {
        charge_match(h, st) && actions_match_spec(h, st) && (is_first ==> charged_enough(mv, st, h))
    } else {
        strict_match(h, st) && actions_match_spec(h, st)
    }
}

/// The frames of the first `k` entries.
pub open spec fn frames_before(buf: Seq<HistoryModel>, k: int) -> int
    decreases k,
{
    if k <= 0 {
        0
    } else {
        frames_before(buf, k - 1) + buf[k - 1].frames
    }
}

/// Counting more entries counts more frames.
proof fn lemma_frames_before_grows(buf: Seq<HistoryModel>, k1: int, k2: int)
    requires
        0 <= k1 <= k2,
    ensures
        frames_before(buf, k1) <= frames_before(buf, k2),
    decreases k2 - k1,
{
    if k1 < k2 {
        lemma_frames_before_grows(buf, k1, k2 - 1);
    }
}

/// Step `k` of `mv` is satisfied by entry `k` of `buf`, and in time: every
/// step but the first is entered within its input window.
pub open spec fn plain_step_in_time(mv: Move, buf: Seq<HistoryModel>, k: int) -> bool {
    let n = steps(mv).len();
    &&& plain_step_fits(mv, steps(mv)[k], buf[k], k == n - 1)
    &&& (k == n - 1 || buf[k].frames <= steps(mv)[k].input_window)
}

/// Every step of `mv` from step `k` on is satisfied in time by the entry at
/// its position.
pub open spec fn steps_in_time_from(mv: Move, buf: Seq<HistoryModel>, k: int) -> bool {
    forall|j: int| k <= j < steps(mv).len() ==> #[trigger] plain_step_in_time(mv, buf, j)
}

/// Matching a move without lenient enders from step `k` on, with every
/// earlier step matched (`m == k`) or some missed (`m < k`).
proof fn lemma_attempt_plain(buffer: Seq<HistoryModel>, mv: Move, buf: Seq<HistoryModel>, k: int, m: int)
    requires
        0 <= m <= k < steps(mv).len(),
        buf.len() >= steps(mv).len(),
        forall|j: int| 0 <= j < steps(mv).len() ==> !(#[trigger] steps(mv)[j]).modifiers.contains(FrameFighter::LENIENT_ENDER),
        frames_before(buf, steps(mv).len() - 1) <= u32::MAX,
    ensures
        attempt(buffer, mv, buf, k, k, m, true, frames_before(buf, k)) == if m == k && steps_in_time_from(mv, buf, k) {
            Some((true, true, frames_before(buf, steps(mv).len() - 1) as u32))
        } else {
            Some((false, false, 0u32))
        },
    decreases steps(mv).len() - k,
{
    let n = steps(mv).len() as int;
    let st = steps(mv)[k];
    let t = frames_before(buf, k);
    let all_from_k = steps_in_time_from(mv, buf, k);
    let all_after_k = steps_in_time_from(mv, buf, k + 1);
    assert(!st.modifiers.contains(FrameFighter::LENIENT_ENDER));
    let res = step_result(mv, st, buf[k], k, k, buffer);
    assert(res is Invalid <==> !plain_step_fits(mv, st, buf[k], k == n - 1));
    assert(!(res is TwoStep) && !(res is ThreeStep));
    assert(all_from_k <==> plain_step_in_time(mv, buf, k) && all_after_k) by {
        if plain_step_in_time(mv, buf, k) && all_after_k {
            assert forall|j: int| k <= j < n implies #[trigger] plain_step_in_time(mv, buf, j) by {
                if j > k {
                    assert(k + 1 <= j < n);
                }
            }
        }
    }
    if res is Invalid {
        assert(!plain_step_in_time(mv, buf, k));
    } else if k == n - 1 {
        assert(all_after_k);
        lemma_frames_before_grows(buf, k, n - 1);
        if m < k {
            assert(attempt(buffer, mv, buf, k + 1, k + 1, m + 1, true, t) == Some((false, false, 0u32)));
        }
    } else {
        lemma_frames_before_grows(buf, k + 1, n - 1);
        assert(frames_before(buf, k + 1) == t + buf[k].frames);
        let nm = if buf[k].frames <= st.input_window { m + 1 } else { m };
        lemma_attempt_plain(buffer, mv, buf, k + 1, nm);
        assert(attempt(buffer, mv, buf, k, k, m, true, t) == attempt(
            buffer,
            mv,
            buf,
            k + 1,
            k + 1,
            nm,
            true,
            frames_before(buf, k + 1),
        ));
    }
}

/// A move without lenient enders matches exactly when each of its steps is
/// satisfied, in time, by the entry at the same position of its history,
/// newest first; it is then a perfect input counting the frames of every
/// entry but the one of the first step.
pub proof fn plain_move_matches_entry_by_entry(buffer: Seq<HistoryModel>, stripped: Seq<HistoryModel>, mv: Move)
    requires
        steps(mv).len() > 0,
        forall|j: int| 0 <= j < steps(mv).len() ==> !(#[trigger] steps(mv)[j]).modifiers.contains(FrameFighter::LENIENT_ENDER),
        frames_before(if mv.require_neutrals { buffer } else { stripped }, steps(mv).len() - 1) <= u32::MAX,
    ensures
        ({
            let buf = if mv.require_neutrals { buffer } else { stripped };
            let n = steps(mv).len() as int;
            match_result(buffer, stripped, mv) == if buf.len() >= n && steps_in_time_from(mv, buf, 0) {
                Some((true, true, frames_before(buf, n - 1) as u32))
            } else {
                Some((false, false, 0u32))
            }
        }),
{
    let buf = if mv.require_neutrals { buffer } else { stripped };
    let n = steps(mv).len() as int;
    if buf.len() >= n {
        lemma_attempt_plain(buffer, mv, buf, 0, 0);
        assert(frames_before(buf, 0) == 0);
        assert(match_result(buffer, stripped, mv) == attempt(buffer, mv, buf, 0, 0, 0, true, 0));
    } else {
        assert(match_result(buffer, stripped, mv) == Some((false, false, 0u32)));
    }
}


/// A new input is recorded as a new entry: when a frame's input differs from
/// the newest entry of the full history and is not an empty input, the
/// history without empty inputs starts with that input, held for one frame,
/// followed by its previous entries, up to `size` entries in all.
pub proof fn new_input_starts_the_stripped_history(
    buffer: Seq<HistoryModel>,
    stripped: Seq<HistoryModel>,
    size: usize,
    max_frames: u32,
    st: FrameModel,
)
    requires
        !(buffer.len() > 0 && buffer[0].all == st.all),
        !(st.movement == "neutral"@ && st.basic_actions.len() == 0 && st.composite_actions.len() == 0),
        size > 0,
    ensures
        ({
            let r = stripped_after(buffer, stripped, size, max_frames, st);
            &&& r.len() == if stripped.len() + 1 <= size { stripped.len() + 1 } else { size as nat }
            &&& r[0].frames == 1
            &&& r[0].movement == st.movement
            &&& r[0].basic_actions == st.basic_actions
            &&& r[0].composite_actions == st.composite_actions
            &&& r[0].charge == st.charge
            &&& r[0].all == st.all
            &&& forall|i: int| 0 < i < r.len() ==> #[trigger] r[i] == stripped[i - 1]
        }),
{
    let r = stripped_after(buffer, stripped, size, max_frames, st);
    let t = seq![entry_for(st)].add(stripped);
    assert(r =~= keep_first(t, size));
    assert forall|i: int| 0 < i < r.len() implies #[trigger] r[i] == stripped[i - 1] by {
        assert(r[i] == t[i]);
    }
}

/// Whether entry `h` holds every action of `actions`, as a basic or a
/// composite action.
pub open spec fn holds_actions(h: HistoryModel, actions: Seq<Seq<char>>) -> bool {
    forall|k: int| 0 <= k < actions.len() ==> h.basic_actions.contains(#[trigger] actions[k])
        || h.composite_actions.contains(actions[k])
}

/// A move matches only if the newest entry of its history, which its last
/// step consumes, holds every action of that step; a last step without
/// actions needs a newest entry without actions.
pub proof fn matched_move_holds_its_last_actions(buffer: Seq<HistoryModel>, stripped: Seq<HistoryModel>, mv: Move)
    requires
        match_result(buffer, stripped, mv) matches Some(r) && r.0,
    ensures
        ({
            let buf = if mv.require_neutrals { buffer } else { stripped };
            let last = steps(mv)[0];
            &&& buf.len() > 0 && steps(mv).len() > 0
            &&& holds_actions(buf[0], last.actions)
            &&& last.actions.len() == 0 ==> buf[0].basic_actions.len() == 0 && buf[0].composite_actions.len() == 0
        }),
{
    let buf = if mv.require_neutrals { buffer } else { stripped };
    let st = steps(mv)[0];
    let res = step_result(mv, st, buf[0], 0, 0, buffer);
    assert(!(res is Invalid));
    assert(actions_match_spec(buf[0], st));
}


/// Two different dependencies of `ds`, at positions `i < j`, are recorded
/// pressed in `deps`.
pub open spec fn two_pressed(deps: Seq<(Seq<char>, bool)>, ds: Seq<Seq<char>>) -> bool {
    exists|i: int, j: int|
        0 <= i < j < ds.len() && #[trigger] lookup(deps, ds[i]) == Some(true) && #[trigger] lookup(deps, ds[j]) == Some(true)
}

/// One dependency of `ds` is recorded pressed in `deps`.
pub open spec fn one_pressed(deps: Seq<(Seq<char>, bool)>, ds: Seq<Seq<char>>) -> bool {
    exists|i: int| 0 <= i < ds.len() && #[trigger] lookup(deps, ds[i]) == Some(true)
}

/// Counting pressed dependencies: at least one exactly when one is pressed,
/// more than one exactly when two different ones are.
proof fn lemma_count_pressed(deps: Seq<(Seq<char>, bool)>, ds: Seq<Seq<char>>)
    ensures
        count_pressed(deps, ds) >= 1 <==> one_pressed(deps, ds),
        count_pressed(deps, ds) > 1 <==> two_pressed(deps, ds),
    decreases ds.len(),
{
    if ds.len() > 0 {
        let t = ds.drop_last();
        lemma_count_pressed(deps, t);
        let n = ds.len() - 1;
        let last = lookup(deps, ds[n]) == Some(true);
        assert(ds.last() == ds[n]);
        if one_pressed(deps, t) {
            let i = choose|i: int| 0 <= i < t.len() && #[trigger] lookup(deps, t[i]) == Some(true);
            assert(ds[i] == t[i]);
            assert(one_pressed(deps, ds));
            if last {
                assert(lookup(deps, ds[i]) == Some(true) && lookup(deps, ds[n]) == Some(true));
                assert(two_pressed(deps, ds));
            }
        }
        if last {
            assert(one_pressed(deps, ds));
        }
        if two_pressed(deps, t) {
            let (i, j) = choose|i: int, j: int|
                0 <= i < j < t.len() && #[trigger] lookup(deps, t[i]) == Some(true) && #[trigger] lookup(deps, t[j]) == Some(true);
            assert(ds[i] == t[i] && ds[j] == t[j]);
            assert(lookup(deps, ds[i]) == Some(true) && lookup(deps, ds[j]) == Some(true));
        }
        if one_pressed(deps, ds) {
            let i = choose|i: int| 0 <= i < ds.len() && #[trigger] lookup(deps, ds[i]) == Some(true);
            if i < n {
                assert(t[i] == ds[i]);
                assert(one_pressed(deps, t));
            }
        }
        if two_pressed(deps, ds) {
            let (i, j) = choose|i: int, j: int|
                0 <= i < j < ds.len() && #[trigger] lookup(deps, ds[i]) == Some(true) && #[trigger] lookup(deps, ds[j]) == Some(true);
            assert(t[i] == ds[i]);
            assert(lookup(deps, t[i]) == Some(true));
            assert(one_pressed(deps, t));
            if j < n {
                assert(t[j] == ds[j]);
                assert(lookup(deps, t[j]) == Some(true));
                assert(two_pressed(deps, t));
            }
        }
    }
}

/// A composite action that does not need all of its dependencies is pressed
/// exactly when two different dependencies are recorded pressed; one that
/// needs all of them, exactly when every dependency is.
pub proof fn composite_pressed_by_its_dependencies(
    c: ControllerModel,
    name: Seq<char>,
    a: ActionModel,
    inputs: Seq<Seq<char>>,
)
    requires
        a.kind is Composite,
    ensures
        !a.kind->require_all ==> (pressed_now(c, name, a, inputs) <==> two_pressed(c.dependency_input, a.kind->dependencies)),
        a.kind->require_all ==> (pressed_now(c, name, a, inputs) <==> forall|k: int|
            0 <= k < a.kind->dependencies.len() ==> #[trigger] lookup(c.dependency_input, a.kind->dependencies[k]) == Some(true)),
{
    lemma_count_pressed(c.dependency_input, a.kind->dependencies);
    let ds = a.kind->dependencies;
    if a.kind->require_all {
        if pressed_now(c, name, a, inputs) {
            assert forall|k: int| 0 <= k < ds.len() implies #[trigger] lookup(c.dependency_input, ds[k]) == Some(true) by {
                assert(dep_pressed(c.dependency_input, ds[k]));
            }
        }
        if forall|k: int| 0 <= k < ds.len() ==> #[trigger] lookup(c.dependency_input, ds[k]) == Some(true) {
            assert forall|k: int| 0 <= k < ds.len() implies #[trigger] dep_pressed(c.dependency_input, ds[k]) by {
                assert(lookup(c.dependency_input, ds[k]) == Some(true));
            }
        }
    }
}

/// Pressing more dependencies never releases a composite action: when every
/// dependency recorded pressed in `c` is recorded pressed in `d`, a
/// composite action pressed on `c` is pressed on `d`.
pub proof fn more_dependencies_keep_a_composite_pressed(
    c: ControllerModel,
    d: ControllerModel,
    name: Seq<char>,
    a: ActionModel,
    inputs: Seq<Seq<char>>,
)
    requires
        a.kind is Composite,
        forall|k: Seq<char>| lookup(c.dependency_input, k) == Some(true) ==> #[trigger] lookup(d.dependency_input, k) == Some(true),
        pressed_now(c, name, a, inputs),
    ensures
        pressed_now(d, name, a, inputs),
{
    composite_pressed_by_its_dependencies(c, name, a, inputs);
    composite_pressed_by_its_dependencies(d, name, a, inputs);
    let ds = a.kind->dependencies;
    if !a.kind->require_all {
        let (i, j) = choose|i: int, j: int|
            0 <= i < j < ds.len() && #[trigger] lookup(c.dependency_input, ds[i]) == Some(true) && #[trigger] lookup(
                c.dependency_input,
                ds[j],
            ) == Some(true);
        assert(lookup(d.dependency_input, ds[i]) == Some(true));
        assert(lookup(d.dependency_input, ds[j]) == Some(true));
    } else {
        assert forall|k: int| 0 <= k < ds.len() implies #[trigger] lookup(d.dependency_input, ds[k]) == Some(true) by {
            assert(lookup(c.dependency_input, ds[k]) == Some(true));
        }
    }
}


/// Adding custom basic actions under other names leaves the action named
/// `k` and the opposites as they were.
proof fn lemma_custom_actions_keep(c: ControllerModel, s: Seq<crate::fighter_action_map::FighterActionModel>, k: Seq<char>)
    requires
        forall|i: int| 0 <= i < s.len() ==> #[trigger] s[i].name != k,
    ensures
        lookup(crate::fighter_input::with_custom_actions(c, s).actions, k) == lookup(c.actions, k),
        crate::fighter_input::with_custom_actions(c, s).opposites == c.opposites,
    decreases s.len(),
{
    if s.len() > 0 {
        let t = s.drop_last();
        assert forall|i: int| 0 <= i < t.len() implies #[trigger] t[i].name != k by {
            assert(t[i] == s[i]);
        }
        lemma_custom_actions_keep(c, t, k);
        let p = crate::fighter_input::with_custom_actions(c, t);
        assert(s.last() == s[s.len() - 1]);
        lemma_lookup_insert(
            p.actions,
            s.last().name,
            crate::models::action::basic_model(s.last().input_action, s.last().charge_type as u32),
            k,
        );
    }
}

/// Adding custom composite actions under other names leaves the action
/// named `k` and the opposites as they were.
proof fn lemma_custom_composites_keep(c: ControllerModel, s: Seq<crate::fighter_action_map::FighterCompositeModel>, k: Seq<char>)
    requires
        forall|i: int| 0 <= i < s.len() ==> #[trigger] s[i].name != k,
    ensures
        lookup(crate::fighter_input::with_custom_composites(c, s).actions, k) == lookup(c.actions, k),
        crate::fighter_input::with_custom_composites(c, s).opposites == c.opposites,
    decreases s.len(),
{
    if s.len() > 0 {
        let t = s.drop_last();
        assert forall|i: int| 0 <= i < t.len() implies #[trigger] t[i].name != k by {
            assert(t[i] == s[i]);
        }
        lemma_custom_composites_keep(c, t, k);
        let p = crate::fighter_input::with_custom_composites(c, t);
        assert(s.last() == s[s.len() - 1]);
        lemma_lookup_insert(
            p.actions,
            s.last().name,
            crate::models::action::composite_model(s.last().dependencies, s.last().charge_type as u32, s.last().require_all),
            k,
        );
    }
}

/// Marking dependencies keeps every action where it is and the input of
/// every basic action.
proof fn lemma_dependencies_keep_inputs(c: ControllerModel, k: Seq<char>)
    ensures
        lookup(with_dependencies(c).actions, k) is Some <==> lookup(c.actions, k) is Some,
        lookup(c.actions, k) is Some ==> basic_input(lookup(with_dependencies(c).actions, k).unwrap()) == basic_input(
            lookup(c.actions, k).unwrap(),
        ),
        with_dependencies(c).opposites == c.opposites,
{
    let d = with_dependencies(c);
    lemma_key_index_same_names(d.actions, c.actions, k);
    lemma_key_index(c.actions, k);
}

/// Binding an action map whose custom actions use other names than forward
/// and back makes forward and back read the map's forward and back inputs,
/// each recorded as the other's opposite; so after any frame they are never
/// both pressed.
pub proof fn configured_forward_and_back_cancel(
    c: ControllerModel,
    m: crate::fighter_action_map::ActionMapModel,
    inputs: Seq<Seq<char>>,
)
    requires
        forall|i: int| 0 <= i < m.actions.len() ==> #[trigger] m.actions[i].name != "forward"@ && m.actions[i].name != "back"@,
        forall|i: int|
            0 <= i < m.composite_actions.len() ==> #[trigger] m.composite_actions[i].name != "forward"@
                && m.composite_actions[i].name != "back"@,
    ensures
        forward_back_bound(configured(c, m)),
        input_of(configured(c, m), "forward"@) == m.forward,
        input_of(configured(c, m), "back"@) == m.back,
        ({
            let d = configured(c, m);
            let p = process_upto(d, inputs, d.actions.len());
            !(lookup(p.actions, "forward"@).unwrap().pressed && lookup(p.actions, "back"@).unwrap().pressed)
        }),
{
    let ct = FrameFighter::CHARGE_IMMEDIATE;
    let c1 = with_direction_actions(c, m.up, m.down, m.forward, m.back, ct);
    let c2 = with_direction_opposites(c1, m.up, m.down, m.forward, m.back);
    let w = with_directions(c, m.up, m.down, m.forward, m.back, ct);
    lemma_bound_direction_lookups(c, m.up, m.down, m.forward, m.back, ct);
    assert(c2.actions == w.actions);
    assert(c2.opposites == w.opposites);
    let ca = crate::fighter_input::with_custom_actions(c2, m.actions);
    let cc = crate::fighter_input::with_custom_composites(ca, m.composite_actions);
    assert forall|i: int| 0 <= i < m.actions.len() implies #[trigger] m.actions[i].name != "forward"@ by {}
    assert forall|i: int| 0 <= i < m.actions.len() implies #[trigger] m.actions[i].name != "back"@ by {}
    assert forall|i: int| 0 <= i < m.composite_actions.len() implies #[trigger] m.composite_actions[i].name != "forward"@ by {}
    assert forall|i: int| 0 <= i < m.composite_actions.len() implies #[trigger] m.composite_actions[i].name != "back"@ by {}
    lemma_custom_actions_keep(c2, m.actions, "forward"@);
    lemma_custom_actions_keep(c2, m.actions, "back"@);
    lemma_custom_composites_keep(ca, m.composite_actions, "forward"@);
    lemma_custom_composites_keep(ca, m.composite_actions, "back"@);
    let cm = with_charge_map(cc);
    lemma_dependencies_keep_inputs(cm, "forward"@);
    lemma_dependencies_keep_inputs(cm, "back"@);
    assert(configured(c, m) == with_dependencies(cm));
    forward_and_back_never_both_pressed(configured(c, m), inputs);
}


/// Move model `m` has, field by field, what the move list's move `f`
/// describes: its sequence reversed (last step first), its neutrals and
/// charge requirements, its charge frames and its priority.
pub open spec fn built_from(m: crate::models::move_def::MoveModel, f: crate::fighter_move_list::FighterMoveModel) -> bool {
    &&& m.steps == f.sequence.reverse()
    &&& m.require_neutrals == f.require_neutrals
    &&& m.require_charge == f.require_charge
    &&& m.charge_frames == f.charge_frames
    &&& m.priority == f.priority
}

/// Entry `x` of the moves after adding `s` to `e` was there before, or
/// carries the name and the fields of a move of `s`.
pub open spec fn from_list_or_before(
    x: (Seq<char>, crate::models::move_def::MoveModel),
    e: Seq<(Seq<char>, crate::models::move_def::MoveModel)>,
    s: Seq<crate::fighter_move_list::FighterMoveModel>,
) -> bool {
    ||| exists|j: int| 0 <= j < e.len() && x == #[trigger] e[j]
    ||| exists|k: int| 0 <= k < s.len() && x.0 == #[trigger] s[k].name && built_from(x.1, s[k])
}

/// Every move after adding a move list was there before or is built from a
/// move of the list.
proof fn lemma_with_moves_entries(
    e: Seq<(Seq<char>, crate::models::move_def::MoveModel)>,
    s: Seq<crate::fighter_move_list::FighterMoveModel>,
)
    ensures
        forall|i: int|
            0 <= i < crate::fighter_input::with_moves(e, s).len() ==> from_list_or_before(
                #[trigger] crate::fighter_input::with_moves(e, s)[i],
                e,
                s,
            ),
    decreases s.len(),
{
    if s.len() > 0 {
        let t = s.drop_last();
        lemma_with_moves_entries(e, t);
        let w = crate::fighter_input::with_moves(e, t);
        let f = s[s.len() - 1];
        assert(s.last() == f);
        lemma_key_index(w, f.name);
        let r = crate::fighter_input::with_moves(e, s);
        assert forall|i: int| 0 <= i < r.len() implies from_list_or_before(#[trigger] r[i], e, s) by {
            if i < w.len() && r[i] == w[i] {
                assert(from_list_or_before(w[i], e, t));
                if exists|k: int| 0 <= k < t.len() && w[i].0 == #[trigger] t[k].name && built_from(w[i].1, t[k]) {
                    let k = choose|k: int| 0 <= k < t.len() && w[i].0 == #[trigger] t[k].name && built_from(w[i].1, t[k]);
                    assert(t[k] == s[k]);
                }
            } else {
                assert(r[i].0 == s[s.len() - 1].name);
                assert(built_from(r[i].1, s[s.len() - 1]));
            }
        }
    }
}

/// Binding a move list: every move of the matcher, once ordered longest
/// first, was there before or carries the name, the sequence (reversed),
/// the neutrals and charge requirements, the charge frames and the priority
/// of a move of the list.
pub proof fn bound_moves_carry_their_fields(
    before: Seq<(Seq<char>, crate::models::move_def::MoveModel)>,
    list: Seq<crate::fighter_move_list::FighterMoveModel>,
    after: Seq<(Seq<char>, crate::models::move_def::MoveModel)>,
)
    requires
        crate::move_matcher::models_longest_first(crate::fighter_input::with_moves(before, list), after),
    ensures
        forall|i: int| 0 <= i < after.len() ==> from_list_or_before(#[trigger] after[i], before, list),
{
    let w = crate::fighter_input::with_moves(before, list);
    lemma_with_moves_entries(before, list);
    let perm = choose|perm: Seq<int>| #[trigger] crate::move_matcher::models_longest_first_by(w, after, perm);
    assert forall|i: int| 0 <= i < after.len() implies from_list_or_before(#[trigger] after[i], before, list) by {
        assert(after[i] == w[perm[i]]);
        assert(from_list_or_before(w[perm[i]], before, list));
    }
}

/// Binding a move list: the move last listed under a name is the one the
/// matcher holds under that name, with all of its fields.
pub proof fn bound_move_found_by_name(
    e: Seq<(Seq<char>, crate::models::move_def::MoveModel)>,
    s: Seq<crate::fighter_move_list::FighterMoveModel>,
    k: int,
)
    requires
        0 <= k < s.len(),
        forall|j: int| k < j < s.len() ==> #[trigger] s[j].name != s[k].name,
    ensures
        lookup(crate::fighter_input::with_moves(e, s), s[k].name) is Some,
        built_from(lookup(crate::fighter_input::with_moves(e, s), s[k].name).unwrap(), s[k]),
    decreases s.len(),
{
    let t = s.drop_last();
    let f = s[s.len() - 1];
    assert(s.last() == f);
    let w = crate::fighter_input::with_moves(e, t);
    lemma_lookup_insert(w, f.name, crate::fighter_input::move_of(f), s[k].name);
    if k < s.len() - 1 {
        assert forall|j: int| k < j < t.len() implies #[trigger] t[j].name != t[k].name by {
            assert(t[j] == s[j]);
        }
        assert(t[k] == s[k]);
        bound_move_found_by_name(e, t, k);
    }
}

} // verus!
