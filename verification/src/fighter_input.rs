//! The input processor of one fighter: evaluates the actions of each frame,
//! records them in the input history and matches the history against the
//! move list.

use vstd::prelude::*;
use crate::frame_fighter::FrameFighter;
use crate::keyed::insert_key;
use crate::text::{names, copy_string, copy_names, copy_numbers, join_with, join_strings, decimal, u32_to_string};
use vstd::string::StringExecFns;
use crate::indexed::move_entries;
use crate::action_controller::{
    ActionController, ControllerModel, with_basic, with_composite, with_direction_actions,
    with_direction_opposites, with_charge_map, with_dependencies, process_upto, charge_keys_complete, frame_of, with_side,
};
use crate::input_history::{InputHistory, history_after, same_as_newest};
use crate::move_matcher::{
    MoveMatcher, mmodels, models_longest_first, lemma_mmodels_sorted, found_moves, stripped_after, matching_in_bounds,
};
use crate::fighter_history::FighterHistoryItem;
use crate::fighter_action_map::{FighterActionMap, FighterActionModel, FighterCompositeModel, ActionMapModel};
use crate::fighter_move_list::{FighterMoveList, FighterMoveModel, FighterSequenceStep};
use crate::models::frame_input_state::{FrameInputState, FrameModel};
use crate::models::history_item::{HistoryModel, hviews};
use crate::models::move_def::{MatchedMove, MoveModel, mviews, sort_by_priority, step_views};
use crate::models::sequence_step::{SequenceStep, StepModel};

verus! {

/// The controller after adding the custom basic actions, in order.
pub open spec fn with_custom_actions(c: ControllerModel, s: Seq<FighterActionModel>) -> ControllerModel
    decreases s.len(),
{
    if s.len() == 0 {
        c
    } else {
        with_basic(with_custom_actions(c, s.drop_last()), s.last().name, s.last().input_action, s.last().charge_type as u32)
    }
}

/// The controller after adding the custom composite actions, in order.
pub open spec fn with_custom_composites(c: ControllerModel, s: Seq<FighterCompositeModel>) -> ControllerModel
    decreases s.len(),
{
    if s.len() == 0 {
        c
    } else {
        with_composite(
            with_custom_composites(c, s.drop_last()),
            s.last().name,
            s.last().dependencies,
            s.last().charge_type as u32,
            s.last().require_all,
        )
    }
}

/// The controller configured from an action map: the directions (charged
/// immediately) and diagonals, their opposites, the custom basic and
/// composite actions, then the charge counters and the dependencies.
pub open spec fn configured(c: ControllerModel, m: ActionMapModel) -> ControllerModel {
    let c1 = with_direction_actions(c, m.up, m.down, m.forward, m.back, FrameFighter::CHARGE_IMMEDIATE);
    let c2 = with_direction_opposites(c1, m.up, m.down, m.forward, m.back);
    let c3 = with_custom_composites(with_custom_actions(c2, m.actions), m.composite_actions);
    with_dependencies(with_charge_map(c3))
}

/// The model of the move described by `m`.
pub open spec fn move_of(m: FighterMoveModel) -> MoveModel {
    MoveModel {
        steps: m.sequence.reverse(),
        require_neutrals: m.require_neutrals,
        require_charge: m.require_charge,
        charge_frames: m.charge_frames,
        priority: m.priority,
    }
}

/// The moves after adding those of `s`, in order.
pub open spec fn with_moves(e: Seq<(Seq<char>, MoveModel)>, s: Seq<FighterMoveModel>) -> Seq<(Seq<char>, MoveModel)>
    decreases s.len(),
{
    if s.len() == 0 {
        e
    } else {
        insert_key(with_moves(e, s.drop_last()), s.last().name, move_of(s.last()))
    }
}

/// The controller on a frame: switched to the fighter's side, charging as
/// the fighter allows, every action evaluated for the pressed inputs.
pub open spec fn controller_after(c: ControllerModel, side: u32, can_charge: bool, inputs: Seq<Seq<char>>) -> ControllerModel {
    let d = ControllerModel { can_charge, ..with_side(c, side) };
    process_upto(d, inputs, d.actions.len())
}

/// A frame runs without failing: every charged action has a counter, no
/// frame count overflows and matching stays inside the history.
pub open spec fn frame_succeeds(f: FighterInput, inputs: Seq<Seq<char>>) -> bool {
    let c = ControllerModel { can_charge: f.can_charge, ..with_side(f.action_controller@, f.side) };
    let st = frame_of(controller_after(f.action_controller@, f.side, f.can_charge, inputs));
    let h = hviews(f.input_history.entries@);
    let b = hviews(f.move_matcher.buffer@);
    let s = hviews(f.move_matcher.buffer_stripped@);
    &&& charge_keys_complete(c)
    &&& same_as_newest(h, st) ==> h[0].frames < u32::MAX
    &&& same_as_newest(b, st) ==> b[0].frames < u32::MAX && (s.len() > 0 ==> s[0].frames < u32::MAX)
    &&& matching_in_bounds(
        move_entries(f.move_matcher.moves),
        history_after(b, f.move_matcher.size, f.move_matcher.max_frames, st),
        stripped_after(b, s, f.move_matcher.size, f.move_matcher.max_frames, st),
    )
}

/// The item shown for a history: its newest entry, or the neutral item.
pub open spec fn shown_item(h: Seq<HistoryModel>) -> crate::fighter_history::FighterHistoryModel {
    if h.len() > 0 {
        FighterHistoryItem::spec_from(h[0])
    } else {
        FighterHistoryItem::default_model()
    }
}

/// The charge counters as they are printed.
pub open spec fn charge_text(c: Seq<(Seq<char>, u32)>) -> Seq<char>
    decreases c.len(),
{
    if c.len() == 0 {
        Seq::empty()
    } else {
        charge_text(c.drop_last()) + c.last().0 + ": "@ + decimal(c.last().1 as nat) + ", "@
    }
}

/// The state of a frame as it is printed.
pub open spec fn state_text(st: FrameModel) -> Seq<char> {
    "\n \nMovement: "@ + st.movement + "\nBasic: [ "@ + join_with(st.basic_actions, ", "@) + " ] - Composite: [ "@
        + join_with(st.composite_actions, ", "@) + " ]\n"@ + "Charge: { "@ + charge_text(st.charge) + "}"@
}

/// The input history holds at most as many entries as its size allows.
pub open spec fn history_within_size(f: FighterInput) -> bool {
    f.input_history.entries@.len() <= f.input_history.size
}

/// The input processor of one fighter.
pub struct FighterInput {
    pub history_size: u32,
    pub history_frames: u32,
    pub action_map: Option<FighterActionMap>,
    pub move_list: Option<FighterMoveList>,
    pub frame_input_state: FrameInputState,
    pub side: u32,
    pub can_charge: bool,
    pub action_controller: ActionController,
    pub move_matcher: MoveMatcher,
    pub input_history: InputHistory,
}

impl FighterInput {
    /// A processor with a history of 20 entries counting up to 99 frames,
    /// no action map and no move list.
    pub fn new() -> (r: Self)
        ensures
            r.history_size == 20,
            r.history_frames == 99,
            r.action_map is None,
            r.move_list is None,
            r.side == 0,
            !r.can_charge,
            r.action_controller@.actions.len() == 0,
            r.input_history.entries@.len() == 0,
            history_within_size(r),
            move_entries(r.move_matcher.moves).len() == 0,
    {
        FighterInput {
            history_size: 20,
            history_frames: 99,
            action_map: None,
            move_list: None,
            frame_input_state: FrameInputState::new(String::new(), Vec::new(), Vec::new(), Vec::new()),
            side: 0,
            can_charge: false,
            action_controller: ActionController::new(),
            move_matcher: MoveMatcher::new(),
            input_history: InputHistory::new(),
        }
    }

    /// Sets the player side.
    pub fn set_side(&mut self, side: u32)
        ensures
            final(self).side == side,
            final(self).can_charge == old(self).can_charge,
            final(self).action_controller == old(self).action_controller,
            final(self).move_matcher == old(self).move_matcher,
            final(self).input_history == old(self).input_history,
    {
        self.side = side;
    }

    /// Sets whether actions can be charged.
    pub fn set_can_charge(&mut self, can_charge: bool)
        ensures
            final(self).can_charge == can_charge,
            final(self).side == old(self).side,
            final(self).action_controller == old(self).action_controller,
            final(self).move_matcher == old(self).move_matcher,
            final(self).input_history == old(self).input_history,
    {
        self.can_charge = can_charge;
    }

    /// Binds the actions of the action map to the controller. Returns false,
    /// changing nothing, when there is no action map.
    pub fn setup_action_controller(&mut self) -> (r: bool)
        ensures
            r == old(self).action_map is Some,
            r ==> final(self).action_controller@ == configured(old(self).action_controller@, old(self).action_map.unwrap()@),
            !r ==> final(self).action_controller == old(self).action_controller,
            final(self).action_map == old(self).action_map,
            final(self).move_list == old(self).move_list,
            final(self).move_matcher == old(self).move_matcher,
            final(self).input_history == old(self).input_history,
            final(self).side == old(self).side,
            final(self).can_charge == old(self).can_charge,
    {
        match &self.action_map {
            Some(map) => {
                let ghost c0 = self.action_controller@;
                let ghost m = map@;
                let controller = &mut self.action_controller;
                controller.add("up".to_owned(), copy_string(&map.up), FrameFighter::CHARGE_IMMEDIATE);
                controller.add("down".to_owned(), copy_string(&map.down), FrameFighter::CHARGE_IMMEDIATE);
                controller.add("forward".to_owned(), copy_string(&map.forward), FrameFighter::CHARGE_IMMEDIATE);
                controller.add("back".to_owned(), copy_string(&map.back), FrameFighter::CHARGE_IMMEDIATE);

                let d1 = vec!["up".to_owned(), "forward".to_owned()];
                assert(names(d1@) =~= seq!["up"@, "forward"@]);
                controller.add_composite("up_forward".to_owned(), d1, FrameFighter::CHARGE_NONE, true);
                let d2 = vec!["down".to_owned(), "forward".to_owned()];
                assert(names(d2@) =~= seq!["down"@, "forward"@]);
                controller.add_composite("down_forward".to_owned(), d2, FrameFighter::CHARGE_NONE, true);
                let d3 = vec!["up".to_owned(), "back".to_owned()];
                assert(names(d3@) =~= seq!["up"@, "back"@]);
                controller.add_composite("up_back".to_owned(), d3, FrameFighter::CHARGE_NONE, true);
                let d4 = vec!["down".to_owned(), "back".to_owned()];
                assert(names(d4@) =~= seq!["down"@, "back"@]);
                controller.add_composite("down_back".to_owned(), d4, FrameFighter::CHARGE_NONE, true);

                controller.build_opposite_tuple("up".to_owned(), "down".to_owned(), copy_string(&map.down));
                controller.build_opposite_tuple("down".to_owned(), "up".to_owned(), copy_string(&map.up));
                controller.build_opposite_tuple("back".to_owned(), "forward".to_owned(), copy_string(&map.forward));
                controller.build_opposite_tuple("forward".to_owned(), "back".to_owned(), copy_string(&map.back));

                let ghost c2 = controller@;
                let mut i: usize = 0;
                while i < map.actions.len()
                    invariant
                        i <= map.actions.len(),
                        m == map@,
                        controller@ == with_custom_actions(c2, m.actions.take(i as int)),
                    decreases map.actions.len() - i,
                {
                    assert(m.actions.take(i + 1).drop_last() =~= m.actions.take(i as int));
                    assert(m.actions.take(i + 1).last() == map.actions@[i as int]@);
                    let action = &map.actions[i];
                    controller.add(copy_string(&action.name), copy_string(&action.input_action), action.charge_type as u32);
                    i += 1;
                }
                assert(m.actions.take(i as int) =~= m.actions);
                let ghost c3 = controller@;
                let mut j: usize = 0;
                while j < map.composite_actions.len()
                    invariant
                        j <= map.composite_actions.len(),
                        m == map@,
                        controller@ == with_custom_composites(c3, m.composite_actions.take(j as int)),
                    decreases map.composite_actions.len() - j,
                {
                    assert(m.composite_actions.take(j + 1).drop_last() =~= m.composite_actions.take(j as int));
                    assert(m.composite_actions.take(j + 1).last() == map.composite_actions@[j as int]@);
                    let action = &map.composite_actions[j];
                    controller.add_composite(
                        copy_string(&action.name),
                        copy_names(&action.dependencies),
                        action.charge_type as u32,
                        action.require_all,
                    );
                    j += 1;
                }
                assert(m.composite_actions.take(j as int) =~= m.composite_actions);
                controller.build_charge_map();
                controller.build_dependency_map();
                true
            },
            None => false,
        }
    }

    /// Adds the moves of the move list to the matcher and orders them longest
    /// first. Returns false, changing nothing, when there is no move list.
    pub fn setup_move_matcher(&mut self) -> (r: bool)
        ensures
            r == old(self).move_list is Some,
            r ==> models_longest_first(
                with_moves(mmodels(move_entries(old(self).move_matcher.moves)), old(self).move_list.unwrap()@.moves),
                mmodels(move_entries(final(self).move_matcher.moves)),
            ),
            r ==> final(self).move_matcher.buffer == old(self).move_matcher.buffer
                && final(self).move_matcher.buffer_stripped == old(self).move_matcher.buffer_stripped
                && final(self).move_matcher.size == old(self).move_matcher.size
                && final(self).move_matcher.max_frames == old(self).move_matcher.max_frames
                && final(self).move_matcher.matched_moves == old(self).move_matcher.matched_moves,
            !r ==> final(self).move_matcher == old(self).move_matcher,
            final(self).move_list == old(self).move_list,
            final(self).action_map == old(self).action_map,
            final(self).action_controller == old(self).action_controller,
            final(self).input_history == old(self).input_history,
    {
        match &self.move_list {
            Some(list) => {
                let ghost l = list@;
                let ghost e0 = mmodels(move_entries(self.move_matcher.moves));
                let matcher = &mut self.move_matcher;
                let ghost b0 = matcher.buffer;
                let ghost s0 = matcher.buffer_stripped;
                let ghost z0 = matcher.size;
                let ghost x0 = matcher.max_frames;
                let ghost mm0 = matcher.matched_moves;
                let mut i: usize = 0;
                while i < list.moves.len()
                    invariant
                        i <= list.moves.len(),
                        l == list@,
                        mmodels(move_entries(matcher.moves)) == with_moves(e0, l.moves.take(i as int)),
                        matcher.buffer == b0,
                        matcher.buffer_stripped == s0,
                        matcher.size == z0,
                        matcher.max_frames == x0,
                        matcher.matched_moves == mm0,
                    decreases list.moves.len() - i,
                {
                    assert(l.moves.take(i + 1).drop_last() =~= l.moves.take(i as int));
                    assert(l.moves.take(i + 1).last() == list.moves@[i as int]@);
                    let fighter_move = &list.moves[i];
                    let mut steps: Vec<SequenceStep> = Vec::new();
                    let mut k: usize = 0;
                    while k < fighter_move.sequence.len()
                        invariant
                            k <= fighter_move.sequence.len(),
                            step_views(steps@) == fighter_move@.sequence.take(k as int),
                        decreases fighter_move.sequence.len() - k,
                    {
                        let s = &fighter_move.sequence[k];
                        let ghost before = steps@;
                        steps.push(
                            SequenceStep::new(copy_string(&s.movement), copy_names(&s.actions), s.input_window, copy_numbers(&s.modifiers)),
                        );
                        assert(step_views(steps@) =~= step_views(before).push(s@));
                        assert(fighter_move@.sequence.take(k + 1) =~= fighter_move@.sequence.take(k as int).push(s@));
                        k += 1;
                    }
                    assert(fighter_move@.sequence.take(k as int) =~= fighter_move@.sequence);
                    matcher.add_move(
                        copy_string(&fighter_move.name),
                        steps,
                        fighter_move.require_neutrals,
                        fighter_move.require_charge,
                        fighter_move.charge_frames,
                        fighter_move.priority,
                    );
                    i += 1;
                }
                assert(l.moves.take(i as int) =~= l.moves);
                let ghost before = move_entries(matcher.moves);
                matcher.sort_moves();
                proof {
                    lemma_mmodels_sorted(before, move_entries(matcher.moves));
                }
                true
            },
            None => false,
        }
    }

    /// Applies the history settings and binds the action map and the move
    /// list. Returns whether each of them was there.
    pub fn ready(&mut self) -> (r: (bool, bool))
        ensures
            r.0 == old(self).action_map is Some,
            r.1 == old(self).move_list is Some,
            final(self).input_history.size == old(self).history_size as usize,
            final(self).input_history.max_frames == old(self).history_frames,
            final(self).move_matcher.size == old(self).history_size as usize,
            final(self).move_matcher.max_frames == old(self).history_frames,
            final(self).input_history.entries == old(self).input_history.entries,
            old(self).input_history.entries@.len() <= old(self).history_size ==> history_within_size(*final(self)),
            r.0 ==> final(self).action_controller@ == configured(old(self).action_controller@, old(self).action_map.unwrap()@),
            !r.0 ==> final(self).action_controller == old(self).action_controller,
            r.1 ==> models_longest_first(
                with_moves(mmodels(move_entries(old(self).move_matcher.moves)), old(self).move_list.unwrap()@.moves),
                mmodels(move_entries(final(self).move_matcher.moves)),
            ),
            !r.1 ==> final(self).move_matcher.moves == old(self).move_matcher.moves,
            final(self).move_matcher.buffer == old(self).move_matcher.buffer,
            final(self).move_matcher.buffer_stripped == old(self).move_matcher.buffer_stripped,
    {
        let size = self.history_size as usize;
        self.input_history.set_size(size);
        self.move_matcher.set_size(size);
        self.input_history.set_max_frames(self.history_frames);
        self.move_matcher.set_max_frames(self.history_frames);
        let a = self.setup_action_controller();
        let m = self.setup_move_matcher();
        (a, m)
    }

    /// Evaluates the current frame, for the inputs named in `pressed_inputs`,
    /// records it and matches the moves. Returns the item for the current
    /// frame, or `None` when the frame cannot run: a charged action without a
    /// counter, a frame count that would overflow, or matching that would
    /// read past the end of the history.
    pub fn process_frame(&mut self, pressed_inputs: &Vec<String>) -> (r: Option<FighterHistoryItem>)
        ensures
            r is Some <==> frame_succeeds(*old(self), names(pressed_inputs@)),
            r is Some ==> {
                let c = controller_after(old(self).action_controller@, old(self).side, old(self).can_charge, names(pressed_inputs@));
                let st = frame_of(c);
                let h = history_after(
                    hviews(old(self).input_history.entries@),
                    old(self).input_history.size,
                    old(self).input_history.max_frames,
                    st,
                );
                let b = history_after(
                    hviews(old(self).move_matcher.buffer@),
                    old(self).move_matcher.size,
                    old(self).move_matcher.max_frames,
                    st,
                );
                let s = stripped_after(
                    hviews(old(self).move_matcher.buffer@),
                    hviews(old(self).move_matcher.buffer_stripped@),
                    old(self).move_matcher.size,
                    old(self).move_matcher.max_frames,
                    st,
                );
                let found = found_moves(move_entries(old(self).move_matcher.moves), b, s);
                &&& final(self).action_controller@ == c
                &&& final(self).frame_input_state@ == st
                &&& hviews(final(self).input_history.entries@) == h
                &&& mviews(final(self).move_matcher.matched_moves@) == sort_by_priority(found)
                &&& found.len() > 0 ==> final(self).move_matcher.buffer@.len() == 0
                    && final(self).move_matcher.buffer_stripped@.len() == 0
                &&& found.len() == 0 ==> hviews(final(self).move_matcher.buffer@) == b
                    && hviews(final(self).move_matcher.buffer_stripped@) == s
                &&& final(self).move_matcher.moves == old(self).move_matcher.moves
                &&& r.unwrap()@ == shown_item(h)
            },
            final(self).side == old(self).side,
            final(self).can_charge == old(self).can_charge,
            history_within_size(*old(self)) ==> history_within_size(*final(self)),
    {
        self.action_controller.handle_side(self.side);
        self.action_controller.should_charge(self.can_charge);
        if !self.action_controller.has_charge_keys() {
            return None;
        }
        self.action_controller.process_current_frame(pressed_inputs);
        self.frame_input_state = self.action_controller.frame_input_state();
        if !self.input_history.can_add(&self.frame_input_state) {
            return None;
        }
        let ghost before = hviews(old(self).input_history.entries@);
        self.input_history.add(&self.frame_input_state);
        assert(hviews(self.input_history.entries@).len() == self.input_history.entries@.len());
        assert(before.len() == old(self).input_history.entries@.len());
        if !self.move_matcher.can_add_buffer_entry(&self.frame_input_state) {
            return None;
        }
        self.move_matcher.add_buffer_entry(&self.frame_input_state);
        if !self.move_matcher.can_process_frame() {
            return None;
        }
        self.move_matcher.process_frame();
        Some(self.input_history.pressed_actions_for_godot())
    }

    /// The state of the current frame as text, for logging.
    pub fn log_input_state(&self) -> (r: String)
        ensures
            r@ == state_text(self.frame_input_state@),
    {
        let st = &self.frame_input_state;
        let mut log_string = String::new();
        log_string.append("\n \nMovement: ");
        log_string.append(st.movement.as_str());
        log_string.append("\nBasic: [ ");
        let basic = join_strings(&st.basic_actions, ", ");
        log_string.append(basic.as_str());
        log_string.append(" ] - Composite: [ ");
        let composite = join_strings(&st.composite_actions, ", ");
        log_string.append(composite.as_str());
        log_string.append(" ]\n");
        log_string.append("Charge: { ");
        let ghost prefix = log_string@;
        let ghost c = st@.charge;
        let mut i: usize = 0;
        while i < st.charge.len()
            invariant
                i <= st.charge.len(),
                c == st@.charge,
                log_string@ == prefix + charge_text(c.take(i as int)),
            decreases st.charge.len() - i,
        {
            assert(c.take(i + 1).drop_last() =~= c.take(i as int));
            assert(c.take(i + 1).last() == (st.charge@[i as int].0@, st.charge@[i as int].1));
            log_string.append(st.charge[i].0.as_str());
            log_string.append(": ");
            let n = u32_to_string(st.charge[i].1);
            log_string.append(n.as_str());
            log_string.append(", ");
            assert(log_string@ =~= prefix + charge_text(c.take(i + 1)));
            i += 1;
        }
        assert(c.take(i as int) =~= c);
        log_string.append("}");
        assert(log_string@ =~= state_text(self.frame_input_state@));
        log_string
    }

    /// The input history, newest first.
    pub fn history(&self) -> (r: Vec<FighterHistoryItem>)
        ensures
            r@.len() == self.input_history.entries@.len(),
            history_within_size(*self) ==> r@.len() <= self.input_history.size,
            forall|i: int| 0 <= i < r@.len() ==> #[trigger] r@[i]@ == FighterHistoryItem::spec_from(self.input_history.entries@[i]@),
    {
        self.input_history.to_godot()
    }

    /// The item for the current frame.
    pub fn pressed_actions(&self) -> (r: FighterHistoryItem)
        ensures
            r@ == shown_item(hviews(self.input_history.entries@)),
    {
        self.input_history.pressed_actions_for_godot()
    }

    /// The moves matched on the current frame, lowest priority number first.
    pub fn matched_moves(&self) -> (r: &Vec<MatchedMove>)
        ensures
            r@ == self.move_matcher.matched_moves@,
    {
        self.move_matcher.matched_moves_for_godot()
    }
}

} // verus!
