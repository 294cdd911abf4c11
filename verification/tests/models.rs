use frame_fighter::fighter_history::FighterHistoryItem;
use frame_fighter::frame_fighter::FrameFighter;
use frame_fighter::models::action::{Action, ActionType};
use frame_fighter::models::frame_input_state::FrameInputState;
use frame_fighter::models::history_item::HistoryItem;
use frame_fighter::models::move_def::Move;
use frame_fighter::models::sequence_step::SequenceStep;

fn s(x: &str) -> String {
    x.to_string()
}

fn v(xs: &[&str]) -> Vec<String> {
    xs.iter().map(|x| x.to_string()).collect()
}

#[test]
fn movement_names_are_recognised() {
    for name in ["up", "down", "back", "forward", "up_forward", "up_back", "down_forward", "down_back"] {
        assert!(FrameFighter::is_movement(name));
    }
    assert!(!FrameFighter::is_movement("neutral"));
    assert!(!FrameFighter::is_movement("lp"));
    assert!(!FrameFighter::is_movement("Up"));
    assert!(!FrameFighter::is_movement(""));
}

#[test]
fn cardinal_names_are_recognised() {
    for name in ["up", "down", "back", "forward"] {
        assert!(FrameFighter::is_cardinal(name));
        assert!(FrameFighter::is_movement(name));
    }
    for name in ["up_forward", "up_back", "down_forward", "down_back", "neutral", "lp"] {
        assert!(!FrameFighter::is_cardinal(name));
    }
}

#[test]
fn expected_ender_for_each_transition() {
    assert_eq!(FrameFighter::expected_ender("down", "down_forward"), "forward");
    assert_eq!(FrameFighter::expected_ender("down", "down_back"), "back");
    assert_eq!(FrameFighter::expected_ender("up", "up_forward"), "forward");
    assert_eq!(FrameFighter::expected_ender("up", "up_back"), "back");
    assert_eq!(FrameFighter::expected_ender("forward", "down_forward"), "down");
    assert_eq!(FrameFighter::expected_ender("forward", "up_forward"), "up");
    assert_eq!(FrameFighter::expected_ender("back", "down_back"), "down");
    assert_eq!(FrameFighter::expected_ender("back", "up_back"), "up");
    assert_eq!(FrameFighter::expected_ender("down_forward", "down"), "neutral");
    assert_eq!(FrameFighter::expected_ender("up", "down_forward"), "neutral");
    assert_eq!(FrameFighter::expected_ender("", ""), "neutral");
}

#[test]
fn constants_have_their_values() {
    assert_eq!(FrameFighter::PLAYER_ONE, 1);
    assert_eq!(FrameFighter::PLAYER_TWO, 2);
    assert_eq!(FrameFighter::LENIENT_ENDER, 1);
    assert_eq!(FrameFighter::IGNORE_DIAGONAL, 2);
    assert_eq!(FrameFighter::CHARGE_NONE, 0);
    assert_eq!(FrameFighter::CHARGE_IMMEDIATE, 1);
    assert_eq!(FrameFighter::CHARGE_TICK, 2);
}

#[test]
fn basic_action_starts_unpressed() {
    let a = Action::basic(s("ui_accept"), 2);
    assert!(!a.pressed);
    assert_eq!(a.charge_type, 2);
    match a.action_type {
        ActionType::Basic { input_action, is_dependency } => {
            assert_eq!(input_action, "ui_accept");
            assert!(!is_dependency);
        }
        ActionType::Composite { .. } => panic!("expected a basic action"),
    }
}

#[test]
fn composite_action_keeps_dependencies() {
    let a = Action::composite(v(&["lp", "mp", "hp"]), 0, false);
    assert!(!a.pressed);
    assert_eq!(a.charge_type, 0);
    match a.action_type {
        ActionType::Composite { dependencies, require_all } => {
            assert_eq!(dependencies, v(&["lp", "mp", "hp"]));
            assert!(!require_all);
        }
        ActionType::Basic { .. } => panic!("expected a composite action"),
    }
}

#[test]
fn frame_state_signature_joins_names() {
    let st = FrameInputState::new(s("down_forward"), v(&["lp", "mk"]), v(&["ex"]), vec![(s("down"), 3)]);
    assert_eq!(st.movement, "down_forward");
    assert_eq!(st.basic_actions, v(&["lp", "mk"]));
    assert_eq!(st.composite_actions, v(&["ex"]));
    assert_eq!(st.charge, vec![(s("down"), 3)]);
    assert_eq!(st.all, "down_forward,lp,mk,ex");
    let neutral = FrameInputState::new(s("neutral"), vec![], vec![], vec![]);
    assert_eq!(neutral.all, "neutral");
}

#[test]
fn history_item_is_held_for_one_frame() {
    let h = HistoryItem::new(s("down"), v(&["lp"]), vec![], s("down,lp"), vec![(s("down"), 7)]);
    assert_eq!(h.frames, 1);
    assert_eq!(h.movement, "down");
    assert_eq!(h.basic_actions, v(&["lp"]));
    assert!(h.composite_actions.is_empty());
    assert_eq!(h.all, "down,lp");
    assert_eq!(h.charge, vec![(s("down"), 7)]);
    let c = h.copy();
    assert_eq!(c.movement, h.movement);
    assert_eq!(c.frames, h.frames);
    assert_eq!(c.charge, h.charge);
}

#[test]
fn sequence_step_keeps_parts() {
    let st = SequenceStep::new(s("forward"), v(&["lp"]), 8, vec![1]);
    assert_eq!(st.movement, "forward");
    assert_eq!(st.actions, v(&["lp"]));
    assert_eq!(st.input_window, 8);
    assert_eq!(st.modifiers, vec![1]);
}

#[test]
fn move_stores_sequence_reversed() {
    let seq = vec![
        SequenceStep::new(s("down"), vec![], 10, vec![]),
        SequenceStep::new(s("down_forward"), vec![], 10, vec![]),
        SequenceStep::new(s("forward"), v(&["lp"]), 10, vec![]),
    ];
    let m = Move::new(seq, true, false, 0, 3);
    let names: Vec<&str> = m.reversed_sequence.iter().map(|x| x.movement.as_str()).collect();
    assert_eq!(names, vec!["forward", "down_forward", "down"]);
    assert!(m.require_neutrals);
    assert!(!m.require_charge);
    assert_eq!(m.charge_frames, 0);
    assert_eq!(m.priority, 3);
    let empty = Move::new(vec![], false, true, 30, -1);
    assert!(empty.reversed_sequence.is_empty());
    assert_eq!(empty.priority, -1);
}

#[test]
fn history_item_for_engine_reports_pressed_actions() {
    let h = HistoryItem::new(s("down"), v(&["lp"]), v(&["ex"]), s("down,lp,ex"), vec![(s("down"), 12), (s("back"), 0)]);
    let item = h.to_godot();
    assert_eq!(item.frames, 1);
    assert_eq!(item.movement, "down");
    assert!(item.is_pressed("down"));
    assert!(item.is_pressed("lp"));
    assert!(item.is_pressed("ex"));
    assert!(!item.is_pressed("mp"));
    assert!(!item.is_pressed("neutral"));
    assert_eq!(item.get_charge_frames("down"), 12);
    assert_eq!(item.get_charge_frames("back"), 0);
    assert_eq!(item.get_charge_frames("up"), 0);
}

#[test]
fn history_item_charge_keeps_last_value_of_a_name() {
    let h = HistoryItem::new(s("neutral"), vec![], vec![], s("neutral"), vec![(s("down"), 1), (s("up"), 4), (s("down"), 9)]);
    let item = FighterHistoryItem::new(&h);
    assert_eq!(item.charge, vec![(s("down"), 9), (s("up"), 4)]);
    assert_eq!(item.get_charge_frames("down"), 9);
}

#[test]
fn default_history_item_is_neutral() {
    let item = FighterHistoryItem::default();
    assert_eq!(item.frames, 1);
    assert_eq!(item.movement, "neutral");
    assert!(item.basic_actions.is_empty());
    assert!(item.composite_actions.is_empty());
    assert!(item.charge.is_empty());
    assert!(item.is_pressed("neutral"));
    assert_eq!(item.get_charge_frames("down"), 0);
}
