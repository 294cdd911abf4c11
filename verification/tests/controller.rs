use frame_fighter::action_controller::{ActionController, ActionType};
use frame_fighter::frame_fighter::FrameFighter;

fn v(xs: &[&str]) -> Vec<String> {
    xs.iter().map(|x| x.to_string()).collect()
}

fn directions() -> ActionController {
    let mut c = ActionController::new();
    c.bind_directions("ui_up".to_string(), "ui_down".to_string(), "ui_right".to_string(), "ui_left".to_string(), FrameFighter::CHARGE_IMMEDIATE);
    c.build_dependency_map();
    c
}

fn pressed(c: &ActionController, name: &str) -> bool {
    c.actions.get(name).map(|a| a.pressed).unwrap_or(false)
}

#[test]
fn new_controller_is_empty() {
    let c = ActionController::new();
    assert_eq!(c.side, FrameFighter::PLAYER_ONE);
    assert!(!c.can_charge);
    assert_eq!(c.actions.len(), 0);
    assert!(c.charge.is_empty());
    let d = ActionController::default();
    assert_eq!(d.side, FrameFighter::PLAYER_ONE);
}

#[test]
fn bind_directions_creates_actions_charge_and_opposites() {
    let c = directions();
    let names: Vec<&str> = c.actions.keys().map(|k| k.as_str()).collect();
    assert_eq!(names, vec!["up", "down", "forward", "back", "up_forward", "down_forward", "up_back", "down_back"]);
    let charge: Vec<&str> = c.charge.iter().map(|e| e.0.as_str()).collect();
    assert_eq!(charge, vec!["up", "down", "back", "forward"]);
    assert_eq!(c.opposites[0], ("up".to_string(), ("down".to_string(), "ui_down".to_string())));
    assert_eq!(c.opposites[3], ("forward".to_string(), ("back".to_string(), "ui_left".to_string())));
    assert_eq!(c.input_actions(), v(&["ui_up", "ui_down", "ui_right", "ui_left", "ui_down", "ui_up", "ui_right", "ui_left"]));
    for d in ["up", "down", "forward", "back"] {
        match &c.actions.get(d).unwrap().action_type {
            ActionType::Basic { is_dependency, .. } => assert!(*is_dependency),
            ActionType::Composite { .. } => panic!("direction is basic"),
        }
    }
    assert!(c.has_charge_keys());
}

#[test]
fn diagonal_is_pressed_from_its_directions() {
    let mut c = directions();
    c.process_current_frame(&v(&["ui_down", "ui_right"]));
    assert!(pressed(&c, "down"));
    assert!(pressed(&c, "forward"));
    assert!(pressed(&c, "down_forward"));
    assert!(!pressed(&c, "up_forward"));
    let st = c.frame_input_state();
    assert_eq!(st.movement, "down_forward");
    assert!(st.basic_actions.is_empty());
    assert!(st.composite_actions.is_empty());
    assert_eq!(st.all, "down_forward");
}

#[test]
fn opposite_directions_cancel() {
    let mut c = directions();
    c.process_current_frame(&v(&["ui_up", "ui_down"]));
    assert!(!pressed(&c, "up"));
    assert!(!pressed(&c, "down"));
    assert_eq!(c.frame_input_state().movement, "neutral");
    c.process_current_frame(&v(&["ui_left", "ui_right", "ui_up"]));
    assert!(!pressed(&c, "back"));
    assert!(!pressed(&c, "forward"));
    assert!(pressed(&c, "up"));
    assert_eq!(c.frame_input_state().movement, "up");
}

#[test]
fn charge_counts_only_when_allowed() {
    let mut c = directions();
    c.process_current_frame(&v(&["ui_down"]));
    assert_eq!(c.charge[1], ("down".to_string(), 0));
    c.should_charge(true);
    c.process_current_frame(&v(&["ui_down"]));
    c.process_current_frame(&v(&["ui_down"]));
    assert_eq!(c.charge[1], ("down".to_string(), 2));
    c.process_current_frame(&v(&[]));
    assert_eq!(c.charge[1], ("down".to_string(), 0));
    let st = c.frame_input_state();
    assert_eq!(st.charge, vec![("up".to_string(), 0), ("down".to_string(), 0), ("back".to_string(), 0), ("forward".to_string(), 0)]);
}

#[test]
fn ticking_charge_decreases_when_released() {
    let mut c = ActionController::new();
    c.add("hp".to_string(), "btn_hp".to_string(), FrameFighter::CHARGE_TICK);
    c.create_charge_key("hp".to_string());
    c.should_charge(true);
    c.process_current_frame(&v(&["btn_hp"]));
    c.process_current_frame(&v(&["btn_hp"]));
    c.process_current_frame(&v(&["btn_hp"]));
    assert_eq!(c.charge[0].1, 3);
    c.process_current_frame(&v(&[]));
    assert_eq!(c.charge[0].1, 2);
    c.process_current_frame(&v(&[]));
    c.process_current_frame(&v(&[]));
    c.process_current_frame(&v(&[]));
    assert_eq!(c.charge[0].1, 0);
}

#[test]
fn charge_is_capped() {
    let mut c = ActionController::new();
    c.add("hp".to_string(), "btn_hp".to_string(), FrameFighter::CHARGE_IMMEDIATE);
    c.create_charge_key("hp".to_string());
    c.charge[0].1 = 9998;
    c.should_charge(true);
    c.process_current_frame(&v(&["btn_hp"]));
    assert_eq!(c.charge[0].1, 9999);
    c.process_current_frame(&v(&["btn_hp"]));
    assert_eq!(c.charge[0].1, 9999);
}

#[test]
fn composite_with_any_two_dependencies() {
    let mut c = ActionController::new();
    c.add("lp".to_string(), "btn_lp".to_string(), 0);
    c.add("mp".to_string(), "btn_mp".to_string(), 0);
    c.add("hp".to_string(), "btn_hp".to_string(), 0);
    c.add_composite("ex".to_string(), v(&["lp", "mp", "hp"]), 0, false);
    c.add_composite("all".to_string(), v(&["lp", "mp", "hp"]), 0, true);
    c.build_dependency_map();
    c.process_current_frame(&v(&["btn_lp"]));
    assert!(!pressed(&c, "ex"));
    c.process_current_frame(&v(&["btn_lp", "btn_hp"]));
    assert!(pressed(&c, "ex"));
    assert!(!pressed(&c, "all"));
    let st = c.frame_input_state();
    assert_eq!(st.movement, "neutral");
    assert_eq!(st.basic_actions, v(&["lp", "hp"]));
    assert_eq!(st.composite_actions, v(&["ex"]));
    assert_eq!(st.all, "neutral,lp,hp,ex");
    c.process_current_frame(&v(&["btn_lp", "btn_mp", "btn_hp"]));
    assert!(pressed(&c, "all"));
}

#[test]
fn composite_without_dependency_map_stays_released() {
    let mut c = ActionController::new();
    c.add("lp".to_string(), "btn_lp".to_string(), 0);
    c.add("mp".to_string(), "btn_mp".to_string(), 0);
    c.add_composite("ex".to_string(), v(&["lp", "mp"]), 0, true);
    c.process_current_frame(&v(&["btn_lp", "btn_mp"]));
    assert!(!pressed(&c, "ex"));
}

#[test]
fn missing_charge_key_is_detected() {
    let mut c = ActionController::new();
    c.add("x".to_string(), "btn_x".to_string(), FrameFighter::CHARGE_IMMEDIATE);
    assert!(!c.has_charge_keys());
    c.build_charge_map();
    assert!(c.has_charge_keys());
    assert_eq!(c.charge, vec![("x".to_string(), 0)]);
}

#[test]
fn adding_again_replaces_in_place() {
    let mut c = ActionController::new();
    c.add("a".to_string(), "in_a".to_string(), 0);
    c.add("b".to_string(), "in_b".to_string(), 0);
    c.add("a".to_string(), "in_c".to_string(), 1);
    let names: Vec<&str> = c.actions.keys().map(|k| k.as_str()).collect();
    assert_eq!(names, vec!["a", "b"]);
    assert_eq!(c.actions.get("a").unwrap().charge_type, 1);
    c.create_charge_key("a".to_string());
    c.create_charge_key("a".to_string());
    assert_eq!(c.charge.len(), 1);
    c.build_opposite_tuple("a".to_string(), "b".to_string(), "in_b".to_string());
    c.build_opposite_tuple("a".to_string(), "c".to_string(), "in_x".to_string());
    assert_eq!(c.opposites, vec![("a".to_string(), ("c".to_string(), "in_x".to_string()))]);
}

#[test]
fn player_two_inverts_forward_and_back() {
    let mut c = directions();
    c.handle_side(FrameFighter::PLAYER_TWO);
    assert_eq!(c.side, FrameFighter::PLAYER_TWO);
    let input = |c: &ActionController, name: &str| match &c.actions.get(name).unwrap().action_type {
        ActionType::Basic { input_action, .. } => input_action.clone(),
        ActionType::Composite { .. } => panic!("direction is basic"),
    };
    assert_eq!(input(&c, "forward"), "ui_left");
    assert_eq!(input(&c, "back"), "ui_right");
    assert_eq!(input(&c, "up"), "ui_up");
    assert_eq!(c.opposites[2], ("back".to_string(), ("forward".to_string(), "ui_left".to_string())));
    assert_eq!(c.opposites[3], ("forward".to_string(), ("back".to_string(), "ui_right".to_string())));
    c.process_current_frame(&v(&["ui_right"]));
    assert_eq!(c.frame_input_state().movement, "back");
    c.process_current_frame(&v(&["ui_down", "ui_left"]));
    assert_eq!(c.frame_input_state().movement, "down_forward");
    c.process_current_frame(&v(&["ui_left", "ui_right"]));
    assert!(!pressed(&c, "forward"));
    assert!(!pressed(&c, "back"));
    c.handle_side(FrameFighter::PLAYER_TWO);
    assert_eq!(input(&c, "forward"), "ui_left");
    c.handle_side(FrameFighter::PLAYER_ONE);
    assert_eq!(input(&c, "forward"), "ui_right");
    assert_eq!(input(&c, "back"), "ui_left");
    assert_eq!(c.opposites[3], ("forward".to_string(), ("back".to_string(), "ui_left".to_string())));
    c.process_current_frame(&v(&["ui_right"]));
    assert_eq!(c.frame_input_state().movement, "forward");
}

#[test]
fn side_other_than_player_two_keeps_the_inputs() {
    let mut c = directions();
    c.handle_side(0);
    assert_eq!(c.side, 0);
    c.process_current_frame(&v(&["ui_right"]));
    assert_eq!(c.frame_input_state().movement, "forward");
}
