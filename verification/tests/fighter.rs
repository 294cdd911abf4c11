use frame_fighter::fighter_action_map::{FighterAction, FighterActionMap, FighterCompositeAction};
use frame_fighter::fighter_input::FighterInput;
use frame_fighter::fighter_move_list::{FighterMove, FighterMoveList, FighterSequenceStep};
use frame_fighter::frame_fighter::FrameFighter;

fn v(xs: &[&str]) -> Vec<String> {
    xs.iter().map(|x| x.to_string()).collect()
}

fn step(movement: &str, actions: &[&str]) -> FighterSequenceStep {
    FighterSequenceStep { movement: movement.to_string(), actions: v(actions), modifiers: vec![], input_window: 10 }
}

fn action_map() -> FighterActionMap {
    FighterActionMap {
        up: "ui_up".to_string(),
        down: "ui_down".to_string(),
        forward: "ui_right".to_string(),
        back: "ui_left".to_string(),
        actions: vec![
            FighterAction { name: "lp".to_string(), input_action: "btn_lp".to_string(), charge_type: 0 },
            FighterAction { name: "hp".to_string(), input_action: "btn_hp".to_string(), charge_type: 2 },
        ],
        composite_actions: vec![FighterCompositeAction {
            name: "ex".to_string(),
            dependencies: v(&["lp", "hp"]),
            require_all: true,
            charge_type: 0,
        }],
        charge_requirement: 0,
    }
}

fn move_list() -> FighterMoveList {
    FighterMoveList {
        input_window: 10,
        moves: vec![
            FighterMove {
                name: "jab".to_string(),
                priority: 5,
                require_neutrals: false,
                require_charge: false,
                charge_frames: 0,
                sequence: vec![step("", &["lp"])],
            },
            FighterMove {
                name: "hadouken".to_string(),
                priority: 1,
                require_neutrals: false,
                require_charge: false,
                charge_frames: 0,
                sequence: vec![step("down", &[]), step("down_forward", &[]), step("forward", &["lp"])],
            },
        ],
    }
}

fn ready_fighter() -> FighterInput {
    let mut f = FighterInput::new();
    f.action_map = Some(action_map());
    f.move_list = Some(move_list());
    assert_eq!(f.ready(), (true, true));
    f
}

#[test]
fn ready_binds_actions_and_moves() {
    let f = ready_fighter();
    let names: Vec<&str> = f.action_controller.actions.keys().map(|k| k.as_str()).collect();
    assert_eq!(names, vec!["up", "down", "forward", "back", "up_forward", "down_forward", "up_back", "down_back", "lp", "hp", "ex"]);
    let charge: Vec<&str> = f.action_controller.charge.iter().map(|e| e.0.as_str()).collect();
    assert_eq!(charge, vec!["up", "down", "forward", "back", "hp"]);
    let moves: Vec<&str> = f.move_matcher.moves.keys().map(|k| k.as_str()).collect();
    assert_eq!(moves, vec!["hadouken", "jab"]);
    assert_eq!(f.input_history.size, 20);
    assert_eq!(f.input_history.max_frames, 99);
    assert_eq!(f.move_matcher.max_frames, 99);
    assert!(f.action_controller.has_charge_keys());
}

#[test]
fn ready_without_resources() {
    let mut f = FighterInput::new();
    f.history_size = 5;
    f.history_frames = 7;
    assert_eq!(f.ready(), (false, false));
    assert_eq!(f.input_history.size, 5);
    assert_eq!(f.move_matcher.size, 5);
    assert_eq!(f.input_history.max_frames, 7);
    assert_eq!(f.action_controller.actions.len(), 0);
}

#[test]
fn frame_reports_pressed_actions() {
    let mut f = ready_fighter();
    let item = f.process_frame(&v(&["ui_down", "ui_right"])).unwrap();
    assert_eq!(item.movement, "down_forward");
    assert_eq!(item.frames, 1);
    let item = f.process_frame(&v(&["ui_down", "ui_right"])).unwrap();
    assert_eq!(item.frames, 2);
    let item = f.process_frame(&v(&["btn_lp", "btn_hp"])).unwrap();
    assert_eq!(item.movement, "neutral");
    assert!(item.is_pressed("lp"));
    assert!(item.is_pressed("hp"));
    assert!(item.is_pressed("ex"));
    assert_eq!(f.history().len(), 2);
    assert_eq!(f.pressed_actions().movement, "neutral");
}

#[test]
fn hadouken_and_jab_on_the_same_frame() {
    let mut f = ready_fighter();
    f.process_frame(&v(&["ui_down"])).unwrap();
    f.process_frame(&v(&["ui_down", "ui_right"])).unwrap();
    let item = f.process_frame(&v(&["ui_right", "btn_lp"])).unwrap();
    assert_eq!(item.movement, "forward");
    let names: Vec<&str> = f.matched_moves().iter().map(|m| m.name.as_str()).collect();
    assert_eq!(names, vec!["hadouken", "jab"]);
    assert_eq!(f.matched_moves()[0].total_frames, 2);
    assert!(f.move_matcher.buffer.is_empty());
    assert_eq!(f.history().len(), 3);
    f.process_frame(&v(&[])).unwrap();
    assert!(f.matched_moves().is_empty());
}

#[test]
fn charge_follows_can_charge() {
    let mut f = ready_fighter();
    f.set_can_charge(true);
    f.set_side(FrameFighter::PLAYER_TWO);
    f.process_frame(&v(&["ui_right"])).unwrap();
    let item = f.process_frame(&v(&["ui_right"])).unwrap();
    assert_eq!(item.get_charge_frames("back"), 2);
    assert_eq!(item.get_charge_frames("down"), 0);
    f.set_can_charge(false);
    let item = f.process_frame(&v(&["ui_right"])).unwrap();
    assert_eq!(item.get_charge_frames("back"), 0);
}

#[test]
fn missing_charge_counter_fails_the_frame() {
    let mut f = FighterInput::new();
    f.action_controller.add("x".to_string(), "btn_x".to_string(), FrameFighter::CHARGE_IMMEDIATE);
    assert!(f.process_frame(&v(&["btn_x"])).is_none());
}

#[test]
fn log_text_of_the_frame() {
    let mut f = ready_fighter();
    f.set_can_charge(true);
    f.process_frame(&v(&["ui_down", "ui_right", "btn_lp", "btn_hp"])).unwrap();
    assert_eq!(
        f.log_input_state(),
        "\n \nMovement: down_forward\nBasic: [ lp, hp ] - Composite: [ ex ]\nCharge: { up: 0, down: 1, forward: 1, back: 0, hp: 1, }"
    );
    let empty = FighterInput::new();
    assert_eq!(empty.log_input_state(), "\n \nMovement: \nBasic: [  ] - Composite: [  ]\nCharge: { }");
}

#[test]
fn player_two_reports_right_as_back() {
    let mut f = ready_fighter();
    f.set_side(FrameFighter::PLAYER_TWO);
    let item = f.process_frame(&v(&["ui_right"])).unwrap();
    assert_eq!(item.movement, "back");
    assert_eq!(f.action_controller.side, FrameFighter::PLAYER_TWO);
    f.set_side(FrameFighter::PLAYER_ONE);
    let item = f.process_frame(&v(&["ui_right"])).unwrap();
    assert_eq!(item.movement, "forward");
}

#[test]
fn history_never_exceeds_its_size() {
    let mut f = FighterInput::new();
    f.history_size = 3;
    f.action_map = Some(action_map());
    f.move_list = Some(move_list());
    f.ready();
    for pressed in [&["ui_up"][..], &["ui_down"], &["ui_left"], &["btn_hp"], &[]] {
        f.process_frame(&v(pressed)).unwrap();
        assert!(f.history().len() <= 3);
    }
    assert_eq!(f.history().len(), 3);
    assert_eq!(f.history()[0].movement, "neutral");
}
