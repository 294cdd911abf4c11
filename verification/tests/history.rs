use frame_fighter::input_history::InputHistory;
use frame_fighter::models::frame_input_state::FrameInputState;

fn st(movement: &str, basic: &[&str], charge: u32) -> FrameInputState {
    FrameInputState::new(
        movement.to_string(),
        basic.iter().map(|x| x.to_string()).collect(),
        vec![],
        vec![("down".to_string(), charge)],
    )
}

#[test]
fn new_history_settings() {
    let h = InputHistory::new();
    assert_eq!(h.size, 20);
    assert_eq!(h.max_frames, 99);
    assert!(h.entries.is_empty());
    let d = InputHistory::default();
    assert_eq!(d.size, 20);
    assert_eq!(d.max_frames, 99);
}

#[test]
fn repeated_input_is_held_longer() {
    let mut h = InputHistory::new();
    h.add(&st("down", &[], 1));
    h.add(&st("down", &[], 2));
    h.add(&st("down", &[], 3));
    assert_eq!(h.entries.len(), 1);
    assert_eq!(h.entries[0].frames, 3);
    assert_eq!(h.entries[0].charge, vec![("down".to_string(), 3)]);
}

#[test]
fn held_frames_stop_at_max_frames() {
    let mut h = InputHistory::new();
    h.set_max_frames(2);
    for _ in 0..5 {
        h.add(&st("down", &[], 0));
    }
    assert_eq!(h.entries[0].frames, 2);
    let mut z = InputHistory::new();
    z.set_max_frames(0);
    z.add(&st("up", &[], 0));
    z.add(&st("up", &[], 0));
    assert_eq!(z.entries[0].frames, 0);
}

#[test]
fn new_input_goes_first_and_history_is_bounded() {
    let mut h = InputHistory::new();
    h.set_size(2);
    h.add(&st("down", &[], 0));
    h.add(&st("down_forward", &[], 0));
    h.add(&st("forward", &["lp"], 0));
    assert_eq!(h.entries.len(), 2);
    assert_eq!(h.entries[0].movement, "forward");
    assert_eq!(h.entries[0].basic_actions, vec!["lp".to_string()]);
    assert_eq!(h.entries[0].frames, 1);
    assert_eq!(h.entries[1].movement, "down_forward");
    let mut zero = InputHistory::new();
    zero.set_size(0);
    zero.add(&st("down", &[], 0));
    assert!(zero.entries.is_empty());
}

#[test]
fn pressed_actions_follow_newest_entry() {
    let mut h = InputHistory::new();
    let empty = h.pressed_actions_for_godot();
    assert_eq!(empty.movement, "neutral");
    assert_eq!(empty.frames, 1);
    h.add(&st("down", &[], 4));
    h.add(&st("down", &[], 5));
    let item = h.pressed_actions_for_godot();
    assert_eq!(item.movement, "down");
    assert_eq!(item.frames, 2);
    assert_eq!(item.get_charge_frames("down"), 5);
    h.add(&st("neutral", &["lp"], 0));
    let all = h.to_godot();
    assert_eq!(all.len(), 2);
    assert_eq!(all[0].movement, "neutral");
    assert!(all[0].is_pressed("lp"));
    assert_eq!(all[1].movement, "down");
}

#[test]
fn overflowing_frame_count_is_detected() {
    let mut h = InputHistory::new();
    h.set_max_frames(u32::MAX);
    h.add(&st("down", &[], 0));
    h.entries[0].frames = u32::MAX;
    assert!(!h.can_add(&st("down", &[], 0)));
    assert!(h.can_add(&st("up", &[], 0)));
    h.entries[0].frames = u32::MAX - 1;
    assert!(h.can_add(&st("down", &[], 0)));
    h.add(&st("down", &[], 0));
    assert_eq!(h.entries[0].frames, u32::MAX);
}
