use frame_fighter::frame_fighter::FrameFighter;
use frame_fighter::models::frame_input_state::FrameInputState;
use frame_fighter::models::sequence_step::SequenceStep;
use frame_fighter::move_matcher::MoveMatcher;

fn v(xs: &[&str]) -> Vec<String> {
    xs.iter().map(|x| x.to_string()).collect()
}

fn st(movement: &str, basic: &[&str]) -> FrameInputState {
    FrameInputState::new(movement.to_string(), v(basic), vec![], vec![])
}

fn st_charge(movement: &str, basic: &[&str], back: u32) -> FrameInputState {
    FrameInputState::new(movement.to_string(), v(basic), vec![], vec![("back".to_string(), back)])
}

fn step(movement: &str, actions: &[&str], modifiers: Vec<u32>) -> SequenceStep {
    SequenceStep::new(movement.to_string(), v(actions), 10, modifiers)
}

fn quarter_circle() -> Vec<SequenceStep> {
    vec![step("down", &[], vec![]), step("down_forward", &[], vec![]), step("forward", &["lp"], vec![])]
}

fn feed(m: &mut MoveMatcher, s: &FrameInputState) {
    assert!(m.can_add_buffer_entry(s));
    m.add_buffer_entry(s);
    assert!(m.can_process_frame());
    m.process_frame();
}

#[test]
fn new_matcher_settings() {
    let m = MoveMatcher::new();
    assert_eq!(m.size, 20);
    assert_eq!(m.max_frames, 999);
    assert!(m.buffer.is_empty());
    assert!(m.buffer_stripped.is_empty());
    assert!(m.matched_moves_for_godot().is_empty());
    let d = MoveMatcher::default();
    assert_eq!(d.max_frames, 999);
}

#[test]
fn quarter_circle_is_matched() {
    let mut m = MoveMatcher::new();
    m.add_move("hadouken".to_string(), quarter_circle(), false, false, 0, 0);
    feed(&mut m, &st("down", &[]));
    assert!(m.matched_moves.is_empty());
    feed(&mut m, &st("down_forward", &[]));
    assert!(m.matched_moves.is_empty());
    assert_eq!(m.buffer.len(), 2);
    feed(&mut m, &st("forward", &["lp"]));
    let matched = m.matched_moves_for_godot();
    assert_eq!(matched.len(), 1);
    assert_eq!(matched[0].name, "hadouken");
    assert_eq!(matched[0].priority, 0);
    assert!(matched[0].perfect_input);
    assert_eq!(matched[0].total_frames, 2);
    assert!(m.buffer.is_empty());
    assert!(m.buffer_stripped.is_empty());
}

#[test]
fn slow_input_misses_the_window() {
    let seq = || {
        vec![
            SequenceStep::new("down".to_string(), vec![], 10, vec![]),
            SequenceStep::new("down_forward".to_string(), vec![], 2, vec![]),
            SequenceStep::new("forward".to_string(), v(&["lp"]), 10, vec![]),
        ]
    };
    let mut slow = MoveMatcher::new();
    slow.add_move("qcf".to_string(), seq(), false, false, 0, 0);
    feed(&mut slow, &st("down", &[]));
    for _ in 0..3 {
        feed(&mut slow, &st("down_forward", &[]));
    }
    assert_eq!(slow.buffer[0].frames, 3);
    feed(&mut slow, &st("forward", &["lp"]));
    assert!(slow.matched_moves.is_empty());

    let mut quick = MoveMatcher::new();
    quick.add_move("qcf".to_string(), seq(), false, false, 0, 0);
    feed(&mut quick, &st("down", &[]));
    for _ in 0..2 {
        feed(&mut quick, &st("down_forward", &[]));
    }
    feed(&mut quick, &st("forward", &["lp"]));
    assert_eq!(quick.matched_moves.len(), 1);
    assert_eq!(quick.matched_moves[0].total_frames, 3);
}

#[test]
fn neutral_inputs_only_in_the_full_history() {
    let mut m = MoveMatcher::new();
    let seq = vec![step("forward", &[], vec![]), step("forward", &["lp"], vec![])];
    m.add_move("dash_punch".to_string(), seq, true, false, 0, 0);
    let seq2 = vec![step("forward", &[], vec![]), step("forward", &["lp"], vec![])];
    m.add_move("loose".to_string(), seq2, false, false, 0, 1);
    feed(&mut m, &st("forward", &[]));
    feed(&mut m, &st("neutral", &[]));
    assert_eq!(m.buffer.len(), 2);
    assert_eq!(m.buffer_stripped.len(), 1);
    feed(&mut m, &st("forward", &["lp"]));
    let names: Vec<&str> = m.matched_moves.iter().map(|x| x.name.as_str()).collect();
    assert_eq!(names, vec!["loose"]);
}

#[test]
fn matched_moves_in_priority_order() {
    let mut m = MoveMatcher::new();
    m.add_move("c".to_string(), vec![step("", &["lp"], vec![])], false, false, 0, 5);
    m.add_move("a".to_string(), vec![step("", &["lp"], vec![])], false, false, 0, 1);
    m.add_move("b".to_string(), vec![step("", &["lp"], vec![])], false, false, 0, 5);
    m.add_move("d".to_string(), vec![step("", &["lp"], vec![])], false, false, 0, -2);
    feed(&mut m, &st("neutral", &["lp"]));
    let names: Vec<&str> = m.matched_moves.iter().map(|x| x.name.as_str()).collect();
    assert_eq!(names, vec!["d", "a", "c", "b"]);
    let prios: Vec<i32> = m.matched_moves.iter().map(|x| x.priority).collect();
    assert_eq!(prios, vec![-2, 1, 5, 5]);
}

#[test]
fn step_without_actions_needs_empty_input() {
    let mut m = MoveMatcher::new();
    m.add_move("up_only".to_string(), vec![step("up", &[], vec![])], false, false, 0, 0);
    feed(&mut m, &st("up", &["lp"]));
    assert!(m.matched_moves.is_empty());
    feed(&mut m, &st("up", &[]));
    assert_eq!(m.matched_moves.len(), 1);
    assert!(m.matched_moves[0].perfect_input);
    assert_eq!(m.matched_moves[0].total_frames, 0);
}

#[test]
fn lenient_ender_accepts_late_button() {
    let mut m = MoveMatcher::new();
    let seq = vec![step("down", &[], vec![]), step("forward", &["lp"], vec![FrameFighter::LENIENT_ENDER])];
    m.add_move("lenient".to_string(), seq, false, false, 0, 0);
    feed(&mut m, &st("down", &[]));
    feed(&mut m, &st("forward", &[]));
    feed(&mut m, &st("neutral", &["lp"]));
    assert_eq!(m.matched_moves.len(), 1);
    assert!(!m.matched_moves[0].perfect_input);
    assert_eq!(m.matched_moves[0].total_frames, 2);
}

#[test]
fn lenient_ender_counts_the_entry_before() {
    let mut m = MoveMatcher::new();
    let seq = vec![step("forward", &["lp"], vec![FrameFighter::LENIENT_ENDER])];
    m.add_move("short".to_string(), seq, false, false, 0, 0);
    feed(&mut m, &st("forward", &[]));
    feed(&mut m, &st("forward", &[]));
    feed(&mut m, &st("neutral", &["lp"]));
    assert_eq!(m.matched_moves.len(), 1);
    assert!(!m.matched_moves[0].perfect_input);
    assert_eq!(m.matched_moves[0].total_frames, 2);
}

#[test]
fn lenient_ender_with_direction_as_oldest_entry() {
    let mut m = MoveMatcher::new();
    let seq = vec![step("down_forward", &["lp"], vec![FrameFighter::LENIENT_ENDER])];
    m.add_move("dp".to_string(), seq, true, false, 0, 0);
    for _ in 0..5 {
        m.add_buffer_entry(&st("down_forward", &[]));
    }
    m.add_buffer_entry(&st("neutral", &["lp"]));
    assert!(m.can_process_frame());
    m.process_frame();
    assert_eq!(m.matched_moves.len(), 1);
    assert!(!m.matched_moves[0].perfect_input);
    assert_eq!(m.matched_moves[0].total_frames, 5);
}

#[test]
fn lenient_ender_over_three_entries() {
    let mut m = MoveMatcher::new();
    let seq = vec![step("down_forward", &["lp"], vec![FrameFighter::LENIENT_ENDER])];
    m.add_move("dp".to_string(), seq, true, false, 0, 0);
    m.add_buffer_entry(&st("down_forward", &[]));
    m.add_buffer_entry(&st("down_forward", &[]));
    for _ in 0..3 {
        m.add_buffer_entry(&st("neutral", &[]));
    }
    m.add_buffer_entry(&st("neutral", &["lp"]));
    assert!(m.can_process_frame());
    m.process_frame();
    assert_eq!(m.matched_moves.len(), 1);
    assert!(!m.matched_moves[0].perfect_input);
    assert_eq!(m.matched_moves[0].total_frames, 5);
}

#[test]
fn lenient_ender_without_leniency_needs_the_direction() {
    let mut m = MoveMatcher::new();
    let seq = vec![step("down_forward", &["lp"], vec![])];
    m.add_move("dp".to_string(), seq, true, false, 0, 0);
    m.add_buffer_entry(&st("down_forward", &[]));
    m.add_buffer_entry(&st("neutral", &["lp"]));
    m.process_frame();
    assert!(m.matched_moves.is_empty());
}

#[test]
fn lenient_ender_past_the_stripped_history_is_detected() {
    let mut m = MoveMatcher::new();
    let seq = vec![step("", &["lp"], vec![FrameFighter::LENIENT_ENDER])];
    m.add_move("any_lp".to_string(), seq, false, false, 0, 0);
    m.add_buffer_entry(&st("neutral", &[]));
    m.add_buffer_entry(&st("neutral", &["lp"]));
    assert_eq!(m.buffer.len(), 2);
    assert_eq!(m.buffer_stripped.len(), 1);
    assert!(!m.can_process_frame());
}

#[test]
fn charge_move_without_charge_counter_does_not_match() {
    let mut m = MoveMatcher::new();
    let seq = vec![step("back", &[], vec![]), step("forward", &["lp"], vec![])];
    m.add_move("sonic".to_string(), seq, false, true, 40, 0);
    feed(&mut m, &st("down_back", &[]));
    feed(&mut m, &st("down_forward", &["lp"]));
    assert!(m.matched_moves.is_empty());
    let mut n = MoveMatcher::new();
    let seq = vec![step("back", &[], vec![]), step("forward", &["lp"], vec![])];
    n.add_move("sonic".to_string(), seq, false, true, 0, 0);
    feed(&mut n, &st("down_back", &[]));
    feed(&mut n, &st("down_forward", &["lp"]));
    assert_eq!(n.matched_moves.len(), 1);
    assert!(n.matched_moves[0].perfect_input);
}

#[test]
fn charge_move_needs_enough_charge() {
    let mut m = MoveMatcher::new();
    let seq = vec![step("back", &[], vec![]), step("forward", &["lp"], vec![])];
    m.add_move("sonic".to_string(), seq, false, true, 30, 0);
    feed(&mut m, &st_charge("down_back", &[], 10));
    feed(&mut m, &st_charge("forward", &["lp"], 0));
    assert!(m.matched_moves.is_empty());
    let mut n = MoveMatcher::new();
    let seq = vec![step("back", &[], vec![]), step("forward", &["lp"], vec![])];
    n.add_move("sonic".to_string(), seq, false, true, 30, 0);
    feed(&mut n, &st_charge("down_back", &[], 40));
    feed(&mut n, &st_charge("forward", &["lp"], 0));
    assert_eq!(n.matched_moves.len(), 1);
    assert_eq!(n.matched_moves[0].total_frames, 1);
    assert!(n.matched_moves[0].perfect_input);
}

#[test]
fn stripped_history_skips_empty_input() {
    let mut m = MoveMatcher::new();
    m.add_buffer_entry(&st("down", &[]));
    m.add_buffer_entry(&st("neutral", &[]));
    m.add_buffer_entry(&st("neutral", &[]));
    m.add_buffer_entry(&st("neutral", &["lp"]));
    assert_eq!(m.buffer.len(), 3);
    assert_eq!(m.buffer[1].frames, 2);
    assert_eq!(m.buffer_stripped.len(), 2);
    assert_eq!(m.buffer_stripped[0].movement, "neutral");
    assert_eq!(m.buffer_stripped[1].movement, "down");
    assert_eq!(m.buffer_stripped[1].frames, 2);
    let (full, stripped) = m.print_buffers();
    assert_eq!(full, "Standard: [ {neutral.lp} | {neutral.} | {down.} ]");
    assert_eq!(stripped, "Stripped: [ {neutral.lp} | {down.} ]");
}

#[test]
fn history_size_bounds_buffers() {
    let mut m = MoveMatcher::new();
    m.set_size(2);
    m.set_max_frames(5);
    m.add_buffer_entry(&st("down", &[]));
    m.add_buffer_entry(&st("up", &[]));
    m.add_buffer_entry(&st("back", &[]));
    assert_eq!(m.buffer.len(), 2);
    assert_eq!(m.buffer_stripped.len(), 2);
    for _ in 0..10 {
        m.add_buffer_entry(&st("back", &[]));
    }
    assert_eq!(m.buffer[0].frames, 5);
    assert_eq!(m.buffer_stripped[0].frames, 5);
}

#[test]
fn overflowing_buffer_is_detected() {
    let mut m = MoveMatcher::new();
    m.add_buffer_entry(&st("down", &[]));
    m.buffer[0].frames = u32::MAX;
    assert!(!m.can_add_buffer_entry(&st("down", &[])));
    assert!(m.can_add_buffer_entry(&st("up", &[])));
}

#[test]
fn moves_sorted_longest_first() {
    let mut m = MoveMatcher::new();
    m.add_move("one".to_string(), vec![step("", &["lp"], vec![])], false, false, 0, 0);
    m.add_move("three".to_string(), quarter_circle(), false, false, 0, 0);
    m.add_move("two".to_string(), vec![step("down", &[], vec![]), step("", &["lp"], vec![])], false, false, 0, 0);
    m.add_move("other_one".to_string(), vec![step("", &["hp"], vec![])], false, false, 0, 0);
    m.sort_moves();
    let names: Vec<&str> = m.moves.keys().map(|k| k.as_str()).collect();
    assert_eq!(names, vec!["three", "two", "one", "other_one"]);
}

#[test]
fn a_match_is_reported_once() {
    let mut m = MoveMatcher::new();
    m.add_move("jab".to_string(), vec![step("", &["lp"], vec![])], false, false, 0, 0);
    feed(&mut m, &st("neutral", &["lp"]));
    assert_eq!(m.matched_moves.len(), 1);
    assert!(m.can_process_frame());
    m.process_frame();
    assert!(m.matched_moves.is_empty());
    feed(&mut m, &st("neutral", &["lp"]));
    assert_eq!(m.matched_moves.len(), 1);
}
