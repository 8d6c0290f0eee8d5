use conswol::build_state::{build_outcome, BuildState};
use conswol::ui::{handle_key, recompute_selection, selection_index, KeyAction, KeyEvent};

#[test]
fn negative_counter_wraps_to_bottom() {
    assert_eq!(selection_index(-1, 5), Some(4));
}

#[test]
fn counter_past_the_end_wraps_to_top() {
    assert_eq!(selection_index(7, 5), Some(2));
    assert_eq!(selection_index(5, 5), Some(0));
}

#[test]
fn empty_list_has_no_selection() {
    assert_eq!(selection_index(0, 0), None);
    assert_eq!(selection_index(-3, 0), None);
    assert_eq!(selection_index(100, 0), None);
}

#[test]
fn wrap_uses_floored_modulo() {
    assert_eq!(selection_index(-7, 5), Some(3));
    assert_eq!(selection_index(-5, 5), Some(0));
    assert_eq!(selection_index(-10, 5), Some(0));
}

#[test]
fn counter_in_range_is_kept() {
    assert_eq!(selection_index(0, 5), Some(0));
    assert_eq!(selection_index(3, 5), Some(3));
    assert_eq!(selection_index(4, 5), Some(4));
}

#[test]
fn extreme_counters_still_wrap() {
    assert_eq!(selection_index(i64::MIN, 2), Some(0));
    assert_eq!(selection_index(i64::MIN, 3), Some(1));
    assert_eq!(selection_index(i64::MAX, 2), Some(1));
}

#[test]
fn move_keys_adjust_the_counter() {
    assert_eq!(handle_key(0, KeyEvent::MoveUp), (-1, KeyAction::Nothing));
    assert_eq!(handle_key(0, KeyEvent::MoveDown), (1, KeyAction::Nothing));
    assert_eq!(handle_key(-4, KeyEvent::MoveDown), (-3, KeyAction::Nothing));
}

#[test]
fn counter_saturates_at_its_ends() {
    assert_eq!(handle_key(i64::MIN, KeyEvent::MoveUp), (i64::MIN, KeyAction::Nothing));
    assert_eq!(handle_key(i64::MAX, KeyEvent::MoveDown), (i64::MAX, KeyAction::Nothing));
}

#[test]
fn quit_and_build_keys_ask_their_actions() {
    assert_eq!(handle_key(9, KeyEvent::Quit), (9, KeyAction::Terminate));
    assert_eq!(handle_key(9, KeyEvent::RequestBuild), (9, KeyAction::AttemptBuild));
    assert_eq!(handle_key(9, KeyEvent::Other), (9, KeyAction::Nothing));
}

#[test]
fn selection_follows_the_current_state() {
    assert_eq!(recompute_selection(&BuildState::NoBuild, 7), None);
    assert_eq!(recompute_selection(&BuildState::InProgress, 0), None);
    let s = build_outcome(Some((0, b"E1 a\nE2 b\nE3 c".to_vec())), None);
    assert_eq!(recompute_selection(&s, 3), Some(0));
}
