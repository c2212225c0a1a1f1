use fj_core::input::actions::{Actions, Key};
use fj_core::input::mouse::{handle_mouse_input, ElementState, MouseAction, MouseButton};
use fj_core::input::zoom::{
    breaks_zoom, count_outdated, is_outdated, Direction, BREAK_WINDOW_MILLIS,
    INPUT_WINDOW_MILLIS,
};

#[test]
fn actions_start_with_nothing_asked_for() {
    let actions = Actions::new();
    assert_eq!(
        actions,
        Actions { exit: false, toggle_model: false, toggle_mesh: false, toggle_debug: false }
    );
    assert_eq!(Actions::default(), actions);
}

#[test]
fn keys_ask_for_actions() {
    let mut actions = Actions::new();
    actions.handle_key(Key::Key2);
    assert_eq!(
        actions,
        Actions { exit: false, toggle_model: false, toggle_mesh: true, toggle_debug: false }
    );
    actions.handle_key(Key::Escape);
    assert_eq!(
        actions,
        Actions { exit: true, toggle_model: false, toggle_mesh: true, toggle_debug: false }
    );
    actions.handle_key(Key::Key1);
    actions.handle_key(Key::Key3);
    actions.handle_key(Key::Key3);
    assert_eq!(
        actions,
        Actions { exit: true, toggle_model: true, toggle_mesh: true, toggle_debug: true }
    );
}

#[test]
fn mouse_buttons_rotate_and_move() {
    let pressed = ElementState::Pressed;
    let released = ElementState::Released;
    assert_eq!(handle_mouse_input(MouseButton::Left, pressed), MouseAction::StartRotation);
    assert_eq!(handle_mouse_input(MouseButton::Left, released), MouseAction::StopRotation);
    assert_eq!(handle_mouse_input(MouseButton::Right, pressed), MouseAction::StartMovement);
    assert_eq!(handle_mouse_input(MouseButton::Right, released), MouseAction::StopMovement);
    assert_eq!(handle_mouse_input(MouseButton::Middle, pressed), MouseAction::Ignore);
    assert_eq!(handle_mouse_input(MouseButton::Other, released), MouseAction::Ignore);
}

#[test]
fn directions_are_opposite_when_their_signs_are() {
    let all = [Direction::Pos, Direction::Neg, Direction::Neutral];
    for a in all {
        for b in all {
            let expected = matches!(
                (a, b),
                (Direction::Pos, Direction::Neg) | (Direction::Neg, Direction::Pos)
            );
            assert_eq!(a.is_opposite(&b), expected);
        }
    }
    assert_eq!(Direction::from_sign(1), Direction::Pos);
    assert_eq!(Direction::from_sign(127), Direction::Pos);
    assert_eq!(Direction::from_sign(-1), Direction::Neg);
    assert_eq!(Direction::from_sign(0), Direction::Neutral);
}

#[test]
fn opposite_input_breaks_a_zoom_that_moves_or_just_stopped() {
    assert!(breaks_zoom(Direction::Pos, Direction::Neg, None));
    assert!(breaks_zoom(Direction::Neg, Direction::Pos, Some(0)));
    assert!(breaks_zoom(Direction::Neg, Direction::Pos, Some(BREAK_WINDOW_MILLIS - 1)));
    assert!(!breaks_zoom(Direction::Neg, Direction::Pos, Some(BREAK_WINDOW_MILLIS)));
    assert!(!breaks_zoom(Direction::Pos, Direction::Pos, None));
    assert!(!breaks_zoom(Direction::Neutral, Direction::Pos, None));
    assert!(!breaks_zoom(Direction::Pos, Direction::Neutral, Some(0)));
    assert_eq!(BREAK_WINDOW_MILLIS, 50);
}

#[test]
fn old_events_fall_out_of_the_input_window() {
    assert_eq!(INPUT_WINDOW_MILLIS, 500);
    assert!(!is_outdated(500));
    assert!(is_outdated(501));
    assert!(!is_outdated(0));
    assert_eq!(count_outdated(&vec![900, 501, 500, 700, 10]), 2);
    assert_eq!(count_outdated(&vec![]), 0);
    assert_eq!(count_outdated(&vec![100, 900]), 0);
    assert_eq!(count_outdated(&vec![600, 600]), 2);
}
