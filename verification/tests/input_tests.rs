use bevy::math::Vec2;
use shroomy::input::PlayerInput;
use shroomy::server::PLAYER_MOVE_SPEED;

fn sample(up: bool, down: bool, left: bool, right: bool) -> PlayerInput {
    PlayerInput { up, down, left, right }
}

fn displacement(input: &PlayerInput) -> Vec2 {
    let direction = Vec2::new(input.axis_x() as f32, input.axis_y() as f32).normalize_or_zero();
    direction * PLAYER_MOVE_SPEED as f32
}

#[test]
fn default_input_holds_no_key() {
    assert_eq!(PlayerInput::default(), sample(false, false, false, false));
}

#[test]
fn axis_x_is_right_minus_left() {
    assert_eq!(sample(false, false, false, false).axis_x(), 0);
    assert_eq!(sample(false, false, true, false).axis_x(), -1);
    assert_eq!(sample(false, false, false, true).axis_x(), 1);
    assert_eq!(sample(false, false, true, true).axis_x(), 0);
    assert_eq!(sample(true, true, false, true).axis_x(), 1);
}

#[test]
fn axis_y_is_up_minus_down() {
    assert_eq!(sample(false, false, false, false).axis_y(), 0);
    assert_eq!(sample(true, false, false, false).axis_y(), 1);
    assert_eq!(sample(false, true, false, false).axis_y(), -1);
    assert_eq!(sample(true, true, false, false).axis_y(), 0);
    assert_eq!(sample(false, true, true, true).axis_y(), -1);
}

#[test]
fn idle_when_each_axis_cancels() {
    assert!(sample(false, false, false, false).is_idle());
    assert!(sample(true, true, false, false).is_idle());
    assert!(sample(true, true, true, true).is_idle());
    assert!(!sample(true, false, false, false).is_idle());
    assert!(!sample(true, true, false, true).is_idle());
}

#[test]
fn diagonal_moves_as_far_as_straight() {
    let diagonal = displacement(&sample(true, false, false, true));
    let straight = displacement(&sample(true, false, false, false));
    assert!((diagonal.length() - straight.length()).abs() < 1e-5);
    assert!((straight.length() - 5.0).abs() < 1e-5);
    assert!(diagonal.x > 0.0 && diagonal.y > 0.0);
    assert!((diagonal.x - diagonal.y).abs() < 1e-6);
}

#[test]
fn every_moving_sample_covers_the_same_distance() {
    for bits in 0u8..16 {
        let input = sample(bits & 1 != 0, bits & 2 != 0, bits & 4 != 0, bits & 8 != 0);
        let length = displacement(&input).length();
        if input.is_idle() {
            assert_eq!(length, 0.0);
        } else {
            assert!((length - PLAYER_MOVE_SPEED as f32).abs() < 1e-5);
        }
    }
}
