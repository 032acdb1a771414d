use combat_core::geometry::Vec2;
use combat_core::input::{update_joystick, AttackButton, JoystickAction, JoystickID};

#[test]
fn movement_stick_moves() {
    let axis = Vec2 { x: 300, y: -400 };
    assert_eq!(update_joystick(JoystickID::Movement, axis, true), JoystickAction::Move(axis));
}

#[test]
fn released_buttons_aim_and_fire() {
    assert_eq!(
        update_joystick(JoystickID::Button1, Vec2 { x: 0, y: 250 }, true),
        JoystickAction::Aim { looking: Some(Vec2 { x: 0, y: 1000 }), fire: Some(AttackButton::Primary) }
    );
    assert_eq!(
        update_joystick(JoystickID::Button2, Vec2 { x: -30, y: 40 }, true),
        JoystickAction::Aim { looking: Some(Vec2 { x: -600, y: 800 }), fire: Some(AttackButton::Secondary) }
    );
}

#[test]
fn held_button_only_aims_and_centred_stick_keeps_aim() {
    assert_eq!(
        update_joystick(JoystickID::Button2, Vec2 { x: 5, y: 0 }, false),
        JoystickAction::Aim { looking: Some(Vec2 { x: 1000, y: 0 }), fire: None }
    );
    assert_eq!(
        update_joystick(JoystickID::Button1, Vec2 { x: 0, y: 0 }, true),
        JoystickAction::Aim { looking: None, fire: Some(AttackButton::Primary) }
    );
}
