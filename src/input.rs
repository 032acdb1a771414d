//! On-screen joystick events turned into movement and attack intent.
use vstd::prelude::*;
use crate::geometry::{is_bounded, is_normalized_of, normalize_or_zero, Vec2};

verus! {

/// The three on-screen joysticks.
#[derive(Clone, Copy, Debug, PartialEq, Eq, Structural)]
pub enum JoystickID {
    Button1,
    Button2,
    Movement,
}

/// The attack a released button fires.
#[derive(Clone, Copy, Debug, PartialEq, Eq, Structural)]
pub enum AttackButton {
    Primary,
    Secondary,
}

/// What a joystick event asks for.
#[derive(Clone, Copy, Debug, PartialEq, Eq, Structural)]
pub enum JoystickAction {
    /// Move along the stick's axis.
    Move(Vec2),
    /// Aim along `looking` when the stick is off centre, and fire `fire` when
    /// the button was released.
    Aim { looking: Option<Vec2>, fire: Option<AttackButton> },
}

/// The action for an event of joystick `id` with stick `axis`; `released`
/// tells whether the finger just left the button.
pub fn update_joystick(id: JoystickID, axis: Vec2, released: bool) -> (r: JoystickAction)
    requires
        is_bounded(axis),
    ensures
        id == JoystickID::Movement ==> r == JoystickAction::Move(axis),
        id != JoystickID::Movement ==> match r {
            JoystickAction::Aim { looking, fire } => {
                &&& (axis.x == 0 && axis.y == 0 <==> looking is None)
                &&& (looking is Some ==> is_normalized_of(axis, looking.unwrap()))
                &&& fire == if !released {
                    None
                } else if id == JoystickID::Button1 {
                    Some(AttackButton::Primary)
                } else {
                    Some(AttackButton::Secondary)
                }
            },
            JoystickAction::Move(_) => false,
        },
{
    match id {
        JoystickID::Movement => JoystickAction::Move(axis),
        JoystickID::Button1 | JoystickID::Button2 => {
            let looking = if axis.x == 0 && axis.y == 0 {
                None
            } else {
                Some(normalize_or_zero(axis))
            };
            let fire = if !released {
                None
            } else if id == JoystickID::Button1 {
                Some(AttackButton::Primary)
            } else {
                Some(AttackButton::Secondary)
            };
            JoystickAction::Aim { looking, fire }
        },
    }
}

} // verus!
