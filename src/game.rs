//! Pause state and the choice between mouse and touch input.
use vstd::prelude::*;

verus! {

#[derive(Clone, Copy, Debug, PartialEq, Eq, Structural)]
pub enum GameState {
    Paused,
    Running,
}

#[derive(Clone, Copy, Debug, PartialEq, Eq, Structural)]
pub enum CursorState {
    Mouse,
    Touch,
}

/// The pause key flips between running and paused; the simulation clock is
/// paused exactly when the game is.
pub fn pause_game(state: GameState) -> (r: GameState)
    ensures
        state == GameState::Running ==> r == GameState::Paused,
        state == GameState::Paused ==> r == GameState::Running,
{
    match state {
        GameState::Running => GameState::Paused,
        GameState::Paused => GameState::Running,
    }
}

/// A visible cursor selects mouse input; otherwise a new touch selects touch
/// input; otherwise the input state stays.
pub fn check_input_state(cursor_present: bool, touch_just_pressed: bool) -> (r: Option<CursorState>)
    ensures
        cursor_present ==> r == Some(CursorState::Mouse),
        !cursor_present && touch_just_pressed ==> r == Some(CursorState::Touch),
        !cursor_present && !touch_just_pressed ==> r is None,
{
    if cursor_present {
        Some(CursorState::Mouse)
    } else if touch_just_pressed {
        Some(CursorState::Touch)
    } else {
        None
    }
}

} // verus!
