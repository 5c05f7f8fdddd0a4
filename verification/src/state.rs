//! The top-level state of the game and its transitions.

use vstd::prelude::*;

verus! {

/// Where the game stands. Only in `Playing` does the simulation run.
#[derive(Clone, Copy, Debug, PartialEq, Eq, Structural)]
pub enum GameState {
    Menu,
    Playing,
    GameOver,
}

/// The state after a step. `confirm` is the freshly pressed key, `down` says
/// that the step took the player's last point of health. The menu and the
/// game-over screen wait for the key; play goes on until the player is down.
pub open spec fn next_state(state: GameState, confirm: bool, down: bool) -> GameState {
    match state {
        GameState::Menu => if confirm {
            GameState::Playing
        } else {
            GameState::Menu
        },
        GameState::Playing => if down {
            GameState::GameOver
        } else {
            GameState::Playing
        },
        GameState::GameOver => if confirm {
            GameState::Playing
        } else {
            GameState::GameOver
        },
    }
}

/// Whether leaving `state` on this input starts a new run, for which the
/// session is reset.
pub open spec fn restarts(state: GameState, confirm: bool) -> bool {
    state == GameState::GameOver && confirm
}

impl GameState {
    /// The state in which a session begins.
    pub fn initial() -> (state: GameState)
        ensures
            state == GameState::Menu,
    {
        GameState::Menu
    }

    /// The state that follows this one.
    pub fn transition(self, confirm: bool, down: bool) -> (next: GameState)
        ensures
            next == next_state(self, confirm, down),
    {
        match self {
            GameState::Menu => if confirm {
                GameState::Playing
            } else {
                GameState::Menu
            },
            GameState::Playing => if down {
                GameState::GameOver
            } else {
                GameState::Playing
            },
            GameState::GameOver => if confirm {
                GameState::Playing
            } else {
                GameState::GameOver
            },
        }
    }
}

impl Default for GameState {
    /// The state in which a session begins.
    fn default() -> (state: GameState)
        ensures
            state == GameState::Menu,
    {
        GameState::Menu
    }
}

/// Play is entered only on the key, from the menu or the game-over screen, and
/// left only when the player is down.
pub proof fn lemma_transitions(state: GameState, confirm: bool, down: bool)
    ensures
        next_state(state, confirm, down) == GameState::Menu ==> state == GameState::Menu
            && !confirm,
        next_state(state, confirm, down) == GameState::GameOver ==> (state == GameState::Playing
            && down) || (state == GameState::GameOver && !confirm),
        state != GameState::Playing && next_state(state, confirm, down) == GameState::Playing
            ==> confirm,
{
}

} // verus!
