//! Player commands.
use vstd::prelude::*;

verus! {

/// A player action that requests the game state to change.
///
/// Commands represent *intent*, not the result of that intent: the engine
/// validates a command and decides which changes, if any, follow from it.
#[derive(Debug, Clone, Copy, PartialEq, Eq, Structural)]
pub enum GameCommand {
    /// Requests that the selection move to the next available choice.
    SelectNextChoice {
        /// Number of available choices in the active scene.
        choice_count: usize,
    },
    /// Requests that the selection move to the previous available choice.
    SelectPreviousChoice {
        /// Number of available choices in the active scene.
        choice_count: usize,
    },
}

impl GameCommand {
    /// The number of choices the command says the active scene offers.
    pub open spec fn choice_count_of(self) -> usize {
        match self {
            GameCommand::SelectNextChoice { choice_count } => choice_count,
            GameCommand::SelectPreviousChoice { choice_count } => choice_count,
        }
    }
}

} // verus!
