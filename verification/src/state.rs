//! The state of a game session and the events that change it.
use vstd::prelude::*;

use crate::id::ContentId;

verus! {

/// Represents an action or notable occurrence during gameplay.
#[derive(Debug, PartialEq, Eq)]
pub enum GameEvent {
    /// The player moved the cursor to a different choice.
    ChoiceSelectionChanged {
        /// Choice index before the selection changed.
        previous: usize,
        /// Choice index after the selection changed.
        current: usize,
    },
    /// The player attempted an action that could not be completed.
    CommandRejected {
        /// Human-readable explanation of why the command failed.
        reason: String,
    },
    /// The game's turn counter advanced.
    TurnAdvanced {
        /// The new current turn number.
        turn: u64,
    },
}

/// What an event holds, with its text taken by its characters.
pub enum EventView {
    ChoiceSelectionChanged { previous: usize, current: usize },
    CommandRejected { reason: Seq<char> },
    TurnAdvanced { turn: u64 },
}

impl View for GameEvent {
    type V = EventView;

    open spec fn view(&self) -> EventView {
        match self {
            GameEvent::ChoiceSelectionChanged { previous, current } => EventView::ChoiceSelectionChanged {
                previous: *previous,
                current: *current,
            },
            GameEvent::CommandRejected { reason } => EventView::CommandRejected { reason: reason@ },
            GameEvent::TurnAdvanced { turn } => EventView::TurnAdvanced { turn: *turn },
        }
    }
}

/// The views of a sequence of events.
pub open spec fn events_view(events: Seq<GameEvent>) -> Seq<EventView> {
    events.map_values(|e: GameEvent| e@)
}

impl Clone for GameEvent {
    fn clone(&self) -> (r: Self)
        ensures
            r@ == self@,
    {
        match self {
            GameEvent::ChoiceSelectionChanged { previous, current } => GameEvent::ChoiceSelectionChanged {
                previous: *previous,
                current: *current,
            },
            GameEvent::CommandRejected { reason } => GameEvent::CommandRejected { reason: reason.clone() },
            GameEvent::TurnAdvanced { turn } => GameEvent::TurnAdvanced { turn: *turn },
        }
    }
}

/// Represents the current state of an active game session.
#[derive(Debug, PartialEq, Eq)]
pub struct GameState {
    /// Identifier of the scene currently being shown to the player.
    pub active_scene: ContentId,
    /// Index of the currently highlighted choice within the active scene.
    pub selected_choice: usize,
    /// Number of turns that have elapsed since the game started.
    pub turn: u64,
    /// Chronological record of gameplay events that have occurred.
    pub event_log: Vec<GameEvent>,
}

impl GameState {
    /// Creates a new game state starting at the given scene, with the first
    /// choice selected, no turn elapsed and an empty event log.
    pub fn new(active_scene: ContentId) -> (s: GameState)
        ensures
            s.active_scene@ == active_scene@,
            s.selected_choice == 0,
            s.turn == 0,
            s.event_log@.len() == 0,
    {
        GameState { active_scene, selected_choice: 0, turn: 0, event_log: Vec::new() }
    }
}

impl Clone for GameState {
    fn clone(&self) -> (r: Self)
        ensures
            r.active_scene@ == self.active_scene@,
            r.selected_choice == self.selected_choice,
            r.turn == self.turn,
            events_view(r.event_log@) == events_view(self.event_log@),
    {
        let mut log: Vec<GameEvent> = Vec::new();
        let mut i: usize = 0;
        while i < self.event_log.len()
            invariant
                i <= self.event_log@.len(),
                log@.len() == i,
                forall|k: int| 0 <= k < i ==> (#[trigger] log@[k])@ == self.event_log@[k]@,
            decreases self.event_log@.len() - i,
        {
            let e = self.event_log[i].clone();
            log.push(e);
            i = i + 1;
        }
        assert(events_view(log@) =~= events_view(self.event_log@));
        GameState {
            active_scene: self.active_scene.clone(),
            selected_choice: self.selected_choice,
            turn: self.turn,
            event_log: log,
        }
    }
}

} // verus!
