//! The command → event → state flow of a game session.
use vstd::prelude::*;

use rand_chacha::rand_core::{RngCore, SeedableRng};
use rand_chacha::ChaCha8Rng;

use crate::command::GameCommand;
use crate::state::{events_view, EventView, GameEvent, GameState};

verus! {

/// The word at position `position` (counted in 32-bit words from the start)
/// of the ChaCha8 stream that `ChaCha8Rng::seed_from_u64(seed)` generates.
pub uninterp spec fn chacha8_word(seed: u64, position: u128) -> u32;

/// Calls `ChaCha8Rng::seed_from_u64(seed)`, `set_word_pos(position)` and
/// `next_u32()`: the generator is deterministic, so the word drawn is a
/// function of the seed and the position alone. Its value is not written
/// out here; it is named `chacha8_word`.
#[verifier::external_body]
fn chacha8_word_at(seed: u64, position: u128) -> (word: u32)
    ensures
        word == chacha8_word(seed, position),
{
    let mut rng = ChaCha8Rng::seed_from_u64(seed);
    rng.set_word_pos(position);
    rng.next_u32()
}

/// The reason given when a command reaches a scene without choices.
pub open spec fn no_choices_reason() -> Seq<char> {
    "the active scene has no choices"@
}

/// The choice that a command selects, from `previous`, among `count`
/// choices: the next one wraps from the last to the first, the previous one
/// from the first to the last.
pub open spec fn selection_after(command: GameCommand, previous: usize) -> usize {
    let count = command.choice_count_of();
    match command {
        GameCommand::SelectNextChoice { .. } => ((previous + 1) % (count as int)) as usize,
        GameCommand::SelectPreviousChoice { .. } => if previous == 0 {
            (count - 1) as usize
        } else {
            (previous - 1) as usize
        },
    }
}

/// The turn after `turn`, staying at the largest `u64`.
pub open spec fn next_turn(turn: u64) -> u64 {
    if turn == u64::MAX { turn } else { (turn + 1) as u64 }
}

/// The events that the rules produce for `command` in a state whose
/// selected choice is `selected` and whose turn is `turn`.
pub open spec fn command_events(selected: usize, turn: u64, command: GameCommand) -> Seq<EventView> {
    if command.choice_count_of() == 0 {
        seq![EventView::CommandRejected { reason: no_choices_reason() }]
    } else {
        seq![
            EventView::ChoiceSelectionChanged {
                previous: selected,
                current: selection_after(command, selected),
            },
            EventView::TurnAdvanced { turn: next_turn(turn) },
        ]
    }
}

/// The selected choice and turn after one event.
pub open spec fn apply_event(position: (usize, u64), event: EventView) -> (usize, u64) {
    match event {
        EventView::ChoiceSelectionChanged { current, .. } => (current, position.1),
        EventView::TurnAdvanced { turn } => (position.0, turn),
        EventView::CommandRejected { .. } => position,
    }
}

/// The selected choice and turn after `events`, applied in order.
pub open spec fn apply_all(position: (usize, u64), events: Seq<EventView>) -> (usize, u64)
    decreases events.len(),
{
    if events.len() == 0 {
        position
    } else {
        apply_event(apply_all(position, events.drop_last()), events.last())
    }
}

/// A command on a scene with choices selects a valid choice index.
pub proof fn lemma_selection_in_range(command: GameCommand, previous: usize)
    requires
        command.choice_count_of() > 0,
        command matches GameCommand::SelectPreviousChoice { .. } ==> previous < command.choice_count_of(),
    ensures
        selection_after(command, previous) < command.choice_count_of(),
{
}

/// Moving to the next choice and back to the previous one, or the other
/// way round, returns to the choice one started from.
pub proof fn lemma_next_then_previous(count: usize, selected: usize)
    requires
        selected < count,
    ensures
        selection_after(
            GameCommand::SelectPreviousChoice { choice_count: count },
            selection_after(GameCommand::SelectNextChoice { choice_count: count }, selected),
        ) == selected,
        selection_after(
            GameCommand::SelectNextChoice { choice_count: count },
            selection_after(GameCommand::SelectPreviousChoice { choice_count: count }, selected),
        ) == selected,
{
    if selected + 1 < count {
        vstd::arithmetic::div_mod::lemma_small_mod((selected + 1) as nat, count as nat);
    } else {
        vstd::arithmetic::div_mod::lemma_mod_self_0(count as int);
    }
    if selected > 0 {
        vstd::arithmetic::div_mod::lemma_small_mod(selected as nat, count as nat);
    } else {
        vstd::arithmetic::div_mod::lemma_mod_self_0(count as int);
    }
}

/// What a command does to the selected choice and the turn: a rejected
/// command changes neither, any other sets the selection and advances the
/// turn by one, saturating.
pub proof fn lemma_command_outcome(selected: usize, turn: u64, command: GameCommand)
    ensures
        apply_all((selected, turn), command_events(selected, turn, command)) == if command.choice_count_of() == 0 {
            (selected, turn)
        } else {
            (selection_after(command, selected), next_turn(turn))
        },
        apply_all((selected, turn), command_events(selected, turn, command)).1 >= turn,
{
    let events = command_events(selected, turn, command);
    reveal_with_fuel(apply_all, 3);
    if command.choice_count_of() > 0 {
        assert(events.drop_last().drop_last() =~= Seq::<EventView>::empty());
    } else {
        assert(events.drop_last() =~= Seq::<EventView>::empty());
    }
}

/// Applying two runs of events one after the other is applying their
/// concatenation.
pub proof fn lemma_apply_all_concat(position: (usize, u64), first: Seq<EventView>, second: Seq<EventView>)
    ensures
        apply_all(position, first + second) == apply_all(apply_all(position, first), second),
    decreases second.len(),
{
    if second.len() == 0 {
        assert(first + second =~= first);
    } else {
        assert((first + second).drop_last() =~= first + second.drop_last());
        lemma_apply_all_concat(position, first, second.drop_last());
    }
}

/// The event log replays the game: if replaying a log from `start` gives
/// the current selection and turn, replaying it with the events of one more
/// command gives the selection and turn after that command.
pub proof fn lemma_log_replays(start: (usize, u64), log: Seq<EventView>, selected: usize, turn: u64, command: GameCommand)
    requires
        apply_all(start, log) == (selected, turn),
    ensures
        apply_all(start, log + command_events(selected, turn, command)) == apply_all(
            (selected, turn),
            command_events(selected, turn, command),
        ),
{
    lemma_apply_all_concat(start, log, command_events(selected, turn, command));
}

/// A command can be handled in `state`: moving to the next of a non-empty
/// set of choices needs a selected index below the largest `usize`.
pub open spec fn command_fits(state: &GameState, command: GameCommand) -> bool {
    command matches GameCommand::SelectNextChoice { choice_count } && choice_count > 0
        ==> state.selected_choice < usize::MAX
}

/// Converts a command into the list of game events it produces, without
/// changing the state.
///
/// A scene without choices rejects the command; otherwise the selection
/// moves, wrapping at either end, and the turn advances.
pub fn handle_command(state: &GameState, command: &GameCommand) -> (events: Vec<GameEvent>)
    requires
        command_fits(state, *command),
    ensures
        events_view(events@) == command_events(state.selected_choice, state.turn, *command),
{
    let choice_count = match command {
        GameCommand::SelectNextChoice { choice_count } => *choice_count,
        GameCommand::SelectPreviousChoice { choice_count } => *choice_count,
    };
    if choice_count == 0 {
        let events = vec![GameEvent::CommandRejected { reason: "the active scene has no choices".to_owned() }];
        assert(events_view(events@) =~= command_events(state.selected_choice, state.turn, *command));
        return events;
    }
    let previous = state.selected_choice;
    let current = match command {
        GameCommand::SelectNextChoice { .. } => (previous + 1) % choice_count,
        GameCommand::SelectPreviousChoice { .. } => if previous == 0 {
            choice_count - 1
        } else {
            previous - 1
        },
    };
    let next_turn = state.turn.saturating_add(1);
    let events = vec![
        GameEvent::ChoiceSelectionChanged { previous, current },
        GameEvent::TurnAdvanced { turn: next_turn },
    ];
    assert(events_view(events@) =~= command_events(state.selected_choice, state.turn, *command));
    events
}

/// Applies previously generated events to the game state, in order: a
/// selection change sets the selected choice, a turn advance sets the turn,
/// and a rejection changes nothing.
pub fn apply_events(state: &mut GameState, events: &[GameEvent])
    ensures
        (final(state).selected_choice, final(state).turn) == apply_all(
            (old(state).selected_choice, old(state).turn),
            events_view(events@),
        ),
        final(state).active_scene@ == old(state).active_scene@,
        final(state).event_log@ == old(state).event_log@,
{
    let mut i: usize = 0;
    while i < events.len()
        invariant
            i <= events@.len(),
            (state.selected_choice, state.turn) == apply_all(
                (old(state).selected_choice, old(state).turn),
                events_view(events@.subrange(0, i as int)),
            ),
            state.active_scene@ == old(state).active_scene@,
            state.event_log@ == old(state).event_log@,
        decreases events@.len() - i,
    {
        match &events[i] {
            GameEvent::ChoiceSelectionChanged { current, .. } => {
                state.selected_choice = *current;
            },
            GameEvent::TurnAdvanced { turn } => {
                state.turn = *turn;
            },
            GameEvent::CommandRejected { .. } => {},
        }
        assert(events_view(events@.subrange(0, i + 1)).drop_last() =~= events_view(
            events@.subrange(0, i as int),
        ));
        i = i + 1;
    }
    assert(events@.subrange(0, i as int) =~= events@);
}


/// The position after one draw from position `position`.
pub open spec fn next_position(position: u128) -> u128 {
    if position == u128::MAX { 0 } else { (position + 1) as u128 }
}

/// The first `count` random numbers of the stream seeded from `seed`.
pub open spec fn random_sequence(seed: u64, count: nat) -> Seq<u32> {
    Seq::new(count, |i: int| chacha8_word(seed, i as u128))
}

/// Owns the authoritative game state and processes player commands.
///
/// A command becomes events, the events are applied to the state, and they
/// are appended to the state's event log. Random numbers are the words of
/// the ChaCha8 stream of the engine's seed, drawn in order, so a session can
/// be replayed from its seed.
#[derive(Debug)]
pub struct GameEngine {
    state: GameState,
    /// Seed of the random number generator.
    seed: u64,
    /// Position, in 32-bit words, of the next random number in the seed's
    /// stream.
    position: u128,
}

impl GameEngine {
    /// Creates a new engine around `state`, whose random numbers are the
    /// ChaCha8 stream seeded from `seed`, from its start.
    pub fn new(state: GameState, seed: u64) -> (engine: GameEngine)
        ensures
            engine.state_view() == state,
            engine.seed_view() == seed,
            engine.position_view() == 0,
    {
        GameEngine { state, seed, position: 0 }
    }

    /// The current game state.
    pub closed spec fn state_view(&self) -> GameState {
        self.state
    }

    /// The seed of the engine's random numbers.
    pub closed spec fn seed_view(&self) -> u64 {
        self.seed
    }

    /// How many random numbers the engine has drawn, as a position in the
    /// seed's stream.
    pub closed spec fn position_view(&self) -> u128 {
        self.position
    }

    /// Returns the current game state, for reading only.
    pub fn state(&self) -> (state: &GameState)
        ensures
            *state == self.state_view(),
    {
        &self.state
    }

    /// Executes a player command: the events that `handle_command` produces
    /// are applied to the state, appended to its event log, and returned.
    pub fn dispatch(&mut self, command: GameCommand) -> (events: Vec<GameEvent>)
        requires
            command_fits(&old(self).state_view(), command),
        ensures
            events_view(events@) == command_events(
                old(self).state_view().selected_choice,
                old(self).state_view().turn,
                command,
            ),
            (final(self).state_view().selected_choice, final(self).state_view().turn) == apply_all(
                (old(self).state_view().selected_choice, old(self).state_view().turn),
                events_view(events@),
            ),
            final(self).state_view().active_scene@ == old(self).state_view().active_scene@,
            events_view(final(self).state_view().event_log@) == events_view(
                old(self).state_view().event_log@,
            ) + events_view(events@),
            final(self).seed_view() == old(self).seed_view(),
            final(self).position_view() == old(self).position_view(),
    {
        let events = handle_command(&self.state, &command);
        apply_events(&mut self.state, events.as_slice());
        let ghost log_before = self.state.event_log@;
        let ghost applied = (self.state.selected_choice, self.state.turn);
        let ghost scene = self.state.active_scene@;
        let mut i: usize = 0;
        while i < events.len()
            invariant
                i <= events@.len(),
                (self.state.selected_choice, self.state.turn) == applied,
                self.seed == old(self).seed,
                self.position == old(self).position,
                self.state.active_scene@ == scene,
                self.state.event_log@.len() == log_before.len() + i,
                forall|k: int| 0 <= k < log_before.len() ==> (#[trigger] self.state.event_log@[k]) == log_before[k],
                forall|k: int| 0 <= k < i ==> (#[trigger] self.state.event_log@[log_before.len() + k])@ == events@[k]@,
            decreases events@.len() - i,
        {
            let e = events[i].clone();
            self.state.event_log.push(e);
            i = i + 1;
        }
        proof {
            let lhs = events_view(self.state.event_log@);
            let rhs = events_view(log_before) + events_view(events@);
            assert forall|k: int| 0 <= k < lhs.len() implies lhs[k] == rhs[k] by {
                if k >= log_before.len() {
                    let j = k - log_before.len();
                    assert(self.state.event_log@[log_before.len() + j]@ == events@[j]@);
                }
            }
            assert(lhs =~= rhs);
        }
        events
    }

    /// Returns the next `u32` of the seeded generator: the word of the
    /// seed's ChaCha8 stream at the current position, which then moves on
    /// by one word (the stream cycles, so the position wraps).
    pub fn next_random_u32(&mut self) -> (value: u32)
        ensures
            value == chacha8_word(old(self).seed_view(), old(self).position_view()),
            final(self).position_view() == next_position(old(self).position_view()),
            final(self).seed_view() == old(self).seed_view(),
            final(self).state_view() == old(self).state_view(),
    {
        let value = chacha8_word_at(self.seed, self.position);
        self.position = self.position.wrapping_add(1);
        value
    }
}


/// Gameplay randomness is reproducible: two engines with the same seed that
/// have drawn as many numbers, whatever their states and whatever commands
/// they dispatched in between, draw the same next number, and it is the
/// word at that count in the seed's stream.
pub proof fn lemma_same_seed_same_draws(first: GameEngine, second: GameEngine, draws: nat)
    requires
        first.seed_view() == second.seed_view(),
        first.position_view() == draws,
        second.position_view() == draws,
    ensures
        chacha8_word(first.seed_view(), first.position_view()) == chacha8_word(
            second.seed_view(),
            second.position_view(),
        ),
        chacha8_word(first.seed_view(), first.position_view()) == random_sequence(
            first.seed_view(),
            draws + 1,
        )[draws as int],
{
}

} // verus!
