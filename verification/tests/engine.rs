use rand_chacha::rand_core::{RngCore, SeedableRng};
use storyforge::{apply_events, handle_command, ContentId, GameCommand, GameEngine, GameEvent, GameState, IdError};

fn engine() -> Result<GameEngine, IdError> {
    let scene = ContentId::new("academy.scene.arrival")?;
    Ok(GameEngine::new(GameState::new(scene), 42))
}

#[test]
fn next_choice_should_advance_selection() -> Result<(), IdError> {
    let mut engine = engine()?;

    let events = engine.dispatch(GameCommand::SelectNextChoice { choice_count: 3 });

    assert!(matches!(
        events.as_slice(),
        [
            GameEvent::ChoiceSelectionChanged {
                previous: 0,
                current: 1
            },
            GameEvent::TurnAdvanced { turn: 1 }
        ]
    ));
    assert_eq!(engine.state().selected_choice, 1);
    Ok(())
}

#[test]
fn previous_choice_should_wrap_at_start() -> Result<(), IdError> {
    let mut engine = engine()?;

    engine.dispatch(GameCommand::SelectPreviousChoice { choice_count: 3 });

    assert_eq!(engine.state().selected_choice, 2);
    Ok(())
}

#[test]
fn empty_choice_list_should_emit_rejection() -> Result<(), IdError> {
    let mut engine = engine()?;

    let events = engine.dispatch(GameCommand::SelectNextChoice { choice_count: 0 });

    assert!(matches!(
        events.as_slice(),
        [GameEvent::CommandRejected { reason }]
            if reason == "the active scene has no choices"
    ));
    assert_eq!(engine.state().selected_choice, 0);
    Ok(())
}

#[test]
fn dispatch_appends_events_to_the_log() {
    let mut engine = engine().unwrap();
    engine.dispatch(GameCommand::SelectNextChoice { choice_count: 2 });
    engine.dispatch(GameCommand::SelectNextChoice { choice_count: 0 });
    let log = &engine.state().event_log;
    assert_eq!(log.len(), 3);
    assert_eq!(log[0], GameEvent::ChoiceSelectionChanged { previous: 0, current: 1 });
    assert_eq!(log[1], GameEvent::TurnAdvanced { turn: 1 });
    assert_eq!(
        log[2],
        GameEvent::CommandRejected { reason: "the active scene has no choices".to_owned() }
    );
    assert_eq!(engine.state().turn, 1);
    assert_eq!(engine.state().active_scene.as_str(), "academy.scene.arrival");
}

#[test]
fn next_choice_wraps_at_end() {
    let mut state = GameState::new(ContentId::new("a.b").unwrap());
    state.selected_choice = 2;
    let events = handle_command(&state, &GameCommand::SelectNextChoice { choice_count: 3 });
    assert_eq!(
        events,
        vec![
            GameEvent::ChoiceSelectionChanged { previous: 2, current: 0 },
            GameEvent::TurnAdvanced { turn: 1 },
        ]
    );
}

#[test]
fn previous_choice_moves_back_one() {
    let mut state = GameState::new(ContentId::new("a.b").unwrap());
    state.selected_choice = 2;
    state.turn = 7;
    let events = handle_command(&state, &GameCommand::SelectPreviousChoice { choice_count: 3 });
    assert_eq!(
        events,
        vec![
            GameEvent::ChoiceSelectionChanged { previous: 2, current: 1 },
            GameEvent::TurnAdvanced { turn: 8 },
        ]
    );
}

#[test]
fn turn_saturates_at_the_largest_value() {
    let mut state = GameState::new(ContentId::new("a.b").unwrap());
    state.turn = u64::MAX;
    let events = handle_command(&state, &GameCommand::SelectNextChoice { choice_count: 2 });
    assert_eq!(events[1], GameEvent::TurnAdvanced { turn: u64::MAX });
}

#[test]
fn next_then_previous_returns_to_the_same_choice() {
    let mut engine = engine().unwrap();
    engine.dispatch(GameCommand::SelectNextChoice { choice_count: 4 });
    engine.dispatch(GameCommand::SelectPreviousChoice { choice_count: 4 });
    assert_eq!(engine.state().selected_choice, 0);
    assert_eq!(engine.state().turn, 2);
}

#[test]
fn apply_events_follows_the_events_in_order() {
    let mut state = GameState::new(ContentId::new("a.b").unwrap());
    let events = vec![
        GameEvent::ChoiceSelectionChanged { previous: 0, current: 4 },
        GameEvent::TurnAdvanced { turn: 9 },
        GameEvent::CommandRejected { reason: "no".to_owned() },
        GameEvent::ChoiceSelectionChanged { previous: 4, current: 2 },
    ];
    apply_events(&mut state, &events);
    assert_eq!(state.selected_choice, 2);
    assert_eq!(state.turn, 9);
    assert!(state.event_log.is_empty());
}

#[test]
fn replaying_the_log_reproduces_the_state() {
    let mut engine = engine().unwrap();
    engine.dispatch(GameCommand::SelectNextChoice { choice_count: 3 });
    engine.dispatch(GameCommand::SelectNextChoice { choice_count: 3 });
    engine.dispatch(GameCommand::SelectPreviousChoice { choice_count: 0 });
    let mut replay = GameState::new(ContentId::new("academy.scene.arrival").unwrap());
    apply_events(&mut replay, &engine.state().event_log);
    assert_eq!(replay.selected_choice, engine.state().selected_choice);
    assert_eq!(replay.turn, engine.state().turn);
}

#[test]
fn same_seed_gives_same_random_numbers() {
    let mut a = engine().unwrap();
    let mut b = engine().unwrap();
    for _ in 0..5 {
        assert_eq!(a.next_random_u32(), b.next_random_u32());
    }
    let first = engine().unwrap().next_random_u32();
    let mut c = engine().unwrap();
    c.next_random_u32();
    assert_ne!(first, c.next_random_u32());
}

#[test]
fn game_state_starts_fresh() {
    let state = GameState::new(ContentId::new("story.intro").unwrap());
    assert_eq!(state.active_scene.as_str(), "story.intro");
    assert_eq!(state.selected_choice, 0);
    assert_eq!(state.turn, 0);
    assert!(state.event_log.is_empty());
    let copy = state.clone();
    assert_eq!(copy, state);
}

#[test]
fn random_numbers_follow_the_seeded_chacha8_stream() {
    let mut stream = rand_chacha::ChaCha8Rng::seed_from_u64(42);
    let mut engine = engine().unwrap();
    engine.dispatch(GameCommand::SelectNextChoice { choice_count: 2 });
    for _ in 0..40 {
        assert_eq!(engine.next_random_u32(), stream.next_u32());
        engine.dispatch(GameCommand::SelectPreviousChoice { choice_count: 3 });
    }
}

#[test]
fn different_seeds_give_different_numbers() {
    let mut a = GameEngine::new(GameState::new(ContentId::new("a.b").unwrap()), 1);
    let mut b = GameEngine::new(GameState::new(ContentId::new("a.b").unwrap()), 2);
    let first: Vec<u32> = (0..4).map(|_| a.next_random_u32()).collect();
    let second: Vec<u32> = (0..4).map(|_| b.next_random_u32()).collect();
    assert_ne!(first, second);
}
