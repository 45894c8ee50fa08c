//! Application state of the terminal interface and how input changes it.
use vstd::prelude::*;

use crate::action::{action_for_key, KeyCode, KeyEvent, KeyEventKind, UiAction};
use crate::command::GameCommand;
use crate::engine::{
    apply_all, command_events, command_fits, lemma_command_outcome, lemma_next_then_previous, GameEngine,
};
use crate::id::ContentId;
use crate::state::{events_view, GameState};
use crate::theme::{academy_palette, palette_of, Theme, ThemeId};

verus! {

/// Top-level screens the player can navigate between.
#[derive(Debug, Clone, Copy, PartialEq, Eq, Structural)]
pub enum Screen {
    /// Interactive story view.
    Story,
    /// Character sheet.
    Character,
    /// Quest and event journal.
    Journal,
    /// World map.
    WorldMap,
    /// Help and keyboard shortcuts.
    Help,
}

impl Default for Screen {
    fn default() -> (screen: Screen)
        ensures
            screen == Screen::Story,
    {
        Screen::Story
    }
}

/// Indicates which area of the interface currently receives keyboard input.
#[derive(Debug, Clone, Copy, PartialEq, Eq, Structural)]
pub enum Focus {
    /// Action list or choice list.
    Actions,
    /// Story text panel.
    Story,
    /// Character summary panel.
    Character,
    /// Quest tracker panel.
    Quest,
    /// Event or combat log.
    Log,
    /// Inventory sidebar, while it is open.
    Inventory,
}

impl Default for Focus {
    fn default() -> (focus: Focus)
        ensures
            focus == Focus::Actions,
    {
        Focus::Actions
    }
}

/// A terminal event, as far as the interface tells events apart.
#[derive(Debug, Clone, Copy, PartialEq, Eq, Structural)]
pub enum InputEvent {
    /// A keyboard event.
    Key(KeyEvent),
    /// Any other event: mouse, resize or focus.
    Other,
}

/// The panel after `focus` in the dashboard order: story, actions,
/// character, quests, log, then the inventory while it is open, and back to
/// the story.
pub open spec fn focus_after(focus: Focus, inventory_open: bool) -> Focus {
    match focus {
        Focus::Story => Focus::Actions,
        Focus::Actions => Focus::Character,
        Focus::Character => Focus::Quest,
        Focus::Quest => Focus::Log,
        Focus::Log => if inventory_open { Focus::Inventory } else { Focus::Story },
        Focus::Inventory => Focus::Story,
    }
}

/// The panel before `focus` in the dashboard order.
pub open spec fn focus_before(focus: Focus, inventory_open: bool) -> Focus {
    match focus {
        Focus::Story => if inventory_open { Focus::Inventory } else { Focus::Log },
        Focus::Actions => Focus::Story,
        Focus::Character => Focus::Actions,
        Focus::Quest => Focus::Character,
        Focus::Log => Focus::Quest,
        Focus::Inventory => Focus::Log,
    }
}

/// The focus can rest on `focus`: the inventory only while it is open.
pub open spec fn focus_visible(focus: Focus, inventory_open: bool) -> bool {
    focus == Focus::Inventory ==> inventory_open
}

fn next_focus(focus: Focus, inventory_open: bool) -> (next: Focus)
    ensures
        next == focus_after(focus, inventory_open),
{
    match focus {
        Focus::Story => Focus::Actions,
        Focus::Actions => Focus::Character,
        Focus::Character => Focus::Quest,
        Focus::Quest => Focus::Log,
        Focus::Log => if inventory_open { Focus::Inventory } else { Focus::Story },
        Focus::Inventory => Focus::Story,
    }
}

fn previous_focus(focus: Focus, inventory_open: bool) -> (previous: Focus)
    ensures
        previous == focus_before(focus, inventory_open),
{
    match focus {
        Focus::Story => if inventory_open { Focus::Inventory } else { Focus::Log },
        Focus::Actions => Focus::Story,
        Focus::Character => Focus::Actions,
        Focus::Quest => Focus::Character,
        Focus::Log => Focus::Quest,
        Focus::Inventory => Focus::Log,
    }
}

/// Holds every piece of visible application state, and owns the gameplay
/// engine: the interface never implements game rules itself, it converts
/// input into commands for the engine.
#[derive(Debug)]
pub struct App {
    /// Set once the user has requested to exit the application.
    pub should_quit: bool,
    /// The currently visible top-level screen.
    pub screen: Screen,
    /// Which pane currently owns keyboard focus.
    pub focus: Focus,
    /// Index of the currently selected compact-mode tab.
    pub selected_tab: usize,
    /// Deterministic gameplay engine.
    pub engine: GameEngine,
    /// Active color theme used throughout the UI.
    pub theme: Theme,
    /// The house whose name the header shows.
    pub theme_id: ThemeId,
    /// Whether the inventory sidebar is shown.
    pub inventory_open: bool,
    /// Items listed in the inventory sidebar.
    pub inventory_items: Vec<String>,
    /// Index of the highlighted inventory item.
    pub inventory_selected: usize,
    /// Current spell-slot count for spell levels 1 through 9.
    pub spell_slots_current: [u8; 9],
    /// Maximum spell-slot count for spell levels 1 through 9.
    pub spell_slots_max: [u8; 9],
    /// Temporary spell-slot count for spell levels 1 through 9.
    pub spell_slots_temp: [u8; 9],
    /// Current and maximum sorcery points; `None` when the character does
    /// not have the feature.
    pub sorcery_points: Option<(u8, u8)>,
}

/// The number of choices the story screen currently offers.
pub open spec fn story_choice_count() -> usize {
    2
}

/// The engine command that `action` sends on `screen`, if any: moving up or
/// down on the story screen moves through the story's choices.
pub open spec fn story_command(screen: Screen, action: UiAction) -> Option<GameCommand> {
    if screen == Screen::Story && action == UiAction::MoveDown {
        Some(GameCommand::SelectNextChoice { choice_count: story_choice_count() })
    } else if screen == Screen::Story && action == UiAction::MoveUp {
        Some(GameCommand::SelectPreviousChoice { choice_count: story_choice_count() })
    } else {
        None
    }
}

/// The screen after `action`: the open actions show their screen, going
/// back from a secondary screen returns to the story.
pub open spec fn screen_after(screen: Screen, action: UiAction) -> Screen {
    match action {
        UiAction::OpenCharacter => Screen::Character,
        UiAction::OpenJournal => Screen::Journal,
        UiAction::OpenMap => Screen::WorldMap,
        UiAction::OpenHelp => Screen::Help,
        UiAction::Back => Screen::Story,
        _ => screen,
    }
}

/// Whether the app quits after `action`: quitting, or going back while on
/// the story screen.
pub open spec fn quits_after(should_quit: bool, screen: Screen, action: UiAction) -> bool {
    should_quit || action == UiAction::Quit || (action == UiAction::Back && screen == Screen::Story)
}

/// The compact-mode tab after `action`: moving down or up away from the
/// story screen cycles through the four tabs.
pub open spec fn tab_after(tab: usize, screen: Screen, action: UiAction) -> usize {
    if screen != Screen::Story && action == UiAction::MoveDown {
        ((tab + 1) % 4) as usize
    } else if screen != Screen::Story && action == UiAction::MoveUp {
        if tab == 0 { 3 } else { (tab - 1) as usize }
    } else {
        tab
    }
}

/// Whether the inventory is open after `action`.
pub open spec fn inventory_after(open: bool, action: UiAction) -> bool {
    if action == UiAction::ToggleInventory { !open } else { open }
}

/// The focus after `action`: right and left fall back to the next and the
/// previous panel, since no panel has a horizontal layout; closing the
/// inventory while it has the focus moves the focus to the actions.
pub open spec fn focus_after_action(focus: Focus, open: bool, action: UiAction) -> Focus {
    match action {
        UiAction::FocusNext | UiAction::MoveRight => focus_after(focus, open),
        UiAction::FocusPrevious | UiAction::MoveLeft => focus_before(focus, open),
        UiAction::ToggleInventory => if open && focus == Focus::Inventory {
            Focus::Actions
        } else {
            focus
        },
        _ => focus,
    }
}

/// The house theme after `action`.
pub open spec fn theme_id_after(id: ThemeId, action: UiAction) -> ThemeId {
    if action == UiAction::NextTheme { id.following() } else { id }
}

/// How `action` changes the app from `before` to `after`: screens open
/// and close, the app quits, the tab, the focus, the inventory and the
/// theme change as the `*_after` functions say, and the rest stays; on the
/// story screen, moving up and down dispatches a selection command to the
/// engine, whose state changes as `GameEngine::dispatch` says.
pub open spec fn app_after(before: App, after: App, action: UiAction) -> bool {
    &&& after.screen == screen_after(before.screen, action)
    &&& after.should_quit == quits_after(before.should_quit, before.screen, action)
    &&& after.selected_tab == tab_after(before.selected_tab, before.screen, action)
    &&& after.inventory_open == inventory_after(before.inventory_open, action)
    &&& after.focus == focus_after_action(before.focus, before.inventory_open, action)
    &&& after.theme_id == theme_id_after(before.theme_id, action)
    &&& after.theme == if action == UiAction::NextTheme {
        palette_of(before.theme_id.following())
    } else {
        before.theme
    }
    &&& after.inventory_items@ == before.inventory_items@
    &&& after.inventory_selected == before.inventory_selected
    &&& after.spell_slots_current == before.spell_slots_current
    &&& after.spell_slots_max == before.spell_slots_max
    &&& after.spell_slots_temp == before.spell_slots_temp
    &&& after.sorcery_points == before.sorcery_points
    &&& after.engine.seed_view() == before.engine.seed_view()
    &&& after.engine.position_view() == before.engine.position_view()
    &&& story_command(before.screen, action) is None ==> after.engine.state_view()
        == before.engine.state_view()
    &&& story_command(before.screen, action) matches Some(command) ==> {
        let old_state = before.engine.state_view();
        let new_state = after.engine.state_view();
        let events = command_events(old_state.selected_choice, old_state.turn, command);
        &&& (new_state.selected_choice, new_state.turn) == apply_all(
            (old_state.selected_choice, old_state.turn),
            events,
        )
        &&& new_state.active_scene@ == old_state.active_scene@
        &&& events_view(new_state.event_log@) == events_view(old_state.event_log@) + events
    }
}

impl App {
    /// The arithmetic of `action` fits its integer types: moving down
    /// through the tabs needs a tab index below the largest `usize`, and a
    /// command for the engine must fit the engine's state.
    pub open spec fn update_fits(&self, action: UiAction) -> bool {
        &&& self.screen != Screen::Story && action == UiAction::MoveDown ==> self.selected_tab < usize::MAX
        &&& story_command(self.screen, action) matches Some(command) ==> command_fits(
            &self.engine.state_view(),
            command,
        )
    }

    /// Returns the number of visible choices for the current tab.
    pub fn visible_choice_count(&self) -> (count: usize)
        ensures
            count == story_choice_count(),
    {
        2
    }

    /// Applies a semantic UI action to the application state, as
    /// [`app_after`] says.
    pub fn update(&mut self, action: UiAction)
        requires
            old(self).update_fits(action),
        ensures
            app_after(*old(self), *final(self), action),
    {
        match action {
            UiAction::OpenCharacter => self.screen = Screen::Character,
            UiAction::OpenJournal => self.screen = Screen::Journal,
            UiAction::OpenMap => self.screen = Screen::WorldMap,
            UiAction::OpenHelp => self.screen = Screen::Help,
            UiAction::Back => {
                if self.screen != Screen::Story {
                    self.screen = Screen::Story;
                } else {
                    self.should_quit = true;
                }
            },
            UiAction::Quit => self.should_quit = true,
            UiAction::MoveDown => {
                if self.screen == Screen::Story {
                    let choice_count = self.visible_choice_count();
                    self.engine.dispatch(GameCommand::SelectNextChoice { choice_count });
                } else {
                    self.selected_tab = (self.selected_tab + 1) % 4;
                }
            },
            UiAction::MoveUp => {
                if self.screen == Screen::Story {
                    let choice_count = self.visible_choice_count();
                    self.engine.dispatch(GameCommand::SelectPreviousChoice { choice_count });
                } else {
                    self.selected_tab = if self.selected_tab == 0 {
                        3
                    } else {
                        self.selected_tab - 1
                    };
                }
            },
            UiAction::FocusNext | UiAction::MoveRight => {
                self.focus = next_focus(self.focus, self.inventory_open);
            },
            UiAction::FocusPrevious | UiAction::MoveLeft => {
                self.focus = previous_focus(self.focus, self.inventory_open);
            },
            UiAction::ToggleInventory => {
                if self.inventory_open && self.focus == Focus::Inventory {
                    self.focus = Focus::Actions;
                }
                self.inventory_open = !self.inventory_open;
            },
            UiAction::NextTheme => {
                self.theme_id = self.theme_id.next();
                self.theme = Theme::for_id(self.theme_id);
            },
            UiAction::Confirm | UiAction::Nothing => {},
        }
    }

    /// Handles a single terminal event: a key event is converted into its
    /// semantic action, which is applied; any other event is ignored.
    pub fn handle_event(&mut self, event: &InputEvent)
        requires
            event matches InputEvent::Key(key) ==> old(self).update_fits(action_for_key(*key)),
        ensures
            event matches InputEvent::Other ==> *final(self) == *old(self),
            event matches InputEvent::Key(key) ==> app_after(*old(self), *final(self), action_for_key(*key)),
    {
        let key = match event {
            InputEvent::Key(key) => *key,
            InputEvent::Other => {
                return;
            },
        };
        let action = UiAction::from(key);
        self.update(action);
    }
}

/// Going back from a secondary screen returns to the story without
/// quitting; going back on the story screen quits.
pub proof fn lemma_back_returns_to_story(screen: Screen)
    ensures
        screen_after(screen, UiAction::Back) == Screen::Story,
        quits_after(false, screen, UiAction::Back) <==> screen == Screen::Story,
{
}

/// Moving the focus to the next panel and back to the previous one, or the
/// other way round, returns to the panel one started from.
pub proof fn lemma_focus_round_trip(focus: Focus, inventory_open: bool)
    requires
        focus_visible(focus, inventory_open),
    ensures
        focus_before(focus_after(focus, inventory_open), inventory_open) == focus,
        focus_after(focus_before(focus, inventory_open), inventory_open) == focus,
{
}

/// The focus never rests on a hidden inventory: every action keeps it on a
/// visible panel.
pub proof fn lemma_focus_stays_visible(focus: Focus, inventory_open: bool, action: UiAction)
    requires
        focus_visible(focus, inventory_open),
    ensures
        focus_visible(
            focus_after_action(focus, inventory_open, action),
            inventory_after(inventory_open, action),
        ),
{
}

/// The compact tab stays one of the four tabs, and moving down then up, or
/// up then down, returns to the tab one started from.
pub proof fn lemma_tab_cycle(tab: usize, screen: Screen, action: UiAction)
    requires
        tab < 4,
        screen != Screen::Story,
    ensures
        tab_after(tab, screen, action) < 4,
        tab_after(tab_after(tab, screen, UiAction::MoveDown), screen, UiAction::MoveUp) == tab,
        tab_after(tab_after(tab, screen, UiAction::MoveUp), screen, UiAction::MoveDown) == tab,
{
}

/// After switching the theme, the palette is the one of the house the
/// header names.
pub proof fn lemma_next_theme_matches_palette(before: App, after: App)
    requires
        app_after(before, after, UiAction::NextTheme),
    ensures
        after.theme == palette_of(after.theme_id),
        after.theme_id == before.theme_id.following(),
{
}

/// Toggling the inventory twice leaves it as it was.
pub proof fn lemma_toggle_twice(open: bool)
    ensures
        inventory_after(inventory_after(open, UiAction::ToggleInventory), UiAction::ToggleInventory) == open,
{
}

/// What each action does to the screens, quitting, the compact tabs, the
/// inventory and the engine: the open actions show their screens, only
/// quitting and going back can make the app quit, moving up or down away
/// from the story cycles through the four tabs without touching the game,
/// no other action than moving up or down changes the game, and the
/// inventory toggle flips the sidebar.
pub proof fn lemma_action_effects(before: App, after: App, action: UiAction)
    requires
        app_after(before, after, action),
    ensures
        action == UiAction::OpenCharacter ==> after.screen == Screen::Character,
        action == UiAction::OpenJournal ==> after.screen == Screen::Journal,
        action == UiAction::OpenMap ==> after.screen == Screen::WorldMap,
        action == UiAction::OpenHelp ==> after.screen == Screen::Help,
        action == UiAction::Quit ==> after.should_quit,
        action != UiAction::Quit && action != UiAction::Back ==> after.should_quit == before.should_quit,
        action != UiAction::Back && action != UiAction::OpenCharacter && action != UiAction::OpenJournal && action
            != UiAction::OpenMap && action != UiAction::OpenHelp ==> after.screen == before.screen,
        before.screen != Screen::Story && action == UiAction::MoveDown ==> after.selected_tab == (
        before.selected_tab + 1) % 4,
        before.screen != Screen::Story && action == UiAction::MoveUp ==> after.selected_tab == if before.selected_tab
            == 0 {
            3
        } else {
            before.selected_tab - 1
        },
        before.screen == Screen::Story || (action != UiAction::MoveDown && action != UiAction::MoveUp)
            ==> after.selected_tab == before.selected_tab,
        before.screen != Screen::Story || (action != UiAction::MoveDown && action != UiAction::MoveUp)
            ==> after.engine.state_view() == before.engine.state_view(),
        action == UiAction::ToggleInventory ==> after.inventory_open == !before.inventory_open,
        action != UiAction::ToggleInventory ==> after.inventory_open == before.inventory_open,
{
}

/// The scene the app starts in until campaigns are loaded from disk.
pub open spec fn starting_scene() -> Seq<char> {
    "academy.scene.arrival"@
}

impl Default for App {
    /// The starting app: the story screen with the actions focused, the
    /// first tab, an engine seeded with `42` on the starting scene, the
    /// neutral theme under the Lion house, the inventory closed and empty,
    /// and demonstration spell resources.
    fn default() -> (app: App)
        ensures
            !app.should_quit,
            app.screen == Screen::Story,
            app.focus == Focus::Actions,
            app.selected_tab == 0,
            app.engine.state_view().active_scene@ == starting_scene(),
            app.engine.state_view().selected_choice == 0,
            app.engine.state_view().turn == 0,
            app.engine.state_view().event_log@.len() == 0,
            app.engine.seed_view() == 42,
            app.engine.position_view() == 0,
            app.theme == academy_palette(),
            app.theme_id == ThemeId::Lion,
            !app.inventory_open,
            app.inventory_items@.len() == 0,
            app.inventory_selected == 0,
            app.spell_slots_current@ == seq![3u8, 2, 0, 0, 0, 0, 0, 0, 0],
            app.spell_slots_max@ == seq![4u8, 2, 0, 0, 0, 0, 0, 0, 0],
            app.spell_slots_temp@ == seq![0u8, 0, 0, 0, 0, 0, 0, 0, 0],
            app.sorcery_points == Some((3u8, 3u8)),
    {
        let created = ContentId::new("academy.scene.arrival");
        proof {
            reveal_strlit("academy.scene.arrival");
            assert("academy.scene.arrival"@[7] == '.');
        }
        let active_scene = match created {
            Ok(id) => id,
            Err(_) => vstd::pervasive::unreached(),
        };
        let app = App {
            should_quit: false,
            screen: Screen::Story,
            focus: Focus::Actions,
            selected_tab: 0,
            engine: GameEngine::new(GameState::new(active_scene), 42),
            theme: Theme::default(),
            theme_id: ThemeId::Lion,
            inventory_open: false,
            inventory_items: Vec::new(),
            inventory_selected: 0,
            spell_slots_current: [3, 2, 0, 0, 0, 0, 0, 0, 0],
            spell_slots_max: [4, 2, 0, 0, 0, 0, 0, 0, 0],
            spell_slots_temp: [0, 0, 0, 0, 0, 0, 0, 0, 0],
            sorcery_points: Some((3, 3)),
        };
        assert(app.spell_slots_current@ =~= seq![3u8, 2, 0, 0, 0, 0, 0, 0, 0]);
        assert(app.spell_slots_max@ =~= seq![4u8, 2, 0, 0, 0, 0, 0, 0, 0]);
        assert(app.spell_slots_temp@ =~= seq![0u8, 0, 0, 0, 0, 0, 0, 0, 0]);
        app
    }
}

/// On the story screen, moving down selects the next story choice,
/// wrapping from the last to the first, advances the turn (saturating at
/// the largest `u64`) and logs two events; the screen stays the story.
pub proof fn lemma_story_move_down(before: App, after: App)
    requires
        before.screen == Screen::Story,
        app_after(before, after, UiAction::MoveDown),
    ensures
        after.screen == Screen::Story,
        after.engine.state_view().selected_choice == (before.engine.state_view().selected_choice + 1)
            % (story_choice_count() as int),
        after.engine.state_view().turn == if before.engine.state_view().turn == u64::MAX {
            before.engine.state_view().turn as int
        } else {
            before.engine.state_view().turn + 1
        },
        after.engine.state_view().event_log@.len() == before.engine.state_view().event_log@.len() + 2,
{
    let old_state = before.engine.state_view();
    let command = GameCommand::SelectNextChoice { choice_count: story_choice_count() };
    lemma_command_outcome(old_state.selected_choice, old_state.turn, command);
    assert(events_view(after.engine.state_view().event_log@).len() == after.engine.state_view().event_log@.len());
    assert(events_view(old_state.event_log@).len() == old_state.event_log@.len());
}

/// On the story screen, moving up selects the previous story choice,
/// wrapping from the first to the last, advances the turn (saturating at
/// the largest `u64`) and logs two events; the screen stays the story.
pub proof fn lemma_story_move_up(before: App, after: App)
    requires
        before.screen == Screen::Story,
        app_after(before, after, UiAction::MoveUp),
    ensures
        after.screen == Screen::Story,
        after.engine.state_view().selected_choice == if before.engine.state_view().selected_choice == 0 {
            story_choice_count() - 1
        } else {
            before.engine.state_view().selected_choice - 1
        },
        after.engine.state_view().turn == if before.engine.state_view().turn == u64::MAX {
            before.engine.state_view().turn as int
        } else {
            before.engine.state_view().turn + 1
        },
        after.engine.state_view().event_log@.len() == before.engine.state_view().event_log@.len() + 2,
{
    let old_state = before.engine.state_view();
    let command = GameCommand::SelectPreviousChoice { choice_count: story_choice_count() };
    lemma_command_outcome(old_state.selected_choice, old_state.turn, command);
    assert(events_view(after.engine.state_view().event_log@).len() == after.engine.state_view().event_log@.len());
    assert(events_view(old_state.event_log@).len() == old_state.event_log@.len());
}

/// On the story screen, moving down and then up, or up and then down,
/// returns the selection to the story choice it started from.
pub proof fn lemma_story_moves_undo(start: App, middle: App, end: App, first: UiAction, second: UiAction)
    requires
        start.screen == Screen::Story,
        start.engine.state_view().selected_choice < story_choice_count(),
        (first == UiAction::MoveDown && second == UiAction::MoveUp) || (first == UiAction::MoveUp && second
            == UiAction::MoveDown),
        app_after(start, middle, first),
        app_after(middle, end, second),
    ensures
        end.screen == Screen::Story,
        end.engine.state_view().selected_choice == start.engine.state_view().selected_choice,
{
    let s = start.engine.state_view().selected_choice;
    if first == UiAction::MoveDown {
        lemma_story_move_down(start, middle);
        lemma_story_move_up(middle, end);
    } else {
        lemma_story_move_up(start, middle);
        lemma_story_move_down(middle, end);
    }
    lemma_next_then_previous(story_choice_count(), s);
}

/// The app starts quitting only on a press of `q`, or of Esc on the story
/// screen; once quitting it stays so.
pub proof fn lemma_only_q_and_esc_quit(before: App, after: App, key: KeyEvent)
    requires
        app_after(before, after, action_for_key(key)),
    ensures
        before.should_quit ==> after.should_quit,
        !before.should_quit && after.should_quit ==> key.kind == KeyEventKind::Press && (key.code
            == KeyCode::Char('q') || (key.code == KeyCode::Esc && before.screen == Screen::Story)),
{
}

} // verus!
