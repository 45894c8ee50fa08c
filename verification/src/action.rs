//! Keyboard input and the semantic actions it maps to.
use vstd::prelude::*;

verus! {

/// A key of the keyboard, as far as the interface tells keys apart.
#[derive(Debug, Clone, Copy, PartialEq, Eq, Structural)]
pub enum KeyCode {
    Up,
    Down,
    Left,
    Right,
    Enter,
    Esc,
    Char(char),
    /// Any other key.
    Other,
}

/// Whether a key event reports a press, a repeat or a release.
#[derive(Debug, Clone, Copy, PartialEq, Eq, Structural)]
pub enum KeyEventKind {
    Press,
    Repeat,
    Release,
}

/// One keyboard event.
#[derive(Debug, Clone, Copy, PartialEq, Eq, Structural)]
pub struct KeyEvent {
    pub code: KeyCode,
    pub kind: KeyEventKind,
}

impl KeyEvent {
    /// A press of the key `code`.
    pub fn new(code: KeyCode) -> (key: KeyEvent)
        ensures
            key == (KeyEvent { code, kind: KeyEventKind::Press }),
    {
        KeyEvent { code, kind: KeyEventKind::Press }
    }
}

/// A semantic action the user can ask the UI to perform.
#[derive(Debug, Clone, Copy, PartialEq, Eq, Structural)]
pub enum UiAction {
    /// Move up inside the currently focused panel.
    MoveUp,
    /// Move down inside the currently focused panel.
    MoveDown,
    /// Move left inside the currently focused panel, or fall back to the
    /// previous panel if the panel has no horizontal layout.
    MoveLeft,
    /// Move right inside the currently focused panel, or fall back to the
    /// next panel if the panel has no horizontal layout.
    MoveRight,
    /// Move focus to the next panel in the dashboard layout.
    FocusNext,
    /// Move focus to the previous panel in the dashboard layout.
    FocusPrevious,
    /// Open or close the inventory sidebar.
    ToggleInventory,
    /// Switch to the next color theme.
    NextTheme,
    Confirm,
    Back,
    OpenCharacter,
    OpenJournal,
    OpenMap,
    OpenHelp,
    Quit,
    /// The key stands for no action.
    Nothing,
}

/// The action that a key code stands for: arrows and `w`/`a`/`s`/`d` move,
/// `j`/`k` move the focus, `i` toggles the inventory, `t` switches the
/// theme, Enter confirms, Esc goes back, `c`/`l`/`m`/`?` open screens, `q`
/// quits, and every other key does nothing.
pub open spec fn action_for_code(code: KeyCode) -> UiAction {
    match code {
        KeyCode::Up => UiAction::MoveUp,
        KeyCode::Down => UiAction::MoveDown,
        KeyCode::Left => UiAction::MoveLeft,
        KeyCode::Right => UiAction::MoveRight,
        KeyCode::Enter => UiAction::Confirm,
        KeyCode::Esc => UiAction::Back,
        KeyCode::Char(c) => if c == 'w' {
            UiAction::MoveUp
        } else if c == 's' {
            UiAction::MoveDown
        } else if c == 'a' {
            UiAction::MoveLeft
        } else if c == 'd' {
            UiAction::MoveRight
        } else if c == 'j' {
            UiAction::FocusNext
        } else if c == 'k' {
            UiAction::FocusPrevious
        } else if c == 'i' {
            UiAction::ToggleInventory
        } else if c == 't' {
            UiAction::NextTheme
        } else if c == 'c' {
            UiAction::OpenCharacter
        } else if c == 'l' {
            UiAction::OpenJournal
        } else if c == 'm' {
            UiAction::OpenMap
        } else if c == '?' {
            UiAction::OpenHelp
        } else if c == 'q' {
            UiAction::Quit
        } else {
            UiAction::Nothing
        },
        KeyCode::Other => UiAction::Nothing,
    }
}

/// The action for a key event: only presses act, so the app acts once per
/// physical key press.
pub open spec fn action_for_key(key: KeyEvent) -> UiAction {
    if key.kind != KeyEventKind::Press {
        UiAction::Nothing
    } else {
        action_for_code(key.code)
    }
}

impl From<KeyEvent> for UiAction {
    /// Converts a key event into the UI action it represents.
    fn from(key: KeyEvent) -> (action: UiAction) {
        if key.kind != KeyEventKind::Press {
            return UiAction::Nothing;
        }
        match key.code {
            KeyCode::Up => UiAction::MoveUp,
            KeyCode::Down => UiAction::MoveDown,
            KeyCode::Left => UiAction::MoveLeft,
            KeyCode::Right => UiAction::MoveRight,
            KeyCode::Enter => UiAction::Confirm,
            KeyCode::Esc => UiAction::Back,
            KeyCode::Char(c) => {
                if c == 'w' {
                    UiAction::MoveUp
                } else if c == 's' {
                    UiAction::MoveDown
                } else if c == 'a' {
                    UiAction::MoveLeft
                } else if c == 'd' {
                    UiAction::MoveRight
                } else if c == 'j' {
                    UiAction::FocusNext
                } else if c == 'k' {
                    UiAction::FocusPrevious
                } else if c == 'i' {
                    UiAction::ToggleInventory
                } else if c == 't' {
                    UiAction::NextTheme
                } else if c == 'c' {
                    UiAction::OpenCharacter
                } else if c == 'l' {
                    UiAction::OpenJournal
                } else if c == 'm' {
                    UiAction::OpenMap
                } else if c == '?' {
                    UiAction::OpenHelp
                } else if c == 'q' {
                    UiAction::Quit
                } else {
                    UiAction::Nothing
                }
            },
            KeyCode::Other => UiAction::Nothing,
        }
    }
}

impl vstd::std_specs::convert::FromSpecImpl<KeyEvent> for UiAction {
    open spec fn obeys_from_spec() -> bool {
        true
    }

    open spec fn from_spec(key: KeyEvent) -> UiAction {
        action_for_key(key)
    }
}

/// Only the documented keys act: a release or repeat, a key outside the
/// arrows, Enter and Esc, and a character other than `w`, `a`, `s`, `d`,
/// `j`, `k`, `i`, `t`, `c`, `l`, `m`, `?` and `q` stand for no action.
pub proof fn lemma_other_keys_do_nothing(key: KeyEvent)
    requires
        key.kind != KeyEventKind::Press || key.code == KeyCode::Other || (key.code matches KeyCode::Char(c) && !(
        c == 'w' || c == 'a' || c == 's' || c == 'd' || c == 'j' || c == 'k' || c == 'i' || c == 't' || c == 'c'
            || c == 'l' || c == 'm' || c == '?' || c == 'q')),
    ensures
        action_for_key(key) == UiAction::Nothing,
{
}

/// Quitting comes from a press of `q` alone, and going back from a press of
/// Esc alone.
pub proof fn lemma_quit_and_back_keys(key: KeyEvent)
    ensures
        action_for_key(key) == UiAction::Quit <==> key.kind == KeyEventKind::Press && key.code == KeyCode::Char('q'),
        action_for_key(key) == UiAction::Back <==> key.kind == KeyEventKind::Press && key.code == KeyCode::Esc,
{
}

/// Each documented key press does what the key help says: arrows and
/// `w`/`a`/`s`/`d` move, `j`/`k` move the focus forward and back, `i`
/// toggles the inventory, `t` switches the theme, Enter confirms, Esc goes
/// back, `c`, `l`, `m` and `?` open the character sheet, the journal, the
/// map and the help, and `q` quits.
pub proof fn lemma_documented_keys(code: KeyCode)
    ensures
        ({
            let action = action_for_key(KeyEvent { code, kind: KeyEventKind::Press });
            &&& (code == KeyCode::Up || code == KeyCode::Char('w')) <==> action == UiAction::MoveUp
            &&& (code == KeyCode::Down || code == KeyCode::Char('s')) <==> action == UiAction::MoveDown
            &&& (code == KeyCode::Left || code == KeyCode::Char('a')) <==> action == UiAction::MoveLeft
            &&& (code == KeyCode::Right || code == KeyCode::Char('d')) <==> action == UiAction::MoveRight
            &&& code == KeyCode::Char('j') <==> action == UiAction::FocusNext
            &&& code == KeyCode::Char('k') <==> action == UiAction::FocusPrevious
            &&& code == KeyCode::Char('i') <==> action == UiAction::ToggleInventory
            &&& code == KeyCode::Char('t') <==> action == UiAction::NextTheme
            &&& code == KeyCode::Enter <==> action == UiAction::Confirm
            &&& code == KeyCode::Esc <==> action == UiAction::Back
            &&& code == KeyCode::Char('c') <==> action == UiAction::OpenCharacter
            &&& code == KeyCode::Char('l') <==> action == UiAction::OpenJournal
            &&& code == KeyCode::Char('m') <==> action == UiAction::OpenMap
            &&& code == KeyCode::Char('?') <==> action == UiAction::OpenHelp
            &&& code == KeyCode::Char('q') <==> action == UiAction::Quit
        }),
{
}

} // verus!
