use storyforge::action::{KeyCode, KeyEvent, KeyEventKind, UiAction};
use storyforge::app::{App, Focus, InputEvent, Screen};
use storyforge::layout::{inventory_widths, mode_for, LayoutMode, Rect};
use storyforge::theme::{dim_color, Color, Theme, ThemeId};
use storyforge::ui::{
    actions_text, compact_panels, footer_segments, header_hint, header_title, inventory_text, ordinal_name,
    pane_style, selected_tab_panel, size_warning_lines, spell_resource_segments, story_text, Panel, Segment, Tone,
};

#[test]
fn arrow_keys_should_map_to_directional_movement() {
    let up = KeyEvent::new(KeyCode::Up);
    let down = KeyEvent::new(KeyCode::Down);
    let left = KeyEvent::new(KeyCode::Left);
    let right = KeyEvent::new(KeyCode::Right);

    assert_eq!(UiAction::from(up), UiAction::MoveUp);
    assert_eq!(UiAction::from(down), UiAction::MoveDown);
    assert_eq!(UiAction::from(left), UiAction::MoveLeft);
    assert_eq!(UiAction::from(right), UiAction::MoveRight);
}

#[test]
fn wasd_keys_should_map_to_directional_movement() {
    let up = KeyEvent::new(KeyCode::Char('w'));
    let down = KeyEvent::new(KeyCode::Char('s'));
    let left = KeyEvent::new(KeyCode::Char('a'));
    let right = KeyEvent::new(KeyCode::Char('d'));

    assert_eq!(UiAction::from(up), UiAction::MoveUp);
    assert_eq!(UiAction::from(down), UiAction::MoveDown);
    assert_eq!(UiAction::from(left), UiAction::MoveLeft);
    assert_eq!(UiAction::from(right), UiAction::MoveRight);
}

#[test]
fn j_and_k_should_move_focus() {
    let next = KeyEvent::new(KeyCode::Char('j'));
    let previous = KeyEvent::new(KeyCode::Char('k'));

    assert_eq!(UiAction::from(next), UiAction::FocusNext);
    assert_eq!(UiAction::from(previous), UiAction::FocusPrevious);
}

#[test]
fn i_should_toggle_inventory() {
    let key = KeyEvent::new(KeyCode::Char('i'));

    assert_eq!(UiAction::from(key), UiAction::ToggleInventory);
}

#[test]
fn t_should_cycle_to_the_next_theme() {
    let key = KeyEvent::new(KeyCode::Char('t'));

    assert_eq!(UiAction::from(key), UiAction::NextTheme);
}

#[test]
fn l_should_open_journal() {
    let key = KeyEvent::new(KeyCode::Char('l'));

    assert_eq!(UiAction::from(key), UiAction::OpenJournal);
}

#[test]
fn other_keys_and_releases_do_nothing() {
    assert_eq!(UiAction::from(KeyEvent::new(KeyCode::Char('z'))), UiAction::Nothing);
    assert_eq!(UiAction::from(KeyEvent::new(KeyCode::Other)), UiAction::Nothing);
    let release = KeyEvent { code: KeyCode::Char('q'), kind: KeyEventKind::Release };
    assert_eq!(UiAction::from(release), UiAction::Nothing);
    let repeat = KeyEvent { code: KeyCode::Up, kind: KeyEventKind::Repeat };
    assert_eq!(UiAction::from(repeat), UiAction::Nothing);
    assert_eq!(UiAction::from(KeyEvent::new(KeyCode::Enter)), UiAction::Confirm);
    assert_eq!(UiAction::from(KeyEvent::new(KeyCode::Esc)), UiAction::Back);
    assert_eq!(UiAction::from(KeyEvent::new(KeyCode::Char('c'))), UiAction::OpenCharacter);
    assert_eq!(UiAction::from(KeyEvent::new(KeyCode::Char('m'))), UiAction::OpenMap);
    assert_eq!(UiAction::from(KeyEvent::new(KeyCode::Char('?'))), UiAction::OpenHelp);
}

#[test]
fn q_should_request_quit() {
    let mut app = App::default();

    let key = KeyEvent::new(KeyCode::Char('q'));

    app.handle_event(&InputEvent::Key(key));

    assert!(app.should_quit);
}

#[test]
fn other_events_are_ignored() {
    let mut app = App::default();
    app.handle_event(&InputEvent::Other);
    assert!(!app.should_quit);
    assert_eq!(app.screen, Screen::Story);
}

#[test]
fn movement_should_cycle_through_tabs() {
    let mut app = App::default();

    // Put the app on any screen where Up/Down controls tabs.
    app.screen = Screen::Character;

    app.update(UiAction::MoveDown);
    assert_eq!(app.selected_tab, 1);

    app.update(UiAction::MoveDown);
    assert_eq!(app.selected_tab, 2);

    app.update(UiAction::MoveDown);
    assert_eq!(app.selected_tab, 3);

    app.update(UiAction::MoveDown);
    assert_eq!(app.selected_tab, 0);

    app.update(UiAction::MoveUp);
    assert_eq!(app.selected_tab, 3);

    app.update(UiAction::MoveUp);
    assert_eq!(app.selected_tab, 2);

    app.update(UiAction::MoveUp);
    assert_eq!(app.selected_tab, 1);

    app.update(UiAction::MoveUp);
    assert_eq!(app.selected_tab, 0);
}

#[test]
fn down_on_story_should_dispatch_to_the_engine() {
    let mut app = App::default();

    app.update(UiAction::MoveDown);

    assert_eq!(app.engine.state().selected_choice, 1);
}

#[test]
fn back_returns_to_story_then_quits() {
    let mut app = App::default();
    app.update(UiAction::OpenHelp);
    assert_eq!(app.screen, Screen::Help);
    app.update(UiAction::Back);
    assert_eq!(app.screen, Screen::Story);
    assert!(!app.should_quit);
    app.update(UiAction::Back);
    assert!(app.should_quit);
}

#[test]
fn screens_open_from_their_actions() {
    let mut app = App::default();
    app.update(UiAction::OpenCharacter);
    assert_eq!(app.screen, Screen::Character);
    app.update(UiAction::OpenJournal);
    assert_eq!(app.screen, Screen::Journal);
    app.update(UiAction::OpenMap);
    assert_eq!(app.screen, Screen::WorldMap);
    app.update(UiAction::Confirm);
    app.update(UiAction::Nothing);
    assert_eq!(app.screen, Screen::WorldMap);
    assert!(!app.should_quit);
}

#[test]
fn focus_cycles_through_the_panels() {
    let mut app = App::default();
    assert_eq!(app.focus, Focus::Actions);
    app.update(UiAction::FocusNext);
    assert_eq!(app.focus, Focus::Character);
    app.update(UiAction::MoveRight);
    assert_eq!(app.focus, Focus::Quest);
    app.update(UiAction::FocusNext);
    assert_eq!(app.focus, Focus::Log);
    app.update(UiAction::FocusNext);
    assert_eq!(app.focus, Focus::Story);
    app.update(UiAction::FocusPrevious);
    assert_eq!(app.focus, Focus::Log);
    app.update(UiAction::ToggleInventory);
    app.update(UiAction::FocusNext);
    assert_eq!(app.focus, Focus::Inventory);
    app.update(UiAction::ToggleInventory);
    assert!(!app.inventory_open);
    assert_eq!(app.focus, Focus::Actions);
    app.update(UiAction::MoveLeft);
    assert_eq!(app.focus, Focus::Story);
}

#[test]
fn next_theme_switches_the_palette() {
    let mut app = App::default();
    assert_eq!(app.theme_id, ThemeId::Lion);
    app.update(UiAction::NextTheme);
    assert_eq!(app.theme_id, ThemeId::Raven);
    assert_eq!(app.theme.background, Theme::raven().background);
}

#[test]
fn mode_should_be_too_small_below_minimum_width() {
    assert_eq!(mode_for(Rect::new(0, 0, 79, 24)), LayoutMode::TooSmall);
}

#[test]
fn mode_should_be_compact_at_minimum_size() {
    assert_eq!(mode_for(Rect::new(0, 0, 80, 24)), LayoutMode::Compact);
}

#[test]
fn mode_should_be_standard_at_recommended_size() {
    assert_eq!(mode_for(Rect::new(0, 0, 120, 36)), LayoutMode::Standard);
}

#[test]
fn mode_is_compact_below_standard_height() {
    assert_eq!(mode_for(Rect::new(0, 0, 120, 29)), LayoutMode::Compact);
    assert_eq!(mode_for(Rect::new(0, 0, 200, 23)), LayoutMode::TooSmall);
}

#[test]
fn inventory_takes_its_share_of_the_width() {
    assert_eq!(inventory_widths(120, LayoutMode::Standard), (80, 40));
    assert_eq!(inventory_widths(81, LayoutMode::Compact), (41, 40));
    assert_eq!(inventory_widths(16, LayoutMode::TooSmall), (2, 14));
}

#[test]
fn dim_color_should_darken_rgb_by_the_given_fraction() {
    let color = Color::Rgb(100, 120, 140);
    let dimmed = dim_color(color, 3, 4);

    assert_eq!(dimmed, Color::Rgb(75, 90, 105));
}

#[test]
fn dim_color_should_leave_non_rgb_colors_unchanged() {
    assert_eq!(dim_color(Color::Reset, 3, 4), Color::Reset);
}

#[test]
fn theme_dim_should_darken_every_channel() {
    let bright = Theme::lion();
    let dimmed = bright.dim();

    // The background is the easiest channel to reason about.
    assert_eq!(dimmed.background, Color::Rgb(9, 0, 0));
}

#[test]
fn theme_id_should_cycle_through_houses() {
    assert_eq!(ThemeId::Lion.next(), ThemeId::Raven);
    assert_eq!(ThemeId::Raven.next(), ThemeId::Badger);
    assert_eq!(ThemeId::Badger.next(), ThemeId::Serpent);
    assert_eq!(ThemeId::Serpent.next(), ThemeId::Lion);
}

#[test]
fn theme_id_name_should_match_the_house() {
    assert_eq!(ThemeId::Lion.name(), "Lion");
    assert_eq!(ThemeId::Raven.name(), "Raven");
    assert_eq!(ThemeId::Badger.name(), "Badger");
    assert_eq!(ThemeId::Serpent.name(), "Serpent");
}

#[test]
fn themes_for_ids_match_the_constructors() {
    assert_eq!(Theme::for_id(ThemeId::Lion), Theme::lion());
    assert_eq!(Theme::for_id(ThemeId::Badger), Theme::badger());
    assert_eq!(Theme::for_id(ThemeId::Serpent).accent, Color::Rgb(192, 192, 192));
    assert_eq!(Theme::default().text, Color::Rgb(51, 152, 219));
}

#[test]
fn unfocused_panes_are_dimmed() {
    let theme = Theme::lion();
    assert_eq!(pane_style(theme, true), (theme, Color::Rgb(255, 186, 51)));
    let (dimmed, border) = pane_style(theme, false);
    assert_eq!(dimmed, theme.dim());
    assert_eq!(border, Color::Rgb(162, 93, 24));
}

fn seg(text: &str, tone: Tone) -> Segment {
    Segment { text: text.to_owned(), tone }
}

#[test]
fn footer_lists_slots_points_and_controls() {
    let app = App::default();
    assert_eq!(
        footer_segments(&app),
        vec![
            seg("SLOTS ", Tone::Muted),
            seg("1:3/4", Tone::Text),
            seg("  ", Tone::Muted),
            seg("2:2/2", Tone::Text),
            seg("  ", Tone::Muted),
            seg(" | ", Tone::Muted),
            seg("SP ", Tone::Muted),
            seg("3/3", Tone::Text),
            seg(" | ", Tone::Muted),
            seg("j/k", Tone::Focus),
            seg(" focus  ", Tone::Muted),
            seg("w/a/s/d", Tone::Focus),
            seg(" move  ", Tone::Muted),
            seg("t", Tone::Focus),
            seg(" theme", Tone::Muted),
        ]
    );
}

#[test]
fn footer_without_slots_says_none() {
    let mut app = App::default();
    app.spell_slots_max = [0; 9];
    app.sorcery_points = None;
    let segments = footer_segments(&app);
    assert_eq!(segments[1], seg("none", Tone::Muted));
    assert_eq!(segments[2], seg(" | ", Tone::Muted));
}

#[test]
fn spell_line_marks_empty_levels_and_temporary_slots() {
    let mut app = App::default();
    app.spell_slots_current = [0, 2, 0, 0, 0, 0, 0, 0, 1];
    app.spell_slots_max = [4, 2, 0, 0, 0, 0, 0, 0, 1];
    app.spell_slots_temp = [0, 0, 1, 0, 0, 0, 0, 0, 0];
    app.sorcery_points = Some((0, 5));
    assert_eq!(
        spell_resource_segments(&app),
        vec![
            seg("Slots ", Tone::Muted),
            seg("1st 0/4", Tone::Danger),
            seg("  ", Tone::Muted),
            seg("2nd 2/2", Tone::Text),
            seg("  ", Tone::Muted),
            seg("3rd 0/0", Tone::Danger),
            seg("(+1)", Tone::Success),
            seg("  ", Tone::Muted),
            seg("9th 1/1", Tone::Text),
            seg("  ", Tone::Muted),
            seg("SP ", Tone::Muted),
            seg("0/5", Tone::Danger),
        ]
    );
}

#[test]
fn ordinals_name_the_nine_levels() {
    assert_eq!(ordinal_name(1), "1st");
    assert_eq!(ordinal_name(2), "2nd");
    assert_eq!(ordinal_name(3), "3rd");
    assert_eq!(ordinal_name(4), "4th");
    assert_eq!(ordinal_name(9), "9th");
    assert_eq!(ordinal_name(0), "?");
    assert_eq!(ordinal_name(10), "?");
}

#[test]
fn panel_texts_follow_the_screen_and_selection() {
    let mut app = App::default();
    assert_eq!(
        actions_text(&app),
        "\n> Ask about the sealed gate.\n  Look for another route.\n\n[j/k] Choose  [Enter] Confirm"
    );
    app.update(UiAction::MoveDown);
    assert_eq!(
        actions_text(&app),
        "\n  Ask about the sealed gate.\n> Look for another route.\n\n[j/k] Choose  [Enter] Confirm"
    );
    app.update(UiAction::OpenMap);
    assert_eq!(actions_text(&app), "\n[c] Character\n[l] Journal\n[m] Map\n[?] Help\n[Esc] Back/Quit");
    assert_eq!(story_text(Screen::Story), "The academy doors stand open. What do you do?");
    assert_eq!(story_text(Screen::WorldMap), "Map will appear here.");
}

#[test]
fn header_shows_title_and_hints() {
    assert_eq!(header_title(ThemeId::Badger), "Storyforge - Badger");
    let hint = header_hint();
    assert_eq!(hint.len(), 10);
    assert_eq!(hint[0], seg("q/Esc", Tone::Focus));
    assert_eq!(hint[9], seg(" theme", Tone::Muted));
}

#[test]
fn size_warning_reports_the_size() {
    assert_eq!(
        size_warning_lines(60, 20),
        vec![
            "Storyforge needs at least 80 columns x 24 rows.".to_owned(),
            "Current size: 60 x 20".to_owned(),
            "Resize the terminal or press q to quit.".to_owned(),
        ]
    );
}

#[test]
fn inventory_marks_the_selected_item() {
    let mut app = App::default();
    assert_eq!(inventory_text(&app), "\n\n[w/a/s/d] Move  [i] Close");
    app.inventory_items = vec!["Wand".to_owned(), "Cloak".to_owned()];
    app.inventory_selected = 1;
    assert_eq!(inventory_text(&app), "\n  Wand\n> Cloak\n\n[w/a/s/d] Move  [i] Close");
}

#[test]
fn tabs_select_their_panels() {
    assert_eq!(selected_tab_panel(0), Panel::Actions);
    assert_eq!(selected_tab_panel(1), Panel::Character);
    assert_eq!(selected_tab_panel(2), Panel::Quest);
    assert_eq!(selected_tab_panel(7), Panel::Log);
}

#[test]
fn the_compact_layout_never_shows_a_panel_twice() {
    assert_eq!(compact_panels(0), vec![Panel::Actions]);
    assert_eq!(compact_panels(4), vec![Panel::Actions]);
    assert_eq!(compact_panels(1), vec![Panel::Actions, Panel::Character]);
    assert_eq!(compact_panels(2), vec![Panel::Actions, Panel::Quest]);
    assert_eq!(compact_panels(3), vec![Panel::Actions, Panel::Log]);
    for tab in 0..12 {
        let panels = compact_panels(tab);
        assert_eq!(panels.last(), Some(&selected_tab_panel(tab)));
        assert!(panels.len() < 2 || panels[0] != panels[1]);
    }
}

#[test]
fn dim_never_brightens() {
    for theme in [Theme::lion(), Theme::raven(), Theme::badger(), Theme::serpent(), Theme::default()] {
        let dimmed = theme.dim();
        for (bright, dark) in [(theme.background, dimmed.background), (theme.text, dimmed.text), (theme.focus, dimmed.focus)] {
            match (bright, dark) {
                (Color::Rgb(r, g, b), Color::Rgb(dr, dg, db)) => assert!(dr <= r && dg <= g && db <= b),
                _ => panic!("house themes use RGB colors"),
            }
        }
    }
}

#[test]
fn four_theme_switches_return_to_the_start() {
    let mut id = ThemeId::Serpent;
    for _ in 0..4 {
        id = id.next();
    }
    assert_eq!(id, ThemeId::Serpent);
}
