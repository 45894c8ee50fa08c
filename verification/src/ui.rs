//! What the interface shows: the texts and tones of its panels, header and
//! footer, computed from the application state. Drawing them on a terminal
//! is left to the caller.
use vstd::prelude::*;

use crate::app::{App, Screen};
use crate::layout::{MIN_HEIGHT, MIN_WIDTH};
use crate::text::{decimal, decimal_string};
use crate::theme::{dimmed_theme, Color, Theme, ThemeId};

verus! {

/// The semantic color of a piece of text, looked up in the active theme.
#[derive(Debug, Clone, Copy, PartialEq, Eq, Structural)]
pub enum Tone {
    Text,
    Muted,
    Accent,
    Success,
    Danger,
    Focus,
}

/// A piece of text with its tone.
#[derive(Debug, PartialEq, Eq)]
pub struct Segment {
    pub text: String,
    pub tone: Tone,
}

/// What a segment holds, with its text taken by its characters.
pub struct SegmentView {
    pub text: Seq<char>,
    pub tone: Tone,
}

impl View for Segment {
    type V = SegmentView;

    open spec fn view(&self) -> SegmentView {
        SegmentView { text: self.text@, tone: self.tone }
    }
}

/// The views of a sequence of segments.
pub open spec fn segments_view(s: Seq<Segment>) -> Seq<SegmentView> {
    s.map_values(|x: Segment| x@)
}

/// A segment view from its text and tone.
pub open spec fn seg(text: Seq<char>, tone: Tone) -> SegmentView {
    SegmentView { text, tone }
}

fn segment(text: String, tone: Tone) -> (s: Segment)
    ensures
        s@ == seg(text@, tone),
{
    Segment { text, tone }
}

fn segment_of(text: &str, tone: Tone) -> (s: Segment)
    ensures
        s@ == seg(text@, tone),
{
    Segment { text: text.to_owned(), tone }
}

/// The panels of the detail area.
#[derive(Debug, Clone, Copy, PartialEq, Eq, Structural)]
pub enum Panel {
    Actions,
    Character,
    Quest,
    Log,
}

/// Which panel the compact layout shows for the selected tab.
pub open spec fn panel_for_tab(tab: usize) -> Panel {
    if tab % 4 == 0 {
        Panel::Actions
    } else if tab % 4 == 1 {
        Panel::Character
    } else if tab % 4 == 2 {
        Panel::Quest
    } else {
        Panel::Log
    }
}

/// Returns the panel of the compact layout's selected tab.
pub fn selected_tab_panel(tab: usize) -> (panel: Panel)
    ensures
        panel == panel_for_tab(tab),
{
    let t = tab % 4;
    if t == 0 {
        Panel::Actions
    } else if t == 1 {
        Panel::Character
    } else if t == 2 {
        Panel::Quest
    } else {
        Panel::Log
    }
}

/// The panels the compact layout shows below the story, top to bottom: a
/// preview of the actions, unless the selected tab is itself the actions
/// panel, then the selected tab's panel.
pub open spec fn compact_panel_order(tab: usize) -> Seq<Panel> {
    if panel_for_tab(tab) == Panel::Actions {
        seq![Panel::Actions]
    } else {
        seq![Panel::Actions, panel_for_tab(tab)]
    }
}

/// Returns the panels of the compact layout below the story, top to
/// bottom. The actions are always among them, the selected tab's panel
/// comes last, and the same panel never appears twice.
pub fn compact_panels(tab: usize) -> (panels: Vec<Panel>)
    ensures
        panels@ == compact_panel_order(tab),
        panels@.contains(Panel::Actions),
        panels@.last() == panel_for_tab(tab),
        forall|i: int, j: int| 0 <= i < j < panels@.len() ==> panels@[i] != panels@[j],
{
    let selected = selected_tab_panel(tab);
    let mut panels: Vec<Panel> = Vec::new();
    panels.push(Panel::Actions);
    if selected != Panel::Actions {
        panels.push(selected);
    }
    assert(panels@[0] == Panel::Actions);
    panels
}

/// The palette and border color of a pane: the full palette and the focus
/// color when the pane has the focus, otherwise the dimmed palette and its
/// accent color.
pub open spec fn pane_palette(theme: Theme, focused: bool) -> (Theme, Color) {
    if focused {
        (theme, theme.focus)
    } else {
        (dimmed_theme(theme), dimmed_theme(theme).accent)
    }
}

/// Returns the palette and border color of a pane.
pub fn pane_style(theme: Theme, focused: bool) -> (style: (Theme, Color))
    ensures
        style == pane_palette(theme, focused),
{
    let palette = if focused { theme } else { theme.dim() };
    let border = if focused { palette.focus } else { palette.accent };
    (palette, border)
}

/// The short ordinal name of a spell level.
pub open spec fn ordinal_text(n: usize) -> Seq<char> {
    if n == 1 { "1st"@ }
    else if n == 2 { "2nd"@ }
    else if n == 3 { "3rd"@ }
    else if n == 4 { "4th"@ }
    else if n == 5 { "5th"@ }
    else if n == 6 { "6th"@ }
    else if n == 7 { "7th"@ }
    else if n == 8 { "8th"@ }
    else if n == 9 { "9th"@ }
    else { "?"@ }
}

/// Short ordinal names for the nine spell-slot levels; `?` otherwise.
pub fn ordinal_name(n: usize) -> (name: &'static str)
    ensures
        name@ == ordinal_text(n),
{
    match n {
        1 => "1st",
        2 => "2nd",
        3 => "3rd",
        4 => "4th",
        5 => "5th",
        6 => "6th",
        7 => "7th",
        8 => "8th",
        9 => "9th",
        _ => "?",
    }
}

/// The story panel's text for a screen.
pub open spec fn story_panel_text(screen: Screen) -> Seq<char> {
    match screen {
        Screen::Story => "The academy doors stand open. What do you do?"@,
        Screen::Character => "Character sheet will appear here."@,
        Screen::Journal => "Journal entries will appear here."@,
        Screen::WorldMap => "Map will appear here."@,
        Screen::Help => "Help text will appear here."@,
    }
}

/// Returns the story panel's text for a screen.
pub fn story_text(screen: Screen) -> (text: &'static str)
    ensures
        text@ == story_panel_text(screen),
{
    match screen {
        Screen::Story => "The academy doors stand open. What do you do?",
        Screen::Character => "Character sheet will appear here.",
        Screen::Journal => "Journal entries will appear here.",
        Screen::WorldMap => "Map will appear here.",
        Screen::Help => "Help text will appear here.",
    }
}

/// The actions panel's text: on the story screen the two story choices,
/// the selected one marked with `>`, and the keys that choose; elsewhere
/// the keys that change screens.
pub open spec fn actions_panel_text(screen: Screen, selected: usize) -> Seq<char> {
    if screen == Screen::Story {
        let first = if selected == 0 { "> Ask about the sealed gate."@ } else { "  Ask about the sealed gate."@ };
        let second = if selected == 1 { "> Look for another route."@ } else { "  Look for another route."@ };
        "\n"@ + first + "\n"@ + second + "\n\n[j/k] Choose  [Enter] Confirm"@
    } else {
        "\n[c] Character\n[l] Journal\n[m] Map\n[?] Help\n[Esc] Back/Quit"@
    }
}

/// Returns the actions panel's text for the app's screen and selected
/// story choice.
pub fn actions_text(app: &App) -> (text: String)
    ensures
        text@ == actions_panel_text(app.screen, app.engine.state_view().selected_choice),
{
    if app.screen == Screen::Story {
        let selected = app.engine.state().selected_choice;
        let first = if selected == 0 { "> Ask about the sealed gate." } else { "  Ask about the sealed gate." };
        let second = if selected == 1 { "> Look for another route." } else { "  Look for another route." };
        let mut text = "\n".to_owned();
        text.append(first);
        text.append("\n");
        text.append(second);
        text.append("\n\n[j/k] Choose  [Enter] Confirm");
        text
    } else {
        "\n[c] Character\n[l] Journal\n[m] Map\n[?] Help\n[Esc] Back/Quit".to_owned()
    }
}

/// The header's title: the app name and the house theme's name.
pub open spec fn header_title_text(id: ThemeId) -> Seq<char> {
    "Storyforge - "@ + id.display_name()
}

/// Returns the header's title.
pub fn header_title(id: ThemeId) -> (title: String)
    ensures
        title@ == header_title_text(id),
{
    let mut title = "Storyforge - ".to_owned();
    title.append(id.name());
    title
}

/// The header's keyboard hints.
pub open spec fn header_hint_segments() -> Seq<SegmentView> {
    seq![
        seg("q/Esc"@, Tone::Focus),
        seg(" quit  "@, Tone::Muted),
        seg("c/l/m/?"@, Tone::Focus),
        seg(" screens  "@, Tone::Muted),
        seg("i"@, Tone::Focus),
        seg(" inv  "@, Tone::Muted),
        seg("j/k"@, Tone::Focus),
        seg(" focus  "@, Tone::Muted),
        seg("t"@, Tone::Focus),
        seg(" theme"@, Tone::Muted),
    ]
}

/// Returns the header's keyboard hints.
pub fn header_hint() -> (hint: Vec<Segment>)
    ensures
        segments_view(hint@) == header_hint_segments(),
{
    let hint = vec![
        segment_of("q/Esc", Tone::Focus),
        segment_of(" quit  ", Tone::Muted),
        segment_of("c/l/m/?", Tone::Focus),
        segment_of(" screens  ", Tone::Muted),
        segment_of("i", Tone::Focus),
        segment_of(" inv  ", Tone::Muted),
        segment_of("j/k", Tone::Focus),
        segment_of(" focus  ", Tone::Muted),
        segment_of("t", Tone::Focus),
        segment_of(" theme", Tone::Muted),
    ];
    assert(segments_view(hint@) =~= header_hint_segments());
    hint
}

/// The lines of the warning shown when the terminal is too small.
pub open spec fn size_warning_text(width: u16, height: u16) -> Seq<Seq<char>> {
    seq![
        "Storyforge needs at least "@ + decimal(MIN_WIDTH as nat) + " columns x "@ + decimal(
            MIN_HEIGHT as nat,
        ) + " rows."@,
        "Current size: "@ + decimal(width as nat) + " x "@ + decimal(height as nat),
        "Resize the terminal or press q to quit."@,
    ]
}

/// Returns the lines of the warning shown when the terminal is too small.
pub fn size_warning_lines(width: u16, height: u16) -> (lines: Vec<String>)
    ensures
        lines@.map_values(|l: String| l@) == size_warning_text(width, height),
{
    let mut first = "Storyforge needs at least ".to_owned();
    first.append(decimal_string(MIN_WIDTH as u64).as_str());
    first.append(" columns x ");
    first.append(decimal_string(MIN_HEIGHT as u64).as_str());
    first.append(" rows.");
    let mut second = "Current size: ".to_owned();
    second.append(decimal_string(width as u64).as_str());
    second.append(" x ");
    second.append(decimal_string(height as u64).as_str());
    let third = "Resize the terminal or press q to quit.".to_owned();
    let lines = vec![first, second, third];
    assert(lines@.map_values(|l: String| l@) =~= size_warning_text(width, height));
    lines
}

/// The tone of a resource count: danger when none is left.
pub open spec fn count_tone(current: u8) -> Tone {
    if current == 0 { Tone::Danger } else { Tone::Text }
}

/// A resource count shown as `current/max`.
pub open spec fn fraction_text(current: u8, max: u8) -> Seq<char> {
    decimal(current as nat) + "/"@ + decimal(max as nat)
}

/// A spell level is shown when it has slots or temporary slots.
pub open spec fn level_shown(max: Seq<u8>, temp: Seq<u8>, level: int) -> bool {
    !(max[level] == 0 && temp[level] == 0)
}

/// The temporary slots of a level, shown as `(+n)` when there are any.
pub open spec fn temp_segments(temp: u8) -> Seq<SegmentView> {
    if temp > 0 {
        seq![seg("(+"@ + decimal(temp as nat) + ")"@, Tone::Success)]
    } else {
        seq![]
    }
}

/// The footer's entries for the first `k` spell levels: each shown level
/// as `level:current/max`, its temporary slots, and a gap.
pub open spec fn footer_slot_segments(current: Seq<u8>, max: Seq<u8>, temp: Seq<u8>, k: int) -> Seq<SegmentView>
    decreases k,
{
    if k <= 0 {
        seq![]
    } else {
        let level = k - 1;
        footer_slot_segments(current, max, temp, level) + if level_shown(max, temp, level) {
            seq![seg(decimal(k as nat) + ":"@ + fraction_text(current[level], max[level]), count_tone(current[level]))]
                + temp_segments(temp[level]) + seq![seg("  "@, Tone::Muted)]
        } else {
            seq![]
        }
    }
}

/// The spell line's entries for the first `k` spell levels: each shown
/// level as `ordinal current/max`, its temporary slots, and a gap.
pub open spec fn line_slot_segments(current: Seq<u8>, max: Seq<u8>, temp: Seq<u8>, k: int) -> Seq<SegmentView>
    decreases k,
{
    if k <= 0 {
        seq![]
    } else {
        let level = k - 1;
        line_slot_segments(current, max, temp, level) + if level_shown(max, temp, level) {
            seq![seg(ordinal_text(k as usize) + " "@ + fraction_text(current[level], max[level]), count_tone(current[level]))]
                + temp_segments(temp[level]) + seq![seg("  "@, Tone::Muted)]
        } else {
            seq![]
        }
    }
}

/// The footer's controls reminder.
pub open spec fn footer_controls() -> Seq<SegmentView> {
    seq![
        seg(" | "@, Tone::Muted),
        seg("j/k"@, Tone::Focus),
        seg(" focus  "@, Tone::Muted),
        seg("w/a/s/d"@, Tone::Focus),
        seg(" move  "@, Tone::Muted),
        seg("t"@, Tone::Focus),
        seg(" theme"@, Tone::Muted),
    ]
}

/// The footer: the spell slots of every shown level (or `none`), the
/// sorcery points when the character has them, and the controls reminder.
pub open spec fn footer_text(app: &App) -> Seq<SegmentView> {
    let current = app.spell_slots_current@;
    let max = app.spell_slots_max@;
    let temp = app.spell_slots_temp@;
    seq![seg("SLOTS "@, Tone::Muted)] + footer_slot_segments(current, max, temp, 9) + (if !(exists|l: int|
        0 <= l < 9 && #[trigger] level_shown(max, temp, l)) {
        seq![seg("none"@, Tone::Muted)]
    } else {
        seq![]
    }) + match app.sorcery_points {
        Some((c, m)) => seq![seg(" | "@, Tone::Muted), seg("SP "@, Tone::Muted), seg(fraction_text(c, m), count_tone(c))],
        None => seq![],
    } + footer_controls()
}

/// The spell-resource line of the character panel: the spell slots of
/// every shown level, then the sorcery points when the character has them.
pub open spec fn spell_line_text(app: &App) -> Seq<SegmentView> {
    seq![seg("Slots "@, Tone::Muted)] + line_slot_segments(
        app.spell_slots_current@,
        app.spell_slots_max@,
        app.spell_slots_temp@,
        9,
    ) + match app.sorcery_points {
        Some((c, m)) => seq![seg("SP "@, Tone::Muted), seg(fraction_text(c, m), count_tone(c))],
        None => seq![],
    }
}

proof fn lemma_footer_slot_entry(current: Seq<u8>, max: Seq<u8>, temp: Seq<u8>, k: int, level: int) -> (i: int)
    requires
        0 <= level < k,
        !(max[level] == 0 && temp[level] == 0),
    ensures
        0 <= i,
        i + 1 < footer_slot_segments(current, max, temp, k).len(),
        footer_slot_segments(current, max, temp, k)[i] == seg(
            decimal((level + 1) as nat) + ":"@ + fraction_text(current[level], max[level]),
            count_tone(current[level]),
        ),
        footer_slot_segments(current, max, temp, k)[i + 1] == if temp[level] > 0 {
            seg("(+"@ + decimal(temp[level] as nat) + ")"@, Tone::Success)
        } else {
            seg("  "@, Tone::Muted)
        },
    decreases k,
{
    let prefix = footer_slot_segments(current, max, temp, k - 1);
    if level < k - 1 {
        let i = lemma_footer_slot_entry(current, max, temp, k - 1, level);
        assert(footer_slot_segments(current, max, temp, k)[i] == prefix[i]);
        assert(footer_slot_segments(current, max, temp, k)[i + 1] == prefix[i + 1]);
        i
    } else {
        prefix.len() as int
    }
}

proof fn lemma_line_slot_entry(current: Seq<u8>, max: Seq<u8>, temp: Seq<u8>, k: int, level: int) -> (i: int)
    requires
        0 <= level < k,
        !(max[level] == 0 && temp[level] == 0),
    ensures
        0 <= i,
        i + 1 < line_slot_segments(current, max, temp, k).len(),
        line_slot_segments(current, max, temp, k)[i] == seg(
            ordinal_text((level + 1) as usize) + " "@ + fraction_text(current[level], max[level]),
            count_tone(current[level]),
        ),
        line_slot_segments(current, max, temp, k)[i + 1] == if temp[level] > 0 {
            seg("(+"@ + decimal(temp[level] as nat) + ")"@, Tone::Success)
        } else {
            seg("  "@, Tone::Muted)
        },
    decreases k,
{
    let prefix = line_slot_segments(current, max, temp, k - 1);
    if level < k - 1 {
        let i = lemma_line_slot_entry(current, max, temp, k - 1, level);
        assert(line_slot_segments(current, max, temp, k)[i] == prefix[i]);
        assert(line_slot_segments(current, max, temp, k)[i + 1] == prefix[i + 1]);
        i
    } else {
        prefix.len() as int
    }
}

/// The footer shows every spell level that has slots or temporary slots as
/// `level:current/max`, right after it the temporary slots as a success
/// `(+n)` when there are any, or else the gap to the next entry.
pub proof fn lemma_footer_shows_slot_levels(app: &App, level: int)
    requires
        0 <= level < 9,
        !(app.spell_slots_max@[level] == 0 && app.spell_slots_temp@[level] == 0),
    ensures
        exists|i: int|
            #![trigger footer_text(app)[i]]
            {
                &&& 0 <= i
                &&& i + 1 < footer_text(app).len()
                &&& footer_text(app)[i] == seg(
                    decimal((level + 1) as nat) + ":"@ + (decimal(app.spell_slots_current@[level] as nat) + "/"@
                        + decimal(app.spell_slots_max@[level] as nat)),
                    if app.spell_slots_current@[level] == 0 { Tone::Danger } else { Tone::Text },
                )
                &&& footer_text(app)[i + 1] == if app.spell_slots_temp@[level] > 0 {
                    seg("(+"@ + decimal(app.spell_slots_temp@[level] as nat) + ")"@, Tone::Success)
                } else {
                    seg("  "@, Tone::Muted)
                }
            },
{
    let current = app.spell_slots_current@;
    let max = app.spell_slots_max@;
    let temp = app.spell_slots_temp@;
    let slots = footer_slot_segments(current, max, temp, 9);
    let i = lemma_footer_slot_entry(current, max, temp, 9, level);
    let head = seq![seg("SLOTS "@, Tone::Muted)];
    let f = footer_text(app);
    assert(f[1 + i] == slots[i]);
    assert(f[1 + i + 1] == slots[i + 1]);
}

/// The character panel's spell line shows every spell level that has slots
/// or temporary slots as `ordinal current/max`, right after it the
/// temporary slots as a success `(+n)` when there are any, or else the gap
/// to the next entry.
pub proof fn lemma_spell_line_shows_slot_levels(app: &App, level: int)
    requires
        0 <= level < 9,
        !(app.spell_slots_max@[level] == 0 && app.spell_slots_temp@[level] == 0),
    ensures
        exists|i: int|
            #![trigger spell_line_text(app)[i]]
            {
                &&& 0 <= i
                &&& i + 1 < spell_line_text(app).len()
                &&& spell_line_text(app)[i] == seg(
                    ordinal_text((level + 1) as usize) + " "@ + (decimal(app.spell_slots_current@[level] as nat)
                        + "/"@ + decimal(app.spell_slots_max@[level] as nat)),
                    if app.spell_slots_current@[level] == 0 { Tone::Danger } else { Tone::Text },
                )
                &&& spell_line_text(app)[i + 1] == if app.spell_slots_temp@[level] > 0 {
                    seg("(+"@ + decimal(app.spell_slots_temp@[level] as nat) + ")"@, Tone::Success)
                } else {
                    seg("  "@, Tone::Muted)
                }
            },
{
    let current = app.spell_slots_current@;
    let max = app.spell_slots_max@;
    let temp = app.spell_slots_temp@;
    let slots = line_slot_segments(current, max, temp, 9);
    let i = lemma_line_slot_entry(current, max, temp, 9, level);
    let l = spell_line_text(app);
    assert(l[1 + i] == slots[i]);
    assert(l[1 + i + 1] == slots[i + 1]);
}

proof fn lemma_no_slot_entries(current: Seq<u8>, max: Seq<u8>, temp: Seq<u8>, k: int)
    requires
        forall|l: int| 0 <= l < k ==> max[l] == 0 && temp[l] == 0,
    ensures
        footer_slot_segments(current, max, temp, k).len() == 0,
    decreases k,
{
    if k > 0 {
        lemma_no_slot_entries(current, max, temp, k - 1);
    }
}

/// A character without any spell slot, temporary or not, has `none` shown
/// right after the footer's `SLOTS` label.
pub proof fn lemma_footer_without_slots(app: &App)
    requires
        forall|l: int| 0 <= l < 9 ==> app.spell_slots_max@[l] == 0 && app.spell_slots_temp@[l] == 0,
    ensures
        footer_text(app).len() > 1,
        footer_text(app)[0] == seg("SLOTS "@, Tone::Muted),
        footer_text(app)[1] == seg("none"@, Tone::Muted),
{
    let current = app.spell_slots_current@;
    let max = app.spell_slots_max@;
    let temp = app.spell_slots_temp@;
    lemma_no_slot_entries(current, max, temp, 9);
    assert(!(exists|l: int| 0 <= l < 9 && #[trigger] level_shown(max, temp, l)));
}

/// The footer ends with the controls reminder, and just before it shows
/// the sorcery points as `SP current/max` when the character has them.
pub proof fn lemma_footer_sorcery_points(app: &App)
    ensures
        footer_text(app).len() >= 8,
        footer_text(app)[footer_text(app).len() - 7] == seg(" | "@, Tone::Muted),
        footer_text(app)[footer_text(app).len() - 1] == seg(" theme"@, Tone::Muted),
        app.sorcery_points matches Some((c, m)) ==> {
            &&& footer_text(app).len() >= 11
            &&& footer_text(app)[footer_text(app).len() - 9] == seg("SP "@, Tone::Muted)
            &&& footer_text(app)[footer_text(app).len() - 8] == seg(
                decimal(c as nat) + "/"@ + decimal(m as nat),
                if c == 0 { Tone::Danger } else { Tone::Text },
            )
        },
{
}

fn tone_for_count(current: u8) -> (tone: Tone)
    ensures
        tone == count_tone(current),
{
    if current == 0 { Tone::Danger } else { Tone::Text }
}

fn fraction(current: u8, max: u8) -> (text: String)
    ensures
        text@ == fraction_text(current, max),
{
    let mut text = decimal_string(current as u64);
    text.append("/");
    text.append(decimal_string(max as u64).as_str());
    text
}

fn push_temp(out: &mut Vec<Segment>, temp: u8)
    ensures
        segments_view(final(out)@) == segments_view(old(out)@) + temp_segments(temp),
{
    if temp > 0 {
        let mut text = "(+".to_owned();
        text.append(decimal_string(temp as u64).as_str());
        text.append(")");
        out.push(segment(text, Tone::Success));
    }
    assert(segments_view(out@) =~= segments_view(old(out)@) + temp_segments(temp));
}

fn push_segment(out: &mut Vec<Segment>, text: &str, tone: Tone)
    ensures
        segments_view(final(out)@) == segments_view(old(out)@).push(seg(text@, tone)),
{
    out.push(segment_of(text, tone));
    assert(segments_view(out@) =~= segments_view(old(out)@).push(seg(text@, tone)));
}

/// Returns the footer's segments.
#[verifier::rlimit(40)]
pub fn footer_segments(app: &App) -> (segments: Vec<Segment>)
    ensures
        segments_view(segments@) == footer_text(app),
{
    let ghost current = app.spell_slots_current@;
    let ghost max = app.spell_slots_max@;
    let ghost temp = app.spell_slots_temp@;
    let mut out: Vec<Segment> = Vec::new();
    push_segment(&mut out, "SLOTS ", Tone::Muted);
    let ghost start = segments_view(out@);
    let mut any_slot = false;
    let mut level: usize = 0;
    while level < 9
        invariant
            level <= 9,
            current == app.spell_slots_current@,
            max == app.spell_slots_max@,
            temp == app.spell_slots_temp@,
            segments_view(out@) == start + footer_slot_segments(current, max, temp, level as int),
            any_slot <==> exists|l: int| 0 <= l < level && #[trigger] level_shown(max, temp, l),
        decreases 9 - level,
    {
        let ghost before = segments_view(out@);
        let m = app.spell_slots_max[level];
        let t = app.spell_slots_temp[level];
        if !(m == 0 && t == 0) {
            any_slot = true;
            let c = app.spell_slots_current[level];
            let mut text = decimal_string((level + 1) as u64);
            text.append(":");
            text.append(fraction(c, m).as_str());
            let first = segment(text, tone_for_count(c));
            let ghost first_view = first@;
            out.push(first);
            assert(segments_view(out@) =~= before.push(first_view));
            push_temp(&mut out, t);
            push_segment(&mut out, "  ", Tone::Muted);
            assert(level_shown(max, temp, level as int));
            assert(first_view == seg(
                decimal((level + 1) as nat) + ":"@ + fraction_text(current[level as int], max[level as int]),
                count_tone(current[level as int]),
            ));
            assert(segments_view(out@) =~= before + (seq![first_view] + temp_segments(temp[level as int]) + seq![seg("  "@, Tone::Muted)]));
        }
        assert(segments_view(out@) =~= start + footer_slot_segments(current, max, temp, level + 1));
        level = level + 1;
    }
    let ghost looped = segments_view(out@);
    if !any_slot {
        push_segment(&mut out, "none", Tone::Muted);
    }
    let ghost slots = segments_view(out@);
    assert(slots =~= looped + (if !(exists|l: int| 0 <= l < 9 && #[trigger] level_shown(max, temp, l)) {
        seq![seg("none"@, Tone::Muted)]
    } else {
        seq![]
    }));
    match app.sorcery_points {
        Some((c, m)) => {
            push_segment(&mut out, " | ", Tone::Muted);
            push_segment(&mut out, "SP ", Tone::Muted);
            let last = segment(fraction(c, m), tone_for_count(c));
            let ghost v = segments_view(out@);
            out.push(last);
            assert(segments_view(out@) =~= v.push(seg(fraction_text(c, m), count_tone(c))));
        },
        None => {},
    }
    let ghost with_points = segments_view(out@);
    assert(with_points =~= slots + match app.sorcery_points {
        Some((c, m)) => seq![seg(" | "@, Tone::Muted), seg("SP "@, Tone::Muted), seg(fraction_text(c, m), count_tone(c))],
        None => seq![],
    });
    push_segment(&mut out, " | ", Tone::Muted);
    push_segment(&mut out, "j/k", Tone::Focus);
    push_segment(&mut out, " focus  ", Tone::Muted);
    push_segment(&mut out, "w/a/s/d", Tone::Focus);
    push_segment(&mut out, " move  ", Tone::Muted);
    push_segment(&mut out, "t", Tone::Focus);
    push_segment(&mut out, " theme", Tone::Muted);
    assert(segments_view(out@) =~= with_points + footer_controls());
    assert(segments_view(out@) =~= footer_text(app));
    out
}

/// Returns the segments of the spell-resource line.
pub fn spell_resource_segments(app: &App) -> (segments: Vec<Segment>)
    ensures
        segments_view(segments@) == spell_line_text(app),
{
    let ghost current = app.spell_slots_current@;
    let ghost max = app.spell_slots_max@;
    let ghost temp = app.spell_slots_temp@;
    let mut out: Vec<Segment> = Vec::new();
    push_segment(&mut out, "Slots ", Tone::Muted);
    let ghost start = segments_view(out@);
    let mut level: usize = 0;
    while level < 9
        invariant
            level <= 9,
            current == app.spell_slots_current@,
            max == app.spell_slots_max@,
            temp == app.spell_slots_temp@,
            segments_view(out@) == start + line_slot_segments(current, max, temp, level as int),
        decreases 9 - level,
    {
        let m = app.spell_slots_max[level];
        let t = app.spell_slots_temp[level];
        if !(m == 0 && t == 0) {
            let ghost before = segments_view(out@);
            let c = app.spell_slots_current[level];
            let mut text = ordinal_name(level + 1).to_owned();
            text.append(" ");
            text.append(fraction(c, m).as_str());
            let first = segment(text, tone_for_count(c));
            let ghost first_view = first@;
            out.push(first);
            assert(segments_view(out@) =~= before.push(first_view));
            push_temp(&mut out, t);
            push_segment(&mut out, "  ", Tone::Muted);
            assert(first_view == seg(
                ordinal_text((level + 1) as usize) + " "@ + fraction_text(current[level as int], max[level as int]),
                count_tone(current[level as int]),
            ));
            assert(segments_view(out@) =~= before + (seq![first_view] + temp_segments(temp[level as int]) + seq![seg("  "@, Tone::Muted)]));
        }
        assert(segments_view(out@) =~= start + line_slot_segments(current, max, temp, level + 1));
        level = level + 1;
    }
    let ghost slots = segments_view(out@);
    match app.sorcery_points {
        Some((c, m)) => {
            push_segment(&mut out, "SP ", Tone::Muted);
            let last = segment(fraction(c, m), tone_for_count(c));
            let ghost v = segments_view(out@);
            out.push(last);
            assert(segments_view(out@) =~= v.push(seg(fraction_text(c, m), count_tone(c))));
        },
        None => {},
    }
    assert(segments_view(out@) =~= slots + match app.sorcery_points {
        Some((c, m)) => seq![seg("SP "@, Tone::Muted), seg(fraction_text(c, m), count_tone(c))],
        None => seq![],
    });
    assert(segments_view(out@) =~= spell_line_text(app));
    out
}

/// The inventory sidebar's text: an empty line, each item with `>` before
/// the highlighted one, an empty line, and the keys that act on it, one per
/// line.
pub open spec fn inventory_panel_text(items: Seq<String>, selected: usize) -> Seq<char> {
    "\n"@ + inventory_item_lines(items, selected, items.len() as int) + "\n[w/a/s/d] Move  [i] Close"@
}

/// The lines of the first `k` inventory items, each followed by a line
/// break.
pub open spec fn inventory_item_lines(items: Seq<String>, selected: usize, k: int) -> Seq<char>
    decreases k,
{
    if k <= 0 {
        seq![]
    } else {
        inventory_item_lines(items, selected, k - 1) + (if k - 1 == selected { ">"@ } else { " "@ }) + " "@
            + items[k - 1]@ + "\n"@
    }
}

/// Returns the inventory sidebar's text.
pub fn inventory_text(app: &App) -> (text: String)
    ensures
        text@ == inventory_panel_text(app.inventory_items@, app.inventory_selected),
{
    let mut text = "\n".to_owned();
    let ghost start = text@;
    let mut i: usize = 0;
    while i < app.inventory_items.len()
        invariant
            i <= app.inventory_items@.len(),
            text@ == start + inventory_item_lines(app.inventory_items@, app.inventory_selected, i as int),
        decreases app.inventory_items@.len() - i,
    {
        let marker = if i == app.inventory_selected { ">" } else { " " };
        text.append(marker);
        text.append(" ");
        text.append(app.inventory_items[i].as_str());
        text.append("\n");
        assert(text@ =~= start + inventory_item_lines(app.inventory_items@, app.inventory_selected, i + 1));
        i = i + 1;
    }
    text.append("\n[w/a/s/d] Move  [i] Close");
    assert(text@ =~= inventory_panel_text(app.inventory_items@, app.inventory_selected));
    text
}

} // verus!
