//! Color themes for the terminal interface.
use vstd::prelude::*;

verus! {

/// A terminal color: one of the named terminal colors, a 24-bit RGB color,
/// or an index into the terminal's palette.
#[derive(Debug, Clone, Copy, PartialEq, Eq, Structural)]
pub enum Color {
    Reset,
    Black,
    Red,
    Green,
    Yellow,
    Blue,
    Magenta,
    Cyan,
    Gray,
    DarkGray,
    LightRed,
    LightGreen,
    LightYellow,
    LightBlue,
    LightMagenta,
    LightCyan,
    White,
    Rgb(u8, u8, u8),
    Indexed(u8),
}

/// Identifies one of the built-in house themes.
#[derive(Debug, Clone, Copy, PartialEq, Eq, Structural)]
pub enum ThemeId {
    /// Deep red and gold.
    Lion,
    /// Dark blue and bronze.
    Raven,
    /// Black and yellow.
    Badger,
    /// Dark green and silver.
    Serpent,
}

impl ThemeId {
    /// The display name of the theme.
    pub open spec fn display_name(self) -> Seq<char> {
        match self {
            ThemeId::Lion => "Lion"@,
            ThemeId::Raven => "Raven"@,
            ThemeId::Badger => "Badger"@,
            ThemeId::Serpent => "Serpent"@,
        }
    }

    /// The theme after this one in the cycle Lion, Raven, Badger, Serpent,
    /// back to Lion.
    pub open spec fn following(self) -> ThemeId {
        match self {
            ThemeId::Lion => ThemeId::Raven,
            ThemeId::Raven => ThemeId::Badger,
            ThemeId::Badger => ThemeId::Serpent,
            ThemeId::Serpent => ThemeId::Lion,
        }
    }

    /// Returns the display name used in the UI header.
    pub fn name(self) -> (name: &'static str)
        ensures
            name@ == self.display_name(),
    {
        match self {
            ThemeId::Lion => "Lion",
            ThemeId::Raven => "Raven",
            ThemeId::Badger => "Badger",
            ThemeId::Serpent => "Serpent",
        }
    }

    /// Returns the next theme in the cycle, wrapping back to the start.
    pub fn next(self) -> (next: ThemeId)
        ensures
            next == self.following(),
    {
        match self {
            ThemeId::Lion => ThemeId::Raven,
            ThemeId::Raven => ThemeId::Badger,
            ThemeId::Badger => ThemeId::Serpent,
            ThemeId::Serpent => ThemeId::Lion,
        }
    }
}

/// Cycling through the themes comes back to the start after four steps and
/// passes through four different themes on the way.
pub proof fn lemma_theme_cycle(id: ThemeId)
    ensures
        id.following().following().following().following() == id,
        id.following() != id,
        id.following().following() != id,
        id.following().following().following() != id,
{
}

/// Semantic color palette for every widget of the interface.
#[derive(Debug, Clone, Copy, PartialEq, Eq, Structural)]
pub struct Theme {
    pub background: Color,
    pub text: Color,
    pub muted: Color,
    pub accent: Color,
    pub success: Color,
    pub danger: Color,
    pub focus: Color,
    pub primary: Color,
    pub secondary: Color,
}

/// The palette of the Lion theme: deep red and gold.
pub open spec fn lion_palette() -> Theme {
    Theme {
        background: Color::Rgb(12, 0, 0),
        text: Color::Rgb(248, 226, 209),
        muted: Color::Rgb(135, 0, 1),
        accent: Color::Rgb(217, 124, 33),
        success: Color::Rgb(26, 188, 156),
        danger: Color::Rgb(231, 37, 35),
        focus: Color::Rgb(255, 186, 51),
        primary: Color::Rgb(211, 166, 37),
        secondary: Color::Rgb(135, 0, 1),
    }
}

/// The palette of the Raven theme: dark blue and bronze.
pub open spec fn raven_palette() -> Theme {
    Theme {
        background: Color::Rgb(9, 24, 48),
        text: Color::Rgb(230, 240, 255),
        muted: Color::Rgb(60, 80, 120),
        accent: Color::Rgb(135, 135, 135),
        success: Color::Rgb(26, 188, 156),
        danger: Color::Rgb(231, 37, 35),
        focus: Color::Rgb(70, 130, 240),
        primary: Color::Rgb(30, 60, 130),
        secondary: Color::Rgb(184, 115, 51),
    }
}

/// The palette of the Badger theme: black and yellow.
pub open spec fn badger_palette() -> Theme {
    Theme {
        background: Color::Rgb(10, 3, 4),
        text: Color::Rgb(255, 232, 180),
        muted: Color::Rgb(55, 46, 41),
        accent: Color::Rgb(229, 179, 55),
        success: Color::Rgb(26, 188, 156),
        danger: Color::Rgb(231, 37, 35),
        focus: Color::Rgb(255, 224, 0),
        primary: Color::Rgb(255, 215, 0),
        secondary: Color::Rgb(20, 15, 5),
    }
}

/// The palette of the Serpent theme: dark green and silver.
pub open spec fn serpent_palette() -> Theme {
    Theme {
        background: Color::Rgb(5, 20, 10),
        text: Color::Rgb(220, 245, 235),
        muted: Color::Rgb(40, 90, 60),
        accent: Color::Rgb(192, 192, 192),
        success: Color::Rgb(26, 188, 156),
        danger: Color::Rgb(231, 37, 35),
        focus: Color::Rgb(80, 220, 120),
        primary: Color::Rgb(30, 120, 60),
        secondary: Color::Rgb(192, 192, 192),
    }
}

/// The neutral academy palette used when no house is chosen.
pub open spec fn academy_palette() -> Theme {
    Theme {
        background: Color::Rgb(10, 10, 21),
        text: Color::Rgb(51, 152, 219),
        muted: Color::Rgb(112, 127, 245),
        accent: Color::Rgb(231, 126, 35),
        success: Color::Rgb(26, 188, 156),
        danger: Color::Rgb(231, 37, 35),
        focus: Color::Rgb(241, 196, 14),
        primary: Color::Rgb(231, 126, 35),
        secondary: Color::Rgb(112, 127, 245),
    }
}

/// The palette of a house theme.
pub open spec fn palette_of(id: ThemeId) -> Theme {
    match id {
        ThemeId::Lion => lion_palette(),
        ThemeId::Raven => raven_palette(),
        ThemeId::Badger => badger_palette(),
        ThemeId::Serpent => serpent_palette(),
    }
}

/// One color channel scaled by `numerator / denominator`, rounded down,
/// kept to its low eight bits.
pub open spec fn dim_channel(channel: u8, numerator: u16, denominator: u16) -> u8 {
    (((channel as int) * (numerator as int) / (denominator as int)) % 256) as u8
}

/// An RGB color with each channel scaled by `numerator / denominator`; any
/// other color unchanged.
pub open spec fn dimmed_color(color: Color, numerator: u16, denominator: u16) -> Color {
    match color {
        Color::Rgb(r, g, b) => Color::Rgb(
            dim_channel(r, numerator, denominator),
            dim_channel(g, numerator, denominator),
            dim_channel(b, numerator, denominator),
        ),
        other => other,
    }
}

/// The scaling of `color` can be computed in 16 bits.
pub open spec fn dim_fits(color: Color, numerator: u16, denominator: u16) -> bool {
    color matches Color::Rgb(r, g, b) ==> {
        &&& denominator > 0
        &&& r * numerator <= u16::MAX
        &&& g * numerator <= u16::MAX
        &&& b * numerator <= u16::MAX
    }
}

/// Dimming by three quarters never brightens a channel.
pub proof fn lemma_dim_darkens(channel: u8)
    ensures
        dim_channel(channel, 3, 4) <= channel,
{
    assert((channel as int) * 3 / 4 <= channel);
    assert(((channel as int) * 3 / 4) % 256 == (channel as int) * 3 / 4);
}

fn dim_byte(channel: u8, numerator: u16, denominator: u16) -> (out: u8)
    requires
        denominator > 0,
        channel * numerator <= u16::MAX,
    ensures
        out == dim_channel(channel, numerator, denominator),
{
    let scaled: u16 = (channel as u16) * numerator / denominator;
    assert((scaled as u8) == scaled % 256) by (bit_vector);
    scaled as u8
}

/// Dims a single RGB color by an integer fraction; other colors are left
/// unchanged.
pub fn dim_color(color: Color, numerator: u16, denominator: u16) -> (out: Color)
    requires
        dim_fits(color, numerator, denominator),
    ensures
        out == dimmed_color(color, numerator, denominator),
{
    match color {
        Color::Rgb(r, g, b) => Color::Rgb(
            dim_byte(r, numerator, denominator),
            dim_byte(g, numerator, denominator),
            dim_byte(b, numerator, denominator),
        ),
        other => other,
    }
}

/// Every color of `theme` scaled by three quarters.
pub open spec fn dimmed_theme(theme: Theme) -> Theme {
    Theme {
        background: dimmed_color(theme.background, 3, 4),
        text: dimmed_color(theme.text, 3, 4),
        muted: dimmed_color(theme.muted, 3, 4),
        accent: dimmed_color(theme.accent, 3, 4),
        success: dimmed_color(theme.success, 3, 4),
        danger: dimmed_color(theme.danger, 3, 4),
        focus: dimmed_color(theme.focus, 3, 4),
        primary: dimmed_color(theme.primary, 3, 4),
        secondary: dimmed_color(theme.secondary, 3, 4),
    }
}

impl Theme {
    /// Returns the theme that matches the given `ThemeId`.
    pub fn for_id(id: ThemeId) -> (theme: Theme)
        ensures
            theme == palette_of(id),
    {
        match id {
            ThemeId::Lion => Self::lion(),
            ThemeId::Raven => Self::raven(),
            ThemeId::Badger => Self::badger(),
            ThemeId::Serpent => Self::serpent(),
        }
    }

    /// Lion theme: deep red and gold.
    pub fn lion() -> (theme: Theme)
        ensures
            theme == lion_palette(),
    {
        Theme {
            background: Color::Rgb(12, 0, 0),
            text: Color::Rgb(248, 226, 209),
            muted: Color::Rgb(135, 0, 1),
            accent: Color::Rgb(217, 124, 33),
            success: Color::Rgb(26, 188, 156),
            danger: Color::Rgb(231, 37, 35),
            focus: Color::Rgb(255, 186, 51),
            primary: Color::Rgb(211, 166, 37),
            secondary: Color::Rgb(135, 0, 1),
        }
    }

    /// Raven theme: dark blue and bronze.
    pub fn raven() -> (theme: Theme)
        ensures
            theme == raven_palette(),
    {
        Theme {
            background: Color::Rgb(9, 24, 48),
            text: Color::Rgb(230, 240, 255),
            muted: Color::Rgb(60, 80, 120),
            accent: Color::Rgb(135, 135, 135),
            success: Color::Rgb(26, 188, 156),
            danger: Color::Rgb(231, 37, 35),
            focus: Color::Rgb(70, 130, 240),
            primary: Color::Rgb(30, 60, 130),
            secondary: Color::Rgb(184, 115, 51),
        }
    }

    /// Badger theme: black and yellow.
    pub fn badger() -> (theme: Theme)
        ensures
            theme == badger_palette(),
    {
        Theme {
            background: Color::Rgb(10, 3, 4),
            text: Color::Rgb(255, 232, 180),
            muted: Color::Rgb(55, 46, 41),
            accent: Color::Rgb(229, 179, 55),
            success: Color::Rgb(26, 188, 156),
            danger: Color::Rgb(231, 37, 35),
            focus: Color::Rgb(255, 224, 0),
            primary: Color::Rgb(255, 215, 0),
            secondary: Color::Rgb(20, 15, 5),
        }
    }

    /// Serpent theme: dark green and silver.
    pub fn serpent() -> (theme: Theme)
        ensures
            theme == serpent_palette(),
    {
        Theme {
            background: Color::Rgb(5, 20, 10),
            text: Color::Rgb(220, 245, 235),
            muted: Color::Rgb(40, 90, 60),
            accent: Color::Rgb(192, 192, 192),
            success: Color::Rgb(26, 188, 156),
            danger: Color::Rgb(231, 37, 35),
            focus: Color::Rgb(80, 220, 120),
            primary: Color::Rgb(30, 120, 60),
            secondary: Color::Rgb(192, 192, 192),
        }
    }

    /// Returns a copy of this theme with every RGB color multiplied by 3/4;
    /// other colors are left unchanged.
    pub fn dim(self) -> (dimmed: Theme)
        ensures
            dimmed == dimmed_theme(self),
    {
        Theme {
            background: dim_color(self.background, 3, 4),
            text: dim_color(self.text, 3, 4),
            muted: dim_color(self.muted, 3, 4),
            accent: dim_color(self.accent, 3, 4),
            success: dim_color(self.success, 3, 4),
            danger: dim_color(self.danger, 3, 4),
            focus: dim_color(self.focus, 3, 4),
            primary: dim_color(self.primary, 3, 4),
            secondary: dim_color(self.secondary, 3, 4),
        }
    }
}

impl Default for Theme {
    /// A neutral academy theme used for tests and snapshots.
    fn default() -> (theme: Theme)
        ensures
            theme == academy_palette(),
    {
        Theme {
            background: Color::Rgb(10, 10, 21),
            text: Color::Rgb(51, 152, 219),
            muted: Color::Rgb(112, 127, 245),
            accent: Color::Rgb(231, 126, 35),
            success: Color::Rgb(26, 188, 156),
            danger: Color::Rgb(231, 37, 35),
            focus: Color::Rgb(241, 196, 14),
            primary: Color::Rgb(231, 126, 35),
            secondary: Color::Rgb(112, 127, 245),
        }
    }
}

} // verus!
