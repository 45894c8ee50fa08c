//! Layout modes chosen from the terminal size.
use vstd::prelude::*;

verus! {

/// Minimum terminal width for the UI to render anything useful.
pub const MIN_WIDTH: u16 = 80;
/// Minimum terminal height for the UI to render anything useful.
pub const MIN_HEIGHT: u16 = 24;
/// Width at which the UI can switch from compact to standard layout.
pub const STANDARD_WIDTH: u16 = 100;
/// Height at which the UI can switch from compact to standard layout.
pub const STANDARD_HEIGHT: u16 = 30;

/// A rectangular area of the terminal, in cells.
#[derive(Debug, Clone, Copy, PartialEq, Eq, Structural)]
pub struct Rect {
    pub x: u16,
    pub y: u16,
    pub width: u16,
    pub height: u16,
}

impl Rect {
    /// Creates an area from its position and size.
    pub fn new(x: u16, y: u16, width: u16, height: u16) -> (area: Rect)
        ensures
            area == (Rect { x, y, width, height }),
    {
        Rect { x, y, width, height }
    }
}

/// Layout modes chosen from the live terminal size.
#[derive(Debug, Clone, Copy, PartialEq, Eq, Structural)]
pub enum LayoutMode {
    /// Terminal is too small to render the game UI.
    TooSmall,
    /// Reduced layout for smaller terminals.
    Compact,
    /// Full layout for large terminals.
    Standard,
}

/// The layout mode for a terminal of the given size: too small below the
/// minimum in either direction, standard from the standard size in both
/// directions, compact in between.
pub open spec fn layout_mode(width: u16, height: u16) -> LayoutMode {
    if width < MIN_WIDTH || height < MIN_HEIGHT {
        LayoutMode::TooSmall
    } else if width < STANDARD_WIDTH || height < STANDARD_HEIGHT {
        LayoutMode::Compact
    } else {
        LayoutMode::Standard
    }
}

/// How much of the interface a mode shows: too small, compact, standard.
pub open spec fn mode_rank(mode: LayoutMode) -> int {
    match mode {
        LayoutMode::TooSmall => 0,
        LayoutMode::Compact => 1,
        LayoutMode::Standard => 2,
    }
}

/// Selects the right layout mode for the given terminal area.
pub fn mode_for(area: Rect) -> (mode: LayoutMode)
    ensures
        mode == layout_mode(area.width, area.height),
{
    if area.width < MIN_WIDTH || area.height < MIN_HEIGHT {
        LayoutMode::TooSmall
    } else if area.width < STANDARD_WIDTH || area.height < STANDARD_HEIGHT {
        LayoutMode::Compact
    } else {
        LayoutMode::Standard
    }
}

/// Growing the terminal never selects a smaller layout.
pub proof fn lemma_mode_monotonic(width: u16, height: u16, wider: u16, taller: u16)
    requires
        width <= wider,
        height <= taller,
    ensures
        mode_rank(layout_mode(width, height)) <= mode_rank(layout_mode(wider, taller)),
{
}

/// What each mode needs: the standard layout the standard size of 100
/// columns and 30 rows in both directions, the compact one the minimum size
/// of 80 columns and 24 rows in both directions without the standard size
/// in one of them; anything smaller is too small.
pub proof fn lemma_mode_thresholds(width: u16, height: u16)
    ensures
        layout_mode(width, height) == LayoutMode::Standard <==> width >= 100 && height >= 30,
        layout_mode(width, height) == LayoutMode::Compact <==> width >= 80 && height >= 24 && (width < 100
            || height < 30),
        layout_mode(width, height) == LayoutMode::TooSmall <==> width < 80 || height < 24,
{
}

/// The inventory sidebar's share of a body `width` in `mode`: a third in the
/// standard layout, a half in the compact one, seven eighths when too small.
pub open spec fn inventory_share(width: u16, mode: LayoutMode) -> int {
    match mode {
        LayoutMode::Standard => (width / 3) as int,
        LayoutMode::Compact => (width / 2) as int,
        LayoutMode::TooSmall => width * 7 / 8,
    }
}

/// The sidebar takes a third of the width in the standard layout, half of
/// it in the compact one and seven eighths when too small, each rounded
/// down, and never more than the width.
pub proof fn lemma_inventory_share(width: u16, mode: LayoutMode)
    ensures
        mode == LayoutMode::Standard ==> 3 * inventory_share(width, mode) <= width < 3 * inventory_share(width, mode)
            + 3,
        mode == LayoutMode::Compact ==> 2 * inventory_share(width, mode) <= width < 2 * inventory_share(width, mode)
            + 2,
        mode == LayoutMode::TooSmall ==> 8 * inventory_share(width, mode) <= 7 * width < 8 * inventory_share(
            width,
            mode,
        ) + 8,
        0 <= inventory_share(width, mode) <= width,
{
}

/// Splits a body `width` into the main region's width and the inventory
/// sidebar's width, which together make up `width`.
pub fn inventory_widths(width: u16, mode: LayoutMode) -> (widths: (u16, u16))
    requires
        mode == LayoutMode::TooSmall ==> width * 7 <= u16::MAX,
    ensures
        widths.1 == inventory_share(width, mode),
        widths.0 + widths.1 == width,
{
    let inventory_width = match mode {
        LayoutMode::Standard => width / 3,
        LayoutMode::Compact => width / 2,
        LayoutMode::TooSmall => width * 7 / 8,
    };
    let main_width = width.saturating_sub(inventory_width);
    (main_width, inventory_width)
}

} // verus!
