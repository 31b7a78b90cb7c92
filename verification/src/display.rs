//! What the screen shows, as far as that is decided rather than drawn: the
//! part of the terminal that is used, the emphasis of a panel, the hint in
//! the footer, and the bars that carry a mark.

use crate::sort::SortPointer;
use vstd::prelude::*;

verus! {

/// The widest area that is drawn on.
pub const MAX_WIDTH: u16 = 100;

/// The tallest area that is drawn on.
pub const MAX_HEIGHT: u16 = 30;

/// The columns that a chart's frame and margins take from half the width.
pub const CHART_MARGIN: u16 = 3;

/// A rectangle of terminal cells.
#[derive(Clone, Copy, Debug, PartialEq, Eq, Structural)]
pub struct Area {
    pub x: u16,
    pub y: u16,
    pub width: u16,
    pub height: u16,
}

/// The smaller of two lengths.
pub open spec fn at_most(a: int, b: int) -> int {
    if a <= b {
        a
    } else {
        b
    }
}

/// The area that is drawn on in a terminal of the given size: as large as
/// the terminal up to `MAX_WIDTH` by `MAX_HEIGHT`, and centred in it.
pub open spec fn viewport_of(width: u16, height: u16) -> Area {
    let w = at_most(width as int, MAX_WIDTH as int);
    let h = at_most(height as int, MAX_HEIGHT as int);
    Area {
        x: ((width - w) / 2) as u16,
        y: ((height - h) / 2) as u16,
        width: w as u16,
        height: h as u16,
    }
}

/// The area that is drawn on in a terminal of the given size.
pub fn viewport(width: u16, height: u16) -> (r: Area)
    ensures
        r == viewport_of(width, height),
        r.width <= width,
        r.height <= height,
        r.x + r.width <= width,
        r.y + r.height <= height,
{
    let w: u16 = if width <= MAX_WIDTH {
        width
    } else {
        MAX_WIDTH
    };
    let h: u16 = if height <= MAX_HEIGHT {
        height
    } else {
        MAX_HEIGHT
    };
    Area { x: (width - w) / 2, y: (height - h) / 2, width: w, height: h }
}

/// The number of values that a chart shows in an area of the given width,
/// with one column for each value.
pub fn chart_width(viewport_width: u16) -> (r: u16)
    requires
        viewport_width / 2 >= CHART_MARGIN,
    ensures
        r == viewport_width / 2 - CHART_MARGIN,
{
    viewport_width / 2 - CHART_MARGIN
}

/// How a panel is emphasised.
#[derive(Clone, Copy, Debug, PartialEq, Eq, Structural)]
pub enum Tone {
    /// A session is running.
    Sorting,
    /// The session is complete.
    Complete,
    /// Neither.
    Idle,
}

/// A running session takes precedence over a complete one.
pub open spec fn tone_of(sorting: bool, complete: bool) -> Tone {
    if sorting {
        Tone::Sorting
    } else if complete {
        Tone::Complete
    } else {
        Tone::Idle
    }
}

/// The emphasis of the panels of a session that is active or not, complete
/// or not.
pub fn tone(sorting: bool, complete: bool) -> (r: Tone)
    ensures
        r == tone_of(sorting, complete),
{
    if sorting {
        Tone::Sorting
    } else if complete {
        Tone::Complete
    } else {
        Tone::Idle
    }
}

/// The hint below a session: what Enter does next.
pub open spec fn footer_of(active: bool, sorted: bool) -> Seq<char> {
    if active {
        "Enter: pause sort, q: back to menu"@
    } else if sorted {
        "Enter: restart sort, q: back to menu"@
    } else {
        "Enter: start sort, q: back to menu"@
    }
}

/// The hint below a session: what Enter does next.
pub fn sort_footer_title(active: bool, sorted: bool) -> (r: &'static str)
    ensures
        r@ == footer_of(active, sorted),
{
    if active {
        "Enter: pause sort, q: back to menu"
    } else if sorted {
        "Enter: restart sort, q: back to menu"
    } else {
        "Enter: start sort, q: back to menu"
    }
}

/// Whether the bar at `index` carries a mark: it does while the session is
/// not complete and the bar is one of the two that `pointer` names.
pub fn is_marked(index: usize, pointer: &SortPointer, sorted: bool) -> (r: bool)
    ensures
        r == (!sorted && (pointer.0 == index || pointer.1 == index)),
{
    !sorted && (pointer.0 == index || pointer.1 == index)
}

} // verus!
