use vstd::prelude::*;

use crate::grid::{Direction, Position};

verus! {

/// A rectangle of terminal cells: top-left corner and size.
#[derive(Clone, Copy, PartialEq, Eq, Debug, Structural)]
pub struct Area {
    pub x: u16,
    pub y: u16,
    pub width: u16,
    pub height: u16,
}

/// Columns the screen needs to show the game.
pub const PLAYFIELD_WIDTH: u16 = 82;

/// Rows the screen needs to show the game.
pub const PLAYFIELD_HEIGHT: u16 = 27;

/// `a + b`, or `u16::MAX` when that does not fit.
pub open spec fn saturating_add(a: u16, b: u16) -> int {
    if a + b > u16::MAX {
        u16::MAX as int
    } else {
        a + b
    }
}

/// How much of a side of length `len` that starts at `start` fits before
/// `u16::MAX`.
pub open spec fn clipped_len(start: u16, len: u16) -> u16 {
    (saturating_add(start, len) - start) as u16
}

/// The rectangle at `x`, `y` of `width` by `height` cells, each side cut where it
/// would pass `u16::MAX`.
pub open spec fn area_spec(x: u16, y: u16, width: u16, height: u16) -> Area {
    Area { x, y, width: clipped_len(x, width), height: clipped_len(y, height) }
}

/// No side of the rectangle passes `u16::MAX`, as for every rectangle made by
/// `Area::new`.
pub open spec fn area_valid(a: Area) -> bool {
    a.x + a.width <= u16::MAX && a.y + a.height <= u16::MAX
}

/// The rectangle of at most `width` by `height` cells centred in `area`; a side
/// longer than the area's is cut to the area's, and a side that would pass
/// `u16::MAX` is cut there.
pub open spec fn centered_spec(area: Area, width: u16, height: u16) -> Area {
    area_spec(
        if area.width > width {
            (area.x + (area.width - width) / 2) as u16
        } else {
            area.x
        },
        if area.height > height {
            (area.y + (area.height - height) / 2) as u16
        } else {
            area.y
        },
        if width < area.width {
            width
        } else {
            area.width
        },
        if height < area.height {
            height
        } else {
            area.height
        },
    )
}

/// The terminal cell where the left half of board cell `p` is drawn, or `None`
/// when that cell and the one right of it do not both lie inside `inner`. Each
/// board cell is two terminal columns wide.
pub open spec fn board_cell_spec(inner: Area, p: Position) -> Option<(u16, u16)> {
    let cx: int = inner.x + 2 * p.x;
    let cy: int = inner.y + p.y;
    if cx + 1 < saturating_add(inner.x, inner.width) && cy < saturating_add(inner.y, inner.height) {
        Some((cx as u16, cy as u16))
    } else {
        None
    }
}

/// The two characters drawn on the head: crosses after a crash, otherwise eyes
/// looking in the direction of travel.
pub open spec fn head_glyphs_spec(dir: Direction, game_over: bool) -> (char, char) {
    if game_over {
        ('x', 'x')
    } else {
        match dir {
            Direction::Up => ('^', '^'),
            Direction::Down => ('v', 'v'),
            Direction::Left => ('<', 'o'),
            Direction::Right => ('o', '>'),
        }
    }
}

impl Area {
    /// The rectangle at `x`, `y` of `width` by `height` cells; a side that would
    /// pass `u16::MAX` is cut there.
    pub fn new(x: u16, y: u16, width: u16, height: u16) -> (r: Area)
        ensures
            r == area_spec(x, y, width, height),
            area_valid(r),
    {
        Area {
            x,
            y,
            width: x.saturating_add(width) - x,
            height: y.saturating_add(height) - y,
        }
    }
}

/// The rectangle of at most `width` by `height` cells centred in `area`.
pub fn get_centered_rect(area: Area, width: u16, height: u16) -> (r: Area)
    requires
        area.width > width ==> area.x + (area.width - width) / 2 <= u16::MAX,
        area.height > height ==> area.y + (area.height - height) / 2 <= u16::MAX,
    ensures
        r == centered_spec(area, width, height),
{
    let x: u16 = if area.width > width {
        area.x + (area.width - width) / 2
    } else {
        area.x
    };
    let y: u16 = if area.height > height {
        area.y + (area.height - height) / 2
    } else {
        area.y
    };
    let w: u16 = if width < area.width {
        width
    } else {
        area.width
    };
    let h: u16 = if height < area.height {
        height
    } else {
        area.height
    };
    Area::new(x, y, w, h)
}

/// A centred rectangle has the asked size, cut to the area's, lies inside the
/// area, and its left and right margins (and its top and bottom ones) differ by
/// at most one cell, the larger one on the right (at the bottom).
pub proof fn lemma_centered_inside(area: Area, width: u16, height: u16)
    requires
        area_valid(area),
        area.width > width ==> area.x + (area.width - width) / 2 <= u16::MAX,
        area.height > height ==> area.y + (area.height - height) / 2 <= u16::MAX,
    ensures
        ({
            let r = centered_spec(area, width, height);
            &&& area.x <= r.x
            &&& r.x + r.width <= area.x + area.width
            &&& area.y <= r.y
            &&& r.y + r.height <= area.y + area.height
            &&& 0 <= (area.x + area.width - (r.x + r.width)) - (r.x - area.x) <= 1
            &&& 0 <= (area.y + area.height - (r.y + r.height)) - (r.y - area.y) <= 1
            &&& r.width == if width <= area.width {
                width
            } else {
                area.width
            }
            &&& r.height == if height <= area.height {
                height
            } else {
                area.height
            }
        }),
{
}

/// A rectangle made by `Area::new` keeps its corner, and each side keeps its
/// length unless it would pass `u16::MAX`, where it is cut to end there.
pub proof fn lemma_area_new_cut(x: u16, y: u16, width: u16, height: u16)
    ensures
        area_spec(x, y, width, height).x == x,
        area_spec(x, y, width, height).y == y,
        area_spec(x, y, width, height).width == if x + width <= 65535 {
            width as int
        } else {
            65535 - x
        },
        area_spec(x, y, width, height).height == if y + height <= 65535 {
            height as int
        } else {
            65535 - y
        },
{
}

/// Board cell `p` is drawn two terminal columns per board column right of the
/// area's left edge and one row per board row below its top edge, exactly when
/// both of its columns and its row lie inside the area; otherwise it is skipped.
pub proof fn lemma_board_cell_place(inner: Area, p: Position)
    requires
        area_valid(inner),
        0 <= p.x,
        0 <= p.y,
        inner.x + 2 * p.x + 1 <= u16::MAX,
        inner.y + p.y <= u16::MAX,
    ensures
        2 * p.x + 2 <= inner.width && p.y < inner.height ==> board_cell_spec(inner, p) == Some(
            ((inner.x + 2 * p.x) as u16, (inner.y + p.y) as u16),
        ),
        !(2 * p.x + 2 <= inner.width && p.y < inner.height) ==> board_cell_spec(inner, p) is None,
{
}

/// Whether a terminal of `width` by `height` cells can show the game.
pub fn terminal_fits(width: u16, height: u16) -> (r: bool)
    ensures
        r == (width >= PLAYFIELD_WIDTH && height >= PLAYFIELD_HEIGHT),
{
    !(width < PLAYFIELD_WIDTH || height < PLAYFIELD_HEIGHT)
}

/// The terminal cell where board cell `p` is drawn inside `inner`, if it fits.
pub fn board_cell(inner: Area, p: Position) -> (r: Option<(u16, u16)>)
    requires
        0 <= p.x,
        0 <= p.y,
        inner.x + 2 * p.x + 1 <= u16::MAX,
        inner.y + p.y <= u16::MAX,
    ensures
        r == board_cell_spec(inner, p),
{
    let cx: u16 = inner.x + (p.x * 2) as u16;
    let cy: u16 = inner.y + p.y as u16;
    let right: u16 = inner.x.saturating_add(inner.width);
    let bottom: u16 = inner.y.saturating_add(inner.height);
    if cx + 1 < right && cy < bottom {
        Some((cx, cy))
    } else {
        None
    }
}

/// The two characters drawn on the head.
pub fn head_glyphs(dir: Direction, game_over: bool) -> (r: (char, char))
    ensures
        r == head_glyphs_spec(dir, game_over),
{
    if game_over {
        ('x', 'x')
    } else {
        match dir {
            Direction::Up => ('^', '^'),
            Direction::Down => ('v', 'v'),
            Direction::Left => ('<', 'o'),
            Direction::Right => ('o', '>'),
        }
    }
}

} // verus!
