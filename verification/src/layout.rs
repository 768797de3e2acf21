//! Areas of the screen. The arithmetic of dividing an area is ratatui's; this
//! module hands it the extents, takes the parts back as plain rectangles, and
//! holds them against what the screen is to look like before it passes them
//! on.

use ratatui::layout::{Constraint, Direction, Layout};
use vstd::prelude::*;

verus! {

/// A rectangle of character cells.
#[derive(Clone, Copy, Debug, PartialEq, Eq)]
pub struct Rect {
    pub x: u16,
    pub y: u16,
    pub width: u16,
    pub height: u16,
}

/// The direction in which an area is divided.
#[derive(Clone, Copy, Debug, PartialEq, Eq)]
pub enum Axis {
    /// Into parts one below the other.
    Vertical,
    /// Into parts side by side.
    Horizontal,
}

/// How much of an area a part asks for.
#[derive(Clone, Copy, Debug, PartialEq, Eq)]
pub enum Extent {
    /// That many cells at least.
    Min(u16),
    /// That many cells.
    Length(u16),
    /// That many hundredths of the area.
    Percentage(u16),
}

/// Whether `part` reaches across `area` in the direction that a division
/// along `axis` leaves alone: as wide and as far left as `area` for parts one
/// below the other, as high and as far up for parts side by side.
pub open spec fn spans(axis: Axis, area: Rect, part: Rect) -> bool {
    match axis {
        Axis::Vertical => part.x == area.x && part.width == area.width,
        Axis::Horizontal => part.y == area.y && part.height == area.height,
    }
}

/// Whether `part` keeps to `area` in the direction of a division along
/// `axis`: it begins no earlier and ends no later than `area` does.
pub open spec fn within(axis: Axis, area: Rect, part: Rect) -> bool {
    match axis {
        Axis::Vertical => area.y <= part.y && part.y + part.height <= area.y + area.height,
        Axis::Horizontal => area.x <= part.x && part.x + part.width <= area.x + area.width,
    }
}

/// Whether `part` lies inside `area`.
pub open spec fn inside(area: Rect, part: Rect) -> bool {
    within(Axis::Vertical, area, part) && within(Axis::Horizontal, area, part)
}

/// Believed, not proved: `Layout::split` of ratatui, on a layout of the
/// given direction and constraints that is otherwise the default one, gives
/// as many parts as there are constraints; each part reaches across the area
/// in the other direction, and along `axis` it keeps to the area. The last
/// rests on the constraints that ratatui hands its solver as required ones,
/// which hold every edge of a part between the two ends of the area, and on
/// the solver's promise never to violate a required constraint. Where
/// between the ends of the area a part begins and ends is the solver's
/// choice; nothing is claimed of it.
#[verifier::external_body]
fn split(axis: Axis, extents: &Vec<Extent>, area: Rect) -> (parts: Vec<Rect>)
    ensures
        parts@.len() == extents@.len(),
        forall|i: int| 0 <= i < parts@.len() ==> spans(axis, area, #[trigger] parts@[i]),
        forall|i: int| 0 <= i < parts@.len() ==> within(axis, area, #[trigger] parts@[i]),
{
    let direction = match axis {
        Axis::Vertical => Direction::Vertical,
        Axis::Horizontal => Direction::Horizontal,
    };
    let constraints: Vec<Constraint> = extents.iter().map(|e| match *e {
        Extent::Min(n) => Constraint::Min(n),
        Extent::Length(n) => Constraint::Length(n),
        Extent::Percentage(n) => Constraint::Percentage(n),
    }).collect();
    let whole = ratatui::layout::Rect { x: area.x, y: area.y, width: area.width, height: area.height };
    let rects = Layout::new(direction, constraints).split(whole);
    rects.iter().map(|r| Rect { x: r.x, y: r.y, width: r.width, height: r.height }).collect()
}

/// The extents that centre a part of `percent` hundredths: the part, between
/// two margins of half the rest each, rounded down.
pub open spec fn centered(percent: u16) -> Seq<Extent> {
    seq![
        Extent::Percentage(((100 - percent) / 2) as u16),
        Extent::Percentage(percent),
        Extent::Percentage(((100 - percent) / 2) as u16),
    ]
}

/// The extents that centre a part of `percent` hundredths, as [`centered`]
/// says.
pub fn centered_extents(percent: u16) -> (extents: Vec<Extent>)
    requires
        percent <= 100,
    ensures
        extents@ == centered(percent),
{
    let margin: u16 = (100 - percent) / 2;
    let mut extents: Vec<Extent> = Vec::new();
    extents.push(Extent::Percentage(margin));
    extents.push(Extent::Percentage(percent));
    extents.push(Extent::Percentage(margin));
    extents
}

/// Whether the far edges of `area` are coordinates too: the area ends at or
/// before the last column and the last row that there are.
pub open spec fn in_range(area: Rect) -> bool {
    area.x + area.width <= u16::MAX && area.y + area.height <= u16::MAX
}

/// Whether the far edges of `area` are coordinates too, as [`in_range`] says.
pub fn fits(area: Rect) -> (r: bool)
    ensures
        r == in_range(area),
{
    area.width <= u16::MAX - area.x && area.height <= u16::MAX - area.y
}

/// The area of the list in `area`: all of it but its last row.
pub open spec fn list_part(area: Rect) -> Rect {
    Rect {
        x: area.x,
        y: area.y,
        width: area.width,
        height: if area.height >= 1 {
            (area.height - 1) as u16
        } else {
            0
        },
    }
}

/// The area of the status line in `area`: its last row; where `area` has no
/// row, an area without a row at its top.
pub open spec fn status_part(area: Rect) -> Rect {
    if area.height >= 1 {
        Rect { x: area.x, y: (area.y + area.height - 1) as u16, width: area.width, height: 1 }
    } else {
        Rect { x: area.x, y: area.y, width: area.width, height: 0 }
    }
}

/// Divides `area` into the list and the status line below it, as ratatui
/// lays out a part of no cells or more above a part of one cell. Both reach
/// across `area` and lie inside it, and in an area that is [`in_range`] the
/// status line is the last row and the list is all above it. What ratatui
/// hands back is held against this, and takes effect only where it agrees.
pub fn main_areas(area: Rect) -> (parts: (Rect, Rect))
    ensures
        spans(Axis::Vertical, area, parts.0),
        spans(Axis::Vertical, area, parts.1),
        inside(area, parts.0),
        inside(area, parts.1),
        in_range(area) ==> parts.0 == list_part(area) && parts.1 == status_part(area),
{
    let mut extents: Vec<Extent> = Vec::new();
    extents.push(Extent::Min(0));
    extents.push(Extent::Length(1));
    let rows = split(Axis::Vertical, &extents, area);
    let list = rows[0];
    let status = rows[1];
    if !fits(area) {
        return (list, status);
    }
    let bar: u16 = if area.height >= 1 {
        1
    } else {
        0
    };
    let rest: u16 = area.height - bar;
    if list.y == area.y && list.height == rest && status.y == area.y + rest && status.height == bar {
        (list, status)
    } else {
        (
            Rect { x: area.x, y: area.y, width: area.width, height: rest },
            Rect { x: area.x, y: area.y + rest, width: area.width, height: bar },
        )
    }
}

/// The middle one of three parts.
pub fn middle(parts: &Vec<Rect>) -> (part: Rect)
    requires
        parts@.len() == 3,
    ensures
        part == parts@[1],
{
    parts[1]
}

/// Whether `got` cells are `percent` hundredths of `size` cells, to within
/// the one cell that rounding leaves.
pub open spec fn is_share(percent: int, size: int, got: int) -> bool {
    percent * size - 100 <= 100 * got <= percent * size + 100
}

/// Whether the stretch of `part_size` cells from `part_start` is centred in
/// the stretch of `size` cells from `start` and takes `percent` hundredths of
/// it: its length is that share, and in front of it lies the share of
/// [`centered`]'s margin, half the rest, each to within a cell.
pub open spec fn centred_along(
    percent: u16,
    start: u16,
    size: u16,
    part_start: u16,
    part_size: u16,
) -> bool {
    &&& start <= part_start
    &&& is_share(percent as int, size as int, part_size as int)
    &&& is_share((100 - percent) / 2, size as int, part_start - start)
}

/// Whether `panel` is centred in `r` and takes `percent_x` hundredths of its
/// width and `percent_y` hundredths of its height, as [`centred_along`] says
/// for each direction.
pub open spec fn centred(percent_x: u16, percent_y: u16, r: Rect, panel: Rect) -> bool {
    centred_along(percent_x, r.x, r.width, panel.x, panel.width) && centred_along(
        percent_y,
        r.y,
        r.height,
        panel.y,
        panel.height,
    )
}

/// A margin and a share that together are at most the whole take at most
/// the whole of any length.
proof fn lemma_shares(margin: int, percent: int, size: int)
    by (nonlinear_arith)
    requires
        0 <= margin,
        0 <= percent,
        margin + percent <= 100,
        0 <= size,
    ensures
        0 <= margin * size <= 100 * size,
        0 <= percent * size <= 100 * size,
        margin * size + percent * size <= 100 * size,
{
}

/// Whether `got` cells are `percent` hundredths of `size` cells, as
/// [`is_share`] says.
fn share_met(percent: u16, size: u16, got: u16) -> (r: bool)
    requires
        percent <= 100,
    ensures
        r == is_share(percent as int, size as int, got as int),
{
    proof {
        lemma_shares(0, percent as int, size as int);
    }
    let whole: u32 = percent as u32 * size as u32;
    let cells: u32 = 100 * got as u32;
    whole <= cells + 100 && cells <= whole + 100
}

/// Whether a part is centred in a stretch, as [`centred_along`] says.
fn centred_met(percent: u16, start: u16, size: u16, part_start: u16, part_size: u16) -> (r: bool)
    requires
        percent <= 100,
    ensures
        r == centred_along(percent, start, size, part_start, part_size),
{
    start <= part_start && share_met(percent, size, part_size) && share_met(
        (100 - percent) / 2,
        size,
        part_start - start,
    )
}

/// The stretch that is centred in the stretch of `size` cells from `start`
/// and takes `percent` hundredths of it, each share rounded down: where it
/// begins, and its length.
fn centred_stretch(percent: u16, start: u16, size: u16) -> (part: (u16, u16))
    requires
        percent <= 100,
        start + size <= u16::MAX,
    ensures
        centred_along(percent, start, size, part.0, part.1),
        part.0 + part.1 <= start + size,
{
    let margin: u16 = (100 - percent) / 2;
    proof {
        lemma_shares(margin as int, percent as int, size as int);
    }
    let before: u32 = margin as u32 * size as u32 / 100;
    let length: u32 = percent as u32 * size as u32 / 100;
    (start + before as u16, length as u16)
}

/// The area of a panel in the middle of `r`, `percent_x` hundredths of it
/// wide and `percent_y` hundredths high: the middle part of `r` divided from
/// top to bottom by [`centered`]`(percent_y)`, divided again from left to
/// right by [`centered`]`(percent_x)`, as ratatui lays these out. The panel
/// lies inside `r`, and in an `r` that is [`in_range`] it is [`centred`]:
/// what ratatui hands back is held against that, and where it is not so the
/// panel is the centred one with each share rounded down.
pub fn centered_rect(percent_x: u16, percent_y: u16, r: Rect) -> (panel: Rect)
    requires
        percent_x <= 100,
        percent_y <= 100,
    ensures
        inside(r, panel),
        in_range(r) ==> centred(percent_x, percent_y, r, panel),
{
    let rows = split(Axis::Vertical, &centered_extents(percent_y), r);
    let band = middle(&rows);
    let columns = split(Axis::Horizontal, &centered_extents(percent_x), band);
    let panel = middle(&columns);
    if !fits(r) {
        return panel;
    }
    if centred_met(percent_x, r.x, r.width, panel.x, panel.width) && centred_met(
        percent_y,
        r.y,
        r.height,
        panel.y,
        panel.height,
    ) {
        panel
    } else {
        let (x, width) = centred_stretch(percent_x, r.x, r.width);
        let (y, height) = centred_stretch(percent_y, r.y, r.height);
        Rect { x, y, width, height }
    }
}

} // verus!
