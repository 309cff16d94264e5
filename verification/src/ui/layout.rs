//! Grid layout for the dashboard:
//!
//! ```text
//!   +--------------------------+---------------------+
//!   |                          |   Top Talkers       |
//!   |       World Map          |   + Metrics         |
//!   |                          +---------------------+
//!   |                          |   Proxy Breakdown   |
//!   +--------------------------+---------------------+
//!   |       Live Connection Log                      |
//!   +------------------------------------------------+
//! ```
//!
//! Without the map the log fills the entire left column.

use ratatui::layout::{Constraint, Layout, Rect};
use vstd::prelude::*;

verus! {

/// A rectangle of terminal cells.
#[derive(Clone, Copy, Debug, PartialEq, Eq, Structural)]
pub struct Area {
    pub x: u16,
    pub y: u16,
    pub width: u16,
    pub height: u16,
}

/// How much of an area a part takes.
#[derive(Clone, Copy, Debug, PartialEq, Eq, Structural)]
pub enum Extent {
    /// At least so many cells.
    AtLeast(u16),
    /// Exactly so many cells.
    Exactly(u16),
    /// So many percent.
    Percent(u16),
}

/// A length that does not reach beyond the last coordinate.
pub open spec fn clipped(start: u16, length: u16) -> u16 {
    if start + length > u16::MAX {
        (u16::MAX - start) as u16
    } else {
        length
    }
}

/// An area without what lies beyond the last coordinate.
pub open spec fn on_screen(area: Area) -> Area {
    Area {
        width: clipped(area.x, area.width),
        height: clipped(area.y, area.height),
        ..area
    }
}

/// How long an area is in the direction in which it is split.
pub open spec fn length(area: Area, vertical: bool) -> u16 {
    if vertical {
        area.height
    } else {
        area.width
    }
}

/// The lines `from..to` of an area, or its columns where it is split from left
/// to right.
pub open spec fn slice(area: Area, vertical: bool, from: int, to: int) -> Area {
    if vertical {
        Area { y: (area.y + from) as u16, height: (to - from) as u16, ..area }
    } else {
        Area { x: (area.x + from) as u16, width: (to - from) as u16, ..area }
    }
}

/// Whether a part is inside an area.
pub open spec fn inside(part: Area, area: Area) -> bool {
    &&& area.x <= part.x
    &&& part.x + part.width <= area.x + area.width
    &&& area.y <= part.y
    &&& part.y + part.height <= area.y + area.height
}

/// Whether all parts are inside an area.
pub open spec fn all_inside(parts: Seq<Area>, area: Area) -> bool {
    forall|i: int| 0 <= i < parts.len() ==> inside(#[trigger] parts[i], area)
}

/// Where two parts of a length meet. A part of fixed length gives way to the
/// minimum of the one before it, and what is left over goes to the one with
/// the minimum. Of two percentages that make up the whole, the first is
/// rounded to the nearest cell.
pub open spec fn meeting_point(first: Extent, second: Extent, len: int) -> Option<int> {
    match (first, second) {
        (Extent::AtLeast(a), Extent::Exactly(b)) => if a > i16::MAX {
            None
        } else if a + b <= len {
            Some(len - b)
        } else if a <= len {
            Some(a as int)
        } else {
            Some(len)
        },
        (Extent::Percent(p), Extent::Percent(q)) => if p + q == 100 {
            Some((p * len + 50) / 100)
        } else {
            None
        },
        _ => None,
    }
}

/// Whether two parts share an area out as their extents ask, without a gap.
pub open spec fn halved(area: Area, vertical: bool, extents: Seq<Extent>, parts: Seq<Area>) -> bool {
    let len = length(area, vertical) as int;
    extents.len() == 2 ==> match meeting_point(extents[0], extents[1], len) {
        Some(at) => parts[0] == slice(area, vertical, 0, at) && parts[1] == slice(
            area,
            vertical,
            at,
            len,
        ),
        None => true,
    }
}

/// Whether a single part that asks for all of an area has it.
pub open spec fn undivided(area: Area, extents: Seq<Extent>, parts: Seq<Area>) -> bool {
    extents == seq![Extent::Percent(100)] ==> parts[0] == area
}

/// Wraps `ratatui::layout::Layout::split`: one part for every extent, from top
/// to bottom or from left to right. The parts are inside the area, a required
/// constraint of the solver. A minimum outranks a length, a length outranks
/// growing, and gaps outrank them all, so that a minimum and a length, two
/// percentages that make up the whole, and all of it, come out in one way
/// only. Of other extents nothing more is stated: where they cannot all be met
/// the solver's choice may depend on hash tables that are seeded at random.
#[verifier::external_body]
fn split(area: Area, vertical: bool, extents: &Vec<Extent>) -> (parts: Vec<Area>)
    ensures
        parts@.len() == extents@.len(),
        all_inside(parts@, on_screen(area)),
        halved(on_screen(area), vertical, extents@, parts@),
        undivided(on_screen(area), extents@, parts@),
{
    let limits: Vec<Constraint> = extents.iter().map(|e| match *e {
        Extent::AtLeast(n) => Constraint::Min(n),
        Extent::Exactly(n) => Constraint::Length(n),
        Extent::Percent(n) => Constraint::Percentage(n),
    }).collect();
    let layout = match vertical {
        true => Layout::vertical(limits),
        false => Layout::horizontal(limits),
    };
    let parts = layout.split(Rect::new(area.x, area.y, area.width, area.height));
    parts.iter().map(|p| Area { x: p.x, y: p.y, width: p.width, height: p.height }).collect()
}

/// Where the parts of the dashboard are.
#[derive(Clone, Copy, Debug, PartialEq, Eq, Structural)]
pub struct DashboardAreas {
    pub map: Area,
    pub metrics_top: Area,
    pub metrics_bottom: Area,
    pub log: Area,
    pub footer: Area,
}

/// The parts of the dashboard, given how the splits came out: the screen into
/// body and footer, the body into two columns, the left column into map and
/// log (or log alone), the right one into two.
pub open spec fn arranged(
    outer: Seq<Area>,
    main_column: Seq<Area>,
    metrics_column: Seq<Area>,
    no_map: bool,
) -> DashboardAreas {
    DashboardAreas {
        map: if no_map {
            Area { x: 0, y: 0, width: 0, height: 0 }
        } else {
            main_column[0]
        },
        metrics_top: metrics_column[0],
        metrics_bottom: metrics_column[1],
        log: if no_map {
            main_column[0]
        } else {
            main_column[1]
        },
        footer: outer[1],
    }
}

/// Picks the parts of the dashboard from the splits.
pub fn arrange(
    outer: &Vec<Area>,
    main_column: &Vec<Area>,
    metrics_column: &Vec<Area>,
    no_map: bool,
) -> (areas: DashboardAreas)
    requires
        outer@.len() == 2,
        metrics_column@.len() == 2,
        main_column@.len() == if no_map {
            1int
        } else {
            2
        },
    ensures
        areas == arranged(outer@, main_column@, metrics_column@, no_map),
{
    DashboardAreas {
        map: if no_map {
            Area { x: 0, y: 0, width: 0, height: 0 }
        } else {
            main_column[0]
        },
        metrics_top: metrics_column[0],
        metrics_bottom: metrics_column[1],
        log: if no_map {
            main_column[0]
        } else {
            main_column[1]
        },
        footer: outer[1],
    }
}

/// The extents of the screen: the body over one line of footer.
pub fn screen_extents() -> (extents: Vec<Extent>)
    ensures
        extents@ == seq![Extent::AtLeast(8), Extent::Exactly(1)],
{
    vec![Extent::AtLeast(8), Extent::Exactly(1)]
}

/// The extents of the body: main column and metrics.
pub fn body_extents() -> (extents: Vec<Extent>)
    ensures
        extents@ == seq![Extent::Percent(72), Extent::Percent(28)],
{
    vec![Extent::Percent(72), Extent::Percent(28)]
}

/// The extents of the main column: map over log, or the log alone.
pub fn main_extents(no_map: bool) -> (extents: Vec<Extent>)
    ensures
        extents@ == if no_map {
            seq![Extent::Percent(100)]
        } else {
            seq![Extent::AtLeast(8), Extent::Exactly(10)]
        },
{
    if no_map {
        vec![Extent::Percent(100)]
    } else {
        vec![Extent::AtLeast(8), Extent::Exactly(10)]
    }
}

/// The extents of the metrics column: top talkers over proxies.
pub fn metrics_extents() -> (extents: Vec<Extent>)
    ensures
        extents@ == seq![Extent::Percent(55), Extent::Percent(45)],
{
    vec![Extent::Percent(55), Extent::Percent(45)]
}

/// Where the footer begins on a screen of the given height: on the last line,
/// unless the body needs it for its eight lines.
pub open spec fn footer_row(height: int) -> int {
    if height >= 9 {
        height - 1
    } else {
        height
    }
}

/// Where the log begins under the map, in a column of the given height: ten
/// lines above the end, unless the map needs them for its eight lines.
pub open spec fn log_row(height: int) -> int {
    if height >= 18 {
        height - 10
    } else if height >= 8 {
        8
    } else {
        height
    }
}

/// A percentage of a length, rounded to the nearest cell.
pub open spec fn percentage(p: int, len: int) -> int {
    (p * len + 50) / 100
}

/// Where the parts of the dashboard are on a screen.
pub open spec fn laid_out(screen: Area, no_map: bool) -> DashboardAreas {
    let all = on_screen(screen);
    let h = all.height as int;
    let w = all.width as int;
    let body = slice(all, true, 0, footer_row(h));
    let main_column = slice(body, false, 0, percentage(72, w));
    let metrics = slice(body, false, percentage(72, w), w);
    let rows = body.height as int;
    DashboardAreas {
        map: if no_map {
            Area { x: 0, y: 0, width: 0, height: 0 }
        } else {
            slice(main_column, true, 0, log_row(rows))
        },
        metrics_top: slice(metrics, true, 0, percentage(55, rows)),
        metrics_bottom: slice(metrics, true, percentage(55, rows), rows),
        log: if no_map {
            main_column
        } else {
            slice(main_column, true, log_row(rows), rows)
        },
        footer: slice(all, true, footer_row(h), h),
    }
}

/// Lays the dashboard out on a screen: the footer under the body, in the body
/// the main column beside the metrics, and in the main column the map over the
/// log, or the log alone.
pub fn dashboard(screen: Area, no_map: bool) -> (areas: DashboardAreas)
    ensures
        areas == laid_out(screen, no_map),
{
    let outer: Vec<Area> = split(screen, true, &screen_extents());
    let body: Vec<Area> = split(outer[0], false, &body_extents());
    let main_column: Vec<Area> = split(body[0], true, &main_extents(no_map));
    let metrics_column: Vec<Area> = split(body[1], true, &metrics_extents());
    arrange(&outer, &main_column, &metrics_column, no_map)
}

/// On a screen of nine lines and more the footer is the last line, every panel
/// ends above it, and the main column stands left of the metrics.
pub proof fn panels_stand_above_the_footer(screen: Area, no_map: bool)
    requires
        screen.x + screen.width <= u16::MAX,
        screen.y + screen.height <= u16::MAX,
        screen.height >= 9,
    ensures
        ({
            let a = laid_out(screen, no_map);
            &&& a.footer == (Area {
                x: screen.x,
                y: (screen.y + screen.height - 1) as u16,
                width: screen.width,
                height: 1,
            })
            &&& a.log.y + a.log.height == a.footer.y
            &&& a.metrics_bottom.y + a.metrics_bottom.height == a.footer.y
            &&& a.metrics_top.y + a.metrics_top.height == a.metrics_bottom.y
            &&& a.log.x + a.log.width == a.metrics_top.x
            &&& a.metrics_top.x == a.metrics_bottom.x
            &&& !no_map ==> a.map.y + a.map.height == a.log.y && a.map.x == a.log.x && a.map.width
                == a.log.width
        }),
{
    percentage_in_range(72, screen.width as int);
    percentage_in_range(55, screen.height - 1);
}

proof fn percentage_in_range(p: int, len: int)
    requires
        0 <= p <= 100,
        0 <= len,
    ensures
        0 <= percentage(p, len) <= len,
{
    assert(0 <= p * len <= 100 * len) by (nonlinear_arith)
        requires
            0 <= p <= 100,
            0 <= len,
    ;
}

/// The main column has 72 percent of the width and the metrics the rest; the
/// top talkers have 55 percent of the height over the footer and the proxies
/// the rest, each to the nearest cell.
pub proof fn columns_share_the_screen(screen: Area, no_map: bool)
    requires
        screen.x + screen.width <= u16::MAX,
        screen.y + screen.height <= u16::MAX,
        screen.height >= 9,
    ensures
        ({
            let a = laid_out(screen, no_map);
            let rows = screen.height - 1;
            &&& a.log.x == screen.x
            &&& -50 <= 100 * a.log.width - 72 * screen.width <= 50
            &&& a.log.width + a.metrics_top.width == screen.width
            &&& a.metrics_bottom.width == a.metrics_top.width
            &&& a.metrics_top.y == screen.y
            &&& -50 <= 100 * a.metrics_top.height - 55 * rows <= 50
            &&& a.metrics_top.height + a.metrics_bottom.height == rows
        }),
{
    percentage_in_range(72, screen.width as int);
    percentage_in_range(55, screen.height - 1);
}

/// The map begins at the top. It leaves ten lines to the log, and has at least
/// eight itself where there are that many.
pub proof fn the_map_stands_over_the_log(screen: Area)
    requires
        screen.x + screen.width <= u16::MAX,
        screen.y + screen.height <= u16::MAX,
        screen.height >= 9,
    ensures
        ({
            let a = laid_out(screen, false);
            &&& a.map.y == screen.y
            &&& a.map.height + a.log.height == screen.height - 1
            &&& screen.height >= 19 ==> a.log.height == 10
            &&& screen.height < 19 ==> a.map.height == 8
        }),
{
    percentage_in_range(72, screen.width as int);
    percentage_in_range(55, screen.height - 1);
}

/// Without the map the log fills the whole column from the top, and the map has
/// no cells.
pub proof fn without_a_map_the_log_fills_the_column(screen: Area)
    requires
        screen.x + screen.width <= u16::MAX,
        screen.y + screen.height <= u16::MAX,
        screen.height >= 9,
    ensures
        ({
            let a = laid_out(screen, true);
            &&& a.map.width == 0 && a.map.height == 0
            &&& a.log.y == screen.y
            &&& a.log.height == screen.height - 1
            &&& a.log.width == laid_out(screen, false).log.width
        }),
{
    percentage_in_range(72, screen.width as int);
}

/// On a screen of fewer than nine lines the body has them all and the footer
/// none; the map has the first eight.
pub proof fn low_screens_show_the_body(screen: Area)
    requires
        screen.x + screen.width <= u16::MAX,
        screen.y + screen.height <= u16::MAX,
        screen.height < 9,
    ensures
        laid_out(screen, false).footer.height == 0,
        laid_out(screen, false).map.height == screen.height,
        laid_out(screen, false).log.height == 0,
        laid_out(screen, true).log.height == screen.height,
{
    percentage_in_range(72, screen.width as int);
    percentage_in_range(55, screen.height as int);
}

/// What lies beyond the last coordinate is cut off, and nothing else.
pub proof fn screens_end_at_the_last_coordinate(area: Area)
    ensures
        on_screen(area).x == area.x && on_screen(area).y == area.y,
        area.x + area.width <= 65535 ==> on_screen(area).width == area.width,
        area.x + area.width > 65535 ==> area.x + on_screen(area).width == 65535,
        area.y + area.height <= 65535 ==> on_screen(area).height == area.height,
        area.y + area.height > 65535 ==> area.y + on_screen(area).height == 65535,
{
}

} // verus!
