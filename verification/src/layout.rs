//! Where popups stand on the screen. Rectangles are `(x, y, width, height)`.
use vstd::prelude::*;
use ratatui::layout::{Constraint, Direction, Layout, Rect};

verus! {

/// Which way an area is split: into rows or into columns.
#[derive(Debug, Clone, Copy, PartialEq, Eq, Structural)]
pub enum Axis {
    Vertical,
    Horizontal,
}

/// A rectangle of the screen: column, row, width, height.
pub type Area = (u16, u16, u16, u16);

/// `part` lies inside `area`: along `axis` it starts and ends within the
/// area, and across it the two are the same.
pub open spec fn inside_along(axis: Axis, part: Area, area: Area) -> bool {
    match axis {
        Axis::Vertical => part.0 == area.0 && part.2 == area.2 && area.1 <= part.1 && part.1 + part.3 <= area.1
            + area.3,
        Axis::Horizontal => part.1 == area.1 && part.3 == area.3 && area.0 <= part.0 && part.0 + part.2 <= area.0
            + area.2,
    }
}

/// `part` lies inside `area`.
pub open spec fn inside(part: Area, area: Area) -> bool {
    &&& area.0 <= part.0
    &&& part.0 + part.2 <= area.0 + area.2
    &&& area.1 <= part.1
    &&& part.1 + part.3 <= area.1 + area.3
}

/// Where `a` starts along `axis`.
pub open spec fn axis_start(axis: Axis, a: Area) -> int {
    match axis {
        Axis::Vertical => a.1 as int,
        Axis::Horizontal => a.0 as int,
    }
}

/// How long `a` is along `axis`.
pub open spec fn axis_len(axis: Axis, a: Area) -> int {
    match axis {
        Axis::Vertical => a.3 as int,
        Axis::Horizontal => a.2 as int,
    }
}

/// How much of `a`'s length along `axis` lies on the screen's grid: its
/// end is cut at the last cell, 65535.
pub open spec fn usable_len(axis: Axis, a: Area) -> int {
    if axis_start(axis, a) + axis_len(axis, a) > 65535 {
        65535 - axis_start(axis, a)
    } else {
        axis_len(axis, a)
    }
}

/// `p` percent of `len` cells, rounded down.
pub open spec fn percent_of(len: int, p: int) -> int {
    len * p / 100
}

/// `n` is `m` give or take one cell.
pub open spec fn near(n: int, m: int) -> bool {
    m - 1 <= n <= m + 1
}

/// One part of a split, as ratatui's `Constraint` gives it: a fixed length,
/// a share of what is left (`Fill`), at least a length that grows to take
/// what is left (`Min`), a percentage, or a ratio of the area.
#[derive(Debug, Clone, Copy, PartialEq, Eq, Structural)]
pub enum Part {
    Length(u16),
    Fill(u16),
    Min(u16),
    Percentage(u16),
    Ratio(u32, u32),
}

/// Whether every part is a percentage.
pub open spec fn all_percentages(ps: Seq<Part>) -> bool {
    forall|k: int| 0 <= k < ps.len() ==> #[trigger] ps[k] is Percentage
}

/// The percentages of the parts, added up (other parts count nothing).
pub open spec fn percent_sum(ps: Seq<Part>) -> int
    decreases ps.len(),
{
    if ps.len() == 0 {
        0
    } else {
        percent_sum(ps.drop_last()) + match ps.last() {
            Part::Percentage(p) => p as int,
            _ => 0,
        }
    }
}

/// Where `a` ends along `axis`.
pub open spec fn axis_end(axis: Axis, a: Area) -> int {
    axis_start(axis, a) + axis_len(axis, a)
}

/// `Layout::split` of `area` along `axis` into `parts` (default layout: no
/// margin, no spacing, parts placed from the start). Stated of it, as
/// ratatui's source shows:
/// - one area per part, each inside `area` and as wide (or high) as it
///   across the axis;
/// - the first starts where the area starts and each next one where the one
///   before ends (the spacers before and between the parts are held at zero
///   size, more strongly than any part's constraint);
/// - where every part is a percentage and they add up to at most 100, each
///   part's length is its percentage of the area's length give or take one
///   cell (the constraints can all be met, and each edge is rounded to the
///   nearest cell); where they add up to 100 the last part ends at the
///   area's end;
/// - two halves by ratio `1/2` are each half the length give or take one
///   cell, the second ending at the area's end;
/// - fixed lengths around one `Fill` or before a `Length` after a `Min`
///   keep their lengths exactly when they fit, the `Fill` or `Min` part
///   taking the rest (lengths weigh more than growing, growing more than
///   the trailing space).
/// How the cells of a split that cannot be met, or that rounding leaves
/// over, fall is not stated: the solver walks a hash map whose order
/// changes from one process to the next.
#[verifier::external_body]
fn split_area(axis: Axis, parts: &Vec<Part>, area: Area) -> (r: Vec<Area>)
    ensures
        r@.len() == parts@.len(),
        forall|k: int| 0 <= k < r@.len() ==> inside_along(axis, #[trigger] r@[k], area),
        r@.len() > 0 ==> axis_start(axis, r@[0]) == axis_start(axis, area),
        forall|k: int|
            0 <= k < r@.len() - 1 ==> axis_start(axis, #[trigger] r@[k + 1]) == axis_end(axis, r@[k]),
        all_percentages(parts@) && percent_sum(parts@) <= 100 ==> forall|k: int|
            0 <= k < r@.len() ==> near(
                axis_len(axis, #[trigger] r@[k]),
                percent_of(usable_len(axis, area), parts@[k]->Percentage_0 as int),
            ),
        all_percentages(parts@) && percent_sum(parts@) == 100 && r@.len() > 0 ==> axis_end(axis, r@.last())
            == axis_start(axis, area) + usable_len(axis, area),
        parts@ == seq![Part::Ratio(1, 2), Part::Ratio(1, 2)] ==> {
            &&& near(axis_len(axis, r@[0]), percent_of(usable_len(axis, area), 50))
            &&& near(axis_len(axis, r@[1]), percent_of(usable_len(axis, area), 50))
            &&& axis_end(axis, r@[1]) == axis_start(axis, area) + usable_len(axis, area)
        },
        parts@.len() == 3 && parts@[0] is Length && parts@[1] is Fill && parts@[2] is Length && parts@[0]->Length_0
            + parts@[2]->Length_0 <= usable_len(axis, area) ==> {
            &&& axis_len(axis, r@[0]) == parts@[0]->Length_0
            &&& axis_len(axis, r@[1]) == usable_len(axis, area) - parts@[0]->Length_0 - parts@[2]->Length_0
            &&& axis_len(axis, r@[2]) == parts@[2]->Length_0
        },
        parts@.len() == 2 && parts@[0] is Length && parts@[1] is Fill && parts@[0]->Length_0 <= usable_len(
            axis,
            area,
        ) ==> axis_len(axis, r@[0]) == parts@[0]->Length_0 && axis_len(axis, r@[1]) == usable_len(axis, area)
            - parts@[0]->Length_0,
        parts@.len() == 2 && parts@[0] is Fill && parts@[1] is Length && parts@[1]->Length_0 <= usable_len(
            axis,
            area,
        ) ==> axis_len(axis, r@[0]) == usable_len(axis, area) - parts@[1]->Length_0 && axis_len(axis, r@[1])
            == parts@[1]->Length_0,
        parts@.len() == 2 && parts@[0] is Min && parts@[1] is Length && parts@[0]->Min_0 + parts@[1]->Length_0
            <= usable_len(axis, area) ==> axis_len(axis, r@[0]) == usable_len(axis, area) - parts@[1]->Length_0
            && axis_len(axis, r@[1]) == parts@[1]->Length_0,
{
    let direction = match axis {
        Axis::Vertical => Direction::Vertical,
        Axis::Horizontal => Direction::Horizontal,
    };
    let cs = parts.iter().map(|p| match *p {
        Part::Length(n) => Constraint::Length(n),
        Part::Fill(n) => Constraint::Fill(n),
        Part::Min(n) => Constraint::Min(n),
        Part::Percentage(n) => Constraint::Percentage(n),
        Part::Ratio(a, b) => Constraint::Ratio(a, b),
    });
    let rect = Rect { x: area.0, y: area.1, width: area.2, height: area.3 };
    Layout::new(direction, cs).split(rect).iter().map(|r| (r.x, r.y, r.width, r.height)).collect()
}

/// `part` lies across `area` (the same across `axis`), starts at `start`
/// along it and is `len` long.
pub open spec fn placed(axis: Axis, part: Area, area: Area, start: int, len: int) -> bool {
    &&& inside_along(axis, part, area)
    &&& axis_start(axis, part) == start
    &&& axis_len(axis, part) == len
}

/// The part of `area` centred in it, `percent_x` percent of its width and
/// `percent_y` percent of its height: the middle of three parts, first of
/// the rows and then of the columns, with margins of half the rest before
/// it. It lies inside `area`; its size and its margins before it are those
/// percentages of the area, give or take one cell.
pub fn centered_rect(percent_x: u16, percent_y: u16, area: Area) -> (r: Area)
    requires
        percent_x <= 100,
        percent_y <= 100,
    ensures
        inside(r, area),
        near(r.2 as int, percent_of(usable_len(Axis::Horizontal, area), percent_x as int)),
        near(r.3 as int, percent_of(usable_len(Axis::Vertical, area), percent_y as int)),
        near(r.0 - area.0, percent_of(usable_len(Axis::Horizontal, area), (100 - percent_x) / 2)),
        near(r.1 - area.1, percent_of(usable_len(Axis::Vertical, area), (100 - percent_y) / 2)),
{
    let my = (100 - percent_y) / 2;
    let rows = vec![Part::Percentage(my), Part::Percentage(percent_y), Part::Percentage(my)];
    proof {
        reveal_with_fuel(percent_sum, 4);
        assert(all_percentages(rows@));
        assert(percent_sum(rows@) == my + percent_y + my);
    }
    let v = split_area(Axis::Vertical, &rows, area);
    let mx = (100 - percent_x) / 2;
    let cols = vec![Part::Percentage(mx), Part::Percentage(percent_x), Part::Percentage(mx)];
    proof {
        reveal_with_fuel(percent_sum, 4);
        assert(all_percentages(cols@));
        assert(percent_sum(cols@) == mx + percent_x + mx);
    }
    let h = split_area(Axis::Horizontal, &cols, v[1]);
    proof {
        assert(inside_along(Axis::Vertical, v@[1], area));
        assert(inside_along(Axis::Vertical, v@[0], area));
        assert(inside_along(Axis::Horizontal, h@[1], v@[1]));
        assert(inside_along(Axis::Horizontal, h@[0], v@[1]));
        assert(usable_len(Axis::Horizontal, v@[1]) == usable_len(Axis::Horizontal, area));
        assert(axis_start(Axis::Vertical, v@[0int + 1]) == axis_end(Axis::Vertical, v@[0]));
        assert(axis_start(Axis::Horizontal, h@[0int + 1]) == axis_end(Axis::Horizontal, h@[0]));
        assert(near(axis_len(Axis::Vertical, v@[0]), percent_of(usable_len(Axis::Vertical, area), my as int)));
        assert(near(axis_len(Axis::Vertical, v@[1]), percent_of(usable_len(Axis::Vertical, area), percent_y as int)));
        assert(near(axis_len(Axis::Horizontal, h@[0]), percent_of(usable_len(Axis::Horizontal, v@[1]), mx as int)));
        assert(near(axis_len(Axis::Horizontal, h@[1]), percent_of(usable_len(Axis::Horizontal, v@[1]), percent_x as int)));
    }
    h[1]
}

/// The screen's header row, file list, diff area and footer row: a row at
/// the top and one at the bottom around the body, and the body cut into a
/// file list 30 columns wide and the diff beside it. Where the screen has
/// at least two rows, the header and footer are one row each and the body
/// all between; where it has at least 30 columns, the file list is 30 wide
/// and the diff all the rest. All four lie inside the screen.
pub fn screen_areas(screen: Area) -> (r: (Area, Area, Area, Area))
    ensures
        inside(r.0, screen) && inside(r.1, screen) && inside(r.2, screen) && inside(r.3, screen),
        usable_len(Axis::Vertical, screen) >= 2 ==> {
            let rows = usable_len(Axis::Vertical, screen);
            &&& placed(Axis::Vertical, r.0, screen, screen.1 as int, 1)
            &&& placed(Axis::Vertical, r.3, screen, screen.1 + rows - 1, 1)
            &&& r.1.1 == screen.1 + 1 && r.1.3 == rows - 2
            &&& r.2.1 == screen.1 + 1 && r.2.3 == rows - 2
        },
        usable_len(Axis::Horizontal, screen) >= 30 ==> {
            let cols = usable_len(Axis::Horizontal, screen);
            &&& r.1.0 == screen.0 && r.1.2 == 30
            &&& r.2.0 == screen.0 + 30 && r.2.2 == cols - 30
        },
{
    let rows = vec![Part::Length(1), Part::Fill(1), Part::Length(1)];
    let v = split_area(Axis::Vertical, &rows, screen);
    let cols = vec![Part::Length(30), Part::Fill(1)];
    let h = split_area(Axis::Horizontal, &cols, v[1]);
    proof {
        assert(inside_along(Axis::Vertical, v@[0], screen));
        assert(inside_along(Axis::Vertical, v@[1], screen));
        assert(inside_along(Axis::Vertical, v@[2], screen));
        assert(inside_along(Axis::Horizontal, h@[0], v@[1]));
        assert(inside_along(Axis::Horizontal, h@[1], v@[1]));
        assert(axis_start(Axis::Vertical, v@[0int + 1]) == axis_end(Axis::Vertical, v@[0]));
        assert(axis_start(Axis::Vertical, v@[1int + 1]) == axis_end(Axis::Vertical, v@[1]));
        assert(axis_start(Axis::Horizontal, h@[0int + 1]) == axis_end(Axis::Horizontal, h@[0]));
        assert(usable_len(Axis::Horizontal, v@[1]) == usable_len(Axis::Horizontal, screen));
    }
    (v[0], h[0], h[1], v[2])
}

/// Two halves of `area` side by side (each a ratio of one half): each half
/// the width give or take one column, the left starting at the area's
/// start, the right where the left ends and ending at the area's end.
pub fn side_by_side_halves(area: Area) -> (r: (Area, Area))
    ensures
        inside_along(Axis::Horizontal, r.0, area) && inside_along(Axis::Horizontal, r.1, area),
        r.0.0 == area.0,
        r.1.0 == r.0.0 + r.0.2,
        r.1.0 + r.1.2 == area.0 + usable_len(Axis::Horizontal, area),
        near(r.0.2 as int, percent_of(usable_len(Axis::Horizontal, area), 50)),
        near(r.1.2 as int, percent_of(usable_len(Axis::Horizontal, area), 50)),
{
    let parts = vec![Part::Ratio(1, 2), Part::Ratio(1, 2)];
    let h = split_area(Axis::Horizontal, &parts, area);
    proof {
        assert(inside_along(Axis::Horizontal, h@[0], area));
        assert(inside_along(Axis::Horizontal, h@[1], area));
        assert(axis_start(Axis::Horizontal, h@[0int + 1]) == axis_end(Axis::Horizontal, h@[0]));
    }
    (h[0], h[1])
}

/// The conflict view's areas: a status row at the top, and below it the
/// rest cut into two halves of fifty percent each, side by side, each half
/// the width give or take one column, together covering the row's width.
pub fn conflict_areas(area: Area) -> (r: (Area, Area, Area))
    requires
        area.1 < 65535,
    ensures
        r.0 == (area.0, area.1, area.2, 1u16),
        ({
            let panels = (area.0, (area.1 + 1) as u16, area.2, if area.3 > 0 {
                (area.3 - 1) as u16
            } else {
                0u16
            });
            &&& inside_along(Axis::Horizontal, r.1, panels) && inside_along(Axis::Horizontal, r.2, panels)
        }),
        r.1.0 == area.0,
        r.2.0 == r.1.0 + r.1.2,
        r.2.0 + r.2.2 == area.0 + usable_len(Axis::Horizontal, area),
        near(r.1.2 as int, percent_of(usable_len(Axis::Horizontal, area), 50)),
        near(r.2.2 as int, percent_of(usable_len(Axis::Horizontal, area), 50)),
{
    let status = (area.0, area.1, area.2, 1u16);
    let panels = (area.0, area.1 + 1, area.2, area.3.saturating_sub(1));
    let parts = vec![Part::Percentage(50), Part::Percentage(50)];
    proof {
        reveal_with_fuel(percent_sum, 3);
        assert(all_percentages(parts@));
        assert(percent_sum(parts@) == 100);
    }
    let h = split_area(Axis::Horizontal, &parts, panels);
    proof {
        assert(inside_along(Axis::Horizontal, h@[0], panels));
        assert(inside_along(Axis::Horizontal, h@[1], panels));
        assert(axis_start(Axis::Horizontal, h@[0int + 1]) == axis_end(Axis::Horizontal, h@[0]));
        assert(near(axis_len(Axis::Horizontal, h@[0]), percent_of(usable_len(Axis::Horizontal, panels), 50)));
        assert(near(axis_len(Axis::Horizontal, h@[1]), percent_of(usable_len(Axis::Horizontal, panels), 50)));
        assert(h@.last() == h@[1]);
    }
    (status, h[0], h[1])
}

/// `area` with one row (or column, along `axis`) kept at its end: the rest
/// first, then the last `len` cells. Where `len` fits, the first part takes
/// everything but those cells.
fn rest_then_last(axis: Axis, first: Part, len: u16, area: Area) -> (r: (Area, Area))
    requires
        first is Fill || first is Min,
    ensures
        inside_along(axis, r.0, area) && inside_along(axis, r.1, area),
        axis_start(axis, r.0) == axis_start(axis, area),
        axis_start(axis, r.1) == axis_end(axis, r.0),
        (match first {
            Part::Min(m) => m as int,
            _ => 0,
        }) + len <= usable_len(axis, area) ==> {
            &&& axis_len(axis, r.0) == usable_len(axis, area) - len
            &&& axis_len(axis, r.1) == len
        },
{
    let parts = vec![first, Part::Length(len)];
    let v = split_area(axis, &parts, area);
    proof {
        assert(inside_along(axis, v@[0], area));
        assert(inside_along(axis, v@[1], area));
        assert(axis_start(axis, v@[0int + 1]) == axis_end(axis, v@[0]));
    }
    (v[0], v[1])
}

/// The file list and, below it, the filter's input row: where the panel
/// has a row, the filter takes the last one and the list all above it.
pub fn list_and_filter(inner: Area) -> (r: (Area, Area))
    ensures
        inside_along(Axis::Vertical, r.0, inner) && inside_along(Axis::Vertical, r.1, inner),
        r.0.1 == inner.1 && r.1.1 == r.0.1 + r.0.3,
        usable_len(Axis::Vertical, inner) >= 1 ==> r.0.3 == usable_len(Axis::Vertical, inner) - 1 && r.1.3 == 1,
{
    rest_then_last(Axis::Vertical, Part::Fill(1), 1, inner)
}

/// A diff side's text and, at its right edge, its one-column overview bar:
/// where the side has a column, the bar takes the last one and the text all
/// before it.
pub fn text_and_bar(area: Area) -> (r: (Area, Area))
    ensures
        inside_along(Axis::Horizontal, r.0, area) && inside_along(Axis::Horizontal, r.1, area),
        r.0.0 == area.0 && r.1.0 == r.0.0 + r.0.2,
        usable_len(Axis::Horizontal, area) >= 1 ==> r.0.2 == usable_len(Axis::Horizontal, area) - 1 && r.1.2 == 1,
{
    rest_then_last(Axis::Horizontal, Part::Fill(1), 1, area)
}

/// The commit message editor and, below it, two rows of hints: where the
/// popup has at least three rows, the hints take the last two and the
/// message (at least one row) all above them.
pub fn message_and_hints(inner: Area) -> (r: (Area, Area))
    ensures
        inside_along(Axis::Vertical, r.0, inner) && inside_along(Axis::Vertical, r.1, inner),
        r.0.1 == inner.1 && r.1.1 == r.0.1 + r.0.3,
        usable_len(Axis::Vertical, inner) >= 3 ==> r.0.3 == usable_len(Axis::Vertical, inner) - 2 && r.1.3 == 2,
{
    rest_then_last(Axis::Vertical, Part::Min(1), 2, inner)
}

/// The rows that `count` command entries take in three columns.
pub open spec fn which_key_rows(count: nat) -> int {
    ((count + 2) / 3) as int
}

/// The command popup for `count` entries: at the bottom of the screen above
/// the footer row, the screen's width, with one row per three entries (the
/// count of rows as a `u16`) and a border row above and below.
pub fn which_key_area(count: usize, screen: Area) -> (r: Area)
    requires
        (which_key_rows(count as nat) as u16) + 3 <= u16::MAX,
    ensures
        ({
            let height = (which_key_rows(count as nat) as u16) + 2;
            &&& r.0 == screen.0 && r.2 == screen.2 && r.3 == height
            &&& r.1 == if screen.3 > height + 1 {
                screen.3 - (height + 1)
            } else {
                0
            }
        }),
{
    let rows: usize = count / 3 + if count % 3 != 0 {
        1
    } else {
        0
    };
    assert(rows == which_key_rows(count as nat));
    let height: u16 = rows as u16 + 2;
    (screen.0, screen.3.saturating_sub(height + 1), screen.2, height)
}

/// The width of each of the command popup's three columns.
pub fn which_key_column_width(inner_width: u16) -> (w: usize)
    ensures
        w == inner_width / 3,
{
    inner_width as usize / 3
}

} // verus!
