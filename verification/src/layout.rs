//! Where things stand on the screen.
use vstd::prelude::*;

verus! {

/// A part of the screen.
#[derive(Debug, Clone, Copy, PartialEq, Eq, Structural)]
pub struct Area {
    pub x: u16,
    pub y: u16,
    pub width: u16,
    pub height: u16,
}

/// A part of the screen that ends before the largest column and row.
pub open spec fn on_screen(area: Area) -> bool {
    area.x + area.width <= u16::MAX && area.y + area.height <= u16::MAX
}

/// Whether `inner` lies in `outer`.
pub open spec fn lies_in(inner: Area, outer: Area) -> bool {
    &&& outer.x <= inner.x
    &&& outer.y <= inner.y
    &&& inner.x + inner.width <= outer.x + outer.width
    &&& inner.y + inner.height <= outer.y + outer.height
}

/// `a` less `b`, but no less than nothing.
pub open spec fn less(a: int, b: int) -> int {
    if a > b {
        a - b
    } else {
        0
    }
}

/// The lesser of two numbers.
pub open spec fn lesser(a: int, b: int) -> int {
    if a < b {
        a
    } else {
        b
    }
}

/// The popup in the middle of an area: with some room around it and no larger
/// than it needs to be. `None` where the area is too small for one.
pub open spec fn popup_in(area: Area) -> Option<Area> {
    let width = lesser(less(area.width as int, 4), 88);
    let height = lesser(less(area.height as int, 2), 18);
    if width < 12 || height < 6 {
        None
    } else {
        Some(
            Area {
                x: (area.x + (area.width - width) / 2) as u16,
                y: (area.y + (area.height - height) / 2) as u16,
                width: width as u16,
                height: height as u16,
            },
        )
    }
}

/// The popup in the middle of an area.
pub fn popup_area(area: Area) -> (out: Option<Area>)
    requires
        on_screen(area),
    ensures
        out == popup_in(area),
        out is Some ==> lies_in(out->0, area) && on_screen(out->0),
{
    let wide: u16 = area.width.saturating_sub(4);
    let high: u16 = area.height.saturating_sub(2);
    let width: u16 = if wide < 88 {
        wide
    } else {
        88
    };
    let height: u16 = if high < 18 {
        high
    } else {
        18
    };
    if width < 12 || height < 6 {
        return None;
    }
    Some(
        Area {
            x: area.x + (area.width - width) / 2,
            y: area.y + (area.height - height) / 2,
            width,
            height,
        },
    )
}

/// What is left of a popup within its border.
pub open spec fn within_border(area: Area) -> Area {
    Area {
        x: (area.x + 1) as u16,
        y: (area.y + 1) as u16,
        width: less(area.width as int, 2) as u16,
        height: less(area.height as int, 2) as u16,
    }
}

/// What is left of a popup within its border.
pub fn inner_area(area: Area) -> (out: Area)
    requires
        on_screen(area),
        area.width >= 2,
        area.height >= 2,
    ensures
        out == within_border(area),
        lies_in(out, area),
        on_screen(out),
{
    Area {
        x: area.x + 1,
        y: area.y + 1,
        width: area.width - 2,
        height: area.height - 2,
    }
}

/// The first row of a list of `len` entries that is shown in `rows` rows, so
/// that the selected entry is in view.
pub open spec fn first_shown(selected: int, len: int, rows: int) -> int {
    lesser(less(selected, rows / 2), less(len, rows))
}

/// The first row of a list that is shown.
pub fn scroll_start(selected: usize, len: usize, rows: usize) -> (out: usize)
    ensures
        out == first_shown(selected as int, len as int, rows as int),
{
    let a: usize = selected.saturating_sub(rows / 2);
    let b: usize = len.saturating_sub(rows);
    if a < b {
        a
    } else {
        b
    }
}

/// The selected entry of a list is always in view, where there is a row to show
/// it in.
pub proof fn the_selected_entry_is_in_view(selected: int, len: int, rows: int)
    requires
        0 <= selected < len,
        rows > 0,
    ensures
        first_shown(selected, len, rows) <= selected < first_shown(selected, len, rows) + rows,
{
}

/// A popup stands in the middle of its area, with two columns and a row of room around
/// it at the least, and is as large as that allows, up to 88 columns and 18 rows.
pub proof fn popups_stand_in_the_middle(area: Area)
    requires
        on_screen(area),
    ensures
        popup_in(area) is Some <==> area.width >= 16 && area.height >= 8,
        popup_in(area) is Some ==> {
            let popup = popup_in(area)->0;
            let left = popup.x - area.x;
            let right = area.x + area.width - (popup.x + popup.width);
            let above = popup.y - area.y;
            let below = area.y + area.height - (popup.y + popup.height);
            &&& left <= right <= left + 1
            &&& above <= below <= above + 1
            &&& left >= 2 && above >= 1
            &&& popup.width == 88 || popup.width < 88 && left + right == 4
            &&& popup.height == 18 || popup.height < 18 && above + below == 2
        },
{
}

/// A border takes one column or row on each side.
pub proof fn borders_are_thin(area: Area)
    requires
        on_screen(area),
        area.width >= 2,
        area.height >= 2,
    ensures
        ({
            let inner = within_border(area);
            &&& inner.x == area.x + 1
            &&& inner.y == area.y + 1
            &&& inner.x + inner.width + 1 == area.x + area.width
            &&& inner.y + inner.height + 1 == area.y + area.height
        }),
{
}

/// A list is shown from its first entry while all fits or the selected one is near the
/// top, and no row is left empty while there are entries above.
pub proof fn lists_fill_their_rows(selected: int, len: int, rows: int)
    requires
        0 <= selected < len,
        rows > 0,
    ensures
        0 <= first_shown(selected, len, rows),
        len <= rows ==> first_shown(selected, len, rows) == 0,
        selected <= rows / 2 ==> first_shown(selected, len, rows) == 0,
        len >= rows ==> first_shown(selected, len, rows) + rows <= len,
{
}

} // verus!
