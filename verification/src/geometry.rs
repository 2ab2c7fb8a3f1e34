//! Cell and pixel geometry shared by drawing, preloading, and mouse hit
//! testing, so all three agree on where a page is shown.

use vstd::prelude::*;

verus! {

/// Terminal cell size assumed when the terminal does not report one.
pub const DEFAULT_CELL_WIDTH: u16 = 8;

pub const DEFAULT_CELL_HEIGHT: u16 = 16;

/// A rectangle of terminal cells.
#[derive(Debug, Clone, Copy, PartialEq, Eq, Default)]
pub struct Rect {
    pub x: u16,
    pub y: u16,
    pub width: u16,
    pub height: u16,
}

impl Rect {
    pub fn new(x: u16, y: u16, width: u16, height: u16) -> (area: Rect)
        ensures
            area == (Rect { x, y, width, height }),
    {
        Rect { x, y, width, height }
    }
}

/// `a * b`, saturating at `u16::MAX`.
pub open spec fn sat_mul16(a: int, b: int) -> int {
    if a * b > u16::MAX {
        u16::MAX as int
    } else {
        a * b
    }
}

/// `u16::saturating_mul`.
pub fn saturating_mul_u16(a: u16, b: u16) -> (product: u16)
    ensures
        product as int == sat_mul16(a as int, b as int),
{
    proof {
        assert(a as u32 * b as u32 <= u32::MAX) by (nonlinear_arith)
            requires
                a <= u16::MAX,
                b <= u16::MAX,
        ;
    }
    let wide = a as u32 * b as u32;
    if wide > u16::MAX as u32 {
        u16::MAX
    } else {
        wide as u16
    }
}

/// `a + b`, saturating at `u16::MAX`.
pub open spec fn sat_add16(a: int, b: int) -> int {
    if a + b > u16::MAX {
        u16::MAX as int
    } else {
        a + b
    }
}

/// `a - b`, saturating at zero.
pub open spec fn sat_sub(a: int, b: int) -> int {
    if a >= b {
        a - b
    } else {
        0
    }
}

pub open spec fn max_int(a: int, b: int) -> int {
    if a >= b {
        a
    } else {
        b
    }
}

pub open spec fn min_int(a: int, b: int) -> int {
    if a <= b {
        a
    } else {
        b
    }
}

/// Whether the cell at `column`, `row` lies inside `area`.
pub open spec fn rect_contains(area: Rect, column: int, row: int) -> bool {
    &&& area.x <= column < sat_add16(area.x as int, area.width as int)
    &&& area.y <= row < sat_add16(area.y as int, area.height as int)
}

pub fn contains(area: Rect, column: u16, row: u16) -> (inside: bool)
    ensures
        inside == rect_contains(area, column as int, row as int),
{
    column >= area.x && column < area.x.saturating_add(area.width) && row >= area.y && row
        < area.y.saturating_add(area.height)
}

/// `area` shrunk by the given margins, or an empty rect at its corner when
/// nothing is left.
pub fn safe_inner(area: Rect, horizontal: u16, vertical: u16) -> (inner: Rect)
    ensures
        (area.width <= sat_add16(horizontal as int, horizontal as int) || area.height
            <= sat_add16(vertical as int, vertical as int)) ==> inner == (Rect {
            x: area.x,
            y: area.y,
            width: 0,
            height: 0,
        }),
        !(area.width <= sat_add16(horizontal as int, horizontal as int) || area.height
            <= sat_add16(vertical as int, vertical as int)) ==> {
            &&& inner.x == sat_add16(area.x as int, horizontal as int)
            &&& inner.y == sat_add16(area.y as int, vertical as int)
            &&& inner.width == area.width - 2 * horizontal
            &&& inner.height == area.height - 2 * vertical
        },
{
    if area.width <= horizontal.saturating_add(horizontal) || area.height <= vertical.saturating_add(
        vertical,
    ) {
        return Rect { x: area.x, y: area.y, width: 0, height: 0 };
    }
    Rect {
        x: area.x.saturating_add(horizontal),
        y: area.y.saturating_add(vertical),
        width: area.width - 2 * horizontal,
        height: area.height - 2 * vertical,
    }
}

/// Area inside a grid slot once the optional page border and padding are
/// taken away.
pub fn slot_content_area(slot: Rect, padding: u16, show_border: bool) -> (content: Rect)
    ensures
        content == safe_inner_spec(
            slot,
            sat_add16(padding as int, if show_border { 1 } else { 0 }),
        ),
{
    let inset = padding.saturating_add(if show_border {
        1
    } else {
        0
    });
    safe_inner(slot, inset, inset)
}

/// `safe_inner(area, inset, inset)`.
pub open spec fn safe_inner_spec(area: Rect, inset: int) -> Rect {
    if area.width <= sat_add16(inset, inset) || area.height <= sat_add16(inset, inset) {
        Rect { x: area.x, y: area.y, width: 0, height: 0 }
    } else {
        Rect {
            x: sat_add16(area.x as int, inset) as u16,
            y: sat_add16(area.y as int, inset) as u16,
            width: (area.width - 2 * inset) as u16,
            height: (area.height - 2 * inset) as u16,
        }
    }
}

/// `n / d` rounded half away from zero, for `d > 0`.
pub open spec fn div_round(n: int, d: int) -> int {
    (2 * n + d) / (2 * d)
}

/// Pixels spanned by `cells` cells of `cell` pixels each (at least one of
/// each).
pub open spec fn box_pixels(cells: u16, cell: u16) -> int {
    max_int(cells as int, 1) * max_int(cell as int, 1)
}

/// A page of `pw` x `ph` points scaled by the smaller of `mw / pw` and
/// `mh / ph`, each side rounded and clamped to `1..=u32::MAX`.
pub open spec fn fit_pixels(pw: int, ph: int, mw: int, mh: int) -> (int, int) {
    if mw * ph <= mh * pw {
        (
            min_int(max_int(div_round(pw * mw, pw), 1), u32::MAX as int),
            min_int(max_int(div_round(ph * mw, pw), 1), u32::MAX as int),
        )
    } else {
        (
            min_int(max_int(div_round(pw * mh, ph), 1), u32::MAX as int),
            min_int(max_int(div_round(ph * mh, ph), 1), u32::MAX as int),
        )
    }
}

/// Pixel size of a page scaled to fit `width` x `height` cells while
/// keeping its aspect ratio; without page dimensions, the whole box.
pub open spec fn page_target_pixels_spec(
    width: u16,
    height: u16,
    cell_pixels: Option<(u16, u16)>,
    page_dimensions: Option<(u32, u32)>,
) -> (int, int) {
    let (cw, ch) = match cell_pixels {
        Some(c) => c,
        None => (DEFAULT_CELL_WIDTH, DEFAULT_CELL_HEIGHT),
    };
    let max_w = box_pixels(width, cw);
    let max_h = box_pixels(height, ch);
    match page_dimensions {
        None => (max_w, max_h),
        Some((pw, ph)) => fit_pixels(max_int(pw as int, 1), max_int(ph as int, 1), max_w, max_h),
    }
}

fn box_pixels_exec(cells: u16, cell: u16) -> (pixels: u32)
    ensures
        pixels as int == box_pixels(cells, cell),
        1 <= pixels,
{
    let a: u32 = if cells == 0 {
        1
    } else {
        cells as u32
    };
    let b: u32 = if cell == 0 {
        1
    } else {
        cell as u32
    };
    proof {
        assert(1 <= a * b <= u32::MAX) by (nonlinear_arith)
            requires
                1 <= a <= u16::MAX,
                1 <= b <= u16::MAX,
        ;
    }
    a * b
}

fn fit_pixels_exec(pw: u32, ph: u32, mw: u32, mh: u32) -> (pixels: (u32, u32))
    requires
        pw >= 1,
        ph >= 1,
        mw >= 1,
        mh >= 1,
    ensures
        pixels.0 as int == fit_pixels(pw as int, ph as int, mw as int, mh as int).0,
        pixels.1 as int == fit_pixels(pw as int, ph as int, mw as int, mh as int).1,
{
    let pw1 = pw as u128;
    let ph1 = ph as u128;
    let mw1 = mw as u128;
    let mh1 = mh as u128;
    proof {
        assert(mw1 * ph1 <= 0xffff_ffff * 0xffff_ffffu128) by (nonlinear_arith)
            requires
                mw1 <= 0xffff_ffff,
                ph1 <= 0xffff_ffff,
        ;
        assert(mh1 * pw1 <= 0xffff_ffff * 0xffff_ffffu128) by (nonlinear_arith)
            requires
                mh1 <= 0xffff_ffff,
                pw1 <= 0xffff_ffff,
        ;
    }
    if mw1 * ph1 <= mh1 * pw1 {
        (scaled_dimension(pw1, mw1, pw1), scaled_dimension(ph1, mw1, pw1))
    } else {
        (scaled_dimension(pw1, mh1, ph1), scaled_dimension(ph1, mh1, ph1))
    }
}

/// Pixel size of a page scaled to fit `width` x `height` cells while keeping
/// its aspect ratio. The scale factor and the rounding are computed exactly
/// on integers.
pub fn page_target_pixels(
    width: u16,
    height: u16,
    cell_pixels: Option<(u16, u16)>,
    page_dimensions: Option<(u32, u32)>,
) -> (pixels: (u32, u32))
    ensures
        pixels.0 as int == page_target_pixels_spec(width, height, cell_pixels, page_dimensions).0,
        pixels.1 as int == page_target_pixels_spec(width, height, cell_pixels, page_dimensions).1,
{
    let (cell_width, cell_height) = match cell_pixels {
        Some(c) => c,
        None => (DEFAULT_CELL_WIDTH, DEFAULT_CELL_HEIGHT),
    };
    let max_width = box_pixels_exec(width, cell_width);
    let max_height = box_pixels_exec(height, cell_height);
    match page_dimensions {
        None => (max_width, max_height),
        Some((page_width, page_height)) => fit_pixels_exec(
            if page_width == 0 {
                1
            } else {
                page_width
            },
            if page_height == 0 {
                1
            } else {
                page_height
            },
            max_width,
            max_height,
        ),
    }
}

/// `value * num / den` rounded half away from zero, clamped to `1..=u32::MAX`.
fn scaled_dimension(value: u128, num: u128, den: u128) -> (scaled: u32)
    requires
        1 <= value <= u32::MAX,
        1 <= num <= u32::MAX,
        1 <= den <= u32::MAX,
    ensures
        scaled as int == min_int(
            max_int(div_round(value * num, den as int), 1),
            u32::MAX as int,
        ),
{
    proof {
        assert(value * num <= 0xffff_ffff * 0xffff_ffffu128) by (nonlinear_arith)
            requires
                value <= 0xffff_ffff,
                num <= 0xffff_ffff,
        ;
    }
    let rounded = (2 * (value * num) + den) / (2 * den);
    if rounded == 0 {
        1
    } else if rounded > u32::MAX as u128 {
        u32::MAX
    } else {
        rounded as u32
    }
}

/// The cells a page occupies when fitted and centered inside `area`.
pub fn fitted_page_area(
    area: Rect,
    cell_pixels: Option<(u16, u16)>,
    page_dimensions: Option<(u32, u32)>,
) -> (fitted: Rect)
    ensures
        (area.width == 0 || area.height == 0) ==> fitted == area,
        !(area.width == 0 || area.height == 0) ==> {
            let (tw, th) = page_target_pixels_spec(
                area.width,
                area.height,
                cell_pixels,
                page_dimensions,
            );
            let (cw, ch) = match cell_pixels {
                Some(c) => c,
                None => (DEFAULT_CELL_WIDTH, DEFAULT_CELL_HEIGHT),
            };
            let w = min_int(max_int(div_ceil(tw, max_int(cw as int, 1)), 1), area.width as int);
            let h = min_int(max_int(div_ceil(th, max_int(ch as int, 1)), 1), area.height as int);
            &&& fitted.width == w
            &&& fitted.height == h
            &&& fitted.x == sat_add16(area.x as int, (area.width - w) / 2)
            &&& fitted.y == sat_add16(area.y as int, (area.height - h) / 2)
        },
{
    if area.width == 0 || area.height == 0 {
        return area;
    }
    let (target_width, target_height) = page_target_pixels(
        area.width,
        area.height,
        cell_pixels,
        page_dimensions,
    );
    let (cell_width, cell_height) = match cell_pixels {
        Some(c) => c,
        None => (DEFAULT_CELL_WIDTH, DEFAULT_CELL_HEIGHT),
    };
    let cw: u32 = if cell_width == 0 {
        1
    } else {
        cell_width as u32
    };
    let ch: u32 = if cell_height == 0 {
        1
    } else {
        cell_height as u32
    };
    let width = clamp_cells(ceil_div_u32(target_width, cw), area.width);
    let height = clamp_cells(ceil_div_u32(target_height, ch), area.height);
    Rect {
        x: area.x.saturating_add((area.width - width) / 2),
        y: area.y.saturating_add((area.height - height) / 2),
        width,
        height,
    }
}

/// `a / b` rounded up, for `b > 0`.
pub open spec fn div_ceil(a: int, b: int) -> int {
    (a + b - 1) / b
}

fn ceil_div_u32(a: u32, b: u32) -> (q: u32)
    requires
        b >= 1,
    ensures
        q as int == div_ceil(a as int, b as int),
{
    let q = a / b;
    if a % b == 0 {
        proof {
            assert((a + b - 1) / (b as int) == (a as int) / (b as int)) by (nonlinear_arith)
                requires
                    b >= 1,
                    a % b == 0,
                    a >= 0,
            ;
        }
        q
    } else {
        proof {
            assert((a + b - 1) / (b as int) == (a as int) / (b as int) + 1) by (nonlinear_arith)
                requires
                    b >= 1,
                    a % b != 0,
                    a >= 0,
            ;
            assert((a as int) / (b as int) < u32::MAX) by (nonlinear_arith)
                requires
                    b >= 2,
                    a <= u32::MAX,
            ;
        }
        q + 1
    }
}

fn clamp_cells(value: u32, limit: u16) -> (cells: u16)
    requires
        limit >= 1,
    ensures
        cells as int == min_int(max_int(value as int, 1), limit as int),
{
    if value == 0 {
        1
    } else if value > limit as u32 {
        limit
    } else {
        value as u16
    }
}


/// `value` clamped into `lo..=hi`.
pub open spec fn clamp_int(value: int, lo: int, hi: int) -> int {
    if value < lo {
        lo
    } else if value > hi {
        hi
    } else {
        value
    }
}

/// The cell a mouse position falls on, relative to the top-left cell of
/// `area`, as the pointer handlers read it: clamped into the area first
/// when asked; positions left of or above the area count as its first
/// column or row.
pub open spec fn area_cell(area: Rect, column: u16, row: u16, clamp_to_area: bool) -> (int, int) {
    let max_column = sat_add16(area.x as int, sat_sub(area.width as int, 1));
    let max_row = sat_add16(area.y as int, sat_sub(area.height as int, 1));
    let c = if clamp_to_area {
        clamp_int(column as int, area.x as int, max_column)
    } else {
        column as int
    };
    let r = if clamp_to_area {
        clamp_int(row as int, area.y as int, max_row)
    } else {
        row as int
    };
    (sat_sub(c, area.x as int), sat_sub(r, area.y as int))
}

/// The page cell under a mouse position on a page drawn in `area` whose
/// first drawn cell row is row `y_cell_start` of the whole page: the
/// column within the page and the row within the page.
pub fn page_display_cell(
    area: Rect,
    y_cell_start: u16,
    column: u16,
    row: u16,
    clamp_to_display: bool,
) -> (cell: (u16, u16))
    ensures
        cell.0 == area_cell(area, column, row, clamp_to_display).0,
        cell.1 == sat_add16(y_cell_start as int, area_cell(area, column, row, clamp_to_display).1),
{
    let max_column = area.x.saturating_add(area.width.saturating_sub(1));
    let max_row = area.y.saturating_add(area.height.saturating_sub(1));
    let c = if clamp_to_display {
        if column < area.x {
            area.x
        } else if column > max_column {
            max_column
        } else {
            column
        }
    } else {
        column
    };
    let r = if clamp_to_display {
        if row < area.y {
            area.y
        } else if row > max_row {
            max_row
        } else {
            row
        }
    } else {
        row
    };
    let local_x = c.saturating_sub(area.x);
    let local_y = r.saturating_sub(area.y);
    (local_x, y_cell_start.saturating_add(local_y))
}


/// The squared cell distance from (`column`, `row`) to the nearest cell of
/// `area`.
pub open spec fn distance_to_rect_spec(area: Rect, column: u16, row: u16) -> int {
    let nx = clamp_int(
        column as int,
        area.x as int,
        sat_add16(area.x as int, sat_sub(area.width as int, 1)),
    );
    let ny = clamp_int(
        row as int,
        area.y as int,
        sat_add16(area.y as int, sat_sub(area.height as int, 1)),
    );
    let dx = if column >= nx { column - nx } else { nx - column };
    let dy = if row >= ny { row - ny } else { ny - row };
    dx * dx + dy * dy
}

/// Squared cell distance from (`column`, `row`) to the nearest cell of
/// `area`, computed in 32 bits.
pub fn distance_to_rect(area: Rect, column: u16, row: u16) -> (distance: u32)
    requires
        distance_to_rect_spec(area, column, row) <= u32::MAX,
    ensures
        distance == distance_to_rect_spec(area, column, row),
{
    let max_x = area.x.saturating_add(area.width.saturating_sub(1));
    let max_y = area.y.saturating_add(area.height.saturating_sub(1));
    let nearest_x = if column < area.x {
        area.x
    } else if column > max_x {
        max_x
    } else {
        column
    };
    let nearest_y = if row < area.y {
        area.y
    } else if row > max_y {
        max_y
    } else {
        row
    };
    let dx: u32 = if column >= nearest_x {
        (column - nearest_x) as u32
    } else {
        (nearest_x - column) as u32
    };
    let dy: u32 = if row >= nearest_y {
        (row - nearest_y) as u32
    } else {
        (nearest_y - row) as u32
    };
    assert(dx * dx <= 65535 * 65535) by (nonlinear_arith)
        requires
            dx <= 65535,
    ;
    assert(dy * dy <= 65535 * 65535) by (nonlinear_arith)
        requires
            dy <= 65535,
    ;
    dx * dx + dy * dy
}

} // verus!
