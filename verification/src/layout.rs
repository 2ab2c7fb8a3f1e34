//! Page geometry for the two reading layouts: the slice-based scroll layout
//! and the fixed page grid.

use vstd::prelude::*;

use crate::config::layout::EffectiveLayoutConfig;
use crate::geometry::{
    max_int, min_int, sat_add16, sat_mul16, sat_sub, saturating_mul_u16, Rect,
    DEFAULT_CELL_HEIGHT, DEFAULT_CELL_WIDTH,
};

verus! {

#[derive(Debug, Clone, Copy, PartialEq, Eq)]
pub struct ScrollItem {
    pub page_index: usize,
    pub slice_index: u16,
    pub slice_count: u16,
    /// Height in cells of the tallest page in this row group; the shared
    /// slicing grid is derived from it so every page cuts at the same
    /// absolute cell boundaries.
    pub grid_height: u16,
    pub row_index: usize,
    pub x: u16,
    pub y: u32,
    pub width: u16,
    pub height: u16,
    pub full_width: u16,
    pub full_height: u16,
}

#[derive(Debug, Clone, PartialEq, Eq)]
pub struct ScrollRow {
    pub height: u16,
    pub gap_after: u16,
    pub items: Vec<usize>,
}

#[derive(Debug, Clone, PartialEq, Eq)]
pub struct ScrollLayout {
    pub items: Vec<ScrollItem>,
    pub rows: Vec<ScrollRow>,
    pub total_height: u32,
}

/// Height of rows `start..end` stacked with the gaps between them.
pub open spec fn span_height(rows: Seq<ScrollRow>, start: int, end: int) -> int
    decreases end - start,
{
    if end <= start {
        0
    } else if end == start + 1 {
        rows[start].height as int
    } else {
        span_height(rows, start, end - 1) + rows[end - 2].gap_after as int + rows[end
            - 1].height as int
    }
}

/// The rows shown from `start` are `start..end`: at least one row, at most
/// `max_rows` rows, fitting `height` cells unless only one is shown, and
/// no further row would still fit.
pub open spec fn is_visible_range(
    rows: Seq<ScrollRow>,
    start: int,
    end: int,
    height: int,
    max_rows: int,
) -> bool {
    &&& start < end <= rows.len()
    &&& end - start <= max_rows
    &&& (end == start + 1 || span_height(rows, start, end) <= height)
    &&& (end == rows.len() || end - start == max_rows || span_height(rows, start, end + 1)
        > height)
}

/// End of the visible range from `start`, found by adding rows from
/// `end` on.
pub open spec fn visible_end_from(
    rows: Seq<ScrollRow>,
    start: int,
    end: int,
    height: int,
    max_rows: int,
) -> int
    decreases rows.len() - end,
{
    if end < rows.len() && end - start < max_rows && span_height(rows, start, end + 1)
        <= height {
        visible_end_from(rows, start, end + 1, height, max_rows)
    } else {
        end
    }
}

pub open spec fn divisor_rows(scroll_divisor: u16) -> int {
    max_int(scroll_divisor as int, 1)
}

/// The first row shown when `start_row` is requested.
pub open spec fn clamped_start(rows: Seq<ScrollRow>, start_row: int) -> int {
    min_int(start_row, rows.len() - 1)
}

/// End of the rows shown when `start_row` is the top row.
pub open spec fn visible_end(
    rows: Seq<ScrollRow>,
    start_row: int,
    viewport_height: u16,
    scroll_divisor: u16,
) -> int {
    if rows.len() == 0 || viewport_height == 0 {
        0
    } else {
        let s = clamped_start(rows, start_row);
        visible_end_from(rows, s, s + 1, viewport_height as int, divisor_rows(scroll_divisor))
    }
}

proof fn lemma_span_monotone(rows: Seq<ScrollRow>, start: int, end: int)
    requires
        start < end,
    ensures
        span_height(rows, start, end) <= span_height(rows, start, end + 1),
    decreases end - start,
{
}

proof fn lemma_span_grows(rows: Seq<ScrollRow>, start: int, a: int, b: int)
    requires
        start < a <= b,
    ensures
        span_height(rows, start, a) <= span_height(rows, start, b),
    decreases b - a,
{
    if a < b {
        lemma_span_grows(rows, start, a, b - 1);
        lemma_span_monotone(rows, start, b - 1);
    }
}

proof fn lemma_span_nonneg(rows: Seq<ScrollRow>, start: int, end: int)
    ensures
        span_height(rows, start, end) >= 0,
    decreases end - start,
{
    if end > start + 1 {
        lemma_span_nonneg(rows, start, end - 1);
    }
}

/// Dropping rows from the front never makes a span taller.
proof fn lemma_span_later_start(rows: Seq<ScrollRow>, s: int, t: int, end: int)
    requires
        s <= t < end,
    ensures
        span_height(rows, t, end) <= span_height(rows, s, end),
    decreases end - t,
{
    if end == t + 1 {
        if s < t {
            lemma_span_nonneg(rows, s, t);
        }
    } else {
        lemma_span_later_start(rows, s, t, end - 1);
    }
}

proof fn lemma_visible_end_from(
    rows: Seq<ScrollRow>,
    start: int,
    end: int,
    height: int,
    max_rows: int,
)
    requires
        0 <= start < end <= rows.len(),
        end - start <= max_rows,
        end == start + 1 || span_height(rows, start, end) <= height,
    ensures
        is_visible_range(
            rows,
            start,
            visible_end_from(rows, start, end, height, max_rows),
            height,
            max_rows,
        ),
        end <= visible_end_from(rows, start, end, height, max_rows),
    decreases rows.len() - end,
{
    if end < rows.len() && end - start < max_rows && span_height(rows, start, end + 1)
        <= height {
        lemma_visible_end_from(rows, start, end + 1, height, max_rows);
    }
}

/// The range characterization has exactly one end.
proof fn lemma_visible_range_unique(
    rows: Seq<ScrollRow>,
    start: int,
    e1: int,
    e2: int,
    height: int,
    max_rows: int,
)
    requires
        0 <= start,
        is_visible_range(rows, start, e1, height, max_rows),
        is_visible_range(rows, start, e2, height, max_rows),
    ensures
        e1 == e2,
{
    if e1 < e2 {
        assert(span_height(rows, start, e1 + 1) <= span_height(rows, start, e2)) by {
            lemma_span_grows(rows, start, e1 + 1, e2);
        }
    } else if e2 < e1 {
        assert(span_height(rows, start, e2 + 1) <= span_height(rows, start, e1)) by {
            lemma_span_grows(rows, start, e2 + 1, e1);
        }
    }
}

/// The rows shown for `start_row` form the visible range.
pub proof fn lemma_visible_end_is_range(
    rows: Seq<ScrollRow>,
    start_row: int,
    viewport_height: u16,
    scroll_divisor: u16,
)
    requires
        rows.len() > 0,
        viewport_height > 0,
        start_row >= 0,
    ensures
        is_visible_range(
            rows,
            clamped_start(rows, start_row),
            visible_end(rows, start_row, viewport_height, scroll_divisor),
            viewport_height as int,
            divisor_rows(scroll_divisor),
        ),
{
    let s = clamped_start(rows, start_row);
    lemma_visible_end_from(rows, s, s + 1, viewport_height as int, divisor_rows(scroll_divisor));
}

/// The last visible row never decreases as the start row grows.
pub proof fn lemma_visible_end_monotone(
    rows: Seq<ScrollRow>,
    a: int,
    b: int,
    viewport_height: u16,
    scroll_divisor: u16,
)
    requires
        0 <= a <= b,
    ensures
        visible_end(rows, a, viewport_height, scroll_divisor) <= visible_end(
            rows,
            b,
            viewport_height,
            scroll_divisor,
        ),
{
    if rows.len() > 0 && viewport_height > 0 {
        let h = viewport_height as int;
        let m = divisor_rows(scroll_divisor);
        let sa = clamped_start(rows, a);
        let sb = clamped_start(rows, b);
        lemma_visible_end_is_range(rows, a, viewport_height, scroll_divisor);
        lemma_visible_end_is_range(rows, b, viewport_height, scroll_divisor);
        let ea = visible_end(rows, a, viewport_height, scroll_divisor);
        let eb = visible_end(rows, b, viewport_height, scroll_divisor);
        if eb < ea {
            // From sb, the end eb + 1 <= ea still fits: it fits from sa.
            assert(eb + 1 <= ea);
            assert(sa <= sb);
            assert(eb + 1 - sb <= ea - sa);
            if eb + 1 > sb + 1 {
                lemma_span_grows(rows, sa, eb + 1, ea);
                lemma_span_later_start(rows, sa, sb, eb + 1);
            }
        }
    }
}

impl ScrollLayout {
    /// Rows shown when `start_row` is the top row: consecutive rows that fit
    /// the viewport, at most `scroll_divisor` of them, and always at least
    /// one. Empty only for an empty layout or a zero-height viewport.
    pub fn visible_rows(
        &self,
        start_row: usize,
        viewport_height: u16,
        scroll_divisor: u16,
    ) -> (range: std::ops::Range<usize>)
        ensures
            (self.rows@.len() == 0 || viewport_height == 0) ==> range.start == 0 && range.end == 0,
            !(self.rows@.len() == 0 || viewport_height == 0) ==> {
                &&& range.start == clamped_start(self.rows@, start_row as int)
                &&& range.end == visible_end(
                    self.rows@,
                    start_row as int,
                    viewport_height,
                    scroll_divisor,
                )
                &&& is_visible_range(
                    self.rows@,
                    range.start as int,
                    range.end as int,
                    viewport_height as int,
                    divisor_rows(scroll_divisor),
                )
            },
    {
        if self.rows.len() == 0 || viewport_height == 0 {
            return 0..0;
        }
        let start = if start_row < self.rows.len() - 1 {
            start_row
        } else {
            self.rows.len() - 1
        };
        let max_rows: usize = if scroll_divisor == 0 {
            1
        } else {
            scroll_divisor as usize
        };
        let ghost rows = self.rows@;
        let ghost h = viewport_height as int;
        let mut end = start + 1;
        let mut used: u32 = self.rows[start].height as u32;
        while end < self.rows.len() && end - start < max_rows
            invariant
                rows == self.rows@,
                end - start <= max_rows,
                used <= u16::MAX,
                h == viewport_height as int,
                start < end <= rows.len(),
                max_rows as int == divisor_rows(scroll_divisor),
                used as int == span_height(rows, start as int, end as int),
                end == start + 1 || used <= h,
                visible_end_from(rows, start as int, end as int, h, max_rows as int)
                    == visible_end_from(rows, start as int, start + 1, h, max_rows as int),
            ensures
                visible_end_from(rows, start as int, end as int, h, max_rows as int) == end,
            decreases rows.len() - end,
        {
            let candidate = used + self.rows[end - 1].gap_after as u32 + self.rows[end].height as u32;
            if candidate > viewport_height as u32 {
                proof {
                    assert(span_height(rows, start as int, end + 1) == candidate);
                }
                break;
            }
            used = candidate;
            end += 1;
        }
        proof {
            lemma_visible_end_from(rows, start as int, start + 1, h, max_rows as int);
            lemma_visible_end_from(rows, start as int, end as int, h, max_rows as int);
            assert(visible_end_from(rows, start as int, end as int, h, max_rows as int) == end);
        }
        start..end
    }

    /// Largest useful scroll row: the first start row whose visible range
    /// reaches the last row. The last visible row never decreases as the
    /// start row grows, so scanning back from the end stops after at most
    /// one viewport of rows.
    pub fn max_scroll_row(&self, viewport_height: u16, scroll_divisor: u16) -> (row: usize)
        ensures
            (self.rows@.len() == 0 || viewport_height == 0) ==> row == 0,
            !(self.rows@.len() == 0 || viewport_height == 0) ==> {
                &&& row < self.rows@.len()
                &&& visible_end(self.rows@, row as int, viewport_height, scroll_divisor)
                    == self.rows@.len()
                &&& forall|r: int|
                    0 <= r < row ==> visible_end(self.rows@, r, viewport_height, scroll_divisor)
                        < self.rows@.len()
            },
    {
        if self.rows.len() == 0 || viewport_height == 0 {
            return 0;
        }
        let last_row = self.rows.len();
        let mut start = last_row - 1;
        proof {
            lemma_visible_end_is_range(self.rows@, start as int, viewport_height, scroll_divisor);
        }
        while start > 0 && self.visible_rows(start - 1, viewport_height, scroll_divisor).end
            == last_row
            invariant
                0 < last_row == self.rows@.len(),
                viewport_height > 0,
                start < last_row,
                visible_end(self.rows@, start as int, viewport_height, scroll_divisor)
                    == last_row,
            decreases start,
        {
            start -= 1;
        }
        proof {
            assert forall|r: int| 0 <= r < start implies visible_end(
                self.rows@,
                r,
                viewport_height,
                scroll_divisor,
            ) < self.rows@.len() by {
                lemma_visible_end_monotone(
                    self.rows@,
                    r,
                    start - 1,
                    viewport_height,
                    scroll_divisor,
                );
                lemma_visible_end_is_range(self.rows@, start - 1, viewport_height, scroll_divisor);
            }
        }
        start
    }
}


/// Height in cells of one scroll slice: the viewport split into
/// `scroll_divisor` steps, at least one cell.
pub open spec fn slice_height_limit_spec(viewport_height: u16, scroll_divisor: u16) -> int {
    max_int(max_int(viewport_height as int, 1) / max_int(scroll_divisor as int, 1), 1)
}

pub fn slice_height_limit(viewport_height: u16, scroll_divisor: u16) -> (limit: u16)
    ensures
        limit as int == slice_height_limit_spec(viewport_height, scroll_divisor),
        limit >= 1,
{
    let divisor = if scroll_divisor == 0 {
        1
    } else {
        scroll_divisor
    };
    let height = if viewport_height == 0 {
        1
    } else {
        viewport_height
    };
    let limit = height / divisor;
    if limit == 0 {
        1
    } else {
        limit
    }
}

/// Number of slices of at most `limit` cells covering `full_height` cells
/// (the addition saturating at `u16::MAX`), at least one.
pub open spec fn slice_count_spec(full_height: u16, limit: u16) -> int {
    let l = max_int(limit as int, 1);
    max_int(sat_add16(max_int(full_height as int, 1), l - 1) / l, 1)
}

pub fn slice_count(full_height: u16, limit: u16) -> (count: u16)
    ensures
        count as int == slice_count_spec(full_height, limit),
        count >= 1,
{
    let l = if limit == 0 {
        1
    } else {
        limit
    };
    let full = if full_height == 0 {
        1
    } else {
        full_height
    };
    let count = full.saturating_add(l - 1) / l;
    if count == 0 {
        1
    } else {
        count
    }
}

/// Cell offset and height of slice `slice_index` for a page of
/// `full_height` cells cut on the shared grid of `grid_height` cells: the
/// grid boundaries `grid * i / slice_count`, clipped to the page.
pub open spec fn grid_slice_span_spec(
    grid_height: u16,
    slice_count: u16,
    slice_index: u16,
    full_height: u16,
) -> (int, int) {
    let count = max_int(slice_count as int, 1);
    let index = min_int(slice_index as int, count - 1);
    let grid = max_int(grid_height as int, 1);
    let full = max_int(full_height as int, 1);
    let start = min_int(grid * index / count, full);
    let end = min_int(grid * (index + 1) / count, full);
    (start, min_int(sat_sub(end, start), u16::MAX as int))
}

pub fn grid_slice_span(
    grid_height: u16,
    slice_count: u16,
    slice_index: u16,
    full_height: u16,
) -> (span: (u32, u16))
    ensures
        span.0 as int == grid_slice_span_spec(grid_height, slice_count, slice_index, full_height).0,
        span.1 as int == grid_slice_span_spec(grid_height, slice_count, slice_index, full_height).1,
{
    let count: u16 = if slice_count == 0 {
        1
    } else {
        slice_count
    };
    let index: u16 = if slice_index < count - 1 {
        slice_index
    } else {
        count - 1
    };
    let grid: u32 = if grid_height == 0 {
        1
    } else {
        grid_height as u32
    };
    let full: u32 = if full_height == 0 {
        1
    } else {
        full_height as u32
    };
    proof {
        assert(grid * (index as u32 + 1) <= 0xffff * 0x10000) by (nonlinear_arith)
            requires
                grid <= 0xffff,
                index + 1 <= 0x10000,
        ;
        assert(grid * (index as u32) <= grid * (index as u32 + 1)) by (nonlinear_arith)
            requires
                grid >= 1,
        ;
    }
    let lo = grid * index as u32 / count as u32;
    let hi = grid * (index as u32 + 1) / count as u32;
    let start = if lo < full {
        lo
    } else {
        full
    };
    let end = if hi < full {
        hi
    } else {
        full
    };
    let diff = if end >= start {
        end - start
    } else {
        0
    };
    (start, if diff > u16::MAX as u32 {
        u16::MAX
    } else {
        diff as u16
    })
}

/// Page height in cells for a page shown `width_cells` cells wide: the
/// page's aspect ratio in pixels, rounded up to whole cells and clamped to
/// `1..=u16::MAX`. Unknown pages are A4 (595 x 842 points).
pub open spec fn page_height_cells_spec(
    width_cells: u16,
    dimensions: Option<(u32, u32)>,
    cell_pixels: Option<(u16, u16)>,
) -> int {
    let (pw, ph) = match dimensions {
        Some(d) => d,
        None => (595u32, 842u32),
    };
    let (cw, ch) = match cell_pixels {
        Some(c) => c,
        None => (DEFAULT_CELL_WIDTH, DEFAULT_CELL_HEIGHT),
    };
    let pixel_width = max_int(width_cells as int, 1) * max_int(cw as int, 1);
    let numerator = pixel_width * max_int(ph as int, 1);
    let denominator = max_int(pw as int, 1) * max_int(ch as int, 1);
    min_int(max_int((numerator + denominator - 1) / denominator, 1), u16::MAX as int)
}

/// Height in cells of a page `width_cells` cells wide: the ratio
/// `pixel_width * page_height / page_width / cell_height`, rounded up
/// exactly on integers.
pub fn page_height_cells(
    width_cells: u16,
    dimensions: Option<(u32, u32)>,
    cell_pixels: Option<(u16, u16)>,
) -> (cells: u16)
    ensures
        cells as int == page_height_cells_spec(width_cells, dimensions, cell_pixels),
        cells >= 1,
{
    let (page_width, page_height) = match dimensions {
        Some(d) => d,
        None => (595, 842),
    };
    let (cell_width, cell_height) = match cell_pixels {
        Some(c) => c,
        None => (DEFAULT_CELL_WIDTH, DEFAULT_CELL_HEIGHT),
    };
    let w: u128 = if width_cells == 0 {
        1
    } else {
        width_cells as u128
    };
    let cw: u128 = if cell_width == 0 {
        1
    } else {
        cell_width as u128
    };
    let ch: u128 = if cell_height == 0 {
        1
    } else {
        cell_height as u128
    };
    let pw: u128 = if page_width == 0 {
        1
    } else {
        page_width as u128
    };
    let ph: u128 = if page_height == 0 {
        1
    } else {
        page_height as u128
    };
    proof {
        assert(w * cw <= 0xffff * 0xffffu128) by (nonlinear_arith)
            requires
                w <= 0xffff,
                cw <= 0xffff,
        ;
        assert(w * cw * ph <= 0xffff * 0xffff * 0xffff_ffffu128) by (nonlinear_arith)
            requires
                w * cw <= 0xffff * 0xffffu128,
                ph <= 0xffff_ffff,
        ;
        assert(1 <= pw * ch <= 0xffff_ffff * 0xffffu128) by (nonlinear_arith)
            requires
                1 <= pw <= 0xffff_ffff,
                1 <= ch <= 0xffff,
        ;
    }
    let numerator = w * cw * ph;
    let denominator = pw * ch;
    let cells = (numerator + denominator - 1) / denominator;
    if cells == 0 {
        1
    } else if cells > u16::MAX as u128 {
        u16::MAX
    } else {
        cells as u16
    }
}

/// Cells per slot when `count` slots with `gap` cells between them share
/// `total` cells.
pub open spec fn fit_slot_spec(total: u16, count: usize, gap: u16) -> int {
    if count == 0 {
        max_int(total as int, 1)
    } else {
        let gaps = sat_mul16(gap as int, ((count - 1) as u16) as int);
        let n = (count as u16) as int;
        if n == 0 {
            1
        } else {
            sat_sub(total as int, gaps) / n
        }
    }
}

pub fn fit_slot(total: u16, count: usize, gap: u16) -> (size: u16)
    ensures
        size as int == fit_slot_spec(total, count, gap),
{
    if count == 0 {
        return if total == 0 {
            1
        } else {
            total
        };
    }
    let gaps = saturating_mul_u16(gap, (count - 1) as u16);
    let n = count as u16;
    if n == 0 {
        1
    } else {
        total.saturating_sub(gaps) / n
    }
}

/// Offset that centers `count` items of `item` cells with `gap` cells
/// between them inside `total` cells.
pub open spec fn centered_offset_spec(total: u16, count: usize, item: u16, gap: u16) -> int {
    if count == 0 {
        0
    } else {
        let used = sat_add16(
            sat_mul16((count as u16) as int, item as int),
            sat_mul16(gap as int, ((count - 1) as u16) as int),
        );
        sat_sub(total as int, used) / 2
    }
}

pub fn centered_offset(total: u16, count: usize, item: u16, gap: u16) -> (offset: u16)
    ensures
        offset as int == centered_offset_spec(total, count, item, gap),
{
    if count == 0 {
        return 0;
    }
    let used = saturating_mul_u16(count as u16, item).saturating_add(
        saturating_mul_u16(gap, (count - 1) as u16),
    );
    total.saturating_sub(used) / 2
}

/// `a + b`, saturating at `u32::MAX`.
pub open spec fn sat_add32(a: int, b: int) -> int {
    if a + b > u32::MAX {
        u32::MAX as int
    } else {
        a + b
    }
}

/// A row as the layout model sees it: height, gap below, item indices.
pub type RowModel = (u16, u16, Seq<usize>);

pub open spec fn row_model(row: ScrollRow) -> RowModel {
    (row.height, row.gap_after, row.items@)
}

/// Builds the scroll layout of a document for one page width.
pub struct ScrollLayoutBuilder<'a> {
    pub viewport_width: u16,
    pub viewport_height: u16,
    pub config: &'a EffectiveLayoutConfig,
    pub dimensions: &'a [Option<(u32, u32)>],
    pub cell_pixels: Option<(u16, u16)>,
}

impl<'a> ScrollLayoutBuilder<'a> {
    pub open spec fn columns(&self) -> int {
        max_int(self.config.columns as int, 1)
    }

    pub open spec fn page_count(&self) -> int {
        self.dimensions@.len() as int
    }

    /// Height in cells of page `p` at page width `pw`.
    pub open spec fn cells_of(&self, pw: u16, p: int) -> int {
        page_height_cells_spec(pw, self.dimensions@[p], self.cell_pixels)
    }

    /// Height of the tallest page among `g..j`.
    pub open spec fn grid_of(&self, pw: u16, g: int, j: int) -> int
        decreases j - g,
    {
        if j <= g + 1 {
            self.cells_of(pw, g)
        } else {
            max_int(self.grid_of(pw, g, j - 1), self.cells_of(pw, j - 1))
        }
    }

    /// Horizontal position of column `c`.
    pub open spec fn column_x(&self, pw: u16, x_offset: u16, c: int) -> int {
        sat_add16(
            x_offset as int,
            sat_mul16((c as u16) as int, sat_add16(pw as int, self.config.gap_x as int)),
        )
    }

    /// The slices of slice row `sr` for the pages `g + c..end` of a row
    /// group appended to `items`, with the running row height.
    pub open spec fn place_columns(
        &self,
        pw: u16,
        x_offset: u16,
        g: int,
        end: int,
        grid: u16,
        n: u16,
        sr: u16,
        row_index: int,
        y: u32,
        c: int,
        items: Seq<ScrollItem>,
        row_height: int,
    ) -> (Seq<ScrollItem>, int)
        decreases end - (g + c),
    {
        if c < 0 || g + c >= end {
            (items, row_height)
        } else {
            let full = self.cells_of(pw, g + c) as u16;
            let height = grid_slice_span_spec(grid, n, sr, full).1;
            if height == 0 {
                self.place_columns(pw, x_offset, g, end, grid, n, sr, row_index, y, c + 1, items, row_height)
            } else {
                let item = ScrollItem {
                    page_index: (g + c) as usize,
                    slice_index: sr,
                    slice_count: n,
                    grid_height: grid,
                    row_index: row_index as usize,
                    x: self.column_x(pw, x_offset, c) as u16,
                    y,
                    width: pw,
                    height: height as u16,
                    full_width: pw,
                    full_height: full,
                };
                self.place_columns(
                    pw,
                    x_offset,
                    g,
                    end,
                    grid,
                    n,
                    sr,
                    row_index,
                    y,
                    c + 1,
                    items.push(item),
                    max_int(row_height, height),
                )
            }
        }
    }

    /// Slice rows `sr..n` of the row group of pages `g..end`.
    pub open spec fn place_slice_rows(
        &self,
        pw: u16,
        x_offset: u16,
        g: int,
        end: int,
        grid: u16,
        n: u16,
        sr: int,
        items: Seq<ScrollItem>,
        rows: Seq<RowModel>,
        y: u32,
    ) -> (Seq<ScrollItem>, Seq<RowModel>, u32)
        decreases n - sr,
    {
        if sr < 0 || sr >= n {
            (items, rows, y)
        } else {
            let (placed, row_height) = self.place_columns(
                pw,
                x_offset,
                g,
                end,
                grid,
                n,
                sr as u16,
                rows.len() as int,
                y,
                0,
                items,
                1,
            );
            let gap = if sr + 1 < n || end >= self.page_count() {
                0
            } else {
                self.config.gap_y as int
            };
            let row: RowModel = (
                row_height as u16,
                gap as u16,
                Seq::new((placed.len() - items.len()) as nat, |k: int| (items.len() + k) as usize),
            );
            let next_y = sat_add32(sat_add32(y as int, row_height), gap) as u32;
            self.place_slice_rows(pw, x_offset, g, end, grid, n, sr + 1, placed, rows.push(row), next_y)
        }
    }

    /// Row groups from page `g` on.
    pub open spec fn place_groups(
        &self,
        pw: u16,
        x_offset: u16,
        limit: u16,
        g: int,
        items: Seq<ScrollItem>,
        rows: Seq<RowModel>,
        y: u32,
    ) -> (Seq<ScrollItem>, Seq<RowModel>, u32)
        decreases self.page_count() - g,
    {
        if g < 0 || g >= self.page_count() {
            (items, rows, y)
        } else {
            let end = min_int(g + self.columns(), self.page_count());
            let grid = self.grid_of(pw, g, end) as u16;
            let n = slice_count_spec(grid, limit) as u16;
            let (items2, rows2, y2) = self.place_slice_rows(pw, x_offset, g, end, grid, n, 0, items, rows, y);
            self.place_groups(pw, x_offset, limit, end, items2, rows2, y2)
        }
    }

    /// The layout `build(pw)` produces: row groups of `columns` pages share
    /// the slicing grid of their tallest page; each slice row holds the
    /// non-empty slices of the group's pages side by side.
    pub open spec fn layout_model(&self, pw: u16) -> (Seq<ScrollItem>, Seq<RowModel>, u32) {
        let x_offset = centered_offset_spec(
            self.viewport_width,
            self.columns() as usize,
            pw,
            self.config.gap_x,
        ) as u16;
        let limit = slice_height_limit_spec(self.viewport_height, self.config.scroll_divisor) as u16;
        self.place_groups(pw, x_offset, limit, 0, Seq::empty(), Seq::empty(), 0)
    }

    pub fn build(&self, page_width: u16) -> (layout: ScrollLayout)
        ensures
            layout.items@ == self.layout_model(page_width).0,
            layout.rows@.map_values(|r: ScrollRow| row_model(r)) == self.layout_model(page_width).1,
            layout.total_height == self.layout_model(page_width).2,
    {
        let count = self.dimensions.len();
        let columns: usize = if self.config.columns == 0 {
            1
        } else {
            self.config.columns as usize
        };
        let gap_x = self.config.gap_x;
        let x_offset = centered_offset(self.viewport_width, columns, page_width, gap_x);
        let limit = slice_height_limit(self.viewport_height, self.config.scroll_divisor);
        let mut items: Vec<ScrollItem> = Vec::new();
        let mut rows: Vec<ScrollRow> = Vec::new();
        let mut y: u32 = 0;
        let mut row_start: usize = 0;
        let ghost model = self.layout_model(page_width);
        proof {
            assert(rows@.map_values(|r: ScrollRow| row_model(r)) =~= Seq::<RowModel>::empty());
            assert(items@ =~= Seq::<ScrollItem>::empty());
        }
        while row_start < count
            invariant
                count == self.page_count(),
                columns as int == self.columns(),
                gap_x == self.config.gap_x,
                x_offset as int == centered_offset_spec(self.viewport_width, columns, page_width, gap_x),
                limit as int == slice_height_limit_spec(self.viewport_height, self.config.scroll_divisor),
                row_start <= count,
                model == self.layout_model(page_width),
                self.place_groups(page_width, x_offset, limit, row_start as int, items@, rows@.map_values(|r: ScrollRow| row_model(r)), y) == model,
            decreases count - row_start,
        {
            let page_end = if columns < count - row_start {
                row_start + columns
            } else {
                count
            };
            let grid_height = self.group_grid(page_width, row_start, page_end);
            let max_slice_count = slice_count(grid_height, limit);
            self.place_group_rows(page_width, x_offset, row_start, page_end, grid_height, max_slice_count, &mut items, &mut rows, &mut y);
            row_start = page_end;
        }
        ScrollLayout { items, rows, total_height: y }
    }

    /// Height of the tallest page among `start..end`.
    fn group_grid(&self, page_width: u16, start: usize, end: usize) -> (grid: u16)
        requires
            start < end <= self.page_count(),
        ensures
            grid as int == self.grid_of(page_width, start as int, end as int),
    {
        let mut grid = page_height_cells(page_width, self.dimensions[start], self.cell_pixels);
        let mut j = start + 1;
        while j < end
            invariant
                start < j <= end <= self.page_count(),
                grid as int == self.grid_of(page_width, start as int, j as int),
            decreases end - j,
        {
            let cells = page_height_cells(page_width, self.dimensions[j], self.cell_pixels);
            if cells > grid {
                grid = cells;
            }
            j += 1;
        }
        grid
    }

    /// Appends the slice rows of the row group of pages `start..end`.
    fn place_group_rows(
        &self,
        page_width: u16,
        x_offset: u16,
        start: usize,
        end: usize,
        grid_height: u16,
        slice_total: u16,
        items: &mut Vec<ScrollItem>,
        rows: &mut Vec<ScrollRow>,
        y: &mut u32,
    )
        requires
            start < end <= self.page_count(),
            end - start <= self.columns(),
        ensures
            (final(items)@, final(rows)@.map_values(|r: ScrollRow| row_model(r)), *final(y))
                == self.place_slice_rows(
                page_width,
                x_offset,
                start as int,
                end as int,
                grid_height,
                slice_total,
                0,
                old(items)@,
                old(rows)@.map_values(|r: ScrollRow| row_model(r)),
                *old(y),
            ),
    {
        let gap_y = self.config.gap_y;
        let count = self.dimensions.len();
        let ghost target = self.place_slice_rows(
            page_width,
            x_offset,
            start as int,
            end as int,
            grid_height,
            slice_total,
            0,
            items@,
            rows@.map_values(|r: ScrollRow| row_model(r)),
            *y,
        );
        let mut slice_row: u16 = 0;
        while slice_row < slice_total
            invariant
                start < end <= self.page_count(),
                end - start <= self.columns(),
                gap_y == self.config.gap_y,
                count == self.page_count(),
                slice_row <= slice_total,
                self.place_slice_rows(
                    page_width,
                    x_offset,
                    start as int,
                    end as int,
                    grid_height,
                    slice_total,
                    slice_row as int,
                    items@,
                    rows@.map_values(|r: ScrollRow| row_model(r)),
                    *y,
                ) == target,
            decreases slice_total - slice_row,
        {
            let ghost items_before = items@;
            let ghost rows_before = rows@.map_values(|r: ScrollRow| row_model(r));
            let row_index = rows.len();
            let row_first_item = items.len();
            let row_height = self.place_row_slices(page_width, x_offset, start, end, grid_height, slice_total, slice_row, row_index, *y, items);
            let gap_after: u16 = if slice_row + 1 < slice_total || end >= count {
                0
            } else {
                gap_y
            };
            let mut indices: Vec<usize> = Vec::new();
            let mut k = row_first_item;
            while k < items.len()
                invariant
                    row_first_item <= k <= items@.len(),
                    indices@ == Seq::new((k - row_first_item) as nat, |m: int| (row_first_item + m) as usize),
                decreases items@.len() - k,
            {
                indices.push(k);
                proof {
                    assert(indices@ =~= Seq::new((k + 1 - row_first_item) as nat, |m: int| (row_first_item + m) as usize));
                }
                k += 1;
            }
            let row = ScrollRow { height: row_height, gap_after, items: indices };
            rows.push(row);
            proof {
                assert(rows@.map_values(|r: ScrollRow| row_model(r)) =~= rows_before.push(row_model(row)));
            }
            *y = y.saturating_add(row_height as u32).saturating_add(gap_after as u32);
            slice_row += 1;
        }
    }

    /// Appends the non-empty slices of slice row `slice_row` for the pages
    /// `start..end`; returns the row height.
    fn place_row_slices(
        &self,
        page_width: u16,
        x_offset: u16,
        start: usize,
        end: usize,
        grid_height: u16,
        slice_total: u16,
        slice_row: u16,
        row_index: usize,
        y: u32,
        items: &mut Vec<ScrollItem>,
    ) -> (row_height: u16)
        requires
            start < end <= self.page_count(),
            end - start <= self.columns(),
        ensures
            (final(items)@, row_height as int) == self.place_columns(
                page_width,
                x_offset,
                start as int,
                end as int,
                grid_height,
                slice_total,
                slice_row,
                row_index as int,
                y,
                0,
                old(items)@,
                1,
            ),
            old(items)@.len() <= final(items)@.len(),
    {
        let ghost target = self.place_columns(
            page_width,
            x_offset,
            start as int,
            end as int,
            grid_height,
            slice_total,
            slice_row,
            row_index as int,
            y,
            0,
            items@,
            1,
        );
        let step = page_width.saturating_add(self.config.gap_x);
        let mut row_height: u16 = 1;
        let mut index = start;
        while index < end
            invariant
                start <= index <= end <= self.page_count(),
                end - start <= self.columns(),
                step as int == sat_add16(page_width as int, self.config.gap_x as int),
                1 <= row_height,
                old(items)@.len() <= items@.len(),
                self.place_columns(
                    page_width,
                    x_offset,
                    start as int,
                    end as int,
                    grid_height,
                    slice_total,
                    slice_row,
                    row_index as int,
                    y,
                    index - start,
                    items@,
                    row_height as int,
                ) == target,
            decreases end - index,
        {
            let col = index - start;
            let full_height = page_height_cells(page_width, self.dimensions[index], self.cell_pixels);
            let (_, height) = grid_slice_span(grid_height, slice_total, slice_row, full_height);
            if height != 0 {
                if height > row_height {
                    row_height = height;
                }
                items.push(ScrollItem {
                    page_index: index,
                    slice_index: slice_row,
                    slice_count: slice_total,
                    grid_height,
                    row_index,
                    x: x_offset.saturating_add(saturating_mul_u16(col as u16, step)),
                    y,
                    width: page_width,
                    height,
                    full_width: page_width,
                    full_height,
                });
            }
            index += 1;
        }
        row_height
    }
}

/// Height of the rows `start..i` counted by `rows_height(start..end)`:
/// each existing row with the gap below it when another row of the range
/// follows.
/// The item indices the rows list, row after row.
pub open spec fn rows_concat(rows: Seq<RowModel>) -> Seq<usize>
    decreases rows.len(),
{
    if rows.len() == 0 {
        Seq::empty()
    } else {
        rows_concat(rows.drop_last()) + rows.last().2
    }
}

/// The rows list every item once, in order (row after row, each row's
/// items left to right), and every item names the row that lists it.
pub open spec fn rows_list_items(items: Seq<ScrollItem>, rows: Seq<RowModel>) -> bool {
    &&& rows_concat(rows) == Seq::new(items.len(), |k: int| k as usize)
    &&& forall|r: int, j: int|
        0 <= r < rows.len() && 0 <= j < rows[r].2.len() ==> #[trigger] items[rows[r].2[j] as int].row_index
            == r
}

impl<'a> ScrollLayoutBuilder<'a> {
    proof fn lemma_columns_append(
        &self,
        pw: u16,
        x_offset: u16,
        g: int,
        end: int,
        grid: u16,
        n: u16,
        sr: u16,
        row_index: int,
        y: u32,
        c: int,
        items: Seq<ScrollItem>,
        row_height: int,
    )
        requires
            0 <= row_index <= usize::MAX,
        ensures
            ({
                let out = self.place_columns(pw, x_offset, g, end, grid, n, sr, row_index, y, c, items, row_height).0;
                &&& out.len() >= items.len()
                &&& out.len() <= items.len() + (if end - (g + c) > 0 { end - (g + c) } else { 0 })
                &&& out.take(items.len() as int) == items
                &&& forall|k: int| items.len() <= k < out.len() ==> #[trigger] out[k].row_index == row_index
            }),
        decreases end - (g + c),
    {
        if c < 0 || g + c >= end {
            assert(items.take(items.len() as int) =~= items);
        } else {
            let full = self.cells_of(pw, g + c) as u16;
            let height = grid_slice_span_spec(grid, n, sr, full).1;
            if height == 0 {
                self.lemma_columns_append(pw, x_offset, g, end, grid, n, sr, row_index, y, c + 1, items, row_height);
            } else {
                let item = ScrollItem {
                    page_index: (g + c) as usize,
                    slice_index: sr,
                    slice_count: n,
                    grid_height: grid,
                    row_index: row_index as usize,
                    x: self.column_x(pw, x_offset, c) as u16,
                    y,
                    width: pw,
                    height: height as u16,
                    full_width: pw,
                    full_height: full,
                };
                let pushed = items.push(item);
                self.lemma_columns_append(
                    pw,
                    x_offset,
                    g,
                    end,
                    grid,
                    n,
                    sr,
                    row_index,
                    y,
                    c + 1,
                    pushed,
                    max_int(row_height, height),
                );
                let out = self.place_columns(pw, x_offset, g, end, grid, n, sr, row_index, y, c, items, row_height).0;
                assert(out.take(pushed.len() as int).take(items.len() as int) =~= out.take(items.len() as int));
                assert(pushed.take(items.len() as int) =~= items);
                assert forall|k: int| items.len() <= k < out.len() implies #[trigger] out[k].row_index == row_index by {
                    if k == items.len() {
                        assert(out.take(pushed.len() as int)[k] == pushed[k]);
                    }
                }
            }
        }
    }

    proof fn lemma_slice_rows_list_items(
        &self,
        pw: u16,
        x_offset: u16,
        g: int,
        end: int,
        grid: u16,
        n: u16,
        sr: int,
        items: Seq<ScrollItem>,
        rows: Seq<RowModel>,
        y: u32,
    )
        requires
            rows_list_items(items, rows),
            0 <= sr,
            0 <= g <= end,
            rows.len() + (n - sr) <= usize::MAX,
            items.len() + (if n > sr { n - sr } else { 0 }) * (end - g) <= usize::MAX,
        ensures
            ({
                let out = self.place_slice_rows(pw, x_offset, g, end, grid, n, sr, items, rows, y);
                &&& rows_list_items(out.0, out.1)
                &&& out.0.len() >= items.len()
                &&& out.0.len() <= items.len() + (if n > sr { n - sr } else { 0 }) * (end - g)
                &&& out.0.take(items.len() as int) == items
                &&& out.1.len() >= rows.len()
            }),
        decreases n - sr,
    {
        if sr < 0 || sr >= n {
            assert(items.take(items.len() as int) =~= items);
        } else {
            self.lemma_columns_append(pw, x_offset, g, end, grid, n, sr as u16, rows.len() as int, y, 0, items, 1);
            let (placed, row_height) = self.place_columns(
                pw,
                x_offset,
                g,
                end,
                grid,
                n,
                sr as u16,
                rows.len() as int,
                y,
                0,
                items,
                1,
            );
            let gap = if sr + 1 < n || end >= self.page_count() {
                0
            } else {
                self.config.gap_y as int
            };
            let row: RowModel = (
                row_height as u16,
                gap as u16,
                Seq::new((placed.len() - items.len()) as nat, |k: int| (items.len() + k) as usize),
            );
            let rows2 = rows.push(row);
            assert(rows2.drop_last() =~= rows);
            assert(rows_concat(rows2) =~= Seq::new(placed.len(), |k: int| k as usize));
            assert forall|r: int, j: int|
                0 <= r < rows2.len() && 0 <= j < rows2[r].2.len() implies #[trigger] placed[rows2[r].2[j] as int].row_index
                    == r by {
                if r < rows.len() {
                    assert(rows2[r] == rows[r]);
                    let k = rows[r].2[j] as int;
                    assert(rows_concat(rows).len() == items.len());
                    lemma_row_index_below(rows, r, j);
                    assert(placed.take(items.len() as int)[k] == placed[k]);
                    assert(items[k].row_index == r);
                } else {
                    assert(rows2[r] == row);
                    let k = items.len() + j;
                    assert(placed.len() <= usize::MAX) by (nonlinear_arith)
                        requires
                            placed.len() <= items.len() + (end - g),
                            items.len() + (n - sr) * (end - g) <= usize::MAX,
                            n - sr >= 1,
                            end - g >= 0,
                    ;
                    assert(row.2[j] == k as usize);
                    assert(items.len() <= k < placed.len());
                    assert(placed[k].row_index == rows.len());
                }
            }
            let next_y = sat_add32(sat_add32(y as int, row_height), gap) as u32;
            let w = end - g;
            let m = n - sr;
            assert(placed.len() + (m - 1) * w <= items.len() + w + (m - 1) * w);
            assert(w + (m - 1) * w == m * w) by (nonlinear_arith);
            self.lemma_slice_rows_list_items(pw, x_offset, g, end, grid, n, sr + 1, placed, rows2, next_y);
            let out = self.place_slice_rows(pw, x_offset, g, end, grid, n, sr + 1, placed, rows2, next_y);
            assert(out.0.take(placed.len() as int).take(items.len() as int) =~= out.0.take(items.len() as int));
        }
    }

    proof fn lemma_groups_list_items(
        &self,
        pw: u16,
        x_offset: u16,
        limit: u16,
        g: int,
        items: Seq<ScrollItem>,
        rows: Seq<RowModel>,
        y: u32,
    )
        requires
            rows_list_items(items, rows),
            0 <= g <= self.page_count(),
            rows.len() + 65536 * (self.page_count() - g) <= usize::MAX,
            items.len() + 65536 * (self.page_count() - g) <= usize::MAX,
        ensures
            rows_list_items(
                self.place_groups(pw, x_offset, limit, g, items, rows, y).0,
                self.place_groups(pw, x_offset, limit, g, items, rows, y).1,
            ),
            self.place_groups(pw, x_offset, limit, g, items, rows, y).0.len() <= usize::MAX,
        decreases self.page_count() - g,
    {
        if !(g < 0 || g >= self.page_count()) {
            let end = min_int(g + self.columns(), self.page_count());
            let grid = self.grid_of(pw, g, end) as u16;
            let n = slice_count_spec(grid, limit) as u16;
            assert(n * (end - g) <= 65536 * (self.page_count() - g)) by (nonlinear_arith)
                requires
                    n <= 65535,
                    0 <= end - g <= self.page_count() - g,
            ;
            self.lemma_slice_rows_list_items(pw, x_offset, g, end, grid, n, 0, items, rows, y);
            let (items2, rows2, y2) = self.place_slice_rows(pw, x_offset, g, end, grid, n, 0, items, rows, y);
            lemma_slice_rows_count(self, pw, x_offset, g, end, grid, n, 0, items, rows, y);
            assert(n * (end - g) <= 65536 * (end - g)) by (nonlinear_arith)
                requires
                    n <= 65535,
                    end - g >= 0,
            ;
            self.lemma_groups_list_items(pw, x_offset, limit, end, items2, rows2, y2);
        }
    }
}

proof fn lemma_row_index_below(rows: Seq<RowModel>, r: int, j: int)
    requires
        0 <= r < rows.len(),
        0 <= j < rows[r].2.len(),
        rows_concat(rows) == Seq::new(rows_concat(rows).len(), |k: int| k as usize),
    ensures
        (rows[r].2[j] as int) < rows_concat(rows).len(),
    decreases rows.len(),
{
    let c = rows_concat(rows);
    let prev = rows_concat(rows.drop_last());
    if r == rows.len() - 1 {
        assert(c[prev.len() + j] == rows[r].2[j]);
    } else {
        assert(rows.drop_last()[r] == rows[r]);
        assert(c[prev.len() as int + 0] == c[prev.len() as int]) ;
        assert(prev == Seq::new(prev.len(), |k: int| k as usize)) by {
            assert forall|k: int| 0 <= k < prev.len() implies prev[k] == k as usize by {
                assert(c[k] == prev[k]);
            }
        }
        lemma_row_index_below(rows.drop_last(), r, j);
    }
}

proof fn lemma_slice_rows_count<'a>(
    b: &ScrollLayoutBuilder<'a>,
    pw: u16,
    x_offset: u16,
    g: int,
    end: int,
    grid: u16,
    n: u16,
    sr: int,
    items: Seq<ScrollItem>,
    rows: Seq<RowModel>,
    y: u32,
)
    requires
        0 <= sr,
    ensures
        b.place_slice_rows(pw, x_offset, g, end, grid, n, sr, items, rows, y).1.len() <= rows.len()
            + (if n > sr { n - sr } else { 0 }),
    decreases n - sr,
{
    if sr < n {
        let (placed, row_height) = b.place_columns(
            pw,
            x_offset,
            g,
            end,
            grid,
            n,
            sr as u16,
            rows.len() as int,
            y,
            0,
            items,
            1,
        );
        let gap = if sr + 1 < n || end >= b.page_count() {
            0
        } else {
            b.config.gap_y as int
        };
        let row: RowModel = (
            row_height as u16,
            gap as u16,
            Seq::new((placed.len() - items.len()) as nat, |k: int| (items.len() + k) as usize),
        );
        let next_y = sat_add32(sat_add32(y as int, row_height), gap) as u32;
        lemma_slice_rows_count(b, pw, x_offset, g, end, grid, n, sr + 1, placed, rows.push(row), next_y);
    }
}

/// The top of row `r`: the heights and gaps of the rows above it, summed
/// (saturating at `u32::MAX`).
pub open spec fn rows_top(rows: Seq<RowModel>, r: int) -> int
    decreases r,
{
    if r <= 0 {
        0
    } else {
        sat_add32(sat_add32(rows_top(rows, r - 1), rows[r - 1].0 as int), rows[r - 1].1 as int)
    }
}

/// Every item starts at the top of its row and fits in the row's height.
pub open spec fn rows_place_items(items: Seq<ScrollItem>, rows: Seq<RowModel>) -> bool {
    forall|r: int, j: int|
        0 <= r < rows.len() && 0 <= j < rows[r].2.len() ==> {
            &&& #[trigger] items[rows[r].2[j] as int].y == rows_top(rows, r)
            &&& items[rows[r].2[j] as int].height <= rows[r].0
        }
}

/// Each row is as tall as its tallest item, and at least one cell tall.
pub open spec fn rows_take_tallest(items: Seq<ScrollItem>, rows: Seq<RowModel>) -> bool {
    forall|r: int|
        0 <= r < rows.len() ==> #[trigger] rows[r].0 == 1 || exists|j: int|
            0 <= j < rows[r].2.len() && #[trigger] items[rows[r].2[j] as int].height == rows[r].0
}

proof fn lemma_rows_top_prefix(rows: Seq<RowModel>, extra: RowModel, r: int)
    requires
        0 <= r <= rows.len(),
    ensures
        rows_top(rows.push(extra), r) == rows_top(rows, r),
    decreases r,
{
    if r > 0 {
        lemma_rows_top_prefix(rows, extra, r - 1);
        assert(rows.push(extra)[r - 1] == rows[r - 1]);
    }
}

impl<'a> ScrollLayoutBuilder<'a> {
    proof fn lemma_columns_place(
        &self,
        pw: u16,
        x_offset: u16,
        g: int,
        end: int,
        grid: u16,
        n: u16,
        sr: u16,
        row_index: int,
        y: u32,
        c: int,
        items: Seq<ScrollItem>,
        row_height: int,
    )
        requires
            0 <= row_index <= usize::MAX,
            1 <= row_height <= u16::MAX,
        ensures
            row_height <= self.place_columns(pw, x_offset, g, end, grid, n, sr, row_index, y, c, items, row_height).1
                <= u16::MAX,
            forall|k: int|
                items.len() <= k < self.place_columns(pw, x_offset, g, end, grid, n, sr, row_index, y, c, items, row_height).0.len()
                    ==> {
                    &&& (#[trigger] self.place_columns(pw, x_offset, g, end, grid, n, sr, row_index, y, c, items, row_height).0[k]).y == y
                    &&& self.place_columns(pw, x_offset, g, end, grid, n, sr, row_index, y, c, items, row_height).0[k].height
                        <= self.place_columns(pw, x_offset, g, end, grid, n, sr, row_index, y, c, items, row_height).1
                    &&& self.place_columns(pw, x_offset, g, end, grid, n, sr, row_index, y, c, items, row_height).0[k].slice_index
                        == sr
                    &&& self.place_columns(pw, x_offset, g, end, grid, n, sr, row_index, y, c, items, row_height).0[k].grid_height
                        == grid
                    &&& self.place_columns(pw, x_offset, g, end, grid, n, sr, row_index, y, c, items, row_height).0[k].slice_count
                        == n
                },
            self.place_columns(pw, x_offset, g, end, grid, n, sr, row_index, y, c, items, row_height).1 == row_height
                || exists|k: int|
                items.len() <= k < self.place_columns(pw, x_offset, g, end, grid, n, sr, row_index, y, c, items, row_height).0.len()
                    && (#[trigger] self.place_columns(pw, x_offset, g, end, grid, n, sr, row_index, y, c, items, row_height).0[k]).height
                    == self.place_columns(pw, x_offset, g, end, grid, n, sr, row_index, y, c, items, row_height).1,
        decreases end - (g + c),
    {
        if !(c < 0 || g + c >= end) {
            let full = self.cells_of(pw, g + c) as u16;
            let height = grid_slice_span_spec(grid, n, sr, full).1;
            if height == 0 {
                self.lemma_columns_place(pw, x_offset, g, end, grid, n, sr, row_index, y, c + 1, items, row_height);
            } else {
                let item = ScrollItem {
                    page_index: (g + c) as usize,
                    slice_index: sr,
                    slice_count: n,
                    grid_height: grid,
                    row_index: row_index as usize,
                    x: self.column_x(pw, x_offset, c) as u16,
                    y,
                    width: pw,
                    height: height as u16,
                    full_width: pw,
                    full_height: full,
                };
                let pushed = items.push(item);
                assert(0 <= height <= u16::MAX);
                self.lemma_columns_place(
                    pw,
                    x_offset,
                    g,
                    end,
                    grid,
                    n,
                    sr,
                    row_index,
                    y,
                    c + 1,
                    pushed,
                    max_int(row_height, height),
                );
                self.lemma_columns_append(pw, x_offset, g, end, grid, n, sr, row_index, y, c + 1, pushed, max_int(row_height, height));
                let rest = self.place_columns(pw, x_offset, g, end, grid, n, sr, row_index, y, c + 1, pushed, max_int(row_height, height));
                assert(self.place_columns(pw, x_offset, g, end, grid, n, sr, row_index, y, c, items, row_height) == rest);
                let out = rest.0;
                let h = rest.1;
                assert(out[items.len() as int] == item) by {
                    assert(out.take(pushed.len() as int)[items.len() as int] == out[items.len() as int]);
                    assert(pushed[items.len() as int] == item);
                }
                assert(item.height as int == height);
                assert forall|k: int| items.len() <= k < out.len() implies (#[trigger] out[k]).y == y && out[k].height <= h by {
                    if k > items.len() {
                        assert(pushed.len() <= k);
                    }
                }
                if h != row_height && h == max_int(row_height, height) {
                    assert(out[items.len() as int].height == h);
                }
            }
        }
    }

    proof fn lemma_slice_rows_place(
        &self,
        pw: u16,
        x_offset: u16,
        g: int,
        end: int,
        grid: u16,
        n: u16,
        sr: int,
        items: Seq<ScrollItem>,
        rows: Seq<RowModel>,
        y: u32,
    )
        requires
            rows_list_items(items, rows),
            rows_place_items(items, rows),
            rows_take_tallest(items, rows),
            y == rows_top(rows, rows.len() as int),
            0 <= sr,
            0 <= g <= end,
            rows.len() + (n - sr) <= usize::MAX,
            items.len() + (if n > sr { n - sr } else { 0 }) * (end - g) <= usize::MAX,
        ensures
            ({
                let out = self.place_slice_rows(pw, x_offset, g, end, grid, n, sr, items, rows, y);
                &&& rows_place_items(out.0, out.1)
                &&& rows_take_tallest(out.0, out.1)
                &&& out.2 == rows_top(out.1, out.1.len() as int)
            }),
        decreases n - sr,
    {
        if !(sr < 0 || sr >= n) {
            self.lemma_columns_append(pw, x_offset, g, end, grid, n, sr as u16, rows.len() as int, y, 0, items, 1);
            self.lemma_columns_place(pw, x_offset, g, end, grid, n, sr as u16, rows.len() as int, y, 0, items, 1);
            self.lemma_slice_rows_list_items(pw, x_offset, g, end, grid, n, sr, items, rows, y);
            let (placed, row_height) = self.place_columns(
                pw,
                x_offset,
                g,
                end,
                grid,
                n,
                sr as u16,
                rows.len() as int,
                y,
                0,
                items,
                1,
            );
            let gap = if sr + 1 < n || end >= self.page_count() {
                0
            } else {
                self.config.gap_y as int
            };
            let row: RowModel = (
                row_height as u16,
                gap as u16,
                Seq::new((placed.len() - items.len()) as nat, |k: int| (items.len() + k) as usize),
            );
            let rows2 = rows.push(row);
            let next_y = sat_add32(sat_add32(y as int, row_height), gap) as u32;
            let w = end - g;
            let m = n - sr;
            assert(placed.len() + (m - 1) * w <= items.len() + w + (m - 1) * w);
            assert(w + (m - 1) * w == m * w) by (nonlinear_arith);
            assert(placed.len() <= usize::MAX) by (nonlinear_arith)
                requires
                    placed.len() <= items.len() + (end - g),
                    items.len() + (n - sr) * (end - g) <= usize::MAX,
                    n - sr >= 1,
                    end - g >= 0,
            ;
            // The rows so far, with this row added, list and place the items.
            assert(rows2.drop_last() =~= rows);
            assert(rows_concat(rows2) =~= Seq::new(placed.len(), |k: int| k as usize));
            assert forall|r: int, j: int|
                0 <= r < rows2.len() && 0 <= j < rows2[r].2.len() implies #[trigger] placed[rows2[r].2[j] as int].row_index
                    == r by {
                if r < rows.len() {
                    assert(rows2[r] == rows[r]);
                    let k = rows[r].2[j] as int;
                    lemma_row_index_below(rows, r, j);
                    assert(placed.take(items.len() as int)[k] == placed[k]);
                    assert(items[k].row_index == r);
                } else {
                    assert(rows2[r] == row);
                    assert(row.2[j] == (items.len() + j) as usize);
                }
            }
            assert forall|r: int, j: int|
                0 <= r < rows2.len() && 0 <= j < rows2[r].2.len() implies {
                    &&& #[trigger] placed[rows2[r].2[j] as int].y == rows_top(rows2, r)
                    &&& placed[rows2[r].2[j] as int].height <= rows2[r].0
                } by {
                lemma_rows_top_prefix(rows, row, r);
                if r < rows.len() {
                    assert(rows2[r] == rows[r]);
                    let k = rows[r].2[j] as int;
                    lemma_row_index_below(rows, r, j);
                    assert(placed.take(items.len() as int)[k] == placed[k]);
                    assert(items[k].y == rows_top(rows, r));
                } else {
                    assert(rows2[r] == row);
                    let k = items.len() + j;
                    assert(row.2[j] == k as usize);
                    assert(items.len() <= k < placed.len());
                    assert(placed[k].y == y);
                }
            }
            assert forall|r: int| 0 <= r < rows2.len() implies #[trigger] rows2[r].0 == 1 || exists|j: int|
                0 <= j < rows2[r].2.len() && #[trigger] placed[rows2[r].2[j] as int].height == rows2[r].0 by {
                if r < rows.len() {
                    assert(rows2[r] == rows[r]);
                    if rows[r].0 != 1 {
                        let j = choose|j: int| 0 <= j < rows[r].2.len() && #[trigger] items[rows[r].2[j] as int].height == rows[r].0;
                        let k = rows[r].2[j] as int;
                        lemma_row_index_below(rows, r, j);
                        assert(placed.take(items.len() as int)[k] == placed[k]);
                        assert(placed[rows2[r].2[j] as int].height == rows2[r].0);
                    }
                } else {
                    assert(rows2[r] == row);
                    if row_height != 1 {
                        let k = choose|k: int| items.len() <= k < placed.len() && (#[trigger] placed[k]).height == row_height;
                        let j = k - items.len();
                        assert(row.2[j] == k as usize);
                        assert(placed[rows2[r].2[j] as int].height == rows2[r].0);
                    }
                }
            }
            lemma_rows_top_prefix(rows, row, rows.len() as int);
            assert(rows2[rows.len() as int] == row);
            assert(rows_top(rows2, rows2.len() as int) == sat_add32(
                sat_add32(rows_top(rows2, rows.len() as int), row.0 as int),
                row.1 as int,
            ));
            assert(next_y == rows_top(rows2, rows2.len() as int));
            self.lemma_slice_rows_place(pw, x_offset, g, end, grid, n, sr + 1, placed, rows2, next_y);
        }
    }

    proof fn lemma_groups_place(
        &self,
        pw: u16,
        x_offset: u16,
        limit: u16,
        g: int,
        items: Seq<ScrollItem>,
        rows: Seq<RowModel>,
        y: u32,
    )
        requires
            rows_list_items(items, rows),
            rows_place_items(items, rows),
            rows_take_tallest(items, rows),
            y == rows_top(rows, rows.len() as int),
            0 <= g,
            rows.len() + 65536 * (self.page_count() - g) <= usize::MAX,
            items.len() + 65536 * (self.page_count() - g) <= usize::MAX,
        ensures
            rows_place_items(
                self.place_groups(pw, x_offset, limit, g, items, rows, y).0,
                self.place_groups(pw, x_offset, limit, g, items, rows, y).1,
            ),
            rows_take_tallest(
                self.place_groups(pw, x_offset, limit, g, items, rows, y).0,
                self.place_groups(pw, x_offset, limit, g, items, rows, y).1,
            ),
            self.place_groups(pw, x_offset, limit, g, items, rows, y).2 == rows_top(
                self.place_groups(pw, x_offset, limit, g, items, rows, y).1,
                self.place_groups(pw, x_offset, limit, g, items, rows, y).1.len() as int,
            ),
        decreases self.page_count() - g,
    {
        if !(g < 0 || g >= self.page_count()) {
            let end = min_int(g + self.columns(), self.page_count());
            let grid = self.grid_of(pw, g, end) as u16;
            let n = slice_count_spec(grid, limit) as u16;
            assert(n * (end - g) <= 65536 * (self.page_count() - g)) by (nonlinear_arith)
                requires
                    n <= 65535,
                    0 <= end - g <= self.page_count() - g,
            ;
            self.lemma_slice_rows_list_items(pw, x_offset, g, end, grid, n, 0, items, rows, y);
            self.lemma_slice_rows_place(pw, x_offset, g, end, grid, n, 0, items, rows, y);
            let (items2, rows2, y2) = self.place_slice_rows(pw, x_offset, g, end, grid, n, 0, items, rows, y);
            lemma_slice_rows_count(self, pw, x_offset, g, end, grid, n, 0, items, rows, y);
            assert(n * (end - g) <= 65536 * (end - g)) by (nonlinear_arith)
                requires
                    n <= 65535,
                    end - g >= 0,
            ;
            self.lemma_groups_place(pw, x_offset, limit, end, items2, rows2, y2);
        }
    }
}

/// In a built scroll layout every item starts at the top of its row (the
/// heights and gaps of the rows above it, summed) and fits in the row's
/// height, each row is as tall as its tallest item (at least one cell), and
/// the total height is the heights and gaps of all rows summed.
pub proof fn lemma_scroll_items_sit_in_their_rows<'a>(builder: &ScrollLayoutBuilder<'a>, pw: u16)
    requires
        65536 * builder.page_count() <= usize::MAX,
    ensures
        rows_place_items(builder.layout_model(pw).0, builder.layout_model(pw).1),
        rows_take_tallest(builder.layout_model(pw).0, builder.layout_model(pw).1),
        builder.layout_model(pw).2 == rows_top(builder.layout_model(pw).1, builder.layout_model(pw).1.len() as int),
{
    let x_offset = centered_offset_spec(
        builder.viewport_width,
        builder.columns() as usize,
        pw,
        builder.config.gap_x,
    ) as u16;
    let limit = slice_height_limit_spec(builder.viewport_height, builder.config.scroll_divisor) as u16;
    assert(rows_concat(Seq::<RowModel>::empty()) =~= Seq::new(0, |k: int| k as usize));
    builder.lemma_groups_place(pw, x_offset, limit, 0, Seq::empty(), Seq::empty(), 0);
}

/// The structure of a layout that `build` returned: its rows list its
/// items once each, in order, and every item names its row; every item
/// starts at the top of its row (the heights and gaps of the rows above,
/// summed) and fits in it; each row is as tall as its tallest item (at
/// least one cell); the total height sums every row's height and gap; a
/// document without pages has no items, no rows and no height; every row
/// lists an item; every item shows its page on its row group's grid
/// (see `item_shows_page`); a slice its page goes on below fills its row,
/// which has no gap after it (see `slices_fill_rows`); and every slice of
/// at least one cell of every page has an item (see `page_slices_listed`).
pub proof fn lemma_built_scroll_layout<'a>(builder: &ScrollLayoutBuilder<'a>, pw: u16, layout: ScrollLayout)
    requires
        65536 * builder.page_count() <= usize::MAX,
        layout.items@ == builder.layout_model(pw).0,
        layout.rows@.map_values(|r: ScrollRow| row_model(r)) == builder.layout_model(pw).1,
        layout.total_height == builder.layout_model(pw).2,
    ensures
        rows_list_items(layout.items@, layout.rows@.map_values(|r: ScrollRow| row_model(r))),
        rows_place_items(layout.items@, layout.rows@.map_values(|r: ScrollRow| row_model(r))),
        rows_take_tallest(layout.items@, layout.rows@.map_values(|r: ScrollRow| row_model(r))),
        layout.total_height == rows_top(
            layout.rows@.map_values(|r: ScrollRow| row_model(r)),
            layout.rows@.len() as int,
        ),
        builder.page_count() == 0 ==> layout.items@.len() == 0 && layout.rows@.len() == 0
            && layout.total_height == 0,
        rows_nonempty(layout.rows@.map_values(|r: ScrollRow| row_model(r))),
        items_show_pages(
            builder,
            pw,
            slice_height_limit_spec(builder.viewport_height, builder.config.scroll_divisor) as u16,
            layout.items@,
        ),
        slices_fill_rows(layout.items@, layout.rows@.map_values(|r: ScrollRow| row_model(r))),
        page_slices_listed(
            builder,
            pw,
            slice_height_limit_spec(builder.viewport_height, builder.config.scroll_divisor) as u16,
            layout.items@,
            builder.page_count(),
        ),
{
    lemma_scroll_rows_list_items_in_order(builder, pw);
    lemma_scroll_items_sit_in_their_rows(builder, pw);
    lemma_scroll_items_show_their_pages(builder, pw);
    lemma_scroll_slices_fill_their_rows(builder, pw);
    lemma_scroll_pages_are_fully_sliced(builder, pw);
    assert(layout.rows@.map_values(|r: ScrollRow| row_model(r)).len() == layout.rows@.len());
}

/// The rows of a built scroll layout list its items once each, in order,
/// and each item names the row that lists it.
pub proof fn lemma_scroll_rows_list_items_in_order<'a>(builder: &ScrollLayoutBuilder<'a>, pw: u16)
    requires
        65536 * builder.page_count() <= usize::MAX,
    ensures
        rows_list_items(builder.layout_model(pw).0, builder.layout_model(pw).1),
        builder.layout_model(pw).0.len() <= usize::MAX,
{
    let x_offset = centered_offset_spec(
        builder.viewport_width,
        builder.columns() as usize,
        pw,
        builder.config.gap_x,
    ) as u16;
    let limit = slice_height_limit_spec(builder.viewport_height, builder.config.scroll_divisor) as u16;
    assert(rows_concat(Seq::<RowModel>::empty()) =~= Seq::new(0, |k: int| k as usize));
    builder.lemma_groups_list_items(pw, x_offset, limit, 0, Seq::empty(), Seq::empty(), 0);
}

pub open spec fn rows_height_raw(rows: Seq<ScrollRow>, start: int, i: int, end: int) -> int
    decreases i - start,
{
    if i <= start {
        0
    } else {
        rows_height_raw(rows, start, i - 1, end) + if i - 1 < rows.len() {
            rows[i - 1].height as int + if i < end {
                rows[i - 1].gap_after as int
            } else {
                0
            }
        } else {
            0
        }
    }
}

/// Visible content area of row `r`: the sum of its items' cell areas
/// (each side at least one cell); unknown item indices are skipped.
pub open spec fn row_area(layout: ScrollLayout, r: int) -> int {
    items_area(layout.items@, layout.rows@[r].items@, layout.rows@[r].items@.len() as int)
}

pub open spec fn items_area(items: Seq<ScrollItem>, indices: Seq<usize>, k: int) -> int
    decreases k,
{
    if k <= 0 {
        0
    } else {
        items_area(items, indices, k - 1) + if indices[k - 1] < items.len() {
            max_int(items[indices[k - 1] as int].width as int, 1) * max_int(
                items[indices[k - 1] as int].height as int,
                1,
            )
        } else {
            0
        }
    }
}

/// Content area of rows `start..end`.
pub open spec fn rows_area(layout: ScrollLayout, start: int, end: int) -> int
    decreases end - start,
{
    if end <= start {
        0
    } else {
        rows_area(layout, start, end - 1) + row_area(layout, end - 1)
    }
}

pub open spec fn sat_u64(v: int) -> int {
    if v > u64::MAX {
        u64::MAX as int
    } else {
        v
    }
}

/// The items of row `r`, skipping unknown item indices.
pub open spec fn row_item_seq(layout: ScrollLayout, r: int) -> Seq<ScrollItem> {
    if 0 <= r < layout.rows@.len() {
        layout.rows@[r].items@.filter(|i: usize| i < layout.items@.len()).map_values(
            |i: usize| layout.items@[i as int],
        )
    } else {
        Seq::empty()
    }
}

/// A scroll item together with the screen area it occupies for one scroll
/// position.
#[derive(Debug, Clone, Copy, PartialEq, Eq)]
pub struct PlacedScrollItem {
    pub item: ScrollItem,
    pub area: Rect,
}

/// A terminal rectangle whose right and bottom edges are kept on the
/// `u16` screen: width and height shrink so that `x + width` and
/// `y + height` saturate at `u16::MAX` at most.
pub open spec fn clamped_rect(x: int, y: int, width: int, height: int) -> Rect {
    Rect {
        x: x as u16,
        y: y as u16,
        width: (sat_add16(x, width) - x) as u16,
        height: (sat_add16(y, height) - y) as u16,
    }
}

/// Screen area of `item` in a row whose top edge is `row_y`: shifted by the
/// viewport's left edge and cut at the viewport's right edge.
pub open spec fn placed_area(viewport: Rect, item: ScrollItem, row_y: int) -> Rect {
    clamped_rect(
        sat_add16(viewport.x as int, item.x as int),
        row_y,
        min_int(item.width as int, sat_sub(viewport.width as int, item.x as int)),
        item.height as int,
    )
}

/// The items of one row placed at `row_y`, in row order.
pub open spec fn place_row(viewport: Rect, items: Seq<ScrollItem>, row_y: int) -> Seq<
    PlacedScrollItem,
> {
    items.map_values(|item: ScrollItem| PlacedScrollItem { item, area: placed_area(viewport, item, row_y) })
}

/// First row shown for `start_row` (0 when nothing is shown).
pub open spec fn visible_start(rows: Seq<ScrollRow>, start_row: int, viewport_height: u16) -> int {
    if rows.len() == 0 || viewport_height == 0 {
        0
    } else {
        clamped_start(rows, start_row)
    }
}

/// Top edge of row `r` of the visible rows `start..end` when the first one
/// starts at `first_y`: each earlier row adds its height, and its gap when
/// another visible row follows, saturating at `u16::MAX`.
pub open spec fn row_top(rows: Seq<ScrollRow>, start: int, end: int, first_y: int, r: int) -> int
    decreases r - start,
{
    if r <= start {
        first_y
    } else {
        let after = sat_add16(row_top(rows, start, end, first_y, r - 1), rows[r - 1].height as int);
        if r < end {
            sat_add16(after, rows[r - 1].gap_after as int)
        } else {
            after
        }
    }
}

/// The placed items of rows `start..r`.
pub open spec fn placed_rows(
    layout: ScrollLayout,
    viewport: Rect,
    start: int,
    end: int,
    first_y: int,
    r: int,
) -> Seq<PlacedScrollItem>
    decreases r - start,
{
    if r <= start {
        Seq::empty()
    } else {
        placed_rows(layout, viewport, start, end, first_y, r - 1) + place_row(
            viewport,
            row_item_seq(layout, r - 1),
            row_top(layout.rows@, start, end, first_y, r - 1),
        )
    }
}

/// Screen placement of every visible item for `start_row`: the visible
/// rows, centered vertically in the viewport as one block, each item
/// top-aligned in its row.
pub open spec fn placed_items_spec(
    layout: ScrollLayout,
    start_row: int,
    viewport: Rect,
    scroll_divisor: u16,
) -> Seq<PlacedScrollItem> {
    let start = visible_start(layout.rows@, start_row, viewport.height);
    let end = visible_end(layout.rows@, start_row, viewport.height, scroll_divisor);
    let used = min_int(rows_height_raw(layout.rows@, start, end, end), u16::MAX as int);
    let first_y = sat_add16(viewport.y as int, sat_sub(viewport.height as int, used) / 2);
    placed_rows(layout, viewport, start, end, first_y, end)
}

fn saturating_add_u64(a: u64, b: u64) -> (sum: u64)
    ensures
        sum as int == sat_u64(a + b),
{
    if a > u64::MAX - b {
        u64::MAX
    } else {
        a + b
    }
}

proof fn lemma_items_area_nonneg(items: Seq<ScrollItem>, indices: Seq<usize>, k: int)
    ensures
        items_area(items, indices, k) >= 0,
    decreases k,
{
    if k > 0 {
        lemma_items_area_nonneg(items, indices, k - 1);
        if indices[k - 1] < items.len() {
            let it = items[indices[k - 1] as int];
            assert(max_int(it.width as int, 1) * max_int(it.height as int, 1) >= 0) by (nonlinear_arith);
        }
    }
}

proof fn lemma_rows_area_nonneg(layout: ScrollLayout, start: int, end: int)
    ensures
        rows_area(layout, start, end) >= 0,
    decreases end - start,
{
    if end > start {
        lemma_rows_area_nonneg(layout, start, end - 1);
        lemma_items_area_nonneg(layout.items@, layout.rows@[end - 1].items@, layout.rows@[end - 1].items@.len() as int);
    }
}

impl ScrollLayout {
    /// Height of `rows` including the gaps between them, saturating at
    /// `u16::MAX`; rows that do not exist count nothing.
    pub fn rows_height(&self, rows: std::ops::Range<usize>) -> (height: u16)
        ensures
            height as int == min_int(
                rows_height_raw(self.rows@, rows.start as int, rows.end as int, rows.end as int),
                u16::MAX as int,
            ),
    {
        let mut total: u16 = 0;
        let mut row_index = rows.start;
        if rows.end <= rows.start {
            return 0;
        }
        while row_index < rows.end
            invariant
                rows.start <= row_index <= rows.end,
                total as int == min_int(
                    rows_height_raw(self.rows@, rows.start as int, row_index as int, rows.end as int),
                    u16::MAX as int,
                ),
            decreases rows.end - row_index,
        {
            if row_index < self.rows.len() {
                let row = &self.rows[row_index];
                total = total.saturating_add(row.height);
                if row_index + 1 < rows.end {
                    total = total.saturating_add(row.gap_after);
                }
            }
            row_index += 1;
        }
        total
    }

    /// The items of row `row_index`.
    pub fn row_items(&self, row_index: usize) -> (items: Vec<ScrollItem>)
        ensures
            items@ == row_item_seq(*self, row_index as int),
    {
        let mut out: Vec<ScrollItem> = Vec::new();
        if row_index >= self.rows.len() {
            proof {
                assert(out@ =~= row_item_seq(*self, row_index as int));
            }
            return out;
        }
        let indices = &self.rows[row_index].items;
        let ghost pred = |i: usize| i < self.items@.len();
        let ghost f = |i: usize| self.items@[i as int];
        let mut k: usize = 0;
        while k < indices.len()
            invariant
                k <= indices@.len(),
                indices@ == self.rows@[row_index as int].items@,
                pred == (|i: usize| i < self.items@.len()),
                f == (|i: usize| self.items@[i as int]),
                out@ == indices@.take(k as int).filter(pred).map_values(f),
            decreases indices@.len() - k,
        {
            proof {
                assert(indices@.take(k + 1) =~= indices@.take(k as int).push(indices@[k as int]));
                indices@.take(k as int).lemma_filter_push(indices@[k as int], pred);
            }
            let index = indices[k];
            if index < self.items.len() {
                out.push(self.items[index]);
                proof {
                    assert(out@ =~= indices@.take(k + 1).filter(pred).map_values(f));
                }
            } else {
                proof {
                    assert(out@ =~= indices@.take(k + 1).filter(pred).map_values(f));
                }
            }
            k += 1;
        }
        proof {
            assert(indices@.take(k as int) =~= indices@);
        }
        out
    }

    /// Screen placement of every visible item for `start_row`. The visible
    /// rows are centered vertically and slices are top-aligned within their
    /// row: under the shared slicing grid a shorter slice is always a page's
    /// remainder, so centering it would open a seam above it.
    pub fn placed_items(&self, start_row: usize, viewport: Rect, scroll_divisor: u16) -> (placed:
        Vec<PlacedScrollItem>)
        ensures
            placed@ == placed_items_spec(*self, start_row as int, viewport, scroll_divisor),
    {
        let rows = self.visible_rows(start_row, viewport.height, scroll_divisor);
        let ghost start = rows.start as int;
        let ghost end = rows.end as int;
        assert(start == visible_start(self.rows@, start_row as int, viewport.height));
        let used_height = self.rows_height(rows.start..rows.end);
        let first_y = viewport.y.saturating_add(viewport.height.saturating_sub(used_height) / 2);
        let mut row_y = first_y;
        let mut placed: Vec<PlacedScrollItem> = Vec::new();
        let mut row_index = rows.start;
        while row_index < rows.end
            invariant
                start <= row_index <= end,
                start == rows.start,
                end == rows.end,
                end <= self.rows@.len(),
                row_y as int == row_top(self.rows@, start, end, first_y as int, row_index as int),
                placed@ == placed_rows(*self, viewport, start, end, first_y as int, row_index as int),
            decreases end - row_index,
        {
            let items = self.row_items(row_index);
            let ghost before = placed@;
            let mut k: usize = 0;
            while k < items.len()
                invariant
                    k <= items@.len(),
                    items@ == row_item_seq(*self, row_index as int),
                    placed@ == before + place_row(viewport, items@.take(k as int), row_y as int),
                decreases items@.len() - k,
            {
                let item = items[k];
                let x = viewport.x.saturating_add(item.x);
                let width = if item.width < viewport.width.saturating_sub(item.x) {
                    item.width
                } else {
                    viewport.width.saturating_sub(item.x)
                };
                let area = Rect::new(
                    x,
                    row_y,
                    x.saturating_add(width) - x,
                    row_y.saturating_add(item.height) - row_y,
                );
                placed.push(PlacedScrollItem { item, area });
                proof {
                    assert(items@.take(k + 1) =~= items@.take(k as int).push(item));
                    assert(place_row(viewport, items@.take(k + 1), row_y as int) =~= place_row(
                        viewport,
                        items@.take(k as int),
                        row_y as int,
                    ).push(PlacedScrollItem { item, area }));
                }
                k += 1;
            }
            proof {
                assert(items@.take(k as int) =~= items@);
            }
            let row = &self.rows[row_index];
            row_y = row_y.saturating_add(row.height);
            if row_index + 1 < rows.end {
                row_y = row_y.saturating_add(row.gap_after);
            }
            row_index += 1;
        }
        placed
    }

    /// The topmost item (first slice) of `page_index`.
    pub fn first_item_of_page(&self, page_index: usize) -> (found: Option<&ScrollItem>)
        ensures
            match found {
                Some(item) => exists|i: int|
                    0 <= i < self.items@.len() && self.items@[i] == *item && item.page_index
                        == page_index && forall|j: int|
                        0 <= j < i ==> #[trigger] self.items@[j].page_index != page_index,
                None => forall|j: int|
                    0 <= j < self.items@.len() ==> #[trigger] self.items@[j].page_index
                        != page_index,
            },
    {
        let mut i: usize = 0;
        while i < self.items.len()
            invariant
                i <= self.items@.len(),
                forall|j: int| 0 <= j < i ==> #[trigger] self.items@[j].page_index != page_index,
            decreases self.items@.len() - i,
        {
            if self.items[i].page_index == page_index {
                return Some(&self.items[i]);
            }
            i += 1;
        }
        None
    }

    /// Index of the first row showing any part of `page_index`.
    pub fn first_row_of_page(&self, page_index: usize) -> (row: Option<usize>)
        ensures
            match row {
                Some(r) => exists|i: int|
                    0 <= i < self.items@.len() && self.items@[i].row_index == r
                        && self.items@[i].page_index == page_index && forall|j: int|
                        0 <= j < i ==> #[trigger] self.items@[j].page_index != page_index,
                None => forall|j: int|
                    0 <= j < self.items@.len() ==> #[trigger] self.items@[j].page_index
                        != page_index,
            },
    {
        match self.first_item_of_page(page_index) {
            Some(item) => Some(item.row_index),
            None => None,
        }
    }

    /// Content area of row `row_index` (each item counts at least one cell
    /// each way), saturating at `u64::MAX`.
    pub fn row_area(&self, row_index: usize) -> (area: u64)
        requires
            row_index < self.rows@.len(),
        ensures
            area as int == sat_u64(row_area(*self, row_index as int)),
    {
        let indices = &self.rows[row_index].items;
        let mut area: u64 = 0;
        let mut k: usize = 0;
        while k < indices.len()
            invariant
                k <= indices@.len(),
                indices@ == self.rows@[row_index as int].items@,
                area as int == sat_u64(items_area(self.items@, indices@, k as int)),
            decreases indices@.len() - k,
        {
            let index = indices[k];
            proof {
                lemma_items_area_nonneg(self.items@, indices@, k as int);
            }
            if index < self.items.len() {
                let item = self.items[index];
                let w: u64 = if item.width == 0 { 1 } else { item.width as u64 };
                let h: u64 = if item.height == 0 { 1 } else { item.height as u64 };
                proof {
                    assert(w * h <= 0xffff * 0xffffu64) by (nonlinear_arith)
                        requires
                            w <= 0xffff,
                            h <= 0xffff,
                    ;
                    assert(w * h >= 0) by (nonlinear_arith)
                        requires
                            w >= 1,
                            h >= 1,
                    ;
                }
                area = saturating_add_u64(area, w * h);
            }
            k += 1;
        }
        area
    }

    /// For every useful start row `0..=max_scroll_row`, the content area of
    /// the rows shown from it, saturating at `u64::MAX`. This is what the
    /// page-width search scores layouts by.
    pub fn visible_areas(&self, viewport_height: u16, scroll_divisor: u16) -> (areas: Vec<u64>)
        requires
            self.rows@.len() > 0,
            viewport_height > 0,
        ensures
            1 <= areas@.len() <= self.rows@.len(),
            visible_end(self.rows@, areas@.len() - 1, viewport_height, scroll_divisor)
                == self.rows@.len(),
            forall|r: int|
                0 <= r < areas@.len() - 1 ==> visible_end(self.rows@, r, viewport_height, scroll_divisor)
                    < self.rows@.len(),
            forall|r: int|
                #![trigger areas@[r]]
                0 <= r < areas@.len() ==> areas@[r] as int == sat_u64(
                    rows_area(
                        *self,
                        clamped_start(self.rows@, r),
                        visible_end(self.rows@, r, viewport_height, scroll_divisor),
                    ),
                ),
    {
        let max_row = self.max_scroll_row(viewport_height, scroll_divisor);
        let mut areas: Vec<u64> = Vec::new();
        let mut start_row: usize = 0;
        while start_row <= max_row
            invariant
                max_row < self.rows@.len(),
                start_row <= max_row + 1,
                areas@.len() == start_row,
                viewport_height > 0,
                forall|x: int|
                    #![trigger areas@[x]]
                    0 <= x < start_row ==> areas@[x] as int == sat_u64(
                        rows_area(
                            *self,
                            clamped_start(self.rows@, x),
                            visible_end(self.rows@, x, viewport_height, scroll_divisor),
                        ),
                    ),
            decreases max_row + 1 - start_row,
        {
            let range = self.visible_rows(start_row, viewport_height, scroll_divisor);
            let mut area: u64 = 0;
            let mut r = range.start;
            while r < range.end
                invariant
                    range.start <= r <= range.end <= self.rows@.len(),
                    area as int == sat_u64(rows_area(*self, range.start as int, r as int)),
                decreases range.end - r,
            {
                proof {
                    lemma_rows_area_nonneg(*self, range.start as int, r as int);
                    lemma_items_area_nonneg(self.items@, self.rows@[r as int].items@, self.rows@[r as int].items@.len() as int);
                }
                area = saturating_add_u64(area, self.row_area(r));
                r += 1;
            }
            areas.push(area);
            proof {
                assert(areas@[start_row as int] == area);
            }
            start_row += 1;
        }
        areas
    }
}

/// Slot `(row, col)` of a grid layout of `rows` x `columns` slots with
/// `cell_width` x `cell_height` cells each inside `area`.
pub open spec fn grid_slot(
    area: Rect,
    row: int,
    col: int,
    x_offset: int,
    y_offset: int,
    cell_width: int,
    cell_height: int,
    gap_x: int,
    gap_y: int,
) -> Rect {
    Rect {
        x: sat_add16(
            sat_add16(area.x as int, x_offset),
            sat_mul16((col as u16) as int, sat_add16(cell_width, gap_x)),
        ) as u16,
        y: sat_add16(
            sat_add16(area.y as int, y_offset),
            sat_mul16((row as u16) as int, sat_add16(cell_height, gap_y)),
        ) as u16,
        width: cell_width as u16,
        height: cell_height as u16,
    }
}

/// Slot rectangles of a grid layout, row by row.
pub fn grid_slots(area: Rect, config: &EffectiveLayoutConfig) -> (slots: Vec<Rect>)
    ensures
        ({
            let rows = max_int(config.rows as int, 1);
            let columns = max_int(config.columns as int, 1);
            let cell_width = max_int(fit_slot_spec(area.width, columns as usize, config.gap_x), 1);
            let cell_height = max_int(fit_slot_spec(area.height, rows as usize, config.gap_y), 1);
            let x_offset = centered_offset_spec(area.width, columns as usize, cell_width as u16, config.gap_x);
            let y_offset = centered_offset_spec(area.height, rows as usize, cell_height as u16, config.gap_y);
            &&& slots@.len() == rows * columns
            &&& forall|r: int, c: int|
                0 <= r < rows && 0 <= c < columns ==> #[trigger] slots@[r * columns + c] == grid_slot(
                    area,
                    r,
                    c,
                    x_offset,
                    y_offset,
                    cell_width,
                    cell_height,
                    config.gap_x as int,
                    config.gap_y as int,
                )
        }),
{
    let rows: usize = if config.rows == 0 {
        1
    } else {
        config.rows as usize
    };
    let columns: usize = if config.columns == 0 {
        1
    } else {
        config.columns as usize
    };
    let gap_x = config.gap_x;
    let gap_y = config.gap_y;
    let fw = fit_slot(area.width, columns, gap_x);
    let cell_width = if fw == 0 {
        1
    } else {
        fw
    };
    let fh = fit_slot(area.height, rows, gap_y);
    let cell_height = if fh == 0 {
        1
    } else {
        fh
    };
    let x_offset = centered_offset(area.width, columns, cell_width, gap_x);
    let y_offset = centered_offset(area.height, rows, cell_height, gap_y);
    let step_x = cell_width.saturating_add(gap_x);
    let step_y = cell_height.saturating_add(gap_y);
    let mut slots: Vec<Rect> = Vec::new();
    let mut row: usize = 0;
    while row < rows
        invariant
            rows as int == max_int(config.rows as int, 1),
            columns as int == max_int(config.columns as int, 1),
            gap_x == config.gap_x,
            gap_y == config.gap_y,
            cell_width as int == max_int(fit_slot_spec(area.width, columns, config.gap_x), 1),
            cell_height as int == max_int(fit_slot_spec(area.height, rows, config.gap_y), 1),
            x_offset as int == centered_offset_spec(area.width, columns, cell_width, gap_x),
            y_offset as int == centered_offset_spec(area.height, rows, cell_height, gap_y),
            step_x as int == sat_add16(cell_width as int, gap_x as int),
            step_y as int == sat_add16(cell_height as int, gap_y as int),
            row <= rows,
            slots@.len() == row * columns,
            forall|r: int, c: int|
                0 <= r < row && 0 <= c < columns ==> #[trigger] slots@[r * columns + c] == grid_slot(
                    area,
                    r,
                    c,
                    x_offset as int,
                    y_offset as int,
                    cell_width as int,
                    cell_height as int,
                    gap_x as int,
                    gap_y as int,
                ),
        decreases rows - row,
    {
        let mut col: usize = 0;
        while col < columns
            invariant
                rows as int == max_int(config.rows as int, 1),
                columns as int == max_int(config.columns as int, 1),
                step_x as int == sat_add16(cell_width as int, gap_x as int),
                step_y as int == sat_add16(cell_height as int, gap_y as int),
                row < rows,
                col <= columns,
                slots@.len() == row * columns + col,
                forall|r: int, c: int|
                    0 <= r < row && 0 <= c < columns ==> #[trigger] slots@[r * columns + c] == grid_slot(
                        area,
                        r,
                        c,
                        x_offset as int,
                        y_offset as int,
                        cell_width as int,
                        cell_height as int,
                        gap_x as int,
                        gap_y as int,
                    ),
                forall|c: int|
                    0 <= c < col ==> #[trigger] slots@[row * columns + c] == grid_slot(
                        area,
                        row as int,
                        c,
                        x_offset as int,
                        y_offset as int,
                        cell_width as int,
                        cell_height as int,
                        gap_x as int,
                        gap_y as int,
                    ),
            decreases columns - col,
        {
            proof {
                assert(row * columns + col < rows * columns) by (nonlinear_arith)
                    requires
                        row < rows,
                        col < columns,
                ;
            }
            let ghost before = slots@;
            slots.push(Rect {
                x: area.x.saturating_add(x_offset).saturating_add(saturating_mul_u16(col as u16, step_x)),
                y: area.y.saturating_add(y_offset).saturating_add(saturating_mul_u16(row as u16, step_y)),
                width: cell_width,
                height: cell_height,
            });
            proof {
                assert forall|r: int, c: int|
                    0 <= r < row && 0 <= c < columns implies #[trigger] slots@[r * columns + c] == before[r * columns + c] by {
                    assert(r * columns + c < row * columns) by (nonlinear_arith)
                        requires
                            0 <= r < row,
                            0 <= c < columns,
                    ;
                }
            }
            col += 1;
        }
        proof {
            assert((row + 1) * columns == row * columns + columns) by (nonlinear_arith);
            assert forall|r: int, c: int|
                0 <= r < row + 1 && 0 <= c < columns implies #[trigger] slots@[r * columns + c] == grid_slot(
                    area,
                    r,
                    c,
                    x_offset as int,
                    y_offset as int,
                    cell_width as int,
                    cell_height as int,
                    gap_x as int,
                    gap_y as int,
                ) by {
                if r < row {
                } else {
                    assert(r == row);
                }
            }
        }
        row += 1;
    }
    slots
}

/// Slices stay contiguous within a page: each slice starts where the
/// previous one ends.
pub proof fn lemma_slices_contiguous(grid_height: u16, slice_count: u16, i: u16, full_height: u16)
    requires
        i + 1 < slice_count,
    ensures
        grid_slice_span_spec(grid_height, slice_count, i, full_height).0 + grid_slice_span_spec(
            grid_height,
            slice_count,
            i,
            full_height,
        ).1 == grid_slice_span_spec(grid_height, slice_count, (i + 1) as u16, full_height).0,
{
    let g = max_int(grid_height as int, 1);
    let n = slice_count as int;
    assert(g * (i as int) / n <= g * (i as int + 1) / n) by (nonlinear_arith)
        requires
            g >= 1,
            n >= 1,
            i >= 0,
    ;
}

/// A page no taller than the grid is covered by its slices: the first
/// starts at its top and the last ends at its bottom.
pub proof fn lemma_slices_cover_page(grid_height: u16, slice_count: u16, full_height: u16)
    requires
        slice_count >= 1,
        max_int(full_height as int, 1) <= max_int(grid_height as int, 1),
    ensures
        grid_slice_span_spec(grid_height, slice_count, 0, full_height).0 == 0,
        grid_slice_span_spec(grid_height, slice_count, (slice_count - 1) as u16, full_height).0
            + grid_slice_span_spec(grid_height, slice_count, (slice_count - 1) as u16, full_height).1
            == max_int(full_height as int, 1),
{
    let g = max_int(grid_height as int, 1);
    let n = slice_count as int;
    assert(g * (n - 1) / n <= g * n / n) by (nonlinear_arith)
        requires
            g >= 1,
            n >= 1,
    ;
    assert(g * n / n == g) by (nonlinear_arith)
        requires
            n >= 1,
    ;
    assert(g * 0 / n == 0) by (nonlinear_arith)
        requires
            n >= 1,
    ;
}

/// The slices of a page of any height tile `[0, min(grid, full))` on the
/// shared grid (both taken as at least one cell): the first starts at 0,
/// each ends where the next starts and within the page, the last ends at
/// `min(grid, full)`, and an index past the last gives the last slice.
pub proof fn lemma_grid_slices_tile(grid_height: u16, slice_count: u16, full_height: u16)
    ensures
        ({
            let n = max_int(slice_count as int, 1);
            let last = (n - 1) as u16;
            &&& grid_slice_span_spec(grid_height, slice_count, 0, full_height).0 == 0
            &&& forall|i: u16|
                i < n ==> #[trigger] grid_slice_span_spec(grid_height, slice_count, i, full_height).0
                    + grid_slice_span_spec(grid_height, slice_count, i, full_height).1 <= max_int(
                    full_height as int,
                    1,
                )
            &&& forall|i: u16|
                i + 1 < n ==> #[trigger] grid_slice_span_spec(grid_height, slice_count, i, full_height).0
                    + grid_slice_span_spec(grid_height, slice_count, i, full_height).1 == grid_slice_span_spec(
                    grid_height,
                    slice_count,
                    (i + 1) as u16,
                    full_height,
                ).0
            &&& grid_slice_span_spec(grid_height, slice_count, last, full_height).0 + grid_slice_span_spec(
                grid_height,
                slice_count,
                last,
                full_height,
            ).1 == min_int(max_int(grid_height as int, 1), max_int(full_height as int, 1))
            &&& forall|i: u16|
                i >= n ==> #[trigger] grid_slice_span_spec(grid_height, slice_count, i, full_height)
                    == grid_slice_span_spec(grid_height, slice_count, last, full_height)
        }),
{
    let n = max_int(slice_count as int, 1);
    let g = max_int(grid_height as int, 1);
    assert forall|a: int| 0 <= a < n implies #[trigger] (g * a / n) <= g * (a + 1) / n by {
        assert(g * a / n <= g * (a + 1) / n) by (nonlinear_arith)
            requires
                g >= 1,
                n >= 1,
                a >= 0,
        ;
    }
    assert(g * n / n == g) by (nonlinear_arith)
        requires
            n >= 1,
    ;
    assert(g * 0 / n == 0) by (nonlinear_arith)
        requires
            n >= 1,
    ;
    assert forall|i: u16| i < n implies #[trigger] grid_slice_span_spec(grid_height, slice_count, i, full_height).0
        + grid_slice_span_spec(grid_height, slice_count, i, full_height).1 <= max_int(full_height as int, 1) by {
        let a = i as int;
        assert(g * a / n <= g * (a + 1) / n);
    }
    assert forall|i: u16| i + 1 < n implies #[trigger] grid_slice_span_spec(grid_height, slice_count, i, full_height).0
        + grid_slice_span_spec(grid_height, slice_count, i, full_height).1 == grid_slice_span_spec(
        grid_height,
        slice_count,
        (i + 1) as u16,
        full_height,
    ).0 by {
        let a = i as int;
        assert(g * a / n <= g * (a + 1) / n);
    }
    let a = n - 1;
    assert(g * a / n <= g * (a + 1) / n);
}

impl<'a> ScrollLayoutBuilder<'a> {
    proof fn lemma_grid_covers_group(&self, pw: u16, g: int, j: int, p: int)
        requires
            0 <= g <= p < j <= self.page_count(),
        ensures
            1 <= self.cells_of(pw, p) <= self.grid_of(pw, g, j) <= u16::MAX,
        decreases j - g,
    {
        if j > g + 1 {
            if p < j - 1 {
                self.lemma_grid_covers_group(pw, g, j - 1, p);
            } else {
                self.lemma_grid_covers_group(pw, g, j - 1, g);
            }
        }
    }
}

/// Each page of a row group is tiled by its slices on the group's shared
/// grid: the group's grid (its tallest page) is at least as tall as every
/// page in it, so the page's first slice starts at its top, each slice
/// ends where the next starts, and the last ends at its bottom.
pub proof fn lemma_group_slices_tile_each_page<'a>(
    builder: &ScrollLayoutBuilder<'a>,
    pw: u16,
    limit: u16,
    g: int,
    end: int,
    p: int,
)
    requires
        0 <= g <= p < end <= builder.page_count(),
    ensures
        ({
            let grid = builder.grid_of(pw, g, end) as u16;
            let n = slice_count_spec(grid, limit) as u16;
            let full = builder.cells_of(pw, p) as u16;
            &&& n >= 1
            &&& grid_slice_span_spec(grid, n, 0, full).0 == 0
            &&& grid_slice_span_spec(grid, n, (n - 1) as u16, full).0 + grid_slice_span_spec(
                grid,
                n,
                (n - 1) as u16,
                full,
            ).1 == full
            &&& forall|i: u16|
                i + 1 < n ==> #[trigger] grid_slice_span_spec(grid, n, i, full).0
                    + grid_slice_span_spec(grid, n, i, full).1 == grid_slice_span_spec(
                    grid,
                    n,
                    (i + 1) as u16,
                    full,
                ).0
        }),
{
    builder.lemma_grid_covers_group(pw, g, end, p);
    let grid = builder.grid_of(pw, g, end) as u16;
    let n = slice_count_spec(grid, limit) as u16;
    let full = builder.cells_of(pw, p) as u16;
    let l = max_int(limit as int, 1);
    assert(sat_add16(max_int(grid as int, 1), l - 1) / l <= u16::MAX) by (nonlinear_arith)
        requires
            l >= 1,
            sat_add16(max_int(grid as int, 1), l - 1) <= u16::MAX,
    ;
    lemma_slices_cover_page(grid, n, full);
    assert forall|i: u16| i + 1 < n implies #[trigger] grid_slice_span_spec(grid, n, i, full).0
        + grid_slice_span_spec(grid, n, i, full).1 == grid_slice_span_spec(grid, n, (i + 1) as u16, full).0 by {
        lemma_slices_contiguous(grid, n, i, full);
    }
}

/// A row group's slice count is at most its grid height (both at least 1).
proof fn lemma_slice_count_le_grid(grid: u16, limit: u16)
    ensures
        1 <= slice_count_spec(grid, limit) <= max_int(grid as int, 1),
{
    let l = max_int(limit as int, 1);
    let gg = max_int(grid as int, 1);
    let t = sat_add16(gg, l - 1);
    assert(t <= gg + l - 1);
    assert(t / l <= gg) by (nonlinear_arith)
        requires
            l >= 1,
            gg >= 1,
            0 <= t <= gg + l - 1,
    ;
}

/// On its own grid, the tallest page has a slice of at least one cell in
/// every slice row.
proof fn lemma_tallest_slice_nonempty(grid: u16, n: u16, sr: u16)
    requires
        1 <= grid,
        1 <= n <= grid,
        sr < n,
    ensures
        grid_slice_span_spec(grid, n, sr, grid).1 >= 1,
{
    let g = grid as int;
    let nn = n as int;
    let a = sr as int;
    assert(g * a / nn + 1 <= g * (a + 1) / nn) by (nonlinear_arith)
        requires
            g >= nn,
            nn >= 1,
            a >= 0,
    ;
    assert(g * (a + 1) / nn <= g) by (nonlinear_arith)
        requires
            a + 1 <= nn,
            nn >= 1,
            g >= 1,
    ;
}

/// An item shows its page at its row group's grid: full width, the page's
/// height, the group's grid height and slice count, a slice index below
/// the slice count, and a height of at least one cell that is the slice's
/// span.
pub open spec fn item_shows_page<'a>(b: &ScrollLayoutBuilder<'a>, pw: u16, limit: u16, it: ScrollItem) -> bool {
    let p = it.page_index as int;
    let g = (p / b.columns()) * b.columns();
    let end = min_int(g + b.columns(), b.page_count());
    &&& 0 <= p < b.page_count()
    &&& it.width == pw
    &&& it.full_width == pw
    &&& it.full_height == b.cells_of(pw, p)
    &&& it.grid_height == b.grid_of(pw, g, end)
    &&& it.slice_count == slice_count_spec(it.grid_height, limit)
    &&& it.slice_index < it.slice_count
    &&& it.height >= 1
    &&& it.height == grid_slice_span_spec(it.grid_height, it.slice_count, it.slice_index, it.full_height).1
}

pub open spec fn items_show_pages<'a>(b: &ScrollLayoutBuilder<'a>, pw: u16, limit: u16, items: Seq<ScrollItem>) -> bool {
    forall|k: int| 0 <= k < items.len() ==> item_shows_page(b, pw, limit, #[trigger] items[k])
}

/// Every row lists at least one item.
pub open spec fn rows_nonempty(rows: Seq<RowModel>) -> bool {
    forall|r: int| 0 <= r < rows.len() ==> (#[trigger] rows[r]).2.len() > 0
}

proof fn lemma_group_start(c: int, g: int, p: int)
    requires
        c >= 1,
        g >= 0,
        g % c == 0,
        g <= p < g + c,
    ensures
        (p / c) * c == g,
{
    assert((p / c) * c == g) by (nonlinear_arith)
        requires
            c >= 1,
            g >= 0,
            g % c == 0,
            g <= p < g + c,
    {
        assert(g == (g / c) * c);
        assert(p / c == g / c);
    }
}

impl<'a> ScrollLayoutBuilder<'a> {
    proof fn lemma_grid_attained(&self, pw: u16, g: int, j: int) -> (t: int)
        requires
            0 <= g < j <= self.page_count(),
        ensures
            g <= t < j,
            self.cells_of(pw, t) == self.grid_of(pw, g, j),
        decreases j - g,
    {
        if j <= g + 1 {
            g
        } else {
            let t0 = self.lemma_grid_attained(pw, g, j - 1);
            if self.grid_of(pw, g, j - 1) >= self.cells_of(pw, j - 1) {
                t0
            } else {
                j - 1
            }
        }
    }

    proof fn lemma_columns_show_pages(
        &self,
        pw: u16,
        x_offset: u16,
        limit: u16,
        g: int,
        end: int,
        grid: u16,
        n: u16,
        sr: u16,
        row_index: int,
        y: u32,
        c: int,
        items: Seq<ScrollItem>,
        row_height: int,
    )
        requires
            0 <= g < end <= self.page_count(),
            end == min_int(g + self.columns(), self.page_count()),
            g % self.columns() == 0,
            grid as int == self.grid_of(pw, g, end),
            n as int == slice_count_spec(grid, limit),
            sr < n,
            0 <= c,
            self.page_count() <= usize::MAX,
            items_show_pages(self, pw, limit, items),
        ensures
            items_show_pages(
                self,
                pw,
                limit,
                self.place_columns(pw, x_offset, g, end, grid, n, sr, row_index, y, c, items, row_height).0,
            ),
        decreases end - (g + c),
    {
        if !(c < 0 || g + c >= end) {
            let p = g + c;
            let full = self.cells_of(pw, p) as u16;
            let height = grid_slice_span_spec(grid, n, sr, full).1;
            self.lemma_grid_covers_group(pw, g, end, p);
            if height == 0 {
                self.lemma_columns_show_pages(pw, x_offset, limit, g, end, grid, n, sr, row_index, y, c + 1, items, row_height);
            } else {
                let item = ScrollItem {
                    page_index: p as usize,
                    slice_index: sr,
                    slice_count: n,
                    grid_height: grid,
                    row_index: row_index as usize,
                    x: self.column_x(pw, x_offset, c) as u16,
                    y,
                    width: pw,
                    height: height as u16,
                    full_width: pw,
                    full_height: full,
                };
                lemma_group_start(self.columns(), g, p);
                assert(0 <= height <= u16::MAX);
                assert(item.page_index as int == p);
                assert(item.full_height as int == self.cells_of(pw, p));
                assert((p / self.columns()) * self.columns() == g);
                assert(item_shows_page(self, pw, limit, item));
                let pushed = items.push(item);
                assert(items_show_pages(self, pw, limit, pushed)) by {
                    assert forall|k: int| 0 <= k < pushed.len() implies item_shows_page(self, pw, limit, #[trigger] pushed[k]) by {
                        if k < items.len() {
                            assert(pushed[k] == items[k]);
                        }
                    }
                }
                self.lemma_columns_show_pages(
                    pw,
                    x_offset,
                    limit,
                    g,
                    end,
                    grid,
                    n,
                    sr,
                    row_index,
                    y,
                    c + 1,
                    pushed,
                    max_int(row_height, height),
                );
            }
        }
    }

    /// A slice row adds an item when some page from column `c` on has a
    /// slice in it.
    proof fn lemma_columns_add_item(
        &self,
        pw: u16,
        x_offset: u16,
        g: int,
        end: int,
        grid: u16,
        n: u16,
        sr: u16,
        row_index: int,
        y: u32,
        c: int,
        items: Seq<ScrollItem>,
        row_height: int,
        t: int,
    )
        requires
            0 <= c,
            g + c <= t < end,
            grid_slice_span_spec(grid, n, sr, self.cells_of(pw, t) as u16).1 > 0,
        ensures
            self.place_columns(pw, x_offset, g, end, grid, n, sr, row_index, y, c, items, row_height).0.len()
                > items.len(),
        decreases end - (g + c),
    {
        let full = self.cells_of(pw, g + c) as u16;
        let height = grid_slice_span_spec(grid, n, sr, full).1;
        if g + c == t {
            let item = ScrollItem {
                page_index: (g + c) as usize,
                slice_index: sr,
                slice_count: n,
                grid_height: grid,
                row_index: row_index as usize,
                x: self.column_x(pw, x_offset, c) as u16,
                y,
                width: pw,
                height: height as u16,
                full_width: pw,
                full_height: full,
            };
            self.lemma_columns_grow(pw, x_offset, g, end, grid, n, sr, row_index, y, c + 1, items.push(item), max_int(row_height, height));
        } else if height == 0 {
            self.lemma_columns_add_item(pw, x_offset, g, end, grid, n, sr, row_index, y, c + 1, items, row_height, t);
        } else {
            let item = ScrollItem {
                page_index: (g + c) as usize,
                slice_index: sr,
                slice_count: n,
                grid_height: grid,
                row_index: row_index as usize,
                x: self.column_x(pw, x_offset, c) as u16,
                y,
                width: pw,
                height: height as u16,
                full_width: pw,
                full_height: full,
            };
            self.lemma_columns_grow(pw, x_offset, g, end, grid, n, sr, row_index, y, c + 1, items.push(item), max_int(row_height, height));
        }
    }

    proof fn lemma_columns_grow(
        &self,
        pw: u16,
        x_offset: u16,
        g: int,
        end: int,
        grid: u16,
        n: u16,
        sr: u16,
        row_index: int,
        y: u32,
        c: int,
        items: Seq<ScrollItem>,
        row_height: int,
    )
        ensures
            self.place_columns(pw, x_offset, g, end, grid, n, sr, row_index, y, c, items, row_height).0.len()
                >= items.len(),
        decreases end - (g + c),
    {
        if !(c < 0 || g + c >= end) {
            let full = self.cells_of(pw, g + c) as u16;
            let height = grid_slice_span_spec(grid, n, sr, full).1;
            if height == 0 {
                self.lemma_columns_grow(pw, x_offset, g, end, grid, n, sr, row_index, y, c + 1, items, row_height);
            } else {
                let item = ScrollItem {
                    page_index: (g + c) as usize,
                    slice_index: sr,
                    slice_count: n,
                    grid_height: grid,
                    row_index: row_index as usize,
                    x: self.column_x(pw, x_offset, c) as u16,
                    y,
                    width: pw,
                    height: height as u16,
                    full_width: pw,
                    full_height: full,
                };
                self.lemma_columns_grow(pw, x_offset, g, end, grid, n, sr, row_index, y, c + 1, items.push(item), max_int(row_height, height));
            }
        }
    }
}

impl<'a> ScrollLayoutBuilder<'a> {
    proof fn lemma_slice_rows_show_pages(
        &self,
        pw: u16,
        x_offset: u16,
        limit: u16,
        g: int,
        end: int,
        grid: u16,
        n: u16,
        sr: int,
        items: Seq<ScrollItem>,
        rows: Seq<RowModel>,
        y: u32,
    )
        requires
            0 <= g < end <= self.page_count(),
            end == min_int(g + self.columns(), self.page_count()),
            g % self.columns() == 0,
            grid as int == self.grid_of(pw, g, end),
            n as int == slice_count_spec(grid, limit),
            0 <= sr,
            self.page_count() <= usize::MAX,
            items_show_pages(self, pw, limit, items),
            rows_nonempty(rows),
        ensures
            items_show_pages(self, pw, limit, self.place_slice_rows(pw, x_offset, g, end, grid, n, sr, items, rows, y).0),
            rows_nonempty(self.place_slice_rows(pw, x_offset, g, end, grid, n, sr, items, rows, y).1),
        decreases n - sr,
    {
        if !(sr < 0 || sr >= n) {
            self.lemma_columns_show_pages(pw, x_offset, limit, g, end, grid, n, sr as u16, rows.len() as int, y, 0, items, 1);
            let t = self.lemma_grid_attained(pw, g, end);
            self.lemma_grid_covers_group(pw, g, end, t);
            lemma_slice_count_le_grid(grid, limit);
            lemma_tallest_slice_nonempty(grid, n, sr as u16);
            assert(self.cells_of(pw, t) as u16 == grid);
            self.lemma_columns_add_item(pw, x_offset, g, end, grid, n, sr as u16, rows.len() as int, y, 0, items, 1, t);
            let (placed, row_height) = self.place_columns(
                pw,
                x_offset,
                g,
                end,
                grid,
                n,
                sr as u16,
                rows.len() as int,
                y,
                0,
                items,
                1,
            );
            let gap = if sr + 1 < n || end >= self.page_count() {
                0
            } else {
                self.config.gap_y as int
            };
            let row: RowModel = (
                row_height as u16,
                gap as u16,
                Seq::new((placed.len() - items.len()) as nat, |k: int| (items.len() + k) as usize),
            );
            let rows2 = rows.push(row);
            assert(rows_nonempty(rows2)) by {
                assert forall|r: int| 0 <= r < rows2.len() implies (#[trigger] rows2[r]).2.len() > 0 by {
                    if r < rows.len() {
                        assert(rows2[r] == rows[r]);
                    }
                }
            }
            let next_y = sat_add32(sat_add32(y as int, row_height), gap) as u32;
            self.lemma_slice_rows_show_pages(pw, x_offset, limit, g, end, grid, n, sr + 1, placed, rows2, next_y);
        }
    }

    proof fn lemma_groups_show_pages(
        &self,
        pw: u16,
        x_offset: u16,
        limit: u16,
        g: int,
        items: Seq<ScrollItem>,
        rows: Seq<RowModel>,
        y: u32,
    )
        requires
            0 <= g,
            g < self.page_count() ==> g % self.columns() == 0,
            self.page_count() <= usize::MAX,
            items_show_pages(self, pw, limit, items),
            rows_nonempty(rows),
        ensures
            items_show_pages(self, pw, limit, self.place_groups(pw, x_offset, limit, g, items, rows, y).0),
            rows_nonempty(self.place_groups(pw, x_offset, limit, g, items, rows, y).1),
        decreases self.page_count() - g,
    {
        if !(g < 0 || g >= self.page_count()) {
            let end = min_int(g + self.columns(), self.page_count());
            self.lemma_grid_covers_group(pw, g, end, g);
            let grid = self.grid_of(pw, g, end) as u16;
            lemma_slice_count_le_grid(grid, limit);
            let n = slice_count_spec(grid, limit) as u16;
            self.lemma_slice_rows_show_pages(pw, x_offset, limit, g, end, grid, n, 0, items, rows, y);
            let (items2, rows2, y2) = self.place_slice_rows(pw, x_offset, g, end, grid, n, 0, items, rows, y);
            if end < self.page_count() {
                assert(end == g + self.columns());
                assert((g + self.columns()) % self.columns() == 0) by (nonlinear_arith)
                    requires
                        g % self.columns() == 0,
                        self.columns() >= 1,
                ;
            }
            self.lemma_groups_show_pages(pw, x_offset, limit, end, items2, rows2, y2);
        }
    }
}

/// In a built scroll layout every row lists at least one item, and every
/// item shows its page on its row group's grid (see `item_shows_page`):
/// the group of page `p` is the pages `p / columns * columns` up to the
/// next multiple of `columns` (or the last page); its grid is the height
/// of its tallest page, cut into the slice count of that grid.
pub proof fn lemma_scroll_items_show_their_pages<'a>(builder: &ScrollLayoutBuilder<'a>, pw: u16)
    requires
        65536 * builder.page_count() <= usize::MAX,
    ensures
        items_show_pages(
            builder,
            pw,
            slice_height_limit_spec(builder.viewport_height, builder.config.scroll_divisor) as u16,
            builder.layout_model(pw).0,
        ),
        rows_nonempty(builder.layout_model(pw).1),
{
    let x_offset = centered_offset_spec(
        builder.viewport_width,
        builder.columns() as usize,
        pw,
        builder.config.gap_x,
    ) as u16;
    let limit = slice_height_limit_spec(builder.viewport_height, builder.config.scroll_divisor) as u16;
    assert(0int % builder.columns() == 0);
    builder.lemma_groups_show_pages(pw, x_offset, limit, 0, Seq::empty(), Seq::empty(), 0);
}

/// On a grid at least as tall as the page and with no more slices than
/// grid cells, the slices of the page that are at least one cell tall are
/// the first ones: a slice is when some later one is.
pub proof fn lemma_page_slices_are_a_prefix(grid: u16, n: u16, full: u16, a: u16, b: u16)
    requires
        1 <= n <= max_int(grid as int, 1),
        max_int(full as int, 1) <= max_int(grid as int, 1),
        a <= b < n,
        grid_slice_span_spec(grid, n, b, full).1 > 0,
    ensures
        grid_slice_span_spec(grid, n, a, full).1 > 0,
{
    let g = max_int(grid as int, 1);
    let f = max_int(full as int, 1);
    let nn = n as int;
    assert(g * (a as int) / nn <= g * (b as int) / nn) by (nonlinear_arith)
        requires
            g >= 1,
            nn >= 1,
            0 <= a <= b,
    ;
    assert(g * (a as int) / nn + 1 <= g * (a as int + 1) / nn) by (nonlinear_arith)
        requires
            g >= nn,
            nn >= 1,
            a >= 0,
    ;
    assert(g * (b as int) / nn < f);
}

/// A slice within a row on the grid is no taller than the slice of the
/// grid itself, and as tall when the page goes on below it.
proof fn lemma_span_within_row(grid: u16, n: u16, sr: u16, full: u16)
    requires
        1 <= grid,
        1 <= n <= grid,
        sr < n,
        max_int(full as int, 1) <= grid,
    ensures
        grid_slice_span_spec(grid, n, sr, full).1 <= grid_slice_span_spec(grid, n, sr, grid).1,
        sr + 1 < n && grid_slice_span_spec(grid, n, (sr + 1) as u16, full).1 > 0 ==> grid_slice_span_spec(
            grid,
            n,
            sr,
            full,
        ).1 == grid_slice_span_spec(grid, n, sr, grid).1,
{
    let g = grid as int;
    let nn = n as int;
    let a = sr as int;
    assert(g * a / nn <= g * (a + 1) / nn) by (nonlinear_arith)
        requires
            g >= 1,
            nn >= 1,
            a >= 0,
    ;
    assert(g * (a + 1) / nn <= g) by (nonlinear_arith)
        requires
            a + 1 <= nn,
            nn >= 1,
            g >= 1,
    ;
    if a + 1 < nn {
        assert(g * (a + 1) / nn <= g * (a + 2) / nn) by (nonlinear_arith)
            requires
                g >= 1,
                nn >= 1,
                a >= 0,
        ;
    }
}

/// A slice that is not the last of its page: a later slice of the page is
/// at least one cell tall.
pub open spec fn slice_continues(it: ScrollItem) -> bool {
    &&& it.slice_index + 1 < it.slice_count
    &&& grid_slice_span_spec(it.grid_height, it.slice_count, (it.slice_index + 1) as u16, it.full_height).1 > 0
}

/// A slice that its page goes on below fills its row (the row is as tall
/// as it) and its row has no gap after it, so the next row starts where
/// the slice ends.
pub open spec fn slices_fill_rows(items: Seq<ScrollItem>, rows: Seq<RowModel>) -> bool {
    forall|k: int|
        0 <= k < items.len() && slice_continues(#[trigger] items[k]) ==> {
            &&& 0 <= items[k].row_index < rows.len()
            &&& rows[items[k].row_index as int].0 == items[k].height
            &&& rows[items[k].row_index as int].1 == 0
        }
}

impl<'a> ScrollLayoutBuilder<'a> {
    proof fn lemma_item_within_grid(&self, pw: u16, limit: u16, it: ScrollItem)
        requires
            item_shows_page(self, pw, limit, it),
        ensures
            1 <= it.full_height <= it.grid_height,
    {
        let p = it.page_index as int;
        let c = self.columns();
        let g = (p / c) * c;
        let end = min_int(g + c, self.page_count());
        assert(g <= p < g + c) by (nonlinear_arith)
            requires
                c >= 1,
                p >= 0,
                g == (p / c) * c,
        ;
        assert(0 <= g) by (nonlinear_arith)
            requires
                c >= 1,
                p >= 0,
                g == (p / c) * c,
        ;
        self.lemma_grid_covers_group(pw, g, end, p);
    }

    proof fn lemma_slice_rows_fill(
        &self,
        pw: u16,
        x_offset: u16,
        limit: u16,
        g: int,
        end: int,
        grid: u16,
        n: u16,
        sr: int,
        items: Seq<ScrollItem>,
        rows: Seq<RowModel>,
        y: u32,
    )
        requires
            0 <= g < end <= self.page_count(),
            end == min_int(g + self.columns(), self.page_count()),
            g % self.columns() == 0,
            grid as int == self.grid_of(pw, g, end),
            n as int == slice_count_spec(grid, limit),
            0 <= sr,
            self.page_count() <= usize::MAX,
            rows.len() + (n - sr) <= usize::MAX,
            items_show_pages(self, pw, limit, items),
            slices_fill_rows(items, rows),
        ensures
            slices_fill_rows(
                self.place_slice_rows(pw, x_offset, g, end, grid, n, sr, items, rows, y).0,
                self.place_slice_rows(pw, x_offset, g, end, grid, n, sr, items, rows, y).1,
            ),
        decreases n - sr,
    {
        if !(sr < 0 || sr >= n) {
            let s16 = sr as u16;
            let ri = rows.len() as int;
            self.lemma_columns_append(pw, x_offset, g, end, grid, n, s16, ri, y, 0, items, 1);
            self.lemma_columns_place(pw, x_offset, g, end, grid, n, s16, ri, y, 0, items, 1);
            self.lemma_columns_show_pages(pw, x_offset, limit, g, end, grid, n, s16, ri, y, 0, items, 1);
            self.lemma_grid_covers_group(pw, g, end, g);
            lemma_slice_count_le_grid(grid, limit);
            lemma_tallest_slice_nonempty(grid, n, s16);
            let (placed, h) = self.place_columns(pw, x_offset, g, end, grid, n, s16, ri, y, 0, items, 1);
            let full_span = grid_slice_span_spec(grid, n, s16, grid).1;
            // Every new slice is at most a grid slice tall, so the row is too.
            assert forall|k: int| items.len() <= k < placed.len() implies (#[trigger] placed[k]).height <= full_span by {
                assert(item_shows_page(self, pw, limit, placed[k]));
                self.lemma_item_within_grid(pw, limit, placed[k]);
                lemma_span_within_row(grid, n, s16, placed[k].full_height);
            }
            assert(h <= full_span) by {
                if h != 1 {
                    let k = choose|k: int| items.len() <= k < placed.len() && (#[trigger] placed[k]).height == h;
                }
            }
            let gap = if sr + 1 < n || end >= self.page_count() {
                0
            } else {
                self.config.gap_y as int
            };
            let row: RowModel = (
                h as u16,
                gap as u16,
                Seq::new((placed.len() - items.len()) as nat, |k: int| (items.len() + k) as usize),
            );
            let rows2 = rows.push(row);
            assert(slices_fill_rows(placed, rows2)) by {
                assert forall|k: int| 0 <= k < placed.len() && slice_continues(#[trigger] placed[k]) implies {
                    &&& 0 <= placed[k].row_index < rows2.len()
                    &&& rows2[placed[k].row_index as int].0 == placed[k].height
                    &&& rows2[placed[k].row_index as int].1 == 0
                } by {
                    if k < items.len() {
                        assert(placed.take(items.len() as int)[k] == placed[k]);
                        assert(placed[k] == items[k]);
                        assert(rows2[items[k].row_index as int] == rows[items[k].row_index as int]);
                    } else {
                        let it = placed[k];
                        assert(item_shows_page(self, pw, limit, it));
                        self.lemma_item_within_grid(pw, limit, it);
                        lemma_span_within_row(grid, n, s16, it.full_height);
                        assert(it.row_index == ri);
                        assert(rows2[ri] == row);
                    }
                }
            }
            let next_y = sat_add32(sat_add32(y as int, h), gap) as u32;
            self.lemma_slice_rows_fill(pw, x_offset, limit, g, end, grid, n, sr + 1, placed, rows2, next_y);
        }
    }

    proof fn lemma_groups_fill(
        &self,
        pw: u16,
        x_offset: u16,
        limit: u16,
        g: int,
        items: Seq<ScrollItem>,
        rows: Seq<RowModel>,
        y: u32,
    )
        requires
            0 <= g,
            g < self.page_count() ==> g % self.columns() == 0,
            self.page_count() <= usize::MAX,
            rows.len() + 65536 * (self.page_count() - g) <= usize::MAX,
            items_show_pages(self, pw, limit, items),
            rows_nonempty(rows),
            slices_fill_rows(items, rows),
        ensures
            slices_fill_rows(
                self.place_groups(pw, x_offset, limit, g, items, rows, y).0,
                self.place_groups(pw, x_offset, limit, g, items, rows, y).1,
            ),
        decreases self.page_count() - g,
    {
        if !(g < 0 || g >= self.page_count()) {
            let end = min_int(g + self.columns(), self.page_count());
            self.lemma_grid_covers_group(pw, g, end, g);
            let grid = self.grid_of(pw, g, end) as u16;
            lemma_slice_count_le_grid(grid, limit);
            let n = slice_count_spec(grid, limit) as u16;
            self.lemma_slice_rows_fill(pw, x_offset, limit, g, end, grid, n, 0, items, rows, y);
            self.lemma_slice_rows_show_pages(pw, x_offset, limit, g, end, grid, n, 0, items, rows, y);
            lemma_slice_rows_count(self, pw, x_offset, g, end, grid, n, 0, items, rows, y);
            let (items2, rows2, y2) = self.place_slice_rows(pw, x_offset, g, end, grid, n, 0, items, rows, y);
            assert(65536 * (self.page_count() - g) == 65536 + 65536 * (self.page_count() - g - 1)) by (nonlinear_arith);
            assert(65536 * (self.page_count() - end) <= 65536 * (self.page_count() - g - 1)) by (nonlinear_arith)
                requires
                    end >= g + 1,
            ;
            if end < self.page_count() {
                assert(end == g + self.columns());
                assert((g + self.columns()) % self.columns() == 0) by (nonlinear_arith)
                    requires
                        g % self.columns() == 0,
                        self.columns() >= 1,
                ;
            }
            self.lemma_groups_fill(pw, x_offset, limit, end, items2, rows2, y2);
        }
    }
}

/// In a built scroll layout a slice that its page goes on below fills its
/// row, which has no gap after it: the next row starts where the slice
/// ends (its top plus its height, saturating at `u32::MAX`).
pub proof fn lemma_scroll_slices_fill_their_rows<'a>(builder: &ScrollLayoutBuilder<'a>, pw: u16)
    requires
        65536 * builder.page_count() <= usize::MAX,
    ensures
        slices_fill_rows(builder.layout_model(pw).0, builder.layout_model(pw).1),
        forall|k: int|
            0 <= k < builder.layout_model(pw).0.len() && slice_continues(#[trigger] builder.layout_model(pw).0[k])
                ==> rows_top(builder.layout_model(pw).1, builder.layout_model(pw).0[k].row_index + 1) == sat_add32(
                builder.layout_model(pw).0[k].y as int,
                builder.layout_model(pw).0[k].height as int,
            ),
{
    let x_offset = centered_offset_spec(
        builder.viewport_width,
        builder.columns() as usize,
        pw,
        builder.config.gap_x,
    ) as u16;
    let limit = slice_height_limit_spec(builder.viewport_height, builder.config.scroll_divisor) as u16;
    assert(0int % builder.columns() == 0);
    builder.lemma_groups_fill(pw, x_offset, limit, 0, Seq::empty(), Seq::empty(), 0);
    lemma_scroll_items_sit_in_their_rows(builder, pw);
    lemma_scroll_rows_list_items_in_order(builder, pw);
    let items = builder.layout_model(pw).0;
    let rows = builder.layout_model(pw).1;
    assert forall|k: int| 0 <= k < items.len() && slice_continues(#[trigger] items[k]) implies rows_top(
        rows,
        items[k].row_index + 1,
    ) == sat_add32(items[k].y as int, items[k].height as int) by {
        let r = items[k].row_index as int;
        lemma_item_listed_in_its_row(items, rows, k);
        let j = choose|j: int| 0 <= j < rows[r].2.len() && rows[r].2[j] == k as usize;
        assert(items[rows[r].2[j] as int].y == rows_top(rows, r));
    }
}

/// Each entry of the rows' lists stands in some row.
proof fn lemma_concat_entry_in_a_row(rows: Seq<RowModel>, k: int)
    requires
        0 <= k < rows_concat(rows).len(),
    ensures
        exists|r: int, j: int| 0 <= r < rows.len() && 0 <= j < rows[r].2.len() && rows[r].2[j] == rows_concat(rows)[k],
    decreases rows.len(),
{
    let prev = rows_concat(rows.drop_last());
    if k < prev.len() {
        lemma_concat_entry_in_a_row(rows.drop_last(), k);
        let (r, j) = choose|r: int, j: int|
            0 <= r < rows.drop_last().len() && 0 <= j < rows.drop_last()[r].2.len() && rows.drop_last()[r].2[j] == prev[k];
        assert(rows[r] == rows.drop_last()[r]);
        assert(rows_concat(rows)[k] == prev[k]);
    } else {
        let r = rows.len() - 1;
        let j = k - prev.len();
        assert(rows_concat(rows)[k] == rows.last().2[j]);
        assert(rows[r].2[j] == rows_concat(rows)[k]);
    }
}

/// Every item is listed by the row it names.
proof fn lemma_item_listed_in_its_row(items: Seq<ScrollItem>, rows: Seq<RowModel>, k: int)
    requires
        rows_list_items(items, rows),
        0 <= k < items.len() <= usize::MAX,
    ensures
        exists|j: int| 0 <= j < rows[items[k].row_index as int].2.len() && rows[items[k].row_index as int].2[j] == k as usize,
{
    assert(rows_concat(rows)[k] == k as usize);
    lemma_concat_entry_in_a_row(rows, k);
    let (r, j) = choose|r: int, j: int| 0 <= r < rows.len() && 0 <= j < rows[r].2.len() && rows[r].2[j] == rows_concat(rows)[k];
    assert(items[rows[r].2[j] as int].row_index == r);
}

/// Some item shows slice `sr` of page `p`.
pub open spec fn has_item(items: Seq<ScrollItem>, p: int, sr: int) -> bool {
    exists|k: int| 0 <= k < items.len() && items[k].page_index == p && items[k].slice_index == sr
}

/// The grid height of page `p`'s row group: its tallest page.
pub open spec fn group_grid<'a>(b: &ScrollLayoutBuilder<'a>, pw: u16, p: int) -> int {
    let g = (p / b.columns()) * b.columns();
    b.grid_of(pw, g, min_int(g + b.columns(), b.page_count()))
}

/// Every slice of at least one cell of the pages before `upto`, cut on
/// their row groups' grids, has an item.
pub open spec fn page_slices_listed<'a>(
    b: &ScrollLayoutBuilder<'a>,
    pw: u16,
    limit: u16,
    items: Seq<ScrollItem>,
    upto: int,
) -> bool {
    forall|p: int, sr: int|
        #![trigger has_item(items, p, sr)]
        0 <= p < upto && 0 <= sr < slice_count_spec(group_grid(b, pw, p) as u16, limit) && grid_slice_span_spec(
            group_grid(b, pw, p) as u16,
            slice_count_spec(group_grid(b, pw, p) as u16, limit) as u16,
            sr as u16,
            b.cells_of(pw, p) as u16,
        ).1 > 0 ==> has_item(items, p, sr)
}

proof fn lemma_has_item_kept(items: Seq<ScrollItem>, out: Seq<ScrollItem>, p: int, sr: int)
    requires
        items.len() <= out.len(),
        out.take(items.len() as int) == items,
        has_item(items, p, sr),
    ensures
        has_item(out, p, sr),
{
    let k = choose|k: int| 0 <= k < items.len() && items[k].page_index == p && items[k].slice_index == sr;
    assert(out.take(items.len() as int)[k] == out[k]);
}

impl<'a> ScrollLayoutBuilder<'a> {
    proof fn lemma_columns_cover(
        &self,
        pw: u16,
        x_offset: u16,
        g: int,
        end: int,
        grid: u16,
        n: u16,
        sr: u16,
        row_index: int,
        y: u32,
        c: int,
        items: Seq<ScrollItem>,
        row_height: int,
        t: int,
    )
        requires
            0 <= c,
            0 <= row_index <= usize::MAX,
            g + c <= t < end,
            0 <= g,
            end <= self.page_count() <= usize::MAX,
            grid_slice_span_spec(grid, n, sr, self.cells_of(pw, t) as u16).1 > 0,
        ensures
            has_item(self.place_columns(pw, x_offset, g, end, grid, n, sr, row_index, y, c, items, row_height).0, t, sr as int),
        decreases end - (g + c),
    {
        let full = self.cells_of(pw, g + c) as u16;
        let height = grid_slice_span_spec(grid, n, sr, full).1;
        if height == 0 {
            self.lemma_columns_cover(pw, x_offset, g, end, grid, n, sr, row_index, y, c + 1, items, row_height, t);
        } else {
            let item = ScrollItem {
                page_index: (g + c) as usize,
                slice_index: sr,
                slice_count: n,
                grid_height: grid,
                row_index: row_index as usize,
                x: self.column_x(pw, x_offset, c) as u16,
                y,
                width: pw,
                height: height as u16,
                full_width: pw,
                full_height: full,
            };
            let pushed = items.push(item);
            let rh = max_int(row_height, height);
            if g + c == t {
                self.lemma_columns_append(pw, x_offset, g, end, grid, n, sr, row_index, y, c + 1, pushed, rh);
                assert(pushed[items.len() as int] == item);
                assert(has_item(pushed, t, sr as int));
                lemma_has_item_kept(
                    pushed,
                    self.place_columns(pw, x_offset, g, end, grid, n, sr, row_index, y, c + 1, pushed, rh).0,
                    t,
                    sr as int,
                );
            } else {
                self.lemma_columns_cover(pw, x_offset, g, end, grid, n, sr, row_index, y, c + 1, pushed, rh, t);
            }
        }
    }

    proof fn lemma_slice_rows_cover(
        &self,
        pw: u16,
        x_offset: u16,
        limit: u16,
        g: int,
        end: int,
        grid: u16,
        n: u16,
        sr: int,
        items: Seq<ScrollItem>,
        rows: Seq<RowModel>,
        y: u32,
        before: Seq<ScrollItem>,
    )
        requires
            0 <= g < end <= self.page_count() <= usize::MAX,
            end == min_int(g + self.columns(), self.page_count()),
            g % self.columns() == 0,
            grid as int == self.grid_of(pw, g, end),
            n as int == slice_count_spec(grid, limit),
            0 <= sr,
            rows.len() + (n - sr) <= usize::MAX,
            before.len() <= items.len(),
            items.take(before.len() as int) == before,
            forall|p: int, s: int|
                #![trigger has_item(items, p, s)]
                g <= p < end && 0 <= s < sr && s < n && grid_slice_span_spec(grid, n, s as u16, self.cells_of(pw, p) as u16).1
                    > 0 ==> has_item(items, p, s),
        ensures
            ({
                let out = self.place_slice_rows(pw, x_offset, g, end, grid, n, sr, items, rows, y).0;
                &&& before.len() <= out.len()
                &&& out.take(before.len() as int) == before
                &&& forall|p: int, s: int|
                    #![trigger has_item(out, p, s)]
                    g <= p < end && 0 <= s < n && grid_slice_span_spec(grid, n, s as u16, self.cells_of(pw, p) as u16).1
                        > 0 ==> has_item(out, p, s)
            }),
        decreases n - sr,
    {
        if sr < 0 || sr >= n {
            let out = items;
            assert forall|p: int, s: int|
                #![trigger has_item(out, p, s)]
                g <= p < end && 0 <= s < n && grid_slice_span_spec(grid, n, s as u16, self.cells_of(pw, p) as u16).1 > 0
                    implies has_item(out, p, s) by {
                assert(has_item(items, p, s));
            }
        } else {
            let s16 = sr as u16;
            let ri = rows.len() as int;
            self.lemma_columns_append(pw, x_offset, g, end, grid, n, s16, ri, y, 0, items, 1);
            let (placed, h) = self.place_columns(pw, x_offset, g, end, grid, n, s16, ri, y, 0, items, 1);
            assert(placed.take(before.len() as int) =~= placed.take(items.len() as int).take(before.len() as int));
            assert forall|p: int, s: int|
                #![trigger has_item(placed, p, s)]
                g <= p < end && 0 <= s < sr + 1 && s < n && grid_slice_span_spec(grid, n, s as u16, self.cells_of(pw, p) as u16).1
                    > 0 implies has_item(placed, p, s) by {
                if s < sr {
                    assert(has_item(items, p, s));
                    lemma_has_item_kept(items, placed, p, s);
                } else {
                    self.lemma_columns_cover(pw, x_offset, g, end, grid, n, s16, ri, y, 0, items, 1, p);
                }
            }
            let gap = if sr + 1 < n || end >= self.page_count() {
                0
            } else {
                self.config.gap_y as int
            };
            let row: RowModel = (
                h as u16,
                gap as u16,
                Seq::new((placed.len() - items.len()) as nat, |k: int| (items.len() + k) as usize),
            );
            let next_y = sat_add32(sat_add32(y as int, h), gap) as u32;
            self.lemma_slice_rows_cover(pw, x_offset, limit, g, end, grid, n, sr + 1, placed, rows.push(row), next_y, before);
        }
    }

    proof fn lemma_groups_cover(
        &self,
        pw: u16,
        x_offset: u16,
        limit: u16,
        g: int,
        items: Seq<ScrollItem>,
        rows: Seq<RowModel>,
        y: u32,
    )
        requires
            0 <= g <= self.page_count() <= usize::MAX,
            g < self.page_count() ==> g % self.columns() == 0,
            rows.len() + 65536 * (self.page_count() - g) <= usize::MAX,
            page_slices_listed(self, pw, limit, items, g),
        ensures
            page_slices_listed(
                self,
                pw,
                limit,
                self.place_groups(pw, x_offset, limit, g, items, rows, y).0,
                self.page_count(),
            ),
        decreases self.page_count() - g,
    {
        if !(g < 0 || g >= self.page_count()) {
            let end = min_int(g + self.columns(), self.page_count());
            self.lemma_grid_covers_group(pw, g, end, g);
            let grid = self.grid_of(pw, g, end) as u16;
            lemma_slice_count_le_grid(grid, limit);
            let n = slice_count_spec(grid, limit) as u16;
            assert(items.take(items.len() as int) =~= items);
            self.lemma_slice_rows_cover(pw, x_offset, limit, g, end, grid, n, 0, items, rows, y, items);
            lemma_slice_rows_count(self, pw, x_offset, g, end, grid, n, 0, items, rows, y);
            let (items2, rows2, y2) = self.place_slice_rows(pw, x_offset, g, end, grid, n, 0, items, rows, y);
            assert(page_slices_listed(self, pw, limit, items2, end)) by {
                assert forall|p: int, sr: int|
                    #![trigger has_item(items2, p, sr)]
                    0 <= p < end && 0 <= sr < slice_count_spec(group_grid(self, pw, p) as u16, limit)
                        && grid_slice_span_spec(
                        group_grid(self, pw, p) as u16,
                        slice_count_spec(group_grid(self, pw, p) as u16, limit) as u16,
                        sr as u16,
                        self.cells_of(pw, p) as u16,
                    ).1 > 0 implies has_item(items2, p, sr) by {
                    if p < g {
                        assert(has_item(items, p, sr));
                        lemma_has_item_kept(items, items2, p, sr);
                    } else {
                        lemma_group_start(self.columns(), g, p);
                        assert(group_grid(self, pw, p) == grid as int);
                    }
                }
            }
            assert(65536 * (self.page_count() - g) == 65536 + 65536 * (self.page_count() - g - 1)) by (nonlinear_arith);
            assert(65536 * (self.page_count() - end) <= 65536 * (self.page_count() - g - 1)) by (nonlinear_arith)
                requires
                    end >= g + 1,
            ;
            if end < self.page_count() {
                assert(end == g + self.columns());
                assert((g + self.columns()) % self.columns() == 0) by (nonlinear_arith)
                    requires
                        g % self.columns() == 0,
                        self.columns() >= 1,
                ;
            }
            self.lemma_groups_cover(pw, x_offset, limit, end, items2, rows2, y2);
        }
    }
}

/// In a built scroll layout every slice of at least one cell of every
/// page, cut on its row group's grid, has an item; with
/// `lemma_scroll_items_show_their_pages` and
/// `lemma_page_slices_are_a_prefix`, a page's items are its slices
/// `0..k` for some `k >= 1`.
pub proof fn lemma_scroll_pages_are_fully_sliced<'a>(builder: &ScrollLayoutBuilder<'a>, pw: u16)
    requires
        65536 * builder.page_count() <= usize::MAX,
    ensures
        page_slices_listed(
            builder,
            pw,
            slice_height_limit_spec(builder.viewport_height, builder.config.scroll_divisor) as u16,
            builder.layout_model(pw).0,
            builder.page_count(),
        ),
{
    let x_offset = centered_offset_spec(
        builder.viewport_width,
        builder.columns() as usize,
        pw,
        builder.config.gap_x,
    ) as u16;
    let limit = slice_height_limit_spec(builder.viewport_height, builder.config.scroll_divisor) as u16;
    assert(0int % builder.columns() == 0);
    builder.lemma_groups_cover(pw, x_offset, limit, 0, Seq::empty(), Seq::empty(), 0);
}

/// `count` items of `item` cells with `gap` cells between them are
/// centred in `total` cells: when they fit, the free space left of them
/// (the offset) is the free space right of them, or one cell less; when
/// they do not fit, or there are none, they start at the left edge.
pub proof fn lemma_columns_are_centred(total: u16, count: usize, item: u16, gap: u16)
    requires
        count * item + (count - 1) * gap <= u16::MAX,
        count <= u16::MAX,
    ensures
        ({
            let o = centered_offset_spec(total, count, item, gap);
            let used = count * item + (count - 1) * gap;
            &&& count == 0 ==> o == 0
            &&& count > 0 && used <= total ==> o <= total - used - o <= o + 1
            &&& count > 0 && used > total ==> o == 0
        }),
{
    if count > 0 {
        let c = count as int;
        let it = item as int;
        let gp = gap as int;
        let a = c * it;
        let b = gp * (c - 1);
        assert(a >= 0 && b >= 0 && b == (c - 1) * gp) by (nonlinear_arith)
            requires
                c >= 1,
                it >= 0,
                gp >= 0,
                a == c * it,
                b == gp * (c - 1),
        ;
        assert((count as u16) as int == count);
        assert(((count - 1) as u16) as int == count - 1);
        assert(sat_mul16((count as u16) as int, item as int) == a);
        assert(sat_mul16(gap as int, ((count - 1) as u16) as int) == b);
    }
}

/// `count` slots with `gap` cells between them get the largest size that
/// fits in `total` cells: they fit, and one cell more each would not.
pub proof fn lemma_slots_get_the_largest_fitting_size(total: u16, count: usize, gap: u16)
    requires
        1 <= count <= u16::MAX,
        (count - 1) * gap <= total,
    ensures
        ({
            let size = fit_slot_spec(total, count, gap);
            let gaps = (count - 1) * gap;
            &&& count * size + gaps <= total
            &&& total < count * (size + 1) + gaps
        }),
{
    let c = count as int;
    let g = gap as int;
    let gaps = (c - 1) * g;
    assert(gaps == g * (c - 1)) by (nonlinear_arith)
        requires
            gaps == (c - 1) * g,
    ;
    assert(g * (c - 1) >= 0) by (nonlinear_arith)
        requires
            c >= 1,
            g >= 0,
    ;
    assert((count as u16) as int == c);
    assert(((count - 1) as u16) as int == c - 1);
    let free = total as int - gaps;
    let size = free / c;
    assert(c * size <= free < c * (size + 1)) by (nonlinear_arith)
        requires
            c >= 1,
            free >= 0,
            size == free / c,
    ;
}

proof fn lemma_placed_rows_prefix(layout: ScrollLayout, viewport: Rect, start: int, end: int, first_y: int, r: int)
    requires
        start < r,
    ensures
        placed_rows(layout, viewport, start, end, first_y, start + 1).len() <= placed_rows(
            layout,
            viewport,
            start,
            end,
            first_y,
            r,
        ).len(),
        forall|k: int|
            0 <= k < placed_rows(layout, viewport, start, end, first_y, start + 1).len() ==> placed_rows(
                layout,
                viewport,
                start,
                end,
                first_y,
                r,
            )[k] == #[trigger] placed_rows(layout, viewport, start, end, first_y, start + 1)[k],
    decreases r - start,
{
    if r > start + 1 {
        lemma_placed_rows_prefix(layout, viewport, start, end, first_y, r - 1);
    }
}

proof fn lemma_rows_height_nonneg(rows: Seq<ScrollRow>, start: int, i: int, end: int)
    ensures
        rows_height_raw(rows, start, i, end) >= 0,
    decreases i - start,
{
    if i > start {
        lemma_rows_height_nonneg(rows, start, i - 1, end);
    }
}

/// The visible rows are drawn as one block centred vertically in the
/// viewport: when they fit, the free space above the block (down to the top
/// of its first row) is the free space below it, or one row less.
pub proof fn lemma_visible_rows_are_centred(layout: ScrollLayout, start_row: int, viewport: Rect, scroll_divisor: u16)
    requires
        start_row >= 0,
        viewport.height > 0,
        viewport.y + viewport.height <= u16::MAX,
        row_item_seq(layout, visible_start(layout.rows@, start_row, viewport.height)).len() > 0,
    ensures
        ({
            let placed = placed_items_spec(layout, start_row, viewport, scroll_divisor);
            let start = visible_start(layout.rows@, start_row, viewport.height);
            let end = visible_end(layout.rows@, start_row, viewport.height, scroll_divisor);
            let used = rows_height_raw(layout.rows@, start, end, end);
            &&& placed.len() > 0
            &&& placed[0].item == row_item_seq(layout, start)[0]
            &&& used <= viewport.height ==> {
                let above = placed[0].area.y - viewport.y;
                let below = viewport.y + viewport.height - (placed[0].area.y + used);
                above <= below <= above + 1
            }
        }),
{
    let start = visible_start(layout.rows@, start_row, viewport.height);
    let end = visible_end(layout.rows@, start_row, viewport.height, scroll_divisor);
    let rows = layout.rows@;
    assert(rows.len() > 0) by {
        if rows.len() == 0 {
            assert(row_item_seq(layout, start) =~= Seq::<ScrollItem>::empty());
        }
    }
    lemma_visible_end_is_range(rows, start_row, viewport.height, scroll_divisor);
    lemma_rows_height_nonneg(rows, start, end, end);
    let used = min_int(rows_height_raw(rows, start, end, end), u16::MAX as int);
    let first_y = sat_add16(viewport.y as int, sat_sub(viewport.height as int, used) / 2);
    lemma_placed_rows_prefix(layout, viewport, start, end, first_y, end);
    let first = placed_rows(layout, viewport, start, end, first_y, start + 1);
    assert(placed_rows(layout, viewport, start, end, first_y, start) =~= Seq::<PlacedScrollItem>::empty());
    assert(first =~= place_row(viewport, row_item_seq(layout, start), first_y));
    assert(first_y <= viewport.y + viewport.height);
    assert(first[0].area.y == first_y);
}

} // verus!
