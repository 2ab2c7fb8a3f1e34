//! Moving through the document in the viewer: the focused page, the top
//! row of a scroll layout, and the first page of a grid window, and how the
//! navigation actions change them.

use vstd::prelude::*;

use crate::config::layout::{max1_spec, EffectiveLayoutConfig};
use crate::layout::{row_item_seq, visible_end, ScrollItem, ScrollLayout};

verus! {

/// Where the viewer stands.
#[derive(Debug, Clone, Copy, PartialEq, Eq)]
pub struct ViewerPosition {
    pub focused_page: usize,
    pub scroll: u32,
    pub grid_start_page: usize,
}

/// What navigation depends on: the page count, the layout, and (for a
/// scroll layout) the rows built for the viewport with its height.
#[derive(Debug, Clone, Copy)]
pub struct ViewerFrame<'a> {
    pub page_count: usize,
    pub layout: &'a EffectiveLayoutConfig,
    pub scroll_layout: Option<&'a ScrollLayout>,
    pub viewport_height: u16,
}

/// Index of the first item of page `page`, or -1.
pub open spec fn first_page_item(items: Seq<ScrollItem>, page: usize) -> int
    decreases items.len(),
{
    if items.len() == 0 {
        -1
    } else if items[0].page_index == page {
        0
    } else {
        let rest = first_page_item(items.drop_first(), page);
        if rest < 0 {
            -1
        } else {
            rest + 1
        }
    }
}

/// The first start row from which the last row is visible (0 when nothing
/// is shown), searched from `r` on.
pub open spec fn first_full_start(rows: Seq<crate::layout::ScrollRow>, vh: u16, div: u16, r: int) -> int
    decreases rows.len() - r,
{
    if r >= rows.len() - 1 || visible_end(rows, r, vh, div) == rows.len() {
        r
    } else {
        first_full_start(rows, vh, div, r + 1)
    }
}

/// The largest useful scroll row of a layout.
pub open spec fn max_scroll_row_spec(layout: ScrollLayout, vh: u16, div: u16) -> int {
    if layout.rows@.len() == 0 || vh == 0 {
        0
    } else {
        first_full_start(layout.rows@, vh, div, 0)
    }
}

/// The smallest page among `items`.
pub open spec fn min_page(items: Seq<ScrollItem>) -> Option<usize>
    decreases items.len(),
{
    if items.len() == 0 {
        None
    } else {
        match min_page(items.drop_last()) {
            Some(p) => Some(
                if p <= items.last().page_index {
                    p
                } else {
                    items.last().page_index
                },
            ),
            None => Some(items.last().page_index),
        }
    }
}

pub open spec fn is_scroll_frame(f: ViewerFrame) -> bool {
    f.layout.strategy@ == "scroll"@
}

/// The largest scroll row of the frame, as a `u32`.
pub open spec fn frame_max_scroll(f: ViewerFrame) -> u32 {
    match f.scroll_layout {
        Some(l) => max_scroll_row_spec(*l, f.viewport_height, f.layout.scroll_divisor) as u32,
        None => 0,
    }
}

/// `x + delta`, kept within `0..=max`.
pub open spec fn add_clamped(x: int, delta: int, max: int) -> int {
    if x + delta < 0 {
        0
    } else if x + delta > max {
        max
    } else {
        x + delta
    }
}

pub open spec fn min_of(a: int, b: int) -> int {
    if a <= b {
        a
    } else {
        b
    }
}

/// The focus follows the top row: the smallest page shown in it.
pub open spec fn focus_from_scroll(p: ViewerPosition, f: ViewerFrame) -> ViewerPosition {
    match f.scroll_layout {
        Some(l) => match min_page(row_item_seq(*l, p.scroll as int)) {
            Some(page) => ViewerPosition { focused_page: page, ..p },
            None => p,
        },
        None => p,
    }
}

/// The top row becomes the first row of the focused page.
pub open spec fn scroll_to_focus(p: ViewerPosition, f: ViewerFrame) -> ViewerPosition {
    match f.scroll_layout {
        Some(l) => {
            let i = first_page_item(l.items@, p.focused_page);
            if i >= 0 {
                ViewerPosition {
                    scroll: min_of(
                        (l.items@[i].row_index as u32) as int,
                        frame_max_scroll(f) as int,
                    ) as u32,
                    ..p
                }
            } else {
                p
            }
        },
        None => p,
    }
}

/// Moving the top row by `delta` rows.
pub open spec fn scrolled_by(p: ViewerPosition, f: ViewerFrame, delta: int) -> ViewerPosition {
    let s = min_of(add_clamped(p.scroll as int, delta, u32::MAX as int), frame_max_scroll(f) as int);
    focus_from_scroll(ViewerPosition { scroll: s as u32, ..p }, f)
}

/// The first page of the last full grid window.
pub open spec fn grid_max_start(f: ViewerFrame, capacity: int) -> int {
    let cap = if capacity >= 1 {
        capacity
    } else {
        1
    };
    if f.page_count >= cap {
        f.page_count - cap
    } else {
        0
    }
}

pub open spec fn grid_capacity_spec(f: ViewerFrame) -> int {
    max1_spec(f.layout.rows) * max1_spec(f.layout.columns)
}

/// Moving the grid window by `delta` pages; the focus goes to its first
/// page.
pub open spec fn shifted_grid(p: ViewerPosition, f: ViewerFrame, delta: int) -> ViewerPosition {
    if f.page_count == 0 {
        ViewerPosition { focused_page: 0, grid_start_page: 0, ..p }
    } else {
        let max_start = grid_max_start(f, grid_capacity_spec(f));
        let start = min_of(p.grid_start_page as int, max_start);
        let moved = min_of(add_clamped(start, delta, usize::MAX as int), max_start);
        ViewerPosition {
            focused_page: min_of(moved, f.page_count - 1) as usize,
            grid_start_page: moved as usize,
            ..p
        }
    }
}

/// Moving the focus by `delta` pages: in a grid the window moves; in a
/// scroll layout the focused page's first row goes to the top.
pub open spec fn focused_relative(p: ViewerPosition, f: ViewerFrame, delta: int) -> ViewerPosition {
    if f.page_count == 0 {
        ViewerPosition { focused_page: 0, grid_start_page: 0, ..p }
    } else if !is_scroll_frame(f) {
        shifted_grid(p, f, delta)
    } else {
        scroll_to_focus(
            ViewerPosition {
                focused_page: min_of(
                    add_clamped(p.focused_page as int, delta, usize::MAX as int),
                    f.page_count - 1,
                ) as usize,
                ..p
            },
            f,
        )
    }
}

/// Rows a grid moves per scroll step: its columns.
pub open spec fn grid_row_step(f: ViewerFrame) -> int {
    max1_spec(f.layout.columns) as int
}

/// Pages a grid moves per page step: its capacity (at most `isize::MAX`).
pub open spec fn grid_page_step(f: ViewerFrame) -> int {
    min_of(grid_capacity_spec(f), isize::MAX as int)
}

/// `grid_page_step` as an `isize`.
fn page_step(f: &ViewerFrame) -> (step: isize)
    ensures
        step as int == grid_page_step(*f),
        step >= 1,
{
    let capacity = f.layout.grid_capacity();
    proof {
        assert(max1_spec(f.layout.rows) >= 1 && max1_spec(f.layout.columns) >= 1);
        assert(capacity >= 1) by (nonlinear_arith)
            requires
                capacity == max1_spec(f.layout.rows) * max1_spec(f.layout.columns),
                max1_spec(f.layout.rows) >= 1,
                max1_spec(f.layout.columns) >= 1,
        ;
    }
    if capacity > isize::MAX as usize {
        isize::MAX
    } else {
        capacity as isize
    }
}

proof fn lemma_first_page_item(items: Seq<ScrollItem>, page: usize)
    ensures
        -1 <= first_page_item(items, page) < items.len(),
        first_page_item(items, page) >= 0 ==> items[first_page_item(items, page)].page_index == page,
        forall|j: int|
            0 <= j < items.len() && (first_page_item(items, page) < 0 || j < first_page_item(
                items,
                page,
            )) ==> #[trigger] items[j].page_index != page,
    decreases items.len(),
{
    if items.len() > 0 && items[0].page_index != page {
        lemma_first_page_item(items.drop_first(), page);
        assert forall|j: int|
            0 <= j < items.len() && (first_page_item(items, page) < 0 || j < first_page_item(
                items,
                page,
            )) implies #[trigger] items[j].page_index != page by {
            if j > 0 {
                assert(items[j] == items.drop_first()[j - 1]);
            }
        }
    }
}

proof fn lemma_first_full_start(rows: Seq<crate::layout::ScrollRow>, vh: u16, div: u16, r: int, row: int)
    requires
        0 <= r <= row < rows.len(),
        visible_end(rows, row, vh, div) == rows.len(),
        forall|q: int| 0 <= q < row ==> visible_end(rows, q, vh, div) < rows.len(),
    ensures
        first_full_start(rows, vh, div, r) == row,
    decreases rows.len() - r,
{
    if r < row {
        assert(visible_end(rows, r, vh, div) < rows.len());
        lemma_first_full_start(rows, vh, div, r + 1, row);
    }
}

/// `max_scroll_row` as the spec names it.
fn max_scroll(f: &ViewerFrame) -> (max: u32)
    ensures
        max == frame_max_scroll(*f),
{
    match f.scroll_layout {
        Some(l) => {
            let row = l.max_scroll_row(f.viewport_height, f.layout.scroll_divisor);
            proof {
                if !(l.rows@.len() == 0 || f.viewport_height == 0) {
                    lemma_first_full_start(l.rows@, f.viewport_height, f.layout.scroll_divisor, 0, row as int);
                }
            }
            row as u32
        },
        None => 0,
    }
}

/// The smallest page among `items`.
fn smallest_page(items: &Vec<ScrollItem>) -> (page: Option<usize>)
    ensures
        page == min_page(items@),
{
    let mut best: Option<usize> = None;
    let mut k: usize = 0;
    proof {
        assert(items@.take(0) =~= Seq::<ScrollItem>::empty());
    }
    while k < items.len()
        invariant
            k <= items@.len(),
            best == min_page(items@.take(k as int)),
        decreases items@.len() - k,
    {
        proof {
            assert(items@.take(k + 1).drop_last() =~= items@.take(k as int));
        }
        let p = items[k].page_index;
        best = match best {
            Some(b) => Some(if b <= p { b } else { p }),
            None => Some(p),
        };
        k += 1;
    }
    proof {
        assert(items@.take(k as int) =~= items@);
    }
    best
}

/// `x + delta` for a `u32`, saturating (`u32::saturating_add_signed`).
fn add_signed_u32(x: u32, delta: i64) -> (sum: u32)
    requires
        -(u32::MAX as int) <= delta <= u32::MAX,
    ensures
        sum == add_clamped(x as int, delta as int, u32::MAX as int),
{
    let wide = x as i64 + delta;
    if wide < 0 {
        0
    } else if wide > 4294967295 {
        4294967295
    } else {
        wide as u32
    }
}

/// `x + delta` for a `usize`, saturating (`usize::saturating_add_signed`).
fn add_signed_usize(x: usize, delta: isize) -> (sum: usize)
    ensures
        sum == add_clamped(x as int, delta as int, usize::MAX as int),
{
    if delta < 0 {
        let back = (0 - (delta + 1)) as usize + 1;
        if back > x {
            0
        } else {
            x - back
        }
    } else {
        let forward = delta as usize;
        if forward > usize::MAX - x {
            usize::MAX
        } else {
            x + forward
        }
    }
}

impl ViewerPosition {
    /// The first page, top row, first grid window.
    pub fn new() -> (p: Self)
        ensures
            p == (ViewerPosition { focused_page: 0, scroll: 0, grid_start_page: 0 }),
    {
        ViewerPosition { focused_page: 0, scroll: 0, grid_start_page: 0 }
    }

    /// The focus follows the top row (see `focus_from_scroll`).
    pub fn update_focus_from_scroll(&mut self, f: &ViewerFrame)
        ensures
            *final(self) == focus_from_scroll(*old(self), *f),
    {
        match f.scroll_layout {
            Some(l) => {
                let items = l.row_items(self.scroll as usize);
                match smallest_page(&items) {
                    Some(page) => {
                        self.focused_page = page;
                    },
                    None => {},
                }
            },
            None => {},
        }
    }

    /// The focused page's first row goes to the top (see
    /// `scroll_to_focus`).
    pub fn scroll_to_focused_page(&mut self, f: &ViewerFrame)
        ensures
            *final(self) == scroll_to_focus(*old(self), *f),
    {
        match f.scroll_layout {
            Some(l) => {
                let found = l.first_row_of_page(self.focused_page);
                proof {
                    lemma_first_page_item(l.items@, self.focused_page);
                }
                match found {
                    Some(row) => {
                        let max = max_scroll(f);
                        let top = row as u32;
                        self.scroll = if top <= max { top } else { max };
                        proof {
                            let i = first_page_item(l.items@, old(self).focused_page);
                            let w = choose|w: int|
                                0 <= w < l.items@.len() && l.items@[w].row_index == row
                                    && l.items@[w].page_index == old(self).focused_page && forall|j: int|
                                    0 <= j < w ==> #[trigger] l.items@[j].page_index
                                        != old(self).focused_page;
                            if i >= 0 && w != i {
                                if w < i {
                                    assert(l.items@[w].page_index != old(self).focused_page);
                                } else {
                                    assert(l.items@[i].page_index != old(self).focused_page);
                                }
                            }
                        }
                    },
                    None => {
                        proof {
                            let i = first_page_item(l.items@, old(self).focused_page);
                            if i >= 0 {
                                assert(l.items@[i].page_index != old(self).focused_page);
                            }
                        }
                    },
                }
            },
            None => {},
        }
    }

    /// Moves the top row by `delta` rows, within the layout (see
    /// `scrolled_by`).
    pub fn scroll_by_rows(&mut self, f: &ViewerFrame, delta: i32)
        ensures
            *final(self) == scrolled_by(*old(self), *f, delta as int),
    {
        let max = max_scroll(f);
        let moved = add_signed_u32(self.scroll, delta as i64);
        self.scroll = if moved <= max { moved } else { max };
        self.update_focus_from_scroll(f);
    }

    /// Moves the grid window by `delta` pages (see `shifted_grid`).
    pub fn shift_grid_window(&mut self, f: &ViewerFrame, delta: isize)
        ensures
            *final(self) == shifted_grid(*old(self), *f, delta as int),
    {
        if f.page_count == 0 {
            self.focused_page = 0;
            self.grid_start_page = 0;
            return;
        }
        let capacity = f.layout.grid_capacity();
        let cap = if capacity >= 1 { capacity } else { 1 };
        let max_start = if f.page_count >= cap { f.page_count - cap } else { 0 };
        let start = if self.grid_start_page <= max_start { self.grid_start_page } else { max_start };
        let moved = add_signed_usize(start, delta);
        let moved = if moved <= max_start { moved } else { max_start };
        self.grid_start_page = moved;
        self.focused_page = if moved <= f.page_count - 1 { moved } else { f.page_count - 1 };
    }

    /// Moves the focus by `delta` pages (see `focused_relative`).
    pub fn focus_relative(&mut self, f: &ViewerFrame, delta: isize)
        ensures
            *final(self) == focused_relative(*old(self), *f, delta as int),
    {
        if f.page_count == 0 {
            self.focused_page = 0;
            self.grid_start_page = 0;
            return;
        }
        if !f.layout.is_scroll() {
            self.shift_grid_window(f, delta);
            return;
        }
        let moved = add_signed_usize(self.focused_page, delta);
        self.focused_page = if moved <= f.page_count - 1 { moved } else { f.page_count - 1 };
        self.scroll_to_focused_page(f);
    }

    /// One row (scroll) or one grid row of pages further.
    pub fn scroll_down(&mut self, f: &ViewerFrame)
        ensures
            *final(self) == if is_scroll_frame(*f) {
                scrolled_by(*old(self), *f, 1)
            } else {
                shifted_grid(*old(self), *f, grid_row_step(*f))
            },
    {
        if f.layout.is_scroll() {
            self.scroll_by_rows(f, 1);
        } else {
            let step = if f.layout.columns >= 1 { f.layout.columns as isize } else { 1 };
            self.shift_grid_window(f, step);
        }
    }

    /// One row (scroll) or one grid row of pages back.
    pub fn scroll_up(&mut self, f: &ViewerFrame)
        ensures
            *final(self) == if is_scroll_frame(*f) {
                scrolled_by(*old(self), *f, -1)
            } else {
                shifted_grid(*old(self), *f, -grid_row_step(*f))
            },
    {
        if f.layout.is_scroll() {
            self.scroll_by_rows(f, -1);
        } else {
            let step = if f.layout.columns >= 1 { f.layout.columns as isize } else { 1 };
            self.shift_grid_window(f, -step);
        }
    }

    /// A viewport (scroll: `scroll_divisor` rows) or a grid window further.
    pub fn page_down(&mut self, f: &ViewerFrame)
        ensures
            *final(self) == if is_scroll_frame(*f) {
                scrolled_by(*old(self), *f, max1_spec(f.layout.scroll_divisor) as int)
            } else {
                shifted_grid(*old(self), *f, grid_page_step(*f))
            },
    {
        if f.layout.is_scroll() {
            let rows = if f.layout.scroll_divisor >= 1 { f.layout.scroll_divisor as i32 } else { 1 };
            self.scroll_by_rows(f, rows);
        } else {
            let step = page_step(f);
            self.shift_grid_window(f, step);
        }
    }

    /// A viewport (scroll: `scroll_divisor` rows) or a grid window back.
    pub fn page_up(&mut self, f: &ViewerFrame)
        ensures
            *final(self) == if is_scroll_frame(*f) {
                scrolled_by(*old(self), *f, -(max1_spec(f.layout.scroll_divisor) as int))
            } else {
                shifted_grid(*old(self), *f, -grid_page_step(*f))
            },
    {
        if f.layout.is_scroll() {
            let rows = if f.layout.scroll_divisor >= 1 { f.layout.scroll_divisor as i32 } else { 1 };
            self.scroll_by_rows(f, -rows);
        } else {
            let step = page_step(f);
            self.shift_grid_window(f, -step);
        }
    }

    /// The next page.
    pub fn next_page(&mut self, f: &ViewerFrame)
        ensures
            *final(self) == focused_relative(*old(self), *f, 1),
    {
        self.focus_relative(f, 1);
    }

    /// The previous page.
    pub fn previous_page(&mut self, f: &ViewerFrame)
        ensures
            *final(self) == focused_relative(*old(self), *f, -1),
    {
        self.focus_relative(f, -1);
    }

    /// The first page.
    pub fn home(&mut self)
        ensures
            *final(self) == (ViewerPosition { focused_page: 0, scroll: 0, grid_start_page: 0 }),
    {
        self.focused_page = 0;
        self.scroll = 0;
        self.grid_start_page = 0;
    }

    /// The last page: in a scroll layout its first row at the top, in a
    /// grid the last full window.
    pub fn end(&mut self, f: &ViewerFrame)
        ensures
            f.page_count == 0 ==> *final(self) == (ViewerPosition {
                focused_page: 0,
                scroll: 0,
                ..*old(self)
            }),
            f.page_count > 0 && is_scroll_frame(*f) ==> *final(self) == scroll_to_focus(
                ViewerPosition { focused_page: (f.page_count - 1) as usize, ..*old(self) },
                *f,
            ),
            f.page_count > 0 && !is_scroll_frame(*f) ==> *final(self) == (ViewerPosition {
                focused_page: (f.page_count - 1) as usize,
                grid_start_page: grid_max_start(*f, grid_capacity_spec(*f)) as usize,
                ..*old(self)
            }),
    {
        if f.page_count == 0 {
            self.focused_page = 0;
            self.scroll = 0;
            return;
        }
        self.focused_page = f.page_count - 1;
        if f.layout.is_scroll() {
            self.scroll_to_focused_page(f);
        } else {
            let capacity = f.layout.grid_capacity();
            let cap = if capacity >= 1 { capacity } else { 1 };
            self.grid_start_page = if f.page_count >= cap { f.page_count - cap } else { 0 };
        }
    }
}

/// The scroll layout (if any) shows only pages of the document.
pub open spec fn frame_consistent(f: ViewerFrame) -> bool {
    match f.scroll_layout {
        Some(l) => forall|i: int| 0 <= i < l.items@.len() ==> #[trigger] l.items@[i].page_index < f.page_count,
        None => true,
    }
}

/// A position the viewer can be in: the focus on a page of the document
/// (page 0 of an empty one), the grid window within the document, the top
/// row within the layout.
pub open spec fn position_valid(p: ViewerPosition, f: ViewerFrame) -> bool {
    &&& (f.page_count == 0 ==> p.focused_page == 0)
    &&& (f.page_count > 0 ==> p.focused_page < f.page_count)
    &&& p.grid_start_page <= grid_max_start(f, grid_capacity_spec(f))
    &&& p.scroll <= frame_max_scroll(f)
}

proof fn lemma_min_page_bound(items: Seq<ScrollItem>, bound: int)
    requires
        forall|k: int| 0 <= k < items.len() ==> #[trigger] items[k].page_index < bound,
    ensures
        min_page(items) matches Some(p) ==> p < bound,
    decreases items.len(),
{
    if items.len() > 0 {
        lemma_min_page_bound(items.drop_last(), bound);
        assert(items.last().page_index < bound);
    }
}

proof fn lemma_row_items_are_items(l: ScrollLayout, r: int, k: int)
    requires
        0 <= k < row_item_seq(l, r).len(),
    ensures
        exists|i: int| 0 <= i < l.items@.len() && #[trigger] l.items@[i] == row_item_seq(l, r)[k],
{
    let pred = |i: usize| i < l.items@.len();
    let kept = l.rows@[r].items@.filter(pred);
    assert(row_item_seq(l, r) == kept.map_values(|i: usize| l.items@[i as int]));
    l.rows@[r].items@.lemma_filter_pred(pred, k);
    assert(row_item_seq(l, r)[k] == l.items@[kept[k] as int]);
}

/// Every navigation step keeps a valid position valid.
pub proof fn lemma_navigation_keeps_position_valid(p: ViewerPosition, f: ViewerFrame, delta: int)
    requires
        frame_consistent(f),
        position_valid(p, f),
    ensures
        position_valid(focus_from_scroll(p, f), f),
        position_valid(scroll_to_focus(p, f), f),
        position_valid(scrolled_by(p, f, delta), f),
        position_valid(shifted_grid(p, f, delta), f),
        position_valid(focused_relative(p, f, delta), f),
        position_valid(ViewerPosition { focused_page: 0, scroll: 0, grid_start_page: 0 }, f),
{
    lemma_focus_from_scroll_valid(p, f);
    let s = min_of(add_clamped(p.scroll as int, delta, u32::MAX as int), frame_max_scroll(f) as int);
    let q = ViewerPosition { scroll: s as u32, ..p };
    lemma_focus_from_scroll_valid(q, f);
    if f.page_count > 0 && is_scroll_frame(f) {
        let moved = ViewerPosition {
            focused_page: min_of(
                add_clamped(p.focused_page as int, delta, usize::MAX as int),
                f.page_count - 1,
            ) as usize,
            ..p
        };
        assert(position_valid(moved, f));
    }
}

proof fn lemma_focus_from_scroll_valid(p: ViewerPosition, f: ViewerFrame)
    requires
        frame_consistent(f),
        position_valid(p, f),
    ensures
        position_valid(focus_from_scroll(p, f), f),
{
    match f.scroll_layout {
        Some(l) => {
            let items = row_item_seq(*l, p.scroll as int);
            assert forall|k: int| 0 <= k < items.len() implies #[trigger] items[k].page_index
                < f.page_count by {
                lemma_row_items_are_items(*l, p.scroll as int, k);
                let i = choose|i: int| 0 <= i < l.items@.len() && l.items@[i] == items[k];
                assert(l.items@[i].page_index < f.page_count);
            }
            lemma_min_page_bound(items, f.page_count as int);
        },
        None => {},
    }
}

/// In a scroll layout, the previous page after the next page is the page
/// one started on, unless that was the last page.
pub proof fn lemma_next_then_previous_page(p: ViewerPosition, f: ViewerFrame)
    requires
        is_scroll_frame(f),
        p.focused_page + 1 < f.page_count,
    ensures
        focused_relative(focused_relative(p, f, 1), f, -1).focused_page == p.focused_page,
        focused_relative(p, f, 1).focused_page == p.focused_page + 1,
{
}

/// In a grid, moving the window forward and back by the same number of
/// pages returns to the same window, when neither move hits an end.
pub proof fn lemma_grid_shift_round_trip(p: ViewerPosition, f: ViewerFrame, delta: int)
    requires
        f.page_count > 0,
        0 <= delta <= isize::MAX,
        p.grid_start_page + delta <= grid_max_start(f, grid_capacity_spec(f)),
    ensures
        shifted_grid(shifted_grid(p, f, delta), f, -delta).grid_start_page == p.grid_start_page,
        shifted_grid(p, f, delta).grid_start_page == p.grid_start_page + delta,
{
}

/// The smallest page among items: none for no items, else a page one of
/// them shows that no item's page is below.
pub proof fn lemma_min_page_is_least(items: Seq<ScrollItem>)
    ensures
        min_page(items) is None <==> items.len() == 0,
        min_page(items) matches Some(p) ==> (exists|k: int| 0 <= k < items.len() && #[trigger] items[k].page_index == p),
        min_page(items) matches Some(p) ==> forall|k: int| 0 <= k < items.len() ==> p <= #[trigger] items[k].page_index,
    decreases items.len(),
{
    if items.len() > 0 {
        let rest = items.drop_last();
        lemma_min_page_is_least(rest);
        let last = items.len() - 1;
        assert(items[last] == items.last());
        match min_page(rest) {
            Some(q) => {
                let k = choose|k: int| 0 <= k < rest.len() && #[trigger] rest[k].page_index == q;
                assert(items[k] == rest[k]);
                assert forall|j: int| 0 <= j < items.len() implies min_page(items)->0 <= #[trigger] items[j].page_index by {
                    if j < rest.len() {
                        assert(items[j] == rest[j]);
                    }
                }
            },
            None => {},
        }
    }
}

/// Scrolling by rows moves the focus to the top row: when the top row
/// shows any page, the focused page is one it shows and no page it shows
/// is smaller.
pub proof fn lemma_scroll_focuses_smallest_top_page(p: ViewerPosition, f: ViewerFrame, delta: int)
    ensures
        ({
            let q = scrolled_by(p, f, delta);
            match f.scroll_layout {
                Some(l) => row_item_seq(*l, q.scroll as int).len() > 0 ==> {
                &&& exists|k: int|
                    0 <= k < row_item_seq(*l, q.scroll as int).len() && #[trigger] row_item_seq(*l, q.scroll as int)[k].page_index
                        == q.focused_page
                &&& forall|k: int|
                    0 <= k < row_item_seq(*l, q.scroll as int).len() ==> q.focused_page <= #[trigger] row_item_seq(
                        *l,
                        q.scroll as int,
                    )[k].page_index
                },
                None => true,
            }
        }),
{
    let s = min_of(add_clamped(p.scroll as int, delta, u32::MAX as int), frame_max_scroll(f) as int);
    match f.scroll_layout {
        Some(l) => {
            lemma_min_page_is_least(row_item_seq(*l, (s as u32) as int));
        },
        None => {},
    }
}

/// Scrolling by `delta` rows moves the top row by `delta` rows, stopping at
/// the first row and at the last useful one, and leaves the grid window
/// alone.
pub proof fn lemma_scrolling_moves_by_rows(p: ViewerPosition, f: ViewerFrame, delta: int)
    ensures
        ({
            let q = scrolled_by(p, f, delta);
            let m = frame_max_scroll(f) as int;
            &&& q.scroll <= m
            &&& 0 <= p.scroll + delta <= m ==> q.scroll == p.scroll + delta
            &&& p.scroll + delta < 0 ==> q.scroll == 0
            &&& p.scroll + delta > m ==> q.scroll == m
            &&& q.grid_start_page == p.grid_start_page
        }),
{
}

/// Moving the focus by a page in a scroll layout focuses the next (or
/// previous) page, stopping at the last (or first); the top row then is
/// the focused page's first row when that row can be the top one.
pub proof fn lemma_page_steps_in_scroll_layouts(p: ViewerPosition, f: ViewerFrame, delta: int)
    requires
        is_scroll_frame(f),
        f.page_count > 0,
        p.focused_page < f.page_count,
        delta == 1 || delta == -1,
    ensures
        ({
            let q = focused_relative(p, f, delta);
            &&& delta == 1 ==> q.focused_page == if p.focused_page + 1 < f.page_count {
                p.focused_page + 1
            } else {
                p.focused_page as int
            }
            &&& delta == -1 ==> q.focused_page == if p.focused_page > 0 {
                p.focused_page - 1
            } else {
                0
            }
            &&& q.grid_start_page == p.grid_start_page
            &&& match f.scroll_layout {
                Some(l) => {
                    let i = first_page_item(l.items@, q.focused_page);
                    i >= 0 ==> {
                        let row = l.items@[i].row_index as int;
                        &&& l.items@[i].page_index == q.focused_page
                        &&& forall|j: int| 0 <= j < i ==> #[trigger] l.items@[j].page_index != q.focused_page
                        &&& row <= frame_max_scroll(f) ==> q.scroll == row
                        &&& frame_max_scroll(f) < row <= u32::MAX ==> q.scroll == frame_max_scroll(f)
                    }
                },
                None => true,
            }
        }),
{
    let q = focused_relative(p, f, delta);
    match f.scroll_layout {
        Some(l) => {
            lemma_first_page_item(l.items@, q.focused_page);
        },
        None => {},
    }
}

/// Moving a grid by `delta` pages moves its window by `delta` pages,
/// stopping at the first window and at the last full one, and focuses the
/// window's first page.
pub proof fn lemma_grid_moves_by_pages(p: ViewerPosition, f: ViewerFrame, delta: int)
    requires
        f.page_count > 0,
        p.grid_start_page <= grid_max_start(f, grid_capacity_spec(f)),
    ensures
        ({
            let q = shifted_grid(p, f, delta);
            let m = grid_max_start(f, grid_capacity_spec(f));
            &&& q.grid_start_page <= m
            &&& 0 <= p.grid_start_page + delta <= m ==> q.grid_start_page == p.grid_start_page + delta
            &&& p.grid_start_page + delta < 0 ==> q.grid_start_page == 0
            &&& p.grid_start_page + delta > m ==> q.grid_start_page == m
            &&& q.focused_page == q.grid_start_page
            &&& q.scroll == p.scroll
        }),
{
}

} // verus!
