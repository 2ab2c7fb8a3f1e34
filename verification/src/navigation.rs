//! Grid browsing: the first pages a fixed page grid can start at, and the
//! start that shows a page closest to the middle of the grid.

use vstd::prelude::*;

use crate::geometry::Rect;

verus! {

/// Number of row steps of `step` pages that start strictly before
/// `max_start`.
pub open spec fn steps_before(max_start: int, step: int) -> int {
    (max_start + step - 1) / step
}

/// The grid start pages reachable by browsing row by row: `0, step,
/// 2 * step, ...` below the last possible start, then that last start
/// (`page_count - capacity`, or 0 when the grid holds every page).
pub open spec fn reachable_grid_starts_spec(page_count: int, capacity: int, row_step: int) -> Seq<int> {
    if page_count == 0 {
        seq![0]
    } else {
        let cap = if capacity < 1 { 1 } else { capacity };
        let step = if row_step < 1 { 1 } else { row_step };
        let max_start = if page_count >= cap { page_count - cap } else { 0 };
        let n = steps_before(max_start, step);
        Seq::new((n + 1) as nat, |i: int| if i < n { i * step } else { max_start })
    }
}

pub fn reachable_grid_starts(page_count: usize, capacity: usize, row_step: usize) -> (starts: Vec<usize>)
    ensures
        starts@.len() == reachable_grid_starts_spec(page_count as int, capacity as int, row_step as int).len(),
        forall|i: int|
            0 <= i < starts@.len() ==> #[trigger] starts@[i] as int == reachable_grid_starts_spec(
                page_count as int,
                capacity as int,
                row_step as int,
            )[i],
{
    if page_count == 0 {
        let mut starts: Vec<usize> = Vec::new();
        starts.push(0);
        return starts;
    }
    let capacity = if capacity == 0 {
        1
    } else {
        capacity
    };
    let row_step = if row_step == 0 {
        1
    } else {
        row_step
    };
    let max_start = page_count.saturating_sub(capacity);
    let ghost n = steps_before(max_start as int, row_step as int);
    let ghost target = reachable_grid_starts_spec(page_count as int, capacity as int, row_step as int);
    let mut starts: Vec<usize> = Vec::new();
    let mut start: usize = 0;
    proof {
        assert((0 < n) == (0 < max_start)) by (nonlinear_arith)
            requires
                row_step >= 1,
                n == (max_start as int + row_step as int - 1) / (row_step as int),
                max_start >= 0,
        ;
    }
    loop
        invariant_except_break
            starts@.len() <= n,
            start as int == if starts@.len() * row_step > usize::MAX { usize::MAX as int } else { starts@.len() * row_step },
            (starts@.len() < n) == (start < max_start),
            starts@.len() > 0 ==> starts@[starts@.len() - 1] < max_start,
            starts@.len() > 0 ==> starts@[starts@.len() - 1] < start,
        invariant
            row_step >= 1,
            n == steps_before(max_start as int, row_step as int),
            target == Seq::new((n + 1) as nat, |i: int| if i < n { i * row_step } else { max_start as int }),
            forall|i: int| 0 <= i < starts@.len() ==> #[trigger] starts@[i] as int == target[i],
        ensures
            starts@.len() == n + 1,
            forall|i: int| 0 <= i < starts@.len() ==> #[trigger] starts@[i] as int == target[i],
        decreases n + 1 - starts@.len(),
    {
        let ghost k = starts@.len() as int;
        let clamped = if start < max_start {
            start
        } else {
            max_start
        };
        let last_is_clamped = starts.len() > 0 && starts[starts.len() - 1] == clamped;
        if !last_is_clamped {
            starts.push(clamped);
        }
        if clamped == max_start {
            break;
        }
        proof {
            assert((k + 1) * row_step == k * row_step + row_step) by (nonlinear_arith);
            assert((k + 1 < n) == ((k + 1) * row_step < max_start)) by (nonlinear_arith)
                requires
                    row_step >= 1,
                    n == (max_start as int + row_step as int - 1) / (row_step as int),
                    k + 1 >= 0,
            ;
        }
        start = start.saturating_add(row_step);
    }
    starts
}


/// The viewport and grid slots as plain values.
pub open spec fn view_model(view: Option<(Rect, Vec<Rect>)>) -> Option<(Rect, Seq<Rect>)> {
    match view {
        Some((a, v)) => Some((a, v@)),
        None => None,
    }
}

/// Four times the squared distance from the middle of the viewport to the
/// middle of grid slot `slot`, when the grid is drawn; else four times the
/// squared distance, in slots, from the middle slot of a `rows` x `step`
/// grid. `None` when the drawn grid has no such slot.
pub open spec fn slot_distance(slot: int, view: Option<(Rect, Seq<Rect>)>, rows: u16, step: int) -> Option<int> {
    match view {
        Some((area, slots)) => if 0 <= slot < slots.len() {
            let r = slots[slot];
            let dx = 2 * r.x + r.width - 2 * area.x - area.width;
            let dy = 2 * r.y + r.height - 2 * area.y - area.height;
            Some(dx * dx + dy * dy)
        } else {
            None
        },
        None => {
            let rs = if rows < 1 { 1 } else { rows as int };
            let row = slot / step;
            let col = slot % step;
            let dr = 2 * row - (rs - 1);
            let dc = 2 * col - (step - 1);
            Some(dr * dr + dc * dc)
        },
    }
}

/// The best start among the first `k` candidates, with its distance: the
/// first candidate showing `page` at the smallest distance.
pub open spec fn best_start_scan(
    starts: Seq<int>,
    page: int,
    capacity: int,
    view: Option<(Rect, Seq<Rect>)>,
    rows: u16,
    step: int,
    k: int,
) -> (Option<int>, Option<int>)
    decreases k,
{
    if k <= 0 {
        (None, None)
    } else {
        let prev = best_start_scan(starts, page, capacity, view, rows, step, k - 1);
        let c = starts[k - 1];
        if c <= page < c + capacity {
            match slot_distance(page - c, view, rows, step) {
                Some(d) => if prev.1 is None || d < prev.1->0 {
                    (Some(c), Some(d))
                } else {
                    prev
                },
                None => prev,
            }
        } else {
            prev
        }
    }
}

/// The grid start a search match on `page` jumps to: among the starts
/// reachable by browsing, the first that shows the page nearest the middle
/// of the grid; `None` when the page is not in the document.
pub open spec fn best_grid_start_spec(
    page_count: int,
    page: int,
    capacity: int,
    row_step: int,
    rows: u16,
    view: Option<(Rect, Seq<Rect>)>,
) -> Option<int> {
    if page_count == 0 || page >= page_count {
        None
    } else {
        let cap = if capacity < 1 { 1 } else { capacity };
        let step = if row_step < 1 { 1 } else { row_step };
        let starts = reachable_grid_starts_spec(page_count, capacity, row_step);
        best_start_scan(starts, page, cap, view, rows, step, starts.len() as int).0
    }
}

fn slot_distance_exec(slot: usize, view: &Option<(Rect, Vec<Rect>)>, rows: u16, step: usize) -> (distance: Option<u64>)
    requires
        step >= 1,
        slot < 65536 * step,
        step <= 65535,
    ensures
        match distance {
            Some(d) => slot_distance(
                slot as int,
                view_model(*view),
                rows,
                step as int,
            ) == Some(d as int),
            None => slot_distance(
                slot as int,
                view_model(*view),
                rows,
                step as int,
            ) is None,
        },
{
    match view {
        Some((area, slots)) => {
            if slot >= slots.len() {
                return None;
            }
            let r = slots[slot];
            let dx: i64 = 2 * (r.x as i64) + (r.width as i64) - 2 * (area.x as i64) - (area.width as i64);
            let dy: i64 = 2 * (r.y as i64) + (r.height as i64) - 2 * (area.y as i64) - (area.height as i64);
            assert(dx * dx <= 200000 * 200000) by (nonlinear_arith)
                requires
                    -200000 <= dx <= 200000,
            ;
            assert(dy * dy <= 200000 * 200000) by (nonlinear_arith)
                requires
                    -200000 <= dy <= 200000,
            ;
            assert(dx * dx >= 0) by (nonlinear_arith);
            assert(dy * dy >= 0) by (nonlinear_arith);
            Some((dx * dx + dy * dy) as u64)
        },
        None => {
            let rs: i64 = if rows < 1 { 1 } else { rows as i64 };
            let row = (slot / step) as i64;
            let col = (slot % step) as i64;
            assert(slot / step < 65536) by (nonlinear_arith)
                requires
                    slot < 65536 * step,
                    step >= 1,
            ;
            let dr: i64 = 2 * row - (rs - 1);
            let dc: i64 = 2 * col - (step as i64 - 1);
            assert(dr * dr <= 200000 * 200000) by (nonlinear_arith)
                requires
                    -200000 <= dr <= 200000,
            ;
            assert(dc * dc <= 200000 * 200000) by (nonlinear_arith)
                requires
                    -200000 <= dc <= 200000,
            ;
            assert(dr * dr >= 0) by (nonlinear_arith);
            assert(dc * dc >= 0) by (nonlinear_arith);
            Some((dr * dr + dc * dc) as u64)
        },
    }
}

/// The grid start a search match on page `page_index` jumps to (see
/// `best_grid_start_spec`). `view` is the viewport with the slots of the
/// drawn grid, when it is drawn.
pub fn best_grid_start_for_match(
    page_count: usize,
    page_index: usize,
    capacity: usize,
    row_step: usize,
    rows: u16,
    view: Option<(Rect, Vec<Rect>)>,
) -> (start: Option<usize>)
    requires
        row_step <= 65535,
        capacity <= 65535 * (if row_step == 0 { 1 } else { row_step as int }),
    ensures
        match start {
            Some(s) => best_grid_start_spec(
                page_count as int,
                page_index as int,
                capacity as int,
                row_step as int,
                rows,
                view_model(view),
            ) == Some(s as int),
            None => best_grid_start_spec(
                page_count as int,
                page_index as int,
                capacity as int,
                row_step as int,
                rows,
                view_model(view),
            ) is None,
        },
{
    if page_count == 0 || page_index >= page_count {
        return None;
    }
    let cap: usize = if capacity < 1 { 1 } else { capacity };
    let step: usize = if row_step < 1 { 1 } else { row_step };
    let starts = reachable_grid_starts(page_count, capacity, row_step);
    let ghost sv = reachable_grid_starts_spec(page_count as int, capacity as int, row_step as int);
    let ghost vv = view_model(view);
    let mut best: Option<usize> = None;
    let mut best_distance: Option<u64> = None;
    let mut k: usize = 0;
    while k < starts.len()
        invariant
            k <= starts@.len() == sv.len(),
            forall|i: int| 0 <= i < starts@.len() ==> #[trigger] starts@[i] as int == sv[i],
            cap >= 1,
            step >= 1,
            step <= 65535,
            cap <= 65536 * step,
            vv == view_model(view),
            ({
                let st = best_start_scan(sv, page_index as int, cap as int, vv, rows, step as int, k as int);
                &&& match best {
                    Some(b) => st.0 == Some(b as int),
                    None => st.0 is None,
                }
                &&& match best_distance {
                    Some(d) => st.1 == Some(d as int),
                    None => st.1 is None,
                }
            }),
        decreases starts@.len() - k,
    {
        let c = starts[k];
        if c <= page_index && page_index - c < cap {
            match slot_distance_exec(page_index - c, &view, rows, step) {
                Some(d) => {
                    let better = match best_distance {
                        None => true,
                        Some(b) => d < b,
                    };
                    if better {
                        best = Some(c);
                        best_distance = Some(d);
                    }
                },
                None => {},
            }
        }
        k += 1;
    }
    best
}


proof fn lemma_scan_shows_page(
    starts: Seq<int>,
    page: int,
    capacity: int,
    view: Option<(Rect, Seq<Rect>)>,
    rows: u16,
    step: int,
    k: int,
)
    requires
        k <= starts.len(),
    ensures
        match best_start_scan(starts, page, capacity, view, rows, step, k).0 {
            Some(c) => c <= page < c + capacity && exists|j: int| 0 <= j < k && starts[j] == c,
            None => true,
        },
    decreases k,
{
    if k > 0 {
        lemma_scan_shows_page(starts, page, capacity, view, rows, step, k - 1);
        let c = starts[k - 1];
        let r = best_start_scan(starts, page, capacity, view, rows, step, k);
        if r.0 == Some(c) && c <= page < c + capacity {
            assert(starts[k - 1] == c);
        }
    }
}

/// A search match jumps to a start the grid can be browsed to, and the
/// grid there shows the matched page.
pub proof fn lemma_best_start_shows_page(
    page_count: int,
    page: int,
    capacity: int,
    row_step: int,
    rows: u16,
    view: Option<(Rect, Seq<Rect>)>,
)
    ensures
        match best_grid_start_spec(page_count, page, capacity, row_step, rows, view) {
            Some(s) => {
                let cap = if capacity < 1 { 1 } else { capacity };
                &&& s <= page < s + cap
                &&& reachable_grid_starts_spec(page_count, capacity, row_step).contains(s)
            },
            None => true,
        },
{
    if !(page_count == 0 || page >= page_count) {
        let cap = if capacity < 1 { 1 } else { capacity };
        let step = if row_step < 1 { 1 } else { row_step };
        let starts = reachable_grid_starts_spec(page_count, capacity, row_step);
        lemma_scan_shows_page(starts, page, cap, view, rows, step, starts.len() as int);
    }
}

/// How far `v` lies from `centre`, doubled coordinates.
pub open spec fn off_centre(v: int, centre: int) -> int {
    if v >= centre {
        v - centre
    } else {
        centre - v
    }
}

/// Before the grid is drawn, a slot is nearer the middle of a `rows` x
/// `step` grid the nearer its row and column are to the middle row and
/// column: of two slots in one column, the one whose row is nearer the
/// middle row is strictly nearer; of two slots in one row, the one whose
/// column is nearer the middle column is strictly nearer; and every slot has
/// a distance, which is never negative.
pub proof fn lemma_undrawn_slots_prefer_the_middle(rows: u16, step: int, a: int, b: int)
    requires
        step >= 1,
        0 <= a,
        0 <= b,
    ensures
        slot_distance(a, None, rows, step) is Some,
        slot_distance(a, None, rows, step)->0 >= 0,
        a % step == b % step && off_centre(2 * (a / step), (if rows < 1 { 1 } else { rows as int }) - 1)
            < off_centre(2 * (b / step), (if rows < 1 { 1 } else { rows as int }) - 1) ==> slot_distance(
            a,
            None,
            rows,
            step,
        )->0 < slot_distance(b, None, rows, step)->0,
        a / step == b / step && off_centre(2 * (a % step), step - 1) < off_centre(2 * (b % step), step - 1)
            ==> slot_distance(a, None, rows, step)->0 < slot_distance(b, None, rows, step)->0,
{
    let rs = if rows < 1 { 1 } else { rows as int };
    let ra = 2 * (a / step) - (rs - 1);
    let rb = 2 * (b / step) - (rs - 1);
    let ca = 2 * (a % step) - (step - 1);
    let cb = 2 * (b % step) - (step - 1);
    assert(ra * ra >= 0 && ca * ca >= 0) by (nonlinear_arith);
    if off_centre(2 * (a / step), rs - 1) < off_centre(2 * (b / step), rs - 1) {
        assert(ra * ra < rb * rb) by (nonlinear_arith)
            requires
                (if ra >= 0 { ra } else { -ra }) < (if rb >= 0 { rb } else { -rb }),
        ;
    }
    if off_centre(2 * (a % step), step - 1) < off_centre(2 * (b % step), step - 1) {
        assert(ca * ca < cb * cb) by (nonlinear_arith)
            requires
                (if ca >= 0 { ca } else { -ca }) < (if cb >= 0 { cb } else { -cb }),
        ;
    }
}

proof fn lemma_scan_is_nearest(
    starts: Seq<int>,
    page: int,
    capacity: int,
    view: Option<(Rect, Seq<Rect>)>,
    rows: u16,
    step: int,
    k: int,
)
    requires
        0 <= k <= starts.len(),
    ensures
        ({
            let r = best_start_scan(starts, page, capacity, view, rows, step, k);
            &&& r.0 is Some <==> r.1 is Some
            &&& r.0 matches Some(s) ==> slot_distance(page - s, view, rows, step) == r.1
            &&& forall|i: int|
                0 <= i < k && starts[i] <= page < starts[i] + capacity && #[trigger] slot_distance(
                    page - starts[i],
                    view,
                    rows,
                    step,
                ) is Some ==> r.1 is Some && r.1->0 <= slot_distance(page - starts[i], view, rows, step)->0
        }),
    decreases k,
{
    if k > 0 {
        lemma_scan_is_nearest(starts, page, capacity, view, rows, step, k - 1);
    }
}

/// A search match jumps to the reachable grid start that shows the matched
/// page nearest the middle of the grid: no reachable start that shows the
/// page puts it nearer.
pub proof fn lemma_best_start_is_nearest_the_middle(
    page_count: int,
    page: int,
    capacity: int,
    row_step: int,
    rows: u16,
    view: Option<(Rect, Seq<Rect>)>,
)
    ensures
        ({
            let cap = if capacity < 1 { 1 } else { capacity };
            let step = if row_step < 1 { 1 } else { row_step };
            let starts = reachable_grid_starts_spec(page_count, capacity, row_step);
            match best_grid_start_spec(page_count, page, capacity, row_step, rows, view) {
                Some(s) => forall|c: int|
                    starts.contains(c) && c <= page < c + cap && #[trigger] slot_distance(page - c, view, rows, step) is Some
                        ==> slot_distance(page - s, view, rows, step)->0 <= slot_distance(page - c, view, rows, step)->0,
                None => true,
            }
        }),
{
    if !(page_count == 0 || page >= page_count) {
        let cap = if capacity < 1 { 1 } else { capacity };
        let step = if row_step < 1 { 1 } else { row_step };
        let starts = reachable_grid_starts_spec(page_count, capacity, row_step);
        lemma_scan_is_nearest(starts, page, cap, view, rows, step, starts.len() as int);
        assert forall|c: int|
            starts.contains(c) && c <= page < c + cap && #[trigger] slot_distance(page - c, view, rows, step) is Some
                implies slot_distance(page - best_grid_start_spec(page_count, page, capacity, row_step, rows, view)->0, view, rows, step)->0
                <= slot_distance(page - c, view, rows, step)->0 by {
            let i = choose|i: int| 0 <= i < starts.len() && starts[i] == c;
            assert(slot_distance(page - starts[i], view, rows, step) is Some);
        }
    }
}

/// On a drawn grid, a slot is nearer the middle of the viewport the nearer
/// its middle is to the viewport's middle: of two slots one above the other
/// (same left edge and width), the one whose middle row is nearer is
/// strictly nearer; of two side by side (same top edge and height), the one
/// whose middle column is nearer is strictly nearer.
pub proof fn lemma_drawn_slots_prefer_the_middle(area: Rect, slots: Seq<Rect>, rows: u16, step: int, a: int, b: int)
    requires
        0 <= a < slots.len(),
        0 <= b < slots.len(),
    ensures
        ({
            let view = Some((area, slots));
            let ra = slots[a];
            let rb = slots[b];
            let cy = 2 * area.y + area.height;
            let cx = 2 * area.x + area.width;
            &&& slot_distance(a, view, rows, step) is Some
            &&& ra.x == rb.x && ra.width == rb.width && off_centre(2 * ra.y + ra.height, cy) < off_centre(
                2 * rb.y + rb.height,
                cy,
            ) ==> slot_distance(a, view, rows, step)->0 < slot_distance(b, view, rows, step)->0
            &&& ra.y == rb.y && ra.height == rb.height && off_centre(2 * ra.x + ra.width, cx) < off_centre(
                2 * rb.x + rb.width,
                cx,
            ) ==> slot_distance(a, view, rows, step)->0 < slot_distance(b, view, rows, step)->0
        }),
{
    let ra = slots[a];
    let rb = slots[b];
    let dxa = 2 * ra.x + ra.width - 2 * area.x - area.width;
    let dya = 2 * ra.y + ra.height - 2 * area.y - area.height;
    let dxb = 2 * rb.x + rb.width - 2 * area.x - area.width;
    let dyb = 2 * rb.y + rb.height - 2 * area.y - area.height;
    if ra.x == rb.x && ra.width == rb.width && off_centre(2 * ra.y + ra.height, 2 * area.y + area.height)
        < off_centre(2 * rb.y + rb.height, 2 * area.y + area.height) {
        assert(dya * dya < dyb * dyb) by (nonlinear_arith)
            requires
                (if dya >= 0 { dya } else { -dya }) < (if dyb >= 0 { dyb } else { -dyb }),
        ;
    }
    if ra.y == rb.y && ra.height == rb.height && off_centre(2 * ra.x + ra.width, 2 * area.x + area.width)
        < off_centre(2 * rb.x + rb.width, 2 * area.x + area.width) {
        assert(dxa * dxa < dxb * dxb) by (nonlinear_arith)
            requires
                (if dxa >= 0 { dxa } else { -dxa }) < (if dxb >= 0 { dxb } else { -dxb }),
        ;
    }
}

} // verus!
