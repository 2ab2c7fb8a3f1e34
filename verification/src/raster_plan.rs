//! How rasterizing is grouped and where its results go: the pages one
//! rasterizer run renders together, the slices of a page rendered
//! together, and the names of cached page images and of the lock files
//! that guard their creation.

use vstd::prelude::*;

use crate::pdf::{normalized_spec, PageSliceSpec, PdfDocument};
use crate::sorting::{insert_position, insert_sorted, sorted_by};
use crate::text::{
    chars_of, decimal_spec, ends_with, extend_str, lex_lt, parse_unsigned, parse_unsigned_spec,
    push_decimal, slice_chars, starts_with, str_lt, string_of,
};

verus! {

/// The pages rendered together with page `page_index`: pages are grouped
/// in runs of `batch_pages` (at least one) from the first page, and the
/// last run ends at the last page.
pub open spec fn batch_window_spec(page_count: usize, batch_pages: usize, page_index: usize) -> (int, int) {
    let batch: int = if batch_pages < 1 {
        1
    } else {
        batch_pages as int
    };
    let start = (page_index as int / batch) * batch;
    let last_page: int = if page_count < 1 {
        0
    } else {
        page_count - 1
    };
    (
        start,
        if start + batch - 1 < last_page {
            start + batch - 1
        } else {
            last_page
        },
    )
}

/// The first and last page rendered together with page `page_index` (see
/// `batch_window_spec`).
pub fn page_batch_window(document: &PdfDocument, page_index: usize) -> (window: (usize, usize))
    ensures
        window.0 as int == batch_window_spec(document.page_count, document.pdf_raster_batch_pages, page_index).0,
        window.1 as int == batch_window_spec(document.page_count, document.pdf_raster_batch_pages, page_index).1,
{
    let batch = if document.pdf_raster_batch_pages < 1 {
        1
    } else {
        document.pdf_raster_batch_pages
    };
    let quotient = page_index / batch;
    proof {
        assert(quotient * batch <= page_index) by (nonlinear_arith)
            requires
                quotient == page_index / batch,
                batch >= 1,
        ;
    }
    let start = quotient * batch;
    let end = start.saturating_add(batch - 1);
    let last_page = document.page_count.saturating_sub(1);
    (start, if end < last_page {
        end
    } else {
        last_page
    })
}

/// Every page of the document lies in its own batch window, which holds
/// at most `batch_pages` pages (at least one).
pub proof fn lemma_batch_window_holds_the_page(page_count: usize, batch_pages: usize, page_index: usize)
    requires
        page_index < page_count,
    ensures
        batch_window_spec(page_count, batch_pages, page_index).0 <= page_index,
        page_index <= batch_window_spec(page_count, batch_pages, page_index).1,
        batch_window_spec(page_count, batch_pages, page_index).1 < page_count,
        batch_window_spec(page_count, batch_pages, page_index).1 - batch_window_spec(
            page_count,
            batch_pages,
            page_index,
        ).0 < if batch_pages < 1 {
            1
        } else {
            batch_pages as int
        },
{
    let batch: int = if batch_pages < 1 {
        1
    } else {
        batch_pages as int
    };
    let i = page_index as int;
    assert((i / batch) * batch <= i && i < (i / batch) * batch + batch) by (nonlinear_arith)
        requires
            batch >= 1,
            i >= 0,
    ;
}

/// Pixel rows of one cell row of the page (at least one).
pub open spec fn cell_pixel_height(n: PageSliceSpec) -> int {
    let h = n.target_height as int / n.full_cell_height as int;
    if h < 1 {
        1
    } else {
        h
    }
}

/// The first cell row of slice `k`: the page's cell rows shared out
/// evenly among the slices.
pub open spec fn slice_cell_start(n: PageSliceSpec, k: int) -> int {
    (n.full_cell_height as int * k) / n.slice_count as int
}

pub open spec fn clamp_u32(v: int) -> u32 {
    if v > u32::MAX {
        u32::MAX
    } else {
        v as u32
    }
}

/// Slice `k` of the page that `spec` slices, in pixels: it starts at its
/// first cell row and spans its cell rows (at least one pixel row).
pub open spec fn sibling_at(spec: PageSliceSpec, k: int) -> PageSliceSpec {
    let n = normalized_spec(spec);
    let px = cell_pixel_height(n);
    let start = slice_cell_start(n, k);
    let end = slice_cell_start(n, k + 1);
    let rows = (end - start) * px;
    PageSliceSpec {
        page_index: n.page_index,
        slice_index: k as u16,
        slice_count: n.slice_count,
        target_width: n.target_width,
        target_height: n.target_height,
        slice_y: clamp_u32(start * px),
        slice_height: clamp_u32(
            if rows < 1 {
                1
            } else {
                rows
            },
        ),
        cell_width: n.cell_width,
        cell_height: n.cell_height,
        full_cell_width: n.full_cell_width,
        full_cell_height: n.full_cell_height,
        viewport_width: n.viewport_width,
        viewport_height: n.viewport_height,
        scroll_divisor: n.scroll_divisor,
    }
}

proof fn lemma_slice_start_bounds(n: PageSliceSpec, k: int)
    requires
        n.slice_count >= 1,
        0 <= k < n.slice_count,
    ensures
        0 <= slice_cell_start(n, k) <= slice_cell_start(n, k + 1) <= n.full_cell_height,
{
    let f = n.full_cell_height as int;
    let c = n.slice_count as int;
    assert(0 <= (f * k) / c <= (f * (k + 1)) / c <= f) by (nonlinear_arith)
        requires
            c >= 1,
            0 <= k < c,
            f >= 0,
    {
        assert(f * k <= f * (k + 1));
        vstd::arithmetic::div_mod::lemma_div_is_ordered(f * k, f * (k + 1), c);
        assert(f * (k + 1) <= f * c);
        vstd::arithmetic::div_mod::lemma_div_is_ordered(f * (k + 1), f * c, c);
        vstd::arithmetic::div_mod::lemma_div_by_multiple(f, c);
    }
}

/// Every slice of the page that `spec` slices, in order (see
/// `sibling_at`); they are rendered together.
pub fn sibling_slice_specs(spec: PageSliceSpec) -> (siblings: Vec<PageSliceSpec>)
    ensures
        siblings@.len() == normalized_spec(spec).slice_count,
        forall|k: int| 0 <= k < siblings@.len() ==> #[trigger] siblings@[k] == sibling_at(spec, k),
{
    let n = spec.normalized();
    let per_row = n.target_height / (n.full_cell_height as u32);
    let px: u64 = if per_row < 1 {
        1
    } else {
        per_row as u64
    };
    let fch = n.full_cell_height as u64;
    let count = n.slice_count as u64;
    let mut siblings: Vec<PageSliceSpec> = Vec::new();
    let mut k: u16 = 0;
    while k < n.slice_count
        invariant
            n == normalized_spec(spec),
            n.slice_count >= 1,
            n.full_cell_height >= 1,
            px as int == cell_pixel_height(n),
            px <= u32::MAX,
            fch == n.full_cell_height,
            count == n.slice_count,
            k <= n.slice_count,
            siblings@.len() == k,
            forall|j: int| 0 <= j < k ==> #[trigger] siblings@[j] == sibling_at(spec, j),
        decreases n.slice_count - k,
    {
        proof {
            lemma_slice_start_bounds(n, k as int);
            assert(fch * (k as u64) <= 65535 * 65535) by (nonlinear_arith)
                requires
                    fch <= 65535,
                    k <= 65535,
            ;
            assert(fch * (k as u64 + 1) <= 65535 * 65536) by (nonlinear_arith)
                requires
                    fch <= 65535,
                    k < 65535,
            ;
        }
        let start = fch * (k as u64) / count;
        let end = fch * (k as u64 + 1) / count;
        proof {
            assert(start * px <= 65535 * 4294967295) by (nonlinear_arith)
                requires
                    start <= 65535,
                    px <= 4294967295,
            ;
            assert((end - start) * px <= 65535 * 4294967295) by (nonlinear_arith)
                requires
                    end - start <= 65535,
                    px <= 4294967295,
            ;
        }
        let y = start * px;
        let rows = (end - start) * px;
        let height = if rows < 1 {
            1
        } else {
            rows
        };
        let slice_y: u32 = if y > u32::MAX as u64 {
            u32::MAX
        } else {
            y as u32
        };
        let slice_height: u32 = if height > u32::MAX as u64 {
            u32::MAX
        } else {
            height as u32
        };
        siblings.push(
            PageSliceSpec {
                page_index: n.page_index,
                slice_index: k,
                slice_count: n.slice_count,
                target_width: n.target_width,
                target_height: n.target_height,
                slice_y,
                slice_height,
                cell_width: n.cell_width,
                cell_height: n.cell_height,
                full_cell_width: n.full_cell_width,
                full_cell_height: n.full_cell_height,
                viewport_width: n.viewport_width,
                viewport_height: n.viewport_height,
                scroll_divisor: n.scroll_divisor,
            },
        );
        k = k + 1;
    }
    siblings
}

/// The slices of a page tile it: the first starts at the top, each
/// non-empty slice ends where the next begins, and the last ends at the
/// page's full height in cell rows, as long as that height fits in `u32`.
pub proof fn lemma_slices_tile_the_page(spec: PageSliceSpec, k: int)
    requires
        0 <= k < normalized_spec(spec).slice_count,
        normalized_spec(spec).full_cell_height * cell_pixel_height(normalized_spec(spec)) <= u32::MAX,
        slice_cell_start(normalized_spec(spec), k) < slice_cell_start(normalized_spec(spec), k + 1),
    ensures
        sibling_at(spec, 0).slice_y == 0,
        sibling_at(spec, k).slice_y + sibling_at(spec, k).slice_height == slice_cell_start(
            normalized_spec(spec),
            k + 1,
        ) * cell_pixel_height(normalized_spec(spec)),
        k + 1 < normalized_spec(spec).slice_count ==> sibling_at(spec, k + 1).slice_y
            == sibling_at(spec, k).slice_y + sibling_at(spec, k).slice_height,
        k + 1 == normalized_spec(spec).slice_count ==> sibling_at(spec, k).slice_y + sibling_at(
            spec,
            k,
        ).slice_height == normalized_spec(spec).full_cell_height * cell_pixel_height(
            normalized_spec(spec),
        ),
{
    let n = normalized_spec(spec);
    let px = cell_pixel_height(n);
    let f = n.full_cell_height as int;
    let start = slice_cell_start(n, k);
    let end = slice_cell_start(n, k + 1);
    lemma_slice_start_bounds(n, k);
    assert(slice_cell_start(n, 0) == 0);
    assert(start * px <= f * px && end * px <= f * px && (end - start) * px == end * px - start * px
        && (end - start) * px >= 1) by (nonlinear_arith)
        requires
            0 <= start < end <= f,
            px >= 1,
    ;
    if k + 1 < n.slice_count {
        lemma_slice_start_bounds(n, k + 1);
        assert(slice_cell_start(n, k + 1) * px <= f * px) by (nonlinear_arith)
            requires
                0 <= slice_cell_start(n, k + 1) <= f,
                px >= 1,
        ;
    }
    if k + 1 == n.slice_count {
        vstd::arithmetic::div_mod::lemma_div_by_multiple(f, n.slice_count as int);
        assert(end == f);
    }
}

/// `n` in decimal, padded with zeros to at least `width` digits.
pub open spec fn zero_padded(n: nat, width: nat) -> Seq<char> {
    let digits = decimal_spec(n);
    if digits.len() >= width {
        digits
    } else {
        Seq::new((width - digits.len()) as nat, |i: int| '0') + digits
    }
}

fn push_zero_padded(out: &mut Vec<char>, n: u64, width: usize)
    ensures
        final(out)@ == old(out)@ + zero_padded(n as nat, width as nat),
{
    let digits = crate::text::decimal(n);
    let ghost start = out@;
    if digits.len() < width {
        let mut i: usize = digits.len();
        while i < width
            invariant
                digits.len() <= i <= width,
                out@ == start + Seq::new((i - digits.len()) as nat, |j: int| '0'),
            decreases width - i,
        {
            out.push('0');
            proof {
                assert(out@ =~= start + Seq::new((i + 1 - digits.len()) as nat, |j: int| '0'));
            }
            i += 1;
        }
    }
    let ghost padded = out@;
    crate::text::extend_chars(out, &digits);
    proof {
        assert(out@ =~= start + zero_padded(n as nat, width as nat));
    }
}

/// Pixels of a whole-page image: at least one.
pub open spec fn at_least_one(v: u32) -> nat {
    if v < 1 {
        1
    } else {
        v as nat
    }
}

/// The file name of a whole-page image: its cache key, the page number in
/// five digits and the pixel size.
pub open spec fn page_output_name_spec(cache_key: Seq<char>, page_index: nat, target_width: u32, target_height: u32) -> Seq<char> {
    cache_key + "-p"@ + zero_padded(page_index + 1, 5) + "-"@ + decimal_spec(at_least_one(target_width))
        + "x"@ + decimal_spec(at_least_one(target_height)) + ".png"@
}

/// The file name of the image of page `page_index` at the given size,
/// under the page's cache key (see `page_output_name_spec`).
pub fn page_output_name(cache_key: &str, page_index: usize, target_width: u32, target_height: u32) -> (name:
    String)
    requires
        page_index < u64::MAX,
    ensures
        name@ == page_output_name_spec(cache_key@, page_index as nat, target_width, target_height),
{
    let width = if target_width < 1 {
        1
    } else {
        target_width
    };
    let height = if target_height < 1 {
        1
    } else {
        target_height
    };
    let mut out: Vec<char> = Vec::new();
    extend_str(&mut out, cache_key);
    extend_str(&mut out, "-p");
    push_zero_padded(&mut out, page_index as u64 + 1, 5);
    extend_str(&mut out, "-");
    push_decimal(&mut out, width as u64);
    extend_str(&mut out, "x");
    push_decimal(&mut out, height as u64);
    extend_str(&mut out, ".png");
    proof {
        assert(out@ =~= page_output_name_spec(cache_key@, page_index as nat, target_width, target_height));
    }
    string_of(&out)
}

/// The name of the lock guarding the rendering of pages `batch_start` to
/// `batch_end` at one size.
pub open spec fn page_batch_lock_name_spec(
    cache_key: Seq<char>,
    target_width: u32,
    target_height: u32,
    batch_start: nat,
    batch_end: nat,
) -> Seq<char> {
    cache_key + "-pages"@ + zero_padded(batch_start + 1, 5) + "-"@ + zero_padded(batch_end + 1, 5)
        + "-"@ + decimal_spec(at_least_one(target_width)) + "x"@ + decimal_spec(
        at_least_one(target_height),
    )
}

/// The lock guarding a batch of whole-page images (see
/// `page_batch_lock_name_spec`).
pub fn page_batch_lock_name(
    cache_key: &str,
    target_width: u32,
    target_height: u32,
    batch_start: usize,
    batch_end: usize,
) -> (name: String)
    requires
        batch_start < u64::MAX,
        batch_end < u64::MAX,
    ensures
        name@ == page_batch_lock_name_spec(
            cache_key@,
            target_width,
            target_height,
            batch_start as nat,
            batch_end as nat,
        ),
{
    let width = if target_width < 1 {
        1
    } else {
        target_width
    };
    let height = if target_height < 1 {
        1
    } else {
        target_height
    };
    let mut out: Vec<char> = Vec::new();
    extend_str(&mut out, cache_key);
    extend_str(&mut out, "-pages");
    push_zero_padded(&mut out, batch_start as u64 + 1, 5);
    extend_str(&mut out, "-");
    push_zero_padded(&mut out, batch_end as u64 + 1, 5);
    extend_str(&mut out, "-");
    push_decimal(&mut out, width as u64);
    extend_str(&mut out, "x");
    push_decimal(&mut out, height as u64);
    proof {
        assert(out@ =~= page_batch_lock_name_spec(
            cache_key@,
            target_width,
            target_height,
            batch_start as nat,
            batch_end as nat,
        ));
    }
    string_of(&out)
}

/// The file name of a slice image: the slice's cache key, the page number,
/// the slice's place among its siblings, the page's pixel size and the
/// slice's pixel rows.
pub open spec fn slice_output_name_spec(cache_key: Seq<char>, spec: PageSliceSpec) -> Seq<char> {
    cache_key + "-p"@ + zero_padded((spec.page_index + 1) as nat, 5) + "-slice"@ + zero_padded(
        (spec.slice_index + 1) as nat,
        3,
    ) + "of"@ + zero_padded(spec.slice_count as nat, 3) + "-"@ + decimal_spec(spec.target_width as nat)
        + "x"@ + decimal_spec(spec.target_height as nat) + "-y"@ + decimal_spec(spec.slice_y as nat)
        + "h"@ + decimal_spec(spec.slice_height as nat) + ".png"@
}

/// The file name of the image of one slice (see `slice_output_name_spec`).
pub fn page_slice_output_name(cache_key: &str, spec: PageSliceSpec) -> (name: String)
    requires
        spec.page_index < u64::MAX,
    ensures
        name@ == slice_output_name_spec(cache_key@, spec),
{
    let mut out: Vec<char> = Vec::new();
    extend_str(&mut out, cache_key);
    extend_str(&mut out, "-p");
    push_zero_padded(&mut out, spec.page_index as u64 + 1, 5);
    extend_str(&mut out, "-slice");
    push_zero_padded(&mut out, spec.slice_index as u64 + 1, 3);
    extend_str(&mut out, "of");
    push_zero_padded(&mut out, spec.slice_count as u64, 3);
    extend_str(&mut out, "-");
    push_decimal(&mut out, spec.target_width as u64);
    extend_str(&mut out, "x");
    push_decimal(&mut out, spec.target_height as u64);
    extend_str(&mut out, "-y");
    push_decimal(&mut out, spec.slice_y as u64);
    extend_str(&mut out, "h");
    push_decimal(&mut out, spec.slice_height as u64);
    extend_str(&mut out, ".png");
    proof {
        assert(out@ =~= slice_output_name_spec(cache_key@, spec));
    }
    string_of(&out)
}

/// The name of the lock guarding the rendering of all slices of a page at
/// one size.
pub open spec fn slice_group_lock_name_spec(cache_key: Seq<char>, spec: PageSliceSpec) -> Seq<char> {
    cache_key + "-p"@ + zero_padded((spec.page_index + 1) as nat, 5) + "-slices"@ + zero_padded(
        spec.slice_count as nat,
        3,
    ) + "-"@ + decimal_spec(spec.target_width as nat) + "x"@ + decimal_spec(spec.target_height as nat)
        + "-"@ + decimal_spec(spec.full_cell_width as nat) + "h"@ + decimal_spec(
        spec.full_cell_height as nat,
    )
}

/// The lock guarding a page's slice group, under the page's cache key (see
/// `slice_group_lock_name_spec`).
pub fn page_slice_group_lock_name(cache_key: &str, spec: PageSliceSpec) -> (name: String)
    requires
        spec.page_index < u64::MAX,
    ensures
        name@ == slice_group_lock_name_spec(cache_key@, spec),
{
    let mut out: Vec<char> = Vec::new();
    extend_str(&mut out, cache_key);
    extend_str(&mut out, "-p");
    push_zero_padded(&mut out, spec.page_index as u64 + 1, 5);
    extend_str(&mut out, "-slices");
    push_zero_padded(&mut out, spec.slice_count as u64, 3);
    extend_str(&mut out, "-");
    push_decimal(&mut out, spec.target_width as u64);
    extend_str(&mut out, "x");
    push_decimal(&mut out, spec.target_height as u64);
    extend_str(&mut out, "-");
    push_decimal(&mut out, spec.full_cell_width as u64);
    extend_str(&mut out, "h");
    push_decimal(&mut out, spec.full_cell_height as u64);
    proof {
        assert(out@ =~= slice_group_lock_name_spec(cache_key@, spec));
    }
    string_of(&out)
}

/// Where a slice is cut from its rendered page: the page's size (each side
/// at least one pixel) and the slice's top and height, clamped so that the
/// slice starts on the page, is at least one pixel tall and ends on it.
#[derive(Debug, Clone, Copy, PartialEq, Eq)]
pub struct SliceCrop {
    pub full_width: u32,
    pub full_height: u32,
    pub y: u32,
    pub height: u32,
}

/// The crop of a slice asked at `slice_y` with `slice_height` from a page
/// rendered at `page_width` x `page_height` pixels.
pub fn slice_crop(page_width: u32, page_height: u32, slice_y: u32, slice_height: u32) -> (crop: SliceCrop)
    ensures
        crop.full_width == if page_width == 0 { 1 } else { page_width },
        crop.full_height == if page_height == 0 { 1 } else { page_height },
        crop.y == if slice_y < crop.full_height - 1 { slice_y as int } else { crop.full_height - 1 },
        crop.height == if slice_height == 0 {
            1
        } else if slice_height < crop.full_height - crop.y {
            slice_height as int
        } else {
            crop.full_height - crop.y
        },
        // The crop lies on the page.
        1 <= crop.height,
        crop.y + crop.height <= crop.full_height,
{
    let full_width: u32 = if page_width == 0 { 1 } else { page_width };
    let full_height: u32 = if page_height == 0 { 1 } else { page_height };
    let y: u32 = if slice_y < full_height - 1 { slice_y } else { full_height - 1 };
    let room: u32 = full_height - y;
    let clamped: u32 = if slice_height < room { slice_height } else { room };
    let height: u32 = if clamped == 0 { 1 } else { clamped };
    SliceCrop { full_width, full_height, y, height }
}

/// The name ending of a rasterizer output file.
pub open spec fn png_suffix() -> Seq<char> {
    seq!['.', 'p', 'n', 'g']
}

/// What the file `name` in the output directory of a rasterizer run for
/// pages `first..=last` written under `prefix` is: `None` when it is no
/// PNG file (it is left alone), `Some(None)` when it is a PNG file that is
/// not a page output of the run, `Some(Some(n))` when it is `prefix-n.png`
/// with `n` (as `str::parse` reads a `usize`) in `first..=last`.
pub open spec fn png_page_of(prefix: Seq<char>, name: Seq<char>, first: usize, last: usize) -> Option<Option<usize>> {
    if !(name.len() >= 4 && name.skip(name.len() - 4) == png_suffix()) {
        None
    } else if !(prefix.len() <= name.len() && name.take(prefix.len() as int) == prefix) {
        Some(None)
    } else {
        let rest = name.skip(prefix.len() as int);
        if rest.len() >= 5 && rest[0] == '-' {
            match parse_unsigned_spec(rest.subrange(1, rest.len() - 4), usize::MAX as nat) {
                Some(n) => if first <= n <= last {
                    Some(Some(n as usize))
                } else {
                    Some(None)
                },
                None => Some(None),
            }
        } else {
            Some(None)
        }
    }
}

/// Some output in `outs` (page, index of its file name) is for page `n`.
pub open spec fn page_listed(outs: Seq<(usize, usize)>, n: usize) -> bool {
    exists|j: int| 0 <= j < outs.len() && #[trigger] outs[j].0 == n
}

/// The outputs found among `names` in order, and the unexpected PNG files,
/// or the first page whose output appears twice.
pub open spec fn png_scan(prefix: Seq<char>, names: Seq<Seq<char>>, first: usize, last: usize) -> Result<
    (Seq<(usize, usize)>, Seq<Seq<char>>),
    usize,
>
    decreases names.len(),
{
    if names.len() == 0 {
        Ok((Seq::empty(), Seq::empty()))
    } else {
        match png_scan(prefix, names.drop_last(), first, last) {
            Err(d) => Err(d),
            Ok((outs, unexpected)) => match png_page_of(prefix, names.last(), first, last) {
                None => Ok((outs, unexpected)),
                Some(None) => Ok((outs, unexpected.push(names.last()))),
                Some(Some(n)) => if page_listed(outs, n) {
                    Err(n)
                } else {
                    Ok((outs.push((n, (names.len() - 1) as usize)), unexpected))
                },
            },
        }
    }
}

proof fn lemma_scan_error_stays(prefix: Seq<char>, names: Seq<Seq<char>>, first: usize, last: usize, j: int, d: usize)
    requires
        0 <= j <= names.len(),
        png_scan(prefix, names.take(j), first, last) == Err::<(Seq<(usize, usize)>, Seq<Seq<char>>), usize>(d),
    ensures
        png_scan(prefix, names, first, last) == Err::<(Seq<(usize, usize)>, Seq<Seq<char>>), usize>(d),
    decreases names.len() - j,
{
    if j < names.len() {
        assert(names.take(j + 1).drop_last() =~= names.take(j));
        lemma_scan_error_stays(prefix, names, first, last, j + 1, d);
    } else {
        assert(names.take(j) =~= names);
    }
}

/// Pages in `first..end` with no output, in increasing order.
pub open spec fn missing_pages(outs: Seq<(usize, usize)>, first: int, end: int) -> Seq<usize>
    decreases end - first,
{
    if end <= first {
        Seq::empty()
    } else if page_listed(outs, (end - 1) as usize) {
        missing_pages(outs, first, end - 1)
    } else {
        missing_pages(outs, first, end - 1).push((end - 1) as usize)
    }
}

/// File names in `str` order.
pub open spec fn name_order() -> spec_fn(Seq<char>, Seq<char>) -> bool {
    |a: Seq<char>, b: Seq<char>| lex_lt(a, b)
}

/// Page numbers in increasing order.
pub open spec fn page_order() -> spec_fn(usize, usize) -> bool {
    |a: usize, b: usize| a < b
}

/// Why the output of a rasterizer run cannot be used.
#[derive(Debug, Clone, PartialEq, Eq)]
pub enum PngOutputError {
    /// Two files are the output of this page.
    Duplicate(usize),
    /// PNG files that are not outputs of the run, in name order.
    Unexpected(Vec<String>),
    /// Pages of the run with no output, and the pages that have one, both
    /// in increasing order.
    Missing(Vec<usize>, Vec<usize>),
}

/// What `name` is in the output of a run for `first..=last` under `prefix`.
pub fn png_page_of_name(prefix: &str, name: &str, first: usize, last: usize) -> (kind: Option<Option<usize>>)
    ensures
        kind == png_page_of(prefix@, name@, first, last),
{
    let cs = chars_of(name);
    proof {
        reveal_strlit(".png");
        assert(".png"@ =~= png_suffix());
    }
    if !ends_with(&cs, ".png") {
        return None;
    }
    if !starts_with(&cs, prefix) {
        return Some(None);
    }
    let ghost plen = prefix@.len();
    let pcs = chars_of(prefix);
    let rest = slice_chars(&cs, pcs.len(), cs.len());
    proof {
        assert(rest@ =~= name@.skip(plen as int));
    }
    if !(rest.len() >= 5 && rest[0] == '-') {
        return Some(None);
    }
    let middle = slice_chars(&rest, 1, rest.len() - 4);
    proof {
        assert(middle@ =~= rest@.subrange(1, rest@.len() - 4));
    }
    let max: u64 = usize::MAX as u64;
    match parse_unsigned(&middle, max) {
        Some(n) => {
            if first as u64 <= n && n <= last as u64 {
                Some(Some(n as usize))
            } else {
                Some(None)
            }
        },
        None => Some(None),
    }
}

fn has_page(outs: &Vec<(usize, usize)>, n: usize) -> (found: bool)
    ensures
        found == page_listed(outs@, n),
{
    let mut j: usize = 0;
    while j < outs.len()
        invariant
            j <= outs@.len(),
            forall|k: int| 0 <= k < j ==> #[trigger] outs@[k].0 != n,
        decreases outs@.len() - j,
    {
        if outs[j].0 == n {
            return true;
        }
        j += 1;
    }
    false
}

/// Inserts `name` after every name it does not order before.
fn insert_name(sorted: &mut Vec<String>, name: String)
    ensures
        final(sorted)@.map_values(|s: String| s@) == insert_sorted(
            old(sorted)@.map_values(|s: String| s@),
            name@,
            name_order(),
        ),
{
    let ghost model = sorted@.map_values(|s: String| s@);
    let mut p: usize = 0;
    while p < sorted.len() && !str_lt(name.as_str(), sorted[p].as_str())
        invariant
            p <= sorted@.len(),
            model == sorted@.map_values(|s: String| s@),
            insert_position(model, name@, name_order(), 0) == insert_position(
                model,
                name@,
                name_order(),
                p as int,
            ),
        decreases sorted@.len() - p,
    {
        p += 1;
    }
    let ghost before = sorted@;
    sorted.insert(p, name);
    proof {
        assert(sorted@.map_values(|s: String| s@) =~= model.insert(p as int, name@));
    }
}

/// Inserts `page` after every page it does not order before.
fn insert_page(sorted: &mut Vec<usize>, page: usize)
    ensures
        final(sorted)@ == insert_sorted(old(sorted)@, page, page_order()),
{
    let ghost model = sorted@;
    let mut p: usize = 0;
    while p < sorted.len() && !(page < sorted[p])
        invariant
            p <= sorted@.len(),
            model == sorted@,
            insert_position(model, page, page_order(), 0) == insert_position(
                model,
                page,
                page_order(),
                p as int,
            ),
        decreases sorted@.len() - p,
    {
        p += 1;
    }
    sorted.insert(p, page);
}

/// Checks the files `names` of the output directory of a rasterizer run
/// for pages `first..=last` written under the file name `prefix`: every
/// PNG file must be `prefix-n.png` for a page `n` of the run, each page
/// once, and every page must have one. Returns each page with the index of
/// its file, in the order of `names`.
pub fn numbered_png_outputs(prefix: &str, names: &Vec<String>, first: usize, last: usize) -> (found: Result<
    Vec<(usize, usize)>,
    PngOutputError,
>)
    ensures
        match png_scan(prefix@, names@.map_values(|s: String| s@), first, last) {
            Err(d) => found matches Err(PngOutputError::Duplicate(x)) && x == d,
            Ok((outs, unexpected)) => if unexpected.len() > 0 {
                found matches Err(PngOutputError::Unexpected(v)) && v@.map_values(|s: String| s@)
                    == sorted_by(unexpected, name_order())
            } else if missing_pages(outs, first as int, last + 1).len() > 0 {
                found matches Err(PngOutputError::Missing(m, seen)) && m@ == missing_pages(
                    outs,
                    first as int,
                    last + 1,
                ) && seen@ == sorted_by(outs.map_values(|o: (usize, usize)| o.0), page_order())
            } else {
                found matches Ok(v) && v@ == outs
            },
        },
{
    let ghost model = names@.map_values(|s: String| s@);
    let mut outs: Vec<(usize, usize)> = Vec::new();
    let mut unexpected: Vec<String> = Vec::new();
    let mut i: usize = 0;
    proof {
        assert(model.take(0) =~= Seq::<Seq<char>>::empty());
        assert(unexpected@.map_values(|s: String| s@) =~= Seq::<Seq<char>>::empty());
    }
    while i < names.len()
        invariant
            i <= names@.len(),
            model == names@.map_values(|s: String| s@),
            png_scan(prefix@, model.take(i as int), first, last) == Ok::<
                (Seq<(usize, usize)>, Seq<Seq<char>>),
                usize,
            >((outs@, unexpected@.map_values(|s: String| s@))),
        decreases names@.len() - i,
    {
        let kind = png_page_of_name(prefix, names[i].as_str(), first, last);
        let ghost before = unexpected@;
        proof {
            assert(model.take(i + 1).drop_last() =~= model.take(i as int));
            assert(model.take(i + 1).last() == names@[i as int]@);
        }
        match kind {
            None => {},
            Some(None) => {
                unexpected.push(names[i].clone());
                proof {
                    assert(unexpected@.map_values(|s: String| s@) =~= before.map_values(|s: String| s@).push(
                        names@[i as int]@,
                    ));
                }
            },
            Some(Some(n)) => {
                if has_page(&outs, n) {
                    proof {
                        lemma_scan_error_stays(prefix@, model, first, last, i + 1, n);
                    }
                    return Err(PngOutputError::Duplicate(n));
                }
                outs.push((n, i));
            },
        }
        i += 1;
    }
    proof {
        assert(model.take(i as int) =~= model);
    }
    if unexpected.len() > 0 {
        let ghost unsorted = unexpected@.map_values(|s: String| s@);
        let mut sorted: Vec<String> = Vec::new();
        let mut k: usize = 0;
        proof {
            assert(sorted@.map_values(|s: String| s@) =~= sorted_by(unsorted.take(0), name_order()));
        }
        while k < unexpected.len()
            invariant
                k <= unexpected@.len(),
                unsorted == unexpected@.map_values(|s: String| s@),
                sorted@.map_values(|s: String| s@) == sorted_by(unsorted.take(k as int), name_order()),
            decreases unexpected@.len() - k,
        {
            proof {
                assert(unsorted.take(k + 1).drop_last() =~= unsorted.take(k as int));
            }
            insert_name(&mut sorted, unexpected[k].clone());
            k += 1;
        }
        proof {
            assert(unsorted.take(k as int) =~= unsorted);
        }
        return Err(PngOutputError::Unexpected(sorted));
    }
    let mut missing: Vec<usize> = Vec::new();
    if first <= last {
        let mut p: usize = first;
        let mut done = false;
        while !done
            invariant
                first <= p <= last,
                !done ==> missing@ == missing_pages(outs@, first as int, p as int),
                done ==> missing@ == missing_pages(outs@, first as int, last + 1),
            decreases (if done { 0 } else { last - p + 1 }),
        {
            if !has_page(&outs, p) {
                missing.push(p);
            }
            if p == last {
                done = true;
            } else {
                p += 1;
            }
        }
    }
    if missing.len() > 0 {
        let ghost pages = outs@.map_values(|o: (usize, usize)| o.0);
        let mut seen: Vec<usize> = Vec::new();
        let mut k: usize = 0;
        proof {
            assert(seen@ =~= sorted_by(pages.take(0), page_order()));
        }
        while k < outs.len()
            invariant
                k <= outs@.len(),
                pages == outs@.map_values(|o: (usize, usize)| o.0),
                seen@ == sorted_by(pages.take(k as int), page_order()),
            decreases outs@.len() - k,
        {
            proof {
                assert(pages.take(k + 1).drop_last() =~= pages.take(k as int));
            }
            insert_page(&mut seen, outs[k].0);
            k += 1;
        }
        proof {
            assert(pages.take(k as int) =~= pages);
        }
        return Err(PngOutputError::Missing(missing, seen));
    }
    Ok(outs)
}

} // verus!
