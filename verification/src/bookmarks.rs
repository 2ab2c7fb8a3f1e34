//! PDF bookmarks (the document outline) as `pdftk dump_data_utf8` reports
//! them, the TOML draft offered for editing, and the update file written
//! back for `pdftk update_info_utf8`.

use vstd::prelude::*;

use crate::keyed::str_eq;
use crate::toml_value::{get_spec, parse_toml_document, toml_document, TomlValue};

use crate::text::{
    first_index_of, line_body, all_digits, digit_value, digits_value, is_digit, is_whitespace_spec, leading_ws, trailing_ws, trim_end_spec,
    chars_eq, chars_of, ends_with, extend_chars, extend_str, is_blank, lines, lines_spec,
    parse_unsigned, parse_unsigned_spec, push_decimal, slice_chars, push_toml_string, string_of,
    strip_prefix, toml_string_spec, debug_quoted, debug_string, trim, trim_spec, trim_start, trim_start_spec, decimal_spec,
};

verus! {

#[derive(Debug, Clone, PartialEq, Eq)]
pub struct PdfBookmark {
    pub id: usize,
    pub title: String,
    pub level: u16,
    pub page_index: usize,
}

#[derive(Debug, Clone, PartialEq, Eq)]
pub struct BookmarkEdit {
    pub bookmarks: Vec<PdfBookmark>,
    pub original_count: usize,
}

impl BookmarkEdit {
    pub fn new_count(&self) -> (count: usize)
        ensures
            count == self.bookmarks@.len(),
    {
        self.bookmarks.len()
    }
}

/// A bookmark as plain values: id, title, level, page index.
pub type BookmarkModel = (usize, Seq<char>, u16, usize);

pub open spec fn bookmark_model(b: PdfBookmark) -> BookmarkModel {
    (b.id, b.title@, b.level, b.page_index)
}

pub open spec fn bookmarks_model(bs: Seq<PdfBookmark>) -> Seq<BookmarkModel> {
    bs.map_values(|b: PdfBookmark| bookmark_model(b))
}

/// The fields of one `BookmarkBegin` block read so far: title, level and
/// page number.
pub type RawModel = (Option<Seq<char>>, Option<u16>, Option<usize>);

/// Appends the bookmark of a finished block: blocks without a title (or
/// with a blank one) are dropped; the page number defaults to 1 and is
/// clamped into the document; the level defaults to 1 and is at least 1.
pub open spec fn finish_raw_spec(
    bookmarks: Seq<BookmarkModel>,
    raw: Option<RawModel>,
    page_count: usize,
) -> Seq<BookmarkModel> {
    match raw {
        None => bookmarks,
        Some((title, level, page_number)) => {
            let t = match title {
                Some(t) => t,
                None => Seq::empty(),
            };
            if trim_spec(t).len() == 0 {
                bookmarks
            } else {
                let number = match page_number {
                    Some(n) => if n < 1 {
                        1
                    } else {
                        n as int
                    },
                    None => 1,
                };
                let last = if page_count >= 1 {
                    page_count - 1
                } else {
                    0
                };
                let page_index = if number - 1 < last {
                    number - 1
                } else {
                    last
                };
                let lvl = match level {
                    Some(l) => if l < 1 {
                        1u16
                    } else {
                        l
                    },
                    None => 1u16,
                };
                bookmarks.push((bookmarks.len() as usize, t, lvl, page_index as usize))
            }
        },
    }
}

pub open spec fn has_prefix(line: Seq<char>, prefix: Seq<char>) -> bool {
    prefix.len() <= line.len() && line.take(prefix.len() as int) == prefix
}

pub open spec fn has_suffix(line: Seq<char>, suffix: Seq<char>) -> bool {
    suffix.len() <= line.len() && line.skip(line.len() - suffix.len()) == suffix
}

/// One line of `pdftk` output applied to the parser state: the bookmarks
/// so far and the block being read.
pub open spec fn bookmark_line_step(
    state: (Seq<BookmarkModel>, Option<RawModel>),
    line: Seq<char>,
    page_count: usize,
) -> (Seq<BookmarkModel>, Option<RawModel>) {
    let (bookmarks, current) = state;
    if line == "BookmarkBegin"@ {
        (finish_raw_spec(bookmarks, current, page_count), Some((None, None, None)))
    } else {
        match current {
            None => state,
            Some((title, level, page)) => {
                if has_prefix(line, "BookmarkTitle:"@) {
                    (
                        bookmarks,
                        Some(
                            (
                                Some(trim_start_spec(line.skip("BookmarkTitle:"@.len() as int))),
                                level,
                                page,
                            ),
                        ),
                    )
                } else if has_prefix(line, "BookmarkLevel:"@) {
                    let parsed = parse_unsigned_spec(
                        trim_spec(line.skip("BookmarkLevel:"@.len() as int)),
                        u16::MAX as nat,
                    );
                    (
                        bookmarks,
                        Some(
                            (
                                title,
                                match parsed {
                                    Some(v) => Some(v as u16),
                                    None => None,
                                },
                                page,
                            ),
                        ),
                    )
                } else if has_prefix(line, "BookmarkPageNumber:"@) {
                    let parsed = parse_unsigned_spec(
                        trim_spec(line.skip("BookmarkPageNumber:"@.len() as int)),
                        usize::MAX as nat,
                    );
                    (
                        bookmarks,
                        Some(
                            (
                                title,
                                level,
                                match parsed {
                                    Some(v) => Some(v as usize),
                                    None => None,
                                },
                            ),
                        ),
                    )
                } else if has_suffix(line, "Begin"@) {
                    (finish_raw_spec(bookmarks, current, page_count), None)
                } else {
                    state
                }
            },
        }
    }
}

/// The parser state after the first `k` lines.
pub open spec fn bookmark_lines_state(lines: Seq<Seq<char>>, k: int, page_count: usize) -> (
    Seq<BookmarkModel>,
    Option<RawModel>,
)
    decreases k,
{
    if k <= 0 {
        (Seq::empty(), None)
    } else {
        bookmark_line_step(bookmark_lines_state(lines, k - 1, page_count), lines[k - 1], page_count)
    }
}

/// The bookmarks of `pdftk dump_data_utf8` output: one per
/// `BookmarkBegin` block that has a non-blank title.
pub open spec fn parse_pdftk_bookmarks_spec(data: Seq<char>, page_count: usize) -> Seq<
    BookmarkModel,
> {
    let ls = lines_spec(data);
    let state = bookmark_lines_state(ls, ls.len() as int, page_count);
    finish_raw_spec(state.0, state.1, page_count)
}

/// The block being read, with plain fields.
struct RawBookmark {
    title: Option<Vec<char>>,
    level: Option<u16>,
    page_number: Option<usize>,
}

spec fn raw_model(raw: Option<RawBookmark>) -> Option<RawModel> {
    match raw {
        None => None,
        Some(r) => Some(
            (
                match r.title {
                    Some(t) => Some(t@),
                    None => None,
                },
                r.level,
                r.page_number,
            ),
        ),
    }
}

fn finish_raw_bookmark(bookmarks: &mut Vec<PdfBookmark>, raw: Option<RawBookmark>, page_count: usize)
    requires
        forall|i: int| 0 <= i < old(bookmarks)@.len() ==> #[trigger] old(bookmarks)@[i].id == i,
    ensures
        bookmarks_model(final(bookmarks)@) == finish_raw_spec(
            bookmarks_model(old(bookmarks)@),
            raw_model(raw),
            page_count,
        ),
        forall|i: int| 0 <= i < final(bookmarks)@.len() ==> #[trigger] final(bookmarks)@[i].id == i,
{
    let Some(raw) = raw else {
        return;
    };
    let title = match raw.title {
        Some(t) => t,
        None => Vec::new(),
    };
    if is_blank(&title) {
        return;
    }
    let number = match raw.page_number {
        Some(n) => if n < 1 {
            1
        } else {
            n
        },
        None => 1,
    };
    let last = page_count.saturating_sub(1);
    let page_index = if number - 1 < last {
        number - 1
    } else {
        last
    };
    let level = match raw.level {
        Some(l) => if l < 1 {
            1
        } else {
            l
        },
        None => 1,
    };
    let ghost before = bookmarks@;
    let title_string = string_of(&title);
    bookmarks.push(PdfBookmark { id: bookmarks.len(), title: title_string, level, page_index });
    proof {
        assert(bookmarks_model(bookmarks@) =~= bookmarks_model(before).push(
            (before.len() as usize, title@, level, page_index),
        ));
    }
}

/// Bookmarks reported by `pdftk dump_data_utf8`, in order, with ids
/// numbering them from 0.
pub fn parse_pdftk_bookmarks(data: &str, page_count: usize) -> (bookmarks: Vec<PdfBookmark>)
    ensures
        bookmarks_model(bookmarks@) == parse_pdftk_bookmarks_spec(data@, page_count),
        forall|i: int| 0 <= i < bookmarks@.len() ==> #[trigger] bookmarks@[i].id == i,
{
    let all = lines(data);
    let ghost ls = lines_spec(data@);
    let mut bookmarks: Vec<PdfBookmark> = Vec::new();
    let mut current: Option<RawBookmark> = None;
    let mut k: usize = 0;
    proof {
        assert(bookmarks_model(bookmarks@) =~= Seq::<BookmarkModel>::empty());
    }
    while k < all.len()
        invariant
            all@.len() == ls.len(),
            forall|j: int| 0 <= j < all@.len() ==> #[trigger] all@[j]@ == ls[j],
            k <= all@.len(),
            (bookmarks_model(bookmarks@), raw_model(current)) == bookmark_lines_state(
                ls,
                k as int,
                page_count,
            ),
            forall|i: int| 0 <= i < bookmarks@.len() ==> #[trigger] bookmarks@[i].id == i,
        decreases all@.len() - k,
    {
        let line = &all[k];
        proof {
            assert(line@ == ls[k as int]);
        }
        let ghost state = (bookmarks_model(bookmarks@), raw_model(current));
        if chars_eq(line, "BookmarkBegin") {
            let taken = current;
            current = Some(RawBookmark { title: None, level: None, page_number: None });
            finish_raw_bookmark(&mut bookmarks, taken, page_count);
        } else {
            match current {
                None => {},
                Some(raw) => {
                    let title_rest = strip_prefix(line, "BookmarkTitle:");
                    match title_rest {
                        Some(rest) => {
                            current = Some(RawBookmark { title: Some(trim_start(&rest)), level: raw.level, page_number: raw.page_number });
                        },
                        None => {
                            let level_rest = strip_prefix(line, "BookmarkLevel:");
                            match level_rest {
                                Some(rest) => {
                                    let parsed = parse_unsigned(&trim(&rest), 65535);
                                    let level = match parsed {
                                        Some(v) => Some(v as u16),
                                        None => None,
                                    };
                                    current = Some(RawBookmark { title: raw.title, level, page_number: raw.page_number });
                                },
                                None => {
                                    let page_rest = strip_prefix(line, "BookmarkPageNumber:");
                                    match page_rest {
                                        Some(rest) => {
                                            let parsed = parse_unsigned(&trim(&rest), usize::MAX as u64);
                                            let page_number = match parsed {
                                                Some(v) => Some(v as usize),
                                                None => None,
                                            };
                                            current = Some(RawBookmark { title: raw.title, level: raw.level, page_number });
                                        },
                                        None => {
                                            if ends_with(line, "Begin") {
                                                finish_raw_bookmark(&mut bookmarks, Some(raw), page_count);
                                                current = None;
                                            } else {
                                                current = Some(raw);
                                            }
                                        },
                                    }
                                },
                            }
                        },
                    }
                },
            }
        }
        proof {
            assert((bookmarks_model(bookmarks@), raw_model(current)) == bookmark_line_step(
                state,
                ls[k as int],
                page_count,
            ));
        }
        k += 1;
    }
    finish_raw_bookmark(&mut bookmarks, current, page_count);
    bookmarks
}


/// A copy of one line.
fn copy_line(line: &Vec<char>) -> (copy: Vec<char>)
    ensures
        copy@ == line@,
{
    slice_chars(line, 0, line.len())
}

/// The four lines of one bookmark in a `pdftk` update file.
pub open spec fn bookmark_block(b: BookmarkModel) -> Seq<Seq<char>> {
    seq![
        "BookmarkBegin"@,
        "BookmarkTitle: "@ + b.1,
        "BookmarkLevel: "@ + decimal_spec(
            if b.2 < 1 {
                1nat
            } else {
                b.2 as nat
            },
        ),
        "BookmarkPageNumber: "@ + decimal_spec((b.3 + 1) as nat),
    ]
}

/// The blocks of all bookmarks, in order.
pub open spec fn bookmark_blocks(bs: Seq<BookmarkModel>) -> Seq<Seq<char>>
    decreases bs.len(),
{
    if bs.len() == 0 {
        Seq::empty()
    } else {
        bookmark_blocks(bs.drop_last()) + bookmark_block(bs.last())
    }
}

/// The state of the scan that drops old bookmark blocks: the lines kept,
/// where the new blocks go, and whether a bookmark block is being
/// skipped.
pub type StripState = (Seq<Seq<char>>, Option<int>, bool);

/// One line of the scan: a `BookmarkBegin` line starts a block that runs
/// up to the next line ending in `Begin`; the new blocks go where the first
/// old block was, or else before the first `PageMediaBegin` line.
pub open spec fn strip_step(state: StripState, line: Seq<char>) -> StripState {
    let (kept, insert_at, skipping) = state;
    if line == "BookmarkBegin"@ {
        (
            kept,
            if insert_at is Some {
                insert_at
            } else {
                Some(kept.len() as int)
            },
            true,
        )
    } else if skipping && !has_suffix(line, "Begin"@) {
        state
    } else {
        (
            kept.push(line),
            if insert_at is None && line == "PageMediaBegin"@ {
                Some(kept.len() as int)
            } else {
                insert_at
            },
            false,
        )
    }
}

pub open spec fn strip_scan(lines: Seq<Seq<char>>, k: int) -> StripState
    decreases k,
{
    if k <= 0 {
        (Seq::empty(), None, false)
    } else {
        strip_step(strip_scan(lines, k - 1), lines[k - 1])
    }
}

/// Lines joined with `\n`, with a final `\n`.
pub open spec fn lines_text(ls: Seq<Seq<char>>) -> Seq<char>
    decreases ls.len(),
{
    if ls.len() == 0 {
        Seq::empty()
    } else {
        lines_text(ls.drop_last()) + ls.last() + seq!['\n']
    }
}

/// The lines of the `pdftk` update file: the dump with its bookmark blocks
/// replaced by blocks for `bs`.
pub open spec fn replaced_lines(data: Seq<char>, bs: Seq<BookmarkModel>) -> Seq<Seq<char>> {
    let ls = lines_spec(data);
    let (kept, insert_at, _) = strip_scan(ls, ls.len() as int);
    let at = match insert_at {
        Some(a) => a,
        None => kept.len() as int,
    };
    kept.take(at) + bookmark_blocks(bs) + kept.skip(at)
}

/// The text of the `pdftk` update file.
pub open spec fn replace_bookmarks_spec(data: Seq<char>, bs: Seq<BookmarkModel>) -> Seq<char> {
    let rendered = replaced_lines(data, bs);
    if rendered.len() == 0 {
        seq!['\n']
    } else {
        lines_text(rendered)
    }
}

proof fn lemma_strip_scan_bound(lines: Seq<Seq<char>>, k: int)
    requires
        0 <= k,
    ensures
        match strip_scan(lines, k).1 {
            Some(a) => 0 <= a <= strip_scan(lines, k).0.len(),
            None => true,
        },
    decreases k,
{
    if k > 0 {
        lemma_strip_scan_bound(lines, k - 1);
    }
}

/// The four lines of `bookmark`'s block.
fn push_bookmark_block(out: &mut Vec<Vec<char>>, bookmark: &PdfBookmark)
    requires
        bookmark.page_index < usize::MAX,
    ensures
        final(out)@.map_values(|l: Vec<char>| l@) == old(out)@.map_values(|l: Vec<char>| l@)
            + bookmark_block(bookmark_model(*bookmark)),
{
    let mut begin: Vec<char> = Vec::new();
    extend_str(&mut begin, "BookmarkBegin");
    let mut title: Vec<char> = Vec::new();
    extend_str(&mut title, "BookmarkTitle: ");
    extend_str(&mut title, bookmark.title.as_str());
    let mut level: Vec<char> = Vec::new();
    extend_str(&mut level, "BookmarkLevel: ");
    let shown_level: u16 = if bookmark.level < 1 {
        1
    } else {
        bookmark.level
    };
    push_decimal(&mut level, shown_level as u64);
    let mut page: Vec<char> = Vec::new();
    extend_str(&mut page, "BookmarkPageNumber: ");
    push_decimal(&mut page, bookmark.page_index as u64 + 1);
    let ghost before = out@;
    out.push(begin);
    out.push(title);
    out.push(level);
    out.push(page);
    proof {
        assert(out@.map_values(|l: Vec<char>| l@) =~= before.map_values(|l: Vec<char>| l@)
            + bookmark_block(bookmark_model(*bookmark)));
    }
}

/// The `pdftk dump_data_utf8` output `data` with its bookmark blocks
/// replaced by blocks for `bookmarks`, ready for `update_info_utf8`.
pub fn replace_bookmarks_in_pdftk_data(data: &str, bookmarks: &[PdfBookmark]) -> (update: String)
    requires
        forall|i: int| 0 <= i < bookmarks@.len() ==> #[trigger] bookmarks@[i].page_index < usize::MAX,
    ensures
        update@ == replace_bookmarks_spec(data@, bookmarks_model(bookmarks@)),
{
    let all = lines(data);
    let ghost ls = lines_spec(data@);
    let mut kept: Vec<Vec<char>> = Vec::new();
    let mut insert_at: Option<usize> = None;
    let mut skipping = false;
    let mut k: usize = 0;
    while k < all.len()
        invariant
            all@.len() == ls.len(),
            forall|j: int| 0 <= j < all@.len() ==> #[trigger] all@[j]@ == ls[j],
            k <= all@.len(),
            ({
                let st = strip_scan(ls, k as int);
                &&& kept@.map_values(|l: Vec<char>| l@) == st.0
                &&& skipping == st.2
                &&& match insert_at {
                    Some(a) => st.1 == Some(a as int),
                    None => st.1 is None,
                }
            }),
            kept@.len() <= k,
        decreases all@.len() - k,
    {
        let line = &all[k];
        proof {
            assert(line@ == ls[k as int]);
            lemma_strip_scan_bound(ls, k as int);
        }
        let ghost before = kept@;
        if chars_eq(line, "BookmarkBegin") {
            if insert_at.is_none() {
                insert_at = Some(kept.len());
            }
            skipping = true;
        } else if skipping && !ends_with(line, "Begin") {
        } else {
            if insert_at.is_none() && chars_eq(line, "PageMediaBegin") {
                insert_at = Some(kept.len());
            }
            kept.push(copy_line(line));
            skipping = false;
            proof {
                assert(kept@.map_values(|l: Vec<char>| l@) =~= before.map_values(|l: Vec<char>| l@).push(
                    line@,
                ));
            }
        }
        k += 1;
    }
    proof {
        lemma_strip_scan_bound(ls, k as int);
    }
    let at: usize = match insert_at {
        Some(a) => a,
        None => kept.len(),
    };
    let ghost kept_view = kept@.map_values(|l: Vec<char>| l@);
    let mut rendered: Vec<Vec<char>> = Vec::new();
    let mut i: usize = 0;
    while i < at
        invariant
            at <= kept@.len(),
            i <= at,
            kept_view == kept@.map_values(|l: Vec<char>| l@),
            rendered@.map_values(|l: Vec<char>| l@) == kept_view.take(i as int),
        decreases at - i,
    {
        let ghost before = rendered@;
        let line = copy_line(&kept[i]);
        rendered.push(line);
        proof {
            assert(rendered@.map_values(|l: Vec<char>| l@) =~= before.map_values(|l: Vec<char>| l@).push(
                line@,
            ));
            assert(kept_view[i as int] == kept@[i as int]@);
            assert(rendered@.map_values(|l: Vec<char>| l@) =~= kept_view.take(i + 1));
        }
        i += 1;
    }
    let mut b: usize = 0;
    while b < bookmarks.len()
        invariant
            b <= bookmarks@.len(),
            forall|j: int| 0 <= j < bookmarks@.len() ==> #[trigger] bookmarks@[j].page_index < usize::MAX,
            rendered@.map_values(|l: Vec<char>| l@) == kept_view.take(at as int) + bookmark_blocks(
                bookmarks_model(bookmarks@.take(b as int)),
            ),
        decreases bookmarks@.len() - b,
    {
        let ghost before = rendered@.map_values(|l: Vec<char>| l@);
        push_bookmark_block(&mut rendered, &bookmarks[b]);
        proof {
            let prefix = bookmarks_model(bookmarks@.take(b + 1));
            assert(prefix.drop_last() =~= bookmarks_model(bookmarks@.take(b as int)));
            assert(prefix.last() == bookmark_model(bookmarks@[b as int]));
            assert(rendered@.map_values(|l: Vec<char>| l@) =~= kept_view.take(at as int)
                + bookmark_blocks(prefix));
        }
        b += 1;
    }
    proof {
        assert(bookmarks@.take(b as int) =~= bookmarks@);
    }
    let ghost middle = rendered@.map_values(|l: Vec<char>| l@);
    let mut j: usize = at;
    while j < kept.len()
        invariant
            at <= j <= kept@.len(),
            kept_view == kept@.map_values(|l: Vec<char>| l@),
            rendered@.map_values(|l: Vec<char>| l@) == middle + kept_view.subrange(at as int, j as int),
        decreases kept@.len() - j,
    {
        let ghost before = rendered@;
        let line = copy_line(&kept[j]);
        rendered.push(line);
        proof {
            assert(rendered@.map_values(|l: Vec<char>| l@) =~= before.map_values(|l: Vec<char>| l@).push(
                line@,
            ));
            assert(kept_view[j as int] == kept@[j as int]@);
            assert(rendered@.map_values(|l: Vec<char>| l@) =~= middle + kept_view.subrange(
                at as int,
                j + 1,
            ));
        }
        j += 1;
    }
    proof {
        assert(kept_view.subrange(at as int, j as int) =~= kept_view.skip(at as int));
        assert(rendered@.map_values(|l: Vec<char>| l@) == replaced_lines(
            data@,
            bookmarks_model(bookmarks@),
        ));
    }
    let ghost target = rendered@.map_values(|l: Vec<char>| l@);
    let mut body: Vec<char> = Vec::new();
    let mut r: usize = 0;
    while r < rendered.len()
        invariant
            r <= rendered@.len(),
            target == rendered@.map_values(|l: Vec<char>| l@),
            body@ == lines_text(target.take(r as int)),
        decreases rendered@.len() - r,
    {
        extend_chars(&mut body, &rendered[r]);
        body.push('\n');
        proof {
            assert(target.take(r + 1).drop_last() =~= target.take(r as int));
        }
        r += 1;
    }
    proof {
        assert(target.take(r as int) =~= target);
    }
    if rendered.len() == 0 {
        body.push('\n');
        proof {
            assert(body@ =~= seq!['\n']);
        }
    }
    string_of(&body)
}

/// The fields two outlines are compared by: level, page and title of each
/// entry.
pub open spec fn signature_spec(bs: Seq<PdfBookmark>) -> Seq<(u16, usize, Seq<char>)> {
    bs.map_values(|b: PdfBookmark| (b.level, b.page_index, b.title@))
}

/// The level, page and title of each bookmark.
fn bookmark_signature<'a>(bookmarks: &'a [PdfBookmark]) -> (signature: Vec<(u16, usize, &'a str)>)
    ensures
        signature@.map_values(|e: (u16, usize, &str)| (e.0, e.1, e.2@)) == signature_spec(
            bookmarks@,
        ),
{
    let mut signature: Vec<(u16, usize, &'a str)> = Vec::new();
    let mut i: usize = 0;
    while i < bookmarks.len()
        invariant
            i <= bookmarks@.len(),
            signature@.map_values(|e: (u16, usize, &str)| (e.0, e.1, e.2@)) == signature_spec(
                bookmarks@.take(i as int),
            ),
        decreases bookmarks@.len() - i,
    {
        let b = &bookmarks[i];
        let ghost before = signature@;
        let title = b.title.as_str();
        signature.push((b.level, b.page_index, title));
        proof {
            assert(bookmarks@.take(i + 1) =~= bookmarks@.take(i as int).push(bookmarks@[i as int]));
            assert(signature@ =~= before.push((b.level, b.page_index, title)));
            assert(signature@.map_values(|e: (u16, usize, &str)| (e.0, e.1, e.2@)) =~= before.map_values(
                |e: (u16, usize, &str)| (e.0, e.1, e.2@),
            ).push((b.level, b.page_index, title@)));
            assert(signature@.map_values(|e: (u16, usize, &str)| (e.0, e.1, e.2@)) =~= signature_spec(
                bookmarks@.take(i + 1),
            ));
        }
        i += 1;
    }
    proof {
        assert(bookmarks@.take(i as int) =~= bookmarks@);
    }
    signature
}

/// Whether two outlines have the same levels, pages and titles.
fn same_signature(a: &[PdfBookmark], b: &[PdfBookmark]) -> (same: bool)
    ensures
        same == (signature_spec(a@) == signature_spec(b@)),
{
    let left = bookmark_signature(a);
    let right = bookmark_signature(b);
    let ghost lv = left@.map_values(|e: (u16, usize, &str)| (e.0, e.1, e.2@));
    let ghost rv = right@.map_values(|e: (u16, usize, &str)| (e.0, e.1, e.2@));
    if left.len() != right.len() {
        proof {
            assert(lv.len() != rv.len());
        }
        return false;
    }
    let mut i: usize = 0;
    while i < left.len()
        invariant
            i <= left@.len() == right@.len(),
            lv == left@.map_values(|e: (u16, usize, &str)| (e.0, e.1, e.2@)),
            lv == signature_spec(a@),
            rv == signature_spec(b@),
            rv == right@.map_values(|e: (u16, usize, &str)| (e.0, e.1, e.2@)),
            forall|j: int| 0 <= j < i ==> lv[j] == rv[j],
        decreases left@.len() - i,
    {
        let (l_level, l_page, l_title) = left[i];
        let (r_level, r_page, r_title) = right[i];
        if l_level != r_level || l_page != r_page || !str_eq(l_title, r_title) {
            proof {
                assert(lv[i as int] != rv[i as int]);
            }
            return false;
        }
        i += 1;
    }
    proof {
        assert(lv =~= rv);
    }
    true
}


/// `text` as an owned string.
fn owned(text: &str) -> (out: String)
    ensures
        out@ == text@,
{
    text.to_owned()
}

/// What one `[[bookmark]]` entry of an edited draft gives: its title,
/// level and page index, or why it is refused.
pub open spec fn bookmark_entry_spec(item: TomlValue, page_count: usize) -> Result<
    (Seq<char>, u16, usize),
    Seq<char>,
> {
    let limit: int = if page_count < 1 {
        1
    } else {
        page_count as int
    };
    match item {
        TomlValue::Table(_) => match get_spec(item, "level"@) {
            Some(TomlValue::Integer(level)) => match get_spec(item, "page"@) {
                Some(TomlValue::Integer(page)) => match get_spec(item, "title"@) {
                    Some(TomlValue::String(t)) => {
                        let title = trim_spec(t@);
                        if level < 1 {
                            Err("[[bookmark]] level must be >= 1"@)
                        } else if page < 1 || page > limit {
                            Err("[[bookmark]] page must be between 1 and "@ + decimal_spec(limit as nat))
                        } else if title.len() == 0 {
                            Err("[[bookmark]] title must not be empty"@)
                        } else {
                            Ok(
                                (
                                    title,
                                    if level > u16::MAX {
                                        u16::MAX
                                    } else {
                                        level as u16
                                    },
                                    (page - 1) as usize,
                                ),
                            )
                        }
                    },
                    _ => Err("[[bookmark]] title must be a string"@),
                },
                _ => Err("[[bookmark]] page must be an integer"@),
            },
            _ => Err("[[bookmark]] level must be an integer"@),
        },
        _ => Err("[[bookmark]] entries must be tables"@),
    }
}

/// The bookmarks of the `[[bookmark]]` entries, numbered from 0, or the
/// error of the first entry that is refused.
pub open spec fn bookmark_entries_spec(items: Seq<TomlValue>, page_count: usize) -> Result<
    Seq<BookmarkModel>,
    Seq<char>,
>
    decreases items.len(),
{
    if items.len() == 0 {
        Ok(Seq::empty())
    } else {
        match bookmark_entries_spec(items.drop_last(), page_count) {
            Err(e) => Err(e),
            Ok(prev) => match bookmark_entry_spec(items.last(), page_count) {
                Err(e) => Err(e),
                Ok((title, level, page_index)) => Ok(
                    prev.push((prev.len() as usize, title, level, page_index)),
                ),
            },
        }
    }
}

/// The level, page and title of each bookmark model.
pub open spec fn model_signature(bs: Seq<BookmarkModel>) -> Seq<(u16, usize, Seq<char>)> {
    bs.map_values(|b: BookmarkModel| (b.2, b.3, b.1))
}

/// What an edited bookmark draft asks for: `None` when the outline is
/// unchanged, else the new outline; or why the draft is refused.
pub open spec fn bookmark_changes_spec(
    original: Seq<PdfBookmark>,
    edited: Seq<char>,
    page_count: usize,
) -> Result<Option<Seq<BookmarkModel>>, Seq<char>> {
    match toml_document(edited) {
        Err(m) => Err("bookmark draft is not valid TOML: "@ + m),
        Ok(doc) => {
            let parsed = match get_spec(doc, "bookmark"@) {
                Some(TomlValue::Array(items)) => bookmark_entries_spec(items@, page_count),
                Some(_) => Err("bookmark draft [[bookmark]] entries must be tables"@),
                None => Ok(Seq::empty()),
            };
            match parsed {
                Err(e) => Err(e),
                Ok(bs) => if signature_spec(original) == model_signature(bs) {
                    Ok(None)
                } else {
                    Ok(Some(bs))
                },
            }
        },
    }
}

/// Reads one `[[bookmark]]` entry.
fn parse_bookmark_entry(item: &TomlValue, page_count: usize) -> (entry: Result<
    (String, u16, usize),
    String,
>)
    ensures
        match (entry, bookmark_entry_spec(*item, page_count)) {
            (Ok(e), Ok(s)) => e.0@ == s.0 && e.1 == s.1 && e.2 == s.2,
            (Err(e), Err(s)) => e@ == s,
            _ => false,
        },
{
    let limit: usize = if page_count < 1 {
        1
    } else {
        page_count
    };
    match item {
        TomlValue::Table(_) => {},
        _ => return Err(owned("[[bookmark]] entries must be tables")),
    }
    let level = match item.get("level") {
        Some(v) => match v.as_integer() {
            Some(n) => n,
            None => return Err(owned("[[bookmark]] level must be an integer")),
        },
        None => return Err(owned("[[bookmark]] level must be an integer")),
    };
    let page = match item.get("page") {
        Some(v) => match v.as_integer() {
            Some(n) => n,
            None => return Err(owned("[[bookmark]] page must be an integer")),
        },
        None => return Err(owned("[[bookmark]] page must be an integer")),
    };
    let raw_title = match item.get("title") {
        Some(v) => match v.as_str() {
            Some(t) => t,
            None => return Err(owned("[[bookmark]] title must be a string")),
        },
        None => return Err(owned("[[bookmark]] title must be a string")),
    };
    let title = trim(&chars_of(raw_title));
    if level < 1 {
        return Err(owned("[[bookmark]] level must be >= 1"));
    }
    if page < 1 || page as u64 > limit as u64 {
        let mut message: Vec<char> = Vec::new();
        extend_str(&mut message, "[[bookmark]] page must be between 1 and ");
        push_decimal(&mut message, limit as u64);
        return Err(string_of(&message));
    }
    if title.len() == 0 {
        return Err(owned("[[bookmark]] title must not be empty"));
    }
    let level16: u16 = if level > 65535 {
        65535
    } else {
        level as u16
    };
    Ok((string_of(&title), level16, (page - 1) as usize))
}

/// Reads the `[[bookmark]]` entries of an edited draft.
fn parse_bookmark_array(items: &Vec<TomlValue>, page_count: usize) -> (parsed: Result<
    Vec<PdfBookmark>,
    String,
>)
    ensures
        match (parsed, bookmark_entries_spec(items@, page_count)) {
            (Ok(bs), Ok(s)) => bookmarks_model(bs@) == s,
            (Err(e), Err(s)) => e@ == s,
            _ => false,
        },
{
    let mut bookmarks: Vec<PdfBookmark> = Vec::new();
    let mut i: usize = 0;
    proof {
        assert(items@.take(0) =~= Seq::<TomlValue>::empty());
        assert(bookmarks_model(bookmarks@) =~= Seq::<BookmarkModel>::empty());
    }
    while i < items.len()
        invariant
            i <= items@.len(),
            bookmark_entries_spec(items@.take(i as int), page_count) == Ok::<
                Seq<BookmarkModel>,
                Seq<char>,
            >(bookmarks_model(bookmarks@)),
        decreases items@.len() - i,
    {
        proof {
            assert(items@.take(i + 1).drop_last() =~= items@.take(i as int));
        }
        match parse_bookmark_entry(&items[i], page_count) {
            Err(e) => {
                proof {
                    lemma_entries_error_sticks(items@, page_count, i as int + 1);
                }
                return Err(e);
            },
            Ok((title, level, page_index)) => {
                let ghost before = bookmarks@;
                bookmarks.push(PdfBookmark { id: bookmarks.len(), title, level, page_index });
                proof {
                    assert(bookmarks_model(bookmarks@) =~= bookmarks_model(before).push(
                        (before.len() as usize, title@, level, page_index),
                    ));
                }
            },
        }
        i += 1;
    }
    proof {
        assert(items@.take(i as int) =~= items@);
    }
    Ok(bookmarks)
}

/// Once an entry is refused, the whole array is refused with its error.
proof fn lemma_entries_error_sticks(items: Seq<TomlValue>, page_count: usize, k: int)
    requires
        0 <= k <= items.len(),
        bookmark_entries_spec(items.take(k), page_count) is Err,
    ensures
        bookmark_entries_spec(items, page_count) == bookmark_entries_spec(items.take(k), page_count),
    decreases items.len() - k,
{
    if k < items.len() {
        assert(items.take(k + 1).drop_last() =~= items.take(k));
        lemma_entries_error_sticks(items, page_count, k + 1);
    } else {
        assert(items.take(k) =~= items);
    }
}

/// Reads an edited bookmark draft: `Ok(None)` when the outline is
/// unchanged, else the new outline; an error when the draft is not TOML or
/// an entry is refused.
pub fn bookmark_changes_from_edit(original: &[PdfBookmark], edited: &str, page_count: usize) -> (changes: Result<
    Option<BookmarkEdit>,
    String,
>)
    ensures
        match (changes, bookmark_changes_spec(original@, edited@, page_count)) {
            (Ok(None), Ok(None)) => true,
            (Ok(Some(edit)), Ok(Some(bs))) => bookmarks_model(edit.bookmarks@) == bs
                && edit.original_count == original@.len(),
            (Err(e), Err(s)) => e@ == s,
            _ => false,
        },
{
    let document = match parse_toml_document(edited) {
        Ok(v) => v,
        Err(message) => {
            let mut text: Vec<char> = Vec::new();
            extend_str(&mut text, "bookmark draft is not valid TOML: ");
            extend_str(&mut text, message.as_str());
            return Err(string_of(&text));
        },
    };
    let bookmarks = match document.get("bookmark") {
        Some(TomlValue::Array(items)) => match parse_bookmark_array(items, page_count) {
            Ok(bs) => bs,
            Err(e) => return Err(e),
        },
        Some(_) => return Err(owned("bookmark draft [[bookmark]] entries must be tables")),
        None => {
            let empty: Vec<PdfBookmark> = Vec::new();
            proof {
                assert(bookmarks_model(empty@) =~= Seq::<BookmarkModel>::empty());
            }
            empty
        },
    };
    proof {
        assert(signature_spec(bookmarks@) =~= model_signature(bookmarks_model(bookmarks@)));
    }
    if same_signature(original, &bookmarks) {
        return Ok(None);
    }
    Ok(Some(BookmarkEdit { bookmarks, original_count: original.len() }))
}


/// The block of one bookmark in the edit draft.
pub open spec fn draft_entry(b: BookmarkModel) -> Seq<char> {
    "[[bookmark]]\nlevel = "@ + decimal_spec(
        if b.2 < 1 {
            1nat
        } else {
            b.2 as nat
        },
    ) + "\npage = "@ + decimal_spec((b.3 + 1) as nat) + "\ntitle = "@ + toml_string_spec(b.1)
        + "\n\n"@
}

pub open spec fn draft_entries(bs: Seq<BookmarkModel>) -> Seq<char>
    decreases bs.len(),
{
    if bs.len() == 0 {
        Seq::empty()
    } else {
        draft_entries(bs.drop_last()) + draft_entry(bs.last())
    }
}

/// The comment lines that open the bookmark draft.
pub open spec fn bookmarks_draft_header() -> Seq<char> {
    "# Edit PDF bookmarks. Save and exit to continue.\n# pdf-tui will ask for confirmation before writing changes.\n# Delete a [[bookmark]] block to remove it; add a block to create one.\n# level is 1-based tree depth; page is 1-based PDF page number.\n"@
}

/// The TOML draft offered for editing the outline of the document at
/// `path_text` (the path as displayed).
pub open spec fn bookmarks_draft_spec(path_text: Seq<char>, bs: Seq<BookmarkModel>, page_count: usize) -> Seq<
    char,
> {
    bookmarks_draft_header() + "# file = "@ + debug_quoted(path_text) + "\n"@ + "# pages = "@
        + decimal_spec(page_count as nat) + "\n\n"@ + draft_entries(bs)
}

/// The TOML draft offered for editing the outline: a comment header, then
/// one `[[bookmark]]` block per entry with its level, 1-based page and
/// title.
pub fn bookmarks_edit_draft(path_text: &str, bookmarks: &[PdfBookmark], page_count: usize) -> (draft:
    String)
    requires
        forall|i: int| 0 <= i < bookmarks@.len() ==> #[trigger] bookmarks@[i].page_index < usize::MAX,
    ensures
        draft@ == bookmarks_draft_spec(path_text@, bookmarks_model(bookmarks@), page_count),
{
    let mut out: Vec<char> = Vec::new();
    extend_str(
        &mut out,
        "# Edit PDF bookmarks. Save and exit to continue.\n# pdf-tui will ask for confirmation before writing changes.\n# Delete a [[bookmark]] block to remove it; add a block to create one.\n# level is 1-based tree depth; page is 1-based PDF page number.\n",
    );
    extend_str(&mut out, "# file = ");
    let quoted = debug_string(path_text);
    extend_str(&mut out, quoted.as_str());
    extend_str(&mut out, "\n");
    extend_str(&mut out, "# pages = ");
    push_decimal(&mut out, page_count as u64);
    extend_str(&mut out, "\n\n");
    let ghost head = out@;
    let mut i: usize = 0;
    proof {
        assert(bookmarks_model(bookmarks@.take(0)) =~= Seq::<BookmarkModel>::empty());
        assert(out@ =~= head + draft_entries(bookmarks_model(bookmarks@.take(0))));
    }
    while i < bookmarks.len()
        invariant
            i <= bookmarks@.len(),
            forall|j: int| 0 <= j < bookmarks@.len() ==> #[trigger] bookmarks@[j].page_index < usize::MAX,
            out@ == head + draft_entries(bookmarks_model(bookmarks@.take(i as int))),
        decreases bookmarks@.len() - i,
    {
        let b = &bookmarks[i];
        let ghost before = out@;
        extend_str(&mut out, "[[bookmark]]\nlevel = ");
        let level: u16 = if b.level < 1 {
            1
        } else {
            b.level
        };
        push_decimal(&mut out, level as u64);
        extend_str(&mut out, "\npage = ");
        push_decimal(&mut out, b.page_index as u64 + 1);
        extend_str(&mut out, "\ntitle = ");
        push_toml_string(&mut out, &chars_of(b.title.as_str()));
        extend_str(&mut out, "\n\n");
        proof {
            let prefix = bookmarks_model(bookmarks@.take(i + 1));
            assert(prefix.drop_last() =~= bookmarks_model(bookmarks@.take(i as int)));
            assert(prefix.last() == bookmark_model(*b));
            assert(out@ =~= before + draft_entry(bookmark_model(*b)));
            assert(out@ =~= head + draft_entries(prefix));
        }
        i += 1;
    }
    proof {
        assert(bookmarks@.take(i as int) =~= bookmarks@);
        assert(out@ =~= bookmarks_draft_spec(path_text@, bookmarks_model(bookmarks@), page_count));
    }
    string_of(&out)
}


/// A bookmark as the outline holds it: numbered by position, a title that
/// is not blank, a level of at least 1, and a page inside the document
/// (page 0 for an empty one).
pub open spec fn valid_bookmarks(bs: Seq<BookmarkModel>, page_count: usize) -> bool {
    forall|i: int|
        0 <= i < bs.len() ==> {
            &&& #[trigger] bs[i].0 == i
            &&& trim_spec(bs[i].1).len() > 0
            &&& bs[i].2 >= 1
            &&& (bs[i].3 < page_count || bs[i].3 == 0)
        }
}

#[verifier::spinoff_prover]
proof fn lemma_finish_raw_valid(bs: Seq<BookmarkModel>, raw: Option<RawModel>, page_count: usize)
    requires
        valid_bookmarks(bs, page_count),
        bs.len() < usize::MAX,
    ensures
        valid_bookmarks(finish_raw_spec(bs, raw, page_count), page_count),
        finish_raw_spec(bs, raw, page_count).len() <= bs.len() + 1,
{
    let out = finish_raw_spec(bs, raw, page_count);
    assert forall|i: int| 0 <= i < out.len() implies {
        &&& #[trigger] out[i].0 == i
        &&& trim_spec(out[i].1).len() > 0
        &&& out[i].2 >= 1
        &&& (out[i].3 < page_count || out[i].3 == 0)
    } by {
        if i < bs.len() {
            assert(out[i] == bs[i]);
            assert(bs[i].0 == i);
        } else {
            match raw {
                Some((title, level, page_number)) => {
                    let number: int = match page_number {
                        Some(n) => if n < 1 {
                            1
                        } else {
                            n as int
                        },
                        None => 1,
                    };
                    let last: int = if page_count >= 1 {
                        page_count - 1
                    } else {
                        0
                    };
                    let page_index: int = if number - 1 < last {
                        number - 1
                    } else {
                        last
                    };
                    assert(0 <= page_index <= last);
                    assert(out[i].3 == page_index as usize);
                    assert(out[i].3 < page_count || out[i].3 == 0);
                    assert(out[i].2 >= 1);
                    assert(out[i].0 == i);
                    assert(trim_spec(out[i].1).len() > 0);
                },
                None => {},
            }
        }
    }
}

proof fn lemma_lines_state_valid(lines: Seq<Seq<char>>, k: int, page_count: usize)
    requires
        0 <= k <= lines.len(),
        lines.len() < usize::MAX,
    ensures
        valid_bookmarks(bookmark_lines_state(lines, k, page_count).0, page_count),
        bookmark_lines_state(lines, k, page_count).0.len() <= k,
    decreases k,
{
    if k > 0 {
        lemma_lines_state_valid(lines, k - 1, page_count);
        let st = bookmark_lines_state(lines, k - 1, page_count);
        lemma_finish_raw_valid(st.0, st.1, page_count);
    }
}

/// Every bookmark read from `pdftk` output is numbered by its position,
/// has a title that is not blank, a level of at least 1, and a page inside
/// the document.
pub proof fn lemma_parsed_bookmarks_valid(data: Seq<char>, page_count: usize)
    requires
        lines_spec(data).len() < usize::MAX - 1,
    ensures
        valid_bookmarks(parse_pdftk_bookmarks_spec(data, page_count), page_count),
{
    let ls = lines_spec(data);
    lemma_lines_state_valid(ls, ls.len() as int, page_count);
    let st = bookmark_lines_state(ls, ls.len() as int, page_count);
    lemma_finish_raw_valid(st.0, st.1, page_count);
}

/// A draft entry that reads back as bookmark `b`: a table whose level,
/// page number (from 1) and title are those of `b`.
pub open spec fn entry_reads_as(item: TomlValue, b: PdfBookmark) -> bool {
    &&& item is Table
    &&& get_spec(item, "level"@) == Some(TomlValue::Integer(b.level as i64))
    &&& get_spec(item, "page"@) == Some(TomlValue::Integer((b.page_index + 1) as i64))
    &&& get_spec(item, "title"@) matches Some(TomlValue::String(t)) && t@ == b.title@
}

/// An outline the draft can show as it is: levels of at least 1, pages
/// inside the document, titles that are not blank and have no surrounding
/// whitespace.
pub open spec fn draftable(original: Seq<PdfBookmark>, page_count: usize) -> bool {
    &&& page_count < i64::MAX
    &&& forall|i: int|
        0 <= i < original.len() ==> {
            &&& #[trigger] original[i].level >= 1
            &&& original[i].page_index < page_count
            &&& trim_spec(original[i].title@) == original[i].title@
            &&& original[i].title@.len() > 0
        }
}

proof fn lemma_entries_read_back(items: Seq<TomlValue>, original: Seq<PdfBookmark>, page_count: usize)
    requires
        draftable(original, page_count),
        items.len() == original.len(),
        forall|i: int| 0 <= i < items.len() ==> #[trigger] entry_reads_as(items[i], original[i]),
    ensures
        bookmark_entries_spec(items, page_count) matches Ok(bs) && model_signature(bs)
            == signature_spec(original),
    decreases items.len(),
{
    if items.len() > 0 {
        let n = items.len() - 1;
        assert forall|i: int| 0 <= i < items.drop_last().len() implies #[trigger] entry_reads_as(
            items.drop_last()[i],
            original.drop_last()[i],
        ) by {
            assert(entry_reads_as(items[i], original[i]));
        }
        assert forall|i: int| 0 <= i < original.drop_last().len() implies {
            &&& #[trigger] original.drop_last()[i].level >= 1
            &&& original.drop_last()[i].page_index < page_count
            &&& trim_spec(original.drop_last()[i].title@) == original.drop_last()[i].title@
            &&& original.drop_last()[i].title@.len() > 0
        } by {
            assert(original[i].level >= 1);
        }
        lemma_entries_read_back(items.drop_last(), original.drop_last(), page_count);
        let b = original[n];
        assert(entry_reads_as(items[n], b));
        assert(b.level >= 1);
        let prev = bookmark_entries_spec(items.drop_last(), page_count)->Ok_0;
        let entry = bookmark_entry_spec(items.last(), page_count);
        assert(entry == Ok::<(Seq<char>, u16, usize), Seq<char>>((b.title@, b.level, b.page_index)));
        let bs = prev.push((prev.len() as usize, b.title@, b.level, b.page_index));
        assert(model_signature(bs) =~= signature_spec(original)) by {
            assert(model_signature(prev) == signature_spec(original.drop_last()));
            assert(model_signature(prev).len() == prev.len());
            assert(prev.len() == n);
            assert(bs.len() == original.len());
            assert forall|i: int| 0 <= i < original.len() implies model_signature(bs)[i] == signature_spec(original)[i] by {
                if i < n {
                    assert(bs[i] == prev[i]);
                    assert(model_signature(prev)[i] == signature_spec(original.drop_last())[i]);
                    assert(original.drop_last()[i] == original[i]);
                } else {
                    assert(bs[i] == (prev.len() as usize, b.title@, b.level, b.page_index));
                }
            }
        }
    } else {
        assert(model_signature(Seq::<BookmarkModel>::empty()) =~= signature_spec(original));
    }
}

/// Saving a bookmarks draft unedited reports no change: when the TOML
/// reader gives back the entries the draft wrote (each bookmark's level,
/// page number and title, in order), the outline read from them is the
/// original one.
pub proof fn lemma_unedited_bookmarks_draft_is_no_change(
    original: Seq<PdfBookmark>,
    edited: Seq<char>,
    doc: TomlValue,
    items: Vec<TomlValue>,
    page_count: usize,
)
    requires
        draftable(original, page_count),
        toml_document(edited) == Ok::<TomlValue, Seq<char>>(doc),
        get_spec(doc, "bookmark"@) == Some(TomlValue::Array(items)),
        items@.len() == original.len(),
        forall|i: int| 0 <= i < items@.len() ==> #[trigger] entry_reads_as(items@[i], original[i]),
    ensures
        bookmark_changes_spec(original, edited, page_count) == Ok::<Option<Seq<BookmarkModel>>, Seq<char>>(None),
{
    lemma_entries_read_back(items@, original, page_count);
}

/// A line that reads back as itself once written with a `\n` after it:
/// it holds no `\n` and does not end with `\r`.
pub open spec fn plain_line(l: Seq<char>) -> bool {
    &&& !l.contains('\n')
    &&& !(l.len() > 0 && l.last() == '\r')
}

proof fn lemma_lines_text_front(ls: Seq<Seq<char>>)
    requires
        ls.len() > 0,
    ensures
        lines_text(ls) == ls[0] + seq!['\n'] + lines_text(ls.drop_first()),
    decreases ls.len(),
{
    if ls.len() == 1 {
        assert(ls.drop_last() =~= Seq::<Seq<char>>::empty());
        assert(ls.drop_first() =~= Seq::<Seq<char>>::empty());
        assert(lines_text(ls) =~= ls[0] + seq!['\n'] + lines_text(ls.drop_first()));
    } else {
        lemma_lines_text_front(ls.drop_last());
        assert(ls.drop_last().drop_first() =~= ls.drop_first().drop_last());
        assert(ls.drop_last()[0] == ls[0]);
        assert(ls.drop_first().last() == ls.last());
        assert(lines_text(ls) =~= ls[0] + seq!['\n'] + lines_text(ls.drop_first()));
    }
}

/// Lines without `\n` written one after another, each with a `\n`, read
/// back as themselves, less a `\r` that ends one.
pub proof fn lemma_lines_read_back(ls: Seq<Seq<char>>)
    requires
        forall|k: int| 0 <= k < ls.len() ==> !(#[trigger] ls[k]).contains('\n'),
    ensures
        lines_spec(lines_text(ls)) == ls.map_values(|l: Seq<char>| line_body(l, true)),
    decreases ls.len(),
{
    if ls.len() == 0 {
        assert(lines_spec(lines_text(ls)) =~= ls.map_values(|l: Seq<char>| line_body(l, true)));
    } else {
        lemma_lines_text_front(ls);
        let l0 = ls[0];
        let rest = lines_text(ls.drop_first());
        let text = l0 + seq!['\n'] + rest;
        assert(!l0.contains('\n'));
        assert forall|j: int| 0 <= j < l0.len() implies text[j] != '\n' by {
            assert(text[j] == l0[j]);
            if l0[j] == '\n' {
                assert(l0.contains('\n'));
            }
        }
        assert(text[l0.len() as int] == '\n');
        crate::text::lemma_first_index_of(text, '\n', l0.len() as int);
        assert(text.take(l0.len() as int) =~= l0);
        assert(text.skip(l0.len() as int + 1) =~= rest);
        assert forall|k: int| 0 <= k < ls.drop_first().len() implies !(#[trigger] ls.drop_first()[k]).contains(
            '\n',
        ) by {
            assert(ls.drop_first()[k] == ls[k + 1]);
        }
        lemma_lines_read_back(ls.drop_first());
        assert(lines_spec(text) =~= seq![line_body(l0, true)] + ls.drop_first().map_values(
            |l: Seq<char>| line_body(l, true),
        ));
        assert(seq![line_body(l0, true)] + ls.drop_first().map_values(|l: Seq<char>| line_body(l, true))
            =~= ls.map_values(|l: Seq<char>| line_body(l, true)));
    }
}

/// No line that `str::lines` yields holds a `\n`.
proof fn lemma_lines_hold_no_newline(s: Seq<char>)
    ensures
        forall|k: int| 0 <= k < lines_spec(s).len() ==> !(#[trigger] lines_spec(s)[k]).contains('\n'),
    decreases s.len(),
{
    if s.len() > 0 {
        let i = first_index_of(s, '\n');
        crate::text::lemma_first_index_bound(s, '\n');
        if i < s.len() {
            lemma_lines_hold_no_newline(s.skip(i + 1));
            let first = line_body(s.take(i), true);
            assert(!first.contains('\n')) by {
                if first.contains('\n') {
                    let j = choose|j: int| 0 <= j < first.len() && first[j] == '\n';
                    assert(s[j] == '\n');
                }
            }
            assert forall|k: int| 0 <= k < lines_spec(s).len() implies !(#[trigger] lines_spec(s)[k]).contains('\n') by {
                if k > 0 {
                    assert(lines_spec(s)[k] == lines_spec(s.skip(i + 1))[k - 1]);
                }
            }
        } else {
            assert(!s.contains('\n')) by {
                if s.contains('\n') {
                    let j = choose|j: int| 0 <= j < s.len() && s[j] == '\n';
                    assert(s[j] != '\n');
                }
            }
        }
    }
}

/// The lines the scan keeps are lines it was given.
proof fn lemma_kept_lines_hold_no_newline(lines: Seq<Seq<char>>, k: int)
    requires
        0 <= k <= lines.len(),
        forall|i: int| 0 <= i < lines.len() ==> !(#[trigger] lines[i]).contains('\n'),
    ensures
        forall|j: int|
            0 <= j < strip_scan(lines, k).0.len() ==> !(#[trigger] strip_scan(lines, k).0[j]).contains('\n'),
    decreases k,
{
    if k > 0 {
        lemma_kept_lines_hold_no_newline(lines, k - 1);
        let prev = strip_scan(lines, k - 1);
        assert(!lines[k - 1].contains('\n'));
        assert forall|j: int| 0 <= j < strip_scan(lines, k).0.len() implies !(#[trigger] strip_scan(
            lines,
            k,
        ).0[j]).contains('\n') by {
            if j < prev.0.len() {
                assert(strip_scan(lines, k).0[j] == prev.0[j]);
            }
        }
    }
}

/// The parser state after `ls`, from `st`.
pub open spec fn run_lines(
    st: (Seq<BookmarkModel>, Option<RawModel>),
    ls: Seq<Seq<char>>,
    page_count: usize,
) -> (Seq<BookmarkModel>, Option<RawModel>)
    decreases ls.len(),
{
    if ls.len() == 0 {
        st
    } else {
        bookmark_line_step(run_lines(st, ls.drop_last(), page_count), ls.last(), page_count)
    }
}

proof fn lemma_run_lines_state(ls: Seq<Seq<char>>, k: int, page_count: usize)
    requires
        0 <= k <= ls.len(),
    ensures
        bookmark_lines_state(ls, k, page_count) == run_lines(
            (Seq::<BookmarkModel>::empty(), None::<RawModel>),
            ls.take(k),
            page_count,
        ),
    decreases k,
{
    if k > 0 {
        lemma_run_lines_state(ls, k - 1, page_count);
        assert(ls.take(k).drop_last() =~= ls.take(k - 1));
        assert(ls.take(k).last() == ls[k - 1]);
    } else {
        assert(ls.take(0).len() == 0);
    }
}

proof fn lemma_run_lines_concat(
    st: (Seq<BookmarkModel>, Option<RawModel>),
    a: Seq<Seq<char>>,
    b: Seq<Seq<char>>,
    page_count: usize,
)
    ensures
        run_lines(st, a + b, page_count) == run_lines(run_lines(st, a, page_count), b, page_count),
    decreases b.len(),
{
    if b.len() == 0 {
        assert(a + b =~= a);
    } else {
        assert((a + b).drop_last() =~= a + b.drop_last());
        assert((a + b).last() == b.last());
        lemma_run_lines_concat(st, a, b.drop_last(), page_count);
    }
}

/// The fields a bookmark's block gives the parser.
pub open spec fn raw_of(b: BookmarkModel) -> Option<RawModel> {
    Some((Some(b.1), Some(b.2), Some((b.3 + 1) as usize)))
}

/// The parser state after the blocks of `bs`: all but the last bookmark
/// finished, the last one's fields read.
pub open spec fn after_blocks(bs: Seq<BookmarkModel>) -> (Seq<BookmarkModel>, Option<RawModel>) {
    if bs.len() == 0 {
        (Seq::empty(), None)
    } else {
        (bs.drop_last(), raw_of(bs.last()))
    }
}

/// An outline `pdftk` can take and give back unchanged: bookmarks numbered
/// by position, levels of at least 1, pages inside the document, titles
/// that are one plain line, not blank, and do not start with whitespace.
pub open spec fn writable_outline(bs: Seq<BookmarkModel>, page_count: usize) -> bool {
    forall|i: int|
        0 <= i < bs.len() ==> {
            &&& #[trigger] bs[i].0 == i
            &&& bs[i].2 >= 1
            &&& bs[i].3 < page_count
            &&& bs[i].1.len() > 0
            &&& !is_whitespace_spec(bs[i].1[0])
            &&& plain_line(bs[i].1)
        }
}

pub(crate) proof fn lemma_decimal_facts(n: nat)
    ensures
        decimal_spec(n).len() > 0,
        all_digits(decimal_spec(n)),
        digits_value(decimal_spec(n)) == n,
    decreases n,
{
    if n >= 10 {
        lemma_decimal_facts(n / 10);
        let d = decimal_spec(n / 10);
        let c = (('0' as u32) + (n % 10)) as char;
        assert(decimal_spec(n) == d.push(c));
        assert(d.push(c).drop_last() =~= d);
        assert(digit_value(c) == n % 10);
        assert(d.push(c).last() == c);
        assert(digits_value(d.push(c)) == digits_value(d) * 10 + digit_value(c));
        assert(n == (n / 10) * 10 + n % 10);
        assert forall|j: int| 0 <= j < d.push(c).len() implies is_digit(#[trigger] d.push(c)[j]) by {
            if j < d.len() {
                assert(d.push(c)[j] == d[j]);
            }
        }
    } else {
        let c = (('0' as u32) + n) as char;
        assert(decimal_spec(n) == seq![c]);
        assert(seq![c].drop_last() =~= Seq::<char>::empty());
        assert(seq![c].last() == c);
        assert(digit_value(c) == n);
        assert(digits_value(seq![c]) == digits_value(Seq::<char>::empty()) * 10 + digit_value(c));
    }
}

proof fn lemma_padded_decimal_reads_back(n: nat, max: nat)
    requires
        n <= max,
    ensures
        trim_spec(seq![' '] + decimal_spec(n)) == decimal_spec(n),
        trim_start_spec(seq![' '] + decimal_spec(n)) == decimal_spec(n),
        parse_unsigned_spec(trim_spec(seq![' '] + decimal_spec(n)), max) == Some(n),
        plain_line(decimal_spec(n)),
{
    lemma_decimal_facts(n);
    let d = decimal_spec(n);
    let s = seq![' '] + d;
    assert(is_digit(d[0]));
    assert(!is_whitespace_spec(d[0]));
    assert(s.drop_first() =~= d);
    assert(leading_ws(d) == 0);
    assert(leading_ws(s) == 1);
    assert(trim_start_spec(s) =~= d);
    assert(is_digit(d.last()));
    assert(trailing_ws(d) == 0);
    assert(trim_end_spec(d) =~= d);
    assert(d[0] != '+');
    if d.contains('\n') {
        let j = choose|j: int| 0 <= j < d.len() && d[j] == '\n';
        assert(is_digit(d[j]));
    }
}

proof fn lemma_title_reads_back(t: Seq<char>)
    requires
        t.len() > 0,
        !is_whitespace_spec(t[0]),
    ensures
        trim_start_spec(seq![' '] + t) == t,
        trim_spec(t).len() > 0,
{
    let s = seq![' '] + t;
    assert(s.drop_first() =~= t);
    assert(leading_ws(t) == 0);
    assert(leading_ws(s) == 1);
    assert(trim_start_spec(s) =~= t);
    assert(trim_start_spec(t) =~= t);
    crate::text::lemma_trailing_ws_bound(t);
    if trailing_ws(t) == t.len() {
        assert(is_whitespace_spec(t[0]));
    }
}

proof fn lemma_literal_facts()
    ensures
        "BookmarkBegin"@.len() == 13,
        "BookmarkTitle:"@.len() == 14,
        "BookmarkLevel:"@.len() == 14,
        "BookmarkPageNumber:"@.len() == 19,
        "BookmarkTitle: "@ == "BookmarkTitle:"@ + seq![' '],
        "BookmarkLevel: "@ == "BookmarkLevel:"@ + seq![' '],
        "BookmarkPageNumber: "@ == "BookmarkPageNumber:"@ + seq![' '],
        "BookmarkBegin"@[8] == 'B',
        "BookmarkTitle:"@[8] == 'T',
        "BookmarkLevel:"@[8] == 'L',
        "BookmarkPageNumber:"@[8] == 'P',
        "Begin"@.len() == 5,
        "Begin"@[0] == 'B',
        plain_line("BookmarkBegin"@),
        "BookmarkBegin"@.skip(8) == "Begin"@,
{
    reveal_strlit("BookmarkBegin");
    reveal_strlit("BookmarkTitle:");
    reveal_strlit("BookmarkLevel:");
    reveal_strlit("BookmarkPageNumber:");
    reveal_strlit("BookmarkTitle: ");
    reveal_strlit("BookmarkLevel: ");
    reveal_strlit("BookmarkPageNumber: ");
    reveal_strlit("Begin");
    assert("BookmarkTitle: "@ =~= "BookmarkTitle:"@ + seq![' ']);
    assert("BookmarkLevel: "@ =~= "BookmarkLevel:"@ + seq![' ']);
    assert("BookmarkPageNumber: "@ =~= "BookmarkPageNumber:"@ + seq![' ']);
    assert("BookmarkBegin"@.skip(8) =~= "Begin"@);
    if "BookmarkBegin"@.contains('\n') {
        let j = choose|j: int| 0 <= j < 13 && "BookmarkBegin"@[j] == '\n';
    }
}

/// `prefix + value` starts with `prefix` and is another line than any
/// starting with a prefix that differs from it at a common position.
proof fn lemma_prefixed(prefix: Seq<char>, value: Seq<char>)
    ensures
        has_prefix(prefix + value, prefix),
        (prefix + value).skip(prefix.len() as int) == value,
{
    assert((prefix + value).take(prefix.len() as int) =~= prefix);
    assert((prefix + value).skip(prefix.len() as int) =~= value);
}

proof fn lemma_block_step(bs: Seq<BookmarkModel>, b: BookmarkModel, page_count: usize)
    requires
        writable_outline(bs.push(b), page_count),
    ensures
        run_lines(after_blocks(bs), bookmark_block(b), page_count) == after_blocks(bs.push(b)),
{
    let all = bs.push(b);
    assert(all[bs.len() as int] == b);
    assert(all[bs.len() as int].0 == bs.len());
    assert(b.2 >= 1);
    lemma_literal_facts();
    let l0 = "BookmarkBegin"@;
    let l1 = "BookmarkTitle: "@ + b.1;
    let l2 = "BookmarkLevel: "@ + decimal_spec(b.2 as nat);
    let l3 = "BookmarkPageNumber: "@ + decimal_spec((b.3 + 1) as nat);
    let block = bookmark_block(b);
    assert(block =~= seq![l0, l1, l2, l3]);
    // The finished bookmarks before this block are `bs`.
    let st0 = after_blocks(bs);
    let done = finish_raw_spec(st0.0, st0.1, page_count);
    if bs.len() > 0 {
        let last = bs.last();
        assert(all[bs.len() - 1] == last);
        assert(all[bs.len() - 1].0 == bs.len() - 1);
        assert(bs.drop_last().push(last) =~= bs);
        lemma_title_reads_back(last.1);
    } else {
        assert(done =~= bs);
    }
    assert(done == bs);
    lemma_title_reads_back(b.1);
    lemma_padded_decimal_reads_back(b.2 as nat, u16::MAX as nat);
    lemma_padded_decimal_reads_back((b.3 + 1) as nat, usize::MAX as nat);
    // Line by line.
    lemma_prefixed("BookmarkTitle:"@, seq![' '] + b.1);
    lemma_prefixed("BookmarkLevel:"@, seq![' '] + decimal_spec(b.2 as nat));
    lemma_prefixed("BookmarkPageNumber:"@, seq![' '] + decimal_spec((b.3 + 1) as nat));
    assert(l1 =~= "BookmarkTitle:"@ + (seq![' '] + b.1));
    assert(l2 =~= "BookmarkLevel:"@ + (seq![' '] + decimal_spec(b.2 as nat)));
    assert(l3 =~= "BookmarkPageNumber:"@ + (seq![' '] + decimal_spec((b.3 + 1) as nat)));
    assert(l1[8] == 'T' && l2[8] == 'L' && l3[8] == 'P');
    assert(l1 != l0 && l2 != l0 && l3 != l0);
    assert(!has_prefix(l2, "BookmarkTitle:"@)) by {
        if has_prefix(l2, "BookmarkTitle:"@) {
            assert(l2.take(14)[8] == l2[8]);
        }
    }
    assert(!has_prefix(l3, "BookmarkTitle:"@)) by {
        if has_prefix(l3, "BookmarkTitle:"@) {
            assert(l3.take(14)[8] == l3[8]);
        }
    }
    assert(!has_prefix(l3, "BookmarkLevel:"@)) by {
        if has_prefix(l3, "BookmarkLevel:"@) {
            assert(l3.take(14)[8] == l3[8]);
        }
    }
    let s1 = bookmark_line_step(st0, l0, page_count);
    assert(s1 == (bs, Some((None::<Seq<char>>, None::<u16>, None::<usize>))));
    let s2 = bookmark_line_step(s1, l1, page_count);
    assert(s2 == (bs, Some((Some(b.1), None::<u16>, None::<usize>))));
    let s3 = bookmark_line_step(s2, l2, page_count);
    assert(s3 == (bs, Some((Some(b.1), Some(b.2), None::<usize>))));
    let s4 = bookmark_line_step(s3, l3, page_count);
    assert(s4 == (bs, raw_of(b)));
    let b1 = seq![l0];
    let b2 = seq![l0, l1];
    let b3 = seq![l0, l1, l2];
    assert(b1.drop_last() =~= Seq::<Seq<char>>::empty());
    assert(run_lines(st0, Seq::<Seq<char>>::empty(), page_count) == st0);
    assert(run_lines(st0, b1, page_count) == s1);
    assert(b2.drop_last() =~= b1);
    assert(run_lines(st0, b2, page_count) == s2);
    assert(b3.drop_last() =~= b2);
    assert(run_lines(st0, b3, page_count) == s3);
    assert(block.drop_last() =~= b3);
    assert(block.last() == l3);
    assert(run_lines(st0, block, page_count) == s4);
    assert(all.drop_last() =~= bs);
    assert(all.last() == b);
}

proof fn lemma_blocks_state(bs: Seq<BookmarkModel>, page_count: usize)
    requires
        writable_outline(bs, page_count),
    ensures
        run_lines((Seq::<BookmarkModel>::empty(), None::<RawModel>), bookmark_blocks(bs), page_count)
            == after_blocks(bs),
    decreases bs.len(),
{
    if bs.len() > 0 {
        assert forall|i: int| 0 <= i < bs.drop_last().len() implies {
            &&& #[trigger] bs.drop_last()[i].0 == i
            &&& bs.drop_last()[i].2 >= 1
            &&& bs.drop_last()[i].3 < page_count
            &&& bs.drop_last()[i].1.len() > 0
            &&& !is_whitespace_spec(bs.drop_last()[i].1[0])
            &&& plain_line(bs.drop_last()[i].1)
        } by {
            assert(bs.drop_last()[i] == bs[i]);
            assert(bs[i].0 == i);
        }
        lemma_blocks_state(bs.drop_last(), page_count);
        lemma_run_lines_concat(
            (Seq::<BookmarkModel>::empty(), None::<RawModel>),
            bookmark_blocks(bs.drop_last()),
            bookmark_block(bs.last()),
            page_count,
        );
        assert(bs.drop_last().push(bs.last()) =~= bs);
        lemma_block_step(bs.drop_last(), bs.last(), page_count);
    } else {
        assert(bookmark_blocks(bs) =~= Seq::<Seq<char>>::empty());
    }
}

proof fn lemma_finish_last(bs: Seq<BookmarkModel>, page_count: usize)
    requires
        writable_outline(bs, page_count),
    ensures
        finish_raw_spec(after_blocks(bs).0, after_blocks(bs).1, page_count) == bs,
{
    if bs.len() > 0 {
        let last = bs.last();
        assert(bs[bs.len() - 1].0 == bs.len() - 1);
        lemma_title_reads_back(last.1);
        assert(bs.drop_last().push(last) =~= bs);
    } else {
        assert(bs =~= Seq::<BookmarkModel>::empty());
    }
}

proof fn lemma_prefix_lines_keep_start(p: Seq<Seq<char>>, page_count: usize)
    requires
        forall|k: int| 0 <= k < p.len() ==> #[trigger] p[k] != "BookmarkBegin"@,
    ensures
        run_lines((Seq::<BookmarkModel>::empty(), None::<RawModel>), p, page_count) == (
            Seq::<BookmarkModel>::empty(),
            None::<RawModel>,
        ),
    decreases p.len(),
{
    if p.len() > 0 {
        assert(p[p.len() - 1] != "BookmarkBegin"@);
        assert forall|k: int| 0 <= k < p.drop_last().len() implies #[trigger] p.drop_last()[k]
            != "BookmarkBegin"@ by {
            assert(p.drop_last()[k] == p[k]);
        }
        lemma_prefix_lines_keep_start(p.drop_last(), page_count);
    }
}

/// A line the parser passes over inside a bookmark block.
pub open spec fn foreign_line(l: Seq<char>) -> bool {
    &&& l != "BookmarkBegin"@
    &&& !has_prefix(l, "BookmarkTitle:"@)
    &&& !has_prefix(l, "BookmarkLevel:"@)
    &&& !has_prefix(l, "BookmarkPageNumber:"@)
}

proof fn lemma_suffix_lines_finish(bs: Seq<BookmarkModel>, c: Seq<Seq<char>>, page_count: usize)
    requires
        writable_outline(bs, page_count),
        forall|k: int| 0 <= k < c.len() ==> foreign_line(#[trigger] c[k]),
    ensures
        run_lines(after_blocks(bs), c, page_count) == after_blocks(bs) || run_lines(
            after_blocks(bs),
            c,
            page_count,
        ) == (bs, None::<RawModel>),
    decreases c.len(),
{
    if c.len() > 0 {
        assert forall|k: int| 0 <= k < c.drop_last().len() implies foreign_line(#[trigger] c.drop_last()[k]) by {
            assert(c.drop_last()[k] == c[k]);
        }
        lemma_suffix_lines_finish(bs, c.drop_last(), page_count);
        assert(foreign_line(c[c.len() - 1]));
        lemma_finish_last(bs, page_count);
        if bs.len() == 0 {
            assert(bs =~= Seq::<BookmarkModel>::empty());
        }
    }
}

proof fn lemma_kept_lines_are_not_block_starts(lines: Seq<Seq<char>>, k: int)
    requires
        0 <= k,
    ensures
        forall|j: int|
            0 <= j < strip_scan(lines, k).0.len() ==> #[trigger] strip_scan(lines, k).0[j]
                != "BookmarkBegin"@,
    decreases k,
{
    if k > 0 {
        lemma_kept_lines_are_not_block_starts(lines, k - 1);
        let prev = strip_scan(lines, k - 1);
        assert forall|j: int| 0 <= j < strip_scan(lines, k).0.len() implies #[trigger] strip_scan(
            lines,
            k,
        ).0[j] != "BookmarkBegin"@ by {
            if j < prev.0.len() {
                assert(strip_scan(lines, k).0[j] == prev.0[j]);
            }
        }
    }
}

proof fn lemma_plain_concat(a: Seq<char>, b: Seq<char>)
    requires
        !a.contains('\n'),
        plain_line(b),
        b.len() > 0,
    ensures
        plain_line(a + b),
{
    if (a + b).contains('\n') {
        let j = choose|j: int| 0 <= j < (a + b).len() && (a + b)[j] == '\n';
        if j < a.len() {
            assert(a[j] == '\n');
        } else {
            assert(b[j - a.len()] == '\n');
        }
    }
    assert((a + b).last() == b.last());
}

proof fn lemma_blocks_plain(bs: Seq<BookmarkModel>, page_count: usize)
    requires
        writable_outline(bs, page_count),
    ensures
        forall|k: int| 0 <= k < bookmark_blocks(bs).len() ==> plain_line(#[trigger] bookmark_blocks(bs)[k]),
        bs.len() > 0 ==> bookmark_blocks(bs).len() > 0,
    decreases bs.len(),
{
    if bs.len() > 0 {
        assert forall|i: int| 0 <= i < bs.drop_last().len() implies {
            &&& #[trigger] bs.drop_last()[i].0 == i
            &&& bs.drop_last()[i].2 >= 1
            &&& bs.drop_last()[i].3 < page_count
            &&& bs.drop_last()[i].1.len() > 0
            &&& !is_whitespace_spec(bs.drop_last()[i].1[0])
            &&& plain_line(bs.drop_last()[i].1)
        } by {
            assert(bs.drop_last()[i] == bs[i]);
            assert(bs[i].0 == i);
        }
        lemma_blocks_plain(bs.drop_last(), page_count);
        let b = bs.last();
        assert(bs[bs.len() - 1].0 == bs.len() - 1);
        lemma_literal_facts();
        reveal_strlit("BookmarkTitle: ");
        reveal_strlit("BookmarkLevel: ");
        reveal_strlit("BookmarkPageNumber: ");
        lemma_padded_decimal_reads_back(b.2 as nat, u16::MAX as nat);
        lemma_padded_decimal_reads_back((b.3 + 1) as nat, usize::MAX as nat);
        lemma_decimal_facts(b.2 as nat);
        lemma_decimal_facts((b.3 + 1) as nat);
        assert(!"BookmarkTitle: "@.contains('\n')) by {
            if "BookmarkTitle: "@.contains('\n') {
                let j = choose|j: int| 0 <= j < 15 && "BookmarkTitle: "@[j] == '\n';
            }
        }
        assert(!"BookmarkLevel: "@.contains('\n')) by {
            if "BookmarkLevel: "@.contains('\n') {
                let j = choose|j: int| 0 <= j < 15 && "BookmarkLevel: "@[j] == '\n';
            }
        }
        assert(!"BookmarkPageNumber: "@.contains('\n')) by {
            if "BookmarkPageNumber: "@.contains('\n') {
                let j = choose|j: int| 0 <= j < 20 && "BookmarkPageNumber: "@[j] == '\n';
            }
        }
        lemma_plain_concat("BookmarkTitle: "@, b.1);
        lemma_plain_concat("BookmarkLevel: "@, decimal_spec(b.2 as nat));
        lemma_plain_concat("BookmarkPageNumber: "@, decimal_spec((b.3 + 1) as nat));
        let prev = bookmark_blocks(bs.drop_last());
        let block = bookmark_block(b);
        assert(block =~= seq![
            "BookmarkBegin"@,
            "BookmarkTitle: "@ + b.1,
            "BookmarkLevel: "@ + decimal_spec(b.2 as nat),
            "BookmarkPageNumber: "@ + decimal_spec((b.3 + 1) as nat),
        ]);
        assert forall|k: int| 0 <= k < bookmark_blocks(bs).len() implies plain_line(#[trigger] bookmark_blocks(bs)[k]) by {
            if k < prev.len() {
                assert(bookmark_blocks(bs)[k] == prev[k]);
            } else {
                assert(bookmark_blocks(bs)[k] == block[k - prev.len()]);
            }
        }
    }
}

/// Writing an outline into `pdftk` dump data and reading the update back
/// gives the outline: the old bookmark blocks are dropped and the new ones
/// parse to the same bookmarks. This holds when the outline can be
/// written as it is (see `writable_outline`) and no line of the dump
/// outside its bookmark blocks (the lines the update keeps) reads back as
/// a bookmark line; it does not when one does, since the parser then reads
/// it as part of the outline. No line starting with `Bookmark` outside the
/// blocks is enough.
pub proof fn lemma_pdftk_update_reads_back(data: Seq<char>, bs: Seq<BookmarkModel>, page_count: usize)
    requires
        writable_outline(bs, page_count),
        forall|k: int|
            0 <= k < strip_scan(lines_spec(data), lines_spec(data).len() as int).0.len()
                ==> foreign_line(
                line_body(#[trigger] strip_scan(lines_spec(data), lines_spec(data).len() as int).0[k], true),
            ),
    ensures
        parse_pdftk_bookmarks_spec(replace_bookmarks_spec(data, bs), page_count) == bs,
{
    let ls = lines_spec(data);
    let n = ls.len() as int;
    let (kept, insert_at, _) = strip_scan(ls, n);
    lemma_strip_scan_bound(ls, n);
    lemma_kept_lines_are_not_block_starts(ls, n);
    let at = match insert_at {
        Some(a) => a,
        None => kept.len() as int,
    };
    let head = kept.take(at);
    let blocks = bookmark_blocks(bs);
    let tail = kept.skip(at);
    let rendered = head + blocks + tail;
    assert(rendered == replaced_lines(data, bs));
    lemma_blocks_plain(bs, page_count);
    let start = (Seq::<BookmarkModel>::empty(), None::<RawModel>);
    if rendered.len() == 0 {
        assert(blocks.len() == 0);
        assert(bs.len() == 0);
        let text = seq!['\n'];
        crate::text::lemma_first_index_of(text, '\n', 0);
        assert(text.take(0) =~= Seq::<char>::empty());
        assert(text.skip(1) =~= Seq::<char>::empty());
        assert(text.len() == 1 && text[0] == '\n');
        assert(first_index_of(text, '\n') == 0);
        assert(lines_spec(Seq::<char>::empty()) == Seq::<Seq<char>>::empty());
        assert(line_body(Seq::<char>::empty(), true) =~= Seq::<char>::empty());
        assert(lines_spec(text) == seq![line_body(text.take(0), true)] + lines_spec(text.skip(1)));
        assert(lines_spec(text) =~= seq![Seq::<char>::empty()]);
        assert(Seq::<char>::empty() != "BookmarkBegin"@) by {
            reveal_strlit("BookmarkBegin");
        }
        assert(bookmark_lines_state(lines_spec(text), 0, page_count) == start);
        assert(lines_spec(text)[0] == Seq::<char>::empty());
        assert(bookmark_lines_state(lines_spec(text), 1, page_count) == start);
        assert(bs =~= Seq::<BookmarkModel>::empty());
    } else {
        lemma_lines_hold_no_newline(data);
        lemma_kept_lines_hold_no_newline(ls, n);
        assert forall|k: int| 0 <= k < rendered.len() implies !(#[trigger] rendered[k]).contains('\n') by {
            if k < head.len() {
                assert(rendered[k] == kept[k]);
            } else if k < head.len() + blocks.len() {
                assert(rendered[k] == blocks[k - head.len()]);
                assert(plain_line(blocks[k - head.len()]));
            } else {
                assert(rendered[k] == kept[at + (k - head.len() - blocks.len())]);
            }
        }
        lemma_lines_read_back(rendered);
        let read = rendered.map_values(|l: Seq<char>| line_body(l, true));
        let head2 = head.map_values(|l: Seq<char>| line_body(l, true));
        let tail2 = tail.map_values(|l: Seq<char>| line_body(l, true));
        assert(read =~= head2 + blocks + tail2) by {
            assert forall|k: int| 0 <= k < read.len() implies read[k] == (head2 + blocks + tail2)[k] by {
                if head.len() <= k < head.len() + blocks.len() {
                    assert(plain_line(blocks[k - head.len()]));
                }
            }
        }
        lemma_run_lines_state(read, read.len() as int, page_count);
        assert(read.take(read.len() as int) =~= read);
        lemma_run_lines_concat(start, head2 + blocks, tail2, page_count);
        lemma_run_lines_concat(start, head2, blocks, page_count);
        assert forall|k: int| 0 <= k < head2.len() implies #[trigger] head2[k] != "BookmarkBegin"@ by {
            assert(head[k] == kept[k]);
            assert(foreign_line(line_body(kept[k], true)));
        }
        lemma_prefix_lines_keep_start(head2, page_count);
        lemma_blocks_state(bs, page_count);
        assert forall|k: int| 0 <= k < tail2.len() implies foreign_line(#[trigger] tail2[k]) by {
            assert(tail[k] == kept[at + k]);
        }
        lemma_suffix_lines_finish(bs, tail2, page_count);
        lemma_finish_last(bs, page_count);
    }
}

} // verus!
