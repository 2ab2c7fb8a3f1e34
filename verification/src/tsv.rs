//! The positioned words of `pdftotext -tsv` output, grouped into text
//! lines. The numeric box columns are kept as written; reading them as
//! numbers is left to the caller.

use vstd::prelude::*;

use crate::text::{
    chars_eq, lines, lines_spec, parse_unsigned, parse_unsigned_spec, split_once, split_once_spec,
    string_of, trim, trim_spec,
};

verus! {

/// The columns of a row: split at tabs into at most `n` columns, the last
/// one holding the rest of the row.
pub open spec fn tab_split(s: Seq<char>, n: int) -> Seq<Seq<char>>
    decreases n,
{
    if n <= 1 {
        seq![s]
    } else {
        match split_once_spec(s, '\t') {
            Some(parts) => seq![parts.0] + tab_split(parts.1, n - 1),
            None => seq![s],
        }
    }
}

/// A column read as a `usize`.
pub open spec fn column_usize(s: Seq<char>) -> Option<nat> {
    parse_unsigned_spec(s, usize::MAX as nat)
}

/// A column read as a `usize`, or `default`.
pub open spec fn column_or(s: Seq<char>, default: nat) -> nat {
    match column_usize(s) {
        Some(v) => v,
        None => default,
    }
}

/// The (zero-based) page of a row, clamped to the known pages.
pub open spec fn row_page(cols: Seq<Seq<char>>, page_count: usize) -> int {
    let one_based = column_or(cols[1], 1);
    let page = if one_based >= 1 {
        one_based - 1
    } else {
        0
    };
    let last = if page_count >= 1 {
        page_count - 1
    } else {
        0
    };
    if page <= last {
        page
    } else {
        last
    }
}

/// The row that records a page's size.
pub open spec fn is_page_row(cols: Seq<Seq<char>>) -> bool {
    column_or(cols[0], 0) == 1 && cols[11] == "###PAGE###"@
}

/// A row holding a word.
pub open spec fn is_word_row(cols: Seq<Seq<char>>) -> bool {
    column_or(cols[0], 0) == 5 && trim_spec(cols[11]).len() > 0
}

/// The line a word row belongs to: page, paragraph, block and line number.
pub open spec fn row_key(cols: Seq<Seq<char>>, page_count: usize) -> (int, int, int, int) {
    (
        row_page(cols, page_count),
        column_or(cols[2], 0) as int,
        column_or(cols[3], 0) as int,
        column_or(cols[4], 0) as int,
    )
}

/// A word: its text and its box (left, top, width, height) as written.
#[derive(Debug, Clone)]
pub struct TsvWord {
    pub text: String,
    pub left: String,
    pub top: String,
    pub width: String,
    pub height: String,
}

/// A text line: its page, its words, and the last size row of its page
/// read before the line was complete (an index into the size rows).
#[derive(Debug, Clone)]
pub struct TsvLine {
    pub page_index: usize,
    pub words: Vec<TsvWord>,
    pub page_size: Option<usize>,
}

/// A page size row: the page and its width and height as written.
#[derive(Debug, Clone)]
pub struct TsvPageRow {
    pub page_index: usize,
    pub width: String,
    pub height: String,
}

/// The grouped output.
#[derive(Debug, Clone)]
pub struct TsvIndex {
    pub lines: Vec<TsvLine>,
    pub page_rows: Vec<TsvPageRow>,
}

pub type WordModel = (Seq<char>, Seq<char>, Seq<char>, Seq<char>, Seq<char>);

pub type LineModel = (int, Seq<WordModel>, Option<int>);

pub type PageRowModel = (int, Seq<char>, Seq<char>);

/// Lines done, page rows read, and the line being gathered.
pub type TsvState = (Seq<LineModel>, Seq<PageRowModel>, Option<((int, int, int, int), Seq<WordModel>)>);

pub open spec fn word_model(w: TsvWord) -> WordModel {
    (w.text@, w.left@, w.top@, w.width@, w.height@)
}

pub open spec fn line_model(l: TsvLine) -> LineModel {
    (
        l.page_index as int,
        l.words@.map_values(|w: TsvWord| word_model(w)),
        match l.page_size {
            Some(i) => Some(i as int),
            None => None,
        },
    )
}

pub open spec fn page_row_model(r: TsvPageRow) -> PageRowModel {
    (r.page_index as int, r.width@, r.height@)
}

/// The last size row of `page`, if any.
pub open spec fn last_page_row(rows: Seq<PageRowModel>, page: int) -> Option<int>
    decreases rows.len(),
{
    if rows.len() == 0 {
        None
    } else if rows.last().0 == page {
        Some(rows.len() - 1)
    } else {
        last_page_row(rows.drop_last(), page)
    }
}

/// The state with the gathered line (if it has words) moved to the done
/// lines.
pub open spec fn flushed(state: TsvState) -> Seq<LineModel> {
    match state.2 {
        Some(cur) => if cur.1.len() > 0 {
            state.0.push((cur.0.0, cur.1, last_page_row(state.1, cur.0.0)))
        } else {
            state.0
        },
        None => state.0,
    }
}

/// The state after one row.
pub open spec fn tsv_step(state: TsvState, row: Seq<char>, page_count: usize) -> TsvState {
    let cols = tab_split(row, 12);
    if cols.len() < 12 {
        state
    } else if is_page_row(cols) {
        (state.0, state.1.push((row_page(cols, page_count), cols[8], cols[9])), state.2)
    } else if !is_word_row(cols) {
        state
    } else {
        let key = row_key(cols, page_count);
        let word = (cols[11], cols[6], cols[7], cols[8], cols[9]);
        match state.2 {
            Some(cur) => if cur.0 != key {
                (flushed(state), state.1, Some((key, seq![word])))
            } else {
                (state.0, state.1, Some((key, cur.1.push(word))))
            },
            None => (state.0, state.1, Some((key, seq![word]))),
        }
    }
}

/// The state after the first `k` rows.
pub open spec fn tsv_scan(rows: Seq<Seq<char>>, page_count: usize, k: int) -> TsvState
    decreases k,
{
    if k <= 0 {
        (Seq::empty(), Seq::empty(), None)
    } else {
        tsv_step(tsv_scan(rows, page_count, k - 1), rows[k - 1], page_count)
    }
}

/// The rows after the header.
pub open spec fn data_rows(all: Seq<Seq<char>>) -> Seq<Seq<char>> {
    if all.len() == 0 {
        Seq::empty()
    } else {
        all.drop_first()
    }
}

/// The lines and page rows of `pdftotext -tsv` output: every row after the
/// header, consecutive word rows of the same line gathered into one line.
pub open spec fn tsv_spec(body: Seq<char>, page_count: usize) -> (Seq<LineModel>, Seq<PageRowModel>) {
    let rows = data_rows(lines_spec(body));
    let end = tsv_scan(rows, page_count, rows.len() as int);
    (flushed(end), end.1)
}

/// The columns of `row` (see `tab_split`).
fn tab_columns(row: &Vec<char>) -> (cols: Vec<Vec<char>>)
    ensures
        cols@.map_values(|c: Vec<char>| c@) == tab_split(row@, 12),
{
    let mut cols: Vec<Vec<char>> = Vec::new();
    let mut rest = crate::text::slice_chars(row, 0, row.len());
    proof {
        assert(rest@ =~= row@);
        assert(cols@.map_values(|c: Vec<char>| c@) + tab_split(rest@, 12) =~= tab_split(row@, 12));
    }
    let mut n: usize = 12;
    while n > 1
        invariant
            1 <= n <= 12,
            cols@.map_values(|c: Vec<char>| c@) + tab_split(rest@, n as int) == tab_split(row@, 12),
        decreases n,
    {
        match split_once(&rest, '\t') {
            Some((a, b)) => {
                let ghost before = cols@;
                proof {
                    assert(tab_split(rest@, n as int) == seq![a@] + tab_split(b@, n - 1));
                }
                cols.push(a);
                proof {
                    assert(cols@.map_values(|c: Vec<char>| c@) =~= before.map_values(|c: Vec<char>| c@).push(a@));
                    assert(cols@.map_values(|c: Vec<char>| c@) + tab_split(b@, n - 1) =~= before.map_values(
                        |c: Vec<char>| c@,
                    ) + tab_split(rest@, n as int));
                }
                rest = b;
                n = n - 1;
            },
            None => {
                proof {
                    assert(tab_split(rest@, n as int) == seq![rest@]);
                    assert(tab_split(rest@, 1) == seq![rest@]);
                }
                n = 1;
            },
        }
    }
    let ghost before = cols@;
    cols.push(rest);
    proof {
        assert(cols@.map_values(|c: Vec<char>| c@) =~= before.map_values(|c: Vec<char>| c@) + tab_split(
            cols@[cols@.len() - 1]@,
            1,
        ));
    }
    cols
}

/// A column read as a `usize`, or `default`.
fn read_column(s: &Vec<char>, default: usize) -> (value: usize)
    ensures
        value as nat == column_or(s@, default as nat),
{
    match parse_unsigned(s, usize::MAX as u64) {
        Some(v) => v as usize,
        None => default,
    }
}

pub open spec fn key_model(key: (usize, usize, usize, usize)) -> (int, int, int, int) {
    (key.0 as int, key.1 as int, key.2 as int, key.3 as int)
}

/// The scan state the exec variables stand for.
pub open spec fn state_of(
    done: Seq<TsvLine>,
    rows: Seq<TsvPageRow>,
    key: Option<(usize, usize, usize, usize)>,
    words: Seq<TsvWord>,
) -> TsvState {
    (
        done.map_values(|l: TsvLine| line_model(l)),
        rows.map_values(|r: TsvPageRow| page_row_model(r)),
        match key {
            Some(k) => Some((key_model(k), words.map_values(|w: TsvWord| word_model(w)))),
            None => None,
        },
    )
}

/// Index of the last size row of `page`.
fn find_last_page_row(rows: &Vec<TsvPageRow>, page: usize) -> (found: Option<usize>)
    ensures
        match found {
            Some(i) => last_page_row(rows@.map_values(|r: TsvPageRow| page_row_model(r)), page as int)
                == Some(i as int),
            None => last_page_row(rows@.map_values(|r: TsvPageRow| page_row_model(r)), page as int) is None,
        },
{
    let ghost all = rows@.map_values(|r: TsvPageRow| page_row_model(r));
    let mut i = rows.len();
    proof {
        assert(all.take(i as int) =~= all);
    }
    while i > 0
        invariant
            i <= rows@.len(),
            all == rows@.map_values(|r: TsvPageRow| page_row_model(r)),
            last_page_row(all, page as int) == last_page_row(all.take(i as int), page as int),
        decreases i,
    {
        proof {
            assert(all.take(i as int).drop_last() =~= all.take(i - 1));
            assert(all.take(i as int).last() == page_row_model(rows@[i - 1]));
        }
        if rows[i - 1].page_index == page {
            return Some(i - 1);
        }
        i -= 1;
    }
    None
}

/// Moves the gathered line, if it has words, to the done lines.
fn flush(
    done: &mut Vec<TsvLine>,
    rows: &Vec<TsvPageRow>,
    key: Option<(usize, usize, usize, usize)>,
    words: Vec<TsvWord>,
)
    ensures
        final(done)@.map_values(|l: TsvLine| line_model(l)) == flushed(
            state_of(old(done)@, rows@, key, words@),
        ),
{
    let ghost before = done@;
    match key {
        Some(k) => {
            if words.len() > 0 {
                let page_size = find_last_page_row(rows, k.0);
                let line = TsvLine { page_index: k.0, words, page_size };
                done.push(line);
                proof {
                    assert(done@.map_values(|l: TsvLine| line_model(l)) =~= before.map_values(
                        |l: TsvLine| line_model(l),
                    ).push(line_model(line)));
                }
            }
        },
        None => {},
    }
}

/// A column as an owned string.
fn column_string(cols: &Vec<Vec<char>>, i: usize) -> (s: String)
    requires
        i < cols@.len(),
    ensures
        s@ == cols@[i as int]@,
{
    string_of(&cols[i])
}

/// The lines and page rows of `pdftotext -tsv` output (see `tsv_spec`).
pub fn parse_tsv(body: &str, page_count: usize) -> (index: TsvIndex)
    ensures
        index.lines@.map_values(|l: TsvLine| line_model(l)) == tsv_spec(body@, page_count).0,
        index.page_rows@.map_values(|r: TsvPageRow| page_row_model(r)) == tsv_spec(body@, page_count).1,
{
    let all = lines(body);
    let ghost ls = lines_spec(body@);
    let ghost rows = data_rows(ls);
    let mut done: Vec<TsvLine> = Vec::new();
    let mut page_rows: Vec<TsvPageRow> = Vec::new();
    let mut key: Option<(usize, usize, usize, usize)> = None;
    let mut words: Vec<TsvWord> = Vec::new();
    let mut k: usize = 1;
    proof {
        assert(state_of(done@, page_rows@, key, words@) =~= tsv_scan(rows, page_count, 0));
    }
    while k < all.len()
        invariant
            all@.len() == ls.len(),
            forall|j: int| 0 <= j < all@.len() ==> #[trigger] all@[j]@ == ls[j],
            rows == data_rows(ls),
            1 <= k,
            k <= all@.len() || k == 1,
            key is None ==> words@.len() == 0,
            state_of(done@, page_rows@, key, words@) == tsv_scan(rows, page_count, k - 1),
        decreases all@.len() - k,
    {
        let ghost prev = state_of(done@, page_rows@, key, words@);
        proof {
            assert(rows[k - 1] == ls[k as int]);
            assert(all@[k as int]@ == ls[k as int]);
        }
        let cols = tab_columns(&all[k]);
        let ghost cm = cols@.map_values(|c: Vec<char>| c@);
        proof {
            assert(cm == tab_split(rows[k - 1], 12));
        }
        if cols.len() >= 12 {
            proof {
                assert forall|j: int| 0 <= j < 12 implies #[trigger] cm[j] == cols@[j]@ by {}
            }
            let level = read_column(&cols[0], 0);
            let one_based = read_column(&cols[1], 1);
            let zero_based = if one_based >= 1 { one_based - 1 } else { 0 };
            let last = if page_count >= 1 { page_count - 1 } else { 0 };
            let page = if zero_based <= last { zero_based } else { last };
            let text = &cols[11];
            proof {
                assert(page as int == row_page(cm, page_count));
                assert(level as nat == column_or(cm[0], 0));
            }
            if level == 1 && chars_eq(text, "###PAGE###") {
                let row = TsvPageRow { page_index: page, width: column_string(&cols, 8), height: column_string(&cols, 9) };
                let ghost before = page_rows@;
                page_rows.push(row);
                proof {
                    assert(page_rows@.map_values(|r: TsvPageRow| page_row_model(r)) =~= before.map_values(
                        |r: TsvPageRow| page_row_model(r),
                    ).push(page_row_model(row)));
                    assert(is_page_row(cm));
                    assert(state_of(done@, page_rows@, key, words@) == tsv_step(prev, rows[k - 1], page_count));
                }
            } else if level == 5 && trim(text).len() > 0 {
                let found_key = (page, read_column(&cols[2], 0), read_column(&cols[3], 0), read_column(&cols[4], 0));
                let word = TsvWord {
                    text: column_string(&cols, 11),
                    left: column_string(&cols, 6),
                    top: column_string(&cols, 7),
                    width: column_string(&cols, 8),
                    height: column_string(&cols, 9),
                };
                proof {
                    assert(key_model(found_key) == row_key(cm, page_count));
                    assert(word_model(word) == (cm[11], cm[6], cm[7], cm[8], cm[9]));
                }
                let same = match key {
                    Some(current) => current.0 == found_key.0 && current.1 == found_key.1 && current.2
                        == found_key.2 && current.3 == found_key.3,
                    None => true,
                };
                if key.is_some() && !same {
                    let gathered = words;
                    flush(&mut done, &page_rows, key, gathered);
                    words = Vec::new();
                }
                let ghost before = words@;
                words.push(word);
                proof {
                    assert(words@.map_values(|w: TsvWord| word_model(w)) =~= before.map_values(
                        |w: TsvWord| word_model(w),
                    ).push(word_model(word)));
                    if before.len() == 0 {
                        assert(words@.map_values(|w: TsvWord| word_model(w)) =~= seq![word_model(word)]);
                    }
                }
                key = Some(found_key);
                proof {
                    assert(!is_page_row(cm));
                    assert(is_word_row(cm));
                    assert(state_of(done@, page_rows@, key, words@) == tsv_step(prev, rows[k - 1], page_count));
                }
            } else {
                proof {
                    assert(!is_page_row(cm));
                    assert(!is_word_row(cm));
                }
            }
        }
        proof {
            assert(tsv_scan(rows, page_count, k as int) == tsv_step(prev, rows[k - 1], page_count));
            assert(state_of(done@, page_rows@, key, words@) == tsv_step(prev, rows[k - 1], page_count));
        }
        k += 1;
    }
    proof {
        if all@.len() > 0 {
            assert(k == all@.len());
            assert(rows.len() == ls.len() - 1);
        } else {
            assert(rows.len() == 0);
        }
    }
    assert(k - 1 == rows.len());
    let gathered = words;
    flush(&mut done, &page_rows, key, gathered);
    TsvIndex { lines: done, page_rows }
}

} // verus!
