//! Reading the text `pdfinfo` prints: the page count, the default page
//! size line, and the per-page size lines of `pdfinfo -f 1 -l N`. Page
//! sizes are fractional points; their text is handed on as it stands, to
//! be read as decimal numbers by the caller.

use vstd::prelude::*;

use crate::text::{
    chars_of, lines, lines_spec, parse_unsigned, parse_unsigned_spec, slice_chars, string_of, strip_prefix,
    trim, trim_spec, trim_start, trim_start_spec,
};

verus! {

/// Whether `line` starts with `prefix`.
pub open spec fn starts_with_spec(line: Seq<char>, prefix: Seq<char>) -> bool {
    prefix.len() <= line.len() && line.take(prefix.len() as int) == prefix
}

/// What the lines of `pdfinfo` give, in order: the page count of the last
/// `Pages:` line (its trimmed value read as a `usize`; a value that does
/// not read stops with an error) and the text after the last `Page size:`.
pub open spec fn pdfinfo_scan(ls: Seq<Seq<char>>) -> Result<(Option<nat>, Option<Seq<char>>), Seq<char>>
    decreases ls.len(),
{
    if ls.len() == 0 {
        Ok((None, None))
    } else {
        match pdfinfo_scan(ls.drop_last()) {
            Err(e) => Err(e),
            Ok((count, size)) => {
                let l = ls.last();
                if starts_with_spec(l, "Pages:"@) {
                    match parse_unsigned_spec(trim_spec(l.skip(6)), usize::MAX as nat) {
                        Some(n) => Ok((Some(n), size)),
                        None => Err("failed to parse pdfinfo Pages line"@),
                    }
                } else if starts_with_spec(l, "Page size:"@) {
                    Ok((count, Some(l.skip(10))))
                } else {
                    Ok((count, size))
                }
            },
        }
    }
}

/// The page count and default page size text of `pdfinfo` output.
pub open spec fn pdfinfo_summary_spec(text: Seq<char>) -> Result<(nat, Option<Seq<char>>), Seq<char>> {
    match pdfinfo_scan(lines_spec(text)) {
        Err(e) => Err(e),
        Ok((None, _)) => Err("pdfinfo did not report a page count"@),
        Ok((Some(n), size)) => Ok((n, size)),
    }
}

/// The page count `pdfinfo` reports, and the text of its default page
/// size, if it gives one.
#[derive(Debug, Clone, PartialEq, Eq)]
pub struct PdfInfoSummary {
    pub page_count: usize,
    pub page_size_text: Option<String>,
}

/// Reads `pdfinfo` output (see `pdfinfo_summary_spec`).
pub fn pdfinfo_summary(stdout: &str) -> (r: Result<PdfInfoSummary, String>)
    ensures
        match pdfinfo_summary_spec(stdout@) {
            Ok((n, size)) => r matches Ok(s) && s.page_count == n && match size {
                Some(t) => s.page_size_text matches Some(x) && x@ == t,
                None => s.page_size_text is None,
            },
            Err(e) => r matches Err(x) && x@ == e,
        },
{
    let ls = lines(stdout);
    let ghost model = lines_spec(stdout@);
    let mut count: Option<usize> = None;
    let mut size: Option<Vec<char>> = None;
    let mut i: usize = 0;
    proof {
        assert(model.take(0) =~= Seq::<Seq<char>>::empty());
    }
    while i < ls.len()
        invariant
            i <= ls@.len(),
            ls@.len() == model.len(),
            model == lines_spec(stdout@),
            forall|k: int| 0 <= k < ls@.len() ==> #[trigger] ls@[k]@ == model[k],
            pdfinfo_scan(model.take(i as int)) == Ok::<(Option<nat>, Option<Seq<char>>), Seq<char>>((
                match count {
                    Some(n) => Some(n as nat),
                    None => None,
                },
                match size {
                    Some(t) => Some(t@),
                    None => None,
                },
            )),
        decreases ls@.len() - i,
    {
        proof {
            assert(model.take(i + 1).drop_last() =~= model.take(i as int));
            assert(model.take(i + 1).last() == ls@[i as int]@);
            reveal_strlit("Pages:");
            reveal_strlit("Page size:");
        }
        let line = &ls[i];
        match strip_prefix(line, "Pages:") {
            Some(value) => {
                let t = trim(&value);
                match parse_unsigned(&t, usize::MAX as u64) {
                    Some(n) => {
                        count = Some(n as usize);
                    },
                    None => {
                        proof {
                            lemma_scan_error_stays(model, i as int + 1, "failed to parse pdfinfo Pages line"@);
                        }
                        let msg = chars_of("failed to parse pdfinfo Pages line");
                        return Err(string_of(&msg));
                    },
                }
            },
            None => match strip_prefix(line, "Page size:") {
                Some(value) => {
                    size = Some(value);
                },
                None => {},
            },
        }
        i += 1;
    }
    proof {
        assert(model.take(i as int) =~= model);
    }
    match count {
        Some(n) => Ok(
            PdfInfoSummary {
                page_count: n,
                page_size_text: match size {
                    Some(t) => Some(string_of(&t)),
                    None => None,
                },
            },
        ),
        None => {
            let msg = chars_of("pdfinfo did not report a page count");
            Err(string_of(&msg))
        },
    }
}

proof fn lemma_scan_error_stays(ls: Seq<Seq<char>>, j: int, e: Seq<char>)
    requires
        0 <= j <= ls.len(),
        pdfinfo_scan(ls.take(j)) == Err::<(Option<nat>, Option<Seq<char>>), Seq<char>>(e),
    ensures
        pdfinfo_scan(ls) == Err::<(Option<nat>, Option<Seq<char>>), Seq<char>>(e),
    decreases ls.len() - j,
{
    if j < ls.len() {
        assert(ls.take(j + 1).drop_last() =~= ls.take(j));
        lemma_scan_error_stays(ls, j + 1, e);
    } else {
        assert(ls.take(j) =~= ls);
    }
}

/// The first index at or after `from` where `pat` occurs in `s`, or
/// `s.len()` when it does not.
pub open spec fn find_from(s: Seq<char>, pat: Seq<char>, from: int) -> int
    decreases s.len() - from,
{
    if from < 0 || from + pat.len() > s.len() {
        s.len() as int
    } else if pat.len() == 0 {
        from
    } else if s.subrange(from, from + pat.len()) == pat {
        from
    } else {
        find_from(s, pat, from + 1)
    }
}

/// A per-page size line of `pdfinfo -f 1 -l N` (`Page <n> size: <size>`):
/// after `Page` and leading whitespace, the text before the first `size:`
/// read (trimmed) as a page number of at least 1; gives the page's index
/// and the size text after `size:`.
pub open spec fn numbered_page_spec(line: Seq<char>) -> Option<(nat, Seq<char>)> {
    if !starts_with_spec(line, "Page"@) {
        None
    } else {
        let r = trim_start_spec(line.skip(4));
        let at = find_from(r, "size:"@, 0);
        if at >= r.len() {
            None
        } else {
            match parse_unsigned_spec(trim_spec(r.take(at)), usize::MAX as nat) {
                Some(n) => if n >= 1 {
                    Some(((n - 1) as nat, r.skip(at + 5)))
                } else {
                    None
                },
                None => None,
            }
        }
    }
}

proof fn lemma_find_from_bound(s: Seq<char>, pat: Seq<char>, from: int)
    requires
        0 <= from,
    ensures
        from <= find_from(s, pat, from) <= s.len() || find_from(s, pat, from) == s.len(),
        find_from(s, pat, from) < s.len() ==> find_from(s, pat, from) + pat.len() <= s.len(),
    decreases s.len() - from,
{
    if !(from < 0 || from + pat.len() > s.len()) && pat.len() != 0 && s.subrange(from, from + pat.len()) != pat {
        lemma_find_from_bound(s, pat, from + 1);
    }
}

fn find_size(r: &Vec<char>) -> (at: usize)
    ensures
        at as int == find_from(r@, "size:"@, 0),
{
    let pat = chars_of("size:");
    proof {
        reveal_strlit("size:");
    }
    let mut i: usize = 0;
    while i < r.len() && r.len() - i >= pat.len()
        invariant
            pat@ == "size:"@,
            pat@.len() == 5,
            i <= r@.len(),
            find_from(r@, pat@, 0) == find_from(r@, pat@, i as int),
        decreases r@.len() - i,
    {
        let mut j: usize = 0;
        let mut same = true;
        proof {
            assert(r@.subrange(i as int, i as int) =~= pat@.take(0));
        }
        while j < pat.len()
            invariant
                pat@.len() == 5,
                i + pat@.len() <= r.len(),
                j <= pat@.len(),
                same == (r@.subrange(i as int, i + j) == pat@.take(j as int)),
            decreases pat@.len() - j,
        {
            if same && r[i + j] != pat[j] {
                same = false;
                proof {
                    assert(r@.subrange(i as int, i + j + 1)[j as int] != pat@.take(j + 1)[j as int]);
                }
            } else if same {
                proof {
                    assert(r@.subrange(i as int, i + j + 1) =~= r@.subrange(i as int, i + j).push(r@[i + j]));
                    assert(pat@.take(j + 1) =~= pat@.take(j as int).push(pat@[j as int]));
                }
            } else {
                proof {
                    if r@.subrange(i as int, i + j + 1) == pat@.take(j + 1) {
                        assert(r@.subrange(i as int, i + j) =~= r@.subrange(i as int, i + j + 1).take(j as int));
                        assert(pat@.take(j as int) =~= pat@.take(j + 1).take(j as int));
                    }
                }
            }
            j += 1;
        }
        proof {
            assert(pat@.take(pat@.len() as int) =~= pat@);
        }
        if same {
            return i;
        }
        i += 1;
    }
    r.len()
}

/// Reads a per-page size line (see `numbered_page_spec`).
pub fn numbered_page_line(line: &str) -> (r: Option<(usize, String)>)
    ensures
        match numbered_page_spec(line@) {
            Some((index, size)) => r matches Some((i, s)) && i == index && s@ == size,
            None => r is None,
        },
{
    let cs = chars_of(line);
    proof {
        reveal_strlit("Page");
    }
    let after = match strip_prefix(&cs, "Page") {
        Some(a) => a,
        None => {
            return None;
        },
    };
    let r = trim_start(&after);
    let at = find_size(&r);
    if at >= r.len() {
        return None;
    }
    let number = slice_chars(&r, 0, at);
    proof {
        assert(number@ =~= r@.take(at as int));
    }
    let t = trim(&number);
    proof {
        reveal_strlit("size:");
        lemma_find_from_bound(r@, "size:"@, 0);
    }
    match parse_unsigned(&t, usize::MAX as u64) {
        Some(n) => {
            if n >= 1 {
                let rest = slice_chars(&r, at + 5, r.len());
                proof {
                    assert(rest@ =~= r@.skip(at + 5));
                }
                Some(((n - 1) as usize, string_of(&rest)))
            } else {
                None
            }
        },
        None => None,
    }
}

/// The per-page size lines of `pdfinfo -f 1 -l N` output, in order.
pub open spec fn numbered_page_lines_spec(ls: Seq<Seq<char>>) -> Seq<(nat, Seq<char>)>
    decreases ls.len(),
{
    if ls.len() == 0 {
        Seq::empty()
    } else {
        match numbered_page_spec(ls.last()) {
            Some(e) => numbered_page_lines_spec(ls.drop_last()).push(e),
            None => numbered_page_lines_spec(ls.drop_last()),
        }
    }
}

pub open spec fn entry_view(e: (usize, String)) -> (nat, Seq<char>) {
    (e.0 as nat, e.1@)
}

/// The per-page size lines of `pdfinfo` output (see
/// `numbered_page_lines_spec`).
pub fn numbered_page_lines(stdout: &str) -> (found: Vec<(usize, String)>)
    ensures
        found@.map_values(|e: (usize, String)| entry_view(e)) == numbered_page_lines_spec(lines_spec(stdout@)),
{
    let ls = lines(stdout);
    let ghost model = lines_spec(stdout@);
    let mut found: Vec<(usize, String)> = Vec::new();
    let mut i: usize = 0;
    proof {
        assert(model.take(0) =~= Seq::<Seq<char>>::empty());
        assert(found@.map_values(|e: (usize, String)| entry_view(e)) =~= Seq::<(nat, Seq<char>)>::empty());
    }
    while i < ls.len()
        invariant
            i <= ls@.len(),
            ls@.len() == model.len(),
            model == lines_spec(stdout@),
            forall|k: int| 0 <= k < ls@.len() ==> #[trigger] ls@[k]@ == model[k],
            found@.map_values(|e: (usize, String)| entry_view(e)) == numbered_page_lines_spec(model.take(i as int)),
        decreases ls@.len() - i,
    {
        proof {
            assert(model.take(i + 1).drop_last() =~= model.take(i as int));
            assert(model.take(i + 1).last() == ls@[i as int]@);
        }
        let text = string_of(&ls[i]);
        let ghost before = found@;
        match numbered_page_line(text.as_str()) {
            Some(e) => {
                found.push(e);
                proof {
                    assert(found@.map_values(|e: (usize, String)| entry_view(e)) =~= before.map_values(
                        |e: (usize, String)| entry_view(e),
                    ).push(entry_view(found@.last())));
                }
            },
            None => {},
        }
        i += 1;
    }
    proof {
        assert(model.take(i as int) =~= model);
    }
    found
}

/// Page sizes from per-page entries: every page starts at `fallback`, and
/// each entry in turn sets the size of its page when the page exists.
pub open spec fn filled_sizes(page_count: nat, fallback: (u32, u32), entries: Seq<(usize, (u32, u32))>) -> Seq<
    (u32, u32),
>
    decreases entries.len(),
{
    if entries.len() == 0 {
        Seq::new(page_count, |i: int| fallback)
    } else {
        let prev = filled_sizes(page_count, fallback, entries.drop_last());
        let (index, size) = entries.last();
        if index < prev.len() {
            prev.update(index as int, size)
        } else {
            prev
        }
    }
}

proof fn lemma_filled_len(page_count: nat, fallback: (u32, u32), entries: Seq<(usize, (u32, u32))>)
    ensures
        filled_sizes(page_count, fallback, entries).len() == page_count,
    decreases entries.len(),
{
    if entries.len() > 0 {
        lemma_filled_len(page_count, fallback, entries.drop_last());
    }
}

/// The page sizes of a document (see `filled_sizes`).
pub fn fill_page_sizes(page_count: usize, fallback: (u32, u32), entries: &Vec<(usize, (u32, u32))>) -> (sizes: Vec<
    (u32, u32),
>)
    ensures
        sizes@ == filled_sizes(page_count as nat, fallback, entries@),
{
    let mut sizes: Vec<(u32, u32)> = Vec::new();
    let mut k: usize = 0;
    while k < page_count
        invariant
            k <= page_count,
            sizes@ == Seq::new(k as nat, |i: int| fallback),
        decreases page_count - k,
    {
        sizes.push(fallback);
        proof {
            assert(sizes@ =~= Seq::new((k + 1) as nat, |i: int| fallback));
        }
        k += 1;
    }
    let mut i: usize = 0;
    proof {
        assert(entries@.take(0) =~= Seq::<(usize, (u32, u32))>::empty());
    }
    while i < entries.len()
        invariant
            i <= entries@.len(),
            sizes@ == filled_sizes(page_count as nat, fallback, entries@.take(i as int)),
        decreases entries@.len() - i,
    {
        proof {
            assert(entries@.take(i + 1).drop_last() =~= entries@.take(i as int));
            lemma_filled_len(page_count as nat, fallback, entries@.take(i as int));
        }
        let (index, size) = entries[i];
        if index < sizes.len() {
            sizes.set(index, size);
        }
        i += 1;
    }
    proof {
        assert(entries@.take(i as int) =~= entries@);
    }
    sizes
}

} // verus!
