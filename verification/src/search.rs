//! Text search over the positioned words of a page: matching ignores
//! whitespace and ASCII case, and each match is mapped back to the part of
//! every word it covers and to its range in the line's display text.
//! Offsets are UTF-8 byte offsets, as in the strings they index.

use vstd::prelude::*;

use crate::text::{ascii_lower, ascii_lower_spec, chars_of, is_whitespace, is_whitespace_spec};

verus! {

/// Bytes that `c` takes in UTF-8.
pub open spec fn utf8_width(c: char) -> nat {
    if (c as u32) < 0x80 {
        1
    } else if (c as u32) < 0x800 {
        2
    } else if (c as u32) < 0x10000 {
        3
    } else {
        4
    }
}

/// Bytes that `s` takes in UTF-8.
pub open spec fn utf8_len(s: Seq<char>) -> nat
    decreases s.len(),
{
    if s.len() == 0 {
        0
    } else {
        utf8_len(s.drop_last()) + utf8_width(s.last())
    }
}

/// `char::len_utf8`.
pub fn char_width(c: char) -> (width: usize)
    ensures
        width == utf8_width(c),
{
    let v = c as u32;
    if v < 0x80 {
        1
    } else if v < 0x800 {
        2
    } else if v < 0x10000 {
        3
    } else {
        4
    }
}

/// Text as matching sees it: whitespace dropped, ASCII letters lowercased.
/// Lowercasing ASCII keeps byte lengths.
pub open spec fn normalize_spec(s: Seq<char>) -> Seq<char>
    decreases s.len(),
{
    if s.len() == 0 {
        Seq::empty()
    } else if is_whitespace_spec(s.last()) {
        normalize_spec(s.drop_last())
    } else {
        normalize_spec(s.drop_last()).push(ascii_lower_spec(s.last()))
    }
}

/// The normalized text of a query.
pub fn normalize_search_text(value: &str) -> (normalized: Vec<char>)
    ensures
        normalized@ == normalize_spec(value@),
{
    let cs = chars_of(value);
    let mut out: Vec<char> = Vec::new();
    let mut i: usize = 0;
    while i < cs.len()
        invariant
            cs@ == value@,
            i <= cs@.len(),
            out@ == normalize_spec(cs@.take(i as int)),
        decreases cs@.len() - i,
    {
        proof {
            assert(cs@.take(i + 1).drop_last() =~= cs@.take(i as int));
        }
        if !is_whitespace(cs[i]) {
            out.push(ascii_lower(cs[i]));
        }
        i += 1;
    }
    proof {
        assert(cs@.take(i as int) =~= cs@);
    }
    out
}

/// The normalized words of a line, one after the other: the text matches
/// are searched in.
pub open spec fn haystack(words: Seq<Seq<char>>) -> Seq<char>
    decreases words.len(),
{
    if words.len() == 0 {
        Seq::empty()
    } else {
        haystack(words.drop_last()) + normalize_spec(words.last())
    }
}

/// Byte offset in the haystack where word `k` starts.
pub open spec fn span_start(words: Seq<Seq<char>>, k: int) -> nat {
    utf8_len(haystack(words.take(k)))
}

/// Byte offset in the haystack where word `k` ends.
pub open spec fn span_end(words: Seq<Seq<char>>, k: int) -> nat {
    utf8_len(haystack(words.take(k + 1)))
}

proof fn lemma_utf8_len_concat(a: Seq<char>, b: Seq<char>)
    ensures
        utf8_len(a + b) == utf8_len(a) + utf8_len(b),
    decreases b.len(),
{
    if b.len() > 0 {
        lemma_utf8_len_concat(a, b.drop_last());
        assert((a + b).drop_last() =~= a + b.drop_last());
    } else {
        assert(a + b =~= a);
    }
}

proof fn lemma_utf8_len_prefix(s: Seq<char>, i: int)
    requires
        0 <= i <= s.len(),
    ensures
        utf8_len(s.take(i)) <= utf8_len(s),
        i < s.len() ==> utf8_len(s.take(i + 1)) == utf8_len(s.take(i)) + utf8_width(s[i]),
{
    lemma_utf8_len_concat(s.take(i), s.skip(i));
    assert(s.take(i) + s.skip(i) =~= s);
    if i < s.len() {
        assert(s.take(i + 1).drop_last() =~= s.take(i));
    }
}

/// A line prepared for matching: its haystack, the byte offset of every
/// haystack position, and the byte span of every word.
pub struct Haystack {
    pub text: Vec<char>,
    pub offsets: Vec<usize>,
    pub starts: Vec<usize>,
    pub ends: Vec<usize>,
}

impl Haystack {
    pub open spec fn models(&self, words: Seq<Seq<char>>) -> bool {
        &&& self.text@ == haystack(words)
        &&& self.offsets@.len() == self.text@.len() + 1
        &&& forall|i: int|
            0 <= i <= self.text@.len() ==> #[trigger] self.offsets@[i] == utf8_len(
                self.text@.take(i),
            )
        &&& self.starts@.len() == words.len()
        &&& self.ends@.len() == words.len()
        &&& forall|k: int|
            0 <= k < words.len() ==> #[trigger] self.starts@[k] == span_start(words, k)
                && self.ends@[k] == span_end(words, k)
    }
}

/// The words of a line, as character sequences.
pub open spec fn words_model(words: Seq<String>) -> Seq<Seq<char>> {
    words.map_values(|w: String| w@)
}

/// Builds the haystack of `words`.
#[verifier::spinoff_prover]
pub fn build_haystack(words: &Vec<String>) -> (hay: Haystack)
    requires
        utf8_len(haystack(words_model(words@))) <= usize::MAX,
    ensures
        hay.models(words_model(words@)),
{
    let ghost ws = words_model(words@);
    let mut text: Vec<char> = Vec::new();
    let mut offsets: Vec<usize> = Vec::new();
    let mut starts: Vec<usize> = Vec::new();
    let mut ends: Vec<usize> = Vec::new();
    let mut bytes: usize = 0;
    offsets.push(0);
    proof {
        assert(ws.take(0) =~= Seq::<Seq<char>>::empty());
        assert(text@.take(0) =~= Seq::<char>::empty());
    }
    let mut k: usize = 0;
    while k < words.len()
        invariant
            ws == words_model(words@),
            utf8_len(haystack(ws)) <= usize::MAX,
            k <= words@.len(),
            text@ == haystack(ws.take(k as int)),
            bytes == utf8_len(text@),
            offsets@.len() == text@.len() + 1,
            forall|i: int| 0 <= i <= text@.len() ==> #[trigger] offsets@[i] == utf8_len(text@.take(i)),
            starts@.len() == k,
            ends@.len() == k,
            forall|j: int|
                0 <= j < k ==> #[trigger] starts@[j] == span_start(ws, j) && ends@[j] == span_end(
                    ws,
                    j,
                ),
        decreases words@.len() - k,
    {
        starts.push(bytes);
        let cs = chars_of(words[k].as_str());
        proof {
            assert(cs@ == ws[k as int]);
            assert(ws.take(k + 1).drop_last() =~= ws.take(k as int));
            assert(ws.take(k + 1).last() == ws[k as int]);
            let h = haystack(ws);
            let p = haystack(ws.take(k + 1));
            lemma_haystack_prefix(ws, k + 1);
            lemma_utf8_len_prefix(h, p.len() as int);
        }
        let ghost before = text@;
        let mut i: usize = 0;
        while i < cs.len()
            invariant
                ws == words_model(words@),
                k < words@.len(),
                cs@ == ws[k as int],
                utf8_len(before + normalize_spec(cs@)) <= usize::MAX,
                i <= cs@.len(),
                text@ == before + normalize_spec(cs@.take(i as int)),
                bytes == utf8_len(text@),
                offsets@.len() == text@.len() + 1,
                forall|m: int|
                    0 <= m <= text@.len() ==> #[trigger] offsets@[m] == utf8_len(text@.take(m)),
            decreases cs@.len() - i,
        {
            proof {
                assert(cs@.take(i + 1).drop_last() =~= cs@.take(i as int));
            }
            let c = cs[i];
            if !is_whitespace(c) {
                let lower = ascii_lower(c);
                let ghost old_text = text@;
                text.push(lower);
                proof {
                    assert(text@.drop_last() =~= old_text);
                    assert(text@ =~= before + normalize_spec(cs@.take(i + 1)));
                    lemma_normalize_take(cs@, i + 1);
                    lemma_utf8_len_concat(before, normalize_spec(cs@.take(i + 1)));
                    lemma_utf8_len_concat(before, normalize_spec(cs@));
                    lemma_utf8_len_prefix(normalize_spec(cs@), normalize_spec(cs@.take(i + 1)).len() as int);
                    assert(utf8_len(text@) == utf8_len(old_text) + utf8_width(lower));
                }
                bytes = bytes + char_width(lower);
                offsets.push(bytes);
                proof {
                    assert forall|m: int| 0 <= m <= text@.len() implies #[trigger] offsets@[m]
                        == utf8_len(text@.take(m)) by {
                        if m < text@.len() {
                            assert(text@.take(m) =~= old_text.take(m));
                        } else {
                            assert(text@.take(m) =~= text@);
                        }
                    }
                }
            }
            i += 1;
        }
        proof {
            assert(cs@.take(i as int) =~= cs@);
            assert(text@ =~= haystack(ws.take(k + 1)));
        }
        ends.push(bytes);
        k += 1;
    }
    proof {
        assert(ws.take(k as int) =~= ws);
    }
    let hay = Haystack { text, offsets, starts, ends };
    assert(hay.text@ == haystack(ws));
    hay
}

/// A prefix of the words makes a prefix of the haystack.
proof fn lemma_haystack_prefix(words: Seq<Seq<char>>, k: int)
    requires
        0 <= k <= words.len(),
    ensures
        haystack(words.take(k)) == haystack(words).take(haystack(words.take(k)).len() as int),
        haystack(words.take(k)).len() <= haystack(words).len(),
    decreases words.len(),
{
    if k == words.len() {
        assert(words.take(k) =~= words);
        assert(haystack(words).take(haystack(words).len() as int) =~= haystack(words));
    } else {
        lemma_haystack_prefix(words.drop_last(), k);
        assert(words.drop_last().take(k) =~= words.take(k));
        let h = haystack(words.drop_last());
        assert(haystack(words) == h + normalize_spec(words.last()));
        assert((h + normalize_spec(words.last())).take(haystack(words.take(k)).len() as int) =~= h.take(
            haystack(words.take(k)).len() as int,
        ));
    }
}

/// Normalizing a prefix gives a prefix of the normalized text.
proof fn lemma_normalize_take(s: Seq<char>, i: int)
    requires
        0 <= i <= s.len(),
    ensures
        normalize_spec(s.take(i)).len() <= normalize_spec(s).len(),
        normalize_spec(s.take(i)) == normalize_spec(s).take(normalize_spec(s.take(i)).len() as int),
    decreases s.len(),
{
    if i == s.len() {
        assert(s.take(i) =~= s);
        assert(normalize_spec(s).take(normalize_spec(s).len() as int) =~= normalize_spec(s));
    } else {
        lemma_normalize_take(s.drop_last(), i);
        assert(s.drop_last().take(i) =~= s.take(i));
        let n = normalize_spec(s.drop_last());
        if !is_whitespace_spec(s.last()) {
            assert(n.push(ascii_lower_spec(s.last())).take(normalize_spec(s.take(i)).len() as int)
                =~= n.take(normalize_spec(s.take(i)).len() as int));
        }
    }
}

/// Scanning the first `k` characters of a word for the characters whose
/// normalized bytes lie in `start..end`: the normalized bytes passed, the
/// byte index reached, and the byte range of the characters found.
pub open spec fn raw_scan(word: Seq<char>, start: int, end: int, k: int) -> (int, int, Option<(int, int)>)
    decreases k,
{
    if k <= 0 {
        (0, 0, None)
    } else {
        let prev = raw_scan(word, start, end, k - 1);
        let c = word[k - 1];
        let w = utf8_width(c) as int;
        if is_whitespace_spec(c) {
            (prev.0, prev.1 + w, prev.2)
        } else {
            let found = if prev.0 >= start && prev.0 + w <= end {
                Some(
                    match prev.2 {
                        Some(r) => (r.0, prev.1 + w),
                        None => (prev.1, prev.1 + w),
                    },
                )
            } else {
                prev.2
            };
            (prev.0 + w, prev.1 + w, found)
        }
    }
}

/// The byte range, in a word's own text, of the characters whose
/// normalized bytes lie in `start..end` (whitespace the normalization
/// dropped is skipped); the end of the word when there are none.
pub open spec fn raw_word_range_spec(word: Seq<char>, start: int, end: int) -> (int, int) {
    match raw_scan(word, start, end, word.len() as int).2 {
        Some(r) => r,
        None => (utf8_len(word) as int, utf8_len(word) as int),
    }
}

proof fn lemma_raw_scan_bounds(word: Seq<char>, start: int, end: int, k: int)
    requires
        0 <= k <= word.len(),
    ensures
        raw_scan(word, start, end, k).1 == utf8_len(word.take(k)),
        0 <= raw_scan(word, start, end, k).0 <= raw_scan(word, start, end, k).1,
        raw_scan(word, start, end, k).2 matches Some(r) ==> 0 <= r.0 <= r.1 <= raw_scan(
            word,
            start,
            end,
            k,
        ).1,
    decreases k,
{
    if k > 0 {
        lemma_raw_scan_bounds(word, start, end, k - 1);
        lemma_utf8_len_prefix(word, k - 1);
    } else {
        assert(word.take(0) =~= Seq::<char>::empty());
    }
}

/// The byte range of the characters of `word` whose normalized bytes lie in
/// `start..end` (see `raw_word_range_spec`).
pub fn raw_word_range(word: &Vec<char>, start: usize, end: usize) -> (range: (usize, usize))
    requires
        utf8_len(word@) <= usize::MAX,
    ensures
        range.0 as int == raw_word_range_spec(word@, start as int, end as int).0,
        range.1 as int == raw_word_range_spec(word@, start as int, end as int).1,
        range.0 <= range.1 <= utf8_len(word@),
{
    let mut normalized: usize = 0;
    let mut index: usize = 0;
    let mut found: Option<(usize, usize)> = None;
    let mut k: usize = 0;
    while k < word.len()
        invariant
            k <= word@.len(),
            utf8_len(word@) <= usize::MAX,
            normalized as int == raw_scan(word@, start as int, end as int, k as int).0,
            index as int == raw_scan(word@, start as int, end as int, k as int).1,
            match found {
                Some(r) => raw_scan(word@, start as int, end as int, k as int).2 == Some(
                    (r.0 as int, r.1 as int),
                ),
                None => raw_scan(word@, start as int, end as int, k as int).2 is None,
            },
        decreases word@.len() - k,
    {
        proof {
            lemma_raw_scan_bounds(word@, start as int, end as int, k as int);
            lemma_raw_scan_bounds(word@, start as int, end as int, k + 1);
            lemma_utf8_len_prefix(word@, k + 1);
        }
        let c = word[k];
        let w = char_width(c);
        if !is_whitespace(c) {
            let char_start = normalized;
            normalized = normalized + w;
            if char_start >= start && normalized <= end {
                found = match found {
                    Some(r) => Some((r.0, index + w)),
                    None => Some((index, index + w)),
                };
            }
        }
        index = index + w;
        k += 1;
    }
    proof {
        lemma_raw_scan_bounds(word@, start as int, end as int, k as int);
        assert(word@.take(k as int) =~= word@);
    }
    match found {
        Some(r) => r,
        None => (index, index),
    }
}

/// Where the needle `n` is found in `h` from position `from` on: the
/// leftmost occurrence, then the next one after it ends, and so on
/// (occurrences do not overlap).
pub open spec fn occurrences(h: Seq<char>, n: Seq<char>, from: int) -> Seq<int>
    decreases h.len() - from,
{
    if n.len() == 0 || from < 0 || from + n.len() > h.len() {
        Seq::empty()
    } else if h.subrange(from, from + n.len()) == n {
        seq![from] + occurrences(h, n, from + n.len())
    } else {
        occurrences(h, n, from + 1)
    }
}

/// The byte span of a word in the display text of its line.
#[derive(Debug, Clone, Copy, PartialEq, Eq)]
pub struct TextSpan {
    pub word_index: usize,
    pub start: usize,
    pub end: usize,
}

/// The part of word `word_index` that a match covers: a byte range of the
/// word's own text.
#[derive(Debug, Clone, Copy, PartialEq, Eq)]
pub struct WordPart {
    pub word_index: usize,
    pub raw_start: usize,
    pub raw_end: usize,
}

/// One match in a line: the word parts it covers, in word order, and its
/// byte range in the display text (when a display span was known for one
/// of them).
#[derive(Debug, Clone)]
pub struct LineHit {
    pub parts: Vec<WordPart>,
    pub display: Option<(usize, usize)>,
}

pub open spec fn part_model(p: WordPart) -> (int, int, int) {
    (p.word_index as int, p.raw_start as int, p.raw_end as int)
}

pub open spec fn hit_model(h: LineHit) -> (Seq<(int, int, int)>, Option<(int, int)>) {
    (
        h.parts@.map_values(|p: WordPart| part_model(p)),
        match h.display {
            Some(d) => Some((d.0 as int, d.1 as int)),
            None => None,
        },
    )
}

/// Whether word `k`'s haystack span meets the byte range `start..end`.
pub open spec fn overlaps(words: Seq<Seq<char>>, k: int, start: int, end: int) -> bool {
    span_start(words, k) < end && span_end(words, k) > start
}

/// The part of word `k` that the haystack byte range `start..end` covers.
pub open spec fn part_of(words: Seq<Seq<char>>, k: int, start: int, end: int) -> (int, int, int) {
    let s = span_start(words, k) as int;
    let e = span_end(words, k) as int;
    let r = raw_word_range_spec(
        words[k],
        if start >= s {
            start - s
        } else {
            0
        },
        if end <= e {
            end
        } else {
            e
        } - s,
    );
    (k, r.0, r.1)
}

/// The parts of the first `k` words that `start..end` covers.
pub open spec fn match_parts(words: Seq<Seq<char>>, start: int, end: int, k: int) -> Seq<
    (int, int, int),
>
    decreases k,
{
    if k <= 0 {
        Seq::empty()
    } else if overlaps(words, k - 1, start, end) {
        match_parts(words, start, end, k - 1).push(part_of(words, k - 1, start, end))
    } else {
        match_parts(words, start, end, k - 1)
    }
}

/// The display range covering the parts: each part shifted by its word's
/// display start, all of them joined.
pub open spec fn display_union(parts: Seq<(int, int, int)>, display: Seq<TextSpan>) -> Option<
    (int, int),
>
    decreases parts.len(),
{
    if parts.len() == 0 {
        None
    } else {
        let prev = display_union(parts.drop_last(), display);
        let p = parts.last();
        if 0 <= p.0 < display.len() {
            let r = (display[p.0].start + p.1, display[p.0].start + p.2);
            Some(
                match prev {
                    Some(q) => (
                        if q.0 <= r.0 {
                            q.0
                        } else {
                            r.0
                        },
                        if q.1 >= r.1 {
                            q.1
                        } else {
                            r.1
                        },
                    ),
                    None => r,
                },
            )
        } else {
            prev
        }
    }
}

/// The match at haystack position `m` of a line.
pub open spec fn line_hit_at(words: Seq<Seq<char>>, display: Seq<TextSpan>, n: Seq<char>, m: int) -> (
    Seq<(int, int, int)>,
    Option<(int, int)>,
) {
    let start = utf8_len(haystack(words).take(m)) as int;
    let end = start + utf8_len(n);
    let parts = match_parts(words, start, end, words.len() as int);
    (parts, display_union(parts, display))
}

pub open spec fn hit_maker(words: Seq<Seq<char>>, display: Seq<TextSpan>, n: Seq<char>) -> spec_fn(
    int,
) -> (Seq<(int, int, int)>, Option<(int, int)>) {
    |m: int| line_hit_at(words, display, n, m)
}

pub open spec fn covers_a_word() -> spec_fn((Seq<(int, int, int)>, Option<(int, int)>)) -> bool {
    |h: (Seq<(int, int, int)>, Option<(int, int)>)| h.0.len() > 0
}

/// The matches of needle `n` in a line with these words and display spans.
pub open spec fn line_hits_spec(words: Seq<Seq<char>>, display: Seq<TextSpan>, n: Seq<char>) -> Seq<
    (Seq<(int, int, int)>, Option<(int, int)>),
> {
    occurrences(haystack(words), n, 0).map_values(hit_maker(words, display, n)).filter(
        covers_a_word(),
    )
}

/// Display offsets of the line's words fit in `usize` with any part of the
/// word added.
pub open spec fn display_fits(words: Seq<Seq<char>>, display: Seq<TextSpan>) -> bool {
    forall|k: int|
        0 <= k < words.len() && k < display.len() ==> #[trigger] display[k].start + utf8_len(words[k])
            <= usize::MAX
}

pub open spec fn chars_model(ws: Seq<Vec<char>>) -> Seq<Seq<char>> {
    ws.map_values(|w: Vec<char>| w@)
}

proof fn lemma_utf8_len_word_le_haystack(words: Seq<Seq<char>>, k: int)
    requires
        0 <= k < words.len(),
    ensures
        utf8_len(words[k]) <= utf8_len(haystack(words)) + 4 * words[k].len(),
        span_start(words, k) <= span_end(words, k),
        span_end(words, k) == span_start(words, k) + utf8_len(normalize_spec(words[k])),
{
    assert(words.take(k + 1).drop_last() =~= words.take(k));
    assert(words.take(k + 1).last() == words[k]);
    lemma_utf8_len_concat(haystack(words.take(k)), normalize_spec(words[k]));
    lemma_utf8_len_bound(words[k]);
}

proof fn lemma_utf8_len_bound(s: Seq<char>)
    ensures
        utf8_len(s) <= 4 * s.len(),
    decreases s.len(),
{
    if s.len() > 0 {
        lemma_utf8_len_bound(s.drop_last());
    }
}

/// The match covering haystack bytes `start..end`.
fn hit_for_range(
    words: &Vec<Vec<char>>,
    hay: &Haystack,
    display: &Vec<TextSpan>,
    start: usize,
    end: usize,
) -> (hit: LineHit)
    requires
        hay.models(chars_model(words@)),
        display_fits(chars_model(words@), display@),
        forall|k: int| 0 <= k < words@.len() ==> utf8_len(#[trigger] words@[k]@) <= usize::MAX,
    ensures
        hit_model(hit).0 == match_parts(chars_model(words@), start as int, end as int, words@.len() as int),
        hit_model(hit).1 == display_union(hit_model(hit).0, display@),
{
    let ghost ws = chars_model(words@);
    let mut parts: Vec<WordPart> = Vec::new();
    let mut range: Option<(usize, usize)> = None;
    let mut k: usize = 0;
    while k < words.len()
        invariant
            ws == chars_model(words@),
            hay.models(ws),
            display_fits(ws, display@),
            forall|j: int| 0 <= j < words@.len() ==> utf8_len(#[trigger] words@[j]@) <= usize::MAX,
            k <= words@.len(),
            parts@.map_values(|p: WordPart| part_model(p)) == match_parts(ws, start as int, end as int, k as int),
            match range {
                Some(r) => display_union(match_parts(ws, start as int, end as int, k as int), display@) == Some((r.0 as int, r.1 as int)),
                None => display_union(match_parts(ws, start as int, end as int, k as int), display@) is None,
            },
        decreases words@.len() - k,
    {
        let s = hay.starts[k];
        let e = hay.ends[k];
        proof {
            assert(ws[k as int] == words@[k as int]@);
            lemma_utf8_len_word_le_haystack(ws, k as int);
        }
        if s < end && e > start {
            let local_start = if start >= s { start - s } else { 0 };
            let local_end = (if end <= e { end } else { e }) - s;
            let raw = raw_word_range(&words[k], local_start, local_end);
            let part = WordPart { word_index: k, raw_start: raw.0, raw_end: raw.1 };
            let ghost before = parts@;
            parts.push(part);
            proof {
                assert(parts@.map_values(|p: WordPart| part_model(p)) =~= before.map_values(
                    |p: WordPart| part_model(p),
                ).push(part_model(part)));
                assert(part_model(part) == part_of(ws, k as int, start as int, end as int));
                let mp = match_parts(ws, start as int, end as int, k + 1);
                assert(mp.drop_last() =~= match_parts(ws, start as int, end as int, k as int));
            }
            if k < display.len() {
                let d = display[k].start;
                proof {
                    assert(d + utf8_len(ws[k as int]) <= usize::MAX);
                }
                let r = (d + raw.0, d + raw.1);
                range = match range {
                    Some(q) => Some((if q.0 <= r.0 { q.0 } else { r.0 }, if q.1 >= r.1 { q.1 } else { r.1 })),
                    None => Some(r),
                };
            }
        }
        k += 1;
    }
    LineHit { parts, display: range }
}

/// Whether `needle` stands in `text` at position `i`.
fn matches_at(text: &Vec<char>, needle: &Vec<char>, i: usize) -> (found: bool)
    requires
        i + needle@.len() <= text@.len(),
    ensures
        found == (text@.subrange(i as int, i + needle@.len()) == needle@),
{
    let mut k: usize = 0;
    while k < needle.len()
        invariant
            i + needle@.len() <= text@.len(),
            k <= needle@.len(),
            forall|j: int| 0 <= j < k ==> text@[i + j] == needle@[j],
        decreases needle@.len() - k,
    {
        assert(text@.len() == text.len());
        if text[i + k] != needle[k] {
            proof {
                assert(text@.subrange(i as int, i + needle@.len())[k as int] != needle@[k as int]);
            }
            return false;
        }
        k += 1;
    }
    proof {
        assert(text@.subrange(i as int, i + needle@.len()) =~= needle@);
    }
    true
}

/// The characters of each word.
fn words_chars(words: &Vec<String>) -> (cw: Vec<Vec<char>>)
    ensures
        chars_model(cw@) == words_model(words@),
{
    let mut cw: Vec<Vec<char>> = Vec::new();
    let mut k: usize = 0;
    while k < words.len()
        invariant
            k <= words@.len(),
            chars_model(cw@) == words_model(words@).take(k as int),
        decreases words@.len() - k,
    {
        let cs = chars_of(words[k].as_str());
        let ghost before = cw@;
        cw.push(cs);
        proof {
            assert(chars_model(cw@) =~= chars_model(before).push(cs@));
            assert(words_model(words@).take(k + 1) =~= words_model(words@).take(k as int).push(
                words@[k as int]@,
            ));
        }
        k += 1;
    }
    proof {
        assert(words_model(words@).take(k as int) =~= words_model(words@));
    }
    cw
}

/// The matches of the normalized `needle` in a line (see `line_hits_spec`).
pub fn line_hits(words: &Vec<String>, display: &Vec<TextSpan>, needle: &Vec<char>) -> (hits: Vec<
    LineHit,
>)
    requires
        utf8_len(haystack(words_model(words@))) <= usize::MAX,
        forall|k: int| 0 <= k < words@.len() ==> utf8_len(#[trigger] words@[k]@) <= usize::MAX,
        display_fits(words_model(words@), display@),
    ensures
        hits@.map_values(|h: LineHit| hit_model(h)) == line_hits_spec(
            words_model(words@),
            display@,
            needle@,
        ),
{
    let ghost ws = words_model(words@);
    let ghost maker = hit_maker(ws, display@, needle@);
    let ghost covers = covers_a_word();
    let cw = words_chars(words);
    let hay = build_haystack(words);
    let ghost h = hay.text@;
    let mut hits: Vec<LineHit> = Vec::new();
    let n = needle.len();
    let len = hay.text.len();
    if n == 0 || n > len {
        proof {
            assert(occurrences(h, needle@, 0) =~= Seq::<int>::empty());
            assert(hits@.map_values(|x: LineHit| hit_model(x)) =~= line_hits_spec(ws, display@, needle@)) by {
                reveal(Seq::filter);
                assert(occurrences(h, needle@, 0).map_values(maker) =~= Seq::empty());
            }
        }
        return hits;
    }
    let last = len - n;
    let mut i: usize = 0;
    let ghost mut found: Seq<int> = Seq::empty();
    proof {
        assert(found + occurrences(h, needle@, 0) =~= occurrences(h, needle@, 0));
        assert(found.map_values(maker) =~= Seq::empty());
        reveal(Seq::filter);
        assert(hits@.map_values(|x: LineHit| hit_model(x)) =~= found.map_values(maker).filter(covers));
    }
    while i <= last
        invariant
            ws == words_model(words@),
            chars_model(cw@) == ws,
            hay.models(ws),
            h == hay.text@,
            h == haystack(ws),
            n == needle@.len(),
            len == h.len(),
            n > 0,
            last == len - n,
            i <= len,
            display_fits(ws, display@),
            forall|k: int| 0 <= k < words@.len() ==> utf8_len(#[trigger] words@[k]@) <= usize::MAX,
            maker == hit_maker(ws, display@, needle@),
            covers == covers_a_word(),
            occurrences(h, needle@, 0) == found + occurrences(h, needle@, i as int),
            hits@.map_values(|x: LineHit| hit_model(x)) == found.map_values(maker).filter(covers),
        decreases len - i,
    {
        proof {
            assert forall|k: int| 0 <= k < cw@.len() implies utf8_len(#[trigger] cw@[k]@) <= usize::MAX by {
                assert(chars_model(cw@)[k] == cw@[k]@);
                assert(ws[k] == words@[k]@);
            }
        }
        if matches_at(&hay.text, needle, i) {
            let start = hay.offsets[i];
            let end = hay.offsets[i + n];
            proof {
                assert(h.take(i + n) =~= h.take(i as int) + needle@);
                lemma_utf8_len_concat(h.take(i as int), needle@);
                assert(occurrences(h, needle@, i as int) == seq![i as int] + occurrences(h, needle@, i + n));
            }
            let hit = hit_for_range(&cw, &hay, display, start, end);
            let ghost before = hits@;
            proof {
                assert(hit_model(hit) == line_hit_at(ws, display@, needle@, i as int));
                assert(found.push(i as int).map_values(maker) =~= found.map_values(maker).push(maker(i as int)));
                found.map_values(maker).lemma_filter_push(maker(i as int), covers);
                assert(found + occurrences(h, needle@, i as int) =~= found.push(i as int) + occurrences(h, needle@, i + n));
            }
            if hit.parts.len() > 0 {
                hits.push(hit);
                proof {
                    assert(hits@.map_values(|x: LineHit| hit_model(x)) =~= before.map_values(|x: LineHit| hit_model(x)).push(hit_model(hit)));
                }
            }
            proof {
                found = found.push(i as int);
            }
            i = i + n;
        } else {
            proof {
                assert(occurrences(h, needle@, i as int) == occurrences(h, needle@, i + 1));
            }
            i = i + 1;
        }
    }
    proof {
        assert(occurrences(h, needle@, i as int) =~= Seq::<int>::empty());
        assert(found + occurrences(h, needle@, i as int) =~= found);
    }
    hits
}

/// Matches returned by one search at most.
pub const MAX_SEARCH_RESULTS: usize = 2000;

/// The text of one line of the index: its page, its words, the words joined
/// for display, and where each word stands in the display text.
#[derive(Debug, Clone)]
pub struct SearchLineText {
    pub page_index: usize,
    pub words: Vec<String>,
    pub display_text: String,
    pub display_spans: Vec<TextSpan>,
}

/// One search result: its number, its line, the word parts it covers, and
/// its byte range in the line's display text (empty at 0 when unknown).
#[derive(Debug, Clone)]
pub struct SearchHit {
    pub id: usize,
    pub line_index: usize,
    pub parts: Vec<WordPart>,
    pub display_match_start: usize,
    pub display_match_end: usize,
}

/// A line whose byte offsets fit in `usize`.
pub open spec fn line_fits(line: SearchLineText) -> bool {
    &&& utf8_len(haystack(words_model(line.words@))) <= usize::MAX
    &&& forall|k: int| 0 <= k < line.words@.len() ==> utf8_len(#[trigger] line.words@[k]@) <= usize::MAX
    &&& display_fits(words_model(line.words@), line.display_spans@)
}

pub type HitModel = (int, Seq<(int, int, int)>, (int, int));

/// A line's matches, each with the line's index and its display range
/// (empty at 0 when unknown).
pub open spec fn tag_hits(line_index: int, hits: Seq<(Seq<(int, int, int)>, Option<(int, int)>)>) -> Seq<
    HitModel,
> {
    hits.map_values(
        |h: (Seq<(int, int, int)>, Option<(int, int)>)|
            (
                line_index,
                h.0,
                match h.1 {
                    Some(d) => d,
                    None => (0, 0),
                },
            ),
    )
}

/// The matches of `n` in the first `k` lines, in line order.
pub open spec fn all_hits(lines: Seq<SearchLineText>, n: Seq<char>, k: int) -> Seq<HitModel>
    decreases k,
{
    if k <= 0 {
        Seq::empty()
    } else {
        all_hits(lines, n, k - 1) + tag_hits(
            k - 1,
            line_hits_spec(words_model(lines[k - 1].words@), lines[k - 1].display_spans@, n),
        )
    }
}

/// The results of searching `query`: nothing for a query of only
/// whitespace; otherwise the matches of its normalized text in every line,
/// at most `MAX_SEARCH_RESULTS` of them.
pub open spec fn search_spec(lines: Seq<SearchLineText>, query: Seq<char>) -> Seq<HitModel> {
    let n = normalize_spec(query);
    let all = all_hits(lines, n, lines.len() as int);
    if n.len() == 0 {
        Seq::empty()
    } else if all.len() > MAX_SEARCH_RESULTS {
        all.take(MAX_SEARCH_RESULTS as int)
    } else {
        all
    }
}

pub open spec fn search_hit_model(h: SearchHit) -> HitModel {
    (
        h.line_index as int,
        h.parts@.map_values(|p: WordPart| part_model(p)),
        (h.display_match_start as int, h.display_match_end as int),
    )
}

/// Searches the lines for `query` (see `search_spec`); results are
/// numbered from 0 in order.
pub fn search_lines(lines: &Vec<SearchLineText>, query: &str) -> (found: Vec<SearchHit>)
    requires
        forall|k: int| 0 <= k < lines@.len() ==> line_fits(#[trigger] lines@[k]),
    ensures
        found@.map_values(|h: SearchHit| search_hit_model(h)) == search_spec(lines@, query@),
        forall|i: int| 0 <= i < found@.len() ==> #[trigger] found@[i].id == i,
{
    let needle = normalize_search_text(query);
    let mut found: Vec<SearchHit> = Vec::new();
    if needle.len() == 0 {
        proof {
            assert(found@.map_values(|h: SearchHit| search_hit_model(h)) =~= search_spec(lines@, query@));
        }
        return found;
    }
    let ghost n = needle@;
    let mut k: usize = 0;
    while k < lines.len()
        invariant
            n == needle@,
            n == normalize_spec(query@),
            n.len() > 0,
            k <= lines@.len(),
            forall|j: int| 0 <= j < lines@.len() ==> line_fits(#[trigger] lines@[j]),
            found@.len() < MAX_SEARCH_RESULTS,
            found@.map_values(|h: SearchHit| search_hit_model(h)) == all_hits(lines@, n, k as int),
            forall|i: int| 0 <= i < found@.len() ==> #[trigger] found@[i].id == i,
        decreases lines@.len() - k,
    {
        let line = &lines[k];
        proof {
            assert(line_fits(lines@[k as int]));
        }
        let hits = line_hits(&line.words, &line.display_spans, &needle);
        let ghost line_tagged = tag_hits(
            k as int,
            line_hits_spec(words_model(line.words@), line.display_spans@, n),
        );
        let ghost base = found@.map_values(|h: SearchHit| search_hit_model(h));
        let mut j: usize = 0;
        while j < hits.len()
            invariant
                k < lines@.len(),
                *line == lines@[k as int],
                base == all_hits(lines@, n, k as int),
                n.len() > 0,
                n == normalize_spec(query@),
                j <= hits@.len(),
                hits@.map_values(|h: LineHit| hit_model(h)) == line_hits_spec(
                    words_model(line.words@),
                    line.display_spans@,
                    n,
                ),
                line_tagged == tag_hits(
                    k as int,
                    line_hits_spec(words_model(line.words@), line.display_spans@, n),
                ),
                found@.len() < MAX_SEARCH_RESULTS,
                found@.map_values(|h: SearchHit| search_hit_model(h)) == base + line_tagged.take(
                    j as int,
                ),
                forall|i: int| 0 <= i < found@.len() ==> #[trigger] found@[i].id == i,
            decreases hits@.len() - j,
        {
            let hit = &hits[j];
            let (start, end) = match hit.display {
                Some(d) => d,
                None => (0, 0),
            };
            let result = SearchHit {
                id: found.len(),
                line_index: k,
                parts: hit.parts.clone(),
                display_match_start: start,
                display_match_end: end,
            };
            let ghost before = found@;
            proof {
                assert(hits@.map_values(|h: LineHit| hit_model(h))[j as int] == hit_model(hits@[j as int]));
                assert(result.parts@ == hit.parts@);
                assert(search_hit_model(result) == line_tagged[j as int]);
            }
            found.push(result);
            proof {
                assert(found@.map_values(|h: SearchHit| search_hit_model(h)) =~= before.map_values(
                    |h: SearchHit| search_hit_model(h),
                ).push(search_hit_model(result)));
                assert(line_tagged.take(j + 1) =~= line_tagged.take(j as int).push(line_tagged[j as int]));
                assert(base + line_tagged.take(j + 1) =~= (base + line_tagged.take(j as int)).push(
                    line_tagged[j as int],
                ));
            }
            if found.len() >= MAX_SEARCH_RESULTS {
                proof {
                    lemma_all_hits_prefix(lines@, n, k + 1);
                    assert(all_hits(lines@, n, k + 1) == base + line_tagged);
                    assert((base + line_tagged).take(found@.len() as int) =~= base + line_tagged.take(
                        j + 1,
                    ));
                    assert(found@.map_values(|h: SearchHit| search_hit_model(h)) =~= search_spec(
                        lines@,
                        query@,
                    ));
                }
                return found;
            }
            j += 1;
        }
        proof {
            assert(line_tagged.take(j as int) =~= line_tagged);
        }
        k += 1;
    }
    proof {
        assert(all_hits(lines@, n, k as int).len() < MAX_SEARCH_RESULTS);
    }
    found
}

/// The matches of the first `k` lines come first among those of all lines.
proof fn lemma_all_hits_prefix(lines: Seq<SearchLineText>, n: Seq<char>, k: int)
    requires
        0 <= k <= lines.len(),
    ensures
        all_hits(lines, n, lines.len() as int).take(all_hits(lines, n, k).len() as int) == all_hits(
            lines,
            n,
            k,
        ),
        all_hits(lines, n, k).len() <= all_hits(lines, n, lines.len() as int).len(),
    decreases lines.len() - k,
{
    if k == lines.len() {
        assert(all_hits(lines, n, k).take(all_hits(lines, n, k).len() as int) =~= all_hits(lines, n, k));
    } else {
        lemma_all_hits_prefix(lines, n, k + 1);
        let a = all_hits(lines, n, k);
        let b = all_hits(lines, n, k + 1);
        assert(b.take(a.len() as int) =~= a);
        assert(all_hits(lines, n, lines.len() as int).take(a.len() as int) =~= b.take(a.len() as int));
    }
}

/// The words of a line joined: with a space between words for display
/// (`spaced`), or run together; with each word's byte span.
pub open spec fn joined(words: Seq<Seq<char>>, spaced: bool, k: int) -> (Seq<char>, Seq<TextSpan>)
    decreases k,
{
    if k <= 0 {
        (Seq::empty(), Seq::empty())
    } else {
        let prev = joined(words, spaced, k - 1);
        let text = if spaced && prev.0.len() > 0 {
            prev.0.push(' ')
        } else {
            prev.0
        };
        let full = text + words[k - 1];
        (
            full,
            prev.1.push(
                TextSpan {
                    word_index: (k - 1) as usize,
                    start: utf8_len(text) as usize,
                    end: utf8_len(full) as usize,
                },
            ),
        )
    }
}

/// A line's display text and search text, with the words' byte spans in
/// each.
#[derive(Debug, Clone)]
pub struct LineTexts {
    pub display_text: String,
    pub display_spans: Vec<TextSpan>,
    pub search_text: String,
    pub search_spans: Vec<TextSpan>,
}

proof fn lemma_joined_grows(words: Seq<Seq<char>>, spaced: bool, k: int, m: int)
    requires
        0 <= k <= m <= words.len(),
    ensures
        utf8_len(joined(words, spaced, k).0) <= utf8_len(joined(words, spaced, m).0),
        joined(words, spaced, k).1.len() == k,
    decreases m,
{
    if m > k {
        lemma_joined_grows(words, spaced, k, m - 1);
        let prev = joined(words, spaced, m - 1).0;
        let text = if spaced && prev.len() > 0 {
            prev.push(' ')
        } else {
            prev
        };
        if spaced && prev.len() > 0 {
            assert(prev.push(' ').drop_last() =~= prev);
        }
        lemma_utf8_len_concat(text, words[m - 1]);
    } else if k > 0 {
        lemma_joined_grows(words, spaced, k - 1, k - 1);
    }
}

/// Joins the words (see `joined`).
fn join_words(words: &Vec<Vec<char>>, spaced: bool) -> (out: (Vec<char>, Vec<TextSpan>))
    requires
        utf8_len(joined(chars_model(words@), spaced, words@.len() as int).0) <= usize::MAX,
    ensures
        out.0@ == joined(chars_model(words@), spaced, words@.len() as int).0,
        out.1@ == joined(chars_model(words@), spaced, words@.len() as int).1,
{
    let ghost ws = chars_model(words@);
    let mut text: Vec<char> = Vec::new();
    let mut spans: Vec<TextSpan> = Vec::new();
    let mut bytes: usize = 0;
    let mut k: usize = 0;
    while k < words.len()
        invariant
            ws == chars_model(words@),
            utf8_len(joined(ws, spaced, words@.len() as int).0) <= usize::MAX,
            k <= words@.len(),
            text@ == joined(ws, spaced, k as int).0,
            spans@ == joined(ws, spaced, k as int).1,
            bytes == utf8_len(text@),
        decreases words@.len() - k,
    {
        proof {
            lemma_joined_grows(ws, spaced, k + 1, words@.len() as int);
            assert(ws[k as int] == words@[k as int]@);
        }
        if spaced && text.len() > 0 {
            let ghost old_text = text@;
            text.push(' ');
            proof {
                assert(text@.drop_last() =~= old_text);
                lemma_utf8_len_concat(text@, ws[k as int]);
            }
            bytes = bytes + 1;
        } else {
            proof {
                lemma_utf8_len_concat(text@, ws[k as int]);
            }
        }
        let start = bytes;
        let word = &words[k];
        let mut i: usize = 0;
        let ghost base = text@;
        while i < word.len()
            invariant
                ws == chars_model(words@),
                k < words@.len(),
                *word == words@[k as int],
                utf8_len(base + word@) <= usize::MAX,
                i <= word@.len(),
                text@ == base + word@.take(i as int),
                bytes == utf8_len(text@),
            decreases word@.len() - i,
        {
            let ghost old_text = text@;
            text.push(word[i]);
            proof {
                assert(text@ =~= base + word@.take(i + 1));
                assert(text@.drop_last() =~= old_text);
                lemma_utf8_len_prefix(word@, i + 1);
                lemma_utf8_len_concat(base, word@.take(i + 1));
                lemma_utf8_len_concat(base, word@);
                lemma_utf8_len_prefix(word@, i as int);
            }
            bytes = bytes + char_width(word[i]);
            i += 1;
        }
        proof {
            assert(word@.take(i as int) =~= word@);
        }
        spans.push(TextSpan { word_index: k, start, end: bytes });
        k += 1;
    }
    (text, spans)
}

/// The display text (words with a space between them) and the search text
/// (words run together) of a line, with the words' byte spans.
pub fn line_texts(words: &Vec<String>) -> (texts: LineTexts)
    requires
        utf8_len(joined(words_model(words@), true, words@.len() as int).0) <= usize::MAX,
        utf8_len(joined(words_model(words@), false, words@.len() as int).0) <= usize::MAX,
    ensures
        texts.display_text@ == joined(words_model(words@), true, words@.len() as int).0,
        texts.display_spans@ == joined(words_model(words@), true, words@.len() as int).1,
        texts.search_text@ == joined(words_model(words@), false, words@.len() as int).0,
        texts.search_spans@ == joined(words_model(words@), false, words@.len() as int).1,
{
    let cw = words_chars(words);
    proof {
        assert(chars_model(cw@).len() == words_model(words@).len());
        assert(cw@.len() == words@.len());
    }
    let (display, display_spans) = join_words(&cw, true);
    let (search, search_spans) = join_words(&cw, false);
    LineTexts {
        display_text: crate::text::string_of(&display),
        display_spans,
        search_text: crate::text::string_of(&search),
        search_spans,
    }
}

/// The words' texts of a line of `pdftotext -tsv` output.
pub open spec fn tsv_words(line: crate::tsv::TsvLine) -> Seq<String> {
    line.words@.map_values(|w: crate::tsv::TsvWord| w.text)
}

/// The searchable text of a line of `pdftotext -tsv` output: its page, its
/// words, and its display text with the words' spans.
pub fn line_text_of(line: &crate::tsv::TsvLine) -> (text: SearchLineText)
    requires
        utf8_len(joined(words_model(tsv_words(*line)), true, line.words@.len() as int).0) <= usize::MAX,
        utf8_len(joined(words_model(tsv_words(*line)), false, line.words@.len() as int).0) <= usize::MAX,
    ensures
        text.page_index == line.page_index,
        text.words@ == tsv_words(*line),
        text.display_text@ == joined(words_model(text.words@), true, text.words@.len() as int).0,
        text.display_spans@ == joined(words_model(text.words@), true, text.words@.len() as int).1,
{
    let mut words: Vec<String> = Vec::new();
    let mut k: usize = 0;
    while k < line.words.len()
        invariant
            k <= line.words@.len(),
            words@ == tsv_words(*line).take(k as int),
        decreases line.words@.len() - k,
    {
        words.push(line.words[k].text.clone());
        proof {
            assert(words@ =~= tsv_words(*line).take(k + 1));
        }
        k += 1;
    }
    proof {
        assert(words@ =~= tsv_words(*line));
    }
    let texts = line_texts(&words);
    SearchLineText {
        page_index: line.page_index,
        words,
        display_text: texts.display_text,
        display_spans: texts.display_spans,
    }
}

/// Searching ignores whitespace and ASCII case: two queries that normalize
/// alike find the same matches, and a query of only whitespace finds none.
pub proof fn lemma_search_ignores_case_and_space(lines: Seq<SearchLineText>, a: Seq<char>, b: Seq<char>)
    requires
        normalize_spec(a) == normalize_spec(b),
    ensures
        search_spec(lines, a) == search_spec(lines, b),
        normalize_spec(a).len() == 0 ==> search_spec(lines, a).len() == 0,
{
}

} // verus!
