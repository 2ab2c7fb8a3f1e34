//! Character-level helpers shared by the parsers and formatters: the
//! whitespace, control and ASCII classes of characters, trimming, line
//! splitting, decimal numbers and escaped TOML strings.

use vstd::prelude::*;

verus! {

/// `String::push`: appends one character.
#[verifier::external_body]
pub(crate) fn push_char(s: &mut String, c: char)
    ensures
        final(s)@ == old(s)@.push(c),
{
    s.push(c);
}

/// The characters of `s`, in order.
pub fn chars_of(s: &str) -> (out: Vec<char>)
    ensures
        out@ == s@,
{
    let mut out: Vec<char> = Vec::new();
    for c in it: s.chars()
        invariant
            out@ == it.seq().take(it.index() as int),
    {
        out.push(c);
    }
    out
}

/// The string holding `cs`.
pub fn string_of(cs: &Vec<char>) -> (s: String)
    ensures
        s@ == cs@,
{
    let mut s = String::new();
    let mut i: usize = 0;
    while i < cs.len()
        invariant
            i <= cs@.len(),
            s@ == cs@.take(i as int),
        decreases cs@.len() - i,
    {
        push_char(&mut s, cs[i]);
        proof {
            assert(cs@.take(i + 1) =~= cs@.take(i as int).push(cs@[i as int]));
        }
        i += 1;
    }
    proof {
        assert(cs@.take(i as int) =~= cs@);
    }
    s
}

/// Appends `tail` to `out`.
pub fn extend_chars(out: &mut Vec<char>, tail: &Vec<char>)
    ensures
        final(out)@ == old(out)@ + tail@,
{
    let mut i: usize = 0;
    while i < tail.len()
        invariant
            i <= tail@.len(),
            out@ == old(out)@ + tail@.take(i as int),
        decreases tail@.len() - i,
    {
        out.push(tail[i]);
        proof {
            assert(tail@.take(i + 1) =~= tail@.take(i as int).push(tail@[i as int]));
            assert(old(out)@ + tail@.take(i + 1) =~= (old(out)@ + tail@.take(i as int)).push(
                tail@[i as int],
            ));
        }
        i += 1;
    }
    proof {
        assert(tail@.take(i as int) =~= tail@);
    }
}

/// Appends the characters of `tail` to `out`.
pub fn extend_str(out: &mut Vec<char>, tail: &str)
    ensures
        final(out)@ == old(out)@ + tail@,
{
    let cs = chars_of(tail);
    extend_chars(out, &cs);
}

/// Whether `cs` holds exactly the characters of `s`.
pub fn chars_eq(cs: &Vec<char>, s: &str) -> (same: bool)
    ensures
        same == (cs@ == s@),
{
    let other = chars_of(s);
    if cs.len() != other.len() {
        proof {
            assert(cs@.len() != s@.len());
        }
        return false;
    }
    let mut i: usize = 0;
    while i < cs.len()
        invariant
            i <= cs@.len() == other@.len(),
            other@ == s@,
            forall|j: int| 0 <= j < i ==> cs@[j] == other@[j],
        decreases cs@.len() - i,
    {
        if cs[i] != other[i] {
            proof {
                assert(cs@[i as int] != s@[i as int]);
            }
            return false;
        }
        i += 1;
    }
    proof {
        assert(cs@ =~= other@);
    }
    true
}

/// Unicode `White_Space` characters, as `char::is_whitespace` classifies
/// them.
pub open spec fn is_whitespace_spec(c: char) -> bool {
    let v = c as u32;
    ||| (0x09 <= v && v <= 0x0d)
    ||| v == 0x20
    ||| v == 0x85
    ||| v == 0xa0
    ||| v == 0x1680
    ||| (0x2000 <= v && v <= 0x200a)
    ||| v == 0x2028
    ||| v == 0x2029
    ||| v == 0x202f
    ||| v == 0x205f
    ||| v == 0x3000
}

pub fn is_whitespace(c: char) -> (ws: bool)
    ensures
        ws == is_whitespace_spec(c),
{
    let v = c as u32;
    (0x09 <= v && v <= 0x0d) || v == 0x20 || v == 0x85 || v == 0xa0 || v == 0x1680 || (0x2000
        <= v && v <= 0x200a) || v == 0x2028 || v == 0x2029 || v == 0x202f || v == 0x205f || v
        == 0x3000
}

/// Control characters (general category `Cc`), as `char::is_control`
/// classifies them.
pub open spec fn is_control_spec(c: char) -> bool {
    let v = c as u32;
    v <= 0x1f || (0x7f <= v && v <= 0x9f)
}

pub fn is_control(c: char) -> (control: bool)
    ensures
        control == is_control_spec(c),
{
    let v = c as u32;
    v <= 0x1f || (0x7f <= v && v <= 0x9f)
}

/// ASCII uppercase letters mapped to lowercase; everything else unchanged.
pub open spec fn ascii_lower_spec(c: char) -> char {
    if 'A' <= c && c <= 'Z' {
        ((c as u32) + 32) as char
    } else {
        c
    }
}

pub fn ascii_lower(c: char) -> (lower: char)
    ensures
        lower == ascii_lower_spec(c),
{
    if 'A' <= c && c <= 'Z' {
        ((c as u8) + 32) as char
    } else {
        c
    }
}

pub open spec fn ascii_lower_seq(s: Seq<char>) -> Seq<char> {
    s.map_values(|c: char| ascii_lower_spec(c))
}

pub fn to_ascii_lowercase(cs: &Vec<char>) -> (out: Vec<char>)
    ensures
        out@ == ascii_lower_seq(cs@),
{
    let mut out: Vec<char> = Vec::new();
    let mut i: usize = 0;
    while i < cs.len()
        invariant
            i <= cs@.len(),
            out@ == ascii_lower_seq(cs@.take(i as int)),
        decreases cs@.len() - i,
    {
        out.push(ascii_lower(cs[i]));
        proof {
            assert(cs@.take(i + 1) =~= cs@.take(i as int).push(cs@[i as int]));
            assert(out@ =~= ascii_lower_seq(cs@.take(i + 1)));
        }
        i += 1;
    }
    proof {
        assert(cs@.take(i as int) =~= cs@);
    }
    out
}

/// Number of leading whitespace characters.
pub open spec fn leading_ws(s: Seq<char>) -> nat
    decreases s.len(),
{
    if s.len() > 0 && is_whitespace_spec(s[0]) {
        1 + leading_ws(s.drop_first())
    } else {
        0
    }
}

/// Number of trailing whitespace characters.
pub open spec fn trailing_ws(s: Seq<char>) -> nat
    decreases s.len(),
{
    if s.len() > 0 && is_whitespace_spec(s.last()) {
        1 + trailing_ws(s.drop_last())
    } else {
        0
    }
}

proof fn lemma_leading_ws_bound(s: Seq<char>)
    ensures
        leading_ws(s) <= s.len(),
        forall|j: int| 0 <= j < leading_ws(s) ==> is_whitespace_spec(#[trigger] s[j]),
        leading_ws(s) < s.len() ==> !is_whitespace_spec(s[leading_ws(s) as int]),
    decreases s.len(),
{
    if s.len() > 0 && is_whitespace_spec(s[0]) {
        lemma_leading_ws_bound(s.drop_first());
        assert forall|j: int| 0 <= j < leading_ws(s) implies is_whitespace_spec(#[trigger] s[j]) by {
            if j > 0 {
                assert(s[j] == s.drop_first()[j - 1]);
            }
        }
    }
}

pub proof fn lemma_trailing_ws_bound(s: Seq<char>)
    ensures
        trailing_ws(s) <= s.len(),
        forall|j: int|
            s.len() - trailing_ws(s) <= j < s.len() ==> is_whitespace_spec(#[trigger] s[j]),
        trailing_ws(s) < s.len() ==> !is_whitespace_spec(s[s.len() - trailing_ws(s) - 1]),
    decreases s.len(),
{
    if s.len() > 0 && is_whitespace_spec(s.last()) {
        lemma_trailing_ws_bound(s.drop_last());
        assert forall|j: int|
            s.len() - trailing_ws(s) <= j < s.len() implies is_whitespace_spec(#[trigger] s[j]) by {
            if j < s.len() - 1 {
                assert(s[j] == s.drop_last()[j]);
            }
        }
    }
}

/// `s` with leading whitespace removed (`str::trim_start`).
pub open spec fn trim_start_spec(s: Seq<char>) -> Seq<char> {
    s.skip(leading_ws(s) as int)
}

/// `s` with trailing whitespace removed (`str::trim_end`).
pub open spec fn trim_end_spec(s: Seq<char>) -> Seq<char> {
    s.take(s.len() - trailing_ws(s))
}

/// `s` with surrounding whitespace removed (`str::trim`).
pub open spec fn trim_spec(s: Seq<char>) -> Seq<char> {
    trim_end_spec(trim_start_spec(s))
}

/// Index of the first character that is not whitespace.
fn leading_ws_count(cs: &Vec<char>) -> (n: usize)
    ensures
        n == leading_ws(cs@),
{
    let mut i: usize = 0;
    proof {
        assert(cs@.skip(0) =~= cs@);
    }
    while i < cs.len() && is_whitespace(cs[i])
        invariant
            i <= cs@.len(),
            leading_ws(cs@) == i + leading_ws(cs@.skip(i as int)),
        decreases cs@.len() - i,
    {
        proof {
            assert(cs@.skip(i as int).drop_first() =~= cs@.skip(i + 1));
        }
        i += 1;
    }
    i
}

/// Number of trailing whitespace characters.
fn trailing_ws_count(cs: &Vec<char>) -> (n: usize)
    ensures
        n == trailing_ws(cs@),
{
    let mut k: usize = cs.len();
    proof {
        assert(cs@.take(cs@.len() as int) =~= cs@);
    }
    while k > 0 && is_whitespace(cs[k - 1])
        invariant
            k <= cs@.len(),
            trailing_ws(cs@) == (cs@.len() - k) + trailing_ws(cs@.take(k as int)),
        decreases k,
    {
        proof {
            assert(cs@.take(k as int).drop_last() =~= cs@.take(k - 1));
        }
        k -= 1;
    }
    (cs.len() - k) as usize
}

/// The characters of `cs` between `lo` and `hi`.
pub fn slice_chars(cs: &Vec<char>, lo: usize, hi: usize) -> (out: Vec<char>)
    requires
        lo <= hi <= cs@.len(),
    ensures
        out@ == cs@.subrange(lo as int, hi as int),
{
    let mut out: Vec<char> = Vec::new();
    let mut i = lo;
    while i < hi
        invariant
            lo <= i <= hi <= cs@.len(),
            out@ == cs@.subrange(lo as int, i as int),
        decreases hi - i,
    {
        out.push(cs[i]);
        proof {
            assert(out@ =~= cs@.subrange(lo as int, i + 1));
        }
        i += 1;
    }
    out
}

pub fn trim_start(cs: &Vec<char>) -> (out: Vec<char>)
    ensures
        out@ == trim_start_spec(cs@),
{
    let n = leading_ws_count(cs);
    proof {
        lemma_leading_ws_bound(cs@);
    }
    let out = slice_chars(cs, n, cs.len());
    proof {
        assert(out@ =~= trim_start_spec(cs@));
    }
    out
}

pub fn trim_end(cs: &Vec<char>) -> (out: Vec<char>)
    ensures
        out@ == trim_end_spec(cs@),
{
    let n = trailing_ws_count(cs);
    proof {
        lemma_trailing_ws_bound(cs@);
    }
    let out = slice_chars(cs, 0, cs.len() - n);
    proof {
        assert(out@ =~= trim_end_spec(cs@));
    }
    out
}

pub fn trim(cs: &Vec<char>) -> (out: Vec<char>)
    ensures
        out@ == trim_spec(cs@),
{
    let start = trim_start(cs);
    trim_end(&start)
}

/// Whether `cs` consists of whitespace only (its trimmed form is empty).
pub fn is_blank(cs: &Vec<char>) -> (blank: bool)
    ensures
        blank == (trim_spec(cs@).len() == 0),
{
    let t = trim(cs);
    t.len() == 0
}

/// `cs` without `prefix`, when it starts with it (`str::strip_prefix`).
pub fn strip_prefix(cs: &Vec<char>, prefix: &str) -> (rest: Option<Vec<char>>)
    ensures
        match rest {
            Some(r) => prefix@.len() <= cs@.len() && cs@.take(prefix@.len() as int) == prefix@
                && r@ == cs@.skip(prefix@.len() as int),
            None => !(prefix@.len() <= cs@.len() && cs@.take(prefix@.len() as int) == prefix@),
        },
{
    let p = chars_of(prefix);
    if p.len() > cs.len() {
        return None;
    }
    let mut i: usize = 0;
    while i < p.len()
        invariant
            i <= p@.len() <= cs@.len(),
            p@ == prefix@,
            forall|j: int| 0 <= j < i ==> cs@[j] == p@[j],
        decreases p@.len() - i,
    {
        if cs[i] != p[i] {
            proof {
                assert(cs@.take(p@.len() as int)[i as int] != prefix@[i as int]);
            }
            return None;
        }
        i += 1;
    }
    proof {
        assert(cs@.take(p@.len() as int) =~= prefix@);
    }
    let rest = slice_chars(cs, p.len(), cs.len());
    proof {
        assert(rest@ =~= cs@.skip(prefix@.len() as int));
    }
    Some(rest)
}

/// Whether `cs` starts with `prefix`.
pub fn starts_with(cs: &Vec<char>, prefix: &str) -> (found: bool)
    ensures
        found == (prefix@.len() <= cs@.len() && cs@.take(prefix@.len() as int) == prefix@),
{
    strip_prefix(cs, prefix).is_some()
}

/// Whether `cs` ends with `suffix`.
pub fn ends_with(cs: &Vec<char>, suffix: &str) -> (found: bool)
    ensures
        found == (suffix@.len() <= cs@.len() && cs@.skip(cs@.len() - suffix@.len()) == suffix@),
{
    let p = chars_of(suffix);
    if p.len() > cs.len() {
        return false;
    }
    let offset = cs.len() - p.len();
    let mut i: usize = 0;
    while i < p.len()
        invariant
            i <= p@.len() <= cs@.len(),
            offset == cs@.len() - p@.len(),
            p@ == suffix@,
            forall|j: int| 0 <= j < i ==> cs@[offset + j] == p@[j],
        decreases p@.len() - i,
    {
        assert(offset + i < cs.len());
        if cs[offset + i] != p[i] {
            proof {
                assert(cs@.skip(offset as int)[i as int] != suffix@[i as int]);
            }
            return false;
        }
        i += 1;
    }
    proof {
        assert(cs@.skip(offset as int) =~= suffix@);
    }
    true
}

/// Index of the first `c` in `cs`, if any.
pub fn find_char(cs: &Vec<char>, c: char) -> (found: Option<usize>)
    ensures
        match found {
            Some(i) => i < cs@.len() && cs@[i as int] == c && forall|j: int|
                0 <= j < i ==> cs@[j] != c,
            None => forall|j: int| 0 <= j < cs@.len() ==> cs@[j] != c,
        },
{
    let mut i: usize = 0;
    while i < cs.len()
        invariant
            i <= cs@.len(),
            forall|j: int| 0 <= j < i ==> cs@[j] != c,
        decreases cs@.len() - i,
    {
        if cs[i] == c {
            return Some(i);
        }
        i += 1;
    }
    None
}

/// The first index of `c` in `s`, or `s.len()`.
pub open spec fn first_index_of(s: Seq<char>, c: char) -> int
    decreases s.len(),
{
    if s.len() == 0 {
        0
    } else if s[0] == c {
        0
    } else {
        1 + first_index_of(s.drop_first(), c)
    }
}

pub proof fn lemma_first_index_of(s: Seq<char>, c: char, i: int)
    requires
        0 <= i <= s.len(),
        i < s.len() ==> s[i] == c,
        forall|j: int| 0 <= j < i ==> s[j] != c,
    ensures
        first_index_of(s, c) == i,
    decreases s.len(),
{
    if s.len() > 0 && s[0] != c {
        assert forall|j: int| 0 <= j < i - 1 implies s.drop_first()[j] != c by {
            assert(s.drop_first()[j] == s[j + 1]);
        }
        lemma_first_index_of(s.drop_first(), c, i - 1);
    }
}

/// `s` split at the first `c` (`str::split_once`), if it holds one.
pub open spec fn split_once_spec(s: Seq<char>, c: char) -> Option<(Seq<char>, Seq<char>)> {
    let i = first_index_of(s, c);
    if i < s.len() {
        Some((s.take(i), s.skip(i + 1)))
    } else {
        None
    }
}

pub fn split_once(cs: &Vec<char>, c: char) -> (parts: Option<(Vec<char>, Vec<char>)>)
    ensures
        match parts {
            Some((a, b)) => split_once_spec(cs@, c) == Some((a@, b@)),
            None => split_once_spec(cs@, c) is None,
        },
{
    match find_char(cs, c) {
        Some(i) => {
            assert(i < cs.len());
            proof {
                lemma_first_index_of(cs@, c, i as int);
            }
            let a = slice_chars(cs, 0, i);
            let b = slice_chars(cs, i + 1, cs.len());
            proof {
                assert(a@ =~= cs@.take(i as int));
                assert(b@ =~= cs@.skip(i + 1));
            }
            Some((a, b))
        },
        None => {
            proof {
                lemma_first_index_of(cs@, c, cs@.len() as int);
            }
            None
        },
    }
}

/// One line as `str::lines` yields it: the text up to a `\n`, without a
/// `\r` just before it.
pub open spec fn line_body(s: Seq<char>, terminated: bool) -> Seq<char> {
    if terminated && s.len() > 0 && s.last() == '\r' {
        s.drop_last()
    } else {
        s
    }
}

/// The lines of `s` as `str::lines` yields them: split at `\n`, a `\r`
/// before the `\n` dropped, no line after a final `\n`.
pub open spec fn lines_spec(s: Seq<char>) -> Seq<Seq<char>>
    decreases s.len(),
{
    if s.len() == 0 {
        Seq::empty()
    } else {
        let i = first_index_of(s, '\n');
        if i < s.len() {
            proof {
                lemma_first_index_bound(s, '\n');
            }
            seq![line_body(s.take(i), true)] + lines_spec(s.skip(i + 1))
        } else {
            seq![s]
        }
    }
}

pub proof fn lemma_first_index_bound(s: Seq<char>, c: char)
    ensures
        0 <= first_index_of(s, c) <= s.len(),
        first_index_of(s, c) < s.len() ==> s[first_index_of(s, c)] == c,
        forall|j: int| 0 <= j < first_index_of(s, c) ==> s[j] != c,
    decreases s.len(),
{
    if s.len() > 0 && s[0] != c {
        lemma_first_index_bound(s.drop_first(), c);
        assert forall|j: int| 0 <= j < first_index_of(s, c) implies s[j] != c by {
            if j > 0 {
                assert(s[j] == s.drop_first()[j - 1]);
            }
        }
    }
}

/// The lines of `text` (`str::lines`).
pub fn lines(text: &str) -> (out: Vec<Vec<char>>)
    ensures
        out@.len() == lines_spec(text@).len(),
        forall|k: int| 0 <= k < out@.len() ==> #[trigger] out@[k]@ == lines_spec(text@)[k],
{
    let cs = chars_of(text);
    let mut out: Vec<Vec<char>> = Vec::new();
    let mut pos: usize = 0;
    let ghost all = lines_spec(cs@);
    proof {
        assert(cs@.skip(0) =~= cs@);
    }
    while pos < cs.len()
        invariant
            pos <= cs@.len(),
            cs@ == text@,
            all == lines_spec(cs@),
            out@.len() + lines_spec(cs@.skip(pos as int)).len() == all.len(),
            forall|k: int| 0 <= k < out@.len() ==> #[trigger] out@[k]@ == all[k],
            forall|k: int|
                0 <= k < lines_spec(cs@.skip(pos as int)).len() ==> #[trigger] lines_spec(
                    cs@.skip(pos as int),
                )[k] == all[out@.len() + k],
        decreases cs@.len() - pos,
    {
        let ghost rest = cs@.skip(pos as int);
        let ghost r = lines_spec(rest);
        let mut end = pos;
        while end < cs.len() && cs[end] != '\n'
            invariant
                pos <= end <= cs@.len(),
                forall|j: int| pos <= j < end ==> cs@[j] != '\n',
            decreases cs@.len() - end,
        {
            end += 1;
        }
        proof {
            assert forall|j: int| 0 <= j < end - pos implies rest[j] != '\n' by {
                assert(rest[j] == cs@[pos + j]);
            }
            if end < cs@.len() {
                assert(rest[end - pos] == cs@[end as int]);
            }
            lemma_first_index_of(rest, '\n', end - pos);
        }
        let terminated = end < cs.len();
        let body_end = if terminated && end > pos && cs[end - 1] == '\r' {
            end - 1
        } else {
            end
        };
        let line = slice_chars(&cs, pos, body_end);
        let ghost r_next = if terminated {
            lines_spec(cs@.skip(end + 1))
        } else {
            Seq::<Seq<char>>::empty()
        };
        proof {
            assert(line@ =~= line_body(rest.take(end - pos), terminated));
            if terminated {
                assert(rest.skip(end - pos + 1) =~= cs@.skip(end + 1));
                assert(r == seq![line@] + r_next);
            } else {
                assert(rest =~= rest.take(end - pos));
                assert(r == seq![line@]);
            }
            assert(r[0] == all[out@.len() as int]);
        }
        let ghost before = out@;
        out.push(line);
        if !terminated {
            pos = cs.len();
            proof {
                assert(cs@.skip(pos as int) =~= Seq::<char>::empty());
                assert(lines_spec(cs@.skip(pos as int)) =~= r_next);
            }
        } else {
            pos = end + 1;
        }
        proof {
            assert(lines_spec(cs@.skip(pos as int)) == r_next);
            assert forall|k: int| 0 <= k < out@.len() implies #[trigger] out@[k]@ == all[k] by {
                if k < before.len() {
                    assert(out@[k] == before[k]);
                }
            }
            assert forall|k: int| 0 <= k < r_next.len() implies #[trigger] r_next[k] == all[out@.len() + k] by {
                assert(r_next[k] == r[k + 1]);
            }
        }
    }
    proof {
        assert(cs@.skip(pos as int) =~= Seq::<char>::empty());
    }
    out
}

/// Whether `c` is an ASCII digit.
pub open spec fn is_digit(c: char) -> bool {
    '0' <= c && c <= '9'
}

pub open spec fn digit_value(c: char) -> nat {
    ((c as u32) - ('0' as u32)) as nat
}

/// The number written by the decimal digits `s`.
pub open spec fn digits_value(s: Seq<char>) -> nat
    decreases s.len(),
{
    if s.len() == 0 {
        0
    } else {
        digits_value(s.drop_last()) * 10 + digit_value(s.last())
    }
}

pub open spec fn all_digits(s: Seq<char>) -> bool {
    forall|j: int| 0 <= j < s.len() ==> is_digit(#[trigger] s[j])
}

/// The unsigned number `s` holds as `str::parse` reads it for an
/// unsigned integer type with maximum `max`: an optional `+`, then at least
/// one decimal digit and nothing else, at most `max`.
pub open spec fn parse_unsigned_spec(s: Seq<char>, max: nat) -> Option<nat> {
    let digits = if s.len() > 0 && s[0] == '+' {
        s.drop_first()
    } else {
        s
    };
    if digits.len() > 0 && all_digits(digits) && digits_value(digits) <= max {
        Some(digits_value(digits))
    } else {
        None
    }
}

proof fn lemma_digits_value_grows(s: Seq<char>, i: int)
    requires
        0 <= i <= s.len(),
    ensures
        digits_value(s.take(i)) <= digits_value(s),
    decreases s.len() - i,
{
    if i < s.len() {
        assert(s.drop_last().take(i) =~= s.take(i)) by {
            if i < s.len() {
            }
        }
        lemma_digits_value_grows(s.drop_last(), i);
        assert(digits_value(s.drop_last()) <= digits_value(s.drop_last()) * 10) by (nonlinear_arith);
    } else {
        assert(s.take(i) =~= s);
    }
}

/// `str::parse` of an unsigned number no larger than `max`.
pub fn parse_unsigned(cs: &Vec<char>, max: u64) -> (value: Option<u64>)
    ensures
        match value {
            Some(v) => parse_unsigned_spec(cs@, max as nat) == Some(v as nat),
            None => parse_unsigned_spec(cs@, max as nat) is None,
        },
{
    let ghost digits = if cs@.len() > 0 && cs@[0] == '+' {
        cs@.drop_first()
    } else {
        cs@
    };
    let start: usize = if cs.len() > 0 && cs[0] == '+' {
        1
    } else {
        0
    };
    proof {
        assert(digits =~= cs@.skip(start as int));
    }
    if start >= cs.len() {
        return None;
    }
    let mut acc: u64 = 0;
    let mut i = start;
    proof {
        assert(digits.take(0) =~= Seq::<char>::empty());
    }
    while i < cs.len()
        invariant
            start <= i <= cs@.len(),
            digits == cs@.skip(start as int),
            digits == (if cs@.len() > 0 && cs@[0] == '+' {
                cs@.drop_first()
            } else {
                cs@
            }),
            digits.len() > 0,
            all_digits(digits.take(i - start)),
            acc as nat == digits_value(digits.take(i - start)),
            acc <= max,
        decreases cs@.len() - i,
    {
        let c = cs[i];
        proof {
            assert(digits.take(i - start + 1).drop_last() =~= digits.take(i - start));
            assert(digits[i - start] == c);
            assert(digits.take(i - start + 1).last() == c);
        }
        if !('0' <= c && c <= '9') {
            proof {
                assert(!is_digit(digits[i - start]));
                assert(!all_digits(digits));
                assert(parse_unsigned_spec(cs@, max as nat) is None);
            }
            return None;
        }
        let d = (c as u32 - '0' as u32) as u64;
        if d > max || acc > (max - d) / 10 {
            proof {
                assert(acc * 10 + d > max) by (nonlinear_arith)
                    requires
                        d > max || acc > (max - d) / 10,
                ;
                lemma_digits_value_grows(digits, i - start + 1);
                assert(digits_value(digits) > max);
                assert(parse_unsigned_spec(cs@, max as nat) is None);
            }
            return None;
        }
        proof {
            assert(acc * 10 + d <= max) by (nonlinear_arith)
                requires
                    acc <= (max - d) / 10,
                    d <= max,
            ;
            assert forall|j: int| 0 <= j < i - start + 1 implies is_digit(#[trigger] digits.take(i - start + 1)[j]) by {
                if j < i - start {
                    assert(digits.take(i - start + 1)[j] == digits.take(i - start)[j]);
                }
            }
        }
        acc = acc * 10 + d;
        i += 1;
    }
    proof {
        assert(digits.take(i - start) =~= digits);
    }
    Some(acc)
}

/// Decimal digits of `n`, most significant first, without leading zeros
/// (`"0"` for zero).
pub open spec fn decimal_spec(n: nat) -> Seq<char>
    decreases n,
{
    if n < 10 {
        seq![(('0' as u32) + n) as char]
    } else {
        decimal_spec(n / 10).push((('0' as u32) + (n % 10)) as char)
    }
}

/// The decimal digits of `n`, most significant first.
pub fn decimal(n: u64) -> (out: Vec<char>)
    ensures
        out@ == decimal_spec(n as nat),
    decreases n,
{
    if n < 10 {
        let mut out: Vec<char> = Vec::new();
        out.push(char_from_digit(n));
        out
    } else {
        let mut out = decimal(n / 10);
        out.push(char_from_digit(n % 10));
        out
    }
}

fn char_from_digit(d: u64) -> (c: char)
    requires
        d < 10,
    ensures
        c == (('0' as u32) + d) as char,
{
    ((48u8 + d as u8) as char)
}

/// Appends the decimal digits of `n`.
pub fn push_decimal(out: &mut Vec<char>, n: u64)
    ensures
        final(out)@ == old(out)@ + decimal_spec(n as nat),
{
    let digits = decimal(n);
    extend_chars(out, &digits);
}

/// `c` escaped for a TOML basic string, the way the draft writers escape:
/// backslash, quote, newline, carriage return and tab get backslash
/// escapes, other control characters become a space.
pub open spec fn toml_escape_char(c: char) -> Seq<char> {
    if c == '\\' {
        seq!['\\', '\\']
    } else if c == '"' {
        seq!['\\', '"']
    } else if c == '\n' {
        seq!['\\', 'n']
    } else if c == '\r' {
        seq!['\\', 'r']
    } else if c == '\t' {
        seq!['\\', 't']
    } else if is_control_spec(c) {
        seq![' ']
    } else {
        seq![c]
    }
}

pub open spec fn toml_escape(s: Seq<char>) -> Seq<char>
    decreases s.len(),
{
    if s.len() == 0 {
        Seq::empty()
    } else {
        toml_escape(s.drop_last()) + toml_escape_char(s.last())
    }
}

/// `s` as a quoted TOML basic string.
pub open spec fn toml_string_spec(s: Seq<char>) -> Seq<char> {
    seq!['"'] + toml_escape(s) + seq!['"']
}

/// Appends `value` as a quoted TOML basic string.
pub fn push_toml_string(out: &mut Vec<char>, value: &Vec<char>)
    ensures
        final(out)@ == old(out)@ + toml_string_spec(value@),
{
    let ghost start = out@;
    out.push('"');
    let mut i: usize = 0;
    while i < value.len()
        invariant
            i <= value@.len(),
            out@ == start + seq!['"'] + toml_escape(value@.take(i as int)),
        decreases value@.len() - i,
    {
        let ghost before = out@;
        let c = value[i];
        if c == '\\' {
            out.push('\\');
            out.push('\\');
        } else if c == '"' {
            out.push('\\');
            out.push('"');
        } else if c == '\n' {
            out.push('\\');
            out.push('n');
        } else if c == '\r' {
            out.push('\\');
            out.push('r');
        } else if c == '\t' {
            out.push('\\');
            out.push('t');
        } else if is_control(c) {
            out.push(' ');
        } else {
            out.push(c);
        }
        proof {
            assert(value@.take(i + 1).drop_last() =~= value@.take(i as int));
            assert(out@ =~= before + toml_escape_char(c));
            assert(out@ =~= start + seq!['"'] + toml_escape(value@.take(i + 1)));
        }
        i += 1;
    }
    out.push('"');
    proof {
        assert(value@.take(i as int) =~= value@);
        assert(out@ =~= old(out)@ + toml_string_spec(value@));
    }
}


/// `value` as a quoted TOML basic string.
pub fn toml_string(value: &str) -> (quoted: String)
    ensures
        quoted@ == toml_string_spec(value@),
{
    let mut out: Vec<char> = Vec::new();
    push_toml_string(&mut out, &chars_of(value));
    proof {
        assert(out@ =~= toml_string_spec(value@));
    }
    string_of(&out)
}

/// What `format!("{:?}", s)` writes for a string `s`: the text quoted and
/// escaped as a Rust string literal.
pub uninterp spec fn debug_quoted(s: Seq<char>) -> Seq<char>;

/// `format!("{:?}", text)`: the `Debug` form of a string.
#[verifier::external_body]
pub(crate) fn debug_string(text: &str) -> (quoted: String)
    ensures
        quoted@ == debug_quoted(text@),
{
    format!("{:?}", text)
}


/// `a` orders before `b` as `str` orders strings: character by character
/// by code point (the order of their UTF-8 bytes), a proper prefix first.
pub open spec fn lex_lt(a: Seq<char>, b: Seq<char>) -> bool
    decreases a.len(),
{
    if a.len() == 0 {
        b.len() > 0
    } else if b.len() == 0 {
        false
    } else if a[0] != b[0] {
        (a[0] as int) < (b[0] as int)
    } else {
        lex_lt(a.drop_first(), b.drop_first())
    }
}

/// `a < b` for strings.
pub fn str_lt(a: &str, b: &str) -> (less: bool)
    ensures
        less == lex_lt(a@, b@),
{
    let x = chars_of(a);
    let y = chars_of(b);
    let mut i: usize = 0;
    proof {
        assert(x@.skip(0) =~= x@);
        assert(y@.skip(0) =~= y@);
    }
    while i < x.len() && i < y.len()
        invariant
            x@ == a@,
            y@ == b@,
            i <= x@.len(),
            i <= y@.len(),
            lex_lt(a@, b@) == lex_lt(x@.skip(i as int), y@.skip(i as int)),
        decreases x@.len() - i,
    {
        if x[i] != y[i] {
            return x[i] < y[i];
        }
        proof {
            assert(x@.skip(i as int).drop_first() =~= x@.skip(i + 1));
            assert(y@.skip(i as int).drop_first() =~= y@.skip(i + 1));
        }
        i += 1;
    }
    i < y.len()
}


/// Text that neither starts nor ends with whitespace is its own trim.
pub proof fn lemma_trim_unpadded(s: Seq<char>)
    requires
        s.len() > 0,
        !is_whitespace_spec(s[0]),
        !is_whitespace_spec(s.last()),
    ensures
        trim_spec(s) == s,
{
    assert(leading_ws(s) == 0);
    assert(s.skip(0) =~= s);
    assert(trailing_ws(s) == 0);
    assert(s.take(s.len() as int) =~= s);
}

/// Text without ASCII capitals is its own ASCII lowercase.
pub proof fn lemma_lower_unchanged(s: Seq<char>)
    requires
        forall|j: int| 0 <= j < s.len() ==> !('A' <= #[trigger] s[j] && s[j] <= 'Z'),
    ensures
        ascii_lower_seq(s) == s,
{
    assert(ascii_lower_seq(s) =~= s);
}


/// No string orders before itself.
pub proof fn lemma_lex_lt_irreflexive(a: Seq<char>)
    ensures
        !lex_lt(a, a),
    decreases a.len(),
{
    if a.len() > 0 {
        lemma_lex_lt_irreflexive(a.drop_first());
    }
}

/// String order is transitive.
pub proof fn lemma_lex_lt_transitive(a: Seq<char>, b: Seq<char>, c: Seq<char>)
    requires
        lex_lt(a, b),
        lex_lt(b, c),
    ensures
        lex_lt(a, c),
    decreases a.len(),
{
    if a.len() > 0 && b.len() > 0 && c.len() > 0 {
        if a[0] == b[0] && b[0] == c[0] {
            lemma_lex_lt_transitive(a.drop_first(), b.drop_first(), c.drop_first());
        }
    }
}

/// Two different strings are ordered one way or the other.
pub proof fn lemma_lex_lt_total(a: Seq<char>, b: Seq<char>)
    requires
        a != b,
    ensures
        lex_lt(a, b) || lex_lt(b, a),
    decreases a.len(),
{
    if a.len() > 0 && b.len() > 0 {
        if a[0] == b[0] {
            if a.drop_first() =~= b.drop_first() {
                assert(a =~= seq![a[0]] + a.drop_first());
                assert(b =~= seq![b[0]] + b.drop_first());
                assert(a =~= b);
            } else {
                lemma_lex_lt_total(a.drop_first(), b.drop_first());
            }
        } else {
            assert((a[0] as int) != (b[0] as int));
        }
    } else if a.len() == 0 && b.len() == 0 {
        assert(a =~= b);
    }
}


/// Trimming is idempotent.
pub proof fn lemma_trim_idempotent(s: Seq<char>)
    ensures
        trim_spec(trim_spec(s)) == trim_spec(s),
{
    lemma_leading_ws_bound(s);
    let a = trim_start_spec(s);
    lemma_trailing_ws_bound(a);
    let t = trim_spec(s);
    if t.len() > 0 {
        assert(t[0] == a[0]);
        assert(!is_whitespace_spec(t[0]));
        assert(t.last() == a[a.len() - trailing_ws(a) - 1]);
        lemma_trim_unpadded(t);
    } else {
        assert(t =~= Seq::<char>::empty());
        assert(leading_ws(t) == 0);
        assert(trailing_ws(t) == 0);
        assert(trim_spec(t) =~= t);
    }
}


/// The words found so far and the word being read, after the first `k`
/// characters of `s`.
pub open spec fn words_scan(s: Seq<char>, k: int) -> (Seq<Seq<char>>, Seq<char>)
    decreases k,
{
    if k <= 0 {
        (Seq::empty(), Seq::empty())
    } else {
        let (done, cur) = words_scan(s, k - 1);
        if is_whitespace_spec(s[k - 1]) {
            if cur.len() > 0 {
                (done.push(cur), Seq::empty())
            } else {
                (done, cur)
            }
        } else {
            (done, cur.push(s[k - 1]))
        }
    }
}

/// The whitespace-separated words of `s` (`str::split_whitespace`).
pub open spec fn words_spec(s: Seq<char>) -> Seq<Seq<char>> {
    let (done, cur) = words_scan(s, s.len() as int);
    if cur.len() > 0 {
        done.push(cur)
    } else {
        done
    }
}

/// The whitespace-separated words of `text`.
pub fn split_words(text: &str) -> (words: Vec<String>)
    ensures
        words@.map_values(|w: String| w@) == words_spec(text@),
{
    let cs = chars_of(text);
    let mut words: Vec<String> = Vec::new();
    let mut cur: Vec<char> = Vec::new();
    let mut i: usize = 0;
    while i < cs.len()
        invariant
            cs@ == text@,
            i <= cs@.len(),
            (words@.map_values(|w: String| w@), cur@) == words_scan(text@, i as int),
        decreases cs@.len() - i,
    {
        let c = cs[i];
        if is_whitespace(c) {
            if cur.len() > 0 {
                let ghost before = words@;
                let word = string_of(&cur);
                words.push(word);
                proof {
                    assert(words@.map_values(|w: String| w@) =~= before.map_values(|w: String| w@).push(
                        cur@,
                    ));
                }
                cur = Vec::new();
                proof {
                    assert(cur@ =~= Seq::<char>::empty());
                }
            }
        } else {
            cur.push(c);
        }
        i += 1;
    }
    if cur.len() > 0 {
        let ghost before = words@;
        let word = string_of(&cur);
        words.push(word);
        proof {
            assert(words@.map_values(|w: String| w@) =~= before.map_values(|w: String| w@).push(cur@));
        }
    }
    words
}

} // verus!
