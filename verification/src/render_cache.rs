//! The on-disk render cache format: a text header (a magic line, then
//! `name=value` lines, then a blank line) followed by the payload. The
//! header says which cell area, cell size and render mode the payload was
//! made for, how the payload is compressed and framed, and the terminal
//! image ids it uses; a cached file is only used when all of that matches
//! the request. A framed payload holds the image data and its refresh
//! sequence, each with its length.

use vstd::prelude::*;

use crate::pdf::{le_bytes, push_bytes, push_le_bytes};
use crate::text::{
    chars_of, debug_quoted, debug_string, decimal_spec, extend_chars, extend_str, lines, lines_spec,
    parse_unsigned, parse_unsigned_spec, push_decimal, string_of, strip_prefix,
};

verus! {

/// The magic line of the current format.
pub open spec fn cache_magic() -> Seq<char> {
    "pdf-tui-render-cache-v4"@
}

/// Magic lines read but rewritten in the current format.
pub open spec fn legacy_magics() -> (Seq<char>, Seq<char>) {
    ("pdf-tui-render-cache-v2"@, "pdf-tui-render-cache-v1"@)
}

#[derive(Debug, Clone, Copy, PartialEq, Eq, Structural)]
pub enum CacheCompression {
    Uncompressed,
    Zstd,
}

/// What a cached render must have been made for.
#[derive(Debug, Clone)]
pub struct CacheExpectation {
    pub width: u16,
    pub height: u16,
    pub cell_pixels: Option<(u16, u16)>,
    /// The render mode's name.
    pub mode: String,
    pub image_id: Option<u32>,
    pub placement_id: Option<u32>,
}

/// A header that matched: where the payload starts and how to read it.
#[derive(Debug, Clone)]
pub struct CacheHeader {
    pub payload_offset: usize,
    pub compression: CacheCompression,
    /// `raw` or `framed` (`raw` when the header names none).
    pub payload_format: String,
    /// The payload's size before compression, when the header gives a
    /// readable one.
    pub uncompressed_bytes: Option<usize>,
    pub image_id: Option<u32>,
    pub placement_id: Option<u32>,
    /// The file is in an older form and is written again once read.
    pub should_rewrite: bool,
}

pub struct CacheHeaderView {
    pub payload_offset: int,
    pub compression: CacheCompression,
    pub payload_format: Seq<char>,
    pub uncompressed_bytes: Option<nat>,
    pub image_id: Option<u32>,
    pub placement_id: Option<u32>,
    pub should_rewrite: bool,
}

impl View for CacheHeader {
    type V = CacheHeaderView;

    open spec fn view(&self) -> CacheHeaderView {
        CacheHeaderView {
            payload_offset: self.payload_offset as int,
            compression: self.compression,
            payload_format: self.payload_format@,
            uncompressed_bytes: match self.uncompressed_bytes {
                Some(n) => Some(n as nat),
                None => None,
            },
            image_id: self.image_id,
            placement_id: self.placement_id,
            should_rewrite: self.should_rewrite,
        }
    }
}

/// The first `i >= from` where the bytes `\n\n` start.
pub open spec fn blank_line_from(bytes: Seq<u8>, from: int) -> Option<int>
    decreases bytes.len() - from,
{
    if from < 0 || from + 1 >= bytes.len() {
        None
    } else if bytes[from] == 10 && bytes[from + 1] == 10 {
        Some(from)
    } else {
        blank_line_from(bytes, from + 1)
    }
}

/// What `std::str::from_utf8` gives for `bytes`: the text, or its error
/// message.
pub uninterp spec fn utf8_decoded(bytes: Seq<u8>) -> Result<Seq<char>, Seq<char>>;

/// `std::str::from_utf8`: the bytes read as UTF-8 text, or the error's
/// message. The result is the one named by `utf8_decoded`.
#[verifier::external_body]
fn utf8_text(bytes: &[u8]) -> (text: Result<String, String>)
    ensures
        match text {
            Ok(t) => utf8_decoded(bytes@) == Ok::<Seq<char>, Seq<char>>(t@),
            Err(e) => utf8_decoded(bytes@) == Err::<Seq<char>, Seq<char>>(e@),
        },
{
    match std::str::from_utf8(bytes) {
        Ok(text) => Ok(text.to_string()),
        Err(error) => Err(error.to_string()),
    }
}

pub open spec fn has_prefix(line: Seq<char>, prefix: Seq<char>) -> bool {
    prefix.len() <= line.len() && line.take(prefix.len() as int) == prefix
}

/// The value of the last line of `ls` that starts with `prefix`.
pub open spec fn field_value(ls: Seq<Seq<char>>, prefix: Seq<char>) -> Option<Seq<char>>
    decreases ls.len(),
{
    if ls.len() == 0 {
        None
    } else if has_prefix(ls.last(), prefix) {
        Some(ls.last().skip(prefix.len() as int))
    } else {
        field_value(ls.drop_last(), prefix)
    }
}

/// A numeric field: the last value given, read as a number up to `max`.
pub open spec fn number_field(ls: Seq<Seq<char>>, prefix: Seq<char>, max: nat) -> Option<nat> {
    match field_value(ls, prefix) {
        Some(v) => parse_unsigned_spec(v, max),
        None => None,
    }
}

pub open spec fn nat_of_u32(o: Option<u32>) -> Option<nat> {
    match o {
        Some(v) => Some(v as nat),
        None => None,
    }
}

/// An optional number as `{:?}` writes it.
pub open spec fn debug_number(o: Option<nat>) -> Seq<char> {
    match o {
        Some(v) => "Some("@ + decimal_spec(v) + ")"@,
        None => "None"@,
    }
}

/// An optional text as `{:?}` writes it.
pub open spec fn debug_text(o: Option<Seq<char>>) -> Seq<char> {
    match o {
        Some(v) => "Some("@ + debug_quoted(v) + ")"@,
        None => "None"@,
    }
}

/// The header text `text`, its payload starting at `offset`, checked
/// against `exp`: the magic line must be known; the size, mode, cell size
/// and image ids must be those expected (in that order, each mismatch with
/// its message); the compression must be `none` (the default) or `zstd`.
/// A legacy magic, or an uncompressed payload that is not `raw`, asks for
/// the file to be written again.
pub open spec fn header_from_text(text: Seq<char>, offset: int, exp: CacheExpectation) -> Result<
    CacheHeaderView,
    Seq<char>,
> {
    let ls = lines_spec(text);
    if ls.len() == 0 {
        Err("cache metadata magic missing"@)
    } else {
        let magic = ls[0];
        let fields = ls.drop_first();
        let width = number_field(fields, "width="@, u16::MAX as nat);
        let height = number_field(fields, "height="@, u16::MAX as nat);
        let cell_width = number_field(fields, "cell_width="@, u16::MAX as nat);
        let cell_height = number_field(fields, "cell_height="@, u16::MAX as nat);
        let mode = field_value(fields, "mode="@);
        let image_id = number_field(fields, "image_id="@, u32::MAX as nat);
        let placement_id = number_field(fields, "placement_id="@, u32::MAX as nat);
        let (ecw, ech) = match exp.cell_pixels {
            Some(c) => c,
            None => (0u16, 0u16),
        };
        let format = match field_value(fields, "payload_format="@) {
            Some(f) => f,
            None => "raw"@,
        };
        let compression = match field_value(fields, "compression="@) {
            Some(c) => c,
            None => "none"@,
        };
        if magic != cache_magic() && magic != legacy_magics().0 && magic != legacy_magics().1 {
            Err("cache metadata magic mismatch"@)
        } else if width != Some(exp.width as nat) || height != Some(exp.height as nat) {
            Err("cache size mismatch: got "@ + debug_number(width) + "x"@ + debug_number(height)
                + ", expected "@ + decimal_spec(exp.width as nat) + "x"@ + decimal_spec(
                exp.height as nat,
            ))
        } else if mode != Some(exp.mode@) {
            Err("cache mode mismatch: got "@ + debug_text(mode) + ", expected "@ + exp.mode@)
        } else if cell_width != Some(ecw as nat) || cell_height != Some(ech as nat) {
            Err("cache cell size mismatch: got "@ + debug_number(cell_width) + "x"@ + debug_number(
                cell_height,
            ) + ", expected "@ + decimal_spec(ecw as nat) + "x"@ + decimal_spec(ech as nat))
        } else if image_id != nat_of_u32(exp.image_id) {
            Err("cache image id mismatch: got "@ + debug_number(image_id) + ", expected "@
                + debug_number(nat_of_u32(exp.image_id)))
        } else if placement_id != nat_of_u32(exp.placement_id) {
            Err("cache placement id mismatch: got "@ + debug_number(placement_id) + ", expected "@
                + debug_number(nat_of_u32(exp.placement_id)))
        } else if compression == "none"@ || compression == "zstd"@ {
            Ok(
                CacheHeaderView {
                    payload_offset: offset,
                    compression: if compression == "none"@ {
                        CacheCompression::Uncompressed
                    } else {
                        CacheCompression::Zstd
                    },
                    payload_format: format,
                    uncompressed_bytes: number_field(
                        fields,
                        "uncompressed_bytes="@,
                        usize::MAX as nat,
                    ),
                    image_id: exp.image_id,
                    placement_id: exp.placement_id,
                    should_rewrite: magic != cache_magic() || (compression == "none"@ && format
                        != "raw"@),
                },
            )
        } else {
            Err("unsupported cache compression: "@ + compression)
        }
    }
}

/// A cache file's header read and checked (see `header_from_text`): it
/// ends at the first blank line, and must be UTF-8 text.
pub open spec fn decode_cache_header_spec(bytes: Seq<u8>, exp: CacheExpectation) -> Result<
    CacheHeaderView,
    Seq<char>,
> {
    match blank_line_from(bytes, 0) {
        None => Err("cache metadata header missing"@),
        Some(end) => match utf8_decoded(bytes.take(end)) {
            Err(e) => Err("cache metadata is not utf-8: "@ + e),
            Ok(text) => header_from_text(text, end + 2, exp),
        },
    }
}

fn blank_line(bytes: &[u8]) -> (end: Option<usize>)
    ensures
        match end {
            Some(e) => blank_line_from(bytes@, 0) == Some(e as int) && e + 1 < bytes@.len(),
            None => blank_line_from(bytes@, 0) is None,
        },
{
    if bytes.len() < 2 {
        return None;
    }
    let mut i: usize = 0;
    while i < bytes.len() - 1
        invariant
            i <= bytes@.len(),
            bytes@.len() >= 2,
            blank_line_from(bytes@, 0) == blank_line_from(bytes@, i as int),
        decreases bytes@.len() - i,
    {
        if bytes[i] == 10 && bytes[i + 1] == 10 {
            return Some(i);
        }
        i += 1;
    }
    None
}

pub open spec fn vopt(o: Option<Vec<char>>) -> Option<Seq<char>> {
    match o {
        Some(x) => Some(x@),
        None => None,
    }
}

fn update_field(cur: &mut Option<Vec<char>>, line: &Vec<char>, prefix: &str)
    ensures
        vopt(*final(cur)) == if has_prefix(line@, prefix@) {
            Some(line@.skip(prefix@.len() as int))
        } else {
            vopt(*old(cur))
        },
{
    match strip_prefix(line, prefix) {
        Some(rest) => {
            *cur = Some(rest);
        },
        None => {},
    }
}

fn parse_field(value: &Option<Vec<char>>, max: u64) -> (n: Option<u64>)
    ensures
        match n {
            Some(v) => match vopt(*value) {
                Some(t) => parse_unsigned_spec(t, max as nat) == Some(v as nat),
                None => false,
            },
            None => match vopt(*value) {
                Some(t) => parse_unsigned_spec(t, max as nat) is None,
                None => true,
            },
        },
{
    match value {
        Some(v) => parse_unsigned(v, max),
        None => None,
    }
}

fn push_debug_number(out: &mut Vec<char>, n: Option<u64>)
    ensures
        final(out)@ == old(out)@ + debug_number(
            match n {
                Some(v) => Some(v as nat),
                None => None,
            },
        ),
{
    match n {
        Some(v) => {
            extend_str(out, "Some(");
            push_decimal(out, v);
            extend_str(out, ")");
        },
        None => extend_str(out, "None"),
    }
}

fn same_text(a: &Vec<char>, b: &str) -> (same: bool)
    ensures
        same == (a@ == b@),
{
    crate::text::chars_eq(a, b)
}

fn u32_opt(o: Option<u32>) -> (n: Option<u64>)
    ensures
        match n {
            Some(v) => o == Some(v as u32) && v <= u32::MAX,
            None => o is None,
        },
{
    match o {
        Some(v) => Some(v as u64),
        None => None,
    }
}

/// The header of a cache file, checked against what the request needs
/// (see `decode_cache_header_spec`).
pub fn decode_cache_header(bytes: &[u8], expected: &CacheExpectation) -> (r: Result<CacheHeader, String>)
    ensures
        match r {
            Ok(h) => decode_cache_header_spec(bytes@, *expected) == Ok::<CacheHeaderView, Seq<char>>(h@),
            Err(e) => decode_cache_header_spec(bytes@, *expected) == Err::<CacheHeaderView, Seq<char>>(e@),
        },
{
    let end = match blank_line(bytes) {
        Some(e) => e,
        None => {
            return Err("cache metadata header missing".to_owned());
        },
    };
    let head = slice_bytes(bytes, end);
    let text = match utf8_text(head.as_slice()) {
        Ok(t) => t,
        Err(e) => {
            let mut msg: Vec<char> = Vec::new();
            extend_str(&mut msg, "cache metadata is not utf-8: ");
            extend_str(&mut msg, e.as_str());
            return Err(string_of(&msg));
        },
    };
    let len = bytes.len();
    assert(end + 1 < len);
    header_of_text(text.as_str(), end + 2, expected)
}

fn slice_bytes(bytes: &[u8], end: usize) -> (head: Vec<u8>)
    requires
        end <= bytes@.len(),
    ensures
        head@ == bytes@.take(end as int),
{
    let mut head: Vec<u8> = Vec::new();
    let mut i: usize = 0;
    while i < end
        invariant
            i <= end <= bytes@.len(),
            head@ == bytes@.take(i as int),
        decreases end - i,
    {
        head.push(bytes[i]);
        proof {
            assert(head@ =~= bytes@.take(i + 1));
        }
        i += 1;
    }
    head
}

/// The header text checked against `expected` (see `header_from_text`).
pub fn header_of_text(text: &str, offset: usize, expected: &CacheExpectation) -> (r: Result<
    CacheHeader,
    String,
>)
    ensures
        match r {
            Ok(h) => header_from_text(text@, offset as int, *expected) == Ok::<CacheHeaderView, Seq<char>>(h@),
            Err(e) => header_from_text(text@, offset as int, *expected) == Err::<CacheHeaderView, Seq<char>>(e@),
        },
{
    let ls = lines(text);
    let ghost spec_lines = lines_spec(text@);
    if ls.len() == 0 {
        return Err("cache metadata magic missing".to_owned());
    }
    let ghost fields_all = spec_lines.drop_first();
    let mut width: Option<Vec<char>> = None;
    let mut height: Option<Vec<char>> = None;
    let mut cell_width: Option<Vec<char>> = None;
    let mut cell_height: Option<Vec<char>> = None;
    let mut mode: Option<Vec<char>> = None;
    let mut compression: Option<Vec<char>> = None;
    let mut payload_format: Option<Vec<char>> = None;
    let mut uncompressed: Option<Vec<char>> = None;
    let mut image_id: Option<Vec<char>> = None;
    let mut placement_id: Option<Vec<char>> = None;
    let mut i: usize = 1;
    while i < ls.len()
        invariant
            1 <= i <= ls@.len(),
            ls@.len() == spec_lines.len(),
            forall|k: int| 0 <= k < ls@.len() ==> #[trigger] ls@[k]@ == spec_lines[k],
            fields_all == spec_lines.drop_first(),
            vopt(width) == field_value(fields_all.take(i - 1), "width="@),
            vopt(height) == field_value(fields_all.take(i - 1), "height="@),
            vopt(cell_width) == field_value(fields_all.take(i - 1), "cell_width="@),
            vopt(cell_height) == field_value(fields_all.take(i - 1), "cell_height="@),
            vopt(mode) == field_value(fields_all.take(i - 1), "mode="@),
            vopt(compression) == field_value(fields_all.take(i - 1), "compression="@),
            vopt(payload_format) == field_value(fields_all.take(i - 1), "payload_format="@),
            vopt(uncompressed) == field_value(fields_all.take(i - 1), "uncompressed_bytes="@),
            vopt(image_id) == field_value(fields_all.take(i - 1), "image_id="@),
            vopt(placement_id) == field_value(fields_all.take(i - 1), "placement_id="@),
        decreases ls@.len() - i,
    {
        let line = &ls[i];
        proof {
            assert(fields_all.take(i as int).drop_last() =~= fields_all.take(i - 1));
            assert(fields_all.take(i as int).last() == line@);
        }
        update_field(&mut width, line, "width=");
        update_field(&mut height, line, "height=");
        update_field(&mut cell_width, line, "cell_width=");
        update_field(&mut cell_height, line, "cell_height=");
        update_field(&mut mode, line, "mode=");
        update_field(&mut compression, line, "compression=");
        update_field(&mut payload_format, line, "payload_format=");
        update_field(&mut uncompressed, line, "uncompressed_bytes=");
        update_field(&mut image_id, line, "image_id=");
        update_field(&mut placement_id, line, "placement_id=");
        i += 1;
    }
    proof {
        assert(fields_all.take(i - 1) =~= fields_all);
    }
    let magic = &ls[0];
    if !same_text(magic, "pdf-tui-render-cache-v4") && !same_text(magic, "pdf-tui-render-cache-v2")
        && !same_text(magic, "pdf-tui-render-cache-v1") {
        return Err("cache metadata magic mismatch".to_owned());
    }
    let w = parse_field(&width, 65535);
    let h = parse_field(&height, 65535);
    if w != Some(expected.width as u64) || h != Some(expected.height as u64) {
        let mut msg: Vec<char> = Vec::new();
        extend_str(&mut msg, "cache size mismatch: got ");
        push_debug_number(&mut msg, w);
        extend_str(&mut msg, "x");
        push_debug_number(&mut msg, h);
        extend_str(&mut msg, ", expected ");
        push_decimal(&mut msg, expected.width as u64);
        extend_str(&mut msg, "x");
        push_decimal(&mut msg, expected.height as u64);
        return Err(string_of(&msg));
    }
    let mode_matches = match &mode {
        Some(m) => same_text(m, expected.mode.as_str()),
        None => false,
    };
    proof {
        match &mode {
            Some(m) => assert(vopt(mode) == Some(m@)),
            None => {},
        }
    }
    if !mode_matches {
        let mut msg: Vec<char> = Vec::new();
        extend_str(&mut msg, "cache mode mismatch: got ");
        match &mode {
            Some(m) => {
                extend_str(&mut msg, "Some(");
                let shown = string_of(m);
                let quoted = debug_string(shown.as_str());
                assert(quoted@ == debug_quoted(m@));
                extend_str(&mut msg, quoted.as_str());
                extend_str(&mut msg, ")");
            },
            None => extend_str(&mut msg, "None"),
        }
        extend_str(&mut msg, ", expected ");
        extend_str(&mut msg, expected.mode.as_str());
        proof {
            assert(msg@ == "cache mode mismatch: got "@ + debug_text(vopt(mode)) + ", expected "@ + expected.mode@);
            assert(vopt(mode) != Some(expected.mode@));
            assert(header_from_text(text@, offset as int, *expected) == Err::<CacheHeaderView, Seq<char>>(msg@));
        }
        return Err(string_of(&msg));
    }
    let (ecw, ech) = match expected.cell_pixels {
        Some(c) => c,
        None => (0u16, 0u16),
    };
    let cw = parse_field(&cell_width, 65535);
    let ch = parse_field(&cell_height, 65535);
    if cw != Some(ecw as u64) || ch != Some(ech as u64) {
        let mut msg: Vec<char> = Vec::new();
        extend_str(&mut msg, "cache cell size mismatch: got ");
        push_debug_number(&mut msg, cw);
        extend_str(&mut msg, "x");
        push_debug_number(&mut msg, ch);
        extend_str(&mut msg, ", expected ");
        push_decimal(&mut msg, ecw as u64);
        extend_str(&mut msg, "x");
        push_decimal(&mut msg, ech as u64);
        return Err(string_of(&msg));
    }
    let iid = parse_field(&image_id, 4294967295);
    let eiid = u32_opt(expected.image_id);
    if iid != eiid {
        let mut msg: Vec<char> = Vec::new();
        extend_str(&mut msg, "cache image id mismatch: got ");
        push_debug_number(&mut msg, iid);
        extend_str(&mut msg, ", expected ");
        push_debug_number(&mut msg, eiid);
        return Err(string_of(&msg));
    }
    let pid = parse_field(&placement_id, 4294967295);
    let epid = u32_opt(expected.placement_id);
    if pid != epid {
        let mut msg: Vec<char> = Vec::new();
        extend_str(&mut msg, "cache placement id mismatch: got ");
        push_debug_number(&mut msg, pid);
        extend_str(&mut msg, ", expected ");
        push_debug_number(&mut msg, epid);
        return Err(string_of(&msg));
    }
    let format: Vec<char> = match payload_format {
        Some(f) => f,
        None => chars_of("raw"),
    };
    let method: Vec<char> = match compression {
        Some(c) => c,
        None => chars_of("none"),
    };
    let none = same_text(&method, "none");
    let zstd = same_text(&method, "zstd");
    if !none && !zstd {
        let mut msg: Vec<char> = Vec::new();
        extend_str(&mut msg, "unsupported cache compression: ");
        extend_chars(&mut msg, &method);
        return Err(string_of(&msg));
    }
    let current = same_text(magic, "pdf-tui-render-cache-v4");
    let raw = same_text(&format, "raw");
    let uncompressed_bytes = match parse_field(&uncompressed, usize::MAX as u64) {
        Some(n) => Some(n as usize),
        None => None,
    };
    proof {
        reveal_strlit("raw");
        reveal_strlit("none");
        reveal_strlit("zstd");
    }
    Ok(
        CacheHeader {
            payload_offset: offset,
            compression: if none {
                CacheCompression::Uncompressed
            } else {
                CacheCompression::Zstd
            },
            payload_format: string_of(&format),
            uncompressed_bytes,
            image_id: expected.image_id,
            placement_id: expected.placement_id,
            should_rewrite: !current || (none && !raw),
        },
    )
}

/// Image data and, when the output has one, its refresh sequence.
#[derive(Debug, Clone, PartialEq, Eq)]
pub struct RenderedBytes {
    pub data: Vec<u8>,
    pub refresh: Option<Vec<u8>>,
}

/// The bytes that open a framed payload.
pub open spec fn framed_magic() -> Seq<u8> {
    "pdf-tui-rendered-bytes-v1"@.map_values(|c: char| c as u8).push(0u8)
}

/// The number written by `s`, least significant byte first.
pub open spec fn le_value(s: Seq<u8>) -> nat
    decreases s.len(),
{
    if s.len() == 0 {
        0
    } else {
        s[0] as nat + 256 * le_value(s.drop_first())
    }
}

pub open spec fn le_bound(count: nat) -> nat
    decreases count,
{
    if count == 0 {
        1
    } else {
        256 * le_bound((count - 1) as nat)
    }
}

proof fn lemma_le_value_bound(s: Seq<u8>)
    ensures
        le_value(s) < le_bound(s.len()),
    decreases s.len(),
{
    if s.len() > 0 {
        lemma_le_value_bound(s.drop_first());
        let r = le_value(s.drop_first());
        let b = le_bound(s.drop_first().len());
        assert(s[0] as nat + 256 * r < 256 * b) by (nonlinear_arith)
            requires
                r < b,
                s[0] < 256,
        ;
    }
}

/// Writing a number in `count` bytes and reading it back gives it, when
/// it fits.
pub proof fn lemma_le_round_trip(n: nat, count: nat)
    requires
        n < le_bound(count),
    ensures
        le_bytes(n, count).len() == count,
        le_value(le_bytes(n, count)) == n,
    decreases count,
{
    reveal(le_bytes);
    if count > 0 {
        let rest = le_bytes(n / 256, (count - 1) as nat);
        assert(n / 256 < le_bound((count - 1) as nat)) by (nonlinear_arith)
            requires
                n < 256 * le_bound((count - 1) as nat),
        ;
        lemma_le_round_trip(n / 256, (count - 1) as nat);
        let s = seq![(n % 256) as u8] + rest;
        assert(s.drop_first() =~= rest);
        assert(n == n % 256 + 256 * (n / 256)) by (nonlinear_arith);
    }
}

pub open spec fn clamp_usize(v: int) -> int {
    if v > usize::MAX {
        usize::MAX as int
    } else {
        v
    }
}

/// A payload as stored: raw data as it is; data with a refresh sequence
/// framed as the magic, the two lengths (eight bytes each, least
/// significant first), the data and the refresh sequence.
pub open spec fn encode_payload_spec(data: Seq<u8>, refresh: Option<Seq<u8>>) -> Seq<u8> {
    match refresh {
        None => data,
        Some(r) => framed_magic() + le_bytes(data.len(), 8) + le_bytes(r.len(), 8) + data + r,
    }
}

/// A stored payload read back: anything but a `framed` payload is raw
/// data; a framed one must open with the magic and its lengths must add
/// up to its size.
pub open spec fn decode_payload_spec(bytes: Seq<u8>, format: Seq<char>) -> Result<
    (Seq<u8>, Option<Seq<u8>>),
    Seq<char>,
> {
    if format != "framed"@ {
        Ok((bytes, None))
    } else if bytes.len() < 42 || bytes.take(26) != framed_magic() {
        Err("framed render payload magic mismatch"@)
    } else {
        let data_len = le_value(bytes.subrange(26, 34));
        let refresh_len = le_value(bytes.subrange(34, 42));
        if data_len > usize::MAX {
            Err("render payload data length is too large"@)
        } else if refresh_len > usize::MAX {
            Err("render payload refresh length is too large"@)
        } else {
            let refresh_start = clamp_usize(42 + data_len as int);
            let end = clamp_usize(refresh_start + refresh_len);
            if end != bytes.len() {
                Err("framed render payload size mismatch: got "@ + decimal_spec(bytes.len())
                    + ", expected "@ + decimal_spec(end as nat))
            } else {
                Ok((bytes.subrange(42, refresh_start), Some(bytes.subrange(refresh_start, end))))
            }
        }
    }
}

pub open spec fn rendered_view(r: RenderedBytes) -> (Seq<u8>, Option<Seq<u8>>) {
    (
        r.data@,
        match r.refresh {
            Some(x) => Some(x@),
            None => None,
        },
    )
}

fn push_framed_magic(out: &mut Vec<u8>)
    ensures
        final(out)@ == old(out)@ + framed_magic(),
        framed_magic().len() == 26,
{
    let magic: Vec<u8> = vec![
        112u8, 100, 102, 45, 116, 117, 105, 45, 114, 101, 110, 100, 101, 114, 101, 100, 45, 98, 121,
        116, 101, 115, 45, 118, 49, 0,
    ];
    proof {
        reveal_strlit("pdf-tui-rendered-bytes-v1");
        assert(magic@ =~= framed_magic());
    }
    push_bytes(out, magic.as_slice());
}

/// A payload as stored (see `encode_payload_spec`).
pub fn encode_rendered_bytes(payload: &RenderedBytes) -> (bytes: Vec<u8>)
    ensures
        bytes@ == encode_payload_spec(rendered_view(*payload).0, rendered_view(*payload).1),
{
    let mut out: Vec<u8> = Vec::new();
    match &payload.refresh {
        None => {
            push_bytes(&mut out, payload.data.as_slice());
        },
        Some(refresh) => {
            push_framed_magic(&mut out);
            push_le_bytes(&mut out, payload.data.len() as u128, 8);
            push_le_bytes(&mut out, refresh.len() as u128, 8);
            push_bytes(&mut out, payload.data.as_slice());
            push_bytes(&mut out, refresh.as_slice());
        },
    }
    proof {
        assert(out@ =~= encode_payload_spec(rendered_view(*payload).0, rendered_view(*payload).1));
    }
    out
}

pub(crate) fn read_le_u64(bytes: &[u8], at: usize) -> (v: u64)
    requires
        at + 8 <= bytes.len(),
    ensures
        v as nat == le_value(bytes@.subrange(at as int, at + 8)),
{
    let mut v: u64 = 0;
    let mut j: usize = 8;
    while j > 0
        invariant
            j <= 8,
            at + 8 <= bytes.len(),
            v as nat == le_value(bytes@.subrange(at + j, at + 8)),
            (v as nat) < le_bound((8 - j) as nat),
        decreases j,
    {
        let ghost s = bytes@.subrange(at + j - 1, at + 8);
        proof {
            assert(s.drop_first() =~= bytes@.subrange(at + j, at + 8));
            assert(le_bound(8) == 18446744073709551616nat) by { reveal_with_fuel(le_bound, 9); }
            lemma_le_bound_mono((9 - j) as nat, 8);
            assert(v * 256 + 255 < le_bound((9 - j) as nat)) by (nonlinear_arith)
                requires
                    v < le_bound((8 - j) as nat),
                    le_bound((9 - j) as nat) == 256 * le_bound((8 - j) as nat),
            ;
        }
        v = v * 256 + bytes[at + j - 1] as u64;
        j -= 1;
    }
    v
}

proof fn lemma_le_bound_mono(a: nat, b: nat)
    requires
        a <= b,
    ensures
        le_bound(a) <= le_bound(b),
    decreases b,
{
    if a < b {
        lemma_le_bound_mono(a, (b - 1) as nat);
    }
}

fn slice_range(bytes: &[u8], lo: usize, hi: usize) -> (out: Vec<u8>)
    requires
        lo <= hi <= bytes@.len(),
    ensures
        out@ == bytes@.subrange(lo as int, hi as int),
{
    let mut out: Vec<u8> = Vec::new();
    let mut i: usize = lo;
    while i < hi
        invariant
            lo <= i <= hi <= bytes@.len(),
            out@ == bytes@.subrange(lo as int, i as int),
        decreases hi - i,
    {
        out.push(bytes[i]);
        proof {
            assert(out@ =~= bytes@.subrange(lo as int, i + 1));
        }
        i += 1;
    }
    out
}

/// A stored payload read back (see `decode_payload_spec`).
pub fn decode_rendered_bytes(bytes: &[u8], payload_format: &str) -> (r: Result<RenderedBytes, String>)
    ensures
        match r {
            Ok(p) => decode_payload_spec(bytes@, payload_format@) == Ok::<(Seq<u8>, Option<Seq<u8>>), Seq<char>>(rendered_view(p)),
            Err(e) => decode_payload_spec(bytes@, payload_format@) == Err::<(Seq<u8>, Option<Seq<u8>>), Seq<char>>(e@),
        },
{
    if !crate::keyed::str_eq(payload_format, "framed") {
        let data = slice_range(bytes, 0, bytes.len());
        proof {
            assert(data@ =~= bytes@);
        }
        return Ok(RenderedBytes { data, refresh: None });
    }
    let magic_ok = if bytes.len() < 42 {
        false
    } else {
        let mut probe: Vec<u8> = Vec::new();
        push_framed_magic(&mut probe);
        let mut k: usize = 0;
        let mut same = true;
        proof {
            assert(bytes@.take(0) =~= framed_magic().take(0));
        }
        while k < 26
            invariant
                k <= 26,
                bytes@.len() >= 42,
                framed_magic().len() == 26,
                probe@ == framed_magic(),
                same == (bytes@.take(k as int) == framed_magic().take(k as int)),
            decreases 26 - k,
        {
            let ghost a = bytes@;
            let ghost m = framed_magic();
            proof {
                assert(a.take(k + 1) =~= a.take(k as int).push(a[k as int]));
                assert(m.take(k + 1) =~= m.take(k as int).push(m[k as int]));
                if a.take(k + 1) == m.take(k + 1) {
                    assert(a.take(k + 1).drop_last() =~= a.take(k as int));
                    assert(m.take(k + 1).drop_last() =~= m.take(k as int));
                    assert(a.take(k + 1).last() == a[k as int]);
                    assert(m.take(k + 1).last() == m[k as int]);
                }
            }
            same = same && bytes[k] == probe[k];
            k += 1;
        }
        proof {
            assert(framed_magic().take(26) =~= framed_magic());
        }
        same
    };
    if !magic_ok {
        return Err("framed render payload magic mismatch".to_owned());
    }
    let data_len = read_le_u64(bytes, 26);
    let refresh_len = read_le_u64(bytes, 34);
    if data_len as u128 > usize::MAX as u128 {
        return Err("render payload data length is too large".to_owned());
    }
    if refresh_len as u128 > usize::MAX as u128 {
        return Err("render payload refresh length is too large".to_owned());
    }
    let refresh_start = 42usize.saturating_add(data_len as usize);
    let end = refresh_start.saturating_add(refresh_len as usize);
    if end != bytes.len() {
        let mut msg: Vec<char> = Vec::new();
        extend_str(&mut msg, "framed render payload size mismatch: got ");
        push_decimal(&mut msg, bytes.len() as u64);
        extend_str(&mut msg, ", expected ");
        push_decimal(&mut msg, end as u64);
        return Err(string_of(&msg));
    }
    Ok(
        RenderedBytes {
            data: slice_range(bytes, 42, refresh_start),
            refresh: Some(slice_range(bytes, refresh_start, end)),
        },
    )
}

/// A payload written and read back is the same payload.
pub proof fn lemma_payload_round_trip(data: Seq<u8>, refresh: Option<Seq<u8>>)
    requires
        42 + data.len() + match refresh {
            Some(r) => r.len(),
            None => 0,
        } <= usize::MAX,
    ensures
        decode_payload_spec(
            encode_payload_spec(data, refresh),
            match refresh {
                Some(_) => "framed"@,
                None => "raw"@,
            },
        ) == Ok::<(Seq<u8>, Option<Seq<u8>>), Seq<char>>((data, refresh)),
{
    reveal_strlit("framed");
    reveal_strlit("raw");
    match refresh {
        None => {
            assert("raw"@ != "framed"@) by {
                assert("raw"@.len() != "framed"@.len());
            }
        },
        Some(r) => {
            let bytes = encode_payload_spec(data, refresh);
            reveal_strlit("pdf-tui-rendered-bytes-v1");
            assert(framed_magic().len() == 26);
            assert(le_bound(8) == 18446744073709551616nat) by { reveal_with_fuel(le_bound, 9); }
            lemma_le_round_trip(data.len(), 8);
            lemma_le_round_trip(r.len(), 8);
            assert(bytes.take(26) =~= framed_magic());
            assert(bytes.subrange(26, 34) =~= le_bytes(data.len(), 8));
            assert(bytes.subrange(34, 42) =~= le_bytes(r.len(), 8));
            assert(bytes.subrange(42, 42 + data.len() as int) =~= data);
            assert(bytes.subrange(42 + data.len() as int, bytes.len() as int) =~= r);
        },
    }
}

/// An optional id line of the header.
pub open spec fn id_line(name: Seq<char>, id: Option<u32>) -> Seq<char> {
    match id {
        Some(v) => name + "="@ + decimal_spec(v as nat) + "\n"@,
        None => Seq::empty(),
    }
}

/// The header written before a compressed payload: the current magic,
/// the cell area, the cell size (0x0 when unknown), the mode, `zstd`
/// compression, the payload format, the payload's size before
/// compression and the image ids that are set, then a blank line.
pub open spec fn cache_header_text_spec(
    width: u16,
    height: u16,
    cell_pixels: Option<(u16, u16)>,
    mode: Seq<char>,
    framed: bool,
    uncompressed_bytes: nat,
    image_id: Option<u32>,
    placement_id: Option<u32>,
) -> Seq<char> {
    let (cw, ch) = match cell_pixels {
        Some(c) => c,
        None => (0u16, 0u16),
    };
    cache_magic() + "\nwidth="@ + decimal_spec(width as nat) + "\nheight="@ + decimal_spec(
        height as nat,
    ) + "\ncell_width="@ + decimal_spec(cw as nat) + "\ncell_height="@ + decimal_spec(ch as nat)
        + "\nmode="@ + mode + "\ncompression=zstd\npayload_format="@ + (if framed {
        "framed"@
    } else {
        "raw"@
    }) + "\nuncompressed_bytes="@ + decimal_spec(uncompressed_bytes) + "\n"@ + id_line(
        "image_id"@,
        image_id,
    ) + id_line("placement_id"@, placement_id) + "\n"@
}

fn push_id_line(out: &mut Vec<char>, name: &str, id: Option<u32>)
    ensures
        final(out)@ == old(out)@ + id_line(name@, id),
{
    match id {
        Some(v) => {
            extend_str(out, name);
            extend_str(out, "=");
            push_decimal(out, v as u64);
            extend_str(out, "\n");
        },
        None => {
            proof {
                assert(old(out)@ + id_line(name@, id) =~= old(out)@);
            }
        },
    }
}

/// The header of a cache file (see `cache_header_text_spec`); the
/// compressed payload follows it.
pub fn encode_cache_header(
    width: u16,
    height: u16,
    cell_pixels: Option<(u16, u16)>,
    mode: &str,
    framed: bool,
    uncompressed_bytes: usize,
    image_id: Option<u32>,
    placement_id: Option<u32>,
) -> (header: String)
    ensures
        header@ == cache_header_text_spec(
            width,
            height,
            cell_pixels,
            mode@,
            framed,
            uncompressed_bytes as nat,
            image_id,
            placement_id,
        ),
{
    let (cw, ch) = match cell_pixels {
        Some(c) => c,
        None => (0u16, 0u16),
    };
    let mut out: Vec<char> = Vec::new();
    extend_str(&mut out, "pdf-tui-render-cache-v4");
    extend_str(&mut out, "\nwidth=");
    push_decimal(&mut out, width as u64);
    extend_str(&mut out, "\nheight=");
    push_decimal(&mut out, height as u64);
    extend_str(&mut out, "\ncell_width=");
    push_decimal(&mut out, cw as u64);
    extend_str(&mut out, "\ncell_height=");
    push_decimal(&mut out, ch as u64);
    extend_str(&mut out, "\nmode=");
    extend_str(&mut out, mode);
    extend_str(&mut out, "\ncompression=zstd\npayload_format=");
    if framed {
        extend_str(&mut out, "framed");
    } else {
        extend_str(&mut out, "raw");
    }
    extend_str(&mut out, "\nuncompressed_bytes=");
    push_decimal(&mut out, uncompressed_bytes as u64);
    extend_str(&mut out, "\n");
    push_id_line(&mut out, "image_id", image_id);
    push_id_line(&mut out, "placement_id", placement_id);
    extend_str(&mut out, "\n");
    proof {
        assert(out@ =~= cache_header_text_spec(
            width,
            height,
            cell_pixels,
            mode@,
            framed,
            uncompressed_bytes as nat,
            image_id,
            placement_id,
        ));
    }
    string_of(&out)
}

proof fn lemma_blank_line_in_bounds(bytes: Seq<u8>, from: int)
    ensures
        blank_line_from(bytes, from) matches Some(e) ==> from <= e && e + 1 < bytes.len(),
    decreases bytes.len() - from,
{
    if !(from < 0 || from + 1 >= bytes.len()) && !(bytes[from] == 10 && bytes[from + 1] == 10) {
        lemma_blank_line_in_bounds(bytes, from + 1);
    }
}

/// A cache file read back: its payload and terminal image ids, and whether
/// it is in an older form that is written again.
#[derive(Debug, Clone)]
pub struct DecodedCacheFile {
    pub payload: RenderedBytes,
    pub image_id: Option<u32>,
    pub placement_id: Option<u32>,
    pub should_rewrite: bool,
}

/// The decoded file made of a checked header and its payload.
pub open spec fn decoded_file_is(d: DecodedCacheFile, h: CacheHeaderView, payload: (Seq<u8>, Option<Seq<u8>>)) -> bool {
    &&& rendered_view(d.payload) == payload
    &&& d.image_id == h.image_id
    &&& d.placement_id == h.placement_id
    &&& d.should_rewrite == h.should_rewrite
}

/// What `zstd::stream::decode_all` gives for `bytes`: the decompressed
/// bytes, or its error's message.
pub uninterp spec fn zstd_decoded(bytes: Seq<u8>) -> Result<Seq<u8>, Seq<char>>;

/// `zstd::stream::decode_all` over `bytes`: the decompressed bytes, or the
/// message of the I/O error it returns. The result is the one named by
/// `zstd_decoded`; nothing more is stated of it.
#[verifier::external_body]
fn zstd_decode(bytes: &[u8]) -> (r: Result<Vec<u8>, String>)
    ensures
        match r {
            Ok(d) => zstd_decoded(bytes@) == Ok::<Seq<u8>, Seq<char>>(d@),
            Err(e) => zstd_decoded(bytes@) == Err::<Seq<u8>, Seq<char>>(e@),
        },
{
    match zstd::stream::decode_all(bytes) {
        Ok(decoded) => Ok(decoded),
        Err(error) => Err(error.to_string()),
    }
}

/// The payload of a zstd-compressed file with header `h`, from its
/// decompressed bytes `d`: when the header gives the payload's size, `d`
/// must have it; then it is decoded (`decode_payload_spec`).
pub open spec fn decompressed_payload_spec(h: CacheHeaderView, d: Seq<u8>) -> Result<
    (Seq<u8>, Option<Seq<u8>>),
    Seq<char>,
> {
    match h.uncompressed_bytes {
        Some(n) if d.len() != n => Err(
            "cache decompressed size mismatch: got "@ + decimal_spec(d.len()) + ", expected "@
                + decimal_spec(n),
        ),
        _ => decode_payload_spec(d, h.payload_format),
    }
}

/// A cache file read: its header checked (`decode_cache_header_spec`),
/// then the payload after the blank line decoded, decompressed first when
/// the header says zstd.
pub open spec fn cache_file_spec(bytes: Seq<u8>, exp: CacheExpectation) -> Result<
    (CacheHeaderView, (Seq<u8>, Option<Seq<u8>>)),
    Seq<char>,
> {
    match decode_cache_header_spec(bytes, exp) {
        Err(e) => Err(e),
        Ok(h) => {
            let stored = bytes.skip(h.payload_offset);
            let payload = match h.compression {
                CacheCompression::Uncompressed => decode_payload_spec(stored, h.payload_format),
                CacheCompression::Zstd => match zstd_decoded(stored) {
                    Err(e) => Err("zstd decompression failed: "@ + e),
                    Ok(d) => decompressed_payload_spec(h, d),
                },
            };
            match payload {
                Err(e) => Err(e),
                Ok(p) => Ok((h, p)),
            }
        },
    }
}

/// `r` is what the reading `spec` describes.
pub open spec fn read_as(
    r: Result<DecodedCacheFile, String>,
    spec: Result<(CacheHeaderView, (Seq<u8>, Option<Seq<u8>>)), Seq<char>>,
) -> bool {
    match (r, spec) {
        (Ok(d), Ok((h, p))) => decoded_file_is(d, h, p),
        (Err(x), Err(e)) => x@ == e,
        _ => false,
    }
}

/// Reads a cache file (see `cache_file_spec`).
pub fn decode_cache_file(bytes: &[u8], expected: &CacheExpectation) -> (r: Result<DecodedCacheFile, String>)
    ensures
        read_as(r, cache_file_spec(bytes@, *expected)),
{
    proof {
        lemma_blank_line_in_bounds(bytes@, 0);
    }
    let header = match decode_cache_header(bytes, expected) {
        Ok(h) => h,
        Err(e) => {
            return Err(e);
        },
    };
    let stored = slice_range(bytes, header.payload_offset, bytes.len());
    proof {
        assert(stored@ =~= bytes@.skip(header.payload_offset as int));
    }
    match header.compression {
        CacheCompression::Zstd => match zstd_decode(stored.as_slice()) {
            Ok(decompressed) => decode_decompressed_cache_file(&header, decompressed.as_slice()),
            Err(e) => {
                let mut msg: Vec<char> = Vec::new();
                extend_str(&mut msg, "zstd decompression failed: ");
                extend_str(&mut msg, e.as_str());
                Err(string_of(&msg))
            },
        },
        CacheCompression::Uncompressed => match decode_rendered_bytes(stored.as_slice(), header.payload_format.as_str()) {
            Ok(p) => Ok(
                DecodedCacheFile {
                    payload: p,
                    image_id: header.image_id,
                    placement_id: header.placement_id,
                    should_rewrite: header.should_rewrite,
                },
            ),
            Err(e) => Err(e),
        },
    }
}

/// Finishes reading a zstd-compressed cache file with header `header`
/// from its decompressed payload (see `decompressed_payload_spec`).
pub fn decode_decompressed_cache_file(header: &CacheHeader, decompressed: &[u8]) -> (r: Result<
    DecodedCacheFile,
    String,
>)
    ensures
        match decompressed_payload_spec(header@, decompressed@) {
            Err(e) => r matches Err(x) && x@ == e,
            Ok(p) => r matches Ok(d) && decoded_file_is(d, header@, p),
        },
{
    if let Some(n) = header.uncompressed_bytes {
        if decompressed.len() != n {
            let mut msg: Vec<char> = Vec::new();
            extend_str(&mut msg, "cache decompressed size mismatch: got ");
            push_decimal(&mut msg, decompressed.len() as u64);
            extend_str(&mut msg, ", expected ");
            push_decimal(&mut msg, n as u64);
            return Err(string_of(&msg));
        }
    }
    match decode_rendered_bytes(decompressed, header.payload_format.as_str()) {
        Ok(p) => Ok(
            DecodedCacheFile {
                payload: p,
                image_id: header.image_id,
                placement_id: header.placement_id,
                should_rewrite: header.should_rewrite,
            },
        ),
        Err(e) => Err(e),
    }
}

/// What single-threaded zstd compression at `level` gives for `data`:
/// the compressed bytes, or its error's message.
pub uninterp spec fn zstd_compressed(data: Seq<u8>, level: i32) -> Result<Seq<u8>, Seq<char>>;

/// zstd stream compression of `data` at `level` with `threads` worker
/// threads (`zstd::stream::Encoder::new`, `multithread`, `write_all`,
/// `finish`): the compressed bytes, or the message of the I/O error. With
/// no worker threads the result is the one named by `zstd_compressed`;
/// with workers, zstd's documentation here does not say that the output
/// is a function of its inputs alone, and nothing is stated of it.
#[verifier::external_body]
fn zstd_compress(data: &[u8], level: i32, threads: u32) -> (r: Result<Vec<u8>, String>)
    ensures
        threads == 0 ==> match r {
            Ok(c) => zstd_compressed(data@, level) == Ok::<Seq<u8>, Seq<char>>(c@),
            Err(e) => zstd_compressed(data@, level) == Err::<Seq<u8>, Seq<char>>(e@),
        },
{
    let run = || -> std::io::Result<Vec<u8>> {
        let mut encoder = zstd::stream::Encoder::new(Vec::new(), level)?;
        encoder.multithread(threads)?;
        std::io::Write::write_all(&mut encoder, data)?;
        encoder.finish()
    };
    match run() {
        Ok(compressed) => Ok(compressed),
        Err(error) => Err(error.to_string()),
    }
}

/// The header a cache file of `payload` gets (see `cache_header_text_spec`):
/// the payload is framed when it has a refresh sequence, and its stored
/// size is given before compression.
pub open spec fn cache_file_header_spec(
    payload: RenderedBytes,
    width: u16,
    height: u16,
    cell_pixels: Option<(u16, u16)>,
    mode: Seq<char>,
    image_id: Option<u32>,
    placement_id: Option<u32>,
) -> Seq<char> {
    let stored = encode_payload_spec(rendered_view(payload).0, rendered_view(payload).1);
    cache_header_text_spec(
        width,
        height,
        cell_pixels,
        mode,
        payload.refresh is Some,
        stored.len(),
        image_id,
        placement_id,
    )
}

/// A cache file: the header text as UTF-8, then the compressed payload.
pub fn assemble_cache_file(
    payload: &RenderedBytes,
    width: u16,
    height: u16,
    cell_pixels: Option<(u16, u16)>,
    mode: &str,
    image_id: Option<u32>,
    placement_id: Option<u32>,
    compressed: &[u8],
) -> (bytes: Vec<u8>)
    ensures
        bytes@ == vstd::utf8::encode_utf8(
            cache_file_header_spec(*payload, width, height, cell_pixels, mode@, image_id, placement_id),
        ) + compressed@,
{
    let stored = encode_rendered_bytes(payload);
    let header = encode_cache_header(
        width,
        height,
        cell_pixels,
        mode,
        payload.refresh.is_some(),
        stored.len(),
        image_id,
        placement_id,
    );
    let mut out: Vec<u8> = Vec::new();
    push_bytes(&mut out, header.as_str().as_bytes());
    push_bytes(&mut out, compressed);
    out
}

/// Encodes a rendered payload as a cache file: framed when it has a
/// refresh sequence, compressed with zstd at `level` with `threads` worker
/// threads, after a header (`cache_file_header_spec`). Whatever zstd gives,
/// a file starts with that header; with no worker threads the file is the
/// header followed by `zstd_compressed` of the stored payload, or the
/// compression error.
pub fn encode_cache_file(
    payload: &RenderedBytes,
    width: u16,
    height: u16,
    cell_pixels: Option<(u16, u16)>,
    mode: &str,
    image_id: Option<u32>,
    placement_id: Option<u32>,
    level: i32,
    threads: u32,
) -> (r: Result<Vec<u8>, String>)
    ensures
        ({
            let header = vstd::utf8::encode_utf8(
                cache_file_header_spec(*payload, width, height, cell_pixels, mode@, image_id, placement_id),
            );
            let stored = encode_payload_spec(rendered_view(*payload).0, rendered_view(*payload).1);
            &&& r matches Ok(bytes) ==> header.len() <= bytes@.len() && bytes@.take(header.len() as int)
                == header
            &&& threads == 0 ==> match zstd_compressed(stored, level) {
                Ok(c) => r matches Ok(bytes) && bytes@ == header + c,
                Err(e) => r matches Err(x) && x@ == "zstd compression failed: "@ + e,
            }
        }),
{
    let stored = encode_rendered_bytes(payload);
    match zstd_compress(stored.as_slice(), level, threads) {
        Ok(compressed) => {
            let bytes = assemble_cache_file(
                payload,
                width,
                height,
                cell_pixels,
                mode,
                image_id,
                placement_id,
                compressed.as_slice(),
            );
            proof {
                let header = vstd::utf8::encode_utf8(
                    cache_file_header_spec(*payload, width, height, cell_pixels, mode@, image_id, placement_id),
                );
                assert(bytes@.take(header.len() as int) =~= header);
            }
            Ok(bytes)
        },
        Err(e) => {
            let mut msg: Vec<char> = Vec::new();
            extend_str(&mut msg, "zstd compression failed: ");
            extend_str(&mut msg, e.as_str());
            Err(string_of(&msg))
        },
    }
}

} // verus!
