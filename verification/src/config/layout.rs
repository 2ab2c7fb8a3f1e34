//! Layout presets and the effective layout derived from them: a preset
//! names a strategy (`scroll` or `grid`), its shape, and the parameters
//! that `:layout` arguments fill in.

use vstd::prelude::*;

use crate::keyed::str_eq;
use crate::sorting::{insert_position, insert_sorted};
use crate::text::{
    ascii_lower_seq, chars_eq, chars_of, extend_chars, extend_str, lex_lt, parse_unsigned,
    parse_unsigned_spec, push_decimal, decimal_spec, split_once, split_once_spec, str_lt,
    string_of, to_ascii_lowercase, trim, trim_spec, lemma_trim_unpadded, lemma_lower_unchanged,
};

verus! {

/// The layout in force: a preset with its arguments applied.
#[derive(Debug, Clone, PartialEq)]
pub struct EffectiveLayoutConfig {
    pub name: String,
    pub strategy: String,
    pub columns: u16,
    pub rows: u16,
    pub scroll_divisor: u16,
    pub gap_x: u16,
    pub gap_y: u16,
    pub show_border: bool,
    pub padding: u16,
}

/// An effective layout as plain values: name, strategy, columns, rows,
/// scroll divisor, horizontal and vertical gap, border, padding.
pub type EffectiveView = (Seq<char>, Seq<char>, u16, u16, u16, u16, u16, bool, u16);

impl View for EffectiveLayoutConfig {
    type V = EffectiveView;

    open spec fn view(&self) -> EffectiveView {
        (
            self.name@,
            self.strategy@,
            self.columns,
            self.rows,
            self.scroll_divisor,
            self.gap_x,
            self.gap_y,
            self.show_border,
            self.padding,
        )
    }
}

/// A named layout: its strategy, the parameters its arguments set, its
/// shape, and the settings it overrides.
#[derive(Debug, Clone)]
pub struct LayoutPresetConfig {
    pub strategy: String,
    pub params: Vec<String>,
    pub columns: u16,
    pub rows: u16,
    pub scroll_divisor: u16,
    pub gap_x: Option<u16>,
    pub gap_y: Option<u16>,
    pub show_border: Option<bool>,
    pub padding: Option<u16>,
}

/// A preset as plain values.
pub type PresetView = (
    Seq<char>,
    Seq<Seq<char>>,
    u16,
    u16,
    u16,
    Option<u16>,
    Option<u16>,
    Option<bool>,
    Option<u16>,
);

pub open spec fn strings_view(v: Seq<String>) -> Seq<Seq<char>> {
    v.map_values(|s: String| s@)
}

impl View for LayoutPresetConfig {
    type V = PresetView;

    open spec fn view(&self) -> PresetView {
        (
            self.strategy@,
            strings_view(self.params@),
            self.columns,
            self.rows,
            self.scroll_divisor,
            self.gap_x,
            self.gap_y,
            self.show_border,
            self.padding,
        )
    }
}

/// The layout settings: the active preset and its arguments, the defaults
/// presets fall back to, and the presets by name (each name once, in name
/// order).
#[derive(Debug, Clone)]
pub struct LayoutConfig {
    pub active: String,
    pub active_args: Vec<String>,
    pub gap_x: u16,
    pub gap_y: u16,
    pub show_border: bool,
    pub padding: u16,
    pub presets: Vec<(String, LayoutPresetConfig)>,
}

pub open spec fn presets_view(v: Seq<(String, LayoutPresetConfig)>) -> Seq<(Seq<char>, PresetView)> {
    v.map_values(|e: (String, LayoutPresetConfig)| (e.0@, e.1@))
}

/// The preset named `name`.
pub open spec fn preset_named(presets: Seq<(Seq<char>, PresetView)>, name: Seq<char>) -> Option<
    PresetView,
>
    decreases presets.len(),
{
    if presets.len() == 0 {
        None
    } else if presets[0].0 == name {
        Some(presets[0].1)
    } else {
        preset_named(presets.drop_first(), name)
    }
}

// ---------------------------------------------------------------------
// Defaults

/// The built-in presets, as `(name, preset)`: `scroll` (one column, a
/// third of a page per step, no border or padding) and `grid` (2x2, with
/// border and padding), in name order.
pub open spec fn scroll_preset_view() -> PresetView {
    ("scroll"@, seq!["columns"@, "scroll_divisor"@], 1, 1, 3, None, None, Some(false), Some(0))
}

pub open spec fn grid_preset_view() -> PresetView {
    ("grid"@, seq!["rows"@, "columns"@], 2, 2, 3, None, None, Some(true), Some(1))
}

pub open spec fn default_presets_view() -> Seq<(Seq<char>, PresetView)> {
    seq![("grid"@, grid_preset_view()), ("scroll"@, scroll_preset_view())]
}

fn owned(text: &str) -> (out: String)
    ensures
        out@ == text@,
{
    text.to_owned()
}

impl LayoutPresetConfig {
    /// A preset with every setting unset.
    pub fn new() -> (preset: Self)
        ensures
            preset@ == ("scroll"@, Seq::<Seq<char>>::empty(), 0u16, 0u16, 0u16, None::<u16>, None::<
                u16,
            >, None::<bool>, None::<u16>),
    {
        let preset = LayoutPresetConfig {
            strategy: owned("scroll"),
            params: Vec::new(),
            columns: 0,
            rows: 0,
            scroll_divisor: 0,
            gap_x: None,
            gap_y: None,
            show_border: None,
            padding: None,
        };
        proof {
            assert(strings_view(preset.params@) =~= Seq::<Seq<char>>::empty());
        }
        preset
    }

    /// The built-in `scroll` preset.
    pub fn scroll() -> (preset: Self)
        ensures
            preset@ == scroll_preset_view(),
    {
        let mut params: Vec<String> = Vec::new();
        params.push(owned("columns"));
        params.push(owned("scroll_divisor"));
        let preset = LayoutPresetConfig {
            strategy: owned("scroll"),
            params,
            columns: 1,
            rows: 1,
            scroll_divisor: 3,
            gap_x: None,
            gap_y: None,
            show_border: Some(false),
            padding: Some(0),
        };
        proof {
            assert(strings_view(preset.params@) =~= seq!["columns"@, "scroll_divisor"@]);
        }
        preset
    }

    /// The built-in `grid` preset.
    pub fn grid() -> (preset: Self)
        ensures
            preset@ == grid_preset_view(),
    {
        let mut params: Vec<String> = Vec::new();
        params.push(owned("rows"));
        params.push(owned("columns"));
        let preset = LayoutPresetConfig {
            strategy: owned("grid"),
            params,
            columns: 2,
            rows: 2,
            scroll_divisor: 3,
            gap_x: None,
            gap_y: None,
            show_border: Some(true),
            padding: Some(1),
        };
        proof {
            assert(strings_view(preset.params@) =~= seq!["rows"@, "columns"@]);
        }
        preset
    }

    /// Fills the settings this preset leaves unset (and a zero scroll
    /// divisor) from `default`.
    pub fn fill_missing_from(&mut self, default: &LayoutPresetConfig)
        ensures
            final(self)@ == fill_missing_spec(old(self)@, default@),
    {
        if self.scroll_divisor == 0 {
            self.scroll_divisor = default.scroll_divisor;
        }
        if self.gap_x.is_none() {
            self.gap_x = default.gap_x;
        }
        if self.gap_y.is_none() {
            self.gap_y = default.gap_y;
        }
        if self.show_border.is_none() {
            self.show_border = default.show_border;
        }
        if self.padding.is_none() {
            self.padding = default.padding;
        }
    }
}

pub open spec fn fill_missing_spec(p: PresetView, d: PresetView) -> PresetView {
    (
        p.0,
        p.1,
        p.2,
        p.3,
        if p.4 == 0 {
            d.4
        } else {
            p.4
        },
        if p.5 is None {
            d.5
        } else {
            p.5
        },
        if p.6 is None {
            d.6
        } else {
            p.6
        },
        if p.7 is None {
            d.7
        } else {
            p.7
        },
        if p.8 is None {
            d.8
        } else {
            p.8
        },
    )
}

/// The built-in presets, in name order.
fn default_layout_presets() -> (presets: Vec<(String, LayoutPresetConfig)>)
    ensures
        presets_view(presets@) == default_presets_view(),
{
    let mut presets: Vec<(String, LayoutPresetConfig)> = Vec::new();
    presets.push((owned("grid"), LayoutPresetConfig::grid()));
    presets.push((owned("scroll"), LayoutPresetConfig::scroll()));
    proof {
        assert(presets_view(presets@) =~= default_presets_view());
    }
    presets
}

/// The default layout settings, as plain values: the active preset and its
/// arguments, gaps, border, padding and presets.
pub open spec fn default_layout_view() -> (
    Seq<char>,
    Seq<Seq<char>>,
    u16,
    u16,
    bool,
    u16,
    Seq<(Seq<char>, PresetView)>,
) {
    ("scroll"@, seq!["1"@, "3"@], 2, 1, true, 1, default_presets_view())
}

impl LayoutConfig {
    pub open spec fn settings(&self) -> (
        Seq<char>,
        Seq<Seq<char>>,
        u16,
        u16,
        bool,
        u16,
        Seq<(Seq<char>, PresetView)>,
    ) {
        (
            self.active@,
            strings_view(self.active_args@),
            self.gap_x,
            self.gap_y,
            self.show_border,
            self.padding,
            presets_view(self.presets@),
        )
    }
}

impl Default for LayoutConfig {
    fn default() -> (config: Self)
        ensures
            config.settings() == default_layout_view(),
    {
        let mut args: Vec<String> = Vec::new();
        args.push(owned("1"));
        args.push(owned("3"));
        let config = LayoutConfig {
            active: owned("scroll"),
            active_args: args,
            gap_x: 2,
            gap_y: 1,
            show_border: true,
            padding: 1,
            presets: default_layout_presets(),
        };
        proof {
            assert(strings_view(config.active_args@) =~= seq!["1"@, "3"@]);
        }
        config
    }
}

// ---------------------------------------------------------------------
// Normalization and parameters

/// A strategy name as the layouts use it: trimmed and lowercased, with the
/// aliases `continuous` (for `scroll`) and `fixed_grid` / `fixed-grid`
/// (for `grid`).
pub open spec fn normalize_strategy_spec(strategy: Seq<char>) -> Seq<char> {
    let s = ascii_lower_seq(trim_spec(strategy));
    if s == "scroll"@ || s == "continuous"@ {
        "scroll"@
    } else if s == "grid"@ || s == "fixed_grid"@ || s == "fixed-grid"@ {
        "grid"@
    } else {
        s
    }
}

fn normalize_layout_strategy(strategy: &str) -> (normalized: String)
    ensures
        normalized@ == normalize_strategy_spec(strategy@),
{
    let s = to_ascii_lowercase(&trim(&chars_of(strategy)));
    if chars_eq(&s, "scroll") || chars_eq(&s, "continuous") {
        owned("scroll")
    } else if chars_eq(&s, "grid") || chars_eq(&s, "fixed_grid") || chars_eq(&s, "fixed-grid") {
        owned("grid")
    } else {
        string_of(&s)
    }
}

/// An effective layout made consistent: the strategy normalized, shape
/// and divisor at least 1, and one row for the scroll strategy.
pub open spec fn normalize_effective_spec(e: EffectiveView) -> EffectiveView {
    let strategy = normalize_strategy_spec(e.1);
    (
        e.0,
        strategy,
        if e.2 < 1 {
            1
        } else {
            e.2
        },
        if strategy == "scroll"@ {
            1
        } else if e.3 < 1 {
            1
        } else {
            e.3
        },
        if e.4 < 1 {
            1
        } else {
            e.4
        },
        e.5,
        e.6,
        e.7,
        e.8,
    )
}

fn normalize_effective_layout(layout: &mut EffectiveLayoutConfig)
    ensures
        final(layout)@ == normalize_effective_spec(old(layout)@),
{
    layout.strategy = normalize_layout_strategy(layout.strategy.as_str());
    if layout.columns < 1 {
        layout.columns = 1;
    }
    if layout.rows < 1 {
        layout.rows = 1;
    }
    if layout.scroll_divisor < 1 {
        layout.scroll_divisor = 1;
    }
    if str_eq(layout.strategy.as_str(), "scroll") {
        layout.rows = 1;
    }
}

/// A numeric layout parameter: a positive `u16`.
pub open spec fn parse_layout_u16_spec(param: Seq<char>, value: Seq<char>) -> Result<u16, Seq<char>> {
    match parse_unsigned_spec(value, u16::MAX as nat) {
        None => Err(param + " must be a non-negative integer"@),
        Some(n) => if n == 0 {
            Err(param + " must be greater than zero"@)
        } else {
            Ok(n as u16)
        },
    }
}

fn parse_layout_u16(param: &str, value: &str) -> (parsed: Result<u16, String>)
    ensures
        match (parsed, parse_layout_u16_spec(param@, value@)) {
            (Ok(a), Ok(b)) => a == b,
            (Err(a), Err(b)) => a@ == b,
            _ => false,
        },
{
    match parse_unsigned(&chars_of(value), 65535) {
        None => {
            let mut text = chars_of(param);
            extend_str(&mut text, " must be a non-negative integer");
            Err(string_of(&text))
        },
        Some(n) => if n == 0 {
            let mut text = chars_of(param);
            extend_str(&mut text, " must be greater than zero");
            Err(string_of(&text))
        } else {
            Ok(n as u16)
        },
    }
}

/// A yes/no layout parameter.
pub open spec fn parse_layout_bool_spec(param: Seq<char>, value: Seq<char>) -> Result<bool, Seq<char>> {
    let v = ascii_lower_seq(trim_spec(value));
    if v == "true"@ || v == "yes"@ || v == "on"@ || v == "1"@ {
        Ok(true)
    } else if v == "false"@ || v == "no"@ || v == "off"@ || v == "0"@ {
        Ok(false)
    } else {
        Err(param + " must be true or false"@)
    }
}

fn parse_layout_bool(param: &str, value: &str) -> (parsed: Result<bool, String>)
    ensures
        match (parsed, parse_layout_bool_spec(param@, value@)) {
            (Ok(a), Ok(b)) => a == b,
            (Err(a), Err(b)) => a@ == b,
            _ => false,
        },
{
    let v = to_ascii_lowercase(&trim(&chars_of(value)));
    if chars_eq(&v, "true") || chars_eq(&v, "yes") || chars_eq(&v, "on") || chars_eq(&v, "1") {
        Ok(true)
    } else if chars_eq(&v, "false") || chars_eq(&v, "no") || chars_eq(&v, "off") || chars_eq(
        &v,
        "0",
    ) {
        Ok(false)
    } else {
        let mut text = chars_of(param);
        extend_str(&mut text, " must be true or false");
        Err(string_of(&text))
    }
}

/// The setting a layout parameter name sets: 0 columns, 1 rows, 2 scroll
/// divisor, 3 horizontal gap, 4 vertical gap, 5 border, 6 padding; `None`
/// for an unknown name. Names are trimmed and lowercased first.
pub open spec fn param_kind(param: Seq<char>) -> Option<int> {
    let p = ascii_lower_seq(trim_spec(param));
    if p == "columns"@ || p == "column"@ || p == "cols"@ {
        Some(0)
    } else if p == "rows"@ || p == "row"@ {
        Some(1)
    } else if p == "scroll_divisor"@ || p == "scroll-divisor"@ || p == "divisor"@ || p == "step"@
        || p == "chunk"@ {
        Some(2)
    } else if p == "gap_x"@ || p == "gap-x"@ {
        Some(3)
    } else if p == "gap_y"@ || p == "gap-y"@ {
        Some(4)
    } else if p == "show_border"@ || p == "show-border"@ || p == "border"@ || p == "borders"@ {
        Some(5)
    } else if p == "pad"@ || p == "padding"@ {
        Some(6)
    } else {
        None
    }
}

/// `layout` with parameter `param` set to `value`, or why that is refused.
pub open spec fn apply_param_spec(layout: EffectiveView, param: Seq<char>, value: Seq<char>) -> Result<
    EffectiveView,
    Seq<char>,
> {
    match param_kind(param) {
        None => Err("unknown layout parameter: "@ + param),
        Some(kind) => if kind == 5 {
            match parse_layout_bool_spec(param, value) {
                Err(e) => Err(e),
                Ok(b) => Ok(
                    (
                        layout.0,
                        layout.1,
                        layout.2,
                        layout.3,
                        layout.4,
                        layout.5,
                        layout.6,
                        b,
                        layout.8,
                    ),
                ),
            }
        } else {
            match parse_layout_u16_spec(param, value) {
                Err(e) => Err(e),
                Ok(n) => Ok(
                    (
                        layout.0,
                        layout.1,
                        if kind == 0 {
                            n
                        } else {
                            layout.2
                        },
                        if kind == 1 {
                            n
                        } else {
                            layout.3
                        },
                        if kind == 2 {
                            n
                        } else {
                            layout.4
                        },
                        if kind == 3 {
                            n
                        } else {
                            layout.5
                        },
                        if kind == 4 {
                            n
                        } else {
                            layout.6
                        },
                        layout.7,
                        if kind == 6 {
                            n
                        } else {
                            layout.8
                        },
                    ),
                ),
            }
        },
    }
}

fn param_kind_exec(param: &str) -> (kind: Option<u8>)
    ensures
        match kind {
            Some(k) => param_kind(param@) == Some(k as int),
            None => param_kind(param@) is None,
        },
{
    let p = to_ascii_lowercase(&trim(&chars_of(param)));
    if chars_eq(&p, "columns") || chars_eq(&p, "column") || chars_eq(&p, "cols") {
        Some(0)
    } else if chars_eq(&p, "rows") || chars_eq(&p, "row") {
        Some(1)
    } else if chars_eq(&p, "scroll_divisor") || chars_eq(&p, "scroll-divisor") || chars_eq(
        &p,
        "divisor",
    ) || chars_eq(&p, "step") || chars_eq(&p, "chunk") {
        Some(2)
    } else if chars_eq(&p, "gap_x") || chars_eq(&p, "gap-x") {
        Some(3)
    } else if chars_eq(&p, "gap_y") || chars_eq(&p, "gap-y") {
        Some(4)
    } else if chars_eq(&p, "show_border") || chars_eq(&p, "show-border") || chars_eq(&p, "border")
        || chars_eq(&p, "borders") {
        Some(5)
    } else if chars_eq(&p, "pad") || chars_eq(&p, "padding") {
        Some(6)
    } else {
        None
    }
}

fn apply_layout_param(layout: &mut EffectiveLayoutConfig, param: &str, value: &str) -> (applied:
    Result<(), String>)
    ensures
        match (applied, apply_param_spec(old(layout)@, param@, value@)) {
            (Ok(_), Ok(l)) => final(layout)@ == l,
            (Err(a), Err(b)) => a@ == b && final(layout)@ == old(layout)@,
            _ => false,
        },
{
    let kind = match param_kind_exec(param) {
        Some(k) => k,
        None => {
            let mut text: Vec<char> = Vec::new();
            extend_str(&mut text, "unknown layout parameter: ");
            extend_str(&mut text, param);
            return Err(string_of(&text));
        },
    };
    if kind == 5 {
        match parse_layout_bool(param, value) {
            Ok(b) => {
                layout.show_border = b;
                Ok(())
            },
            Err(e) => Err(e),
        }
    } else {
        match parse_layout_u16(param, value) {
            Ok(n) => {
                if kind == 0 {
                    layout.columns = n;
                } else if kind == 1 {
                    layout.rows = n;
                } else if kind == 2 {
                    layout.scroll_divisor = n;
                } else if kind == 3 {
                    layout.gap_x = n;
                } else if kind == 4 {
                    layout.gap_y = n;
                } else {
                    layout.padding = n;
                }
                Ok(())
            },
            Err(e) => Err(e),
        }
    }
}

/// `<p1> <p2> ...` for the parameters `params`.
pub open spec fn params_usage(params: Seq<Seq<char>>) -> Seq<char>
    decreases params.len(),
{
    if params.len() == 0 {
        Seq::empty()
    } else if params.len() == 1 {
        seq!['<'] + params[0] + seq!['>']
    } else {
        params_usage(params.drop_last()) + seq![' ', '<'] + params.last() + seq!['>']
    }
}

/// How to call `:layout` for the preset `name`.
pub open spec fn layout_usage_spec(name: Seq<char>, params: Seq<Seq<char>>) -> Seq<char> {
    if params.len() == 0 {
        "usage: :layout "@ + name
    } else {
        "usage: :layout "@ + name + seq![' '] + params_usage(params)
    }
}

fn layout_usage(name: &str, preset: &LayoutPresetConfig) -> (usage: String)
    ensures
        usage@ == layout_usage_spec(name@, preset@.1),
{
    let mut text: Vec<char> = Vec::new();
    extend_str(&mut text, "usage: :layout ");
    extend_str(&mut text, name);
    let ghost params = strings_view(preset.params@);
    if preset.params.len() == 0 {
        return string_of(&text);
    }
    text.push(' ');
    let ghost head = text@;
    let mut i: usize = 0;
    while i < preset.params.len()
        invariant
            i <= preset.params@.len(),
            params == strings_view(preset.params@),
            params.len() > 0,
            text@ == head + if i == 0 {
                Seq::<char>::empty()
            } else {
                params_usage(params.take(i as int))
            },
        decreases preset.params@.len() - i,
    {
        if i > 0 {
            text.push(' ');
        }
        text.push('<');
        extend_str(&mut text, preset.params[i].as_str());
        text.push('>');
        proof {
            assert(params.take(i + 1).drop_last() =~= params.take(i as int));
            assert(params[i as int] == preset.params@[i as int]@);
            if i == 0 {
                assert(params.take(1)[0] == params[0]);
            }
            assert(text@ =~= head + params_usage(params.take(i + 1)));
        }
        i += 1;
    }
    proof {
        assert(params.take(i as int) =~= params);
    }
    string_of(&text)
}

// ---------------------------------------------------------------------
// Effective layouts

/// The first `k` parameters applied with their arguments, in order.
pub open spec fn apply_params_spec(
    layout: EffectiveView,
    params: Seq<Seq<char>>,
    args: Seq<Seq<char>>,
    k: int,
) -> Result<EffectiveView, Seq<char>>
    decreases k,
{
    if k <= 0 {
        Ok(layout)
    } else {
        match apply_params_spec(layout, params, args, k - 1) {
            Err(e) => Err(e),
            Ok(l) => apply_param_spec(l, params[k - 1], args[k - 1]),
        }
    }
}

/// The layout preset `name` gives with arguments `args`, or why it
/// cannot: no such preset, more arguments than parameters, or an argument
/// refused (the error then ends with the usage).
pub open spec fn effective_for_spec(
    gap_x: u16,
    gap_y: u16,
    show_border: bool,
    padding: u16,
    presets: Seq<(Seq<char>, PresetView)>,
    name: Seq<char>,
    args: Seq<Seq<char>>,
) -> Result<EffectiveView, Seq<char>> {
    match preset_named(presets, name) {
        None => Err("unknown layout: "@ + name),
        Some(p) => if args.len() > p.1.len() {
            Err(layout_usage_spec(name, p.1))
        } else {
            let base: EffectiveView = (
                name,
                normalize_strategy_spec(p.0),
                p.2,
                p.3,
                p.4,
                match p.5 {
                    Some(v) => v,
                    None => gap_x,
                },
                match p.6 {
                    Some(v) => v,
                    None => gap_y,
                },
                match p.7 {
                    Some(v) => v,
                    None => show_border,
                },
                match p.8 {
                    Some(v) => v,
                    None => padding,
                },
            );
            match apply_params_spec(base, p.1, args, args.len() as int) {
                Err(e) => Err(e + "; "@ + layout_usage_spec(name, p.1)),
                Ok(l) => Ok(normalize_effective_spec(l)),
            }
        },
    }
}

/// The layout used when the active one cannot be built: one scrolling
/// column, a third of a page per step, with the configured gaps, border
/// and padding.
pub open spec fn fallback_layout_spec(gap_x: u16, gap_y: u16, show_border: bool, padding: u16) -> EffectiveView {
    ("scroll"@, "scroll"@, 1, 1, 3, gap_x, gap_y, show_border, padding)
}

/// Trimmed arguments with empty ones dropped.
pub open spec fn trimmed_args(raw: Seq<Seq<char>>) -> Seq<Seq<char>>
    decreases raw.len(),
{
    if raw.len() == 0 {
        Seq::empty()
    } else {
        let t = trim_spec(raw.last());
        if t.len() == 0 {
            trimmed_args(raw.drop_last())
        } else {
            trimmed_args(raw.drop_last()).push(t)
        }
    }
}

/// `RxC` (or `RXC`) split into its trimmed rows and columns, both
/// non-empty.
pub open spec fn split_grid_shape_spec(value: Seq<char>) -> Option<(Seq<char>, Seq<char>)> {
    let parts = match split_once_spec(value, 'x') {
        Some(p) => Some(p),
        None => split_once_spec(value, 'X'),
    };
    match parts {
        None => None,
        Some((r, c)) => {
            let rows = trim_spec(r);
            let columns = trim_spec(c);
            if rows.len() == 0 || columns.len() == 0 {
                None
            } else {
                Some((rows, columns))
            }
        },
    }
}

/// Whether `value`, trimmed and lowercased, is one of `aliases`.
pub open spec fn is_param_spec(value: Seq<char>, aliases: Seq<Seq<char>>) -> bool {
    aliases.contains(ascii_lower_seq(trim_spec(value)))
}

/// The arguments of a `:layout` command for a preset with parameters
/// `params`: trimmed, empty ones dropped, a single `RxC` split in two for a
/// preset whose parameters start with rows and columns; refused when there
/// are more arguments than parameters.
pub open spec fn normalize_args_spec(params: Seq<Seq<char>>, raw: Seq<Seq<char>>) -> Result<
    Seq<Seq<char>>,
    Seq<char>,
> {
    let args = trimmed_args(raw);
    let shaped = if args.len() == 1 && params.len() >= 2 && is_param_spec(
        params[0],
        seq!["rows"@, "row"@],
    ) && is_param_spec(params[1], seq!["columns"@, "column"@, "cols"@]) {
        match split_grid_shape_spec(args[0]) {
            Some((r, c)) => seq![r, c],
            None => args,
        }
    } else {
        args
    };
    if shaped.len() > params.len() {
        Err("too many layout arguments"@)
    } else {
        Ok(shaped)
    }
}

fn split_grid_shape(value: &str) -> (shape: Option<(String, String)>)
    ensures
        match shape {
            Some((r, c)) => split_grid_shape_spec(value@) == Some((r@, c@)),
            None => split_grid_shape_spec(value@) is None,
        },
{
    let cs = chars_of(value);
    let parts = match split_once(&cs, 'x') {
        Some(p) => p,
        None => match split_once(&cs, 'X') {
            Some(p) => p,
            None => return None,
        },
    };
    let rows = trim(&parts.0);
    let columns = trim(&parts.1);
    if rows.len() == 0 || columns.len() == 0 {
        return None;
    }
    Some((string_of(&rows), string_of(&columns)))
}

fn is_param(value: &str, aliases: &[&str]) -> (found: bool)
    ensures
        found == is_param_spec(value@, aliases@.map_values(|a: &str| a@)),
{
    let v = to_ascii_lowercase(&trim(&chars_of(value)));
    let ghost names = aliases@.map_values(|a: &str| a@);
    let mut i: usize = 0;
    while i < aliases.len()
        invariant
            i <= aliases@.len(),
            names == aliases@.map_values(|a: &str| a@),
            v@ == ascii_lower_seq(trim_spec(value@)),
            forall|j: int| 0 <= j < i ==> names[j] != v@,
        decreases aliases@.len() - i,
    {
        if chars_eq(&v, aliases[i]) {
            proof {
                assert(names[i as int] == v@);
            }
            return true;
        }
        i += 1;
    }
    proof {
        assert(!names.contains(v@)) by {
            assert forall|j: int| 0 <= j < names.len() implies names[j] != v@ by {}
        }
    }
    false
}

fn normalize_layout_args(preset: &LayoutPresetConfig, raw_args: &[&str]) -> (args: Result<
    Vec<String>,
    String,
>)
    ensures
        match (args, normalize_args_spec(preset@.1, raw_args@.map_values(|a: &str| a@))) {
            (Ok(a), Ok(b)) => strings_view(a@) == b,
            (Err(a), Err(b)) => a@ == b,
            _ => false,
        },
{
    let ghost raw = raw_args@.map_values(|a: &str| a@);
    let mut args: Vec<String> = Vec::new();
    let mut i: usize = 0;
    proof {
        assert(raw.take(0) =~= Seq::<Seq<char>>::empty());
        assert(strings_view(args@) =~= Seq::<Seq<char>>::empty());
    }
    while i < raw_args.len()
        invariant
            i <= raw_args@.len(),
            raw == raw_args@.map_values(|a: &str| a@),
            strings_view(args@) == trimmed_args(raw.take(i as int)),
        decreases raw_args@.len() - i,
    {
        let t = trim(&chars_of(raw_args[i]));
        proof {
            assert(raw.take(i + 1).drop_last() =~= raw.take(i as int));
            assert(raw.take(i + 1).last() == raw_args@[i as int]@);
        }
        if t.len() > 0 {
            let ghost before = args@;
            args.push(string_of(&t));
            proof {
                assert(strings_view(args@) =~= strings_view(before).push(t@));
            }
        }
        i += 1;
    }
    proof {
        assert(raw.take(i as int) =~= raw);
    }
    let row_names: [&str; 2] = ["rows", "row"];
    let column_names: [&str; 3] = ["columns", "column", "cols"];
    proof {
        assert(row_names@.map_values(|a: &str| a@) =~= seq!["rows"@, "row"@]);
        assert(column_names@.map_values(|a: &str| a@) =~= seq!["columns"@, "column"@, "cols"@]);
    }
    if args.len() == 1 && preset.params.len() >= 2 && is_param(
        preset.params[0].as_str(),
        &row_names,
    ) && is_param(preset.params[1].as_str(), &column_names) {
        proof {
            assert(strings_view(args@)[0] == args@[0]@);
        }
        match split_grid_shape(args[0].as_str()) {
            Some((rows, columns)) => {
                let mut shaped: Vec<String> = Vec::new();
                shaped.push(rows);
                shaped.push(columns);
                proof {
                    assert(strings_view(shaped@) =~= seq![rows@, columns@]);
                }
                args = shaped;
            },
            None => {},
        }
    }
    if args.len() > preset.params.len() {
        return Err(owned("too many layout arguments"));
    }
    Ok(args)
}

impl EffectiveLayoutConfig {
    /// The name shown for the layout: the name and shape of the scroll
    /// and grid strategies (`scroll 1 3`, `grid 2x2`), else the name.
    pub fn label(&self) -> (label: String)
        ensures
            label@ == label_spec(self@),
    {
        let mut text = chars_of(self.name.as_str());
        if str_eq(self.strategy.as_str(), "scroll") {
            text.push(' ');
            push_decimal(&mut text, max1(self.columns) as u64);
            text.push(' ');
            push_decimal(&mut text, max1(self.scroll_divisor) as u64);
        } else if str_eq(self.strategy.as_str(), "grid") {
            text.push(' ');
            push_decimal(&mut text, max1(self.rows) as u64);
            text.push('x');
            push_decimal(&mut text, max1(self.columns) as u64);
        }
        string_of(&text)
    }

    pub fn is_scroll(&self) -> (scroll: bool)
        ensures
            scroll == (self.strategy@ == "scroll"@),
    {
        str_eq(self.strategy.as_str(), "scroll")
    }

    /// Pages a grid page holds: rows times columns, each at least 1.
    pub fn grid_capacity(&self) -> (capacity: usize)
        ensures
            capacity == max1_spec(self.rows) * max1_spec(self.columns),
    {
        let rows = max1(self.rows) as usize;
        let columns = max1(self.columns) as usize;
        assert(rows * columns <= 65535 * 65535) by (nonlinear_arith)
            requires
                rows <= 65535,
                columns <= 65535,
        ;
        rows * columns
    }
}

/// `value`, at least 1.
pub open spec fn max1_spec(value: u16) -> u16 {
    if value < 1 {
        1
    } else {
        value
    }
}

#[verifier::when_used_as_spec(max1_spec)]
fn max1(value: u16) -> (out: u16)
    ensures
        out == max1_spec(value),
{
    if value < 1 {
        1
    } else {
        value
    }
}

pub open spec fn label_spec(e: EffectiveView) -> Seq<char> {
    if e.1 == "scroll"@ {
        e.0 + seq![' '] + decimal_spec(max1_spec(e.2) as nat) + seq![' '] + decimal_spec(
            max1_spec(e.4) as nat,
        )
    } else if e.1 == "grid"@ {
        e.0 + seq![' '] + decimal_spec(max1_spec(e.3) as nat) + seq!['x'] + decimal_spec(
            max1_spec(e.2) as nat,
        )
    } else {
        e.0
    }
}


/// The layout preset named `name`, looked up in `presets`.
fn find_preset<'a>(presets: &'a Vec<(String, LayoutPresetConfig)>, name: &str) -> (found: Option<
    &'a LayoutPresetConfig,
>)
    ensures
        match found {
            Some(p) => preset_named(presets_view(presets@), name@) == Some(p@),
            None => preset_named(presets_view(presets@), name@) is None,
        },
{
    let ghost all = presets_view(presets@);
    let mut i: usize = 0;
    proof {
        assert(all.skip(0) =~= all);
    }
    while i < presets.len()
        invariant
            i <= presets@.len(),
            all == presets_view(presets@),
            preset_named(all, name@) == preset_named(all.skip(i as int), name@),
        decreases presets@.len() - i,
    {
        proof {
            assert(all.skip(i as int).drop_first() =~= all.skip(i + 1));
            assert(all.skip(i as int)[0] == (presets@[i as int].0@, presets@[i as int].1@));
        }
        if str_eq(presets[i].0.as_str(), name) {
            return Some(&presets[i].1);
        }
        i += 1;
    }
    None
}

/// `"unknown layout: NAME"`.
fn unknown_layout(name: &str) -> (message: String)
    ensures
        message@ == "unknown layout: "@ + name@,
{
    let mut text: Vec<char> = Vec::new();
    extend_str(&mut text, "unknown layout: ");
    extend_str(&mut text, name);
    string_of(&text)
}

impl LayoutConfig {
    /// The layout preset `name` gives with arguments `args`.
    pub fn effective_for(&self, name: &str, args: &Vec<String>) -> (layout: Result<
        EffectiveLayoutConfig,
        String,
    >)
        ensures
            match (
                layout,
                effective_for_spec(
                    self.gap_x,
                    self.gap_y,
                    self.show_border,
                    self.padding,
                    presets_view(self.presets@),
                    name@,
                    strings_view(args@),
                ),
            ) {
                (Ok(a), Ok(b)) => a@ == b,
                (Err(a), Err(b)) => a@ == b,
                _ => false,
            },
    {
        let preset = match find_preset(&self.presets, name) {
            Some(p) => p,
            None => return Err(unknown_layout(name)),
        };
        if args.len() > preset.params.len() {
            return Err(layout_usage(name, preset));
        }
        let mut effective = EffectiveLayoutConfig {
            name: owned(name),
            strategy: normalize_layout_strategy(preset.strategy.as_str()),
            columns: preset.columns,
            rows: preset.rows,
            scroll_divisor: preset.scroll_divisor,
            gap_x: match preset.gap_x {
                Some(v) => v,
                None => self.gap_x,
            },
            gap_y: match preset.gap_y {
                Some(v) => v,
                None => self.gap_y,
            },
            show_border: match preset.show_border {
                Some(v) => v,
                None => self.show_border,
            },
            padding: match preset.padding {
                Some(v) => v,
                None => self.padding,
            },
        };
        let ghost base = effective@;
        let ghost params = strings_view(preset.params@);
        let ghost argv = strings_view(args@);
        let ghost goal = effective_for_spec(
            self.gap_x,
            self.gap_y,
            self.show_border,
            self.padding,
            presets_view(self.presets@),
            name@,
            argv,
        );
        proof {
            assert(goal == match apply_params_spec(base, params, argv, argv.len() as int) {
                Err(e) => Err(e + "; "@ + layout_usage_spec(name@, params)),
                Ok(l) => Ok(normalize_effective_spec(l)),
            });
        }
        let mut k: usize = 0;
        while k < args.len()
            invariant
                k <= args@.len() <= preset.params@.len(),
                goal == match apply_params_spec(base, params, argv, argv.len() as int) {
                    Err(e) => Err(e + "; "@ + layout_usage_spec(name@, params)),
                    Ok(l) => Ok(normalize_effective_spec(l)),
                },
                argv.len() == args@.len(),
                preset@.1 == params,
                goal == effective_for_spec(
                    self.gap_x,
                    self.gap_y,
                    self.show_border,
                    self.padding,
                    presets_view(self.presets@),
                    name@,
                    argv,
                ),
                params == strings_view(preset.params@),
                argv == strings_view(args@),
                apply_params_spec(base, params, argv, k as int) == Ok::<EffectiveView, Seq<char>>(
                    effective@,
                ),
            decreases args@.len() - k,
        {
            proof {
                assert(params[k as int] == preset.params@[k as int]@);
                assert(argv[k as int] == args@[k as int]@);
            }
            match apply_layout_param(&mut effective, preset.params[k].as_str(), args[k].as_str()) {
                Ok(_) => {},
                Err(e) => {
                    proof {
                        lemma_apply_params_error_sticks(base, params, argv, k as int + 1);
                    }
                    let mut text = chars_of(e.as_str());
                    extend_str(&mut text, "; ");
                    let usage = layout_usage(name, preset);
                    extend_str(&mut text, usage.as_str());
                    return Err(string_of(&text));
                },
            }
            k += 1;
        }
        normalize_effective_layout(&mut effective);
        Ok(effective)
    }

    /// The active layout, or the scroll fallback when the active preset
    /// and arguments cannot be built.
    pub fn effective(&self) -> (layout: EffectiveLayoutConfig)
        ensures
            layout@ == match effective_for_spec(
                self.gap_x,
                self.gap_y,
                self.show_border,
                self.padding,
                presets_view(self.presets@),
                self.active@,
                strings_view(self.active_args@),
            ) {
                Ok(l) => l,
                Err(_) => fallback_layout_spec(self.gap_x, self.gap_y, self.show_border, self.padding),
            },
    {
        match self.effective_for(self.active.as_str(), &self.active_args) {
            Ok(layout) => layout,
            Err(_) => default_effective_layout(self),
        }
    }

    /// Makes preset `name` with the `:layout` arguments `raw_args` the
    /// active layout, and returns it; on an error nothing changes.
    pub fn set_active_from_args(&mut self, name: &str, raw_args: &[&str]) -> (layout: Result<
        EffectiveLayoutConfig,
        String,
    >)
        ensures
            match preset_named(presets_view(old(self).presets@), name@) {
                None => layout matches Err(e) && e@ == "unknown layout: "@ + name@ && *final(self)
                    == *old(self),
                Some(p) => match normalize_args_spec(p.1, raw_args@.map_values(|a: &str| a@)) {
                    Err(m) => layout matches Err(e) && e@ == m && *final(self) == *old(self),
                    Ok(args) => match effective_for_spec(
                        old(self).gap_x,
                        old(self).gap_y,
                        old(self).show_border,
                        old(self).padding,
                        presets_view(old(self).presets@),
                        name@,
                        args,
                    ) {
                        Err(m) => layout matches Err(e) && e@ == m && *final(self) == *old(self),
                        Ok(l) => layout matches Ok(e) && e@ == l && final(self).active@ == name@
                            && strings_view(final(self).active_args@) == args && final(self).gap_x
                            == old(self).gap_x && final(self).gap_y == old(self).gap_y
                            && final(self).show_border == old(self).show_border
                            && final(self).padding == old(self).padding && final(self).presets
                            == old(self).presets,
                    },
                },
            },
    {
        let preset = match find_preset(&self.presets, name) {
            Some(p) => p,
            None => return Err(unknown_layout(name)),
        };
        let args = match normalize_layout_args(preset, raw_args) {
            Ok(a) => a,
            Err(e) => return Err(e),
        };
        let effective = match self.effective_for(name, &args) {
            Ok(l) => l,
            Err(e) => return Err(e),
        };
        self.active = owned(name);
        self.active_args = args;
        Ok(effective)
    }

    /// Adds each built-in preset that is missing, and fills the unset
    /// settings of those present from the built-in one.
    pub fn normalize_defaults(&mut self)
        ensures
            presets_view(final(self).presets@) == normalize_presets_spec(
                presets_view(old(self).presets@),
                default_presets_view(),
            ),
            final(self).active == old(self).active,
            final(self).active_args == old(self).active_args,
            final(self).gap_x == old(self).gap_x,
            final(self).gap_y == old(self).gap_y,
            final(self).show_border == old(self).show_border,
            final(self).padding == old(self).padding,
    {
        let defaults = default_layout_presets();
        let mut d: usize = 0;
        let mut rest = defaults;
        let ghost all = presets_view(rest@);
        proof {
            assert(all.take(0) =~= Seq::<(Seq<char>, PresetView)>::empty());
        }
        while rest.len() > 0
            invariant
                d + rest@.len() == 2,
                all == default_presets_view(),
                presets_view(rest@) == all.skip(d as int),
                presets_view(self.presets@) == normalize_presets_spec(
                    presets_view(old(self).presets@),
                    all.take(d as int),
                ),
                self.active == old(self).active,
                self.active_args == old(self).active_args,
                self.gap_x == old(self).gap_x,
                self.gap_y == old(self).gap_y,
                self.show_border == old(self).show_border,
                self.padding == old(self).padding,
            decreases rest@.len(),
        {
            let ghost before_rest = rest@;
            let (name, preset) = rest.remove(0);
            proof {
                assert(presets_view(before_rest)[0] == (name@, preset@));
                assert(presets_view(rest@) =~= presets_view(before_rest).drop_first());
                assert(all.skip(d as int).drop_first() =~= all.skip(d + 1));
                assert(all.take(d + 1).drop_last() =~= all.take(d as int));
                assert(all.take(d + 1).last() == (name@, preset@));
            }
            self.merge_default_preset(name, preset);
            d += 1;
        }
        proof {
            assert(all.take(d as int) =~= all);
        }
    }

    fn merge_default_preset(&mut self, name: String, default_preset: LayoutPresetConfig)
        ensures
            presets_view(final(self).presets@) == merge_preset_spec(
                presets_view(old(self).presets@),
                (name@, default_preset@),
            ),
            final(self).active == old(self).active,
            final(self).active_args == old(self).active_args,
            final(self).gap_x == old(self).gap_x,
            final(self).gap_y == old(self).gap_y,
            final(self).show_border == old(self).show_border,
            final(self).padding == old(self).padding,
    {
        let ghost all = presets_view(self.presets@);
        let mut i: usize = 0;
        proof {
            assert(all.skip(0) =~= all);
        }
        while i < self.presets.len()
            invariant
                i <= self.presets@.len(),
                all == presets_view(self.presets@),
                self.presets == old(self).presets,
                self.active == old(self).active,
                self.active_args == old(self).active_args,
                self.gap_x == old(self).gap_x,
                self.gap_y == old(self).gap_y,
                self.show_border == old(self).show_border,
                self.padding == old(self).padding,
                forall|j: int| 0 <= j < i ==> all[j].0 != name@,
            decreases self.presets@.len() - i,
        {
            if str_eq(self.presets[i].0.as_str(), name.as_str()) {
                let ghost before = self.presets@;
                let mut entry = self.presets.remove(i);
                entry.1.fill_missing_from(&default_preset);
                self.presets.insert(i, entry);
                proof {
                    lemma_first_named(all, name@, i as int);
                    assert(presets_view(self.presets@) =~= all.update(
                        i as int,
                        (name@, fill_missing_spec(all[i as int].1, default_preset@)),
                    ));
                }
                return;
            }
            i += 1;
        }
        let ghost before = self.presets@;
        let mut p: usize = 0;
        while p < self.presets.len() && !str_lt(name.as_str(), self.presets[p].0.as_str())
            invariant
                p <= self.presets@.len(),
                all == presets_view(self.presets@),
                self.presets@ == before,
                insert_position(all, (name@, default_preset@), preset_order(), 0) == insert_position(
                    all,
                    (name@, default_preset@),
                    preset_order(),
                    p as int,
                ),
            decreases self.presets@.len() - p,
        {
            p += 1;
        }
        proof {
            assert(forall|j: int| 0 <= j < all.len() ==> all[j].0 != name@);
            lemma_none_named(all, name@);
        }
        let ghost named = (name@, default_preset@);
        self.presets.insert(p, (name, default_preset));
        proof {
            assert(presets_view(self.presets@) =~= all.insert(p as int, named));
        }
    }
}

/// Presets are kept in name order.
pub open spec fn preset_order() -> spec_fn((Seq<char>, PresetView), (Seq<char>, PresetView)) -> bool {
    |a: (Seq<char>, PresetView), b: (Seq<char>, PresetView)| lex_lt(a.0, b.0)
}

/// The position of the first preset named `name`.
pub open spec fn named_position(presets: Seq<(Seq<char>, PresetView)>, name: Seq<char>) -> Option<int> {
    if exists|j: int| 0 <= j < presets.len() && presets[j].0 == name {
        Some(
            choose|j: int|
                0 <= j < presets.len() && presets[j].0 == name && forall|k: int|
                    0 <= k < j ==> presets[k].0 != name,
        )
    } else {
        None
    }
}

proof fn lemma_first_named(presets: Seq<(Seq<char>, PresetView)>, name: Seq<char>, i: int)
    requires
        0 <= i < presets.len(),
        presets[i].0 == name,
        forall|k: int| 0 <= k < i ==> presets[k].0 != name,
    ensures
        named_position(presets, name) == Some(i),
{
    let j = choose|j: int|
        0 <= j < presets.len() && presets[j].0 == name && forall|k: int|
            0 <= k < j ==> presets[k].0 != name;
    assert(0 <= j < presets.len() && presets[j].0 == name && forall|k: int|
        0 <= k < j ==> presets[k].0 != name);
    if j < i {
        assert(presets[j].0 != name);
    }
    if i < j {
        assert(presets[i].0 != name);
    }
}

proof fn lemma_none_named(presets: Seq<(Seq<char>, PresetView)>, name: Seq<char>)
    requires
        forall|j: int| 0 <= j < presets.len() ==> presets[j].0 != name,
    ensures
        named_position(presets, name) is None,
{
}

/// A built-in preset merged into the presets: a preset of the same name
/// has its unset settings filled from it, else it is added in name order.
pub open spec fn merge_preset_spec(
    presets: Seq<(Seq<char>, PresetView)>,
    default: (Seq<char>, PresetView),
) -> Seq<(Seq<char>, PresetView)> {
    match named_position(presets, default.0) {
        Some(i) => presets.update(i, (default.0, fill_missing_spec(presets[i].1, default.1))),
        None => insert_sorted(presets, default, preset_order()),
    }
}

/// The built-in presets merged in, one after the other.
pub open spec fn normalize_presets_spec(
    presets: Seq<(Seq<char>, PresetView)>,
    defaults: Seq<(Seq<char>, PresetView)>,
) -> Seq<(Seq<char>, PresetView)>
    decreases defaults.len(),
{
    if defaults.len() == 0 {
        presets
    } else {
        merge_preset_spec(normalize_presets_spec(presets, defaults.drop_last()), defaults.last())
    }
}

proof fn lemma_apply_params_error_sticks(
    layout: EffectiveView,
    params: Seq<Seq<char>>,
    args: Seq<Seq<char>>,
    k: int,
)
    requires
        0 <= k <= args.len(),
        apply_params_spec(layout, params, args, k) is Err,
    ensures
        apply_params_spec(layout, params, args, args.len() as int) == apply_params_spec(
            layout,
            params,
            args,
            k,
        ),
    decreases args.len() - k,
{
    if k < args.len() {
        lemma_apply_params_error_sticks(layout, params, args, k + 1);
    }
}

/// The scroll layout used when the active one cannot be built.
fn default_effective_layout(config: &LayoutConfig) -> (layout: EffectiveLayoutConfig)
    ensures
        layout@ == fallback_layout_spec(config.gap_x, config.gap_y, config.show_border, config.padding),
{
    let fallback = LayoutPresetConfig::scroll();
    let mut effective = EffectiveLayoutConfig {
        name: owned("scroll"),
        strategy: fallback.strategy,
        columns: fallback.columns,
        rows: fallback.rows,
        scroll_divisor: fallback.scroll_divisor,
        gap_x: config.gap_x,
        gap_y: config.gap_y,
        show_border: config.show_border,
        padding: config.padding,
    };
    normalize_effective_layout(&mut effective);
    proof {
        lemma_scroll_is_normal();
    }
    effective
}

/// `scroll` is already a normalized strategy name.
proof fn lemma_scroll_is_normal()
    ensures
        normalize_strategy_spec("scroll"@) == "scroll"@,
{
    reveal_strlit("scroll");
    let s = "scroll"@;
    lemma_trim_unpadded(s);
    lemma_lower_unchanged(s);
}


/// A layout in force has at least one column, one row and one scroll
/// step, and a scroll layout has exactly one row.
pub open spec fn is_normal_layout(l: EffectiveView) -> bool {
    &&& l.2 >= 1
    &&& l.3 >= 1
    &&& l.4 >= 1
    &&& l.1 == "scroll"@ ==> l.3 == 1
}

/// Every layout the configuration yields, from a preset or the fallback,
/// is consistent: at least one column, row and scroll step, one row for
/// scrolling.
pub proof fn lemma_effective_layouts_are_normal(
    gap_x: u16,
    gap_y: u16,
    show_border: bool,
    padding: u16,
    presets: Seq<(Seq<char>, PresetView)>,
    name: Seq<char>,
    args: Seq<Seq<char>>,
)
    ensures
        match effective_for_spec(gap_x, gap_y, show_border, padding, presets, name, args) {
            Ok(l) => is_normal_layout(l),
            Err(_) => true,
        },
        is_normal_layout(fallback_layout_spec(gap_x, gap_y, show_border, padding)),
{
    reveal_strlit("scroll");
}

} // verus!
