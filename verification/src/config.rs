//! Configuration: the layout presets, rendering and behavior settings, the
//! theme and the key map, with their defaults and normalization, and the
//! comments written into the main configuration file.

pub mod behavior;
pub mod keymap;
pub mod layout;
pub mod render;
pub mod theme;

use vstd::prelude::*;

use crate::keyed::str_eq;
use crate::text::{
    chars_eq, chars_of, extend_chars, extend_str, lines, lines_spec, split_once, split_once_spec,
    starts_with, string_of, strip_prefix, trim, trim_spec, ends_with, slice_chars,
};
use behavior::BehaviorConfig;
use keymap::KeymapConfig;
use layout::LayoutConfig;
use render::RenderConfig;
use theme::ThemeConfig;

verus! {

#[verifier::external_type_specification]
#[verifier::external_body]
pub struct ExPathBuf(std::path::PathBuf);

/// `PathBuf::clone`, which the derived `Clone` of the library's types that
/// hold paths calls. Paths are opaque here, so nothing is claimed of the
/// copy.
pub assume_specification[ <std::path::PathBuf as Clone>::clone ](
    path: &std::path::PathBuf,
) -> std::path::PathBuf;

/// Everything read from the configuration directory.
#[derive(Debug)]
pub struct Settings {
    pub config: AppConfig,
    pub keymap: KeymapConfig,
    pub theme: ThemeConfig,
    pub config_path: std::path::PathBuf,
    pub cache_dir: std::path::PathBuf,
}

/// The main configuration file.
#[derive(Debug, Clone)]
pub struct AppConfig {
    pub layout: LayoutConfig,
    pub render: RenderConfig,
    pub behavior: BehaviorConfig,
}

impl Default for AppConfig {
    fn default() -> (config: Self)
        ensures
            config.layout.settings() == layout::default_layout_view(),
            config.render.page_dpi == 180,
            config.render.max_concurrent == 4,
            config.behavior.scroll_lines == 4,
    {
        AppConfig {
            layout: LayoutConfig::default(),
            render: RenderConfig::default(),
            behavior: BehaviorConfig::default(),
        }
    }
}

impl AppConfig {
    /// Fills in missing presets and raises settings below their minimum.
    pub fn normalize_defaults(&mut self)
        ensures
            layout::presets_view(final(self).layout.presets@) == layout::normalize_presets_spec(
                layout::presets_view(old(self).layout.presets@),
                layout::default_presets_view(),
            ),
            final(self).render.page_dpi == behavior::at_least(old(self).render.page_dpi as int, 36),
            final(self).render.max_concurrent == behavior::at_least(
                old(self).render.max_concurrent as int,
                1,
            ),
            final(self).behavior.scroll_lines == behavior::at_least(
                old(self).behavior.scroll_lines as int,
                1,
            ),
            final(self).behavior.auto_refresh_poll_ms == behavior::at_least(
                old(self).behavior.auto_refresh_poll_ms as int,
                200,
            ),
    {
        self.layout.normalize_defaults();
        self.render.normalize_defaults();
        self.behavior.normalize_defaults();
    }
}

/// The first comment at or after position `i` whose key is `key`.
pub open spec fn comment_from(table: Seq<(Seq<char>, Seq<char>)>, key: Seq<char>, i: int) -> Option<
    Seq<char>,
>
    decreases table.len() - i,
{
    if i < 0 || i >= table.len() {
        None
    } else if table[i].0 == key {
        Some(table[i].1)
    } else {
        comment_from(table, key, i + 1)
    }
}

/// The comment for configuration key `key`.
pub open spec fn comment_for_spec(key: Seq<char>) -> Option<Seq<char>> {
    comment_from(config_comments(), key, 0)
}

proof fn lemma_comment_from_skips(
    table: Seq<(Seq<char>, Seq<char>)>,
    key: Seq<char>,
    i: int,
    idx: int,
)
    requires
        0 <= i <= idx <= table.len(),
        forall|j: int| 0 <= j < idx ==> table[j].0 != key,
    ensures
        comment_from(table, key, i) == comment_from(table, key, idx),
    decreases idx - i,
{
    if i < idx {
        lemma_comment_from_skips(table, key, i + 1, idx);
    }
}

proof fn lemma_comment_at(key: Seq<char>, idx: int)
    requires
        0 <= idx < config_comments().len(),
        config_comments()[idx].0 == key,
        forall|j: int| 0 <= j < idx ==> config_comments()[j].0 != key,
    ensures
        comment_for_spec(key) == Some(config_comments()[idx].1),
{
    lemma_comment_from_skips(config_comments(), key, 0, idx);
}

proof fn lemma_no_comment(key: Seq<char>)
    requires
        forall|j: int| 0 <= j < config_comments().len() ==> config_comments()[j].0 != key,
    ensures
        comment_for_spec(key) is None,
{
    lemma_comment_from_skips(config_comments(), key, 0, config_comments().len() as int);
}

/// The comment written above each key of the main configuration file.
pub open spec fn config_comments() -> Seq<(Seq<char>, Seq<char>)> {
    seq![
        ("layout"@, "Layout defaults and the startup preset selection."@),
        ("layout.active"@, "Layout preset selected on startup."@),
        ("layout.active_args"@, "Arguments passed to the active layout preset, in the order declared by that preset's params."@),
        ("layout.gap_x"@, "Default horizontal gap between rendered pages."@),
        ("layout.gap_y"@, "Default vertical gap between rendered pages."@),
        ("layout.show_border"@, "Draw borders around rendered pages by default."@),
        ("layout.padding"@, "Default inner padding around rendered pages."@),
        ("layout.presets.*"@, "Named layout preset used by the :layout command."@),
        ("layout.presets.*.strategy"@, "Layout algorithm used by this preset: scroll or grid."@),
        ("layout.presets.*.params"@, "Runtime arguments accepted by :layout for this preset."@),
        ("layout.presets.*.columns"@, "Default number of page columns."@),
        ("layout.presets.*.rows"@, "Default number of page rows for grid layouts."@),
        ("layout.presets.*.scroll_divisor"@, "Scroll step divisor for continuous scrolling layouts."@),
        ("layout.presets.*.gap_x"@, "Override the global horizontal page gap for this preset."@),
        ("layout.presets.*.gap_y"@, "Override the global vertical page gap for this preset."@),
        ("layout.presets.*.show_border"@, "Override whether this preset draws page borders."@),
        ("layout.presets.*.padding"@, "Override the page padding for this preset."@),
        ("render"@, "PDF conversion, terminal rendering, preloading, and cache settings."@),
        ("render.pdf_raster_backend"@, "PDF page raster backend: poppler, mutool, or pdfium."@),
        ("render.pdf_raster_batch_pages"@, "Number of PDF pages requested per raster batch."@),
        ("render.pdfinfo_bin"@, "Command used to read PDF metadata."@),
        ("render.pdftoppm_bin"@, "Command used for the poppler raster backend."@),
        ("render.mutool_bin"@, "Command used for the mutool raster backend."@),
        ("render.mutool_band_height"@, "Band height passed to mutool draw -B for threaded rendering."@),
        ("render.mutool_threads"@, "Rendering threads passed to mutool draw -T."@),
        ("render.mutool_parallel"@, "Enable mutool draw -P parallel interpretation/rendering."@),
        ("render.pdfium_library_path"@, "Optional path to libpdfium or its containing directory."@),
        ("render.pdftk_bin"@, "Command used for PDF toolkit operations when available."@),
        ("render.pdftotext_bin"@, "Command used to extract searchable text from PDFs."@),
        ("render.page_dpi"@, "DPI used when rasterizing PDF pages before terminal rendering."@),
        ("render.chafa_bin"@, "Command used to render rasterized pages in the terminal."@),
        ("render.auto_detect"@, "Detect terminal graphics capability and adjust Chafa arguments automatically."@),
        ("render.chafa_args"@, "Extra arguments passed to Chafa after terminal auto-detection is applied."@),
        ("render.cache_max_bytes"@, "Maximum disk space used for the render cache."@),
        ("render.cache_compression_level"@, "Compression level used for cached render data."@),
        ("render.cache_compression_threads"@, "Worker threads used when compressing cache entries."@),
        ("render.memory_compression"@, "Compress rendered page data kept in memory."@),
        ("render.raw_memory_cache_max_bytes"@, "Maximum RAM used for uncompressed rendered page data."@),
        ("render.compressed_memory_cache_max_bytes"@, "Maximum RAM used for compressed rendered page data."@),
        ("render.prepared_memory_cache_max_bytes"@, "Maximum RAM used for prepared page render data."@),
        ("render.search_highlight_cache_max_bytes"@, "Maximum RAM used for rendered search highlights."@),
        ("render.selection_cache_max_bytes"@, "Maximum disk space used for selection marker and crop PNGs."@),
        ("render.selection_image_max_pixels"@, "Maximum pixel count for the copied selection image."@),
        ("render.search_preload_idle_ms"@, "Delay after search text input before preloading search previews."@),
        ("render.max_concurrent"@, "Maximum number of page render jobs running concurrently."@),
        ("render.chafa_threads"@, "Threads requested per Chafa render job."@),
        ("render.preload_ahead"@, "Number of pages ahead of the current page to preload."@),
        ("render.preload_behind"@, "Number of pages behind the current page to keep preloaded."@),
        ("render.preload_slice_ahead"@, "Number of page slices ahead to prepare."@),
        ("render.preload_slice_behind"@, "Number of page slices behind to keep prepared."@),
        ("render.preload_terminal_ahead"@, "Number of terminal-ready pages ahead to prepare."@),
        ("render.preload_terminal_behind"@, "Number of terminal-ready pages behind to keep prepared."@),
        ("render.passthrough"@, "Optional Chafa passthrough mode, such as tmux."@),
        ("render.zellij_sixel"@, "Zellij SIXEL handling mode."@),
        ("behavior"@, "Interactive behavior settings."@),
        ("behavior.scroll_lines"@, "Rows moved by one wheel or scroll key step."@),
        ("behavior.frame_sync_navigation_viewer"@, "Keep the viewer frame synchronized while navigating."@),
        ("behavior.frame_sync_navigation_bookmarks"@, "Keep the bookmarks frame synchronized while navigating."@),
        ("behavior.frame_sync_navigation_search"@, "Keep the search frame synchronized while navigating."@),
        ("behavior.auto_refresh"@, "Automatically refresh the PDF when the file changes."@),
        ("behavior.auto_refresh_poll_ms"@, "Polling interval for detecting PDF file changes."@),
        ("behavior.auto_refresh_min_interval_ms"@, "Minimum delay between automatic refreshes."@),
        ("behavior.bookmarks_left_ratio"@, "Left pane width ratio in the bookmarks view."@),
        ("behavior.bookmarks_right_ratio"@, "Right pane width ratio in the bookmarks view."@),
        ("behavior.search_left_ratio"@, "Left pane width ratio in the search view."@),
        ("behavior.search_right_ratio"@, "Right pane width ratio in the search view."@),
    ]
}

/// The comment for configuration key `key` (`layout.presets.*` stands
/// for every preset), if it has one.
pub fn pdf_config_comment(key: &str) -> (comment: Option<&'static str>)
    ensures
        match comment {
            Some(c) => comment_for_spec(key@) == Some(c@),
            None => comment_for_spec(key@) is None,
        },
{
    let ghost table = config_comments();
    if str_eq(key, "layout") {
        proof { lemma_comment_at(key@, 0); }
        return Some("Layout defaults and the startup preset selection.");
    }
    proof { assert(table[0].0 != key@); }
    if str_eq(key, "layout.active") {
        proof { lemma_comment_at(key@, 1); }
        return Some("Layout preset selected on startup.");
    }
    proof { assert(table[1].0 != key@); }
    if str_eq(key, "layout.active_args") {
        proof { lemma_comment_at(key@, 2); }
        return Some("Arguments passed to the active layout preset, in the order declared by that preset's params.");
    }
    proof { assert(table[2].0 != key@); }
    if str_eq(key, "layout.gap_x") {
        proof { lemma_comment_at(key@, 3); }
        return Some("Default horizontal gap between rendered pages.");
    }
    proof { assert(table[3].0 != key@); }
    if str_eq(key, "layout.gap_y") {
        proof { lemma_comment_at(key@, 4); }
        return Some("Default vertical gap between rendered pages.");
    }
    proof { assert(table[4].0 != key@); }
    if str_eq(key, "layout.show_border") {
        proof { lemma_comment_at(key@, 5); }
        return Some("Draw borders around rendered pages by default.");
    }
    proof { assert(table[5].0 != key@); }
    if str_eq(key, "layout.padding") {
        proof { lemma_comment_at(key@, 6); }
        return Some("Default inner padding around rendered pages.");
    }
    proof { assert(table[6].0 != key@); }
    if str_eq(key, "layout.presets.*") {
        proof { lemma_comment_at(key@, 7); }
        return Some("Named layout preset used by the :layout command.");
    }
    proof { assert(table[7].0 != key@); }
    if str_eq(key, "layout.presets.*.strategy") {
        proof { lemma_comment_at(key@, 8); }
        return Some("Layout algorithm used by this preset: scroll or grid.");
    }
    proof { assert(table[8].0 != key@); }
    if str_eq(key, "layout.presets.*.params") {
        proof { lemma_comment_at(key@, 9); }
        return Some("Runtime arguments accepted by :layout for this preset.");
    }
    proof { assert(table[9].0 != key@); }
    if str_eq(key, "layout.presets.*.columns") {
        proof { lemma_comment_at(key@, 10); }
        return Some("Default number of page columns.");
    }
    proof { assert(table[10].0 != key@); }
    if str_eq(key, "layout.presets.*.rows") {
        proof { lemma_comment_at(key@, 11); }
        return Some("Default number of page rows for grid layouts.");
    }
    proof { assert(table[11].0 != key@); }
    if str_eq(key, "layout.presets.*.scroll_divisor") {
        proof { lemma_comment_at(key@, 12); }
        return Some("Scroll step divisor for continuous scrolling layouts.");
    }
    proof { assert(table[12].0 != key@); }
    if str_eq(key, "layout.presets.*.gap_x") {
        proof { lemma_comment_at(key@, 13); }
        return Some("Override the global horizontal page gap for this preset.");
    }
    proof { assert(table[13].0 != key@); }
    if str_eq(key, "layout.presets.*.gap_y") {
        proof { lemma_comment_at(key@, 14); }
        return Some("Override the global vertical page gap for this preset.");
    }
    proof { assert(table[14].0 != key@); }
    if str_eq(key, "layout.presets.*.show_border") {
        proof { lemma_comment_at(key@, 15); }
        return Some("Override whether this preset draws page borders.");
    }
    proof { assert(table[15].0 != key@); }
    if str_eq(key, "layout.presets.*.padding") {
        proof { lemma_comment_at(key@, 16); }
        return Some("Override the page padding for this preset.");
    }
    proof { assert(table[16].0 != key@); }
    if str_eq(key, "render") {
        proof { lemma_comment_at(key@, 17); }
        return Some("PDF conversion, terminal rendering, preloading, and cache settings.");
    }
    proof { assert(table[17].0 != key@); }
    if str_eq(key, "render.pdf_raster_backend") {
        proof { lemma_comment_at(key@, 18); }
        return Some("PDF page raster backend: poppler, mutool, or pdfium.");
    }
    proof { assert(table[18].0 != key@); }
    if str_eq(key, "render.pdf_raster_batch_pages") {
        proof { lemma_comment_at(key@, 19); }
        return Some("Number of PDF pages requested per raster batch.");
    }
    proof { assert(table[19].0 != key@); }
    if str_eq(key, "render.pdfinfo_bin") {
        proof { lemma_comment_at(key@, 20); }
        return Some("Command used to read PDF metadata.");
    }
    proof { assert(table[20].0 != key@); }
    if str_eq(key, "render.pdftoppm_bin") {
        proof { lemma_comment_at(key@, 21); }
        return Some("Command used for the poppler raster backend.");
    }
    proof { assert(table[21].0 != key@); }
    if str_eq(key, "render.mutool_bin") {
        proof { lemma_comment_at(key@, 22); }
        return Some("Command used for the mutool raster backend.");
    }
    proof { assert(table[22].0 != key@); }
    if str_eq(key, "render.mutool_band_height") {
        proof { lemma_comment_at(key@, 23); }
        return Some("Band height passed to mutool draw -B for threaded rendering.");
    }
    proof { assert(table[23].0 != key@); }
    if str_eq(key, "render.mutool_threads") {
        proof { lemma_comment_at(key@, 24); }
        return Some("Rendering threads passed to mutool draw -T.");
    }
    proof { assert(table[24].0 != key@); }
    if str_eq(key, "render.mutool_parallel") {
        proof { lemma_comment_at(key@, 25); }
        return Some("Enable mutool draw -P parallel interpretation/rendering.");
    }
    proof { assert(table[25].0 != key@); }
    if str_eq(key, "render.pdfium_library_path") {
        proof { lemma_comment_at(key@, 26); }
        return Some("Optional path to libpdfium or its containing directory.");
    }
    proof { assert(table[26].0 != key@); }
    if str_eq(key, "render.pdftk_bin") {
        proof { lemma_comment_at(key@, 27); }
        return Some("Command used for PDF toolkit operations when available.");
    }
    proof { assert(table[27].0 != key@); }
    if str_eq(key, "render.pdftotext_bin") {
        proof { lemma_comment_at(key@, 28); }
        return Some("Command used to extract searchable text from PDFs.");
    }
    proof { assert(table[28].0 != key@); }
    if str_eq(key, "render.page_dpi") {
        proof { lemma_comment_at(key@, 29); }
        return Some("DPI used when rasterizing PDF pages before terminal rendering.");
    }
    proof { assert(table[29].0 != key@); }
    if str_eq(key, "render.chafa_bin") {
        proof { lemma_comment_at(key@, 30); }
        return Some("Command used to render rasterized pages in the terminal.");
    }
    proof { assert(table[30].0 != key@); }
    if str_eq(key, "render.auto_detect") {
        proof { lemma_comment_at(key@, 31); }
        return Some("Detect terminal graphics capability and adjust Chafa arguments automatically.");
    }
    proof { assert(table[31].0 != key@); }
    if str_eq(key, "render.chafa_args") {
        proof { lemma_comment_at(key@, 32); }
        return Some("Extra arguments passed to Chafa after terminal auto-detection is applied.");
    }
    proof { assert(table[32].0 != key@); }
    if str_eq(key, "render.cache_max_bytes") {
        proof { lemma_comment_at(key@, 33); }
        return Some("Maximum disk space used for the render cache.");
    }
    proof { assert(table[33].0 != key@); }
    if str_eq(key, "render.cache_compression_level") {
        proof { lemma_comment_at(key@, 34); }
        return Some("Compression level used for cached render data.");
    }
    proof { assert(table[34].0 != key@); }
    if str_eq(key, "render.cache_compression_threads") {
        proof { lemma_comment_at(key@, 35); }
        return Some("Worker threads used when compressing cache entries.");
    }
    proof { assert(table[35].0 != key@); }
    if str_eq(key, "render.memory_compression") {
        proof { lemma_comment_at(key@, 36); }
        return Some("Compress rendered page data kept in memory.");
    }
    proof { assert(table[36].0 != key@); }
    if str_eq(key, "render.raw_memory_cache_max_bytes") {
        proof { lemma_comment_at(key@, 37); }
        return Some("Maximum RAM used for uncompressed rendered page data.");
    }
    proof { assert(table[37].0 != key@); }
    if str_eq(key, "render.compressed_memory_cache_max_bytes") {
        proof { lemma_comment_at(key@, 38); }
        return Some("Maximum RAM used for compressed rendered page data.");
    }
    proof { assert(table[38].0 != key@); }
    if str_eq(key, "render.prepared_memory_cache_max_bytes") {
        proof { lemma_comment_at(key@, 39); }
        return Some("Maximum RAM used for prepared page render data.");
    }
    proof { assert(table[39].0 != key@); }
    if str_eq(key, "render.search_highlight_cache_max_bytes") {
        proof { lemma_comment_at(key@, 40); }
        return Some("Maximum RAM used for rendered search highlights.");
    }
    proof { assert(table[40].0 != key@); }
    if str_eq(key, "render.selection_cache_max_bytes") {
        proof { lemma_comment_at(key@, 41); }
        return Some("Maximum disk space used for selection marker and crop PNGs.");
    }
    proof { assert(table[41].0 != key@); }
    if str_eq(key, "render.selection_image_max_pixels") {
        proof { lemma_comment_at(key@, 42); }
        return Some("Maximum pixel count for the copied selection image.");
    }
    proof { assert(table[42].0 != key@); }
    if str_eq(key, "render.search_preload_idle_ms") {
        proof { lemma_comment_at(key@, 43); }
        return Some("Delay after search text input before preloading search previews.");
    }
    proof { assert(table[43].0 != key@); }
    if str_eq(key, "render.max_concurrent") {
        proof { lemma_comment_at(key@, 44); }
        return Some("Maximum number of page render jobs running concurrently.");
    }
    proof { assert(table[44].0 != key@); }
    if str_eq(key, "render.chafa_threads") {
        proof { lemma_comment_at(key@, 45); }
        return Some("Threads requested per Chafa render job.");
    }
    proof { assert(table[45].0 != key@); }
    if str_eq(key, "render.preload_ahead") {
        proof { lemma_comment_at(key@, 46); }
        return Some("Number of pages ahead of the current page to preload.");
    }
    proof { assert(table[46].0 != key@); }
    if str_eq(key, "render.preload_behind") {
        proof { lemma_comment_at(key@, 47); }
        return Some("Number of pages behind the current page to keep preloaded.");
    }
    proof { assert(table[47].0 != key@); }
    if str_eq(key, "render.preload_slice_ahead") {
        proof { lemma_comment_at(key@, 48); }
        return Some("Number of page slices ahead to prepare.");
    }
    proof { assert(table[48].0 != key@); }
    if str_eq(key, "render.preload_slice_behind") {
        proof { lemma_comment_at(key@, 49); }
        return Some("Number of page slices behind to keep prepared.");
    }
    proof { assert(table[49].0 != key@); }
    if str_eq(key, "render.preload_terminal_ahead") {
        proof { lemma_comment_at(key@, 50); }
        return Some("Number of terminal-ready pages ahead to prepare.");
    }
    proof { assert(table[50].0 != key@); }
    if str_eq(key, "render.preload_terminal_behind") {
        proof { lemma_comment_at(key@, 51); }
        return Some("Number of terminal-ready pages behind to keep prepared.");
    }
    proof { assert(table[51].0 != key@); }
    if str_eq(key, "render.passthrough") {
        proof { lemma_comment_at(key@, 52); }
        return Some("Optional Chafa passthrough mode, such as tmux.");
    }
    proof { assert(table[52].0 != key@); }
    if str_eq(key, "render.zellij_sixel") {
        proof { lemma_comment_at(key@, 53); }
        return Some("Zellij SIXEL handling mode.");
    }
    proof { assert(table[53].0 != key@); }
    if str_eq(key, "behavior") {
        proof { lemma_comment_at(key@, 54); }
        return Some("Interactive behavior settings.");
    }
    proof { assert(table[54].0 != key@); }
    if str_eq(key, "behavior.scroll_lines") {
        proof { lemma_comment_at(key@, 55); }
        return Some("Rows moved by one wheel or scroll key step.");
    }
    proof { assert(table[55].0 != key@); }
    if str_eq(key, "behavior.frame_sync_navigation_viewer") {
        proof { lemma_comment_at(key@, 56); }
        return Some("Keep the viewer frame synchronized while navigating.");
    }
    proof { assert(table[56].0 != key@); }
    if str_eq(key, "behavior.frame_sync_navigation_bookmarks") {
        proof { lemma_comment_at(key@, 57); }
        return Some("Keep the bookmarks frame synchronized while navigating.");
    }
    proof { assert(table[57].0 != key@); }
    if str_eq(key, "behavior.frame_sync_navigation_search") {
        proof { lemma_comment_at(key@, 58); }
        return Some("Keep the search frame synchronized while navigating.");
    }
    proof { assert(table[58].0 != key@); }
    if str_eq(key, "behavior.auto_refresh") {
        proof { lemma_comment_at(key@, 59); }
        return Some("Automatically refresh the PDF when the file changes.");
    }
    proof { assert(table[59].0 != key@); }
    if str_eq(key, "behavior.auto_refresh_poll_ms") {
        proof { lemma_comment_at(key@, 60); }
        return Some("Polling interval for detecting PDF file changes.");
    }
    proof { assert(table[60].0 != key@); }
    if str_eq(key, "behavior.auto_refresh_min_interval_ms") {
        proof { lemma_comment_at(key@, 61); }
        return Some("Minimum delay between automatic refreshes.");
    }
    proof { assert(table[61].0 != key@); }
    if str_eq(key, "behavior.bookmarks_left_ratio") {
        proof { lemma_comment_at(key@, 62); }
        return Some("Left pane width ratio in the bookmarks view.");
    }
    proof { assert(table[62].0 != key@); }
    if str_eq(key, "behavior.bookmarks_right_ratio") {
        proof { lemma_comment_at(key@, 63); }
        return Some("Right pane width ratio in the bookmarks view.");
    }
    proof { assert(table[63].0 != key@); }
    if str_eq(key, "behavior.search_left_ratio") {
        proof { lemma_comment_at(key@, 64); }
        return Some("Left pane width ratio in the search view.");
    }
    proof { assert(table[64].0 != key@); }
    if str_eq(key, "behavior.search_right_ratio") {
        proof { lemma_comment_at(key@, 65); }
        return Some("Right pane width ratio in the search view.");
    }
    proof { assert(table[65].0 != key@); }
    proof {
        lemma_no_comment(key@);
    }
    None
}

pub open spec fn has_prefix(s: Seq<char>, prefix: Seq<char>) -> bool {
    prefix.len() <= s.len() && s.take(prefix.len() as int) == prefix
}

/// The table a `[table]` line opens (array-of-tables lines `[[...]]` open
/// none).
pub open spec fn table_header_spec(line: Seq<char>) -> Option<Seq<char>> {
    if has_prefix(line, "[["@) {
        None
    } else if line.len() >= 2 && line[0] == '[' && line.last() == ']' {
        Some(line.subrange(1, line.len() - 1))
    } else {
        None
    }
}

/// The key a `key = value` line sets.
pub open spec fn field_key_spec(line: Seq<char>) -> Option<Seq<char>> {
    if line.len() == 0 || line[0] == '#' || line[0] == '[' {
        None
    } else {
        match split_once_spec(line, '=') {
            None => None,
            Some((k, _)) => if trim_spec(k).len() == 0 {
                None
            } else {
                Some(trim_spec(k))
            },
        }
    }
}

/// The comment key of a table: every preset table shares one.
pub open spec fn table_comment_key(table: Seq<char>) -> Seq<char> {
    if has_prefix(table, "layout.presets."@) {
        "layout.presets.*"@
    } else {
        table
    }
}

/// The comment key of a field of `table`.
pub open spec fn field_comment_key(table: Seq<char>, key: Seq<char>) -> Seq<char> {
    if table.len() == 0 {
        key
    } else if has_prefix(table, "layout.presets."@) {
        "layout.presets.*."@ + key
    } else {
        table + seq!['.'] + key
    }
}

/// `# line` for each line of `comment`.
pub open spec fn comment_lines(lines: Seq<Seq<char>>) -> Seq<char>
    decreases lines.len(),
{
    if lines.len() == 0 {
        Seq::empty()
    } else {
        comment_lines(lines.drop_last()) + seq!['#', ' '] + lines.last() + seq!['\n']
    }
}

pub open spec fn comment_text(comment: Seq<char>) -> Seq<char> {
    comment_lines(lines_spec(comment))
}

/// The text written so far, the comment keys already commented (or
/// without a comment), and the current table.
pub type CommentState = (Seq<char>, Seq<Seq<char>>, Seq<char>);

/// The comment for comment key `ck` unless it was handled before.
pub open spec fn comment_once(state: CommentState, ck: Seq<char>, table: Seq<char>) -> CommentState {
    let (out, seen, _) = state;
    if seen.contains(ck) {
        (out, seen, table)
    } else {
        (
            out + match comment_for_spec(ck) {
                Some(c) => comment_text(c),
                None => Seq::empty(),
            },
            seen.push(ck),
            table,
        )
    }
}

/// One line of the serialized configuration, with the comment for its
/// table or key before it the first time that comment key comes up.
pub open spec fn comment_step(state: CommentState, line: Seq<char>) -> CommentState {
    let trimmed = trim_spec(line);
    let commented = match table_header_spec(trimmed) {
        Some(h) => comment_once(state, table_comment_key(h), h),
        None => match field_key_spec(trimmed) {
            Some(k) => comment_once(state, field_comment_key(state.2, k), state.2),
            None => state,
        },
    };
    (commented.0 + line + seq!['\n'], commented.1, commented.2)
}

pub open spec fn comment_scan(lines: Seq<Seq<char>>, start: CommentState, k: int) -> CommentState
    decreases k,
{
    if k <= 0 {
        start
    } else {
        comment_step(comment_scan(lines, start, k - 1), lines[k - 1])
    }
}

/// Header lines as comments.
pub open spec fn header_comments(header: Seq<Seq<char>>) -> Seq<char>
    decreases header.len(),
{
    if header.len() == 0 {
        Seq::empty()
    } else {
        header_comments(header.drop_last()) + comment_text(header.last())
    }
}

/// The serialized configuration `body` with the header comments, a blank
/// line, and the comment for each table and key the first time it comes
/// up.
pub open spec fn commented_config_spec(body: Seq<char>, header: Seq<Seq<char>>) -> Seq<char> {
    let ls = lines_spec(body);
    comment_scan(ls, (header_comments(header) + seq!['\n'], Seq::empty(), Seq::empty()), ls.len() as int).0
}

fn push_toml_comment(out: &mut Vec<char>, comment: &str)
    ensures
        final(out)@ == old(out)@ + comment_text(comment@),
{
    let ls = lines(comment);
    let ghost all = lines_spec(comment@);
    let ghost start = out@;
    let mut i: usize = 0;
    proof {
        assert(all.take(0) =~= Seq::<Seq<char>>::empty());
        assert(out@ =~= start + comment_lines(all.take(0)));
    }
    while i < ls.len()
        invariant
            ls@.len() == all.len(),
            forall|j: int| 0 <= j < ls@.len() ==> #[trigger] ls@[j]@ == all[j],
            i <= ls@.len(),
            out@ == start + comment_lines(all.take(i as int)),
        decreases ls@.len() - i,
    {
        out.push('#');
        out.push(' ');
        extend_chars(out, &ls[i]);
        out.push('\n');
        proof {
            assert(all.take(i + 1).drop_last() =~= all.take(i as int));
            assert(all.take(i + 1).last() == ls@[i as int]@);
            assert(out@ =~= start + comment_lines(all.take(i + 1)));
        }
        i += 1;
    }
    proof {
        assert(all.take(i as int) =~= all);
    }
}

fn table_header(line: &Vec<char>) -> (header: Option<Vec<char>>)
    ensures
        match header {
            Some(h) => table_header_spec(line@) == Some(h@),
            None => table_header_spec(line@) is None,
        },
{
    if starts_with(line, "[[") {
        return None;
    }
    if line.len() >= 2 && line[0] == '[' && line[line.len() - 1] == ']' {
        let h = slice_chars(line, 1, line.len() - 1);
        return Some(h);
    }
    None
}

fn field_key(line: &Vec<char>) -> (key: Option<Vec<char>>)
    ensures
        match key {
            Some(k) => field_key_spec(line@) == Some(k@),
            None => field_key_spec(line@) is None,
        },
{
    if line.len() == 0 || line[0] == '#' || line[0] == '[' {
        return None;
    }
    match split_once(line, '=') {
        None => None,
        Some((k, _)) => {
            let key = trim(&k);
            if key.len() == 0 {
                None
            } else {
                Some(key)
            }
        },
    }
}

fn table_comment_key_exec(table: &Vec<char>) -> (ck: Vec<char>)
    ensures
        ck@ == table_comment_key(table@),
{
    if starts_with(table, "layout.presets.") {
        chars_of("layout.presets.*")
    } else {
        slice_chars(table, 0, table.len())
    }
}

fn field_comment_key_exec(table: &Vec<char>, key: &Vec<char>) -> (ck: Vec<char>)
    ensures
        ck@ == field_comment_key(table@, key@),
{
    if table.len() == 0 {
        slice_chars(key, 0, key.len())
    } else if starts_with(table, "layout.presets.") {
        let mut ck = chars_of("layout.presets.*.");
        extend_chars(&mut ck, key);
        ck
    } else {
        let mut ck = slice_chars(table, 0, table.len());
        ck.push('.');
        extend_chars(&mut ck, key);
        proof {
            assert(ck@ =~= table@ + seq!['.'] + key@);
        }
        ck
    }
}

fn same_chars(a: &Vec<char>, b: &Vec<char>) -> (same: bool)
    ensures
        same == (a@ == b@),
{
    if a.len() != b.len() {
        return false;
    }
    let mut i: usize = 0;
    while i < a.len()
        invariant
            i <= a@.len() == b@.len(),
            forall|j: int| 0 <= j < i ==> a@[j] == b@[j],
        decreases a@.len() - i,
    {
        if a[i] != b[i] {
            return false;
        }
        i += 1;
    }
    proof {
        assert(a@ =~= b@);
    }
    true
}

fn contains_chars(list: &Vec<Vec<char>>, x: &Vec<char>) -> (found: bool)
    ensures
        found == list@.map_values(|v: Vec<char>| v@).contains(x@),
{
    let ghost views = list@.map_values(|v: Vec<char>| v@);
    let mut i: usize = 0;
    while i < list.len()
        invariant
            i <= list@.len(),
            views == list@.map_values(|v: Vec<char>| v@),
            forall|j: int| 0 <= j < i ==> views[j] != x@,
        decreases list@.len() - i,
    {
        if same_chars(&list[i], x) {
            proof {
                assert(views[i as int] == x@);
            }
            return true;
        }
        i += 1;
    }
    false
}

fn comment_once_exec(out: &mut Vec<char>, seen: &mut Vec<Vec<char>>, ck: Vec<char>)
    ensures
        ({
            let st = comment_once(
                (old(out)@, old(seen)@.map_values(|v: Vec<char>| v@), Seq::empty()),
                ck@,
                Seq::empty(),
            );
            final(out)@ == st.0 && final(seen)@.map_values(|v: Vec<char>| v@) == st.1
        }),
{
    if contains_chars(seen, &ck) {
        return;
    }
    let key = string_of(&ck);
    match pdf_config_comment(key.as_str()) {
        Some(c) => push_toml_comment(out, c),
        None => {
            proof {
                assert(out@ =~= out@ + Seq::<char>::empty());
            }
        },
    }
    let ghost before = seen@;
    let ghost ck_view = ck@;
    seen.push(ck);
    proof {
        assert(seen@.map_values(|v: Vec<char>| v@) =~= before.map_values(|v: Vec<char>| v@).push(
            ck_view,
        ));
    }
}

/// The serialized main configuration with comments: the header lines,
/// a blank line, then each line of `body`, preceded the first time by the
/// comment for its table or key.
pub fn add_app_config_comments(body: &str, header: &[&str]) -> (commented: String)
    ensures
        commented@ == commented_config_spec(body@, header@.map_values(|h: &str| h@)),
{
    let ghost hs = header@.map_values(|h: &str| h@);
    let mut out: Vec<char> = Vec::new();
    let mut h: usize = 0;
    proof {
        assert(hs.take(0) =~= Seq::<Seq<char>>::empty());
        assert(out@ =~= header_comments(hs.take(0)));
    }
    while h < header.len()
        invariant
            h <= header@.len(),
            hs == header@.map_values(|h: &str| h@),
            out@ == header_comments(hs.take(h as int)),
        decreases header@.len() - h,
    {
        push_toml_comment(&mut out, header[h]);
        proof {
            assert(hs.take(h + 1).drop_last() =~= hs.take(h as int));
            assert(hs.take(h + 1).last() == header@[h as int]@);
        }
        h += 1;
    }
    proof {
        assert(hs.take(h as int) =~= hs);
    }
    out.push('\n');
    proof {
        assert(out@ =~= header_comments(hs) + seq!['\n']);
    }
    let ghost start: CommentState = (out@, Seq::empty(), Seq::empty());
    let ls = lines(body);
    let ghost all = lines_spec(body@);
    let mut seen: Vec<Vec<char>> = Vec::new();
    let mut table: Vec<char> = Vec::new();
    let mut k: usize = 0;
    proof {
        assert(seen@.map_values(|v: Vec<char>| v@) =~= Seq::<Seq<char>>::empty());
        assert(table@ =~= Seq::<char>::empty());
    }
    while k < ls.len()
        invariant
            ls@.len() == all.len(),
            forall|j: int| 0 <= j < ls@.len() ==> #[trigger] ls@[j]@ == all[j],
            k <= ls@.len(),
            comment_scan(all, start, k as int) == (
                out@,
                seen@.map_values(|v: Vec<char>| v@),
                table@,
            ),
        decreases ls@.len() - k,
    {
        let line = &ls[k];
        proof {
            assert(line@ == all[k as int]);
        }
        let trimmed = trim(line);
        match table_header(&trimmed) {
            Some(hdr) => {
                let ck = table_comment_key_exec(&hdr);
                comment_once_exec(&mut out, &mut seen, ck);
                table = hdr;
            },
            None => match field_key(&trimmed) {
                Some(key) => {
                    let ck = field_comment_key_exec(&table, &key);
                    comment_once_exec(&mut out, &mut seen, ck);
                },
                None => {},
            },
        }
        extend_chars(&mut out, line);
        out.push('\n');
        proof {
            assert(comment_scan(all, start, k + 1).0 =~= out@);
        }
        k += 1;
    }
    proof {
        assert(start == (header_comments(hs) + seq!['\n'], Seq::<Seq<char>>::empty(), Seq::<char>::empty()));
        assert(comment_scan(all, start, all.len() as int).0 == out@);
    }
    string_of(&out)
}

/// The name of the backup of an incompatible config file `file_name`, for
/// the `index`-th try at time `stamp` (seconds since the Unix epoch):
/// `NAME.bak.STAMP`, then `NAME.bak.STAMP.INDEX`.
pub open spec fn backup_name_spec(file_name: Seq<char>, stamp: u64, index: usize) -> Seq<char> {
    if index == 0 {
        file_name + ".bak."@ + crate::text::decimal_spec(stamp as nat)
    } else {
        file_name + ".bak."@ + crate::text::decimal_spec(stamp as nat) + "."@
            + crate::text::decimal_spec(index as nat)
    }
}

/// The backup name for the `index`-th try (see `backup_name_spec`).
pub fn backup_file_name(file_name: &str, stamp: u64, index: usize) -> (name: String)
    requires
        index <= u64::MAX,
    ensures
        name@ == backup_name_spec(file_name@, stamp, index),
{
    let mut out: Vec<char> = Vec::new();
    crate::text::extend_str(&mut out, file_name);
    crate::text::extend_str(&mut out, ".bak.");
    crate::text::push_decimal(&mut out, stamp);
    if index != 0 {
        crate::text::extend_str(&mut out, ".");
        crate::text::push_decimal(&mut out, index as u64);
    }
    crate::text::string_of(&out)
}

/// The backup name used when every numbered try is taken.
pub fn overflow_backup_name(file_name: &str, stamp: u64) -> (name: String)
    ensures
        name@ == file_name@ + ".bak."@ + crate::text::decimal_spec(stamp as nat) + ".overflow"@,
{
    let mut out: Vec<char> = Vec::new();
    crate::text::extend_str(&mut out, file_name);
    crate::text::extend_str(&mut out, ".bak.");
    crate::text::push_decimal(&mut out, stamp);
    crate::text::extend_str(&mut out, ".overflow");
    crate::text::string_of(&out)
}

} // verus!
