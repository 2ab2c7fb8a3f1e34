//! Rendering settings: the PDF rasterizer and its tools, the terminal
//! image converter, cache and memory budgets, and how far ahead pages are
//! prepared.

use vstd::prelude::*;

use crate::config::behavior::at_least;
use crate::text::{chars_of, starts_with};

verus! {

#[derive(Debug, Clone, Copy, PartialEq, Eq)]
pub enum PdfRasterBackend {
    Poppler,
    Mutool,
    Pdfium,
}

impl PdfRasterBackend {
    /// The name the configuration uses for the backend.
    pub fn label(self) -> (label: &'static str)
        ensures
            label@ == match self {
                PdfRasterBackend::Poppler => "poppler"@,
                PdfRasterBackend::Mutool => "mutool"@,
                PdfRasterBackend::Pdfium => "pdfium"@,
            },
    {
        match self {
            PdfRasterBackend::Poppler => "poppler",
            PdfRasterBackend::Mutool => "mutool",
            PdfRasterBackend::Pdfium => "pdfium",
        }
    }
}

#[derive(Debug, Clone)]
pub struct RenderConfig {
    pub pdf_raster_backend: PdfRasterBackend,
    pub pdf_raster_batch_pages: usize,
    pub pdfinfo_bin: String,
    pub pdftoppm_bin: String,
    pub mutool_bin: String,
    pub mutool_band_height: u32,
    pub mutool_threads: usize,
    pub mutool_parallel: bool,
    pub pdfium_library_path: Option<String>,
    pub pdftk_bin: String,
    pub pdftotext_bin: String,
    pub page_dpi: u16,
    pub chafa_bin: String,
    pub auto_detect: bool,
    pub chafa_args: Vec<String>,
    pub cache_max_bytes: u64,
    pub cache_compression_level: i32,
    pub cache_compression_threads: u32,
    pub memory_compression: bool,
    pub raw_memory_cache_max_bytes: u64,
    pub compressed_memory_cache_max_bytes: u64,
    pub prepared_memory_cache_max_bytes: u64,
    pub search_highlight_cache_max_bytes: u64,
    pub selection_cache_max_bytes: u64,
    pub selection_image_max_pixels: u64,
    pub search_preload_idle_ms: u64,
    pub max_concurrent: usize,
    pub chafa_threads: usize,
    pub preload_ahead: usize,
    pub preload_behind: usize,
    pub preload_slice_ahead: usize,
    pub preload_slice_behind: usize,
    pub preload_terminal_ahead: usize,
    pub preload_terminal_behind: usize,
    pub passthrough: Option<String>,
    pub zellij_sixel: String,
}

fn owned(text: &str) -> (out: String)
    ensures
        out@ == text@,
{
    text.to_owned()
}

pub open spec fn strings_view(v: Seq<String>) -> Seq<Seq<char>> {
    v.map_values(|s: String| s@)
}

/// The converter arguments used unless the terminal says otherwise.
pub open spec fn default_chafa_args() -> Seq<Seq<char>> {
    seq![
        "--format=symbols"@,
        "--colors=full"@,
        "--symbols=block"@,
        "--animate=off"@,
        "--polite=on"@,
    ]
}

impl Default for RenderConfig {
    fn default() -> (config: Self)
        ensures
            config.pdf_raster_backend == PdfRasterBackend::Pdfium,
            config.pdf_raster_batch_pages == 4,
            config.pdfinfo_bin@ == "pdfinfo"@,
            config.pdftoppm_bin@ == "pdftoppm"@,
            config.mutool_bin@ == "mutool"@,
            config.mutool_band_height == 256,
            config.mutool_threads == 8,
            config.mutool_parallel,
            config.pdfium_library_path is None,
            config.pdftk_bin@ == "pdftk"@,
            config.pdftotext_bin@ == "pdftotext"@,
            config.page_dpi == 180,
            config.chafa_bin@ == "chafa"@,
            config.auto_detect,
            strings_view(config.chafa_args@) == default_chafa_args(),
            config.cache_max_bytes == 512 * 1024 * 1024,
            config.cache_compression_level == 3,
            config.cache_compression_threads == 2,
            config.memory_compression,
            config.raw_memory_cache_max_bytes == 32 * 1024 * 1024,
            config.compressed_memory_cache_max_bytes == 128 * 1024 * 1024,
            config.prepared_memory_cache_max_bytes == 128 * 1024 * 1024,
            config.search_highlight_cache_max_bytes == 64 * 1024 * 1024,
            config.selection_cache_max_bytes == 64 * 1024 * 1024,
            config.selection_image_max_pixels == 4 * 1024 * 1024,
            config.search_preload_idle_ms == 500,
            config.max_concurrent == 4,
            config.chafa_threads == 1,
            config.preload_ahead == 4,
            config.preload_behind == 2,
            config.preload_slice_ahead == 3,
            config.preload_slice_behind == 1,
            config.preload_terminal_ahead == 2,
            config.preload_terminal_behind == 1,
            config.passthrough is None,
            config.zellij_sixel@ == "off"@,
    {
        let mut chafa_args: Vec<String> = Vec::new();
        chafa_args.push(owned("--format=symbols"));
        chafa_args.push(owned("--colors=full"));
        chafa_args.push(owned("--symbols=block"));
        chafa_args.push(owned("--animate=off"));
        chafa_args.push(owned("--polite=on"));
        proof {
            assert(strings_view(chafa_args@) =~= default_chafa_args());
        }
        RenderConfig {
            pdf_raster_backend: PdfRasterBackend::Pdfium,
            pdf_raster_batch_pages: 4,
            pdfinfo_bin: owned("pdfinfo"),
            pdftoppm_bin: owned("pdftoppm"),
            mutool_bin: owned("mutool"),
            mutool_band_height: 256,
            mutool_threads: 8,
            mutool_parallel: true,
            pdfium_library_path: None,
            pdftk_bin: owned("pdftk"),
            pdftotext_bin: owned("pdftotext"),
            page_dpi: 180,
            chafa_bin: owned("chafa"),
            auto_detect: true,
            chafa_args,
            cache_max_bytes: 512 * 1024 * 1024,
            cache_compression_level: 3,
            cache_compression_threads: 2,
            memory_compression: true,
            raw_memory_cache_max_bytes: 32 * 1024 * 1024,
            compressed_memory_cache_max_bytes: 128 * 1024 * 1024,
            prepared_memory_cache_max_bytes: 128 * 1024 * 1024,
            search_highlight_cache_max_bytes: 64 * 1024 * 1024,
            selection_cache_max_bytes: 64 * 1024 * 1024,
            selection_image_max_pixels: 4 * 1024 * 1024,
            search_preload_idle_ms: 500,
            max_concurrent: 4,
            chafa_threads: 1,
            preload_ahead: 4,
            preload_behind: 2,
            preload_slice_ahead: 3,
            preload_slice_behind: 1,
            preload_terminal_ahead: 2,
            preload_terminal_behind: 1,
            passthrough: None,
            zellij_sixel: owned("off"),
        }
    }
}

pub open spec fn starts_with_spec(s: Seq<char>, prefix: Seq<char>) -> bool {
    prefix.len() <= s.len() && s.take(prefix.len() as int) == prefix
}

/// Whether a converter argument chooses the output format, colors,
/// symbols or passthrough, which the terminal decides.
pub open spec fn terminal_decided(arg: Seq<char>) -> bool {
    starts_with_spec(arg, "--format="@) || starts_with_spec(arg, "--colors="@) || starts_with_spec(
        arg,
        "--symbols="@,
    ) || starts_with_spec(arg, "--passthrough="@)
}

/// The arguments the terminal does not decide, in order.
pub open spec fn kept_args(args: Seq<Seq<char>>) -> Seq<Seq<char>>
    decreases args.len(),
{
    if args.len() == 0 {
        Seq::empty()
    } else if terminal_decided(args.last()) {
        kept_args(args.drop_last())
    } else {
        kept_args(args.drop_last()).push(args.last())
    }
}

impl RenderConfig {
    /// Uses what the terminal supports: the converter's color and symbol
    /// arguments come first and replace any format, color, symbol or
    /// passthrough argument; the passthrough is the terminal's.
    pub fn apply_terminal_capability(
        &mut self,
        colors_arg: &str,
        symbols_arg: &str,
        passthrough: Option<&str>,
    )
        ensures
            strings_view(final(self).chafa_args@) == seq![colors_arg@, symbols_arg@] + kept_args(
                strings_view(old(self).chafa_args@),
            ),
            match passthrough {
                Some(p) => final(self).passthrough matches Some(q) && q@ == p@,
                None => final(self).passthrough is None,
            },
            final(self).page_dpi == old(self).page_dpi,
            final(self).max_concurrent == old(self).max_concurrent,
    {
        let ghost original = strings_view(self.chafa_args@);
        let mut kept: Vec<String> = Vec::new();
        let mut rest: Vec<String> = Vec::new();
        std::mem::swap(&mut rest, &mut self.chafa_args);
        let ghost all = strings_view(rest@);
        let mut taken: usize = 0;
        let total = rest.len();
        proof {
            assert(all.take(0) =~= Seq::<Seq<char>>::empty());
            assert(strings_view(kept@) =~= Seq::<Seq<char>>::empty());
        }
        while rest.len() > 0
            invariant
                taken + rest@.len() == all.len(),
                all.len() == total,
                strings_view(rest@) == all.skip(taken as int),
                strings_view(kept@) == kept_args(all.take(taken as int)),
            decreases rest@.len(),
        {
            let ghost before = rest@;
            let arg = rest.remove(0);
            proof {
                assert(strings_view(before)[0] == arg@);
                assert(strings_view(rest@) =~= strings_view(before).drop_first());
                assert(all.skip(taken as int).drop_first() =~= all.skip(taken + 1));
                assert(all.take(taken + 1).drop_last() =~= all.take(taken as int));
                assert(all.take(taken + 1).last() == arg@);
            }
            let cs = chars_of(arg.as_str());
            let decided = starts_with(&cs, "--format=") || starts_with(&cs, "--colors=")
                || starts_with(&cs, "--symbols=") || starts_with(&cs, "--passthrough=");
            if !decided {
                let ghost prior = kept@;
                kept.push(arg);
                proof {
                    assert(strings_view(kept@) =~= strings_view(prior).push(arg@));
                }
            }
            taken += 1;
        }
        proof {
            assert(all.take(taken as int) =~= all);
        }
        let ghost kept_view = strings_view(kept@);
        kept.insert(0, owned(symbols_arg));
        kept.insert(0, owned(colors_arg));
        proof {
            assert(strings_view(kept@) =~= seq![colors_arg@, symbols_arg@] + kept_view);
        }
        self.chafa_args = kept;
        self.passthrough = match passthrough {
            Some(p) => Some(owned(p)),
            None => None,
        };
    }

    /// Raises settings below their minimum: at least 36 dpi, and at least
    /// one job, page per batch, band row, thread, byte and pixel.
    pub fn normalize_defaults(&mut self)
        ensures
            final(self).page_dpi == at_least(old(self).page_dpi as int, 36),
            final(self).max_concurrent == at_least(old(self).max_concurrent as int, 1),
            final(self).pdf_raster_batch_pages == at_least(old(self).pdf_raster_batch_pages as int, 1),
            final(self).mutool_band_height == at_least(old(self).mutool_band_height as int, 1),
            final(self).mutool_threads == at_least(old(self).mutool_threads as int, 1),
            final(self).raw_memory_cache_max_bytes == at_least(
                old(self).raw_memory_cache_max_bytes as int,
                1,
            ),
            final(self).compressed_memory_cache_max_bytes == at_least(
                old(self).compressed_memory_cache_max_bytes as int,
                1,
            ),
            final(self).prepared_memory_cache_max_bytes == at_least(
                old(self).prepared_memory_cache_max_bytes as int,
                1,
            ),
            final(self).search_highlight_cache_max_bytes == at_least(
                old(self).search_highlight_cache_max_bytes as int,
                1,
            ),
            final(self).selection_cache_max_bytes == at_least(
                old(self).selection_cache_max_bytes as int,
                1,
            ),
            final(self).selection_image_max_pixels == at_least(
                old(self).selection_image_max_pixels as int,
                1,
            ),
            final(self).cache_max_bytes == old(self).cache_max_bytes,
            final(self).chafa_args == old(self).chafa_args,
    {
        if self.page_dpi < 36 {
            self.page_dpi = 36;
        }
        if self.max_concurrent < 1 {
            self.max_concurrent = 1;
        }
        if self.pdf_raster_batch_pages < 1 {
            self.pdf_raster_batch_pages = 1;
        }
        if self.mutool_band_height < 1 {
            self.mutool_band_height = 1;
        }
        if self.mutool_threads < 1 {
            self.mutool_threads = 1;
        }
        if self.raw_memory_cache_max_bytes < 1 {
            self.raw_memory_cache_max_bytes = 1;
        }
        if self.compressed_memory_cache_max_bytes < 1 {
            self.compressed_memory_cache_max_bytes = 1;
        }
        if self.prepared_memory_cache_max_bytes < 1 {
            self.prepared_memory_cache_max_bytes = 1;
        }
        if self.search_highlight_cache_max_bytes < 1 {
            self.search_highlight_cache_max_bytes = 1;
        }
        if self.selection_cache_max_bytes < 1 {
            self.selection_cache_max_bytes = 1;
        }
        if self.selection_image_max_pixels < 1 {
            self.selection_image_max_pixels = 1;
        }
    }
}

} // verus!
