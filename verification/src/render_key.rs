//! Names of terminal renders: the key a rendered page is cached under, the
//! kitty image and placement ids it is shown with, and the fingerprint of
//! rendered bytes. Each is derived from SHA-256 over the page's identity
//! and everything that changes what the terminal is sent.

use vstd::prelude::*;

use crate::config::render::RenderConfig;
use crate::pdf::{hex_encode, hex_lower, le_bytes, push_bytes, push_le_bytes, sha256, sha256_spec, PageImage};
use crate::render_cache::{le_value, read_le_u64};

verus! {

/// The terminal image settings that change a render.
#[derive(Debug, Clone)]
pub struct NativeImageSettings {
    /// Pixels of one terminal cell, when known.
    pub cell_pixels: Option<(u16, u16)>,
    /// The multiplexer passthrough in use, if any.
    pub passthrough: Option<String>,
    pub kitty_unicode_placeholders: bool,
}

/// The bytes of `usize::to_le_bytes`.
pub open spec fn usize_bytes() -> nat {
    (usize::BITS / 8) as nat
}

/// A text's UTF-8 bytes.
pub open spec fn utf8(s: Seq<char>) -> Seq<u8> {
    vstd::utf8::encode_utf8(s)
}

/// The UTF-8 bytes of an optional text (none when absent).
pub open spec fn optional_utf8(o: Option<Seq<char>>) -> Seq<u8> {
    match o {
        Some(s) => utf8(s),
        None => Seq::empty(),
    }
}

pub open spec fn optional_view(o: Option<String>) -> Option<Seq<char>> {
    match o {
        Some(s) => Some(s@),
        None => None,
    }
}

/// Each argument's UTF-8 bytes followed by a zero byte.
pub open spec fn args_bytes(args: Seq<Seq<char>>) -> Seq<u8>
    decreases args.len(),
{
    if args.len() == 0 {
        Seq::empty()
    } else {
        args_bytes(args.drop_last()) + utf8(args.last()) + seq![0u8]
    }
}

pub open spec fn args_of(config: RenderConfig) -> Seq<Seq<char>> {
    config.chafa_args@.map_values(|a: String| a@)
}

/// The page's identity and the render size.
pub open spec fn page_render_bytes(path_bytes: Seq<u8>, page: PageImage, width: u16, height: u16) -> Seq<u8> {
    path_bytes + le_bytes(page.page_index as nat, usize_bytes()) + le_bytes(page.size_bytes as nat, 8)
        + le_bytes(page.modified_nanos as nat, 16) + le_bytes(width as nat, 2) + le_bytes(height as nat, 2)
}

/// The render settings: the chafa binary, its threads, the passthrough and
/// the chafa arguments.
pub open spec fn render_config_bytes(config: RenderConfig) -> Seq<u8> {
    utf8("render-v3"@) + utf8(config.chafa_bin@) + seq![0u8] + le_bytes(config.chafa_threads as nat, usize_bytes())
        + optional_utf8(optional_view(config.passthrough)) + seq![0u8] + args_bytes(args_of(config))
}

/// The terminal image settings: the cell size (zero when unknown), the
/// passthrough and whether unicode placeholders are used.
pub open spec fn native_settings_bytes(native: NativeImageSettings) -> Seq<u8> {
    let (cw, ch) = match native.cell_pixels {
        Some(c) => c,
        None => (0u16, 0u16),
    };
    le_bytes(cw as nat, 2) + le_bytes(ch as nat, 2) + seq![0u8] + optional_utf8(optional_view(native.passthrough))
        + seq![0u8] + seq![if native.kitty_unicode_placeholders { 1u8 } else { 0u8 }] + seq![0u8]
}

/// What the render cache key hashes: a versioned tag, the page identity
/// and size, the fit kind, the mode's label, the render settings, the
/// terminal image settings and the chafa arguments once more.
pub open spec fn render_key_bytes(
    path_bytes: Seq<u8>,
    page: PageImage,
    width: u16,
    height: u16,
    mode: Seq<char>,
    config: RenderConfig,
    native: NativeImageSettings,
) -> Seq<u8> {
    utf8("pdf-tui-render-cache-key-v4"@) + page_render_bytes(path_bytes, page, width, height) + utf8("fit"@)
        + utf8(mode) + seq![0u8] + render_config_bytes(config) + native_settings_bytes(native) + args_bytes(
        args_of(config),
    )
}

fn push_str_bytes(out: &mut Vec<u8>, s: &str)
    ensures
        final(out)@ == old(out)@ + utf8(s@),
{
    push_bytes(out, s.as_bytes());
}

fn push_args(out: &mut Vec<u8>, args: &Vec<String>)
    ensures
        final(out)@ == old(out)@ + args_bytes(args@.map_values(|a: String| a@)),
{
    let ghost start = out@;
    let ghost all = args@.map_values(|a: String| a@);
    let mut i: usize = 0;
    proof {
        assert(all.take(0) =~= Seq::<Seq<char>>::empty());
        assert(out@ =~= start + args_bytes(all.take(0)));
    }
    while i < args.len()
        invariant
            i <= args@.len(),
            all == args@.map_values(|a: String| a@),
            out@ == start + args_bytes(all.take(i as int)),
        decreases args@.len() - i,
    {
        push_str_bytes(out, args[i].as_str());
        out.push(0u8);
        proof {
            assert(all.take(i + 1).drop_last() =~= all.take(i as int));
            assert(all.take(i + 1).last() == args@[i as int]@);
            assert(out@ =~= start + args_bytes(all.take(i + 1)));
        }
        i += 1;
    }
    proof {
        assert(all.take(i as int) =~= all);
    }
}

fn push_optional(out: &mut Vec<u8>, o: &Option<String>)
    ensures
        final(out)@ == old(out)@ + optional_utf8(optional_view(*o)),
{
    match o {
        Some(s) => push_str_bytes(out, s.as_str()),
        None => {
            proof {
                assert(out@ =~= old(out)@ + optional_utf8(optional_view(*o)));
            }
        },
    }
}

fn push_page_render(out: &mut Vec<u8>, path_bytes: &[u8], page: &PageImage, width: u16, height: u16)
    ensures
        final(out)@ == old(out)@ + page_render_bytes(path_bytes@, *page, width, height),
{
    let ghost start = out@;
    push_bytes(out, path_bytes);
    push_le_bytes(out, page.page_index as u128, (usize::BITS / 8) as usize);
    push_le_bytes(out, page.size_bytes as u128, 8);
    push_le_bytes(out, page.modified_nanos, 16);
    push_le_bytes(out, width as u128, 2);
    push_le_bytes(out, height as u128, 2);
    proof {
        assert(out@ =~= start + page_render_bytes(path_bytes@, *page, width, height));
    }
}

fn push_render_config(out: &mut Vec<u8>, config: &RenderConfig)
    ensures
        final(out)@ == old(out)@ + render_config_bytes(*config),
{
    let ghost start = out@;
    push_str_bytes(out, "render-v3");
    push_str_bytes(out, config.chafa_bin.as_str());
    out.push(0u8);
    push_le_bytes(out, config.chafa_threads as u128, (usize::BITS / 8) as usize);
    push_optional(out, &config.passthrough);
    out.push(0u8);
    push_args(out, &config.chafa_args);
    proof {
        assert(out@ =~= start + render_config_bytes(*config));
    }
}

fn push_native_settings(out: &mut Vec<u8>, native: &NativeImageSettings)
    ensures
        final(out)@ == old(out)@ + native_settings_bytes(*native),
{
    let ghost start = out@;
    let (cw, ch) = match native.cell_pixels {
        Some(c) => c,
        None => (0u16, 0u16),
    };
    push_le_bytes(out, cw as u128, 2);
    push_le_bytes(out, ch as u128, 2);
    out.push(0u8);
    push_optional(out, &native.passthrough);
    out.push(0u8);
    out.push(if native.kitty_unicode_placeholders { 1u8 } else { 0u8 });
    out.push(0u8);
    proof {
        assert(out@ =~= start + native_settings_bytes(*native));
    }
}

/// The key a terminal render of `page` (whose path, as UTF-8 with invalid
/// sequences replaced, is `path_bytes`) at `width` x `height` cells in the
/// mode labelled `mode` is cached under: SHA-256 over `render_key_bytes`,
/// in lowercase hexadecimal.
pub fn render_cache_key(
    path_bytes: &[u8],
    page: &PageImage,
    width: u16,
    height: u16,
    mode: &str,
    config: &RenderConfig,
    native: &NativeImageSettings,
) -> (key: String)
    ensures
        key@ == hex_lower(sha256_spec(render_key_bytes(path_bytes@, *page, width, height, mode@, *config, *native))),
{
    let mut data: Vec<u8> = Vec::new();
    push_str_bytes(&mut data, "pdf-tui-render-cache-key-v4");
    push_page_render(&mut data, path_bytes, page, width, height);
    push_str_bytes(&mut data, "fit");
    push_str_bytes(&mut data, mode);
    data.push(0u8);
    push_render_config(&mut data, config);
    push_native_settings(&mut data, native);
    push_args(&mut data, &config.chafa_args);
    proof {
        assert(data@ =~= render_key_bytes(path_bytes@, *page, width, height, mode@, *config, *native));
    }
    hex_encode(&sha256(&data))
}

/// What the kitty image id hashes: a versioned tag, the page identity and
/// size, and the mode's label.
pub open spec fn kitty_id_bytes(path_bytes: Seq<u8>, page: PageImage, width: u16, height: u16, mode: Seq<char>) -> Seq<u8> {
    utf8("pdf-tui-kitty-image-v3"@) + page_render_bytes(path_bytes, page, width, height) + utf8(mode)
}

/// The kitty image id of a digest: its first three bytes, least
/// significant first (the low 24 bits of its first four), at least 1.
pub open spec fn kitty_id_of(digest: Seq<u8>) -> u32 {
    let v = digest[0] as int + 256 * digest[1] as int + 65536 * digest[2] as int;
    if v < 1 { 1 } else { v as u32 }
}

/// The kitty image id a render is shown with (`None` outside kitty mode):
/// `kitty_id_of` the SHA-256 of `kitty_id_bytes`.
pub fn kitty_image_id(
    path_bytes: &[u8],
    page: &PageImage,
    width: u16,
    height: u16,
    mode: &str,
    kitty: bool,
) -> (id: Option<u32>)
    ensures
        id == if kitty {
            Some(kitty_id_of(sha256_spec(kitty_id_bytes(path_bytes@, *page, width, height, mode@))))
        } else {
            None::<u32>
        },
{
    if !kitty {
        return None;
    }
    let mut data: Vec<u8> = Vec::new();
    push_str_bytes(&mut data, "pdf-tui-kitty-image-v3");
    push_page_render(&mut data, path_bytes, page, width, height);
    push_str_bytes(&mut data, mode);
    proof {
        assert(data@ =~= kitty_id_bytes(path_bytes@, *page, width, height, mode@));
    }
    let digest = sha256(&data);
    let v: u32 = digest[0] as u32 + 256 * digest[1] as u32 + 65536 * digest[2] as u32;
    Some(if v < 1 { 1 } else { v })
}

/// The kitty placement id: the image id in kitty mode, else none.
pub fn kitty_placement_id(kitty: bool, image_id: Option<u32>) -> (id: Option<u32>)
    ensures
        id == if kitty { image_id } else { None::<u32> },
{
    if kitty {
        image_id
    } else {
        None
    }
}

/// A fingerprint of rendered bytes: the first eight bytes of their
/// SHA-256, least significant first.
pub fn render_fingerprint(bytes: &[u8]) -> (fingerprint: u64)
    ensures
        fingerprint as nat == le_value(sha256_spec(bytes@).take(8)),
{
    let mut data: Vec<u8> = Vec::new();
    push_bytes(&mut data, bytes);
    proof {
        assert(data@ =~= bytes@);
    }
    let digest = sha256(&data);
    let v = read_le_u64(digest.as_slice(), 0);
    proof {
        assert(digest@.subrange(0, 8) =~= digest@.take(8));
    }
    v
}

} // verus!
