use std::path::PathBuf;

use pdf_tui::config::render::RenderConfig;
use pdf_tui::pdf::PageImage;
use pdf_tui::render_key::{kitty_image_id, kitty_placement_id, render_cache_key, render_fingerprint, NativeImageSettings};
use sha2::{Digest, Sha256};

fn page() -> PageImage {
  PageImage {
    page_index: 3,
    path: PathBuf::from("/tmp/cache/p4.png"),
    width: 800,
    height: 1000,
    size_bytes: 4096,
    modified_nanos: 77,
    slice: None,
  }
}

fn native() -> NativeImageSettings {
  NativeImageSettings { cell_pixels: Some((8, 16)), passthrough: None, kitty_unicode_placeholders: true }
}

// The render cache key hashes the fields in this order.
fn expected_key(config: &RenderConfig, native: &NativeImageSettings, mode: &str) -> String {
  let mut h = Sha256::new();
  h.update(b"pdf-tui-render-cache-key-v4");
  h.update(b"/tmp/cache/p4.png");
  h.update(3usize.to_le_bytes());
  h.update(4096u64.to_le_bytes());
  h.update(77u128.to_le_bytes());
  h.update(30u16.to_le_bytes());
  h.update(20u16.to_le_bytes());
  h.update(b"fit");
  h.update(mode.as_bytes());
  h.update([0]);
  h.update(b"render-v3");
  h.update(config.chafa_bin.as_bytes());
  h.update([0]);
  h.update(config.chafa_threads.to_le_bytes());
  if let Some(p) = &config.passthrough {
    h.update(p.as_bytes());
  }
  h.update([0]);
  for arg in &config.chafa_args {
    h.update(arg.as_bytes());
    h.update([0]);
  }
  let (cw, ch) = native.cell_pixels.unwrap_or((0, 0));
  h.update(cw.to_le_bytes());
  h.update(ch.to_le_bytes());
  h.update([0]);
  if let Some(p) = &native.passthrough {
    h.update(p.as_bytes());
  }
  h.update([0]);
  h.update([u8::from(native.kitty_unicode_placeholders)]);
  h.update([0]);
  for arg in &config.chafa_args {
    h.update(arg.as_bytes());
    h.update([0]);
  }
  hex::encode(h.finalize())
}

#[test]
fn render_cache_keys_hash_page_size_mode_and_settings() {
  let config = RenderConfig::default();
  let key = render_cache_key(b"/tmp/cache/p4.png", &page(), 30, 20, "kitty", &config, &native());
  assert_eq!(key, expected_key(&config, &native(), "kitty"));
  assert_eq!(key.len(), 64);
  // Another mode, another key.
  assert_ne!(key, render_cache_key(b"/tmp/cache/p4.png", &page(), 30, 20, "sixel", &config, &native()));
  // Settings take part too.
  let mut other = RenderConfig::default();
  other.passthrough = Some("tmux".to_string());
  let moved = render_cache_key(b"/tmp/cache/p4.png", &page(), 30, 20, "kitty", &other, &native());
  assert_eq!(moved, expected_key(&other, &native(), "kitty"));
  assert_ne!(moved, key);
}

#[test]
fn kitty_ids_come_from_the_page_digest() {
  let mut h = Sha256::new();
  h.update(b"pdf-tui-kitty-image-v3");
  h.update(b"/tmp/cache/p4.png");
  h.update(3usize.to_le_bytes());
  h.update(4096u64.to_le_bytes());
  h.update(77u128.to_le_bytes());
  h.update(30u16.to_le_bytes());
  h.update(20u16.to_le_bytes());
  h.update(b"kitty");
  let digest = h.finalize();
  let expected = (u32::from_le_bytes([digest[0], digest[1], digest[2], digest[3]]) & 0x00ff_ffff).max(1);
  let id = kitty_image_id(b"/tmp/cache/p4.png", &page(), 30, 20, "kitty", true);
  assert_eq!(id, Some(expected));
  assert_eq!(kitty_image_id(b"/tmp/cache/p4.png", &page(), 30, 20, "sixel", false), None);
  assert_eq!(kitty_placement_id(true, id), id);
  assert_eq!(kitty_placement_id(false, id), None);
}

#[test]
fn render_fingerprints_are_the_digest_head() {
  let digest = Sha256::digest(b"rendered");
  let mut head = [0u8; 8];
  head.copy_from_slice(&digest[..8]);
  assert_eq!(render_fingerprint(b"rendered"), u64::from_le_bytes(head));
  assert_ne!(render_fingerprint(b"rendered"), render_fingerprint(b"rendered!"));
}
