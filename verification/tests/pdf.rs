use pdf_tui::config::render::PdfRasterBackend;
use pdf_tui::pdf::{default_page_size, page_cache_key, slice_cache_key, PageSliceId, PageSliceSpec};
use sha2::Digest;

fn spec() -> PageSliceSpec {
  PageSliceSpec {
    page_index: 3,
    slice_index: 7,
    slice_count: 2,
    target_width: 0,
    target_height: 100,
    slice_y: 5,
    slice_height: 0,
    cell_width: 8,
    cell_height: 16,
    full_cell_width: 0,
    full_cell_height: 40,
    viewport_width: 80,
    viewport_height: 0,
    scroll_divisor: 3,
  }
}

#[test]
fn slices_are_normalized_and_identified() {
  let s = spec();
  assert_eq!(s.id(), PageSliceId { page_index: 3, slice_index: 7, slice_count: 2 });
  let n = s.normalized();
  assert_eq!((n.slice_index, n.slice_count), (1, 2));
  assert_eq!((n.target_width, n.slice_height, n.full_cell_width, n.viewport_height), (1, 1, 1, 1));
  assert_eq!(n.normalized(), n);
  assert_eq!(default_page_size(), (595, 842));
}

#[test]
fn page_cache_key_hashes_the_page_identity() {
  let key = page_cache_key(PdfRasterBackend::Pdfium, b"/a.pdf", 10, 20, 180, 30, 40);
  let mut data = b"pdf-tui-page-v6".to_vec();
  data.extend_from_slice(b"pdfium");
  data.push(0);
  data.extend_from_slice(b"/a.pdf");
  data.extend_from_slice(&10_u64.to_le_bytes());
  data.extend_from_slice(&20_u128.to_le_bytes());
  data.extend_from_slice(&180_u16.to_le_bytes());
  data.extend_from_slice(&30_u32.to_le_bytes());
  data.extend_from_slice(&40_u32.to_le_bytes());
  assert_eq!(key, hex::encode(sha2::Sha256::digest(&data)));
  assert_eq!(key.len(), 64);
  assert_ne!(key, page_cache_key(PdfRasterBackend::Poppler, b"/a.pdf", 10, 20, 180, 30, 40));
}

#[test]
fn slice_cache_key_hashes_the_normalized_slice() {
  let s = spec();
  assert_eq!(
    slice_cache_key(PdfRasterBackend::Mutool, b"/b.pdf", 1, 2, 3, s),
    slice_cache_key(PdfRasterBackend::Mutool, b"/b.pdf", 1, 2, 3, s.normalized())
  );
  let n = s.normalized();
  let mut data = b"pdf-tui-page-slice-v5".to_vec();
  data.extend_from_slice(b"mutool");
  data.push(0);
  data.extend_from_slice(b"/b.pdf");
  data.extend_from_slice(&1_u64.to_le_bytes());
  data.extend_from_slice(&2_u128.to_le_bytes());
  data.extend_from_slice(&3_u16.to_le_bytes());
  data.extend_from_slice(&(n.page_index as u64).to_le_bytes());
  for v in [n.slice_index, n.slice_count] {
    data.extend_from_slice(&v.to_le_bytes());
  }
  for v in [n.target_width, n.target_height, n.slice_y, n.slice_height] {
    data.extend_from_slice(&v.to_le_bytes());
  }
  for v in [
    n.cell_width,
    n.cell_height,
    n.full_cell_width,
    n.full_cell_height,
    n.viewport_width,
    n.viewport_height,
    n.scroll_divisor,
  ] {
    data.extend_from_slice(&v.to_le_bytes());
  }
  assert_eq!(
    slice_cache_key(PdfRasterBackend::Mutool, b"/b.pdf", 1, 2, 3, s),
    hex::encode(sha2::Sha256::digest(&data))
  );
}
