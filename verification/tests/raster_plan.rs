use pdf_tui::raster_plan::{numbered_png_outputs, slice_crop, PngOutputError, SliceCrop};
use std::path::PathBuf;

use pdf_tui::config::render::PdfRasterBackend;
use pdf_tui::pdf::{PageSliceSpec, PdfDocument};
use pdf_tui::raster_plan::{
    page_batch_lock_name, page_batch_window, page_output_name, page_slice_group_lock_name,
    page_slice_output_name, sibling_slice_specs,
};

fn document(page_count: usize, batch_pages: usize) -> PdfDocument {
    PdfDocument {
        path: PathBuf::from("/tmp/doc.pdf"),
        path_bytes: b"/tmp/doc.pdf".to_vec(),
        file_name: "doc.pdf".to_string(),
        page_count,
        size_bytes: 1000,
        modified_nanos: 7,
        page_cache_dir: PathBuf::from("/tmp/cache"),
        page_temp_dir: PathBuf::from("/tmp/cache/tmp"),
        raster_backend: PdfRasterBackend::Mutool,
        pdf_raster_batch_pages: batch_pages,
        pdftoppm_bin: "pdftoppm".to_string(),
        mutool_bin: "mutool".to_string(),
        mutool_band_height: 512,
        mutool_threads: 1,
        mutool_parallel: false,
        pdfium_library_path: None,
        dpi: 144,
        page_sizes: vec![(612, 792); page_count],
    }
}

fn slice(slice_count: u16, target_height: u32, full_cell_height: u16) -> PageSliceSpec {
    PageSliceSpec {
        page_index: 2,
        slice_index: 1,
        slice_count,
        target_width: 800,
        target_height,
        slice_y: 240,
        slice_height: 260,
        cell_width: 100,
        cell_height: 50,
        full_cell_width: 100,
        full_cell_height,
        viewport_width: 120,
        viewport_height: 40,
        scroll_divisor: 2,
    }
}

#[test]
fn batches_group_pages_from_the_first_and_end_at_the_last() {
    let doc = document(10, 4);
    assert_eq!(page_batch_window(&doc, 0), (0, 3));
    assert_eq!(page_batch_window(&doc, 5), (4, 7));
    assert_eq!(page_batch_window(&doc, 9), (8, 9));
    // A batch size of zero renders pages one at a time.
    assert_eq!(page_batch_window(&document(10, 0), 3), (3, 3));
}

#[test]
fn sibling_slices_share_out_the_cell_rows_and_tile_the_page() {
    let siblings = sibling_slice_specs(slice(4, 1000, 50));
    let rows: Vec<(u16, u32, u32)> = siblings
        .iter()
        .map(|s| (s.slice_index, s.slice_y, s.slice_height))
        .collect();
    assert_eq!(rows, vec![(0, 0, 240), (1, 240, 260), (2, 500, 240), (3, 740, 260)]);
    assert!(siblings.iter().all(|s| s.page_index == 2 && s.slice_count == 4 && s.target_width == 800));
}

#[test]
fn an_unsliced_page_is_one_slice() {
    let siblings = sibling_slice_specs(slice(0, 1000, 50));
    assert_eq!(siblings.len(), 1);
    assert_eq!((siblings[0].slice_y, siblings[0].slice_height), (0, 1000));
    // More slices than cell rows leaves empty slices one pixel row high.
    let thin = sibling_slice_specs(slice(3, 100, 2));
    let rows: Vec<(u32, u32)> = thin.iter().map(|s| (s.slice_y, s.slice_height)).collect();
    assert_eq!(rows, vec![(0, 1), (0, 50), (50, 50)]);
}

#[test]
fn cached_image_names_carry_page_size_and_slice() {
    assert_eq!(page_output_name("abc", 4, 800, 0), "abc-p00005-800x1.png");
    assert_eq!(page_batch_lock_name("abc", 800, 600, 0, 3), "abc-pages00001-00004-800x600");
    assert_eq!(
        page_slice_output_name("k", slice(4, 1000, 50)),
        "k-p00003-slice002of004-800x1000-y240h260.png"
    );
    assert_eq!(
        page_slice_group_lock_name("k", slice(4, 1000, 50)),
        "k-p00003-slices004-800x1000-100h50"
    );
    assert_eq!(page_output_name("x", 123456, 1, 1), "x-p123457-1x1.png");
}

#[test]
fn document_cache_keys_hash_the_document_path() {
    let doc = document(3, 1);
    assert_eq!(
        doc.cache_key(800, 1000),
        pdf_tui::pdf::page_cache_key(PdfRasterBackend::Mutool, b"/tmp/doc.pdf", 1000, 7, 144, 800, 1000)
    );
    let mut other = document(3, 1);
    other.path = PathBuf::from("/tmp/other.pdf");
    other.path_bytes = b"/tmp/other.pdf".to_vec();
    assert_ne!(doc.cache_key(800, 1000), other.cache_key(800, 1000));
    assert_ne!(doc.slice_cache_key(slice(4, 1000, 50)), other.slice_cache_key(slice(4, 1000, 50)));
}

#[test]
fn slice_crops_stay_on_the_page() {
  assert_eq!(slice_crop(800, 1000, 250, 250), SliceCrop { full_width: 800, full_height: 1000, y: 250, height: 250 });
  // A slice running past the bottom is cut at the bottom.
  assert_eq!(slice_crop(800, 1000, 900, 250), SliceCrop { full_width: 800, full_height: 1000, y: 900, height: 100 });
  // A slice below the page starts on its last row.
  assert_eq!(slice_crop(800, 1000, 5000, 10), SliceCrop { full_width: 800, full_height: 1000, y: 999, height: 1 });
  // Empty sizes count as one pixel.
  assert_eq!(slice_crop(0, 0, 3, 0), SliceCrop { full_width: 1, full_height: 1, y: 0, height: 1 });
}

fn names(list: &[&str]) -> Vec<String> {
  list.iter().map(|name| name.to_string()).collect()
}

#[test]
fn numbered_outputs_map_each_page_to_its_file() {
  let found = numbered_png_outputs("p", &names(&["p-3.png", "notes.txt", "p-2.png", "p-+4.png"]), 2, 4);
  assert_eq!(found, Ok(vec![(3, 0), (2, 2), (4, 3)]));
  // An empty range expects nothing.
  assert_eq!(numbered_png_outputs("p", &names(&["x.toml"]), 5, 4), Ok(vec![]));
}

#[test]
fn numbered_outputs_report_duplicates_strays_and_gaps() {
  assert_eq!(
    numbered_png_outputs("p", &names(&["p-2.png", "zeta.png", "p-02.png"]), 2, 4),
    Err(PngOutputError::Duplicate(2))
  );
  assert_eq!(
    numbered_png_outputs("p", &names(&["p-2.png", "zeta.png", "p-9.png", "alpha.png", "p-x.png", "p.png"]), 2, 4),
    Err(PngOutputError::Unexpected(names(&["alpha.png", "p-9.png", "p-x.png", "p.png", "zeta.png"])))
  );
  assert_eq!(
    numbered_png_outputs("p", &names(&["p-4.png", "p-2.png"]), 2, 4),
    Err(PngOutputError::Missing(vec![3], vec![2, 4]))
  );
}
