use std::path::PathBuf;

use pdf_tui::config::render::PdfRasterBackend;
use pdf_tui::page_store::{page_key, PageJob, PageRequestKey, PageStore};
use pdf_tui::pdf::{PageSliceSpec, PdfDocument};
use pdf_tui::session::PageOutcome;

fn document(page_count: usize) -> PdfDocument {
    PdfDocument {
        path: PathBuf::from("/tmp/doc.pdf"),
        path_bytes: b"/tmp/doc.pdf".to_vec(),
        file_name: "doc.pdf".to_string(),
        page_count,
        size_bytes: 1000,
        modified_nanos: 7,
        page_cache_dir: PathBuf::from("/tmp/cache"),
        page_temp_dir: PathBuf::from("/tmp/cache/tmp"),
        raster_backend: PdfRasterBackend::Poppler,
        pdf_raster_batch_pages: 4,
        pdftoppm_bin: "pdftoppm".to_string(),
        mutool_bin: "mutool".to_string(),
        mutool_band_height: 512,
        mutool_threads: 1,
        mutool_parallel: false,
        pdfium_library_path: None,
        dpi: 144,
        page_sizes: vec![(612, 792); page_count],
    }
}

fn outcome(page_index: usize, width: u32, height: u32, slice: Option<PageSliceSpec>, preload: bool) -> PageOutcome {
    PageOutcome {
        source_size_bytes: 1000,
        source_modified_nanos: 7,
        page_index,
        target_width: width,
        target_height: height,
        slice,
        preload,
        result: Err("not rendered in tests".to_string()),
    }
}

fn slice(page_index: usize, slice_index: u16) -> PageSliceSpec {
    PageSliceSpec {
        page_index,
        slice_index,
        slice_count: 4,
        target_width: 800,
        target_height: 1000,
        slice_y: 250 * u32::from(slice_index),
        slice_height: 250,
        cell_width: 100,
        cell_height: 50,
        full_cell_width: 100,
        full_cell_height: 50,
        viewport_width: 120,
        viewport_height: 40,
        scroll_divisor: 2,
    }
}

fn page_job(page_index: usize, width: u32, height: u32) -> PageJob {
    PageJob::Page(PageRequestKey {
        page_index,
        target_width: width,
        target_height: height,
    })
}

#[test]
fn page_keys_are_at_least_one_pixel() {
    assert_eq!(
        page_key(3, 0, 0),
        PageRequestKey {
            page_index: 3,
            target_width: 1,
            target_height: 1
        }
    );
    assert_eq!(page_key(3, 640, 480).target_width, 640);
}

#[test]
fn visible_requests_start_at_once_and_keep_a_slot_free() {
    let mut store = PageStore::new(document(10), 2);
    let started = store.request(0, 800, 1000);
    assert_eq!(started, vec![(page_job(0, 800, 1000), false)]);
    // One preload may use the second slot.
    let started = store.preload(1, 800, 1000);
    assert_eq!(started, vec![(page_job(1, 800, 1000), true)]);
    // Both slots are taken: the next preload waits in the queue.
    assert!(store.preload(2, 800, 1000).is_empty());
    // Finishing the visible page frees a slot, but a preload is already
    // running, so the queued preload stays queued and the slot stays free.
    let (waited, started) = store.finish(&outcome(0, 800, 1000, None, false), true);
    assert!(!waited);
    assert!(started.is_empty());
    // A visible request takes the free slot at once.
    let started = store.request(3, 800, 1000);
    assert_eq!(started, vec![(page_job(3, 800, 1000), false)]);
}

#[test]
fn pages_outside_the_document_are_ignored() {
    let mut store = PageStore::new(document(2), 3);
    assert!(store.request(2, 800, 1000).is_empty());
    assert!(store.request_slice(slice(5, 0)).is_empty());
    assert_eq!(store.request(1, 800, 1000).len(), 1);
}

#[test]
fn a_completed_page_is_not_rasterized_again() {
    let mut store = PageStore::new(document(4), 3);
    assert_eq!(store.request(1, 800, 1000).len(), 1);
    let (waited, started) = store.finish(&outcome(1, 800, 1000, None, false), true);
    assert!(!waited);
    assert!(started.is_empty());
    assert!(store.request(1, 800, 1000).is_empty());
    // Another size is another image.
    assert_eq!(store.request(1, 400, 500), vec![(page_job(1, 400, 500), false)]);
}

#[test]
fn a_failed_page_can_be_requested_again() {
    let mut store = PageStore::new(document(4), 3);
    assert_eq!(store.request(1, 800, 1000).len(), 1);
    store.finish(&outcome(1, 800, 1000, None, false), false);
    assert_eq!(store.request(1, 800, 1000).len(), 1);
}

#[test]
fn a_visible_request_for_a_running_preload_waits_on_it() {
    let mut store = PageStore::new(document(4), 3);
    assert_eq!(store.preload(2, 800, 1000), vec![(page_job(2, 800, 1000), true)]);
    // The page comes on screen while its preload is still running.
    assert!(store.request(2, 800, 1000).is_empty());
    let (waited, _) = store.finish(&outcome(2, 800, 1000, None, true), true);
    assert!(waited);
    // A preload nobody waits on finishes quietly.
    assert_eq!(store.preload(3, 800, 1000).len(), 1);
    let (waited, _) = store.finish(&outcome(3, 800, 1000, None, true), true);
    assert!(!waited);
}

#[test]
fn slices_are_requested_once_normalized() {
    let mut store = PageStore::new(document(4), 3);
    let mut raw = slice(0, 9);
    raw.slice_count = 4;
    let started = store.request_slice(raw);
    let normalized = raw.normalized();
    assert_eq!(normalized.slice_index, 3);
    assert_eq!(started, vec![(PageJob::Slice(normalized), false)]);
    let (_, started) = store.finish(&outcome(0, 800, 1000, Some(normalized), false), true);
    assert!(started.is_empty());
    assert!(store.request_slice(raw).is_empty());
    assert!(store.preload_slice(raw).is_empty());
}

#[test]
fn cancelled_preloads_leave_visible_work_alone() {
    let mut store = PageStore::new(document(8), 2);
    assert_eq!(store.preload(0, 800, 1000).len(), 1);
    assert!(store.preload(1, 800, 1000).is_empty());
    assert!(store.preload(2, 800, 1000).is_empty());
    store.cancel_preloads();
    // The running preload finishes; the cancelled ones never start.
    let (_, started) = store.finish(&outcome(0, 800, 1000, None, true), true);
    assert!(started.is_empty());
    assert_eq!(store.request(5, 800, 1000), vec![(page_job(5, 800, 1000), false)]);
}

#[test]
fn a_single_slot_queue_takes_no_preloads() {
    let mut store = PageStore::new(document(4), 1);
    assert!(store.preload(0, 800, 1000).is_empty());
    assert!(store.preload_slice(slice(0, 0)).is_empty());
    assert_eq!(store.request(0, 800, 1000).len(), 1);
    // The only slot is busy: the next visible page waits for it.
    assert!(store.request(1, 800, 1000).is_empty());
    let (_, started) = store.finish(&outcome(0, 800, 1000, None, false), true);
    assert_eq!(started, vec![(page_job(1, 800, 1000), false)]);
}

#[test]
fn clearing_forgets_completed_pages() {
    let mut store = PageStore::new(document(4), 3);
    store.request(1, 800, 1000);
    store.finish(&outcome(1, 800, 1000, None, false), true);
    store.clear_state();
    assert_eq!(store.request(1, 800, 1000).len(), 1);
    store.replace_document(document(1));
    assert!(store.request(1, 800, 1000).is_empty());
    assert_eq!(store.request(0, 800, 1000).len(), 1);
}
