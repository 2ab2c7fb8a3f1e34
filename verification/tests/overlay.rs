use std::path::PathBuf;

use pdf_tui::config::render::RenderConfig;
use pdf_tui::overlay::{OverlayKey, OverlayOutcome, OverlayState, OverlayStore};
use pdf_tui::pdf::PageImage;

fn image(page_index: usize) -> PageImage {
  PageImage {
    page_index,
    path: PathBuf::from(format!("/tmp/cache/search-highlight/h{page_index}.png")),
    width: 800,
    height: 1000,
    size_bytes: 99,
    modified_nanos: 5,
    slice: None,
  }
}

fn store() -> OverlayStore {
  OverlayStore::new(PathBuf::from("/tmp/cache"), &RenderConfig::default())
}

#[test]
fn overlay_requests_start_once_and_return_the_stored_image() {
  let mut s = store();
  assert!(matches!(s.request(OverlayKey(7)), (OverlayState::Pending, true)));
  assert!(matches!(s.request(OverlayKey(7)), (OverlayState::Pending, false)));
  assert!(s.finish(OverlayOutcome { key: OverlayKey(7), preload: false, result: Ok(image(3)) }));
  match s.request(OverlayKey(7)) {
    (OverlayState::Ready(img), start) => {
      assert!(!start);
      assert_eq!(img.page_index, 3);
      assert_eq!(img.path, PathBuf::from("/tmp/cache/search-highlight/h3.png"));
    }
    _ => panic!("expected the stored image"),
  }
  assert!(s.finish(OverlayOutcome { key: OverlayKey(8), preload: false, result: Err("x".to_string()) }) == false);
  s.request(OverlayKey(8));
  assert!(s.finish(OverlayOutcome { key: OverlayKey(8), preload: false, result: Err("bad png".to_string()) }));
  match s.request(OverlayKey(8)) {
    (OverlayState::Failed(error), false) => assert_eq!(error, "bad png"),
    _ => panic!("expected the stored error"),
  }
}

#[test]
fn overlay_results_are_ignored_after_clear() {
  let mut s = store();
  s.request(OverlayKey(1));
  s.clear();
  assert!(!s.finish(OverlayOutcome { key: OverlayKey(1), preload: false, result: Ok(image(0)) }));
  assert!(matches!(s.request(OverlayKey(1)), (OverlayState::Pending, true)));
}

#[test]
fn results_from_before_a_clear_stay_ignored_until_requested_again() {
  let mut s = store();
  s.request(OverlayKey(1));
  s.request(OverlayKey(2));
  s.clear();
  assert!(matches!(s.request(OverlayKey(2)), (OverlayState::Pending, true)));
  // Job 1 was not asked for again: its result is ignored, even after other
  // jobs finish.
  assert!(s.finish(OverlayOutcome { key: OverlayKey(2), preload: false, result: Ok(image(2)) }));
  assert!(!s.finish(OverlayOutcome { key: OverlayKey(1), preload: false, result: Ok(image(1)) }));
  assert!(matches!(s.request(OverlayKey(1)), (OverlayState::Pending, true)));
  assert!(s.finish(OverlayOutcome { key: OverlayKey(1), preload: false, result: Ok(image(1)) }));
}
