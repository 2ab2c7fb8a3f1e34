use pdf_tui::cache::CacheCleanupReport;
use pdf_tui::session::{
  cache_cleared_message, metadata_updated_message, page_result_applies, page_result_redraws,
  InputGate, RefreshState,
};

#[test]
fn input_from_before_an_editor_session_is_dropped() {
  let mut gate = InputGate::new();
  assert!(gate.is_reading());
  let before = gate.generation();
  assert!(gate.accepts(before));
  gate.pause();
  assert!(!gate.is_reading());
  let paused = gate.generation();
  assert!(!gate.accepts(before));
  gate.resume();
  assert!(gate.is_reading());
  assert!(!gate.accepts(before));
  assert!(!gate.accepts(paused));
  assert_eq!(gate.generation(), 2);
}

#[test]
fn generations_wrap_around() {
  let mut gate = InputGate { enabled: true, generation: u64::MAX };
  gate.pause();
  assert_eq!(gate.generation(), 0);
}

#[test]
fn refresh_requests_queue_behind_a_running_reload() {
  let mut state = RefreshState::new();
  assert!(state.request());
  assert!(!state.request());
  assert!(!state.request());
  assert!(state.finish());
  assert!(state.request());
  assert!(!state.finish());
  assert_eq!(state, RefreshState::new());
}

#[test]
fn page_results_apply_unless_a_preload_failed() {
  assert!(page_result_applies(true, true));
  assert!(page_result_applies(false, false));
  assert!(!page_result_applies(false, true));
  assert!(page_result_redraws(true, false, false));
  assert!(!page_result_redraws(true, true, false));
  assert!(page_result_redraws(true, true, true));
  assert!(!page_result_redraws(false, false, false));
  assert!(page_result_redraws(false, true, true));
}

#[test]
fn status_lines_report_counts() {
  let report = CacheCleanupReport { before_bytes: 10, after_bytes: 0, removed_files: 3, removed_bytes: 10 };
  assert_eq!(cache_cleared_message(&report), "cache cleared: 3 files, 10 bytes");
  assert_eq!(metadata_updated_message(2), "metadata updated: 2 tag(s)");
}
