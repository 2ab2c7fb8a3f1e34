use pdf_tui::search_list::SearchList;

#[test]
fn selection_follows_the_results() {
  let mut list = SearchList::new();
  assert!(list.set_results(5));
  assert_eq!(list.selected, Some(0));
  assert!(list.select_delta(3));
  assert_eq!(list.selected, Some(3));
  assert!(list.select_delta(10));
  assert_eq!(list.selected, Some(4));
  assert!(!list.select_delta(1));
  assert!(list.select_delta(-100));
  assert_eq!(list.selected, Some(0));
  assert!(list.set_results(2));
  assert!(!list.set_results(2));
  assert!(list.set_results(0));
  assert_eq!(list.selected, None);
  assert!(!list.select_delta(1));
}

#[test]
fn scrolling_keeps_the_selection_visible() {
  let mut list = SearchList::new();
  list.set_results(20);
  list.select_delta(12);
  list.clamp_scroll(5);
  assert_eq!(list.scroll, 8);
  list.select_delta(-10);
  list.clamp_scroll(5);
  assert_eq!(list.scroll, 2);
  assert_eq!(list.result_at_row(1), Some(3));
  assert_eq!(list.result_at_row(30), None);
  list.select_delta(100);
  list.clamp_scroll(50);
  assert_eq!(list.scroll, 0);
}

#[test]
fn preloading_waits_for_the_last_edit() {
  let mut list = SearchList::new();
  assert!(list.preload_ready(true));
  assert!(!list.preload_ready(false));
  let first = list.defer_preload_after_input();
  let second = list.defer_preload_after_input();
  assert!(!list.preload_ready(true));
  assert!(list.take_preload_reset());
  assert!(!list.take_preload_reset());
  assert!(!list.finish_preload_delay(first, true));
  assert!(!list.finish_preload_delay(second, false));
  assert!(list.finish_preload_delay(second, true));
  assert!(list.preload_ready(true));
}
