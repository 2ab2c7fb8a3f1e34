use pdf_tui::job_queue::{JobPriority, JobQueue, PageJobPriority, RenderJobPriority};

// The two-level priority of terminal rendering: a preload, or work on screen.
use RenderJobPriority::{TerminalPreload as Preload, Visible};

#[test]
fn visible_jobs_go_first_and_keep_a_slot() {
  let mut queue = JobQueue::new(2);
  queue.enqueue("a", Preload);
  queue.enqueue("b", Preload);
  queue.enqueue("c", Visible);
  assert_eq!(queue.start_next(), Some(("c", Visible)));
  assert_eq!(queue.start_next(), Some(("a", Preload)));
  // Two running: nothing more starts.
  assert_eq!(queue.start_next(), None);
  queue.finish(&"c");
  // One preload runs and one slot is reserved for visible work.
  assert_eq!(queue.start_next(), None);
  queue.enqueue("d", Visible);
  assert_eq!(queue.start_next(), Some(("d", Visible)));
}

#[test]
fn promotion_and_cancellation() {
  let mut queue = JobQueue::new(2);
  queue.enqueue("a", Preload);
  queue.enqueue("b", Preload);
  assert!(queue.promote(&"b", Visible));
  assert!(!queue.promote(&"b", Visible));
  assert_eq!(queue.start_next(), Some(("b", Visible)));
  // The stale preload entry of "b" is skipped; "a" is cancelled.
  assert_eq!(queue.cancel_queued_preloads(), vec!["a"]);
  assert!(!queue.contains(&"a"));
  assert!(queue.contains(&"b"));
  assert_eq!(queue.start_next(), None);
  queue.finish(&"b");
  assert_eq!(queue.running_count(), 0);
  // Finishing unknown jobs is harmless.
  queue.finish(&"zz");
  assert!(!JobQueue::<&str, RenderJobPriority>::new(1).allows_preloads());
}

#[test]
fn page_priorities_order_page_preloads_below_slice_preloads() {
  assert!(PageJobPriority::PagePreload.is_preload());
  assert!(PageJobPriority::SlicePreload.is_preload());
  assert!(!PageJobPriority::Visible.is_preload());
  let mut queue = JobQueue::new(3);
  queue.enqueue("p1", PageJobPriority::PagePreload);
  queue.enqueue("p2", PageJobPriority::SlicePreload);
  queue.enqueue("p3", PageJobPriority::Visible);
  assert_eq!(queue.start_next(), Some(("p3", PageJobPriority::Visible)));
  assert_eq!(queue.start_next(), Some(("p2", PageJobPriority::SlicePreload)));
  assert_eq!(queue.running_preloads(), 1);
  assert_eq!(queue.queued_count(), 1);
  queue.clear();
  assert_eq!(queue.running_count(), 0);
  assert_eq!(queue.queued_count(), 0);
}

#[test]
fn equal_priorities_start_in_arrival_order() {
  let mut queue = JobQueue::new(4);
  queue.enqueue("x", Visible);
  queue.enqueue("y", Visible);
  queue.enqueue("z", Visible);
  assert_eq!(queue.start_next(), Some(("x", Visible)));
  assert_eq!(queue.start_next(), Some(("y", Visible)));
  assert_eq!(queue.start_next(), Some(("z", Visible)));
}

#[test]
fn stale_entries_never_start_a_job_ahead_of_visible_work() {
  let mut queue = JobQueue::new(3);
  queue.enqueue("k", Preload);
  assert_eq!(queue.start_next(), Some(("k", Preload)));
  // Raising a running job changes only its bookkeeping.
  assert!(queue.promote(&"k", Visible));
  assert_eq!(queue.queued_count(), 0);
  queue.finish(&"k");
  queue.enqueue("k", Preload);
  queue.enqueue("j", Visible);
  assert_eq!(queue.start_next(), Some(("j", Visible)));
  assert_eq!(queue.start_next(), Some(("k", Preload)));
}

#[test]
fn a_lowered_job_starts_at_its_current_priority() {
  let mut queue = JobQueue::new(3);
  // "k" is queued as visible, then queued again as a preload: its visible
  // entry is stale and is skipped.
  queue.enqueue("k", Visible);
  queue.enqueue("k", Preload);
  queue.enqueue("j", Visible);
  assert_eq!(queue.start_next(), Some(("j", Visible)));
  assert_eq!(queue.start_next(), Some(("k", Preload)));
}
