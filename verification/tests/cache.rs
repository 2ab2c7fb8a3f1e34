use pdf_tui::cache::{
  is_lock_path, lock_pid, is_bookkeeping, is_cache_payload, is_temp_file, orphan_removals, owner_of, path_extension,
  slice_metadata_path, sort_for_eviction, trimming_enabled, used_marker_path, with_extension,
  CacheCleanupReport, CacheEntry, CacheEviction, lock_is_stale, within_reclaim_grace, cache_lock_path,
  TouchLog, TOUCH_INTERVAL_NANOS,
  CACHE_FILE_LOCK_STALE_AFTER_NANOS, INSTANCE_LOCK_STALE_AFTER_NANOS, LOCK_RECLAIM_GRACE_NANOS,
};

fn path(text: &str) -> Vec<String> {
  text.split('/').map(str::to_string).collect()
}

fn entry(text: &str, size_bytes: u64, last_used_nanos: i128) -> CacheEntry {
  CacheEntry { path: path(text), size_bytes, last_used_nanos }
}

#[test]
fn payloads_and_bookkeeping_are_told_apart() {
  assert!(is_cache_payload(&path("pages/a.png")));
  assert!(is_cache_payload(&path("render/x/b.ansi")));
  assert!(is_cache_payload(&path("text/c.zst")));
  assert!(is_cache_payload(&path("selection/d.png")));
  assert!(!is_cache_payload(&path("render/b.png")));
  assert!(!is_cache_payload(&path("pages/a.toml")));
  assert!(!is_cache_payload(&path("progress.toml")));
  assert!(is_bookkeeping(&path("pages/a.png.used")));
  assert!(is_bookkeeping(&path("pages/a.toml")));
  assert!(!is_bookkeeping(&path("render/a.toml")));
  assert!(is_bookkeeping(&path("text/c.zst.tmp-12-34")));
  assert!(!is_bookkeeping(&path("locks/a.used")));
  assert!(is_temp_file(&path("pages/fresh.png.tmp-1-2")));
  assert!(!is_temp_file(&path("pages/fresh.png")));
}

#[test]
fn companions_are_named_after_their_payload() {
  assert_eq!(used_marker_path(&path("pages/a.png")), path("pages/a.png.used"));
  assert_eq!(used_marker_path(&path("pages/noext")), path("pages/noext.used"));
  assert_eq!(slice_metadata_path(&path("pages/a.png")), Some(path("pages/a.toml")));
  assert_eq!(slice_metadata_path(&path("text/a.zst")), None);
  assert_eq!(owner_of(&path("pages/a.png.used")), path("pages/a.png"));
  assert_eq!(owner_of(&path("pages/a.toml")), path("pages/a.png"));
  assert_eq!(owner_of(&path("pages/a.toml.used")), path("pages/a.toml"));
  assert_eq!(path_extension(&path("pages/.hidden")), None);
  assert_eq!(path_extension(&path("pages/a.tar.gz")), Some("gz".to_string()));
  assert_eq!(with_extension(&path("pages/a.tar.gz"), ""), path("pages/a.tar"));
  assert_eq!(with_extension(&path("pages/a"), "png"), path("pages/a.png"));
}

#[test]
fn orphan_sweep_keeps_live_companions() {
  // The scene of the original cleanup test: a slice with metadata, a kept
  // page, the orphans of a vanished slice, and a fresh temporary file.
  let payloads = vec![path("pages/old-slice.png"), path("pages/keep.png")];
  let bookkeeping = vec![
    path("pages/old-slice.png.used"),
    path("pages/old-slice.toml"),
    path("pages/old-slice.toml.used"),
    path("pages/keep.png.used"),
    path("pages/gone-slice.toml"),
    path("pages/gone-slice.png.used"),
    path("pages/fresh.png.tmp-1-2"),
  ];
  let stale = vec![false; bookkeeping.len()];
  let remove = orphan_removals(&payloads, &bookkeeping, &stale);
  assert_eq!(remove, vec![false, false, false, false, true, true, false]);
  let mut stale_temp = stale.clone();
  stale_temp[6] = true;
  assert!(orphan_removals(&payloads, &bookkeeping, &stale_temp)[6]);
}

#[test]
fn eviction_goes_least_recently_used_first() {
  let entries = vec![
    entry("pages/keep.png", 100, 20),
    entry("pages/old-slice.png", 100, 10),
    entry("pages/b.png", 5, 20),
  ];
  let mut report = CacheCleanupReport::measured(&entries);
  assert_eq!(report.before_bytes, 205);
  assert!(report.over_limit(150));
  let order = sort_for_eviction(entries);
  let names = order.iter().map(|e| e.path.join("/")).collect::<Vec<_>>();
  assert_eq!(names, vec!["pages/old-slice.png", "pages/b.png", "pages/keep.png"]);
  report.record_removal(order[0].size_bytes);
  assert!(!report.over_limit(150));
  assert_eq!(report.removed_files, 1);
  assert_eq!(report.removed_bytes, 100);
  assert_eq!(report.after_bytes + report.removed_bytes, report.before_bytes);
}

#[test]
fn trimming_needs_a_limit_and_a_single_instance() {
  assert!(trimming_enabled(10, 1));
  assert!(!trimming_enabled(0, 1));
  assert!(!trimming_enabled(10, 2));
  let cleared = CacheCleanupReport::cleared(300, 7, 20);
  assert_eq!(cleared.removed_bytes, 280);
  assert_eq!(cleared.removed_files, 7);
  assert_eq!(CacheCleanupReport::default().before_bytes, 0);
}

#[test]
fn lock_files_record_their_owner() {
  assert_eq!(lock_pid("pid=42\ncreated_nanos=7\n"), Some(42));
  assert_eq!(lock_pid("created_nanos=7\npid=x\npid=+9\n"), Some(9));
  assert_eq!(lock_pid("pid=99999999999\n"), None);
  assert_eq!(lock_pid(""), None);
  assert!(is_lock_path(&path("runtime/instance-1-2.lock")));
  assert!(!is_lock_path(&path("runtime/instance.lock.tmp")));
}

#[test]
fn eviction_offers_oldest_payloads_until_within_the_limit() {
  let entries = vec![
    entry("pages/new.png", 300, 30),
    entry("pages/old.png", 200, 10),
    entry("pages/mid.png", 100, 20),
  ];
  let mut eviction = CacheEviction::new(entries, 250);
  assert_eq!(eviction.report().before_bytes, 600);
  let first = eviction.next_removal().expect("over the limit").path.clone();
  assert_eq!(first, path("pages/old.png"));
  eviction.removed(true);
  // 400 bytes are left: the next oldest is offered.
  let second = eviction.next_removal().expect("still over").path.clone();
  assert_eq!(second, path("pages/mid.png"));
  eviction.removed(true);
  // 300 bytes are left, still over 250.
  let third = eviction.next_removal().expect("still over").path.clone();
  assert_eq!(third, path("pages/new.png"));
  eviction.removed(true);
  assert!(eviction.next_removal().is_none());
  let report = eviction.report();
  assert_eq!(report.after_bytes, 0);
  assert_eq!(report.removed_files, 3);
  assert_eq!(report.removed_bytes, 600);
}

#[test]
fn eviction_stops_once_within_the_limit_and_skips_failed_deletions() {
  let entries = vec![
    entry("pages/a.png", 100, 1),
    entry("pages/b.png", 100, 2),
    entry("pages/c.png", 100, 3),
  ];
  let mut eviction = CacheEviction::new(entries, 150);
  // The oldest cannot be deleted: nothing is counted for it.
  assert_eq!(eviction.next_removal().unwrap().path, path("pages/a.png"));
  eviction.removed(false);
  assert_eq!(eviction.next_removal().unwrap().path, path("pages/b.png"));
  eviction.removed(true);
  assert_eq!(eviction.report().after_bytes, 200);
  assert_eq!(eviction.next_removal().unwrap().path, path("pages/c.png"));
  eviction.removed(true);
  assert!(eviction.next_removal().is_none());
  let report = eviction.report();
  assert_eq!(report.after_bytes, 100);
  assert_eq!(report.removed_files, 2);
  assert_eq!(report.removed_bytes, 200);
}

#[test]
fn eviction_within_the_limit_offers_nothing() {
  let eviction = CacheEviction::new(vec![entry("pages/a.png", 100, 1)], 100);
  assert!(eviction.next_removal().is_none());
  assert_eq!(eviction.report(), CacheCleanupReport { before_bytes: 100, after_bytes: 100, removed_files: 0, removed_bytes: 0 });
  let empty = CacheEviction::new(Vec::new(), 0);
  assert!(empty.next_removal().is_none());
}

#[test]
fn fresh_lock_files_are_left_alone() {
  assert!(within_reclaim_grace(Some(0)));
  assert!(within_reclaim_grace(Some(LOCK_RECLAIM_GRACE_NANOS - 1)));
  assert!(!within_reclaim_grace(Some(LOCK_RECLAIM_GRACE_NANOS)));
  assert!(!within_reclaim_grace(None));
}

#[test]
fn unheld_locks_are_stale_when_their_owner_is_gone_or_they_are_old() {
  let minute = 60_000_000_000_u128;
  // The owner is gone: stale at any age.
  assert!(lock_is_stale(false, Some(3 * LOCK_RECLAIM_GRACE_NANOS), CACHE_FILE_LOCK_STALE_AFTER_NANOS));
  // A live owner keeps a young lock.
  assert!(!lock_is_stale(true, Some(minute), CACHE_FILE_LOCK_STALE_AFTER_NANOS));
  // ... but not one past the limit, nor one of unknown age.
  assert!(lock_is_stale(true, Some(11 * minute), CACHE_FILE_LOCK_STALE_AFTER_NANOS));
  assert!(lock_is_stale(true, None, CACHE_FILE_LOCK_STALE_AFTER_NANOS));
  assert!(lock_is_stale(true, Some(minute), INSTANCE_LOCK_STALE_AFTER_NANOS));
  assert!(!lock_is_stale(true, Some(INSTANCE_LOCK_STALE_AFTER_NANOS), INSTANCE_LOCK_STALE_AFTER_NANOS));
}

#[test]
fn used_markers_are_refreshed_at_most_once_per_interval() {
  let payload = path("pages/pdf-tui-touch-test.png");
  let mut log = TouchLog::new();
  assert!(log.claim(&payload, 1_000));
  assert!(!log.claim(&payload, 1_000 + TOUCH_INTERVAL_NANOS - 1));
  log.forget();
  assert!(log.claim(&payload, 2_000));
  assert_eq!(
    path_extension(&used_marker_path(&payload)).as_deref(),
    Some("used"),
    "marker keeps the payload extension before .used"
  );
}

#[test]
fn touches_are_due_again_after_the_interval_and_per_file() {
  let a = path("pages/a.png");
  let b = path("pages/b.png");
  let mut log = TouchLog::new();
  assert!(log.claim(&a, 0));
  assert!(log.claim(&b, 10));
  assert!(!log.claim(&a, 10));
  assert!(log.claim(&a, TOUCH_INTERVAL_NANOS));
  // A clock that goes back counts as no time passed.
  assert!(!log.claim(&b, 5));
}

#[test]
fn cache_locks_sit_beside_their_file() {
  assert_eq!(cache_lock_path(&path("pages/a.png")), path("pages/a.png.lock"));
  assert_eq!(cache_lock_path(&path("pages/..")), path("pages/../cache.lock"));
  assert_eq!(cache_lock_path(&Vec::new()), path("cache.lock"));
  assert!(is_lock_path(&cache_lock_path(&path("render/x.ansi"))));
}
