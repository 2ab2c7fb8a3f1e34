use pdf_tui::progress::{find_matching, upsert_entry, ProgressRecord, MAX_ENTRIES};

fn entry(path: &str, progress: f64, updated_secs: u64) -> ProgressRecord<f64> {
  ProgressRecord {
    path: path.into(),
    progress,
    size_bytes: 10,
    modified_nanos: "111".into(),
    page_count: 8,
    updated_secs,
  }
}

#[test]
fn saved_positions_match_only_their_document_identity() {
  let entries = upsert_entry(Vec::new(), entry("/a.pdf", 3.5, 100));
  let found = find_matching(&entries, "/a.pdf", 10, "111").map(|i| entries[i].progress);
  assert_eq!(found, Some(3.5));
  // A different document, size, or mtime must not match.
  assert_eq!(find_matching(&entries, "/b.pdf", 10, "111"), None);
  assert_eq!(find_matching(&entries, "/a.pdf", 11, "111"), None);
  assert_eq!(find_matching(&entries, "/a.pdf", 10, "222"), None);
  // Saving again replaces the stored position.
  let entries = upsert_entry(entries, entry("/a.pdf", 5.0, 200));
  assert_eq!(entries.len(), 1);
  let found = find_matching(&entries, "/a.pdf", 10, "111").map(|i| entries[i].progress);
  assert_eq!(found, Some(5.0));
}

#[test]
fn saving_keeps_only_recent_entries() {
  let mut entries = Vec::new();
  for index in 0..(MAX_ENTRIES + 5) {
    entries = upsert_entry(entries, entry(&format!("/doc-{index:03}.pdf"), 1.0, index as u64 + 1));
  }
  assert_eq!(entries.len(), MAX_ENTRIES);
  // Newest survived, oldest were dropped, newest first.
  assert!(entries.iter().any(|entry| entry.path == "/doc-104.pdf"));
  assert!(!entries.iter().any(|entry| entry.path == "/doc-000.pdf"));
  assert_eq!(entries[0].path, "/doc-104.pdf");
}

#[test]
fn equal_times_are_listed_by_path() {
  let entries = upsert_entry(Vec::new(), entry("/b.pdf", 1.0, 5));
  let entries = upsert_entry(entries, entry("/a.pdf", 1.0, 5));
  let entries = upsert_entry(entries, entry("/c.pdf", 1.0, 9));
  let paths = entries.iter().map(|e| e.path.as_str()).collect::<Vec<_>>();
  assert_eq!(paths, vec!["/c.pdf", "/a.pdf", "/b.pdf"]);
}
