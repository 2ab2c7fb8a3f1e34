use pdf_tui::bookmark_tree::BookmarkTree;
use pdf_tui::bookmarks::PdfBookmark;

fn tree(levels_and_pages: &[(u16, usize)]) -> BookmarkTree {
  let entries = levels_and_pages
    .iter()
    .enumerate()
    .map(|(id, (level, page_index))| PdfBookmark {
      id,
      title: format!("entry {id}"),
      level: *level,
      page_index: *page_index,
    })
    .collect();
  BookmarkTree::new(Ok(entries), 2, 1)
}

/// The entry whose page is closest to `progress` (the first on a tie), as
/// the bookmarks view picks it before revealing it.
fn nearest(tree: &BookmarkTree, progress: f64) -> Option<usize> {
  tree
    .entries
    .iter()
    .enumerate()
    .min_by(|(_, left), (_, right)| {
      let distance = |bookmark: &PdfBookmark| (bookmark.page_index as f64 - progress).abs();
      distance(left).total_cmp(&distance(right))
    })
    .map(|(index, _)| index)
}

fn select_nearest(tree: &mut BookmarkTree, progress: f64) {
  let best = nearest(tree, progress);
  tree.select_revealed(best);
}

#[test]
fn selecting_nearest_expands_ancestors_and_toggle_all_round_trips() {
  // 0: ch1 (p0) > 1: s1.1 (p2) > 2: s1.1.1 (p3); 3: ch2 (p9)
  let mut tree = tree(&[(1, 0), (2, 2), (3, 3), (1, 9)]);
  assert_eq!(tree.visible_indices(), vec![0, 3]);
  select_nearest(&mut tree, 3.2);
  assert_eq!(tree.selected, Some(2));
  assert_eq!(tree.visible_indices(), vec![0, 1, 2, 3]);

  tree.toggle_all();
  assert_eq!(tree.visible_indices(), vec![0, 1, 2, 3]);
  tree.toggle_all();
  // Collapsing everything moves the selection to the visible ancestor.
  assert_eq!(tree.visible_indices(), vec![0, 3]);
  assert_eq!(tree.selected, Some(0));

  tree.select_visible_delta(5);
  assert_eq!(tree.selected, Some(3));
  tree.clamp_scroll(1);
  assert_eq!(tree.scroll, 1);
  assert_eq!(tree.index_at_row(0), Some(3));
}

#[test]
fn toggling_the_selected_entry_shows_and_hides_its_children() {
  let mut tree = tree(&[(1, 0), (2, 1), (2, 2), (1, 3)]);
  assert!(tree.has_children(0));
  assert!(!tree.has_children(1));
  assert!(!tree.has_children(3));
  assert!(!tree.has_children(9));
  tree.selected = Some(0);
  tree.toggle_selected();
  assert_eq!(tree.visible_indices(), vec![0, 1, 2, 3]);
  tree.toggle_selected();
  assert_eq!(tree.visible_indices(), vec![0, 3]);
  // A leaf does not toggle.
  tree.selected = Some(3);
  tree.toggle_selected();
  assert_eq!(tree.visible_indices(), vec![0, 3]);
}

#[test]
fn parents_are_the_closest_shallower_entries() {
  let tree = tree(&[(1, 0), (2, 1), (3, 2), (2, 3), (1, 4)]);
  assert_eq!(tree.parent(0), None);
  assert_eq!(tree.parent(2), Some(1));
  assert_eq!(tree.parent(3), Some(0));
  assert_eq!(tree.parent(4), None);
  assert_eq!(tree.parent(7), None);
}

#[test]
fn selection_moves_stay_on_visible_entries() {
  let mut tree = tree(&[(1, 0), (2, 1), (1, 2)]);
  tree.select_visible_delta(1);
  assert_eq!(tree.selected, Some(2));
  tree.select_visible_delta(-9);
  assert_eq!(tree.selected, Some(0));
  assert_eq!(tree.selected_entry().map(|b| b.title.clone()), Some("entry 0".to_string()));
  let mut empty = BookmarkTree::new(Ok(vec![]), 1, 1);
  empty.select_visible_delta(1);
  assert_eq!(empty.selected, None);
}

#[test]
fn failed_outline_keeps_the_error_and_panel_shares() {
  let mut tree = BookmarkTree::new(Err("pdftk missing".to_string()), 0, 9);
  assert_eq!(tree.error.as_deref(), Some("pdftk missing"));
  assert!(tree.entries.is_empty());
  assert_eq!((tree.left_ratio, tree.right_ratio), (1, 9));
  tree.narrow_panel();
  assert_eq!(tree.left_ratio, 1);
  for _ in 0..10 {
    tree.widen_panel();
  }
  assert_eq!(tree.left_ratio, 8);
}

#[test]
fn scrolling_follows_the_selection_and_stops_at_the_end() {
  let mut tree = tree(&[(1, 0), (1, 1), (1, 2), (1, 3), (1, 4), (1, 5)]);
  tree.selected = Some(5);
  tree.clamp_scroll(2);
  assert_eq!(tree.scroll, 4);
  tree.selected = Some(1);
  tree.clamp_scroll(2);
  assert_eq!(tree.scroll, 1);
  tree.selected = None;
  tree.scroll = 50;
  tree.clamp_scroll(4);
  assert_eq!(tree.scroll, 2);
}
