use pdf_tui::navigation::reachable_grid_starts;

#[test]
fn grid_reachable_starts_match_row_browsing_with_clamped_end() {
  assert_eq!(reachable_grid_starts(20, 6, 3), vec![0, 3, 6, 9, 12, 14]);
  assert_eq!(reachable_grid_starts(10, 6, 3), vec![0, 3, 4]);
  assert_eq!(reachable_grid_starts(3, 6, 3), vec![0]);
}

#[test]
fn single_page_grid_moves_one_page_at_a_time() {
  assert_eq!(reachable_grid_starts(4, 1, 1), vec![0, 1, 2, 3]);
}

#[test]
fn empty_document_has_one_start() {
  assert_eq!(reachable_grid_starts(0, 4, 2), vec![0]);
}

use pdf_tui::geometry::Rect;
use pdf_tui::navigation::best_grid_start_for_match;

#[test]
fn search_matches_jump_to_a_start_showing_the_page_near_the_middle() {
  // 2x3 grid over 20 pages, no drawn grid: the middle slot of the grid is
  // preferred, row starts 0, 3, 6, 9, 12, 14.
  assert_eq!(best_grid_start_for_match(20, 10, 6, 3, 2, None), Some(6));
  assert_eq!(best_grid_start_for_match(20, 0, 6, 3, 2, None), Some(0));
  assert_eq!(best_grid_start_for_match(20, 19, 6, 3, 2, None), Some(14));
  assert_eq!(best_grid_start_for_match(20, 20, 6, 3, 2, None), None);
  assert_eq!(best_grid_start_for_match(0, 0, 6, 3, 2, None), None);
}

#[test]
fn drawn_grids_measure_from_the_viewport_middle() {
  let area = Rect::new(0, 0, 30, 20);
  let slots = vec![
    Rect::new(0, 0, 10, 10),
    Rect::new(10, 0, 10, 10),
    Rect::new(20, 0, 10, 10),
    Rect::new(0, 10, 10, 10),
    Rect::new(10, 10, 10, 10),
    Rect::new(20, 10, 10, 10),
  ];
  assert_eq!(best_grid_start_for_match(20, 10, 6, 3, 2, Some((area, slots.clone()))), Some(6));
  // A slot the drawn grid lacks is never chosen.
  assert_eq!(best_grid_start_for_match(20, 10, 6, 3, 2, Some((area, vec![]))), None);
}
