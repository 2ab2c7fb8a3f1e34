use pdf_tui::geometry::{contains, distance_to_rect, fitted_page_area, page_display_cell, Rect};

#[test]
fn fitted_page_area_keeps_aspect_and_centers() {
  // A portrait page in a wide area is limited by height and centered.
  let area = Rect::new(10, 5, 100, 20);
  let fitted = fitted_page_area(area, Some((8, 16)), Some((595, 842)));
  assert_eq!(fitted.height, 20);
  assert!(fitted.width < 100);
  assert_eq!(fitted.x, 10 + (100 - fitted.width) / 2);
  // Degenerate areas never produce an empty page rect or overflow.
  let tiny = fitted_page_area(Rect::new(0, 0, 1, 1), None, Some((1, 100_000)));
  assert_eq!((tiny.width, tiny.height), (1, 1));
}

#[test]
fn distance_to_rect_does_not_wrap_on_wide_terminals() {
  let area = Rect::new(0, 0, 10, 10);
  assert_eq!(distance_to_rect(area, 5, 5), 0);
  // 300 columns away: 291^2 must not wrap around u16.
  assert_eq!(distance_to_rect(area, 300, 5), 291 * 291);
  let near = Rect::new(250, 0, 10, 10);
  assert!(distance_to_rect(near, 300, 5) < distance_to_rect(area, 300, 5));
}

#[test]
fn distance_to_rect_counts_both_axes() {
  let area = Rect::new(10, 10, 5, 5);
  assert_eq!(distance_to_rect(area, 7, 6), 3 * 3 + 4 * 4);
  assert_eq!(distance_to_rect(area, 14, 14), 0);
  assert_eq!(distance_to_rect(area, 15, 14), 1);
}

#[test]
fn page_display_cell_clamps_only_when_asked() {
  let area = Rect::new(10, 5, 4, 3);
  assert_eq!(page_display_cell(area, 0, 11, 6, false), (1, 1));
  assert_eq!(page_display_cell(area, 20, 11, 6, false), (1, 21));
  // Outside the area: left and above count as the first cell; clamping
  // pulls a far position back to the last cell.
  assert_eq!(page_display_cell(area, 0, 2, 1, false), (0, 0));
  assert_eq!(page_display_cell(area, 0, 50, 50, false), (40, 45));
  assert_eq!(page_display_cell(area, 0, 50, 50, true), (3, 2));
}

#[test]
fn contains_is_half_open() {
  let area = Rect::new(2, 3, 4, 5);
  assert!(contains(area, 2, 3));
  assert!(contains(area, 5, 7));
  assert!(!contains(area, 6, 7));
  assert!(!contains(area, 5, 8));
}
