use pdf_tui::config::layout::EffectiveLayoutConfig;
use pdf_tui::geometry::Rect;
use pdf_tui::layout::{grid_slice_span, ScrollLayout, ScrollLayoutBuilder};

fn scroll_config(columns: u16) -> EffectiveLayoutConfig {
  EffectiveLayoutConfig {
    name: "test".into(),
    strategy: "scroll".into(),
    columns,
    rows: 1,
    scroll_divisor: 1,
    gap_x: 0,
    gap_y: 0,
    show_border: false,
    padding: 0,
  }
}

fn build_scroll_layout(
  viewport_width: u16,
  viewport_height: u16,
  page_width: u16,
  config: &EffectiveLayoutConfig,
  dims: &[Option<(u32, u32)>],
) -> ScrollLayout {
  ScrollLayoutBuilder {
    viewport_width,
    viewport_height,
    config,
    dimensions: dims,
    cell_pixels: Some((1, 1)),
  }
  .build(page_width)
}

/// Reference implementation of the visible-row rule, kept deliberately
/// naive to cross-check the optimized version.
fn naive_visible_rows(layout: &ScrollLayout, start: usize, height: u16, divisor: u16) -> Vec<usize> {
  let start = start.min(layout.rows.len() - 1);
  let mut rows: Vec<usize> = Vec::new();
  let mut used = 0_u32;
  for row_index in start..layout.rows.len() {
    if rows.len() >= usize::from(divisor.max(1)) {
      break;
    }
    let gap = rows
      .last()
      .map_or(0, |last| u32::from(layout.rows[*last].gap_after));
    let candidate = used + gap + u32::from(layout.rows[row_index].height);
    if !rows.is_empty() && candidate > u32::from(height) {
      break;
    }
    rows.push(row_index);
    used = candidate;
  }
  rows
}

#[test]
fn grid_slice_span_clips_to_page_height() {
  // A 120-cell grid cut into 3 slices has boundaries 0/40/80/120.
  assert_eq!(grid_slice_span(120, 3, 0, 120), (0, 40));
  assert_eq!(grid_slice_span(120, 3, 2, 120), (80, 40));
  // A shorter page clips to its own height: slice 1 stops at 60, slice 2
  // is gone entirely.
  assert_eq!(grid_slice_span(120, 3, 1, 60), (40, 20));
  assert_eq!(grid_slice_span(120, 3, 2, 60), (60, 0));
  // Out-of-range indices clamp to the last slice.
  assert_eq!(grid_slice_span(120, 3, 9, 60), grid_slice_span(120, 3, 2, 60));
}

#[test]
fn mixed_height_pages_share_the_tallest_grid() {
  let config = scroll_config(2);
  let dims = [Some((100_u32, 300_u32)), Some((100_u32, 150_u32))];
  let layout = build_scroll_layout(80, 50, 40, &config, &dims);

  // The tallest page (120 cells, slice limit 50) dictates a 3-slice grid.
  let tall: Vec<_> = layout.items.iter().filter(|i| i.page_index == 0).collect();
  let short: Vec<_> = layout.items.iter().filter(|i| i.page_index == 1).collect();
  assert_eq!(tall.len(), 3);
  assert_eq!(short.len(), 2);
  for item in &layout.items {
    assert_eq!(item.slice_count, 3);
    assert_eq!(item.grid_height, 120);
  }
  assert_eq!(tall.iter().map(|i| i.height).collect::<Vec<_>>(), vec![40, 40, 40]);
  assert_eq!(short.iter().map(|i| i.height).collect::<Vec<_>>(), vec![40, 20]);

  // Every slice row hosts both columns while both have content; the
  // shorter page simply stops after its last slice.
  assert_eq!(layout.rows.len(), 3);
  assert_eq!(layout.rows[0].items.len(), 2);
  assert_eq!(layout.rows[1].items.len(), 2);
  assert_eq!(layout.rows[2].items.len(), 1);
  assert_eq!(layout.rows[0].height, 40);
  assert_eq!(layout.rows[1].height, 40);

  // Columns align at the top of each row and slices stay contiguous
  // within a page: no blank bands mid-page while scrolling.
  assert_eq!(short[0].y, tall[0].y);
  for pair in tall.windows(2) {
    assert_eq!(pair[1].y, pair[0].y + u32::from(pair[0].height));
  }
  assert_eq!(short[1].y, short[0].y + 40);
  assert_eq!(layout.total_height, 120);
}

#[test]
fn uniform_pages_keep_proportional_slicing() {
  let config = scroll_config(2);
  let dims = [Some((100_u32, 300_u32)), Some((100_u32, 300_u32))];
  let layout = build_scroll_layout(80, 50, 40, &config, &dims);
  assert_eq!(layout.items.len(), 6);
  for item in &layout.items {
    assert_eq!(item.slice_count, 3);
    assert_eq!(item.grid_height, item.full_height);
    assert_eq!(item.height, 40);
  }
}

#[test]
fn visible_rows_and_max_scroll_match_reference() {
  for (divisor, gap_y, height) in [(1, 0, 50), (3, 1, 50), (3, 2, 17), (5, 1, 9)] {
    let config = EffectiveLayoutConfig {
      scroll_divisor: divisor,
      gap_y,
      ..scroll_config(1)
    };
    let dims = (0..7)
      .map(|index| Some((100, 100 + index * 37)))
      .collect::<Vec<_>>();
    let layout = build_scroll_layout(60, height, 30, &config, &dims);
    let mut expected_max = None;
    for start in 0..layout.rows.len() {
      let naive = naive_visible_rows(&layout, start, height, divisor);
      let fast = layout.visible_rows(start, height, divisor);
      assert_eq!(fast.clone().collect::<Vec<_>>(), naive, "start {start}");
      if expected_max.is_none() && naive.last() == Some(&(layout.rows.len() - 1)) {
        expected_max = Some(start);
      }
    }
    assert_eq!(Some(layout.max_scroll_row(height, divisor)), expected_max);
  }
}

#[test]
fn placed_items_center_rows_and_top_align_slices() {
  let config = EffectiveLayoutConfig {
    scroll_divisor: 2,
    gap_y: 1,
    ..scroll_config(2)
  };
  let dims = [Some((100_u32, 300_u32)), Some((100_u32, 150_u32))];
  let layout = build_scroll_layout(80, 100, 40, &config, &dims);
  let viewport = Rect::new(2, 3, 80, 100);
  let placed = layout.placed_items(1, viewport, 2);
  // Rows 1 and 2 are visible: 40 + 40 cells, centered in 100 rows.
  let top = 3 + (100 - 80) / 2;
  assert_eq!(placed.len(), 3);
  assert!(placed[..2].iter().all(|placed| placed.area.y == top));
  assert_eq!(placed[2].area.y, top + 40);
  assert_eq!(placed[1].area.height, 20);
  assert_eq!(placed[0].area.x, 2 + placed[0].item.x);
}

#[test]
fn placed_items_keep_areas_on_the_screen() {
  let config = scroll_config(1);
  let dims = [Some((100_u32, 100_u32))];
  let layout = build_scroll_layout(40, 40, 40, &config, &dims);
  let viewport = Rect::new(u16::MAX - 10, u16::MAX - 5, 40, 40);
  let placed = layout.placed_items(0, viewport, 1);
  assert_eq!(placed.len(), 1);
  let area = placed[0].area;
  assert!(u32::from(area.x) + u32::from(area.width) <= u32::from(u16::MAX));
  assert!(u32::from(area.y) + u32::from(area.height) <= u32::from(u16::MAX));
  assert!(layout.placed_items(0, Rect::new(0, 0, 40, 0), 1).is_empty());
}

#[test]
fn scroll_rows_list_every_item_once_in_order() {
  let config = scroll_config(2);
  let dims = vec![Some((100, 300)), Some((100, 150)), Some((100, 80)), None, Some((100, 120))];
  let layout = build_scroll_layout(120, 40, 50, &config, &dims);
  let listed: Vec<usize> = layout.rows.iter().flat_map(|row| row.items.iter().copied()).collect();
  assert_eq!(listed, (0..layout.items.len()).collect::<Vec<_>>());
  for (r, row) in layout.rows.iter().enumerate() {
    for &i in &row.items {
      assert_eq!(layout.items[i].row_index, r);
    }
  }
  // Each page's slices tile its full height.
  for page in 0..dims.len() {
    let slices: Vec<_> = layout.items.iter().filter(|item| item.page_index == page).collect();
    let total: u32 = slices.iter().map(|item| u32::from(item.height)).sum();
    assert_eq!(total, u32::from(slices[0].full_height));
  }
  // Each item starts at the top of its row and fits in it; the total height
  // sums every row's height and gap.
  let mut top: u32 = 0;
  for row in &layout.rows {
    for &i in &row.items {
      assert_eq!(layout.items[i].y, top);
      assert!(layout.items[i].height <= row.height);
    }
    let tallest = row.items.iter().map(|&i| layout.items[i].height).max().unwrap_or(0).max(1);
    assert_eq!(row.height, tallest);
    top += u32::from(row.height) + u32::from(row.gap_after);
  }
  assert_eq!(layout.total_height, top);
  // Every row lists an item; every item is a full-width slice of its page,
  // and a page's slices are its first ones, in order.
  for row in &layout.rows {
    assert!(!row.items.is_empty());
  }
  for page in 0..dims.len() {
    let slices: Vec<_> = layout.items.iter().filter(|item| item.page_index == page).collect();
    for (j, item) in slices.iter().enumerate() {
      assert_eq!(usize::from(item.slice_index), j);
      assert!(item.slice_index < item.slice_count);
      assert_eq!(item.width, item.full_width);
      assert!(item.height >= 1);
    }
    // Each slice of a page starts where the one before it ends.
    for pair in slices.windows(2) {
      assert_eq!(pair[1].y, pair[0].y + u32::from(pair[0].height));
    }
  }
}

#[test]
fn grid_slices_tile_pages_of_any_height() {
  for &(grid, count, full) in &[(120u16, 3u16, 120u16), (120, 3, 50), (60, 4, 200), (7, 3, 9), (0, 0, 0)] {
    let n = count.max(1);
    let mut next = 0u32;
    for i in 0..n {
      let (start, height) = grid_slice_span(grid, count, i, full);
      assert_eq!(start, next);
      next = start + u32::from(height);
      assert!(next <= u32::from(full.max(1)));
    }
    assert_eq!(next, u32::from(grid.max(1).min(full.max(1))));
    assert_eq!(grid_slice_span(grid, count, n + 5, full), grid_slice_span(grid, count, n - 1, full));
  }
}
