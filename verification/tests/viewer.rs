use pdf_tui::config::layout::EffectiveLayoutConfig;
use pdf_tui::layout::{ScrollLayout, ScrollLayoutBuilder};
use pdf_tui::viewer::{ViewerFrame, ViewerPosition};

fn config(strategy: &str, rows: u16, columns: u16) -> EffectiveLayoutConfig {
  EffectiveLayoutConfig {
    name: "test".into(),
    strategy: strategy.into(),
    columns,
    rows,
    scroll_divisor: 1,
    gap_x: 0,
    gap_y: 0,
    show_border: false,
    padding: 0,
  }
}

fn three_pages(config: &EffectiveLayoutConfig) -> ScrollLayout {
  let dims = [Some((100_u32, 100_u32)); 3];
  ScrollLayoutBuilder {
    viewport_width: 40,
    viewport_height: 40,
    config,
    dimensions: &dims,
    cell_pixels: Some((1, 1)),
  }
  .build(40)
}

#[test]
fn scroll_navigation_moves_page_by_page() {
  let config = config("scroll", 1, 1);
  let layout = three_pages(&config);
  assert_eq!(layout.rows.len(), 3);
  let frame = ViewerFrame { page_count: 3, layout: &config, scroll_layout: Some(&layout), viewport_height: 40 };
  let mut position = ViewerPosition::new();
  position.next_page(&frame);
  assert_eq!((position.focused_page, position.scroll), (1, 1));
  position.end(&frame);
  assert_eq!((position.focused_page, position.scroll), (2, 2));
  position.scroll_down(&frame);
  assert_eq!(position.scroll, 2);
  position.scroll_up(&frame);
  assert_eq!((position.focused_page, position.scroll), (1, 1));
  position.previous_page(&frame);
  position.previous_page(&frame);
  assert_eq!((position.focused_page, position.scroll), (0, 0));
  position.page_down(&frame);
  assert_eq!(position.focused_page, 1);
  position.home();
  assert_eq!(position, ViewerPosition::new());
}

#[test]
fn grid_navigation_moves_the_window() {
  let config = config("grid", 2, 2);
  let frame = ViewerFrame { page_count: 10, layout: &config, scroll_layout: None, viewport_height: 40 };
  let mut position = ViewerPosition::new();
  position.scroll_down(&frame);
  assert_eq!((position.grid_start_page, position.focused_page), (2, 2));
  position.page_down(&frame);
  assert_eq!(position.grid_start_page, 6);
  position.page_down(&frame);
  assert_eq!(position.grid_start_page, 6);
  position.previous_page(&frame);
  assert_eq!((position.grid_start_page, position.focused_page), (5, 5));
  position.end(&frame);
  assert_eq!((position.grid_start_page, position.focused_page), (6, 9));
  position.page_up(&frame);
  position.page_up(&frame);
  assert_eq!(position.grid_start_page, 0);
}

#[test]
fn an_empty_document_stays_on_page_zero() {
  let config = config("grid", 2, 2);
  let frame = ViewerFrame { page_count: 0, layout: &config, scroll_layout: None, viewport_height: 40 };
  let mut position = ViewerPosition { focused_page: 3, scroll: 0, grid_start_page: 2 };
  position.next_page(&frame);
  assert_eq!((position.focused_page, position.grid_start_page), (0, 0));
  position.end(&frame);
  assert_eq!(position.focused_page, 0);
}
