use pdf_tui::config::layout::{EffectiveLayoutConfig, LayoutConfig, LayoutPresetConfig};

fn effective(name: &str, strategy: &str, columns: u16, rows: u16, divisor: u16) -> EffectiveLayoutConfig {
  EffectiveLayoutConfig {
    name: name.to_string(),
    strategy: strategy.to_string(),
    columns,
    rows,
    scroll_divisor: divisor,
    gap_x: 2,
    gap_y: 1,
    show_border: true,
    padding: 1,
  }
}

#[test]
fn default_layout_is_one_scrolling_column() {
  let config = LayoutConfig::default();
  let layout = config.effective();
  assert_eq!(layout.name, "scroll");
  assert_eq!(layout.strategy, "scroll");
  assert_eq!((layout.columns, layout.rows, layout.scroll_divisor), (1, 1, 3));
  assert_eq!((layout.gap_x, layout.gap_y), (2, 1));
  assert!(!layout.show_border);
  assert_eq!(layout.padding, 0);
  assert!(layout.is_scroll());
  assert_eq!(layout.label(), "scroll 1 3");
}

#[test]
fn layout_arguments_fill_the_preset_parameters() {
  let mut config = LayoutConfig::default();
  let layout = config.set_active_from_args("grid", &["3", " 4 "]).unwrap();
  assert_eq!(layout.strategy, "grid");
  assert_eq!((layout.rows, layout.columns), (3, 4));
  assert_eq!(layout.grid_capacity(), 12);
  assert_eq!(layout.label(), "grid 3x4");
  assert!(layout.show_border);
  assert_eq!(config.active, "grid");
  assert_eq!(config.active_args, vec!["3".to_string(), "4".to_string()]);
  // A single `RxC` argument fills rows and columns.
  let shaped = config.set_active_from_args("grid", &["2x5"]).unwrap();
  assert_eq!((shaped.rows, shaped.columns), (2, 5));
  assert_eq!(config.active_args, vec!["2".to_string(), "5".to_string()]);
}

#[test]
fn refused_layout_arguments_leave_the_config_unchanged() {
  let mut config = LayoutConfig::default();
  assert_eq!(
    config.set_active_from_args("wide", &[]).unwrap_err(),
    "unknown layout: wide"
  );
  assert_eq!(
    config.set_active_from_args("grid", &["1", "2", "3"]).unwrap_err(),
    "too many layout arguments"
  );
  assert_eq!(
    config.set_active_from_args("grid", &["0", "2"]).unwrap_err(),
    "rows must be greater than zero; usage: :layout grid <rows> <columns>"
  );
  assert_eq!(
    config.set_active_from_args("scroll", &["x"]).unwrap_err(),
    "columns must be a non-negative integer; usage: :layout scroll <columns> <scroll_divisor>"
  );
  assert_eq!(config.active, "scroll");
}

#[test]
fn unusable_active_layout_falls_back_to_scrolling() {
  let mut config = LayoutConfig::default();
  config.active = "missing".to_string();
  let layout = config.effective();
  assert_eq!(layout.name, "scroll");
  assert_eq!((layout.columns, layout.rows, layout.scroll_divisor), (1, 1, 3));
  assert!(layout.show_border);
  assert_eq!(layout.padding, 1);
}

#[test]
fn presets_take_aliases_and_normalize() {
  let mut preset = LayoutPresetConfig::new();
  preset.strategy = " Fixed-Grid ".to_string();
  preset.params = vec!["COLS".to_string(), "border".to_string(), "pad".to_string()];
  let mut config = LayoutConfig::default();
  config.presets.push(("wide".to_string(), preset));
  let layout = config.set_active_from_args("wide", &["3", "off", "4"]).unwrap();
  assert_eq!(layout.strategy, "grid");
  assert_eq!((layout.columns, layout.rows), (3, 1));
  assert!(!layout.show_border);
  assert_eq!(layout.padding, 4);
  assert_eq!(
    config.set_active_from_args("wide", &["3", "maybe"]).unwrap_err(),
    "border must be true or false; usage: :layout wide <COLS> <border> <pad>"
  );
}

#[test]
fn missing_builtin_presets_are_added_and_filled() {
  let mut config = LayoutConfig::default();
  config.presets.retain(|(name, _)| name == "grid");
  config.presets[0].1.scroll_divisor = 0;
  config.presets[0].1.padding = None;
  config.normalize_defaults();
  let names: Vec<&str> = config.presets.iter().map(|(name, _)| name.as_str()).collect();
  assert_eq!(names, vec!["grid", "scroll"]);
  assert_eq!(config.presets[0].1.scroll_divisor, 3);
  assert_eq!(config.presets[0].1.padding, Some(1));
}

#[test]
fn labels_follow_the_strategy() {
  assert_eq!(effective("s", "scroll", 0, 0, 0).label(), "s 1 1");
  assert_eq!(effective("g", "grid", 4, 0, 2).label(), "g 1x4");
  assert_eq!(effective("other", "mosaic", 4, 3, 2).label(), "other");
  assert_eq!(effective("g", "grid", 0, 0, 2).grid_capacity(), 1);
}
