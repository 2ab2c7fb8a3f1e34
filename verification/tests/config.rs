use pdf_tui::config::behavior::BehaviorConfig;
use pdf_tui::config::keymap::{
  append_missing_actions, format_keymap_toml, toml_basic_string, KeymapConfig, KeymapEntry,
  KeymapOn,
};
use pdf_tui::config::render::{PdfRasterBackend, RenderConfig};
use pdf_tui::config::theme::{parse_color, ThemeColor, ThemeConfig};
use pdf_tui::config::{add_app_config_comments, pdf_config_comment, AppConfig};

const HEADER: [&str; 2] = [
  "pdf-tui main configuration.",
  "Missing fields are rewritten with defaults when the app loads this file.",
];

const BODY: &str = "[layout]\nactive = \"scroll\"\nactive_args = [\"1\", \"3\"]\ngap_x = 2\n\n[layout.presets.grid]\nstrategy = \"grid\"\nparams = [\"rows\", \"columns\"]\ncolumns = 2\n\n[layout.presets.scroll]\nstrategy = \"scroll\"\nparams = [\"columns\", \"scroll_divisor\"]\ncolumns = 1\n\n[render]\npage_dpi = 180\nunknown_key = 1\n";

#[test]
fn app_config_toml_writes_parseable_commented_defaults() {
  let body = add_app_config_comments(BODY, &HEADER);
  toml::from_str::<toml::Value>(&body).expect("commented default config should parse");
  assert!(body.contains("# pdf-tui main configuration."));
  assert!(body.contains("# Layout preset selected on startup."));
}

#[test]
fn app_config_toml_deduplicates_preset_field_comments() {
  let body = add_app_config_comments(BODY, &HEADER);
  assert_eq!(body.matches("# Layout algorithm used by this preset").count(), 1);
  assert_eq!(body.matches("# Default number of page columns.").count(), 1);
}

#[test]
fn comments_come_before_their_table_and_keys() {
  let body = add_app_config_comments("[render]\npage_dpi = 180\n", &["Top."]);
  assert_eq!(
    body,
    "# Top.\n\n# PDF conversion, terminal rendering, preloading, and cache settings.\n[render]\n# DPI used when rasterizing PDF pages before terminal rendering.\npage_dpi = 180\n"
  );
  assert_eq!(pdf_config_comment("layout.presets.*.rows"), Some("Default number of page rows for grid layouts."));
  assert_eq!(pdf_config_comment("behavior.search_right_ratio"), Some("Right pane width ratio in the search view."));
  assert_eq!(pdf_config_comment("nope"), None);
}

#[test]
fn defaults_are_normalized_upwards() {
  let mut config = AppConfig::default();
  config.render.page_dpi = 10;
  config.render.max_concurrent = 0;
  config.behavior.scroll_lines = 0;
  config.behavior.auto_refresh_poll_ms = 5;
  config.normalize_defaults();
  assert_eq!(config.render.page_dpi, 36);
  assert_eq!(config.render.max_concurrent, 1);
  assert_eq!(config.behavior.scroll_lines, 1);
  assert_eq!(config.behavior.auto_refresh_poll_ms, 200);
  let behavior = BehaviorConfig::default();
  assert_eq!(behavior.scroll_lines, 4);
  assert_eq!(behavior.auto_refresh_min_interval_ms, 1500);
}

#[test]
fn render_defaults_and_terminal_capability() {
  let mut render = RenderConfig::default();
  assert_eq!(render.pdf_raster_backend, PdfRasterBackend::Pdfium);
  assert_eq!(render.pdf_raster_backend.label(), "pdfium");
  assert_eq!(PdfRasterBackend::Poppler.label(), "poppler");
  assert_eq!(PdfRasterBackend::Mutool.label(), "mutool");
  assert_eq!(render.cache_max_bytes, 512 * 1024 * 1024);
  render.chafa_args.push("--passthrough=tmux".to_string());
  render.apply_terminal_capability("--colors=256", "--symbols=all", Some("tmux"));
  assert_eq!(
    render.chafa_args,
    vec![
      "--colors=256".to_string(),
      "--symbols=all".to_string(),
      "--animate=off".to_string(),
      "--polite=on".to_string(),
    ]
  );
  assert_eq!(render.passthrough.as_deref(), Some("tmux"));
}

#[test]
fn colors_are_read_by_name_index_and_hex() {
  assert_eq!(parse_color(" Dark_Grey "), ThemeColor::DarkGray);
  assert_eq!(parse_color("white"), ThemeColor::White);
  assert_eq!(parse_color("ansi:42"), ThemeColor::Indexed(42));
  assert_eq!(parse_color("ansi:300"), ThemeColor::Reset);
  assert_eq!(parse_color("#FF8000"), ThemeColor::Rgb(255, 128, 0));
  assert_eq!(parse_color("#+f+f+f"), ThemeColor::Rgb(15, 15, 15));
  assert_eq!(parse_color("#12345g"), ThemeColor::Reset);
  assert_eq!(parse_color("chartreuse"), ThemeColor::Reset);
  let theme = ThemeConfig::default();
  assert_eq!(theme.color(&theme.accent), ThemeColor::Cyan);
  assert_eq!(theme.which_key_separator, " -> ");
}

#[test]
fn missing_default_actions_are_appended_once() {
  let mut keymap = KeymapConfig::default();
  keymap.viewer.keymap.retain(|entry| entry.run != "quit");
  let before = keymap.viewer.keymap.len();
  let defaults = KeymapConfig::default();
  append_missing_actions(&mut keymap.viewer.keymap, &defaults.viewer.keymap);
  // Both quit bindings come back: the first one appended binds the action.
  assert_eq!(keymap.viewer.keymap.len(), before + 1);
  let again = keymap.viewer.keymap.len();
  keymap.normalize_defaults();
  assert_eq!(keymap.viewer.keymap.len(), again);
}

#[test]
fn keymap_toml_lists_sections_and_escapes() {
  let mut keymap = KeymapConfig::default();
  keymap.global.keymap = vec![KeymapEntry {
    on: KeymapOn::Many(vec!["g".to_string(), "\u{1}".to_string()]),
    run: "go\\".to_string(),
    desc: "Tab\there\u{8}".to_string(),
  }];
  let text = format_keymap_toml(&keymap);
  assert!(text.starts_with("[viewer]\nkeymap = [\n  { on = \"q\", run = \"quit\", desc = \"Quit pdf-tui\" },\n"));
  assert!(text.ends_with("[global]\nkeymap = [\n  { on = [\"g\", \"\\u0001\"], run = \"go\\\\\", desc = \"Tab\\there\\b\" },\n]\n\n"));
  assert_eq!(toml_basic_string("a\"b\u{c}"), "\"a\\\"b\\f\"");
  let (viewer, _, input, global) = keymap.binding_entries();
  assert_eq!(viewer[0].0, vec!["q".to_string()]);
  assert_eq!(input.len(), 17);
  assert_eq!(global[0].1, "go\\");
}

#[test]
fn default_viewer_keys_follow_the_documented_usage() {
  let defaults = KeymapConfig::default();
  let binds = |section: &pdf_tui::config::keymap::KeymapSection, key: &str, action: &str| {
    section
      .keymap
      .iter()
      .any(|entry| matches!(&entry.on, KeymapOn::One(k) if k == key) && entry.run == action)
  };
  for (key, action) in [
    ("j", "scroll_down"),
    ("k", "scroll_up"),
    ("h", "page_up"),
    ("l", "page_down"),
    ("f1", "help"),
    ("b", "bookmarks"),
    ("s", "search"),
    ("m", "metadata"),
    ("q", "quit"),
  ] {
    assert!(binds(&defaults.viewer, key, action), "viewer binds {key} to {action}");
  }
  assert!(binds(&defaults.global, ":", "command"));
}
