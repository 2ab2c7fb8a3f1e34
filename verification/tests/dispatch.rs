use pdf_tui::dispatch::{
  action_available, key_context, KeyContext,
  decide_action, decide_command, route_input, AppCommand, InputKind, InputRoute, PointerButton,
  PromptCommand,
};
use pdf_tui::text::split_words;
use pdf_tui::editing::ViewMode;

#[test]
fn actions_name_commands_by_view() {
  assert_eq!(decide_action("quit", ViewMode::Viewer, false), AppCommand::Quit);
  assert_eq!(decide_action("scroll_down", ViewMode::Metadata, false), AppCommand::MetadataScrollDown);
  assert_eq!(decide_action("scroll_down", ViewMode::Viewer, false), AppCommand::ScrollDown);
  assert_eq!(decide_action("back", ViewMode::Viewer, true), AppCommand::CancelSelectionAnchor);
  assert_eq!(decide_action("back", ViewMode::Search, false), AppCommand::BackToViewer);
  assert_eq!(decide_action("selection_cancel", ViewMode::Selection, false), AppCommand::BackToViewer);
  assert_eq!(decide_action("selection_cancel", ViewMode::Viewer, false), AppCommand::CancelSelectionAnchor);
  assert_eq!(decide_action("clear-cache", ViewMode::Viewer, false), AppCommand::ClearCache);
  assert_eq!(decide_action("clear_cache", ViewMode::Viewer, false), AppCommand::ClearCache);
}

#[test]
fn layout_actions_keep_their_arguments() {
  assert_eq!(
    decide_action("layout grid 2 2", ViewMode::Viewer, false),
    AppCommand::Layout { command: "grid 2 2".to_string(), persist: true }
  );
  assert_eq!(
    decide_action("layout-use scroll 1 3", ViewMode::Viewer, false),
    AppCommand::Layout { command: "scroll 1 3".to_string(), persist: false }
  );
  assert_eq!(
    decide_action("dance", ViewMode::Viewer, false),
    AppCommand::Unknown("dance".to_string())
  );
}

#[test]
fn input_goes_to_the_dialog_prompt_or_view() {
  assert_eq!(route_input(InputKind::Key, true, true, true, ViewMode::Viewer), InputRoute::KeyHelp);
  assert_eq!(route_input(InputKind::Key, false, true, true, ViewMode::Viewer), InputRoute::Confirm);
  assert_eq!(route_input(InputKind::Key, false, false, true, ViewMode::Search), InputRoute::PromptKey);
  assert_eq!(route_input(InputKind::Key, false, false, false, ViewMode::Search), InputRoute::SearchKey);
  assert_eq!(route_input(InputKind::Key, false, false, false, ViewMode::Viewer), InputRoute::KeyToken);
  assert_eq!(route_input(InputKind::Paste, false, false, false, ViewMode::Viewer), InputRoute::Ignore);
  assert_eq!(
    route_input(InputKind::MouseDown(PointerButton::Left), false, false, false, ViewMode::Bookmarks),
    InputRoute::BookmarksClick
  );
  assert_eq!(
    route_input(InputKind::MouseDown(PointerButton::Right), false, false, false, ViewMode::Bookmarks),
    InputRoute::Ignore
  );
  assert_eq!(
    route_input(InputKind::MouseUp(PointerButton::Left), false, false, false, ViewMode::Selection),
    InputRoute::SelectionMouseUp(PointerButton::Left)
  );
  assert_eq!(route_input(InputKind::ScrollDown, false, false, false, ViewMode::Metadata), InputRoute::MetadataScrollDown);
  assert_eq!(route_input(InputKind::ScrollUp, false, false, false, ViewMode::Viewer), InputRoute::ScrollUp);
  assert_eq!(route_input(InputKind::Resize, false, false, false, ViewMode::Viewer), InputRoute::Ignore);
}

#[test]
fn prompt_commands_follow_their_first_word() {
  assert_eq!(decide_command(""), PromptCommand::Empty);
  assert_eq!(decide_command("   "), PromptCommand::Empty);
  assert_eq!(decide_command("q"), PromptCommand::Quit);
  assert_eq!(decide_command("  quit  "), PromptCommand::Quit);
  assert_eq!(decide_command("write_config"), PromptCommand::WriteConfig);
  assert_eq!(decide_command("write-config"), PromptCommand::WriteConfig);
  assert_eq!(decide_command("clear-cache"), PromptCommand::ClearCache);
  assert_eq!(decide_command("clear_cache now"), PromptCommand::ClearCacheUsage);
  assert_eq!(decide_command("metadata"), PromptCommand::Metadata);
  assert_eq!(decide_command("bookmarks"), PromptCommand::Bookmarks);
  assert_eq!(decide_command("search"), PromptCommand::Search);
  assert_eq!(decide_command("selection"), PromptCommand::Selection);
  assert_eq!(decide_command("refresh"), PromptCommand::Refresh);
  assert_eq!(decide_command("help"), PromptCommand::Help);
  assert_eq!(decide_command("frobnicate now"), PromptCommand::Unknown("frobnicate".to_string()));
}

#[test]
fn layout_commands_carry_their_arguments() {
  assert_eq!(
    decide_command("layout grid 2x3"),
    PromptCommand::Layout { parts: vec!["grid".to_string(), "2x3".to_string()], persist: true }
  );
  assert_eq!(
    decide_command("layout-use\tscroll"),
    PromptCommand::Layout { parts: vec!["scroll".to_string()], persist: false }
  );
  assert_eq!(
    decide_command("layout_use"),
    PromptCommand::Layout { parts: Vec::new(), persist: false }
  );
}

#[test]
fn words_split_on_any_whitespace() {
  assert_eq!(split_words("  a  bc\td\n"), vec!["a".to_string(), "bc".to_string(), "d".to_string()]);
  assert!(split_words(" \t ").is_empty());
}

#[test]
fn actions_are_offered_in_their_views() {
  assert!(action_available(ViewMode::Viewer, "layout grid 2x2"));
  assert!(!action_available(ViewMode::Search, "layout-use scroll"));
  assert!(action_available(ViewMode::Metadata, "quit"));
  assert!(action_available(ViewMode::Bookmarks, "refresh"));
  assert!(!action_available(ViewMode::Viewer, "back"));
  assert!(action_available(ViewMode::Search, "back"));
  assert!(action_available(ViewMode::Viewer, "page_down"));
  assert!(!action_available(ViewMode::Metadata, "page_down"));
  assert!(action_available(ViewMode::Selection, "selection_mark"));
  assert!(!action_available(ViewMode::Search, "selection_cancel"));
  assert!(action_available(ViewMode::Metadata, "edit_metadata"));
  assert!(action_available(ViewMode::Bookmarks, "bookmarks_toggle_all"));
  assert!(action_available(ViewMode::Search, "search_open"));
  assert!(action_available(ViewMode::Selection, "selection_copy_image"));
  assert!(!action_available(ViewMode::Viewer, "frobnicate"));
  assert_eq!(key_context(ViewMode::Metadata), KeyContext::Detail);
  assert_eq!(key_context(ViewMode::Search), KeyContext::Browser);
}

#[test]
fn key_help_closes_on_its_keys_only() {
  for token in ["f1", "enter", "esc", "q"] {
    assert!(pdf_tui::dispatch::closes_key_help(token));
  }
  assert!(!pdf_tui::dispatch::closes_key_help("j"));
  assert!(!pdf_tui::dispatch::closes_key_help("Q"));
}
