//! What the reader does with input: which handler an input event goes to,
//! and which command a key-map action names. The event loop performs the
//! commands.

use vstd::prelude::*;

use crate::editing::ViewMode;
use crate::keyed::str_eq;

verus! {

/// What an action of the key map asks the reader to do.
#[derive(Debug, Clone, PartialEq, Eq)]
pub enum AppCommand {
    /// `layout NAME ARGS`: switch layouts and keep the choice; `layout-use
    /// NAME ARGS`: switch for this session only.
    Layout { command: String, persist: bool },
    Quit,
    CancelSelectionAnchor,
    BackToViewer,
    StartCommand,
    ShowKeyHelp,
    MetadataScrollDown,
    MetadataScrollUp,
    MetadataPageDown,
    MetadataPageUp,
    ScrollDown,
    ScrollUp,
    PageDown,
    PageUp,
    NextPage,
    PreviousPage,
    Home,
    End,
    ClearCache,
    Refresh,
    EnterMetadataView,
    EnterBookmarksView,
    EnterSearchView,
    EnterSelectionView,
    StartMetadataEdit,
    StartBookmarksEdit,
    BookmarksNext,
    BookmarksPrevious,
    BookmarksPageDown,
    BookmarksPageUp,
    BookmarksToggle,
    BookmarksToggleAll,
    BookmarksOpen,
    BookmarksPanelNarrower,
    BookmarksPanelWider,
    SearchNext,
    SearchPrevious,
    SearchPageDown,
    SearchPageUp,
    SearchOpen,
    SelectionMarkNeedsMouse,
    SelectionNext,
    SelectionPrevious,
    SelectionReselect,
    SelectionCopyText,
    SelectionCopyImage,
    /// An action nobody handles.
    Unknown(String),
}

/// The command `action` names in `view`, with or without a selection
/// anchor set; `None` for layout commands and unknown actions.
pub open spec fn plain_action_spec(action: Seq<char>, view: ViewMode, anchor_set: bool) -> Option<AppCommand> {
    if action == "quit"@ {
        Some(AppCommand::Quit)
    } else if action == "back"@ && anchor_set {
        Some(AppCommand::CancelSelectionAnchor)
    } else if action == "back"@ {
        Some(AppCommand::BackToViewer)
    } else if action == "command"@ {
        Some(AppCommand::StartCommand)
    } else if action == "help"@ {
        Some(AppCommand::ShowKeyHelp)
    } else if action == "scroll_down"@ && view == ViewMode::Metadata {
        Some(AppCommand::MetadataScrollDown)
    } else if action == "scroll_up"@ && view == ViewMode::Metadata {
        Some(AppCommand::MetadataScrollUp)
    } else if action == "page_down"@ && view == ViewMode::Metadata {
        Some(AppCommand::MetadataPageDown)
    } else if action == "page_up"@ && view == ViewMode::Metadata {
        Some(AppCommand::MetadataPageUp)
    } else if action == "scroll_down"@ {
        Some(AppCommand::ScrollDown)
    } else if action == "scroll_up"@ {
        Some(AppCommand::ScrollUp)
    } else if action == "page_down"@ {
        Some(AppCommand::PageDown)
    } else if action == "page_up"@ {
        Some(AppCommand::PageUp)
    } else if action == "next_page"@ {
        Some(AppCommand::NextPage)
    } else if action == "previous_page"@ {
        Some(AppCommand::PreviousPage)
    } else if action == "home"@ {
        Some(AppCommand::Home)
    } else if action == "end"@ {
        Some(AppCommand::End)
    } else if action == "clear-cache"@ {
        Some(AppCommand::ClearCache)
    } else if action == "clear_cache"@ {
        Some(AppCommand::ClearCache)
    } else if action == "refresh"@ {
        Some(AppCommand::Refresh)
    } else if action == "metadata"@ {
        Some(AppCommand::EnterMetadataView)
    } else if action == "bookmarks"@ {
        Some(AppCommand::EnterBookmarksView)
    } else if action == "search"@ {
        Some(AppCommand::EnterSearchView)
    } else if action == "selection"@ {
        Some(AppCommand::EnterSelectionView)
    } else if action == "edit_metadata"@ {
        Some(AppCommand::StartMetadataEdit)
    } else if action == "edit_bookmarks"@ {
        Some(AppCommand::StartBookmarksEdit)
    } else if action == "metadata_scroll_down"@ {
        Some(AppCommand::MetadataScrollDown)
    } else if action == "metadata_scroll_up"@ {
        Some(AppCommand::MetadataScrollUp)
    } else if action == "metadata_page_down"@ {
        Some(AppCommand::MetadataPageDown)
    } else if action == "metadata_page_up"@ {
        Some(AppCommand::MetadataPageUp)
    } else if action == "bookmarks_next"@ {
        Some(AppCommand::BookmarksNext)
    } else if action == "bookmarks_previous"@ {
        Some(AppCommand::BookmarksPrevious)
    } else if action == "bookmarks_page_down"@ {
        Some(AppCommand::BookmarksPageDown)
    } else if action == "bookmarks_page_up"@ {
        Some(AppCommand::BookmarksPageUp)
    } else if action == "bookmarks_toggle"@ {
        Some(AppCommand::BookmarksToggle)
    } else if action == "bookmarks_toggle_all"@ {
        Some(AppCommand::BookmarksToggleAll)
    } else if action == "bookmarks_open"@ {
        Some(AppCommand::BookmarksOpen)
    } else if action == "bookmarks_panel_narrower"@ {
        Some(AppCommand::BookmarksPanelNarrower)
    } else if action == "bookmarks_panel_wider"@ {
        Some(AppCommand::BookmarksPanelWider)
    } else if action == "search_next"@ {
        Some(AppCommand::SearchNext)
    } else if action == "search_previous"@ {
        Some(AppCommand::SearchPrevious)
    } else if action == "search_page_down"@ {
        Some(AppCommand::SearchPageDown)
    } else if action == "search_page_up"@ {
        Some(AppCommand::SearchPageUp)
    } else if action == "search_open"@ {
        Some(AppCommand::SearchOpen)
    } else if action == "selection_mark"@ {
        Some(AppCommand::SelectionMarkNeedsMouse)
    } else if action == "selection_cancel"@ && anchor_set {
        Some(AppCommand::CancelSelectionAnchor)
    } else if action == "selection_cancel"@ && view == ViewMode::Selection {
        Some(AppCommand::BackToViewer)
    } else if action == "selection_cancel"@ {
        Some(AppCommand::CancelSelectionAnchor)
    } else if action == "selection_next"@ {
        Some(AppCommand::SelectionNext)
    } else if action == "selection_previous"@ {
        Some(AppCommand::SelectionPrevious)
    } else if action == "selection_reselect"@ {
        Some(AppCommand::SelectionReselect)
    } else if action == "selection_copy_text"@ {
        Some(AppCommand::SelectionCopyText)
    } else if action == "selection_copy_image"@ {
        Some(AppCommand::SelectionCopyImage)
    } else {
        None
    }
}

fn plain_action(action: &str, view: ViewMode, anchor_set: bool) -> (command: Option<AppCommand>)
    ensures
        command == plain_action_spec(action@, view, anchor_set),
{
    if str_eq(action, "quit") {
        Some(AppCommand::Quit)
    } else if str_eq(action, "back") && anchor_set {
        Some(AppCommand::CancelSelectionAnchor)
    } else if str_eq(action, "back") {
        Some(AppCommand::BackToViewer)
    } else if str_eq(action, "command") {
        Some(AppCommand::StartCommand)
    } else if str_eq(action, "help") {
        Some(AppCommand::ShowKeyHelp)
    } else if str_eq(action, "scroll_down") && matches!(view, ViewMode::Metadata) {
        Some(AppCommand::MetadataScrollDown)
    } else if str_eq(action, "scroll_up") && matches!(view, ViewMode::Metadata) {
        Some(AppCommand::MetadataScrollUp)
    } else if str_eq(action, "page_down") && matches!(view, ViewMode::Metadata) {
        Some(AppCommand::MetadataPageDown)
    } else if str_eq(action, "page_up") && matches!(view, ViewMode::Metadata) {
        Some(AppCommand::MetadataPageUp)
    } else if str_eq(action, "scroll_down") {
        Some(AppCommand::ScrollDown)
    } else if str_eq(action, "scroll_up") {
        Some(AppCommand::ScrollUp)
    } else if str_eq(action, "page_down") {
        Some(AppCommand::PageDown)
    } else if str_eq(action, "page_up") {
        Some(AppCommand::PageUp)
    } else if str_eq(action, "next_page") {
        Some(AppCommand::NextPage)
    } else if str_eq(action, "previous_page") {
        Some(AppCommand::PreviousPage)
    } else if str_eq(action, "home") {
        Some(AppCommand::Home)
    } else if str_eq(action, "end") {
        Some(AppCommand::End)
    } else if str_eq(action, "clear-cache") {
        Some(AppCommand::ClearCache)
    } else if str_eq(action, "clear_cache") {
        Some(AppCommand::ClearCache)
    } else if str_eq(action, "refresh") {
        Some(AppCommand::Refresh)
    } else if str_eq(action, "metadata") {
        Some(AppCommand::EnterMetadataView)
    } else if str_eq(action, "bookmarks") {
        Some(AppCommand::EnterBookmarksView)
    } else if str_eq(action, "search") {
        Some(AppCommand::EnterSearchView)
    } else if str_eq(action, "selection") {
        Some(AppCommand::EnterSelectionView)
    } else if str_eq(action, "edit_metadata") {
        Some(AppCommand::StartMetadataEdit)
    } else if str_eq(action, "edit_bookmarks") {
        Some(AppCommand::StartBookmarksEdit)
    } else if str_eq(action, "metadata_scroll_down") {
        Some(AppCommand::MetadataScrollDown)
    } else if str_eq(action, "metadata_scroll_up") {
        Some(AppCommand::MetadataScrollUp)
    } else if str_eq(action, "metadata_page_down") {
        Some(AppCommand::MetadataPageDown)
    } else if str_eq(action, "metadata_page_up") {
        Some(AppCommand::MetadataPageUp)
    } else if str_eq(action, "bookmarks_next") {
        Some(AppCommand::BookmarksNext)
    } else if str_eq(action, "bookmarks_previous") {
        Some(AppCommand::BookmarksPrevious)
    } else if str_eq(action, "bookmarks_page_down") {
        Some(AppCommand::BookmarksPageDown)
    } else if str_eq(action, "bookmarks_page_up") {
        Some(AppCommand::BookmarksPageUp)
    } else if str_eq(action, "bookmarks_toggle") {
        Some(AppCommand::BookmarksToggle)
    } else if str_eq(action, "bookmarks_toggle_all") {
        Some(AppCommand::BookmarksToggleAll)
    } else if str_eq(action, "bookmarks_open") {
        Some(AppCommand::BookmarksOpen)
    } else if str_eq(action, "bookmarks_panel_narrower") {
        Some(AppCommand::BookmarksPanelNarrower)
    } else if str_eq(action, "bookmarks_panel_wider") {
        Some(AppCommand::BookmarksPanelWider)
    } else if str_eq(action, "search_next") {
        Some(AppCommand::SearchNext)
    } else if str_eq(action, "search_previous") {
        Some(AppCommand::SearchPrevious)
    } else if str_eq(action, "search_page_down") {
        Some(AppCommand::SearchPageDown)
    } else if str_eq(action, "search_page_up") {
        Some(AppCommand::SearchPageUp)
    } else if str_eq(action, "search_open") {
        Some(AppCommand::SearchOpen)
    } else if str_eq(action, "selection_mark") {
        Some(AppCommand::SelectionMarkNeedsMouse)
    } else if str_eq(action, "selection_cancel") && anchor_set {
        Some(AppCommand::CancelSelectionAnchor)
    } else if str_eq(action, "selection_cancel") && matches!(view, ViewMode::Selection) {
        Some(AppCommand::BackToViewer)
    } else if str_eq(action, "selection_cancel") {
        Some(AppCommand::CancelSelectionAnchor)
    } else if str_eq(action, "selection_next") {
        Some(AppCommand::SelectionNext)
    } else if str_eq(action, "selection_previous") {
        Some(AppCommand::SelectionPrevious)
    } else if str_eq(action, "selection_reselect") {
        Some(AppCommand::SelectionReselect)
    } else if str_eq(action, "selection_copy_text") {
        Some(AppCommand::SelectionCopyText)
    } else if str_eq(action, "selection_copy_image") {
        Some(AppCommand::SelectionCopyImage)
    } else {
        None
    }
}
/// The command `action` names: `layout-use ARGS` and `layout ARGS` switch
/// layouts (the latter keeping the choice); the others depend on the view
/// and on whether a selection anchor is set.
pub open spec fn decide_action_spec(action: Seq<char>, view: ViewMode, anchor_set: bool) -> AppCommand {
    if "layout-use "@.len() <= action.len() && action.take("layout-use "@.len() as int)
        == "layout-use "@ {
        AppCommand::Layout {
            command: arbitrary(),
            persist: false,
        }
    } else if "layout "@.len() <= action.len() && action.take("layout "@.len() as int)
        == "layout "@ {
        AppCommand::Layout {
            command: arbitrary(),
            persist: true,
        }
    } else {
        match plain_action_spec(action, view, anchor_set) {
            Some(c) => c,
            None => AppCommand::Unknown(arbitrary()),
        }
    }
}

/// The command `action` names (see `decide_action_spec`); for a layout
/// command, the text after the prefix, and for an unknown action, the
/// action itself.
pub fn decide_action(action: &str, view: ViewMode, anchor_set: bool) -> (command: AppCommand)
    ensures
        match (command, decide_action_spec(action@, view, anchor_set)) {
            (AppCommand::Layout { command: c, persist: p }, AppCommand::Layout { persist: q, .. }) => {
                &&& p == q
                &&& c@ == action@.skip(
                    if p {
                        "layout "@.len() as int
                    } else {
                        "layout-use "@.len() as int
                    },
                )
            },
            (AppCommand::Unknown(a), AppCommand::Unknown(_)) => a@ == action@,
            (c, s) => c == s && !(c is Layout) && !(c is Unknown),
        },
{
    let cs = crate::text::chars_of(action);
    match crate::text::strip_prefix(&cs, "layout-use ") {
        Some(rest) => {
            return AppCommand::Layout { command: crate::text::string_of(&rest), persist: false };
        },
        None => {},
    }
    match crate::text::strip_prefix(&cs, "layout ") {
        Some(rest) => {
            return AppCommand::Layout { command: crate::text::string_of(&rest), persist: true };
        },
        None => {},
    }
    match plain_action(action, view, anchor_set) {
        Some(c) => c,
        None => AppCommand::Unknown(action.to_owned()),
    }
}

/// A mouse button.
#[derive(Debug, Clone, Copy, PartialEq, Eq)]
pub enum PointerButton {
    Left,
    Right,
    Middle,
}

/// The kind of a terminal input event.
#[derive(Debug, Clone, Copy, PartialEq, Eq)]
pub enum InputKind {
    Key,
    Paste,
    MouseDown(PointerButton),
    MouseDrag(PointerButton),
    MouseUp(PointerButton),
    ScrollDown,
    ScrollUp,
    Resize,
    Other,
}

/// The handler an input event goes to.
#[derive(Debug, Clone, Copy, PartialEq, Eq)]
pub enum InputRoute {
    KeyHelp,
    Confirm,
    PromptKey,
    PromptPaste,
    SearchKey,
    SearchPaste,
    KeyToken,
    BookmarksClick,
    SearchClick,
    SelectionMouseDown(PointerButton),
    SelectionMouseDrag(PointerButton),
    SelectionMouseUp(PointerButton),
    MetadataScrollDown,
    MetadataScrollUp,
    BookmarksNext,
    BookmarksPrevious,
    SearchNext,
    SearchPrevious,
    SelectionNext,
    SelectionPrevious,
    ScrollDown,
    ScrollUp,
    Ignore,
}

pub open spec fn pointer_view(view: ViewMode) -> bool {
    view == ViewMode::Viewer || view == ViewMode::Selection
}

/// Where an input event goes: the key help and a confirmation dialog take
/// every event; then a prompt takes keys and pastes, the search view takes
/// keys and pastes, other keys are key-map tokens; mouse events go by
/// view.
pub open spec fn route_input_spec(
    kind: InputKind,
    key_help: bool,
    confirming: bool,
    prompting: bool,
    view: ViewMode,
) -> InputRoute {
    if key_help {
        InputRoute::KeyHelp
    } else if confirming {
        InputRoute::Confirm
    } else {
        match kind {
            InputKind::Key => if prompting {
                InputRoute::PromptKey
            } else if view == ViewMode::Search {
                InputRoute::SearchKey
            } else {
                InputRoute::KeyToken
            },
            InputKind::Paste => if prompting {
                InputRoute::PromptPaste
            } else if view == ViewMode::Search {
                InputRoute::SearchPaste
            } else {
                InputRoute::Ignore
            },
            InputKind::MouseDown(b) => if b == PointerButton::Left && view == ViewMode::Bookmarks {
                InputRoute::BookmarksClick
            } else if b == PointerButton::Left && view == ViewMode::Search {
                InputRoute::SearchClick
            } else if pointer_view(view) {
                InputRoute::SelectionMouseDown(b)
            } else {
                InputRoute::Ignore
            },
            InputKind::MouseDrag(b) => if pointer_view(view) {
                InputRoute::SelectionMouseDrag(b)
            } else {
                InputRoute::Ignore
            },
            InputKind::MouseUp(b) => if pointer_view(view) {
                InputRoute::SelectionMouseUp(b)
            } else {
                InputRoute::Ignore
            },
            InputKind::ScrollDown => if view == ViewMode::Metadata {
                InputRoute::MetadataScrollDown
            } else if view == ViewMode::Bookmarks {
                InputRoute::BookmarksNext
            } else if view == ViewMode::Search {
                InputRoute::SearchNext
            } else if view == ViewMode::Selection {
                InputRoute::SelectionNext
            } else {
                InputRoute::ScrollDown
            },
            InputKind::ScrollUp => if view == ViewMode::Metadata {
                InputRoute::MetadataScrollUp
            } else if view == ViewMode::Bookmarks {
                InputRoute::BookmarksPrevious
            } else if view == ViewMode::Search {
                InputRoute::SearchPrevious
            } else if view == ViewMode::Selection {
                InputRoute::SelectionPrevious
            } else {
                InputRoute::ScrollUp
            },
            InputKind::Resize => InputRoute::Ignore,
            InputKind::Other => InputRoute::Ignore,
        }
    }
}

pub fn route_input(
    kind: InputKind,
    key_help: bool,
    confirming: bool,
    prompting: bool,
    view: ViewMode,
) -> (route: InputRoute)
    ensures
        route == route_input_spec(kind, key_help, confirming, prompting, view),
{
    if key_help {
        return InputRoute::KeyHelp;
    }
    if confirming {
        return InputRoute::Confirm;
    }
    let search = matches!(view, ViewMode::Search);
    let pointer = matches!(view, ViewMode::Viewer | ViewMode::Selection);
    match kind {
        InputKind::Key => if prompting {
            InputRoute::PromptKey
        } else if search {
            InputRoute::SearchKey
        } else {
            InputRoute::KeyToken
        },
        InputKind::Paste => if prompting {
            InputRoute::PromptPaste
        } else if search {
            InputRoute::SearchPaste
        } else {
            InputRoute::Ignore
        },
        InputKind::MouseDown(b) => {
            let left = matches!(b, PointerButton::Left);
            if left && matches!(view, ViewMode::Bookmarks) {
                InputRoute::BookmarksClick
            } else if left && search {
                InputRoute::SearchClick
            } else if pointer {
                InputRoute::SelectionMouseDown(b)
            } else {
                InputRoute::Ignore
            }
        },
        InputKind::MouseDrag(b) => if pointer {
            InputRoute::SelectionMouseDrag(b)
        } else {
            InputRoute::Ignore
        },
        InputKind::MouseUp(b) => if pointer {
            InputRoute::SelectionMouseUp(b)
        } else {
            InputRoute::Ignore
        },
        InputKind::ScrollDown => match view {
            ViewMode::Metadata => InputRoute::MetadataScrollDown,
            ViewMode::Bookmarks => InputRoute::BookmarksNext,
            ViewMode::Search => InputRoute::SearchNext,
            ViewMode::Selection => InputRoute::SelectionNext,
            ViewMode::Viewer => InputRoute::ScrollDown,
        },
        InputKind::ScrollUp => match view {
            ViewMode::Metadata => InputRoute::MetadataScrollUp,
            ViewMode::Bookmarks => InputRoute::BookmarksPrevious,
            ViewMode::Search => InputRoute::SearchPrevious,
            ViewMode::Selection => InputRoute::SelectionPrevious,
            ViewMode::Viewer => InputRoute::ScrollUp,
        },
        InputKind::Resize => InputRoute::Ignore,
        InputKind::Other => InputRoute::Ignore,
    }
}


/// What a command typed at the `:` prompt asks for.
#[derive(Debug, Clone, PartialEq, Eq)]
pub enum PromptCommand {
    /// Nothing was typed.
    Empty,
    Quit,
    /// `layout NAME ARGS` (kept) or `layout-use NAME ARGS` (this session).
    Layout { parts: Vec<String>, persist: bool },
    WriteConfig,
    ClearCache,
    /// `clear-cache` with arguments: the usage is shown.
    ClearCacheUsage,
    Metadata,
    Bookmarks,
    Search,
    Selection,
    Refresh,
    Help,
    /// An unknown command, by its first word.
    Unknown(String),
}

/// The command a prompt line asks for, by its first word; `None` where the
/// command carries words (`Layout`, `Unknown`).
pub open spec fn prompt_command_spec(words: Seq<Seq<char>>) -> Option<PromptCommand> {
    if words.len() == 0 {
        Some(PromptCommand::Empty)
    } else {
        let w = words[0];
        if w == "q"@ || w == "quit"@ {
            Some(PromptCommand::Quit)
        } else if w == "layout"@ || w == "layout-use"@ || w == "layout_use"@ {
            None
        } else if w == "write-config"@ || w == "write_config"@ {
            Some(PromptCommand::WriteConfig)
        } else if w == "clear-cache"@ || w == "clear_cache"@ {
            if words.len() > 1 {
                Some(PromptCommand::ClearCacheUsage)
            } else {
                Some(PromptCommand::ClearCache)
            }
        } else if w == "metadata"@ {
            Some(PromptCommand::Metadata)
        } else if w == "bookmarks"@ {
            Some(PromptCommand::Bookmarks)
        } else if w == "search"@ {
            Some(PromptCommand::Search)
        } else if w == "selection"@ {
            Some(PromptCommand::Selection)
        } else if w == "refresh"@ {
            Some(PromptCommand::Refresh)
        } else if w == "help"@ {
            Some(PromptCommand::Help)
        } else {
            None
        }
    }
}

/// The command a line typed at the prompt asks for: its words decide (see
/// `prompt_command_spec`); `layout` keeps the switch, `layout-use` and
/// `layout_use` do not, and both carry the words after the first.
pub fn decide_command(command: &str) -> (decided: PromptCommand)
    ensures
        ({
            let words = crate::text::words_spec(command@);
            match decided {
                PromptCommand::Layout { parts, persist } => {
                    &&& words.len() > 0
                    &&& persist == (words[0] == "layout"@)
                    &&& (words[0] == "layout"@ || words[0] == "layout-use"@ || words[0]
                        == "layout_use"@)
                    &&& parts@.map_values(|p: String| p@) == words.drop_first()
                },
                PromptCommand::Unknown(w) => words.len() > 0 && w@ == words[0]
                    && prompt_command_spec(words) is None && !(words[0] == "layout"@
                    || words[0] == "layout-use"@ || words[0] == "layout_use"@),
                other => prompt_command_spec(words) == Some(other),
            }
        }),
{
    let words = crate::text::split_words(command);
    let ghost wv = words@.map_values(|w: String| w@);
    if words.len() == 0 {
        return PromptCommand::Empty;
    }
    proof {
        assert(wv[0] == words@[0]@);
    }
    let first = words[0].as_str();
    if str_eq(first, "q") || str_eq(first, "quit") {
        PromptCommand::Quit
    } else if str_eq(first, "layout") || str_eq(first, "layout-use") || str_eq(first, "layout_use") {
        let persist = str_eq(first, "layout");
        let mut parts: Vec<String> = Vec::new();
        let mut i: usize = 1;
        proof {
            assert(parts@.map_values(|p: String| p@) =~= wv.drop_first().take(0));
        }
        while i < words.len()
            invariant
                1 <= i <= words@.len(),
                wv == words@.map_values(|w: String| w@),
                parts@.map_values(|p: String| p@) == wv.drop_first().take(i - 1),
            decreases words@.len() - i,
        {
            let ghost before = parts@;
            parts.push(words[i].clone());
            proof {
                assert(parts@.map_values(|p: String| p@) =~= before.map_values(|p: String| p@).push(
                    words@[i as int]@,
                ));
                assert(wv.drop_first().take(i as int) =~= wv.drop_first().take(i - 1).push(
                    wv[i as int],
                ));
            }
            i += 1;
        }
        proof {
            assert(wv.drop_first().take(i - 1) =~= wv.drop_first());
        }
        PromptCommand::Layout { parts, persist }
    } else if str_eq(first, "write-config") || str_eq(first, "write_config") {
        PromptCommand::WriteConfig
    } else if str_eq(first, "clear-cache") || str_eq(first, "clear_cache") {
        if words.len() > 1 {
            PromptCommand::ClearCacheUsage
        } else {
            PromptCommand::ClearCache
        }
    } else if str_eq(first, "metadata") {
        PromptCommand::Metadata
    } else if str_eq(first, "bookmarks") {
        PromptCommand::Bookmarks
    } else if str_eq(first, "search") {
        PromptCommand::Search
    } else if str_eq(first, "selection") {
        PromptCommand::Selection
    } else if str_eq(first, "refresh") {
        PromptCommand::Refresh
    } else if str_eq(first, "help") {
        PromptCommand::Help
    } else {
        PromptCommand::Unknown(words[0].clone())
    }
}

/// Which key bindings apply in a view: the browsing keys everywhere but in
/// the metadata view, which has its own.
#[derive(Debug, Clone, Copy, PartialEq, Eq)]
pub enum KeyContext {
    Browser,
    Detail,
}

/// The key bindings of `view`.
pub fn key_context(view: ViewMode) -> (context: KeyContext)
    ensures
        context == (if view == ViewMode::Metadata {
            KeyContext::Detail
        } else {
            KeyContext::Browser
        }),
{
    match view {
        ViewMode::Metadata => KeyContext::Detail,
        _ => KeyContext::Browser,
    }
}

/// Whether `s` is one of the names of `names`.
pub open spec fn one_of(s: Seq<char>, names: Seq<Seq<char>>) -> bool {
    names.contains(s)
}

pub open spec fn viewer_only_actions() -> Seq<Seq<char>> {
    seq![
        "scroll_down"@, "scroll_up"@, "page_down"@, "page_up"@, "next_page"@,
        "previous_page"@, "home"@, "end"@, "metadata"@, "bookmarks"@, "search"@,
        "selection"@,
    ]
}

pub open spec fn metadata_actions() -> Seq<Seq<char>> {
    seq![
        "edit_metadata"@, "metadata_scroll_down"@, "metadata_scroll_up"@,
        "metadata_page_down"@, "metadata_page_up"@,
    ]
}

pub open spec fn bookmarks_actions() -> Seq<Seq<char>> {
    seq![
        "edit_bookmarks"@, "bookmarks_next"@, "bookmarks_previous"@, "bookmarks_page_down"@,
        "bookmarks_page_up"@, "bookmarks_toggle"@, "bookmarks_toggle_all"@, "bookmarks_open"@,
        "bookmarks_panel_narrower"@, "bookmarks_panel_wider"@,
    ]
}

pub open spec fn search_actions() -> Seq<Seq<char>> {
    seq![
        "search_next"@, "search_previous"@, "search_page_down"@, "search_page_up"@,
        "search_open"@,
    ]
}

pub open spec fn selection_actions() -> Seq<Seq<char>> {
    seq![
        "selection_next"@, "selection_previous"@, "selection_reselect"@,
        "selection_copy_text"@, "selection_copy_image"@,
    ]
}

pub open spec fn always_actions() -> Seq<Seq<char>> {
    seq!["quit"@, "command"@, "help"@, "clear-cache"@, "clear_cache"@, "refresh"@]
}

/// Whether `action` can be used in `view` (and so is shown in the key
/// help): layout switches and viewer navigation in the viewer, `back` in
/// the other views, each view's own actions in it, the general actions
/// everywhere.
pub open spec fn action_available_spec(view: ViewMode, action: Seq<char>) -> bool {
    if action.len() >= 7 && action.take(7) == "layout "@ || action.len() >= 11 && action.take(11)
        == "layout-use "@ {
        view == ViewMode::Viewer
    } else if one_of(action, always_actions()) {
        true
    } else if action == "back"@ {
        view != ViewMode::Viewer
    } else if one_of(action, viewer_only_actions()) {
        view == ViewMode::Viewer
    } else if action == "selection_mark"@ || action == "selection_cancel"@ {
        view == ViewMode::Viewer || view == ViewMode::Selection
    } else if one_of(action, metadata_actions()) {
        view == ViewMode::Metadata
    } else if one_of(action, bookmarks_actions()) {
        view == ViewMode::Bookmarks
    } else if one_of(action, search_actions()) {
        view == ViewMode::Search
    } else if one_of(action, selection_actions()) {
        view == ViewMode::Selection
    } else {
        false
    }
}

pub open spec fn names_model(names: Seq<&str>) -> Seq<Seq<char>> {
    names.map_values(|n: &str| n@)
}

/// Whether `action` equals one of `names`.
fn is_one_of(action: &str, names: &[&str]) -> (found: bool)
    ensures
        found == names_model(names@).contains(action@),
{
    let mut i: usize = 0;
    while i < names.len()
        invariant
            i <= names@.len(),
            forall|j: int| 0 <= j < i ==> #[trigger] names@[j]@ != action@,
        decreases names@.len() - i,
    {
        if str_eq(names[i], action) {
            proof {
                assert(names_model(names@)[i as int] == action@);
            }
            return true;
        }
        i += 1;
    }
    proof {
        let m = names_model(names@);
        if m.contains(action@) {
            let j = choose|j: int| 0 <= j < m.len() && #[trigger] m[j] == action@;
            assert(names@[j]@ == action@);
        }
    }
    false
}

/// Whether `action` can be used in `view` (see `action_available_spec`).
pub fn action_available(view: ViewMode, action: &str) -> (available: bool)
    ensures
        available == action_available_spec(view, action@),
{
    let cs = crate::text::chars_of(action);
    if crate::text::starts_with(&cs, "layout ") || crate::text::starts_with(&cs, "layout-use ") {
        proof {
            reveal_strlit("layout ");
            reveal_strlit("layout-use ");
        }
        return matches!(view, ViewMode::Viewer);
    }
    proof {
        reveal_strlit("layout ");
        reveal_strlit("layout-use ");
    }
    let always: [&str; 6] = ["quit", "command", "help", "clear-cache", "clear_cache", "refresh"];
    let viewer: [&str; 12] = [
        "scroll_down", "scroll_up", "page_down", "page_up", "next_page", "previous_page",
        "home", "end", "metadata", "bookmarks", "search", "selection",
    ];
    let metadata: [&str; 5] = [
        "edit_metadata", "metadata_scroll_down", "metadata_scroll_up", "metadata_page_down",
        "metadata_page_up",
    ];
    let bookmarks: [&str; 10] = [
        "edit_bookmarks", "bookmarks_next", "bookmarks_previous", "bookmarks_page_down",
        "bookmarks_page_up", "bookmarks_toggle", "bookmarks_toggle_all", "bookmarks_open",
        "bookmarks_panel_narrower", "bookmarks_panel_wider",
    ];
    let search: [&str; 5] = [
        "search_next", "search_previous", "search_page_down", "search_page_up", "search_open",
    ];
    let selection: [&str; 5] = [
        "selection_next", "selection_previous", "selection_reselect", "selection_copy_text",
        "selection_copy_image",
    ];
    proof {
        assert(names_model(always@) =~= always_actions());
        assert(names_model(viewer@) =~= viewer_only_actions());
        assert(names_model(metadata@) =~= metadata_actions());
        assert(names_model(bookmarks@) =~= bookmarks_actions());
        assert(names_model(search@) =~= search_actions());
        assert(names_model(selection@) =~= selection_actions());
    }
    if is_one_of(action, &always) {
        true
    } else if str_eq(action, "back") {
        !matches!(view, ViewMode::Viewer)
    } else if is_one_of(action, &viewer) {
        matches!(view, ViewMode::Viewer)
    } else if str_eq(action, "selection_mark") || str_eq(action, "selection_cancel") {
        matches!(view, ViewMode::Viewer) || matches!(view, ViewMode::Selection)
    } else if is_one_of(action, &metadata) {
        matches!(view, ViewMode::Metadata)
    } else if is_one_of(action, &bookmarks) {
        matches!(view, ViewMode::Bookmarks)
    } else if is_one_of(action, &search) {
        matches!(view, ViewMode::Search)
    } else if is_one_of(action, &selection) {
        matches!(view, ViewMode::Selection)
    } else {
        false
    }
}

/// Whether a key token closes the key-help screen: `f1`, `enter`, `esc`
/// and `q` do; other keys are ignored while it is shown.
pub fn closes_key_help(token: &str) -> (closes: bool)
    ensures
        closes == (token@ == "f1"@ || token@ == "enter"@ || token@ == "esc"@ || token@ == "q"@),
{
    str_eq(token, "f1") || str_eq(token, "enter") || str_eq(token, "esc") || str_eq(token, "q")
}

/// The general actions name their commands in every view, with or without a selection anchor: `quit` quits, `command` opens the prompt, `help` shows the keys, `home` and `end` go to the first and last page, `next_page` and `previous_page` to the next and previous page, `refresh` reloads, `clear-cache` (or `clear_cache`) clears the cache, and `metadata`, `bookmarks`, `search` and `selection` open those views.
pub proof fn lemma_general_actions_name_their_commands(view: ViewMode, anchor_set: bool)
    ensures
        decide_action_spec("quit"@, view, anchor_set) == AppCommand::Quit,
        decide_action_spec("command"@, view, anchor_set) == AppCommand::StartCommand,
        decide_action_spec("help"@, view, anchor_set) == AppCommand::ShowKeyHelp,
        decide_action_spec("next_page"@, view, anchor_set) == AppCommand::NextPage,
        decide_action_spec("previous_page"@, view, anchor_set) == AppCommand::PreviousPage,
        decide_action_spec("home"@, view, anchor_set) == AppCommand::Home,
        decide_action_spec("end"@, view, anchor_set) == AppCommand::End,
        decide_action_spec("clear-cache"@, view, anchor_set) == AppCommand::ClearCache,
        decide_action_spec("clear_cache"@, view, anchor_set) == AppCommand::ClearCache,
        decide_action_spec("refresh"@, view, anchor_set) == AppCommand::Refresh,
        decide_action_spec("metadata"@, view, anchor_set) == AppCommand::EnterMetadataView,
        decide_action_spec("bookmarks"@, view, anchor_set) == AppCommand::EnterBookmarksView,
        decide_action_spec("search"@, view, anchor_set) == AppCommand::EnterSearchView,
        decide_action_spec("selection"@, view, anchor_set) == AppCommand::EnterSelectionView,
{
    reveal_strlit("quit");
    reveal_strlit("back");
    reveal_strlit("command");
    reveal_strlit("help");
    reveal_strlit("scroll_down");
    reveal_strlit("scroll_up");
    reveal_strlit("page_down");
    reveal_strlit("page_up");
    reveal_strlit("next_page");
    reveal_strlit("previous_page");
    reveal_strlit("home");
    reveal_strlit("end");
    reveal_strlit("clear-cache");
    reveal_strlit("clear_cache");
    reveal_strlit("refresh");
    reveal_strlit("metadata");
    reveal_strlit("bookmarks");
    reveal_strlit("search");
    reveal_strlit("selection");
    reveal_strlit("edit_metadata");
    reveal_strlit("edit_bookmarks");
    reveal_strlit("metadata_scroll_down");
    reveal_strlit("metadata_scroll_up");
    reveal_strlit("metadata_page_down");
    reveal_strlit("metadata_page_up");
    reveal_strlit("bookmarks_next");
    reveal_strlit("bookmarks_previous");
    reveal_strlit("bookmarks_page_down");
    reveal_strlit("bookmarks_page_up");
    reveal_strlit("bookmarks_toggle");
    reveal_strlit("bookmarks_toggle_all");
    reveal_strlit("bookmarks_open");
    reveal_strlit("bookmarks_panel_narrower");
    reveal_strlit("bookmarks_panel_wider");
    reveal_strlit("search_next");
    reveal_strlit("search_previous");
    reveal_strlit("search_page_down");
    reveal_strlit("search_page_up");
    reveal_strlit("search_open");
    reveal_strlit("selection_mark");
    reveal_strlit("selection_cancel");
    reveal_strlit("selection_next");
    reveal_strlit("selection_previous");
    reveal_strlit("selection_reselect");
    reveal_strlit("selection_copy_text");
    reveal_strlit("selection_copy_image");
    reveal_strlit("layout-use ");
    reveal_strlit("layout ");
    assert("command"@.take(7)[0] != "layout "@[0]);
    assert("help"@[0] != "quit"@[0]);
    assert("help"@[0] != "back"@[0]);
    assert("next_page"@.take(7)[0] != "layout "@[0]);
    assert("next_page"@[0] != "scroll_up"@[0]);
    assert("next_page"@[0] != "page_down"@[0]);
    assert("previous_page"@.take(11)[0] != "layout-use "@[0]);
    assert("previous_page"@.take(7)[0] != "layout "@[0]);
    assert("home"@[0] != "quit"@[0]);
    assert("home"@[0] != "back"@[0]);
    assert("home"@[1] != "help"@[1]);
    assert("clear-cache"@.take(11)[0] != "layout-use "@[0]);
    assert("clear-cache"@.take(7)[0] != "layout "@[0]);
    assert("clear-cache"@[0] != "scroll_down"@[0]);
    assert("clear_cache"@.take(11)[0] != "layout-use "@[0]);
    assert("clear_cache"@.take(7)[0] != "layout "@[0]);
    assert("clear_cache"@[0] != "scroll_down"@[0]);
    assert("clear_cache"@[5] != "clear-cache"@[5]);
    assert("refresh"@.take(7)[0] != "layout "@[0]);
    assert("refresh"@[0] != "command"@[0]);
    assert("refresh"@[0] != "page_up"@[0]);
    assert("metadata"@.take(7)[0] != "layout "@[0]);
    assert("bookmarks"@.take(7)[0] != "layout "@[0]);
    assert("bookmarks"@[0] != "scroll_up"@[0]);
    assert("bookmarks"@[0] != "page_down"@[0]);
    assert("bookmarks"@[0] != "next_page"@[0]);
    assert("selection"@.take(7)[0] != "layout "@[0]);
    assert("selection"@[1] != "scroll_up"@[1]);
    assert("selection"@[0] != "page_down"@[0]);
    assert("selection"@[0] != "next_page"@[0]);
    assert("selection"@[0] != "bookmarks"@[0]);

}

/// The actions of the metadata, bookmarks and search views name the commands of the same names, in every view and with or without a selection anchor.
pub proof fn lemma_view_actions_name_their_commands(view: ViewMode, anchor_set: bool)
    ensures
        decide_action_spec("edit_metadata"@, view, anchor_set) == AppCommand::StartMetadataEdit,
        decide_action_spec("edit_bookmarks"@, view, anchor_set) == AppCommand::StartBookmarksEdit,
        decide_action_spec("metadata_scroll_down"@, view, anchor_set) == AppCommand::MetadataScrollDown,
        decide_action_spec("metadata_scroll_up"@, view, anchor_set) == AppCommand::MetadataScrollUp,
        decide_action_spec("metadata_page_down"@, view, anchor_set) == AppCommand::MetadataPageDown,
        decide_action_spec("metadata_page_up"@, view, anchor_set) == AppCommand::MetadataPageUp,
        decide_action_spec("bookmarks_next"@, view, anchor_set) == AppCommand::BookmarksNext,
        decide_action_spec("bookmarks_previous"@, view, anchor_set) == AppCommand::BookmarksPrevious,
        decide_action_spec("bookmarks_page_down"@, view, anchor_set) == AppCommand::BookmarksPageDown,
        decide_action_spec("bookmarks_page_up"@, view, anchor_set) == AppCommand::BookmarksPageUp,
        decide_action_spec("bookmarks_toggle"@, view, anchor_set) == AppCommand::BookmarksToggle,
        decide_action_spec("bookmarks_toggle_all"@, view, anchor_set) == AppCommand::BookmarksToggleAll,
        decide_action_spec("bookmarks_open"@, view, anchor_set) == AppCommand::BookmarksOpen,
        decide_action_spec("bookmarks_panel_narrower"@, view, anchor_set) == AppCommand::BookmarksPanelNarrower,
        decide_action_spec("bookmarks_panel_wider"@, view, anchor_set) == AppCommand::BookmarksPanelWider,
        decide_action_spec("search_next"@, view, anchor_set) == AppCommand::SearchNext,
        decide_action_spec("search_previous"@, view, anchor_set) == AppCommand::SearchPrevious,
        decide_action_spec("search_page_down"@, view, anchor_set) == AppCommand::SearchPageDown,
        decide_action_spec("search_page_up"@, view, anchor_set) == AppCommand::SearchPageUp,
        decide_action_spec("search_open"@, view, anchor_set) == AppCommand::SearchOpen,
{
    reveal_strlit("quit");
    reveal_strlit("back");
    reveal_strlit("command");
    reveal_strlit("help");
    reveal_strlit("scroll_down");
    reveal_strlit("scroll_up");
    reveal_strlit("page_down");
    reveal_strlit("page_up");
    reveal_strlit("next_page");
    reveal_strlit("previous_page");
    reveal_strlit("home");
    reveal_strlit("end");
    reveal_strlit("clear-cache");
    reveal_strlit("clear_cache");
    reveal_strlit("refresh");
    reveal_strlit("metadata");
    reveal_strlit("bookmarks");
    reveal_strlit("search");
    reveal_strlit("selection");
    reveal_strlit("edit_metadata");
    reveal_strlit("edit_bookmarks");
    reveal_strlit("metadata_scroll_down");
    reveal_strlit("metadata_scroll_up");
    reveal_strlit("metadata_page_down");
    reveal_strlit("metadata_page_up");
    reveal_strlit("bookmarks_next");
    reveal_strlit("bookmarks_previous");
    reveal_strlit("bookmarks_page_down");
    reveal_strlit("bookmarks_page_up");
    reveal_strlit("bookmarks_toggle");
    reveal_strlit("bookmarks_toggle_all");
    reveal_strlit("bookmarks_open");
    reveal_strlit("bookmarks_panel_narrower");
    reveal_strlit("bookmarks_panel_wider");
    reveal_strlit("search_next");
    reveal_strlit("search_previous");
    reveal_strlit("search_page_down");
    reveal_strlit("search_page_up");
    reveal_strlit("search_open");
    reveal_strlit("selection_mark");
    reveal_strlit("selection_cancel");
    reveal_strlit("selection_next");
    reveal_strlit("selection_previous");
    reveal_strlit("selection_reselect");
    reveal_strlit("selection_copy_text");
    reveal_strlit("selection_copy_image");
    reveal_strlit("layout-use ");
    reveal_strlit("layout ");
    assert("edit_metadata"@.take(11)[0] != "layout-use "@[0]);
    assert("edit_metadata"@.take(7)[0] != "layout "@[0]);
    assert("edit_metadata"@[0] != "previous_page"@[0]);
    assert("edit_bookmarks"@.take(11)[0] != "layout-use "@[0]);
    assert("edit_bookmarks"@.take(7)[0] != "layout "@[0]);
    assert("metadata_scroll_down"@.take(11)[0] != "layout-use "@[0]);
    assert("metadata_scroll_down"@.take(7)[0] != "layout "@[0]);
    assert("metadata_scroll_up"@.take(11)[0] != "layout-use "@[0]);
    assert("metadata_scroll_up"@.take(7)[0] != "layout "@[0]);
    assert("metadata_page_down"@.take(11)[0] != "layout-use "@[0]);
    assert("metadata_page_down"@.take(7)[0] != "layout "@[0]);
    assert("metadata_page_down"@[9] != "metadata_scroll_up"@[9]);
    assert("metadata_page_up"@.take(11)[0] != "layout-use "@[0]);
    assert("metadata_page_up"@.take(7)[0] != "layout "@[0]);
    assert("bookmarks_next"@.take(11)[0] != "layout-use "@[0]);
    assert("bookmarks_next"@.take(7)[0] != "layout "@[0]);
    assert("bookmarks_next"@[0] != "edit_bookmarks"@[0]);
    assert("bookmarks_previous"@.take(11)[0] != "layout-use "@[0]);
    assert("bookmarks_previous"@.take(7)[0] != "layout "@[0]);
    assert("bookmarks_previous"@[0] != "metadata_scroll_up"@[0]);
    assert("bookmarks_previous"@[0] != "metadata_page_down"@[0]);
    assert("bookmarks_page_down"@.take(11)[0] != "layout-use "@[0]);
    assert("bookmarks_page_down"@.take(7)[0] != "layout "@[0]);
    assert("bookmarks_page_up"@.take(11)[0] != "layout-use "@[0]);
    assert("bookmarks_page_up"@.take(7)[0] != "layout "@[0]);
    assert("bookmarks_toggle"@.take(11)[0] != "layout-use "@[0]);
    assert("bookmarks_toggle"@.take(7)[0] != "layout "@[0]);
    assert("bookmarks_toggle"@[0] != "metadata_page_up"@[0]);
    assert("bookmarks_toggle_all"@.take(11)[0] != "layout-use "@[0]);
    assert("bookmarks_toggle_all"@.take(7)[0] != "layout "@[0]);
    assert("bookmarks_toggle_all"@[0] != "metadata_scroll_down"@[0]);
    assert("bookmarks_open"@.take(11)[0] != "layout-use "@[0]);
    assert("bookmarks_open"@.take(7)[0] != "layout "@[0]);
    assert("bookmarks_open"@[0] != "edit_bookmarks"@[0]);
    assert("bookmarks_open"@[10] != "bookmarks_next"@[10]);
    assert("bookmarks_panel_narrower"@.take(11)[0] != "layout-use "@[0]);
    assert("bookmarks_panel_narrower"@.take(7)[0] != "layout "@[0]);
    assert("bookmarks_panel_wider"@.take(11)[0] != "layout-use "@[0]);
    assert("bookmarks_panel_wider"@.take(7)[0] != "layout "@[0]);
    assert("search_next"@.take(11)[0] != "layout-use "@[0]);
    assert("search_next"@.take(7)[0] != "layout "@[0]);
    assert("search_next"@[1] != "scroll_down"@[1]);
    assert("search_next"@[0] != "clear-cache"@[0]);
    assert("search_next"@[0] != "clear_cache"@[0]);
    assert("search_previous"@.take(11)[0] != "layout-use "@[0]);
    assert("search_previous"@.take(7)[0] != "layout "@[0]);
    assert("search_page_down"@.take(11)[0] != "layout-use "@[0]);
    assert("search_page_down"@.take(7)[0] != "layout "@[0]);
    assert("search_page_down"@[0] != "metadata_page_up"@[0]);
    assert("search_page_down"@[0] != "bookmarks_toggle"@[0]);
    assert("search_page_up"@.take(11)[0] != "layout-use "@[0]);
    assert("search_page_up"@.take(7)[0] != "layout "@[0]);
    assert("search_page_up"@[0] != "edit_bookmarks"@[0]);
    assert("search_page_up"@[0] != "bookmarks_next"@[0]);
    assert("search_page_up"@[0] != "bookmarks_open"@[0]);
    assert("search_open"@.take(11)[0] != "layout-use "@[0]);
    assert("search_open"@.take(7)[0] != "layout "@[0]);
    assert("search_open"@[1] != "scroll_down"@[1]);
    assert("search_open"@[0] != "clear-cache"@[0]);
    assert("search_open"@[0] != "clear_cache"@[0]);
    assert("search_open"@[7] != "search_next"@[7]);
    assert("search_page_up"@ != "quit"@) by {
        assert("search_page_up"@.len() != "quit"@.len());
    }
    assert("search_page_up"@ != "back"@) by {
        assert("search_page_up"@.len() != "back"@.len());
    }
    assert("search_page_up"@ != "command"@) by {
        assert("search_page_up"@.len() != "command"@.len());
    }
    assert("search_page_up"@ != "help"@) by {
        assert("search_page_up"@.len() != "help"@.len());
    }
    assert("search_page_up"@ != "scroll_down"@) by {
        assert("search_page_up"@.len() != "scroll_down"@.len());
    }
    assert("search_page_up"@ != "scroll_up"@) by {
        assert("search_page_up"@.len() != "scroll_up"@.len());
    }
    assert("search_page_up"@ != "page_down"@) by {
        assert("search_page_up"@.len() != "page_down"@.len());
    }
    assert("search_page_up"@ != "page_up"@) by {
        assert("search_page_up"@.len() != "page_up"@.len());
    }
    assert("search_page_up"@ != "next_page"@) by {
        assert("search_page_up"@.len() != "next_page"@.len());
    }
    assert("search_page_up"@ != "previous_page"@) by {
        assert("search_page_up"@.len() != "previous_page"@.len());
    }
    assert("search_page_up"@ != "home"@) by {
        assert("search_page_up"@.len() != "home"@.len());
    }
    assert("search_page_up"@ != "end"@) by {
        assert("search_page_up"@.len() != "end"@.len());
    }
    assert("search_page_up"@ != "clear-cache"@) by {
        assert("search_page_up"@.len() != "clear-cache"@.len());
    }
    assert("search_page_up"@ != "clear_cache"@) by {
        assert("search_page_up"@.len() != "clear_cache"@.len());
    }
    assert("search_page_up"@ != "refresh"@) by {
        assert("search_page_up"@.len() != "refresh"@.len());
    }
    assert("search_page_up"@ != "metadata"@) by {
        assert("search_page_up"@.len() != "metadata"@.len());
    }
    assert("search_page_up"@ != "bookmarks"@) by {
        assert("search_page_up"@.len() != "bookmarks"@.len());
    }
    assert("search_page_up"@ != "search"@) by {
        assert("search_page_up"@.len() != "search"@.len());
    }
    assert("search_page_up"@ != "selection"@) by {
        assert("search_page_up"@.len() != "selection"@.len());
    }
    assert("search_page_up"@ != "edit_metadata"@) by {
        assert("search_page_up"@.len() != "edit_metadata"@.len());
    }
    assert("search_page_up"@ != "metadata_scroll_down"@) by {
        assert("search_page_up"@.len() != "metadata_scroll_down"@.len());
    }
    assert("search_page_up"@ != "metadata_scroll_up"@) by {
        assert("search_page_up"@.len() != "metadata_scroll_up"@.len());
    }
    assert("search_page_up"@ != "metadata_page_down"@) by {
        assert("search_page_up"@.len() != "metadata_page_down"@.len());
    }
    assert("search_page_up"@ != "metadata_page_up"@) by {
        assert("search_page_up"@.len() != "metadata_page_up"@.len());
    }
    assert("search_page_up"@ != "bookmarks_previous"@) by {
        assert("search_page_up"@.len() != "bookmarks_previous"@.len());
    }
    assert("search_page_up"@ != "bookmarks_page_down"@) by {
        assert("search_page_up"@.len() != "bookmarks_page_down"@.len());
    }
    assert("search_page_up"@ != "bookmarks_page_up"@) by {
        assert("search_page_up"@.len() != "bookmarks_page_up"@.len());
    }
    assert("search_page_up"@ != "bookmarks_toggle"@) by {
        assert("search_page_up"@.len() != "bookmarks_toggle"@.len());
    }
    assert("search_page_up"@ != "bookmarks_toggle_all"@) by {
        assert("search_page_up"@.len() != "bookmarks_toggle_all"@.len());
    }
    assert("search_page_up"@ != "bookmarks_panel_narrower"@) by {
        assert("search_page_up"@.len() != "bookmarks_panel_narrower"@.len());
    }
    assert("search_page_up"@ != "bookmarks_panel_wider"@) by {
        assert("search_page_up"@.len() != "bookmarks_panel_wider"@.len());
    }
    assert("search_page_up"@ != "search_next"@) by {
        assert("search_page_up"@.len() != "search_next"@.len());
    }
    assert("search_page_up"@ != "search_previous"@) by {
        assert("search_page_up"@.len() != "search_previous"@.len());
    }
    assert("search_page_up"@ != "search_page_down"@) by {
        assert("search_page_up"@.len() != "search_page_down"@.len());
    }
}

/// The selection actions name the selection commands, in every view and with or without a selection anchor (`selection_mark` asks for the mouse).
pub proof fn lemma_selection_actions_name_their_commands(view: ViewMode, anchor_set: bool)
    ensures
        decide_action_spec("selection_mark"@, view, anchor_set) == AppCommand::SelectionMarkNeedsMouse,
        decide_action_spec("selection_next"@, view, anchor_set) == AppCommand::SelectionNext,
        decide_action_spec("selection_previous"@, view, anchor_set) == AppCommand::SelectionPrevious,
        decide_action_spec("selection_reselect"@, view, anchor_set) == AppCommand::SelectionReselect,
        decide_action_spec("selection_copy_text"@, view, anchor_set) == AppCommand::SelectionCopyText,
        decide_action_spec("selection_copy_image"@, view, anchor_set) == AppCommand::SelectionCopyImage,
{
    reveal_strlit("quit");
    reveal_strlit("back");
    reveal_strlit("command");
    reveal_strlit("help");
    reveal_strlit("scroll_down");
    reveal_strlit("scroll_up");
    reveal_strlit("page_down");
    reveal_strlit("page_up");
    reveal_strlit("next_page");
    reveal_strlit("previous_page");
    reveal_strlit("home");
    reveal_strlit("end");
    reveal_strlit("clear-cache");
    reveal_strlit("clear_cache");
    reveal_strlit("refresh");
    reveal_strlit("metadata");
    reveal_strlit("bookmarks");
    reveal_strlit("search");
    reveal_strlit("selection");
    reveal_strlit("edit_metadata");
    reveal_strlit("edit_bookmarks");
    reveal_strlit("metadata_scroll_down");
    reveal_strlit("metadata_scroll_up");
    reveal_strlit("metadata_page_down");
    reveal_strlit("metadata_page_up");
    reveal_strlit("bookmarks_next");
    reveal_strlit("bookmarks_previous");
    reveal_strlit("bookmarks_page_down");
    reveal_strlit("bookmarks_page_up");
    reveal_strlit("bookmarks_toggle");
    reveal_strlit("bookmarks_toggle_all");
    reveal_strlit("bookmarks_open");
    reveal_strlit("bookmarks_panel_narrower");
    reveal_strlit("bookmarks_panel_wider");
    reveal_strlit("search_next");
    reveal_strlit("search_previous");
    reveal_strlit("search_page_down");
    reveal_strlit("search_page_up");
    reveal_strlit("search_open");
    reveal_strlit("selection_mark");
    reveal_strlit("selection_cancel");
    reveal_strlit("selection_next");
    reveal_strlit("selection_previous");
    reveal_strlit("selection_reselect");
    reveal_strlit("selection_copy_text");
    reveal_strlit("selection_copy_image");
    reveal_strlit("layout-use ");
    reveal_strlit("layout ");
    assert("selection_mark"@.take(11)[0] != "layout-use "@[0]);
    assert("selection_mark"@.take(7)[0] != "layout "@[0]);
    assert("selection_mark"@[0] != "edit_bookmarks"@[0]);
    assert("selection_mark"@[0] != "bookmarks_next"@[0]);
    assert("selection_mark"@[0] != "bookmarks_open"@[0]);
    assert("selection_mark"@[2] != "search_page_up"@[2]);
    assert("selection_next"@.take(11)[0] != "layout-use "@[0]);
    assert("selection_next"@.take(7)[0] != "layout "@[0]);
    assert("selection_next"@[0] != "edit_bookmarks"@[0]);
    assert("selection_next"@[0] != "bookmarks_next"@[0]);
    assert("selection_next"@[0] != "bookmarks_open"@[0]);
    assert("selection_next"@[2] != "search_page_up"@[2]);
    assert("selection_next"@[10] != "selection_mark"@[10]);
    assert("selection_previous"@.take(11)[0] != "layout-use "@[0]);
    assert("selection_previous"@.take(7)[0] != "layout "@[0]);
    assert("selection_previous"@[0] != "metadata_scroll_up"@[0]);
    assert("selection_previous"@[0] != "metadata_page_down"@[0]);
    assert("selection_previous"@[0] != "bookmarks_previous"@[0]);
    assert("selection_reselect"@.take(11)[0] != "layout-use "@[0]);
    assert("selection_reselect"@.take(7)[0] != "layout "@[0]);
    assert("selection_reselect"@[0] != "metadata_scroll_up"@[0]);
    assert("selection_reselect"@[0] != "metadata_page_down"@[0]);
    assert("selection_reselect"@[0] != "bookmarks_previous"@[0]);
    assert("selection_reselect"@[10] != "selection_previous"@[10]);
    assert("selection_copy_text"@.take(11)[0] != "layout-use "@[0]);
    assert("selection_copy_text"@.take(7)[0] != "layout "@[0]);
    assert("selection_copy_text"@[0] != "bookmarks_page_down"@[0]);
    assert("selection_copy_image"@.take(11)[0] != "layout-use "@[0]);
    assert("selection_copy_image"@.take(7)[0] != "layout "@[0]);
    assert("selection_copy_image"@[0] != "metadata_scroll_down"@[0]);
    assert("selection_copy_image"@[0] != "bookmarks_toggle_all"@[0]);

}

/// The moving actions depend on the view and `back` on the selection
/// anchor: `scroll_down`, `scroll_up`, `page_down` and `page_up` scroll the
/// metadata in the metadata view and the document elsewhere; `back` drops a
/// set selection anchor, else goes back to the viewer; `selection_cancel`
/// leaves the selection view when no anchor is set there, and otherwise
/// drops the anchor.
pub proof fn lemma_moving_actions_follow_the_view(view: ViewMode, anchor_set: bool)
    ensures
        decide_action_spec("back"@, view, anchor_set) == if anchor_set {
            AppCommand::CancelSelectionAnchor
        } else {
            AppCommand::BackToViewer
        },
        decide_action_spec("scroll_down"@, view, anchor_set) == if view == ViewMode::Metadata {
            AppCommand::MetadataScrollDown
        } else {
            AppCommand::ScrollDown
        },
        decide_action_spec("scroll_up"@, view, anchor_set) == if view == ViewMode::Metadata {
            AppCommand::MetadataScrollUp
        } else {
            AppCommand::ScrollUp
        },
        decide_action_spec("page_down"@, view, anchor_set) == if view == ViewMode::Metadata {
            AppCommand::MetadataPageDown
        } else {
            AppCommand::PageDown
        },
        decide_action_spec("page_up"@, view, anchor_set) == if view == ViewMode::Metadata {
            AppCommand::MetadataPageUp
        } else {
            AppCommand::PageUp
        },
        decide_action_spec("selection_cancel"@, view, anchor_set) == if !anchor_set && view == ViewMode::Selection {
            AppCommand::BackToViewer
        } else {
            AppCommand::CancelSelectionAnchor
        },
{
    reveal_strlit("quit");
    reveal_strlit("back");
    reveal_strlit("command");
    reveal_strlit("help");
    reveal_strlit("scroll_down");
    reveal_strlit("scroll_up");
    reveal_strlit("page_down");
    reveal_strlit("page_up");
    reveal_strlit("next_page");
    reveal_strlit("previous_page");
    reveal_strlit("home");
    reveal_strlit("end");
    reveal_strlit("clear-cache");
    reveal_strlit("clear_cache");
    reveal_strlit("refresh");
    reveal_strlit("metadata");
    reveal_strlit("bookmarks");
    reveal_strlit("search");
    reveal_strlit("selection");
    reveal_strlit("edit_metadata");
    reveal_strlit("edit_bookmarks");
    reveal_strlit("metadata_scroll_down");
    reveal_strlit("metadata_scroll_up");
    reveal_strlit("metadata_page_down");
    reveal_strlit("metadata_page_up");
    reveal_strlit("bookmarks_next");
    reveal_strlit("bookmarks_previous");
    reveal_strlit("bookmarks_page_down");
    reveal_strlit("bookmarks_page_up");
    reveal_strlit("bookmarks_toggle");
    reveal_strlit("bookmarks_toggle_all");
    reveal_strlit("bookmarks_open");
    reveal_strlit("bookmarks_panel_narrower");
    reveal_strlit("bookmarks_panel_wider");
    reveal_strlit("search_next");
    reveal_strlit("search_previous");
    reveal_strlit("search_page_down");
    reveal_strlit("search_page_up");
    reveal_strlit("search_open");
    reveal_strlit("selection_mark");
    reveal_strlit("selection_cancel");
    reveal_strlit("selection_next");
    reveal_strlit("selection_previous");
    reveal_strlit("selection_reselect");
    reveal_strlit("selection_copy_text");
    reveal_strlit("selection_copy_image");
    reveal_strlit("layout-use ");
    reveal_strlit("layout ");
    assert("back"@[0] != "quit"@[0]);
    assert("scroll_down"@.take(11)[0] != "layout-use "@[0]);
    assert("scroll_down"@.take(7)[0] != "layout "@[0]);
    assert("scroll_up"@.take(7)[0] != "layout "@[0]);
    assert("page_down"@.take(7)[0] != "layout "@[0]);
    assert("page_down"@[0] != "scroll_up"@[0]);
    assert("page_up"@.take(7)[0] != "layout "@[0]);
    assert("page_up"@[0] != "command"@[0]);
    assert("selection_cancel"@.take(11)[0] != "layout-use "@[0]);
    assert("selection_cancel"@.take(7)[0] != "layout "@[0]);
    assert("selection_cancel"@[0] != "metadata_page_up"@[0]);
    assert("selection_cancel"@[0] != "bookmarks_toggle"@[0]);
    assert("selection_cancel"@[2] != "search_page_down"@[2]);

}

/// A prompt line's first word names its command: `q` or `quit` quits,
/// `write-config` (or `write_config`) writes the configuration,
/// `clear-cache` clears the cache (or, with more words, shows its usage),
/// and `metadata`, `bookmarks`, `search`, `selection`, `refresh` and `help`
/// do what they say; an empty line asks for nothing.
pub proof fn lemma_prompt_words_name_their_commands(words: Seq<Seq<char>>)
    ensures
        words.len() > 0 && words[0] == "q"@ ==> prompt_command_spec(words) == Some(PromptCommand::Quit),
        words.len() > 0 && words[0] == "quit"@ ==> prompt_command_spec(words) == Some(PromptCommand::Quit),
        words.len() > 0 && words[0] == "write-config"@ ==> prompt_command_spec(words) == Some(PromptCommand::WriteConfig),
        words.len() > 0 && words[0] == "write_config"@ ==> prompt_command_spec(words) == Some(PromptCommand::WriteConfig),
        words.len() > 0 && words[0] == "metadata"@ ==> prompt_command_spec(words) == Some(PromptCommand::Metadata),
        words.len() > 0 && words[0] == "bookmarks"@ ==> prompt_command_spec(words) == Some(PromptCommand::Bookmarks),
        words.len() > 0 && words[0] == "search"@ ==> prompt_command_spec(words) == Some(PromptCommand::Search),
        words.len() > 0 && words[0] == "selection"@ ==> prompt_command_spec(words) == Some(PromptCommand::Selection),
        words.len() > 0 && words[0] == "refresh"@ ==> prompt_command_spec(words) == Some(PromptCommand::Refresh),
        words.len() > 0 && words[0] == "help"@ ==> prompt_command_spec(words) == Some(PromptCommand::Help),
        words.len() > 0 && (words[0] == "clear-cache"@ || words[0] == "clear_cache"@) ==> prompt_command_spec(words)
            == Some(if words.len() > 1 { PromptCommand::ClearCacheUsage } else { PromptCommand::ClearCache }),
        words.len() == 0 ==> prompt_command_spec(words) == Some(PromptCommand::Empty),
{
    reveal_strlit("q");
    reveal_strlit("quit");
    reveal_strlit("layout");
    reveal_strlit("layout-use");
    reveal_strlit("layout_use");
    reveal_strlit("write-config");
    reveal_strlit("write_config");
    reveal_strlit("clear-cache");
    reveal_strlit("clear_cache");
    reveal_strlit("metadata");
    reveal_strlit("bookmarks");
    reveal_strlit("search");
    reveal_strlit("selection");
    reveal_strlit("refresh");
    reveal_strlit("help");
    assert("quit"@ != "q"@) by {
        assert("quit"@.len() != "q"@.len());
    }
    assert("write-config"@ != "q"@) by {
        assert("write-config"@.len() != "q"@.len());
    }
    assert("write-config"@ != "quit"@) by {
        assert("write-config"@.len() != "quit"@.len());
    }
    assert("write-config"@ != "layout"@) by {
        assert("write-config"@.len() != "layout"@.len());
    }
    assert("write-config"@ != "layout-use"@) by {
        assert("write-config"@.len() != "layout-use"@.len());
    }
    assert("write-config"@ != "layout_use"@) by {
        assert("write-config"@.len() != "layout_use"@.len());
    }
    assert("write_config"@ != "q"@) by {
        assert("write_config"@.len() != "q"@.len());
    }
    assert("write_config"@ != "quit"@) by {
        assert("write_config"@.len() != "quit"@.len());
    }
    assert("write_config"@ != "layout"@) by {
        assert("write_config"@.len() != "layout"@.len());
    }
    assert("write_config"@ != "layout-use"@) by {
        assert("write_config"@.len() != "layout-use"@.len());
    }
    assert("write_config"@ != "layout_use"@) by {
        assert("write_config"@.len() != "layout_use"@.len());
    }
    assert("write_config"@ != "write-config"@) by {
        assert("write_config"@[5] != "write-config"@[5]);
    }
    assert("metadata"@ != "q"@) by {
        assert("metadata"@.len() != "q"@.len());
    }
    assert("metadata"@ != "quit"@) by {
        assert("metadata"@.len() != "quit"@.len());
    }
    assert("metadata"@ != "layout"@) by {
        assert("metadata"@.len() != "layout"@.len());
    }
    assert("metadata"@ != "layout-use"@) by {
        assert("metadata"@.len() != "layout-use"@.len());
    }
    assert("metadata"@ != "layout_use"@) by {
        assert("metadata"@.len() != "layout_use"@.len());
    }
    assert("metadata"@ != "write-config"@) by {
        assert("metadata"@.len() != "write-config"@.len());
    }
    assert("metadata"@ != "write_config"@) by {
        assert("metadata"@.len() != "write_config"@.len());
    }
    assert("metadata"@ != "clear-cache"@) by {
        assert("metadata"@.len() != "clear-cache"@.len());
    }
    assert("metadata"@ != "clear_cache"@) by {
        assert("metadata"@.len() != "clear_cache"@.len());
    }
    assert("bookmarks"@ != "q"@) by {
        assert("bookmarks"@.len() != "q"@.len());
    }
    assert("bookmarks"@ != "quit"@) by {
        assert("bookmarks"@.len() != "quit"@.len());
    }
    assert("bookmarks"@ != "layout"@) by {
        assert("bookmarks"@.len() != "layout"@.len());
    }
    assert("bookmarks"@ != "layout-use"@) by {
        assert("bookmarks"@.len() != "layout-use"@.len());
    }
    assert("bookmarks"@ != "layout_use"@) by {
        assert("bookmarks"@.len() != "layout_use"@.len());
    }
    assert("bookmarks"@ != "write-config"@) by {
        assert("bookmarks"@.len() != "write-config"@.len());
    }
    assert("bookmarks"@ != "write_config"@) by {
        assert("bookmarks"@.len() != "write_config"@.len());
    }
    assert("bookmarks"@ != "clear-cache"@) by {
        assert("bookmarks"@.len() != "clear-cache"@.len());
    }
    assert("bookmarks"@ != "clear_cache"@) by {
        assert("bookmarks"@.len() != "clear_cache"@.len());
    }
    assert("bookmarks"@ != "metadata"@) by {
        assert("bookmarks"@.len() != "metadata"@.len());
    }
    assert("search"@ != "q"@) by {
        assert("search"@.len() != "q"@.len());
    }
    assert("search"@ != "quit"@) by {
        assert("search"@.len() != "quit"@.len());
    }
    assert("search"@ != "layout"@) by {
        assert("search"@[0] != "layout"@[0]);
    }
    assert("search"@ != "layout-use"@) by {
        assert("search"@.len() != "layout-use"@.len());
    }
    assert("search"@ != "layout_use"@) by {
        assert("search"@.len() != "layout_use"@.len());
    }
    assert("search"@ != "write-config"@) by {
        assert("search"@.len() != "write-config"@.len());
    }
    assert("search"@ != "write_config"@) by {
        assert("search"@.len() != "write_config"@.len());
    }
    assert("search"@ != "clear-cache"@) by {
        assert("search"@.len() != "clear-cache"@.len());
    }
    assert("search"@ != "clear_cache"@) by {
        assert("search"@.len() != "clear_cache"@.len());
    }
    assert("search"@ != "metadata"@) by {
        assert("search"@.len() != "metadata"@.len());
    }
    assert("search"@ != "bookmarks"@) by {
        assert("search"@.len() != "bookmarks"@.len());
    }
    assert("selection"@ != "q"@) by {
        assert("selection"@.len() != "q"@.len());
    }
    assert("selection"@ != "quit"@) by {
        assert("selection"@.len() != "quit"@.len());
    }
    assert("selection"@ != "layout"@) by {
        assert("selection"@.len() != "layout"@.len());
    }
    assert("selection"@ != "layout-use"@) by {
        assert("selection"@.len() != "layout-use"@.len());
    }
    assert("selection"@ != "layout_use"@) by {
        assert("selection"@.len() != "layout_use"@.len());
    }
    assert("selection"@ != "write-config"@) by {
        assert("selection"@.len() != "write-config"@.len());
    }
    assert("selection"@ != "write_config"@) by {
        assert("selection"@.len() != "write_config"@.len());
    }
    assert("selection"@ != "clear-cache"@) by {
        assert("selection"@.len() != "clear-cache"@.len());
    }
    assert("selection"@ != "clear_cache"@) by {
        assert("selection"@.len() != "clear_cache"@.len());
    }
    assert("selection"@ != "metadata"@) by {
        assert("selection"@.len() != "metadata"@.len());
    }
    assert("selection"@ != "bookmarks"@) by {
        assert("selection"@[0] != "bookmarks"@[0]);
    }
    assert("selection"@ != "search"@) by {
        assert("selection"@.len() != "search"@.len());
    }
    assert("refresh"@ != "q"@) by {
        assert("refresh"@.len() != "q"@.len());
    }
    assert("refresh"@ != "quit"@) by {
        assert("refresh"@.len() != "quit"@.len());
    }
    assert("refresh"@ != "layout"@) by {
        assert("refresh"@.len() != "layout"@.len());
    }
    assert("refresh"@ != "layout-use"@) by {
        assert("refresh"@.len() != "layout-use"@.len());
    }
    assert("refresh"@ != "layout_use"@) by {
        assert("refresh"@.len() != "layout_use"@.len());
    }
    assert("refresh"@ != "write-config"@) by {
        assert("refresh"@.len() != "write-config"@.len());
    }
    assert("refresh"@ != "write_config"@) by {
        assert("refresh"@.len() != "write_config"@.len());
    }
    assert("refresh"@ != "clear-cache"@) by {
        assert("refresh"@.len() != "clear-cache"@.len());
    }
    assert("refresh"@ != "clear_cache"@) by {
        assert("refresh"@.len() != "clear_cache"@.len());
    }
    assert("refresh"@ != "metadata"@) by {
        assert("refresh"@.len() != "metadata"@.len());
    }
    assert("refresh"@ != "bookmarks"@) by {
        assert("refresh"@.len() != "bookmarks"@.len());
    }
    assert("refresh"@ != "search"@) by {
        assert("refresh"@.len() != "search"@.len());
    }
    assert("refresh"@ != "selection"@) by {
        assert("refresh"@.len() != "selection"@.len());
    }
    assert("help"@ != "q"@) by {
        assert("help"@.len() != "q"@.len());
    }
    assert("help"@ != "quit"@) by {
        assert("help"@[0] != "quit"@[0]);
    }
    assert("help"@ != "layout"@) by {
        assert("help"@.len() != "layout"@.len());
    }
    assert("help"@ != "layout-use"@) by {
        assert("help"@.len() != "layout-use"@.len());
    }
    assert("help"@ != "layout_use"@) by {
        assert("help"@.len() != "layout_use"@.len());
    }
    assert("help"@ != "write-config"@) by {
        assert("help"@.len() != "write-config"@.len());
    }
    assert("help"@ != "write_config"@) by {
        assert("help"@.len() != "write_config"@.len());
    }
    assert("help"@ != "clear-cache"@) by {
        assert("help"@.len() != "clear-cache"@.len());
    }
    assert("help"@ != "clear_cache"@) by {
        assert("help"@.len() != "clear_cache"@.len());
    }
    assert("help"@ != "metadata"@) by {
        assert("help"@.len() != "metadata"@.len());
    }
    assert("help"@ != "bookmarks"@) by {
        assert("help"@.len() != "bookmarks"@.len());
    }
    assert("help"@ != "search"@) by {
        assert("help"@.len() != "search"@.len());
    }
    assert("help"@ != "selection"@) by {
        assert("help"@.len() != "selection"@.len());
    }
    assert("help"@ != "refresh"@) by {
        assert("help"@.len() != "refresh"@.len());
    }
    assert("clear-cache"@ != "q"@) by {
        assert("clear-cache"@.len() != "q"@.len());
    }
    assert("clear-cache"@ != "quit"@) by {
        assert("clear-cache"@.len() != "quit"@.len());
    }
    assert("clear-cache"@ != "layout"@) by {
        assert("clear-cache"@.len() != "layout"@.len());
    }
    assert("clear-cache"@ != "layout-use"@) by {
        assert("clear-cache"@.len() != "layout-use"@.len());
    }
    assert("clear-cache"@ != "layout_use"@) by {
        assert("clear-cache"@.len() != "layout_use"@.len());
    }
    assert("clear-cache"@ != "write-config"@) by {
        assert("clear-cache"@.len() != "write-config"@.len());
    }
    assert("clear-cache"@ != "write_config"@) by {
        assert("clear-cache"@.len() != "write_config"@.len());
    }
    assert("clear_cache"@ != "q"@) by {
        assert("clear_cache"@.len() != "q"@.len());
    }
    assert("clear_cache"@ != "quit"@) by {
        assert("clear_cache"@.len() != "quit"@.len());
    }
    assert("clear_cache"@ != "layout"@) by {
        assert("clear_cache"@.len() != "layout"@.len());
    }
    assert("clear_cache"@ != "layout-use"@) by {
        assert("clear_cache"@.len() != "layout-use"@.len());
    }
    assert("clear_cache"@ != "layout_use"@) by {
        assert("clear_cache"@.len() != "layout_use"@.len());
    }
    assert("clear_cache"@ != "write-config"@) by {
        assert("clear_cache"@.len() != "write-config"@.len());
    }
    assert("clear_cache"@ != "write_config"@) by {
        assert("clear_cache"@.len() != "write_config"@.len());
    }
    assert("clear_cache"@ != "clear-cache"@) by {
        assert("clear_cache"@[5] != "clear-cache"@[5]);
    }
}

/// The key help, then a confirmation dialog, take every input; then a
/// prompt takes keys and pastes; the mouse wheel moves through what the
/// view shows (the document, the metadata, or the bookmark, search or
/// selection list), down going forward and up going back; a resize and
/// other events are ignored.
pub proof fn lemma_inputs_go_to_their_handlers(
    kind: InputKind,
    key_help: bool,
    confirming: bool,
    prompting: bool,
    view: ViewMode,
)
    ensures
        ({
            let route = route_input_spec(kind, key_help, confirming, prompting, view);
            let plain = !key_help && !confirming;
            &&& key_help ==> route == InputRoute::KeyHelp
            &&& !key_help && confirming ==> route == InputRoute::Confirm
            &&& plain && prompting && kind == InputKind::Key ==> route == InputRoute::PromptKey
            &&& plain && prompting && kind == InputKind::Paste ==> route == InputRoute::PromptPaste
            &&& plain && !prompting && kind == InputKind::Key ==> route == if view == ViewMode::Search {
                InputRoute::SearchKey
            } else {
                InputRoute::KeyToken
            }
            &&& plain && kind == InputKind::ScrollDown ==> route == match view {
                ViewMode::Viewer => InputRoute::ScrollDown,
                ViewMode::Metadata => InputRoute::MetadataScrollDown,
                ViewMode::Bookmarks => InputRoute::BookmarksNext,
                ViewMode::Search => InputRoute::SearchNext,
                ViewMode::Selection => InputRoute::SelectionNext,
            }
            &&& plain && kind == InputKind::ScrollUp ==> route == match view {
                ViewMode::Viewer => InputRoute::ScrollUp,
                ViewMode::Metadata => InputRoute::MetadataScrollUp,
                ViewMode::Bookmarks => InputRoute::BookmarksPrevious,
                ViewMode::Search => InputRoute::SearchPrevious,
                ViewMode::Selection => InputRoute::SelectionPrevious,
            }
            &&& plain && (kind == InputKind::Resize || kind == InputKind::Other) ==> route == InputRoute::Ignore
        }),
{
}

/// The general actions can be used in every view; `back` in every view but the viewer.
pub proof fn lemma_general_actions_are_available_everywhere(view: ViewMode)
    ensures
        action_available_spec(view, "quit"@) == (true),
        action_available_spec(view, "command"@) == (true),
        action_available_spec(view, "help"@) == (true),
        action_available_spec(view, "clear-cache"@) == (true),
        action_available_spec(view, "clear_cache"@) == (true),
        action_available_spec(view, "refresh"@) == (true),
        action_available_spec(view, "back"@) == (view != ViewMode::Viewer),
{
    reveal_strlit("quit");
    reveal_strlit("command");
    reveal_strlit("help");
    reveal_strlit("clear-cache");
    reveal_strlit("clear_cache");
    reveal_strlit("refresh");
    reveal_strlit("back");
    reveal_strlit("scroll_down");
    reveal_strlit("scroll_up");
    reveal_strlit("page_down");
    reveal_strlit("page_up");
    reveal_strlit("next_page");
    reveal_strlit("previous_page");
    reveal_strlit("home");
    reveal_strlit("end");
    reveal_strlit("metadata");
    reveal_strlit("bookmarks");
    reveal_strlit("search");
    reveal_strlit("selection");
    reveal_strlit("selection_mark");
    reveal_strlit("selection_cancel");
    reveal_strlit("edit_metadata");
    reveal_strlit("metadata_scroll_down");
    reveal_strlit("metadata_scroll_up");
    reveal_strlit("metadata_page_down");
    reveal_strlit("metadata_page_up");
    reveal_strlit("edit_bookmarks");
    reveal_strlit("bookmarks_next");
    reveal_strlit("bookmarks_previous");
    reveal_strlit("bookmarks_page_down");
    reveal_strlit("bookmarks_page_up");
    reveal_strlit("bookmarks_toggle");
    reveal_strlit("bookmarks_toggle_all");
    reveal_strlit("bookmarks_open");
    reveal_strlit("bookmarks_panel_narrower");
    reveal_strlit("bookmarks_panel_wider");
    reveal_strlit("search_next");
    reveal_strlit("search_previous");
    reveal_strlit("search_page_down");
    reveal_strlit("search_page_up");
    reveal_strlit("search_open");
    reveal_strlit("selection_next");
    reveal_strlit("selection_previous");
    reveal_strlit("selection_reselect");
    reveal_strlit("selection_copy_text");
    reveal_strlit("selection_copy_image");
    reveal_strlit("layout ");
    reveal_strlit("layout-use ");
    assert(always_actions()[0] == "quit"@);
    assert("command"@.take(7)[0] != "layout "@[0]);
    assert(always_actions()[1] == "command"@);
    assert(always_actions()[2] == "help"@);
    assert("clear-cache"@.take(11)[0] != "layout-use "@[0]);
    assert("clear-cache"@.take(7)[0] != "layout "@[0]);
    assert(always_actions()[3] == "clear-cache"@);
    assert("clear_cache"@.take(11)[0] != "layout-use "@[0]);
    assert("clear_cache"@.take(7)[0] != "layout "@[0]);
    assert(always_actions()[4] == "clear_cache"@);
    assert("refresh"@.take(7)[0] != "layout "@[0]);
    assert(always_actions()[5] == "refresh"@);
    assert(!always_actions().contains("back"@)) by {
        assert("back"@[0] != "quit"@[0]);
        assert("back"@.len() != "command"@.len());
        assert("back"@[0] != "help"@[0]);
        assert("back"@.len() != "clear-cache"@.len());
        assert("back"@.len() != "clear_cache"@.len());
        assert("back"@.len() != "refresh"@.len());
        assert forall|k: int| 0 <= k < always_actions().len() implies always_actions()[k] != "back"@ by {
            assert(always_actions()[k] == always_actions()[k]);
        }
    }
}

/// Viewer navigation can be used in the viewer only; marking and cancelling a selection in the viewer and the selection view.
pub proof fn lemma_viewer_actions_are_available_in_the_viewer(view: ViewMode)
    ensures
        action_available_spec(view, "scroll_down"@) == (view == ViewMode::Viewer),
        action_available_spec(view, "scroll_up"@) == (view == ViewMode::Viewer),
        action_available_spec(view, "page_down"@) == (view == ViewMode::Viewer),
        action_available_spec(view, "page_up"@) == (view == ViewMode::Viewer),
        action_available_spec(view, "next_page"@) == (view == ViewMode::Viewer),
        action_available_spec(view, "previous_page"@) == (view == ViewMode::Viewer),
        action_available_spec(view, "home"@) == (view == ViewMode::Viewer),
        action_available_spec(view, "end"@) == (view == ViewMode::Viewer),
        action_available_spec(view, "metadata"@) == (view == ViewMode::Viewer),
        action_available_spec(view, "bookmarks"@) == (view == ViewMode::Viewer),
        action_available_spec(view, "search"@) == (view == ViewMode::Viewer),
        action_available_spec(view, "selection"@) == (view == ViewMode::Viewer),
        action_available_spec(view, "selection_mark"@) == (view == ViewMode::Viewer || view == ViewMode::Selection),
        action_available_spec(view, "selection_cancel"@) == (view == ViewMode::Viewer || view == ViewMode::Selection),
{
    reveal_strlit("quit");
    reveal_strlit("command");
    reveal_strlit("help");
    reveal_strlit("clear-cache");
    reveal_strlit("clear_cache");
    reveal_strlit("refresh");
    reveal_strlit("back");
    reveal_strlit("scroll_down");
    reveal_strlit("scroll_up");
    reveal_strlit("page_down");
    reveal_strlit("page_up");
    reveal_strlit("next_page");
    reveal_strlit("previous_page");
    reveal_strlit("home");
    reveal_strlit("end");
    reveal_strlit("metadata");
    reveal_strlit("bookmarks");
    reveal_strlit("search");
    reveal_strlit("selection");
    reveal_strlit("selection_mark");
    reveal_strlit("selection_cancel");
    reveal_strlit("edit_metadata");
    reveal_strlit("metadata_scroll_down");
    reveal_strlit("metadata_scroll_up");
    reveal_strlit("metadata_page_down");
    reveal_strlit("metadata_page_up");
    reveal_strlit("edit_bookmarks");
    reveal_strlit("bookmarks_next");
    reveal_strlit("bookmarks_previous");
    reveal_strlit("bookmarks_page_down");
    reveal_strlit("bookmarks_page_up");
    reveal_strlit("bookmarks_toggle");
    reveal_strlit("bookmarks_toggle_all");
    reveal_strlit("bookmarks_open");
    reveal_strlit("bookmarks_panel_narrower");
    reveal_strlit("bookmarks_panel_wider");
    reveal_strlit("search_next");
    reveal_strlit("search_previous");
    reveal_strlit("search_page_down");
    reveal_strlit("search_page_up");
    reveal_strlit("search_open");
    reveal_strlit("selection_next");
    reveal_strlit("selection_previous");
    reveal_strlit("selection_reselect");
    reveal_strlit("selection_copy_text");
    reveal_strlit("selection_copy_image");
    reveal_strlit("layout ");
    reveal_strlit("layout-use ");
    assert("scroll_down"@.take(11)[0] != "layout-use "@[0]);
    assert("scroll_down"@.take(7)[0] != "layout "@[0]);
    assert(!always_actions().contains("scroll_down"@)) by {
        assert("scroll_down"@.len() != "quit"@.len());
        assert("scroll_down"@.len() != "command"@.len());
        assert("scroll_down"@.len() != "help"@.len());
        assert("scroll_down"@[0] != "clear-cache"@[0]);
        assert("scroll_down"@[0] != "clear_cache"@[0]);
        assert("scroll_down"@.len() != "refresh"@.len());
        assert forall|k: int| 0 <= k < always_actions().len() implies always_actions()[k] != "scroll_down"@ by {
            assert(always_actions()[k] == always_actions()[k]);
        }
    }
    assert("scroll_down"@ != "back"@) by {
        assert("scroll_down"@.len() != "back"@.len());
    }
    assert(viewer_only_actions()[0] == "scroll_down"@);
    assert("scroll_up"@.take(7)[0] != "layout "@[0]);
    assert(!always_actions().contains("scroll_up"@)) by {
        assert("scroll_up"@.len() != "quit"@.len());
        assert("scroll_up"@.len() != "command"@.len());
        assert("scroll_up"@.len() != "help"@.len());
        assert("scroll_up"@.len() != "clear-cache"@.len());
        assert("scroll_up"@.len() != "clear_cache"@.len());
        assert("scroll_up"@.len() != "refresh"@.len());
        assert forall|k: int| 0 <= k < always_actions().len() implies always_actions()[k] != "scroll_up"@ by {
            assert(always_actions()[k] == always_actions()[k]);
        }
    }
    assert("scroll_up"@ != "back"@) by {
        assert("scroll_up"@.len() != "back"@.len());
    }
    assert(viewer_only_actions()[1] == "scroll_up"@);
    assert("page_down"@.take(7)[0] != "layout "@[0]);
    assert(!always_actions().contains("page_down"@)) by {
        assert("page_down"@.len() != "quit"@.len());
        assert("page_down"@.len() != "command"@.len());
        assert("page_down"@.len() != "help"@.len());
        assert("page_down"@.len() != "clear-cache"@.len());
        assert("page_down"@.len() != "clear_cache"@.len());
        assert("page_down"@.len() != "refresh"@.len());
        assert forall|k: int| 0 <= k < always_actions().len() implies always_actions()[k] != "page_down"@ by {
            assert(always_actions()[k] == always_actions()[k]);
        }
    }
    assert("page_down"@ != "back"@) by {
        assert("page_down"@.len() != "back"@.len());
    }
    assert(viewer_only_actions()[2] == "page_down"@);
    assert("page_up"@.take(7)[0] != "layout "@[0]);
    assert(!always_actions().contains("page_up"@)) by {
        assert("page_up"@.len() != "quit"@.len());
        assert("page_up"@[0] != "command"@[0]);
        assert("page_up"@.len() != "help"@.len());
        assert("page_up"@.len() != "clear-cache"@.len());
        assert("page_up"@.len() != "clear_cache"@.len());
        assert("page_up"@[0] != "refresh"@[0]);
        assert forall|k: int| 0 <= k < always_actions().len() implies always_actions()[k] != "page_up"@ by {
            assert(always_actions()[k] == always_actions()[k]);
        }
    }
    assert("page_up"@ != "back"@) by {
        assert("page_up"@.len() != "back"@.len());
    }
    assert(viewer_only_actions()[3] == "page_up"@);
    assert("next_page"@.take(7)[0] != "layout "@[0]);
    assert(!always_actions().contains("next_page"@)) by {
        assert("next_page"@.len() != "quit"@.len());
        assert("next_page"@.len() != "command"@.len());
        assert("next_page"@.len() != "help"@.len());
        assert("next_page"@.len() != "clear-cache"@.len());
        assert("next_page"@.len() != "clear_cache"@.len());
        assert("next_page"@.len() != "refresh"@.len());
        assert forall|k: int| 0 <= k < always_actions().len() implies always_actions()[k] != "next_page"@ by {
            assert(always_actions()[k] == always_actions()[k]);
        }
    }
    assert("next_page"@ != "back"@) by {
        assert("next_page"@.len() != "back"@.len());
    }
    assert(viewer_only_actions()[4] == "next_page"@);
    assert("previous_page"@.take(11)[0] != "layout-use "@[0]);
    assert("previous_page"@.take(7)[0] != "layout "@[0]);
    assert(!always_actions().contains("previous_page"@)) by {
        assert("previous_page"@.len() != "quit"@.len());
        assert("previous_page"@.len() != "command"@.len());
        assert("previous_page"@.len() != "help"@.len());
        assert("previous_page"@.len() != "clear-cache"@.len());
        assert("previous_page"@.len() != "clear_cache"@.len());
        assert("previous_page"@.len() != "refresh"@.len());
        assert forall|k: int| 0 <= k < always_actions().len() implies always_actions()[k] != "previous_page"@ by {
            assert(always_actions()[k] == always_actions()[k]);
        }
    }
    assert("previous_page"@ != "back"@) by {
        assert("previous_page"@.len() != "back"@.len());
    }
    assert(viewer_only_actions()[5] == "previous_page"@);
    assert(!always_actions().contains("home"@)) by {
        assert("home"@[0] != "quit"@[0]);
        assert("home"@.len() != "command"@.len());
        assert("home"@[1] != "help"@[1]);
        assert("home"@.len() != "clear-cache"@.len());
        assert("home"@.len() != "clear_cache"@.len());
        assert("home"@.len() != "refresh"@.len());
        assert forall|k: int| 0 <= k < always_actions().len() implies always_actions()[k] != "home"@ by {
            assert(always_actions()[k] == always_actions()[k]);
        }
    }
    assert("home"@ != "back"@) by {
        assert("home"@[0] != "back"@[0]);
    }
    assert(viewer_only_actions()[6] == "home"@);
    assert(!always_actions().contains("end"@)) by {
        assert("end"@.len() != "quit"@.len());
        assert("end"@.len() != "command"@.len());
        assert("end"@.len() != "help"@.len());
        assert("end"@.len() != "clear-cache"@.len());
        assert("end"@.len() != "clear_cache"@.len());
        assert("end"@.len() != "refresh"@.len());
        assert forall|k: int| 0 <= k < always_actions().len() implies always_actions()[k] != "end"@ by {
            assert(always_actions()[k] == always_actions()[k]);
        }
    }
    assert("end"@ != "back"@) by {
        assert("end"@.len() != "back"@.len());
    }
    assert(viewer_only_actions()[7] == "end"@);
    assert("metadata"@.take(7)[0] != "layout "@[0]);
    assert(!always_actions().contains("metadata"@)) by {
        assert("metadata"@.len() != "quit"@.len());
        assert("metadata"@.len() != "command"@.len());
        assert("metadata"@.len() != "help"@.len());
        assert("metadata"@.len() != "clear-cache"@.len());
        assert("metadata"@.len() != "clear_cache"@.len());
        assert("metadata"@.len() != "refresh"@.len());
        assert forall|k: int| 0 <= k < always_actions().len() implies always_actions()[k] != "metadata"@ by {
            assert(always_actions()[k] == always_actions()[k]);
        }
    }
    assert("metadata"@ != "back"@) by {
        assert("metadata"@.len() != "back"@.len());
    }
    assert(viewer_only_actions()[8] == "metadata"@);
    assert("bookmarks"@.take(7)[0] != "layout "@[0]);
    assert(!always_actions().contains("bookmarks"@)) by {
        assert("bookmarks"@.len() != "quit"@.len());
        assert("bookmarks"@.len() != "command"@.len());
        assert("bookmarks"@.len() != "help"@.len());
        assert("bookmarks"@.len() != "clear-cache"@.len());
        assert("bookmarks"@.len() != "clear_cache"@.len());
        assert("bookmarks"@.len() != "refresh"@.len());
        assert forall|k: int| 0 <= k < always_actions().len() implies always_actions()[k] != "bookmarks"@ by {
            assert(always_actions()[k] == always_actions()[k]);
        }
    }
    assert("bookmarks"@ != "back"@) by {
        assert("bookmarks"@.len() != "back"@.len());
    }
    assert(viewer_only_actions()[9] == "bookmarks"@);
    assert(!always_actions().contains("search"@)) by {
        assert("search"@.len() != "quit"@.len());
        assert("search"@.len() != "command"@.len());
        assert("search"@.len() != "help"@.len());
        assert("search"@.len() != "clear-cache"@.len());
        assert("search"@.len() != "clear_cache"@.len());
        assert("search"@.len() != "refresh"@.len());
        assert forall|k: int| 0 <= k < always_actions().len() implies always_actions()[k] != "search"@ by {
            assert(always_actions()[k] == always_actions()[k]);
        }
    }
    assert("search"@ != "back"@) by {
        assert("search"@.len() != "back"@.len());
    }
    assert(viewer_only_actions()[10] == "search"@);
    assert("selection"@.take(7)[0] != "layout "@[0]);
    assert(!always_actions().contains("selection"@)) by {
        assert("selection"@.len() != "quit"@.len());
        assert("selection"@.len() != "command"@.len());
        assert("selection"@.len() != "help"@.len());
        assert("selection"@.len() != "clear-cache"@.len());
        assert("selection"@.len() != "clear_cache"@.len());
        assert("selection"@.len() != "refresh"@.len());
        assert forall|k: int| 0 <= k < always_actions().len() implies always_actions()[k] != "selection"@ by {
            assert(always_actions()[k] == always_actions()[k]);
        }
    }
    assert("selection"@ != "back"@) by {
        assert("selection"@.len() != "back"@.len());
    }
    assert(viewer_only_actions()[11] == "selection"@);
    assert("selection_mark"@.take(11)[0] != "layout-use "@[0]);
    assert("selection_mark"@.take(7)[0] != "layout "@[0]);
    assert(!always_actions().contains("selection_mark"@)) by {
        assert("selection_mark"@.len() != "quit"@.len());
        assert("selection_mark"@.len() != "command"@.len());
        assert("selection_mark"@.len() != "help"@.len());
        assert("selection_mark"@.len() != "clear-cache"@.len());
        assert("selection_mark"@.len() != "clear_cache"@.len());
        assert("selection_mark"@.len() != "refresh"@.len());
        assert forall|k: int| 0 <= k < always_actions().len() implies always_actions()[k] != "selection_mark"@ by {
            assert(always_actions()[k] == always_actions()[k]);
        }
    }
    assert("selection_mark"@ != "back"@) by {
        assert("selection_mark"@.len() != "back"@.len());
    }
    assert(!viewer_only_actions().contains("selection_mark"@)) by {
        assert("selection_mark"@.len() != "scroll_down"@.len());
        assert("selection_mark"@.len() != "scroll_up"@.len());
        assert("selection_mark"@.len() != "page_down"@.len());
        assert("selection_mark"@.len() != "page_up"@.len());
        assert("selection_mark"@.len() != "next_page"@.len());
        assert("selection_mark"@.len() != "previous_page"@.len());
        assert("selection_mark"@.len() != "home"@.len());
        assert("selection_mark"@.len() != "end"@.len());
        assert("selection_mark"@.len() != "metadata"@.len());
        assert("selection_mark"@.len() != "bookmarks"@.len());
        assert("selection_mark"@.len() != "search"@.len());
        assert("selection_mark"@.len() != "selection"@.len());
        assert forall|k: int| 0 <= k < viewer_only_actions().len() implies viewer_only_actions()[k] != "selection_mark"@ by {
            assert(viewer_only_actions()[k] == viewer_only_actions()[k]);
        }
    }
    assert("selection_cancel"@.take(11)[0] != "layout-use "@[0]);
    assert("selection_cancel"@.take(7)[0] != "layout "@[0]);
    assert(!always_actions().contains("selection_cancel"@)) by {
        assert("selection_cancel"@.len() != "quit"@.len());
        assert("selection_cancel"@.len() != "command"@.len());
        assert("selection_cancel"@.len() != "help"@.len());
        assert("selection_cancel"@.len() != "clear-cache"@.len());
        assert("selection_cancel"@.len() != "clear_cache"@.len());
        assert("selection_cancel"@.len() != "refresh"@.len());
        assert forall|k: int| 0 <= k < always_actions().len() implies always_actions()[k] != "selection_cancel"@ by {
            assert(always_actions()[k] == always_actions()[k]);
        }
    }
    assert("selection_cancel"@ != "back"@) by {
        assert("selection_cancel"@.len() != "back"@.len());
    }
    assert(!viewer_only_actions().contains("selection_cancel"@)) by {
        assert("selection_cancel"@.len() != "scroll_down"@.len());
        assert("selection_cancel"@.len() != "scroll_up"@.len());
        assert("selection_cancel"@.len() != "page_down"@.len());
        assert("selection_cancel"@.len() != "page_up"@.len());
        assert("selection_cancel"@.len() != "next_page"@.len());
        assert("selection_cancel"@.len() != "previous_page"@.len());
        assert("selection_cancel"@.len() != "home"@.len());
        assert("selection_cancel"@.len() != "end"@.len());
        assert("selection_cancel"@.len() != "metadata"@.len());
        assert("selection_cancel"@.len() != "bookmarks"@.len());
        assert("selection_cancel"@.len() != "search"@.len());
        assert("selection_cancel"@.len() != "selection"@.len());
        assert forall|k: int| 0 <= k < viewer_only_actions().len() implies viewer_only_actions()[k] != "selection_cancel"@ by {
            assert(viewer_only_actions()[k] == viewer_only_actions()[k]);
        }
    }
}

/// Each view's own actions can be used in that view only.
pub proof fn lemma_view_actions_are_available_in_their_views(view: ViewMode)
    ensures
        action_available_spec(view, "edit_metadata"@) == (view == ViewMode::Metadata),
        action_available_spec(view, "metadata_scroll_down"@) == (view == ViewMode::Metadata),
        action_available_spec(view, "metadata_scroll_up"@) == (view == ViewMode::Metadata),
        action_available_spec(view, "metadata_page_down"@) == (view == ViewMode::Metadata),
        action_available_spec(view, "metadata_page_up"@) == (view == ViewMode::Metadata),
        action_available_spec(view, "edit_bookmarks"@) == (view == ViewMode::Bookmarks),
        action_available_spec(view, "bookmarks_next"@) == (view == ViewMode::Bookmarks),
        action_available_spec(view, "bookmarks_previous"@) == (view == ViewMode::Bookmarks),
        action_available_spec(view, "bookmarks_page_down"@) == (view == ViewMode::Bookmarks),
        action_available_spec(view, "bookmarks_page_up"@) == (view == ViewMode::Bookmarks),
        action_available_spec(view, "bookmarks_toggle"@) == (view == ViewMode::Bookmarks),
        action_available_spec(view, "bookmarks_toggle_all"@) == (view == ViewMode::Bookmarks),
        action_available_spec(view, "bookmarks_open"@) == (view == ViewMode::Bookmarks),
        action_available_spec(view, "bookmarks_panel_narrower"@) == (view == ViewMode::Bookmarks),
        action_available_spec(view, "bookmarks_panel_wider"@) == (view == ViewMode::Bookmarks),
        action_available_spec(view, "search_next"@) == (view == ViewMode::Search),
        action_available_spec(view, "search_previous"@) == (view == ViewMode::Search),
        action_available_spec(view, "search_page_down"@) == (view == ViewMode::Search),
        action_available_spec(view, "search_page_up"@) == (view == ViewMode::Search),
        action_available_spec(view, "search_open"@) == (view == ViewMode::Search),
        action_available_spec(view, "selection_next"@) == (view == ViewMode::Selection),
        action_available_spec(view, "selection_previous"@) == (view == ViewMode::Selection),
        action_available_spec(view, "selection_reselect"@) == (view == ViewMode::Selection),
        action_available_spec(view, "selection_copy_text"@) == (view == ViewMode::Selection),
        action_available_spec(view, "selection_copy_image"@) == (view == ViewMode::Selection),
{
    reveal_strlit("quit");
    reveal_strlit("command");
    reveal_strlit("help");
    reveal_strlit("clear-cache");
    reveal_strlit("clear_cache");
    reveal_strlit("refresh");
    reveal_strlit("back");
    reveal_strlit("scroll_down");
    reveal_strlit("scroll_up");
    reveal_strlit("page_down");
    reveal_strlit("page_up");
    reveal_strlit("next_page");
    reveal_strlit("previous_page");
    reveal_strlit("home");
    reveal_strlit("end");
    reveal_strlit("metadata");
    reveal_strlit("bookmarks");
    reveal_strlit("search");
    reveal_strlit("selection");
    reveal_strlit("selection_mark");
    reveal_strlit("selection_cancel");
    reveal_strlit("edit_metadata");
    reveal_strlit("metadata_scroll_down");
    reveal_strlit("metadata_scroll_up");
    reveal_strlit("metadata_page_down");
    reveal_strlit("metadata_page_up");
    reveal_strlit("edit_bookmarks");
    reveal_strlit("bookmarks_next");
    reveal_strlit("bookmarks_previous");
    reveal_strlit("bookmarks_page_down");
    reveal_strlit("bookmarks_page_up");
    reveal_strlit("bookmarks_toggle");
    reveal_strlit("bookmarks_toggle_all");
    reveal_strlit("bookmarks_open");
    reveal_strlit("bookmarks_panel_narrower");
    reveal_strlit("bookmarks_panel_wider");
    reveal_strlit("search_next");
    reveal_strlit("search_previous");
    reveal_strlit("search_page_down");
    reveal_strlit("search_page_up");
    reveal_strlit("search_open");
    reveal_strlit("selection_next");
    reveal_strlit("selection_previous");
    reveal_strlit("selection_reselect");
    reveal_strlit("selection_copy_text");
    reveal_strlit("selection_copy_image");
    reveal_strlit("layout ");
    reveal_strlit("layout-use ");
    assert("edit_metadata"@.take(11)[0] != "layout-use "@[0]);
    assert("edit_metadata"@.take(7)[0] != "layout "@[0]);
    assert(!always_actions().contains("edit_metadata"@)) by {
        assert("edit_metadata"@.len() != "quit"@.len());
        assert("edit_metadata"@.len() != "command"@.len());
        assert("edit_metadata"@.len() != "help"@.len());
        assert("edit_metadata"@.len() != "clear-cache"@.len());
        assert("edit_metadata"@.len() != "clear_cache"@.len());
        assert("edit_metadata"@.len() != "refresh"@.len());
        assert forall|k: int| 0 <= k < always_actions().len() implies always_actions()[k] != "edit_metadata"@ by {
            assert(always_actions()[k] == always_actions()[k]);
        }
    }
    assert("edit_metadata"@ != "back"@) by {
        assert("edit_metadata"@.len() != "back"@.len());
    }
    assert(!viewer_only_actions().contains("edit_metadata"@)) by {
        assert("edit_metadata"@.len() != "scroll_down"@.len());
        assert("edit_metadata"@.len() != "scroll_up"@.len());
        assert("edit_metadata"@.len() != "page_down"@.len());
        assert("edit_metadata"@.len() != "page_up"@.len());
        assert("edit_metadata"@.len() != "next_page"@.len());
        assert("edit_metadata"@[0] != "previous_page"@[0]);
        assert("edit_metadata"@.len() != "home"@.len());
        assert("edit_metadata"@.len() != "end"@.len());
        assert("edit_metadata"@.len() != "metadata"@.len());
        assert("edit_metadata"@.len() != "bookmarks"@.len());
        assert("edit_metadata"@.len() != "search"@.len());
        assert("edit_metadata"@.len() != "selection"@.len());
        assert forall|k: int| 0 <= k < viewer_only_actions().len() implies viewer_only_actions()[k] != "edit_metadata"@ by {
            assert(viewer_only_actions()[k] == viewer_only_actions()[k]);
        }
    }
    assert("edit_metadata"@ != "selection_mark"@) by {
        assert("edit_metadata"@.len() != "selection_mark"@.len());
    }
    assert("edit_metadata"@ != "selection_cancel"@) by {
        assert("edit_metadata"@.len() != "selection_cancel"@.len());
    }
    assert(metadata_actions()[0] == "edit_metadata"@);
    assert("metadata_scroll_down"@.take(11)[0] != "layout-use "@[0]);
    assert("metadata_scroll_down"@.take(7)[0] != "layout "@[0]);
    assert(!always_actions().contains("metadata_scroll_down"@)) by {
        assert("metadata_scroll_down"@.len() != "quit"@.len());
        assert("metadata_scroll_down"@.len() != "command"@.len());
        assert("metadata_scroll_down"@.len() != "help"@.len());
        assert("metadata_scroll_down"@.len() != "clear-cache"@.len());
        assert("metadata_scroll_down"@.len() != "clear_cache"@.len());
        assert("metadata_scroll_down"@.len() != "refresh"@.len());
        assert forall|k: int| 0 <= k < always_actions().len() implies always_actions()[k] != "metadata_scroll_down"@ by {
            assert(always_actions()[k] == always_actions()[k]);
        }
    }
    assert("metadata_scroll_down"@ != "back"@) by {
        assert("metadata_scroll_down"@.len() != "back"@.len());
    }
    assert(!viewer_only_actions().contains("metadata_scroll_down"@)) by {
        assert("metadata_scroll_down"@.len() != "scroll_down"@.len());
        assert("metadata_scroll_down"@.len() != "scroll_up"@.len());
        assert("metadata_scroll_down"@.len() != "page_down"@.len());
        assert("metadata_scroll_down"@.len() != "page_up"@.len());
        assert("metadata_scroll_down"@.len() != "next_page"@.len());
        assert("metadata_scroll_down"@.len() != "previous_page"@.len());
        assert("metadata_scroll_down"@.len() != "home"@.len());
        assert("metadata_scroll_down"@.len() != "end"@.len());
        assert("metadata_scroll_down"@.len() != "metadata"@.len());
        assert("metadata_scroll_down"@.len() != "bookmarks"@.len());
        assert("metadata_scroll_down"@.len() != "search"@.len());
        assert("metadata_scroll_down"@.len() != "selection"@.len());
        assert forall|k: int| 0 <= k < viewer_only_actions().len() implies viewer_only_actions()[k] != "metadata_scroll_down"@ by {
            assert(viewer_only_actions()[k] == viewer_only_actions()[k]);
        }
    }
    assert("metadata_scroll_down"@ != "selection_mark"@) by {
        assert("metadata_scroll_down"@.len() != "selection_mark"@.len());
    }
    assert("metadata_scroll_down"@ != "selection_cancel"@) by {
        assert("metadata_scroll_down"@.len() != "selection_cancel"@.len());
    }
    assert(metadata_actions()[1] == "metadata_scroll_down"@);
    assert("metadata_scroll_up"@.take(11)[0] != "layout-use "@[0]);
    assert("metadata_scroll_up"@.take(7)[0] != "layout "@[0]);
    assert(!always_actions().contains("metadata_scroll_up"@)) by {
        assert("metadata_scroll_up"@.len() != "quit"@.len());
        assert("metadata_scroll_up"@.len() != "command"@.len());
        assert("metadata_scroll_up"@.len() != "help"@.len());
        assert("metadata_scroll_up"@.len() != "clear-cache"@.len());
        assert("metadata_scroll_up"@.len() != "clear_cache"@.len());
        assert("metadata_scroll_up"@.len() != "refresh"@.len());
        assert forall|k: int| 0 <= k < always_actions().len() implies always_actions()[k] != "metadata_scroll_up"@ by {
            assert(always_actions()[k] == always_actions()[k]);
        }
    }
    assert("metadata_scroll_up"@ != "back"@) by {
        assert("metadata_scroll_up"@.len() != "back"@.len());
    }
    assert(!viewer_only_actions().contains("metadata_scroll_up"@)) by {
        assert("metadata_scroll_up"@.len() != "scroll_down"@.len());
        assert("metadata_scroll_up"@.len() != "scroll_up"@.len());
        assert("metadata_scroll_up"@.len() != "page_down"@.len());
        assert("metadata_scroll_up"@.len() != "page_up"@.len());
        assert("metadata_scroll_up"@.len() != "next_page"@.len());
        assert("metadata_scroll_up"@.len() != "previous_page"@.len());
        assert("metadata_scroll_up"@.len() != "home"@.len());
        assert("metadata_scroll_up"@.len() != "end"@.len());
        assert("metadata_scroll_up"@.len() != "metadata"@.len());
        assert("metadata_scroll_up"@.len() != "bookmarks"@.len());
        assert("metadata_scroll_up"@.len() != "search"@.len());
        assert("metadata_scroll_up"@.len() != "selection"@.len());
        assert forall|k: int| 0 <= k < viewer_only_actions().len() implies viewer_only_actions()[k] != "metadata_scroll_up"@ by {
            assert(viewer_only_actions()[k] == viewer_only_actions()[k]);
        }
    }
    assert("metadata_scroll_up"@ != "selection_mark"@) by {
        assert("metadata_scroll_up"@.len() != "selection_mark"@.len());
    }
    assert("metadata_scroll_up"@ != "selection_cancel"@) by {
        assert("metadata_scroll_up"@.len() != "selection_cancel"@.len());
    }
    assert(metadata_actions()[2] == "metadata_scroll_up"@);
    assert("metadata_page_down"@.take(11)[0] != "layout-use "@[0]);
    assert("metadata_page_down"@.take(7)[0] != "layout "@[0]);
    assert(!always_actions().contains("metadata_page_down"@)) by {
        assert("metadata_page_down"@.len() != "quit"@.len());
        assert("metadata_page_down"@.len() != "command"@.len());
        assert("metadata_page_down"@.len() != "help"@.len());
        assert("metadata_page_down"@.len() != "clear-cache"@.len());
        assert("metadata_page_down"@.len() != "clear_cache"@.len());
        assert("metadata_page_down"@.len() != "refresh"@.len());
        assert forall|k: int| 0 <= k < always_actions().len() implies always_actions()[k] != "metadata_page_down"@ by {
            assert(always_actions()[k] == always_actions()[k]);
        }
    }
    assert("metadata_page_down"@ != "back"@) by {
        assert("metadata_page_down"@.len() != "back"@.len());
    }
    assert(!viewer_only_actions().contains("metadata_page_down"@)) by {
        assert("metadata_page_down"@.len() != "scroll_down"@.len());
        assert("metadata_page_down"@.len() != "scroll_up"@.len());
        assert("metadata_page_down"@.len() != "page_down"@.len());
        assert("metadata_page_down"@.len() != "page_up"@.len());
        assert("metadata_page_down"@.len() != "next_page"@.len());
        assert("metadata_page_down"@.len() != "previous_page"@.len());
        assert("metadata_page_down"@.len() != "home"@.len());
        assert("metadata_page_down"@.len() != "end"@.len());
        assert("metadata_page_down"@.len() != "metadata"@.len());
        assert("metadata_page_down"@.len() != "bookmarks"@.len());
        assert("metadata_page_down"@.len() != "search"@.len());
        assert("metadata_page_down"@.len() != "selection"@.len());
        assert forall|k: int| 0 <= k < viewer_only_actions().len() implies viewer_only_actions()[k] != "metadata_page_down"@ by {
            assert(viewer_only_actions()[k] == viewer_only_actions()[k]);
        }
    }
    assert("metadata_page_down"@ != "selection_mark"@) by {
        assert("metadata_page_down"@.len() != "selection_mark"@.len());
    }
    assert("metadata_page_down"@ != "selection_cancel"@) by {
        assert("metadata_page_down"@.len() != "selection_cancel"@.len());
    }
    assert(metadata_actions()[3] == "metadata_page_down"@);
    assert("metadata_page_up"@.take(11)[0] != "layout-use "@[0]);
    assert("metadata_page_up"@.take(7)[0] != "layout "@[0]);
    assert(!always_actions().contains("metadata_page_up"@)) by {
        assert("metadata_page_up"@.len() != "quit"@.len());
        assert("metadata_page_up"@.len() != "command"@.len());
        assert("metadata_page_up"@.len() != "help"@.len());
        assert("metadata_page_up"@.len() != "clear-cache"@.len());
        assert("metadata_page_up"@.len() != "clear_cache"@.len());
        assert("metadata_page_up"@.len() != "refresh"@.len());
        assert forall|k: int| 0 <= k < always_actions().len() implies always_actions()[k] != "metadata_page_up"@ by {
            assert(always_actions()[k] == always_actions()[k]);
        }
    }
    assert("metadata_page_up"@ != "back"@) by {
        assert("metadata_page_up"@.len() != "back"@.len());
    }
    assert(!viewer_only_actions().contains("metadata_page_up"@)) by {
        assert("metadata_page_up"@.len() != "scroll_down"@.len());
        assert("metadata_page_up"@.len() != "scroll_up"@.len());
        assert("metadata_page_up"@.len() != "page_down"@.len());
        assert("metadata_page_up"@.len() != "page_up"@.len());
        assert("metadata_page_up"@.len() != "next_page"@.len());
        assert("metadata_page_up"@.len() != "previous_page"@.len());
        assert("metadata_page_up"@.len() != "home"@.len());
        assert("metadata_page_up"@.len() != "end"@.len());
        assert("metadata_page_up"@.len() != "metadata"@.len());
        assert("metadata_page_up"@.len() != "bookmarks"@.len());
        assert("metadata_page_up"@.len() != "search"@.len());
        assert("metadata_page_up"@.len() != "selection"@.len());
        assert forall|k: int| 0 <= k < viewer_only_actions().len() implies viewer_only_actions()[k] != "metadata_page_up"@ by {
            assert(viewer_only_actions()[k] == viewer_only_actions()[k]);
        }
    }
    assert("metadata_page_up"@ != "selection_mark"@) by {
        assert("metadata_page_up"@.len() != "selection_mark"@.len());
    }
    assert("metadata_page_up"@ != "selection_cancel"@) by {
        assert("metadata_page_up"@[0] != "selection_cancel"@[0]);
    }
    assert(metadata_actions()[4] == "metadata_page_up"@);
    assert("edit_bookmarks"@.take(11)[0] != "layout-use "@[0]);
    assert("edit_bookmarks"@.take(7)[0] != "layout "@[0]);
    assert(!always_actions().contains("edit_bookmarks"@)) by {
        assert("edit_bookmarks"@.len() != "quit"@.len());
        assert("edit_bookmarks"@.len() != "command"@.len());
        assert("edit_bookmarks"@.len() != "help"@.len());
        assert("edit_bookmarks"@.len() != "clear-cache"@.len());
        assert("edit_bookmarks"@.len() != "clear_cache"@.len());
        assert("edit_bookmarks"@.len() != "refresh"@.len());
        assert forall|k: int| 0 <= k < always_actions().len() implies always_actions()[k] != "edit_bookmarks"@ by {
            assert(always_actions()[k] == always_actions()[k]);
        }
    }
    assert("edit_bookmarks"@ != "back"@) by {
        assert("edit_bookmarks"@.len() != "back"@.len());
    }
    assert(!viewer_only_actions().contains("edit_bookmarks"@)) by {
        assert("edit_bookmarks"@.len() != "scroll_down"@.len());
        assert("edit_bookmarks"@.len() != "scroll_up"@.len());
        assert("edit_bookmarks"@.len() != "page_down"@.len());
        assert("edit_bookmarks"@.len() != "page_up"@.len());
        assert("edit_bookmarks"@.len() != "next_page"@.len());
        assert("edit_bookmarks"@.len() != "previous_page"@.len());
        assert("edit_bookmarks"@.len() != "home"@.len());
        assert("edit_bookmarks"@.len() != "end"@.len());
        assert("edit_bookmarks"@.len() != "metadata"@.len());
        assert("edit_bookmarks"@.len() != "bookmarks"@.len());
        assert("edit_bookmarks"@.len() != "search"@.len());
        assert("edit_bookmarks"@.len() != "selection"@.len());
        assert forall|k: int| 0 <= k < viewer_only_actions().len() implies viewer_only_actions()[k] != "edit_bookmarks"@ by {
            assert(viewer_only_actions()[k] == viewer_only_actions()[k]);
        }
    }
    assert("edit_bookmarks"@ != "selection_mark"@) by {
        assert("edit_bookmarks"@[0] != "selection_mark"@[0]);
    }
    assert("edit_bookmarks"@ != "selection_cancel"@) by {
        assert("edit_bookmarks"@.len() != "selection_cancel"@.len());
    }
    assert(!metadata_actions().contains("edit_bookmarks"@)) by {
        assert("edit_bookmarks"@.len() != "edit_metadata"@.len());
        assert("edit_bookmarks"@.len() != "metadata_scroll_down"@.len());
        assert("edit_bookmarks"@.len() != "metadata_scroll_up"@.len());
        assert("edit_bookmarks"@.len() != "metadata_page_down"@.len());
        assert("edit_bookmarks"@.len() != "metadata_page_up"@.len());
        assert forall|k: int| 0 <= k < metadata_actions().len() implies metadata_actions()[k] != "edit_bookmarks"@ by {
            assert(metadata_actions()[k] == metadata_actions()[k]);
        }
    }
    assert(bookmarks_actions()[0] == "edit_bookmarks"@);
    assert("bookmarks_next"@.take(11)[0] != "layout-use "@[0]);
    assert("bookmarks_next"@.take(7)[0] != "layout "@[0]);
    assert(!always_actions().contains("bookmarks_next"@)) by {
        assert("bookmarks_next"@.len() != "quit"@.len());
        assert("bookmarks_next"@.len() != "command"@.len());
        assert("bookmarks_next"@.len() != "help"@.len());
        assert("bookmarks_next"@.len() != "clear-cache"@.len());
        assert("bookmarks_next"@.len() != "clear_cache"@.len());
        assert("bookmarks_next"@.len() != "refresh"@.len());
        assert forall|k: int| 0 <= k < always_actions().len() implies always_actions()[k] != "bookmarks_next"@ by {
            assert(always_actions()[k] == always_actions()[k]);
        }
    }
    assert("bookmarks_next"@ != "back"@) by {
        assert("bookmarks_next"@.len() != "back"@.len());
    }
    assert(!viewer_only_actions().contains("bookmarks_next"@)) by {
        assert("bookmarks_next"@.len() != "scroll_down"@.len());
        assert("bookmarks_next"@.len() != "scroll_up"@.len());
        assert("bookmarks_next"@.len() != "page_down"@.len());
        assert("bookmarks_next"@.len() != "page_up"@.len());
        assert("bookmarks_next"@.len() != "next_page"@.len());
        assert("bookmarks_next"@.len() != "previous_page"@.len());
        assert("bookmarks_next"@.len() != "home"@.len());
        assert("bookmarks_next"@.len() != "end"@.len());
        assert("bookmarks_next"@.len() != "metadata"@.len());
        assert("bookmarks_next"@.len() != "bookmarks"@.len());
        assert("bookmarks_next"@.len() != "search"@.len());
        assert("bookmarks_next"@.len() != "selection"@.len());
        assert forall|k: int| 0 <= k < viewer_only_actions().len() implies viewer_only_actions()[k] != "bookmarks_next"@ by {
            assert(viewer_only_actions()[k] == viewer_only_actions()[k]);
        }
    }
    assert("bookmarks_next"@ != "selection_mark"@) by {
        assert("bookmarks_next"@[0] != "selection_mark"@[0]);
    }
    assert("bookmarks_next"@ != "selection_cancel"@) by {
        assert("bookmarks_next"@.len() != "selection_cancel"@.len());
    }
    assert(!metadata_actions().contains("bookmarks_next"@)) by {
        assert("bookmarks_next"@.len() != "edit_metadata"@.len());
        assert("bookmarks_next"@.len() != "metadata_scroll_down"@.len());
        assert("bookmarks_next"@.len() != "metadata_scroll_up"@.len());
        assert("bookmarks_next"@.len() != "metadata_page_down"@.len());
        assert("bookmarks_next"@.len() != "metadata_page_up"@.len());
        assert forall|k: int| 0 <= k < metadata_actions().len() implies metadata_actions()[k] != "bookmarks_next"@ by {
            assert(metadata_actions()[k] == metadata_actions()[k]);
        }
    }
    assert(bookmarks_actions()[1] == "bookmarks_next"@);
    assert("bookmarks_previous"@.take(11)[0] != "layout-use "@[0]);
    assert("bookmarks_previous"@.take(7)[0] != "layout "@[0]);
    assert(!always_actions().contains("bookmarks_previous"@)) by {
        assert("bookmarks_previous"@.len() != "quit"@.len());
        assert("bookmarks_previous"@.len() != "command"@.len());
        assert("bookmarks_previous"@.len() != "help"@.len());
        assert("bookmarks_previous"@.len() != "clear-cache"@.len());
        assert("bookmarks_previous"@.len() != "clear_cache"@.len());
        assert("bookmarks_previous"@.len() != "refresh"@.len());
        assert forall|k: int| 0 <= k < always_actions().len() implies always_actions()[k] != "bookmarks_previous"@ by {
            assert(always_actions()[k] == always_actions()[k]);
        }
    }
    assert("bookmarks_previous"@ != "back"@) by {
        assert("bookmarks_previous"@.len() != "back"@.len());
    }
    assert(!viewer_only_actions().contains("bookmarks_previous"@)) by {
        assert("bookmarks_previous"@.len() != "scroll_down"@.len());
        assert("bookmarks_previous"@.len() != "scroll_up"@.len());
        assert("bookmarks_previous"@.len() != "page_down"@.len());
        assert("bookmarks_previous"@.len() != "page_up"@.len());
        assert("bookmarks_previous"@.len() != "next_page"@.len());
        assert("bookmarks_previous"@.len() != "previous_page"@.len());
        assert("bookmarks_previous"@.len() != "home"@.len());
        assert("bookmarks_previous"@.len() != "end"@.len());
        assert("bookmarks_previous"@.len() != "metadata"@.len());
        assert("bookmarks_previous"@.len() != "bookmarks"@.len());
        assert("bookmarks_previous"@.len() != "search"@.len());
        assert("bookmarks_previous"@.len() != "selection"@.len());
        assert forall|k: int| 0 <= k < viewer_only_actions().len() implies viewer_only_actions()[k] != "bookmarks_previous"@ by {
            assert(viewer_only_actions()[k] == viewer_only_actions()[k]);
        }
    }
    assert("bookmarks_previous"@ != "selection_mark"@) by {
        assert("bookmarks_previous"@.len() != "selection_mark"@.len());
    }
    assert("bookmarks_previous"@ != "selection_cancel"@) by {
        assert("bookmarks_previous"@.len() != "selection_cancel"@.len());
    }
    assert(!metadata_actions().contains("bookmarks_previous"@)) by {
        assert("bookmarks_previous"@.len() != "edit_metadata"@.len());
        assert("bookmarks_previous"@.len() != "metadata_scroll_down"@.len());
        assert("bookmarks_previous"@[0] != "metadata_scroll_up"@[0]);
        assert("bookmarks_previous"@[0] != "metadata_page_down"@[0]);
        assert("bookmarks_previous"@.len() != "metadata_page_up"@.len());
        assert forall|k: int| 0 <= k < metadata_actions().len() implies metadata_actions()[k] != "bookmarks_previous"@ by {
            assert(metadata_actions()[k] == metadata_actions()[k]);
        }
    }
    assert(bookmarks_actions()[2] == "bookmarks_previous"@);
    assert("bookmarks_page_down"@.take(11)[0] != "layout-use "@[0]);
    assert("bookmarks_page_down"@.take(7)[0] != "layout "@[0]);
    assert(!always_actions().contains("bookmarks_page_down"@)) by {
        assert("bookmarks_page_down"@.len() != "quit"@.len());
        assert("bookmarks_page_down"@.len() != "command"@.len());
        assert("bookmarks_page_down"@.len() != "help"@.len());
        assert("bookmarks_page_down"@.len() != "clear-cache"@.len());
        assert("bookmarks_page_down"@.len() != "clear_cache"@.len());
        assert("bookmarks_page_down"@.len() != "refresh"@.len());
        assert forall|k: int| 0 <= k < always_actions().len() implies always_actions()[k] != "bookmarks_page_down"@ by {
            assert(always_actions()[k] == always_actions()[k]);
        }
    }
    assert("bookmarks_page_down"@ != "back"@) by {
        assert("bookmarks_page_down"@.len() != "back"@.len());
    }
    assert(!viewer_only_actions().contains("bookmarks_page_down"@)) by {
        assert("bookmarks_page_down"@.len() != "scroll_down"@.len());
        assert("bookmarks_page_down"@.len() != "scroll_up"@.len());
        assert("bookmarks_page_down"@.len() != "page_down"@.len());
        assert("bookmarks_page_down"@.len() != "page_up"@.len());
        assert("bookmarks_page_down"@.len() != "next_page"@.len());
        assert("bookmarks_page_down"@.len() != "previous_page"@.len());
        assert("bookmarks_page_down"@.len() != "home"@.len());
        assert("bookmarks_page_down"@.len() != "end"@.len());
        assert("bookmarks_page_down"@.len() != "metadata"@.len());
        assert("bookmarks_page_down"@.len() != "bookmarks"@.len());
        assert("bookmarks_page_down"@.len() != "search"@.len());
        assert("bookmarks_page_down"@.len() != "selection"@.len());
        assert forall|k: int| 0 <= k < viewer_only_actions().len() implies viewer_only_actions()[k] != "bookmarks_page_down"@ by {
            assert(viewer_only_actions()[k] == viewer_only_actions()[k]);
        }
    }
    assert("bookmarks_page_down"@ != "selection_mark"@) by {
        assert("bookmarks_page_down"@.len() != "selection_mark"@.len());
    }
    assert("bookmarks_page_down"@ != "selection_cancel"@) by {
        assert("bookmarks_page_down"@.len() != "selection_cancel"@.len());
    }
    assert(!metadata_actions().contains("bookmarks_page_down"@)) by {
        assert("bookmarks_page_down"@.len() != "edit_metadata"@.len());
        assert("bookmarks_page_down"@.len() != "metadata_scroll_down"@.len());
        assert("bookmarks_page_down"@.len() != "metadata_scroll_up"@.len());
        assert("bookmarks_page_down"@.len() != "metadata_page_down"@.len());
        assert("bookmarks_page_down"@.len() != "metadata_page_up"@.len());
        assert forall|k: int| 0 <= k < metadata_actions().len() implies metadata_actions()[k] != "bookmarks_page_down"@ by {
            assert(metadata_actions()[k] == metadata_actions()[k]);
        }
    }
    assert(bookmarks_actions()[3] == "bookmarks_page_down"@);
    assert("bookmarks_page_up"@.take(11)[0] != "layout-use "@[0]);
    assert("bookmarks_page_up"@.take(7)[0] != "layout "@[0]);
    assert(!always_actions().contains("bookmarks_page_up"@)) by {
        assert("bookmarks_page_up"@.len() != "quit"@.len());
        assert("bookmarks_page_up"@.len() != "command"@.len());
        assert("bookmarks_page_up"@.len() != "help"@.len());
        assert("bookmarks_page_up"@.len() != "clear-cache"@.len());
        assert("bookmarks_page_up"@.len() != "clear_cache"@.len());
        assert("bookmarks_page_up"@.len() != "refresh"@.len());
        assert forall|k: int| 0 <= k < always_actions().len() implies always_actions()[k] != "bookmarks_page_up"@ by {
            assert(always_actions()[k] == always_actions()[k]);
        }
    }
    assert("bookmarks_page_up"@ != "back"@) by {
        assert("bookmarks_page_up"@.len() != "back"@.len());
    }
    assert(!viewer_only_actions().contains("bookmarks_page_up"@)) by {
        assert("bookmarks_page_up"@.len() != "scroll_down"@.len());
        assert("bookmarks_page_up"@.len() != "scroll_up"@.len());
        assert("bookmarks_page_up"@.len() != "page_down"@.len());
        assert("bookmarks_page_up"@.len() != "page_up"@.len());
        assert("bookmarks_page_up"@.len() != "next_page"@.len());
        assert("bookmarks_page_up"@.len() != "previous_page"@.len());
        assert("bookmarks_page_up"@.len() != "home"@.len());
        assert("bookmarks_page_up"@.len() != "end"@.len());
        assert("bookmarks_page_up"@.len() != "metadata"@.len());
        assert("bookmarks_page_up"@.len() != "bookmarks"@.len());
        assert("bookmarks_page_up"@.len() != "search"@.len());
        assert("bookmarks_page_up"@.len() != "selection"@.len());
        assert forall|k: int| 0 <= k < viewer_only_actions().len() implies viewer_only_actions()[k] != "bookmarks_page_up"@ by {
            assert(viewer_only_actions()[k] == viewer_only_actions()[k]);
        }
    }
    assert("bookmarks_page_up"@ != "selection_mark"@) by {
        assert("bookmarks_page_up"@.len() != "selection_mark"@.len());
    }
    assert("bookmarks_page_up"@ != "selection_cancel"@) by {
        assert("bookmarks_page_up"@.len() != "selection_cancel"@.len());
    }
    assert(!metadata_actions().contains("bookmarks_page_up"@)) by {
        assert("bookmarks_page_up"@.len() != "edit_metadata"@.len());
        assert("bookmarks_page_up"@.len() != "metadata_scroll_down"@.len());
        assert("bookmarks_page_up"@.len() != "metadata_scroll_up"@.len());
        assert("bookmarks_page_up"@.len() != "metadata_page_down"@.len());
        assert("bookmarks_page_up"@.len() != "metadata_page_up"@.len());
        assert forall|k: int| 0 <= k < metadata_actions().len() implies metadata_actions()[k] != "bookmarks_page_up"@ by {
            assert(metadata_actions()[k] == metadata_actions()[k]);
        }
    }
    assert(bookmarks_actions()[4] == "bookmarks_page_up"@);
    assert("bookmarks_toggle"@.take(11)[0] != "layout-use "@[0]);
    assert("bookmarks_toggle"@.take(7)[0] != "layout "@[0]);
    assert(!always_actions().contains("bookmarks_toggle"@)) by {
        assert("bookmarks_toggle"@.len() != "quit"@.len());
        assert("bookmarks_toggle"@.len() != "command"@.len());
        assert("bookmarks_toggle"@.len() != "help"@.len());
        assert("bookmarks_toggle"@.len() != "clear-cache"@.len());
        assert("bookmarks_toggle"@.len() != "clear_cache"@.len());
        assert("bookmarks_toggle"@.len() != "refresh"@.len());
        assert forall|k: int| 0 <= k < always_actions().len() implies always_actions()[k] != "bookmarks_toggle"@ by {
            assert(always_actions()[k] == always_actions()[k]);
        }
    }
    assert("bookmarks_toggle"@ != "back"@) by {
        assert("bookmarks_toggle"@.len() != "back"@.len());
    }
    assert(!viewer_only_actions().contains("bookmarks_toggle"@)) by {
        assert("bookmarks_toggle"@.len() != "scroll_down"@.len());
        assert("bookmarks_toggle"@.len() != "scroll_up"@.len());
        assert("bookmarks_toggle"@.len() != "page_down"@.len());
        assert("bookmarks_toggle"@.len() != "page_up"@.len());
        assert("bookmarks_toggle"@.len() != "next_page"@.len());
        assert("bookmarks_toggle"@.len() != "previous_page"@.len());
        assert("bookmarks_toggle"@.len() != "home"@.len());
        assert("bookmarks_toggle"@.len() != "end"@.len());
        assert("bookmarks_toggle"@.len() != "metadata"@.len());
        assert("bookmarks_toggle"@.len() != "bookmarks"@.len());
        assert("bookmarks_toggle"@.len() != "search"@.len());
        assert("bookmarks_toggle"@.len() != "selection"@.len());
        assert forall|k: int| 0 <= k < viewer_only_actions().len() implies viewer_only_actions()[k] != "bookmarks_toggle"@ by {
            assert(viewer_only_actions()[k] == viewer_only_actions()[k]);
        }
    }
    assert("bookmarks_toggle"@ != "selection_mark"@) by {
        assert("bookmarks_toggle"@.len() != "selection_mark"@.len());
    }
    assert("bookmarks_toggle"@ != "selection_cancel"@) by {
        assert("bookmarks_toggle"@[0] != "selection_cancel"@[0]);
    }
    assert(!metadata_actions().contains("bookmarks_toggle"@)) by {
        assert("bookmarks_toggle"@.len() != "edit_metadata"@.len());
        assert("bookmarks_toggle"@.len() != "metadata_scroll_down"@.len());
        assert("bookmarks_toggle"@.len() != "metadata_scroll_up"@.len());
        assert("bookmarks_toggle"@.len() != "metadata_page_down"@.len());
        assert("bookmarks_toggle"@[0] != "metadata_page_up"@[0]);
        assert forall|k: int| 0 <= k < metadata_actions().len() implies metadata_actions()[k] != "bookmarks_toggle"@ by {
            assert(metadata_actions()[k] == metadata_actions()[k]);
        }
    }
    assert(bookmarks_actions()[5] == "bookmarks_toggle"@);
    assert("bookmarks_toggle_all"@.take(11)[0] != "layout-use "@[0]);
    assert("bookmarks_toggle_all"@.take(7)[0] != "layout "@[0]);
    assert(!always_actions().contains("bookmarks_toggle_all"@)) by {
        assert("bookmarks_toggle_all"@.len() != "quit"@.len());
        assert("bookmarks_toggle_all"@.len() != "command"@.len());
        assert("bookmarks_toggle_all"@.len() != "help"@.len());
        assert("bookmarks_toggle_all"@.len() != "clear-cache"@.len());
        assert("bookmarks_toggle_all"@.len() != "clear_cache"@.len());
        assert("bookmarks_toggle_all"@.len() != "refresh"@.len());
        assert forall|k: int| 0 <= k < always_actions().len() implies always_actions()[k] != "bookmarks_toggle_all"@ by {
            assert(always_actions()[k] == always_actions()[k]);
        }
    }
    assert("bookmarks_toggle_all"@ != "back"@) by {
        assert("bookmarks_toggle_all"@.len() != "back"@.len());
    }
    assert(!viewer_only_actions().contains("bookmarks_toggle_all"@)) by {
        assert("bookmarks_toggle_all"@.len() != "scroll_down"@.len());
        assert("bookmarks_toggle_all"@.len() != "scroll_up"@.len());
        assert("bookmarks_toggle_all"@.len() != "page_down"@.len());
        assert("bookmarks_toggle_all"@.len() != "page_up"@.len());
        assert("bookmarks_toggle_all"@.len() != "next_page"@.len());
        assert("bookmarks_toggle_all"@.len() != "previous_page"@.len());
        assert("bookmarks_toggle_all"@.len() != "home"@.len());
        assert("bookmarks_toggle_all"@.len() != "end"@.len());
        assert("bookmarks_toggle_all"@.len() != "metadata"@.len());
        assert("bookmarks_toggle_all"@.len() != "bookmarks"@.len());
        assert("bookmarks_toggle_all"@.len() != "search"@.len());
        assert("bookmarks_toggle_all"@.len() != "selection"@.len());
        assert forall|k: int| 0 <= k < viewer_only_actions().len() implies viewer_only_actions()[k] != "bookmarks_toggle_all"@ by {
            assert(viewer_only_actions()[k] == viewer_only_actions()[k]);
        }
    }
    assert("bookmarks_toggle_all"@ != "selection_mark"@) by {
        assert("bookmarks_toggle_all"@.len() != "selection_mark"@.len());
    }
    assert("bookmarks_toggle_all"@ != "selection_cancel"@) by {
        assert("bookmarks_toggle_all"@.len() != "selection_cancel"@.len());
    }
    assert(!metadata_actions().contains("bookmarks_toggle_all"@)) by {
        assert("bookmarks_toggle_all"@.len() != "edit_metadata"@.len());
        assert("bookmarks_toggle_all"@[0] != "metadata_scroll_down"@[0]);
        assert("bookmarks_toggle_all"@.len() != "metadata_scroll_up"@.len());
        assert("bookmarks_toggle_all"@.len() != "metadata_page_down"@.len());
        assert("bookmarks_toggle_all"@.len() != "metadata_page_up"@.len());
        assert forall|k: int| 0 <= k < metadata_actions().len() implies metadata_actions()[k] != "bookmarks_toggle_all"@ by {
            assert(metadata_actions()[k] == metadata_actions()[k]);
        }
    }
    assert(bookmarks_actions()[6] == "bookmarks_toggle_all"@);
    assert("bookmarks_open"@.take(11)[0] != "layout-use "@[0]);
    assert("bookmarks_open"@.take(7)[0] != "layout "@[0]);
    assert(!always_actions().contains("bookmarks_open"@)) by {
        assert("bookmarks_open"@.len() != "quit"@.len());
        assert("bookmarks_open"@.len() != "command"@.len());
        assert("bookmarks_open"@.len() != "help"@.len());
        assert("bookmarks_open"@.len() != "clear-cache"@.len());
        assert("bookmarks_open"@.len() != "clear_cache"@.len());
        assert("bookmarks_open"@.len() != "refresh"@.len());
        assert forall|k: int| 0 <= k < always_actions().len() implies always_actions()[k] != "bookmarks_open"@ by {
            assert(always_actions()[k] == always_actions()[k]);
        }
    }
    assert("bookmarks_open"@ != "back"@) by {
        assert("bookmarks_open"@.len() != "back"@.len());
    }
    assert(!viewer_only_actions().contains("bookmarks_open"@)) by {
        assert("bookmarks_open"@.len() != "scroll_down"@.len());
        assert("bookmarks_open"@.len() != "scroll_up"@.len());
        assert("bookmarks_open"@.len() != "page_down"@.len());
        assert("bookmarks_open"@.len() != "page_up"@.len());
        assert("bookmarks_open"@.len() != "next_page"@.len());
        assert("bookmarks_open"@.len() != "previous_page"@.len());
        assert("bookmarks_open"@.len() != "home"@.len());
        assert("bookmarks_open"@.len() != "end"@.len());
        assert("bookmarks_open"@.len() != "metadata"@.len());
        assert("bookmarks_open"@.len() != "bookmarks"@.len());
        assert("bookmarks_open"@.len() != "search"@.len());
        assert("bookmarks_open"@.len() != "selection"@.len());
        assert forall|k: int| 0 <= k < viewer_only_actions().len() implies viewer_only_actions()[k] != "bookmarks_open"@ by {
            assert(viewer_only_actions()[k] == viewer_only_actions()[k]);
        }
    }
    assert("bookmarks_open"@ != "selection_mark"@) by {
        assert("bookmarks_open"@[0] != "selection_mark"@[0]);
    }
    assert("bookmarks_open"@ != "selection_cancel"@) by {
        assert("bookmarks_open"@.len() != "selection_cancel"@.len());
    }
    assert(!metadata_actions().contains("bookmarks_open"@)) by {
        assert("bookmarks_open"@.len() != "edit_metadata"@.len());
        assert("bookmarks_open"@.len() != "metadata_scroll_down"@.len());
        assert("bookmarks_open"@.len() != "metadata_scroll_up"@.len());
        assert("bookmarks_open"@.len() != "metadata_page_down"@.len());
        assert("bookmarks_open"@.len() != "metadata_page_up"@.len());
        assert forall|k: int| 0 <= k < metadata_actions().len() implies metadata_actions()[k] != "bookmarks_open"@ by {
            assert(metadata_actions()[k] == metadata_actions()[k]);
        }
    }
    assert(bookmarks_actions()[7] == "bookmarks_open"@);
    assert("bookmarks_panel_narrower"@.take(11)[0] != "layout-use "@[0]);
    assert("bookmarks_panel_narrower"@.take(7)[0] != "layout "@[0]);
    assert(!always_actions().contains("bookmarks_panel_narrower"@)) by {
        assert("bookmarks_panel_narrower"@.len() != "quit"@.len());
        assert("bookmarks_panel_narrower"@.len() != "command"@.len());
        assert("bookmarks_panel_narrower"@.len() != "help"@.len());
        assert("bookmarks_panel_narrower"@.len() != "clear-cache"@.len());
        assert("bookmarks_panel_narrower"@.len() != "clear_cache"@.len());
        assert("bookmarks_panel_narrower"@.len() != "refresh"@.len());
        assert forall|k: int| 0 <= k < always_actions().len() implies always_actions()[k] != "bookmarks_panel_narrower"@ by {
            assert(always_actions()[k] == always_actions()[k]);
        }
    }
    assert("bookmarks_panel_narrower"@ != "back"@) by {
        assert("bookmarks_panel_narrower"@.len() != "back"@.len());
    }
    assert(!viewer_only_actions().contains("bookmarks_panel_narrower"@)) by {
        assert("bookmarks_panel_narrower"@.len() != "scroll_down"@.len());
        assert("bookmarks_panel_narrower"@.len() != "scroll_up"@.len());
        assert("bookmarks_panel_narrower"@.len() != "page_down"@.len());
        assert("bookmarks_panel_narrower"@.len() != "page_up"@.len());
        assert("bookmarks_panel_narrower"@.len() != "next_page"@.len());
        assert("bookmarks_panel_narrower"@.len() != "previous_page"@.len());
        assert("bookmarks_panel_narrower"@.len() != "home"@.len());
        assert("bookmarks_panel_narrower"@.len() != "end"@.len());
        assert("bookmarks_panel_narrower"@.len() != "metadata"@.len());
        assert("bookmarks_panel_narrower"@.len() != "bookmarks"@.len());
        assert("bookmarks_panel_narrower"@.len() != "search"@.len());
        assert("bookmarks_panel_narrower"@.len() != "selection"@.len());
        assert forall|k: int| 0 <= k < viewer_only_actions().len() implies viewer_only_actions()[k] != "bookmarks_panel_narrower"@ by {
            assert(viewer_only_actions()[k] == viewer_only_actions()[k]);
        }
    }
    assert("bookmarks_panel_narrower"@ != "selection_mark"@) by {
        assert("bookmarks_panel_narrower"@.len() != "selection_mark"@.len());
    }
    assert("bookmarks_panel_narrower"@ != "selection_cancel"@) by {
        assert("bookmarks_panel_narrower"@.len() != "selection_cancel"@.len());
    }
    assert(!metadata_actions().contains("bookmarks_panel_narrower"@)) by {
        assert("bookmarks_panel_narrower"@.len() != "edit_metadata"@.len());
        assert("bookmarks_panel_narrower"@.len() != "metadata_scroll_down"@.len());
        assert("bookmarks_panel_narrower"@.len() != "metadata_scroll_up"@.len());
        assert("bookmarks_panel_narrower"@.len() != "metadata_page_down"@.len());
        assert("bookmarks_panel_narrower"@.len() != "metadata_page_up"@.len());
        assert forall|k: int| 0 <= k < metadata_actions().len() implies metadata_actions()[k] != "bookmarks_panel_narrower"@ by {
            assert(metadata_actions()[k] == metadata_actions()[k]);
        }
    }
    assert(bookmarks_actions()[8] == "bookmarks_panel_narrower"@);
    assert("bookmarks_panel_wider"@.take(11)[0] != "layout-use "@[0]);
    assert("bookmarks_panel_wider"@.take(7)[0] != "layout "@[0]);
    assert(!always_actions().contains("bookmarks_panel_wider"@)) by {
        assert("bookmarks_panel_wider"@.len() != "quit"@.len());
        assert("bookmarks_panel_wider"@.len() != "command"@.len());
        assert("bookmarks_panel_wider"@.len() != "help"@.len());
        assert("bookmarks_panel_wider"@.len() != "clear-cache"@.len());
        assert("bookmarks_panel_wider"@.len() != "clear_cache"@.len());
        assert("bookmarks_panel_wider"@.len() != "refresh"@.len());
        assert forall|k: int| 0 <= k < always_actions().len() implies always_actions()[k] != "bookmarks_panel_wider"@ by {
            assert(always_actions()[k] == always_actions()[k]);
        }
    }
    assert("bookmarks_panel_wider"@ != "back"@) by {
        assert("bookmarks_panel_wider"@.len() != "back"@.len());
    }
    assert(!viewer_only_actions().contains("bookmarks_panel_wider"@)) by {
        assert("bookmarks_panel_wider"@.len() != "scroll_down"@.len());
        assert("bookmarks_panel_wider"@.len() != "scroll_up"@.len());
        assert("bookmarks_panel_wider"@.len() != "page_down"@.len());
        assert("bookmarks_panel_wider"@.len() != "page_up"@.len());
        assert("bookmarks_panel_wider"@.len() != "next_page"@.len());
        assert("bookmarks_panel_wider"@.len() != "previous_page"@.len());
        assert("bookmarks_panel_wider"@.len() != "home"@.len());
        assert("bookmarks_panel_wider"@.len() != "end"@.len());
        assert("bookmarks_panel_wider"@.len() != "metadata"@.len());
        assert("bookmarks_panel_wider"@.len() != "bookmarks"@.len());
        assert("bookmarks_panel_wider"@.len() != "search"@.len());
        assert("bookmarks_panel_wider"@.len() != "selection"@.len());
        assert forall|k: int| 0 <= k < viewer_only_actions().len() implies viewer_only_actions()[k] != "bookmarks_panel_wider"@ by {
            assert(viewer_only_actions()[k] == viewer_only_actions()[k]);
        }
    }
    assert("bookmarks_panel_wider"@ != "selection_mark"@) by {
        assert("bookmarks_panel_wider"@.len() != "selection_mark"@.len());
    }
    assert("bookmarks_panel_wider"@ != "selection_cancel"@) by {
        assert("bookmarks_panel_wider"@.len() != "selection_cancel"@.len());
    }
    assert(!metadata_actions().contains("bookmarks_panel_wider"@)) by {
        assert("bookmarks_panel_wider"@.len() != "edit_metadata"@.len());
        assert("bookmarks_panel_wider"@.len() != "metadata_scroll_down"@.len());
        assert("bookmarks_panel_wider"@.len() != "metadata_scroll_up"@.len());
        assert("bookmarks_panel_wider"@.len() != "metadata_page_down"@.len());
        assert("bookmarks_panel_wider"@.len() != "metadata_page_up"@.len());
        assert forall|k: int| 0 <= k < metadata_actions().len() implies metadata_actions()[k] != "bookmarks_panel_wider"@ by {
            assert(metadata_actions()[k] == metadata_actions()[k]);
        }
    }
    assert(bookmarks_actions()[9] == "bookmarks_panel_wider"@);
    assert("search_next"@.take(11)[0] != "layout-use "@[0]);
    assert("search_next"@.take(7)[0] != "layout "@[0]);
    assert(!always_actions().contains("search_next"@)) by {
        assert("search_next"@.len() != "quit"@.len());
        assert("search_next"@.len() != "command"@.len());
        assert("search_next"@.len() != "help"@.len());
        assert("search_next"@[0] != "clear-cache"@[0]);
        assert("search_next"@[0] != "clear_cache"@[0]);
        assert("search_next"@.len() != "refresh"@.len());
        assert forall|k: int| 0 <= k < always_actions().len() implies always_actions()[k] != "search_next"@ by {
            assert(always_actions()[k] == always_actions()[k]);
        }
    }
    assert("search_next"@ != "back"@) by {
        assert("search_next"@.len() != "back"@.len());
    }
    assert(!viewer_only_actions().contains("search_next"@)) by {
        assert("search_next"@[1] != "scroll_down"@[1]);
        assert("search_next"@.len() != "scroll_up"@.len());
        assert("search_next"@.len() != "page_down"@.len());
        assert("search_next"@.len() != "page_up"@.len());
        assert("search_next"@.len() != "next_page"@.len());
        assert("search_next"@.len() != "previous_page"@.len());
        assert("search_next"@.len() != "home"@.len());
        assert("search_next"@.len() != "end"@.len());
        assert("search_next"@.len() != "metadata"@.len());
        assert("search_next"@.len() != "bookmarks"@.len());
        assert("search_next"@.len() != "search"@.len());
        assert("search_next"@.len() != "selection"@.len());
        assert forall|k: int| 0 <= k < viewer_only_actions().len() implies viewer_only_actions()[k] != "search_next"@ by {
            assert(viewer_only_actions()[k] == viewer_only_actions()[k]);
        }
    }
    assert("search_next"@ != "selection_mark"@) by {
        assert("search_next"@.len() != "selection_mark"@.len());
    }
    assert("search_next"@ != "selection_cancel"@) by {
        assert("search_next"@.len() != "selection_cancel"@.len());
    }
    assert(!metadata_actions().contains("search_next"@)) by {
        assert("search_next"@.len() != "edit_metadata"@.len());
        assert("search_next"@.len() != "metadata_scroll_down"@.len());
        assert("search_next"@.len() != "metadata_scroll_up"@.len());
        assert("search_next"@.len() != "metadata_page_down"@.len());
        assert("search_next"@.len() != "metadata_page_up"@.len());
        assert forall|k: int| 0 <= k < metadata_actions().len() implies metadata_actions()[k] != "search_next"@ by {
            assert(metadata_actions()[k] == metadata_actions()[k]);
        }
    }
    assert(!bookmarks_actions().contains("search_next"@)) by {
        assert("search_next"@.len() != "edit_bookmarks"@.len());
        assert("search_next"@.len() != "bookmarks_next"@.len());
        assert("search_next"@.len() != "bookmarks_previous"@.len());
        assert("search_next"@.len() != "bookmarks_page_down"@.len());
        assert("search_next"@.len() != "bookmarks_page_up"@.len());
        assert("search_next"@.len() != "bookmarks_toggle"@.len());
        assert("search_next"@.len() != "bookmarks_toggle_all"@.len());
        assert("search_next"@.len() != "bookmarks_open"@.len());
        assert("search_next"@.len() != "bookmarks_panel_narrower"@.len());
        assert("search_next"@.len() != "bookmarks_panel_wider"@.len());
        assert forall|k: int| 0 <= k < bookmarks_actions().len() implies bookmarks_actions()[k] != "search_next"@ by {
            assert(bookmarks_actions()[k] == bookmarks_actions()[k]);
        }
    }
    assert(search_actions()[0] == "search_next"@);
    assert("search_previous"@.take(11)[0] != "layout-use "@[0]);
    assert("search_previous"@.take(7)[0] != "layout "@[0]);
    assert(!always_actions().contains("search_previous"@)) by {
        assert("search_previous"@.len() != "quit"@.len());
        assert("search_previous"@.len() != "command"@.len());
        assert("search_previous"@.len() != "help"@.len());
        assert("search_previous"@.len() != "clear-cache"@.len());
        assert("search_previous"@.len() != "clear_cache"@.len());
        assert("search_previous"@.len() != "refresh"@.len());
        assert forall|k: int| 0 <= k < always_actions().len() implies always_actions()[k] != "search_previous"@ by {
            assert(always_actions()[k] == always_actions()[k]);
        }
    }
    assert("search_previous"@ != "back"@) by {
        assert("search_previous"@.len() != "back"@.len());
    }
    assert(!viewer_only_actions().contains("search_previous"@)) by {
        assert("search_previous"@.len() != "scroll_down"@.len());
        assert("search_previous"@.len() != "scroll_up"@.len());
        assert("search_previous"@.len() != "page_down"@.len());
        assert("search_previous"@.len() != "page_up"@.len());
        assert("search_previous"@.len() != "next_page"@.len());
        assert("search_previous"@.len() != "previous_page"@.len());
        assert("search_previous"@.len() != "home"@.len());
        assert("search_previous"@.len() != "end"@.len());
        assert("search_previous"@.len() != "metadata"@.len());
        assert("search_previous"@.len() != "bookmarks"@.len());
        assert("search_previous"@.len() != "search"@.len());
        assert("search_previous"@.len() != "selection"@.len());
        assert forall|k: int| 0 <= k < viewer_only_actions().len() implies viewer_only_actions()[k] != "search_previous"@ by {
            assert(viewer_only_actions()[k] == viewer_only_actions()[k]);
        }
    }
    assert("search_previous"@ != "selection_mark"@) by {
        assert("search_previous"@.len() != "selection_mark"@.len());
    }
    assert("search_previous"@ != "selection_cancel"@) by {
        assert("search_previous"@.len() != "selection_cancel"@.len());
    }
    assert(!metadata_actions().contains("search_previous"@)) by {
        assert("search_previous"@.len() != "edit_metadata"@.len());
        assert("search_previous"@.len() != "metadata_scroll_down"@.len());
        assert("search_previous"@.len() != "metadata_scroll_up"@.len());
        assert("search_previous"@.len() != "metadata_page_down"@.len());
        assert("search_previous"@.len() != "metadata_page_up"@.len());
        assert forall|k: int| 0 <= k < metadata_actions().len() implies metadata_actions()[k] != "search_previous"@ by {
            assert(metadata_actions()[k] == metadata_actions()[k]);
        }
    }
    assert(!bookmarks_actions().contains("search_previous"@)) by {
        assert("search_previous"@.len() != "edit_bookmarks"@.len());
        assert("search_previous"@.len() != "bookmarks_next"@.len());
        assert("search_previous"@.len() != "bookmarks_previous"@.len());
        assert("search_previous"@.len() != "bookmarks_page_down"@.len());
        assert("search_previous"@.len() != "bookmarks_page_up"@.len());
        assert("search_previous"@.len() != "bookmarks_toggle"@.len());
        assert("search_previous"@.len() != "bookmarks_toggle_all"@.len());
        assert("search_previous"@.len() != "bookmarks_open"@.len());
        assert("search_previous"@.len() != "bookmarks_panel_narrower"@.len());
        assert("search_previous"@.len() != "bookmarks_panel_wider"@.len());
        assert forall|k: int| 0 <= k < bookmarks_actions().len() implies bookmarks_actions()[k] != "search_previous"@ by {
            assert(bookmarks_actions()[k] == bookmarks_actions()[k]);
        }
    }
    assert(search_actions()[1] == "search_previous"@);
    assert("search_page_down"@.take(11)[0] != "layout-use "@[0]);
    assert("search_page_down"@.take(7)[0] != "layout "@[0]);
    assert(!always_actions().contains("search_page_down"@)) by {
        assert("search_page_down"@.len() != "quit"@.len());
        assert("search_page_down"@.len() != "command"@.len());
        assert("search_page_down"@.len() != "help"@.len());
        assert("search_page_down"@.len() != "clear-cache"@.len());
        assert("search_page_down"@.len() != "clear_cache"@.len());
        assert("search_page_down"@.len() != "refresh"@.len());
        assert forall|k: int| 0 <= k < always_actions().len() implies always_actions()[k] != "search_page_down"@ by {
            assert(always_actions()[k] == always_actions()[k]);
        }
    }
    assert("search_page_down"@ != "back"@) by {
        assert("search_page_down"@.len() != "back"@.len());
    }
    assert(!viewer_only_actions().contains("search_page_down"@)) by {
        assert("search_page_down"@.len() != "scroll_down"@.len());
        assert("search_page_down"@.len() != "scroll_up"@.len());
        assert("search_page_down"@.len() != "page_down"@.len());
        assert("search_page_down"@.len() != "page_up"@.len());
        assert("search_page_down"@.len() != "next_page"@.len());
        assert("search_page_down"@.len() != "previous_page"@.len());
        assert("search_page_down"@.len() != "home"@.len());
        assert("search_page_down"@.len() != "end"@.len());
        assert("search_page_down"@.len() != "metadata"@.len());
        assert("search_page_down"@.len() != "bookmarks"@.len());
        assert("search_page_down"@.len() != "search"@.len());
        assert("search_page_down"@.len() != "selection"@.len());
        assert forall|k: int| 0 <= k < viewer_only_actions().len() implies viewer_only_actions()[k] != "search_page_down"@ by {
            assert(viewer_only_actions()[k] == viewer_only_actions()[k]);
        }
    }
    assert("search_page_down"@ != "selection_mark"@) by {
        assert("search_page_down"@.len() != "selection_mark"@.len());
    }
    assert("search_page_down"@ != "selection_cancel"@) by {
        assert("search_page_down"@[2] != "selection_cancel"@[2]);
    }
    assert(!metadata_actions().contains("search_page_down"@)) by {
        assert("search_page_down"@.len() != "edit_metadata"@.len());
        assert("search_page_down"@.len() != "metadata_scroll_down"@.len());
        assert("search_page_down"@.len() != "metadata_scroll_up"@.len());
        assert("search_page_down"@.len() != "metadata_page_down"@.len());
        assert("search_page_down"@[0] != "metadata_page_up"@[0]);
        assert forall|k: int| 0 <= k < metadata_actions().len() implies metadata_actions()[k] != "search_page_down"@ by {
            assert(metadata_actions()[k] == metadata_actions()[k]);
        }
    }
    assert(!bookmarks_actions().contains("search_page_down"@)) by {
        assert("search_page_down"@.len() != "edit_bookmarks"@.len());
        assert("search_page_down"@.len() != "bookmarks_next"@.len());
        assert("search_page_down"@.len() != "bookmarks_previous"@.len());
        assert("search_page_down"@.len() != "bookmarks_page_down"@.len());
        assert("search_page_down"@.len() != "bookmarks_page_up"@.len());
        assert("search_page_down"@[0] != "bookmarks_toggle"@[0]);
        assert("search_page_down"@.len() != "bookmarks_toggle_all"@.len());
        assert("search_page_down"@.len() != "bookmarks_open"@.len());
        assert("search_page_down"@.len() != "bookmarks_panel_narrower"@.len());
        assert("search_page_down"@.len() != "bookmarks_panel_wider"@.len());
        assert forall|k: int| 0 <= k < bookmarks_actions().len() implies bookmarks_actions()[k] != "search_page_down"@ by {
            assert(bookmarks_actions()[k] == bookmarks_actions()[k]);
        }
    }
    assert(search_actions()[2] == "search_page_down"@);
    assert("search_page_up"@.take(11)[0] != "layout-use "@[0]);
    assert("search_page_up"@.take(7)[0] != "layout "@[0]);
    assert(!always_actions().contains("search_page_up"@)) by {
        assert("search_page_up"@.len() != "quit"@.len());
        assert("search_page_up"@.len() != "command"@.len());
        assert("search_page_up"@.len() != "help"@.len());
        assert("search_page_up"@.len() != "clear-cache"@.len());
        assert("search_page_up"@.len() != "clear_cache"@.len());
        assert("search_page_up"@.len() != "refresh"@.len());
        assert forall|k: int| 0 <= k < always_actions().len() implies always_actions()[k] != "search_page_up"@ by {
            assert(always_actions()[k] == always_actions()[k]);
        }
    }
    assert("search_page_up"@ != "back"@) by {
        assert("search_page_up"@.len() != "back"@.len());
    }
    assert(!viewer_only_actions().contains("search_page_up"@)) by {
        assert("search_page_up"@.len() != "scroll_down"@.len());
        assert("search_page_up"@.len() != "scroll_up"@.len());
        assert("search_page_up"@.len() != "page_down"@.len());
        assert("search_page_up"@.len() != "page_up"@.len());
        assert("search_page_up"@.len() != "next_page"@.len());
        assert("search_page_up"@.len() != "previous_page"@.len());
        assert("search_page_up"@.len() != "home"@.len());
        assert("search_page_up"@.len() != "end"@.len());
        assert("search_page_up"@.len() != "metadata"@.len());
        assert("search_page_up"@.len() != "bookmarks"@.len());
        assert("search_page_up"@.len() != "search"@.len());
        assert("search_page_up"@.len() != "selection"@.len());
        assert forall|k: int| 0 <= k < viewer_only_actions().len() implies viewer_only_actions()[k] != "search_page_up"@ by {
            assert(viewer_only_actions()[k] == viewer_only_actions()[k]);
        }
    }
    assert("search_page_up"@ != "selection_mark"@) by {
        assert("search_page_up"@[2] != "selection_mark"@[2]);
    }
    assert("search_page_up"@ != "selection_cancel"@) by {
        assert("search_page_up"@.len() != "selection_cancel"@.len());
    }
    assert(!metadata_actions().contains("search_page_up"@)) by {
        assert("search_page_up"@.len() != "edit_metadata"@.len());
        assert("search_page_up"@.len() != "metadata_scroll_down"@.len());
        assert("search_page_up"@.len() != "metadata_scroll_up"@.len());
        assert("search_page_up"@.len() != "metadata_page_down"@.len());
        assert("search_page_up"@.len() != "metadata_page_up"@.len());
        assert forall|k: int| 0 <= k < metadata_actions().len() implies metadata_actions()[k] != "search_page_up"@ by {
            assert(metadata_actions()[k] == metadata_actions()[k]);
        }
    }
    assert(!bookmarks_actions().contains("search_page_up"@)) by {
        assert("search_page_up"@[0] != "edit_bookmarks"@[0]);
        assert("search_page_up"@[0] != "bookmarks_next"@[0]);
        assert("search_page_up"@.len() != "bookmarks_previous"@.len());
        assert("search_page_up"@.len() != "bookmarks_page_down"@.len());
        assert("search_page_up"@.len() != "bookmarks_page_up"@.len());
        assert("search_page_up"@.len() != "bookmarks_toggle"@.len());
        assert("search_page_up"@.len() != "bookmarks_toggle_all"@.len());
        assert("search_page_up"@[0] != "bookmarks_open"@[0]);
        assert("search_page_up"@.len() != "bookmarks_panel_narrower"@.len());
        assert("search_page_up"@.len() != "bookmarks_panel_wider"@.len());
        assert forall|k: int| 0 <= k < bookmarks_actions().len() implies bookmarks_actions()[k] != "search_page_up"@ by {
            assert(bookmarks_actions()[k] == bookmarks_actions()[k]);
        }
    }
    assert(search_actions()[3] == "search_page_up"@);
    assert("search_open"@.take(11)[0] != "layout-use "@[0]);
    assert("search_open"@.take(7)[0] != "layout "@[0]);
    assert(!always_actions().contains("search_open"@)) by {
        assert("search_open"@.len() != "quit"@.len());
        assert("search_open"@.len() != "command"@.len());
        assert("search_open"@.len() != "help"@.len());
        assert("search_open"@[0] != "clear-cache"@[0]);
        assert("search_open"@[0] != "clear_cache"@[0]);
        assert("search_open"@.len() != "refresh"@.len());
        assert forall|k: int| 0 <= k < always_actions().len() implies always_actions()[k] != "search_open"@ by {
            assert(always_actions()[k] == always_actions()[k]);
        }
    }
    assert("search_open"@ != "back"@) by {
        assert("search_open"@.len() != "back"@.len());
    }
    assert(!viewer_only_actions().contains("search_open"@)) by {
        assert("search_open"@[1] != "scroll_down"@[1]);
        assert("search_open"@.len() != "scroll_up"@.len());
        assert("search_open"@.len() != "page_down"@.len());
        assert("search_open"@.len() != "page_up"@.len());
        assert("search_open"@.len() != "next_page"@.len());
        assert("search_open"@.len() != "previous_page"@.len());
        assert("search_open"@.len() != "home"@.len());
        assert("search_open"@.len() != "end"@.len());
        assert("search_open"@.len() != "metadata"@.len());
        assert("search_open"@.len() != "bookmarks"@.len());
        assert("search_open"@.len() != "search"@.len());
        assert("search_open"@.len() != "selection"@.len());
        assert forall|k: int| 0 <= k < viewer_only_actions().len() implies viewer_only_actions()[k] != "search_open"@ by {
            assert(viewer_only_actions()[k] == viewer_only_actions()[k]);
        }
    }
    assert("search_open"@ != "selection_mark"@) by {
        assert("search_open"@.len() != "selection_mark"@.len());
    }
    assert("search_open"@ != "selection_cancel"@) by {
        assert("search_open"@.len() != "selection_cancel"@.len());
    }
    assert(!metadata_actions().contains("search_open"@)) by {
        assert("search_open"@.len() != "edit_metadata"@.len());
        assert("search_open"@.len() != "metadata_scroll_down"@.len());
        assert("search_open"@.len() != "metadata_scroll_up"@.len());
        assert("search_open"@.len() != "metadata_page_down"@.len());
        assert("search_open"@.len() != "metadata_page_up"@.len());
        assert forall|k: int| 0 <= k < metadata_actions().len() implies metadata_actions()[k] != "search_open"@ by {
            assert(metadata_actions()[k] == metadata_actions()[k]);
        }
    }
    assert(!bookmarks_actions().contains("search_open"@)) by {
        assert("search_open"@.len() != "edit_bookmarks"@.len());
        assert("search_open"@.len() != "bookmarks_next"@.len());
        assert("search_open"@.len() != "bookmarks_previous"@.len());
        assert("search_open"@.len() != "bookmarks_page_down"@.len());
        assert("search_open"@.len() != "bookmarks_page_up"@.len());
        assert("search_open"@.len() != "bookmarks_toggle"@.len());
        assert("search_open"@.len() != "bookmarks_toggle_all"@.len());
        assert("search_open"@.len() != "bookmarks_open"@.len());
        assert("search_open"@.len() != "bookmarks_panel_narrower"@.len());
        assert("search_open"@.len() != "bookmarks_panel_wider"@.len());
        assert forall|k: int| 0 <= k < bookmarks_actions().len() implies bookmarks_actions()[k] != "search_open"@ by {
            assert(bookmarks_actions()[k] == bookmarks_actions()[k]);
        }
    }
    assert(search_actions()[4] == "search_open"@);
    assert("selection_next"@.take(11)[0] != "layout-use "@[0]);
    assert("selection_next"@.take(7)[0] != "layout "@[0]);
    assert(!always_actions().contains("selection_next"@)) by {
        assert("selection_next"@.len() != "quit"@.len());
        assert("selection_next"@.len() != "command"@.len());
        assert("selection_next"@.len() != "help"@.len());
        assert("selection_next"@.len() != "clear-cache"@.len());
        assert("selection_next"@.len() != "clear_cache"@.len());
        assert("selection_next"@.len() != "refresh"@.len());
        assert forall|k: int| 0 <= k < always_actions().len() implies always_actions()[k] != "selection_next"@ by {
            assert(always_actions()[k] == always_actions()[k]);
        }
    }
    assert("selection_next"@ != "back"@) by {
        assert("selection_next"@.len() != "back"@.len());
    }
    assert(!viewer_only_actions().contains("selection_next"@)) by {
        assert("selection_next"@.len() != "scroll_down"@.len());
        assert("selection_next"@.len() != "scroll_up"@.len());
        assert("selection_next"@.len() != "page_down"@.len());
        assert("selection_next"@.len() != "page_up"@.len());
        assert("selection_next"@.len() != "next_page"@.len());
        assert("selection_next"@.len() != "previous_page"@.len());
        assert("selection_next"@.len() != "home"@.len());
        assert("selection_next"@.len() != "end"@.len());
        assert("selection_next"@.len() != "metadata"@.len());
        assert("selection_next"@.len() != "bookmarks"@.len());
        assert("selection_next"@.len() != "search"@.len());
        assert("selection_next"@.len() != "selection"@.len());
        assert forall|k: int| 0 <= k < viewer_only_actions().len() implies viewer_only_actions()[k] != "selection_next"@ by {
            assert(viewer_only_actions()[k] == viewer_only_actions()[k]);
        }
    }
    assert("selection_next"@ != "selection_mark"@) by {
        assert("selection_next"@[10] != "selection_mark"@[10]);
    }
    assert("selection_next"@ != "selection_cancel"@) by {
        assert("selection_next"@.len() != "selection_cancel"@.len());
    }
    assert(!metadata_actions().contains("selection_next"@)) by {
        assert("selection_next"@.len() != "edit_metadata"@.len());
        assert("selection_next"@.len() != "metadata_scroll_down"@.len());
        assert("selection_next"@.len() != "metadata_scroll_up"@.len());
        assert("selection_next"@.len() != "metadata_page_down"@.len());
        assert("selection_next"@.len() != "metadata_page_up"@.len());
        assert forall|k: int| 0 <= k < metadata_actions().len() implies metadata_actions()[k] != "selection_next"@ by {
            assert(metadata_actions()[k] == metadata_actions()[k]);
        }
    }
    assert(!bookmarks_actions().contains("selection_next"@)) by {
        assert("selection_next"@[0] != "edit_bookmarks"@[0]);
        assert("selection_next"@[0] != "bookmarks_next"@[0]);
        assert("selection_next"@.len() != "bookmarks_previous"@.len());
        assert("selection_next"@.len() != "bookmarks_page_down"@.len());
        assert("selection_next"@.len() != "bookmarks_page_up"@.len());
        assert("selection_next"@.len() != "bookmarks_toggle"@.len());
        assert("selection_next"@.len() != "bookmarks_toggle_all"@.len());
        assert("selection_next"@[0] != "bookmarks_open"@[0]);
        assert("selection_next"@.len() != "bookmarks_panel_narrower"@.len());
        assert("selection_next"@.len() != "bookmarks_panel_wider"@.len());
        assert forall|k: int| 0 <= k < bookmarks_actions().len() implies bookmarks_actions()[k] != "selection_next"@ by {
            assert(bookmarks_actions()[k] == bookmarks_actions()[k]);
        }
    }
    assert(!search_actions().contains("selection_next"@)) by {
        assert("selection_next"@.len() != "search_next"@.len());
        assert("selection_next"@.len() != "search_previous"@.len());
        assert("selection_next"@.len() != "search_page_down"@.len());
        assert("selection_next"@[2] != "search_page_up"@[2]);
        assert("selection_next"@.len() != "search_open"@.len());
        assert forall|k: int| 0 <= k < search_actions().len() implies search_actions()[k] != "selection_next"@ by {
            assert(search_actions()[k] == search_actions()[k]);
        }
    }
    assert(selection_actions()[0] == "selection_next"@);
    assert("selection_previous"@.take(11)[0] != "layout-use "@[0]);
    assert("selection_previous"@.take(7)[0] != "layout "@[0]);
    assert(!always_actions().contains("selection_previous"@)) by {
        assert("selection_previous"@.len() != "quit"@.len());
        assert("selection_previous"@.len() != "command"@.len());
        assert("selection_previous"@.len() != "help"@.len());
        assert("selection_previous"@.len() != "clear-cache"@.len());
        assert("selection_previous"@.len() != "clear_cache"@.len());
        assert("selection_previous"@.len() != "refresh"@.len());
        assert forall|k: int| 0 <= k < always_actions().len() implies always_actions()[k] != "selection_previous"@ by {
            assert(always_actions()[k] == always_actions()[k]);
        }
    }
    assert("selection_previous"@ != "back"@) by {
        assert("selection_previous"@.len() != "back"@.len());
    }
    assert(!viewer_only_actions().contains("selection_previous"@)) by {
        assert("selection_previous"@.len() != "scroll_down"@.len());
        assert("selection_previous"@.len() != "scroll_up"@.len());
        assert("selection_previous"@.len() != "page_down"@.len());
        assert("selection_previous"@.len() != "page_up"@.len());
        assert("selection_previous"@.len() != "next_page"@.len());
        assert("selection_previous"@.len() != "previous_page"@.len());
        assert("selection_previous"@.len() != "home"@.len());
        assert("selection_previous"@.len() != "end"@.len());
        assert("selection_previous"@.len() != "metadata"@.len());
        assert("selection_previous"@.len() != "bookmarks"@.len());
        assert("selection_previous"@.len() != "search"@.len());
        assert("selection_previous"@.len() != "selection"@.len());
        assert forall|k: int| 0 <= k < viewer_only_actions().len() implies viewer_only_actions()[k] != "selection_previous"@ by {
            assert(viewer_only_actions()[k] == viewer_only_actions()[k]);
        }
    }
    assert("selection_previous"@ != "selection_mark"@) by {
        assert("selection_previous"@.len() != "selection_mark"@.len());
    }
    assert("selection_previous"@ != "selection_cancel"@) by {
        assert("selection_previous"@.len() != "selection_cancel"@.len());
    }
    assert(!metadata_actions().contains("selection_previous"@)) by {
        assert("selection_previous"@.len() != "edit_metadata"@.len());
        assert("selection_previous"@.len() != "metadata_scroll_down"@.len());
        assert("selection_previous"@[0] != "metadata_scroll_up"@[0]);
        assert("selection_previous"@[0] != "metadata_page_down"@[0]);
        assert("selection_previous"@.len() != "metadata_page_up"@.len());
        assert forall|k: int| 0 <= k < metadata_actions().len() implies metadata_actions()[k] != "selection_previous"@ by {
            assert(metadata_actions()[k] == metadata_actions()[k]);
        }
    }
    assert(!bookmarks_actions().contains("selection_previous"@)) by {
        assert("selection_previous"@.len() != "edit_bookmarks"@.len());
        assert("selection_previous"@.len() != "bookmarks_next"@.len());
        assert("selection_previous"@[0] != "bookmarks_previous"@[0]);
        assert("selection_previous"@.len() != "bookmarks_page_down"@.len());
        assert("selection_previous"@.len() != "bookmarks_page_up"@.len());
        assert("selection_previous"@.len() != "bookmarks_toggle"@.len());
        assert("selection_previous"@.len() != "bookmarks_toggle_all"@.len());
        assert("selection_previous"@.len() != "bookmarks_open"@.len());
        assert("selection_previous"@.len() != "bookmarks_panel_narrower"@.len());
        assert("selection_previous"@.len() != "bookmarks_panel_wider"@.len());
        assert forall|k: int| 0 <= k < bookmarks_actions().len() implies bookmarks_actions()[k] != "selection_previous"@ by {
            assert(bookmarks_actions()[k] == bookmarks_actions()[k]);
        }
    }
    assert(!search_actions().contains("selection_previous"@)) by {
        assert("selection_previous"@.len() != "search_next"@.len());
        assert("selection_previous"@.len() != "search_previous"@.len());
        assert("selection_previous"@.len() != "search_page_down"@.len());
        assert("selection_previous"@.len() != "search_page_up"@.len());
        assert("selection_previous"@.len() != "search_open"@.len());
        assert forall|k: int| 0 <= k < search_actions().len() implies search_actions()[k] != "selection_previous"@ by {
            assert(search_actions()[k] == search_actions()[k]);
        }
    }
    assert(selection_actions()[1] == "selection_previous"@);
    assert("selection_reselect"@.take(11)[0] != "layout-use "@[0]);
    assert("selection_reselect"@.take(7)[0] != "layout "@[0]);
    assert(!always_actions().contains("selection_reselect"@)) by {
        assert("selection_reselect"@.len() != "quit"@.len());
        assert("selection_reselect"@.len() != "command"@.len());
        assert("selection_reselect"@.len() != "help"@.len());
        assert("selection_reselect"@.len() != "clear-cache"@.len());
        assert("selection_reselect"@.len() != "clear_cache"@.len());
        assert("selection_reselect"@.len() != "refresh"@.len());
        assert forall|k: int| 0 <= k < always_actions().len() implies always_actions()[k] != "selection_reselect"@ by {
            assert(always_actions()[k] == always_actions()[k]);
        }
    }
    assert("selection_reselect"@ != "back"@) by {
        assert("selection_reselect"@.len() != "back"@.len());
    }
    assert(!viewer_only_actions().contains("selection_reselect"@)) by {
        assert("selection_reselect"@.len() != "scroll_down"@.len());
        assert("selection_reselect"@.len() != "scroll_up"@.len());
        assert("selection_reselect"@.len() != "page_down"@.len());
        assert("selection_reselect"@.len() != "page_up"@.len());
        assert("selection_reselect"@.len() != "next_page"@.len());
        assert("selection_reselect"@.len() != "previous_page"@.len());
        assert("selection_reselect"@.len() != "home"@.len());
        assert("selection_reselect"@.len() != "end"@.len());
        assert("selection_reselect"@.len() != "metadata"@.len());
        assert("selection_reselect"@.len() != "bookmarks"@.len());
        assert("selection_reselect"@.len() != "search"@.len());
        assert("selection_reselect"@.len() != "selection"@.len());
        assert forall|k: int| 0 <= k < viewer_only_actions().len() implies viewer_only_actions()[k] != "selection_reselect"@ by {
            assert(viewer_only_actions()[k] == viewer_only_actions()[k]);
        }
    }
    assert("selection_reselect"@ != "selection_mark"@) by {
        assert("selection_reselect"@.len() != "selection_mark"@.len());
    }
    assert("selection_reselect"@ != "selection_cancel"@) by {
        assert("selection_reselect"@.len() != "selection_cancel"@.len());
    }
    assert(!metadata_actions().contains("selection_reselect"@)) by {
        assert("selection_reselect"@.len() != "edit_metadata"@.len());
        assert("selection_reselect"@.len() != "metadata_scroll_down"@.len());
        assert("selection_reselect"@[0] != "metadata_scroll_up"@[0]);
        assert("selection_reselect"@[0] != "metadata_page_down"@[0]);
        assert("selection_reselect"@.len() != "metadata_page_up"@.len());
        assert forall|k: int| 0 <= k < metadata_actions().len() implies metadata_actions()[k] != "selection_reselect"@ by {
            assert(metadata_actions()[k] == metadata_actions()[k]);
        }
    }
    assert(!bookmarks_actions().contains("selection_reselect"@)) by {
        assert("selection_reselect"@.len() != "edit_bookmarks"@.len());
        assert("selection_reselect"@.len() != "bookmarks_next"@.len());
        assert("selection_reselect"@[0] != "bookmarks_previous"@[0]);
        assert("selection_reselect"@.len() != "bookmarks_page_down"@.len());
        assert("selection_reselect"@.len() != "bookmarks_page_up"@.len());
        assert("selection_reselect"@.len() != "bookmarks_toggle"@.len());
        assert("selection_reselect"@.len() != "bookmarks_toggle_all"@.len());
        assert("selection_reselect"@.len() != "bookmarks_open"@.len());
        assert("selection_reselect"@.len() != "bookmarks_panel_narrower"@.len());
        assert("selection_reselect"@.len() != "bookmarks_panel_wider"@.len());
        assert forall|k: int| 0 <= k < bookmarks_actions().len() implies bookmarks_actions()[k] != "selection_reselect"@ by {
            assert(bookmarks_actions()[k] == bookmarks_actions()[k]);
        }
    }
    assert(!search_actions().contains("selection_reselect"@)) by {
        assert("selection_reselect"@.len() != "search_next"@.len());
        assert("selection_reselect"@.len() != "search_previous"@.len());
        assert("selection_reselect"@.len() != "search_page_down"@.len());
        assert("selection_reselect"@.len() != "search_page_up"@.len());
        assert("selection_reselect"@.len() != "search_open"@.len());
        assert forall|k: int| 0 <= k < search_actions().len() implies search_actions()[k] != "selection_reselect"@ by {
            assert(search_actions()[k] == search_actions()[k]);
        }
    }
    assert(selection_actions()[2] == "selection_reselect"@);
    assert("selection_copy_text"@.take(11)[0] != "layout-use "@[0]);
    assert("selection_copy_text"@.take(7)[0] != "layout "@[0]);
    assert(!always_actions().contains("selection_copy_text"@)) by {
        assert("selection_copy_text"@.len() != "quit"@.len());
        assert("selection_copy_text"@.len() != "command"@.len());
        assert("selection_copy_text"@.len() != "help"@.len());
        assert("selection_copy_text"@.len() != "clear-cache"@.len());
        assert("selection_copy_text"@.len() != "clear_cache"@.len());
        assert("selection_copy_text"@.len() != "refresh"@.len());
        assert forall|k: int| 0 <= k < always_actions().len() implies always_actions()[k] != "selection_copy_text"@ by {
            assert(always_actions()[k] == always_actions()[k]);
        }
    }
    assert("selection_copy_text"@ != "back"@) by {
        assert("selection_copy_text"@.len() != "back"@.len());
    }
    assert(!viewer_only_actions().contains("selection_copy_text"@)) by {
        assert("selection_copy_text"@.len() != "scroll_down"@.len());
        assert("selection_copy_text"@.len() != "scroll_up"@.len());
        assert("selection_copy_text"@.len() != "page_down"@.len());
        assert("selection_copy_text"@.len() != "page_up"@.len());
        assert("selection_copy_text"@.len() != "next_page"@.len());
        assert("selection_copy_text"@.len() != "previous_page"@.len());
        assert("selection_copy_text"@.len() != "home"@.len());
        assert("selection_copy_text"@.len() != "end"@.len());
        assert("selection_copy_text"@.len() != "metadata"@.len());
        assert("selection_copy_text"@.len() != "bookmarks"@.len());
        assert("selection_copy_text"@.len() != "search"@.len());
        assert("selection_copy_text"@.len() != "selection"@.len());
        assert forall|k: int| 0 <= k < viewer_only_actions().len() implies viewer_only_actions()[k] != "selection_copy_text"@ by {
            assert(viewer_only_actions()[k] == viewer_only_actions()[k]);
        }
    }
    assert("selection_copy_text"@ != "selection_mark"@) by {
        assert("selection_copy_text"@.len() != "selection_mark"@.len());
    }
    assert("selection_copy_text"@ != "selection_cancel"@) by {
        assert("selection_copy_text"@.len() != "selection_cancel"@.len());
    }
    assert(!metadata_actions().contains("selection_copy_text"@)) by {
        assert("selection_copy_text"@.len() != "edit_metadata"@.len());
        assert("selection_copy_text"@.len() != "metadata_scroll_down"@.len());
        assert("selection_copy_text"@.len() != "metadata_scroll_up"@.len());
        assert("selection_copy_text"@.len() != "metadata_page_down"@.len());
        assert("selection_copy_text"@.len() != "metadata_page_up"@.len());
        assert forall|k: int| 0 <= k < metadata_actions().len() implies metadata_actions()[k] != "selection_copy_text"@ by {
            assert(metadata_actions()[k] == metadata_actions()[k]);
        }
    }
    assert(!bookmarks_actions().contains("selection_copy_text"@)) by {
        assert("selection_copy_text"@.len() != "edit_bookmarks"@.len());
        assert("selection_copy_text"@.len() != "bookmarks_next"@.len());
        assert("selection_copy_text"@.len() != "bookmarks_previous"@.len());
        assert("selection_copy_text"@[0] != "bookmarks_page_down"@[0]);
        assert("selection_copy_text"@.len() != "bookmarks_page_up"@.len());
        assert("selection_copy_text"@.len() != "bookmarks_toggle"@.len());
        assert("selection_copy_text"@.len() != "bookmarks_toggle_all"@.len());
        assert("selection_copy_text"@.len() != "bookmarks_open"@.len());
        assert("selection_copy_text"@.len() != "bookmarks_panel_narrower"@.len());
        assert("selection_copy_text"@.len() != "bookmarks_panel_wider"@.len());
        assert forall|k: int| 0 <= k < bookmarks_actions().len() implies bookmarks_actions()[k] != "selection_copy_text"@ by {
            assert(bookmarks_actions()[k] == bookmarks_actions()[k]);
        }
    }
    assert(!search_actions().contains("selection_copy_text"@)) by {
        assert("selection_copy_text"@.len() != "search_next"@.len());
        assert("selection_copy_text"@.len() != "search_previous"@.len());
        assert("selection_copy_text"@.len() != "search_page_down"@.len());
        assert("selection_copy_text"@.len() != "search_page_up"@.len());
        assert("selection_copy_text"@.len() != "search_open"@.len());
        assert forall|k: int| 0 <= k < search_actions().len() implies search_actions()[k] != "selection_copy_text"@ by {
            assert(search_actions()[k] == search_actions()[k]);
        }
    }
    assert(selection_actions()[3] == "selection_copy_text"@);
    assert("selection_copy_image"@.take(11)[0] != "layout-use "@[0]);
    assert("selection_copy_image"@.take(7)[0] != "layout "@[0]);
    assert(!always_actions().contains("selection_copy_image"@)) by {
        assert("selection_copy_image"@.len() != "quit"@.len());
        assert("selection_copy_image"@.len() != "command"@.len());
        assert("selection_copy_image"@.len() != "help"@.len());
        assert("selection_copy_image"@.len() != "clear-cache"@.len());
        assert("selection_copy_image"@.len() != "clear_cache"@.len());
        assert("selection_copy_image"@.len() != "refresh"@.len());
        assert forall|k: int| 0 <= k < always_actions().len() implies always_actions()[k] != "selection_copy_image"@ by {
            assert(always_actions()[k] == always_actions()[k]);
        }
    }
    assert("selection_copy_image"@ != "back"@) by {
        assert("selection_copy_image"@.len() != "back"@.len());
    }
    assert(!viewer_only_actions().contains("selection_copy_image"@)) by {
        assert("selection_copy_image"@.len() != "scroll_down"@.len());
        assert("selection_copy_image"@.len() != "scroll_up"@.len());
        assert("selection_copy_image"@.len() != "page_down"@.len());
        assert("selection_copy_image"@.len() != "page_up"@.len());
        assert("selection_copy_image"@.len() != "next_page"@.len());
        assert("selection_copy_image"@.len() != "previous_page"@.len());
        assert("selection_copy_image"@.len() != "home"@.len());
        assert("selection_copy_image"@.len() != "end"@.len());
        assert("selection_copy_image"@.len() != "metadata"@.len());
        assert("selection_copy_image"@.len() != "bookmarks"@.len());
        assert("selection_copy_image"@.len() != "search"@.len());
        assert("selection_copy_image"@.len() != "selection"@.len());
        assert forall|k: int| 0 <= k < viewer_only_actions().len() implies viewer_only_actions()[k] != "selection_copy_image"@ by {
            assert(viewer_only_actions()[k] == viewer_only_actions()[k]);
        }
    }
    assert("selection_copy_image"@ != "selection_mark"@) by {
        assert("selection_copy_image"@.len() != "selection_mark"@.len());
    }
    assert("selection_copy_image"@ != "selection_cancel"@) by {
        assert("selection_copy_image"@.len() != "selection_cancel"@.len());
    }
    assert(!metadata_actions().contains("selection_copy_image"@)) by {
        assert("selection_copy_image"@.len() != "edit_metadata"@.len());
        assert("selection_copy_image"@[0] != "metadata_scroll_down"@[0]);
        assert("selection_copy_image"@.len() != "metadata_scroll_up"@.len());
        assert("selection_copy_image"@.len() != "metadata_page_down"@.len());
        assert("selection_copy_image"@.len() != "metadata_page_up"@.len());
        assert forall|k: int| 0 <= k < metadata_actions().len() implies metadata_actions()[k] != "selection_copy_image"@ by {
            assert(metadata_actions()[k] == metadata_actions()[k]);
        }
    }
    assert(!bookmarks_actions().contains("selection_copy_image"@)) by {
        assert("selection_copy_image"@.len() != "edit_bookmarks"@.len());
        assert("selection_copy_image"@.len() != "bookmarks_next"@.len());
        assert("selection_copy_image"@.len() != "bookmarks_previous"@.len());
        assert("selection_copy_image"@.len() != "bookmarks_page_down"@.len());
        assert("selection_copy_image"@.len() != "bookmarks_page_up"@.len());
        assert("selection_copy_image"@.len() != "bookmarks_toggle"@.len());
        assert("selection_copy_image"@[0] != "bookmarks_toggle_all"@[0]);
        assert("selection_copy_image"@.len() != "bookmarks_open"@.len());
        assert("selection_copy_image"@.len() != "bookmarks_panel_narrower"@.len());
        assert("selection_copy_image"@.len() != "bookmarks_panel_wider"@.len());
        assert forall|k: int| 0 <= k < bookmarks_actions().len() implies bookmarks_actions()[k] != "selection_copy_image"@ by {
            assert(bookmarks_actions()[k] == bookmarks_actions()[k]);
        }
    }
    assert(!search_actions().contains("selection_copy_image"@)) by {
        assert("selection_copy_image"@.len() != "search_next"@.len());
        assert("selection_copy_image"@.len() != "search_previous"@.len());
        assert("selection_copy_image"@.len() != "search_page_down"@.len());
        assert("selection_copy_image"@.len() != "search_page_up"@.len());
        assert("selection_copy_image"@.len() != "search_open"@.len());
        assert forall|k: int| 0 <= k < search_actions().len() implies search_actions()[k] != "selection_copy_image"@ by {
            assert(search_actions()[k] == search_actions()[k]);
        }
    }
    assert(selection_actions()[4] == "selection_copy_image"@);
}

} // verus!
