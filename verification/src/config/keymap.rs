//! Key bindings: for each view a list of keys (or key sequences), the
//! action they run and a description; the defaults, the actions a user's
//! file is missing, and the TOML form written back.

use vstd::prelude::*;

use crate::keyed::str_eq;
use crate::text::{extend_chars, extend_str, is_control, is_control_spec, string_of, chars_of};

verus! {

#[derive(Debug, Clone)]
pub struct KeymapConfig {
    pub viewer: KeymapSection,
    pub metadata: KeymapSection,
    pub input: KeymapSection,
    pub global: KeymapSection,
}

#[derive(Debug, Clone)]
pub struct KeymapSection {
    pub keymap: Vec<KeymapEntry>,
}

#[derive(Debug, Clone)]
pub struct KeymapEntry {
    pub on: KeymapOn,
    pub run: String,
    pub desc: String,
}

/// One key, or a sequence of keys pressed in turn.
#[derive(Debug, Clone)]
pub enum KeymapOn {
    One(String),
    Many(Vec<String>),
}

pub open spec fn strings_view(v: Seq<String>) -> Seq<Seq<char>> {
    v.map_values(|s: String| s@)
}

/// Keys as plain values: whether they were written as a list, and the
/// keys.
pub type OnView = (bool, Seq<Seq<char>>);

/// An entry as plain values: keys, action, description.
pub type EntryView = (OnView, Seq<char>, Seq<char>);

impl View for KeymapOn {
    type V = OnView;

    open spec fn view(&self) -> OnView {
        match *self {
            KeymapOn::One(s) => (false, seq![s@]),
            KeymapOn::Many(v) => (true, strings_view(v@)),
        }
    }
}

impl View for KeymapEntry {
    type V = EntryView;

    open spec fn view(&self) -> EntryView {
        (self.on@, self.run@, self.desc@)
    }
}

pub open spec fn entries_view(v: Seq<KeymapEntry>) -> Seq<EntryView> {
    v.map_values(|e: KeymapEntry| e@)
}

impl View for KeymapSection {
    type V = Seq<EntryView>;

    open spec fn view(&self) -> Seq<EntryView> {
        entries_view(self.keymap@)
    }
}

fn owned(text: &str) -> (out: String)
    ensures
        out@ == text@,
{
    text.to_owned()
}

fn entry_one(on: &str, run: &str, desc: &str) -> (entry: KeymapEntry)
    ensures
        entry@ == ((false, seq![on@]), run@, desc@),
{
    KeymapEntry { on: KeymapOn::One(owned(on)), run: owned(run), desc: owned(desc) }
}

fn entry_many(first: &str, second: &str, run: &str, desc: &str) -> (entry: KeymapEntry)
    ensures
        entry@ == ((true, seq![first@, second@]), run@, desc@),
{
    let mut keys: Vec<String> = Vec::new();
    keys.push(owned(first));
    keys.push(owned(second));
    proof {
        assert(strings_view(keys@) =~= seq![first@, second@]);
    }
    KeymapEntry { on: KeymapOn::Many(keys), run: owned(run), desc: owned(desc) }
}

fn copy_strings(values: &Vec<String>) -> (copy: Vec<String>)
    ensures
        strings_view(copy@) == strings_view(values@),
{
    let mut copy: Vec<String> = Vec::new();
    let mut i: usize = 0;
    while i < values.len()
        invariant
            i <= values@.len(),
            strings_view(copy@) == strings_view(values@.take(i as int)),
        decreases values@.len() - i,
    {
        let ghost before = copy@;
        copy.push(values[i].clone());
        proof {
            assert(strings_view(copy@) =~= strings_view(before).push(values@[i as int]@));
            assert(strings_view(values@.take(i + 1)) =~= strings_view(values@.take(i as int)).push(
                values@[i as int]@,
            ));
        }
        i += 1;
    }
    proof {
        assert(values@.take(i as int) =~= values@);
    }
    copy
}

impl KeymapOn {
    /// A copy of these keys.
    pub fn duplicate(&self) -> (copy: KeymapOn)
        ensures
            copy@ == self@,
    {
        match self {
            KeymapOn::One(s) => KeymapOn::One(s.clone()),
            KeymapOn::Many(v) => KeymapOn::Many(copy_strings(v)),
        }
    }

    /// The keys, one per element.
    pub fn values(&self) -> (keys: Vec<String>)
        ensures
            strings_view(keys@) == self@.1,
    {
        match self {
            KeymapOn::One(s) => {
                let mut keys: Vec<String> = Vec::new();
                keys.push(s.clone());
                proof {
                    assert(strings_view(keys@) =~= seq![s@]);
                }
                keys
            },
            KeymapOn::Many(v) => copy_strings(v),
        }
    }
}

impl KeymapEntry {
    /// A copy of this entry.
    pub fn duplicate(&self) -> (copy: KeymapEntry)
        ensures
            copy@ == self@,
    {
        KeymapEntry { on: self.on.duplicate(), run: self.run.clone(), desc: self.desc.clone() }
    }
}

/// The default `viewer` key bindings.
pub open spec fn default_viewer_keymap() -> Seq<EntryView> {
    seq![
        ((false, seq!["q"@]), "quit"@, "Quit pdf-tui"@),
        ((false, seq!["ctrl-c"@]), "quit"@, "Quit pdf-tui"@),
        ((false, seq!["f1"@]), "help"@, "Show viewer key bindings"@),
        ((false, seq!["j"@]), "scroll_down"@, "Scroll down"@),
        ((false, seq!["down"@]), "scroll_down"@, "Scroll down"@),
        ((false, seq!["k"@]), "scroll_up"@, "Scroll up"@),
        ((false, seq!["up"@]), "scroll_up"@, "Scroll up"@),
        ((false, seq!["pgdn"@]), "page_down"@, "Move one page down"@),
        ((false, seq!["pagedown"@]), "page_down"@, "Move one page down"@),
        ((false, seq!["pgup"@]), "page_up"@, "Move one page up"@),
        ((false, seq!["home"@]), "home"@, "Go to first page"@),
        ((true, seq!["g"@, "g"@]), "home"@, "Go to first page"@),
        ((false, seq!["end"@]), "end"@, "Go to last page"@),
        ((false, seq!["G"@]), "end"@, "Go to last page"@),
        ((false, seq!["h"@]), "page_up"@, "Move one page up"@),
        ((false, seq!["left"@]), "page_up"@, "Move one page up"@),
        ((false, seq!["l"@]), "page_down"@, "Move one page down"@),
        ((false, seq!["right"@]), "page_down"@, "Move one page down"@),
        ((false, seq!["r"@]), "refresh"@, "Refresh current PDF"@),
        ((false, seq!["m"@]), "metadata"@, "Show PDF metadata"@),
        ((false, seq!["b"@]), "bookmarks"@, "Show PDF bookmarks"@),
        ((false, seq!["s"@]), "search"@, "Search PDF text"@),
        ((true, seq!["L"@, "s"@]), "layout scroll 1 3"@, "Use one-column scroll layout"@),
        ((true, seq!["L"@, "g"@]), "layout grid 2 2"@, "Use 2x2 grid layout"@),
    ]
}

/// The default `metadata` key bindings.
pub open spec fn default_metadata_keymap() -> Seq<EntryView> {
    seq![
        ((false, seq!["q"@]), "back"@, "Return to viewer"@),
        ((false, seq!["esc"@]), "back"@, "Return to viewer"@),
        ((false, seq!["ctrl-c"@]), "quit"@, "Quit pdf-tui"@),
        ((false, seq!["f1"@]), "help"@, "Show metadata key bindings"@),
        ((false, seq!["e"@]), "edit_metadata"@, "Edit PDF metadata"@),
        ((false, seq!["j"@]), "metadata_scroll_down"@, "Scroll metadata down"@),
        ((false, seq!["down"@]), "metadata_scroll_down"@, "Scroll metadata down"@),
        ((false, seq!["k"@]), "metadata_scroll_up"@, "Scroll metadata up"@),
        ((false, seq!["up"@]), "metadata_scroll_up"@, "Scroll metadata up"@),
        ((false, seq!["pgdn"@]), "metadata_page_down"@, "Scroll metadata page down"@),
        ((false, seq!["pagedown"@]), "metadata_page_down"@, "Scroll metadata page down"@),
        ((false, seq!["pgup"@]), "metadata_page_up"@, "Scroll metadata page up"@),
    ]
}

/// The default `input` key bindings.
pub open spec fn default_input_keymap() -> Seq<EntryView> {
    seq![
        ((false, seq!["esc"@]), "cancel"@, "Cancel input"@),
        ((false, seq!["f1"@]), "help"@, "Show input key bindings"@),
        ((false, seq!["enter"@]), "submit"@, "Submit input"@),
        ((false, seq!["backspace"@]), "backspace"@, "Delete before cursor"@),
        ((false, seq!["delete"@]), "delete"@, "Delete under cursor"@),
        ((false, seq!["left"@]), "move_left"@, "Move cursor left"@),
        ((false, seq!["right"@]), "move_right"@, "Move cursor right"@),
        ((false, seq!["home"@]), "move_start"@, "Move cursor to start"@),
        ((false, seq!["ctrl-a"@]), "move_start"@, "Move cursor to start"@),
        ((false, seq!["end"@]), "move_end"@, "Move cursor to end"@),
        ((false, seq!["ctrl-e"@]), "move_end"@, "Move cursor to end"@),
        ((false, seq!["ctrl-u"@]), "kill_before_cursor"@, "Delete before cursor"@),
        ((false, seq!["ctrl-k"@]), "kill_after_cursor"@, "Delete after cursor"@),
        ((false, seq!["tab"@]), "completion_next"@, "Select next completion"@),
        ((false, seq!["backtab"@]), "completion_previous"@, "Select previous completion"@),
        ((false, seq!["up"@]), "history_previous"@, "Previous command history"@),
        ((false, seq!["down"@]), "history_next"@, "Next command history"@),
    ]
}

/// The default `global` key bindings.
pub open spec fn default_global_keymap() -> Seq<EntryView> {
    seq![
        ((false, seq![":"@]), "command"@, "Enter command"@),
    ]
}

fn default_viewer_section() -> (section: KeymapSection)
    ensures
        section@ == default_viewer_keymap(),
{
    let mut keymap: Vec<KeymapEntry> = Vec::new();
    keymap.push(entry_one("q", "quit", "Quit pdf-tui"));
    keymap.push(entry_one("ctrl-c", "quit", "Quit pdf-tui"));
    keymap.push(entry_one("f1", "help", "Show viewer key bindings"));
    keymap.push(entry_one("j", "scroll_down", "Scroll down"));
    keymap.push(entry_one("down", "scroll_down", "Scroll down"));
    keymap.push(entry_one("k", "scroll_up", "Scroll up"));
    keymap.push(entry_one("up", "scroll_up", "Scroll up"));
    keymap.push(entry_one("pgdn", "page_down", "Move one page down"));
    keymap.push(entry_one("pagedown", "page_down", "Move one page down"));
    keymap.push(entry_one("pgup", "page_up", "Move one page up"));
    keymap.push(entry_one("home", "home", "Go to first page"));
    keymap.push(entry_many("g", "g", "home", "Go to first page"));
    keymap.push(entry_one("end", "end", "Go to last page"));
    keymap.push(entry_one("G", "end", "Go to last page"));
    keymap.push(entry_one("h", "page_up", "Move one page up"));
    keymap.push(entry_one("left", "page_up", "Move one page up"));
    keymap.push(entry_one("l", "page_down", "Move one page down"));
    keymap.push(entry_one("right", "page_down", "Move one page down"));
    keymap.push(entry_one("r", "refresh", "Refresh current PDF"));
    keymap.push(entry_one("m", "metadata", "Show PDF metadata"));
    keymap.push(entry_one("b", "bookmarks", "Show PDF bookmarks"));
    keymap.push(entry_one("s", "search", "Search PDF text"));
    keymap.push(entry_many("L", "s", "layout scroll 1 3", "Use one-column scroll layout"));
    keymap.push(entry_many("L", "g", "layout grid 2 2", "Use 2x2 grid layout"));
    let section = KeymapSection { keymap };
    proof {
        assert(section@ =~= default_viewer_keymap());
    }
    section
}

fn default_metadata_section() -> (section: KeymapSection)
    ensures
        section@ == default_metadata_keymap(),
{
    let mut keymap: Vec<KeymapEntry> = Vec::new();
    keymap.push(entry_one("q", "back", "Return to viewer"));
    keymap.push(entry_one("esc", "back", "Return to viewer"));
    keymap.push(entry_one("ctrl-c", "quit", "Quit pdf-tui"));
    keymap.push(entry_one("f1", "help", "Show metadata key bindings"));
    keymap.push(entry_one("e", "edit_metadata", "Edit PDF metadata"));
    keymap.push(entry_one("j", "metadata_scroll_down", "Scroll metadata down"));
    keymap.push(entry_one("down", "metadata_scroll_down", "Scroll metadata down"));
    keymap.push(entry_one("k", "metadata_scroll_up", "Scroll metadata up"));
    keymap.push(entry_one("up", "metadata_scroll_up", "Scroll metadata up"));
    keymap.push(entry_one("pgdn", "metadata_page_down", "Scroll metadata page down"));
    keymap.push(entry_one("pagedown", "metadata_page_down", "Scroll metadata page down"));
    keymap.push(entry_one("pgup", "metadata_page_up", "Scroll metadata page up"));
    let section = KeymapSection { keymap };
    proof {
        assert(section@ =~= default_metadata_keymap());
    }
    section
}

fn default_input_section() -> (section: KeymapSection)
    ensures
        section@ == default_input_keymap(),
{
    let mut keymap: Vec<KeymapEntry> = Vec::new();
    keymap.push(entry_one("esc", "cancel", "Cancel input"));
    keymap.push(entry_one("f1", "help", "Show input key bindings"));
    keymap.push(entry_one("enter", "submit", "Submit input"));
    keymap.push(entry_one("backspace", "backspace", "Delete before cursor"));
    keymap.push(entry_one("delete", "delete", "Delete under cursor"));
    keymap.push(entry_one("left", "move_left", "Move cursor left"));
    keymap.push(entry_one("right", "move_right", "Move cursor right"));
    keymap.push(entry_one("home", "move_start", "Move cursor to start"));
    keymap.push(entry_one("ctrl-a", "move_start", "Move cursor to start"));
    keymap.push(entry_one("end", "move_end", "Move cursor to end"));
    keymap.push(entry_one("ctrl-e", "move_end", "Move cursor to end"));
    keymap.push(entry_one("ctrl-u", "kill_before_cursor", "Delete before cursor"));
    keymap.push(entry_one("ctrl-k", "kill_after_cursor", "Delete after cursor"));
    keymap.push(entry_one("tab", "completion_next", "Select next completion"));
    keymap.push(entry_one("backtab", "completion_previous", "Select previous completion"));
    keymap.push(entry_one("up", "history_previous", "Previous command history"));
    keymap.push(entry_one("down", "history_next", "Next command history"));
    let section = KeymapSection { keymap };
    proof {
        assert(section@ =~= default_input_keymap());
    }
    section
}

fn default_global_section() -> (section: KeymapSection)
    ensures
        section@ == default_global_keymap(),
{
    let mut keymap: Vec<KeymapEntry> = Vec::new();
    keymap.push(entry_one(":", "command", "Enter command"));
    let section = KeymapSection { keymap };
    proof {
        assert(section@ =~= default_global_keymap());
    }
    section
}

impl Default for KeymapConfig {
    fn default() -> (config: Self)
        ensures
            config.viewer@ == default_viewer_keymap(),
            config.metadata@ == default_metadata_keymap(),
            config.input@ == default_input_keymap(),
            config.global@ == default_global_keymap(),
    {
        KeymapConfig {
            viewer: default_viewer_section(),
            metadata: default_metadata_section(),
            input: default_input_section(),
            global: default_global_section(),
        }
    }
}

/// Whether some entry runs `action`.
pub open spec fn runs_action(entries: Seq<EntryView>, action: Seq<char>) -> bool {
    exists|j: int| 0 <= j < entries.len() && #[trigger] entries[j].1 == action
}

/// `entries` with each default whose action no entry runs appended, in
/// order.
pub open spec fn append_missing_spec(entries: Seq<EntryView>, defaults: Seq<EntryView>) -> Seq<
    EntryView,
>
    decreases defaults.len(),
{
    if defaults.len() == 0 {
        entries
    } else {
        let before = append_missing_spec(entries, defaults.drop_last());
        if runs_action(before, defaults.last().1) {
            before
        } else {
            before.push(defaults.last())
        }
    }
}

fn runs_action_exec(entries: &Vec<KeymapEntry>, action: &str) -> (found: bool)
    ensures
        found == runs_action(entries_view(entries@), action@),
{
    let ghost view = entries_view(entries@);
    let mut i: usize = 0;
    while i < entries.len()
        invariant
            i <= entries@.len(),
            view == entries_view(entries@),
            forall|j: int| 0 <= j < i ==> view[j].1 != action@,
        decreases entries@.len() - i,
    {
        if str_eq(entries[i].run.as_str(), action) {
            proof {
                assert(view[i as int].1 == action@);
            }
            return true;
        }
        i += 1;
    }
    false
}

/// Appends each default whose action no entry runs.
pub fn append_missing_actions(entries: &mut Vec<KeymapEntry>, defaults: &Vec<KeymapEntry>)
    ensures
        entries_view(final(entries)@) == append_missing_spec(
            entries_view(old(entries)@),
            entries_view(defaults@),
        ),
{
    let ghost start = entries_view(entries@);
    let ghost all = entries_view(defaults@);
    let mut i: usize = 0;
    proof {
        assert(all.take(0) =~= Seq::<EntryView>::empty());
    }
    while i < defaults.len()
        invariant
            i <= defaults@.len(),
            all == entries_view(defaults@),
            entries_view(entries@) == append_missing_spec(start, all.take(i as int)),
        decreases defaults@.len() - i,
    {
        proof {
            assert(all.take(i + 1).drop_last() =~= all.take(i as int));
            assert(all.take(i + 1).last() == defaults@[i as int]@);
        }
        let default = &defaults[i];
        if !runs_action_exec(entries, default.run.as_str()) {
            let ghost before = entries@;
            let copy = default.duplicate();
            entries.push(copy);
            proof {
                assert(entries_view(entries@) =~= entries_view(before).push(copy@));
            }
        }
        i += 1;
    }
    proof {
        assert(all.take(i as int) =~= all);
    }
}

impl KeymapConfig {
    /// Adds, to each section, the default bindings whose action the
    /// section does not bind.
    pub fn normalize_defaults(&mut self)
        ensures
            final(self).viewer@ == append_missing_spec(old(self).viewer@, default_viewer_keymap()),
            final(self).metadata@ == append_missing_spec(
                old(self).metadata@,
                default_metadata_keymap(),
            ),
            final(self).input@ == append_missing_spec(old(self).input@, default_input_keymap()),
            final(self).global@ == append_missing_spec(old(self).global@, default_global_keymap()),
    {
        let default = KeymapConfig::default();
        append_missing_actions(&mut self.viewer.keymap, &default.viewer.keymap);
        append_missing_actions(&mut self.metadata.keymap, &default.metadata.keymap);
        append_missing_actions(&mut self.input.keymap, &default.input.keymap);
        append_missing_actions(&mut self.global.keymap, &default.global.keymap);
    }

    /// The bindings of each section (viewer, metadata, input, global) as
    /// keys, action and description.
    pub fn binding_entries(&self) -> (sections: (
        Vec<(Vec<String>, String, String)>,
        Vec<(Vec<String>, String, String)>,
        Vec<(Vec<String>, String, String)>,
        Vec<(Vec<String>, String, String)>,
    ))
        ensures
            bindings_view(sections.0@) == self.viewer@.map_values(|e: EntryView| (e.0.1, e.1, e.2)),
            bindings_view(sections.1@) == self.metadata@.map_values(
                |e: EntryView| (e.0.1, e.1, e.2),
            ),
            bindings_view(sections.2@) == self.input@.map_values(|e: EntryView| (e.0.1, e.1, e.2)),
            bindings_view(sections.3@) == self.global@.map_values(|e: EntryView| (e.0.1, e.1, e.2)),
    {
        (
            binding_configs(&self.viewer.keymap),
            binding_configs(&self.metadata.keymap),
            binding_configs(&self.input.keymap),
            binding_configs(&self.global.keymap),
        )
    }
}

pub open spec fn bindings_view(v: Seq<(Vec<String>, String, String)>) -> Seq<
    (Seq<Seq<char>>, Seq<char>, Seq<char>),
> {
    v.map_values(|b: (Vec<String>, String, String)| (strings_view(b.0@), b.1@, b.2@))
}

/// Keys, action and description of each entry.
fn binding_configs(entries: &Vec<KeymapEntry>) -> (bindings: Vec<(Vec<String>, String, String)>)
    ensures
        bindings_view(bindings@) == entries_view(entries@).map_values(
            |e: EntryView| (e.0.1, e.1, e.2),
        ),
{
    let ghost target = entries_view(entries@).map_values(|e: EntryView| (e.0.1, e.1, e.2));
    let mut bindings: Vec<(Vec<String>, String, String)> = Vec::new();
    let mut i: usize = 0;
    while i < entries.len()
        invariant
            i <= entries@.len(),
            target == entries_view(entries@).map_values(|e: EntryView| (e.0.1, e.1, e.2)),
            bindings_view(bindings@) == target.take(i as int),
        decreases entries@.len() - i,
    {
        let e = &entries[i];
        let ghost before = bindings@;
        let b = (e.on.values(), e.run.clone(), e.desc.clone());
        bindings.push(b);
        proof {
            assert(bindings_view(bindings@) =~= bindings_view(before).push(
                (strings_view(b.0@), b.1@, b.2@),
            ));
            assert(target[i as int] == (e@.0.1, e@.1, e@.2));
            assert(bindings_view(bindings@) =~= target.take(i + 1));
        }
        i += 1;
    }
    proof {
        assert(target.take(i as int) =~= target);
    }
    bindings
}

// ---------------------------------------------------------------------
// The TOML form

/// Uppercase hexadecimal digit `d`.
pub open spec fn hex_upper(d: nat) -> char {
    if d < 10 {
        ((48 + d) as u32) as char
    } else {
        ((55 + d) as u32) as char
    }
}

/// `c` escaped in a TOML basic string: backslash escapes for backslash,
/// quote, newline, carriage return, tab, backspace and form feed, `\uXXXX`
/// for other control characters.
pub open spec fn basic_escape_char(c: char) -> Seq<char> {
    if c == '\\' {
        seq!['\\', '\\']
    } else if c == '"' {
        seq!['\\', '"']
    } else if c == '\n' {
        seq!['\\', 'n']
    } else if c == '\r' {
        seq!['\\', 'r']
    } else if c == '\t' {
        seq!['\\', 't']
    } else if c == '\u{08}' {
        seq!['\\', 'b']
    } else if c == '\u{0c}' {
        seq!['\\', 'f']
    } else if is_control_spec(c) {
        let v = c as u32 as nat;
        seq![
            '\\',
            'u',
            hex_upper(v / 4096),
            hex_upper((v / 256) % 16),
            hex_upper((v / 16) % 16),
            hex_upper(v % 16),
        ]
    } else {
        seq![c]
    }
}

pub open spec fn basic_escape(s: Seq<char>) -> Seq<char>
    decreases s.len(),
{
    if s.len() == 0 {
        Seq::empty()
    } else {
        basic_escape(s.drop_last()) + basic_escape_char(s.last())
    }
}

/// `s` as a quoted TOML basic string.
pub open spec fn basic_string_spec(s: Seq<char>) -> Seq<char> {
    seq!['"'] + basic_escape(s) + seq!['"']
}

fn hex_upper_exec(d: u32) -> (c: char)
    requires
        d < 16,
    ensures
        c == hex_upper(d as nat),
{
    if d < 10 {
        (48u8 + d as u8) as char
    } else {
        (55u8 + d as u8) as char
    }
}

/// `value` as a quoted TOML basic string.
pub fn toml_basic_string(value: &str) -> (quoted: String)
    ensures
        quoted@ == basic_string_spec(value@),
{
    let cs = chars_of(value);
    let mut out: Vec<char> = Vec::new();
    out.push('"');
    let mut i: usize = 0;
    while i < cs.len()
        invariant
            i <= cs@.len(),
            cs@ == value@,
            out@ == seq!['"'] + basic_escape(cs@.take(i as int)),
        decreases cs@.len() - i,
    {
        let c = cs[i];
        let ghost before = out@;
        if c == '\\' {
            out.push('\\');
            out.push('\\');
        } else if c == '"' {
            out.push('\\');
            out.push('"');
        } else if c == '\n' {
            out.push('\\');
            out.push('n');
        } else if c == '\r' {
            out.push('\\');
            out.push('r');
        } else if c == '\t' {
            out.push('\\');
            out.push('t');
        } else if c == '\u{08}' {
            out.push('\\');
            out.push('b');
        } else if c == '\u{0c}' {
            out.push('\\');
            out.push('f');
        } else if is_control(c) {
            let v = c as u32;
            out.push('\\');
            out.push('u');
            out.push(hex_upper_exec(v / 4096));
            out.push(hex_upper_exec((v / 256) % 16));
            out.push(hex_upper_exec((v / 16) % 16));
            out.push(hex_upper_exec(v % 16));
        } else {
            out.push(c);
        }
        proof {
            assert(cs@.take(i + 1).drop_last() =~= cs@.take(i as int));
            assert(out@ =~= before + basic_escape_char(c));
            assert(out@ =~= seq!['"'] + basic_escape(cs@.take(i + 1)));
        }
        i += 1;
    }
    out.push('"');
    proof {
        assert(cs@.take(i as int) =~= cs@);
        assert(out@ =~= basic_string_spec(value@));
    }
    string_of(&out)
}

/// `"a", "b", ...` for the keys.
pub open spec fn joined_keys(keys: Seq<Seq<char>>) -> Seq<char>
    decreases keys.len(),
{
    if keys.len() == 0 {
        Seq::empty()
    } else if keys.len() == 1 {
        basic_string_spec(keys[0])
    } else {
        joined_keys(keys.drop_last()) + seq![',', ' '] + basic_string_spec(keys.last())
    }
}

/// Keys in TOML: a string, or a list of strings.
pub open spec fn keymap_on_spec(on: OnView) -> Seq<char> {
    if on.0 {
        seq!['['] + joined_keys(on.1) + seq![']']
    } else {
        basic_string_spec(on.1[0])
    }
}

fn format_keymap_on(on: &KeymapOn) -> (text: Vec<char>)
    ensures
        text@ == keymap_on_spec(on@),
{
    match on {
        KeymapOn::One(value) => {
            let s = toml_basic_string(value.as_str());
            chars_of(s.as_str())
        },
        KeymapOn::Many(values) => {
            let ghost keys = strings_view(values@);
            let mut text: Vec<char> = Vec::new();
            text.push('[');
            let mut i: usize = 0;
            proof {
                assert(keys.take(0) =~= Seq::<Seq<char>>::empty());
            }
            while i < values.len()
                invariant
                    i <= values@.len(),
                    keys == strings_view(values@),
                    text@ == seq!['['] + joined_keys(keys.take(i as int)),
                decreases values@.len() - i,
            {
                if i > 0 {
                    text.push(',');
                    text.push(' ');
                }
                let s = toml_basic_string(values[i].as_str());
                extend_str(&mut text, s.as_str());
                proof {
                    assert(keys.take(i + 1).drop_last() =~= keys.take(i as int));
                    assert(keys[i as int] == values@[i as int]@);
                    if i == 0 {
                        assert(keys.take(1)[0] == keys[0]);
                    }
                    assert(text@ =~= seq!['['] + joined_keys(keys.take(i + 1)));
                }
                i += 1;
            }
            text.push(']');
            proof {
                assert(keys.take(i as int) =~= keys);
            }
            text
        },
    }
}

/// One binding line: `  { on = ..., run = "...", desc = "..." },`.
pub open spec fn entry_line(e: EntryView) -> Seq<char> {
    "  { on = "@ + keymap_on_spec(e.0) + ", run = "@ + basic_string_spec(e.1) + ", desc = "@
        + basic_string_spec(e.2) + " },\n"@
}

pub open spec fn entry_lines(es: Seq<EntryView>) -> Seq<char>
    decreases es.len(),
{
    if es.len() == 0 {
        Seq::empty()
    } else {
        entry_lines(es.drop_last()) + entry_line(es.last())
    }
}

/// A section in TOML: `[name]` and its `keymap` list.
pub open spec fn section_spec(name: Seq<char>, es: Seq<EntryView>) -> Seq<char> {
    seq!['['] + name + "]\n"@ + "keymap = [\n"@ + entry_lines(es) + "]\n\n"@
}

fn push_keymap_section(out: &mut Vec<char>, name: &str, section: &KeymapSection)
    ensures
        final(out)@ == old(out)@ + section_spec(name@, section@),
{
    let ghost start = out@;
    out.push('[');
    extend_str(out, name);
    extend_str(out, "]\n");
    extend_str(out, "keymap = [\n");
    let ghost head = out@;
    let ghost es = section@;
    let mut i: usize = 0;
    proof {
        assert(es.take(0) =~= Seq::<EntryView>::empty());
        assert(out@ =~= head + entry_lines(es.take(0)));
    }
    while i < section.keymap.len()
        invariant
            i <= section.keymap@.len(),
            es == section@,
            out@ == head + entry_lines(es.take(i as int)),
        decreases section.keymap@.len() - i,
    {
        let entry = &section.keymap[i];
        let ghost before = out@;
        extend_str(out, "  { on = ");
        let on = format_keymap_on(&entry.on);
        extend_chars(out, &on);
        extend_str(out, ", run = ");
        let run = toml_basic_string(entry.run.as_str());
        extend_str(out, run.as_str());
        extend_str(out, ", desc = ");
        let desc = toml_basic_string(entry.desc.as_str());
        extend_str(out, desc.as_str());
        extend_str(out, " },\n");
        proof {
            assert(es.take(i + 1).drop_last() =~= es.take(i as int));
            assert(es[i as int] == entry@);
            assert(out@ =~= before + entry_line(entry@));
            assert(out@ =~= head + entry_lines(es.take(i + 1)));
        }
        i += 1;
    }
    extend_str(out, "]\n\n");
    proof {
        assert(es.take(i as int) =~= es);
        assert(out@ =~= start + section_spec(name@, section@));
    }
}

/// The key map in TOML: the viewer, metadata, input and global sections.
pub open spec fn keymap_toml_spec(config: KeymapConfig) -> Seq<char> {
    section_spec("viewer"@, config.viewer@) + section_spec("metadata"@, config.metadata@)
        + section_spec("input"@, config.input@) + section_spec("global"@, config.global@)
}

/// The key map written as the TOML of the key map file.
pub fn format_keymap_toml(config: &KeymapConfig) -> (toml: String)
    ensures
        toml@ == keymap_toml_spec(*config),
{
    let mut out: Vec<char> = Vec::new();
    push_keymap_section(&mut out, "viewer", &config.viewer);
    push_keymap_section(&mut out, "metadata", &config.metadata);
    push_keymap_section(&mut out, "input", &config.input);
    push_keymap_section(&mut out, "global", &config.global);
    proof {
        assert(out@ =~= keymap_toml_spec(*config));
    }
    string_of(&out)
}


/// Appending missing defaults keeps the user's entries first, unchanged.
proof fn lemma_append_missing_prefix(entries: Seq<EntryView>, defaults: Seq<EntryView>)
    ensures
        append_missing_spec(entries, defaults).len() >= entries.len(),
        forall|j: int|
            0 <= j < entries.len() ==> #[trigger] append_missing_spec(entries, defaults)[j]
                == entries[j],
    decreases defaults.len(),
{
    if defaults.len() > 0 {
        lemma_append_missing_prefix(entries, defaults.drop_last());
    }
}

/// After the missing defaults are appended, every default action is
/// bound, and the user's own bindings come first, unchanged.
pub proof fn lemma_every_default_action_bound(entries: Seq<EntryView>, defaults: Seq<EntryView>)
    ensures
        forall|k: int|
            0 <= k < defaults.len() ==> runs_action(
                append_missing_spec(entries, defaults),
                #[trigger] defaults[k].1,
            ),
        forall|j: int|
            0 <= j < entries.len() ==> #[trigger] append_missing_spec(entries, defaults)[j]
                == entries[j],
    decreases defaults.len(),
{
    lemma_append_missing_prefix(entries, defaults);
    if defaults.len() > 0 {
        let prev = defaults.drop_last();
        lemma_every_default_action_bound(entries, prev);
        let before = append_missing_spec(entries, prev);
        let after = append_missing_spec(entries, defaults);
        lemma_append_missing_prefix(before, seq![defaults.last()]);
        assert forall|k: int| 0 <= k < defaults.len() implies runs_action(
            after,
            #[trigger] defaults[k].1,
        ) by {
            if k < defaults.len() - 1 {
                assert(defaults[k] == prev[k]);
                assert(runs_action(before, prev[k].1));
                let w = choose|w: int| 0 <= w < before.len() && #[trigger] before[w].1 == prev[k].1;
                if !runs_action(before, defaults.last().1) {
                    assert(after[w] == before[w]);
                }
                assert(after[w].1 == defaults[k].1);
            } else {
                if !runs_action(before, defaults.last().1) {
                    assert(after[before.len() as int] == defaults.last());
                }
            }
        }
    }
}

/// Appending the missing defaults a second time changes nothing.
pub proof fn lemma_append_missing_idempotent(entries: Seq<EntryView>, defaults: Seq<EntryView>)
    ensures
        append_missing_spec(append_missing_spec(entries, defaults), defaults)
            == append_missing_spec(entries, defaults),
{
    let once = append_missing_spec(entries, defaults);
    lemma_every_default_action_bound(entries, defaults);
    lemma_all_bound_unchanged(once, defaults, defaults.len() as int);
    assert(defaults.take(defaults.len() as int) =~= defaults);
}

proof fn lemma_all_bound_unchanged(entries: Seq<EntryView>, defaults: Seq<EntryView>, k: int)
    requires
        0 <= k <= defaults.len(),
        forall|j: int| 0 <= j < defaults.len() ==> runs_action(entries, #[trigger] defaults[j].1),
    ensures
        append_missing_spec(entries, defaults.take(k)) == entries,
    decreases k,
{
    if k > 0 {
        lemma_all_bound_unchanged(entries, defaults, k - 1);
        assert(defaults.take(k).drop_last() =~= defaults.take(k - 1));
        assert(defaults.take(k).last() == defaults[k - 1]);
        assert(runs_action(entries, defaults[k - 1].1));
    } else {
        assert(defaults.take(0) =~= Seq::<EntryView>::empty());
    }
    if k == defaults.len() {
        assert(defaults.take(k) =~= defaults);
    }
}

} // verus!
