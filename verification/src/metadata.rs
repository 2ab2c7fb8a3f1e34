//! PDF document metadata as `exiftool -G1 -s` reports it, the TOML draft
//! offered for editing the editable tags, and the changes read back from
//! an edited draft.

use vstd::prelude::*;

use crate::keyed::str_eq;
use crate::sorting::{insert_position, insert_sorted, lemma_insert_position_bounds, sorted_by};
use crate::text::{
    chars_of, debug_quoted, debug_string, extend_str, lex_lt, lemma_lex_lt_irreflexive,
    lemma_lex_lt_transitive, lines, lines_spec,
    push_toml_string, split_once, split_once_spec, str_lt, string_of, toml_string_spec, trim,
    trim_spec,
};
use crate::toml_value::{get_spec, parse_toml_document, toml_document, TomlValue};

verus! {

#[derive(Debug, Clone, PartialEq, Eq)]
pub struct PdfMetadataEntry {
    pub group: String,
    pub name: String,
    pub value: String,
}

#[derive(Debug, Clone, PartialEq, Eq)]
pub struct MetadataChange {
    pub tag: String,
    pub old_value: Option<String>,
    pub new_value: String,
}

#[derive(Debug, Clone, PartialEq, Eq)]
pub struct MetadataEdit {
    pub tags: Vec<MetadataChange>,
}

impl MetadataEdit {
    /// An edit that changes nothing.
    pub fn new() -> (edit: Self)
        ensures
            edit.tags@.len() == 0,
    {
        MetadataEdit { tags: Vec::new() }
    }

    pub fn is_empty(&self) -> (empty: bool)
        ensures
            empty == (self.tags@.len() == 0),
    {
        self.tags.len() == 0
    }

    pub fn change_count(&self) -> (count: usize)
        ensures
            count == self.tags@.len(),
    {
        self.tags.len()
    }
}

/// An entry as plain values: group, name, value.
pub type EntryModel = (Seq<char>, Seq<char>, Seq<char>);

pub open spec fn entry_model(e: PdfMetadataEntry) -> EntryModel {
    (e.group@, e.name@, e.value@)
}

pub open spec fn entries_model(es: Seq<PdfMetadataEntry>) -> Seq<EntryModel> {
    es.map_values(|e: PdfMetadataEntry| entry_model(e))
}

/// A change as plain values: tag, old value, new value.
pub type ChangeModel = (Seq<char>, Option<Seq<char>>, Seq<char>);

pub open spec fn change_model(c: MetadataChange) -> ChangeModel {
    (
        c.tag@,
        match c.old_value {
            Some(v) => Some(v@),
            None => None,
        },
        c.new_value@,
    )
}

pub open spec fn changes_model(cs: Seq<MetadataChange>) -> Seq<ChangeModel> {
    cs.map_values(|c: MetadataChange| change_model(c))
}

/// The tags the draft offers for editing, in the order it lists them.
pub open spec fn editable_tags() -> Seq<Seq<char>> {
    seq![
        "Title"@,
        "Author"@,
        "Subject"@,
        "Keywords"@,
        "Creator"@,
        "Producer"@,
        "CreationDate"@,
        "ModifyDate"@,
    ]
}

/// Editable tag number `i`.
fn editable_tag(i: usize) -> (tag: &'static str)
    requires
        i < 8,
    ensures
        tag@ == editable_tags()[i as int],
{
    if i == 0 {
        "Title"
    } else if i == 1 {
        "Author"
    } else if i == 2 {
        "Subject"
    } else if i == 3 {
        "Keywords"
    } else if i == 4 {
        "Creator"
    } else if i == 5 {
        "Producer"
    } else if i == 6 {
        "CreationDate"
    } else {
        "ModifyDate"
    }
}

/// Whether `name` is an editable tag.
fn is_editable(name: &str) -> (editable: bool)
    ensures
        editable == editable_tags().contains(name@),
{
    let mut i: usize = 0;
    while i < 8
        invariant
            i <= 8,
            forall|j: int| 0 <= j < i ==> editable_tags()[j] != name@,
        decreases 8 - i,
    {
        if str_eq(editable_tag(i), name) {
            return true;
        }
        i += 1;
    }
    proof {
        assert forall|j: int| 0 <= j < editable_tags().len() implies editable_tags()[j] != name@ by {}
    }
    false
}

/// The value of the last entry named `name`: the entries are collected
/// into a map by name, a later entry replacing an earlier one.
pub open spec fn value_named(entries: Seq<EntryModel>, name: Seq<char>) -> Option<Seq<char>>
    decreases entries.len(),
{
    if entries.len() == 0 {
        None
    } else if entries.last().1 == name {
        Some(entries.last().2)
    } else {
        value_named(entries.drop_last(), name)
    }
}

/// The current value of an editable tag.
pub open spec fn editable_value(entries: Seq<EntryModel>, tag: Seq<char>) -> Option<Seq<char>> {
    if editable_tags().contains(tag) {
        value_named(entries, tag)
    } else {
        None
    }
}

fn value_named_exec(entries: &[PdfMetadataEntry], name: &str) -> (value: Option<String>)
    ensures
        match value {
            Some(v) => value_named(entries_model(entries@), name@) == Some(v@),
            None => value_named(entries_model(entries@), name@) is None,
        },
{
    let mut i: usize = entries.len();
    proof {
        assert(entries_model(entries@).take(i as int) =~= entries_model(entries@));
    }
    while i > 0
        invariant
            i <= entries@.len(),
            value_named(entries_model(entries@), name@) == value_named(
                entries_model(entries@).take(i as int),
                name@,
            ),
        decreases i,
    {
        let ghost prefix = entries_model(entries@).take(i as int);
        proof {
            assert(prefix.drop_last() =~= entries_model(entries@).take(i - 1));
            assert(prefix.last() == entry_model(entries@[i - 1]));
        }
        if str_eq(entries[i - 1].name.as_str(), name) {
            return Some(entries[i - 1].value.clone());
        }
        i -= 1;
    }
    None
}

/// The metadata line `line` of `exiftool -G1 -s` output: `[Group] Name:
/// value`, with name and value trimmed and not empty.
pub open spec fn exiftool_entry(line: Seq<char>) -> Option<EntryModel> {
    if line.len() > 0 && line[0] == '[' {
        match split_once_spec(line.drop_first(), ']') {
            None => None,
            Some((group, rest)) => match split_once_spec(rest, ':') {
                None => None,
                Some((name, value)) => {
                    let n = trim_spec(name);
                    let v = trim_spec(value);
                    if n.len() == 0 || v.len() == 0 {
                        None
                    } else {
                        Some((trim_spec(group), n, v))
                    }
                },
            },
        }
    } else {
        None
    }
}

/// The entries of the metadata lines, in order.
pub open spec fn exiftool_entries(lines: Seq<Seq<char>>) -> Seq<EntryModel>
    decreases lines.len(),
{
    if lines.len() == 0 {
        Seq::empty()
    } else {
        let prev = exiftool_entries(lines.drop_last());
        match exiftool_entry(lines.last()) {
            Some(e) => prev.push(e),
            None => prev,
        }
    }
}

/// Entries are listed by group, then by name.
pub open spec fn entry_order() -> spec_fn(EntryModel, EntryModel) -> bool {
    |a: EntryModel, b: EntryModel| lex_lt(a.0, b.0) || (a.0 == b.0 && lex_lt(a.1, b.1))
}

/// Changes are listed by tag.
pub open spec fn change_order() -> spec_fn(ChangeModel, ChangeModel) -> bool {
    |a: ChangeModel, b: ChangeModel| lex_lt(a.0, b.0)
}

/// The metadata of `exiftool -G1 -s` output, sorted by group and name.
pub open spec fn parse_exiftool_spec(output: Seq<char>) -> Seq<EntryModel> {
    sorted_by(exiftool_entries(lines_spec(output)), entry_order())
}

fn parse_exiftool_line(line: &Vec<char>) -> (entry: Option<PdfMetadataEntry>)
    ensures
        match entry {
            Some(e) => exiftool_entry(line@) == Some(entry_model(e)),
            None => exiftool_entry(line@) is None,
        },
{
    if line.len() == 0 || line[0] != '[' {
        return None;
    }
    let rest = crate::text::slice_chars(line, 1, line.len());
    proof {
        assert(rest@ =~= line@.drop_first());
    }
    let (group, rest) = match split_once(&rest, ']') {
        Some(parts) => parts,
        None => return None,
    };
    let (name, value) = match split_once(&rest, ':') {
        Some(parts) => parts,
        None => return None,
    };
    let name = trim(&name);
    let value = trim(&value);
    if name.len() == 0 || value.len() == 0 {
        return None;
    }
    Some(
        PdfMetadataEntry {
            group: string_of(&trim(&group)),
            name: string_of(&name),
            value: string_of(&value),
        },
    )
}

/// Whether entry `a` is listed before entry `b`.
fn entry_before(a: &PdfMetadataEntry, b: &PdfMetadataEntry) -> (before: bool)
    ensures
        before == (entry_order())(entry_model(*a), entry_model(*b)),
{
    if str_lt(a.group.as_str(), b.group.as_str()) {
        return true;
    }
    if !str_eq(a.group.as_str(), b.group.as_str()) {
        return false;
    }
    str_lt(a.name.as_str(), b.name.as_str())
}

/// Inserts `entry` after every entry it does not come before.
fn insert_entry(sorted: &mut Vec<PdfMetadataEntry>, entry: PdfMetadataEntry)
    ensures
        entries_model(final(sorted)@) == insert_sorted(
            entries_model(old(sorted)@),
            entry_model(entry),
            entry_order(),
        ),
{
    let ghost model = entries_model(sorted@);
    let mut p: usize = 0;
    while p < sorted.len() && !entry_before(&entry, &sorted[p])
        invariant
            p <= sorted@.len(),
            model == entries_model(sorted@),
            insert_position(model, entry_model(entry), entry_order(), 0) == insert_position(
                model,
                entry_model(entry),
                entry_order(),
                p as int,
            ),
        decreases sorted@.len() - p,
    {
        p += 1;
    }
    let ghost before = sorted@;
    sorted.insert(p, entry);
    proof {
        assert(entries_model(sorted@) =~= entries_model(before).insert(p as int, entry_model(entry)));
    }
}

/// Metadata entries of `exiftool -G1 -s` output, sorted by group and
/// name (equal keys keep their order).
pub fn parse_exiftool_metadata(output: &str) -> (entries: Result<Vec<PdfMetadataEntry>, String>)
    ensures
        entries is Ok,
        entries matches Ok(es) && entries_model(es@) == parse_exiftool_spec(output@),
{
    let all = lines(output);
    let ghost ls = lines_spec(output@);
    let mut found: Vec<PdfMetadataEntry> = Vec::new();
    let mut k: usize = 0;
    proof {
        assert(entries_model(found@) =~= Seq::<EntryModel>::empty());
    }
    while k < all.len()
        invariant
            all@.len() == ls.len(),
            forall|j: int| 0 <= j < all@.len() ==> #[trigger] all@[j]@ == ls[j],
            k <= all@.len(),
            entries_model(found@) == exiftool_entries(ls.take(k as int)),
        decreases all@.len() - k,
    {
        proof {
            assert(ls.take(k + 1).drop_last() =~= ls.take(k as int));
            assert(all@[k as int]@ == ls[k as int]);
        }
        match parse_exiftool_line(&all[k]) {
            Some(entry) => {
                let ghost before = found@;
                found.push(entry);
                proof {
                    assert(entries_model(found@) =~= entries_model(before).push(entry_model(entry)));
                }
            },
            None => {},
        }
        k += 1;
    }
    proof {
        assert(ls.take(k as int) =~= ls);
    }
    let ghost unsorted = entries_model(found@);
    let total = found.len();
    let mut sorted: Vec<PdfMetadataEntry> = Vec::new();
    let mut rest = found;
    let mut taken: usize = 0;
    proof {
        assert(entries_model(sorted@) =~= sorted_by(unsorted.take(0), entry_order()));
    }
    while rest.len() > 0
        invariant
            taken + rest@.len() == unsorted.len(),
            unsorted.len() == total,
            entries_model(rest@) == unsorted.skip(taken as int),
            entries_model(sorted@) == sorted_by(unsorted.take(taken as int), entry_order()),
        decreases rest@.len(),
    {
        let ghost before = rest@;
        let entry = rest.remove(0);
        proof {
            assert(entries_model(before)[0] == entry_model(before[0]));
            assert(entries_model(rest@) =~= entries_model(before).drop_first());
            assert(unsorted.skip(taken as int).drop_first() =~= unsorted.skip(taken + 1));
            assert(entries_model(rest@) =~= unsorted.skip(taken + 1));
            assert(entry_model(entry) == unsorted[taken as int]);
            assert(unsorted.take(taken + 1).drop_last() =~= unsorted.take(taken as int));
        }
        insert_entry(&mut sorted, entry);
        taken += 1;
    }
    proof {
        assert(unsorted.take(taken as int) =~= unsorted);
    }
    Ok(sorted)
}

/// The comment lines that open the metadata draft.
pub open spec fn metadata_draft_header() -> Seq<char> {
    "# Edit PDF document metadata. Save and exit to continue.\n# pdf-tui will ask for confirmation before writing changes.\n# Empty strings clear the corresponding PDF metadata field.\n"@
}

/// The draft lines of the first `k` editable tags.
pub open spec fn metadata_draft_fields(entries: Seq<EntryModel>, k: int) -> Seq<char>
    decreases k,
{
    if k <= 0 {
        Seq::empty()
    } else {
        let tag = editable_tags()[k - 1];
        let value = match editable_value(entries, tag) {
            Some(v) => v,
            None => Seq::empty(),
        };
        metadata_draft_fields(entries, k - 1) + toml_string_spec(tag) + " = "@ + toml_string_spec(
            value,
        ) + "\n"@
    }
}

/// The TOML draft offered for editing the metadata of the document at
/// `path_text` (the path as displayed).
pub open spec fn metadata_draft_spec(path_text: Seq<char>, entries: Seq<EntryModel>) -> Seq<char> {
    metadata_draft_header() + "# file = "@ + debug_quoted(path_text) + "\n\n"@ + "[metadata]\n"@
        + metadata_draft_fields(entries, 8)
}

/// The TOML draft offered for editing the metadata: a comment header and a
/// `[metadata]` table with every editable tag and its current value (empty
/// when the document has none).
pub fn metadata_edit_draft(path_text: &str, entries: &[PdfMetadataEntry]) -> (draft: String)
    ensures
        draft@ == metadata_draft_spec(path_text@, entries_model(entries@)),
{
    let mut out: Vec<char> = Vec::new();
    extend_str(
        &mut out,
        "# Edit PDF document metadata. Save and exit to continue.\n# pdf-tui will ask for confirmation before writing changes.\n# Empty strings clear the corresponding PDF metadata field.\n",
    );
    extend_str(&mut out, "# file = ");
    let quoted = debug_string(path_text);
    extend_str(&mut out, quoted.as_str());
    extend_str(&mut out, "\n\n");
    extend_str(&mut out, "[metadata]\n");
    let ghost head = out@;
    let mut i: usize = 0;
    while i < 8
        invariant
            i <= 8,
            out@ == head + metadata_draft_fields(entries_model(entries@), i as int),
        decreases 8 - i,
    {
        let tag = editable_tag(i);
        let value = match value_named_exec(entries, tag) {
            Some(v) => v,
            None => String::new(),
        };
        proof {
            assert(editable_tags().contains(tag@)) by {
                assert(editable_tags()[i as int] == tag@);
            }
        }
        push_toml_string(&mut out, &chars_of(tag));
        extend_str(&mut out, " = ");
        push_toml_string(&mut out, &chars_of(value.as_str()));
        extend_str(&mut out, "\n");
        proof {
            assert(out@ =~= head + metadata_draft_fields(entries_model(entries@), i + 1));
        }
        i += 1;
    }
    proof {
        assert(out@ =~= metadata_draft_spec(path_text@, entries_model(entries@)));
    }
    string_of(&out)
}

/// The changes asked for by the entries of an edited `[metadata]` table,
/// in table order, or why the table is refused.
pub open spec fn metadata_changes_scan(
    table: Seq<(String, TomlValue)>,
    original: Seq<EntryModel>,
) -> Result<Seq<ChangeModel>, Seq<char>>
    decreases table.len(),
{
    if table.len() == 0 {
        Ok(Seq::empty())
    } else {
        match metadata_changes_scan(table.drop_last(), original) {
            Err(e) => Err(e),
            Ok(prev) => {
                let tag = table.last().0@;
                if !editable_tags().contains(tag) {
                    Err("unsupported PDF metadata tag: "@ + tag)
                } else {
                    match table.last().1 {
                        TomlValue::String(v) => {
                            let old = editable_value(original, tag);
                            let current = match old {
                                Some(o) => o,
                                None => Seq::empty(),
                            };
                            if current != v@ {
                                Ok(prev.push((tag, old, v@)))
                            } else {
                                Ok(prev)
                            }
                        },
                        _ => Err("metadata tag "@ + tag + " must be a string"@),
                    }
                }
            },
        }
    }
}

/// What an edited metadata draft asks for: the changed tags sorted by tag,
/// or why the draft is refused.
pub open spec fn metadata_changes_spec(original: Seq<EntryModel>, edited: Seq<char>) -> Result<
    Seq<ChangeModel>,
    Seq<char>,
> {
    match toml_document(edited) {
        Err(m) => Err("metadata draft is not valid TOML: "@ + m),
        Ok(doc) => match get_spec(doc, "metadata"@) {
            Some(TomlValue::Table(table)) => match metadata_changes_scan(table@, original) {
                Err(e) => Err(e),
                Ok(changes) => Ok(sorted_by(changes, change_order())),
            },
            _ => Err("metadata draft must contain a [metadata] table"@),
        },
    }
}

proof fn lemma_changes_error_sticks(
    table: Seq<(String, TomlValue)>,
    original: Seq<EntryModel>,
    k: int,
)
    requires
        0 <= k <= table.len(),
        metadata_changes_scan(table.take(k), original) is Err,
    ensures
        metadata_changes_scan(table, original) == metadata_changes_scan(table.take(k), original),
    decreases table.len() - k,
{
    if k < table.len() {
        assert(table.take(k + 1).drop_last() =~= table.take(k));
        lemma_changes_error_sticks(table, original, k + 1);
    } else {
        assert(table.take(k) =~= table);
    }
}

/// Inserts `change` after every change it does not come before.
fn insert_change(sorted: &mut Vec<MetadataChange>, change: MetadataChange)
    ensures
        changes_model(final(sorted)@) == insert_sorted(
            changes_model(old(sorted)@),
            change_model(change),
            change_order(),
        ),
{
    let ghost model = changes_model(sorted@);
    let mut p: usize = 0;
    while p < sorted.len() && !str_lt(change.tag.as_str(), sorted[p].tag.as_str())
        invariant
            p <= sorted@.len(),
            model == changes_model(sorted@),
            insert_position(model, change_model(change), change_order(), 0) == insert_position(
                model,
                change_model(change),
                change_order(),
                p as int,
            ),
        decreases sorted@.len() - p,
    {
        p += 1;
    }
    let ghost before = sorted@;
    sorted.insert(p, change);
    proof {
        assert(changes_model(sorted@) =~= changes_model(before).insert(
            p as int,
            change_model(change),
        ));
    }
}

/// `text` as an owned string.
fn owned(text: &str) -> (out: String)
    ensures
        out@ == text@,
{
    text.to_owned()
}

/// Reads an edited metadata draft: the tags whose value differs from the
/// document's, sorted by tag; an error when the draft is not TOML, has no
/// `[metadata]` table, names a tag that cannot be edited, or gives a value
/// that is not a string.
pub fn metadata_changes_from_edit(original: &[PdfMetadataEntry], edited: &str) -> (edit: Result<
    MetadataEdit,
    String,
>)
    ensures
        match (edit, metadata_changes_spec(entries_model(original@), edited@)) {
            (Ok(e), Ok(s)) => changes_model(e.tags@) == s,
            (Err(e), Err(s)) => e@ == s,
            _ => false,
        },
{
    let document = match parse_toml_document(edited) {
        Ok(v) => v,
        Err(message) => {
            let mut text: Vec<char> = Vec::new();
            extend_str(&mut text, "metadata draft is not valid TOML: ");
            extend_str(&mut text, message.as_str());
            return Err(string_of(&text));
        },
    };
    let table = match document.get("metadata") {
        Some(TomlValue::Table(entries)) => entries,
        _ => return Err(owned("metadata draft must contain a [metadata] table")),
    };
    let ghost originals = entries_model(original@);
    let mut changes: Vec<MetadataChange> = Vec::new();
    let mut i: usize = 0;
    proof {
        assert(table@.take(0) =~= Seq::<(String, TomlValue)>::empty());
        assert(changes_model(changes@) =~= Seq::<ChangeModel>::empty());
    }
    while i < table.len()
        invariant
            i <= table@.len(),
            originals == entries_model(original@),
            metadata_changes_spec(originals, edited@) == match metadata_changes_scan(
                table@,
                originals,
            ) {
                Err(e) => Err(e),
                Ok(c) => Ok(sorted_by(c, change_order())),
            },
            metadata_changes_scan(table@.take(i as int), originals) == Ok::<
                Seq<ChangeModel>,
                Seq<char>,
            >(changes_model(changes@)),
        decreases table@.len() - i,
    {
        proof {
            assert(table@.take(i + 1).drop_last() =~= table@.take(i as int));
            assert(table@.take(i + 1).last() == table@[i as int]);
        }
        let tag = &table[i].0;
        if !is_editable(tag.as_str()) {
            let mut text: Vec<char> = Vec::new();
            extend_str(&mut text, "unsupported PDF metadata tag: ");
            extend_str(&mut text, tag.as_str());
            proof {
                lemma_changes_error_sticks(table@, originals, i + 1);
            }
            return Err(string_of(&text));
        }
        let value = match table[i].1.as_str() {
            Some(v) => v,
            None => {
                let mut text: Vec<char> = Vec::new();
                extend_str(&mut text, "metadata tag ");
                extend_str(&mut text, tag.as_str());
                extend_str(&mut text, " must be a string");
                proof {
                    lemma_changes_error_sticks(table@, originals, i + 1);
                }
                return Err(string_of(&text));
            },
        };
        let old_value = value_named_exec(original, tag.as_str());
        let unchanged = match &old_value {
            Some(o) => str_eq(o.as_str(), value),
            None => value.is_empty(),
        };
        proof {
            let t = table@[i as int];
            assert(t.0@ == tag@);
            assert(editable_tags().contains(tag@));
            let old = editable_value(originals, tag@);
            assert(old == match old_value {
                Some(o) => Some(o@),
                None => None::<Seq<char>>,
            });
            let current = match old {
                Some(o) => o,
                None => Seq::empty(),
            };
            if value@.len() == 0 {
                assert(value@ =~= Seq::<char>::empty());
            }
            assert(unchanged == (current == value@));
            assert(t.1 matches TomlValue::String(v) && v@ == value@);
        }
        if !unchanged {
            let ghost before = changes@;
            let change = MetadataChange {
                tag: tag.clone(),
                old_value,
                new_value: owned(value),
            };
            changes.push(change);
            proof {
                assert(changes_model(changes@) =~= changes_model(before).push(change_model(change)));
            }
        }
        i += 1;
    }
    proof {
        assert(table@.take(i as int) =~= table@);
    }
    let ghost unsorted = changes_model(changes@);
    let total = changes.len();
    let mut sorted: Vec<MetadataChange> = Vec::new();
    let mut rest = changes;
    let mut taken: usize = 0;
    proof {
        assert(changes_model(sorted@) =~= sorted_by(unsorted.take(0), change_order()));
    }
    while rest.len() > 0
        invariant
            taken + rest@.len() == unsorted.len(),
            unsorted.len() == total,
            changes_model(rest@) == unsorted.skip(taken as int),
            changes_model(sorted@) == sorted_by(unsorted.take(taken as int), change_order()),
        decreases rest@.len(),
    {
        let ghost before = rest@;
        let change = rest.remove(0);
        proof {
            assert(changes_model(before)[0] == change_model(before[0]));
            assert(changes_model(rest@) =~= changes_model(before).drop_first());
            assert(unsorted.skip(taken as int).drop_first() =~= unsorted.skip(taken + 1));
            assert(changes_model(rest@) =~= unsorted.skip(taken + 1));
            assert(change_model(change) == unsorted[taken as int]);
            assert(unsorted.take(taken + 1).drop_last() =~= unsorted.take(taken as int));
        }
        insert_change(&mut sorted, change);
        taken += 1;
    }
    proof {
        assert(unsorted.take(taken as int) =~= unsorted);
    }
    Ok(MetadataEdit { tags: sorted })
}


proof fn lemma_change_order_strict()
    ensures
        forall|a: ChangeModel| !#[trigger] (change_order())(a, a),
        forall|a: ChangeModel, b: ChangeModel, c: ChangeModel|
            #[trigger] (change_order())(a, b) && #[trigger] (change_order())(b, c) ==> (
            change_order())(a, c),
{
    assert forall|a: ChangeModel| !#[trigger] (change_order())(a, a) by {
        lemma_lex_lt_irreflexive(a.0);
    }
    assert forall|a: ChangeModel, b: ChangeModel, c: ChangeModel|
        #[trigger] (change_order())(a, b) && #[trigger] (change_order())(b, c) implies (
        change_order())(a, c) by {
        lemma_lex_lt_transitive(a.0, b.0, c.0);
    }
}

proof fn lemma_entry_order_strict()
    ensures
        forall|a: EntryModel| !#[trigger] (entry_order())(a, a),
        forall|a: EntryModel, b: EntryModel, c: EntryModel|
            #[trigger] (entry_order())(a, b) && #[trigger] (entry_order())(b, c) ==> (
            entry_order())(a, c),
{
    assert forall|a: EntryModel| !#[trigger] (entry_order())(a, a) by {
        lemma_lex_lt_irreflexive(a.0);
        lemma_lex_lt_irreflexive(a.1);
    }
    assert forall|a: EntryModel, b: EntryModel, c: EntryModel|
        #[trigger] (entry_order())(a, b) && #[trigger] (entry_order())(b, c) implies (
        entry_order())(a, c) by {
        if lex_lt(a.0, b.0) && lex_lt(b.0, c.0) {
            lemma_lex_lt_transitive(a.0, b.0, c.0);
        }
        if a.0 == b.0 && b.0 == c.0 && lex_lt(a.1, b.1) && lex_lt(b.1, c.1) {
            lemma_lex_lt_transitive(a.1, b.1, c.1);
        }
    }
}

/// The changes read from an edited draft are listed by tag, and are the
/// changed tags of the draft, each as often as the draft gives it.
pub proof fn lemma_metadata_changes_sorted(original: Seq<EntryModel>, edited: Seq<char>)
    ensures
        match metadata_changes_spec(original, edited) {
            Ok(changes) => {
                &&& forall|i: int, j: int|
                    0 <= i < j < changes.len() ==> !lex_lt(changes[j].0, changes[i].0)
                &&& match toml_document(edited) {
                    Ok(doc) => match get_spec(doc, "metadata"@) {
                        Some(TomlValue::Table(table)) => match metadata_changes_scan(
                            table@,
                            original,
                        ) {
                            Ok(scanned) => changes.to_multiset() == scanned.to_multiset(),
                            Err(_) => false,
                        },
                        _ => false,
                    },
                    Err(_) => false,
                }
            },
            Err(_) => true,
        },
{
    match toml_document(edited) {
        Ok(doc) => match get_spec(doc, "metadata"@) {
            Some(TomlValue::Table(table)) => match metadata_changes_scan(table@, original) {
                Ok(scanned) => {
                    lemma_change_order_strict();
                    crate::sorting::lemma_sorted_by_sorted(scanned, change_order());
                    crate::sorting::lemma_sorted_by_permutes(scanned, change_order());
                },
                Err(_) => {},
            },
            _ => {},
        },
        Err(_) => {},
    }
}

/// The metadata read from `exiftool` is listed by group, then by name, and
/// holds every metadata line's entry.
pub proof fn lemma_exiftool_entries_sorted(output: Seq<char>)
    ensures
        forall|i: int, j: int|
            0 <= i < j < parse_exiftool_spec(output).len() ==> !(entry_order())(
                parse_exiftool_spec(output)[j],
                parse_exiftool_spec(output)[i],
            ),
        parse_exiftool_spec(output).to_multiset() == exiftool_entries(
            lines_spec(output),
        ).to_multiset(),
{
    lemma_entry_order_strict();
    crate::sorting::lemma_sorted_by_sorted(exiftool_entries(lines_spec(output)), entry_order());
    crate::sorting::lemma_sorted_by_permutes(exiftool_entries(lines_spec(output)), entry_order());
}

} // verus!
