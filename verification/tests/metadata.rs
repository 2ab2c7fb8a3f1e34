use pdf_tui::metadata::{
  metadata_changes_from_edit, metadata_edit_draft, parse_exiftool_metadata, MetadataChange,
  MetadataEdit, PdfMetadataEntry,
};

fn entry(group: &str, name: &str, value: &str) -> PdfMetadataEntry {
  PdfMetadataEntry {
    group: group.to_string(),
    name: name.to_string(),
    value: value.to_string(),
  }
}

#[test]
fn exiftool_lines_are_read_and_sorted_by_group_and_name() {
  let output = "[System] FileName : a.pdf\n[PDF] Title: Report \n[PDF] Author :  Ann\nnot a tag\n[XMP] Empty :   \n[PDF] Creator: x: y\n";
  let entries = parse_exiftool_metadata(output).unwrap();
  assert_eq!(
    entries,
    vec![
      entry("PDF", "Author", "Ann"),
      entry("PDF", "Creator", "x: y"),
      entry("PDF", "Title", "Report"),
      entry("System", "FileName", "a.pdf"),
    ]
  );
}

#[test]
fn metadata_draft_lists_every_editable_tag() {
  let entries = vec![
    entry("PDF", "Title", "Old \"title\""),
    entry("XMP", "Title", "Newer"),
    entry("PDF", "Producer", "pdfTeX"),
    entry("PDF", "Secret", "hidden"),
  ];
  let draft = metadata_edit_draft("/d.pdf", &entries);
  assert_eq!(
    draft,
    "# Edit PDF document metadata. Save and exit to continue.\n# pdf-tui will ask for confirmation before writing changes.\n# Empty strings clear the corresponding PDF metadata field.\n# file = \"/d.pdf\"\n\n[metadata]\n\"Title\" = \"Newer\"\n\"Author\" = \"\"\n\"Subject\" = \"\"\n\"Keywords\" = \"\"\n\"Creator\" = \"\"\n\"Producer\" = \"pdfTeX\"\n\"CreationDate\" = \"\"\n\"ModifyDate\" = \"\"\n"
  );
}

#[test]
fn changed_tags_are_collected_and_sorted() {
  let original = vec![entry("PDF", "Title", "Old"), entry("PDF", "Author", "Ann")];
  let edited = "[metadata]\nTitle = \"New\"\nAuthor = \"Ann\"\nSubject = \"\"\nCreator = \"me\"\n";
  let edit = metadata_changes_from_edit(&original, edited).unwrap();
  assert_eq!(
    edit,
    MetadataEdit {
      tags: vec![
        MetadataChange {
          tag: "Creator".to_string(),
          old_value: None,
          new_value: "me".to_string(),
        },
        MetadataChange {
          tag: "Title".to_string(),
          old_value: Some("Old".to_string()),
          new_value: "New".to_string(),
        },
      ],
    }
  );
  assert_eq!(edit.change_count(), 2);
  assert!(!edit.is_empty());
  let same = metadata_changes_from_edit(&original, "[metadata]\nTitle = \"Old\"\n").unwrap();
  assert!(same.is_empty());
  assert!(MetadataEdit::new().is_empty());
}

#[test]
fn refused_metadata_drafts_say_why() {
  let original = vec![];
  let err = |text: &str| metadata_changes_from_edit(&original, text).unwrap_err();
  assert!(err("[metadata\n").starts_with("metadata draft is not valid TOML: "));
  assert_eq!(err("Title = \"x\"\n"), "metadata draft must contain a [metadata] table");
  assert_eq!(err("metadata = 3\n"), "metadata draft must contain a [metadata] table");
  assert_eq!(err("[metadata]\nColor = \"red\"\n"), "unsupported PDF metadata tag: Color");
  assert_eq!(err("[metadata]\nTitle = 3\n"), "metadata tag Title must be a string");
}
