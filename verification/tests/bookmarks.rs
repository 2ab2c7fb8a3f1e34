use pdf_tui::bookmarks::{
  bookmark_changes_from_edit, bookmarks_edit_draft, parse_pdftk_bookmarks,
  replace_bookmarks_in_pdftk_data, BookmarkEdit, PdfBookmark,
};

fn bookmark(id: usize, title: &str, level: u16, page_index: usize) -> PdfBookmark {
  PdfBookmark {
    id,
    title: title.to_string(),
    level,
    page_index,
  }
}

const DUMP: &str = "InfoBegin\nInfoKey: Title\nInfoValue: Doc\nBookmarkBegin\nBookmarkTitle: Intro\nBookmarkLevel: 1\nBookmarkPageNumber: 1\nBookmarkBegin\nBookmarkTitle:   Part two  \nBookmarkLevel: 2\nBookmarkPageNumber: 40\nBookmarkBegin\nBookmarkTitle:    \nBookmarkLevel: 1\nBookmarkPageNumber: 2\nPageMediaBegin\nPageMediaNumber: 1\n";

#[test]
fn pdftk_bookmarks_are_read_in_order_and_clamped() {
  let bookmarks = parse_pdftk_bookmarks(DUMP, 10);
  assert_eq!(
    bookmarks,
    vec![bookmark(0, "Intro", 1, 0), bookmark(1, "Part two  ", 2, 9)]
  );
}

#[test]
fn missing_fields_take_defaults() {
  let data = "BookmarkBegin\nBookmarkTitle: Only title\nBookmarkLevel: x\nBookmarkPageNumber: 0\n";
  assert_eq!(parse_pdftk_bookmarks(data, 5), vec![bookmark(0, "Only title", 1, 0)]);
  assert_eq!(parse_pdftk_bookmarks("BookmarkBegin\n", 5), vec![]);
  assert_eq!(parse_pdftk_bookmarks("", 5), vec![]);
}

#[test]
fn replacing_bookmarks_keeps_other_data_and_inserts_blocks_in_place() {
  let update = replace_bookmarks_in_pdftk_data(DUMP, &[bookmark(0, "New", 0, 4)]);
  assert_eq!(
    update,
    "InfoBegin\nInfoKey: Title\nInfoValue: Doc\nBookmarkBegin\nBookmarkTitle: New\nBookmarkLevel: 1\nBookmarkPageNumber: 5\nPageMediaBegin\nPageMediaNumber: 1\n"
  );
}

#[test]
fn replacing_without_old_bookmarks_inserts_before_page_media() {
  let data = "InfoBegin\nPageMediaBegin\nPageMediaNumber: 1";
  let update = replace_bookmarks_in_pdftk_data(data, &[bookmark(0, "A", 2, 0)]);
  assert_eq!(
    update,
    "InfoBegin\nBookmarkBegin\nBookmarkTitle: A\nBookmarkLevel: 2\nBookmarkPageNumber: 1\nPageMediaBegin\nPageMediaNumber: 1\n"
  );
  assert_eq!(replace_bookmarks_in_pdftk_data("", &[]), "\n");
  assert_eq!(
    replace_bookmarks_in_pdftk_data("A", &[bookmark(0, "T", 1, 2)]),
    "A\nBookmarkBegin\nBookmarkTitle: T\nBookmarkLevel: 1\nBookmarkPageNumber: 3\n"
  );
}

#[test]
fn draft_lists_each_bookmark_as_a_block() {
  let draft = bookmarks_edit_draft("/tmp/a \"b\".pdf", &[bookmark(0, "Say \"hi\"\n", 0, 2)], 7);
  assert_eq!(
    draft,
    "# Edit PDF bookmarks. Save and exit to continue.\n# pdf-tui will ask for confirmation before writing changes.\n# Delete a [[bookmark]] block to remove it; add a block to create one.\n# level is 1-based tree depth; page is 1-based PDF page number.\n# file = \"/tmp/a \\\"b\\\".pdf\"\n# pages = 7\n\n[[bookmark]]\nlevel = 1\npage = 3\ntitle = \"Say \\\"hi\\\"\\n\"\n\n"
  );
}

#[test]
fn unchanged_draft_gives_no_edit() {
  let original = vec![bookmark(0, "Intro", 1, 0), bookmark(1, "Two", 2, 3)];
  let draft = bookmarks_edit_draft("/x.pdf", &original, 5);
  assert_eq!(bookmark_changes_from_edit(&original, &draft, 5), Ok(None));
}

#[test]
fn edited_draft_gives_the_new_outline() {
  let original = vec![bookmark(0, "Intro", 1, 0)];
  let edited = "[[bookmark]]\nlevel = 1\npage = 2\ntitle = \"  Start \"\n\n[[bookmark]]\nlevel = 99999\npage = 5\ntitle = \"End\"\n";
  assert_eq!(
    bookmark_changes_from_edit(&original, edited, 5),
    Ok(Some(BookmarkEdit {
      bookmarks: vec![bookmark(0, "Start", 1, 1), bookmark(1, "End", 65535, 4)],
      original_count: 1,
    }))
  );
  // Deleting every block removes the outline.
  assert_eq!(
    bookmark_changes_from_edit(&original, "# nothing\n", 5),
    Ok(Some(BookmarkEdit {
      bookmarks: vec![],
      original_count: 1,
    }))
  );
}

#[test]
fn refused_drafts_say_why() {
  let original = vec![];
  let err = |text: &str| bookmark_changes_from_edit(&original, text, 3).unwrap_err();
  assert!(err("[[bookmark]\n").starts_with("bookmark draft is not valid TOML: "));
  assert_eq!(err("bookmark = 3\n"), "bookmark draft [[bookmark]] entries must be tables");
  assert_eq!(err("bookmark = [3]\n"), "[[bookmark]] entries must be tables");
  assert_eq!(
    err("[[bookmark]]\nlevel = \"1\"\npage = 1\ntitle = \"a\"\n"),
    "[[bookmark]] level must be an integer"
  );
  assert_eq!(
    err("[[bookmark]]\nlevel = 1\ntitle = \"a\"\n"),
    "[[bookmark]] page must be an integer"
  );
  assert_eq!(
    err("[[bookmark]]\nlevel = 1\npage = 1\ntitle = 2\n"),
    "[[bookmark]] title must be a string"
  );
  assert_eq!(
    err("[[bookmark]]\nlevel = 0\npage = 1\ntitle = \"a\"\n"),
    "[[bookmark]] level must be >= 1"
  );
  assert_eq!(
    err("[[bookmark]]\nlevel = 1\npage = 4\ntitle = \"a\"\n"),
    "[[bookmark]] page must be between 1 and 3"
  );
  assert_eq!(
    err("[[bookmark]]\nlevel = 1\npage = 1\ntitle = \"  \"\n"),
    "[[bookmark]] title must not be empty"
  );
}

#[test]
fn edit_counts_new_entries() {
  let edit = BookmarkEdit {
    bookmarks: vec![bookmark(0, "a", 1, 0), bookmark(1, "b", 1, 1)],
    original_count: 5,
  };
  assert_eq!(edit.new_count(), 2);
}

#[test]
fn written_outlines_read_back_unchanged() {
  let outline = vec![
    bookmark(0, "Intro", 1, 0),
    bookmark(1, "Part two  ", 2, 9),
    bookmark(2, "Appendix", 1, 3),
  ];
  let update = replace_bookmarks_in_pdftk_data(DUMP, &outline);
  assert_eq!(parse_pdftk_bookmarks(&update, 10), outline);
  let fresh = replace_bookmarks_in_pdftk_data("InfoBegin\nInfoKey: Title\n", &outline);
  assert_eq!(parse_pdftk_bookmarks(&fresh, 10), outline);
  // Dump lines ending in a carriage return keep the outline intact too.
  let crlf = replace_bookmarks_in_pdftk_data("InfoBegin\r\r\nBookmarkBegin\nBookmarkTitle: Old\nInfoKey: X\r", &outline);
  assert_eq!(parse_pdftk_bookmarks(&crlf, 10), outline);
}
