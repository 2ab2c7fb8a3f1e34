use pdf_tui::pdfinfo::{fill_page_sizes, numbered_page_line, numbered_page_lines, pdfinfo_summary, PdfInfoSummary};

const INFO: &str = "Title:          Report\nPages:          12\nEncrypted:      no\nPage size:      612 x 792 pts (letter)\nPage rot:       0\n";

#[test]
fn pdfinfo_gives_the_page_count_and_default_size() {
  assert_eq!(
    pdfinfo_summary(INFO),
    Ok(PdfInfoSummary { page_count: 12, page_size_text: Some("      612 x 792 pts (letter)".to_string()) })
  );
  assert_eq!(
    pdfinfo_summary("Pages: 3\r\n"),
    Ok(PdfInfoSummary { page_count: 3, page_size_text: None })
  );
}

#[test]
fn pdfinfo_without_a_readable_page_count_is_refused() {
  assert_eq!(pdfinfo_summary("Title: x\n").unwrap_err(), "pdfinfo did not report a page count");
  assert_eq!(pdfinfo_summary("Pages: many\nPages: 3\n").unwrap_err(), "failed to parse pdfinfo Pages line");
}

#[test]
fn numbered_page_lines_give_index_and_size_text() {
  assert_eq!(numbered_page_line("Page    2 size: 595 x 842 pts (A4)"), Some((1, " 595 x 842 pts (A4)".to_string())));
  assert_eq!(numbered_page_line("Page    0 size: 595 x 842 pts"), None);
  assert_eq!(numbered_page_line("Page size:      612 x 792 pts"), None);
  assert_eq!(numbered_page_line("Pages:          12"), None);
  assert_eq!(numbered_page_line("Page    3 rot:  0"), None);
  let found = numbered_page_lines("Page    1 size: 1 x 2 pts\nPage    1 rot:  0\nPage    2 size: 3 x 4 pts\n");
  assert_eq!(found, vec![(0, " 1 x 2 pts".to_string()), (1, " 3 x 4 pts".to_string())]);
}

#[test]
fn page_sizes_start_at_the_fallback_and_take_each_known_page() {
  let sizes = fill_page_sizes(3, (595, 842), &vec![(2, (10, 20)), (7, (1, 1)), (0, (5, 6)), (2, (11, 21))]);
  assert_eq!(sizes, vec![(5, 6), (595, 842), (11, 21)]);
  assert_eq!(fill_page_sizes(0, (1, 1), &vec![(0, (2, 2))]), vec![]);
}
