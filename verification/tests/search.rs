use pdf_tui::search::{
  line_text_of, normalize_search_text, raw_word_range, search_lines, SearchHit, SearchLineText,
};
use pdf_tui::tsv::parse_tsv;

const HEADER: &str =
  "level\tpage_num\tpar_num\tblock_num\tline_num\tword_num\tleft\ttop\twidth\theight\tconf\ttext\n";

fn tsv(words: &[&str]) -> String {
  let mut body = String::from(HEADER);
  body.push_str("1\t1\t0\t0\t0\t0\t0\t0\t600\t800\t-1\t###PAGE###\n");
  for (index, word) in words.iter().enumerate() {
    let left = 10 + index * 100;
    body.push_str(&format!("5\t1\t0\t0\t0\t{index}\t{left}\t20\t90\t10\t100\t{word}\n"));
  }
  body
}

fn index_lines(body: &str) -> Vec<SearchLineText> {
  parse_tsv(body, 1).lines.iter().map(line_text_of).collect()
}

fn matched_display<'a>(lines: &'a [SearchLineText], found: &SearchHit) -> &'a str {
  &lines[found.line_index].display_text[found.display_match_start..found.display_match_end]
}

#[test]
fn match_offsets_skip_whitespace_inside_words() {
  // pdftotext can report words containing ideographic or no-break spaces.
  // The normalized haystack drops them, so offsets must be mapped back
  // per character instead of reusing raw byte positions.
  let lines = index_lines(&tsv(&["ab\u{3000}c\u{3000}1", "xyz"]));
  let found = search_lines(&lines, "1");
  assert_eq!(found.len(), 1);
  assert_eq!(matched_display(&lines, &found[0]), "1");
  let found = search_lines(&lines, "c1x");
  assert_eq!(found.len(), 1);
  assert_eq!(matched_display(&lines, &found[0]), "c\u{3000}1 x");

  let index = parse_tsv(&tsv(&["\u{3000}\u{e9}", "b"]), 1);
  let lines = index.lines.iter().map(line_text_of).collect::<Vec<_>>();
  let found = search_lines(&lines, "b");
  assert_eq!(found.len(), 1);
  assert_eq!(matched_display(&lines, &found[0]), "b");
  // The match lies in the second word, whose box starts at 110.
  assert_eq!(found[0].parts.len(), 1);
  let word = &index.lines[0].words[found[0].parts[0].word_index];
  assert!(word.left.parse::<f64>().unwrap() >= 110.0);
}

#[test]
fn search_is_case_and_space_insensitive() {
  let lines = index_lines(&tsv(&["Hello", "World"]));
  let found = search_lines(&lines, "o w");
  assert_eq!(found.len(), 1);
  assert_eq!(matched_display(&lines, &found[0]), "o W");
  assert!(search_lines(&lines, "   ").is_empty());
}

#[test]
fn matches_do_not_overlap_and_are_numbered() {
  let lines = index_lines(&tsv(&["aaaa"]));
  let found = search_lines(&lines, "aa");
  assert_eq!(found.len(), 2);
  assert_eq!(found[0].id, 0);
  assert_eq!(found[1].id, 1);
  assert_eq!((found[0].display_match_start, found[0].display_match_end), (0, 2));
  assert_eq!((found[1].display_match_start, found[1].display_match_end), (2, 4));
}

#[test]
fn words_are_grouped_into_lines_by_key() {
  let mut body = String::from(HEADER);
  body.push_str("1\t2\t0\t0\t0\t0\t0\t0\t300\t400\t-1\t###PAGE###\n");
  body.push_str("5\t2\t0\t0\t0\t0\t1\t2\t3\t4\t90\tone\n");
  body.push_str("5\t2\t0\t0\t0\t1\t5\t2\t3\t4\t90\ttwo\n");
  body.push_str("5\t2\t0\t0\t1\t0\t1\t9\t3\t4\t90\tthree\n");
  body.push_str("5\t2\t0\t0\t1\t1\t1\t9\t3\t4\t90\t  \n");
  body.push_str("short\trow\n");
  let index = parse_tsv(&body, 3);
  assert_eq!(index.page_rows.len(), 1);
  assert_eq!(index.page_rows[0].page_index, 1);
  assert_eq!(index.page_rows[0].width, "300");
  assert_eq!(index.lines.len(), 2);
  assert_eq!(index.lines[0].page_index, 1);
  assert_eq!(index.lines[0].words.len(), 2);
  assert_eq!(index.lines[0].page_size, Some(0));
  assert_eq!(index.lines[1].words[0].text, "three");
  let text = line_text_of(&index.lines[0]);
  assert_eq!(text.display_text, "one two");
  assert_eq!((text.display_spans[1].start, text.display_spans[1].end), (4, 7));
  // Pages past the last known one are clamped to it.
  let clamped = parse_tsv(&body, 1);
  assert_eq!(clamped.lines[0].page_index, 0);
}

#[test]
fn raw_ranges_skip_dropped_whitespace() {
  let word = "ab\u{3000}c".chars().collect::<Vec<_>>();
  // Normalized "abc": byte 2..3 is "c", which sits after the 3-byte space.
  assert_eq!(raw_word_range(&word, 2, 3), (5, 6));
  assert_eq!(raw_word_range(&word, 0, 0), (6, 6));
  assert_eq!(normalize_search_text(" A b\t"), vec!['a', 'b']);
}
