use pdf_tui::render_cache::{assemble_cache_file, decode_cache_file, decode_decompressed_cache_file, encode_cache_file};
use pdf_tui::render_cache::{
  decode_cache_header, decode_rendered_bytes, encode_cache_header, encode_rendered_bytes,
  CacheCompression, CacheExpectation, RenderedBytes,
};

fn expect(width: u16, mode: &str) -> CacheExpectation {
  CacheExpectation {
    width,
    height: 40,
    cell_pixels: Some((8, 16)),
    mode: mode.to_string(),
    image_id: Some(7),
    placement_id: None,
  }
}

fn file(header: &str, payload: &[u8]) -> Vec<u8> {
  let mut bytes = header.as_bytes().to_vec();
  bytes.extend_from_slice(payload);
  bytes
}

#[test]
fn cache_headers_are_written_in_the_current_format() {
  let header = encode_cache_header(80, 40, Some((8, 16)), "kitty", false, 1234, Some(7), None);
  assert_eq!(
    header,
    "pdf-tui-render-cache-v4\nwidth=80\nheight=40\ncell_width=8\ncell_height=16\nmode=kitty\ncompression=zstd\npayload_format=raw\nuncompressed_bytes=1234\nimage_id=7\n\n"
  );
  let framed = encode_cache_header(1, 2, None, "sixel", true, 0, None, Some(9));
  assert!(framed.contains("cell_width=0\ncell_height=0\n"));
  assert!(framed.ends_with("payload_format=framed\nuncompressed_bytes=0\nplacement_id=9\n\n"));
}

#[test]
fn a_written_header_reads_back_with_its_payload_offset() {
  let header = encode_cache_header(80, 40, Some((8, 16)), "kitty", false, 1234, Some(7), None);
  let bytes = file(&header, b"\x28\xb5\x2f\xfd");
  let read = decode_cache_header(&bytes, &expect(80, "kitty")).expect("matching header");
  assert_eq!(read.payload_offset, header.len());
  assert_eq!(read.compression, CacheCompression::Zstd);
  assert_eq!(read.payload_format, "raw");
  assert_eq!(read.uncompressed_bytes, Some(1234));
  assert_eq!(read.image_id, Some(7));
  assert_eq!(read.placement_id, None);
  assert!(!read.should_rewrite);
}

#[test]
fn cache_headers_for_another_request_are_refused() {
  let header = encode_cache_header(80, 40, Some((8, 16)), "kitty", false, 1, Some(7), None);
  let bytes = file(&header, b"x");
  assert_eq!(
    decode_cache_header(&bytes, &expect(81, "kitty")).unwrap_err(),
    "cache size mismatch: got Some(80)xSome(40), expected 81x40"
  );
  assert_eq!(
    decode_cache_header(&bytes, &expect(80, "sixel")).unwrap_err(),
    "cache mode mismatch: got Some(\"kitty\"), expected sixel"
  );
  let mut other_ids = expect(80, "kitty");
  other_ids.image_id = None;
  assert_eq!(
    decode_cache_header(&bytes, &other_ids).unwrap_err(),
    "cache image id mismatch: got Some(7), expected None"
  );
  let mut other_cells = expect(80, "kitty");
  other_cells.cell_pixels = None;
  assert_eq!(
    decode_cache_header(&bytes, &other_cells).unwrap_err(),
    "cache cell size mismatch: got Some(8)xSome(16), expected 0x0"
  );
}

#[test]
fn broken_and_legacy_cache_headers() {
  let exp = expect(80, "kitty");
  assert_eq!(decode_cache_header(b"no header here", &exp).unwrap_err(), "cache metadata header missing");
  assert_eq!(decode_cache_header(b"\n\npayload", &exp).unwrap_err(), "cache metadata magic missing");
  assert_eq!(decode_cache_header(b"other-magic\n\n", &exp).unwrap_err(), "cache metadata magic mismatch");
  assert!(decode_cache_header(b"\xff\xfe\n\n", &exp).unwrap_err().starts_with("cache metadata is not utf-8: "));
  let legacy = "pdf-tui-render-cache-v1\nwidth=80\nheight=40\ncell_width=8\ncell_height=16\nmode=kitty\nimage_id=7\npayload_format=framed\n\n";
  let read = decode_cache_header(&file(legacy, b"p"), &exp).expect("legacy header");
  assert_eq!(read.compression, CacheCompression::Uncompressed);
  assert_eq!(read.payload_format, "framed");
  assert_eq!(read.uncompressed_bytes, None);
  assert!(read.should_rewrite);
  let gzip = "pdf-tui-render-cache-v4\nwidth=80\nheight=40\ncell_width=8\ncell_height=16\nmode=kitty\nimage_id=7\ncompression=gzip\n\n";
  assert_eq!(
    decode_cache_header(&file(gzip, b""), &exp).unwrap_err(),
    "unsupported cache compression: gzip"
  );
}

#[test]
fn payloads_frame_their_refresh_sequence() {
  let raw = RenderedBytes { data: b"image".to_vec(), refresh: None };
  assert_eq!(encode_rendered_bytes(&raw), b"image".to_vec());
  assert_eq!(decode_rendered_bytes(b"image", "raw").unwrap(), raw);
  let framed = RenderedBytes { data: b"image".to_vec(), refresh: Some(b"again".to_vec()) };
  let bytes = encode_rendered_bytes(&framed);
  assert_eq!(bytes.len(), 42 + 10);
  assert!(bytes.starts_with(b"pdf-tui-rendered-bytes-v1\0"));
  assert_eq!(&bytes[26..34], &5u64.to_le_bytes());
  assert_eq!(decode_rendered_bytes(&bytes, "framed").unwrap(), framed);
  assert_eq!(
    decode_rendered_bytes(&bytes[..50], "framed").unwrap_err(),
    "framed render payload size mismatch: got 50, expected 52"
  );
  assert_eq!(
    decode_rendered_bytes(b"short", "framed").unwrap_err(),
    "framed render payload magic mismatch"
  );
}

#[test]
fn uncompressed_cache_files_decode_header_and_payload() {
  let header = "pdf-tui-render-cache-v4\nwidth=80\nheight=40\ncell_width=8\ncell_height=16\nmode=kitty\ncompression=none\npayload_format=framed\nimage_id=7\n\n";
  let payload = encode_rendered_bytes(&RenderedBytes { data: b"pic".to_vec(), refresh: Some(b"r".to_vec()) });
  let d = decode_cache_file(&file(header, &payload), &expect(80, "kitty")).expect("readable file");
  assert_eq!(d.payload.data, b"pic".to_vec());
  assert_eq!(d.payload.refresh, Some(b"r".to_vec()));
  assert_eq!(d.image_id, Some(7));
  assert_eq!(d.placement_id, None);
  // Uncompressed framed files are rewritten in the current form.
  assert!(d.should_rewrite);
  // A broken framed payload is reported.
  assert_eq!(
    decode_cache_file(&file(header, b"short"), &expect(80, "kitty")).unwrap_err(),
    "framed render payload magic mismatch"
  );
  // A header for another request is refused before the payload is read.
  assert!(decode_cache_file(&file(header, &payload), &expect(81, "kitty")).unwrap_err().starts_with("cache size mismatch"));
}

#[test]
fn compressed_cache_files_are_decompressed_and_checked() {
  let compressed = zstd::stream::encode_all(&b"image"[..], 0).expect("compressible");
  let header = encode_cache_header(80, 40, Some((8, 16)), "kitty", false, 5, Some(7), None);
  let d = decode_cache_file(&file(&header, &compressed), &expect(80, "kitty")).expect("readable file");
  assert_eq!(d.payload.data, b"image".to_vec());
  assert_eq!(d.payload.refresh, None);
  assert_eq!(d.image_id, Some(7));
  assert!(!d.should_rewrite);
  // The header's size must match what decompression gives.
  let wrong = encode_cache_header(80, 40, Some((8, 16)), "kitty", false, 4, Some(7), None);
  assert_eq!(
    decode_cache_file(&file(&wrong, &compressed), &expect(80, "kitty")).unwrap_err(),
    "cache decompressed size mismatch: got 5, expected 4"
  );
  // A payload that is not zstd data is refused.
  assert!(decode_cache_file(&file(&header, b"not zstd"), &expect(80, "kitty"))
    .unwrap_err()
    .starts_with("zstd decompression failed: "));
  // The step after decompression on its own.
  let h = decode_cache_header(&file(&wrong, b""), &expect(80, "kitty")).expect("matching header");
  assert_eq!(
    decode_decompressed_cache_file(&h, b"image").unwrap_err(),
    "cache decompressed size mismatch: got 5, expected 4"
  );
  assert_eq!(decode_decompressed_cache_file(&h, b"four").expect("right size").payload.data, b"four".to_vec());
}

#[test]
fn written_cache_files_read_back() {
  let payload = RenderedBytes { data: b"picture".to_vec(), refresh: Some(b"again".to_vec()) };
  for threads in [0, 2] {
    let bytes = encode_cache_file(&payload, 80, 40, Some((8, 16)), "kitty", Some(7), None, 3, threads).expect("compressible");
    let framed = encode_rendered_bytes(&payload);
    let header = encode_cache_header(80, 40, Some((8, 16)), "kitty", true, framed.len(), Some(7), None);
    assert!(bytes.starts_with(header.as_bytes()));
    let read = decode_cache_file(&bytes, &expect(80, "kitty")).expect("readable file");
    assert_eq!(read.payload.data, b"picture".to_vec());
    assert_eq!(read.payload.refresh, Some(b"again".to_vec()));
    assert_eq!(read.image_id, Some(7));
    assert!(!read.should_rewrite);
  }
}

#[test]
fn single_threaded_cache_files_hold_zstd_output() {
  let payload = RenderedBytes { data: b"plain".to_vec(), refresh: None };
  let bytes = encode_cache_file(&payload, 80, 40, Some((8, 16)), "kitty", Some(7), None, 5, 0).expect("compressible");
  let compressed = zstd::stream::encode_all(&b"plain"[..], 5).expect("compressible");
  let header = encode_cache_header(80, 40, Some((8, 16)), "kitty", false, 5, Some(7), None);
  let mut expected = header.as_bytes().to_vec();
  expected.extend_from_slice(&compressed);
  assert_eq!(bytes, expected);
  assert_eq!(assemble_cache_file(&payload, 80, 40, Some((8, 16)), "kitty", Some(7), None, &compressed), expected);
}
