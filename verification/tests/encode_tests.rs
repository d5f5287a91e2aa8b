use multipart::boundary::random_alphanumeric;
use multipart::encode::{multipart_mime, text_part, BodyChunk};
use multipart::fields::{filename_of, Multipart};

/// Lays the plan out as one string, substituting the given file contents
/// for the file markers.
fn assemble(chunks: Vec<BodyChunk>, files: &[&str]) -> String {
    let mut out = String::new();
    for c in chunks {
        match c {
            BodyChunk::Text(s) => out.push_str(&s),
            BodyChunk::File(k) => out.push_str(files[k]),
        }
    }
    out
}

fn is_lower_alnum(c: char) -> bool {
    c.is_ascii_lowercase() || c.is_ascii_digit()
}

#[test]
fn example_text_and_file_body() {
    let mut mp = Multipart::new();
    mp.add_text("field1", "value1");
    mp.add_file("file1", "a.txt");
    let b = mp.boundary().to_string();
    assert_eq!(b.len(), 8);
    let body = assemble(mp.body_chunks(), &["hello"]);
    let expected = format!(
        "--{b}\r\nContent-Disposition: form-data; name=\"field1\"\r\n\r\nvalue1\r\n--{b}\r\nContent-Disposition: form-data; name=\"file1\"; filename=\"a.txt\"\r\nContent-Type: text/plain\r\n\r\nhello--{b}\r\n"
    );
    assert_eq!(body, expected);
}

#[test]
fn empty_collection_is_closing_line_alone() {
    let mp = Multipart::new();
    let b = mp.boundary().to_string();
    let chunks = mp.body_chunks();
    assert_eq!(chunks.len(), 1);
    let body = assemble(chunks, &[]);
    assert_eq!(body, format!("--{b}\r\n"));
}

#[test]
fn part_count_matches_field_count() {
    let mut mp = Multipart::new();
    mp.add_text("a", "1");
    mp.add_text("b", "2");
    mp.add_file("c", "x.bin");
    let b = mp.boundary().to_string();
    let body = assemble(mp.body_chunks(), &["data"]);
    let delim = format!("--{b}\r\n");
    assert_eq!(body.matches(&delim).count(), 4);
    assert!(body.starts_with(&delim));
    assert!(body.ends_with(&delim));
}

#[test]
fn fields_keep_insertion_order() {
    let mut mp = Multipart::new();
    mp.add_text("first", "1");
    mp.add_file("second", "s.txt");
    mp.add_text("third", "3");
    let body = assemble(mp.body_chunks(), &["file content"]);
    let p1 = body.find("name=\"first\"").unwrap();
    let p2 = body.find("name=\"second\"").unwrap();
    let p3 = body.find("name=\"third\"").unwrap();
    assert!(p1 < p2 && p2 < p3);
}

#[test]
fn text_part_has_no_content_type() {
    let part = text_part("n", "v");
    assert_eq!(part, "Content-Disposition: form-data; name=\"n\"\r\n\r\nv\r\n");
    assert!(!part.contains("Content-Type"));
}

#[test]
fn file_without_filename_omits_fragment() {
    let mut mp = Multipart::new();
    mp.add_file("f", "dir/");
    let body = assemble(mp.body_chunks(), &[""]);
    assert!(!body.contains("filename="));
    assert!(body.contains("Content-Disposition: form-data; name=\"f\"\r\n"));
    assert!(body.contains("Content-Type: application/octet-stream\r\n\r\n"));
}

#[test]
fn file_with_filename_keeps_both_lines() {
    let mut mp = Multipart::new();
    mp.add_file("pic", "photos/cat.png");
    let body = assemble(mp.body_chunks(), &["png bytes"]);
    assert!(body.contains(
        "Content-Disposition: form-data; name=\"pic\"; filename=\"cat.png\"\r\nContent-Type: image/png\r\n\r\n"
    ));
}

#[test]
fn unknown_extension_falls_back_to_octet_stream() {
    let mut mp = Multipart::new();
    mp.add_file("f", "blob.nosuchext");
    let body = assemble(mp.body_chunks(), &[""]);
    assert!(body.contains("Content-Type: application/octet-stream\r\n\r\n"));
}

#[test]
fn content_type_header_value() {
    assert_eq!(multipart_mime("abc123"), "multipart/form-data; boundary=abc123");
}

#[test]
fn header_token_matches_body_delimiters() {
    let mut mp = Multipart::new();
    mp.add_text("x", "y");
    mp.add_file("z", "z.txt");
    let header = multipart_mime(mp.boundary());
    let token = header.strip_prefix("multipart/form-data; boundary=").unwrap().to_string();
    let chunks = mp.body_chunks();
    let mut delimiters = 0;
    for c in &chunks {
        if let BodyChunk::Text(s) = c {
            if s.starts_with("--") {
                assert_eq!(*s, format!("--{token}\r\n"));
                delimiters += 1;
            }
        }
    }
    assert_eq!(delimiters, 3);
}

#[test]
fn boundary_is_eight_lowercase_alphanumerics() {
    let mp = Multipart::new();
    let b = mp.boundary();
    assert_eq!(b.len(), 8);
    assert!(b.chars().all(is_lower_alnum));
}

#[test]
fn random_alphanumeric_length_and_alphabet() {
    assert_eq!(random_alphanumeric(0), "");
    let s = random_alphanumeric(20);
    assert_eq!(s.chars().count(), 20);
    assert!(s.chars().all(is_lower_alnum));
}

#[test]
fn filename_extraction_cases() {
    assert_eq!(filename_of("a/b/c.txt"), Some("c.txt".to_string()));
    assert_eq!(filename_of("file.txt"), Some("file.txt".to_string()));
    assert_eq!(filename_of("dir/"), None);
    assert_eq!(filename_of(""), None);
}

#[test]
fn duplicate_names_make_duplicate_parts() {
    let mut mp = Multipart::new();
    mp.add_text("same", "1");
    mp.add_text("same", "2");
    let body = assemble(mp.body_chunks(), &[]);
    assert_eq!(body.matches("name=\"same\"").count(), 2);
}

#[test]
fn names_and_values_are_verbatim() {
    let mut mp = Multipart::new();
    mp.add_text("we\"ird", "line1\r\nline2");
    let body = assemble(mp.body_chunks(), &[]);
    assert!(body.contains("Content-Disposition: form-data; name=\"we\"ird\"\r\n\r\nline1\r\nline2\r\n"));
}

#[test]
fn file_content_is_not_followed_by_crlf() {
    let mut mp = Multipart::new();
    mp.add_file("f", "raw.bin");
    let b = mp.boundary().to_string();
    let body = assemble(mp.body_chunks(), &["RAW"]);
    assert!(body.contains(&format!("RAW--{b}\r\n")));
}
