use ipa::recovery_mode::{extract_runs, extract_strings, keywords, RecoveryMode};
use ipa::text::contains_bytes;

fn scan(bytes: &[u8]) -> RecoveryMode {
    RecoveryMode::parse("file.pdf".to_string(), bytes.to_vec())
}

#[test]
fn empty_buffer_has_no_strings_and_no_keywords() {
    assert!(extract_strings(&[]).is_empty());
    let report = scan(&[]);
    assert_eq!(report.frequencies.len(), 20);
    for entry in &report.frequencies {
        assert_eq!(entry.count, 0, "{}", entry.keyword);
    }
    assert_eq!(report.input_file.path, "file.pdf");
    assert!(report.input_file.buffer.is_empty());
}

#[test]
fn startxref_is_counted_with_the_keyword_it_contains() {
    let report = scan(b"startxref");
    assert_eq!(report.frequency_of("startxref"), Some(1));
    assert_eq!(report.frequency_of("xref"), Some(1));
    for entry in &report.frequencies {
        if entry.keyword != "startxref" && entry.keyword != "xref" {
            assert_eq!(entry.count, 0, "{}", entry.keyword);
        }
    }
}

#[test]
fn catalogue_lists_the_keywords_in_order() {
    let expected = vec![
        "obj",
        "endobj",
        "stream",
        "endstream",
        "xref",
        "trailer",
        "startxref",
        "/Page",
        "/Encrypt",
        "/ObjStm",
        "/JS",
        "/JavaScript",
        "/AA",
        "/OpenAction",
        "/AcroForm",
        "/JBIG2Decode",
        "/RichMedia",
        "/Launch",
        "/EmbeddedFile",
        "/XFA",
    ];
    assert_eq!(keywords(), expected);
    let report = scan(b"anything");
    let listed: Vec<&str> = report.frequencies.iter().map(|e| e.keyword.as_str()).collect();
    assert_eq!(listed, expected);
}

#[test]
fn strings_are_maximal_runs_of_printable_bytes() {
    let strings = extract_strings(b"\x00\x01abc\ndef \x7fg\xffhi\r\n");
    assert_eq!(strings, vec!["abc", "def ", "g", "hi"]);
    assert_eq!(extract_strings(b"tail"), vec!["tail"]);
    assert_eq!(extract_strings(b"\n\n\n"), Vec::<String>::new());
    assert_eq!(extract_strings(b" ~"), vec![" ~"]);
    assert_eq!(extract_runs(b"a\tb"), vec![b"a".to_vec(), b"b".to_vec()]);
}

#[test]
fn a_string_counts_once_however_often_the_keyword_occurs() {
    let report = scan(b"1 0 obj obj obj\n2 0 obj\nendobj\nnothing\n");
    assert_eq!(report.frequency_of("obj"), Some(3));
    assert_eq!(report.frequency_of("endobj"), Some(1));
    assert_eq!(report.frequency_of("stream"), Some(0));
}

#[test]
fn keywords_split_by_other_bytes_are_not_found() {
    let report = scan(b"/Java\x00Script /J\nS");
    assert_eq!(report.frequency_of("/JavaScript"), Some(0));
    assert_eq!(report.frequency_of("/JS"), Some(0));
    let found = scan(b"<< /JS 5 0 R /JavaScript /AA >>\n/JS\n");
    assert_eq!(found.frequency_of("/JS"), Some(2));
    assert_eq!(found.frequency_of("/JavaScript"), Some(1));
    assert_eq!(found.frequency_of("/AA"), Some(1));
}

#[test]
fn unknown_keyword_has_no_entry() {
    let report = scan(b"obj");
    assert_eq!(report.frequency_of("/Nothing"), None);
    assert_eq!(report.frequency_of(""), None);
}

#[test]
fn scan_keeps_path_and_bytes_without_signature() {
    let report = RecoveryMode::parse("x.bin".to_string(), vec![0xff, 0x00, b'o', b'b', b'j']);
    assert_eq!(report.input_file.path, "x.bin");
    assert_eq!(report.input_file.buffer, vec![0xff, 0x00, b'o', b'b', b'j']);
    assert_eq!(report.frequency_of("obj"), Some(1));
}

#[test]
fn substring_search_on_bytes() {
    assert!(contains_bytes(b"startxref", b"xref"));
    assert!(contains_bytes(b"startxref", b"start"));
    assert!(contains_bytes(b"startxref", b"startxref"));
    assert!(contains_bytes(b"abc", b""));
    assert!(contains_bytes(b"", b""));
    assert!(!contains_bytes(b"", b"a"));
    assert!(!contains_bytes(b"xre", b"xref"));
    assert!(!contains_bytes(b"xrxrexref_", b"xreff"));
    assert!(contains_bytes(b"xrxrexref_", b"xref"));
}
