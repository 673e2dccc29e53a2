use flate2::write::ZlibEncoder;
use flate2::Compression;
use ipa::objects::collector::{FileContent, SingleObjectExtended};
use ipa::objects::stream_parser::StreamParser;
use ipa::primitive::{Dictionary, PdfStream, PlainRef, Primitive};
use std::io::Write;

fn zlib(data: &[u8], level: Compression) -> Vec<u8> {
    let mut encoder = ZlibEncoder::new(Vec::new(), level);
    encoder.write_all(data).unwrap();
    encoder.finish().unwrap()
}

fn stream_object(id: u64, filter: Option<Primitive>, data: Vec<u8>) -> SingleObjectExtended {
    let mut entries = vec![("Length".to_string(), Primitive::Integer(data.len() as i32))];
    if let Some(f) = filter {
        entries.push(("Filter".to_string(), f));
    }
    SingleObjectExtended::new(
        id,
        format!("{} – Stream", id),
        PlainRef { id, gen: 0 },
        Primitive::Stream(PdfStream { info: Dictionary { entries }, data }),
    )
}

fn flate() -> Option<Primitive> {
    Some(Primitive::Name("FlateDecode".to_string()))
}

fn classify_one(object: SingleObjectExtended) -> SingleObjectExtended {
    let mut out = StreamParser::parse(vec![object]);
    assert_eq!(out.len(), 1);
    out.pop().unwrap()
}

#[test]
fn raw_hello_is_ascii_text() {
    match StreamParser::identify_data_on_buffer(b"Hello") {
        FileContent::TextASCII(bytes, text) => {
            assert_eq!(bytes, b"Hello".to_vec());
            assert_eq!(text, "Hello");
        }
        other => panic!("expected text, got {:?}", other),
    }
}

#[test]
fn unfiltered_stream_hello_is_ascii_text() {
    let out = classify_one(stream_object(1, None, b"Hello".to_vec()));
    assert_eq!(out.raw_buffer, Some(b"Hello".to_vec()));
    assert!(matches!(
        out.file_content,
        Some(FileContent::TextASCII(ref b, ref t)) if b == b"Hello" && t == "Hello"
    ));
}

#[test]
fn short_buffers_are_unknown() {
    assert!(matches!(
        StreamParser::identify_data_on_buffer(&[]),
        FileContent::Unknown(ref b) if b.is_empty()
    ));
    assert!(matches!(
        StreamParser::identify_data_on_buffer(b"q"),
        FileContent::Unknown(ref b) if b == b"q"
    ));
    assert!(matches!(
        StreamParser::identify_data_on_buffer(b"A"),
        FileContent::Unknown(ref b) if b == b"A"
    ));
}

#[test]
fn leading_q_marks_graphics_state() {
    assert!(matches!(
        StreamParser::identify_data_on_buffer(b"q\n1 0 0 1 0 0 cm"),
        FileContent::GraphicState(ref b) if b == b"q\n1 0 0 1 0 0 cm"
    ));
    assert!(matches!(
        StreamParser::identify_data_on_buffer(&[113, 0xff]),
        FileContent::GraphicState(ref b) if b == &vec![113, 0xff]
    ));
}

#[test]
fn bytes_outside_printable_ascii_are_unknown() {
    assert!(matches!(
        StreamParser::identify_data_on_buffer(&[0x41, 0x80]),
        FileContent::Unknown(ref b) if b == &vec![0x41, 0x80]
    ));
    assert!(matches!(
        StreamParser::identify_data_on_buffer(b"line\nbreak"),
        FileContent::Unknown(_)
    ));
    assert!(matches!(
        StreamParser::identify_data_on_buffer(&[0x41, 0x7f]),
        FileContent::Unknown(_)
    ));
    assert!(matches!(
        StreamParser::identify_data_on_buffer(b" ~"),
        FileContent::TextASCII(_, ref t) if t == " ~"
    ));
}

#[test]
fn is_ascii_accepts_printable_bytes_only() {
    assert!(StreamParser::is_ascii(b""));
    assert!(StreamParser::is_ascii(b"Hello, world ~"));
    assert!(!StreamParser::is_ascii(&[0x1f]));
    assert!(!StreamParser::is_ascii(&[0x7f]));
    assert!(!StreamParser::is_ascii(&[0x48, 0xc3, 0xa9]));
}

#[test]
fn compressed_graphics_content_is_inflated_then_classified() {
    let plain = b"q 1 0 0 1 0 0 cm Q".to_vec();
    let packed = zlib(&plain, Compression::default());
    assert_eq!(&packed[..2], &[0x78, 0x9c]);
    let out = classify_one(stream_object(3, flate(), packed.clone()));
    assert_eq!(out.raw_buffer, Some(packed));
    assert!(matches!(
        out.file_content,
        Some(FileContent::GraphicState(ref b)) if b == &plain
    ));
}

#[test]
fn compressed_single_q_is_inflated_to_one_byte() {
    let packed = zlib(b"q", Compression::default());
    let decoded =
        StreamParser::decompress_buffer(&Primitive::Name("FlateDecode".to_string()), &packed);
    assert_eq!(decoded, b"q".to_vec());
    let out = classify_one(stream_object(3, flate(), packed.clone()));
    assert_eq!(out.raw_buffer, Some(packed));
    assert!(matches!(
        out.file_content,
        Some(FileContent::Unknown(ref b)) if b == b"q"
    ));
}

#[test]
fn best_compression_header_is_recognised() {
    let plain = b"Some text that is long enough to compress, compress, compress".to_vec();
    let packed = zlib(&plain, Compression::best());
    assert_eq!(&packed[..2], &[0x78, 0xda]);
    let out = classify_one(stream_object(3, flate(), packed));
    assert!(matches!(
        out.file_content,
        Some(FileContent::TextASCII(ref b, _)) if b == &plain
    ));
}

#[test]
fn missing_zlib_header_skips_inflating() {
    let packed = zlib(b"Hello", Compression::fast());
    assert_eq!(&packed[..2], &[0x78, 0x01]);
    let name = Primitive::Name("FlateDecode".to_string());
    assert!(!StreamParser::attempts_inflate(&name, &packed));
    assert_eq!(StreamParser::decompress_buffer(&name, &packed), packed);
    assert!(!StreamParser::attempts_inflate(&name, &[0x78]));
    assert!(!StreamParser::attempts_inflate(&name, &[]));
    assert!(StreamParser::attempts_inflate(&name, &[0x78, 0x9c]));
    assert!(StreamParser::attempts_inflate(&name, &[0x78, 0xda, 0x00]));
}

#[test]
fn unsupported_filter_passes_bytes_through() {
    let data = vec![0x78, 0x9c, 0x01, 0x02];
    let name = Primitive::Name("DCTDecode".to_string());
    assert!(!StreamParser::attempts_inflate(&name, &data));
    assert_eq!(StreamParser::decompress_buffer(&name, &data), data);
    let list = Primitive::Array(vec![Primitive::Name("FlateDecode".to_string())]);
    assert!(!StreamParser::attempts_inflate(&list, &data));
    assert_eq!(StreamParser::decompress_buffer(&list, &data), data);
}

#[test]
fn malformed_zlib_body_falls_back_to_stored_bytes() {
    let data = vec![0x78, 0x9c, 0xff, 0xff, 0xff, 0xff];
    let out = classify_one(stream_object(5, flate(), data.clone()));
    assert_eq!(out.raw_buffer, Some(data.clone()));
    assert!(matches!(
        out.file_content,
        Some(FileContent::Unknown(ref b)) if b == &data
    ));
}

#[test]
fn payload_after_inflate_prefers_inflated_data() {
    assert_eq!(StreamParser::payload_after_inflate(b"raw", Some(b"data".to_vec())), b"data".to_vec());
    assert_eq!(StreamParser::payload_after_inflate(b"raw", Some(Vec::new())), Vec::<u8>::new());
    assert_eq!(StreamParser::payload_after_inflate(b"raw", None), b"raw".to_vec());
}

#[test]
fn non_stream_objects_stay_unclassified() {
    let dictionary = SingleObjectExtended::new(
        1,
        "1 – Dictionary".to_string(),
        PlainRef { id: 1, gen: 0 },
        Primitive::Dictionary(Dictionary {
            entries: vec![("Filter".to_string(), Primitive::Name("FlateDecode".to_string()))],
        }),
    );
    let number = SingleObjectExtended::new(
        2,
        "2 – Integer".to_string(),
        PlainRef { id: 2, gen: 0 },
        Primitive::Integer(7),
    );
    let out = StreamParser::parse(vec![dictionary, stream_object(4, None, b"Hi".to_vec()), number]);
    assert_eq!(out.len(), 3);
    assert!(out[0].file_content.is_none());
    assert!(out[0].raw_buffer.is_none());
    assert!(out[2].file_content.is_none());
    assert!(out[2].raw_buffer.is_none());
    assert!(out[1].file_content.is_some());
    assert_eq!(out[0].id, 1);
    assert_eq!(out[1].id, 4);
    assert_eq!(out[2].id, 2);
}
