use ipa::primitive::{Dictionary, PlainRef, Primitive};
use ipa::text::{ascii_to_string, is_printable_ascii, utf16_units};

#[test]
fn utf16_units_follow_the_mark() {
    assert_eq!(utf16_units(&[0xfe, 0xff, 0x00, 0x48, 0x00, 0x69]), Some(vec![0x48, 0x69]));
    assert_eq!(utf16_units(&[0xfe, 0xff, 0x20, 0x09, 0x01]), Some(vec![0x2009]));
    assert_eq!(utf16_units(&[0xfe, 0xff, 0x41]), Some(Vec::new()));
    assert_eq!(utf16_units(&[0xfe, 0xff, 0xd8, 0x34, 0xdd, 0x1e]), Some(vec![0xd834, 0xdd1e]));
}

#[test]
fn strings_without_the_mark_have_no_units() {
    assert_eq!(utf16_units(&[0xfe, 0xff]), None);
    assert_eq!(utf16_units(&[]), None);
    assert_eq!(utf16_units(b"Hello"), None);
    assert_eq!(utf16_units(&[0xff, 0xfe, 0x48, 0x00]), None);
}

#[test]
fn ascii_bytes_spell_their_text() {
    assert_eq!(ascii_to_string(b"Hello\n\t".to_vec()), Some("Hello\n\t".to_string()));
    assert_eq!(ascii_to_string(Vec::new()), Some(String::new()));
    assert_eq!(ascii_to_string(vec![0x7f, 0x00]), Some("\u{7f}\u{0}".to_string()));
    assert_eq!(ascii_to_string(vec![0x48, 0x80]), None);
    assert_eq!(ascii_to_string(vec![0xc3, 0xa9]), None);
}

#[test]
fn printable_range_ends_at_space_and_tilde() {
    assert!(is_printable_ascii(&[0x20, 0x7e]));
    assert!(!is_printable_ascii(&[0x20, 0x7e, 0x1f]));
    assert!(!is_printable_ascii(&[0x80]));
    assert!(is_printable_ascii(&[]));
}

#[test]
fn dictionary_lookup_takes_the_first_entry_with_the_key() {
    let d = Dictionary {
        entries: vec![
            ("Length".to_string(), Primitive::Integer(5)),
            ("Filter".to_string(), Primitive::Name("FlateDecode".to_string())),
            ("Filter".to_string(), Primitive::Null),
        ],
    };
    assert!(matches!(d.get("Filter"), Some(Primitive::Name(n)) if n == "FlateDecode"));
    assert!(matches!(d.get("Length"), Some(Primitive::Integer(5))));
    assert!(d.get("filter").is_none());
    assert!(d.get("").is_none());
    assert!(Dictionary { entries: Vec::new() }.get("Filter").is_none());
}

#[test]
fn kinds_are_named() {
    assert_eq!(Primitive::Null.get_debug_name(), "Null");
    assert_eq!(Primitive::Integer(0).get_debug_name(), "Integer");
    assert_eq!(Primitive::Number(0).get_debug_name(), "Number");
    assert_eq!(Primitive::Boolean(false).get_debug_name(), "Boolean");
    assert_eq!(Primitive::String(Vec::new()).get_debug_name(), "String");
    assert_eq!(Primitive::Array(Vec::new()).get_debug_name(), "Array");
    assert_eq!(
        Primitive::Dictionary(Dictionary { entries: Vec::new() }).get_debug_name(),
        "Dictionary"
    );
    assert_eq!(Primitive::Reference(PlainRef { id: 1, gen: 0 }).get_debug_name(), "Reference");
    assert_eq!(Primitive::Name(String::new()).get_debug_name(), "Name");
}
