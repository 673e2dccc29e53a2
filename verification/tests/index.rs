use ipa::context::CoreApp;
use ipa::heuristics::analyzer::{Analyzer, Heuristic};
use ipa::input_file::{InputFile, InputFileError};
use ipa::objects::collector::{ObjectsList, SingleObject, SingleObjectExtended};
use ipa::objects::graph::{ObjectEdge, ObjectGraph, ObjectGraphAnalysis};
use ipa::pages::PagesList;
use ipa::primitive::{Dictionary, PdfStream, PlainRef, Primitive, ScanItem};
use ipa::text::decimal;

fn object(id: u64, value: Primitive) -> ScanItem {
    ScanItem::Object(PlainRef { id, gen: 0 }, value)
}

fn empty_dictionary() -> Dictionary {
    Dictionary { entries: Vec::new() }
}

fn index_of_ids(ids: &[u64]) -> ObjectsList {
    ObjectsList::new(ids.iter().map(|id| object(*id, Primitive::Null)).collect())
}

#[test]
fn empty_enumeration_gives_empty_index() {
    let index = ObjectsList::new(Vec::new());
    assert!(index.objects.is_empty());
    assert!(index.objects_extended.is_empty());
    assert!(index.map.is_empty());
}

#[test]
fn index_is_sorted_by_id_whatever_the_order() {
    let index = index_of_ids(&[9, 2, 5, 1, 7]);
    let ids: Vec<u64> = index.objects_extended.iter().map(|o| o.id).collect();
    assert_eq!(ids, vec![1, 2, 5, 7, 9]);
    let short: Vec<u64> = index.objects.iter().map(|o| o.id).collect();
    assert_eq!(short, vec![1, 2, 5, 7, 9]);
}

#[test]
fn index_length_equals_number_of_distinct_ids() {
    let items = vec![
        object(4, Primitive::Null),
        ScanItem::Trailer(empty_dictionary()),
        object(2, Primitive::Integer(1)),
        object(8, Primitive::Boolean(true)),
        ScanItem::Trailer(empty_dictionary()),
    ];
    let index = ObjectsList::new(items);
    assert_eq!(index.objects_extended.len(), 3);
    assert_eq!(index.objects.len(), 3);
    assert_eq!(index.map.len(), 3);
}

#[test]
fn map_is_a_bijection_onto_positions() {
    let index = index_of_ids(&[30, 10, 20, 40]);
    assert_eq!(index.map.len(), index.objects_extended.len());
    for (position, entry) in index.objects_extended.iter().enumerate() {
        assert_eq!(index.map.get(&entry.id), Some(&(position as u64)));
    }
    let mut positions: Vec<u64> = index.map.values().copied().collect();
    positions.sort();
    assert_eq!(positions, vec![0, 1, 2, 3]);
}

#[test]
fn objects_of_one_number_keep_their_order_and_the_map_takes_the_last() {
    let items = vec![
        object(3, Primitive::Integer(1)),
        object(1, Primitive::Null),
        object(3, Primitive::Boolean(false)),
    ];
    let index = ObjectsList::new(items);
    let names: Vec<String> = index.objects.iter().map(|o| o.name.clone()).collect();
    assert_eq!(names, vec!["Null", "Integer", "Boolean"]);
    assert_eq!(index.map.get(&3), Some(&2));
    assert_eq!(index.map.get(&1), Some(&0));
    assert_eq!(index.map.len(), 2);
}

#[test]
fn labels_follow_the_kind_of_the_value() {
    let items = vec![
        object(12, Primitive::Dictionary(empty_dictionary())),
        object(3, Primitive::Array(Vec::new())),
        object(4, Primitive::Stream(PdfStream { info: empty_dictionary(), data: Vec::new() })),
        object(5, Primitive::String(vec![65])),
        object(6, Primitive::Integer(-4)),
        object(7, Primitive::Number(0x3fc0_0000)),
        object(8, Primitive::Reference(PlainRef { id: 1, gen: 0 })),
        object(9, Primitive::Name("Type".to_string())),
        object(10, Primitive::Boolean(true)),
        object(11, Primitive::Null),
    ];
    let index = ObjectsList::new(items);
    let names: Vec<&str> = index.objects.iter().map(|o| o.name.as_str()).collect();
    assert_eq!(
        names,
        vec![
            "Array",
            "Stream",
            "String",
            "Integer",
            "Number",
            "Reference",
            "Name",
            "Boolean",
            "Null",
            "Dictionary"
        ]
    );
    assert_eq!(index.objects_extended[0].name, "3 – Array");
    assert_eq!(index.objects_extended[9].name, "12 – Dictionary");
    assert_eq!(index.objects_extended[9].plain_ref, PlainRef { id: 12, gen: 0 });
    assert!(index.objects_extended[9].raw_buffer.is_none());
    assert!(index.objects_extended[9].file_content.is_none());
    assert!(index.objects_extended[9].references.is_empty());
}

#[test]
fn decimal_writes_numbers_without_leading_zeros() {
    assert_eq!(decimal(0), "0");
    assert_eq!(decimal(7), "7");
    assert_eq!(decimal(10), "10");
    assert_eq!(decimal(1203), "1203");
    assert_eq!(decimal(u64::MAX), "18446744073709551615");
}

#[test]
fn single_object_keeps_its_fields() {
    let o = SingleObject::new("Dictionary".to_string(), 4);
    assert_eq!(o.name, "Dictionary");
    assert_eq!(o.id, 4);
}

#[test]
fn extended_object_starts_without_payload() {
    let mut o = SingleObjectExtended::new(
        4,
        "4 – Null".to_string(),
        PlainRef { id: 4, gen: 1 },
        Primitive::Null,
    );
    assert_eq!(o.id, 4);
    assert_eq!(o.plain_ref.gen, 1);
    assert!(o.raw_buffer.is_none());
    assert!(o.file_content.is_none());
    o.insert_raw_buffer(&[1, 2, 3]);
    assert_eq!(o.raw_buffer, Some(vec![1, 2, 3]));
    assert!(o.file_content.is_none());
    o.insert_file_content(ipa::objects::collector::FileContent::Unknown(vec![9]));
    assert!(matches!(
        o.file_content,
        Some(ipa::objects::collector::FileContent::Unknown(ref b)) if b == &vec![9]
    ));
    assert_eq!(o.raw_buffer, Some(vec![1, 2, 3]));
}

#[test]
fn five_objects_with_maximum_id_seven_give_a_finding() {
    let index = index_of_ids(&[1, 2, 3, 4, 7]);
    let pages = PagesList::new(Vec::new());
    let analyzer = Analyzer::start(&index, &pages);
    assert!(!analyzer.heuristics.is_empty());
    assert_eq!(analyzer.heuristics.len(), 1);
    assert_eq!(
        analyzer.heuristics[0].explain,
        "Last object is not the one we're expecting. PDF file may be compromised"
    );
}

#[test]
fn five_objects_with_maximum_id_five_give_no_finding() {
    let index = index_of_ids(&[3, 5, 4, 1, 2]);
    let pages = PagesList::new(Vec::new());
    let analyzer = Analyzer::start(&index, &pages);
    assert!(analyzer.heuristics.is_empty());
}

#[test]
fn five_objects_with_maximum_id_four_give_a_finding() {
    let index = index_of_ids(&[3, 0, 4, 1, 2]);
    let pages = PagesList::new(Vec::new());
    let analyzer = Analyzer::start(&index, &pages);
    assert_eq!(analyzer.heuristics.len(), 1);
}

#[test]
fn only_the_last_number_is_compared_with_the_length() {
    let pages = PagesList::new(Vec::new());
    let gap_at_the_end = index_of_ids(&[1, 2, 4]);
    assert_eq!(Analyzer::start(&gap_at_the_end, &pages).heuristics.len(), 1);
    let gap_below = index_of_ids(&[0, 3, 1]);
    assert!(Analyzer::start(&gap_below, &pages).heuristics.is_empty());
    let single = index_of_ids(&[1]);
    assert!(Analyzer::start(&single, &pages).heuristics.is_empty());
    let zero = index_of_ids(&[0]);
    assert_eq!(Analyzer::start(&zero, &pages).heuristics.len(), 1);
}

#[test]
fn empty_index_gives_no_finding() {
    let index = index_of_ids(&[]);
    let pages = PagesList::new(Vec::new());
    assert!(Analyzer::start(&index, &pages).heuristics.is_empty());
    assert!(Analyzer::apply_for_objects(&index).is_empty());
    assert!(Analyzer::apply_for_pages(&pages).is_empty());
}

#[test]
fn signature_is_checked_on_the_first_four_bytes() {
    let ok = InputFile::new("a.pdf".to_string(), b"%PDF-1.7\n".to_vec());
    let file = ok.expect("a file that starts with %PDF is accepted");
    assert_eq!(file.path, "a.pdf");
    assert_eq!(file.buffer, b"%PDF-1.7\n".to_vec());

    let exact = InputFile::new("b.pdf".to_string(), vec![0x25, 0x50, 0x44, 0x46]);
    assert!(exact.is_ok());
}

#[test]
fn wrong_signature_reports_the_four_bytes_found() {
    let wrong = InputFile::new("a.txt".to_string(), b"GIF89a".to_vec());
    assert_eq!(wrong.err(), Some(InputFileError::NotPdf(0x47, 0x49, 0x46, 0x38)));
    let near = InputFile::new("a.txt".to_string(), b"%PDX".to_vec());
    assert_eq!(near.err(), Some(InputFileError::NotPdf(0x25, 0x50, 0x44, 0x58)));
}

#[test]
fn short_file_is_an_unexpected_end() {
    assert_eq!(
        InputFile::new("a".to_string(), Vec::new()).err(),
        Some(InputFileError::UnexpectedEof)
    );
    assert_eq!(
        InputFile::new("a".to_string(), b"%PD".to_vec()).err(),
        Some(InputFileError::UnexpectedEof)
    );
}

#[test]
fn object_graph_is_empty() {
    let pages = PagesList::new(vec![None, None]);
    let graph = ObjectGraphAnalysis::analyze(&pages);
    assert!(graph.vertices.is_empty());
    assert!(graph.edges.is_empty());
    let built = ObjectGraph::new(vec![1, 2], vec![ObjectEdge { src: 1, dst: 2 }]);
    assert_eq!(built.vertices, vec![1, 2]);
    assert_eq!(built.edges, vec![ObjectEdge { src: 1, dst: 2 }]);
}

#[test]
fn analysis_of_a_small_document() {
    let file = InputFile::new("doc.pdf".to_string(), b"%PDF-1.4".to_vec()).unwrap();
    let catalog = Primitive::Dictionary(Dictionary {
        entries: vec![
            ("Type".to_string(), Primitive::Name("Catalog".to_string())),
            ("Pages".to_string(), Primitive::Reference(PlainRef { id: 2, gen: 0 })),
        ],
    });
    let pages_node = Primitive::Dictionary(Dictionary {
        entries: vec![(
            "Kids".to_string(),
            Primitive::Array(vec![Primitive::Reference(PlainRef { id: 3, gen: 0 })]),
        )],
    });
    let content = Primitive::Stream(PdfStream {
        info: Dictionary {
            entries: vec![("Length".to_string(), Primitive::Integer(5))],
        },
        data: b"Hello".to_vec(),
    });
    let items = vec![
        object(3, content),
        ScanItem::Trailer(empty_dictionary()),
        object(1, catalog),
        object(2, pages_node),
    ];
    let core = CoreApp::new(file, items, vec![None]).expect("the file has the signature");
    assert_eq!(core.input_file.path, "doc.pdf");
    assert_eq!(core.objects.objects_extended.len(), 3);
    assert_eq!(core.objects.objects_extended[2].raw_buffer, Some(b"Hello".to_vec()));
    assert!(core.objects.objects_extended[0].file_content.is_none());
    assert!(core.objects.objects_extended[1].file_content.is_none());
    assert_eq!(core.object_linker.to_objects.get(&1), Some(&vec![2]));
    assert_eq!(core.object_linker.to_objects.get(&2), Some(&vec![3]));
    assert_eq!(core.object_linker.from_objects.get(&3), Some(&vec![2]));
    assert_eq!(core.object_linker.from_objects.get(&2), Some(&vec![1]));
    assert_eq!(core.object_linker.from_objects.get(&1), Some(&Vec::new()));
    assert!(core.heuristics.heuristics.is_empty());
    assert_eq!(core.pages.pages.len(), 1);
    assert_eq!(core.pages.pages[0].name, "Page 0");
    assert!(core.object_graph.vertices.is_empty());
    assert_eq!(core.gui.current_id, 0);
    assert_eq!(core.gui.current_view, ipa::views::AppView::Welcome);
}

#[test]
fn checks_run_in_the_order_given() {
    let index = index_of_ids(&[4]);
    let pages = PagesList::new(Vec::new());
    assert_eq!(
        Analyzer::registered(),
        vec![Heuristic::ObjectNumbering, Heuristic::Pages]
    );
    assert!(Analyzer::run(&Vec::new(), &index, &pages).heuristics.is_empty());
    assert!(Analyzer::run(&vec![Heuristic::Pages], &index, &pages).heuristics.is_empty());
    let twice = Analyzer::run(
        &vec![Heuristic::ObjectNumbering, Heuristic::Pages, Heuristic::ObjectNumbering],
        &index,
        &pages,
    );
    assert_eq!(twice.heuristics.len(), 2);
}

#[test]
fn content_without_signature_is_never_analysed() {
    let unchecked = InputFile { path: "a.bin".to_string(), buffer: b"GIF89a".to_vec() };
    let refused = CoreApp::new(unchecked, vec![object(1, Primitive::Null)], vec![None]);
    assert_eq!(refused.err(), Some(InputFileError::NotPdf(0x47, 0x49, 0x46, 0x38)));
    let short = InputFile { path: "a.bin".to_string(), buffer: b"%P".to_vec() };
    let refused = CoreApp::new(short, Vec::new(), Vec::new());
    assert_eq!(refused.err(), Some(InputFileError::UnexpectedEof));
    let empty = InputFile { path: "a.pdf".to_string(), buffer: b"%PDF".to_vec() };
    assert!(CoreApp::new(empty, Vec::new(), Vec::new()).is_ok());
}

#[test]
fn signature_error_names_the_bytes_in_lower_case_hex() {
    let wrong = InputFile::new("a".to_string(), b"ABCDE".to_vec()).err().unwrap();
    assert_eq!(wrong.message(), "Not a PDF file, obtained 41 42 43 44");
    assert_eq!(
        InputFileError::NotPdf(0x00, 0x0a, 0xff, 0x7f).message(),
        "Not a PDF file, obtained 0 a ff 7f"
    );
    assert_eq!(InputFileError::UnexpectedEof.message(), "failed to fill whole buffer");
}

#[test]
fn lower_hex_writes_numbers_without_leading_zeros() {
    assert_eq!(ipa::text::lower_hex(0), "0");
    assert_eq!(ipa::text::lower_hex(15), "f");
    assert_eq!(ipa::text::lower_hex(16), "10");
    assert_eq!(ipa::text::lower_hex(0xdead_beef), "deadbeef");
    assert_eq!(ipa::text::lower_hex(u64::MAX), "ffffffffffffffff");
}
