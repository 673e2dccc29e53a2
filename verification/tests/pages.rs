use ipa::context::{CoreApp, CoreGui};
use ipa::input_file::InputFile;
use ipa::lifecycle::{DocumentAction, DocumentEvent, DocumentState};
use ipa::pages::{text_of_string, Op, PagesList, SingleOp, SinglePages, SinglePagesExtended, TextDrawAdjusted};
use ipa::primitive::{PlainRef, Primitive, ScanItem};
use ipa::views::{AppView, ObjectSubView, PageSubView};

fn draw(text: &[u8]) -> Op {
    Op::TextDraw { text: text.to_vec() }
}

#[test]
fn text_draw_and_newline_are_concatenated() {
    let ops = vec![Op::BeginText, draw(b"Hello"), Op::TextNewline, draw(b"World"), Op::EndText];
    assert_eq!(SinglePagesExtended::extract_text(&ops), "Hello\nWorld");
}

#[test]
fn other_operators_add_no_text() {
    let ops = vec![Op::Save, Op::MoveTo, Op::TextRise, Op::SetTextMatrix, Op::Restore, Op::XObject];
    assert_eq!(SinglePagesExtended::extract_text(&ops), "");
    assert_eq!(SinglePagesExtended::extract_text(&Vec::new()), "");
}

#[test]
fn adjusted_text_separates_pieces() {
    let positive = 12.5f32.to_bits();
    let negative = (-120.0f32).to_bits();
    let zero = 0.0f32.to_bits();
    let ops = vec![Op::TextDrawAdjusted {
        array: vec![
            TextDrawAdjusted::Text(b"A".to_vec()),
            TextDrawAdjusted::Spacing(negative),
            TextDrawAdjusted::Text(b"B".to_vec()),
            TextDrawAdjusted::Spacing(positive),
            TextDrawAdjusted::Spacing(zero),
            TextDrawAdjusted::Text(b"C".to_vec()),
        ],
    }];
    assert_eq!(SinglePagesExtended::extract_text(&ops), "AB C");
}

#[test]
fn positive_advance_between_two_strings_gives_one_separator() {
    let ops = vec![Op::TextDrawAdjusted {
        array: vec![
            TextDrawAdjusted::Text(b"A".to_vec()),
            TextDrawAdjusted::Spacing(5.0f32.to_bits()),
            TextDrawAdjusted::Text(b"B".to_vec()),
        ],
    }];
    assert_eq!(SinglePagesExtended::extract_text(&ops), "A B");
    let joined = vec![Op::TextDrawAdjusted {
        array: vec![TextDrawAdjusted::Text(b"A".to_vec()), TextDrawAdjusted::Text(b"B".to_vec())],
    }];
    assert_eq!(SinglePagesExtended::extract_text(&joined), "AB");
}

#[test]
fn spacing_that_is_not_a_positive_number_adds_nothing() {
    let cases = vec![
        (f32::NAN.to_bits(), ""),
        ((-0.0f32).to_bits(), ""),
        (f32::NEG_INFINITY.to_bits(), ""),
        (f32::INFINITY.to_bits(), " "),
        (f32::MIN_POSITIVE.to_bits(), " "),
        (1u32, " "),
        (0x7f80_0001, ""),
    ];
    for (bits, expected) in cases {
        let ops = vec![Op::TextDrawAdjusted { array: vec![TextDrawAdjusted::Spacing(bits)] }];
        assert_eq!(SinglePagesExtended::extract_text(&ops), expected, "{:#x}", bits);
    }
}

#[test]
fn strings_are_decoded_or_escaped() {
    assert_eq!(text_of_string(b"plain"), "plain");
    assert_eq!(text_of_string(&[0xfe, 0xff, 0x00, 0x48, 0x00, 0x69]), "Hi");
    assert_eq!(text_of_string(&[0xff]), "\"\\xff\"");
    assert_eq!(text_of_string(&[0x41, 0x80, 0x22, 0x03]), "\"A\\x80\\\"\\3\"");
    assert_eq!(text_of_string(&[0xff, 0x0a, 0x7f, 0x08, 0x07, 0x20]), "\"\\xff\\x0a\\x7f\\x08\\7 \"");
    assert_eq!(text_of_string(&[]), "");
}

#[test]
fn operators_are_named_by_their_kind() {
    assert_eq!(SingleOp::get_name(&Op::BeginMarkedContent), "BeginMarkedContent");
    assert_eq!(SingleOp::get_name(&Op::FillAndStroke), "FillAndStroke");
    assert_eq!(SingleOp::get_name(&Op::TextNewline), "TextNewline");
    assert_eq!(SingleOp::get_name(&draw(b"x")), "TextDraw");
    assert_eq!(
        SingleOp::get_name(&Op::TextDrawAdjusted { array: Vec::new() }),
        "TextDrawAdjusted"
    );
    assert_eq!(SingleOp::get_name(&Op::InlineImage), "InlineImage");
    assert_eq!(SingleOp::get_name(&Op::StrokeColorSpace), "StrokeColorSpace");
}

#[test]
fn page_without_content_is_empty() {
    let page = SinglePagesExtended::new(4, None);
    assert_eq!(page.id, 4);
    assert!(page.operations.is_empty());
    assert!(page.objects.is_empty());
    assert_eq!(page.text, "");
}

#[test]
fn page_keeps_its_operators_in_order() {
    let page = SinglePagesExtended::new(2, Some(vec![Op::BeginText, draw(b"Hi"), Op::EndText]));
    let names: Vec<&str> = page.operations.iter().map(|o| o.name.as_str()).collect();
    assert_eq!(names, vec!["BeginText", "TextDraw", "EndText"]);
    assert!(matches!(page.operations[1].operation, Op::TextDraw { ref text } if text == b"Hi"));
    assert_eq!(page.text, "Hi");
    assert_eq!(page.id, 2);
}

#[test]
fn pages_are_numbered_from_zero() {
    let pages = PagesList::new(vec![Some(vec![draw(b"one")]), None, Some(Vec::new())]);
    assert_eq!(pages.pages.len(), 3);
    assert_eq!(pages.extended_pages.len(), 3);
    let names: Vec<&str> = pages.pages.iter().map(|p| p.name.as_str()).collect();
    assert_eq!(names, vec!["Page 0", "Page 1", "Page 2"]);
    let ids: Vec<u64> = pages.extended_pages.iter().map(|p| p.id).collect();
    assert_eq!(ids, vec![0, 1, 2]);
    assert_eq!(pages.pages[2].id, 2);
    assert_eq!(pages.extended_pages[0].text, "one");
    assert_eq!(pages.extended_pages[1].text, "");
    let single = SinglePages::new(11, "Page 11".to_string());
    assert_eq!(single.id, 11);
    assert_eq!(single.name, "Page 11");
}

#[test]
fn gui_state_starts_on_decoded_page_view() {
    let gui = CoreGui::new(3, AppView::Summary, ObjectSubView::Content);
    assert_eq!(gui.current_id, 3);
    assert_eq!(gui.current_view, AppView::Summary);
    assert_eq!(gui.subcurrent_obj_view, ObjectSubView::Content);
    assert_eq!(gui.subcurrent_page_view, PageSubView::Decoded);
    assert_eq!(AppView::default(), AppView::Welcome);
    assert_eq!(ObjectSubView::default(), ObjectSubView::Decoded);
    assert_eq!(PageSubView::default(), PageSubView::Decoded);
    assert_eq!(PageSubView::TextExtracted.label(), "Text extracted");
    assert_eq!(PageSubView::Decoded.label(), "Decoded");
    assert_eq!(PageSubView::Operations.label(), "Operations");
}

fn small_core() -> CoreApp {
    let file = InputFile::new("d.pdf".to_string(), b"%PDF".to_vec()).unwrap();
    let items = vec![
        ScanItem::Object(PlainRef { id: 20, gen: 0 }, Primitive::Null),
        ScanItem::Object(PlainRef { id: 10, gen: 0 }, Primitive::Integer(1)),
    ];
    CoreApp::new(file, items, vec![None, None, None]).unwrap()
}

#[test]
fn navigation_changes_the_view_and_the_position() {
    let mut core = small_core();
    core.switch_object(1);
    assert_eq!(core.gui.current_id, 1);
    assert_eq!(core.gui.current_view, AppView::ObjectView);
    core.switch_object(2);
    assert_eq!(core.gui.current_id, 1);
    core.switch_page(7);
    assert_eq!(core.gui.current_id, 7);
    assert_eq!(core.gui.current_view, AppView::PageView);
    core.change_view(0, false);
    assert_eq!(core.gui.current_view, AppView::PageView);
    core.change_view(0, true);
    assert_eq!(core.gui.current_view, AppView::Summary);
    core.change_view(1, true);
    assert_eq!(core.gui.current_view, AppView::Heuristics);
    core.change_view(2, true);
    assert_eq!(core.gui.current_view, AppView::Trailer);
    core.change_view(3, true);
    assert_eq!(core.gui.current_view, AppView::ObjectView);
    core.change_view(4, true);
    assert_eq!(core.gui.current_view, AppView::Welcome);
    core.switch_id(5);
    assert_eq!(core.gui.current_id, 5);
    assert_eq!(core.gui.current_view, AppView::Welcome);
}

#[test]
fn following_a_reference_shows_the_object_if_indexed() {
    let mut core = small_core();
    assert!(core.follow_reference(20));
    assert_eq!(core.gui.current_id, 1);
    assert_eq!(core.gui.current_view, AppView::ObjectView);
    assert!(core.follow_reference(10));
    assert_eq!(core.gui.current_id, 0);
    core.switch_page(2);
    assert!(!core.follow_reference(15));
    assert_eq!(core.gui.current_id, 2);
    assert_eq!(core.gui.current_view, AppView::PageView);
}

#[test]
fn document_life_cycle() {
    let s = DocumentState::new();
    assert_eq!(s, DocumentState::Unopened);
    assert_eq!(
        s.step(DocumentEvent::FileSelected),
        (DocumentState::Unopened, DocumentAction::CheckSignature)
    );
    let (opening, action) = s.step(DocumentEvent::SignatureAccepted);
    assert_eq!((opening, action), (DocumentState::Opening, DocumentAction::RunPipeline));
    assert_eq!(
        opening.step(DocumentEvent::PipelineSucceeded),
        (DocumentState::Analyzed, DocumentAction::Wait)
    );
    let (failed, _) = opening.step(DocumentEvent::PipelineFailed);
    assert_eq!(failed, DocumentState::Failed);
    assert_eq!(
        s.step(DocumentEvent::SignatureRejected),
        (DocumentState::Failed, DocumentAction::Wait)
    );
    assert_eq!(
        failed.step(DocumentEvent::RecoveryRequested),
        (DocumentState::RecoveryAnalyzed, DocumentAction::RunRecovery)
    );
    for done in [DocumentState::Analyzed, DocumentState::Failed, DocumentState::RecoveryAnalyzed] {
        assert_eq!(
            done.step(DocumentEvent::FileSelected),
            (DocumentState::Unopened, DocumentAction::CheckSignature)
        );
    }
    assert_eq!(
        DocumentState::Analyzed.step(DocumentEvent::RecoveryRequested),
        (DocumentState::Analyzed, DocumentAction::Wait)
    );
    assert_eq!(
        DocumentState::Opening.step(DocumentEvent::FileSelected),
        (DocumentState::Opening, DocumentAction::Wait)
    );
    assert_eq!(
        DocumentState::Unopened.step(DocumentEvent::PipelineSucceeded),
        (DocumentState::Unopened, DocumentAction::Wait)
    );
}
