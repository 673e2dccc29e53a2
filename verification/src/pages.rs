//! The pages of a document: the operators of each page's content and the
//! text that they show.
use crate::text::{decimal, decimal_digits, digit_char, hex_digit_char};
use vstd::prelude::*;
use vstd::string::StringExecFns;
use vstd::utf8::{decode_utf8, valid_utf8};

verus! {

/// The key by which an object is a vertex of the object graph: its number.
pub type ObjectVertex = u64;

/// One element of the array of a `TextDrawAdjusted` operator.
#[derive(Debug)]
pub enum TextDrawAdjusted {
    /// A string to show: its bytes as stored.
    Text(Vec<u8>),
    /// A horizontal adjustment, held as the bit pattern of its
    /// single-precision value.
    Spacing(u32),
}

/// An operator of a content stream. Of its operands only those of the
/// operators that show text are held.
#[derive(Debug)]
pub enum Op {
    BeginMarkedContent,
    EndMarkedContent,
    MarkedContentPoint,
    Close,
    MoveTo,
    LineTo,
    CurveTo,
    Rect,
    EndPath,
    Stroke,
    FillAndStroke,
    Fill,
    Shade,
    Clip,
    Save,
    Restore,
    Transform,
    LineWidth,
    Dash,
    LineJoin,
    LineCap,
    MiterLimit,
    Flatness,
    GraphicsState,
    StrokeColor,
    FillColor,
    FillColorSpace,
    StrokeColorSpace,
    RenderingIntent,
    BeginText,
    EndText,
    CharSpacing,
    WordSpacing,
    TextScaling,
    Leading,
    TextFont,
    TextRenderMode,
    TextRise,
    MoveTextPosition,
    SetTextMatrix,
    TextNewline,
    /// Shows a string; `text` holds its bytes as stored.
    TextDraw { text: Vec<u8> },
    /// Shows strings with adjustments of the position between them.
    TextDrawAdjusted { array: Vec<TextDrawAdjusted> },
    XObject,
    InlineImage,
}

/// What the outside decoder of document strings makes of the bytes of a
/// string: the text, or nothing where the bytes are no text in an encoding
/// that it knows. Of bytes that start with the mark of UTF-16 nothing more
/// is said here; any other bytes are read as UTF-8.
pub uninterp spec fn pdf_string_text(data: Seq<u8>) -> Option<Seq<char>>;

/// One byte of a document string written out for a reader of diagnostics:
/// a quote mark after a backslash; a byte from blank to tilde as the
/// character it is; a byte up to 7 as a backslash and its digit; any other
/// as a backslash, `x` and its two hexadecimal digits in lower case.
pub open spec fn escaped_byte(b: u8) -> Seq<char> {
    if b == 0x22 {
        seq!['\\', '"']
    } else if 0x20 <= b <= 0x7e {
        seq![b as char]
    } else if b <= 7 {
        seq!['\\', digit_char(b as nat)]
    } else {
        seq!['\\', 'x', hex_digit_char((b / 16) as nat), hex_digit_char((b % 16) as nat)]
    }
}

/// The bytes written out one after the other.
pub open spec fn escaped_bytes(data: Seq<u8>) -> Seq<char>
    decreases data.len(),
{
    if data.len() == 0 {
        Seq::empty()
    } else {
        escaped_bytes(data.drop_last()) + escaped_byte(data.last())
    }
}

/// The bytes of a document string written out for a reader of diagnostics,
/// between quote marks.
pub open spec fn pdf_string_escaped(data: Seq<u8>) -> Seq<char> {
    seq!['"'] + escaped_bytes(data) + seq!['"']
}

/// The bytes start with the two bytes that mark big-endian UTF-16.
pub open spec fn starts_with_utf16_mark(data: Seq<u8>) -> bool {
    data.len() >= 2 && data[0] == 0xfe && data[1] == 0xff
}

/// `pdf::primitive::PdfString::to_string` on a string of the given bytes, the
/// error dropped. The result depends on the bytes alone. Bytes that do not
/// start with the mark of UTF-16 are read as UTF-8: the call succeeds exactly
/// if they are well-formed, and gives their decoding.
#[verifier::external_body]
fn decode_pdf_string(data: &[u8]) -> (r: Option<String>)
    ensures
        r is Some <==> pdf_string_text(data@) is Some,
        r matches Some(s) ==> pdf_string_text(data@) == Some(s@),
        !starts_with_utf16_mark(data@) ==> (r is Some <==> valid_utf8(data@)),
        !starts_with_utf16_mark(data@) ==> (r matches Some(s) ==> s@ == decode_utf8(data@)),
{
    pdf::primitive::PdfString::new(data.into()).to_string().ok()
}

/// The `Debug` rendering of a `pdf::primitive::PdfString` of the given bytes:
/// a quote mark, each byte written out as `escaped_byte` says, a quote mark.
#[verifier::external_body]
fn escape_pdf_string(data: &[u8]) -> (r: String)
    ensures
        r@ == pdf_string_escaped(data@),
{
    format!("{:?}", pdf::primitive::PdfString::new(data.into()))
}

/// The text shown for a document string. Bytes that start with the mark of
/// UTF-16 show what the outside decoder makes of them; other bytes show
/// their decoding as UTF-8 where they are well-formed. A string that cannot
/// be decoded shows its escaped bytes.
pub open spec fn shown_text(data: Seq<u8>) -> Seq<char> {
    if starts_with_utf16_mark(data) {
        match pdf_string_text(data) {
            Some(t) => t,
            None => pdf_string_escaped(data),
        }
    } else if valid_utf8(data) {
        decode_utf8(data)
    } else {
        pdf_string_escaped(data)
    }
}

/// The bit pattern is that of a single-precision number greater than zero
/// (infinity included, not-a-number excluded).
pub open spec fn is_positive_single(bits: u32) -> bool {
    0 < bits <= 0x7f80_0000
}

/// The text of one element of an adjusted text array: a string gives its
/// text; an adjustment greater than zero gives one blank, any other nothing.
pub open spec fn piece_text(piece: TextDrawAdjusted) -> Seq<char> {
    match piece {
        TextDrawAdjusted::Text(d) => shown_text(d@),
        TextDrawAdjusted::Spacing(bits) => if is_positive_single(bits) {
            seq![' ']
        } else {
            Seq::empty()
        },
    }
}

/// The text of an adjusted text array: that of its elements, in order.
pub open spec fn adjusted_text(array: Seq<TextDrawAdjusted>) -> Seq<char>
    decreases array.len(),
{
    if array.len() == 0 {
        Seq::empty()
    } else {
        adjusted_text(array.drop_last()) + piece_text(array.last())
    }
}

/// The text that one operator adds: a newline for `TextNewline`, the string
/// of `TextDraw`, the pieces of `TextDrawAdjusted`, nothing for any other.
pub open spec fn op_text(op: Op) -> Seq<char> {
    match op {
        Op::TextNewline => seq!['\n'],
        Op::TextDraw { text } => shown_text(text@),
        Op::TextDrawAdjusted { array } => adjusted_text(array@),
        _ => Seq::empty(),
    }
}

/// The text of a sequence of operators: that of each, in order.
pub open spec fn extracted_text(ops: Seq<Op>) -> Seq<char>
    decreases ops.len(),
{
    if ops.len() == 0 {
        Seq::empty()
    } else {
        extracted_text(ops.drop_last()) + op_text(ops.last())
    }
}

/// The text shown for a document string: its decoding, or its escaped bytes
/// where it cannot be decoded.
pub fn text_of_string(data: &[u8]) -> (r: String)
    ensures
        r@ == shown_text(data@),
{
    match decode_pdf_string(data) {
        Some(s) => s,
        None => escape_pdf_string(data),
    }
}

/// An operator with the name of its kind.
#[derive(Debug)]
pub struct SingleOp {
    /// The name of the operator's kind.
    pub name: String,
    /// The operator itself.
    pub operation: Op,
}

impl Op {
    /// The name of the operator's kind.
    pub open spec fn name(self) -> Seq<char> {
        match self {
            Op::BeginMarkedContent => "BeginMarkedContent"@,
            Op::EndMarkedContent => "EndMarkedContent"@,
            Op::MarkedContentPoint => "MarkedContentPoint"@,
            Op::Close => "Close"@,
            Op::MoveTo => "MoveTo"@,
            Op::LineTo => "LineTo"@,
            Op::CurveTo => "CurveTo"@,
            Op::Rect => "Rect"@,
            Op::EndPath => "EndPath"@,
            Op::Stroke => "Stroke"@,
            Op::FillAndStroke => "FillAndStroke"@,
            Op::Fill => "Fill"@,
            Op::Shade => "Shade"@,
            Op::Clip => "Clip"@,
            Op::Save => "Save"@,
            Op::Restore => "Restore"@,
            Op::Transform => "Transform"@,
            Op::LineWidth => "LineWidth"@,
            Op::Dash => "Dash"@,
            Op::LineJoin => "LineJoin"@,
            Op::LineCap => "LineCap"@,
            Op::MiterLimit => "MiterLimit"@,
            Op::Flatness => "Flatness"@,
            Op::GraphicsState => "GraphicsState"@,
            Op::StrokeColor => "StrokeColor"@,
            Op::FillColor => "FillColor"@,
            Op::FillColorSpace => "FillColorSpace"@,
            Op::StrokeColorSpace => "StrokeColorSpace"@,
            Op::RenderingIntent => "RenderingIntent"@,
            Op::BeginText => "BeginText"@,
            Op::EndText => "EndText"@,
            Op::CharSpacing => "CharSpacing"@,
            Op::WordSpacing => "WordSpacing"@,
            Op::TextScaling => "TextScaling"@,
            Op::Leading => "Leading"@,
            Op::TextFont => "TextFont"@,
            Op::TextRenderMode => "TextRenderMode"@,
            Op::TextRise => "TextRise"@,
            Op::MoveTextPosition => "MoveTextPosition"@,
            Op::SetTextMatrix => "SetTextMatrix"@,
            Op::TextNewline => "TextNewline"@,
            Op::TextDraw { .. } => "TextDraw"@,
            Op::TextDrawAdjusted { .. } => "TextDrawAdjusted"@,
            Op::XObject => "XObject"@,
            Op::InlineImage => "InlineImage"@,
        }
    }
}

impl SingleOp {
    /// The name of the operator's kind.
    pub fn get_name(operation: &Op) -> (r: String)
        ensures
            r@ == operation.name(),
    {
        let typed = match operation {
            Op::BeginMarkedContent => "BeginMarkedContent",
            Op::EndMarkedContent => "EndMarkedContent",
            Op::MarkedContentPoint => "MarkedContentPoint",
            Op::Close => "Close",
            Op::MoveTo => "MoveTo",
            Op::LineTo => "LineTo",
            Op::CurveTo => "CurveTo",
            Op::Rect => "Rect",
            Op::EndPath => "EndPath",
            Op::Stroke => "Stroke",
            Op::FillAndStroke => "FillAndStroke",
            Op::Fill => "Fill",
            Op::Shade => "Shade",
            Op::Clip => "Clip",
            Op::Save => "Save",
            Op::Restore => "Restore",
            Op::Transform => "Transform",
            Op::LineWidth => "LineWidth",
            Op::Dash => "Dash",
            Op::LineJoin => "LineJoin",
            Op::LineCap => "LineCap",
            Op::MiterLimit => "MiterLimit",
            Op::Flatness => "Flatness",
            Op::GraphicsState => "GraphicsState",
            Op::StrokeColor => "StrokeColor",
            Op::FillColor => "FillColor",
            Op::FillColorSpace => "FillColorSpace",
            Op::StrokeColorSpace => "StrokeColorSpace",
            Op::RenderingIntent => "RenderingIntent",
            Op::BeginText => "BeginText",
            Op::EndText => "EndText",
            Op::CharSpacing => "CharSpacing",
            Op::WordSpacing => "WordSpacing",
            Op::TextScaling => "TextScaling",
            Op::Leading => "Leading",
            Op::TextFont => "TextFont",
            Op::TextRenderMode => "TextRenderMode",
            Op::TextRise => "TextRise",
            Op::MoveTextPosition => "MoveTextPosition",
            Op::SetTextMatrix => "SetTextMatrix",
            Op::TextNewline => "TextNewline",
            Op::TextDraw { .. } => "TextDraw",
            Op::TextDrawAdjusted { .. } => "TextDrawAdjusted",
            Op::XObject => "XObject",
            Op::InlineImage => "InlineImage",
        };
        String::from_str(typed)
    }
}

/// The number and the label of a page.
#[derive(Debug)]
pub struct SinglePages {
    /// The number of the page, counted from zero.
    pub id: u64,
    /// The label of the page.
    pub name: String,
}

impl SinglePages {
    /// The short record of the page of the given number.
    pub fn new(id: u64, name: String) -> (r: Self)
        ensures
            r.id == id,
            r.name == name,
    {
        Self { id, name }
    }
}

/// A page with the operators of its content and the text they show.
#[derive(Debug)]
pub struct SinglePagesExtended {
    /// The number of the page, counted from zero.
    pub id: u64,
    /// The objects of the page; none are recorded.
    pub objects: Vec<u64>,
    /// The operators of the page's content, each with its name.
    pub operations: Vec<SingleOp>,
    /// The text that the operators show.
    pub text: String,
}

impl SinglePagesExtended {
    /// The operators are named one by one and keep their order.
    pub open spec fn holds(self, ops: Seq<Op>) -> bool {
        &&& self.operations@.len() == ops.len()
        &&& forall|i: int|
            0 <= i < ops.len() ==> (#[trigger] self.operations@[i]).operation == ops[i]
                && self.operations@[i].name@ == ops[i].name()
    }

    /// The page of the given number. `operations` holds the operators of the
    /// page's content, or nothing where the page has no content or its content
    /// could not be read: such a page has no operators and no text.
    pub fn new(id: u64, operations: Option<Vec<Op>>) -> (r: Self)
        ensures
            r.id == id,
            r.objects@.len() == 0,
            operations matches Some(ops) ==> r.holds(ops@) && r.text@ == extracted_text(ops@),
            operations is None ==> r.operations@.len() == 0 && r.text@.len() == 0,
    {
        match operations {
            Some(ops) => {
                let text = Self::extract_text(&ops);
                let ghost all = ops@;
                let mut named: Vec<SingleOp> = Vec::new();
                for o in it: ops
                    invariant
                        it.seq() == all,
                        named@.len() == it.index(),
                        forall|i: int|
                            0 <= i < named@.len() ==> (#[trigger] named@[i]).operation == all[i]
                                && named@[i].name@ == all[i].name(),
                {
                    let name = SingleOp::get_name(&o);
                    named.push(SingleOp { name, operation: o });
                }
                Self { id, objects: Vec::new(), operations: named, text }
            },
            None => Self { id, objects: Vec::new(), operations: Vec::new(), text: String::new() },
        }
    }

    /// The text that the operators show.
    pub fn extract_text(op: &Vec<Op>) -> (r: String)
        ensures
            r@ == extracted_text(op@),
    {
        let mut result = String::new();
        let mut i: usize = 0;
        assert(op@.take(0) =~= Seq::<Op>::empty());
        while i < op.len()
            invariant
                i <= op.len(),
                result@ == extracted_text(op@.take(i as int)),
            decreases op.len() - i,
        {
            proof {
                assert(op@.take(i + 1).drop_last() =~= op@.take(i as int));
                assert(op@.take(i + 1).last() == op@[i as int]);
                reveal_strlit("\n");
            }
            let ghost before = result@;
            match &op[i] {
                Op::TextNewline => {
                    result.append("\n");
                    assert("\n"@ =~= seq!['\n']);
                },
                Op::TextDraw { text } => {
                    let shown = text_of_string(text.as_slice());
                    result.append(shown.as_str());
                },
                Op::TextDrawAdjusted { array } => {
                    let mut k: usize = 0;
                    assert(array@.take(0) =~= Seq::<TextDrawAdjusted>::empty());
                    assert(result@ =~= before + adjusted_text(array@.take(0)));
                    while k < array.len()
                        invariant
                            k <= array.len(),
                            result@ == before + adjusted_text(array@.take(k as int)),
                        decreases array.len() - k,
                    {
                        proof {
                            assert(array@.take(k + 1).drop_last() =~= array@.take(k as int));
                            assert(array@.take(k + 1).last() == array@[k as int]);
                            reveal_strlit(" ");
                        }
                        match &array[k] {
                            TextDrawAdjusted::Text(data) => {
                                let shown = text_of_string(data.as_slice());
                                result.append(shown.as_str());
                            },
                            TextDrawAdjusted::Spacing(bits) => {
                                if 0 < *bits && *bits <= 0x7f80_0000 {
                                    result.append(" ");
                                    assert(" "@ =~= seq![' ']);
                                }
                            },
                        }
                        assert(result@ =~= before + (adjusted_text(array@.take(k as int))
                            + piece_text(array@[k as int])));
                        k += 1;
                    }
                    assert(array@.take(k as int) =~= array@);
                },
                _ => {},
            }
            assert(result@ =~= before + op_text(op@[i as int]));
            i += 1;
        }
        assert(op@.take(i as int) =~= op@);
        result
    }
}

/// The label of the page of the given number.
pub open spec fn page_label(i: nat) -> Seq<char> {
    "Page "@ + decimal_digits(i)
}

/// The pages of a document: a short record and a full record of each.
#[derive(Debug)]
pub struct PagesList {
    /// The number and label of each page.
    pub pages: Vec<SinglePages>,
    /// The operators and text of each page.
    pub extended_pages: Vec<SinglePagesExtended>,
}

impl PagesList {
    /// The records describe the pages of `contents`, in order: page `i` has
    /// number `i` and the label `Page i`.
    pub open spec fn describes(self, contents: Seq<Option<Vec<Op>>>) -> bool {
        &&& self.pages@.len() == contents.len()
        &&& self.extended_pages@.len() == contents.len()
        &&& forall|i: int|
            0 <= i < contents.len() ==> {
                &&& (#[trigger] self.pages@[i]).id == i
                &&& self.pages@[i].name@ == page_label(i as nat)
            }
        &&& forall|i: int|
            0 <= i < contents.len() ==> {
                &&& (#[trigger] self.extended_pages@[i]).id == i
                &&& self.extended_pages@[i].objects@.len() == 0
                &&& match contents[i] {
                    Some(ops) => self.extended_pages@[i].holds(ops@)
                        && self.extended_pages@[i].text@ == extracted_text(ops@),
                    None => self.extended_pages@[i].operations@.len() == 0
                        && self.extended_pages@[i].text@.len() == 0,
                }
            }
    }

    /// The pages of a document. Each element of `pages_scan` stands for one
    /// page, in order, and holds the operators of its content where they
    /// could be read.
    pub fn new(pages_scan: Vec<Option<Vec<Op>>>) -> (r: Self)
        ensures
            r.describes(pages_scan@),
    {
        let ghost all = pages_scan@;
        let mut extended_pages: Vec<SinglePagesExtended> = Vec::new();
        let mut pages: Vec<SinglePages> = Vec::new();
        let n: usize = pages_scan.len();
        let mut i: u64 = 0;
        for p in it: pages_scan
            invariant
                it.seq() == all,
                all.len() == n,
                i == it.index(),
                (Self { pages, extended_pages }).describes(all.take(it.index() as int)),
        {
            let mut name = String::from_str("Page ");
            let digits = decimal(i);
            name.append(digits.as_str());
            let b = SinglePages::new(i, name);
            let a = SinglePagesExtended::new(i, p);
            pages.push(b);
            extended_pages.push(a);
            assert(i < n);
            i = i + 1;
        }
        assert(all.take(all.len() as int) =~= all);
        Self { pages, extended_pages }
    }
}

} // verus!
