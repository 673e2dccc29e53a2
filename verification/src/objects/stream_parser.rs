//! The payload of stream objects: undoing the one compression that is
//! supported, and telling what the resulting bytes are.
use crate::objects::collector::{ContentView, FileContent, SingleObjectExtended};
use crate::primitive::{PdfStream, Primitive};
use crate::text::{all_printable, ascii_chars, ascii_to_string, is_printable, is_printable_ascii};
use flate2::read::ZlibDecoder;
use std::io::Cursor;
use std::io::Read;
use vstd::prelude::*;
use vstd::slice::slice_to_vec;
use vstd::string::StringExecFns;

verus! {

/// Classifies the payloads of stream objects.
pub struct StreamParser {}

/// What inflating a zlib stream gives: the data it holds, or nothing where
/// the bytes are no well-formed zlib stream.
pub uninterp spec fn zlib_inflated(data: Seq<u8>) -> Option<Seq<u8>>;

/// `flate2::read::ZlibDecoder` over the bytes, read to its end, and the error
/// dropped. The result depends on the bytes alone.
#[verifier::external_body]
fn zlib_inflate(buffer: &[u8]) -> (r: Option<Vec<u8>>)
    ensures
        r is Some <==> zlib_inflated(buffer@) is Some,
        r matches Some(v) ==> zlib_inflated(buffer@) == Some(v@),
{
    let mut out: Vec<u8> = Vec::new();
    match ZlibDecoder::new(Cursor::new(buffer)).read_to_end(&mut out) {
        Ok(_) => Some(out),
        Err(_) => None,
    }
}

/// The bytes start with one of the two zlib headers that are recognised:
/// `78 9c` and `78 da`.
pub open spec fn has_zlib_header(buf: Seq<u8>) -> bool {
    buf.len() >= 2 && buf[0] == 0x78 && (buf[1] == 0xda || buf[1] == 0x9c)
}

/// The value is the name `FlateDecode`.
pub open spec fn is_flate_filter(filter: Primitive) -> bool {
    filter matches Primitive::Name(n) && n@ == "FlateDecode"@
}

/// Inflating is tried on a payload whose filter is `FlateDecode` and which
/// starts with a recognised zlib header.
pub open spec fn inflate_attempted(filter: Primitive, raw: Seq<u8>) -> bool {
    is_flate_filter(filter) && has_zlib_header(raw)
}

/// The payload that is classified, given what inflating gave where it was
/// tried: the inflated data; the stored bytes where inflating failed.
pub open spec fn payload_after(raw: Seq<u8>, inflated: Option<Seq<u8>>) -> Seq<u8> {
    match inflated {
        Some(d) => d,
        None => raw,
    }
}

/// The payload of a stream with the given filter, decoded as far as it can
/// be. Any other filter, a filter that is no name, a missing header and bytes
/// that do not inflate all leave the stored bytes as they are.
pub open spec fn decoded_payload(filter: Primitive, raw: Seq<u8>) -> Seq<u8> {
    if inflate_attempted(filter, raw) {
        payload_after(raw, zlib_inflated(raw))
    } else {
        raw
    }
}

/// What a payload is: `Unknown` if it has one byte or none; else
/// `GraphicState` if it starts with `q`; else `TextASCII` with its text if all
/// its bytes are printable ASCII; else `Unknown`.
pub open spec fn classification(buf: Seq<u8>) -> ContentView {
    if buf.len() <= 1 {
        ContentView::Unknown(buf)
    } else if buf[0] == 113 {
        ContentView::GraphicState(buf)
    } else if all_printable(buf) {
        ContentView::TextASCII(buf, ascii_chars(buf))
    } else {
        ContentView::Unknown(buf)
    }
}

/// The bytes of a stream that are classified: the stored payload, decoded by
/// the entry `Filter` of the stream's dictionary where it has one.
pub open spec fn stream_payload(stream: PdfStream) -> Seq<u8> {
    match stream.info.lookup("Filter"@) {
        Some(filter) => decoded_payload(filter, stream.data@),
        None => stream.data@,
    }
}

/// `after` is `before` with the payload of a stream recorded and classified;
/// an object that is no stream is left as it was.
pub open spec fn enriched(before: SingleObjectExtended, after: SingleObjectExtended) -> bool {
    match before.object_content {
        Primitive::Stream(stream) => {
            &&& after.id == before.id
            &&& after.name == before.name
            &&& after.plain_ref == before.plain_ref
            &&& after.object_content == before.object_content
            &&& after.references == before.references
            &&& after.raw_buffer matches Some(raw) && raw@ == stream.data@
            &&& after.file_content matches Some(content) && content@ == classification(
                stream_payload(stream),
            )
        },
        _ => after == before,
    }
}

impl StreamParser {
    /// Whether every byte is printable ASCII.
    pub fn is_ascii(buffer: &[u8]) -> (r: bool)
        ensures
            r == all_printable(buffer@),
    {
        is_printable_ascii(buffer)
    }

    /// Tells what a payload is, and keeps a copy of it.
    pub fn identify_data_on_buffer(buffer: &[u8]) -> (r: FileContent)
        ensures
            r@ == classification(buffer@),
    {
        if buffer.len() > 1 {
            if buffer[0] == 113 {
                FileContent::GraphicState(slice_to_vec(buffer))
            } else if Self::is_ascii(buffer) {
                assert forall|i: int| 0 <= i < buffer@.len() implies #[trigger] buffer@[i]
                    < 128 by {
                    assert(is_printable(buffer@[i]));
                }
                // Printable bytes are ASCII and so always have a text: were this
                // ever to fail, it is a fault of the program and stops it.
                match ascii_to_string(slice_to_vec(buffer)) {
                    Some(text) => FileContent::TextASCII(slice_to_vec(buffer), text),
                    None => vstd::pervasive::unreached(),
                }
            } else {
                FileContent::Unknown(slice_to_vec(buffer))
            }
        } else {
            FileContent::Unknown(slice_to_vec(buffer))
        }
    }

    /// Whether inflating is tried on a payload with the given filter.
    pub fn attempts_inflate(name: &Primitive, buffer: &[u8]) -> (r: bool)
        ensures
            r == inflate_attempted(*name, buffer@),
    {
        match name {
            Primitive::Name(filter_name) => {
                let flate = String::from_str("FlateDecode");
                if *filter_name == flate {
                    buffer.len() >= 2 && buffer[0] == 0x78 && (buffer[1] == 0xda || buffer[1] == 0x9c)
                } else {
                    false
                }
            },
            _ => false,
        }
    }

    /// The payload to classify, given what inflating gave.
    pub fn payload_after_inflate(buffer: &[u8], inflated: Option<Vec<u8>>) -> (r: Vec<u8>)
        ensures
            r@ == payload_after(
                buffer@,
                match inflated {
                    Some(d) => Some(d@),
                    None => None,
                },
            ),
    {
        match inflated {
            Some(d) => d,
            None => slice_to_vec(buffer),
        }
    }

    /// Decodes a payload by its filter as far as it can be decoded.
    pub fn decompress_buffer(name: &Primitive, buffer: &[u8]) -> (r: Vec<u8>)
        ensures
            r@ == decoded_payload(*name, buffer@),
    {
        if Self::attempts_inflate(name, buffer) {
            let inflated = zlib_inflate(buffer);
            Self::payload_after_inflate(buffer, inflated)
        } else {
            slice_to_vec(buffer)
        }
    }

    /// Records and classifies the payload of every stream among the objects.
    /// The objects keep their order; one that is no stream is not touched.
    pub fn parse(objects: Vec<SingleObjectExtended>) -> (r: Vec<SingleObjectExtended>)
        ensures
            r@.len() == objects@.len(),
            forall|i: int| 0 <= i < r@.len() ==> enriched(objects@[i], #[trigger] r@[i]),
    {
        let ghost all = objects@;
        let mut new_objects: Vec<SingleObjectExtended> = Vec::new();
        for object_ext in it: objects
            invariant
                it.seq() == all,
                new_objects@.len() == it.index(),
                forall|i: int|
                    0 <= i < new_objects@.len() ==> enriched(all[i], #[trigger] new_objects@[i]),
        {
            let mut object = object_ext;
            let ghost before = object;
            let found = match &object.object_content {
                Primitive::Stream(stream) => {
                    let raw = slice_to_vec(stream.data.as_slice());
                    let content = match stream.info.get("Filter") {
                        Some(filter_name) => {
                            let decoded = Self::decompress_buffer(
                                filter_name,
                                stream.data.as_slice(),
                            );
                            Self::identify_data_on_buffer(decoded.as_slice())
                        },
                        None => Self::identify_data_on_buffer(stream.data.as_slice()),
                    };
                    Some((raw, content))
                },
                _ => None,
            };
            match found {
                Some((raw, content)) => {
                    object.raw_buffer = Some(raw);
                    object.file_content = Some(content);
                },
                None => {},
            }
            assert(enriched(before, object));
            new_objects.push(object);
        }
        new_objects
    }
}

} // verus!
