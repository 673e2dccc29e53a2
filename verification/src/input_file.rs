//! The file that an analysis works on, and the check of its signature.
use crate::text::{hex_digits, lower_hex};
use vstd::prelude::*;
use vstd::string::StringExecFns;

verus! {

/// The path of an input file and its complete content.
#[derive(Debug)]
pub struct InputFile {
    /// The path of the input file.
    pub path: String,
    /// The content of the file, from its first byte on.
    pub buffer: Vec<u8>,
}

/// Why a file is not accepted as a PDF document.
#[derive(Clone, Copy, Debug, PartialEq, Eq, Structural)]
pub enum InputFileError {
    /// The file ends before its fourth byte.
    UnexpectedEof,
    /// The first four bytes, which are not `%PDF`.
    NotPdf(u8, u8, u8, u8),
}

/// The content starts with the four bytes `%PDF`.
pub open spec fn has_pdf_signature(content: Seq<u8>) -> bool {
    &&& content.len() >= 4
    &&& content[0] == 0x25
    &&& content[1] == 0x50
    &&& content[2] == 0x44
    &&& content[3] == 0x46
}

/// Why content without the signature is rejected: it ends before its fourth
/// byte, or its first four bytes are other than `%PDF`.
pub open spec fn signature_error(content: Seq<u8>) -> InputFileError {
    if content.len() < 4 {
        InputFileError::UnexpectedEof
    } else {
        InputFileError::NotPdf(content[0], content[1], content[2], content[3])
    }
}

/// The outcome of the check of the signature: nothing to report for content
/// that starts with `%PDF`, the reason of the rejection for any other.
pub open spec fn signature_outcome(content: Seq<u8>) -> Result<(), InputFileError> {
    if has_pdf_signature(content) {
        Ok(())
    } else {
        Err(signature_error(content))
    }
}

/// Checks that the content starts with the four bytes `%PDF`.
pub fn check_signature(content: &[u8]) -> (r: Result<(), InputFileError>)
    ensures
        r == signature_outcome(content@),
{
    if content.len() < 4 {
        return Err(InputFileError::UnexpectedEof);
    }
    let b0: u8 = content[0];
    let b1: u8 = content[1];
    let b2: u8 = content[2];
    let b3: u8 = content[3];
    if b0 == 0x25 && b1 == 0x50 && b2 == 0x44 && b3 == 0x46 {
        Ok(())
    } else {
        Err(InputFileError::NotPdf(b0, b1, b2, b3))
    }
}

impl InputFileError {
    /// The words of the error: for a wrong signature the four bytes found, in
    /// lower-case hexadecimal without leading zeros, a blank between them.
    pub open spec fn message_text(self) -> Seq<char> {
        match self {
            InputFileError::UnexpectedEof => "failed to fill whole buffer"@,
            InputFileError::NotPdf(a, b, c, d) => "Not a PDF file, obtained "@ + hex_digits(
                a as nat,
            ) + " "@ + hex_digits(b as nat) + " "@ + hex_digits(c as nat) + " "@ + hex_digits(
                d as nat,
            ),
        }
    }

    /// The words of the error.
    pub fn message(&self) -> (r: String)
        ensures
            r@ == self.message_text(),
    {
        match self {
            InputFileError::UnexpectedEof => String::from_str("failed to fill whole buffer"),
            InputFileError::NotPdf(a, b, c, d) => {
                let mut r = String::from_str("Not a PDF file, obtained ");
                let first = lower_hex(*a as u64);
                r.append(first.as_str());
                r.append(" ");
                let second = lower_hex(*b as u64);
                r.append(second.as_str());
                r.append(" ");
                let third = lower_hex(*c as u64);
                r.append(third.as_str());
                r.append(" ");
                let fourth = lower_hex(*d as u64);
                r.append(fourth.as_str());
                r
            },
        }
    }
}

impl InputFile {
    /// Accepts a file whose content starts with `%PDF`. The error of a file of
    /// four bytes or more that starts otherwise holds the four bytes found.
    pub fn new(path: String, content: Vec<u8>) -> (r: Result<InputFile, InputFileError>)
        ensures
            r is Ok <==> has_pdf_signature(content@),
            r matches Ok(f) ==> f.path == path && f.buffer == content,
            r matches Err(e) ==> e == signature_error(content@),
    {
        match check_signature(content.as_slice()) {
            Ok(_) => Ok(InputFile { path, buffer: content }),
            Err(e) => Err(e),
        }
    }
}

} // verus!
