//! Text read from the clipboard.
use vstd::prelude::*;

use crate::format::{normalize_source, source_outcome, text_outcome_matches, FormatError};

verus! {

/// Why clipboard contents were refused.
#[derive(Debug, Clone, PartialEq, Eq)]
pub enum ClipboardError {
    NotUtf8,
    Format(FormatError),
}

/// `String::from_utf8`: the bytes as text when they are valid UTF-8.
#[verifier::external_body]
fn string_from_utf8(bytes: Vec<u8>) -> (r: Option<String>)
    ensures
        r is Some <==> vstd::utf8::valid_utf8(bytes@),
        r matches Some(s) ==> s@ == vstd::utf8::decode_utf8(bytes@),
{
    match String::from_utf8(bytes) {
        Ok(s) => Some(s),
        Err(_) => None,
    }
}

/// Clipboard bytes as a selection: UTF-8 text, normalized as a selection is.
pub fn acquire_with(bytes: Vec<u8>) -> (r: Result<String, ClipboardError>)
    ensures
        !vstd::utf8::valid_utf8(bytes@) ==> r == Err::<String, ClipboardError>(ClipboardError::NotUtf8),
        vstd::utf8::valid_utf8(bytes@) ==> match source_outcome(vstd::utf8::decode_utf8(bytes@)) {
            Ok(t) => r matches Ok(s) && s@ == t,
            Err(e) => r == Err::<String, ClipboardError>(ClipboardError::Format(e)),
        },
{
    let text = match string_from_utf8(bytes) {
        Some(t) => t,
        None => {
            return Err(ClipboardError::NotUtf8);
        },
    };
    match normalize_source(text.as_str()) {
        Ok(s) => Ok(s),
        Err(e) => Err(ClipboardError::Format(e)),
    }
}

} // verus!
