//! Payloads handed to the transports, and their previews.
use vstd::prelude::*;
use vstd::utf8::{decode_utf8, valid_utf8};
use vstd::slice::slice_subrange;
use vstd::string::StringSliceAdditionalSpecFns;

use crate::model::config::PayloadEncoding;
use crate::model::error::DomainError;
use crate::model::limits::ABS_MAX_TOTAL_BUFFER_BYTES;
use crate::util::encoding::{
    bytes_to_hex, hex_chars, hex_outcome, hex_to_bytes, text_outcome, text_to_bytes,
    vec_result_view,
};
use crate::util::text::{string_from_utf8_lossy, utf8_lossy};

verus! {

/// Bytes to send, with the encoding the caller wrote them in.
#[derive(Debug)]
pub struct Payload {
    pub bytes: Vec<u8>,
    pub encoding: PayloadEncoding,
}

/// `bytes`, followed by a line feed when asked for.
pub open spec fn with_line_break(bytes: Seq<u8>, append_line_break: bool) -> Seq<u8> {
    if append_line_break {
        bytes.push(10u8)
    } else {
        bytes
    }
}

/// The payload bytes an outcome of decoding leads to.
pub open spec fn payload_outcome(
    decoded: Result<Seq<u8>, DomainError>,
    encoding: PayloadEncoding,
    append_line_break: bool,
    r: Result<Payload, DomainError>,
) -> bool {
    match decoded {
        Ok(b) => r matches Ok(p) && p.bytes@ == with_line_break(b, append_line_break)
            && p.encoding == encoding,
        Err(e) => r == Err::<Payload, DomainError>(e),
    }
}

impl Payload {
    /// The UTF-8 bytes of `input`.
    pub fn from_text(input: &str, append_line_break: bool) -> (r: Result<Self, DomainError>)
        ensures
            exists|d: Result<Seq<u8>, DomainError>|
                text_outcome(input.spec_bytes(), "input_string"@, ABS_MAX_TOTAL_BUFFER_BYTES as int, d)
                    && payload_outcome(d, PayloadEncoding::Text, append_line_break, r),
    {
        let decoded = text_to_bytes(input);
        let ghost d = vec_result_view(decoded);
        match decoded {
            Ok(mut bytes) => {
                if append_line_break {
                    bytes.push(10u8);
                }
                let r = Ok(Payload { bytes, encoding: PayloadEncoding::Text });
                assert(text_outcome(input.spec_bytes(), "input_string"@, ABS_MAX_TOTAL_BUFFER_BYTES as int, d)
                    && payload_outcome(d, PayloadEncoding::Text, append_line_break, r));
                r
            },
            Err(e) => {
                let r = Err(e);
                assert(text_outcome(input.spec_bytes(), "input_string"@, ABS_MAX_TOTAL_BUFFER_BYTES as int, d)
                    && payload_outcome(d, PayloadEncoding::Text, append_line_break, r));
                r
            },
        }
    }

    /// The bytes the hex text `input` denotes.
    pub fn from_hex(input: &str, append_line_break: bool) -> (r: Result<Self, DomainError>)
        ensures
            exists|d: Result<Seq<u8>, DomainError>|
                hex_outcome(input.spec_bytes(), "hex"@, ABS_MAX_TOTAL_BUFFER_BYTES as int, d)
                    && payload_outcome(d, PayloadEncoding::Hex, append_line_break, r),
    {
        let decoded = hex_to_bytes(input);
        let ghost d = vec_result_view(decoded);
        match decoded {
            Ok(mut bytes) => {
                if append_line_break {
                    bytes.push(10u8);
                }
                let r = Ok(Payload { bytes, encoding: PayloadEncoding::Hex });
                assert(hex_outcome(input.spec_bytes(), "hex"@, ABS_MAX_TOTAL_BUFFER_BYTES as int, d)
                    && payload_outcome(d, PayloadEncoding::Hex, append_line_break, r));
                r
            },
            Err(e) => {
                let r = Err(e);
                assert(hex_outcome(input.spec_bytes(), "hex"@, ABS_MAX_TOTAL_BUFFER_BYTES as int, d)
                    && payload_outcome(d, PayloadEncoding::Hex, append_line_break, r));
                r
            },
        }
    }
}

/// A bounded preview of a payload.
#[derive(Debug, Clone)]
pub struct PayloadSummary {
    pub preview: String,
    pub preview_encoding: PayloadEncoding,
    pub payload_bytes: usize,
    pub omitted_bytes: usize,
    pub truncated: bool,
    pub datagram: bool,
}

/// The preview text of the first bytes of a payload in `encoding`.
pub open spec fn preview_text(head: Seq<u8>, encoding: PayloadEncoding) -> Seq<char> {
    match encoding {
        PayloadEncoding::Text => utf8_lossy(head),
        PayloadEncoding::Hex => hex_chars(head),
    }
}

impl PayloadSummary {
    /// Previews at most `max_preview_bytes` of `bytes` and counts the rest.
    pub fn from_bytes(
        bytes: &[u8],
        encoding: PayloadEncoding,
        max_preview_bytes: usize,
        datagram: bool,
    ) -> (s: Self)
        ensures
            ({
                let shown = if bytes@.len() < max_preview_bytes {
                    bytes@.len() as int
                } else {
                    max_preview_bytes as int
                };
                &&& s.preview@ == preview_text(bytes@.take(shown), encoding)
                &&& (encoding == PayloadEncoding::Text && valid_utf8(bytes@.take(shown))
                    ==> s.preview@ == decode_utf8(bytes@.take(shown)))
                &&& s.preview_encoding == encoding
                &&& s.payload_bytes == bytes@.len()
                &&& s.omitted_bytes == bytes@.len() - shown
                &&& s.truncated == (bytes@.len() > shown)
                &&& s.datagram == datagram
            }),
    {
        let n = bytes.len();
        let shown = if n < max_preview_bytes {
            n
        } else {
            max_preview_bytes
        };
        let head = slice_subrange(bytes, 0, shown);
        assert(head@ =~= bytes@.take(shown as int));
        let preview = match encoding {
            PayloadEncoding::Text => string_from_utf8_lossy(head),
            PayloadEncoding::Hex => bytes_to_hex(head),
        };
        PayloadSummary {
            preview,
            preview_encoding: encoding,
            payload_bytes: n,
            omitted_bytes: n - shown,
            truncated: n > shown,
            datagram,
        }
    }
}

} // verus!
