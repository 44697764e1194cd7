//! Text and hexadecimal payload encodings.
use vstd::prelude::*;
use vstd::slice::{slice_subrange, slice_to_vec};
use vstd::string::StringSliceAdditionalSpecFns;
use vstd::utf8::*;

use crate::model::config::PayloadEncoding;
use crate::model::error::{DetailValue, DetailView, DomainError, ErrorCategory, ErrorCode, error_text, plain_error};
use crate::model::limits::ABS_MAX_TOTAL_BUFFER_BYTES;
use crate::util::text::{ascii_lower, lower_char, string_from_utf8, string_from_utf8_lossy, string_push, utf8_lossy};

verus! {

/// Lower-case hexadecimal digits, indexed by nibble value.
pub const HEX_DIGITS: [char; 16] = [
    '0', '1', '2', '3', '4', '5', '6', '7', '8', '9', 'a', 'b', 'c', 'd', 'e', 'f',
];

/// Two lower-case hex digits per byte, high nibble first.
pub open spec fn hex_chars(bytes: Seq<u8>) -> Seq<char> {
    Seq::new(
        (2 * bytes.len()) as nat,
        |i: int|
            if i % 2 == 0 {
                HEX_DIGITS@[(bytes[i / 2] / 16) as int]
            } else {
                HEX_DIGITS@[(bytes[i / 2] % 16) as int]
            },
    )
}

/// An ASCII hexadecimal digit of either case.
pub open spec fn is_hex_digit(b: u8) -> bool {
    (48 <= b <= 57) || (65 <= b <= 70) || (97 <= b <= 102)
}

/// The value of an ASCII hexadecimal digit.
pub open spec fn hex_value(b: u8) -> int {
    if 48 <= b <= 57 {
        b - 48
    } else if 65 <= b <= 70 {
        b - 55
    } else {
        b - 87
    }
}

/// Well-formed hex text: an even number of hexadecimal digits.
pub open spec fn is_hex_text(s: Seq<u8>) -> bool {
    &&& s.len() % 2 == 0
    &&& forall|i: int| 0 <= i < s.len() ==> is_hex_digit(#[trigger] s[i])
}

/// The bytes denoted by well-formed hex text, two digits per byte.
pub open spec fn hex_decode(s: Seq<u8>) -> Seq<u8> {
    Seq::new(
        s.len() / 2,
        |i: int| (hex_value(s[2 * i]) * 16 + hex_value(s[2 * i + 1])) as u8,
    )
}

/// Details of a length-limit error: the field, the limit and the actual size.
pub open spec fn limit_details(field: Seq<char>, max: int, actual: int) -> Seq<(Seq<char>, DetailView)> {
    seq![
        ("field"@, DetailView::Text(field)),
        ("max"@, DetailView::Number(max)),
        ("actual"@, DetailView::Number(actual)),
    ]
}

/// `e` is the invalid-range error for `field` with the given limit and size.
pub open spec fn limit_error(e: DomainError, field: Seq<char>, max: int, actual: int) -> bool {
    &&& e.category == ErrorCategory::InvalidArgument
    &&& e.code == ErrorCode::InvalidRange
    &&& !e.retryable
    &&& e.details@ == limit_details(field, max, actual)
}

/// Outcome of decoding hex `input` into at most `max` bytes.
pub open spec fn hex_outcome(input: Seq<u8>, field: Seq<char>, max: int, r: Result<Seq<u8>, DomainError>) -> bool {
    if !is_hex_text(input) {
        r matches Err(e) && plain_error(e, ErrorCategory::InvalidArgument, ErrorCode::InvalidHex, false)
            && error_text(
            e,
            "Hex payload must contain an even number of hexadecimal characters."@,
            "Use only 0-9, a-f, A-F and provide an even character count."@,
        )
    } else if input.len() / 2 > max {
        r matches Err(e) && limit_error(e, field, max, (input.len() / 2) as int) && error_text(
            e,
            "Hex payload exceeds the hard limit."@,
            "Shorten the hex payload and retry."@,
        )
    } else {
        r == Ok::<Seq<u8>, DomainError>(hex_decode(input))
    }
}

/// Outcome of taking the bytes of a text of at most `max` bytes.
pub open spec fn text_outcome(input: Seq<u8>, field: Seq<char>, max: int, r: Result<Seq<u8>, DomainError>) -> bool {
    if input.len() > max {
        r matches Err(e) && limit_error(e, field, max, input.len() as int) && error_text(
            e,
            "Text payload exceeds the hard limit."@,
            "Shorten the text payload and retry."@,
        )
    } else {
        r == Ok::<Seq<u8>, DomainError>(input)
    }
}

pub open spec fn vec_result_view(r: Result<Vec<u8>, DomainError>) -> Result<Seq<u8>, DomainError> {
    match r {
        Ok(v) => Ok(v@),
        Err(e) => Err(e),
    }
}

/// Detail value holding a size.
pub fn number_detail(n: usize) -> (d: DetailValue)
    ensures
        d@ == DetailView::Number(n as int),
{
    DetailValue::Number(n as u64)
}

/// Detail value holding a text.
pub fn text_detail(s: &str) -> (d: DetailValue)
    ensures
        d@ == DetailView::Text(s@),
{
    DetailValue::Text(s.to_owned())
}

/// The invalid-range error for `field` with the given limit and size.
pub fn limit_exceeded(message: &str, hint: &str, field: &str, max: usize, actual: usize) -> (e: DomainError)
    ensures
        limit_error(e, field@, max as int, actual as int),
        e.message@ == message@,
        e.recovery_hint@ == hint@,
{
    let e = DomainError::invalid_argument(ErrorCode::InvalidRange, message, hint)
        .with_detail("field", text_detail(field))
        .with_detail("max", number_detail(max))
        .with_detail("actual", number_detail(actual));
    assert(e.details@ =~= limit_details(field@, max as int, actual as int));
    e
}

pub fn text_to_bytes(input: &str) -> (r: Result<Vec<u8>, DomainError>)
    ensures
        text_outcome(
            input.spec_bytes(),
            "input_string"@,
            ABS_MAX_TOTAL_BUFFER_BYTES as int,
            vec_result_view(r),
        ),
{
    text_to_bytes_with_limit(input, "input_string", ABS_MAX_TOTAL_BUFFER_BYTES)
}

/// The UTF-8 bytes of `input`, refused when they exceed `max_input_bytes`.
pub fn text_to_bytes_with_limit(input: &str, field: &str, max_input_bytes: usize) -> (r: Result<
    Vec<u8>,
    DomainError,
>)
    ensures
        text_outcome(input.spec_bytes(), field@, max_input_bytes as int, vec_result_view(r)),
{
    let raw = input.as_bytes();
    if raw.len() > max_input_bytes {
        return Err(
            limit_exceeded(
                "Text payload exceeds the hard limit.",
                "Shorten the text payload and retry.",
                field,
                max_input_bytes,
                raw.len(),
            ),
        );
    }
    Ok(slice_to_vec(raw))
}

fn all_hex_digits(raw: &[u8]) -> (b: bool)
    ensures
        b <==> forall|i: int| 0 <= i < raw@.len() ==> is_hex_digit(#[trigger] raw@[i]),
{
    let n = raw.len();
    for i in 0..n
        invariant
            n == raw@.len(),
            forall|j: int| 0 <= j < i ==> is_hex_digit(#[trigger] raw@[j]),
    {
        let b = raw[i];
        if !((48 <= b && b <= 57) || (65 <= b && b <= 70) || (97 <= b && b <= 102)) {
            return false;
        }
    }
    true
}

fn hex_value_of(b: u8) -> (v: u8)
    requires
        is_hex_digit(b),
    ensures
        v as int == hex_value(b),
        v < 16,
{
    if b <= 57 {
        b - 48
    } else if b <= 70 {
        b - 55
    } else {
        b - 87
    }
}

pub fn validate_hex_input(input: &str, field: &str) -> (r: Result<usize, DomainError>)
    ensures
        match r {
            Ok(n) => is_hex_text(input.spec_bytes()) && n == input.spec_bytes().len() / 2 && n
                <= ABS_MAX_TOTAL_BUFFER_BYTES,
            Err(e) => hex_outcome(
                input.spec_bytes(),
                field@,
                ABS_MAX_TOTAL_BUFFER_BYTES as int,
                Err(e),
            ),
        },
{
    validate_hex_input_with_limit(input, field, ABS_MAX_TOTAL_BUFFER_BYTES)
}

/// Checks that `input` is well-formed hex text whose decoding fits in
/// `max_output_bytes`, and returns the decoded length.
pub fn validate_hex_input_with_limit(input: &str, field: &str, max_output_bytes: usize) -> (r:
    Result<usize, DomainError>)
    ensures
        match r {
            Ok(n) => is_hex_text(input.spec_bytes()) && n == input.spec_bytes().len() / 2 && n
                <= max_output_bytes,
            Err(e) => hex_outcome(input.spec_bytes(), field@, max_output_bytes as int, Err(e)),
        },
{
    let raw = input.as_bytes();
    let n = raw.len();
    if n % 2 != 0 || !all_hex_digits(raw) {
        return Err(
            DomainError::invalid_argument(
                ErrorCode::InvalidHex,
                "Hex payload must contain an even number of hexadecimal characters.",
                "Use only 0-9, a-f, A-F and provide an even character count.",
            ),
        );
    }
    let output_len = n / 2;
    if output_len > max_output_bytes {
        return Err(
            limit_exceeded(
                "Hex payload exceeds the hard limit.",
                "Shorten the hex payload and retry.",
                field,
                max_output_bytes,
                output_len,
            ),
        );
    }
    Ok(output_len)
}

pub fn hex_to_bytes(input: &str) -> (r: Result<Vec<u8>, DomainError>)
    ensures
        hex_outcome(input.spec_bytes(), "hex"@, ABS_MAX_TOTAL_BUFFER_BYTES as int, vec_result_view(r)),
{
    hex_to_bytes_with_limit(input, "hex", ABS_MAX_TOTAL_BUFFER_BYTES)
}

/// Decodes hex text into bytes, refusing malformed text and decodings longer
/// than `max_output_bytes`.
pub fn hex_to_bytes_with_limit(input: &str, field: &str, max_output_bytes: usize) -> (r: Result<
    Vec<u8>,
    DomainError,
>)
    ensures
        hex_outcome(input.spec_bytes(), field@, max_output_bytes as int, vec_result_view(r)),
{
    let output_len = match validate_hex_input_with_limit(input, field, max_output_bytes) {
        Ok(n) => n,
        Err(e) => return Err(e),
    };
    let raw = input.as_bytes();
    let n = raw.len();
    let ghost s = raw@;
    let mut bytes: Vec<u8> = Vec::new();
    let mut index: usize = 0;
    while index < output_len
        invariant
            s == input.spec_bytes(),
            raw@ == s,
            n == s.len(),
            is_hex_text(s),
            output_len == s.len() / 2,
            index <= output_len,
            bytes@ =~= hex_decode(s).take(index as int),
        decreases output_len - index,
    {
        let hi = hex_value_of(raw[2 * index]);
        let lo = hex_value_of(raw[2 * index + 1]);
        bytes.push(hi * 16 + lo);
        index = index + 1;
    }
    assert(bytes@ =~= hex_decode(s));
    Ok(bytes)
}

/// Lower-case hex text of `bytes`.
pub fn bytes_to_hex(bytes: &[u8]) -> (hex: String)
    ensures
        hex@ == hex_chars(bytes@),
{
    let mut out = String::new();
    let n = bytes.len();
    for i in 0..n
        invariant
            n == bytes@.len(),
            out@ =~= hex_chars(bytes@.take(i as int)),
    {
        let b = bytes[i];
        string_push(&mut out, HEX_DIGITS[(b / 16) as usize]);
        string_push(&mut out, HEX_DIGITS[(b % 16) as usize]);
        assert(out@ =~= hex_chars(bytes@.take(i + 1)));
    }
    assert(bytes@.take(n as int) =~= bytes@);
    out
}

} // verus!

verus! {

/// A bounded preview of an encoded payload.
#[derive(Debug, Clone)]
pub struct EncodingSummary {
    pub input_bytes: usize,
    pub output_bytes: usize,
    pub truncated: bool,
    pub preview: String,
    pub encoding: PayloadEncoding,
}

pub open spec fn min(a: int, b: int) -> int {
    if a <= b {
        a
    } else {
        b
    }
}

pub fn str_to_hex(input: &str) -> (r: Result<String, DomainError>)
    ensures
        match r {
            Ok(h) => input.spec_bytes().len() <= ABS_MAX_TOTAL_BUFFER_BYTES && h@ == hex_chars(
                input.spec_bytes(),
            ),
            Err(e) => input.spec_bytes().len() > ABS_MAX_TOTAL_BUFFER_BYTES && limit_error(
                e,
                "input_string"@,
                ABS_MAX_TOTAL_BUFFER_BYTES as int,
                input.spec_bytes().len() as int,
            ),
        },
{
    str_to_hex_with_limit(input, "input_string", ABS_MAX_TOTAL_BUFFER_BYTES)
}

/// Hex text of the UTF-8 bytes of `input`, refused when they exceed
/// `max_input_bytes`.
pub fn str_to_hex_with_limit(input: &str, field: &str, max_input_bytes: usize) -> (r: Result<
    String,
    DomainError,
>)
    ensures
        match r {
            Ok(h) => input.spec_bytes().len() <= max_input_bytes && h@ == hex_chars(
                input.spec_bytes(),
            ),
            Err(e) => input.spec_bytes().len() > max_input_bytes && limit_error(
                e,
                field@,
                max_input_bytes as int,
                input.spec_bytes().len() as int,
            ),
        },
{
    match text_to_bytes_with_limit(input, field, max_input_bytes) {
        Ok(bytes) => Ok(bytes_to_hex(bytes.as_slice())),
        Err(e) => Err(e),
    }
}

/// Outcome of decoding hex `input` as UTF-8 text of at most `max` bytes.
/// The message of a payload that is not UTF-8 text.
pub open spec fn utf8_failure_message() -> Seq<char> {
    "Hex payload cannot be decoded as UTF-8 text."@
}

/// The hint given with [`utf8_failure_message`].
pub open spec fn utf8_failure_hint() -> Seq<char> {
    "Use UTF-8 text or `encoding=hex` instead."@
}

pub open spec fn hex_text_outcome(
    input: Seq<u8>,
    field: Seq<char>,
    max: int,
    r: Result<Seq<char>, DomainError>,
) -> bool {
    if !is_hex_text(input) || input.len() / 2 > max {
        r matches Err(e) && hex_outcome(input, field, max, Err(e))
    } else if !valid_utf8(hex_decode(input)) {
        r matches Err(e) && plain_error(
            e,
            ErrorCategory::InvalidArgument,
            ErrorCode::TextEncodingFailed,
            false,
        ) && error_text(e, utf8_failure_message(), utf8_failure_hint())
    } else {
        r == Ok::<Seq<char>, DomainError>(decode_utf8(hex_decode(input)))
    }
}

pub open spec fn string_result_view(r: Result<String, DomainError>) -> Result<Seq<char>, DomainError> {
    match r {
        Ok(s) => Ok(s@),
        Err(e) => Err(e),
    }
}

pub fn hex_to_str(input: &str) -> (r: Result<String, DomainError>)
    ensures
        hex_text_outcome(
            input.spec_bytes(),
            "hex"@,
            ABS_MAX_TOTAL_BUFFER_BYTES as int,
            string_result_view(r),
        ),
{
    hex_to_str_with_limit(input, "hex", ABS_MAX_TOTAL_BUFFER_BYTES)
}

/// Decodes hex text and reads the bytes as UTF-8 text.
pub fn hex_to_str_with_limit(input: &str, field: &str, max_output_bytes: usize) -> (r: Result<
    String,
    DomainError,
>)
    ensures
        hex_text_outcome(input.spec_bytes(), field@, max_output_bytes as int, string_result_view(r)),
{
    match hex_to_bytes_with_limit(input, field, max_output_bytes) {
        Ok(bytes) => bytes_to_utf8_string(bytes),
        Err(e) => Err(e),
    }
}

/// The text spelled by UTF-8 `bytes`, refused when they are not valid UTF-8.
pub fn bytes_to_utf8_string(bytes: Vec<u8>) -> (r: Result<String, DomainError>)
    ensures
        match r {
            Ok(s) => valid_utf8(bytes@) && s@ == decode_utf8(bytes@),
            Err(e) => !valid_utf8(bytes@) && plain_error(
                e,
                ErrorCategory::InvalidArgument,
                ErrorCode::TextEncodingFailed,
                false,
            ) && error_text(e, utf8_failure_message(), utf8_failure_hint()),
        },
{
    match string_from_utf8(bytes) {
        Some(s) => Ok(s),
        None => Err(
            DomainError::invalid_argument(
                ErrorCode::TextEncodingFailed,
                "Hex payload cannot be decoded as UTF-8 text.",
                "Use UTF-8 text or `encoding=hex` instead.",
            ),
        ),
    }
}

/// Previews at most `max_preview_bytes` bytes of `input` as text.
pub fn summarize_text(input: &str, max_preview_bytes: usize) -> (summary: EncodingSummary)
    ensures
        summary.input_bytes == input.spec_bytes().len(),
        summary.output_bytes == input.spec_bytes().len(),
        summary.truncated == (input.spec_bytes().len() > max_preview_bytes),
        summary.preview@ == utf8_lossy(
            input.spec_bytes().take(min(input.spec_bytes().len() as int, max_preview_bytes as int)),
        ),
        valid_utf8(input.spec_bytes().take(min(input.spec_bytes().len() as int, max_preview_bytes as int)))
            ==> summary.preview@ == decode_utf8(
            input.spec_bytes().take(min(input.spec_bytes().len() as int, max_preview_bytes as int)),
        ),
        summary.encoding == PayloadEncoding::Text,
{
    let bytes = input.as_bytes();
    let n = bytes.len();
    let preview_bytes = if n < max_preview_bytes {
        n
    } else {
        max_preview_bytes
    };
    let shown = slice_subrange(bytes, 0, preview_bytes);
    assert(shown@ =~= bytes@.take(preview_bytes as int));
    EncodingSummary {
        input_bytes: n,
        output_bytes: n,
        truncated: n > preview_bytes,
        preview: string_from_utf8_lossy(shown),
        encoding: PayloadEncoding::Text,
    }
}

/// Decodes hex `input` and previews at most `max_preview_bytes` of the bytes
/// as hex.
pub fn summarize_hex(input: &str, max_preview_bytes: usize) -> (r: Result<EncodingSummary, DomainError>)
    ensures
        match r {
            Ok(summary) => {
                let decoded = hex_decode(input.spec_bytes());
                &&& hex_outcome(
                    input.spec_bytes(),
                    "hex"@,
                    ABS_MAX_TOTAL_BUFFER_BYTES as int,
                    Ok(decoded),
                )
                &&& summary.input_bytes == input.spec_bytes().len()
                &&& summary.output_bytes == decoded.len()
                &&& summary.truncated == (decoded.len() > max_preview_bytes)
                &&& summary.preview@ == hex_chars(
                    decoded.take(min(decoded.len() as int, max_preview_bytes as int)),
                )
                &&& summary.encoding == PayloadEncoding::Hex
            },
            Err(e) => hex_outcome(
                input.spec_bytes(),
                "hex"@,
                ABS_MAX_TOTAL_BUFFER_BYTES as int,
                Err(e),
            ),
        },
{
    let bytes = match hex_to_bytes(input) {
        Ok(b) => b,
        Err(e) => return Err(e),
    };
    let n = bytes.len();
    let preview_bytes = if n < max_preview_bytes {
        n
    } else {
        max_preview_bytes
    };
    let shown = slice_subrange(bytes.as_slice(), 0, preview_bytes);
    assert(shown@ =~= bytes@.take(preview_bytes as int));
    Ok(
        EncodingSummary {
            input_bytes: input.as_bytes().len(),
            output_bytes: n,
            truncated: n > preview_bytes,
            preview: bytes_to_hex(shown),
            encoding: PayloadEncoding::Hex,
        },
    )
}

proof fn lemma_hex_digit(k: int)
    requires
        0 <= k < 16,
    ensures
        '\0' <= HEX_DIGITS@[k] <= '\u{7f}',
        is_hex_digit(HEX_DIGITS@[k] as u8),
        hex_value(HEX_DIGITS@[k] as u8) == k,
{
    assert(HEX_DIGITS@ =~= seq![
        '0', '1', '2', '3', '4', '5', '6', '7', '8', '9', 'a', 'b', 'c', 'd', 'e', 'f',
    ]);
    if k == 0 {
    } else if k == 1 {
    } else if k == 2 {
    } else if k == 3 {
    } else if k == 4 {
    } else if k == 5 {
    } else if k == 6 {
    } else if k == 7 {
    } else if k == 8 {
    } else if k == 9 {
    } else if k == 10 {
    } else if k == 11 {
    } else if k == 12 {
    } else if k == 13 {
    } else if k == 14 {
    } else {
    }
}

/// Hex encoding is undone by hex decoding: the text that `bytes_to_hex`
/// produces is well-formed hex, and `hex_to_bytes` gives the bytes back.
pub proof fn hex_round_trip(bytes: Seq<u8>)
    ensures
        is_hex_text(encode_utf8(hex_chars(bytes))),
        encode_utf8(hex_chars(bytes)).len() == 2 * bytes.len(),
        hex_decode(encode_utf8(hex_chars(bytes))) == bytes,
{
    let c = hex_chars(bytes);
    assert forall|i: int| 0 <= i < c.len() implies '\0' <= #[trigger] c[i] <= '\u{7f}'
        && is_hex_digit(c[i] as u8) && hex_value(c[i] as u8) == (if i % 2 == 0 {
        bytes[i / 2] / 16
    } else {
        bytes[i / 2] % 16
    }) by {
        if i % 2 == 0 {
            lemma_hex_digit((bytes[i / 2] / 16) as int);
        } else {
            lemma_hex_digit((bytes[i / 2] % 16) as int);
        }
    }
    assert(is_ascii_chars(c));
    is_ascii_chars_encode_utf8(c);
    let e = encode_utf8(c);
    assert forall|i: int| 0 <= i < e.len() implies is_hex_digit(#[trigger] e[i]) by {
        assert(e[i] == c[i] as u8);
    }
    assert forall|i: int| 0 <= i < bytes.len() implies #[trigger] hex_decode(e)[i] == bytes[i] by {
        assert(e[2 * i] == c[2 * i] as u8);
        assert(e[2 * i + 1] == c[2 * i + 1] as u8);
    }
    assert(hex_decode(e) =~= bytes);
}

/// Text survives the trip through hex: decoding the hex of the UTF-8 bytes of
/// `text` as UTF-8 gives `text` back.
pub proof fn text_hex_round_trip(text: Seq<char>)
    ensures
        is_hex_text(encode_utf8(hex_chars(encode_utf8(text)))),
        valid_utf8(hex_decode(encode_utf8(hex_chars(encode_utf8(text))))),
        decode_utf8(hex_decode(encode_utf8(hex_chars(encode_utf8(text))))) == text,
{
    hex_round_trip(encode_utf8(text));
    encode_utf8_valid_utf8(text);
    encode_utf8_decode_utf8(text);
}


proof fn lemma_hex_digit_lower(b: u8)
    requires
        is_hex_digit(b),
    ensures
        0 <= hex_value(b) < 16,
        HEX_DIGITS@[hex_value(b)] == lower_char(b as char),
{
    assert(HEX_DIGITS@ =~= seq![
        '0', '1', '2', '3', '4', '5', '6', '7', '8', '9', 'a', 'b', 'c', 'd', 'e', 'f',
    ]);
    if b == 48u8 {
    } else if b == 49u8 {
    } else if b == 50u8 {
    } else if b == 51u8 {
    } else if b == 52u8 {
    } else if b == 53u8 {
    } else if b == 54u8 {
    } else if b == 55u8 {
    } else if b == 56u8 {
    } else if b == 57u8 {
    } else if b == 65u8 {
    } else if b == 66u8 {
    } else if b == 67u8 {
    } else if b == 68u8 {
    } else if b == 69u8 {
    } else if b == 70u8 {
    } else if b == 97u8 {
    } else if b == 98u8 {
    } else if b == 99u8 {
    } else if b == 100u8 {
    } else if b == 101u8 {
    } else if b == 102u8 {
    } else {
    }
}

/// The characters of ASCII bytes.
pub open spec fn ascii_chars(s: Seq<u8>) -> Seq<char> {
    s.map_values(|b: u8| b as char)
}

/// Decoding hex text and encoding it again gives the text in lower case.
pub proof fn hex_lower_case_round_trip(s: Seq<u8>)
    requires
        is_hex_text(s),
    ensures
        hex_chars(hex_decode(s)) == ascii_lower(ascii_chars(s)),
{
    let d = hex_decode(s);
    let h = hex_chars(d);
    let l = ascii_lower(ascii_chars(s));
    assert(h.len() == s.len());
    assert forall|i: int| 0 <= i < s.len() implies #[trigger] h[i] == l[i] by {
        let j = i / 2;
        let hi = s[2 * j];
        let lo = s[2 * j + 1];
        lemma_hex_digit_lower(hi);
        lemma_hex_digit_lower(lo);
        assert(d[j] as int == hex_value(hi) * 16 + hex_value(lo));
        assert(d[j] / 16 == hex_value(hi)) by (nonlinear_arith)
            requires
                d[j] as int == hex_value(hi) * 16 + hex_value(lo),
                0 <= hex_value(hi) < 16,
                0 <= hex_value(lo) < 16,
        ;
        assert(d[j] % 16 == hex_value(lo)) by (nonlinear_arith)
            requires
                d[j] as int == hex_value(hi) * 16 + hex_value(lo),
                0 <= hex_value(hi) < 16,
                0 <= hex_value(lo) < 16,
        ;
        if i % 2 == 0 {
            assert(i == 2 * j);
        } else {
            assert(i == 2 * j + 1);
        }
    }
    assert(h =~= l);
}

/// For ASCII text that is hex, decoding and encoding again gives the text in
/// lower case.
pub proof fn hex_text_lower_case_round_trip(t: &str)
    requires
        vstd::string::is_ascii(t),
        is_hex_text(t.spec_bytes()),
    ensures
        hex_chars(hex_decode(t.spec_bytes())) == ascii_lower(t@),
{
    hex_lower_case_round_trip(t.spec_bytes());
    vstd::string::is_ascii_spec_bytes(t);
    assert(ascii_chars(t.spec_bytes()) =~= t@);
}

/// For ASCII characters that spell hex, decoding and encoding again gives
/// them in lower case.
pub proof fn hex_chars_lower_case_round_trip(t: Seq<char>)
    requires
        is_ascii_chars(t),
        is_hex_text(encode_utf8(t)),
    ensures
        hex_chars(hex_decode(encode_utf8(t))) == ascii_lower(t),
{
    hex_lower_case_round_trip(encode_utf8(t));
    is_ascii_chars_encode_utf8(t);
    assert(ascii_chars(encode_utf8(t)) =~= t);
}

} // verus!
