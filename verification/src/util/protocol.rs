//! SCPI normalisation, AT command classification and SLIP framing.
use vstd::prelude::*;
use vstd::slice::slice_subrange;
use vstd::string::StringSliceAdditionalSpecFns;
use vstd::utf8::*;

use crate::model::error::{DetailView, DomainError, ErrorCategory, ErrorCode, error_text, plain_error};
use crate::model::limits::ABS_MAX_TOTAL_BUFFER_BYTES;
use crate::util::encoding::{
    bytes_to_hex, hex_chars, hex_chars_lower_case_round_trip, hex_decode, hex_outcome, hex_round_trip,
    hex_to_bytes_with_limit, is_hex_text, limit_error, limit_exceeded,
};
use crate::util::text::{ascii_lower, concat, str_trim, string_push, trim};

verus! {

#[derive(Debug, Clone, Copy, PartialEq, Eq, Structural)]
pub enum ProtocolKind {
    Scpi,
    At,
    Slip,
}

/// Normalised form of a protocol command or frame.
#[derive(Debug, Clone)]
pub struct ProtocolSummary {
    pub kind: ProtocolKind,
    pub normalized: String,
    pub response_class: Option<String>,
    pub payload_hex: Option<String>,
}

pub open spec fn opt_view(o: Option<String>) -> Option<Seq<char>> {
    match o {
        Some(s) => Some(s@),
        None => None,
    }
}

/// `e` refuses `field` for being longer than `max` bytes, with `actual` bytes.
pub open spec fn length_error(e: DomainError, field: Seq<char>, max: int, actual: int) -> bool {
    &&& limit_error(e, field, max, actual)
    &&& error_text(
        e,
        field + " exceeds the allowed length."@,
        "Shorten the field to the allowed number of characters."@,
    )
}

/// Refuses `input` when its UTF-8 form is longer than `max` bytes.
pub fn validate_length(input: &str, max: usize, field: &str) -> (r: Result<(), DomainError>)
    ensures
        input.spec_bytes().len() <= max ==> r is Ok,
        input.spec_bytes().len() > max ==> (r matches Err(e) && length_error(
            e,
            field@,
            max as int,
            input.spec_bytes().len() as int,
        )),
{
    let n = input.as_bytes().len();
    if n <= max {
        Ok(())
    } else {
        let message = concat(field, " exceeds the allowed length.");
        Err(
            limit_exceeded(
                message.as_str(),
                "Shorten the field to the allowed number of characters.",
                field,
                max,
                n,
            ),
        )
    }
}

/// The SCPI command line: the trimmed command, then a space and the trimmed
/// arguments when they are not blank.
pub open spec fn scpi_line(command: Seq<char>, arguments: Option<Seq<char>>) -> Seq<char> {
    match arguments {
        Some(a) if trim(a).len() > 0 => trim(command) + seq![' '] + trim(a),
        _ => trim(command),
    }
}

/// The expected response class: the trimmed text, unless it is blank.
pub open spec fn scpi_response_class(expect: Option<Seq<char>>) -> Option<Seq<char>> {
    match expect {
        Some(e) if trim(e).len() > 0 => Some(trim(e)),
        _ => None,
    }
}

pub open spec fn opt_str_view(o: Option<&str>) -> Option<Seq<char>> {
    match o {
        Some(s) => Some(s@),
        None => None,
    }
}

pub open spec fn too_long(o: Option<&str>, max: int) -> bool {
    o is Some && o->0.spec_bytes().len() > max
}

/// Normalises a SCPI command with optional arguments and expected response.
pub fn normalize_scpi(command: &str, arguments: Option<&str>, expect_response: Option<&str>) -> (r:
    Result<ProtocolSummary, DomainError>)
    ensures
        match r {
            Ok(s) => {
                &&& command.spec_bytes().len() <= 512
                &&& !too_long(expect_response, 512)
                &&& !too_long(arguments, 512)
                &&& s.kind == ProtocolKind::Scpi
                &&& s.normalized@ == scpi_line(command@, opt_str_view(arguments))
                &&& opt_view(s.response_class) == scpi_response_class(opt_str_view(expect_response))
                &&& s.payload_hex is None
            },
            Err(e) => if command.spec_bytes().len() > 512 {
                length_error(e, "command"@, 512, command.spec_bytes().len() as int)
            } else if too_long(expect_response, 512) {
                length_error(e, "expect_response"@, 512, expect_response->0.spec_bytes().len() as int)
            } else {
                too_long(arguments, 512) && length_error(
                    e,
                    "arguments"@,
                    512,
                    arguments->0.spec_bytes().len() as int,
                )
            },
        },
{
    match validate_length(command, 512, "command") {
        Ok(()) => {},
        Err(e) => return Err(e),
    }
    if let Some(expect) = expect_response {
        match validate_length(expect, 512, "expect_response") {
            Ok(()) => {},
            Err(e) => return Err(e),
        }
    }
    let mut normalized = str_trim(command).to_owned();
    if let Some(args) = arguments {
        match validate_length(args, 512, "arguments") {
            Ok(()) => {},
            Err(e) => return Err(e),
        }
        let trimmed = str_trim(args);
        if !trimmed.is_empty() {
            string_push(&mut normalized, ' ');
            normalized.append(trimmed);
        }
    }
    let response_class = match expect_response {
        Some(expect) => {
            let trimmed = str_trim(expect);
            if trimmed.is_empty() {
                None
            } else {
                Some(trimmed.to_owned())
            }
        },
        None => None,
    };
    Ok(ProtocolSummary { kind: ProtocolKind::Scpi, normalized, response_class, payload_hex: None })
}

/// Response class of a trimmed AT command, from its UTF-8 bytes.
pub open spec fn at_class(t: Seq<u8>) -> Seq<char> {
    if t.len() >= 3 && t[0] == 65 && t[1] == 84 && t[2] == 43 {
        "extended"@
    } else if t == seq![65u8, 84u8] {
        "basic"@
    } else {
        "custom"@
    }
}

/// A SCPI line is laid out as: the trimmed command; then, when the trimmed
/// arguments are not blank, exactly one space followed by them. Blank or
/// missing arguments leave the trimmed command alone. An expected response
/// is kept trimmed, and dropped when blank.
pub proof fn scpi_line_layout(command: Seq<char>, arguments: Seq<char>)
    ensures
        trim(arguments).len() > 0 ==> {
            let line = scpi_line(command, Some(arguments));
            let n = trim(command).len() as int;
            &&& line.len() == n + 1 + trim(arguments).len()
            &&& line.subrange(0, n) == trim(command)
            &&& line[n] == ' '
            &&& line.subrange(n + 1, line.len() as int) == trim(arguments)
        },
        trim(arguments).len() == 0 ==> scpi_line(command, Some(arguments)) == trim(command),
        scpi_line(command, None) == trim(command),
        scpi_response_class(Some(arguments)) == (if trim(arguments).len() > 0 {
            Some(trim(arguments))
        } else {
            None::<Seq<char>>
        }),
        scpi_response_class(None) == None::<Seq<char>>,
{
    if trim(arguments).len() > 0 {
        let line = scpi_line(command, Some(arguments));
        let n = trim(command).len() as int;
        assert(line.subrange(0, n) =~= trim(command));
        assert(line.subrange(n + 1, line.len() as int) =~= trim(arguments));
    }
}

/// AT commands by their UTF-8 bytes: every command that starts with `AT+`
/// is extended, whatever follows; exactly `AT` is basic; anything else is
/// custom.
pub proof fn at_class_by_prefix(t: Seq<u8>)
    ensures
        t.len() >= 3 && t.subrange(0, 3) == seq![65u8, 84u8, 43u8] ==> at_class(t) == "extended"@,
        t == seq![65u8, 84u8] ==> at_class(t) == "basic"@,
        !(t.len() >= 3 && t.subrange(0, 3) == seq![65u8, 84u8, 43u8]) && t != seq![65u8, 84u8] ==> at_class(t)
            == "custom"@,
{
    if t.len() >= 3 && t.subrange(0, 3) == seq![65u8, 84u8, 43u8] {
        assert(t[0] == t.subrange(0, 3)[0]);
        assert(t[1] == t.subrange(0, 3)[1]);
        assert(t[2] == t.subrange(0, 3)[2]);
    }
    if t.len() >= 3 && t[0] == 65 && t[1] == 84 && t[2] == 43 {
        assert(t.subrange(0, 3) =~= seq![65u8, 84u8, 43u8]);
    }
}

proof fn lemma_ascii_byte(v: u32)
    requires
        v <= 0x7F,
    ensures
        has_width_1_encoding(v),
        leading_byte_width_1(v) == v as u8,
{
    assert((v & 0x7F) == v) by (bit_vector)
        requires
            v <= 0x7F,
    ;
}

/// An AT command whose trimmed text starts with `AT+` is classified as
/// extended, whatever follows the prefix; one whose trimmed text is `AT` is
/// basic.
pub proof fn at_extended_commands(command: Seq<char>)
    ensures
        ({
            let t = trim(command);
            t.len() >= 3 && t[0] == 'A' && t[1] == 'T' && t[2] == '+'
        }) ==> at_class(encode_utf8(trim(command))) == "extended"@,
        trim(command) == "AT"@ ==> at_class(encode_utf8(trim(command))) == "basic"@,
{
    let t = trim(command);
    if t.len() >= 2 && t[0] == 'A' && t[1] == 'T' {
        reveal_with_fuel(encode_utf8, 3);
        lemma_ascii_byte('A' as u32);
        lemma_ascii_byte('T' as u32);
        assert(t.drop_first()[0] == 'T');
        let b = encode_utf8(t);
        assert(b == seq![65u8] + encode_utf8(t.drop_first()));
        assert(encode_utf8(t.drop_first()) == seq![84u8] + encode_utf8(t.drop_first().drop_first()));
        if t.len() >= 3 && t[2] == '+' {
            lemma_ascii_byte('+' as u32);
            assert(t.drop_first().drop_first()[0] == '+');
            assert(encode_utf8(t.drop_first().drop_first()) == seq![43u8] + encode_utf8(
                t.drop_first().drop_first().drop_first(),
            ));
            assert(b[0] == 65 && b[1] == 84 && b[2] == 43);
        }
        if t == "AT"@ {
            reveal_strlit("AT");
            assert(t.drop_first().drop_first().len() == 0);
            assert(b =~= seq![65u8, 84u8]);
        }
    } else {
        if t == "AT"@ {
            reveal_strlit("AT");
        }
    }
}

/// Classifies an AT command as extended (`AT+...`), basic (`AT`) or custom.
pub fn classify_at(command: &str) -> (r: Result<ProtocolSummary, DomainError>)
    ensures
        match r {
            Ok(s) => {
                &&& command.spec_bytes().len() <= 256
                &&& s.kind == ProtocolKind::At
                &&& s.normalized@ == trim(command@)
                &&& opt_view(s.response_class) == Some(at_class(encode_utf8(trim(command@))))
                &&& s.payload_hex is None
            },
            Err(e) => command.spec_bytes().len() > 256 && length_error(
                e,
                "command"@,
                256,
                command.spec_bytes().len() as int,
            ),
        },
{
    match validate_length(command, 256, "command") {
        Ok(()) => {},
        Err(e) => return Err(e),
    }
    let trimmed = str_trim(command);
    let t = trimmed.as_bytes();
    let class = if t.len() >= 3 && t[0] == 65 && t[1] == 84 && t[2] == 43 {
        "extended".to_owned()
    } else if t.len() == 2 && t[0] == 65 && t[1] == 84 {
        assert(t@ =~= seq![65u8, 84u8]);
        "basic".to_owned()
    } else {
        "custom".to_owned()
    };
    Ok(
        ProtocolSummary {
            kind: ProtocolKind::At,
            normalized: trimmed.to_owned(),
            response_class: Some(class),
            payload_hex: None,
        },
    )
}

/// SLIP escaping of one byte: END becomes ESC ESC_END, ESC becomes ESC ESC_ESC.
pub open spec fn slip_escape_byte(b: u8) -> Seq<u8> {
    if b == 0xC0 {
        seq![0xDBu8, 0xDCu8]
    } else if b == 0xDB {
        seq![0xDBu8, 0xDDu8]
    } else {
        seq![b]
    }
}

/// SLIP escaping of a payload.
pub open spec fn slip_escape(p: Seq<u8>) -> Seq<u8>
    decreases p.len(),
{
    if p.len() == 0 {
        Seq::empty()
    } else {
        slip_escape_byte(p[0]) + slip_escape(p.skip(1))
    }
}

/// A SLIP frame: END, the escaped payload, END.
pub open spec fn slip_frame(p: Seq<u8>) -> Seq<u8> {
    seq![0xC0u8] + slip_escape(p) + seq![0xC0u8]
}

/// SLIP unescaping of the bytes between the two END markers; `None` on a
/// dangling or unknown escape.
pub open spec fn slip_unescape(s: Seq<u8>) -> Option<Seq<u8>>
    decreases s.len(),
{
    if s.len() == 0 {
        Some(Seq::empty())
    } else if s[0] == 0xDB {
        if s.len() < 2 {
            None
        } else if s[1] == 0xDC {
            match slip_unescape(s.skip(2)) {
                Some(r) => Some(seq![0xC0u8] + r),
                None => None,
            }
        } else if s[1] == 0xDD {
            match slip_unescape(s.skip(2)) {
                Some(r) => Some(seq![0xDBu8] + r),
                None => None,
            }
        } else {
            None
        }
    } else {
        match slip_unescape(s.skip(1)) {
            Some(r) => Some(seq![s[0]] + r),
            None => None,
        }
    }
}

proof fn lemma_slip_escape_push(p: Seq<u8>, b: u8)
    ensures
        slip_escape(p.push(b)) == slip_escape(p) + slip_escape_byte(b),
    decreases p.len(),
{
    if p.len() == 0 {
        assert(p.push(b).skip(1) =~= Seq::<u8>::empty());
        assert(slip_escape(p.push(b)) == slip_escape_byte(b) + slip_escape(p.push(b).skip(1)));
        assert(slip_escape(p) =~= Seq::<u8>::empty());
        assert(slip_escape(p.push(b)) =~= slip_escape(p) + slip_escape_byte(b));
    } else {
        lemma_slip_escape_push(p.skip(1), b);
        assert(p.push(b).skip(1) =~= p.skip(1).push(b));
        assert(slip_escape(p.push(b)) =~= slip_escape(p) + slip_escape_byte(b));
    }
}

pub fn encode_slip_payload(payload_hex: &str) -> (r: Result<ProtocolSummary, DomainError>)
    ensures
        slip_encode_outcome(payload_hex, ABS_MAX_TOTAL_BUFFER_BYTES as int, r),
{
    encode_slip_payload_with_limit(payload_hex, ABS_MAX_TOTAL_BUFFER_BYTES)
}

/// Outcome of SLIP-encoding hex `payload_hex` within `max` bytes.
pub open spec fn slip_encode_outcome(payload_hex: &str, max: int, r: Result<ProtocolSummary, DomainError>) -> bool {
    let input = payload_hex.spec_bytes();
    let frame = slip_frame(hex_decode(input));
    if !is_hex_text(input) || input.len() / 2 > max {
        r matches Err(e) && hex_outcome(input, "payload_hex"@, max, Err(e))
    } else if frame.len() > max {
        r matches Err(e) && limit_error(e, "payload_hex"@, max, frame.len() as int) && error_text(
            e,
            "SLIP encoded frame exceeds the helper output limit."@,
            "Use a smaller payload and retry."@,
        )
    } else {
        r matches Ok(s) && s.kind == ProtocolKind::Slip && s.normalized@ == hex_chars(frame)
            && s.response_class is None && opt_view(s.payload_hex) == Some(payload_hex@)
    }
}

/// SLIP-encodes the payload given as hex and returns the frame as hex.
pub fn encode_slip_payload_with_limit(payload_hex: &str, max_payload_bytes: usize) -> (r: Result<
    ProtocolSummary,
    DomainError,
>)
    ensures
        slip_encode_outcome(payload_hex, max_payload_bytes as int, r),
{
    let payload = match hex_to_bytes_with_limit(payload_hex, "payload_hex", max_payload_bytes) {
        Ok(p) => p,
        Err(e) => return Err(e),
    };
    let n = payload.len();
    let mut escaped: Vec<u8> = Vec::new();
    escaped.push(0xC0);
    for i in 0..n
        invariant
            n == payload@.len(),
            n <= max_payload_bytes,
            escaped@ == seq![0xC0u8] + slip_escape(payload@.take(i as int)),
            escaped@.len() <= 1 + 2 * i,
    {
        let byte = payload[i];
        proof {
            lemma_slip_escape_push(payload@.take(i as int), byte);
            assert(payload@.take(i + 1) =~= payload@.take(i as int).push(byte));
        }
        if byte == 0xC0 {
            escaped.push(0xDB);
            escaped.push(0xDC);
        } else if byte == 0xDB {
            escaped.push(0xDB);
            escaped.push(0xDD);
        } else {
            escaped.push(byte);
        }
        assert(escaped@ =~= seq![0xC0u8] + slip_escape(payload@.take(i + 1)));
    }
    escaped.push(0xC0);
    assert(payload@.take(n as int) =~= payload@);
    assert(escaped@ =~= slip_frame(payload@));
    if escaped.len() > max_payload_bytes {
        return Err(
            limit_exceeded(
                "SLIP encoded frame exceeds the helper output limit.",
                "Use a smaller payload and retry.",
                "payload_hex",
                max_payload_bytes,
                escaped.len(),
            ),
        );
    }
    Ok(
        ProtocolSummary {
            kind: ProtocolKind::Slip,
            normalized: bytes_to_hex(escaped.as_slice()),
            response_class: None,
            payload_hex: Some(payload_hex.to_owned()),
        },
    )
}

pub fn normalize_slip_payload(payload_hex: &str) -> (r: Result<ProtocolSummary, DomainError>)
    ensures
        slip_encode_outcome(payload_hex, ABS_MAX_TOTAL_BUFFER_BYTES as int, r),
{
    encode_slip_payload(payload_hex)
}

pub open spec fn prepend(p: Seq<u8>, o: Option<Seq<u8>>) -> Option<Seq<u8>> {
    match o {
        Some(r) => Some(p + r),
        None => None,
    }
}

/// The bytes between the END markers of a frame.
pub open spec fn frame_inner(frame: Seq<u8>) -> Seq<u8> {
    frame.subrange(1, frame.len() - 1)
}

/// The frame starts and ends with END.
pub open spec fn is_slip_framed(frame: Seq<u8>) -> bool {
    frame.len() >= 2 && frame[0] == 0xC0 && frame.last() == 0xC0
}

/// Outcome of SLIP-decoding hex `frame_hex` within `max` bytes.
pub open spec fn slip_decode_outcome(frame_hex: &str, max: int, r: Result<ProtocolSummary, DomainError>) -> bool {
    let input = frame_hex.spec_bytes();
    let frame = hex_decode(input);
    if !is_hex_text(input) || input.len() / 2 > max {
        r matches Err(e) && hex_outcome(input, "payload_hex"@, max, Err(e))
    } else if !is_slip_framed(frame) {
        r matches Err(e) && plain_error(e, ErrorCategory::InvalidArgument, ErrorCode::ProtocolFrameInvalid, false)
            && error_text(
            e,
            "SLIP frame must start and end with 0xC0."@,
            "Provide a framed SLIP packet and retry."@,
        )
    } else if slip_unescape(frame_inner(frame)) is None {
        r matches Err(e) && plain_error(e, ErrorCategory::InvalidArgument, ErrorCode::ProtocolFrameInvalid, false)
            && error_text(
            e,
            "SLIP frame contains an invalid escape sequence."@,
            "Use DB DC for C0 and DB DD for DB."@,
        )
    } else {
        let payload = slip_unescape(frame_inner(frame))->0;
        r matches Ok(s) && s.kind == ProtocolKind::Slip && s.normalized@ == hex_chars(payload)
            && opt_view(s.response_class) == Some("decoded"@) && opt_view(s.payload_hex) == Some(
            hex_chars(payload),
        )
    }
}

pub fn decode_slip_frame(frame_hex: &str) -> (r: Result<ProtocolSummary, DomainError>)
    ensures
        slip_decode_outcome(frame_hex, ABS_MAX_TOTAL_BUFFER_BYTES as int, r),
{
    decode_slip_frame_with_limit(frame_hex, ABS_MAX_TOTAL_BUFFER_BYTES)
}

fn invalid_escape() -> (e: DomainError)
    ensures
        plain_error(e, ErrorCategory::InvalidArgument, ErrorCode::ProtocolFrameInvalid, false),
        error_text(
            e,
            "SLIP frame contains an invalid escape sequence."@,
            "Use DB DC for C0 and DB DD for DB."@,
        ),
{
    DomainError::protocol_frame_invalid(
        "SLIP frame contains an invalid escape sequence.",
        "Use DB DC for C0 and DB DD for DB.",
    )
}

/// Decodes a SLIP frame given as hex and returns the payload as hex.
pub fn decode_slip_frame_with_limit(frame_hex: &str, max_frame_bytes: usize) -> (r: Result<
    ProtocolSummary,
    DomainError,
>)
    ensures
        slip_decode_outcome(frame_hex, max_frame_bytes as int, r),
{
    let frame = match hex_to_bytes_with_limit(frame_hex, "payload_hex", max_frame_bytes) {
        Ok(f) => f,
        Err(e) => return Err(e),
    };
    let n = frame.len();
    if n < 2 || frame[0] != 0xC0 || frame[n - 1] != 0xC0 {
        return Err(
            DomainError::protocol_frame_invalid(
                "SLIP frame must start and end with 0xC0.",
                "Provide a framed SLIP packet and retry.",
            ),
        );
    }
    let ghost inner = frame_inner(frame@);
    let mut payload: Vec<u8> = Vec::new();
    let mut index: usize = 1;
    assert(inner.skip(0) =~= inner);
    while index < n - 1
        invariant
            n == frame@.len(),
            n >= 2,
            frame@ == hex_decode(frame_hex.spec_bytes()),
            is_hex_text(frame_hex.spec_bytes()),
            frame_hex.spec_bytes().len() / 2 <= max_frame_bytes,
            is_slip_framed(frame@),
            inner == frame@.subrange(1, n - 1),
            1 <= index <= n - 1,
            slip_unescape(inner) == prepend(payload@, slip_unescape(inner.skip(index - 1))),
        decreases n - index,
    {
        let ghost rest = inner.skip(index - 1);
        assert(rest[0] == frame@[index as int]);
        if frame[index] == 0xDB {
            if index + 1 >= n - 1 {
                assert(rest.len() < 2);
                assert(slip_unescape(rest) is None);
                return Err(invalid_escape());
            }
            assert(rest[1] == frame@[index + 1]);
            assert(rest.skip(2) =~= inner.skip(index + 1));
            let next = frame[index + 1];
            if next == 0xDC {
                payload.push(0xC0);
            } else if next == 0xDD {
                payload.push(0xDB);
            } else {
                assert(slip_unescape(rest) is None);
                return Err(invalid_escape());
            }
            index = index + 2;
        } else {
            assert(rest.skip(1) =~= inner.skip(index as int));
            payload.push(frame[index]);
            index = index + 1;
        }
    }
    assert(inner.skip(index - 1) =~= Seq::<u8>::empty());
    assert(payload@ + Seq::<u8>::empty() =~= payload@);
    Ok(
        ProtocolSummary {
            kind: ProtocolKind::Slip,
            normalized: bytes_to_hex(payload.as_slice()),
            response_class: Some("decoded".to_owned()),
            payload_hex: Some(bytes_to_hex(payload.as_slice())),
        },
    )
}

/// SLIP decoding undoes SLIP encoding: the frame of any payload is framed by
/// END markers and its inner bytes unescape to the payload.
pub proof fn slip_round_trip(p: Seq<u8>)
    ensures
        is_slip_framed(slip_frame(p)),
        frame_inner(slip_frame(p)) == slip_escape(p),
        slip_unescape(slip_escape(p)) == Some(p),
    decreases p.len(),
{
    let f = slip_frame(p);
    assert(frame_inner(f) =~= slip_escape(p));
    if p.len() > 0 {
        slip_round_trip(p.skip(1));
        let e = slip_escape(p);
        let b = p[0];
        assert(e == slip_escape_byte(b) + slip_escape(p.skip(1)));
        if b == 0xC0 || b == 0xDB {
            assert(e.skip(2) =~= slip_escape(p.skip(1)));
        } else {
            assert(e.skip(1) =~= slip_escape(p.skip(1)));
        }
        assert(seq![b] + p.skip(1) =~= p);
    }
}

/// The complete helper round trip: hex of a payload, SLIP-encoded to hex by
/// the encoder, is decoded by the decoder back to the payload.
pub proof fn slip_hex_round_trip(p: Seq<u8>)
    ensures
        is_hex_text(encode_utf8(hex_chars(slip_frame(p)))),
        hex_decode(encode_utf8(hex_chars(slip_frame(p)))) == slip_frame(p),
        is_hex_text(encode_utf8(hex_chars(p))),
        hex_decode(encode_utf8(hex_chars(p))) == p,
        slip_unescape(frame_inner(slip_frame(p))) == Some(p),
{
    hex_round_trip(slip_frame(p));
    hex_round_trip(p);
    slip_round_trip(p);
}

/// The SLIP helpers on text: a hex payload that the encoder accepts, once
/// its frame is decoded, comes back as the same hex in lower case, marked as
/// decoded.
pub proof fn slip_helper_round_trip(
    payload_hex: &str,
    max: int,
    encoded: Result<ProtocolSummary, DomainError>,
    frame_hex: &str,
    decoded: Result<ProtocolSummary, DomainError>,
)
    requires
        is_ascii_chars(payload_hex@),
        slip_encode_outcome(payload_hex, max, encoded),
        encoded matches Ok(s) && frame_hex@ == s.normalized@,
        slip_decode_outcome(frame_hex, max, decoded),
    ensures
        decoded matches Ok(d) && {
            &&& d.kind == ProtocolKind::Slip
            &&& d.normalized@ == ascii_lower(payload_hex@)
            &&& opt_view(d.payload_hex) == Some(ascii_lower(payload_hex@))
            &&& opt_view(d.response_class) == Some("decoded"@)
        },
{
    let p = hex_decode(payload_hex.spec_bytes());
    slip_hex_round_trip(p);
    hex_round_trip(slip_frame(p));
    hex_chars_lower_case_round_trip(payload_hex@);
}

} // verus!
