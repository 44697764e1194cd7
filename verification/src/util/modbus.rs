//! Modbus RTU framing: CRC-16/MODBUS, packing and unpacking.
use vstd::prelude::*;
use vstd::slice::slice_subrange;
use vstd::string::StringSliceAdditionalSpecFns;
use vstd::utf8::*;

use crate::model::error::{DetailValue, DetailView, DomainError, ErrorCategory, ErrorCode, error_text, plain_error};
use crate::model::limits::ABS_MAX_TOTAL_BUFFER_BYTES;
use crate::util::encoding::{
    bytes_to_hex, hex_chars, hex_chars_lower_case_round_trip, hex_decode, hex_outcome, hex_round_trip,
    hex_to_bytes_with_limit, is_hex_text, text_detail,
};
use crate::util::protocol::opt_view;
use crate::util::text::ascii_lower;

verus! {

#[derive(Debug, Clone, Copy, PartialEq, Eq, Structural)]
pub enum ModbusMode {
    Rtu,
    Ascii,
}

#[derive(Debug, Clone, Copy, PartialEq, Eq, Structural)]
pub enum ModbusAction {
    Pack,
    Unpack,
}

#[derive(Debug, Clone)]
pub struct ModbusPackRequest {
    pub mode: ModbusMode,
    pub slave_id: u8,
    pub function_code: u8,
    pub address: u16,
    pub data_or_hex: Option<String>,
    pub crc_check: bool,
}

#[derive(Debug, Clone)]
pub struct ModbusUnpackRequest {
    pub mode: ModbusMode,
    pub frame_hex: String,
    pub crc_check: bool,
}

#[derive(Debug, Clone)]
pub struct ModbusPackResult {
    pub frame_hex: String,
    pub frame_bytes: usize,
    pub crc_hex: Option<String>,
}

#[derive(Debug, Clone)]
pub struct ModbusUnpackResult {
    pub slave_id: u8,
    pub function_code: u8,
    pub address: Option<u16>,
    pub data_hex: String,
    pub crc_hex: Option<String>,
    pub checksum_valid: bool,
}

/// One shift of the reflected CRC-16/MODBUS register (polynomial 0xA001).
pub open spec fn crc_step(crc: u16) -> u16 {
    if crc & 1 != 0 {
        (crc >> 1) ^ 0xA001u16
    } else {
        crc >> 1
    }
}

/// `k` shifts of the CRC register.
pub open spec fn crc_shifts(crc: u16, k: nat) -> u16
    decreases k,
{
    if k == 0 {
        crc
    } else {
        crc_step(crc_shifts(crc, (k - 1) as nat))
    }
}

/// CRC-16/MODBUS of `bytes`: initial value 0xFFFF, each byte xored into the
/// low bits followed by eight shifts.
pub open spec fn crc16(bytes: Seq<u8>) -> u16
    decreases bytes.len(),
{
    if bytes.len() == 0 {
        0xFFFFu16
    } else {
        crc_shifts(crc16(bytes.drop_last()) ^ (bytes.last() as u16), 8)
    }
}

/// The two CRC bytes as they travel on the wire, low byte first.
pub open spec fn crc_wire(crc: u16) -> Seq<u8> {
    seq![(crc % 256) as u8, (crc / 256) as u8]
}

/// Slave id, function code, big-endian address, then the data bytes.
pub open spec fn rtu_payload(slave_id: u8, function_code: u8, address: u16, data: Seq<u8>) -> Seq<u8> {
    seq![slave_id, function_code, (address / 256) as u8, (address % 256) as u8] + data
}

/// A complete RTU frame: the payload followed by its CRC.
pub open spec fn rtu_frame(slave_id: u8, function_code: u8, address: u16, data: Seq<u8>) -> Seq<u8> {
    rtu_payload(slave_id, function_code, address, data) + crc_wire(
        crc16(rtu_payload(slave_id, function_code, address, data)),
    )
}

/// The frame without its two trailing CRC bytes.
pub open spec fn frame_body(frame: Seq<u8>) -> Seq<u8> {
    frame.take(frame.len() - 2)
}

/// The two trailing CRC bytes of a frame.
pub open spec fn frame_crc(frame: Seq<u8>) -> Seq<u8> {
    frame.skip(frame.len() - 2)
}

/// The trailing CRC bytes match the CRC of the rest of the frame.
pub open spec fn crc_matches(frame: Seq<u8>) -> bool {
    frame_crc(frame) == crc_wire(crc16(frame_body(frame)))
}

/// `e` is the error for a request whose mode is not RTU.
pub open spec fn mode_error(e: DomainError) -> bool {
    &&& e.category == ErrorCategory::InvalidArgument
    &&& e.code == ErrorCode::ProtocolFrameInvalid
    &&& !e.retryable
    &&& e.details@ == seq![("field"@, DetailView::Text("mode"@))]
    &&& error_text(e, "Only Modbus RTU is supported in the first helper slice."@, "Use mode=rtu and retry."@)
}

pub fn crc16_modbus(bytes: &[u8]) -> (crc: u16)
    ensures
        crc == crc16(bytes@),
{
    let mut crc: u16 = 0xFFFF;
    let n = bytes.len();
    for i in 0..n
        invariant
            n == bytes@.len(),
            crc == crc16(bytes@.take(i as int)),
    {
        let ghost before = bytes@.take(i as int);
        assert(bytes@.take(i + 1).drop_last() =~= before);
        crc = crc ^ (bytes[i] as u16);
        let ghost start = crc;
        let mut k: u32 = 0;
        while k < 8
            invariant
                k <= 8,
                crc == crc_shifts(start, k as nat),
            decreases 8 - k,
        {
            if crc & 0x0001 != 0 {
                crc = (crc >> 1) ^ 0xA001;
            } else {
                crc = crc >> 1;
            }
            k = k + 1;
        }
    }
    assert(bytes@.take(n as int) =~= bytes@);
    crc
}

pub fn default_crc_check() -> (b: bool)
    ensures
        b,
{
    true
}

fn mode_not_supported() -> (e: DomainError)
    ensures
        mode_error(e),
{
    let e = DomainError::protocol_frame_invalid(
        "Only Modbus RTU is supported in the first helper slice.",
        "Use mode=rtu and retry.",
    ).with_detail("field", text_detail("mode"));
    assert(e.details@ =~= seq![("field"@, DetailView::Text("mode"@))]);
    e
}

pub fn pack_rtu(request: ModbusPackRequest) -> (r: Result<ModbusPackResult, DomainError>)
    ensures
        pack_outcome(request, ABS_MAX_TOTAL_BUFFER_BYTES as int, r),
{
    pack_rtu_with_hex_limit(request, ABS_MAX_TOTAL_BUFFER_BYTES)
}

/// The text of a request field as UTF-8 bytes.
pub open spec fn utf8_of(s: String) -> Seq<u8> {
    encode_utf8(s@)
}

/// The hex of the optional data field does not decode within `max` bytes.
pub open spec fn data_rejected(data: Option<String>, max: int) -> bool {
    data is Some && (!is_hex_text(utf8_of(data->0)) || utf8_of(data->0).len() / 2 > max)
}

/// The data bytes a pack request carries.
pub open spec fn request_data(data: Option<String>) -> Seq<u8> {
    match data {
        Some(d) => hex_decode(utf8_of(d)),
        None => Seq::empty(),
    }
}

/// Outcome of packing `request` with data limited to `max` bytes.
pub open spec fn pack_outcome(request: ModbusPackRequest, max: int, r: Result<ModbusPackResult, DomainError>) -> bool {
    if request.mode != ModbusMode::Rtu {
        r matches Err(e) && mode_error(e)
    } else if data_rejected(request.data_or_hex, max) {
        r matches Err(e) && hex_outcome(utf8_of(request.data_or_hex->0), "data_or_hex"@, max, Err(e))
    } else {
        let frame = rtu_frame(
            request.slave_id,
            request.function_code,
            request.address,
            request_data(request.data_or_hex),
        );
        r matches Ok(p) && p.frame_hex@ == hex_chars(frame) && p.frame_bytes == frame.len()
            && p.crc_hex is Some && p.crc_hex->0@ == hex_chars(frame_crc(frame))
    }
}

/// Builds an RTU frame for `request` and returns it as hex, with its CRC.
pub fn pack_rtu_with_hex_limit(request: ModbusPackRequest, max_hex_output_bytes: usize) -> (r: Result<
    ModbusPackResult,
    DomainError,
>)
    ensures
        pack_outcome(request, max_hex_output_bytes as int, r),
{
    if request.mode != ModbusMode::Rtu {
        return Err(mode_not_supported());
    }
    let mut frame: Vec<u8> = Vec::new();
    frame.push(request.slave_id);
    frame.push(request.function_code);
    frame.push((request.address / 256) as u8);
    frame.push((request.address % 256) as u8);
    let ghost data: Seq<u8> = Seq::empty();
    match &request.data_or_hex {
        Some(text) => {
            match hex_to_bytes_with_limit(text.as_str(), "data_or_hex", max_hex_output_bytes) {
                Ok(mut bytes) => {
                    proof {
                        data = bytes@;
                    }
                    frame.append(&mut bytes);
                },
                Err(e) => return Err(e),
            }
        },
        None => {},
    }
    let ghost payload = frame@;
    assert(payload =~= rtu_payload(request.slave_id, request.function_code, request.address, data));
    let crc = crc16_modbus(frame.as_slice());
    let crc_bytes: Vec<u8> = vec![(crc % 256) as u8, (crc / 256) as u8];
    frame.push((crc % 256) as u8);
    frame.push((crc / 256) as u8);
    let ghost whole = rtu_frame(request.slave_id, request.function_code, request.address, data);
    assert(frame@ =~= whole);
    assert(crc_bytes@ =~= frame_crc(whole));
    Ok(
        ModbusPackResult {
            frame_hex: bytes_to_hex(frame.as_slice()),
            frame_bytes: frame.len(),
            crc_hex: Some(bytes_to_hex(crc_bytes.as_slice())),
        },
    )
}

/// What an RTU frame says, once its length allows it.
pub open spec fn unpack_fields(frame: Seq<u8>, crc_check: bool, u: ModbusUnpackResult) -> bool {
    let body = frame_body(frame);
    &&& u.slave_id == body[0]
    &&& u.function_code == body[1]
    &&& u.address == Some((body[2] * 256 + body[3]) as u16)
    &&& u.data_hex@ == hex_chars(body.skip(4))
    &&& u.crc_hex is Some && u.crc_hex->0@ == hex_chars(frame_crc(frame))
    &&& u.checksum_valid == crc_matches(frame)
}

/// Outcome of unpacking the hex text `input` of an RTU frame of at most `max`
/// bytes.
pub open spec fn unpack_outcome(
    mode: ModbusMode,
    input: Seq<u8>,
    crc_check: bool,
    max: int,
    r: Result<ModbusUnpackResult, DomainError>,
) -> bool {
    let frame = hex_decode(input);
    if mode != ModbusMode::Rtu {
        r matches Err(e) && mode_error(e)
    } else if !is_hex_text(input) || input.len() / 2 > max {
        r matches Err(e) && hex_outcome(input, "frame_hex"@, max, Err(e))
    } else if frame.len() < 4 {
        r matches Err(e) && plain_error(e, ErrorCategory::InvalidArgument, ErrorCode::ProtocolFrameInvalid, false)
            && error_text(
            e,
            "Modbus RTU frame is too short."@,
            "Provide at least slave_id, function_code, payload, and CRC bytes."@,
        )
    } else if crc_check && !crc_matches(frame) {
        r matches Err(e) && e.category == ErrorCategory::InvalidArgument && e.code
            == ErrorCode::ProtocolChecksumFailed && !e.retryable && e.details@ == seq![
            ("expected_crc"@, DetailView::Text(hex_chars(crc_wire(crc16(frame_body(frame)))))),
            ("actual_crc"@, DetailView::Text(hex_chars(frame_crc(frame)))),
        ] && error_text(
            e,
            "Modbus RTU CRC check failed."@,
            "Repack the frame or verify the payload and CRC bytes."@,
        )
    } else if frame.len() < 6 {
        r matches Err(e) && plain_error(e, ErrorCategory::InvalidArgument, ErrorCode::ProtocolFrameInvalid, false)
            && error_text(
            e,
            "Modbus RTU payload is too short."@,
            "Provide a frame containing slave_id, function_code, address, and CRC bytes."@,
        )
    } else {
        r matches Ok(u) && unpack_fields(frame, crc_check, u)
    }
}

pub fn unpack_rtu(request: ModbusUnpackRequest) -> (r: Result<ModbusUnpackResult, DomainError>)
    ensures
        unpack_outcome(
            request.mode,
            utf8_of(request.frame_hex),
            request.crc_check,
            ABS_MAX_TOTAL_BUFFER_BYTES as int,
            r,
        ),
{
    unpack_rtu_with_hex_limit(request, ABS_MAX_TOTAL_BUFFER_BYTES)
}

/// Decodes the hex of an RTU frame, checks its CRC when asked, and splits it
/// into its fields.
pub fn unpack_rtu_with_hex_limit(request: ModbusUnpackRequest, max_hex_output_bytes: usize) -> (r:
    Result<ModbusUnpackResult, DomainError>)
    ensures
        unpack_outcome(
            request.mode,
            utf8_of(request.frame_hex),
            request.crc_check,
            max_hex_output_bytes as int,
            r,
        ),
{
    if request.mode != ModbusMode::Rtu {
        return Err(mode_not_supported());
    }
    let frame = match hex_to_bytes_with_limit(
        request.frame_hex.as_str(),
        "frame_hex",
        max_hex_output_bytes,
    ) {
        Ok(f) => f,
        Err(e) => return Err(e),
    };
    let n = frame.len();
    if n < 4 {
        return Err(
            DomainError::protocol_frame_invalid(
                "Modbus RTU frame is too short.",
                "Provide at least slave_id, function_code, payload, and CRC bytes.",
            ),
        );
    }
    let payload = slice_subrange(frame.as_slice(), 0, n - 2);
    let crc_bytes = slice_subrange(frame.as_slice(), n - 2, n);
    assert(payload@ =~= frame_body(frame@));
    assert(crc_bytes@ =~= frame_crc(frame@));
    let expected_crc = crc16_modbus(payload);
    let expected: Vec<u8> = vec![(expected_crc % 256) as u8, (expected_crc / 256) as u8];
    assert(expected@ =~= crc_wire(expected_crc));
    let checksum_valid = crc_bytes[0] == expected[0] && crc_bytes[1] == expected[1];
    assert(checksum_valid == crc_matches(frame@)) by {
        if checksum_valid {
            assert(crc_bytes@ =~= expected@);
        }
    }
    if request.crc_check && !checksum_valid {
        let e = DomainError::protocol_checksum_failed(
            "Modbus RTU CRC check failed.",
            "Repack the frame or verify the payload and CRC bytes.",
        ).with_detail("expected_crc", DetailValue::Text(bytes_to_hex(expected.as_slice()))).with_detail(
            "actual_crc",
            DetailValue::Text(bytes_to_hex(crc_bytes)),
        );
        assert(e.details@ =~= seq![
            ("expected_crc"@, DetailView::Text(hex_chars(crc_wire(crc16(frame_body(frame@)))))),
            ("actual_crc"@, DetailView::Text(hex_chars(frame_crc(frame@)))),
        ]);
        return Err(e);
    }
    if payload.len() < 4 {
        return Err(
            DomainError::protocol_frame_invalid(
                "Modbus RTU payload is too short.",
                "Provide a frame containing slave_id, function_code, address, and CRC bytes.",
            ),
        );
    }
    let data = slice_subrange(payload, 4, payload.len());
    assert(data@ =~= frame_body(frame@).skip(4));
    let address: u16 = (payload[2] as u16) * 256 + (payload[3] as u16);
    Ok(
        ModbusUnpackResult {
            slave_id: payload[0],
            function_code: payload[1],
            address: Some(address),
            data_hex: bytes_to_hex(data),
            crc_hex: Some(bytes_to_hex(crc_bytes)),
            checksum_valid,
        },
    )
}

/// Unpacking undoes packing: the hex of the frame built from slave id,
/// function code, address and data is well formed, carries a valid CRC, and
/// splits back into exactly those fields.
pub proof fn modbus_round_trip(slave_id: u8, function_code: u8, address: u16, data: Seq<u8>)
    ensures
        ({
            let frame = rtu_frame(slave_id, function_code, address, data);
            let text = encode_utf8(hex_chars(frame));
            &&& is_hex_text(text)
            &&& text.len() / 2 == frame.len()
            &&& hex_decode(text) == frame
            &&& frame.len() == data.len() + 6
            &&& crc_matches(frame)
            &&& frame_body(frame)[0] == slave_id
            &&& frame_body(frame)[1] == function_code
            &&& (frame_body(frame)[2] * 256 + frame_body(frame)[3]) as u16 == address
            &&& frame_body(frame).skip(4) == data
        }),
{
    let payload = rtu_payload(slave_id, function_code, address, data);
    let frame = rtu_frame(slave_id, function_code, address, data);
    hex_round_trip(frame);
    assert(frame_body(frame) =~= payload);
    assert(frame_crc(frame) =~= crc_wire(crc16(payload)));
    assert(payload.skip(4) =~= data);
}

/// The data characters of a pack request, empty when it carries none.
pub open spec fn request_data_text(data: Option<String>) -> Seq<char> {
    match data {
        Some(d) => d@,
        None => Seq::empty(),
    }
}

/// The Modbus helpers on text: a frame that `pack` builds, unpacked within
/// its length limit, gives back the slave, function code, address and data
/// (as hex in lower case), with a valid checksum and the same CRC.
pub proof fn modbus_helper_round_trip(
    request: ModbusPackRequest,
    max: int,
    packed: Result<ModbusPackResult, DomainError>,
    frame_hex: &str,
    crc_check: bool,
    unpack_max: int,
    unpacked: Result<ModbusUnpackResult, DomainError>,
)
    requires
        is_ascii_chars(request_data_text(request.data_or_hex)),
        pack_outcome(request, max, packed),
        packed matches Ok(p) && frame_hex@ == p.frame_hex@,
        frame_hex.spec_bytes().len() / 2 <= unpack_max,
        unpack_outcome(ModbusMode::Rtu, frame_hex.spec_bytes(), crc_check, unpack_max, unpacked),
    ensures
        unpacked matches Ok(u) && {
            &&& u.slave_id == request.slave_id
            &&& u.function_code == request.function_code
            &&& u.address == Some(request.address)
            &&& u.data_hex@ == ascii_lower(request_data_text(request.data_or_hex))
            &&& u.checksum_valid
            &&& opt_view(u.crc_hex) == opt_view(packed->Ok_0.crc_hex)
        },
{
    let data = request_data(request.data_or_hex);
    modbus_round_trip(request.slave_id, request.function_code, request.address, data);
    match request.data_or_hex {
        Some(d) => {
            hex_chars_lower_case_round_trip(d@);
        },
        None => {
            assert(hex_chars(Seq::<u8>::empty()) =~= ascii_lower(Seq::<char>::empty()));
        },
    }
}

} // verus!
