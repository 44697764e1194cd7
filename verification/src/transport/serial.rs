//! Serial port settings and the classification of serial failures.
use vstd::prelude::*;

use crate::model::config::{DataBits, FlowControl, Parity, SerialConfig, StopBits};
use crate::model::error::{ErrorCategory, ErrorCode};
use crate::transport::common::{IoKind, TransportError, transport_error_is};
use crate::util::text::{str_trim, trim};

verus! {

/// A serial port found on the machine.
#[derive(Debug, Clone)]
pub struct SerialPortSummary {
    pub name: String,
    pub display: String,
    pub port_type: String,
}

/// The settings a serial port is opened with.
#[derive(Debug, Clone)]
pub struct SerialPortSettings {
    pub port_name: String,
    pub baudrate: u32,
    pub data_bits: DataBits,
    pub stop_bits: StopBits,
    pub parity: Parity,
    pub flow_control: FlowControl,
    pub timeout_ms: u64,
}

impl SerialPortSettings {
    /// Settings from a configuration: the port name is trimmed and must not
    /// be blank, and the baud rate must be positive.
    pub fn try_from_config(config: &SerialConfig) -> (r: Result<Self, TransportError>)
        ensures
            if trim(config.port@).len() == 0 {
                r matches Err(e) && transport_error_is(
                    e,
                    ErrorCategory::InvalidArgument,
                    ErrorCode::InvalidAddress,
                    "serial port name is required"@,
                    false,
                )
            } else if config.baudrate == 0 {
                r matches Err(e) && transport_error_is(
                    e,
                    ErrorCategory::InvalidArgument,
                    ErrorCode::InvalidRange,
                    "serial baudrate must be greater than zero"@,
                    false,
                )
            } else {
                r matches Ok(s) && {
                    &&& s.port_name@ == trim(config.port@)
                    &&& s.baudrate == config.baudrate
                    &&& s.data_bits == config.data_bits
                    &&& s.stop_bits == config.stop_bits
                    &&& s.parity == config.parity
                    &&& s.flow_control == config.flow_control
                    &&& s.timeout_ms == config.timeout_ms
                }
            },
    {
        let port_name = str_trim(config.port.as_str());
        if vstd::string::StrSliceExecFns::unicode_len(port_name) == 0 {
            return Err(TransportError::invalid_address("serial port name is required"));
        }
        if config.baudrate == 0 {
            return Err(
                TransportError {
                    category: ErrorCategory::InvalidArgument,
                    code: ErrorCode::InvalidRange,
                    message: "serial baudrate must be greater than zero".to_owned(),
                    fatal: false,
                },
            );
        }
        Ok(
            SerialPortSettings {
                port_name: port_name.to_owned(),
                baudrate: config.baudrate,
                data_bits: config.data_bits,
                stop_bits: config.stop_bits,
                parity: config.parity,
                flow_control: config.flow_control,
                timeout_ms: config.timeout_ms,
            },
        )
    }
}

/// The kinds of failure the serial port crate reports.
#[derive(Debug, Clone, Copy, PartialEq, Eq, Structural)]
pub enum SerialErrorKind {
    NoDevice,
    InvalidInput,
    Unknown,
    Io(IoKind),
}

/// A failed serial operation, classified by kind.
pub fn map_serial_error_kind(kind: SerialErrorKind) -> (e: TransportError)
    ensures
        match kind {
            SerialErrorKind::NoDevice => transport_error_is(
                e,
                ErrorCategory::InvalidArgument,
                ErrorCode::InvalidAddress,
                "serial port was not found"@,
                false,
            ),
            SerialErrorKind::Io(IoKind::TimedOut) => transport_error_is(
                e,
                ErrorCategory::ConnectTimeout,
                ErrorCode::SerialOpenTimeout,
                "serial port open timed out"@,
                true,
            ),
            SerialErrorKind::Io(IoKind::PermissionDenied) | SerialErrorKind::Io(IoKind::AddrInUse) =>
                transport_error_is(
                e,
                ErrorCategory::ResourceBusy,
                ErrorCode::SerialPortBusy,
                "serial port is busy or permission was denied"@,
                false,
            ),
            SerialErrorKind::InvalidInput => transport_error_is(
                e,
                ErrorCategory::InvalidArgument,
                ErrorCode::InvalidRange,
                "serial configuration is invalid"@,
                false,
            ),
            _ => transport_error_is(
                e,
                ErrorCategory::WriteFailed,
                ErrorCode::WriteIoFailed,
                "serial operation failed"@,
                true,
            ),
        },
{
    match kind {
        SerialErrorKind::NoDevice => TransportError::invalid_address("serial port was not found"),
        SerialErrorKind::Io(IoKind::TimedOut) => TransportError {
            category: ErrorCategory::ConnectTimeout,
            code: ErrorCode::SerialOpenTimeout,
            message: "serial port open timed out".to_owned(),
            fatal: true,
        },
        SerialErrorKind::Io(IoKind::PermissionDenied) | SerialErrorKind::Io(IoKind::AddrInUse) =>
            TransportError {
            category: ErrorCategory::ResourceBusy,
            code: ErrorCode::SerialPortBusy,
            message: "serial port is busy or permission was denied".to_owned(),
            fatal: false,
        },
        SerialErrorKind::InvalidInput => TransportError {
            category: ErrorCategory::InvalidArgument,
            code: ErrorCode::InvalidRange,
            message: "serial configuration is invalid".to_owned(),
            fatal: false,
        },
        _ => TransportError::write_failed(ErrorCode::WriteIoFailed, "serial operation failed"),
    }
}

/// A failed read or write on an open serial port, classified by kind.
pub fn map_serial_io_error(kind: IoKind) -> (e: TransportError)
    ensures
        match kind {
            IoKind::TimedOut | IoKind::WouldBlock => transport_error_is(
                e,
                ErrorCategory::ReadTimeout,
                ErrorCode::ReadTimeout,
                "serial operation timed out"@,
                false,
            ),
            IoKind::PermissionDenied => transport_error_is(
                e,
                ErrorCategory::ResourceBusy,
                ErrorCode::SerialPortBusy,
                "serial port is unavailable or permission was denied"@,
                false,
            ),
            IoKind::NotFound => transport_error_is(
                e,
                ErrorCategory::InvalidArgument,
                ErrorCode::InvalidAddress,
                "serial port was not found"@,
                false,
            ),
            _ => transport_error_is(
                e,
                ErrorCategory::WriteFailed,
                ErrorCode::WriteIoFailed,
                "serial I/O failed"@,
                true,
            ),
        },
{
    match kind {
        IoKind::TimedOut | IoKind::WouldBlock => TransportError::read_timeout("serial operation timed out"),
        IoKind::PermissionDenied => TransportError {
            category: ErrorCategory::ResourceBusy,
            code: ErrorCode::SerialPortBusy,
            message: "serial port is unavailable or permission was denied".to_owned(),
            fatal: false,
        },
        IoKind::NotFound => TransportError::invalid_address("serial port was not found"),
        _ => TransportError::write_failed(ErrorCode::WriteIoFailed, "serial I/O failed"),
    }
}

/// `usb vid=xxxx pid=xxxx`, in four lower-case hex digits each.
pub open spec fn usb_port_text(vid: u16, pid: u16) -> Seq<char> {
    "usb vid="@ + hex4(vid) + " pid="@ + hex4(pid)
}

/// Four lower-case hex digits of `v`.
pub open spec fn hex4(v: u16) -> Seq<char> {
    seq![
        crate::util::encoding::HEX_DIGITS@[((v / 4096) % 16) as int],
        crate::util::encoding::HEX_DIGITS@[((v / 256) % 16) as int],
        crate::util::encoding::HEX_DIGITS@[((v / 16) % 16) as int],
        crate::util::encoding::HEX_DIGITS@[(v % 16) as int],
    ]
}

/// The description of a USB serial port.
pub fn usb_port_type(vid: u16, pid: u16) -> (s: String)
    ensures
        s@ == usb_port_text(vid, pid),
{
    let mut s = "usb vid=".to_owned();
    push_hex4(&mut s, vid);
    s.append(" pid=");
    push_hex4(&mut s, pid);
    s
}

fn push_hex4(s: &mut String, v: u16)
    ensures
        final(s)@ == old(s)@ + hex4(v),
{
    crate::util::text::string_push(s, crate::util::encoding::HEX_DIGITS[((v / 4096) % 16) as usize]);
    crate::util::text::string_push(s, crate::util::encoding::HEX_DIGITS[((v / 256) % 16) as usize]);
    crate::util::text::string_push(s, crate::util::encoding::HEX_DIGITS[((v / 16) % 16) as usize]);
    crate::util::text::string_push(s, crate::util::encoding::HEX_DIGITS[(v % 16) as usize]);
    assert(s@ =~= old(s)@ + hex4(v));
}

/// How a serial port is attached.
#[derive(Debug, Clone, Copy, PartialEq, Eq, Structural)]
pub enum SerialPortKind {
    Usb { vid: u16, pid: u16 },
    Pci,
    Bluetooth,
    Unknown,
}

pub open spec fn port_kind_text(kind: SerialPortKind) -> Seq<char> {
    match kind {
        SerialPortKind::Usb { vid, pid } => usb_port_text(vid, pid),
        SerialPortKind::Pci => "pci"@,
        SerialPortKind::Bluetooth => "bluetooth"@,
        SerialPortKind::Unknown => "unknown"@,
    }
}

/// The description of how a port is attached.
pub fn summarize_serial_port_type(kind: SerialPortKind) -> (s: String)
    ensures
        s@ == port_kind_text(kind),
{
    match kind {
        SerialPortKind::Usb { vid, pid } => usb_port_type(vid, pid),
        SerialPortKind::Pci => "pci".to_owned(),
        SerialPortKind::Bluetooth => "bluetooth".to_owned(),
        SerialPortKind::Unknown => "unknown".to_owned(),
    }
}

/// The summary of a port found on the machine.
pub fn summarize_serial_port(name: &str, kind: SerialPortKind) -> (s: SerialPortSummary)
    ensures
        s.name@ == name@,
        s.port_type@ == port_kind_text(kind),
        s.display@ == name@ + " ("@ + port_kind_text(kind) + ")"@,
{
    let port_type = summarize_serial_port_type(kind);
    let display = serial_port_display(name, port_type.as_str());
    SerialPortSummary { name: name.to_owned(), display, port_type }
}

/// `name (type)`.
pub fn serial_port_display(name: &str, port_type: &str) -> (s: String)
    ensures
        s@ == name@ + " ("@ + port_type@ + ")"@,
{
    let mut s = crate::util::text::concat(name, " (");
    s.append(port_type);
    s.append(")");
    s
}

} // verus!
