use vstd::prelude::*;

verus! {

/// Broad classification of a failure, shared by every tool response.
#[derive(Debug, Clone, Copy, PartialEq, Eq, Structural)]
pub enum ErrorCategory {
    HandleNotFound,
    InvalidState,
    InvalidArgument,
    ResourceBusy,
    ConnectTimeout,
    ReadTimeout,
    WriteFailed,
    BufferLimitExceeded,
}

/// Precise machine-readable failure code.
#[derive(Debug, Clone, Copy, PartialEq, Eq, Structural)]
pub enum ErrorCode {
    HandleNotFound,
    HandleReleased,
    SessionBindingMissing,
    StateNotAllowed,
    ConfigRequired,
    ConnectedReleaseRequiresForce,
    ErrorRequiresDisconnect,
    DisconnectingInProgress,
    SessionIdUnavailable,
    MissingRequiredField,
    InvalidFieldType,
    InvalidEnumValue,
    InvalidRange,
    TypeMismatch,
    InvalidAddress,
    ScanTargetNotAllowed,
    InvalidHex,
    TextEncodingFailed,
    ProtocolFrameInvalid,
    ProtocolChecksumFailed,
    SerialPortBusy,
    VisaResourceBusy,
    TcpListenAddrBusy,
    UdpBindAddrBusy,
    ResourceClosing,
    ResourceLockStale,
    ConnectTimeout,
    SerialOpenTimeout,
    VisaOpenTimeout,
    ScanTimeout,
    ReadTimeout,
    NoDataAvailable,
    WriteIoFailed,
    ReadIoFailed,
    TransportClosed,
    TaskFailed,
    DisconnectFailed,
    ReleaseFailed,
    TxQueueClosed,
    TxQueueFull,
    TxFrameTooLarge,
    PullMaxBytesExceeded,
    SubscriberPayloadTooLarge,
    SubscriberLimitExceeded,
    ScanRangeTooLarge,
    ResultTooLarge,
    FeatureNotCompiled,
    VisaRuntimeUnavailable,
    VisaEnumFailed,
    VisaOpenFailed,
    VisaWriteFailed,
    VisaReadFailed,
    VisaQueryIdnFailed,
    VisaResourceNotFound,
}

/// The name callers see for a code, in upper snake case.
pub open spec fn error_code_name(c: ErrorCode) -> Seq<char> {
    match c {
        ErrorCode::HandleNotFound => "HANDLE_NOT_FOUND"@,
        ErrorCode::HandleReleased => "HANDLE_RELEASED"@,
        ErrorCode::SessionBindingMissing => "SESSION_BINDING_MISSING"@,
        ErrorCode::StateNotAllowed => "STATE_NOT_ALLOWED"@,
        ErrorCode::ConfigRequired => "CONFIG_REQUIRED"@,
        ErrorCode::ConnectedReleaseRequiresForce => "CONNECTED_RELEASE_REQUIRES_FORCE"@,
        ErrorCode::ErrorRequiresDisconnect => "ERROR_REQUIRES_DISCONNECT"@,
        ErrorCode::DisconnectingInProgress => "DISCONNECTING_IN_PROGRESS"@,
        ErrorCode::SessionIdUnavailable => "SESSION_ID_UNAVAILABLE"@,
        ErrorCode::MissingRequiredField => "MISSING_REQUIRED_FIELD"@,
        ErrorCode::InvalidFieldType => "INVALID_FIELD_TYPE"@,
        ErrorCode::InvalidEnumValue => "INVALID_ENUM_VALUE"@,
        ErrorCode::InvalidRange => "INVALID_RANGE"@,
        ErrorCode::TypeMismatch => "TYPE_MISMATCH"@,
        ErrorCode::InvalidAddress => "INVALID_ADDRESS"@,
        ErrorCode::ScanTargetNotAllowed => "SCAN_TARGET_NOT_ALLOWED"@,
        ErrorCode::InvalidHex => "INVALID_HEX"@,
        ErrorCode::TextEncodingFailed => "TEXT_ENCODING_FAILED"@,
        ErrorCode::ProtocolFrameInvalid => "PROTOCOL_FRAME_INVALID"@,
        ErrorCode::ProtocolChecksumFailed => "PROTOCOL_CHECKSUM_FAILED"@,
        ErrorCode::SerialPortBusy => "SERIAL_PORT_BUSY"@,
        ErrorCode::VisaResourceBusy => "VISA_RESOURCE_BUSY"@,
        ErrorCode::TcpListenAddrBusy => "TCP_LISTEN_ADDR_BUSY"@,
        ErrorCode::UdpBindAddrBusy => "UDP_BIND_ADDR_BUSY"@,
        ErrorCode::ResourceClosing => "RESOURCE_CLOSING"@,
        ErrorCode::ResourceLockStale => "RESOURCE_LOCK_STALE"@,
        ErrorCode::ConnectTimeout => "CONNECT_TIMEOUT"@,
        ErrorCode::SerialOpenTimeout => "SERIAL_OPEN_TIMEOUT"@,
        ErrorCode::VisaOpenTimeout => "VISA_OPEN_TIMEOUT"@,
        ErrorCode::ScanTimeout => "SCAN_TIMEOUT"@,
        ErrorCode::ReadTimeout => "READ_TIMEOUT"@,
        ErrorCode::NoDataAvailable => "NO_DATA_AVAILABLE"@,
        ErrorCode::WriteIoFailed => "WRITE_IO_FAILED"@,
        ErrorCode::ReadIoFailed => "READ_IO_FAILED"@,
        ErrorCode::TransportClosed => "TRANSPORT_CLOSED"@,
        ErrorCode::TaskFailed => "TASK_FAILED"@,
        ErrorCode::DisconnectFailed => "DISCONNECT_FAILED"@,
        ErrorCode::ReleaseFailed => "RELEASE_FAILED"@,
        ErrorCode::TxQueueClosed => "TX_QUEUE_CLOSED"@,
        ErrorCode::TxQueueFull => "TX_QUEUE_FULL"@,
        ErrorCode::TxFrameTooLarge => "TX_FRAME_TOO_LARGE"@,
        ErrorCode::PullMaxBytesExceeded => "PULL_MAX_BYTES_EXCEEDED"@,
        ErrorCode::SubscriberPayloadTooLarge => "SUBSCRIBER_PAYLOAD_TOO_LARGE"@,
        ErrorCode::SubscriberLimitExceeded => "SUBSCRIBER_LIMIT_EXCEEDED"@,
        ErrorCode::ScanRangeTooLarge => "SCAN_RANGE_TOO_LARGE"@,
        ErrorCode::ResultTooLarge => "RESULT_TOO_LARGE"@,
        ErrorCode::FeatureNotCompiled => "FEATURE_NOT_COMPILED"@,
        ErrorCode::VisaRuntimeUnavailable => "VISA_RUNTIME_UNAVAILABLE"@,
        ErrorCode::VisaEnumFailed => "VISA_ENUM_FAILED"@,
        ErrorCode::VisaOpenFailed => "VISA_OPEN_FAILED"@,
        ErrorCode::VisaWriteFailed => "VISA_WRITE_FAILED"@,
        ErrorCode::VisaReadFailed => "VISA_READ_FAILED"@,
        ErrorCode::VisaQueryIdnFailed => "VISA_QUERY_IDN_FAILED"@,
        ErrorCode::VisaResourceNotFound => "VISA_RESOURCE_NOT_FOUND"@,
    }
}

impl ErrorCode {
    /// The name callers see for a code, in upper snake case.
    pub fn name(self) -> (s: &'static str)
        ensures
            s@ == error_code_name(self),
    {
        proof {
            reveal_strlit("HANDLE_NOT_FOUND");
            reveal_strlit("HANDLE_RELEASED");
            reveal_strlit("SESSION_BINDING_MISSING");
            reveal_strlit("STATE_NOT_ALLOWED");
            reveal_strlit("CONFIG_REQUIRED");
            reveal_strlit("CONNECTED_RELEASE_REQUIRES_FORCE");
            reveal_strlit("ERROR_REQUIRES_DISCONNECT");
            reveal_strlit("DISCONNECTING_IN_PROGRESS");
            reveal_strlit("SESSION_ID_UNAVAILABLE");
            reveal_strlit("MISSING_REQUIRED_FIELD");
            reveal_strlit("INVALID_FIELD_TYPE");
            reveal_strlit("INVALID_ENUM_VALUE");
            reveal_strlit("INVALID_RANGE");
            reveal_strlit("TYPE_MISMATCH");
            reveal_strlit("INVALID_ADDRESS");
            reveal_strlit("SCAN_TARGET_NOT_ALLOWED");
            reveal_strlit("INVALID_HEX");
            reveal_strlit("TEXT_ENCODING_FAILED");
            reveal_strlit("PROTOCOL_FRAME_INVALID");
            reveal_strlit("PROTOCOL_CHECKSUM_FAILED");
            reveal_strlit("SERIAL_PORT_BUSY");
            reveal_strlit("VISA_RESOURCE_BUSY");
            reveal_strlit("TCP_LISTEN_ADDR_BUSY");
            reveal_strlit("UDP_BIND_ADDR_BUSY");
            reveal_strlit("RESOURCE_CLOSING");
            reveal_strlit("RESOURCE_LOCK_STALE");
            reveal_strlit("CONNECT_TIMEOUT");
            reveal_strlit("SERIAL_OPEN_TIMEOUT");
            reveal_strlit("VISA_OPEN_TIMEOUT");
            reveal_strlit("SCAN_TIMEOUT");
            reveal_strlit("READ_TIMEOUT");
            reveal_strlit("NO_DATA_AVAILABLE");
            reveal_strlit("WRITE_IO_FAILED");
            reveal_strlit("READ_IO_FAILED");
            reveal_strlit("TRANSPORT_CLOSED");
            reveal_strlit("TASK_FAILED");
            reveal_strlit("DISCONNECT_FAILED");
            reveal_strlit("RELEASE_FAILED");
            reveal_strlit("TX_QUEUE_CLOSED");
            reveal_strlit("TX_QUEUE_FULL");
            reveal_strlit("TX_FRAME_TOO_LARGE");
            reveal_strlit("PULL_MAX_BYTES_EXCEEDED");
            reveal_strlit("SUBSCRIBER_PAYLOAD_TOO_LARGE");
            reveal_strlit("SUBSCRIBER_LIMIT_EXCEEDED");
            reveal_strlit("SCAN_RANGE_TOO_LARGE");
            reveal_strlit("RESULT_TOO_LARGE");
            reveal_strlit("FEATURE_NOT_COMPILED");
            reveal_strlit("VISA_RUNTIME_UNAVAILABLE");
            reveal_strlit("VISA_ENUM_FAILED");
            reveal_strlit("VISA_OPEN_FAILED");
            reveal_strlit("VISA_WRITE_FAILED");
            reveal_strlit("VISA_READ_FAILED");
            reveal_strlit("VISA_QUERY_IDN_FAILED");
            reveal_strlit("VISA_RESOURCE_NOT_FOUND");
        }
        match self {
            ErrorCode::HandleNotFound => "HANDLE_NOT_FOUND",
            ErrorCode::HandleReleased => "HANDLE_RELEASED",
            ErrorCode::SessionBindingMissing => "SESSION_BINDING_MISSING",
            ErrorCode::StateNotAllowed => "STATE_NOT_ALLOWED",
            ErrorCode::ConfigRequired => "CONFIG_REQUIRED",
            ErrorCode::ConnectedReleaseRequiresForce => "CONNECTED_RELEASE_REQUIRES_FORCE",
            ErrorCode::ErrorRequiresDisconnect => "ERROR_REQUIRES_DISCONNECT",
            ErrorCode::DisconnectingInProgress => "DISCONNECTING_IN_PROGRESS",
            ErrorCode::SessionIdUnavailable => "SESSION_ID_UNAVAILABLE",
            ErrorCode::MissingRequiredField => "MISSING_REQUIRED_FIELD",
            ErrorCode::InvalidFieldType => "INVALID_FIELD_TYPE",
            ErrorCode::InvalidEnumValue => "INVALID_ENUM_VALUE",
            ErrorCode::InvalidRange => "INVALID_RANGE",
            ErrorCode::TypeMismatch => "TYPE_MISMATCH",
            ErrorCode::InvalidAddress => "INVALID_ADDRESS",
            ErrorCode::ScanTargetNotAllowed => "SCAN_TARGET_NOT_ALLOWED",
            ErrorCode::InvalidHex => "INVALID_HEX",
            ErrorCode::TextEncodingFailed => "TEXT_ENCODING_FAILED",
            ErrorCode::ProtocolFrameInvalid => "PROTOCOL_FRAME_INVALID",
            ErrorCode::ProtocolChecksumFailed => "PROTOCOL_CHECKSUM_FAILED",
            ErrorCode::SerialPortBusy => "SERIAL_PORT_BUSY",
            ErrorCode::VisaResourceBusy => "VISA_RESOURCE_BUSY",
            ErrorCode::TcpListenAddrBusy => "TCP_LISTEN_ADDR_BUSY",
            ErrorCode::UdpBindAddrBusy => "UDP_BIND_ADDR_BUSY",
            ErrorCode::ResourceClosing => "RESOURCE_CLOSING",
            ErrorCode::ResourceLockStale => "RESOURCE_LOCK_STALE",
            ErrorCode::ConnectTimeout => "CONNECT_TIMEOUT",
            ErrorCode::SerialOpenTimeout => "SERIAL_OPEN_TIMEOUT",
            ErrorCode::VisaOpenTimeout => "VISA_OPEN_TIMEOUT",
            ErrorCode::ScanTimeout => "SCAN_TIMEOUT",
            ErrorCode::ReadTimeout => "READ_TIMEOUT",
            ErrorCode::NoDataAvailable => "NO_DATA_AVAILABLE",
            ErrorCode::WriteIoFailed => "WRITE_IO_FAILED",
            ErrorCode::ReadIoFailed => "READ_IO_FAILED",
            ErrorCode::TransportClosed => "TRANSPORT_CLOSED",
            ErrorCode::TaskFailed => "TASK_FAILED",
            ErrorCode::DisconnectFailed => "DISCONNECT_FAILED",
            ErrorCode::ReleaseFailed => "RELEASE_FAILED",
            ErrorCode::TxQueueClosed => "TX_QUEUE_CLOSED",
            ErrorCode::TxQueueFull => "TX_QUEUE_FULL",
            ErrorCode::TxFrameTooLarge => "TX_FRAME_TOO_LARGE",
            ErrorCode::PullMaxBytesExceeded => "PULL_MAX_BYTES_EXCEEDED",
            ErrorCode::SubscriberPayloadTooLarge => "SUBSCRIBER_PAYLOAD_TOO_LARGE",
            ErrorCode::SubscriberLimitExceeded => "SUBSCRIBER_LIMIT_EXCEEDED",
            ErrorCode::ScanRangeTooLarge => "SCAN_RANGE_TOO_LARGE",
            ErrorCode::ResultTooLarge => "RESULT_TOO_LARGE",
            ErrorCode::FeatureNotCompiled => "FEATURE_NOT_COMPILED",
            ErrorCode::VisaRuntimeUnavailable => "VISA_RUNTIME_UNAVAILABLE",
            ErrorCode::VisaEnumFailed => "VISA_ENUM_FAILED",
            ErrorCode::VisaOpenFailed => "VISA_OPEN_FAILED",
            ErrorCode::VisaWriteFailed => "VISA_WRITE_FAILED",
            ErrorCode::VisaReadFailed => "VISA_READ_FAILED",
            ErrorCode::VisaQueryIdnFailed => "VISA_QUERY_IDN_FAILED",
            ErrorCode::VisaResourceNotFound => "VISA_RESOURCE_NOT_FOUND",
        }
    }
}

/// The name callers see for a category.
pub open spec fn error_category_name(c: ErrorCategory) -> Seq<char> {
    match c {
        ErrorCategory::HandleNotFound => "HandleNotFound"@,
        ErrorCategory::InvalidState => "InvalidState"@,
        ErrorCategory::InvalidArgument => "InvalidArgument"@,
        ErrorCategory::ResourceBusy => "ResourceBusy"@,
        ErrorCategory::ConnectTimeout => "ConnectTimeout"@,
        ErrorCategory::ReadTimeout => "ReadTimeout"@,
        ErrorCategory::WriteFailed => "WriteFailed"@,
        ErrorCategory::BufferLimitExceeded => "BufferLimitExceeded"@,
    }
}

impl ErrorCategory {
    /// The name callers see for a category.
    pub fn name(self) -> (s: &'static str)
        ensures
            s@ == error_category_name(self),
    {
        proof {
            reveal_strlit("HandleNotFound");
            reveal_strlit("InvalidState");
            reveal_strlit("InvalidArgument");
            reveal_strlit("ResourceBusy");
            reveal_strlit("ConnectTimeout");
            reveal_strlit("ReadTimeout");
            reveal_strlit("WriteFailed");
            reveal_strlit("BufferLimitExceeded");
        }
        match self {
            ErrorCategory::HandleNotFound => "HandleNotFound",
            ErrorCategory::InvalidState => "InvalidState",
            ErrorCategory::InvalidArgument => "InvalidArgument",
            ErrorCategory::ResourceBusy => "ResourceBusy",
            ErrorCategory::ConnectTimeout => "ConnectTimeout",
            ErrorCategory::ReadTimeout => "ReadTimeout",
            ErrorCategory::WriteFailed => "WriteFailed",
            ErrorCategory::BufferLimitExceeded => "BufferLimitExceeded",
        }
    }
}

/// A value attached to an error under a detail key.
#[derive(Debug, Clone)]
pub enum DetailValue {
    Text(String),
    Number(u64),
    Flag(bool),
    TextList(Vec<String>),
    /// A flat object of named texts.
    Fields(Vec<(String, String)>),
}

/// The mathematical content of a [`DetailValue`].
pub enum DetailView {
    Text(Seq<char>),
    Number(int),
    Flag(bool),
    TextList(Seq<Seq<char>>),
    Fields(Seq<(Seq<char>, Seq<char>)>),
}

pub open spec fn text_views(v: Seq<String>) -> Seq<Seq<char>> {
    v.map_values(|s: String| s@)
}

pub open spec fn field_views(v: Seq<(String, String)>) -> Seq<(Seq<char>, Seq<char>)> {
    v.map_values(|f: (String, String)| (f.0@, f.1@))
}

pub open spec fn entry_views(v: Seq<(String, DetailValue)>) -> Seq<(Seq<char>, DetailView)> {
    v.map_values(|e: (String, DetailValue)| (e.0@, e.1@))
}

impl View for DetailValue {
    type V = DetailView;

    open spec fn view(&self) -> DetailView {
        match self {
            DetailValue::Text(s) => DetailView::Text(s@),
            DetailValue::Number(n) => DetailView::Number(*n as int),
            DetailValue::Flag(b) => DetailView::Flag(*b),
            DetailValue::TextList(v) => DetailView::TextList(text_views(v@)),
            DetailValue::Fields(v) => DetailView::Fields(field_views(v@)),
        }
    }
}

/// Ordered key/value details of an error.
#[derive(Debug, Clone)]
pub struct ErrorDetails {
    pub entries: Vec<(String, DetailValue)>,
}

impl View for ErrorDetails {
    type V = Seq<(Seq<char>, DetailView)>;

    open spec fn view(&self) -> Seq<(Seq<char>, DetailView)> {
        entry_views(self.entries@)
    }
}

impl DetailValue {
    /// A copy with the same contents.
    pub fn duplicate(&self) -> (d: Self)
        ensures
            d@ == self@,
    {
        match self {
            DetailValue::Text(s) => DetailValue::Text(s.clone()),
            DetailValue::Number(n) => DetailValue::Number(*n),
            DetailValue::Flag(b) => DetailValue::Flag(*b),
            DetailValue::TextList(v) => {
                let mut out: Vec<String> = Vec::new();
                let mut i: usize = 0;
                while i < v.len()
                    invariant
                        i <= v@.len(),
                        text_views(out@) =~= text_views(v@.take(i as int)),
                    decreases v@.len() - i,
                {
                    let ghost prev = out@;
                    out.push(v[i].clone());
                    proof {
                        assert(v@.take(i + 1) =~= v@.take(i as int).push(v@[i as int]));
                        assert(text_views(out@) =~= text_views(prev).push(v@[i as int]@));
                        assert(text_views(v@.take(i + 1)) =~= text_views(v@.take(i as int)).push(
                            v@[i as int]@,
                        ));
                    }
                    i = i + 1;
                }
                assert(v@.take(v@.len() as int) =~= v@);
                DetailValue::TextList(out)
            },
            DetailValue::Fields(v) => {
                let mut out: Vec<(String, String)> = Vec::new();
                let mut i: usize = 0;
                while i < v.len()
                    invariant
                        i <= v@.len(),
                        field_views(out@) =~= field_views(v@.take(i as int)),
                    decreases v@.len() - i,
                {
                    let ghost prev = out@;
                    out.push((v[i].0.clone(), v[i].1.clone()));
                    proof {
                        let x = v@[i as int];
                        assert(v@.take(i + 1) =~= v@.take(i as int).push(x));
                        assert(field_views(out@) =~= field_views(prev).push((x.0@, x.1@)));
                        assert(field_views(v@.take(i + 1)) =~= field_views(v@.take(i as int)).push(
                            (x.0@, x.1@),
                        ));
                    }
                    i = i + 1;
                }
                assert(v@.take(v@.len() as int) =~= v@);
                DetailValue::Fields(out)
            },
        }
    }
}

impl ErrorDetails {
    /// A copy with the same entries.
    pub fn duplicate(&self) -> (d: Self)
        ensures
            d@ == self@,
    {
        let mut out: Vec<(String, DetailValue)> = Vec::new();
        let mut i: usize = 0;
        while i < self.entries.len()
            invariant
                i <= self.entries@.len(),
                entry_views(out@) =~= entry_views(self.entries@.take(i as int)),
            decreases self.entries@.len() - i,
        {
            let ghost prev = out@;
            out.push((self.entries[i].0.clone(), self.entries[i].1.duplicate()));
            proof {
                let x = self.entries@[i as int];
                assert(self.entries@.take(i + 1) =~= self.entries@.take(i as int).push(x));
                assert(entry_views(out@) =~= entry_views(prev).push((x.0@, x.1@)));
                assert(entry_views(self.entries@.take(i + 1)) =~= entry_views(
                    self.entries@.take(i as int),
                ).push((x.0@, x.1@)));
            }
            i = i + 1;
        }
        assert(self.entries@.take(self.entries@.len() as int) =~= self.entries@);
        ErrorDetails { entries: out }
    }

    pub fn new() -> (d: Self)
        ensures
            d@ == Seq::<(Seq<char>, DetailView)>::empty(),
    {
        let d = ErrorDetails { entries: Vec::new() };
        assert(d@ =~= Seq::<(Seq<char>, DetailView)>::empty());
        d
    }

    pub fn with(self, key: &str, value: DetailValue) -> (d: Self)
        ensures
            d@ == self@.push((key@, value@)),
    {
        let mut entries = self.entries;
        let ghost before = entries@;
        entries.push((key.to_owned(), value));
        let d = ErrorDetails { entries };
        assert(d@ =~= self@.push((key@, value@))) by {
            assert(entries@ == before.push(entries@.last()));
        }
        d
    }
}

/// A structured failure returned by every fallible operation of the library.
#[derive(Debug, Clone)]
pub struct DomainError {
    pub category: ErrorCategory,
    pub code: ErrorCode,
    pub message: String,
    pub recovery_hint: String,
    pub retryable: bool,
    pub details: ErrorDetails,
}

/// `e` carries exactly this message and recovery hint.
pub open spec fn error_text(e: DomainError, message: Seq<char>, hint: Seq<char>) -> bool {
    &&& e.message@ == message
    &&& e.recovery_hint@ == hint
}

/// `e` has the given classification and no details.
pub open spec fn plain_error(
    e: DomainError,
    category: ErrorCategory,
    code: ErrorCode,
    retryable: bool,
) -> bool {
    &&& e.category == category
    &&& e.code == code
    &&& e.retryable == retryable
    &&& e.details@ == Seq::<(Seq<char>, DetailView)>::empty()
}

impl DomainError {
    pub fn new(
        category: ErrorCategory,
        code: ErrorCode,
        message: &str,
        recovery_hint: &str,
        retryable: bool,
    ) -> (e: Self)
        ensures
            plain_error(e, category, code, retryable),
            e.message@ == message@,
            e.recovery_hint@ == recovery_hint@,
    {
        DomainError {
            category,
            code,
            message: message.to_owned(),
            recovery_hint: recovery_hint.to_owned(),
            retryable,
            details: ErrorDetails::new(),
        }
    }

    pub fn invalid_argument(code: ErrorCode, message: &str, recovery_hint: &str) -> (e: Self)
        ensures
            plain_error(e, ErrorCategory::InvalidArgument, code, false),
            e.message@ == message@,
            e.recovery_hint@ == recovery_hint@,
    {
        Self::new(ErrorCategory::InvalidArgument, code, message, recovery_hint, false)
    }

    pub fn session_id_unavailable() -> (e: Self)
        ensures
            plain_error(e, ErrorCategory::InvalidState, ErrorCode::SessionIdUnavailable, false),
            error_text(
                e,
                "Stable MCP session id is unavailable in the current runtime mode."@,
                "Pass an explicit handle_id, or enable a runtime mode with stable session identity."@,
            ),
    {
        Self::new(
            ErrorCategory::InvalidState,
            ErrorCode::SessionIdUnavailable,
            "Stable MCP session id is unavailable in the current runtime mode.",
            "Pass an explicit handle_id, or enable a runtime mode with stable session identity.",
            false,
        )
    }

    pub fn read_timeout() -> (e: Self)
        ensures
            plain_error(e, ErrorCategory::ReadTimeout, ErrorCode::ReadTimeout, true),
            error_text(
                e,
                "No data was available before the read timeout elapsed."@,
                "Retry, increase timeout_ms, or subscribe to receive notifications."@,
            ),
    {
        Self::new(
            ErrorCategory::ReadTimeout,
            ErrorCode::ReadTimeout,
            "No data was available before the read timeout elapsed.",
            "Retry, increase timeout_ms, or subscribe to receive notifications.",
            true,
        )
    }

    pub fn protocol_frame_invalid(message: &str, recovery_hint: &str) -> (e: Self)
        ensures
            plain_error(e, ErrorCategory::InvalidArgument, ErrorCode::ProtocolFrameInvalid, false),
            e.message@ == message@,
            e.recovery_hint@ == recovery_hint@,
    {
        Self::invalid_argument(ErrorCode::ProtocolFrameInvalid, message, recovery_hint)
    }

    pub fn protocol_checksum_failed(message: &str, recovery_hint: &str) -> (e: Self)
        ensures
            plain_error(
                e,
                ErrorCategory::InvalidArgument,
                ErrorCode::ProtocolChecksumFailed,
                false,
            ),
            e.message@ == message@,
            e.recovery_hint@ == recovery_hint@,
    {
        Self::invalid_argument(ErrorCode::ProtocolChecksumFailed, message, recovery_hint)
    }

    pub fn feature_not_compiled(feature: &str, tool: &str) -> (e: Self)
        ensures
            e.category == ErrorCategory::InvalidState,
            e.code == ErrorCode::FeatureNotCompiled,
            !e.retryable,
            e.details@ == seq![
                ("feature"@, DetailView::Text(feature@)),
                ("tool"@, DetailView::Text(tool@)),
            ],
            error_text(
                e,
                "The requested backend feature is not compiled into this build."@,
                "Rebuild with the backend feature enabled, or use another transport."@,
            ),
    {
        Self::new(
            ErrorCategory::InvalidState,
            ErrorCode::FeatureNotCompiled,
            "The requested backend feature is not compiled into this build.",
            "Rebuild with the backend feature enabled, or use another transport.",
            false,
        ).with_detail("feature", DetailValue::Text(feature.to_owned())).with_detail(
            "tool",
            DetailValue::Text(tool.to_owned()),
        )
    }

    pub fn with_detail(self, key: &str, value: DetailValue) -> (e: Self)
        ensures
            e.category == self.category,
            e.code == self.code,
            e.retryable == self.retryable,
            e.message@ == self.message@,
            e.recovery_hint@ == self.recovery_hint@,
            e.details@ == self.details@.push((key@, value@)),
    {
        let DomainError { category, code, message, recovery_hint, retryable, details } = self;
        DomainError {
            category,
            code,
            message,
            recovery_hint,
            retryable,
            details: details.with(key, value),
        }
    }
}

} // verus!

verus! {

/// The last failure recorded on an instance.
#[derive(Debug, Clone)]
pub struct LastErrorSummary {
    pub error_id: crate::model::ids::ErrorId,
    pub at: crate::model::ids::Timestamp,
    pub tool: String,
    pub category: ErrorCategory,
    pub code: ErrorCode,
    pub message: String,
    pub recovery_hint: String,
    pub details: ErrorDetails,
}

/// Two error summaries say the same thing.
pub open spec fn same_last_error(a: LastErrorSummary, b: LastErrorSummary) -> bool {
    &&& a.error_id == b.error_id
    &&& a.at == b.at
    &&& a.tool == b.tool
    &&& a.category == b.category
    &&& a.code == b.code
    &&& a.message == b.message
    &&& a.recovery_hint == b.recovery_hint
    &&& a.details@ == b.details@
}

impl LastErrorSummary {
    /// A copy with the same contents.
    pub fn duplicate(&self) -> (e: Self)
        ensures
            same_last_error(e, *self),
    {
        LastErrorSummary {
            error_id: self.error_id.duplicate(),
            at: self.at.duplicate(),
            tool: self.tool.clone(),
            category: self.category,
            code: self.code,
            message: self.message.clone(),
            recovery_hint: self.recovery_hint.clone(),
            details: self.details.duplicate(),
        }
    }
}

} // verus!
