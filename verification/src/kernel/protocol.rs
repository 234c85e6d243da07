//! The message protocol (version 6): headers, payloads, error codes and the
//! negotiation of a common protocol version.

use vstd::prelude::*;
use crate::clock::unix_millis;
use crate::text::to_owned_string;

verus! {

/// The protocol version this side speaks.
pub const PROTOCOL_VERSION: u8 = 6;

/// The protocol versions this side accepts, newest first.
pub const SUPPORTED_VERSIONS: [u8; 3] = [6, 5, 4];

/// Whether a version is one of the supported ones (6, 5 or 4).
pub open spec fn supported(v: u8) -> bool {
    v == 6 || v == 5 || v == 4
}

/// Whether `v` is in [`SUPPORTED_VERSIONS`].
fn is_supported(v: u8) -> (r: bool)
    ensures
        r == supported(v),
{
    v == 6 || v == 5 || v == 4
}

/// Message kinds.
#[derive(Debug, Clone, Copy, PartialEq, Eq, Structural)]
pub enum MsgType {
    Compute,
    ComputeResponse,
    Validate,
    ValidateResponse,
    Subscribe,
    Unsubscribe,
    Heartbeat,
    Error,
}

/// The name of a message kind.
pub open spec fn msg_type_name(t: MsgType) -> Seq<char> {
    match t {
        MsgType::Compute => "Compute"@,
        MsgType::ComputeResponse => "ComputeResponse"@,
        MsgType::Validate => "Validate"@,
        MsgType::ValidateResponse => "ValidateResponse"@,
        MsgType::Subscribe => "Subscribe"@,
        MsgType::Unsubscribe => "Unsubscribe"@,
        MsgType::Heartbeat => "Heartbeat"@,
        MsgType::Error => "Error"@,
    }
}

impl MsgType {
    /// The name of the message kind, such as `Compute`.
    pub fn name(&self) -> (r: &'static str)
        ensures
            r@ == msg_type_name(*self),
    {
        match self {
            MsgType::Compute => "Compute",
            MsgType::ComputeResponse => "ComputeResponse",
            MsgType::Validate => "Validate",
            MsgType::ValidateResponse => "ValidateResponse",
            MsgType::Subscribe => "Subscribe",
            MsgType::Unsubscribe => "Unsubscribe",
            MsgType::Heartbeat => "Heartbeat",
            MsgType::Error => "Error",
        }
    }

    /// The displayed form: the name.
    pub fn to_string(&self) -> (r: String)
        ensures
            r@ == msg_type_name(*self),
    {
        to_owned_string(self.name())
    }
}

/// The header of every message.
#[derive(Debug, Clone, Copy, PartialEq, Eq, Structural)]
pub struct MsgHeader {
    pub version: u8,
    pub msg_type: MsgType,
    pub request_id: u64,
    /// Milliseconds since the Unix epoch when the header was made.
    pub timestamp: u64,
}

impl MsgHeader {
    /// A header of the current protocol version, stamped with the wall clock.
    pub fn new(msg_type: MsgType, request_id: u64) -> (r: Self)
        ensures
            r.version == PROTOCOL_VERSION,
            r.msg_type == msg_type,
            r.request_id == request_id,
    {
        MsgHeader { version: PROTOCOL_VERSION, msg_type, request_id, timestamp: unix_millis() }
    }

    /// Whether the header's version is one of [`SUPPORTED_VERSIONS`].
    pub fn is_version_supported(&self) -> (r: bool)
        ensures
            r == supported(self.version),
    {
        is_supported(self.version)
    }
}

/// Parameters of a computation.
#[derive(Debug, Clone)]
pub struct ComputeParams {
    pub precision: Option<u32>,
    pub timeout_ms: Option<u64>,
    pub simplify: Option<bool>,
    pub options: Option<std::collections::HashMap<String, String>>,
}

impl Default for ComputeParams {
    /// No parameter set.
    fn default() -> (r: Self)
        ensures
            r.precision is None,
            r.timeout_ms is None,
            r.simplify is None,
            r.options is None,
    {
        ComputeParams { precision: None, timeout_ms: None, simplify: None, options: None }
    }
}

/// A request to evaluate an expression.
#[derive(Debug, Clone)]
pub struct ComputeRequest {
    pub expression: String,
    pub params: ComputeParams,
}

/// The answer to a computation.
#[derive(Debug, Clone)]
pub struct ComputeResponse {
    pub result: String,
    pub result_type: String,
    pub success: bool,
    pub error: Option<String>,
    pub compute_time_us: Option<u64>,
}

/// A named validation rule with optional parameters.
#[derive(Debug, Clone)]
pub struct ValidationRule {
    pub name: String,
    pub params: Option<std::collections::HashMap<String, String>>,
}

/// A request to validate an expression against rules.
#[derive(Debug, Clone)]
pub struct ValidateRequest {
    pub expression: String,
    pub rules: Vec<ValidationRule>,
}

/// How serious a validation finding is.
#[derive(Debug, Clone, Copy, PartialEq, Eq, Structural)]
pub enum ValidationSeverity {
    Error,
    Warning,
    Info,
}

/// One validation finding.
#[derive(Debug, Clone)]
pub struct ValidationError {
    pub message: String,
    pub position: Option<usize>,
    pub severity: ValidationSeverity,
}

/// The answer to a validation request.
#[derive(Debug, Clone)]
pub struct ValidateResponse {
    pub valid: bool,
    pub errors: Vec<ValidationError>,
}

/// A subscription topic.
#[derive(Debug, Clone)]
pub struct Topic(pub String);

impl Topic {
    /// The topic with the given name.
    pub fn new(name: &str) -> (r: Self)
        ensures
            r.0@ == name@,
    {
        Topic(to_owned_string(name))
    }
}

/// What a client can do.
#[derive(Debug, Clone, Copy, PartialEq, Eq, Structural)]
pub struct ClientCapabilities {
    pub compression: bool,
    pub batching: bool,
    pub max_message_size: Option<u32>,
}

impl Default for ClientCapabilities {
    /// No compression, no batching, no size limit.
    fn default() -> (r: Self)
        ensures
            r == (ClientCapabilities { compression: false, batching: false, max_message_size: None }),
    {
        ClientCapabilities { compression: false, batching: false, max_message_size: None }
    }
}

/// A keep-alive from a client.
#[derive(Debug, Clone)]
pub struct Heartbeat {
    pub client_id: String,
    pub last_msg_id: Option<u64>,
    pub capabilities: Option<ClientCapabilities>,
}

/// Protocol error codes.
#[derive(Debug, Clone, Copy, PartialEq, Eq, Structural)]
pub enum ErrorCode {
    UnsupportedVersion,
    InvalidFormat,
    ComputeError,
    ValidationFailed,
    Timeout,
    InternalError,
    NotFound,
    PermissionDenied,
}

/// The numeric value of an error code: 1xxx for protocol, 2xxx for
/// computation, 3xxx for time, 4xxx for access and 5xxx for internal errors.
pub open spec fn error_code_value(c: ErrorCode) -> u16 {
    match c {
        ErrorCode::UnsupportedVersion => 1001,
        ErrorCode::InvalidFormat => 1002,
        ErrorCode::ComputeError => 2001,
        ErrorCode::ValidationFailed => 2002,
        ErrorCode::Timeout => 3001,
        ErrorCode::InternalError => 5001,
        ErrorCode::NotFound => 4001,
        ErrorCode::PermissionDenied => 4003,
    }
}

impl ErrorCode {
    /// The numeric value of the code.
    pub fn code(&self) -> (r: u16)
        ensures
            r == error_code_value(*self),
    {
        match self {
            ErrorCode::UnsupportedVersion => 1001,
            ErrorCode::InvalidFormat => 1002,
            ErrorCode::ComputeError => 2001,
            ErrorCode::ValidationFailed => 2002,
            ErrorCode::Timeout => 3001,
            ErrorCode::InternalError => 5001,
            ErrorCode::NotFound => 4001,
            ErrorCode::PermissionDenied => 4003,
        }
    }
}

/// An error answer.
#[derive(Debug, Clone)]
pub struct ErrorResponse {
    pub code: ErrorCode,
    pub message: String,
    pub request_id: Option<u64>,
}

/// The body of a message.
#[derive(Debug, Clone)]
pub enum MsgPayload {
    Compute(ComputeRequest),
    ComputeResponse(ComputeResponse),
    Validate(ValidateRequest),
    ValidateResponse(ValidateResponse),
    Subscribe(Topic),
    Unsubscribe(Topic),
    Heartbeat(Heartbeat),
    Error(ErrorResponse),
}

/// The message kind that a payload travels as.
pub open spec fn payload_type(p: MsgPayload) -> MsgType {
    match p {
        MsgPayload::Compute(_) => MsgType::Compute,
        MsgPayload::ComputeResponse(_) => MsgType::ComputeResponse,
        MsgPayload::Validate(_) => MsgType::Validate,
        MsgPayload::ValidateResponse(_) => MsgType::ValidateResponse,
        MsgPayload::Subscribe(_) => MsgType::Subscribe,
        MsgPayload::Unsubscribe(_) => MsgType::Unsubscribe,
        MsgPayload::Heartbeat(_) => MsgType::Heartbeat,
        MsgPayload::Error(_) => MsgType::Error,
    }
}

impl MsgPayload {
    /// The message kind of the payload.
    pub fn msg_type(&self) -> (r: MsgType)
        ensures
            r == payload_type(*self),
    {
        match self {
            MsgPayload::Compute(_) => MsgType::Compute,
            MsgPayload::ComputeResponse(_) => MsgType::ComputeResponse,
            MsgPayload::Validate(_) => MsgType::Validate,
            MsgPayload::ValidateResponse(_) => MsgType::ValidateResponse,
            MsgPayload::Subscribe(_) => MsgType::Subscribe,
            MsgPayload::Unsubscribe(_) => MsgType::Unsubscribe,
            MsgPayload::Heartbeat(_) => MsgType::Heartbeat,
            MsgPayload::Error(_) => MsgType::Error,
        }
    }
}

/// A header and a payload.
#[derive(Debug, Clone)]
pub struct ProtocolMessage {
    pub header: MsgHeader,
    pub payload: MsgPayload,
}

impl ProtocolMessage {
    /// A message of the current version whose header names the payload's kind.
    pub fn new(payload: MsgPayload, request_id: u64) -> (r: Self)
        ensures
            r.payload == payload,
            r.header.version == PROTOCOL_VERSION,
            r.header.msg_type == payload_type(payload),
            r.header.request_id == request_id,
    {
        let t = payload.msg_type();
        ProtocolMessage { header: MsgHeader::new(t, request_id), payload }
    }
}

/// Whether `v` occurs in the sequence and is supported.
pub open spec fn common(client: Seq<u8>, v: u8) -> bool {
    client.contains(v) && supported(v)
}

/// The newest version that the client offers and this side supports, if any.
pub open spec fn newest_common(client: Seq<u8>) -> Option<u8> {
    if exists|v: u8| common(client, v) {
        Some(choose|v: u8| common(client, v) && forall|u: u8| common(client, u) ==> u <= v)
    } else {
        None
    }
}

/// A version negotiation between a client and this side.
#[derive(Debug, Clone)]
pub struct VersionNegotiation {
    pub client_versions: Vec<u8>,
    pub server_versions: Vec<u8>,
    pub negotiated_version: Option<u8>,
}

impl VersionNegotiation {
    /// A negotiation for the client's versions against [`SUPPORTED_VERSIONS`].
    pub fn request(client_versions: Vec<u8>) -> (r: Self)
        ensures
            r.client_versions@ == client_versions@,
            r.server_versions@ == seq![6u8, 5u8, 4u8],
            r.negotiated_version is None,
    {
        VersionNegotiation { client_versions, server_versions: vec![6u8, 5u8, 4u8], negotiated_version: None }
    }

    /// Settles on the newest version that both sides support, or none, and
    /// records it.
    pub fn negotiate(&mut self) -> (r: Option<u8>)
        ensures
            r == newest_common(old(self).client_versions@),
            r matches Some(v) ==> common(old(self).client_versions@, v) && forall|u: u8|
                common(old(self).client_versions@, u) ==> u <= v,
            r is None <==> forall|u: u8| !common(old(self).client_versions@, u),
            final(self).negotiated_version == r,
            final(self).client_versions == old(self).client_versions,
            final(self).server_versions == old(self).server_versions,
    {
        let mut best: Option<u8> = None;
        let n = self.client_versions.len();
        let ghost client = self.client_versions@;
        for i in 0..n
            invariant
                n == client.len(),
                client == self.client_versions@,
                best matches Some(v) ==> common(client, v) && forall|u: u8|
                    client.take(i as int).contains(u) && supported(u) ==> u <= v,
                best is None ==> forall|u: u8| client.take(i as int).contains(u) ==> !supported(u),
        {
            let v = self.client_versions[i];
            proof {
                assert forall|u: u8| client.take(i + 1).contains(u) implies client.take(i as int).contains(u)
                    || u == v by {
                    let k = choose|k: int| 0 <= k < i + 1 && #[trigger] client.take(i + 1)[k] == u;
                    if k < i {
                        assert(client.take(i as int)[k] == u);
                    }
                }
                assert(client.take(i + 1)[i as int] == v);
                assert(client[i as int] == v);
            }
            if is_supported(v) {
                match best {
                    Some(b) => {
                        if v > b {
                            best = Some(v);
                        }
                    },
                    None => {
                        best = Some(v);
                    },
                }
            }
        }
        proof {
            assert(client.take(n as int) =~= client);
            if let Some(v) = best {
                assert(forall|u: u8| common(client, u) ==> u <= v);
                assert(common(client, v));
                let c = choose|w: u8| common(client, w) && forall|u: u8| common(client, u) ==> u <= w;
                assert(common(client, c) && forall|u: u8| common(client, u) ==> u <= c);
                assert(c <= v && v <= c);
            }
        }
        self.negotiated_version = best;
        best
    }

    /// Whether a version is one of [`SUPPORTED_VERSIONS`].
    pub fn is_compatible(version: u8) -> (r: bool)
        ensures
            r == supported(version),
    {
        is_supported(version)
    }
}

} // verus!
