use mathcore::kernel::protocol::{
    ClientCapabilities, ComputeParams, ComputeRequest, ComputeResponse, ErrorCode, MsgHeader, MsgPayload,
    MsgType, ProtocolMessage, Topic, ValidateResponse, ValidationError, ValidationSeverity, VersionNegotiation,
    PROTOCOL_VERSION, SUPPORTED_VERSIONS,
};

#[test]
fn test_msg_header_new() {
    let header = MsgHeader::new(MsgType::Compute, 123);
    assert_eq!(header.version, PROTOCOL_VERSION);
    assert_eq!(header.msg_type, MsgType::Compute);
    assert_eq!(header.request_id, 123);
}

#[test]
fn test_msg_type_name() {
    assert_eq!(MsgType::Compute.name(), "Compute");
    assert_eq!(MsgType::Heartbeat.name(), "Heartbeat");
}

#[test]
fn test_version_negotiation() {
    let mut negotiation = VersionNegotiation::request(vec![6, 5, 4]);
    let version = negotiation.negotiate();
    assert_eq!(version, Some(6));
    assert!(VersionNegotiation::is_compatible(6));
    assert!(!VersionNegotiation::is_compatible(99));
}

#[test]
fn test_protocol_version() {
    assert_eq!(PROTOCOL_VERSION, 6);
    assert!(SUPPORTED_VERSIONS.contains(&6));
}

#[test]
fn test_msg_header_version_supported() {
    let header = MsgHeader::new(MsgType::Compute, 1);
    assert!(header.is_version_supported());
}

#[test]
fn test_msg_header_version_not_supported() {
    let mut header = MsgHeader::new(MsgType::Compute, 1);
    header.version = 99;
    assert!(!header.is_version_supported());
}

#[test]
fn test_msg_type_display() {
    assert_eq!(MsgType::Compute.to_string(), "Compute");
    assert_eq!(MsgType::Heartbeat.to_string(), "Heartbeat");
}

#[test]
fn test_compute_params_default() {
    let params = ComputeParams::default();
    assert!(params.precision.is_none());
    assert!(params.timeout_ms.is_none());
    assert!(params.simplify.is_none());
}

#[test]
fn test_compute_params_with_values() {
    let params = ComputeParams {
        precision: Some(256),
        timeout_ms: Some(5000),
        simplify: Some(true),
        options: Some([("key".to_string(), "value".to_string())].into_iter().collect()),
    };
    assert_eq!(params.precision, Some(256));
    assert_eq!(params.timeout_ms, Some(5000));
}

#[test]
fn test_compute_response() {
    let response = ComputeResponse {
        result: "42".to_string(),
        result_type: "Integer".to_string(),
        success: true,
        error: None,
        compute_time_us: Some(1000),
    };
    assert!(response.success);
    assert_eq!(response.result, "42");
}

#[test]
fn test_compute_response_with_error() {
    let response = ComputeResponse {
        result: String::new(),
        result_type: "Error".to_string(),
        success: false,
        error: Some("Division by zero".to_string()),
        compute_time_us: Some(500),
    };
    assert!(!response.success);
    assert!(response.error.is_some());
}

#[test]
fn test_validation_error() {
    let error = ValidationError {
        message: "Unexpected token".to_string(),
        position: Some(5),
        severity: ValidationSeverity::Error,
    };
    assert_eq!(error.position, Some(5));
    assert_eq!(error.severity, ValidationSeverity::Error);
}

#[test]
fn test_validation_error_warning() {
    let error = ValidationError {
        message: "Suspicious pattern".to_string(),
        position: None,
        severity: ValidationSeverity::Warning,
    };
    assert_eq!(error.severity, ValidationSeverity::Warning);
}

#[test]
fn test_validation_error_info() {
    let error = ValidationError {
        message: "Info message".to_string(),
        position: Some(10),
        severity: ValidationSeverity::Info,
    };
    assert_eq!(error.severity, ValidationSeverity::Info);
}

#[test]
fn test_validation_response() {
    let response = ValidateResponse { valid: true, errors: vec![] };
    assert!(response.valid);
    assert!(response.errors.is_empty());
}

#[test]
fn test_validation_response_invalid() {
    let response = ValidateResponse {
        valid: false,
        errors: vec![
            ValidationError {
                message: "Error 1".to_string(),
                position: Some(1),
                severity: ValidationSeverity::Error,
            },
            ValidationError {
                message: "Error 2".to_string(),
                position: Some(5),
                severity: ValidationSeverity::Warning,
            },
        ],
    };
    assert!(!response.valid);
    assert_eq!(response.errors.len(), 2);
}

#[test]
fn test_error_code_values() {
    assert_eq!(ErrorCode::UnsupportedVersion.code(), 1001);
    assert_eq!(ErrorCode::InvalidFormat.code(), 1002);
    assert_eq!(ErrorCode::ComputeError.code(), 2001);
    assert_eq!(ErrorCode::ValidationFailed.code(), 2002);
    assert_eq!(ErrorCode::Timeout.code(), 3001);
    assert_eq!(ErrorCode::InternalError.code(), 5001);
    assert_eq!(ErrorCode::NotFound.code(), 4001);
    assert_eq!(ErrorCode::PermissionDenied.code(), 4003);
}

#[test]
fn test_version_negotiation_no_common() {
    let mut negotiation = VersionNegotiation::request(vec![99, 98, 97]);
    let version = negotiation.negotiate();
    assert_eq!(version, None);
}

#[test]
fn test_version_negotiation_partial() {
    let mut negotiation = VersionNegotiation::request(vec![5, 4, 3]);
    let version = negotiation.negotiate();
    assert_eq!(version, Some(5));
}

#[test]
fn negotiation_picks_newest_in_any_order_and_records_it() {
    let mut negotiation = VersionNegotiation::request(vec![3, 4, 9, 5, 4]);
    assert_eq!(negotiation.negotiate(), Some(5));
    assert_eq!(negotiation.negotiated_version, Some(5));
    assert_eq!(negotiation.server_versions, vec![6, 5, 4]);
    let mut empty = VersionNegotiation::request(vec![]);
    assert_eq!(empty.negotiate(), None);
}

#[test]
fn test_client_capabilities_default() {
    let caps = ClientCapabilities::default();
    assert!(!caps.compression);
    assert!(!caps.batching);
    assert!(caps.max_message_size.is_none());
}

#[test]
fn test_protocol_message_new() {
    let msg = ProtocolMessage::new(
        MsgPayload::Compute(ComputeRequest { expression: "x".to_string(), params: ComputeParams::default() }),
        42,
    );
    assert_eq!(msg.header.request_id, 42);
    assert_eq!(msg.header.msg_type, MsgType::Compute);
}

#[test]
fn payload_kinds() {
    assert_eq!(MsgPayload::Subscribe(Topic::new("prices")).msg_type(), MsgType::Subscribe);
    assert_eq!(MsgPayload::Unsubscribe(Topic::new("prices")).msg_type(), MsgType::Unsubscribe);
    assert_eq!(Topic::new("prices").0, "prices");
}
