use mathcore::bridge::data_plane::{DataPlaneError, DataPlaneId, PlaneStats};
use mathcore::bridge::dma::DmaError;
use mathcore::bridge::mcp::McpServer;
use mathcore::bridge::record_batch::BatchMetadata;
use mathcore::cli::{split_assignment, Error as CliError};
use mathcore::mcp::server::{call_tool, route_request, McpFailure, McpRoute};
use mathcore::mcp::tools::MathCoreTools;

#[test]
fn split_assignment_accepts_name_value() {
    let (name, value) = split_assignment("x=3").unwrap();
    assert_eq!(name, "x");
    assert_eq!(value, "3");

    let (name, value) = split_assignment("y = 3.14").unwrap();
    assert_eq!(name, "y");
    assert_eq!(value.trim().parse::<f64>().unwrap(), 3.14);

    // Only the first `=` splits.
    let (name, value) = split_assignment("a=b=c").unwrap();
    assert_eq!(name, "a");
    assert_eq!(value, "b=c");
}

#[test]
fn split_assignment_rejects_malformed() {
    match split_assignment("x") {
        Err(CliError::InvalidArgument(m)) => {
            assert_eq!(m, "Invalid variable format: 'x'. Expected NAME=VALUE")
        }
        _ => panic!("expected an invalid argument"),
    }
    match split_assignment(" =3") {
        Err(CliError::InvalidArgument(m)) => {
            assert_eq!(m, "Invalid variable format: ' =3'. Name cannot be empty")
        }
        _ => panic!("expected an invalid argument"),
    }
}

#[test]
fn cli_error_messages() {
    assert_eq!(CliError::Parse("p".to_string()).to_string(), "Parse error: p");
    assert_eq!(CliError::Execution("e".to_string()).to_string(), "Execution error: e");
    assert_eq!(CliError::InvalidArgument("a".to_string()).to_string(), "Invalid argument: a");
}

#[test]
fn tools_produce_their_texts() {
    let tools = MathCoreTools::new();
    assert_eq!(tools.evaluate("1+1"), "evaluated: 1+1");
    assert_eq!(tools.simplify("x + 0 - 0 + 0"), "x");
    assert_eq!(tools.simplify("x + 01"), "x1");
    assert_eq!(tools.derivative("x^2", "x"), "d/dx of x^2");
    assert_eq!(tools.integrate("x", "x"), "∫x dx");
    assert_eq!(tools.solve("x=1", "x"), vec!["solution of x=1 for x".to_string()]);
    assert_eq!(tools.expand("(a+b)^2"), "expanded: (a+b)^2");
    assert_eq!(tools.factor("a^2-b^2"), "factored: a^2-b^2");
    assert_eq!(tools.substitute("x+y", "x=1"), "x+y with x=1");
    assert_eq!(tools.limit("1/x", "x", "inf"), "lim(x->inf) 1/x");
    assert_eq!(tools.series("sin(x)", "x", "0", 5), "series of sin(x) at x=0 to order 5");
}

#[test]
fn data_plane_values() {
    assert_eq!(DataPlaneId::new("plane").0, "plane");
    assert_eq!(DataPlaneError::BatchNotFound("b1".to_string()).to_string(), "Batch not found: b1");
    assert_eq!(DataPlaneError::SchemaNotFound("s".to_string()).to_string(), "Schema not found: s");
    assert_eq!(DataPlaneError::Internal("i".to_string()).to_string(), "Data plane error: i");
    let mut stats = PlaneStats::new();
    assert_eq!(stats.access_count, 0);
    assert!(stats.created_at > 0);
    stats.record_access();
    stats.record_buffer_add();
    stats.record_buffer_add();
    stats.record_buffer_remove();
    assert_eq!(stats.access_count, 1);
    assert_eq!(stats.buffer_add_count, 2);
    assert_eq!(stats.buffer_remove_count, 1);
}

#[test]
fn dma_error_messages() {
    assert_eq!(DmaError::PoolExhausted.to_string(), "Pool exhausted");
    assert_eq!(DmaError::AllocationFailed("x".to_string()).to_string(), "Memory allocation failed: x");
    assert_eq!(DmaError::InvalidOperation("y".to_string()).to_string(), "Invalid operation: y");
    let io = std::io::Error::new(std::io::ErrorKind::Other, "disk full");
    assert_eq!(DmaError::Io(io).to_string(), "IO error: disk full");
}

#[test]
fn batch_metadata_default_and_server() {
    let meta = BatchMetadata::default();
    assert_eq!(meta.num_rows, 0);
    assert!(meta.batch_id.is_none());
    assert!(meta.created_at.is_none());
    assert_eq!(McpServer::new().handle(b"{}").unwrap(), Vec::<u8>::new());
}

#[test]
fn mcp_requests_are_routed_by_method() {
    assert_eq!(route_request("tools/list", false, None, false), McpRoute::ListTools);
    assert_eq!(route_request("initialize", true, None, false), McpRoute::Initialize);
    assert_eq!(
        route_request("tools/call", true, Some("evaluate"), true),
        McpRoute::CallTool { name: "evaluate".to_string() }
    );
    assert_eq!(
        route_request("tools/call", false, None, false),
        McpRoute::Failure { kind: McpFailure::InvalidParams, message: "Missing params".to_string() }
    );
    assert_eq!(
        route_request("tools/call", true, Some("evaluate"), false),
        McpRoute::Failure { kind: McpFailure::InvalidParams, message: "Missing tool name or arguments".to_string() }
    );
    assert_eq!(
        route_request("tools/call", true, None, true),
        McpRoute::Failure { kind: McpFailure::InvalidParams, message: "Missing tool name or arguments".to_string() }
    );
    assert_eq!(
        route_request("ping", true, None, true),
        McpRoute::Failure { kind: McpFailure::MethodNotFound, message: "Unknown method: ping".to_string() }
    );
}

#[test]
fn mcp_tool_calls_use_defaults_and_reject_unknown_tools() {
    let tools = MathCoreTools::new();
    assert_eq!(call_tool(&tools, "evaluate", Some("2+3"), None), Ok("evaluated: 2+3".to_string()));
    assert_eq!(call_tool(&tools, "evaluate", None, None), Ok("evaluated: x^2".to_string()));
    assert_eq!(call_tool(&tools, "simplify", None, None), Ok("x".to_string()));
    assert_eq!(call_tool(&tools, "derivative", Some("y^3"), Some("y")), Ok("d/dy of y^3".to_string()));
    assert_eq!(call_tool(&tools, "integrate", None, None), Ok("∫x^2 dx".to_string()));
    assert_eq!(call_tool(&tools, "solve", None, None), Err("Unknown tool: solve".to_string()));
}
