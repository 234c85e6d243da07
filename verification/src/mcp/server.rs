//! The decisions of the protocol server: how a request is routed by its
//! method and parameters, and which tool a call runs with which arguments.
//! Reading requests and writing replies happen around them.

use vstd::prelude::*;
use crate::kernel::validation::types::str_eq;
use crate::mcp::tools::MathCoreTools;
use crate::text::{prefixed, to_owned_string};

verus! {

/// The kinds of error a request can be answered with.
#[derive(Debug, Clone, Copy, PartialEq, Eq, Structural)]
pub enum McpFailure {
    InvalidParams,
    MethodNotFound,
    InternalError,
}

/// Where a request goes, as plain values.
pub enum McpRouteView {
    ListTools,
    CallTool { name: Seq<char> },
    Initialize,
    Failure { kind: McpFailure, message: Seq<char> },
}

/// Where a request goes: the tool list, a tool call, the handshake, or an
/// error answer.
#[derive(Debug, Clone, PartialEq)]
pub enum McpRoute {
    ListTools,
    CallTool { name: String },
    Initialize,
    Failure { kind: McpFailure, message: String },
}

impl View for McpRoute {
    type V = McpRouteView;

    open spec fn view(&self) -> McpRouteView {
        match self {
            McpRoute::ListTools => McpRouteView::ListTools,
            McpRoute::CallTool { name } => McpRouteView::CallTool { name: name@ },
            McpRoute::Initialize => McpRouteView::Initialize,
            McpRoute::Failure { kind, message } => McpRouteView::Failure { kind: *kind, message: message@ },
        }
    }
}

/// The route of a request with method `method`: `tools/list` lists the
/// tools; `tools/call` needs parameters, then a tool name (a string) and
/// arguments (an object); `initialize` answers the handshake; any other
/// method is unknown.
pub open spec fn mcp_route(
    method: Seq<char>,
    has_params: bool,
    tool_name: Option<Seq<char>>,
    has_arguments: bool,
) -> McpRouteView {
    if method == "tools/list"@ {
        McpRouteView::ListTools
    } else if method == "tools/call"@ {
        if !has_params {
            McpRouteView::Failure { kind: McpFailure::InvalidParams, message: "Missing params"@ }
        } else if tool_name is Some && has_arguments {
            McpRouteView::CallTool { name: tool_name->0 }
        } else {
            McpRouteView::Failure { kind: McpFailure::InvalidParams, message: "Missing tool name or arguments"@ }
        }
    } else if method == "initialize"@ {
        McpRouteView::Initialize
    } else {
        McpRouteView::Failure { kind: McpFailure::MethodNotFound, message: "Unknown method: "@ + method }
    }
}

/// Routes a request by its method, whether it has parameters, the tool name
/// among them (when it is a string) and whether its arguments are an object.
pub fn route_request(method: &str, has_params: bool, tool_name: Option<&str>, has_arguments: bool) -> (r: McpRoute)
    ensures
        r@ == mcp_route(
            method@,
            has_params,
            match tool_name {
                Some(n) => Some(n@),
                None => None,
            },
            has_arguments,
        ),
{
    if str_eq(method, "tools/list") {
        McpRoute::ListTools
    } else if str_eq(method, "tools/call") {
        if !has_params {
            McpRoute::Failure { kind: McpFailure::InvalidParams, message: to_owned_string("Missing params") }
        } else {
            match tool_name {
                Some(name) if has_arguments => McpRoute::CallTool { name: to_owned_string(name) },
                _ => McpRoute::Failure {
                    kind: McpFailure::InvalidParams,
                    message: to_owned_string("Missing tool name or arguments"),
                },
            }
        }
    } else if str_eq(method, "initialize") {
        McpRoute::Initialize
    } else {
        let m = to_owned_string(method);
        McpRoute::Failure { kind: McpFailure::MethodNotFound, message: prefixed("Unknown method: ", &m) }
    }
}

/// The argument given, or the default when it is missing (or not a string).
pub open spec fn or_default(given: Option<Seq<char>>, default: Seq<char>) -> Seq<char> {
    match given {
        Some(g) => g,
        None => default,
    }
}

/// The answer of the tool `name` with the given `expression` and `variable`
/// arguments: the tool's text, or the message of an unknown tool. A missing
/// expression reads as `x^2` (as `x + 0` for `simplify`), a missing variable
/// as `x`.
pub open spec fn tool_answer(
    name: Seq<char>,
    expression: Option<Seq<char>>,
    variable: Option<Seq<char>>,
) -> Result<Seq<char>, Seq<char>> {
    let var = or_default(variable, "x"@);
    if name == "evaluate"@ {
        Ok("evaluated: "@ + or_default(expression, "x^2"@))
    } else if name == "simplify"@ {
        Ok(
            crate::text::replace_all(
                crate::text::replace_all(or_default(expression, "x + 0"@), " + 0"@, ""@),
                " - 0"@,
                ""@,
            ),
        )
    } else if name == "derivative"@ {
        Ok("d/d"@ + var + " of "@ + or_default(expression, "x^2"@))
    } else if name == "integrate"@ {
        Ok("∫"@ + or_default(expression, "x^2"@) + " d"@ + var)
    } else {
        Err("Unknown tool: "@ + name)
    }
}

fn arg_or<'a>(given: Option<&'a str>, default: &'a str) -> (r: &'a str)
    ensures
        r@ == or_default(
            match given {
                Some(g) => Some(g@),
                None => None,
            },
            default@,
        ),
{
    match given {
        Some(g) => g,
        None => default,
    }
}

/// Runs the tool `name` of `tools` on the `expression` and `variable`
/// arguments (each when given as a string); the tool's text, or the message
/// of an unknown tool.
pub fn call_tool(
    tools: &MathCoreTools,
    name: &str,
    expression: Option<&str>,
    variable: Option<&str>,
) -> (r: Result<String, String>)
    ensures
        match r {
            Ok(t) => tool_answer(
                name@,
                match expression {
                    Some(e) => Some(e@),
                    None => None,
                },
                match variable {
                    Some(v) => Some(v@),
                    None => None,
                },
            ) == Ok::<Seq<char>, Seq<char>>(t@),
            Err(m) => tool_answer(
                name@,
                match expression {
                    Some(e) => Some(e@),
                    None => None,
                },
                match variable {
                    Some(v) => Some(v@),
                    None => None,
                },
            ) == Err::<Seq<char>, Seq<char>>(m@),
        },
{
    let var = arg_or(variable, "x");
    if str_eq(name, "evaluate") {
        Ok(tools.evaluate(arg_or(expression, "x^2")))
    } else if str_eq(name, "simplify") {
        Ok(tools.simplify(arg_or(expression, "x + 0")))
    } else if str_eq(name, "derivative") {
        Ok(tools.derivative(arg_or(expression, "x^2"), var))
    } else if str_eq(name, "integrate") {
        Ok(tools.integrate(arg_or(expression, "x^2"), var))
    } else {
        let n = to_owned_string(name);
        Err(prefixed("Unknown tool: ", &n))
    }
}

} // verus!
