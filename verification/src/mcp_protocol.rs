//! The JSON-RPC side of the tool server: which answer a request gets, the
//! error codes and texts, and the catalogue of tools that it offers.
//!
//! Reading and writing JSON is done by the application, which hands the
//! request's method (and whether it carried parameters) here and builds the
//! reply that comes back.
use vstd::prelude::*;

verus! {

/// The protocol revision the server speaks.
pub const PROTOCOL_VERSION: &'static str = "2024-11-05";

/// The server's name in the handshake.
pub const SERVER_NAME: &'static str = "rust-workspace-analyzer";

/// The server's version in the handshake.
pub const SERVER_VERSION: &'static str = "0.1.0";

/// JSON-RPC: the request line is no JSON.
pub const PARSE_ERROR: i64 = -32700;

/// JSON-RPC: the method exists but its parameters are missing.
pub const INVALID_PARAMS: i64 = -32602;

/// JSON-RPC: no such method.
pub const METHOD_NOT_FOUND: i64 = -32601;

/// The answer a request gets.
#[derive(Debug, Clone, Copy, PartialEq, Eq, Structural)]
pub enum JsonRpcRoute {
    /// The handshake: protocol version, capabilities and server identity.
    Initialize,
    /// The tool catalogue.
    ListTools,
    /// Run the named tool with the given arguments.
    CallTool,
    /// A tool call without parameters.
    InvalidParams,
    /// Any other method.
    MethodNotFound,
}

/// Which answer a request with this method gets.
pub open spec fn route_of(method: Seq<char>, has_params: bool) -> JsonRpcRoute {
    if method == "initialize"@ {
        JsonRpcRoute::Initialize
    } else if method == "tools/list"@ {
        JsonRpcRoute::ListTools
    } else if method == "tools/call"@ {
        if has_params {
            JsonRpcRoute::CallTool
        } else {
            JsonRpcRoute::InvalidParams
        }
    } else {
        JsonRpcRoute::MethodNotFound
    }
}

/// Which answer a request gets; a request without a method is routed as one
/// whose method is empty.
pub fn route_request(method: Option<&str>, has_params: bool) -> (r: JsonRpcRoute)
    ensures
        r == route_of(
            match method {
                Some(m) => m@,
                None => Seq::<char>::empty(),
            },
            has_params,
        ),
{
    let m = match method {
        Some(m) => m,
        None => {
            proof {
                reveal_strlit("initialize");
                reveal_strlit("tools/list");
                reveal_strlit("tools/call");
                assert(Seq::<char>::empty().len() == 0);
                assert("initialize"@.len() > 0);
                assert("tools/list"@.len() > 0);
                assert("tools/call"@.len() > 0);
            }
            return JsonRpcRoute::MethodNotFound;
        },
    };
    if crate::text::str_eq(m, "initialize") {
        JsonRpcRoute::Initialize
    } else if crate::text::str_eq(m, "tools/list") {
        JsonRpcRoute::ListTools
    } else if crate::text::str_eq(m, "tools/call") {
        if has_params {
            JsonRpcRoute::CallTool
        } else {
            JsonRpcRoute::InvalidParams
        }
    } else {
        JsonRpcRoute::MethodNotFound
    }
}

/// The error a route answers with, as code and message; `None` for the
/// routes that answer with a result.
pub fn route_error(route: JsonRpcRoute, method: &str) -> (r: Option<(i64, String)>)
    ensures
        match route {
            JsonRpcRoute::InvalidParams => r matches Some((c, m)) && c == INVALID_PARAMS && m@
                == "Invalid params"@,
            JsonRpcRoute::MethodNotFound => r matches Some((c, m)) && c == METHOD_NOT_FOUND && m@
                == "Method not found: "@ + method@,
            _ => r is None,
        },
{
    match route {
        JsonRpcRoute::InvalidParams => Some((INVALID_PARAMS, String::from_str("Invalid params"))),
        JsonRpcRoute::MethodNotFound => {
            let m = String::from_str("Method not found: ");
            Some((METHOD_NOT_FOUND, m.concat(method)))
        },
        _ => None,
    }
}

/// The message of the answer to a line that is no JSON.
pub fn parse_error_message(detail: &str) -> (m: String)
    ensures
        m@ == "Parse error: "@ + detail@,
{
    let m = String::from_str("Parse error: ");
    m.concat(detail)
}

/// One argument of a tool.
#[derive(Debug, Clone)]
pub struct ToolArgument {
    pub name: String,
    pub description: String,
    pub required: bool,
}

/// One tool of the catalogue; every argument is a string.
#[derive(Debug, Clone)]
pub struct ToolSpec {
    pub name: String,
    pub description: String,
    pub arguments: Vec<ToolArgument>,
}

/// The catalogue: each tool's name, description, and its argument (name,
/// description, whether required) if it has one.
pub open spec fn tool_catalogue() -> Seq<(Seq<char>, Seq<char>, Option<(Seq<char>, Seq<char>, bool)>)> {
    seq![
        ("workspace_context"@, "Get comprehensive context about the current workspace"@, None),
        (
            "analyze_change_impact"@,
            "Analyze the impact of changing a specific function or type"@,
            Some(("target"@, "Function or type name to analyze"@, true)),
        ),
        ("check_architecture_violations"@, "Check for architectural rule violations"@, None),
        (
            "find_dependency_issues"@,
            "Find circular dependencies and other dependency issues"@,
            None,
        ),
        (
            "suggest_safe_refactoring"@,
            "Suggest safe refactoring opportunities"@,
            Some(("focus_area"@, "Area to focus refactoring on"@, false)),
        ),
        (
            "validate_proposed_change"@,
            "Validate a proposed change for safety and architectural compliance"@,
            Some(("description"@, "Description of the proposed change"@, true)),
        ),
        (
            "analyze_test_coverage"@,
            "Analyze test coverage and find heavily-used functions without tests"@,
            None,
        ),
    ]
}

/// What a tool spec says, in the catalogue's form.
pub open spec fn tool_entry(t: ToolSpec) -> (Seq<char>, Seq<char>, Option<(Seq<char>, Seq<char>, bool)>) {
    (
        t.name@,
        t.description@,
        if t.arguments@.len() == 0 {
            None
        } else {
            Some((t.arguments@[0].name@, t.arguments@[0].description@, t.arguments@[0].required))
        },
    )
}

fn tool(name: &str, description: &str, argument: Option<(&str, &str, bool)>) -> (t: ToolSpec)
    ensures
        t.name@ == name@,
        t.description@ == description@,
        t.arguments@.len() <= 1,
        match argument {
            Some((n, d, r)) => t.arguments@.len() == 1 && t.arguments@[0].name@ == n@
                && t.arguments@[0].description@ == d@ && t.arguments@[0].required == r,
            None => t.arguments@.len() == 0,
        },
{
    let mut arguments: Vec<ToolArgument> = Vec::new();
    if let Some((n, d, r)) = argument {
        arguments.push(
            ToolArgument { name: String::from_str(n), description: String::from_str(d), required: r },
        );
    }
    ToolSpec { name: String::from_str(name), description: String::from_str(description), arguments }
}

/// The tools the server offers, in the order it lists them.
pub fn workspace_tools() -> (v: Vec<ToolSpec>)
    ensures
        v@.map_values(|t: ToolSpec| tool_entry(t)) == tool_catalogue(),
        forall|i: int| 0 <= i < v@.len() ==> (#[trigger] v@[i]).arguments@.len() <= 1,
{
    let mut v: Vec<ToolSpec> = Vec::new();
    v.push(tool("workspace_context", "Get comprehensive context about the current workspace", None));
    v.push(
        tool(
            "analyze_change_impact",
            "Analyze the impact of changing a specific function or type",
            Some(("target", "Function or type name to analyze", true)),
        ),
    );
    v.push(tool("check_architecture_violations", "Check for architectural rule violations", None));
    v.push(
        tool(
            "find_dependency_issues",
            "Find circular dependencies and other dependency issues",
            None,
        ),
    );
    v.push(
        tool(
            "suggest_safe_refactoring",
            "Suggest safe refactoring opportunities",
            Some(("focus_area", "Area to focus refactoring on", false)),
        ),
    );
    v.push(
        tool(
            "validate_proposed_change",
            "Validate a proposed change for safety and architectural compliance",
            Some(("description", "Description of the proposed change", true)),
        ),
    );
    v.push(
        tool(
            "analyze_test_coverage",
            "Analyze test coverage and find heavily-used functions without tests",
            None,
        ),
    );
    assert(v@.map_values(|t: ToolSpec| tool_entry(t)) =~= tool_catalogue());
    v
}

} // verus!
