//! The decisions of the MCP client (JSON-RPC over a line transport): its errors,
//! which of them are worth a retry, what a response line for a request amounts to,
//! and which listed tools are enabled. The caller runs the transport.

use vstd::prelude::*;

use crate::text::{dec_int, fmt_i64, str_eq, string_from};

verus! {

/// The MCP protocol version offered by default.
pub const DEFAULT_PROTOCOL_VERSION: &'static str = "2025-06-18";

/// JSON-RPC error codes that are retried.
pub const TRANSIENT_CODES: [i64; 2] = [-32000, -32099];

/// An MCP client error.
pub enum McpError {
    /// The transport (I/O, process) failed.
    Transport(String),
    /// The server answered with a JSON-RPC error.
    Rpc { code: i64, message: String },
    /// The response does not have the protocol's shape.
    Protocol(String),
    /// No response came in time.
    Timeout,
}

impl McpError {
    /// The error's text.
    pub fn message(&self) -> (r: String)
        ensures
            r@ == match *self {
                McpError::Transport(e) => "MCP 传输错误: "@ + e@,
                McpError::Rpc { code, message } => "MCP RPC 错误 ("@ + dec_int(code as int) + "): "@ + message@,
                McpError::Protocol(e) => "MCP 协议错误: "@ + e@,
                McpError::Timeout => "MCP 响应超时"@,
            },
    {
        let mut s = String::new();
        match self {
            McpError::Transport(e) => {
                s.append("MCP 传输错误: ");
                s.append(e.as_str());
            },
            McpError::Rpc { code, message } => {
                s.append("MCP RPC 错误 (");
                let c = string_from(&fmt_i64(*code));
                s.append(c.as_str());
                s.append("): ");
                s.append(message.as_str());
            },
            McpError::Protocol(e) => {
                s.append("MCP 协议错误: ");
                s.append(e.as_str());
            },
            McpError::Timeout => {
                s.append("MCP 响应超时");
            },
        }
        s
    }
}

/// Whether an error may go away on a retry: transport failures, timeouts and the
/// transient JSON-RPC codes.
pub open spec fn is_transient_spec(e: McpError) -> bool {
    match e {
        McpError::Transport(_) | McpError::Timeout => true,
        McpError::Rpc { code, .. } => code == -32000 || code == -32099,
        McpError::Protocol(_) => false,
    }
}

/// Whether an error may go away on a retry.
pub fn is_transient(e: &McpError) -> (r: bool)
    ensures
        r == is_transient_spec(*e),
{
    match e {
        McpError::Transport(_) | McpError::Timeout => true,
        McpError::Rpc { code, .. } => {
            let mut i: usize = 0;
            let mut found = false;
            while i < 2
                invariant
                    i <= 2,
                    found == (exists|j: int| 0 <= j < i && TRANSIENT_CODES@[j] == *code),
                    TRANSIENT_CODES@ == seq![-32000i64, -32099i64],
                decreases 2 - i,
            {
                if TRANSIENT_CODES[i] == *code {
                    found = true;
                }
                i = i + 1;
            }
            found
        },
        McpError::Protocol(_) => false,
    }
}

/// Whether a failed request is sent again: retries are allowed, not yet used up,
/// and the error is transient.
pub fn should_retry(retries: usize, attempt: usize, e: &McpError) -> (r: bool)
    ensures
        r == (retries > 0 && attempt < retries && is_transient_spec(*e)),
{
    retries > 0 && attempt < retries && is_transient(e)
}

/// The fields of a JSON-RPC response line that the client reads.
pub struct RpcResponse {
    /// `id`, when it is an unsigned integer.
    pub id: Option<u64>,
    /// `result`, as JSON text.
    pub result: Option<String>,
    /// `error`: its `code` (when an integer) and `message` (when a string).
    pub error: Option<(Option<i64>, Option<String>)>,
}

/// What a response line means for the request with id `id`.
pub enum ResponseStep {
    /// Another message (a notification or another request's response): read on.
    Skip,
    /// The request succeeded with this `result` (JSON text).
    Done(String),
    /// The request failed.
    Failed(McpError),
}

/// What a response line means for the request `id`: other ids are skipped; a
/// `result` answers it; else an `error` fails it (code `-1` and message
/// `rpc error` when absent); a response with neither is a protocol error.
pub fn classify_response(id: u64, resp: &RpcResponse) -> (r: ResponseStep)
    ensures
        resp.id != Some(id) ==> r is Skip,
        resp.id == Some(id) ==> match resp.result {
            Some(res) => r matches ResponseStep::Done(s) && s@ == res@,
            None => match resp.error {
                Some((code, message)) => r matches ResponseStep::Failed(McpError::Rpc { code: c, message: m })
                    && c == (match code { Some(x) => x, None => -1i64 })
                    && m@ == (match message { Some(x) => x@, None => "rpc error"@ }),
                None => r matches ResponseStep::Failed(McpError::Protocol(e)) && e@ == "响应缺 result/error"@,
            },
        },
{
    if resp.id != Some(id) {
        return ResponseStep::Skip;
    }
    match &resp.result {
        Some(res) => ResponseStep::Done(res.clone()),
        None => match &resp.error {
            Some((code, message)) => {
                let c = match code {
                    Some(x) => *x,
                    None => -1,
                };
                let m = match message {
                    Some(x) => x.clone(),
                    None => "rpc error".to_owned(),
                };
                ResponseStep::Failed(McpError::Rpc { code: c, message: m })
            },
            None => ResponseStep::Failed(McpError::Protocol("响应缺 result/error".to_owned())),
        },
    }
}

/// An MCP tool as `tools/list` describes it (`inputSchema` as JSON text).
pub struct McpTool {
    pub name: String,
    pub description: String,
    pub input_schema: String,
}

/// Whether `name` is among `list`.
pub open spec fn listed_name(list: Seq<String>, name: Seq<char>) -> bool {
    exists|i: int| 0 <= i < list.len() && #[trigger] list[i]@ == name
}

/// The tools of `tools` that `enabled` lets through (all without a list), in order.
pub open spec fn enabled_tools(tools: Seq<McpTool>, enabled: Option<Seq<String>>) -> Seq<McpTool>
    decreases tools.len(),
{
    if tools.len() == 0 {
        Seq::empty()
    } else {
        let prev = enabled_tools(tools.drop_last(), enabled);
        let keep = match enabled {
            Some(l) => listed_name(l, tools.last().name@),
            None => true,
        };
        if keep { prev.push(tools.last()) } else { prev }
    }
}

/// The listed tools that are enabled (all when `enabled` is `None`), in order.
pub fn filter_tools(tools: Vec<McpTool>, enabled: Option<&Vec<String>>) -> (r: Vec<McpTool>)
    ensures
        r@ == enabled_tools(tools@, match enabled { Some(l) => Some(l@), None => None }),
{
    let ghost en = match enabled { Some(l) => Some(l@), None => None::<Seq<String>> };
    let ghost all = tools@;
    let mut rest = tools;
    let mut out: Vec<McpTool> = Vec::new();
    let mut i: usize = 0;
    let n = rest.len();
    assert(rest@ =~= all.skip(0));
    while i < n
        invariant
            n == all.len(),
            i <= n,
            rest@ =~= all.skip(i as int),
            out@ == enabled_tools(all.take(i as int), en),
            en == (match enabled { Some(l) => Some(l@), None => None::<Seq<String>> }),
        decreases n - i,
    {
        let t = rest.remove(0);
        proof {
            assert(t == all[i as int]);
            assert(all.take(i + 1).drop_last() =~= all.take(i as int));
            assert(all.take(i + 1).last() == all[i as int]);
        }
        let keep = match enabled {
            Some(l) => {
                let mut j: usize = 0;
                let mut found = false;
                while j < l.len()
                    invariant
                        j <= l@.len(),
                        found == (exists|k: int| 0 <= k < j && #[trigger] l@[k]@ == t.name@),
                    decreases l@.len() - j,
                {
                    if str_eq(l[j].as_str(), t.name.as_str()) {
                        found = true;
                    }
                    j = j + 1;
                }
                found
            },
            None => true,
        };
        if keep {
            out.push(t);
        }
        proof {
            assert(rest@ =~= all.skip(i + 1));
        }
        i = i + 1;
    }
    assert(all.take(n as int) =~= all);
    out
}

} // verus!
