//! The stdio JSON-RPC client core: request and notification lines rendered
//! exactly, the monotone request-id counter, and the classification of
//! reply lines. The shell owns the pipe: it writes the rendered line,
//! reads one reply line under its timeout, and hands the raw text back.
//!
//! The protocol deliberately keeps the side-car's single-in-flight
//! restriction: a reply's id is not matched against the request's id, so a
//! client instance must never have two requests outstanding. Exclusive
//! ownership per logical session is the caller's responsibility.

use vstd::prelude::*;
use crate::decstr::{dec_str, int_str, i64_to_dec, u64_to_dec};
use crate::errors::CoreError;
use crate::jsontext::{json_quoted, push_json_string};
use crate::jsonval::{Jv, json_of, jv, jv_get, parse_json_value, v_as_i64, v_as_str, v_clone, v_get, v_is_null};
use crate::textops::push_char;

verus! {

/// How long the shell waits for one reply line, in seconds.
pub const REQUEST_TIMEOUT_SECS: u64 = 30;

/// The monotonically increasing request-id source. Ids start at 1.
pub struct RpcIdCounter {
    pub last_id: u64,
}

impl RpcIdCounter {
    /// A fresh counter; the first id handed out will be 1.
    pub fn new() -> (r: RpcIdCounter)
        ensures
            r.last_id == 0,
    {
        RpcIdCounter { last_id: 0 }
    }

    /// The next request id: one more than every id handed out before.
    pub fn fresh_id(&mut self) -> (r: u64)
        requires
            old(self).last_id < u64::MAX,
        ensures
            final(self).last_id == old(self).last_id + 1,
            r == final(self).last_id,
    {
        self.last_id = self.last_id + 1;
        self.last_id
    }
}

/// One request line: a JSON-RPC 2.0 request object followed by a newline.
/// `params` is the already-rendered parameter object, or `None` for
/// `null` parameters.
pub open spec fn request_line_view(id: nat, method: Seq<char>, params: Option<Seq<char>>) -> Seq<
    char,
> {
    "{\"jsonrpc\":\"2.0\",\"id\":"@ + dec_str(id) + ",\"method\":"@ + json_quoted(method)
        + ",\"params\":"@ + (match params {
        Some(p) => p,
        None => "null"@,
    }) + "}\n"@
}

/// One notification line: no id, no reply expected.
pub open spec fn notification_line_view(method: Seq<char>, params: Option<Seq<char>>) -> Seq<
    char,
> {
    "{\"jsonrpc\":\"2.0\",\"method\":"@ + json_quoted(method) + ",\"params\":"@ + (match params {
        Some(p) => p,
        None => "null"@,
    }) + "}\n"@
}

/// Renders the request line for `id`, `method` and pre-rendered `params`.
pub fn build_request_line(id: u64, method: &str, params_text: Option<&str>) -> (r: String)
    ensures
        r@ == request_line_view(
            id as nat,
            method@,
            match params_text {
                Some(p) => Some(p@),
                None => None,
            },
        ),
{
    let mut out = "{\"jsonrpc\":\"2.0\",\"id\":".to_owned();
    out.append(u64_to_dec(id).as_str());
    out.append(",\"method\":");
    push_json_string(&mut out, method);
    out.append(",\"params\":");
    match params_text {
        Some(p) => out.append(p),
        None => out.append("null"),
    }
    out.append("}\n");
    proof {
        assert(out@ =~= request_line_view(
            id as nat,
            method@,
            match params_text {
                Some(p) => Some(p@),
                None => None,
            },
        ));
    }
    out
}

/// Renders the notification line for `method` and pre-rendered `params`.
pub fn build_notification_line(method: &str, params_text: Option<&str>) -> (r: String)
    ensures
        r@ == notification_line_view(
            method@,
            match params_text {
                Some(p) => Some(p@),
                None => None,
            },
        ),
{
    let mut out = "{\"jsonrpc\":\"2.0\",\"method\":".to_owned();
    push_json_string(&mut out, method);
    out.append(",\"params\":");
    match params_text {
        Some(p) => out.append(p),
        None => out.append("null"),
    }
    out.append("}\n");
    proof {
        assert(out@ =~= notification_line_view(
            method@,
            match params_text {
                Some(p) => Some(p@),
                None => None,
            },
        ));
    }
    out
}

/// The parameters the `initialize` request carries: protocol version,
/// empty capabilities, and this client's name and version.
pub open spec fn initialize_params_view() -> Seq<char> {
    "{\"capabilities\":{},\"clientInfo\":{\"name\":\"workbench\",\"version\":\"4.1.3\"},\"protocolVersion\":\"2024-11-05\"}"@
}

/// The `initialize` parameter object.
pub fn initialize_params_text() -> (r: String)
    ensures
        r@ == initialize_params_view(),
{
    "{\"capabilities\":{},\"clientInfo\":{\"name\":\"workbench\",\"version\":\"4.1.3\"},\"protocolVersion\":\"2024-11-05\"}".to_owned()
}

/// The parameters of a `tools/call` of `search_context`: the project root
/// (as handed in) and the query.
pub open spec fn search_context_params_view(project: Seq<char>, query: Seq<char>) -> Seq<char> {
    "{\"arguments\":{\"project_root_path\":"@ + json_quoted(project) + ",\"query\":"@
        + json_quoted(query) + "},\"name\":\"search_context\"}"@
}

/// The `tools/call` parameter object for `search_context`.
pub fn search_context_params_text(project: &str, query: &str) -> (r: String)
    ensures
        r@ == search_context_params_view(project@, query@),
{
    let mut out = "{\"arguments\":{\"project_root_path\":".to_owned();
    push_json_string(&mut out, project);
    out.append(",\"query\":");
    push_json_string(&mut out, query);
    out.append("},\"name\":\"search_context\"}");
    proof {
        assert(out@ =~= search_context_params_view(project@, query@));
    }
    out
}

/// `s` with every backslash replaced by a forward slash, as the side-car
/// expects project paths.
pub fn backslashes_to_slashes(s: &str) -> (r: String)
    ensures
        r@ == s@.map_values(
            |c: char|
                if c == '\\' {
                    '/'
                } else {
                    c
                },
        ),
{
    let ghost f = |c: char|
        if c == '\\' {
            '/'
        } else {
            c
        };
    let len = s.unicode_len();
    let mut out = String::new();
    let mut i: usize = 0;
    proof {
        assert(out@ =~= s@.take(0).map_values(f));
    }
    while i < len
        invariant
            len == s@.len(),
            i <= len,
            out@ == s@.take(i as int).map_values(f),
            f == (|c: char|
                if c == '\\' {
                    '/'
                } else {
                    c
                }),
        decreases len - i,
    {
        let c = s.get_char(i);
        if c == '\\' {
            push_char(&mut out, '/');
        } else {
            push_char(&mut out, c);
        }
        proof {
            assert(out@ =~= s@.take(i as int + 1).map_values(f));
        }
        i += 1;
    }
    proof {
        assert(s@.take(len as int) =~= s@);
    }
    out
}

/// What a reply line means: not a JSON-RPC response at all, a reported
/// failure with code and message, a response with no result, or a result.
pub enum RpcReplyView {
    Malformed,
    Failure(int, Seq<char>),
    NoResult,
    Success(Jv),
}

/// A response envelope: `jsonrpc` a string, `id` an integer a 64-bit
/// unsigned can hold.
pub open spec fn rpc_envelope_ok(j: Jv) -> bool {
    &&& match jv_get(j, "jsonrpc"@) {
        Some(Jv::Str(_)) => true,
        _ => false,
    }
    &&& match jv_get(j, "id"@) {
        Some(Jv::Int(n)) => 0 <= n <= u64::MAX,
        _ => false,
    }
}

/// The code and message of a reported error object, when it is well formed:
/// an integer code a 32-bit signed can hold, and a string message.
pub open spec fn rpc_error_fields(e: Jv) -> Option<(int, Seq<char>)> {
    match (jv_get(e, "code"@), jv_get(e, "message"@)) {
        (Some(Jv::Int(c)), Some(Jv::Str(m))) => if i32::MIN <= c <= i32::MAX {
            Some((c, m))
        } else {
            None
        },
        _ => None,
    }
}

/// The result of a response that reports no error: its non-null `result`
/// member, or `NoResult` when that member is absent or null.
pub open spec fn rpc_result_of(j: Jv) -> RpcReplyView {
    match jv_get(j, "result"@) {
        Some(r) => if r is Null {
            RpcReplyView::NoResult
        } else {
            RpcReplyView::Success(r)
        },
        None => RpcReplyView::NoResult,
    }
}

/// The meaning of one reply line. A line that is not JSON, lacks the
/// envelope, or carries a malformed error object is `Malformed`; a
/// well-formed non-null `error` member wins over any `result`.
pub open spec fn rpc_reply_classification(s: Seq<char>) -> RpcReplyView {
    match json_of(s) {
        None => RpcReplyView::Malformed,
        Some(j) => if !rpc_envelope_ok(j) {
            RpcReplyView::Malformed
        } else {
            match jv_get(j, "error"@) {
                Some(e) => if e is Null {
                    rpc_result_of(j)
                } else {
                    match rpc_error_fields(e) {
                        Some(cm) => RpcReplyView::Failure(cm.0, cm.1),
                        None => RpcReplyView::Malformed,
                    }
                },
                None => rpc_result_of(j),
            }
        },
    }
}

/// "MCP error <code>: <message>"
pub open spec fn msg_rpc_failure(code: int, message: Seq<char>) -> Seq<char> {
    "MCP error "@ + int_str(code) + ": "@ + message
}

/// Reads one reply line: the `result` value on success, and otherwise a
/// `ProtocolError` that says exactly what was wrong — a line that is not a
/// well-formed response, an error reported by the side-car (with its code
/// and message), or a response with no result. A non-JSON reply is an
/// error, never a crash.
pub fn parse_rpc_response_line(line: &str) -> (r: Result<serde_json::Value, CoreError>)
    ensures
        match r {
            Ok(v) => rpc_reply_classification(line@) == RpcReplyView::Success(jv(v)),
            Err(e) => {
                &&& e is ProtocolError
                &&& match rpc_reply_classification(line@) {
                    RpcReplyView::Malformed => e.message_view()
                        == "malformed JSON-RPC response"@,
                    RpcReplyView::Failure(code, message) => e.message_view() == msg_rpc_failure(
                        code,
                        message,
                    ),
                    RpcReplyView::NoResult => e.message_view() == "No result in response"@,
                    RpcReplyView::Success(_) => false,
                }
            },
        },
{
    let v = match parse_json_value(line) {
        Some(v) => v,
        None => {
            return Err(CoreError::ProtocolError("malformed JSON-RPC response".to_owned()));
        },
    };
    let envelope_ok = {
        let jsonrpc_ok = match v_get(&v, "jsonrpc") {
            Some(jr) => match v_as_str(jr) {
                Some(_) => true,
                None => false,
            },
            None => false,
        };
        let id_ok = match v_get(&v, "id") {
            Some(idv) => match v_as_i64(idv) {
                Some(n) => n >= 0,
                None => match crate::jsonval::v_as_u64(idv) {
                    Some(_) => true,
                    None => false,
                },
            },
            None => false,
        };
        jsonrpc_ok && id_ok
    };
    if !envelope_ok {
        return Err(CoreError::ProtocolError("malformed JSON-RPC response".to_owned()));
    }
    let error_present = match v_get(&v, "error") {
        Some(e) => !v_is_null(e),
        None => false,
    };
    if error_present {
        let e = match v_get(&v, "error") {
            Some(e) => e,
            None => {
                proof {
                    assert(false);
                }
                return Err(CoreError::ProtocolError("malformed JSON-RPC response".to_owned()));
            },
        };
        let code = match v_get(e, "code") {
            Some(cv) => match v_as_i64(cv) {
                Some(c) => {
                    if c >= i32::MIN as i64 && c <= i32::MAX as i64 {
                        c
                    } else {
                        return Err(
                            CoreError::ProtocolError("malformed JSON-RPC response".to_owned()),
                        );
                    }
                },
                None => {
                    return Err(CoreError::ProtocolError("malformed JSON-RPC response".to_owned()));
                },
            },
            None => {
                return Err(CoreError::ProtocolError("malformed JSON-RPC response".to_owned()));
            },
        };
        let message = match v_get(e, "message") {
            Some(mv) => match v_as_str(mv) {
                Some(m) => m,
                None => {
                    return Err(CoreError::ProtocolError("malformed JSON-RPC response".to_owned()));
                },
            },
            None => {
                return Err(CoreError::ProtocolError("malformed JSON-RPC response".to_owned()));
            },
        };
        let mut msg = "MCP error ".to_owned();
        msg.append(i64_to_dec(code).as_str());
        msg.append(": ");
        msg.append(message);
        proof {
            assert(msg@ =~= msg_rpc_failure(code as int, message@));
        }
        return Err(CoreError::ProtocolError(msg));
    }
    match v_get(&v, "result") {
        Some(res) => {
            if v_is_null(res) {
                Err(CoreError::ProtocolError("No result in response".to_owned()))
            } else {
                Ok(v_clone(res))
            }
        },
        None => Err(CoreError::ProtocolError("No result in response".to_owned())),
    }
}

/// The text a tool call's result carries: the string `text` member of the
/// first element of a non-empty `content` array.
pub open spec fn tool_text_of(result: Jv) -> Option<Seq<char>> {
    match jv_get(result, "content"@) {
        Some(Jv::Arr(items)) => if items.len() > 0 {
            match jv_get(items.first(), "text"@) {
                Some(Jv::Str(t)) => Some(t),
                _ => None,
            }
        } else {
            None
        },
        _ => None,
    }
}

/// The text of a tool call's result. Any other shape — no `content` array,
/// an empty one, or a first element without a string `text` — is a
/// protocol error.
pub fn extract_tool_text(result: &serde_json::Value) -> (r: Result<String, CoreError>)
    ensures
        match r {
            Ok(t) => tool_text_of(jv(*result)) == Some(t@),
            Err(e) => {
                &&& e is ProtocolError
                &&& e.message_view() == "Invalid search_context response format"@
                &&& tool_text_of(jv(*result)) is None
            },
        },
{
    let items = match v_get(result, "content") {
        Some(c) => match crate::jsonval::v_as_array(c) {
            Some(items) => items,
            None => {
                return Err(
                    CoreError::ProtocolError("Invalid search_context response format".to_owned()),
                );
            },
        },
        None => {
            return Err(
                CoreError::ProtocolError("Invalid search_context response format".to_owned()),
            );
        },
    };
    if items.len() == 0 {
        return Err(CoreError::ProtocolError("Invalid search_context response format".to_owned()));
    }
    proof {
        let iseq = Seq::new(items@.len() as nat, |i: int| jv(items@[i]));
        assert(iseq.first() == jv(items@[0]));
    }
    match v_get(&items[0], "text") {
        Some(tv) => match v_as_str(tv) {
            Some(t) => Ok(t.to_owned()),
            None => Err(
                CoreError::ProtocolError("Invalid search_context response format".to_owned()),
            ),
        },
        None => Err(CoreError::ProtocolError("Invalid search_context response format".to_owned())),
    }
}

} // verus!
