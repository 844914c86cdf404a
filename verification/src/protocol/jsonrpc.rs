//! JSON values and JSON-RPC 2.0 messages.
use vstd::prelude::*;
use crate::text::owned;

verus! {

/// A JSON value.
#[derive(Debug)]
pub enum JsonValue {
    Null,
    Bool(bool),
    /// A number, kept as it is written in JSON text.
    Number(String),
    String(String),
    Array(Vec<JsonValue>),
    /// Members in their order.
    Object(Vec<(String, JsonValue)>),
}

/// `a` and `b` are the same JSON value (texts compared by their characters).
pub open spec fn json_eq(a: JsonValue, b: JsonValue) -> bool
    decreases a,
{
    match a {
        JsonValue::Null => b is Null,
        JsonValue::Bool(x) => b == JsonValue::Bool(x),
        JsonValue::Number(n) => b matches JsonValue::Number(m) && m@ == n@,
        JsonValue::String(s) => b matches JsonValue::String(t) && t@ == s@,
        JsonValue::Array(xs) => b matches JsonValue::Array(ys) && ys@.len() == xs@.len() && forall|i: int|
            0 <= i < xs@.len() ==> json_eq(#[trigger] xs@[i], ys@[i]),
        JsonValue::Object(xs) => b matches JsonValue::Object(ys) && ys@.len() == xs@.len() && forall|i: int|
            0 <= i < xs@.len() ==> (#[trigger] xs@[i]).0@ == ys@[i].0@ && json_eq(xs@[i].1, ys@[i].1),
    }
}

/// A copy of a JSON value.
pub fn copy_value(v: &JsonValue) -> (r: JsonValue)
    ensures
        json_eq(*v, r),
    decreases v,
{
    match v {
        JsonValue::Null => JsonValue::Null,
        JsonValue::Bool(b) => JsonValue::Bool(*b),
        JsonValue::Number(n) => JsonValue::Number(n.clone()),
        JsonValue::String(s) => JsonValue::String(s.clone()),
        JsonValue::Array(xs) => {
            let mut out: Vec<JsonValue> = Vec::new();
            let mut i: usize = 0;
            while i < xs.len()
                invariant
                    i <= xs@.len(),
                    out@.len() == i,
                    *v == JsonValue::Array(*xs),
                    forall|j: int| 0 <= j < i ==> json_eq(#[trigger] xs@[j], out@[j]),
                decreases xs.len() - i,
            {
                proof {
                    assert((*v)->Array_0 == *xs);
                    assert(decreases_to!(*v => (*v)->Array_0));
                    assert(decreases_to!(*xs => xs@));
                    assert(decreases_to!(xs@ => xs@[i as int]));
                    assert(decreases_to!(*v => xs@[i as int]));
                }
                out.push(copy_value(&xs[i]));
                i += 1;
            }
            JsonValue::Array(out)
        },
        JsonValue::Object(xs) => {
            let mut out: Vec<(String, JsonValue)> = Vec::new();
            let mut i: usize = 0;
            while i < xs.len()
                invariant
                    i <= xs@.len(),
                    out@.len() == i,
                    *v == JsonValue::Object(*xs),
                    forall|j: int| 0 <= j < i ==> (#[trigger] xs@[j]).0@ == out@[j].0@ && json_eq(xs@[j].1, out@[j].1),
                decreases xs.len() - i,
            {
                proof {
                    assert((*v)->Object_0 == *xs);
                    assert(decreases_to!(*v => (*v)->Object_0));
                    assert(decreases_to!(*xs => xs@));
                    assert(decreases_to!(xs@ => xs@[i as int]));
                    assert(decreases_to!(xs@[i as int] => xs@[i as int].1));
                    assert(decreases_to!(*v => xs@[i as int].1));
                }
                out.push((xs[i].0.clone(), copy_value(&xs[i].1)));
                i += 1;
            }
            JsonValue::Object(out)
        },
    }
}

/// A JSON-RPC error object.
#[derive(Debug)]
pub struct JsonRpcError {
    pub code: i32,
    pub message: String,
    pub data: Option<JsonValue>,
}

impl JsonRpcError {
    /// An error with the given code and message and no data.
    pub fn new(code: i32, message: &str) -> (r: Self)
        ensures
            r.code == code,
            r.message@ == message@,
            r.data is None,
    {
        JsonRpcError { code, message: owned(message), data: None }
    }

    /// The same error carrying `data`.
    pub fn with_data(self, data: JsonValue) -> (r: Self)
        ensures
            r.code == self.code,
            r.message == self.message,
            r.data == Some(data),
    {
        JsonRpcError { code: self.code, message: self.message, data: Some(data) }
    }
}

/// Same error object (texts compared by their characters).
pub open spec fn error_eq(a: JsonRpcError, b: JsonRpcError) -> bool {
    &&& a.code == b.code
    &&& a.message@ == b.message@
    &&& match a.data {
        Some(x) => b.data matches Some(y) && json_eq(x, y),
        None => b.data is None,
    }
}

/// A copy of an error object.
pub fn copy_error(e: &JsonRpcError) -> (r: JsonRpcError)
    ensures
        error_eq(*e, r),
{
    let data = match &e.data {
        Some(d) => Some(copy_value(d)),
        None => None,
    };
    JsonRpcError { code: e.code, message: e.message.clone(), data }
}

/// A request: expects a response with the same id.
#[derive(Debug)]
pub struct Request {
    pub jsonrpc: String,
    pub id: u64,
    pub method: String,
    pub params: JsonValue,
}

/// A response to the request with the same id.
#[derive(Debug)]
pub struct Response {
    pub jsonrpc: String,
    pub id: u64,
    pub result: Option<JsonValue>,
    pub error: Option<JsonRpcError>,
}

/// A notification: expects no response.
#[derive(Debug)]
pub struct Notification {
    pub jsonrpc: String,
    pub method: String,
    pub params: JsonValue,
}

/// A JSON-RPC message.
#[derive(Debug)]
pub enum Message {
    Request(Request),
    Response(Response),
    Notification(Notification),
}

/// Parse error: the body is not JSON.
pub const PARSE_ERROR: i32 = -32700;
/// Invalid request: JSON, but not a request object.
pub const INVALID_REQUEST: i32 = -32600;
/// The method does not exist.
pub const METHOD_NOT_FOUND: i32 = -32601;
/// Invalid parameters: missing or of the wrong type.
pub const INVALID_PARAMS: i32 = -32602;
/// Internal error while handling a request.
pub const INTERNAL_ERROR: i32 = -32603;
/// The plugin answered a request with an error.
pub const PLUGIN_ERROR: i32 = -32000;
/// The plugin process crashed or exited.
pub const PLUGIN_CRASHED: i32 = -32001;
/// The plugin did not answer in time.
pub const TIMEOUT_ERROR: i32 = -32002;
/// The plugin declares a component kind the host does not know.
pub const UNSUPPORTED_COMPONENT: i32 = -32003;
/// No model with the given id is registered.
pub const MODEL_NOT_FOUND: i32 = -32100;
/// The model provider cannot be reached or is not ready.
pub const MODEL_PROVIDER_UNAVAILABLE: i32 = -32101;
/// The model request is malformed.
pub const MODEL_INVALID_REQUEST: i32 = -32102;
/// The model provider does not support the operation.
pub const MODEL_NOT_SUPPORTED: i32 = -32103;
/// The model transport failed.
pub const MODEL_TRANSPORT: i32 = -32104;

} // verus!
