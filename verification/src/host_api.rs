//! The host calls a plugin makes through the SDK: the JSON-RPC method and
//! parameters of each call, and how each answer is read.
//!
//! Sending and awaiting are the transport's; this module decides what is
//! sent and what an answer means.
use vstd::prelude::*;
use crate::protocol::jsonrpc::JsonValue;
use crate::text::owned;

verus! {

/// A host call: its method and parameters.
#[derive(Debug)]
pub struct HostRequest {
    pub method: String,
    pub params: JsonValue,
}

/// A string member of an object.
pub open spec fn text_member(m: (String, JsonValue), key: Seq<char>, value: Seq<char>) -> bool {
    m.0@ == key && (m.1 matches JsonValue::String(s) && s@ == value)
}

/// A request with the given method and an object of string members.
pub open spec fn text_request(r: HostRequest, method: Seq<char>, keys: Seq<Seq<char>>, values: Seq<Seq<char>>) -> bool {
    &&& r.method@ == method
    &&& (r.params matches JsonValue::Object(m) && m@.len() == keys.len() && forall|i: int|
        0 <= i < keys.len() ==> text_member(#[trigger] m@[i], keys[i], values[i]))
}

/// A request with the given method and `null` parameters.
pub open spec fn null_request(r: HostRequest, method: Seq<char>) -> bool {
    r.method@ == method && r.params is Null
}

fn member(key: &str, value: &str) -> (r: (String, JsonValue))
    ensures
        text_member(r, key@, value@),
{
    (owned(key), JsonValue::String(owned(value)))
}

fn request1(method: &str, k: &str, v: &str) -> (r: HostRequest)
    ensures
        text_request(r, method@, seq![k@], seq![v@]),
{
    let mut m: Vec<(String, JsonValue)> = Vec::new();
    m.push(member(k, v));
    HostRequest { method: owned(method), params: JsonValue::Object(m) }
}

fn request2(method: &str, k1: &str, v1: &str, k2: &str, v2: &str) -> (r: HostRequest)
    ensures
        text_request(r, method@, seq![k1@, k2@], seq![v1@, v2@]),
{
    let mut m: Vec<(String, JsonValue)> = Vec::new();
    m.push(member(k1, v1));
    m.push(member(k2, v2));
    HostRequest { method: owned(method), params: JsonValue::Object(m) }
}

/// `host/log` with the level and the message.
pub fn log_request(level: &str, message: &str) -> (r: HostRequest)
    ensures
        text_request(r, "host/log"@, seq!["level"@, "message"@], seq![level@, message@]),
{
    request2("host/log", "level", level, "message", message)
}

/// `host/shell.open` with the target.
pub fn shell_open_request(target: &str) -> (r: HostRequest)
    ensures
        text_request(r, "host/shell.open"@, seq!["target"@], seq![target@]),
{
    request1("host/shell.open", "target", target)
}

/// `host/icon.get` for a path, at the full level:
/// `{"request": {"path": <path>}, "level": "Full"}`.
pub fn icon_request(path: &str) -> (r: HostRequest)
    ensures
        r.method@ == "host/icon.get"@,
        (r.params matches JsonValue::Object(m) && m@.len() == 2 && m@[0].0@ == "request"@ && (m@[0].1 matches JsonValue::Object(inner)
            && inner@.len() == 1 && text_member(inner@[0], "path"@, path@)) && text_member(m@[1], "level"@, "Full"@)),
{
    let mut inner: Vec<(String, JsonValue)> = Vec::new();
    inner.push(member("path", path));
    let mut m: Vec<(String, JsonValue)> = Vec::new();
    m.push((owned("request"), JsonValue::Object(inner)));
    m.push(member("level", "Full"));
    HostRequest { method: owned("host/icon.get"), params: JsonValue::Object(m) }
}

/// `host/shell.execute_command` with the command.
pub fn shell_execute_command_request(cmd: &str) -> (r: HostRequest)
    ensures
        text_request(r, "host/shell.execute_command"@, seq!["cmd"@], seq![cmd@]),
{
    request1("host/shell.execute_command", "cmd", cmd)
}

/// `host/shell.open_folder` with the path.
pub fn shell_open_folder_request(path: &str) -> (r: HostRequest)
    ensures
        text_request(r, "host/shell.open_folder"@, seq!["path"@], seq![path@]),
{
    request1("host/shell.open_folder", "path", path)
}

/// `host/shell.execute_elevation` with the path.
pub fn shell_execute_elevation_request(path: &str) -> (r: HostRequest)
    ensures
        text_request(r, "host/shell.execute_elevation"@, seq!["path"@], seq![path@]),
{
    request1("host/shell.execute_elevation", "path", path)
}

/// `host/notify` with the title and the message.
pub fn notify_request(title: &str, message: &str) -> (r: HostRequest)
    ensures
        text_request(r, "host/notify"@, seq!["title"@, "message"@], seq![title@, message@]),
{
    request2("host/notify", "title", title, "message", message)
}

/// A request without parameters.
fn bare_request(method: &str) -> (r: HostRequest)
    ensures
        null_request(r, method@),
{
    HostRequest { method: owned(method), params: JsonValue::Null }
}

/// `host/i18n.get_locale`.
pub fn locale_request() -> (r: HostRequest)
    ensures
        null_request(r, "host/i18n.get_locale"@),
{
    bare_request("host/i18n.get_locale")
}

/// `host/theme.get`.
pub fn theme_request() -> (r: HostRequest)
    ensures
        null_request(r, "host/theme.get"@),
{
    bare_request("host/theme.get")
}

/// `host/model.list`.
pub fn model_list_request() -> (r: HostRequest)
    ensures
        null_request(r, "host/model.list"@),
{
    bare_request("host/model.list")
}

/// `host/app.enumerate`.
pub fn enumerate_apps_request() -> (r: HostRequest)
    ensures
        null_request(r, "host/app.enumerate"@),
{
    bare_request("host/app.enumerate")
}

/// `host/path.resolve` with the kind of path.
pub fn resolve_path_request(kind: &str) -> (r: HostRequest)
    ensures
        text_request(r, "host/path.resolve"@, seq!["kind"@], seq![kind@]),
{
    request1("host/path.resolve", "kind", kind)
}

/// `host/resource.upload`: the resource id, the file to read and the size
/// limit (`null` when there is none).
pub fn resource_upload_request(resource_id: &str, file_path: &str, max_size: Option<u64>) -> (r: HostRequest)
    ensures
        r.method@ == "host/resource.upload"@,
        (r.params matches JsonValue::Object(m) && m@.len() == 3 && text_member(m@[0], "resourceId"@, resource_id@)
            && text_member(m@[1], "filePath"@, file_path@) && m@[2].0@ == "maxSize"@ && match max_size {
            Some(n) => (m@[2].1 matches JsonValue::Number(t) && t@ == crate::text::decimal(n as nat)),
            None => m@[2].1 is Null,
        }),
{
    let mut m: Vec<(String, JsonValue)> = Vec::new();
    m.push(member("resourceId", resource_id));
    m.push(member("filePath", file_path));
    let limit = match max_size {
        Some(n) => {
            let mut t = String::new();
            crate::text::push_decimal_u64(&mut t, n);
            JsonValue::Number(t)
        },
        None => JsonValue::Null,
    };
    m.push((owned("maxSize"), limit));
    HostRequest { method: owned("host/resource.upload"), params: JsonValue::Object(m) }
}

/// `host/resource.get` with the resource id.
pub fn resource_get_request(resource_id: &str) -> (r: HostRequest)
    ensures
        text_request(r, "host/resource.get"@, seq!["resourceId"@], seq![resource_id@]),
{
    request1("host/resource.get", "resourceId", resource_id)
}

/// `host/resource.delete` with the resource id.
pub fn resource_delete_request(resource_id: &str) -> (r: HostRequest)
    ensures
        text_request(r, "host/resource.delete"@, seq!["resourceId"@], seq![resource_id@]),
{
    request1("host/resource.delete", "resourceId", resource_id)
}

/// `host/resource.list`, with an empty object.
pub fn resource_list_request() -> (r: HostRequest)
    ensures
        r.method@ == "host/resource.list"@,
        (r.params matches JsonValue::Object(m) && m@.len() == 0),
{
    HostRequest { method: owned("host/resource.list"), params: JsonValue::Object(Vec::new()) }
}

/// What `base64::engine::general_purpose::STANDARD.encode` gives for bytes.
pub uninterp spec fn base64_encoded(bytes: Seq<u8>) -> Seq<char>;

/// What `STANDARD.decode` gives for a text: the bytes, or the error's text.
pub uninterp spec fn base64_decoded(text: Seq<char>) -> Result<Seq<u8>, Seq<char>>;

/// The text decodes to the bytes.
pub open spec fn decodes_to(text: Seq<char>, bytes: Seq<u8>) -> bool {
    base64_decoded(text) == Ok::<Seq<u8>, Seq<char>>(bytes)
}

/// The outcome of decoding, by value.
pub open spec fn decode_outcome(r: Result<Vec<u8>, String>) -> Result<Seq<u8>, Seq<char>> {
    match r {
        Ok(b) => Ok(b@),
        Err(e) => Err(e@),
    }
}

/// Standard base64 with padding (`STANDARD.encode`); the encoding decodes
/// back to the bytes (`STANDARD.decode` accepts the canonical padding it
/// writes).
#[verifier::external_body]
fn base64_encode(data: &[u8]) -> (r: String)
    requires
        4 * ((data@.len() + 2) / 3) <= usize::MAX,
    ensures
        r@ == base64_encoded(data@),
        decodes_to(r@, data@),
{
    base64::Engine::encode(&base64::engine::general_purpose::STANDARD, data)
}

/// Decodes standard base64 (`STANDARD.decode`); an error gives its text.
#[verifier::external_body]
fn base64_decode(text: &str) -> (r: Result<Vec<u8>, String>)
    ensures
        base64_decoded(text@) == decode_outcome(r),
{
    match base64::Engine::decode(&base64::engine::general_purpose::STANDARD, text) {
        Ok(b) => Ok(b),
        Err(e) => Err(e.to_string()),
    }
}

/// `host/resource.put`: the resource id and the bytes in base64.
pub fn resource_put_request(resource_id: &str, data: &[u8]) -> (r: HostRequest)
    requires
        4 * ((data@.len() + 2) / 3) <= usize::MAX,
    ensures
        text_request(r, "host/resource.put"@, seq!["resourceId"@, "bytesB64"@], seq![resource_id@, base64_encoded(data@)]),
        resource_bytes_of(r.params->Object_0@[1].1) == Ok::<Seq<u8>, Seq<char>>(data@),
{
    let b64 = base64_encode(data);
    request2("host/resource.put", "resourceId", resource_id, "bytesB64", b64.as_str())
}

/// The text of an answer: the string it is, or empty for anything else.
pub open spec fn text_or_empty(v: JsonValue) -> Seq<char> {
    match v {
        JsonValue::String(s) => s@,
        _ => Seq::empty(),
    }
}

/// Reads an answer as text (empty when it is not a string).
pub fn text_answer(v: &JsonValue) -> (r: String)
    ensures
        r@ == text_or_empty(*v),
{
    match v {
        JsonValue::String(s) => s.clone(),
        _ => String::new(),
    }
}

/// Reads the answer of `host/theme.get`: the theme's name, which must be a
/// string.
pub fn theme_answer(v: &JsonValue) -> (r: Result<String, String>)
    ensures
        match *v {
            JsonValue::String(s) => (r matches Ok(t) && t@ == s@),
            _ => (r matches Err(e) && e@ == "host theme response is not a string"@),
        },
{
    match v {
        JsonValue::String(s) => Ok(s.clone()),
        _ => Err(owned("host theme response is not a string")),
    }
}

/// The bytes of a resource from the answer of `host/resource.get` (base64
/// text; anything but a string counts as empty text).
pub open spec fn resource_bytes_of(v: JsonValue) -> Result<Seq<u8>, Seq<char>> {
    match base64_decoded(text_or_empty(v)) {
        Ok(b) => Ok(b),
        Err(e) => Err("base64 decode failed: "@ + e),
    }
}

/// Reads the answer of `host/resource.get`.
pub fn resource_bytes(v: &JsonValue) -> (r: Result<Vec<u8>, String>)
    ensures
        match resource_bytes_of(*v) {
            Ok(b) => r matches Ok(x) && x@ == b,
            Err(e) => r matches Err(x) && x@ == e,
        },
{
    let text = text_answer(v);
    match base64_decode(text.as_str()) {
        Ok(b) => Ok(b),
        Err(e) => {
            let mut m = owned("base64 decode failed: ");
            crate::text::push_str(&mut m, e.as_str());
            Err(m)
        },
    }
}

} // verus!
