//! Content-Length framing of messages, and their summaries for debug logs.
use vstd::prelude::*;
use vstd::utf8::encode_utf8;
use crate::protocol::jsonrpc::{
    JsonRpcError, JsonValue, Message, Notification, Request, Response, copy_error, copy_value, error_eq, json_eq,
};
use crate::text::{chars_of, decimal, push_decimal, push_range, push_str};

verus! {

/// Largest frame accepted, in bytes (16 MB); larger frames are invalid.
pub const MAX_FRAME_SIZE: usize = 16 * 1024 * 1024;

/// Largest frame header accepted, in bytes.
pub const MAX_HEADER_SIZE: usize = 512;

/// The bytes of a text made of ASCII characters.
pub open spec fn ascii_bytes(s: Seq<char>) -> Seq<u8> {
    s.map_values(|c: char| c as u8)
}

/// The frame of a payload: `Content-Length: N\r\n\r\n` followed by the payload.
pub open spec fn frame(payload: Seq<u8>) -> Seq<u8> {
    ascii_bytes("Content-Length: "@ + decimal(payload.len()) + "\r\n\r\n"@) + payload
}

/// Appends the characters of `s` as bytes, one per character.
fn push_ascii(out: &mut Vec<u8>, s: &str)
    ensures
        final(out)@ == old(out)@ + ascii_bytes(s@),
{
    let cs = chars_of(s);
    let ghost start = out@;
    let mut i: usize = 0;
    while i < cs.len()
        invariant
            i <= cs@.len(),
            cs@ == s@,
            out@ == start + ascii_bytes(cs@.take(i as int)),
        decreases cs.len() - i,
    {
        out.push(cs[i] as u8);
        assert(cs@.take(i + 1) == cs@.take(i as int).push(cs@[i as int]));
        assert(ascii_bytes(cs@.take(i + 1)) == ascii_bytes(cs@.take(i as int)).push(cs@[i as int] as u8));
        i += 1;
    }
    assert(cs@.take(cs@.len() as int) == cs@);
}

/// Frames a payload: returns `Content-Length: N\r\n\r\n{payload}`, with N the
/// payload's length in bytes.
pub fn encode_frame(payload: &[u8]) -> (r: Vec<u8>)
    ensures
        r@ == frame(payload@),
{
    let mut header = String::new();
    push_str(&mut header, "Content-Length: ");
    push_decimal(&mut header, payload.len());
    push_str(&mut header, "\r\n\r\n");
    let mut out: Vec<u8> = Vec::new();
    push_ascii(&mut out, header.as_str());
    let ghost head = out@;
    let mut i: usize = 0;
    while i < payload.len()
        invariant
            i <= payload@.len(),
            out@ == head + payload@.take(i as int),
        decreases payload.len() - i,
    {
        out.push(payload[i]);
        assert(payload@.take(i + 1) == payload@.take(i as int).push(payload@[i as int]));
        i += 1;
    }
    assert(payload@.take(payload@.len() as int) == payload@);
    out
}

/// A character of the base64 alphabet (`A-Z`, `a-z`, `0-9`, `+`, `/`, `=`).
pub open spec fn is_b64_char(c: char) -> bool {
    ('A' <= c && c <= 'Z') || ('a' <= c && c <= 'z') || ('0' <= c && c <= '9') || c == '+' || c == '/' || c == '='
}

/// How many characters of `s` belong to the base64 alphabet.
pub open spec fn b64_count(s: Seq<char>) -> nat
    decreases s.len(),
{
    if s.len() == 0 {
        0
    } else {
        b64_count(s.drop_last()) + if is_b64_char(s.last()) {
            1nat
        } else {
            0nat
        }
    }
}

/// Length in bytes of the UTF-8 text.
pub open spec fn byte_len(s: Seq<char>) -> usize {
    encode_utf8(s).len() as usize
}

/// Text that looks like binary data: longer than 64 bytes, with more than
/// 98% of its characters from the base64 alphabet.
pub open spec fn base64_like(s: Seq<char>) -> bool {
    byte_len(s) > 64 && 50 * b64_count(s) > 49 * s.len()
}

/// Whether `s` looks like base64-encoded binary data.
pub fn looks_like_base64(s: &str) -> (b: bool)
    ensures
        b == base64_like(s@),
{
    if s.len() <= 64 {
        return false;
    }
    let cs = chars_of(s);
    let mut count: usize = 0;
    let mut i: usize = 0;
    while i < cs.len()
        invariant
            i <= cs@.len(),
            count <= i,
            count == b64_count(cs@.take(i as int)),
        decreases cs.len() - i,
    {
        let c = cs[i];
        assert(cs@.take(i + 1).drop_last() == cs@.take(i as int));
        if ('A' <= c && c <= 'Z') || ('a' <= c && c <= 'z') || ('0' <= c && c <= '9') || c == '+' || c == '/'
            || c == '=' {
            count += 1;
        }
        i += 1;
    }
    assert(cs@.take(cs@.len() as int) == cs@);
    (count as u128) * 50 > (cs.len() as u128) * 49
}

/// The first 64 characters (all of a shorter text).
pub open spec fn prefix64(s: Seq<char>) -> Seq<char> {
    if s.len() <= 64 {
        s
    } else {
        s.take(64)
    }
}

/// What stands in a log in place of binary-looking text.
pub open spec fn base64_summary(s: Seq<char>) -> Seq<char> {
    "<base64 len="@ + decimal(byte_len(s) as nat) + " prefix="@ + prefix64(s) + ">"@
}

/// A text as it is shown in logs.
pub open spec fn shown_text(s: Seq<char>) -> Seq<char> {
    if base64_like(s) {
        base64_summary(s)
    } else {
        s
    }
}

/// `out` is `v` for a debug log: binary-looking strings replaced by their
/// summary, everything else (structure, keys, other values) kept.
pub open spec fn summary_of(v: JsonValue, out: JsonValue) -> bool
    decreases v,
{
    match v {
        JsonValue::String(s) => out matches JsonValue::String(t) && t@ == shown_text(s@),
        JsonValue::Array(xs) => out matches JsonValue::Array(ys) && ys@.len() == xs@.len() && forall|i: int|
            0 <= i < xs@.len() ==> summary_of(#[trigger] xs@[i], ys@[i]),
        JsonValue::Object(xs) => out matches JsonValue::Object(ys) && ys@.len() == xs@.len() && forall|i: int|
            0 <= i < xs@.len() ==> (#[trigger] xs@[i]).0@ == ys@[i].0@ && summary_of(xs@[i].1, ys@[i].1),
        _ => json_eq(v, out),
    }
}

/// The text shown for a string.
fn summarize_text(s: &String) -> (r: String)
    ensures
        r@ == shown_text(s@),
{
    let t = s.as_str();
    if looks_like_base64(t) {
        let cs = chars_of(t);
        let end: usize = if cs.len() <= 64 {
            cs.len()
        } else {
            64
        };
        let mut out = String::new();
        push_str(&mut out, "<base64 len=");
        push_decimal(&mut out, t.len());
        push_str(&mut out, " prefix=");
        push_range(&mut out, cs.as_slice(), 0, end);
        push_str(&mut out, ">");
        assert(cs@.subrange(0, end as int) == prefix64(s@));
        out
    } else {
        s.clone()
    }
}

/// A JSON value fit for a debug log: the structure is kept whole, and strings
/// that look like binary data are replaced by `<base64 len=... prefix=...>`.
pub fn summarize_value(v: &JsonValue) -> (r: JsonValue)
    ensures
        summary_of(*v, r),
    decreases v,
{
    match v {
        JsonValue::String(s) => JsonValue::String(summarize_text(s)),
        JsonValue::Array(xs) => {
            let mut out: Vec<JsonValue> = Vec::new();
            let mut i: usize = 0;
            while i < xs.len()
                invariant
                    i <= xs@.len(),
                    out@.len() == i,
                    *v == JsonValue::Array(*xs),
                    forall|j: int| 0 <= j < i ==> summary_of(#[trigger] xs@[j], out@[j]),
                decreases xs.len() - i,
            {
                proof {
                    assert((*v)->Array_0 == *xs);
                    assert(decreases_to!(*v => (*v)->Array_0));
                    assert(decreases_to!(*xs => xs@));
                    assert(decreases_to!(xs@ => xs@[i as int]));
                    assert(decreases_to!(*v => xs@[i as int]));
                }
                out.push(summarize_value(&xs[i]));
                i += 1;
            }
            JsonValue::Array(out)
        },
        JsonValue::Object(xs) => {
            let mut out: Vec<(String, JsonValue)> = Vec::new();
            let mut i: usize = 0;
            while i < xs.len()
                invariant
                    i <= xs@.len(),
                    out@.len() == i,
                    *v == JsonValue::Object(*xs),
                    forall|j: int|
                        0 <= j < i ==> (#[trigger] xs@[j]).0@ == out@[j].0@ && summary_of(xs@[j].1, out@[j].1),
                decreases xs.len() - i,
            {
                proof {
                    assert((*v)->Object_0 == *xs);
                    assert(decreases_to!(*v => (*v)->Object_0));
                    assert(decreases_to!(*xs => xs@));
                    assert(decreases_to!(xs@ => xs@[i as int]));
                    assert(decreases_to!(xs@[i as int] => xs@[i as int].1));
                    assert(decreases_to!(*v => xs@[i as int].1));
                }
                out.push((xs[i].0.clone(), summarize_value(&xs[i].1)));
                i += 1;
            }
            JsonValue::Object(out)
        },
        _ => copy_value(v),
    }
}

/// No string inside `v` looks like binary data.
pub open spec fn no_binary_text(v: JsonValue) -> bool
    decreases v,
{
    match v {
        JsonValue::String(s) => !base64_like(s@),
        JsonValue::Array(xs) => forall|i: int| 0 <= i < xs@.len() ==> no_binary_text(#[trigger] xs@[i]),
        JsonValue::Object(xs) => forall|i: int| 0 <= i < xs@.len() ==> no_binary_text((#[trigger] xs@[i]).1),
        _ => true,
    }
}

proof fn lemma_b64_count_append(a: Seq<char>, b: Seq<char>)
    ensures
        b64_count(a + b) == b64_count(a) + b64_count(b),
    decreases b.len(),
{
    if b.len() == 0 {
        assert(a + b == a);
    } else {
        lemma_b64_count_append(a, b.drop_last());
        assert((a + b).drop_last() == a + b.drop_last());
        assert((a + b).last() == b.last());
    }
}

proof fn lemma_b64_count_le(s: Seq<char>)
    ensures
        b64_count(s) <= s.len(),
    decreases s.len(),
{
    if s.len() > 0 {
        lemma_b64_count_le(s.drop_last());
    }
}

/// A text with a character outside the alphabet counts at most its length
/// less one.
proof fn lemma_b64_count_miss(s: Seq<char>, i: int)
    requires
        0 <= i < s.len(),
        !is_b64_char(s[i]),
    ensures
        b64_count(s) + 1 <= s.len(),
{
    let a = s.take(i);
    let m = seq![s[i]];
    let b = s.skip(i + 1);
    assert(s == a + m + b);
    lemma_b64_count_append(a + m, b);
    lemma_b64_count_append(a, m);
    assert(m.drop_last() == Seq::<char>::empty());
    assert(b64_count(Seq::<char>::empty()) == 0);
    assert(m.last() == s[i]);
    assert(b64_count(m) == 0);
    assert(s.len() == a.len() + 1 + b.len());
    lemma_b64_count_le(a);
    lemma_b64_count_le(b);
}

/// `10^k`.
spec fn pow10(k: nat) -> nat
    decreases k,
{
    if k == 0 {
        1
    } else {
        10 * pow10((k - 1) as nat)
    }
}

proof fn lemma_decimal_len(n: nat, k: nat)
    requires
        1 <= k,
        n < pow10(k),
    ensures
        decimal(n).len() <= k,
    decreases n,
{
    if n >= 10 {
        if k == 1 {
            assert(pow10(1) == 10 * pow10(0));
        } else {
            let p = pow10((k - 1) as nat);
            assert(n < 10 * p);
            assert(n / 10 < p) by (nonlinear_arith)
                requires
                    n < 10 * p,
            ;
            lemma_decimal_len(n / 10, (k - 1) as nat);
        }
    }
}

proof fn lemma_pow10_20()
    ensures
        pow10(20) == 100_000_000_000_000_000_000nat,
{
    reveal_with_fuel(pow10, 21);
}

/// A summary never looks like binary data itself, so showing a text twice
/// shows it as once.
pub proof fn lemma_summary_not_binary(s: Seq<char>)
    ensures
        !base64_like(base64_summary(s)),
        shown_text(shown_text(s)) == shown_text(s),
{
    reveal_strlit("<base64 len=");
    reveal_strlit(" prefix=");
    reveal_strlit(">");
    let a = "<base64 len="@;
    let d = decimal(byte_len(s) as nat);
    let b = " prefix="@;
    let p = prefix64(s);
    let c = ">"@;
    let t = base64_summary(s);
    assert(t == a + d + b + p + c);
    lemma_b64_count_append(a, d);
    lemma_b64_count_append(a + d, b);
    lemma_b64_count_append(a + d + b, p);
    lemma_b64_count_append(a + d + b + p, c);
    lemma_b64_count_miss(a, 0);
    lemma_b64_count_miss(b, 0);
    lemma_b64_count_miss(c, 0);
    lemma_b64_count_le(d);
    lemma_b64_count_le(p);
    lemma_pow10_20();
    assert((byte_len(s) as nat) < pow10(20));
    lemma_decimal_len(byte_len(s) as nat, 20);
    assert(t.len() <= 105);
    assert(b64_count(t) + 3 <= t.len());
}

/// Summarizing a summary changes nothing: a value summarized twice is the
/// value summarized once.
pub proof fn lemma_summary_idempotent(v: JsonValue, once: JsonValue, twice: JsonValue)
    requires
        summary_of(v, once),
        summary_of(once, twice),
    ensures
        json_eq(once, twice),
    decreases v,
{
    match v {
        JsonValue::String(s) => {
            lemma_summary_not_binary(s@);
        },
        JsonValue::Array(xs) => {
            let ys = once->Array_0;
            let zs = twice->Array_0;
            assert forall|i: int| 0 <= i < ys@.len() implies json_eq(#[trigger] ys@[i], zs@[i]) by {
                assert(decreases_to!(v => xs@[i]));
                lemma_summary_idempotent(xs@[i], ys@[i], zs@[i]);
            }
        },
        JsonValue::Object(xs) => {
            let ys = once->Object_0;
            let zs = twice->Object_0;
            assert forall|i: int| 0 <= i < ys@.len() implies (#[trigger] ys@[i]).0@ == zs@[i].0@ && json_eq(
                ys@[i].1,
                zs@[i].1,
            ) by {
                assert(decreases_to!(v => xs@[i].1));
                lemma_summary_idempotent(xs@[i].1, ys@[i].1, zs@[i].1);
            }
        },
        _ => {},
    }
}

/// Text structure is kept whole: summarizing a value none of whose strings
/// looks like binary data gives the same value back.
pub proof fn lemma_summary_keeps_text(v: JsonValue, out: JsonValue)
    requires
        no_binary_text(v),
        summary_of(v, out),
    ensures
        json_eq(v, out),
    decreases v,
{
    match v {
        JsonValue::Array(xs) => {
            let ys = out->Array_0;
            assert forall|i: int| 0 <= i < xs@.len() implies json_eq(#[trigger] xs@[i], ys@[i]) by {
                assert(decreases_to!(v => xs@[i]));
                lemma_summary_keeps_text(xs@[i], ys@[i]);
            }
        },
        JsonValue::Object(xs) => {
            let ys = out->Object_0;
            assert forall|i: int| 0 <= i < xs@.len() implies (#[trigger] xs@[i]).0@ == ys@[i].0@ && json_eq(
                xs@[i].1,
                ys@[i].1,
            ) by {
                assert(decreases_to!(v => xs@[i].1));
                lemma_summary_keeps_text(xs@[i].1, ys@[i].1);
            }
        },
        _ => {},
    }
}

/// `out` is the message `m` for a debug log: every field kept, parameters
/// and results summarized.
pub open spec fn message_summary(m: Message, out: Message) -> bool {
    match m {
        Message::Request(q) => out matches Message::Request(p) && {
            &&& p.jsonrpc@ == q.jsonrpc@
            &&& p.id == q.id
            &&& p.method@ == q.method@
            &&& summary_of(q.params, p.params)
        },
        Message::Response(q) => out matches Message::Response(p) && {
            &&& p.jsonrpc@ == q.jsonrpc@
            &&& p.id == q.id
            &&& match q.result {
                Some(x) => p.result matches Some(y) && summary_of(x, y),
                None => p.result is None,
            }
            &&& match q.error {
                Some(e) => p.error matches Some(f) && error_eq(e, f),
                None => p.error is None,
            }
        },
        Message::Notification(q) => out matches Message::Notification(p) && {
            &&& p.jsonrpc@ == q.jsonrpc@
            &&& p.method@ == q.method@
            &&& summary_of(q.params, p.params)
        },
    }
}

/// A JSON-RPC message fit for a debug log (binary-looking data summarized,
/// everything else as it is).
pub fn summarize_message(msg: &Message) -> (r: Message)
    ensures
        message_summary(*msg, r),
{
    match msg {
        Message::Request(req) => Message::Request(
            Request {
                jsonrpc: req.jsonrpc.clone(),
                id: req.id,
                method: req.method.clone(),
                params: summarize_value(&req.params),
            },
        ),
        Message::Response(resp) => Message::Response(
            Response {
                jsonrpc: resp.jsonrpc.clone(),
                id: resp.id,
                result: match &resp.result {
                    Some(x) => Some(summarize_value(x)),
                    None => None,
                },
                error: match &resp.error {
                    Some(e) => Some(copy_error(e)),
                    None => None,
                },
            },
        ),
        Message::Notification(notif) => Message::Notification(
            Notification {
                jsonrpc: notif.jsonrpc.clone(),
                method: notif.method.clone(),
                params: summarize_value(&notif.params),
            },
        ),
    }
}

} // verus!
