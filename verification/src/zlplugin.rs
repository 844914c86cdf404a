//! The `zlplugin://` resource protocol: addresses of plugin UI assets.
//!
//! Requests look like `http://zlplugin.localhost/<plugin-id>/ui/<sub-path>`
//! (or `https://zlplugin.localhost/...`, or `zlplugin://[localhost/]...`).
use vstd::prelude::*;
use vstd::utf8::{
    decode_utf8, encode_utf8, encode_utf8_decode_utf8, encode_utf8_valid_utf8, encode_scalar, char_is_scalar, char_u32_cast, valid_utf8,
};
use crate::text::{chars_of, find, find_chars, matches_at, owned, starts_with, str_eq, string_of_range};

verus! {

/// A directory path of the file system.
#[verifier::external_type_specification]
#[verifier::external_body]
pub struct ExPathBuf(std::path::PathBuf);

/// Serves plugin UI assets from the plugins directory.
#[derive(Debug)]
pub struct ZlpluginProtocolHandler {
    plugins_dir: std::path::PathBuf,
}

impl ZlpluginProtocolHandler {
    /// A handler serving from `plugins_dir`.
    pub fn new(plugins_dir: std::path::PathBuf) -> (r: Self)
        ensures
            r.dir() == plugins_dir,
    {
        ZlpluginProtocolHandler { plugins_dir }
    }

    /// The plugins directory.
    pub closed spec fn dir(&self) -> std::path::PathBuf {
        self.plugins_dir
    }

    /// The plugins directory.
    pub fn plugins_dir(&self) -> (r: &std::path::PathBuf)
        ensures
            *r == self.dir(),
    {
        &self.plugins_dir
    }
}

/// An ASCII hexadecimal digit.
pub open spec fn is_hex_byte(b: u8) -> bool {
    (48 <= b <= 57) || (65 <= b <= 70) || (97 <= b <= 102)
}

/// The value of an ASCII hexadecimal digit.
pub open spec fn hex_value(b: u8) -> u8 {
    if b <= 57 {
        (b - 48) as u8
    } else if b <= 70 {
        (b - 55) as u8
    } else {
        (b - 87) as u8
    }
}

/// The byte that two characters after `%` denote: both must be hexadecimal
/// digits; anything else is a malformed escape.
pub open spec fn hex_pair(a: u8, b: u8) -> Option<u8> {
    if is_hex_byte(a) && is_hex_byte(b) {
        Some((16 * hex_value(a) + hex_value(b)) as u8)
    } else {
        None
    }
}

/// The value of an ASCII hexadecimal digit, or `None` for another byte.
fn hex_digit_value(d: u8) -> (r: Option<u8>)
    ensures
        is_hex_byte(d) ==> r == Some(hex_value(d)),
        !is_hex_byte(d) ==> r is None,
{
    if 48 <= d && d <= 57 {
        Some(d - 48)
    } else if 65 <= d && d <= 70 {
        Some(d - 55)
    } else if 97 <= d && d <= 102 {
        Some(d - 87)
    } else {
        None
    }
}

/// Reads the two characters after a `%` as a byte.
fn parse_hex_pair(a: u8, b: u8) -> (r: Option<u8>)
    ensures
        r == hex_pair(a, b),
{
    match (hex_digit_value(a), hex_digit_value(b)) {
        (Some(va), Some(vb)) => Some(16 * va + vb),
        _ => None,
    }
}

/// The bytes that percent-decoding gives: `%` followed by at least two more
/// bytes reads them as a byte (or fails); anything else is kept.
pub open spec fn percent_bytes(b: Seq<u8>) -> Option<Seq<u8>>
    decreases b.len(),
{
    if b.len() == 0 {
        Some(Seq::empty())
    } else if b[0] == 37 && 2 < b.len() {
        match hex_pair(b[1], b[2]) {
            Some(x) => match percent_bytes(b.skip(3)) {
                Some(rest) => Some(seq![x] + rest),
                None => None,
            },
            None => None,
        }
    } else {
        match percent_bytes(b.skip(1)) {
            Some(rest) => Some(seq![b[0]] + rest),
            None => None,
        }
    }
}

/// Percent-decoding of a path segment: fails on a malformed escape or when
/// the bytes are not UTF-8.
pub open spec fn percent_decoded(s: Seq<char>) -> Option<Seq<char>> {
    match percent_bytes(encode_utf8(s)) {
        Some(b) => if valid_utf8(b) {
            Some(decode_utf8(b))
        } else {
            None
        },
        None => None,
    }
}

/// Builds a string from UTF-8 bytes (`String::from_utf8`); `None` when the
/// bytes are not UTF-8.
#[verifier::external_body]
fn string_from_utf8(bytes: Vec<u8>) -> (r: Option<String>)
    ensures
        r is Some == valid_utf8(bytes@),
        r matches Some(s) ==> s@ == decode_utf8(bytes@),
{
    String::from_utf8(bytes).ok()
}

proof fn lemma_utf8_bytes_not_percent(v: u32)
    by (bit_vector)
    ensures
        (0xC0u8 | ((v >> 6) & 0x1F) as u8) != 37u8,
        (0xE0u8 | ((v >> 12) & 0x0F) as u8) != 37u8,
        (0xF0u8 | ((v >> 18) & 0x7) as u8) != 37u8,
        (0x80u8 | (v & 0x3F) as u8) != 37u8,
        (0x80u8 | ((v >> 6) & 0x3F) as u8) != 37u8,
        (0x80u8 | ((v >> 12) & 0x3F) as u8) != 37u8,
        v <= 0x7F && v != 37 ==> (v & 0x7F) as u8 != 37u8,
{
}

/// No character of `s` is `%`: then no byte of its UTF-8 encoding is.
proof fn lemma_no_percent_byte(s: Seq<char>)
    requires
        !s.contains('%'),
    ensures
        !encode_utf8(s).contains(37u8),
    decreases s.len(),
{
    if s.len() > 0 {
        let c = s[0];
        let v = c as u32;
        char_is_scalar(c);
        lemma_utf8_bytes_not_percent(v);
        assert(c != '%');
        assert(v != 37) by {
            if v == 37 {
                char_u32_cast(c, v);
                char_u32_cast('%', '%' as u32);
                assert('%' as u32 == 37);
            }
        }
        assert(!s.drop_first().contains('%')) by {
            if s.drop_first().contains('%') {
                let k = choose|k: int| 0 <= k < s.drop_first().len() && s.drop_first()[k] == '%';
                assert(s[k + 1] == '%');
            }
        }
        lemma_no_percent_byte(s.drop_first());
        let e = encode_scalar(v);
        assert(!e.contains(37u8));
        let all = encode_utf8(s);
        assert(all == e + encode_utf8(s.drop_first()));
        if all.contains(37u8) {
            let k = choose|k: int| 0 <= k < all.len() && all[k] == 37u8;
            if k < e.len() {
                assert(e[k] == 37u8);
            } else {
                assert(encode_utf8(s.drop_first())[k - e.len()] == 37u8);
            }
        }
    }
}

/// Bytes without `%` percent-decode to themselves.
proof fn lemma_percent_bytes_plain(b: Seq<u8>)
    requires
        !b.contains(37u8),
    ensures
        percent_bytes(b) == Some(b),
    decreases b.len(),
{
    if b.len() > 0 {
        assert(!b.skip(1).contains(37u8)) by {
            if b.skip(1).contains(37u8) {
                let k = choose|k: int| 0 <= k < b.skip(1).len() && b.skip(1)[k] == 37u8;
                assert(b[k + 1] == 37u8);
            }
        }
        lemma_percent_bytes_plain(b.skip(1));
        assert(b[0] != 37u8);
        assert(seq![b[0]] + b.skip(1) == b);
    }
}

/// Text without `%` percent-decodes to itself.
pub proof fn lemma_plain_text_decodes_to_itself(s: Seq<char>)
    requires
        !s.contains('%'),
    ensures
        percent_decoded(s) == Some(s),
{
    lemma_no_percent_byte(s);
    lemma_percent_bytes_plain(encode_utf8(s));
    encode_utf8_valid_utf8(s);
    encode_utf8_decode_utf8(s);
}

/// Percent-decodes a URI path segment; `None` for a malformed escape (such
/// as `%zz`) or bytes that are not UTF-8. A `%` without two characters after
/// it is kept as it is.
pub fn percent_decode_str(s: &str) -> (r: Option<String>)
    ensures
        match percent_decoded(s@) {
            Some(d) => r matches Some(t) && t@ == d,
            None => r is None,
        },
{
    let bytes = s.as_bytes();
    let ghost all = bytes@;
    let mut out: Vec<u8> = Vec::new();
    let mut i: usize = 0;
    assert(all.skip(0) == all);
    assert(percent_bytes(all) matches Some(r) ==> Seq::<u8>::empty() + r == r);
    while i < bytes.len()
        invariant
            i <= bytes@.len(),
            all == bytes@,
            all == encode_utf8(s@),
            percent_bytes(all) == match percent_bytes(all.skip(i as int)) {
                Some(rest) => Some(out@ + rest),
                None => None,
            },
        decreases bytes.len() - i,
    {
        let ghost tail = all.skip(i as int);
        if bytes[i] == 37 && bytes.len() - i > 2 {
            assert(tail[0] == 37 && 2 < tail.len());
            assert(tail.skip(3) == all.skip(i + 3));
            match parse_hex_pair(bytes[i + 1], bytes[i + 2]) {
                Some(x) => {
                    proof {
                        assert(out@.push(x) + percent_bytes(all.skip(i + 3))->0 == out@ + (seq![x] + percent_bytes(
                            all.skip(i + 3),
                        )->0));
                    }
                    out.push(x);
                    i += 3;
                },
                None => {
                    assert(percent_bytes(tail) is None);
                    return None;
                },
            }
        } else {
            assert(tail.skip(1) == all.skip(i + 1));
            proof {
                assert(out@.push(bytes@[i as int]) + percent_bytes(all.skip(i + 1))->0 == out@ + (seq![tail[0]]
                    + percent_bytes(all.skip(i + 1))->0));
            }
            out.push(bytes[i]);
            i += 1;
        }
    }
    assert(all.skip(i as int) == Seq::<u8>::empty());
    assert(out@ + Seq::<u8>::empty() == out@);
    string_from_utf8(out)
}

/// What follows the scheme of a resource address, if it has one of the
/// accepted schemes.
pub open spec fn after_scheme(uri: Seq<char>) -> Option<Seq<char>> {
    if starts_with(uri, "http://zlplugin.localhost/"@) {
        Some(uri.skip("http://zlplugin.localhost/"@.len() as int))
    } else if starts_with(uri, "https://zlplugin.localhost/"@) {
        Some(uri.skip("https://zlplugin.localhost/"@.len() as int))
    } else if starts_with(uri, "zlplugin://"@) {
        Some(uri.skip("zlplugin://"@.len() as int))
    } else {
        None
    }
}

/// The resource path without a leading `localhost/` and without the query.
pub open spec fn clean_path(rest: Seq<char>) -> Seq<char> {
    let p = if starts_with(rest, "localhost/"@) {
        rest.skip("localhost/"@.len() as int)
    } else {
        rest
    };
    match find(p, seq!['?']) {
        Some(q) => p.take(q),
        None => p,
    }
}

/// The plugin id and the asset path that a resource address names: the
/// clean path split at its first `/`, both parts percent-decoded.
pub open spec fn resource_of(uri: Seq<char>) -> Option<(Seq<char>, Seq<char>)> {
    match after_scheme(uri) {
        Some(rest) => {
            let p = clean_path(rest);
            match find(p, seq!['/']) {
                Some(k) => match (percent_decoded(p.take(k)), percent_decoded(p.skip(k + 1))) {
                    (Some(id), Some(path)) => Some((id, path)),
                    _ => None,
                },
                None => None,
            }
        },
        None => None,
    }
}

/// Strips `prefix` from the front of `cs` (positions from `from`), if it is there.
fn strip_at(cs: &[char], from: usize, prefix: &str) -> (r: Option<usize>)
    requires
        from <= cs@.len(),
    ensures
        starts_with(cs@.skip(from as int), prefix@) ==> (r matches Some(k) && k == from + prefix@.len()),
        !starts_with(cs@.skip(from as int), prefix@) ==> r is None,
{
    let p = chars_of(prefix);
    if matches_at(cs, p.as_slice(), from) {
        assert(cs@.skip(from as int).subrange(0, p@.len() as int) == cs@.subrange(from as int, from + p@.len()));
        assert(from + p@.len() <= cs.len());
        Some(from + p.len())
    } else {
        proof {
            if from + p@.len() <= cs@.len() {
                assert(cs@.skip(from as int).subrange(0, p@.len() as int) == cs@.subrange(from as int, from + p@.len()));
            }
        }
        None
    }
}

/// Parses a `zlplugin` resource address into (plugin id, asset path); the
/// query (`?v=...`) is dropped and both parts are percent-decoded. `None` for
/// another address or a malformed one.
pub fn parse_resource(uri: &str) -> (r: Option<(String, String)>)
    ensures
        match resource_of(uri@) {
            Some((id, path)) => r matches Some((a, b)) && a@ == id && b@ == path,
            None => r is None,
        },
{
    let cs = chars_of(uri);
    assert(cs@.skip(0) == cs@);
    let start = match strip_at(cs.as_slice(), 0, "http://zlplugin.localhost/") {
        Some(k) => k,
        None => match strip_at(cs.as_slice(), 0, "https://zlplugin.localhost/") {
            Some(k) => k,
            None => match strip_at(cs.as_slice(), 0, "zlplugin://") {
                Some(k) => k,
                None => {
                    return None;
                },
            },
        },
    };
    let ghost rest = cs@.skip(start as int);
    assert(after_scheme(uri@) == Some(rest));
    let start2 = match strip_at(cs.as_slice(), start, "localhost/") {
        Some(k) => {
            assert(cs@.skip(k as int) == rest.skip("localhost/"@.len() as int));
            k
        },
        None => start,
    };
    let ghost p0 = cs@.skip(start2 as int);
    assert(p0 == if starts_with(rest, "localhost/"@) {
        rest.skip("localhost/"@.len() as int)
    } else {
        rest
    });
    let tail = string_of_range(cs.as_slice(), start2, cs.len());
    let tcs = chars_of(tail.as_str());
    assert(tcs@ == p0);
    let mut q: Vec<char> = Vec::new();
    q.push('?');
    assert(q@ == seq!['?']);
    let end = match find_chars(tcs.as_slice(), q.as_slice()) {
        Some(e) => e,
        None => tcs.len(),
    };
    let clean = string_of_range(tcs.as_slice(), 0, end);
    let ccs = chars_of(clean.as_str());
    assert(ccs@ == clean_path(rest));
    let mut slash: Vec<char> = Vec::new();
    slash.push('/');
    assert(slash@ == seq!['/']);
    match find_chars(ccs.as_slice(), slash.as_slice()) {
        Some(k) => {
            let id_part = string_of_range(ccs.as_slice(), 0, k);
            let path_part = string_of_range(ccs.as_slice(), k + 1, ccs.len());
            assert(ccs@.subrange(0, k as int) == ccs@.take(k as int));
            assert(ccs@.subrange(k + 1, ccs@.len() as int) == ccs@.skip(k + 1));
            match percent_decode_str(id_part.as_str()) {
                Some(id) => match percent_decode_str(path_part.as_str()) {
                    Some(path) => Some((id, path)),
                    None => None,
                },
                None => None,
            }
        },
        None => None,
    }
}

/// The MIME type served for a file extension.
pub open spec fn mime_for(ext: Option<Seq<char>>) -> Seq<char> {
    match ext {
        Some(e) => if e == "mjs"@ || e == "js"@ {
            "text/javascript"@
        } else if e == "css"@ {
            "text/css"@
        } else if e == "html"@ {
            "text/html"@
        } else if e == "json"@ {
            "application/json"@
        } else if e == "png"@ {
            "image/png"@
        } else if e == "svg"@ {
            "image/svg+xml"@
        } else if e == "ico"@ {
            "image/x-icon"@
        } else if e == "woff"@ || e == "woff2"@ {
            "font/woff2"@
        } else {
            "application/octet-stream"@
        },
        None => "application/octet-stream"@,
    }
}

/// What `Path::extension` gives for a path: the part of the file name after
/// its last `.`, if there is one. Which characters separate path components
/// depends on the target the crate is built for (`\` also does on Windows),
/// so the name stands for one build.
pub uninterp spec fn path_extension(path: Seq<char>) -> Option<Seq<char>>;

/// The extension of a file path (`std::path::Path::extension`).
#[verifier::external_body]
fn extension_of(path: &str) -> (r: Option<String>)
    ensures
        match r {
            Some(e) => path_extension(path@) == Some(e@),
            None => path_extension(path@) is None,
        },
{
    std::path::Path::new(path).extension().and_then(|e| e.to_str()).map(|e| e.to_string())
}

/// The MIME type of an asset, from the extension of its path.
pub fn mime_from_extension(path: &str) -> (r: &'static str)
    ensures
        r@ == mime_for(path_extension(path@)),
{
    match extension_of(path) {
        Some(e) => {
            let x = e.as_str();
            if str_eq(x, "mjs") || str_eq(x, "js") {
                "text/javascript"
            } else if str_eq(x, "css") {
                "text/css"
            } else if str_eq(x, "html") {
                "text/html"
            } else if str_eq(x, "json") {
                "application/json"
            } else if str_eq(x, "png") {
                "image/png"
            } else if str_eq(x, "svg") {
                "image/svg+xml"
            } else if str_eq(x, "ico") {
                "image/x-icon"
            } else if str_eq(x, "woff") || str_eq(x, "woff2") {
                "font/woff2"
            } else {
                "application/octet-stream"
            }
        },
        None => "application/octet-stream",
    }
}

/// What every plugin id in reverse-domain form has: it is not empty, its
/// dot-separated labels are not empty (no leading, trailing or doubled dot),
/// and it holds no path separator. Ids without it, such as `..` or
/// `a/b`, are refused.
pub open spec fn plugin_id_shape_ok(id: Seq<char>) -> bool {
    &&& id.len() > 0
    &&& id[0] != '.'
    &&& id[id.len() - 1] != '.'
    &&& forall|i: int| 0 <= i < id.len() ==> (#[trigger] id[i]) != '/' && id[i] != '\\'
    &&& forall|i: int| 0 <= i < id.len() - 1 ==> !((#[trigger] id[i]) == '.' && id[i + 1] == '.')
}

/// Checks the form of a plugin id (see `plugin_id_shape_ok`).
pub fn plugin_id_shape(id: &str) -> (b: bool)
    ensures
        b == plugin_id_shape_ok(id@),
{
    let cs = chars_of(id);
    let n = cs.len();
    if n == 0 || cs[0] == '.' || cs[n - 1] == '.' {
        return false;
    }
    let mut i: usize = 0;
    while i < n
        invariant
            n == cs@.len(),
            cs@ == id@,
            i <= n,
            forall|j: int| 0 <= j < i ==> (#[trigger] cs@[j]) != '/' && cs@[j] != '\\',
            forall|j: int| 0 <= j < i && j < n - 1 ==> !((#[trigger] cs@[j]) == '.' && cs@[j + 1] == '.'),
        decreases n - i,
    {
        if cs[i] == '/' || cs[i] == '\\' {
            return false;
        }
        if i + 1 < n && cs[i] == '.' && cs[i + 1] == '.' {
            return false;
        }
        i += 1;
    }
    true
}

/// The checks an asset request passes before the file system is touched:
/// a resource address whose plugin id has the reverse-domain form and whose
/// path is under `ui/`.
pub open spec fn asset_request_of(uri: Seq<char>) -> Result<(Seq<char>, Seq<char>), Seq<char>> {
    match resource_of(uri) {
        None => Err("not a zlplugin URI"@),
        Some((id, path)) => if !plugin_id_shape_ok(id) {
            Err("invalid plugin id"@)
        } else if !starts_with(path, "ui/"@) {
            Err("access denied: only ui/ path allowed"@)
        } else {
            Ok((id, path))
        },
    }
}

/// Checks a UI asset request: the (plugin id, asset path) to serve, or why it
/// is refused.
pub fn asset_request(uri: &str) -> (r: Result<(String, String), String>)
    ensures
        match asset_request_of(uri@) {
            Ok((id, path)) => r matches Ok((a, b)) && a@ == id && b@ == path,
            Err(m) => r matches Err(e) && e@ == m,
        },
{
    match parse_resource(uri) {
        None => Err(owned("not a zlplugin URI")),
        Some((id, path)) => {
            if !plugin_id_shape(id.as_str()) {
                return Err(owned("invalid plugin id"));
            }
            let pcs = chars_of(path.as_str());
            match strip_at(pcs.as_slice(), 0, "ui/") {
                Some(_) => {
                    assert(pcs@.skip(0) == pcs@);
                    Ok((id, path))
                },
                None => {
                    assert(pcs@.skip(0) == pcs@);
                    Err(owned("access denied: only ui/ path allowed"))
                },
            }
        },
    }
}

} // verus!
