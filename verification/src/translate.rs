//! Reading the reply of a chat model that was asked for a translation.
//!
//! The model is told to answer with one JSON object, but real replies carry
//! markdown fences, `<think>` blocks, explanatory text around the object and
//! raw control characters inside JSON strings.  `scan_llm_content` finds the
//! candidate objects (at most three, each one searched after the previous
//! one) and repairs their strings; the caller decodes the candidates in order
//! and hands the first one that decoded to `finish_llm_content`, which
//! decides between the decoded payload, a plain-text fallback and an error.
use vstd::prelude::*;
use vstd::slice::{slice_subrange, slice_to_vec};
use crate::model::types::{ModelChatMessage, ModelChatRequest, ModelChatRole, ModelError};
use crate::text::{
    contains_char, hex_char, hex_digit, ascii_lower, lower_char, has_char, starts_with_char, push_str, starts_with, lemma_find_from_some, all_ws, chars_of, find, find_chars, is_whitespace, is_ws, lemma_trim_empty_iff_blank, owned, push_char,
    push_chars, rfind, rfind_chars, string_of, string_of_range, trim, trim_bounds,
};

verus! {

// ---------------------------------------------------------------------------
// Markdown fences
// ---------------------------------------------------------------------------

/// The markdown fence marker "```".
pub open spec fn fence() -> Seq<char> {
    seq!['`', '`', '`']
}

/// `s` with a markdown code fence removed: the inner text of a fenced block
/// (also when explanatory text comes before the fence), the empty text for a
/// bare opening marker, and the trimmed input when no fenced block is found.
pub open spec fn strip_fence(input: Seq<char>) -> Seq<char> {
    let s = trim(input);
    match find(s, fence()) {
        None => s,
        Some(f) => {
            let a = s.subrange(f + 3, s.len() as int);
            match find(a, seq!['\n']) {
                None => if f == 0 {
                    Seq::empty()
                } else {
                    s
                },
                Some(nl) => {
                    let b = a.subrange(nl + 1, a.len() as int);
                    match rfind(b, fence()) {
                        Some(p) => trim(b.subrange(0, p)),
                        None => s,
                    }
                },
            }
        },
    }
}

fn fence_chars() -> (v: Vec<char>)
    ensures
        v@ == fence(),
{
    let mut v = Vec::new();
    v.push('`');
    v.push('`');
    v.push('`');
    v
}

fn newline_chars() -> (v: Vec<char>)
    ensures
        v@ == seq!['\n'],
{
    let mut v = Vec::new();
    v.push('\n');
    v
}

/// Removes a markdown code fence around (or after explanatory text before) the answer.
pub fn strip_markdown_fence(input: &[char]) -> (out: Vec<char>)
    ensures
        out@ == strip_fence(input@),
{
    let (lo, hi) = trim_bounds(input);
    let s = slice_subrange(input, lo, hi);
    let fence = fence_chars();
    match find_chars(s, fence.as_slice()) {
        None => slice_to_vec(s),
        Some(f) => {
            let a = slice_subrange(s, f + 3, s.len());
            let nl = newline_chars();
            match find_chars(a, nl.as_slice()) {
                None => {
                    if f == 0 {
                        Vec::new()
                    } else {
                        slice_to_vec(s)
                    }
                },
                Some(n) => {
                    let b = slice_subrange(a, n + 1, a.len());
                    match rfind_chars(b, fence.as_slice()) {
                        Some(p) => {
                            let inner = slice_subrange(b, 0, p);
                            let (l2, h2) = trim_bounds(inner);
                            slice_to_vec(slice_subrange(inner, l2, h2))
                        },
                        None => slice_to_vec(s),
                    }
                },
            }
        },
    }
}

// ---------------------------------------------------------------------------
// First JSON object
// ---------------------------------------------------------------------------

/// Scanner state after a prefix: brace depth, inside a string, after a backslash.
pub open spec fn scan_step(st: (int, bool, bool), c: char) -> (int, bool, bool) {
    let (d, ins, esc) = st;
    if ins {
        if esc {
            (d, true, false)
        } else if c == '\\' {
            (d, true, true)
        } else if c == '"' {
            (d, false, false)
        } else {
            (d, true, false)
        }
    } else if c == '"' {
        (d, true, false)
    } else if c == '{' {
        (d + 1, false, false)
    } else if c == '}' {
        (d - 1, false, false)
    } else {
        st
    }
}

/// Scanner state after reading `s[start..k]`.
pub open spec fn scan_state(s: Seq<char>, start: int, k: int) -> (int, bool, bool)
    decreases k - start,
{
    if k <= start {
        (0, false, false)
    } else {
        scan_step(scan_state(s, start, k - 1), s[k - 1])
    }
}

/// The `}` at `e` closes the object opened at `start` (outside of any string).
pub open spec fn closes_at(s: Seq<char>, start: int, e: int) -> bool {
    &&& start <= e < s.len()
    &&& s[e] == '}'
    &&& !scan_state(s, start, e).1
    &&& scan_state(s, start, e).0 == 1
}

/// Start and end (inclusive) of the first complete JSON object in `s`: it
/// begins at the first `{` and ends at the first `}` that brings the brace
/// depth, counted outside of JSON strings, back to zero.
#[verifier::opaque]
pub open spec fn first_json_object(s: Seq<char>) -> Option<(int, int)> {
    match find(s, seq!['{']) {
        None => None,
        Some(st) => if exists|e: int| closes_at(s, st, e) {
            Some(
                (
                    st,
                    choose|e: int|
                        closes_at(s, st, e) && forall|f: int| st <= f < e ==> !closes_at(s, st, f),
                ),
            )
        } else {
            None
        },
    }
}

/// Finds the first complete JSON object, as positions of its braces.
pub fn extract_first_json_object(s: &[char]) -> (r: Option<(usize, usize)>)
    ensures
        match r {
            Some((a, b)) => first_json_object(s@) == Some((a as int, b as int)) && a <= b < s@.len(),
            None => first_json_object(s@) is None,
        },
{
    reveal(first_json_object);
    let mut ov: Vec<char> = Vec::new();
    ov.push('{');
    assert(ov@ == seq!['{']);
    let start = match find_chars(s, ov.as_slice()) {
        None => return None,
        Some(st) => st,
    };
    assert(s@[start as int] == '{') by {
        assert(s@.subrange(start as int, start + 1)[0] == seq!['{'][0]);
    }
    let mut depth: usize = 0;
    let mut in_string = false;
    let mut escape = false;
    let mut i = start;
    while i < s.len()
        invariant
            start <= i <= s@.len(),
            s@[start as int] == '{',
            find(s@, seq!['{']) == Some(start as int),
            scan_state(s@, start as int, i as int) == (depth as int, in_string, escape),
            i > start ==> depth >= 1,
            !in_string ==> !escape,
            depth <= i - start,
            forall|f: int| start <= f < i ==> !closes_at(s@, start as int, f),
        decreases s.len() - i,
    {
        let b = s[i];
        assert(scan_state(s@, start as int, i + 1) == scan_step(
            scan_state(s@, start as int, i as int),
            s@[i as int],
        ));
        if in_string {
            if escape {
                escape = false;
            } else if b == '\\' {
                escape = true;
            } else if b == '"' {
                in_string = false;
            }
        } else if b == '"' {
            in_string = true;
        } else if b == '{' {
            depth = depth + 1;
        } else if b == '}' {
            if depth == 1 {
                reveal(first_json_object);
                assert(closes_at(s@, start as int, i as int) && forall|f: int|
                    start <= f < i ==> !closes_at(s@, start as int, f));
                let ghost c = choose|e: int|
                    closes_at(s@, start as int, e) && forall|f: int|
                        start <= f < e ==> !closes_at(s@, start as int, f);
                assert(c == i) by {
                    if c < i {
                    } else if c > i {
                    }
                }
                assert(find(s@, seq!['{']) == Some(start as int));
                assert(exists|e: int| closes_at(s@, start as int, e));
                assert(first_json_object(s@) == Some((start as int, c)));
                return Some((start, i));
            }
            if i == start {
                depth = depth + 1;
                assert(false);
            }
            depth = depth - 1;
        }
        i += 1;
    }
    assert forall|e: int| !closes_at(s@, start as int, e) by {
        if start <= e < s@.len() {
        }
    }
    reveal(first_json_object);
    None
}

// ---------------------------------------------------------------------------
// Control characters inside JSON strings
// ---------------------------------------------------------------------------

/// General category `Cc` (what `char::is_control` tests).
pub open spec fn is_cc(c: char) -> bool {
    (c as u32) <= 0x1f || (0x7f <= (c as u32) && (c as u32) <= 0x9f)
}

/// `v` as four lower-case hexadecimal digits (`format!("{:04x}")` for `v < 0x10000`).
pub open spec fn hex4(v: int) -> Seq<char> {
    seq![hex_digit((v / 4096) % 16), hex_digit((v / 256) % 16), hex_digit((v / 16) % 16), hex_digit(v % 16)]
}

/// Escaper state after a prefix: (inside a string, after a backslash).
pub open spec fn esc_state(s: Seq<char>) -> (bool, bool)
    decreases s.len(),
{
    if s.len() == 0 {
        (false, false)
    } else {
        let (ins, esc) = esc_state(s.drop_last());
        let c = s.last();
        if !ins {
            (c == '"', false)
        } else if esc {
            (true, false)
        } else if c == '\\' {
            (true, true)
        } else if c == '"' {
            (false, false)
        } else {
            (true, false)
        }
    }
}

/// What the escaper writes for `c` in state `st`.
pub open spec fn esc_piece(st: (bool, bool), c: char) -> Seq<char> {
    let (ins, esc) = st;
    if !ins || esc || c == '\\' || c == '"' {
        seq![c]
    } else if c == '\n' {
        seq!['\\', 'n']
    } else if c == '\r' {
        seq!['\\', 'r']
    } else if c == '\t' {
        seq!['\\', 't']
    } else if is_cc(c) {
        seq!['\\', 'u'] + hex4((c as u32) as int)
    } else {
        seq![c]
    }
}

/// `s` with every raw control character inside a JSON string written as an
/// escape (`\n`, `\r`, `\t` or `\uXXXX`); everything else unchanged.
pub open spec fn escaped(s: Seq<char>) -> Seq<char>
    decreases s.len(),
{
    if s.len() == 0 {
        Seq::empty()
    } else {
        escaped(s.drop_last()) + esc_piece(esc_state(s.drop_last()), s.last())
    }
}

/// One step of the escaper's state.
pub open spec fn esc_step(st: (bool, bool), c: char) -> (bool, bool) {
    let (ins, esc) = st;
    if !ins {
        (c == '"', false)
    } else if esc {
        (true, false)
    } else if c == '\\' {
        (true, true)
    } else if c == '"' {
        (false, false)
    } else {
        (true, false)
    }
}

/// The escaper's state after `y`, starting in `st`.
pub open spec fn run_state(st: (bool, bool), y: Seq<char>) -> (bool, bool)
    decreases y.len(),
{
    if y.len() == 0 {
        st
    } else {
        esc_step(run_state(st, y.drop_last()), y.last())
    }
}

/// What the escaper writes for `y`, starting in `st`.
pub open spec fn run_out(st: (bool, bool), y: Seq<char>) -> Seq<char>
    decreases y.len(),
{
    if y.len() == 0 {
        Seq::empty()
    } else {
        run_out(st, y.drop_last()) + esc_piece(run_state(st, y.drop_last()), y.last())
    }
}

proof fn lemma_run_from_start(s: Seq<char>)
    ensures
        run_state((false, false), s) == esc_state(s),
        run_out((false, false), s) == escaped(s),
    decreases s.len(),
{
    if s.len() > 0 {
        lemma_run_from_start(s.drop_last());
    }
}

proof fn lemma_run_append(st: (bool, bool), x: Seq<char>, y: Seq<char>)
    ensures
        run_state(st, x + y) == run_state(run_state(st, x), y),
        run_out(st, x + y) == run_out(st, x) + run_out(run_state(st, x), y),
    decreases y.len(),
{
    if y.len() == 0 {
        assert(x + y == x);
    } else {
        lemma_run_append(st, x, y.drop_last());
        assert((x + y).drop_last() == x + y.drop_last());
        assert((x + y).last() == y.last());
    }
}

proof fn lemma_run_one(st: (bool, bool), c: char)
    ensures
        run_state(st, seq![c]) == esc_step(st, c),
        run_out(st, seq![c]) == esc_piece(st, c),
{
    let y = seq![c];
    assert(y.len() == 1);
    assert(y.drop_last() =~= Seq::<char>::empty());
    assert(y.last() == c);
    assert(run_state(st, y.drop_last()) == st);
    assert(run_out(st, y.drop_last()) == Seq::<char>::empty());
    assert(run_state(st, y) == esc_step(run_state(st, y.drop_last()), y.last()));
    assert(Seq::<char>::empty() + esc_piece(st, c) =~= esc_piece(st, c));
}

/// A hexadecimal digit passes through a string untouched.
proof fn lemma_hex_digit_plain(d: int)
    requires
        0 <= d < 16,
    ensures
        esc_step((true, false), hex_digit(d)) == (true, false),
        esc_piece((true, false), hex_digit(d)) == seq![hex_digit(d)],
{
    let h = hex_digit(d);
    assert(('0' as u32) <= (h as u32) <= ('f' as u32));
    assert(h != '\\' && h != '"' && h != '\n' && h != '\r' && h != '\t');
    assert(!is_cc(h));
}

/// Feeding the escaper what it wrote for one character, in the state it was
/// in, gives that text back and ends in the same state.
proof fn lemma_piece_is_stable(st: (bool, bool), c: char)
    ensures
        run_state(st, esc_piece(st, c)) == esc_step(st, c),
        run_out(st, esc_piece(st, c)) == esc_piece(st, c),
{
    let piece = esc_piece(st, c);
    let (ins, esc) = st;
    if !ins || esc || c == '\\' || c == '"' {
        lemma_run_one(st, c);
    } else if c == '\n' || c == '\r' || c == '\t' {
        let e = if c == '\n' { 'n' } else if c == '\r' { 'r' } else { 't' };
        assert(piece == seq!['\\'] + seq![e]);
        lemma_run_append(st, seq!['\\'], seq![e]);
        lemma_run_one(st, '\\');
        lemma_run_one((true, true), e);
    } else if is_cc(c) {
        let v = (c as u32) as int;
        let h = hex4(v);
        lemma_run_append(st, seq!['\\'], seq!['u'] + h);
        lemma_run_one(st, '\\');
        lemma_run_append((true, true), seq!['u'], h);
        lemma_run_one((true, true), 'u');
        let h0 = seq![hex_digit((v / 4096) % 16)];
        let h1 = seq![hex_digit((v / 256) % 16)];
        let h2 = seq![hex_digit((v / 16) % 16)];
        let h3 = seq![hex_digit(v % 16)];
        assert(h == h0 + h1 + h2 + h3);
        lemma_hex_digit_plain((v / 4096) % 16);
        lemma_hex_digit_plain((v / 256) % 16);
        lemma_hex_digit_plain((v / 16) % 16);
        lemma_hex_digit_plain(v % 16);
        lemma_run_one((true, false), hex_digit((v / 4096) % 16));
        lemma_run_one((true, false), hex_digit((v / 256) % 16));
        lemma_run_one((true, false), hex_digit((v / 16) % 16));
        lemma_run_one((true, false), hex_digit(v % 16));
        lemma_run_append((true, false), h0 + h1 + h2, h3);
        lemma_run_append((true, false), h0 + h1, h2);
        lemma_run_append((true, false), h0, h1);
        assert(seq!['\\'] + (seq!['u'] + h) == piece);
    } else {
        lemma_run_one(st, c);
    }
}

proof fn lemma_escaped_run(s: Seq<char>)
    ensures
        run_state((false, false), escaped(s)) == esc_state(s),
        run_out((false, false), escaped(s)) == escaped(s),
    decreases s.len(),
{
    if s.len() > 0 {
        let p = s.drop_last();
        let c = s.last();
        lemma_escaped_run(p);
        let piece = esc_piece(esc_state(p), c);
        lemma_run_append((false, false), escaped(p), piece);
        lemma_piece_is_stable(esc_state(p), c);
    }
}

/// Escaping is done once for all: escaping an escaped text changes nothing,
/// and the string boundaries stay where they were (the escaper ends in the
/// same state).
pub proof fn lemma_escaping_is_idempotent(s: Seq<char>)
    ensures
        escaped(escaped(s)) == escaped(s),
        esc_state(escaped(s)) == esc_state(s),
{
    lemma_escaped_run(s);
    lemma_run_from_start(escaped(s));
}

/// A raw control character stands at `i` inside a JSON string (not right
/// after a backslash).
pub open spec fn raw_control_at(s: Seq<char>, i: int) -> bool {
    let (ins, esc) = esc_state(s.take(i));
    ins && !esc && is_cc(s[i])
}

/// A text with no raw control character inside its strings is left as it is.
pub proof fn lemma_escaping_keeps_clean_text(s: Seq<char>)
    requires
        forall|i: int| 0 <= i < s.len() ==> !#[trigger] raw_control_at(s, i),
    ensures
        escaped(s) == s,
    decreases s.len(),
{
    if s.len() > 0 {
        let p = s.drop_last();
        assert forall|i: int| 0 <= i < p.len() implies !#[trigger] raw_control_at(p, i) by {
            assert(p.take(i) == s.take(i));
            assert(!raw_control_at(s, i));
        }
        lemma_escaping_keeps_clean_text(p);
        let k = p.len() as int;
        assert(s.take(k) == p);
        assert(!raw_control_at(s, k));
        let c = s.last();
        assert(is_cc('\n') && is_cc('\r') && is_cc('\t'));
        assert(esc_piece(esc_state(p), c) == seq![c]);
        assert(escaped(s) == p + seq![c]);
        assert(s == p.push(c));
    }
}

/// Escapes raw control characters that stand inside JSON strings.
pub fn escape_control_chars_in_json_strings(s: &[char]) -> (out: String)
    ensures
        out@ == escaped(s@),
{
    let mut out = String::new();
    let mut in_string = false;
    let mut escape = false;
    let mut i: usize = 0;
    while i < s.len()
        invariant
            i <= s@.len(),
            out@ == escaped(s@.subrange(0, i as int)),
            esc_state(s@.subrange(0, i as int)) == (in_string, escape),
        decreases s.len() - i,
    {
        let c = s[i];
        let ghost prefix = s@.subrange(0, i as int);
        let ghost old_out = out@;
        let ghost piece = esc_piece(esc_state(prefix), c);
        assert(s@.subrange(0, i + 1).drop_last() == prefix);
        assert(s@.subrange(0, i + 1).last() == c);
        assert(escaped(s@.subrange(0, i + 1)) == escaped(prefix) + piece);
        if !in_string {
            if c == '"' {
                in_string = true;
            }
            push_char(&mut out, c);
        } else if escape {
            push_char(&mut out, c);
            escape = false;
        } else if c == '\\' {
            push_char(&mut out, c);
            escape = true;
        } else if c == '"' {
            push_char(&mut out, c);
            in_string = false;
        } else if c == '\n' {
            push_char(&mut out, '\\');
            push_char(&mut out, 'n');
        } else if c == '\r' {
            push_char(&mut out, '\\');
            push_char(&mut out, 'r');
        } else if c == '\t' {
            push_char(&mut out, '\\');
            push_char(&mut out, 't');
        } else if (c as u32) <= 0x1f || (0x7f <= (c as u32) && (c as u32) <= 0x9f) {
            let v = c as u32;
            push_char(&mut out, '\\');
            push_char(&mut out, 'u');
            push_char(&mut out, hex_char((v / 4096) % 16));
            push_char(&mut out, hex_char((v / 256) % 16));
            push_char(&mut out, hex_char((v / 16) % 16));
            push_char(&mut out, hex_char(v % 16));
            assert(out@ =~= old_out + piece);
        } else {
            push_char(&mut out, c);
        }
        i += 1;
    }
    assert(s@.subrange(0, s@.len() as int) == s@);
    out
}

// ---------------------------------------------------------------------------
// <think> blocks
// ---------------------------------------------------------------------------

/// The opening tag `<think>`.
pub open spec fn think_open() -> Seq<char> {
    seq!['<', 't', 'h', 'i', 'n', 'k', '>']
}

/// The closing tag `</think>`.
pub open spec fn think_close() -> Seq<char> {
    seq!['<', '/', 't', 'h', 'i', 'n', 'k', '>']
}

/// Text left when every closed `<think>...</think>` block is cut out of
/// `rest`, and whether every block was closed.  At the first unclosed block
/// the tag and everything after it stay.
pub open spec fn think_strip(rest: Seq<char>) -> (Seq<char>, bool)
    decreases rest.len(),
{
    match find(rest, think_open()) {
        None => (rest, true),
        Some(st) => {
            let after = rest.subrange(st + 7, rest.len() as int);
            match find(after, think_close()) {
                None => (rest.subrange(0, st) + think_open() + after, false),
                Some(e) => {
                    proof {
                        lemma_find_from_some(rest, think_open(), 0);
                        lemma_find_from_some(after, think_close(), 0);
                    }
                    let r = think_strip(after.subrange(e + 8, after.len() as int));
                    (rest.subrange(0, st) + r.0, r.1)
                },
            }
        },
    }
}

/// `s` without its `<think>` blocks; trimmed, unless a block was left unclosed.
pub open spec fn strip_think(s: Seq<char>) -> Seq<char> {
    let r = think_strip(s);
    if r.1 {
        trim(r.0)
    } else {
        r.0
    }
}

fn think_open_chars() -> (v: Vec<char>)
    ensures
        v@ == think_open(),
{
    let mut v = Vec::new();
    v.push('<');
    v.push('t');
    v.push('h');
    v.push('i');
    v.push('n');
    v.push('k');
    v.push('>');
    v
}

fn think_close_chars() -> (v: Vec<char>)
    ensures
        v@ == think_close(),
{
    let mut v = Vec::new();
    v.push('<');
    v.push('/');
    v.push('t');
    v.push('h');
    v.push('i');
    v.push('n');
    v.push('k');
    v.push('>');
    v
}

/// Cuts `<think>...</think>` blocks out of `s`.
pub fn strip_think_blocks(s: &[char]) -> (out: String)
    ensures
        out@ == strip_think(s@),
{
    let open = think_open_chars();
    let close = think_close_chars();
    let mut out: Vec<char> = Vec::new();
    let mut rest: &[char] = s;
    loop
        invariant
            out@ + think_strip(rest@).0 == think_strip(s@).0,
            think_strip(rest@).1 == think_strip(s@).1,
            open@ == think_open(),
            close@ == think_close(),
        decreases rest@.len(),
    {
        match find_chars(rest, open.as_slice()) {
            None => {
                let mut all = out;
                let mut k: usize = 0;
                while k < rest.len()
                    invariant
                        k <= rest@.len(),
                        all@ == out@ + rest@.subrange(0, k as int),
                    decreases rest.len() - k,
                {
                    all.push(rest[k]);
                    assert(rest@.subrange(0, k + 1) == rest@.subrange(0, k as int).push(rest@[k as int]));
                    k += 1;
                }
                assert(rest@.subrange(0, rest@.len() as int) == rest@);
                let (lo, hi) = trim_bounds(all.as_slice());
                return string_of_range(all.as_slice(), lo, hi);
            },
            Some(st) => {
                assert(think_open().len() == 7);
                assert(st + open@.len() <= rest@.len());
                assert(rest@.len() == rest.len());
                let ghost old_out = out@;
                let before = slice_subrange(rest, 0, st);
                let after = slice_subrange(rest, st + 7, rest.len());
                match find_chars(after, close.as_slice()) {
                    None => {
                        let mut res = string_of(out.as_slice());
                        push_chars(&mut res, before);
                        push_chars(&mut res, open.as_slice());
                        push_chars(&mut res, after);
                        assert(res@ == think_strip(s@).0);
                        return res;
                    },
                    Some(e) => {
                        let mut k: usize = 0;
                        while k < before.len()
                            invariant
                                k <= before@.len(),
                                out@ == old_out + before@.subrange(0, k as int),
                            decreases before.len() - k,
                        {
                            out.push(before[k]);
                            assert(before@.subrange(0, k + 1) == before@.subrange(0, k as int).push(before@[k as int]));
                            k += 1;
                        }
                        assert(before@.subrange(0, before@.len() as int) == before@);
                        assert(think_close().len() == 8);
                        rest = slice_subrange(after, e + 8, after.len());
                    },
                }
            },
        }
    }
}

// ---------------------------------------------------------------------------
// Payload
// ---------------------------------------------------------------------------

/// One more sense of the translated word, as the model returned it.
#[derive(Debug)]
pub struct LlmSenseEntry {
    /// The sense.
    pub text: String,
    /// Its domain or part of speech.
    pub label: Option<String>,
}

/// The JSON object the model is asked for (camelCase keys in the JSON form).
#[derive(Debug)]
pub struct LlmTranslationPayload {
    /// The translation.
    pub text: String,
    /// Phonetic transcription.
    pub phonetic: Option<String>,
    /// Meaning in computing.
    pub computer_sense: Option<String>,
    /// Further senses.
    pub more_senses: Vec<LlmSenseEntry>,
}

/// One further sense of a translation result.
#[derive(Debug)]
pub struct SenseEntry {
    /// The sense.
    pub text: String,
    /// Its domain or part of speech.
    pub label: Option<String>,
}

/// Translation, phonetic, computing sense and further senses.
pub type ParsedLlmFields = (String, Option<String>, Option<String>, Vec<SenseEntry>);

/// The senses of `s` whose text is not blank, in order.
pub open spec fn kept_senses(s: Seq<LlmSenseEntry>) -> Seq<LlmSenseEntry>
    decreases s.len(),
{
    if s.len() == 0 {
        Seq::empty()
    } else if all_ws(s.last().text@) {
        kept_senses(s.drop_last())
    } else {
        kept_senses(s.drop_last()).push(s.last())
    }
}

/// A further sense that carries text (not blank).
pub open spec fn has_text() -> spec_fn(LlmSenseEntry) -> bool {
    |e: LlmSenseEntry| !all_ws(e.text@)
}

/// A further sense is kept exactly when its text is not blank, and then
/// whole: the kept senses are the senses with text, in their order, each
/// with its text and its label unchanged.
pub proof fn lemma_kept_senses_are_those_with_text(s: Seq<LlmSenseEntry>)
    ensures
        kept_senses(s) == s.filter(has_text()),
    decreases s.len(),
{
    reveal(Seq::filter);
    if s.len() > 0 {
        lemma_kept_senses_are_those_with_text(s.drop_last());
    }
}

/// Where no further sense is blank, every one is kept, in order and unchanged.
pub proof fn lemma_senses_with_text_all_kept(s: Seq<LlmSenseEntry>)
    requires
        forall|i: int| 0 <= i < s.len() ==> !all_ws(#[trigger] s[i].text@),
    ensures
        kept_senses(s) == s,
    decreases s.len(),
{
    if s.len() > 0 {
        lemma_senses_with_text_all_kept(s.drop_last());
        assert(s.drop_last().push(s.last()) == s);
    }
}

/// Each further sense with text comes out of a decoded payload with its
/// text and its label (part of speech or domain); where none is blank, the
/// senses come out one for one, in order.
pub proof fn lemma_payload_keeps_sense_labels(p: LlmTranslationPayload, r: Result<ParsedLlmFields, String>)
    requires
        payload_fields_ok(p, r),
        r is Ok,
    ensures
        forall|i: int|
            0 <= i < p.more_senses@.len() && !all_ws((#[trigger] p.more_senses@[i]).text@) ==> exists|j: int|
                0 <= j < r->Ok_0.3@.len() && r->Ok_0.3@[j].text == p.more_senses@[i].text
                    && r->Ok_0.3@[j].label == p.more_senses@[i].label,
        (forall|i: int| 0 <= i < p.more_senses@.len() ==> !all_ws(#[trigger] p.more_senses@[i].text@)) ==> {
            &&& r->Ok_0.3@.len() == p.more_senses@.len()
            &&& forall|i: int|
                0 <= i < p.more_senses@.len() ==> (#[trigger] r->Ok_0.3@[i]).text == p.more_senses@[i].text
                    && r->Ok_0.3@[i].label == p.more_senses@[i].label
        },
{
    let s = p.more_senses@;
    let out = r->Ok_0.3@;
    lemma_kept_senses_are_those_with_text(s);
    broadcast use vstd::seq_lib::group_filter_ensures;
    assert forall|i: int| 0 <= i < s.len() && !all_ws((#[trigger] s[i]).text@) implies exists|j: int|
        0 <= j < out.len() && out[j].text == s[i].text && out[j].label == s[i].label by {
        assert(has_text()(s[i]));
        assert(s.filter(has_text()).contains(s[i]));
        let j = choose|j: int| 0 <= j < s.filter(has_text()).len() && s.filter(has_text())[j] == s[i];
        assert(out[j].text == s[i].text);
    }
    if forall|i: int| 0 <= i < s.len() ==> !all_ws(#[trigger] s[i].text@) {
        lemma_senses_with_text_all_kept(s);
    }
}

/// The error for a payload without usable text.
pub open spec fn missing_text_message() -> Seq<char> {
    "JSON 缺少有效 text 字段"@
}

/// The fields of a decoded payload: an error when its text is blank; the
/// further senses with blank text dropped.
pub open spec fn payload_fields_ok(p: LlmTranslationPayload, r: Result<ParsedLlmFields, String>) -> bool {
    if all_ws(p.text@) {
        r matches Err(m) && m@ == missing_text_message()
    } else {
        &&& r is Ok
        &&& r->Ok_0.0 == p.text
        &&& r->Ok_0.1 == p.phonetic
        &&& r->Ok_0.2 == p.computer_sense
        &&& r->Ok_0.3@.len() == kept_senses(p.more_senses@).len()
        &&& forall|i: int|
            0 <= i < r->Ok_0.3@.len() ==> {
                &&& (#[trigger] r->Ok_0.3@[i]).text == kept_senses(p.more_senses@)[i].text
                &&& r->Ok_0.3@[i].label == kept_senses(p.more_senses@)[i].label
            }
    }
}

fn is_blank(s: &str) -> (b: bool)
    ensures
        b == all_ws(s@),
{
    let cs = chars_of(s);
    let mut i: usize = 0;
    while i < cs.len()
        invariant
            i <= cs@.len(),
            cs@ == s@,
            forall|j: int| 0 <= j < i ==> is_ws(#[trigger] cs@[j]),
        decreases cs.len() - i,
    {
        if !is_whitespace(cs[i]) {
            return false;
        }
        i += 1;
    }
    true
}

/// Checks a decoded payload and turns it into result fields.
pub fn payload_to_result(payload: LlmTranslationPayload) -> (r: Result<ParsedLlmFields, String>)
    ensures
        payload_fields_ok(payload, r),
        r matches Ok(f) ==> {
            &&& f.3@.len() == payload.more_senses@.filter(has_text()).len()
            &&& forall|i: int|
                0 <= i < f.3@.len() ==> {
                    &&& (#[trigger] f.3@[i]).text == payload.more_senses@.filter(has_text())[i].text
                    &&& f.3@[i].label == payload.more_senses@.filter(has_text())[i].label
                }
        },
{
    proof {
        lemma_kept_senses_are_those_with_text(payload.more_senses@);
    }
    if is_blank(payload.text.as_str()) {
        return Err(owned("JSON 缺少有效 text 字段"));
    }
    let ghost senses = payload.more_senses@;
    let LlmTranslationPayload { text, phonetic, computer_sense, more_senses } = payload;
    let mut kept: Vec<SenseEntry> = Vec::new();
    let mut i: usize = 0;
    let n = more_senses.len();
    let mut src = more_senses;
    // Walk the senses in order; `src` is consumed from the back, so reverse first.
    let mut rev: Vec<LlmSenseEntry> = Vec::new();
    while src.len() > 0
        invariant
            rev@.len() + src@.len() == n,
            n == senses.len(),
            forall|j: int| 0 <= j < src@.len() ==> src@[j] == senses[j],
            forall|j: int| 0 <= j < rev@.len() ==> rev@[j] == senses[n - 1 - j],
        decreases src.len(),
    {
        let e = src.pop().unwrap();
        rev.push(e);
    }
    while rev.len() > 0
        invariant
            i + rev@.len() == n,
            n == senses.len(),
            forall|j: int| 0 <= j < rev@.len() ==> rev@[j] == senses[n - 1 - j],
            kept@.len() == kept_senses(senses.subrange(0, i as int)).len(),
            forall|j: int|
                0 <= j < kept@.len() ==> {
                    &&& (#[trigger] kept@[j]).text == kept_senses(senses.subrange(0, i as int))[j].text
                    &&& kept@[j].label == kept_senses(senses.subrange(0, i as int))[j].label
                },
        decreases rev.len(),
    {
        let e = rev.pop().unwrap();
        assert(e == senses[i as int]);
        let ghost pre = senses.subrange(0, i as int);
        assert(senses.subrange(0, i + 1).drop_last() == pre);
        assert(senses.subrange(0, i + 1).last() == e);
        let blank = is_blank(e.text.as_str());
        if !blank {
            let LlmSenseEntry { text: t, label: l } = e;
            kept.push(SenseEntry { text: t, label: l });
        }
        i += 1;
    }
    assert(senses.subrange(0, n as int) == senses);
    Ok((text, phonetic, computer_sense, kept))
}

// ---------------------------------------------------------------------------
// Scanning a reply
// ---------------------------------------------------------------------------

/// The error for an empty reply.
pub open spec fn empty_reply_message() -> Seq<char> {
    "LLM 返回空内容"@
}

/// The error for a reply that promised JSON but holds no usable object.
pub open spec fn broken_json_message() -> Seq<char> {
    "JSON 解析失败: 未找到完整 JSON 对象"@
}

/// The reply without surrounding white space and fences; `None` when nothing is left.
pub open spec fn reply_body(content: Seq<char>) -> Option<Seq<char>> {
    let t = trim(content);
    if t.len() == 0 {
        None
    } else {
        let a = strip_fence(t);
        if trim(a).len() == 0 {
            None
        } else {
            Some(a)
        }
    }
}

/// The first `n` candidate objects of `body`, each searched in the text that
/// follows the previous one: the raw object text and the text after it.
pub open spec fn candidates(body: Seq<char>, n: nat) -> Seq<(Seq<char>, Seq<char>)>
    decreases n,
{
    if n == 0 {
        Seq::empty()
    } else {
        match first_json_object(body) {
            None => Seq::empty(),
            Some((a, b)) => seq![(body.subrange(a, b + 1), body.subrange(b + 1, body.len() as int))]
                + candidates(body.subrange(b + 1, body.len() as int), (n - 1) as nat),
        }
    }
}

/// A candidate object of a reply.
#[derive(Debug)]
pub struct LlmJsonCandidate {
    /// The object text, control characters in its strings escaped.
    pub json: String,
    /// Only white space follows the object.
    pub trailing_blank: bool,
}

/// A non-empty reply and its candidate objects, in scan order.
#[derive(Debug)]
pub struct LlmContentScan {
    /// The reply without surrounding white space and fences.
    pub body: String,
    /// At most three candidate objects.
    pub candidates: Vec<LlmJsonCandidate>,
}

/// The scan describes `body` and its first three candidates.
pub open spec fn scan_describes(scan: LlmContentScan, body: Seq<char>) -> bool {
    let cs = candidates(body, 3);
    &&& scan.body@ == body
    &&& scan.candidates@.len() == cs.len()
    &&& forall|i: int|
        0 <= i < cs.len() ==> {
            &&& (#[trigger] scan.candidates@[i]).json@ == escaped(cs[i].0)
            &&& scan.candidates@[i].trailing_blank == all_ws(cs[i].1)
        }
}

proof fn lemma_candidates_step(body: Seq<char>, m: nat)
    requires
        m > 0,
    ensures
        first_json_object(body) is None ==> candidates(body, m) == Seq::<(Seq<char>, Seq<char>)>::empty(),
        first_json_object(body) matches Some((a, b)) ==> candidates(body, m) == seq![
            (body.subrange(a, b + 1), body.subrange(b + 1, body.len() as int)),
        ] + candidates(body.subrange(b + 1, body.len() as int), (m - 1) as nat),
{
}

proof fn lemma_candidates_len(body: Seq<char>, n: nat)
    ensures
        candidates(body, n).len() <= n,
    decreases n,
{
    if n > 0 {
        match first_json_object(body) {
            None => {},
            Some((a, b)) => lemma_candidates_len(body.subrange(b + 1, body.len() as int), (n - 1) as nat),
        }
    }
}

/// Finds the body of a reply and its candidate objects.  Fails with
/// "LLM 返回空内容" when the reply, or what is left after removing a fence,
/// is blank.
pub fn scan_llm_content(content: &str) -> (r: Result<LlmContentScan, String>)
    ensures
        match reply_body(content@) {
            None => r matches Err(m) && m@ == empty_reply_message(),
            Some(body) => r matches Ok(scan) && scan_describes(scan, body),
        },
{
    let cs = chars_of(content);
    let (lo, hi) = trim_bounds(cs.as_slice());
    if lo == hi {
        return Err(owned("LLM 返回空内容"));
    }
    let t = slice_subrange(cs.as_slice(), lo, hi);
    let body = strip_markdown_fence(t);
    let (l2, h2) = trim_bounds(body.as_slice());
    if l2 == h2 {
        return Err(owned("LLM 返回空内容"));
    }
    let mut found: Vec<LlmJsonCandidate> = Vec::new();
    let mut scan_from: &[char] = body.as_slice();
    let mut k: usize = 0;
    let ghost mut got: Seq<(Seq<char>, Seq<char>)> = Seq::empty();
    while k < 3
        invariant_except_break
            k <= 3,
            found@.len() == k,
            got.len() == k,
            candidates(body@, 3) == got + candidates(scan_from@, (3 - k) as nat),
            forall|i: int|
                0 <= i < k ==> {
                    &&& (#[trigger] found@[i]).json@ == escaped(got[i].0)
                    &&& found@[i].trailing_blank == all_ws(got[i].1)
                },
        ensures
            candidates(body@, 3) == got,
            found@.len() == got.len(),
            forall|i: int|
                0 <= i < got.len() ==> {
                    &&& (#[trigger] found@[i]).json@ == escaped(got[i].0)
                    &&& found@[i].trailing_blank == all_ws(got[i].1)
                },
        decreases 3 - k,
    {
        match extract_first_json_object(scan_from) {
            None => {
                proof {
                    lemma_candidates_step(scan_from@, (3 - k) as nat);
                    assert(got + Seq::<(Seq<char>, Seq<char>)>::empty() == got);
                }
                break;
            },
            Some((a, b)) => {
                assert(scan_from@.len() == scan_from.len());
                let raw = slice_subrange(scan_from, a, b + 1);
                let after = slice_subrange(scan_from, b + 1, scan_from.len());
                let json = escape_control_chars_in_json_strings(raw);
                let (l3, h3) = trim_bounds(after);
                found.push(LlmJsonCandidate { json, trailing_blank: l3 == h3 });
                proof {
                    lemma_trim_empty_iff_blank(after@);
                    let m = (3 - k) as nat;
                    lemma_candidates_step(scan_from@, m);
                    assert(candidates(scan_from@, m) == seq![(raw@, after@)] + candidates(after@, (m - 1) as nat));
                    got = got.push((raw@, after@));
                    assert(candidates(body@, 3) == got + candidates(after@, (m - 1) as nat));
                }
                scan_from = after;
                k += 1;
                if k == 3 {
                    assert(got + candidates(scan_from@, 0) == got);
                }
            },
        }
    }
    Ok(LlmContentScan { body: string_of(body.as_slice()), candidates: found })
}

} // verus!

verus! {

// ---------------------------------------------------------------------------
// Deciding on a reply
// ---------------------------------------------------------------------------

/// The fields of a reply without a usable object: an error when the body
/// starts with `{` (the model promised JSON) or holds a `{` that never closed
/// (a truncated object); otherwise the body is the translation, without its
/// `<think>` blocks.
pub open spec fn fallback_ok(body: Seq<char>, saw_object: bool, r: Result<ParsedLlmFields, String>) -> bool {
    if starts_with(body, seq!['{']) || (!saw_object && contains_char(body, '{')) {
        r matches Err(m) && m@ == broken_json_message()
    } else {
        &&& r is Ok
        &&& r->Ok_0.0@ == strip_think(body)
        &&& r->Ok_0.1 is None
        &&& r->Ok_0.2 is None
        &&& r->Ok_0.3@.len() == 0
    }
}

/// The decision on a scanned reply, given the first candidate that decoded
/// (its position and payload): the payload when only white space follows
/// that candidate, the fallback otherwise.
pub open spec fn finish_ok(
    scan: LlmContentScan,
    parsed: Option<(usize, LlmTranslationPayload)>,
    r: Result<ParsedLlmFields, String>,
) -> bool {
    match parsed {
        Some((k, p)) => if scan.candidates@[k as int].trailing_blank {
            payload_fields_ok(p, r)
        } else {
            fallback_ok(scan.body@, scan.candidates@.len() > 0, r)
        },
        None => fallback_ok(scan.body@, scan.candidates@.len() > 0, r),
    }
}

/// Decides on a scanned reply.  `parsed` is the first candidate, in scan
/// order, whose JSON decoded into a payload (`None` when none did).
pub fn finish_llm_content(scan: LlmContentScan, parsed: Option<(usize, LlmTranslationPayload)>) -> (r: Result<
    ParsedLlmFields,
    String,
>)
    requires
        parsed matches Some((k, _)) ==> k < scan.candidates@.len(),
    ensures
        finish_ok(scan, parsed, r),
{
    let ghost s0 = scan;
    let ghost p0 = parsed;
    let LlmContentScan { body, candidates } = scan;
    match parsed {
        Some((k, payload)) => {
            if candidates[k].trailing_blank {
                return payload_to_result(payload);
            }
        },
        None => {},
    }
    let cs = chars_of(body.as_str());
    let starts = starts_with_char(cs.as_slice(), '{');
    if starts || (candidates.len() == 0 && has_char(cs.as_slice(), '{')) {
        return Err(owned("JSON 解析失败: 未找到完整 JSON 对象"));
    }
    let text = strip_think_blocks(cs.as_slice());
    Ok((text, None, None, Vec::new()))
}

// ---------------------------------------------------------------------------
// Building the request and the messages
// ---------------------------------------------------------------------------

/// Id of the host-model translation provider.
pub const PROVIDER_ID: &'static str = "host-model";

/// System prompt that asks the model for one JSON object.
pub const DEFAULT_TRANSLATION_SYSTEM_PROMPT: &'static str = r#"你是能够敏锐感知语言语体的翻译专家。根据用户给出的源语言、目标语言与原文，输出且仅输出一个 JSON 对象，不要 markdown 代码块，不要额外说明。

核心原则：译文的语气随原文语气自然变化。
- 原文正式/学术/商务 → 译文庄重、精确、用词考究
- 原文口语/聊天/轻松 → 译文自然、简洁、接地气
- 原文技术文档/代码 → 译文术语准确、句式干净
- 原文文学/创意 → 保留原文的情绪张力与节奏
- 总之：让译文读起来像该语言中本就该有的表达，避免翻译腔

JSON 字段（camelCase）：
- text（string，必填）：主译文
- phonetic（string，可选）：音标或读音
- computerSense（string，可选）：计算机/IT 领域释义（仅原文为计算机术语时提供）
- moreSenses（array，可选，最多 4 条）：更多释义，每项含 label（可选，如词性/领域）与 text（string）

示例 1（技术→中文，含音标/计算机释义）：{"text":"缓存失效策略使用 LRU 淘汰","phonetic":"/kæʃ/","computerSense":"高速缓冲存储器","moreSenses":[{"label":"v.","text":"存入缓存"}]}
示例 2（口语→中文，语气轻松）：{"text":"老哥这应用太牛了","moreSenses":[{"label":"adj.","text":"很酷的"}]}"#;

/// A translation request.
#[derive(Debug, Clone, PartialEq, Eq)]
pub struct TranslateRequest {
    /// Text to translate.
    pub text: String,
    /// Source language code (`auto` for detection).
    pub source: String,
    /// Target language code.
    pub target: String,
}

/// `code` equals `auto` ignoring ASCII case.
pub open spec fn is_auto(code: Seq<char>) -> bool {
    code.len() == 4 && ascii_lower(code[0]) == 'a' && ascii_lower(code[1]) == 'u' && ascii_lower(code[2]) == 't'
        && ascii_lower(code[3]) == 'o'
}

/// How a language code is shown to the model: `auto` (any ASCII case) as
/// "自动检测", any other code as it is.
pub open spec fn shown_language(code: Seq<char>) -> Seq<char> {
    if is_auto(code) {
        "自动检测"@
    } else {
        code
    }
}

/// How a language code is shown to the model (`auto` in any ASCII case as
/// "自动检测", any other code as it is).
pub fn format_language<'a>(code: &'a str) -> (r: &'a str)
    ensures
        r@ == shown_language(code@),
{
    let cs = chars_of(code);
    if cs.len() == 4 && lower_char(cs[0]) == 'a' && lower_char(cs[1]) == 'u' && lower_char(cs[2]) == 't'
        && lower_char(cs[3]) == 'o' {
        "自动检测"
    } else {
        code
    }
}

/// Appends how `code` is shown to the model.
pub fn push_language(out: &mut String, code: &str)
    ensures
        final(out)@ == old(out)@ + shown_language(code@),
{
    push_str(out, format_language(code));
}

/// The user message: source language, target language and text, one per line.
pub open spec fn user_message(req: TranslateRequest) -> Seq<char> {
    "源语言："@ + shown_language(req.source@) + "\n目标语言："@ + shown_language(req.target@) + "\n原文："@
        + req.text@
}

/// Builds the user message of a translation request.
pub fn build_user_message(req: &TranslateRequest) -> (out: String)
    ensures
        out@ == user_message(*req),
{
    let mut out = String::new();
    push_str(&mut out, "源语言：");
    push_language(&mut out, req.source.as_str());
    push_str(&mut out, "\n目标语言：");
    push_language(&mut out, req.target.as_str());
    push_str(&mut out, "\n原文：");
    push_str(&mut out, req.text.as_str());
    out
}

/// The user-facing text of a model error.
pub open spec fn model_error_message_text(e: ModelError) -> Seq<char> {
    match e {
        ModelError::NotSupported => "模型提供方不支持该操作"@,
        ModelError::ModelNotFound(s) => "模型不存在: "@ + s@,
        ModelError::ProviderUnavailable(s) => "模型提供方不可用: "@ + s@,
        ModelError::InvalidRequest(s) => "模型请求参数非法: "@ + s@,
        ModelError::Transport(s) => "模型传输失败: "@ + s@,
    }
}

/// User-facing text of a model error.
pub fn model_error_message(e: &ModelError) -> (r: String)
    ensures
        r@ == model_error_message_text(*e),
{
    let mut out = String::new();
    match e {
        ModelError::NotSupported => push_str(&mut out, "模型提供方不支持该操作"),
        ModelError::ModelNotFound(s) => {
            push_str(&mut out, "模型不存在: ");
            push_str(&mut out, s.as_str());
        },
        ModelError::ProviderUnavailable(s) => {
            push_str(&mut out, "模型提供方不可用: ");
            push_str(&mut out, s.as_str());
        },
        ModelError::InvalidRequest(s) => {
            push_str(&mut out, "模型请求参数非法: ");
            push_str(&mut out, s.as_str());
        },
        ModelError::Transport(s) => {
            push_str(&mut out, "模型传输失败: ");
            push_str(&mut out, s.as_str());
        },
    }
    out
}

/// The error shown when a model call fails.
pub fn chat_failure_message(e: &ModelError) -> (r: String)
    ensures
        r@ == "模型调用失败: "@ + model_error_message_text(*e),
{
    let mut out = String::new();
    push_str(&mut out, "模型调用失败: ");
    let m = model_error_message(e);
    push_str(&mut out, m.as_str());
    out
}

/// The chat request for a translation: an error when no model is chosen
/// (`model_id` blank) or, after that, when no plugin handle is available;
/// otherwise the system prompt and the user message, with no overrides.
pub open spec fn translation_request_ok(
    model_id: Seq<char>,
    handle_available: bool,
    req: TranslateRequest,
    r: Result<ModelChatRequest, String>,
) -> bool {
    if all_ws(model_id) {
        r matches Err(m) && m@ == "请在设置中选择翻译模型"@
    } else if !handle_available {
        r matches Err(m) && m@ == "插件服务句柄不可用，请重启应用后重试"@
    } else {
        &&& r is Ok
        &&& r->Ok_0.model_id@ == model_id
        &&& r->Ok_0.messages@.len() == 2
        &&& r->Ok_0.messages@[0].role == ModelChatRole::System
        &&& r->Ok_0.messages@[0].content@ == DEFAULT_TRANSLATION_SYSTEM_PROMPT@
        &&& r->Ok_0.messages@[1].role == ModelChatRole::User
        &&& r->Ok_0.messages@[1].content@ == user_message(req)
        &&& r->Ok_0.temperature_bits is None
        &&& r->Ok_0.max_tokens is None
        &&& r->Ok_0.reasoning_effort is None
    }
}

/// Builds the chat request of a translation.
pub fn translation_chat_request(model_id: &str, handle_available: bool, req: &TranslateRequest) -> (r: Result<
    ModelChatRequest,
    String,
>)
    ensures
        translation_request_ok(model_id@, handle_available, *req, r),
{
    let cs = chars_of(model_id);
    let (lo, hi) = trim_bounds(cs.as_slice());
    proof {
        lemma_trim_empty_iff_blank(cs@);
    }
    if lo == hi {
        return Err(owned("请在设置中选择翻译模型"));
    }
    if !handle_available {
        return Err(owned("插件服务句柄不可用，请重启应用后重试"));
    }
    let mut messages: Vec<ModelChatMessage> = Vec::new();
    messages.push(ModelChatMessage { role: ModelChatRole::System, content: owned(DEFAULT_TRANSLATION_SYSTEM_PROMPT) });
    messages.push(ModelChatMessage { role: ModelChatRole::User, content: build_user_message(req) });
    Ok(ModelChatRequest {
        model_id: owned(model_id),
        messages,
        temperature_bits: None,
        max_tokens: None,
        reasoning_effort: None,
    })
}

} // verus!
