//! Character-level text helpers shared by the parsers of this crate.
//!
//! Text is handled as sequences of `char`; every helper states its result
//! over the `Seq<char>` view of its arguments.
use vstd::prelude::*;

verus! {

/// The characters of `s`, in order.
pub fn chars_of(s: &str) -> (out: Vec<char>)
    ensures
        out@ == s@,
{
    let mut out: Vec<char> = Vec::new();
    for c in it: s.chars()
        invariant
            out@ == it.seq().take(it.index() as int),
    {
        out.push(c);
    }
    out
}

/// Appends one character (`String::push`).
#[verifier::external_body]
pub(crate) fn push_char(s: &mut String, c: char)
    ensures
        final(s)@ == old(s)@.push(c),
{
    s.push(c);
}

/// Appends `cs[from..to]` to `out`.
pub fn push_range(out: &mut String, cs: &[char], from: usize, to: usize)
    requires
        from <= to <= cs@.len(),
    ensures
        final(out)@ == old(out)@ + cs@.subrange(from as int, to as int),
{
    let ghost start = out@;
    let mut i = from;
    while i < to
        invariant
            from <= i <= to <= cs@.len(),
            out@ == start + cs@.subrange(from as int, i as int),
        decreases to - i,
    {
        push_char(out, cs[i]);
        assert(cs@.subrange(from as int, i + 1) == cs@.subrange(from as int, i as int).push(cs@[i as int]));
        i += 1;
    }
}

/// Appends every character of `cs` to `out`.
pub fn push_chars(out: &mut String, cs: &[char])
    ensures
        final(out)@ == old(out)@ + cs@,
{
    push_range(out, cs, 0, cs.len());
    assert(cs@.subrange(0, cs@.len() as int) == cs@);
}

/// Appends the characters of `s` to `out`.
pub fn push_str(out: &mut String, s: &str)
    ensures
        final(out)@ == old(out)@ + s@,
{
    let cs = chars_of(s);
    push_chars(out, cs.as_slice());
}

/// A new string holding `cs[from..to]`.
pub fn string_of_range(cs: &[char], from: usize, to: usize) -> (out: String)
    requires
        from <= to <= cs@.len(),
    ensures
        out@ == cs@.subrange(from as int, to as int),
{
    let mut out = String::new();
    push_range(&mut out, cs, from, to);
    out
}

/// A new string holding the characters of `cs`.
pub fn string_of(cs: &[char]) -> (out: String)
    ensures
        out@ == cs@,
{
    let mut out = String::new();
    push_chars(&mut out, cs);
    out
}

/// A new string holding the characters of `s`.
pub fn owned(s: &str) -> (out: String)
    ensures
        out@ == s@,
{
    let mut out = String::new();
    push_str(&mut out, s);
    out
}

/// Unicode `White_Space`, the property that `char::is_whitespace` tests.
pub open spec fn is_ws(c: char) -> bool {
    let v = c as u32;
    ||| 0x9 <= v <= 0xd
    ||| v == 0x20
    ||| v == 0x85
    ||| v == 0xa0
    ||| v == 0x1680
    ||| 0x2000 <= v <= 0x200a
    ||| v == 0x2028
    ||| v == 0x2029
    ||| v == 0x202f
    ||| v == 0x205f
    ||| v == 0x3000
}

/// Whether `c` is white space (as `char::is_whitespace`).
pub fn is_whitespace(c: char) -> (b: bool)
    ensures
        b == is_ws(c),
{
    let v = c as u32;
    (0x9 <= v && v <= 0xd) || v == 0x20 || v == 0x85 || v == 0xa0 || v == 0x1680 || (0x2000 <= v
        && v <= 0x200a) || v == 0x2028 || v == 0x2029 || v == 0x202f || v == 0x205f || v == 0x3000
}

/// `s` without its leading white space.
pub open spec fn trim_start(s: Seq<char>) -> Seq<char>
    decreases s.len(),
{
    if s.len() > 0 && is_ws(s[0]) {
        trim_start(s.drop_first())
    } else {
        s
    }
}

/// `s` without its trailing white space.
pub open spec fn trim_end(s: Seq<char>) -> Seq<char>
    decreases s.len(),
{
    if s.len() > 0 && is_ws(s.last()) {
        trim_end(s.drop_last())
    } else {
        s
    }
}

/// `s` without leading and trailing white space (as `str::trim`).
pub open spec fn trim(s: Seq<char>) -> Seq<char> {
    trim_end(trim_start(s))
}

/// Whether `s` holds nothing but white space.
pub open spec fn all_ws(s: Seq<char>) -> bool {
    forall|i: int| 0 <= i < s.len() ==> is_ws(#[trigger] s[i])
}

/// A sequence is blank exactly when its trimmed form is empty.
pub proof fn lemma_trim_empty_iff_blank(s: Seq<char>)
    ensures
        (trim(s).len() == 0) == all_ws(s),
    decreases s.len(),
{
    lemma_trim_start_empty_iff_blank(s);
    lemma_trim_end_empty_iff_empty(trim_start(s));
}

proof fn lemma_trim_start_empty_iff_blank(s: Seq<char>)
    ensures
        (trim_start(s).len() == 0) == all_ws(s),
        trim_start(s).len() > 0 ==> !is_ws(trim_start(s)[0]),
    decreases s.len(),
{
    if s.len() > 0 && is_ws(s[0]) {
        lemma_trim_start_empty_iff_blank(s.drop_first());
        if all_ws(s.drop_first()) {
            assert forall|i: int| 0 <= i < s.len() implies is_ws(#[trigger] s[i]) by {
                if i > 0 {
                    assert(s[i] == s.drop_first()[i - 1]);
                }
            }
        }
        if all_ws(s) {
            assert forall|i: int| 0 <= i < s.drop_first().len() implies is_ws(
                #[trigger] s.drop_first()[i],
            ) by {
                assert(s.drop_first()[i] == s[i + 1]);
            }
        }
    }
}

proof fn lemma_trim_end_empty_iff_empty(s: Seq<char>)
    ensures
        (trim_end(s).len() == 0) == (s.len() == 0 || all_ws(s)),
        s.len() > 0 && !is_ws(s[0]) ==> trim_end(s).len() > 0,
    decreases s.len(),
{
    if s.len() > 0 && is_ws(s.last()) {
        lemma_trim_end_empty_iff_empty(s.drop_last());
        if all_ws(s.drop_last()) {
            assert forall|i: int| 0 <= i < s.len() implies is_ws(#[trigger] s[i]) by {
                if i < s.len() - 1 {
                    assert(s[i] == s.drop_last()[i]);
                }
            }
        }
        if all_ws(s) {
            assert forall|i: int| 0 <= i < s.drop_last().len() implies is_ws(
                #[trigger] s.drop_last()[i],
            ) by {
                assert(s.drop_last()[i] == s[i]);
            }
        }
        if s.len() > 1 && !is_ws(s[0]) {
            assert(s.drop_last()[0] == s[0]);
        }
    } else if s.len() > 0 {
        assert(!is_ws(s[s.len() - 1]));
    }
}

/// Bounds `(lo, hi)` of the trimmed part of `s`.
pub fn trim_bounds(s: &[char]) -> (r: (usize, usize))
    ensures
        r.0 <= r.1 <= s@.len(),
        s@.subrange(r.0 as int, r.1 as int) == trim(s@),
        trim_start(s@) == s@.subrange(r.0 as int, s@.len() as int),
{
    let n = s.len();
    let mut lo: usize = 0;
    assert(s@.subrange(0, n as int) == s@);
    while lo < n && is_whitespace(s[lo])
        invariant
            lo <= n == s@.len(),
            trim_start(s@) == trim_start(s@.subrange(lo as int, n as int)),
        decreases n - lo,
    {
        assert(s@.subrange(lo as int, n as int).drop_first() == s@.subrange(lo + 1, n as int));
        lo += 1;
    }
    let ghost t = s@.subrange(lo as int, n as int);
    assert(trim_start(t) == t);
    let mut hi: usize = n;
    assert(t == s@.subrange(lo as int, n as int));
    while hi > lo && is_whitespace(s[hi - 1])
        invariant
            lo <= hi <= n == s@.len(),
            trim_end(t) == trim_end(s@.subrange(lo as int, hi as int)),
            t == s@.subrange(lo as int, n as int),
        decreases hi,
    {
        assert(s@.subrange(lo as int, hi as int).drop_last() == s@.subrange(lo as int, hi - 1));
        hi -= 1;
    }
    (lo, hi)
}

/// Whether `p` occurs in `s` at position `i`.
pub open spec fn occurs_at(s: Seq<char>, p: Seq<char>, i: int) -> bool {
    0 <= i && i + p.len() <= s.len() && s.subrange(i, i + p.len()) == p
}

/// Position of the first occurrence of `p` in `s` at or after `from`.
pub open spec fn find_from(s: Seq<char>, p: Seq<char>, from: int) -> Option<int>
    decreases s.len() + 1 - from,
{
    if from < 0 || from + p.len() > s.len() {
        None
    } else if occurs_at(s, p, from) {
        Some(from)
    } else {
        find_from(s, p, from + 1)
    }
}

/// Position of the first occurrence of `p` in `s` (as `str::find`, counted in characters).
pub open spec fn find(s: Seq<char>, p: Seq<char>) -> Option<int> {
    find_from(s, p, 0)
}

/// Position of the last occurrence of `p` in `s` that starts at or before `k`.
pub open spec fn rfind_upto(s: Seq<char>, p: Seq<char>, k: int) -> Option<int>
    decreases k + 1,
{
    if k < 0 {
        None
    } else if occurs_at(s, p, k) {
        Some(k)
    } else {
        rfind_upto(s, p, k - 1)
    }
}

/// Position of the last occurrence of `p` in `s` (as `str::rfind`, counted in characters).
pub open spec fn rfind(s: Seq<char>, p: Seq<char>) -> Option<int> {
    rfind_upto(s, p, s.len() - p.len())
}

/// A found position is an occurrence at or after `from`, and none comes earlier.
pub proof fn lemma_find_from_some(s: Seq<char>, p: Seq<char>, from: int)
    requires
        0 <= from,
    ensures
        find_from(s, p, from) matches Some(i) ==> from <= i && occurs_at(s, p, i) && forall|j: int|
            from <= j < i ==> !occurs_at(s, p, j),
        find_from(s, p, from) is None ==> forall|j: int| from <= j ==> !occurs_at(s, p, j),
    decreases s.len() + 1 - from,
{
    if from + p.len() > s.len() {
    } else if occurs_at(s, p, from) {
    } else {
        lemma_find_from_some(s, p, from + 1);
    }
}

/// A position found from the end is an occurrence, and none comes later.
pub proof fn lemma_rfind_upto(s: Seq<char>, p: Seq<char>, k: int)
    requires
        k + p.len() <= s.len(),
    ensures
        rfind_upto(s, p, k) matches Some(i) ==> 0 <= i <= k && occurs_at(s, p, i) && forall|j: int|
            i < j <= k ==> !occurs_at(s, p, j),
        rfind_upto(s, p, k) is None ==> forall|j: int| j <= k ==> !occurs_at(s, p, j),
    decreases k + 1,
{
    if k < 0 {
    } else if occurs_at(s, p, k) {
    } else {
        lemma_rfind_upto(s, p, k - 1);
    }
}

/// A position found from the end is an occurrence, and none comes later.
pub proof fn lemma_rfind_some(s: Seq<char>, p: Seq<char>)
    ensures
        rfind(s, p) matches Some(i) ==> occurs_at(s, p, i) && forall|j: int|
            i < j ==> !occurs_at(s, p, j),
        rfind(s, p) is None ==> forall|j: int| !occurs_at(s, p, j),
{
    if p.len() <= s.len() {
        lemma_rfind_upto(s, p, s.len() - p.len());
    } else {
        assert forall|j: int| !occurs_at(s, p, j) by {}
    }
}

/// The characters of `p` stand at position `i` of `s`.
pub fn matches_at(s: &[char], p: &[char], i: usize) -> (b: bool)
    ensures
        b == occurs_at(s@, p@, i as int),
{
    if i > s.len() || p.len() > s.len() - i {
        return false;
    }
    let mut k: usize = 0;
    while k < p.len()
        invariant
            i + p@.len() <= s@.len(),
            i <= s@.len(),
            p@.len() == p.len(),
            s@.len() == s.len(),
            k <= p@.len(),
            forall|j: int| 0 <= j < k ==> s@[i + j] == p@[j],
        decreases p.len() - k,
    {
        if s[i + k] != p[k] {
            assert(s@.subrange(i as int, i + p@.len())[k as int] != p@[k as int]);
            return false;
        }
        k += 1;
    }
    assert(s@.subrange(i as int, i + p@.len()) =~= p@);
    true
}

/// First occurrence of `p` in `s` at or after `from`.
pub fn find_chars_from(s: &[char], p: &[char], from: usize) -> (r: Option<usize>)
    ensures
        same_pos(r, find_from(s@, p@, from as int)),
        r matches Some(i) ==> from <= i && i + p@.len() <= s@.len() && occurs_at(s@, p@, i as int),
{
    if from > s.len() || p.len() > s.len() - from {
        return None;
    }
    let mut i = from;
    loop
        invariant
            from <= i,
            i + p@.len() <= s@.len(),
            find_from(s@, p@, from as int) == find_from(s@, p@, i as int),
        decreases s.len() - i,
    {
        if matches_at(s, p, i) {
            return Some(i);
        }
        if i + p.len() == s.len() {
            assert(find_from(s@, p@, i + 1) is None);
            return None;
        }
        i += 1;
    }
}

/// First occurrence of `p` in `s`.
pub fn find_chars(s: &[char], p: &[char]) -> (r: Option<usize>)
    ensures
        same_pos(r, find(s@, p@)),
        r matches Some(i) ==> i + p@.len() <= s@.len() && occurs_at(s@, p@, i as int),
{
    find_chars_from(s, p, 0)
}

/// Last occurrence of `p` in `s`.
pub fn rfind_chars(s: &[char], p: &[char]) -> (r: Option<usize>)
    ensures
        same_pos(r, rfind(s@, p@)),
        r matches Some(i) ==> i + p@.len() <= s@.len() && occurs_at(s@, p@, i as int),
{
    if p.len() > s.len() {
        return None;
    }
    let mut i = s.len() - p.len();
    loop
        invariant
            i <= s@.len() - p@.len(),
            p@.len() <= s@.len(),
            rfind(s@, p@) == rfind_upto(s@, p@, i as int),
        decreases i,
    {
        if matches_at(s, p, i) {
            return Some(i);
        }
        if i == 0 {
            return None;
        }
        i -= 1;
    }
}

/// The executable position `r` denotes the specified position `o`.
pub open spec fn same_pos(r: Option<usize>, o: Option<int>) -> bool {
    match r {
        Some(i) => o == Some(i as int),
        None => o is None,
    }
}

/// Whether `p` is a prefix of `s`.
pub open spec fn starts_with(s: Seq<char>, p: Seq<char>) -> bool {
    occurs_at(s, p, 0)
}

/// Whether `s` starts with the character `c`.
pub fn starts_with_char(s: &[char], c: char) -> (b: bool)
    ensures
        b == starts_with(s@, seq![c]),
{
    if s.len() == 0 {
        return false;
    }
    let b = s[0] == c;
    assert(s@.subrange(0, 1) =~= seq![s@[0]]);
    if !b {
        assert(s@.subrange(0, 1)[0] != seq![c][0]);
    }
    b
}

/// Whether `c` occurs in `s`.
pub open spec fn contains_char(s: Seq<char>, c: char) -> bool {
    exists|i: int| 0 <= i < s.len() && s[i] == c
}

/// Whether `c` occurs in `s`.
pub fn has_char(s: &[char], c: char) -> (b: bool)
    ensures
        b == contains_char(s@, c),
{
    let mut i: usize = 0;
    while i < s.len()
        invariant
            i <= s@.len(),
            forall|j: int| 0 <= j < i ==> s@[j] != c,
        decreases s.len() - i,
    {
        if s[i] == c {
            return true;
        }
        i += 1;
    }
    false
}

/// Whether the two character slices are equal.
pub fn chars_eq(a: &[char], b: &[char]) -> (r: bool)
    ensures
        r == (a@ == b@),
{
    if a.len() != b.len() {
        return false;
    }
    let r = matches_at(a, b, 0);
    assert(a@.subrange(0, a@.len() as int) == a@);
    r
}

/// Whether the two strings are equal.
pub fn str_eq(a: &str, b: &str) -> (r: bool)
    ensures
        r == (a@ == b@),
{
    let x = chars_of(a);
    let y = chars_of(b);
    chars_eq(x.as_slice(), y.as_slice())
}

/// Lower-case hexadecimal digit of `d` (`0 <= d < 16`).
pub open spec fn hex_digit(d: int) -> char {
    if d < 10 {
        (('0' as int) + d) as char
    } else {
        (('a' as int) + d - 10) as char
    }
}

/// The hexadecimal digit for `d` (lower case).
pub fn hex_char(d: u32) -> (c: char)
    requires
        d < 16,
    ensures
        c == hex_digit(d as int),
{
    match d {
        0 => '0',
        1 => '1',
        2 => '2',
        3 => '3',
        4 => '4',
        5 => '5',
        6 => '6',
        7 => '7',
        8 => '8',
        9 => '9',
        10 => 'a',
        11 => 'b',
        12 => 'c',
        13 => 'd',
        14 => 'e',
        _ => 'f',
    }
}

/// `n` in decimal notation.
pub open spec fn decimal(n: nat) -> Seq<char>
    decreases n,
{
    if n < 10 {
        seq![hex_digit(n as int)]
    } else {
        decimal(n / 10).push(hex_digit((n % 10) as int))
    }
}

/// Appends `n` in decimal notation.
pub fn push_decimal_u64(out: &mut String, n: u64)
    ensures
        final(out)@ == old(out)@ + decimal(n as nat),
    decreases n,
{
    if n >= 10 {
        push_decimal_u64(out, n / 10);
    }
    push_char(out, hex_char((n % 10) as u32));
}

/// Appends `n` in decimal notation.
pub fn push_decimal(out: &mut String, n: usize)
    ensures
        final(out)@ == old(out)@ + decimal(n as nat),
    decreases n,
{
    if n >= 10 {
        push_decimal(out, n / 10);
    }
    push_char(out, hex_char((n % 10) as u32));
}

/// ASCII lower case of `c`.
pub open spec fn ascii_lower(c: char) -> char {
    if 'A' <= c && c <= 'Z' {
        ((c as int) + 32) as char
    } else {
        c
    }
}

/// ASCII lower case of a character (`char::to_ascii_lowercase`).
pub fn lower_char(c: char) -> (r: char)
    ensures
        r == ascii_lower(c),
{
    if 'A' <= c && c <= 'Z' {
        match c {
            'A' => 'a',
            'B' => 'b',
            'C' => 'c',
            'D' => 'd',
            'E' => 'e',
            'F' => 'f',
            'G' => 'g',
            'H' => 'h',
            'I' => 'i',
            'J' => 'j',
            'K' => 'k',
            'L' => 'l',
            'M' => 'm',
            'N' => 'n',
            'O' => 'o',
            'P' => 'p',
            'Q' => 'q',
            'R' => 'r',
            'S' => 's',
            'T' => 't',
            'U' => 'u',
            'V' => 'v',
            'W' => 'w',
            'X' => 'x',
            'Y' => 'y',
            _ => 'z',
        }
    } else {
        c
    }
}

} // verus!
