//! The embedding cache's keys and file format.
//!
//! A cached vector is keyed by the SHA-256 of its provider and its
//! single-input request, and stored on disk under `<2 hex>/<64 hex>.bin` as
//! `ZLEB`, version 1, the dimension (u32, little endian) and the components
//! (each an `f32`, given here by its bit pattern, little endian).
use vstd::prelude::*;
use vstd::utf8::encode_utf8;
use vstd::slice::slice_to_vec;
use crate::text::{hex_char, hex_digit, push_char, push_str, push_range, chars_of};

verus! {

/// Cache domain of embedding vectors.
pub const CACHE_DOMAIN: &'static str = "model-embedding";

/// Entries kept in memory.
pub const L1_CAPACITY: usize = 4096;

/// Entries kept on disk (more than in memory: disk holds everything).
pub const L2_MAX_ENTRIES: usize = 4096 * 4;

/// Version of the file format.
pub const L2_VERSION: u8 = 1;

/// The file magic, `ZLEB`.
pub open spec fn magic() -> Seq<u8> {
    seq![90u8, 76u8, 69u8, 66u8]
}

/// The four little-endian bytes of `x`.
pub open spec fn le_bytes(x: u32) -> Seq<u8> {
    seq![(x % 256) as u8, ((x / 256) % 256) as u8, ((x / 65536) % 256) as u8, (x / 16777216) as u8]
}

/// The little-endian word stored at `b[at..at + 4]`.
pub open spec fn le_word(b: Seq<u8>, at: int) -> u32 {
    (b[at] + 256 * b[at + 1] + 65536 * b[at + 2] + 16777216 * b[at + 3]) as u32
}

/// The little-endian bytes of each word, in order.
pub open spec fn words_le(v: Seq<u32>) -> Seq<u8>
    decreases v.len(),
{
    if v.len() == 0 {
        Seq::empty()
    } else {
        words_le(v.drop_last()) + le_bytes(v.last())
    }
}

/// The file contents for a vector and its dimension.
pub open spec fn encoded_vector(dimensions: u32, v: Seq<u32>) -> Seq<u8> {
    magic() + seq![1u8] + le_bytes(dimensions) + words_le(v)
}

/// What a file holds: the dimension and the vector, or `None` when the file
/// is damaged (short, wrong magic or version, a partial word, or a word count
/// other than the dimension).
pub open spec fn decoded_vector(data: Seq<u8>) -> Option<(u32, Seq<u32>)> {
    if data.len() < 9 || data.take(4) != magic() || data[4] != 1 {
        None
    } else if (data.len() - 9) % 4 != 0 {
        None
    } else {
        let words = Seq::new(((data.len() - 9) / 4) as nat, |i: int| le_word(data, 9 + 4 * i));
        if words.len() != dimensions_of(data) {
            None
        } else {
            Some((dimensions_of(data), words))
        }
    }
}

/// The dimension field of a file.
pub open spec fn dimensions_of(data: Seq<u8>) -> u32 {
    le_word(data, 5)
}

/// Appends the little-endian bytes of `x`.
fn push_le(out: &mut Vec<u8>, x: u32)
    ensures
        final(out)@ == old(out)@ + le_bytes(x),
{
    out.push((x % 256) as u8);
    out.push(((x / 256) % 256) as u8);
    out.push(((x / 65536) % 256) as u8);
    out.push((x / 16777216) as u8);
    assert(out@ == old(out)@ + le_bytes(x));
}

/// The file contents for a vector: magic, version, dimension, components.
pub fn encode_vector(dimensions: u32, vec: &[u32]) -> (r: Vec<u8>)
    ensures
        r@ == encoded_vector(dimensions, vec@),
{
    let mut out: Vec<u8> = Vec::new();
    out.push(90);
    out.push(76);
    out.push(69);
    out.push(66);
    out.push(L2_VERSION);
    push_le(&mut out, dimensions);
    let ghost head = out@;
    assert(head == magic() + seq![1u8] + le_bytes(dimensions));
    let mut i: usize = 0;
    while i < vec.len()
        invariant
            i <= vec@.len(),
            out@ == head + words_le(vec@.take(i as int)),
        decreases vec.len() - i,
    {
        push_le(&mut out, vec[i]);
        assert(vec@.take(i + 1).drop_last() == vec@.take(i as int));
        i += 1;
    }
    assert(vec@.take(vec@.len() as int) == vec@);
    out
}

/// Reads a file; `None` when it is damaged.
pub fn decode_vector(data: &[u8]) -> (r: Option<(u32, Vec<u32>)>)
    ensures
        match decoded_vector(data@) {
            Some((d, v)) => r matches Some((e, w)) && e == d && w@ == v,
            None => r is None,
        },
{
    if data.len() < 9 || data[0] != 90 || data[1] != 76 || data[2] != 69 || data[3] != 66 || data[4] != 1 {
        proof {
            if data@.len() >= 9 && data@.take(4) == magic() {
                assert(data@.take(4)[0] == data@[0]);
                assert(data@.take(4)[1] == data@[1]);
                assert(data@.take(4)[2] == data@[2]);
                assert(data@.take(4)[3] == data@[3]);
            }
        }
        return None;
    }
    assert(data@.take(4) == magic());
    let dimensions: u32 = ((data[5] as u64) + 256 * (data[6] as u64) + 65536 * (data[7] as u64) + 16777216 * (
    data[8] as u64)) as u32;
    let rest = data.len() - 9;
    if rest % 4 != 0 {
        return None;
    }
    let n = rest / 4;
    let ghost words = Seq::new(n as nat, |i: int| le_word(data@, 9 + 4 * i));
    let mut vec: Vec<u32> = Vec::new();
    let mut i: usize = 0;
    while i < n
        invariant
            i <= n,
            n == (data@.len() - 9) / 4,
            9 + 4 * n <= data@.len(),
            data@.len() == data.len(),
            words == Seq::new(n as nat, |i: int| le_word(data@, 9 + 4 * i)),
            vec@ == words.take(i as int),
        decreases n - i,
    {
        assert(4 * i + 4 <= 4 * n) by (nonlinear_arith)
            requires
                i < n,
        ;
        let at = 9 + 4 * i;
        let w: u32 = ((data[at] as u64) + 256 * (data[at + 1] as u64) + 65536 * (data[at + 2] as u64) + 16777216 * (
        data[at + 3] as u64)) as u32;
        vec.push(w);
        assert(vec@ == words.take(i + 1));
        i += 1;
    }
    assert(words.take(n as int) == words);
    if vec.len() != dimensions as usize {
        return None;
    }
    Some((dimensions, vec))
}

proof fn lemma_word_of_bytes(x: u32)
    ensures
        le_word(le_bytes(x), 0) == x,
{
    let b = le_bytes(x);
    assert(b[0] + 256 * b[1] + 65536 * b[2] + 16777216 * b[3] == x) by (nonlinear_arith)
        requires
            b[0] == x % 256,
            b[1] == (x / 256) % 256,
            b[2] == (x / 65536) % 256,
            b[3] == x / 16777216,
            0 <= x < 4294967296,
    ;
}

proof fn lemma_bytes_of_word(b0: u8, b1: u8, b2: u8, b3: u8)
    ensures
        le_bytes((b0 + 256 * b1 + 65536 * b2 + 16777216 * b3) as u32) == seq![b0, b1, b2, b3],
{
    let w: int = b0 + 256 * b1 + 65536 * b2 + 16777216 * b3;
    assert(0 <= w < 4294967296);
    assert(w % 256 == b0 && (w / 256) % 256 == b1 && (w / 65536) % 256 == b2 && w / 16777216 == b3) by (nonlinear_arith)
        requires
            w == b0 + 256 * b1 + 65536 * b2 + 16777216 * b3,
            0 <= b0 < 256,
            0 <= b1 < 256,
            0 <= b2 < 256,
            0 <= b3 < 256,
    ;
    assert(le_bytes(w as u32) =~= seq![b0, b1, b2, b3]);
}

proof fn lemma_words_le(v: Seq<u32>)
    ensures
        words_le(v).len() == 4 * v.len(),
        forall|i: int, j: int|
            0 <= i < v.len() && 0 <= j < 4 ==> #[trigger] words_le(v)[4 * i + j] == le_bytes(v[i])[j],
    decreases v.len(),
{
    if v.len() > 0 {
        lemma_words_le(v.drop_last());
        let n = v.len() - 1;
        assert forall|i: int, j: int| 0 <= i < v.len() && 0 <= j < 4 implies #[trigger] words_le(v)[4 * i + j]
            == le_bytes(v[i])[j] by {
            if i < n {
                assert(v.drop_last()[i] == v[i]);
            }
        }
    }
}

/// A written vector reads back: the file of a vector whose length is its
/// dimension decodes to that dimension and vector; any other file of a
/// vector is refused as damaged.
pub proof fn lemma_decode_encoded(dimensions: u32, v: Seq<u32>)
    ensures
        decoded_vector(encoded_vector(dimensions, v)) == if v.len() == dimensions {
            Some((dimensions, v))
        } else {
            None
        },
{
    let data = encoded_vector(dimensions, v);
    lemma_words_le(v);
    lemma_word_of_bytes(dimensions);
    assert(data.take(4) == magic());
    assert(le_bytes(dimensions) == data.subrange(5, 9));
    assert(dimensions_of(data) == dimensions);
    assert((data.len() - 9) % 4 == 0 && (data.len() - 9) / 4 == v.len());
    let words = Seq::new(((data.len() - 9) / 4) as nat, |i: int| le_word(data, 9 + 4 * i));
    assert forall|i: int| 0 <= i < v.len() implies #[trigger] words[i] == v[i] by {
        lemma_word_of_bytes(v[i]);
        assert(words_le(v)[4 * i + 0] == le_bytes(v[i])[0]);
        assert(words_le(v)[4 * i + 1] == le_bytes(v[i])[1]);
        assert(words_le(v)[4 * i + 2] == le_bytes(v[i])[2]);
        assert(words_le(v)[4 * i + 3] == le_bytes(v[i])[3]);
        assert(data[9 + 4 * i] == words_le(v)[4 * i]);
        assert(data[9 + 4 * i + 1] == words_le(v)[4 * i + 1]);
        assert(data[9 + 4 * i + 2] == words_le(v)[4 * i + 2]);
        assert(data[9 + 4 * i + 3] == words_le(v)[4 * i + 3]);
    }
    assert(words == v);
}

/// Reading is exact: a file that reads as a vector is exactly the file that
/// writing that vector gives.
pub proof fn lemma_encode_decoded(data: Seq<u8>)
    requires
        decoded_vector(data) is Some,
    ensures
        match decoded_vector(data) {
            Some((d, w)) => encoded_vector(d, w) == data,
            None => false,
        },
{
    let (d, words) = decoded_vector(data)->0;
    let n = words.len();
    lemma_words_le(words);
    lemma_bytes_of_word(data[5], data[6], data[7], data[8]);
    assert(le_bytes(d) == data.subrange(5, 9));
    assert(data.take(4) == magic());
    let e = encoded_vector(d, words);
    assert(e.len() == data.len());
    assert forall|k: int| 0 <= k < data.len() implies #[trigger] e[k] == data[k] by {
        if k < 4 {
            assert(data.take(4)[k] == data[k]);
        } else if k < 9 {
        } else {
            let i = (k - 9) / 4;
            let j = (k - 9) % 4;
            assert(k == 9 + 4 * i + j);
            assert(0 <= i < n);
            lemma_bytes_of_word(data[9 + 4 * i], data[9 + 4 * i + 1], data[9 + 4 * i + 2], data[9 + 4 * i + 3]);
            assert(words[i] == le_word(data, 9 + 4 * i));
            assert(e[k] == words_le(words)[4 * i + j]);
        }
    }
    assert(e == data);
}

/// The lower-case hexadecimal digits of the bytes, two per byte.
pub open spec fn hex_of(b: Seq<u8>) -> Seq<char>
    decreases b.len(),
{
    if b.len() == 0 {
        Seq::empty()
    } else {
        hex_of(b.drop_last()) + seq![hex_digit((b.last() / 16) as int), hex_digit((b.last() % 16) as int)]
    }
}

proof fn lemma_hex_len(b: Seq<u8>)
    ensures
        hex_of(b).len() == 2 * b.len(),
    decreases b.len(),
{
    if b.len() > 0 {
        lemma_hex_len(b.drop_last());
    }
}

/// A key in hexadecimal (64 lower-case digits).
pub fn hex_bytes(key: &[u8; 32]) -> (r: String)
    ensures
        r@ == hex_of(key@),
{
    let mut out = String::new();
    let mut i: usize = 0;
    while i < 32
        invariant
            i <= 32,
            key@.len() == 32,
            out@ == hex_of(key@.take(i as int)),
        decreases 32 - i,
    {
        let b = key[i];
        push_char(&mut out, hex_char((b / 16) as u32));
        push_char(&mut out, hex_char((b % 16) as u32));
        assert(key@.take(i + 1).drop_last() == key@.take(i as int));
        assert(key@[i as int] == b);
        i += 1;
    }
    assert(key@.take(32) == key@);
    out
}

/// Where a key's file lies: `<first two hex digits>/<hex>.bin`.
pub open spec fn rel_key_of(key: Seq<u8>) -> Seq<char> {
    hex_of(key).take(2) + "/"@ + hex_of(key) + ".bin"@
}

/// The file of a key, relative to the cache domain (two-level sharding).
pub fn l2_rel_key(key: &[u8; 32]) -> (r: String)
    ensures
        r@ == rel_key_of(key@),
{
    let hex = hex_bytes(key);
    proof {
        lemma_hex_len(key@);
    }
    let hcs = chars_of(hex.as_str());
    let mut out = String::new();
    push_range(&mut out, hcs.as_slice(), 0, 2);
    push_str(&mut out, "/");
    push_str(&mut out, hex.as_str());
    push_str(&mut out, ".bin");
    assert(hcs@.subrange(0, 2) == hex@.take(2));
    out
}

/// What `Sha256::digest` gives for some bytes.
pub uninterp spec fn sha256(bytes: Seq<u8>) -> Seq<u8>;

/// The SHA-256 digest of some bytes (`sha2::Sha256::digest`).
#[verifier::external_body]
fn sha256_digest(bytes: &[u8]) -> (r: [u8; 32])
    ensures
        r@ == sha256(bytes@),
{
    <sha2::Sha256 as sha2::Digest>::digest(bytes).into()
}

/// What `serde_json::to_string` gives for a string: the JSON string literal.
pub uninterp spec fn json_string(s: Seq<char>) -> Seq<char>;

/// A string as a JSON string literal (`serde_json::to_string`, which cannot
/// fail on a string).
#[verifier::external_body]
fn json_quote(s: &str) -> (r: String)
    ensures
        r@ == json_string(s@),
{
    serde_json::to_string(s).unwrap_or_default()
}

/// The bytes that a cache key hashes: `{"provider":<provider>,"request":<request>}`,
/// with the single-input request given as its JSON serialization.
pub open spec fn key_payload(provider: Seq<char>, request_json: Seq<u8>) -> Seq<u8> {
    encode_utf8("{\"provider\":"@ + json_string(provider) + ",\"request\":"@) + request_json + encode_utf8("}"@)
}

/// The cache key of one input: SHA-256 of the provider's identity and the
/// single-input request (its JSON serialization), so that any field of the
/// request, or another provider, gives another entry.
pub fn compute_key(provider: &str, request_json: &[u8]) -> (r: [u8; 32])
    ensures
        r@ == sha256(key_payload(provider@, request_json@)),
{
    let mut head = String::new();
    push_str(&mut head, "{\"provider\":");
    let quoted = json_quote(provider);
    push_str(&mut head, quoted.as_str());
    push_str(&mut head, ",\"request\":");
    let mut bytes: Vec<u8> = slice_to_vec(head.as_str().as_bytes());
    let mut i: usize = 0;
    let ghost start = bytes@;
    while i < request_json.len()
        invariant
            i <= request_json@.len(),
            bytes@ == start + request_json@.take(i as int),
        decreases request_json.len() - i,
    {
        bytes.push(request_json[i]);
        assert(request_json@.take(i + 1) == request_json@.take(i as int).push(request_json@[i as int]));
        i += 1;
    }
    assert(request_json@.take(request_json@.len() as int) == request_json@);
    let close = "}".as_bytes();
    let ghost mid = bytes@;
    let mut k: usize = 0;
    while k < close.len()
        invariant
            k <= close@.len(),
            bytes@ == mid + close@.take(k as int),
        decreases close.len() - k,
    {
        bytes.push(close[k]);
        assert(close@.take(k + 1) == close@.take(k as int).push(close@[k as int]));
        k += 1;
    }
    assert(close@.take(close@.len() as int) == close@);
    sha256_digest(bytes.as_slice())
}

/// A cache key: a SHA-256 digest.
pub type CacheKey = [u8; 32];

/// An LRU cache (`lru::LruCache`).
#[verifier::external_type_specification]
#[verifier::external_body]
#[verifier::reject_recursive_types(K)]
#[verifier::reject_recursive_types(V)]
#[verifier::reject_recursive_types(S)]
pub struct ExLruCache<K, V, S>(lru::LruCache<K, V, S>);

/// The hasher of LRU caches (`lru::DefaultHasher`).
#[verifier::external_type_specification]
#[verifier::external_body]
pub struct ExLruHasher(lru::DefaultHasher);

/// The entries of the in-memory cache, by key.
pub uninterp spec fn lru_entries(c: lru::LruCache<CacheKey, Vec<u32>>) -> Map<CacheKey, Seq<u32>>;

/// How many entries the in-memory cache holds at most.
pub uninterp spec fn lru_capacity(c: lru::LruCache<CacheKey, Vec<u32>>) -> nat;

/// The keys of the in-memory cache in the order of use, from the least to
/// the most recently used.
pub uninterp spec fn lru_order(c: lru::LruCache<CacheKey, Vec<u32>>) -> Seq<CacheKey>;

/// How the parts of an LRU cache agree: each key is listed once, the listed
/// keys are the held ones, and no more than the capacity are held.
pub open spec fn lru_shape(entries: Map<CacheKey, Seq<u32>>, order: Seq<CacheKey>, cap: nat) -> bool {
    &&& order.no_duplicates()
    &&& forall|k: CacheKey| #[trigger] entries.contains_key(k) <==> order.contains(k)
    &&& order.len() <= cap
}

/// `order` with `k` taken out, if it is listed.
pub open spec fn without_key(order: Seq<CacheKey>, k: CacheKey) -> Seq<CacheKey> {
    if order.contains(k) {
        order.remove(order.index_of(k))
    } else {
        order
    }
}

/// `order` with `k` made the most recently used.
pub open spec fn touched(order: Seq<CacheKey>, k: CacheKey) -> Seq<CacheKey> {
    without_key(order, k).push(k)
}

/// An empty LRU cache holding at most `cap` entries (`LruCache::new`).
#[verifier::external_body]
fn lru_new(cap: usize) -> (r: lru::LruCache<CacheKey, Vec<u32>>)
    requires
        cap > 0,
    ensures
        lru_entries(r).dom() == Set::<CacheKey>::empty(),
        lru_order(r) == Seq::<CacheKey>::empty(),
        lru_capacity(r) == cap,
        lru_shape(lru_entries(r), lru_order(r), lru_capacity(r)),
{
    lru::LruCache::new(std::num::NonZeroUsize::new(cap).unwrap())
}

/// The entry of a key, if present (`LruCache::get`, which does not panic); a
/// present key becomes the most recently used, and the entries themselves
/// stay as they are.
#[verifier::external_body]
fn lru_get(c: &mut lru::LruCache<CacheKey, Vec<u32>>, key: &CacheKey) -> (r: Option<Vec<u32>>)
    ensures
        lru_entries(*final(c)) == lru_entries(*old(c)),
        lru_capacity(*final(c)) == lru_capacity(*old(c)),
        lru_shape(lru_entries(*final(c)), lru_order(*final(c)), lru_capacity(*final(c))),
        match r {
            Some(v) => lru_entries(*old(c)).contains_key(*key) && lru_entries(*old(c))[*key] == v@ && lru_order(
                *final(c),
            ) == touched(lru_order(*old(c)), *key),
            None => !lru_entries(*old(c)).contains_key(*key) && lru_order(*final(c)) == lru_order(*old(c)),
        },
    no_unwind
{
    c.get(key).cloned()
}

/// Stores an entry (`LruCache::put`, which does not panic); it becomes the
/// most recently used:
/// a present key gets the new value; a new key is added, and when the cache
/// is full the least recently used entry leaves first.
#[verifier::external_body]
fn lru_put(c: &mut lru::LruCache<CacheKey, Vec<u32>>, key: CacheKey, v: Vec<u32>)
    ensures
        lru_capacity(*final(c)) == lru_capacity(*old(c)),
        lru_shape(lru_entries(*final(c)), lru_order(*final(c)), lru_capacity(*final(c))),
        lru_entries(*old(c)).contains_key(key) || lru_order(*old(c)).len() < lru_capacity(*old(c)) ==> {
            &&& lru_entries(*final(c)) == lru_entries(*old(c)).insert(key, v@)
            &&& lru_order(*final(c)) == touched(lru_order(*old(c)), key)
        },
        !(lru_entries(*old(c)).contains_key(key) || lru_order(*old(c)).len() < lru_capacity(*old(c))) ==> {
            &&& lru_entries(*final(c)) == lru_entries(*old(c)).remove(lru_order(*old(c))[0]).insert(key, v@)
            &&& lru_order(*final(c)) == lru_order(*old(c)).drop_first().push(key)
        },
    no_unwind
{
    c.put(key, v);
}

/// The keys of `t` are all listed, and listed after every other key: they
/// are the most recently used ones.
pub open spec fn recent_suffix(order: Seq<CacheKey>, t: Set<CacheKey>) -> bool {
    &&& forall|k: CacheKey| #[trigger] t.contains(k) ==> order.contains(k)
    &&& forall|i: int, j: int|
        0 <= i < j < order.len() && #[trigger] t.contains(order[i]) ==> t.contains(#[trigger] order[j])
}

proof fn lemma_touched(order: Seq<CacheKey>, t: Set<CacheKey>, k: CacheKey)
    requires
        order.no_duplicates(),
        recent_suffix(order, t),
    ensures
        touched(order, k).no_duplicates(),
        forall|x: CacheKey| #[trigger] touched(order, k).contains(x) <==> order.contains(x) || x == k,
        recent_suffix(touched(order, k), t.insert(k)),
{
    let w = without_key(order, k);
    let n = touched(order, k);
    if order.contains(k) {
        let p = order.index_of(k);
        order.remove_ensures(p);
        assert(w.len() == order.len() - 1);
        assert forall|a: int| 0 <= a < w.len() implies (#[trigger] w[a]) == (if a < p {
            order[a]
        } else {
            order[a + 1]
        }) by {}
        assert forall|a: int| 0 <= a < w.len() implies #[trigger] w[a] != k by {
            if a < p {
                assert(order[a] != order[p]);
            } else {
                assert(order[a + 1] != order[p]);
            }
        }
        assert forall|x: CacheKey| #[trigger] n.contains(x) <==> order.contains(x) || x == k by {
            if order.contains(x) && x != k {
                let q = choose|q: int| 0 <= q < order.len() && order[q] == x;
                if q < p {
                    assert(n[q] == x);
                } else {
                    assert(q != p);
                    assert(n[q - 1] == x);
                }
            }
            if x == k {
                assert(n[n.len() - 1] == k);
            }
            if n.contains(x) && x != k {
                let q = choose|q: int| 0 <= q < n.len() && n[q] == x;
                assert(q < w.len());
                if q < p {
                    assert(order[q] == x);
                } else {
                    assert(order[q + 1] == x);
                }
            }
        }
        assert forall|a: int, b: int| 0 <= a < b < n.len() implies n[a] != n[b] by {
            if b == w.len() {
                assert(w[a] != k);
            } else if a < p && b < p {
            } else if a < p {
                assert(order[a] != order[b + 1]);
            } else {
                assert(order[a + 1] != order[b + 1]);
            }
        }
        assert forall|a: int, b: int|
            0 <= a < b < n.len() && #[trigger] t.insert(k).contains(n[a]) implies t.insert(k).contains(#[trigger] n[b]) by {
            if b < w.len() {
                assert(n[a] != k);
                let a0 = if a < p { a } else { a + 1 };
                let b0 = if b < p { b } else { b + 1 };
                assert(n[a] == order[a0] && n[b] == order[b0]);
                assert(t.contains(order[a0]));
            }
        }
        assert forall|x: CacheKey| #[trigger] t.insert(k).contains(x) implies n.contains(x) by {
            if x != k {
                assert(order.contains(x));
            }
        }
    } else {
        assert forall|x: CacheKey| #[trigger] n.contains(x) <==> order.contains(x) || x == k by {
            if order.contains(x) {
                let q = choose|q: int| 0 <= q < order.len() && order[q] == x;
                assert(n[q] == x);
            }
            if x == k {
                assert(n[n.len() - 1] == k);
            }
        }
        assert forall|a: int, b: int| 0 <= a < b < n.len() implies n[a] != n[b] by {
            if b == order.len() {
                assert(order.contains(n[a]));
            }
        }
        assert forall|x: CacheKey| #[trigger] t.insert(k).contains(x) implies n.contains(x) by {
            if x != k {
                assert(order.contains(x));
            }
        }
    }
}

proof fn lemma_evicted(order: Seq<CacheKey>, t: Set<CacheKey>, k: CacheKey)
    requires
        order.no_duplicates(),
        recent_suffix(order, t),
        order.len() > 0,
        !order.contains(k),
        t.insert(k).finite(),
        t.insert(k).len() <= order.len(),
    ensures
        !t.contains(order[0]),
        recent_suffix(order.drop_first().push(k), t.insert(k)),
{
    if t.contains(order[0]) {
        assert forall|x: CacheKey| #[trigger] order.to_set().insert(k).contains(x) implies t.insert(k).contains(x) by {
            if x != k {
                let q = choose|q: int| 0 <= q < order.len() && order[q] == x;
                if q > 0 {
                    assert(t.contains(order[q]));
                }
            }
        }
        order.unique_seq_to_set();
        vstd::set_lib::lemma_len_subset(order.to_set().insert(k), t.insert(k));
        assert(!order.to_set().contains(k));
    }
    let n = order.drop_first().push(k);
    assert forall|x: CacheKey| #[trigger] t.insert(k).contains(x) implies n.contains(x) by {
        if x != k {
            let q = choose|q: int| 0 <= q < order.len() && order[q] == x;
            assert(q != 0);
            assert(n[q - 1] == x);
        } else {
            assert(n[n.len() - 1] == k);
        }
    }
    assert forall|a: int, b: int|
        0 <= a < b < n.len() && #[trigger] t.insert(k).contains(n[a]) implies t.insert(k).contains(#[trigger] n[b]) by {
        if b < n.len() - 1 {
            assert(n[a] == order[a + 1] && n[b] == order[b + 1]);
            assert(order.contains(n[a]));
            assert(n[a] != k);
            assert(t.contains(order[a + 1]));
        }
    }
}

proof fn lemma_shape_after_evict(order: Seq<CacheKey>, k: CacheKey)
    requires
        order.no_duplicates(),
        order.len() > 0,
        !order.contains(k),
    ensures
        order.drop_first().push(k).no_duplicates(),
{
    let n = order.drop_first().push(k);
    assert forall|a: int, b: int| 0 <= a < b < n.len() implies n[a] != n[b] by {
        if b == n.len() - 1 {
            assert(order.contains(n[a]));
        } else {
            assert(order[a + 1] != order[b + 1]);
        }
    }
}

/// The in-memory level of the embedding cache: recently used vectors by key.
pub struct EmbeddingL1 {
    lru: lru::LruCache<CacheKey, Vec<u32>>,
}

impl EmbeddingL1 {
    /// Its LRU cache is of `L1_CAPACITY` and its parts agree.
    #[verifier::type_invariant]
    spec fn l1_inv(self) -> bool {
        &&& lru_shape(lru_entries(self.lru), lru_order(self.lru), lru_capacity(self.lru))
        &&& lru_capacity(self.lru) == L1_CAPACITY
    }

    /// The vectors held, by key.
    pub closed spec fn entries(&self) -> Map<CacheKey, Seq<u32>> {
        lru_entries(self.lru)
    }

    /// How many vectors are held at most.
    pub closed spec fn capacity(&self) -> nat {
        lru_capacity(self.lru)
    }

    /// The held keys from the least to the most recently used.
    pub closed spec fn order(&self) -> Seq<CacheKey> {
        lru_order(self.lru)
    }

    /// An empty in-memory cache of `L1_CAPACITY` entries.
    pub fn new() -> (r: Self)
        ensures
            r.entries() == Map::<CacheKey, Seq<u32>>::empty(),
            r.order() == Seq::<CacheKey>::empty(),
            r.capacity() == L1_CAPACITY,
            listed_are_held(r),
    {
        let r = EmbeddingL1 { lru: lru_new(L1_CAPACITY) };
        assert(r.entries() =~= Map::<CacheKey, Seq<u32>>::empty());
        r
    }

    /// The vector of a key, if held; a held key becomes the most recently
    /// used, so that a set of recently used keys that includes it stays the
    /// most recently used.
    pub fn get(&mut self, key: &CacheKey) -> (r: Option<Vec<u32>>)
        ensures
            final(self).entries() == old(self).entries(),
            final(self).capacity() == old(self).capacity(),
            match r {
                Some(v) => old(self).entries().contains_key(*key) && old(self).entries()[*key] == v@,
                None => !old(self).entries().contains_key(*key) && final(self).order() == old(self).order(),
            },
            forall|t: Set<CacheKey>|
                #[trigger] recent_suffix(old(self).order(), t) && (r is Some ==> t.contains(*key))
                    ==> recent_suffix(final(self).order(), t),
            listed_are_held(*final(self)),
    {
        proof {
            use_type_invariant(&*self);
        }
        let r = lru_get(&mut self.lru, key);
        proof {
            if r is Some {
                assert forall|t: Set<CacheKey>|
                    #[trigger] recent_suffix(old(self).order(), t) && t.contains(*key) implies recent_suffix(
                    self.order(),
                    t,
                ) by {
                    lemma_touched(old(self).order(), t, *key);
                    assert(t.insert(*key) =~= t);
                }
            }
        }
        r
    }

    /// Holds a vector under a key, which becomes the most recently used;
    /// when full, the least recently used vector leaves. A set of recently
    /// used keys, with this key added, stays the most recently used as long
    /// as it is no larger than the capacity.
    pub fn put(&mut self, key: CacheKey, v: Vec<u32>)
        ensures
            final(self).capacity() == old(self).capacity(),
            final(self).entries().contains_key(key),
            final(self).entries()[key] == v@,
            forall|k: CacheKey|
                k != key && #[trigger] final(self).entries().contains_key(k) ==> old(self).entries().contains_key(k)
                    && final(self).entries()[k] == old(self).entries()[k],
            old(self).entries().contains_key(key) || old(self).order().len() < old(self).capacity()
                ==> final(self).entries() == old(self).entries().insert(key, v@),
            forall|t: Set<CacheKey>|
                #[trigger] recent_suffix(old(self).order(), t) && t.insert(key).finite() && t.insert(key).len()
                    <= old(self).capacity() ==> recent_suffix(final(self).order(), t.insert(key)),
            listed_are_held(*final(self)),
    {
        proof {
            use_type_invariant(&*self);
        }
        let ghost v0 = v@;
        lru_put(&mut self.lru, key, v);
        proof {
            let o = old(self).entries();
            let ord = old(self).order();
            if !(o.contains_key(key) || ord.len() < old(self).capacity()) {
                assert(ord.len() > 0) by {
                    assert(L1_CAPACITY > 0);
                    assert(old(self).capacity() > 0);
                }
                assert forall|t: Set<CacheKey>|
                    #[trigger] recent_suffix(ord, t) && t.insert(key).finite() && t.insert(key).len()
                        <= old(self).capacity() implies recent_suffix(self.order(), t.insert(key)) by {
                    lemma_evicted(ord, t, key);
                }
            } else {
                assert forall|t: Set<CacheKey>|
                    #[trigger] recent_suffix(ord, t) && t.insert(key).finite() && t.insert(key).len()
                        <= old(self).capacity() implies recent_suffix(self.order(), t.insert(key)) by {
                    lemma_touched(ord, t, key);
                }
            }
        }
    }
}

/// Every listed key is held.
pub open spec fn listed_are_held(l1: EmbeddingL1) -> bool {
    forall|k: CacheKey| #[trigger] l1.order().contains(k) ==> l1.entries().contains_key(k)
}

/// The recently used keys are all held: with at most `L1_CAPACITY` distinct
/// keys read back or stored one after the other, every one of them is still
/// in memory afterwards.
pub proof fn lemma_recent_keys_are_held(l1: EmbeddingL1, t: Set<CacheKey>)
    requires
        listed_are_held(l1),
        recent_suffix(l1.order(), t),
    ensures
        forall|k: CacheKey| #[trigger] t.contains(k) ==> l1.entries().contains_key(k),
{
    assert forall|k: CacheKey| #[trigger] t.contains(k) implies l1.entries().contains_key(k) by {
        assert(l1.order().contains(k));
    }
}

/// What reading a key's file gives: the vector, now also held in memory, or
/// `None` when the file is damaged (the host then deletes it).
pub fn accept_l2(l1: &mut EmbeddingL1, key: &CacheKey, data: &[u8]) -> (r: Option<Vec<u32>>)
    ensures
        match decoded_vector(data@) {
            Some((_, v)) => r matches Some(w) && w@ == v && final(l1).entries().contains_key(*key)
                && final(l1).entries()[*key] == v,
            None => r is None && final(l1).entries() == old(l1).entries() && final(l1).order() == old(l1).order(),
        },
        final(l1).capacity() == old(l1).capacity(),
        listed_are_held(*final(l1)),
        forall|t: Set<CacheKey>|
            #[trigger] recent_suffix(old(l1).order(), t) && t.insert(*key).finite() && t.insert(*key).len()
                <= old(l1).capacity() && r is Some ==> recent_suffix(final(l1).order(), t.insert(*key)),
{
    proof {
        use_type_invariant(&*l1);
    }
    match decode_vector(data) {
        Some((_, vec)) => {
            let copy = slice_to_vec(vec.as_slice());
            l1.put(*key, vec);
            Some(copy)
        },
        None => None,
    }
}

/// Storing a vector: it is held in memory, and the file to write (its place
/// and contents) is returned.
pub fn prepare_put(l1: &mut EmbeddingL1, key: &CacheKey, dimensions: u32, vec: Vec<u32>) -> (r: (String, Vec<u8>))
    ensures
        r.0@ == rel_key_of(key@),
        r.1@ == encoded_vector(dimensions, vec@),
        final(l1).entries().contains_key(*key),
        final(l1).entries()[*key] == vec@,
        final(l1).capacity() == old(l1).capacity(),
        listed_are_held(*final(l1)),
        forall|t: Set<CacheKey>|
            #[trigger] recent_suffix(old(l1).order(), t) && t.insert(*key).finite() && t.insert(*key).len()
                <= old(l1).capacity() ==> recent_suffix(final(l1).order(), t.insert(*key)),
{
    let data = encode_vector(dimensions, vec.as_slice());
    l1.put(*key, vec);
    (l2_rel_key(key), data)
}

} // verus!
