use sha2::Digest;
use zerolaunch::model::cache::{
    accept_l2, compute_key, decode_vector, encode_vector, hex_bytes, l2_rel_key, prepare_put, EmbeddingL1,
    CACHE_DOMAIN, L1_CAPACITY, L2_MAX_ENTRIES,
};

/// The JSON of a single-input request, as the host serializes it.
fn single_request_json(model_id: &str, text: &str, task_type: Option<&str>, dimensions: Option<u32>) -> Vec<u8> {
    let mut m = serde_json::Map::new();
    m.insert("model_id".to_string(), serde_json::Value::String(model_id.to_string()));
    m.insert(
        "input".to_string(),
        serde_json::Value::Array(vec![serde_json::Value::String(text.to_string())]),
    );
    m.insert("titles".to_string(), serde_json::Value::Null);
    m.insert(
        "task_type".to_string(),
        match task_type {
            Some(t) => serde_json::Value::String(t.to_string()),
            None => serde_json::Value::Null,
        },
    );
    m.insert(
        "dimensions".to_string(),
        match dimensions {
            Some(d) => serde_json::Value::from(d),
            None => serde_json::Value::Null,
        },
    );
    serde_json::to_vec(&serde_json::Value::Object(m)).unwrap()
}

fn bits(v: &[f32]) -> Vec<u32> {
    v.iter().map(|x| x.to_bits()).collect()
}

#[test]
fn compute_key_is_sensitive_to_all_segments() {
    let a = compute_key("openai", &single_request_json("openai/m", "text", Some("retrieval_document"), Some(256)));
    assert_eq!(
        a,
        compute_key("openai", &single_request_json("openai/m", "text", Some("retrieval_document"), Some(256)))
    );
    assert_ne!(
        a,
        compute_key("openai", &single_request_json("openai/m", "text2", Some("retrieval_document"), Some(256)))
    );
    assert_ne!(
        a,
        compute_key("ollama", &single_request_json("openai/m", "text", Some("retrieval_document"), Some(256)))
    );
    assert_ne!(
        a,
        compute_key("openai", &single_request_json("openai/m2", "text", Some("retrieval_document"), Some(256)))
    );
    assert_ne!(
        a,
        compute_key("openai", &single_request_json("openai/m", "text", Some("retrieval_document"), None))
    );
    assert_ne!(
        a,
        compute_key("openai", &single_request_json("openai/m", "text", Some("retrieval_document"), Some(512)))
    );
    assert_ne!(
        a,
        compute_key("openai", &single_request_json("openai/m", "text", Some("retrieval_query"), Some(256)))
    );
}

#[test]
fn compute_key_hashes_the_framed_payload() {
    let request = br#"{"model_id":"m"}"#;
    let key = compute_key("openai", request);
    let expected: [u8; 32] = sha2::Sha256::digest(br#"{"provider":"openai","request":{"model_id":"m"}}"#).into();
    assert_eq!(key, expected);
    let quoted = compute_key("a\"b", request);
    let expected_quoted: [u8; 32] =
        sha2::Sha256::digest(br#"{"provider":"a\"b","request":{"model_id":"m"}}"#).into();
    assert_eq!(quoted, expected_quoted);
}

#[test]
fn vector_encode_decode_roundtrip() {
    let vec = bits(&[0.1_f32, -0.2, 3.3, 4.4]);
    let data = encode_vector(4, &vec);
    let (dims, decoded) = decode_vector(&data).unwrap();
    assert_eq!(dims, 4);
    assert_eq!(decoded, vec);
    let floats: Vec<f32> = decoded.iter().map(|b| f32::from_bits(*b)).collect();
    assert_eq!(floats, vec![0.1_f32, -0.2, 3.3, 4.4]);
}

#[test]
fn decode_rejects_corrupted_payload() {
    let vec = bits(&[0.1_f32]);
    let mut data = encode_vector(1, &vec);
    data[0] = b'X';
    assert!(decode_vector(&data).is_none());

    let mut data = encode_vector(2, &bits(&[0.1, 0.2]));
    data[5] = 99;
    assert!(decode_vector(&data).is_none());

    assert!(decode_vector(b"ZLEB\x01\x00\x00\x00").is_none());
}

#[test]
fn encoded_vector_layout_is_magic_version_dims_words() {
    let data = encode_vector(2, &[0x0403_0201, 0xdead_beef]);
    assert_eq!(
        data,
        vec![b'Z', b'L', b'E', b'B', 1, 2, 0, 0, 0, 1, 2, 3, 4, 0xef, 0xbe, 0xad, 0xde]
    );
    let mut partial = data.clone();
    partial.pop();
    assert!(decode_vector(&partial).is_none());
    let mut wrong_version = data.clone();
    wrong_version[4] = 2;
    assert!(decode_vector(&wrong_version).is_none());
    assert!(decode_vector(&encode_vector(3, &[1, 2])).is_none());
    assert_eq!(decode_vector(&encode_vector(0, &[])), Some((0, vec![])));
}

#[test]
fn l2_rel_key_uses_two_level_sharding() {
    let key = compute_key("openai", &single_request_json("openai/m", "text", None, Some(256)));
    let rel = l2_rel_key(&key);
    assert_eq!(rel.len(), 2 + 1 + 64 + 4);
    assert_eq!(rel.as_bytes()[2], b'/');
    assert!(rel.ends_with(".bin"));
}

#[test]
fn hex_and_rel_key_of_a_known_key() {
    let mut key = [0u8; 32];
    key[0] = 0xab;
    key[1] = 0x01;
    key[31] = 0xff;
    let hex = hex_bytes(&key);
    assert_eq!(hex, format!("ab01{}ff", "00".repeat(29)));
    assert_eq!(l2_rel_key(&key), format!("ab/{}.bin", hex));
}

#[test]
fn memory_level_holds_what_is_read_and_written() {
    assert_eq!(CACHE_DOMAIN, "model-embedding");
    assert_eq!(L1_CAPACITY, 4096);
    assert_eq!(L2_MAX_ENTRIES, 4 * 4096);
    let mut l1 = EmbeddingL1::new();
    let key = [7u8; 32];
    assert_eq!(l1.get(&key), None);
    let (rel, data) = prepare_put(&mut l1, &key, 2, vec![1, 2]);
    assert_eq!(rel, l2_rel_key(&key));
    assert_eq!(data, encode_vector(2, &[1, 2]));
    assert_eq!(l1.get(&key), Some(vec![1, 2]));
    let other = [9u8; 32];
    assert_eq!(accept_l2(&mut l1, &other, &data), Some(vec![1, 2]));
    assert_eq!(l1.get(&other), Some(vec![1, 2]));
    let third = [3u8; 32];
    assert_eq!(accept_l2(&mut l1, &third, b"broken"), None);
    assert_eq!(l1.get(&third), None);
}

fn numbered_key(i: u32) -> [u8; 32] {
    let mut k = [0u8; 32];
    k[..4].copy_from_slice(&i.to_le_bytes());
    k
}

#[test]
fn memory_level_evicts_the_least_recently_used() {
    let mut l1 = EmbeddingL1::new();
    for i in 0..4096u32 {
        l1.put(numbered_key(i), vec![i]);
    }
    for i in 0..4096u32 {
        assert_eq!(l1.get(&numbered_key(i)), Some(vec![i]));
    }
    assert_eq!(l1.get(&numbered_key(0)), Some(vec![0]));
    l1.put(numbered_key(4096), vec![4096]);
    assert_eq!(l1.get(&numbered_key(1)), None);
    assert_eq!(l1.get(&numbered_key(0)), Some(vec![0]));
    assert_eq!(l1.get(&numbered_key(4096)), Some(vec![4096]));
}
