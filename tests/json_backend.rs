use rust_kvs::backend::{
    finish_load, hash_bytes, verify_hash, InstanceId, SnapshotId,
};
use rust_kvs::error::ErrorCode;
use rust_kvs::json::{decode_map, decode_value, encode_map, encode_value, JsonNumber, JsonTree};
use rust_kvs::json_backend::{decimal_string, JsonBackend, KvsPathResolver};
use rust_kvs::value::{KvsMap, KvsValue};

fn tagged(t: &str, v: JsonTree) -> JsonTree {
    JsonTree::Object(vec![("t".to_string(), JsonTree::String(t.to_string())), ("v".to_string(), v)])
}

fn double(x: f64) -> JsonTree {
    JsonTree::Number(JsonNumber::Double(x.to_bits()))
}

fn text(s: &str) -> JsonTree {
    JsonTree::String(s.to_string())
}

fn is_null(v: &KvsValue) -> bool {
    matches!(v, KvsValue::Null)
}

#[test]
fn test_kvs_file_name() {
    let backend = JsonBackend::new(InstanceId(123), "");
    assert_eq!(backend.kvs_file_name(SnapshotId(2)), "kvs_123_2.json");
}

#[test]
fn test_kvs_file_path() {
    let backend = JsonBackend::new(InstanceId(123), "/tmp/dir");
    assert_eq!(backend.kvs_file_path(SnapshotId(2)), "/tmp/dir/kvs_123_2.json");
}

#[test]
fn test_hash_file_name() {
    let backend = JsonBackend::new(InstanceId(123), "");
    assert_eq!(backend.hash_file_name(SnapshotId(2)), "kvs_123_2.hash");
}

#[test]
fn test_hash_file_path() {
    let backend = JsonBackend::new(InstanceId(123), "/tmp/dir/");
    assert_eq!(backend.hash_file_path(SnapshotId(2)), "/tmp/dir/kvs_123_2.hash");
}

#[test]
fn test_defaults_file_name() {
    let backend = JsonBackend::new(InstanceId(123), "");
    assert_eq!(backend.defaults_file_name(), "kvs_123_default.json");
}

#[test]
fn test_defaults_file_path() {
    let backend = JsonBackend::new(InstanceId(123), "data");
    assert_eq!(backend.defaults_file_path(), "data/kvs_123_default.json");
}

#[test]
fn decimal_text_of_numbers() {
    assert_eq!(decimal_string(0), "0");
    assert_eq!(decimal_string(7), "7");
    assert_eq!(decimal_string(10), "10");
    assert_eq!(decimal_string(1234567890), "1234567890");
}

#[test]
fn extension_checks() {
    assert!(JsonBackend::check_extension("dir/kvs_1_0.json", "json"));
    assert!(JsonBackend::check_extension("kvs.hash", "hash"));
    assert!(!JsonBackend::check_extension("dir/kvs.invalid_ext", "json"));
    assert!(!JsonBackend::check_extension("dir.json/kvs", "json"));
    assert!(!JsonBackend::check_extension(".json", "json"));
    assert!(!JsonBackend::check_extension("kvs", "json"));
    assert!(JsonBackend::check_extension("a.b.json", "json"));
    assert!(JsonBackend::check_extension("dir/kvs.json/", "json"));
    assert!(JsonBackend::check_extension("dir/kvs.json/.", "json"));
    assert!(JsonBackend::check_extension("dir/kvs.json//./", "json"));
    assert!(!JsonBackend::check_extension(".", "json"));
    assert!(!JsonBackend::check_extension("dir/..", "json"));
    assert!(!JsonBackend::check_extension("/", "json"));
}

#[test]
fn test_i32_ok() {
    let kv = decode_value(&tagged("i32", double(-123.0)));
    assert!(matches!(kv, KvsValue::I32(-123)));
}

#[test]
fn test_i32_invalid_type() {
    assert!(is_null(&decode_value(&tagged("i32", text("-123.0")))));
}

#[test]
fn test_u32_ok() {
    assert!(matches!(decode_value(&tagged("u32", double(123.0))), KvsValue::U32(123)));
}

#[test]
fn test_u32_invalid_type() {
    assert!(is_null(&decode_value(&tagged("u32", text("123.0")))));
}

#[test]
fn test_i64_ok() {
    assert!(matches!(decode_value(&tagged("i64", double(-123.0))), KvsValue::I64(-123)));
}

#[test]
fn test_i64_invalid_type() {
    assert!(is_null(&decode_value(&tagged("i64", text("-123.0")))));
}

#[test]
fn test_u64_ok() {
    assert!(matches!(decode_value(&tagged("u64", double(123.0))), KvsValue::U64(123)));
}

#[test]
fn test_u64_invalid_type() {
    assert!(is_null(&decode_value(&tagged("u64", text("123.0")))));
}

#[test]
fn test_f64_ok() {
    let kv = decode_value(&tagged("f64", double(-432.1)));
    assert!(matches!(kv, KvsValue::F64(b) if f64::from_bits(b) == -432.1));
}

#[test]
fn test_f64_invalid_type() {
    assert!(is_null(&decode_value(&tagged("f64", text("-432.1")))));
}

#[test]
fn test_bool_ok() {
    assert!(matches!(decode_value(&tagged("bool", JsonTree::Boolean(true))), KvsValue::Boolean(true)));
}

#[test]
fn test_bool_invalid_type() {
    assert!(is_null(&decode_value(&tagged("bool", text("true")))));
}

#[test]
fn test_string_ok() {
    let kv = decode_value(&tagged("str", text("example")));
    assert!(matches!(kv, KvsValue::String(ref s) if s == "example"));
}

#[test]
fn test_string_invalid_type() {
    assert!(is_null(&decode_value(&tagged("str", JsonTree::Boolean(false)))));
}

#[test]
fn test_null_ok() {
    assert!(is_null(&decode_value(&tagged("null", JsonTree::Null))));
}

#[test]
fn test_null_invalid_type() {
    assert!(is_null(&decode_value(&tagged("null", text("null")))));
}

#[test]
fn test_array_ok() {
    let jv = tagged(
        "arr",
        JsonTree::Array(vec![tagged("i32", double(-123.0)), tagged("f64", double(555.5))]),
    );
    match decode_value(&jv) {
        KvsValue::Array(a) => {
            assert_eq!(a.len(), 2);
            assert!(matches!(a[0], KvsValue::I32(-123)));
            assert!(matches!(a[1], KvsValue::F64(b) if f64::from_bits(b) == 555.5));
        }
        _ => panic!("expected an array"),
    }
}

#[test]
fn test_array_invalid_type() {
    assert!(is_null(&decode_value(&tagged("arr", text("[]")))));
}

#[test]
fn test_object_ok() {
    let jv = tagged(
        "obj",
        JsonTree::Object(vec![
            ("entry1".to_string(), tagged("i32", double(-123.0))),
            ("entry2".to_string(), tagged("f64", double(555.5))),
        ]),
    );
    match decode_value(&jv) {
        KvsValue::Object(m) => {
            assert_eq!(m.len(), 2);
            assert!(matches!(m.get("entry1"), Some(KvsValue::I32(-123))));
        }
        _ => panic!("expected an object"),
    }
}

#[test]
fn test_object_invalid_type() {
    assert!(is_null(&decode_value(&tagged("obj", text("{}")))));
}

#[test]
fn test_non_json_value_object() {
    assert!(is_null(&decode_value(&JsonTree::Number(JsonNumber::Double(1.0f64.to_bits())))));
}

#[test]
fn unknown_tag_is_null() {
    assert!(is_null(&decode_value(&tagged("i128", double(1.0)))));
}

#[test]
fn untagged_object_drops_t_and_v() {
    let jv = JsonTree::Object(vec![
        ("t".to_string(), JsonTree::Boolean(true)),
        ("x".to_string(), tagged("bool", JsonTree::Boolean(false))),
    ]);
    match decode_value(&jv) {
        KvsValue::Object(m) => {
            assert_eq!(m.len(), 1);
            assert!(matches!(m.get("x"), Some(KvsValue::Boolean(false))));
        }
        _ => panic!("expected an object"),
    }
}

#[test]
fn integer_payloads_saturate_and_truncate() {
    assert!(matches!(decode_value(&tagged("i32", double(1e12))), KvsValue::I32(i32::MAX)));
    assert!(matches!(decode_value(&tagged("u32", double(-5.0))), KvsValue::U32(0)));
    assert!(matches!(decode_value(&tagged("i32", double(-7.9))), KvsValue::I32(-7)));
    assert!(matches!(decode_value(&tagged("u64", double(f64::NAN))), KvsValue::U64(0)));
    assert!(matches!(decode_value(&tagged("i64", double(f64::NEG_INFINITY))), KvsValue::I64(i64::MIN)));
    assert!(matches!(decode_value(&tagged("u64", double(4503599627370497.0))), KvsValue::U64(4503599627370497)));
    assert!(matches!(decode_value(&tagged("i32", JsonTree::Number(JsonNumber::Int(1 << 40)))), KvsValue::I32(i32::MAX)));
}

fn tag_and_payload(j: &JsonTree) -> (String, &JsonTree) {
    match j {
        JsonTree::Object(e) => {
            assert_eq!(e.len(), 2);
            assert_eq!(e[0].0, "t");
            assert_eq!(e[1].0, "v");
            match &e[0].1 {
                JsonTree::String(t) => (t.clone(), &e[1].1),
                _ => panic!("tag is not a string"),
            }
        }
        _ => panic!("not an object"),
    }
}

#[test]
fn json_backend_test_i32_ok() {
    let jv = encode_value(&KvsValue::I32(-123));
    let (t, v) = tag_and_payload(&jv);
    assert_eq!(t, "i32");
    assert!(matches!(v, JsonTree::Number(JsonNumber::Int(-123))));
}

#[test]
fn json_backend_test_u64_ok() {
    let jv = encode_value(&KvsValue::U64(123));
    let (t, v) = tag_and_payload(&jv);
    assert_eq!(t, "u64");
    assert!(matches!(v, JsonTree::Number(JsonNumber::Int(123))));
}

#[test]
fn json_backend_test_f64_ok() {
    let jv = encode_value(&KvsValue::F64((-432.1f64).to_bits()));
    let (t, v) = tag_and_payload(&jv);
    assert_eq!(t, "f64");
    assert!(matches!(v, JsonTree::Number(JsonNumber::Double(b)) if f64::from_bits(*b) == -432.1));
}

#[test]
fn json_backend_test_string_ok() {
    let jv = encode_value(&KvsValue::String("example".to_string()));
    let (t, v) = tag_and_payload(&jv);
    assert_eq!(t, "str");
    assert!(matches!(v, JsonTree::String(s) if s == "example"));
}

#[test]
fn json_backend_test_null_ok() {
    let jv = encode_value(&KvsValue::Null);
    let (t, v) = tag_and_payload(&jv);
    assert_eq!(t, "null");
    assert!(matches!(v, JsonTree::Null));
}

/// Structural equality of trees; object members compare as sets of pairs.
fn tree_eq(a: &JsonTree, b: &JsonTree) -> bool {
    match (a, b) {
        (JsonTree::Null, JsonTree::Null) => true,
        (JsonTree::Boolean(x), JsonTree::Boolean(y)) => x == y,
        (JsonTree::Number(x), JsonTree::Number(y)) => x == y,
        (JsonTree::String(x), JsonTree::String(y)) => x == y,
        (JsonTree::Array(x), JsonTree::Array(y)) => {
            x.len() == y.len() && x.iter().zip(y.iter()).all(|(p, q)| tree_eq(p, q))
        }
        (JsonTree::Object(x), JsonTree::Object(y)) => {
            x.len() == y.len()
                && x.iter().all(|(k, v)| y.iter().any(|(k2, v2)| k == k2 && tree_eq(v, v2)))
        }
        _ => false,
    }
}

fn int_num(n: i128) -> JsonTree {
    JsonTree::Number(JsonNumber::Int(n))
}

#[test]
fn json_backend_test_array_ok() {
    let kv = KvsValue::Array(vec![KvsValue::I32(-123), KvsValue::F64(555.5f64.to_bits())]);
    let jv = encode_value(&kv);

    let exp_entry1 = tagged("i32", int_num(-123));
    let exp_entry2 = tagged("f64", double(555.5));
    let exp_jv = tagged("arr", JsonTree::Array(vec![exp_entry1, exp_entry2]));
    assert!(tree_eq(&jv, &exp_jv));
}

#[test]
fn json_backend_test_object_ok() {
    let entry1 = tagged("i32", int_num(-123));
    let entry2 = tagged("f64", double(555.5));

    let mut m = KvsMap::new();
    m.insert("entry1".to_string(), decode_value(&entry1));
    m.insert("entry2".to_string(), decode_value(&entry2));
    let jv = encode_value(&KvsValue::Object(m));

    let exp_jv = tagged(
        "obj",
        JsonTree::Object(vec![("entry1".to_string(), entry1), ("entry2".to_string(), entry2)]),
    );
    assert!(tree_eq(&jv, &exp_jv));
}

#[test]
fn json_backend_test_u32_ok() {
    assert!(tree_eq(&encode_value(&KvsValue::U32(123)), &tagged("u32", int_num(123))));
}

#[test]
fn json_backend_test_i64_ok() {
    assert!(tree_eq(&encode_value(&KvsValue::I64(-123)), &tagged("i64", int_num(-123))));
}

#[test]
fn json_backend_test_bool_ok() {
    assert!(tree_eq(&encode_value(&KvsValue::Boolean(true)), &tagged("bool", JsonTree::Boolean(true))));
}

#[test]
fn decode_map_rejects_non_object() {
    let jv = JsonTree::Array(vec![double(123.4), double(567.8)]);
    assert!(decode_map(&jv).is_err_and(|e| e == ErrorCode::JsonParserError));
}

#[test]
fn hash_bytes_is_big_endian_adler32() {
    // Adler-32 of "Wikipedia" is 0x11E60398.
    assert_eq!(hash_bytes(b"Wikipedia"), vec![0x11, 0xE6, 0x03, 0x98]);
    assert_eq!(hash_bytes(b""), vec![0, 0, 0, 1]);
}

#[test]
fn verify_hash_accepts_and_rejects() {
    let data = b"{\"k\":1}";
    let h = hash_bytes(data);
    assert!(verify_hash(data, &h).is_ok());
    assert!(verify_hash(data, &[0x12, 0x34, 0x56, 0x78]).is_err_and(|e| e == ErrorCode::ValidationFailed));
    assert!(verify_hash(data, &h[..3]).is_err_and(|e| e == ErrorCode::ValidationFailed));
}

fn stored_doc() -> (Vec<u8>, JsonTree) {
    let mut m = KvsMap::new();
    m.insert("k1".to_string(), KvsValue::String("v1".to_string()));
    m.insert("k2".to_string(), KvsValue::Boolean(true));
    m.insert("k3".to_string(), KvsValue::F64(123.4f64.to_bits()));
    (b"document text".to_vec(), encode_map(&m))
}

#[test]
fn test_load_kvs_hash_path_some_ok() {
    let (data, doc) = stored_doc();
    let h = hash_bytes(&data);
    let m = finish_load(&data, Ok(doc), Some(Ok(h))).unwrap();
    assert_eq!(m.len(), 3);
}

#[test]
fn test_load_kvs_ok() {
    let (data, doc) = stored_doc();
    assert_eq!(finish_load(&data, Ok(doc), None).unwrap().len(), 3);
}

#[test]
fn test_load_kvs_hash_path_some_not_found() {
    let (data, doc) = stored_doc();
    let r = finish_load(&data, Ok(doc), Some(Err(ErrorCode::FileNotFound)));
    assert!(r.is_err_and(|e| e == ErrorCode::KvsHashFileReadError));
}

#[test]
fn test_load_kvs_invalid_hash_content() {
    let (data, doc) = stored_doc();
    let r = finish_load(&data, Ok(doc), Some(Ok(vec![0x12, 0x34, 0x56, 0x78])));
    assert!(r.is_err_and(|e| e == ErrorCode::ValidationFailed));
}

#[test]
fn test_load_kvs_invalid_hash_len() {
    let (data, doc) = stored_doc();
    let r = finish_load(&data, Ok(doc), Some(Ok(vec![0x12, 0x34, 0x56])));
    assert!(r.is_err_and(|e| e == ErrorCode::ValidationFailed));
}

#[test]
fn test_load_kvs_malformed_json() {
    let r = finish_load(b"{\"malformed_json\"}", Err(ErrorCode::JsonParserError), Some(Ok(vec![0, 0, 0, 0])));
    assert!(r.is_err_and(|e| e == ErrorCode::JsonParserError));
}

#[test]
fn test_load_kvs_invalid_data() {
    let data = b"[123.4, 567.8]";
    let doc = JsonTree::Array(vec![double(123.4), double(567.8)]);
    assert!(finish_load(data, Ok(doc), None).is_err_and(|e| e == ErrorCode::JsonParserError));
}

#[test]
fn test_load_kvs_invalid_extension() {
    assert_eq!(
        rust_kvs::json_backend::check_paths("dir/kvs.invalid_ext", None),
        Err(ErrorCode::KvsFileReadError)
    );
}

#[test]
fn test_load_kvs_hash_path_some_invalid_extension() {
    assert_eq!(
        rust_kvs::json_backend::check_paths("dir/kvs.json", Some("dir/kvs.invalid_ext")),
        Err(ErrorCode::KvsHashFileReadError)
    );
    assert_eq!(rust_kvs::json_backend::check_paths("dir/kvs.json", Some("dir/kvs.hash")), Ok(()));
    assert_eq!(rust_kvs::json_backend::check_paths("dir/kvs.json", None), Ok(()));
}
