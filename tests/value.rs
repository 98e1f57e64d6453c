use rust_kvs::error::ErrorCode;
use rust_kvs::value::{F64Bits, KvsMap, KvsValue, TryFromKvsValue};

#[test]
fn test_from_f64() {
    let v = KvsValue::from(F64Bits(1.23f64.to_bits()));
    assert!(matches!(v, KvsValue::F64(x) if f64::from_bits(x) == 1.23));
}

#[test]
fn test_from_i32() {
    let v = KvsValue::from(-42i32);
    assert!(matches!(v, KvsValue::I32(x) if x == -42));
}

#[test]
fn test_from_u32() {
    let v = KvsValue::from(42u32);
    assert!(matches!(v, KvsValue::U32(x) if x == 42));
}

#[test]
fn test_from_i64() {
    let v = KvsValue::from(-123456789i64);
    assert!(matches!(v, KvsValue::I64(x) if x == -123456789));
}

#[test]
fn test_from_u64() {
    let v = KvsValue::from(123456789u64);
    assert!(matches!(v, KvsValue::U64(x) if x == 123456789));
}

#[test]
fn test_from_bool() {
    let v = KvsValue::from(true);
    assert!(matches!(v, KvsValue::Boolean(true)));
}

#[test]
fn test_from_string() {
    let v = KvsValue::from(String::from("hello"));
    assert!(matches!(v, KvsValue::String(ref s) if s == "hello"));
}

#[test]
fn test_from_unit() {
    let v = KvsValue::from(());
    assert!(matches!(v, KvsValue::Null));
}

#[test]
fn test_from_vec() {
    let v = KvsValue::from(vec![KvsValue::from(1i32), KvsValue::from(2i32)]);
    assert!(matches!(v, KvsValue::Array(ref arr) if arr.len() == 2));
}

#[test]
fn test_from_kvsmap() {
    let mut map = KvsMap::new();
    map.insert("a".to_string(), KvsValue::from(1i32));
    let v = KvsValue::from(map.clone());
    if let KvsValue::Object(ref obj) = v {
        assert!(obj.contains_key("a"));
        assert!(matches!(obj.get("a"), Some(KvsValue::I32(1))));
    } else {
        panic!("Expected KvsValue::Object");
    }
}

#[test]
fn map_insert_replaces_and_remove_reports() {
    let mut m = KvsMap::new();
    m.insert("k".to_string(), KvsValue::I32(1));
    m.insert("k".to_string(), KvsValue::I32(2));
    assert_eq!(m.len(), 1);
    assert!(matches!(m.get("k"), Some(KvsValue::I32(2))));
    assert!(matches!(m.remove("k"), Some(KvsValue::I32(2))));
    assert!(m.remove("k").is_none());
    assert_eq!(m.len(), 0);
}

#[test]
fn typed_reads() {
    assert_eq!(i32::try_from_kvs_value(&KvsValue::I32(5)), Ok(5));
    assert_eq!(u64::try_from_kvs_value(&KvsValue::I32(5)), Err(ErrorCode::ConversionFailed));
    assert_eq!(<()>::try_from_kvs_value(&KvsValue::Null), Ok(()));
    assert_eq!(bool::try_from_kvs_value(&KvsValue::Null), Err(ErrorCode::ConversionFailed));
    let arr = Vec::<KvsValue>::try_from_kvs_value(&KvsValue::Array(vec![KvsValue::Null])).unwrap();
    assert_eq!(arr.len(), 1);
    assert!(KvsMap::try_from_kvs_value(&KvsValue::I32(1)).is_err());
}

#[test]
fn deep_clone_is_independent() {
    let mut inner = KvsMap::new();
    inner.insert("x".to_string(), KvsValue::String("y".to_string()));
    let v = KvsValue::Array(vec![KvsValue::Object(inner)]);
    let c = v.clone();
    match c {
        KvsValue::Array(a) => match &a[0] {
            KvsValue::Object(m) => assert!(matches!(m.get("x"), Some(KvsValue::String(s)) if s == "y")),
            _ => panic!("expected an object"),
        },
        _ => panic!("expected an array"),
    }
}
