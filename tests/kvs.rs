use rust_kvs::backend::{InstanceId, SnapshotId, KVS_MAX_SNAPSHOTS};
use rust_kvs::error::ErrorCode;
use rust_kvs::kvs_provider::{FlushOnExit, GenericKvs, GenericKvsProvider, KvsParameters};
use rust_kvs::mock_backend::MockBackend;
use rust_kvs::value::{KvsMap, KvsValue};

type Pool = GenericKvsProvider<MockBackend>;

fn text(s: &str) -> KvsValue {
    KvsValue::String(s.to_string())
}

fn map_of(entries: Vec<(&str, KvsValue)>) -> KvsMap {
    let mut m = KvsMap::new();
    for (k, v) in entries {
        m.insert(k.to_string(), v);
    }
    m
}

fn get_kvs(kvs_map: Vec<(&str, KvsValue)>, defaults_map: Vec<(&str, KvsValue)>) -> (Pool, GenericKvs) {
    let mut pool = Pool::new(String::new());
    let params = KvsParameters::new(InstanceId(1)).flush_on_exit(FlushOnExit::No);
    let kvs = pool
        .init_with_backend(params, MockBackend::with_defaults(InstanceId(1), "", map_of(defaults_map)))
        .unwrap();
    for (k, v) in kvs_map {
        kvs.set_value(&mut pool, k, v).unwrap();
    }
    (pool, kvs)
}

#[test]
fn test_new() {
    let (pool, kvs) = get_kvs(vec![], vec![]);
    assert!(pool.is_initialized(kvs.instance_id()));
}

#[test]
fn test_reset() {
    let (mut pool, kvs) = get_kvs(
        vec![("example1", text("explicit_value")), ("example2", KvsValue::Boolean(true))],
        vec![("example1", text("default_value"))],
    );
    kvs.reset(&mut pool).unwrap();
    assert_eq!(kvs.get_all_keys(&pool).unwrap().len(), 0);
    assert_eq!(kvs.get_value_as::<String, _>(&pool, "example1").unwrap(), "default_value");
    assert!(kvs
        .get_value_as::<bool, _>(&pool, "example2")
        .is_err_and(|e| e == ErrorCode::KeyNotFound));
}

#[test]
fn test_reset_key() {
    let (mut pool, kvs) = get_kvs(
        vec![("example1", text("explicit_value")), ("example2", KvsValue::Boolean(true))],
        vec![("example1", text("default_value"))],
    );
    kvs.reset_key(&mut pool, "example1").unwrap();
    assert_eq!(kvs.get_value_as::<String, _>(&pool, "example1").unwrap(), "default_value");
    assert!(kvs
        .reset_key(&mut pool, "example2")
        .is_err_and(|e| e == ErrorCode::KeyDefaultNotFound));
}

#[test]
fn test_get_all_keys_some() {
    let (pool, kvs) = get_kvs(
        vec![("example1", text("value")), ("example2", KvsValue::Boolean(true))],
        vec![],
    );
    let mut keys = kvs.get_all_keys(&pool).unwrap();
    keys.sort();
    assert_eq!(keys, vec!["example1", "example2"]);
}

#[test]
fn test_get_all_keys_empty() {
    let (pool, kvs) = get_kvs(vec![], vec![]);
    let keys = kvs.get_all_keys(&pool).unwrap();
    assert_eq!(keys.len(), 0);
}

#[test]
fn test_key_exists_found() {
    let (pool, kvs) = get_kvs(
        vec![("example1", text("value")), ("example2", KvsValue::Boolean(true))],
        vec![],
    );
    assert!(kvs.key_exists(&pool, "example1").unwrap());
    assert!(kvs.key_exists(&pool, "example2").unwrap());
}

#[test]
fn test_key_exists_not_found() {
    let (pool, kvs) = get_kvs(
        vec![("example1", text("value")), ("example2", KvsValue::Boolean(true))],
        vec![],
    );
    assert!(!kvs.key_exists(&pool, "invalid_key").unwrap());
}

#[test]
fn test_get_value_found() {
    let (pool, kvs) = get_kvs(
        vec![("example1", text("value")), ("example2", KvsValue::Boolean(true))],
        vec![],
    );
    let value = kvs.get_value(&pool, "example1").unwrap();
    assert!(matches!(value, KvsValue::String(ref s) if s == "value"));
}

#[test]
fn test_get_value_available_default() {
    let (pool, kvs) = get_kvs(
        vec![("example2", KvsValue::Boolean(true))],
        vec![("example1", text("default_value"))],
    );
    let value = kvs.get_value(&pool, "example1").unwrap();
    assert!(matches!(value, KvsValue::String(ref s) if s == "default_value"));
}

#[test]
fn test_get_value_not_found() {
    let (pool, kvs) = get_kvs(
        vec![("example2", KvsValue::Boolean(true))],
        vec![("example1", text("default_value"))],
    );
    assert!(kvs
        .get_value(&pool, "invalid_key")
        .is_err_and(|e| e == ErrorCode::KeyNotFound));
}

#[test]
fn test_get_value_as_found() {
    let (pool, kvs) = get_kvs(
        vec![("example1", text("value")), ("example2", KvsValue::Boolean(true))],
        vec![],
    );
    let value = kvs.get_value_as::<String, _>(&pool, "example1").unwrap();
    assert_eq!(value, "value");
}

#[test]
fn test_get_value_as_available_default() {
    let (pool, kvs) = get_kvs(
        vec![("example2", KvsValue::Boolean(true))],
        vec![("example1", text("default_value"))],
    );
    let value = kvs.get_value_as::<String, _>(&pool, "example1").unwrap();
    assert_eq!(value, "default_value");
}

#[test]
fn test_get_value_as_not_found() {
    let (pool, kvs) = get_kvs(
        vec![("example2", KvsValue::Boolean(true))],
        vec![("example1", text("default_value"))],
    );
    assert!(kvs
        .get_value_as::<String, _>(&pool, "invalid_key")
        .is_err_and(|e| e == ErrorCode::KeyNotFound));
}

#[test]
fn test_get_value_as_invalid_type() {
    let (pool, kvs) = get_kvs(
        vec![("example1", text("value")), ("example2", KvsValue::Boolean(true))],
        vec![],
    );
    assert!(kvs
        .get_value_as::<rust_kvs::value::F64Bits, _>(&pool, "example1")
        .is_err_and(|e| e == ErrorCode::ConversionFailed));
}

#[test]
fn test_get_value_as_default_invalid_type() {
    let (pool, kvs) = get_kvs(
        vec![("example2", KvsValue::Boolean(true))],
        vec![("example1", text("default_value"))],
    );
    assert!(kvs
        .get_value_as::<rust_kvs::value::F64Bits, _>(&pool, "example1")
        .is_err_and(|e| e == ErrorCode::ConversionFailed));
}

#[test]
fn test_get_default_value_found() {
    let (pool, kvs) = get_kvs(
        vec![("example1", text("value")), ("example2", KvsValue::Boolean(true))],
        vec![("example3", text("default"))],
    );
    let value = kvs.get_default_value(&pool, "example3").unwrap();
    assert!(matches!(value, KvsValue::String(ref s) if s == "default"));
}

#[test]
fn test_get_default_value_not_found() {
    let (pool, kvs) = get_kvs(
        vec![("example1", text("value")), ("example2", KvsValue::Boolean(true))],
        vec![("example3", text("default"))],
    );
    assert!(kvs
        .get_default_value(&pool, "invalid_key")
        .is_err_and(|e| e == ErrorCode::KeyNotFound));
}

#[test]
fn test_is_value_default_false() {
    let (pool, kvs) = get_kvs(
        vec![("example1", text("value")), ("example2", KvsValue::Boolean(true))],
        vec![("example1", text("default"))],
    );
    assert!(!kvs.is_value_default(&pool, "example1").unwrap());
}

#[test]
fn test_is_value_default_true() {
    let (pool, kvs) = get_kvs(
        vec![("example1", text("value")), ("example2", KvsValue::Boolean(true))],
        vec![("example3", text("default"))],
    );
    assert!(kvs.is_value_default(&pool, "example3").unwrap());
}

#[test]
fn test_is_value_default_not_found() {
    let (pool, kvs) = get_kvs(
        vec![("example1", text("value")), ("example2", KvsValue::Boolean(true))],
        vec![("example1", text("default"))],
    );
    assert!(kvs
        .is_value_default(&pool, "invalid_key")
        .is_err_and(|e| e == ErrorCode::KeyNotFound));
}

#[test]
fn test_set_value_new() {
    let (mut pool, kvs) = get_kvs(vec![], vec![]);
    kvs.set_value(&mut pool, "key", text("value")).unwrap();
    assert_eq!(kvs.get_value_as::<String, _>(&pool, "key").unwrap(), "value");
}

#[test]
fn test_set_value_exists() {
    let (mut pool, kvs) = get_kvs(vec![("key", text("old_value"))], vec![]);
    kvs.set_value(&mut pool, "key", text("new_value")).unwrap();
    assert_eq!(kvs.get_value_as::<String, _>(&pool, "key").unwrap(), "new_value");
}

#[test]
fn test_remove_key_found() {
    let (mut pool, kvs) = get_kvs(
        vec![("example1", text("value")), ("example2", KvsValue::Boolean(true))],
        vec![],
    );
    kvs.remove_key(&mut pool, "example1").unwrap();
    assert!(!kvs.key_exists(&pool, "example1").unwrap());
}

#[test]
fn test_remove_key_not_found() {
    let (mut pool, kvs) = get_kvs(
        vec![("example1", text("value")), ("example2", KvsValue::Boolean(true))],
        vec![],
    );
    assert!(kvs
        .remove_key(&mut pool, "invalid_key")
        .is_err_and(|e| e == ErrorCode::KeyNotFound));
}

#[test]
fn kvs_test_flush_on_exit() {
    let (pool, kvs) = get_kvs(vec![], vec![]);
    assert_eq!(kvs.flush_on_exit(&pool).unwrap(), FlushOnExit::No);
}

#[test]
fn test_set_flush_on_exit() {
    let (mut pool, kvs) = get_kvs(vec![], vec![]);
    kvs.set_flush_on_exit(&mut pool, FlushOnExit::Yes).unwrap();
    assert_eq!(kvs.flush_on_exit(&pool).unwrap(), FlushOnExit::Yes);
    kvs.set_flush_on_exit(&mut pool, FlushOnExit::No).unwrap();
    assert_eq!(kvs.flush_on_exit(&pool).unwrap(), FlushOnExit::No);
}

#[test]
fn test_flush() {
    let (mut pool, kvs) = get_kvs(vec![("key", text("value"))], vec![]);
    kvs.flush(&mut pool).unwrap();
    let stored = pool.backend_of(InstanceId(1)).unwrap().duplicate();
    let mut other = Pool::new(String::new());
    let params = KvsParameters::new(InstanceId(1))
        .kvs_load(rust_kvs::kvs_provider::KvsLoad::Required)
        .flush_on_exit(FlushOnExit::No);
    let reopened = other.init_with_backend(params, stored).unwrap();
    assert_eq!(reopened.get_value_as::<String, _>(&other, "key").unwrap(), "value");
}

#[test]
fn test_snapshot_count_zero() {
    let (pool, kvs) = get_kvs(vec![], vec![]);
    assert_eq!(kvs.snapshot_count(&pool), 0);
}

#[test]
fn test_snapshot_count_to_one() {
    let (mut pool, kvs) = get_kvs(vec![], vec![]);
    kvs.flush(&mut pool).unwrap();
    assert_eq!(kvs.snapshot_count(&pool), 1);
}

#[test]
fn test_snapshot_count_to_max() {
    let (mut pool, kvs) = get_kvs(vec![], vec![]);
    for i in 1..=KVS_MAX_SNAPSHOTS {
        kvs.flush(&mut pool).unwrap();
        assert_eq!(kvs.snapshot_count(&pool), i);
    }
    kvs.flush(&mut pool).unwrap();
    kvs.flush(&mut pool).unwrap();
    assert_eq!(kvs.snapshot_count(&pool), KVS_MAX_SNAPSHOTS);
}

#[test]
fn test_snapshot_max_count() {
    assert_eq!(GenericKvs::snapshot_max_count(), KVS_MAX_SNAPSHOTS);
}

#[test]
fn test_snapshot_restore_ok() {
    let (mut pool, kvs) = get_kvs(vec![], vec![]);
    for i in 1..=KVS_MAX_SNAPSHOTS {
        kvs.set_value(&mut pool, "counter", KvsValue::I32(i as i32)).unwrap();
        kvs.flush(&mut pool).unwrap();
    }
    kvs.snapshot_restore(&mut pool, SnapshotId(1)).unwrap();
    assert_eq!(kvs.get_value_as::<i32, _>(&pool, "counter").unwrap(), 2);
}

#[test]
fn test_snapshot_restore_invalid_id() {
    let (mut pool, kvs) = get_kvs(vec![], vec![]);
    for i in 1..=KVS_MAX_SNAPSHOTS {
        kvs.set_value(&mut pool, "counter", KvsValue::I32(i as i32)).unwrap();
        kvs.flush(&mut pool).unwrap();
    }
    assert!(kvs
        .snapshot_restore(&mut pool, SnapshotId(123))
        .is_err_and(|e| e == ErrorCode::InvalidSnapshotId));
}

#[test]
fn test_snapshot_restore_current_id() {
    let (mut pool, kvs) = get_kvs(vec![], vec![]);
    for i in 1..=KVS_MAX_SNAPSHOTS {
        kvs.set_value(&mut pool, "counter", KvsValue::I32(i as i32)).unwrap();
        kvs.flush(&mut pool).unwrap();
    }
    assert!(kvs
        .snapshot_restore(&mut pool, SnapshotId(0))
        .is_err_and(|e| e == ErrorCode::InvalidSnapshotId));
}

#[test]
fn test_snapshot_restore_not_available() {
    let (mut pool, kvs) = get_kvs(vec![], vec![]);
    for i in 1..=2 {
        kvs.set_value(&mut pool, "counter", KvsValue::I32(i)).unwrap();
        kvs.flush(&mut pool).unwrap();
    }
    assert!(kvs
        .snapshot_restore(&mut pool, SnapshotId(3))
        .is_err_and(|e| e == ErrorCode::InvalidSnapshotId));
}

#[test]
fn test_drop() {
    let (mut pool, kvs) = get_kvs(vec![], vec![]);
    kvs.set_flush_on_exit(&mut pool, FlushOnExit::Yes).unwrap();
    kvs.set_value(&mut pool, "key", text("value")).unwrap();
    pool.flush_all_on_exit();
    assert_eq!(kvs.snapshot_count(&pool), 1);
}

#[test]
fn close_flushes_only_when_asked() {
    let (mut pool, kvs) = get_kvs(vec![("key", text("value"))], vec![]);
    kvs.close(&mut pool).unwrap();
    assert_eq!(kvs.snapshot_count(&pool), 0);
    kvs.set_flush_on_exit(&mut pool, FlushOnExit::Yes).unwrap();
    kvs.close(&mut pool).unwrap();
    assert_eq!(kvs.snapshot_count(&pool), 1);
}
