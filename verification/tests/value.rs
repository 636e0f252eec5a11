//! The scalar payload type and the cache.

use xtouch_wing::cache::Cache;
use xtouch_wing::value::select_node_value;
use xtouch_wing::Value;

#[test]
fn node_reports_prefer_float_then_int_then_string() {
    let bits = 0.25f32.to_bits();
    assert_eq!(
        select_node_value(Some(bits), Some(3), Some("x".to_string())),
        Some(Value::Float(bits))
    );
    assert_eq!(
        select_node_value(None, Some(3), Some("x".to_string())),
        Some(Value::Int(3))
    );
    assert_eq!(
        select_node_value(None, None, Some("x".to_string())),
        Some(Value::Str("x".to_string()))
    );
    assert_eq!(select_node_value(None, None, None), None);
}

#[test]
fn values_compare_and_clone_by_value() {
    let v = Value::Str("Vox".to_string());
    assert_eq!(v.clone(), v);
    let b = Value::Blob(vec![0xf0, 0x7f]);
    assert_eq!(b.clone(), b);
    // No coercion between variants: a float's bits are not its integer.
    assert_ne!(Value::Int(1), Value::Float(1));
    assert_ne!(Value::Int(1), Value::Int(2));
    assert_eq!(Value::Float(0.5f32.to_bits()), Value::Float(0.5f32.to_bits()));
}

#[test]
fn cache_keeps_the_last_value_per_path() {
    let mut cache = Cache::new();
    assert!(!cache.contains("/ch/1/fdr"));
    assert!(cache.get("/ch/1/fdr").is_none());

    cache.insert("/ch/1/fdr", Value::Int(1));
    cache.insert("/ch/2/fdr", Value::Int(2));
    cache.insert("/ch/1/fdr", Value::Int(3));

    assert_eq!(cache.get("/ch/1/fdr"), Some(&Value::Int(3)));
    assert_eq!(cache.get("/ch/2/fdr"), Some(&Value::Int(2)));
    assert!(cache.contains("/ch/2/fdr"));
    assert!(!cache.contains("/ch/3/fdr"));
}

#[test]
fn cache_keys_are_byte_exact() {
    let mut cache = Cache::new();
    cache.insert("/ch/1/fdr", Value::Int(1));
    assert!(!cache.contains("/CH/1/fdr"));
    assert!(!cache.contains("/ch/1/fdr "));
}
