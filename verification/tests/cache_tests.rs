use std::cell::RefCell;
use std::collections::HashMap;

use armature_tenancy::cache::{CacheError, CacheKeyBuilder, TenantCache};
use armature_tenancy::Tenant;

/// An in-memory cache backend.
struct MockCacheProvider {
    data: RefCell<HashMap<String, Vec<u8>>>,
}

impl MockCacheProvider {
    fn new() -> Self {
        Self { data: RefCell::new(HashMap::new()) }
    }
}

/// The tenant cache operations, each on the tenant's key.
fn get(cache: &TenantCache<MockCacheProvider>, tenant: &Tenant, key: &str) -> Option<Vec<u8>> {
    cache.provider().data.borrow().get(&tenant.cache_key(key)).cloned()
}

fn set(cache: &TenantCache<MockCacheProvider>, tenant: &Tenant, key: &str, value: Vec<u8>) {
    cache.provider().data.borrow_mut().insert(tenant.cache_key(key), value);
}

fn delete(cache: &TenantCache<MockCacheProvider>, tenant: &Tenant, key: &str) {
    cache.provider().data.borrow_mut().remove(&tenant.cache_key(key));
}

fn key_exists(cache: &TenantCache<MockCacheProvider>, tenant: &Tenant, key: &str) -> bool {
    cache.provider().data.borrow().contains_key(&tenant.cache_key(key))
}

fn clear_tenant(cache: &TenantCache<MockCacheProvider>, tenant: &Tenant) {
    let prefix = tenant.cache_key("");
    let keys: Vec<String> = cache
        .provider()
        .data
        .borrow()
        .keys()
        .filter(|k| k.starts_with(&prefix))
        .cloned()
        .collect();
    for key in keys {
        cache.provider().data.borrow_mut().remove(&key);
    }
}

#[test]
fn test_tenant_cache_set_get() {
    let cache = TenantCache::new(MockCacheProvider::new());
    let tenant = Tenant::new("tenant-1", "acme");
    let value = b"test data".to_vec();
    set(&cache, &tenant, "test:key", value.clone());
    let retrieved = get(&cache, &tenant, "test:key");
    assert_eq!(retrieved, Some(value));
}

#[test]
fn test_tenant_isolation() {
    let cache = TenantCache::new(MockCacheProvider::new());
    let tenant1 = Tenant::new("tenant-1", "acme");
    let tenant2 = Tenant::new("tenant-2", "globex");
    set(&cache, &tenant1, "key", b"value1".to_vec());
    set(&cache, &tenant2, "key", b"value2".to_vec());
    assert_eq!(get(&cache, &tenant1, "key"), Some(b"value1".to_vec()));
    assert_eq!(get(&cache, &tenant2, "key"), Some(b"value2".to_vec()));
}

#[test]
fn test_cache_key_builder() {
    let tenant = Tenant::new("tenant-123", "acme");
    let key = CacheKeyBuilder::new()
        .part("users")
        .part("1")
        .part("profile")
        .build_for_tenant(&tenant);
    assert_eq!(key, "tenant:10:tenant-123:users:1:profile");
}

#[test]
fn test_clear_tenant_removes_all_tenant_keys_by_prefix() {
    let cache = TenantCache::new(MockCacheProvider::new());
    let tenant = Tenant::new("tenant-1", "acme");
    let other_tenant = Tenant::new("tenant-2", "globex");
    const N: usize = 25;
    for i in 0..N {
        set(&cache, &tenant, &format!("key-{i}"), b"value".to_vec());
    }
    set(&cache, &other_tenant, "key-0", b"other".to_vec());
    clear_tenant(&cache, &tenant);
    for i in 0..N {
        assert!(!key_exists(&cache, &tenant, &format!("key-{i}")), "key-{i} should have been cleared");
    }
    assert!(key_exists(&cache, &other_tenant, "key-0"), "other tenant's key must not be affected");
}

#[test]
fn test_cache_delete() {
    let cache = TenantCache::new(MockCacheProvider::new());
    let tenant = Tenant::new("tenant-1", "acme");
    set(&cache, &tenant, "key", b"value".to_vec());
    assert!(key_exists(&cache, &tenant, "key"));
    delete(&cache, &tenant, "key");
    assert!(!key_exists(&cache, &tenant, "key"));
}

#[test]
fn clearing_a_tenant_whose_id_prefixes_another_keeps_the_other() {
    let cache = TenantCache::new(MockCacheProvider::new());
    let x = Tenant::new("x", "x");
    let xy = Tenant::new("x:y", "xy");
    set(&cache, &x, "y:z", b"1".to_vec());
    set(&cache, &xy, "z", b"2".to_vec());
    clear_tenant(&cache, &x);
    assert!(!key_exists(&cache, &x, "y:z"));
    assert_eq!(get(&cache, &xy, "z"), Some(b"2".to_vec()));
}

#[test]
fn key_builder_joins_parts() {
    assert_eq!(CacheKeyBuilder::new().build(), "");
    assert_eq!(CacheKeyBuilder::default().part("only").build(), "only");
    assert_eq!(CacheKeyBuilder::new().part("a").part("").part("b").build(), "a::b");
}

#[test]
fn cache_error_messages() {
    assert_eq!(CacheError::Error("e".into()).message(), "Cache error: e");
    assert_eq!(CacheError::Serialization("s".into()).message(), "Serialization error: s");
    assert_eq!(CacheError::Connection("c".into()).message(), "Connection error: c");
}
