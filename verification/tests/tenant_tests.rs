use armature_tenancy::tenant::{is_valid_schema_name, Tenant, TenantContext};
use armature_tenancy::TenantError;

#[test]
fn test_tenant_new() {
    let tenant = Tenant::new("tenant-1", "acme");
    assert_eq!(tenant.id, "tenant-1");
    assert_eq!(tenant.name, "acme");
    assert!(tenant.active);
}

#[test]
fn test_tenant_builder() {
    let tenant = Tenant::new("tenant-1", "acme")
        .with_domain("acme.example.com")
        .with_database("acme_db")
        .with_schema("acme_schema")
        .unwrap()
        .with_metadata("plan", "premium");

    assert_eq!(tenant.domain, Some("acme.example.com".to_string()));
    assert_eq!(tenant.database, Some("acme_db".to_string()));
    assert_eq!(tenant.schema, Some("acme_schema".to_string()));
    assert_eq!(tenant.metadata.get("plan"), Some(&"premium".to_string()));
}

#[test]
fn test_cache_key() {
    let tenant = Tenant::new("tenant-123", "acme");
    let key = tenant.cache_key("users:1");
    assert_eq!(key, "tenant:10:tenant-123:users:1");
}

#[test]
fn test_cache_key_collision_resistant_to_colon_in_id() {
    let tenant_a = Tenant::new("x", "tenant-a");
    let tenant_b = Tenant::new("x:y", "tenant-b");

    let key_a = tenant_a.cache_key("y:z");
    let key_b = tenant_b.cache_key("z");

    assert_ne!(
        key_a, key_b,
        "cache keys for distinct (id, key) pairs must never collide, \
         even when id contains ':'"
    );
}

#[test]
fn test_with_schema_rejects_sql_injection() {
    let too_long = "a".repeat(64);
    for bad in [
        "public; DROP TABLE users --",
        "public\"",
        "pg_catalog, public",
        "1tenant",
        "",
        "tenant acme",
        "tenant-acme",
        too_long.as_str(),
    ] {
        let result = Tenant::new("tenant-1", "acme").with_schema(bad);
        assert!(
            matches!(result, Err(TenantError::Invalid(_))),
            "schema {bad:?} must be rejected"
        );
    }
}

#[test]
fn test_with_schema_accepts_plain_identifiers() {
    let max_len = "a".repeat(63);
    for good in ["public", "_private", "tenant_acme_1", max_len.as_str()] {
        let tenant = Tenant::new("tenant-1", "acme")
            .with_schema(good)
            .unwrap_or_else(|e| panic!("schema {good:?} must be accepted: {}", e.message()));
        assert_eq!(tenant.schema.as_deref(), Some(good));
    }
}

#[test]
fn test_tenant_context() {
    let mut context = TenantContext::new();
    assert!(!context.has_tenant());

    let tenant = Tenant::new("tenant-1", "acme");
    context.set_tenant(tenant.clone());

    assert!(context.has_tenant());
    assert_eq!(context.tenant_id(), Some("tenant-1"));
    assert_eq!(context.tenant().unwrap().name, "acme");
}

#[test]
fn schema_rejection_message_quotes_the_name() {
    let err = Tenant::new("t", "n").with_schema("a b").err().unwrap();
    match err {
        TenantError::Invalid(m) => assert_eq!(
            m,
            "Invalid schema name: \"a b\" (expected an unquoted SQL identifier)"
        ),
        other => panic!("unexpected error {:?}", other),
    }
}

#[test]
fn schema_name_validity_edges() {
    assert!(is_valid_schema_name("A"));
    assert!(is_valid_schema_name("_"));
    assert!(is_valid_schema_name("a1_B2"));
    assert!(!is_valid_schema_name("é"));
    assert!(!is_valid_schema_name("a-b"));
    assert!(!is_valid_schema_name("9"));
    assert!(is_valid_schema_name(&"z".repeat(63)));
    assert!(!is_valid_schema_name(&"z".repeat(64)));
}

#[test]
fn cache_key_counts_bytes_not_characters() {
    let tenant = Tenant::new("é", "accent");
    assert_eq!(tenant.cache_key("k"), "tenant:2:é:k");
    let empty = Tenant::new("", "nobody");
    assert_eq!(empty.cache_key(""), "tenant:0::");
}

#[test]
fn cache_prefix_of_one_tenant_never_starts_another_tenants_key() {
    let a = Tenant::new("ab", "a");
    let b = Tenant::new("a", "b");
    let prefix_a = a.cache_key("");
    let prefix_b = b.cache_key("");
    assert!(a.cache_key("anything").starts_with(&prefix_a));
    assert!(!b.cache_key("b:").starts_with(&prefix_a));
    assert!(!a.cache_key("").starts_with(&prefix_b));
    let long_id = "x".repeat(12);
    let short = Tenant::new("x", "s");
    let long = Tenant::new(&long_id, "l");
    assert!(!long.cache_key("k").starts_with(&short.cache_key("")));
}

#[test]
fn tenant_builders_keep_other_fields() {
    let tenant = Tenant::new("t-1", "slug")
        .with_display_name("Display")
        .with_active(false)
        .with_metadata("k", "v1")
        .with_metadata("k", "v2")
        .with_metadata("other", "x");
    assert_eq!(tenant.name, "slug");
    assert_eq!(tenant.display_name.as_deref(), Some("Display"));
    assert!(!tenant.active);
    assert_eq!(tenant.metadata.get("k").map(String::as_str), Some("v2"));
    assert_eq!(tenant.metadata.get("other").map(String::as_str), Some("x"));
    assert_eq!(tenant.metadata.get("missing"), None);
}

#[test]
fn context_with_tenant_and_default() {
    let ctx = TenantContext::with_tenant(Tenant::new("id-9", "nine"));
    assert_eq!(ctx.tenant_id(), Some("id-9"));
    let empty = TenantContext::default();
    assert!(empty.tenant().is_none());
    assert_eq!(empty.tenant_id(), None);
}

#[test]
fn tenants_compare_by_content() {
    let a = Tenant::new("t1", "acme").with_metadata("a", "1").with_metadata("b", "2");
    let b = Tenant::new("t1", "acme").with_metadata("b", "2").with_metadata("a", "1");
    assert_eq!(a, b);
    assert_ne!(a, b.clone().with_metadata("a", "3"));
    assert_ne!(a, Tenant::new("t1", "acme"));
    assert_ne!(a, b.clone().with_active(false));
    // Overwriting a key keeps a single entry for it.
    let c = Tenant::new("t1", "acme").with_metadata("a", "0").with_metadata("b", "2").with_metadata("a", "1");
    assert_eq!(a, c);
}
