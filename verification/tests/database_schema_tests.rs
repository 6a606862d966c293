use std::cell::RefCell;
use std::sync::Arc;

use armature_tenancy::database::{
    invalidate_tenant_connection, lookup_connection, tenant_database_name, ConnectionCache,
    ConnectionLookup, TenantDatabaseConfig,
};
use armature_tenancy::schema::{tenant_schema_name, SchemaConfig, SchemaManager, TenantQuery};
use armature_tenancy::{Tenant, TenantError};

/// A database backend whose connections are strings naming the database.
struct MockDatabaseProvider;

impl MockDatabaseProvider {
    fn get_connection(&self, database_name: &str) -> Result<String, TenantError> {
        Ok(format!("Connection to {}", database_name))
    }

    fn database_exists(&self, database_name: &str) -> Result<bool, TenantError> {
        Ok(database_name.starts_with("tenant_"))
    }
}

/// Returns the cached connection of the tenant's database, opening and
/// caching one on a miss.
fn get_connection(
    provider: &MockDatabaseProvider,
    cache: &mut ConnectionCache<Arc<String>>,
    tenant: &Tenant,
) -> Result<Arc<String>, TenantError> {
    let name = match lookup_connection(cache, tenant)? {
        ConnectionLookup::Cached(conn) => return Ok(Arc::clone(conn)),
        ConnectionLookup::Open(name) => name,
    };
    let conn = Arc::new(provider.get_connection(&name)?);
    cache.insert(name, Arc::clone(&conn));
    Ok(conn)
}

#[test]
fn test_get_connection() {
    let provider = MockDatabaseProvider;
    let mut cache = ConnectionCache::new();
    let tenant = Tenant::new("tenant-1", "acme").with_database("acme_db");

    let conn = get_connection(&provider, &mut cache, &tenant).unwrap();
    assert_eq!(*conn, "Connection to acme_db");
}

#[test]
fn test_connection_caching() {
    let provider = MockDatabaseProvider;
    let mut cache = ConnectionCache::new();
    let tenant = Tenant::new("tenant-1", "acme").with_database("acme_db");

    let conn1 = get_connection(&provider, &mut cache, &tenant).unwrap();
    let conn2 = get_connection(&provider, &mut cache, &tenant).unwrap();

    // Should return same cached connection
    assert!(Arc::ptr_eq(&conn1, &conn2));
}

#[test]
fn test_database_config() {
    let config = TenantDatabaseConfig::new("tenant_{id}")
        .with_auto_create(true)
        .with_max_connections(20);

    let tenant = Tenant::new("tenant-123", "acme");
    let db_name = config.database_name(&tenant);

    assert_eq!(db_name, "tenant_tenant-123");
    assert!(config.auto_create);
    assert_eq!(config.max_connections, Some(20));
}

#[test]
fn test_database_exists() {
    let provider = MockDatabaseProvider;
    let tenant = Tenant::new("tenant-1", "acme").with_database("tenant_acme");

    let name = tenant_database_name(&tenant).unwrap();
    let exists = provider.database_exists(&name).unwrap();
    assert!(exists);
}

#[test]
fn tenant_without_database_is_invalid() {
    let tenant = Tenant::new("tenant-1", "acme");
    match tenant_database_name(&tenant) {
        Err(TenantError::Invalid(m)) => assert_eq!(m, "Tenant has no database configured"),
        other => panic!("unexpected {:?}", other),
    }
    let cache: ConnectionCache<Arc<String>> = ConnectionCache::new();
    assert!(matches!(lookup_connection(&cache, &tenant), Err(TenantError::Invalid(_))));
}

#[test]
fn lookup_names_the_database_to_open_on_a_miss() {
    let cache: ConnectionCache<Arc<String>> = ConnectionCache::new();
    let tenant = Tenant::new("tenant-1", "acme").with_database("acme_db");
    match lookup_connection(&cache, &tenant) {
        Ok(ConnectionLookup::Open(name)) => assert_eq!(name, "acme_db"),
        _ => panic!("expected a miss"),
    }
}

#[test]
fn invalidating_a_tenant_drops_only_its_connection() {
    let provider = MockDatabaseProvider;
    let mut cache = ConnectionCache::new();
    let acme = Tenant::new("tenant-1", "acme").with_database("acme_db");
    let globex = Tenant::new("tenant-2", "globex").with_database("globex_db");

    let acme1 = get_connection(&provider, &mut cache, &acme).unwrap();
    let globex1 = get_connection(&provider, &mut cache, &globex).unwrap();

    invalidate_tenant_connection(&mut cache, &acme);
    assert!(!cache.contains_key("acme_db"));
    assert!(cache.contains_key("globex_db"));

    let acme2 = get_connection(&provider, &mut cache, &acme).unwrap();
    let globex2 = get_connection(&provider, &mut cache, &globex).unwrap();
    assert!(!Arc::ptr_eq(&acme1, &acme2));
    assert!(Arc::ptr_eq(&globex1, &globex2));

    // A tenant without a database leaves the cache alone.
    invalidate_tenant_connection(&mut cache, &Tenant::new("tenant-3", "initech"));
    assert!(cache.contains_key("acme_db"));
    assert!(cache.contains_key("globex_db"));
}

#[test]
fn database_name_patterns() {
    let tenant = Tenant::new("tenant-123", "acme");
    assert_eq!(TenantDatabaseConfig::new("db_{name}_{id}").database_name(&tenant), "db_acme_tenant-123");
    assert_eq!(TenantDatabaseConfig::new("{id}{id}").database_name(&tenant), "tenant-123tenant-123");
    assert_eq!(TenantDatabaseConfig::new("fixed").database_name(&tenant), "fixed");
    // The id is substituted first, so a `{name}` inside the id is expanded too.
    let odd = Tenant::new("{name}", "acme");
    assert_eq!(TenantDatabaseConfig::new("t_{id}").database_name(&odd), "t_acme");

    let config = TenantDatabaseConfig::default();
    assert_eq!(config.name_pattern, "tenant_{id}");
    assert!(!config.auto_create);
    assert_eq!(config.max_connections, Some(10));
}

/// A PostgreSQL stand-in that remembers the search path it was given.
struct MockSchemaProvider {
    current_schema: RefCell<String>,
}

impl MockSchemaProvider {
    fn new() -> Self {
        Self { current_schema: RefCell::new("public".to_string()) }
    }

    fn get_current_schema(&self) -> String {
        self.current_schema.borrow().clone()
    }

    fn set_search_path(&self, _conn: &mut (), schema_name: &str) -> Result<(), TenantError> {
        *self.current_schema.borrow_mut() = schema_name.to_string();
        Ok(())
    }

    fn schema_exists(&self, _conn: &mut (), schema_name: &str) -> Result<bool, TenantError> {
        Ok(schema_name.starts_with("tenant_"))
    }
}

#[test]
fn test_set_search_path() {
    let provider = MockSchemaProvider::new();
    let manager = SchemaManager::new(provider);

    let tenant = Tenant::new("tenant-1", "acme").with_schema("acme_schema").unwrap();

    let mut conn = ();
    let schema = tenant_schema_name(&tenant).unwrap();
    manager.provider().set_search_path(&mut conn, &schema).unwrap();

    let current = manager.provider().get_current_schema();
    assert_eq!(current, "acme_schema");
}

#[test]
fn test_schema_config() {
    let config = SchemaConfig::new("tenant_{name}")
        .with_auto_create(true)
        .with_default_schema("custom_public");

    let tenant = Tenant::new("tenant-123", "acme");
    let schema_name = config.schema_name(&tenant);

    assert_eq!(schema_name, "tenant_acme");
    assert!(config.auto_create);
    assert_eq!(config.default_schema, "custom_public");
}

#[test]
fn test_schema_exists() {
    let provider = MockSchemaProvider::new();
    let manager = SchemaManager::new(provider);

    let tenant = Tenant::new("tenant-1", "acme").with_schema("tenant_acme").unwrap();

    let mut conn = ();
    let schema = tenant_schema_name(&tenant).unwrap();
    let exists = manager.provider().schema_exists(&mut conn, &schema).unwrap();
    assert!(exists);
}

#[test]
fn tenant_without_schema_is_invalid() {
    let tenant = Tenant::new("tenant-1", "acme");
    match tenant_schema_name(&tenant) {
        Err(TenantError::Invalid(m)) => assert_eq!(m, "Tenant has no schema configured"),
        other => panic!("unexpected {:?}", other),
    }
}

#[test]
fn schema_config_defaults_and_query_binding() {
    let config = SchemaConfig::default();
    assert_eq!(config.name_pattern, "tenant_{id}");
    assert!(!config.auto_create);
    assert_eq!(config.default_schema, "public");
    assert_eq!(config.schema_name(&Tenant::new("t1", "acme")), "tenant_t1");

    let manager = SchemaManager::new(MockSchemaProvider::new());
    let tenant = Tenant::new("tenant-1", "acme").with_schema("tenant_acme").unwrap();
    let query = TenantQuery::new(&manager, &tenant);
    assert_eq!(query.tenant().id, "tenant-1");
    assert_eq!(query.manager().provider().get_current_schema(), "public");
}
