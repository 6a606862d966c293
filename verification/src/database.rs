//! Database per tenant: database naming, the database a tenant is bound to,
//! and the per-database connection cache.

use vstd::prelude::*;
use vstd::string::*;

use crate::keyed_map::KeyedMap;
use crate::resolver::TenantError;
use crate::tenant::Tenant;
use crate::text::{replace_all, replace_str};

verus! {

/// The database a tenant is bound to, or `Invalid` when it has none; every
/// per-tenant database operation starts here.
pub fn tenant_database_name(tenant: &Tenant) -> (res: Result<String, TenantError>)
    ensures
        tenant.database matches Some(d) ==> res == Ok::<String, TenantError>(d),
        tenant.database is None ==> (res matches Err(TenantError::Invalid(m)) && m@
            == "Tenant has no database configured"@),
{
    match &tenant.database {
        Some(d) => Ok(d.clone()),
        None => Err(TenantError::Invalid("Tenant has no database configured".to_owned())),
    }
}

/// Connections opened so far, one per database name.
pub type ConnectionCache<C> = KeyedMap<C>;

/// Where a tenant's connection comes from.
pub enum ConnectionLookup<'a, C> {
    /// A connection to the tenant's database is already cached.
    Cached(&'a C),
    /// Nothing is cached for this database yet: a connection to it must be
    /// opened (and then cached under this name).
    Open(String),
}

/// Looks the tenant's database up in the connection cache: `Invalid` when
/// the tenant has no database, the cached connection when there is one,
/// otherwise the name of the database to open.
pub fn lookup_connection<'a, C>(cache: &'a ConnectionCache<C>, tenant: &Tenant) -> (res: Result<
    ConnectionLookup<'a, C>,
    TenantError,
>)
    ensures
        tenant.database is None ==> (res matches Err(TenantError::Invalid(m)) && m@
            == "Tenant has no database configured"@),
        tenant.database matches Some(d) ==> (cache@.contains_key(d@) ==> (res matches Ok(
            ConnectionLookup::Cached(c),
        ) && *c == cache@[d@])),
        tenant.database matches Some(d) ==> (!cache@.contains_key(d@) ==> (res matches Ok(
            ConnectionLookup::Open(n),
        ) && n@ == d@)),
{
    let name = tenant_database_name(tenant)?;
    match cache.get(name.as_str()) {
        Some(c) => Ok(ConnectionLookup::Cached(c)),
        None => Ok(ConnectionLookup::Open(name)),
    }
}

/// Drops the cached connection of the tenant's database; a tenant without a
/// database leaves the cache as it is.
pub fn invalidate_tenant_connection<C>(cache: &mut ConnectionCache<C>, tenant: &Tenant)
    ensures
        tenant.database matches Some(d) ==> final(cache)@ == old(cache)@.remove(d@),
        tenant.database is None ==> final(cache)@ == old(cache)@,
{
    if let Some(d) = &tenant.database {
        cache.remove(d.as_str());
    }
}

/// `pattern` with `{id}` replaced by the tenant id, then `{name}` by its name.
pub open spec fn expand_name_pattern(pattern: Seq<char>, id: Seq<char>, name: Seq<char>) -> Seq<
    char,
> {
    replace_all(replace_all(pattern, "{id}"@, id), "{name}"@, name)
}

/// Expands a `{id}` / `{name}` pattern for a tenant.
pub fn expand_pattern(pattern: &str, tenant: &Tenant) -> (res: String)
    ensures
        res@ == expand_name_pattern(pattern@, tenant.id@, tenant.name@),
{
    proof {
        reveal_strlit("{id}");
        reveal_strlit("{name}");
    }
    let with_id = replace_str(pattern, "{id}", tenant.id.as_str());
    replace_str(with_id.as_str(), "{name}", tenant.name.as_str())
}

/// Database configuration for tenants.
#[derive(Debug, Clone)]
pub struct TenantDatabaseConfig {
    /// Database name pattern (e.g., "tenant_{id}")
    pub name_pattern: String,
    /// Whether to create databases automatically
    pub auto_create: bool,
    /// Maximum connections per tenant
    pub max_connections: Option<u32>,
}

impl TenantDatabaseConfig {
    /// Create new database config: no auto-creation, at most 10 connections.
    pub fn new(name_pattern: &str) -> (c: Self)
        ensures
            c.name_pattern@ == name_pattern@,
            !c.auto_create,
            c.max_connections == Some(10u32),
    {
        TenantDatabaseConfig {
            name_pattern: name_pattern.to_owned(),
            auto_create: false,
            max_connections: Some(10),
        }
    }

    /// Enable auto-creation of databases.
    pub fn with_auto_create(self, auto_create: bool) -> (c: Self)
        ensures
            c == (TenantDatabaseConfig { auto_create, ..self }),
    {
        let mut c = self;
        c.auto_create = auto_create;
        c
    }

    /// Set max connections per tenant.
    pub fn with_max_connections(self, max: u32) -> (c: Self)
        ensures
            c == (TenantDatabaseConfig { max_connections: Some(max), ..self }),
    {
        let mut c = self;
        c.max_connections = Some(max);
        c
    }

    /// Generate database name for tenant.
    pub fn database_name(&self, tenant: &Tenant) -> (res: String)
        ensures
            res@ == expand_name_pattern(self.name_pattern@, tenant.id@, tenant.name@),
    {
        expand_pattern(self.name_pattern.as_str(), tenant)
    }
}

impl Default for TenantDatabaseConfig {
    fn default() -> (c: Self)
        ensures
            c.name_pattern@ == "tenant_{id}"@,
            !c.auto_create,
            c.max_connections == Some(10u32),
    {
        TenantDatabaseConfig::new("tenant_{id}")
    }
}

} // verus!
