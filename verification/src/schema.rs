//! Schema per tenant (PostgreSQL): the schema a tenant is bound to and
//! schema naming.

use vstd::prelude::*;
use vstd::string::*;

use crate::database::{expand_name_pattern, expand_pattern};
use crate::resolver::TenantError;
use crate::tenant::Tenant;

verus! {

/// The schema a tenant is bound to, or `Invalid` when it has none; every
/// per-tenant schema operation starts here.
pub fn tenant_schema_name(tenant: &Tenant) -> (res: Result<String, TenantError>)
    ensures
        tenant.schema matches Some(s) ==> res == Ok::<String, TenantError>(s),
        tenant.schema is None ==> (res matches Err(TenantError::Invalid(m)) && m@
            == "Tenant has no schema configured"@),
{
    match &tenant.schema {
        Some(s) => Ok(s.clone()),
        None => Err(TenantError::Invalid("Tenant has no schema configured".to_owned())),
    }
}

/// PostgreSQL schema manager around an injected schema provider.
pub struct SchemaManager<P> {
    provider: P,
}

impl<P> SchemaManager<P> {
    pub closed spec fn spec_provider(&self) -> P {
        self.provider
    }

    /// Create new schema manager with injected provider.
    pub fn new(provider: P) -> (m: Self)
        ensures
            m.spec_provider() == provider,
    {
        SchemaManager { provider }
    }

    /// The schema provider.
    pub fn provider(&self) -> (p: &P)
        ensures
            *p == self.spec_provider(),
    {
        &self.provider
    }
}

/// Schema configuration.
#[derive(Debug, Clone)]
pub struct SchemaConfig {
    /// Schema name pattern (e.g., "tenant_{id}")
    pub name_pattern: String,
    /// Whether to create schemas automatically
    pub auto_create: bool,
    /// Default schema (fallback)
    pub default_schema: String,
}

impl SchemaConfig {
    /// Create new schema config: no auto-creation, default schema `public`.
    pub fn new(name_pattern: &str) -> (c: Self)
        ensures
            c.name_pattern@ == name_pattern@,
            !c.auto_create,
            c.default_schema@ == "public"@,
    {
        SchemaConfig {
            name_pattern: name_pattern.to_owned(),
            auto_create: false,
            default_schema: "public".to_owned(),
        }
    }

    /// Enable auto-creation of schemas.
    pub fn with_auto_create(self, auto_create: bool) -> (c: Self)
        ensures
            c == (SchemaConfig { auto_create, ..self }),
    {
        let mut c = self;
        c.auto_create = auto_create;
        c
    }

    /// Set default schema.
    pub fn with_default_schema(self, schema: &str) -> (c: Self)
        ensures
            c == (SchemaConfig { default_schema: c.default_schema, ..self }),
            c.default_schema@ == schema@,
    {
        let mut c = self;
        c.default_schema = schema.to_owned();
        c
    }

    /// Generate schema name for tenant. The result is not checked: a name
    /// built from an unvalidated tenant id should pass `is_valid_schema_name`
    /// before it reaches SQL.
    pub fn schema_name(&self, tenant: &Tenant) -> (res: String)
        ensures
            res@ == expand_name_pattern(self.name_pattern@, tenant.id@, tenant.name@),
    {
        expand_pattern(self.name_pattern.as_str(), tenant)
    }
}

impl Default for SchemaConfig {
    fn default() -> (c: Self)
        ensures
            c.name_pattern@ == "tenant_{id}"@,
            !c.auto_create,
            c.default_schema@ == "public"@,
    {
        SchemaConfig::new("tenant_{id}")
    }
}

/// A query bound to a tenant's schema: the search path is set to the
/// tenant's schema before the query runs.
pub struct TenantQuery<'a, P> {
    manager: &'a SchemaManager<P>,
    tenant: &'a Tenant,
}

impl<'a, P> TenantQuery<'a, P> {
    pub closed spec fn spec_tenant(&self) -> Tenant {
        *self.tenant
    }

    pub closed spec fn spec_manager(&self) -> SchemaManager<P> {
        *self.manager
    }

    /// Create new tenant query.
    pub fn new(manager: &'a SchemaManager<P>, tenant: &'a Tenant) -> (q: Self)
        ensures
            q.spec_manager() == *manager,
            q.spec_tenant() == *tenant,
    {
        TenantQuery { manager, tenant }
    }

    /// The schema manager.
    pub fn manager(&self) -> (m: &'a SchemaManager<P>)
        ensures
            *m == self.spec_manager(),
    {
        self.manager
    }

    /// The tenant.
    pub fn tenant(&self) -> (t: &'a Tenant)
        ensures
            *t == self.spec_tenant(),
    {
        self.tenant
    }
}

} // verus!
