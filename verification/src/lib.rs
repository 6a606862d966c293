//! Multi-tenancy support: tenant identity and request-scoped tenant context,
//! tenant resolution (header, subdomain, JWT claim, path), the tenant
//! middleware's decisions, tenant-scoped cache keys, per-tenant database and
//! schema naming, and tenant lifecycle management with an in-memory store.
//!
//! Everything here is plain, synchronous logic with its behaviour stated in
//! contracts. The asynchronous parts (tenant stores, cache, database and
//! schema providers, provisioners) are traits of the application that drive
//! these functions.

pub mod cache;
pub mod database;
pub mod keyed_map;
pub mod management;
pub mod middleware;
pub mod prelude;
pub mod resolver;
pub mod schema;
pub mod tenant;
pub mod text;

pub use cache::{CacheError, CacheKeyBuilder, TenantCache};
pub use database::{
    invalidate_tenant_connection, lookup_connection, tenant_database_name, ConnectionCache,
    ConnectionLookup, TenantDatabaseConfig,
};
pub use keyed_map::KeyedMap;
pub use management::{
    ChangeFlow, CreateFlow, CreateTenantRequest, InMemoryManagedTenantStore, ManagedTenant,
    NoOpProvisioner, StepEffect, TenantFilter, TenantLimits, TenantPlan, TenantStatus, TenantUsage, Timestamp,
    UpdateTenantRequest,
};
pub use middleware::{MiddlewareDecision, TenantMiddleware};
pub use resolver::{
    HeaderTenantResolver, JwtTenantResolver, PathTenantResolver, SubdomainTenantResolver,
    TenantError,
};
pub use schema::{tenant_schema_name, SchemaConfig, SchemaManager, TenantQuery};
pub use tenant::{is_valid_schema_name, Tenant, TenantContext};
