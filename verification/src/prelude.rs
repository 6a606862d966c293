//! Convenient imports.

pub use crate::cache::{CacheKeyBuilder, TenantCache};
pub use crate::database::TenantDatabaseConfig;
pub use crate::management::{
    CreateTenantRequest, ManagedTenant, TenantFilter, TenantLimits, TenantPlan, TenantStatus,
    TenantUsage, UpdateTenantRequest,
};
pub use crate::middleware::TenantMiddleware;
pub use crate::resolver::{
    HeaderTenantResolver, JwtTenantResolver, PathTenantResolver, SubdomainTenantResolver,
    TenantError,
};
pub use crate::schema::SchemaManager;
pub use crate::tenant::{Tenant, TenantContext};
