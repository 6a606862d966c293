# armature-tenancy

Multi-tenancy support: tenant identity and request-scoped tenant context,
tenant resolution (header, subdomain, JWT claim, request path), the tenant
middleware's decisions, tenant-scoped cache keys, per-tenant database and
schema naming, and tenant lifecycle management with plans, limits and usage.

The library in `src/` is written in Verus: every public function carries a
contract, and the laws of the library (cache keys never collide across
tenants, a tenant's cache prefix never reaches another tenant's keys, only
active tenants are ever resolved, the store reads back what was written,
termination is final, suspension followed by activation restores a tenant,
listings are newest-first pages of exactly the matching records, ...) are
proof functions checked by the verifier.

Layout:

- `src/text.rs` – string specifications and verified string helpers.
- `src/keyed_map.rs` – a string-keyed map with a `Map` view.
- `src/tenant.rs` – `Tenant`, `TenantContext`, schema-name validation, cache keys.
- `src/resolver.rs` – the resolvers' decisions and `TenantError`.
- `src/middleware.rs` – header stripping and the middleware's decision.
- `src/cache.rs`, `src/database.rs`, `src/schema.rs` – tenant-scoped caching,
  database and schema naming and lookups.
- `src/management.rs` – plans, limits, usage, the in-memory record store and
  the lifecycle operations as step functions (`CreateFlow`, `ChangeFlow`).
- `app/` – the asynchronous side: the backend traits (tenant store, cache,
  database, schema, provisioner, managed store), the drivers that run the
  library's steps against them, the HTTP middleware plumbing, and the
  serializable forms of the data types.
- `tests/` – tests of the library.
