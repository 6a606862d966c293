use armature_tenancy::middleware::{
    internal_tenant_headers, is_internal_tenant_header_name, MiddlewareDecision, TenantMiddleware,
};
use armature_tenancy::{Tenant, TenantContext, TenantError};

struct MockResolver {
    tenant: Option<Tenant>,
}

impl MockResolver {
    fn resolve(&self) -> Result<Tenant, TenantError> {
        self.tenant
            .clone()
            .ok_or_else(|| TenantError::NotFound("No tenant".to_string()))
    }
}

/// The request as the middleware leaves it for the next handler.
struct Handled {
    headers: Vec<String>,
    context: Option<TenantContext>,
}

/// Runs the middleware's decisions on a request with the given header names:
/// strip the internal headers, resolve, and either continue or refuse.
fn handle(middleware: &TenantMiddleware<MockResolver>, header_names: &[&str]) -> Result<Handled, String> {
    let names: Vec<String> = header_names.iter().map(|s| s.to_string()).collect();
    let stripped = internal_tenant_headers(&names);
    let headers: Vec<String> = names.into_iter().filter(|n| !stripped.contains(n)).collect();
    match middleware.decide(middleware.resolver().resolve()) {
        MiddlewareDecision::Continue(ctx) => Ok(Handled { headers, context: Some(ctx) }),
        MiddlewareDecision::ContinueAnonymous => Ok(Handled { headers, context: None }),
        MiddlewareDecision::Reject(message) => Err(message),
    }
}

fn get_tenant_id(req: &Handled) -> Option<String> {
    req.context.as_ref().and_then(|c| c.tenant_id().map(str::to_string))
}

fn get_tenant_name(req: &Handled) -> Option<String> {
    req.context.as_ref().and_then(|c| c.tenant().map(|t| t.name.clone()))
}

#[test]
fn test_middleware_with_tenant() {
    let tenant = Tenant::new("tenant-1", "acme");
    let middleware = TenantMiddleware::new(MockResolver { tenant: Some(tenant.clone()) });
    let result = handle(&middleware, &[]);
    let req = result.as_ref().unwrap();
    assert_eq!(get_tenant_id(req), Some("tenant-1".to_string()));
    assert_eq!(get_tenant_name(req), Some("acme".to_string()));
    assert!(result.is_ok());
}

#[test]
fn test_middleware_without_tenant_required() {
    let middleware = TenantMiddleware::new(MockResolver { tenant: None }).with_optional(false);
    let result = handle(&middleware, &[]);
    assert!(result.is_err());
}

#[test]
fn enforcing_mode_rejects_unresolved() {
    let middleware = TenantMiddleware::new(MockResolver { tenant: None }).with_optional(false);
    let result = handle(&middleware, &["__tenant_id"]);
    assert!(matches!(result, Err(ref m) if m.starts_with("Tenant resolution failed: ")));
    assert_eq!(result.err().unwrap(), "Tenant resolution failed: Tenant not found: No tenant");
}

#[test]
fn successful_resolution_exposes_tenant_via_extensions() {
    let tenant = Tenant::new("tenant-1", "acme");
    let middleware = TenantMiddleware::new(MockResolver { tenant: Some(tenant) });
    let result = handle(&middleware, &["__tenant_id", "__tenant_name"]);
    let req = result.as_ref().unwrap();
    assert_eq!(get_tenant_id(req), Some("tenant-1".to_string()));
    assert_eq!(get_tenant_name(req), Some("acme".to_string()));
    assert!(req.headers.is_empty());
    assert!(result.is_ok());
}

#[test]
fn optional_mode_ignores_client_supplied_tenant_header() {
    let middleware = TenantMiddleware::new(MockResolver { tenant: None }).with_optional(true);
    let result = handle(&middleware, &["__tenant_id", "__tenant_name"]);
    let req = result.as_ref().unwrap();
    assert_eq!(get_tenant_id(req), None, "spoofed tenant id survived");
    assert_eq!(get_tenant_name(req), None, "spoofed tenant name survived");
    assert!(result.is_ok());
}

#[test]
fn test_middleware_without_tenant_optional() {
    let middleware = TenantMiddleware::new(MockResolver { tenant: None }).with_optional(true);
    let result = handle(&middleware, &[]);
    let req = result.as_ref().unwrap();
    assert_eq!(get_tenant_id(req), None);
    assert!(result.is_ok());
}

#[test]
fn internal_header_prefix_ignores_ascii_case_only() {
    assert!(is_internal_tenant_header_name("__tenant"));
    assert!(is_internal_tenant_header_name("__Tenant_Id"));
    assert!(is_internal_tenant_header_name("__TENANT-anything"));
    assert!(!is_internal_tenant_header_name("__tenan"));
    assert!(!is_internal_tenant_header_name("x__tenant"));
    assert!(!is_internal_tenant_header_name("__tenanté"[..7].to_string().as_str()));
    let names = vec![
        "host".to_string(),
        "__TeNaNt_id".to_string(),
        "x-tenant-id".to_string(),
        "__tenant".to_string(),
    ];
    assert_eq!(internal_tenant_headers(&names), vec!["__TeNaNt_id".to_string(), "__tenant".to_string()]);
}

#[test]
fn middleware_defaults_to_required() {
    let middleware = TenantMiddleware::new(MockResolver { tenant: None });
    assert!(!middleware.is_optional());
    assert!(middleware.with_optional(true).is_optional());
}
