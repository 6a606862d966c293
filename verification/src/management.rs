//! Tenant management: plans and limits, usage, tenant records, an in-memory
//! record store, and the lifecycle operations (create, update, suspend,
//! activate, terminate, delete) written as step functions that a driver runs
//! against an asynchronous store and provisioner.

use vstd::prelude::*;
use vstd::string::*;

use crate::keyed_map::KeyedMap;
use crate::resolver::TenantError;
use crate::tenant::Tenant;
use crate::text::{concat, concat3, contains_seq, decimal, decimal_string};

verus! {

// ---------------------------------------------------------------------------
// Time and identifiers
// ---------------------------------------------------------------------------

/// A point in time, as seconds and nanoseconds since the Unix epoch (UTC).
#[derive(Clone, Copy, Debug, PartialEq, Eq, Structural)]
pub struct Timestamp {
    pub secs: i64,
    pub nanos: u32,
}

/// `a` is strictly earlier than `b`.
pub open spec fn earlier(a: Timestamp, b: Timestamp) -> bool {
    a.secs < b.secs || (a.secs == b.secs && a.nanos < b.nanos)
}

/// Whether `a` is strictly earlier than `b`.
pub fn is_earlier(a: Timestamp, b: Timestamp) -> (res: bool)
    ensures
        res == earlier(a, b),
{
    a.secs < b.secs || (a.secs == b.secs && a.nanos < b.nanos)
}

/// Calls `chrono::Utc::now` and reads its `timestamp` and
/// `timestamp_subsec_nanos`. Of the time read only its range is stated: it
/// is not before the Unix epoch (chrono's clock panics if the system time
/// is) and its nanoseconds are those of a `Duration`, below one second.
#[verifier::external_body]
pub fn now() -> (t: Timestamp)
    ensures
        t.secs >= 0,
        t.nanos < 1_000_000_000,
{
    let t = chrono::Utc::now();
    Timestamp { secs: t.timestamp(), nanos: t.timestamp_subsec_nanos() }
}

/// A lowercase hexadecimal digit.
pub open spec fn is_lower_hex(c: char) -> bool {
    ('0' <= c && c <= '9') || ('a' <= c && c <= 'f')
}

/// The positions of the hyphens in a hyphenated UUID.
pub open spec fn is_uuid_hyphen_position(i: int) -> bool {
    i == 8 || i == 13 || i == 18 || i == 23
}

/// The lowercase hyphenated text of a version-4 (random) UUID of the
/// RFC 4122 variant: `xxxxxxxx-xxxx-4xxx-Yxxx-xxxxxxxxxxxx`, every `x` a
/// lowercase hex digit and `Y` one of `8`, `9`, `a`, `b`.
pub open spec fn is_uuid_v4_text(s: Seq<char>) -> bool {
    &&& s.len() == 36
    &&& forall|i: int|
        0 <= i < 36 ==> if is_uuid_hyphen_position(i) {
            #[trigger] s[i] == '-'
        } else {
            is_lower_hex(s[i])
        }
    &&& s[14] == '4'
    &&& (s[19] == '8' || s[19] == '9' || s[19] == 'a' || s[19] == 'b')
}

/// Calls `uuid::Uuid::new_v4` and renders it with `to_string`. The value is
/// random; stated is what holds of every outcome: the lowercase hyphenated
/// form of a version-4, RFC 4122 variant UUID (`new_v4` sets those bits and
/// `Display` writes lowercase hyphenated hex).
#[verifier::external_body]
fn new_tenant_id() -> (id: String)
    ensures
        is_uuid_v4_text(id@),
{
    uuid::Uuid::new_v4().to_string()
}

// ---------------------------------------------------------------------------
// Status and plan
// ---------------------------------------------------------------------------

/// Tenant status.
#[derive(Clone, Copy, Debug, PartialEq, Eq, Structural)]
pub enum TenantStatus {
    /// Tenant is being provisioned
    Provisioning,
    /// Tenant is active and operational
    Active,
    /// Tenant is temporarily suspended
    Suspended,
    /// Tenant is being terminated
    Terminating,
    /// Tenant has been terminated
    Terminated,
}

pub open spec fn status_text(s: TenantStatus) -> Seq<char> {
    match s {
        TenantStatus::Provisioning => "provisioning"@,
        TenantStatus::Active => "active"@,
        TenantStatus::Suspended => "suspended"@,
        TenantStatus::Terminating => "terminating"@,
        TenantStatus::Terminated => "terminated"@,
    }
}

impl TenantStatus {
    /// Lower-case name of the status (its display text).
    pub fn as_str(&self) -> (s: &'static str)
        ensures
            s@ == status_text(*self),
    {
        match self {
            TenantStatus::Provisioning => "provisioning",
            TenantStatus::Active => "active",
            TenantStatus::Suspended => "suspended",
            TenantStatus::Terminating => "terminating",
            TenantStatus::Terminated => "terminated",
        }
    }
}

impl Default for TenantStatus {
    fn default() -> (s: Self)
        ensures
            s == TenantStatus::Provisioning,
    {
        TenantStatus::Provisioning
    }
}

/// Tenant plan/tier.
#[derive(Clone, Copy, Debug, PartialEq, Eq, Structural)]
pub enum TenantPlan {
    /// Free tier with limited resources
    Free,
    /// Starter plan for small teams
    Starter,
    /// Professional plan for growing businesses
    Professional,
    /// Enterprise plan with unlimited resources
    Enterprise,
    /// Custom plan with negotiated limits
    Custom,
}

pub open spec fn plan_text(p: TenantPlan) -> Seq<char> {
    match p {
        TenantPlan::Free => "free"@,
        TenantPlan::Starter => "starter"@,
        TenantPlan::Professional => "professional"@,
        TenantPlan::Enterprise => "enterprise"@,
        TenantPlan::Custom => "custom"@,
    }
}

impl TenantPlan {
    /// Lower-case name of the plan (its display text).
    pub fn as_str(&self) -> (s: &'static str)
        ensures
            s@ == plan_text(*self),
    {
        match self {
            TenantPlan::Free => "free",
            TenantPlan::Starter => "starter",
            TenantPlan::Professional => "professional",
            TenantPlan::Enterprise => "enterprise",
            TenantPlan::Custom => "custom",
        }
    }
}

impl Default for TenantPlan {
    fn default() -> (p: Self)
        ensures
            p == TenantPlan::Free,
    {
        TenantPlan::Free
    }
}

// ---------------------------------------------------------------------------
// Limits and usage
// ---------------------------------------------------------------------------

#[verifier::external_type_specification]
#[verifier::external_body]
pub struct ExJsonValue(serde_json::Value);

pub const GIB: u64 = 1024 * 1024 * 1024;

/// The limits of a plan: `(max users, max storage bytes, max API requests,
/// max connections)`; `None` is unlimited.
pub open spec fn plan_limits(plan: TenantPlan) -> (Option<u32>, Option<u64>, Option<u64>, Option<u32>) {
    match plan {
        TenantPlan::Free => (Some(5u32), Some(GIB), Some(10_000u64), Some(10u32)),
        TenantPlan::Starter => (Some(25u32), Some((10 * GIB) as u64), Some(100_000u64), Some(50u32)),
        TenantPlan::Professional => (
            Some(100u32),
            Some((100 * GIB) as u64),
            Some(1_000_000u64),
            Some(200u32),
        ),
        TenantPlan::Enterprise | TenantPlan::Custom => (None, None, None, None),
    }
}

/// Tenant limits based on plan.
#[derive(Debug, Clone)]
pub struct TenantLimits {
    /// Maximum number of users
    pub max_users: Option<u32>,
    /// Maximum storage in bytes
    pub max_storage_bytes: Option<u64>,
    /// Maximum API requests per month
    pub max_api_requests: Option<u64>,
    /// Maximum concurrent connections
    pub max_connections: Option<u32>,
    /// Custom limits
    pub custom: KeyedMap<serde_json::Value>,
}

/// `l` holds exactly the limits of `plan`, with no custom limit.
pub open spec fn is_plan_limits(l: TenantLimits, plan: TenantPlan) -> bool {
    &&& (l.max_users, l.max_storage_bytes, l.max_api_requests, l.max_connections) == plan_limits(plan)
    &&& l.custom@ == Map::<Seq<char>, serde_json::Value>::empty()
}

impl Default for TenantLimits {
    /// The free plan's limits.
    fn default() -> (l: Self)
        ensures
            is_plan_limits(l, TenantPlan::Free),
    {
        TenantLimits {
            max_users: Some(5),
            max_storage_bytes: Some(GIB),
            max_api_requests: Some(10_000),
            max_connections: Some(10),
            custom: KeyedMap::new(),
        }
    }
}

impl TenantLimits {
    /// Create limits for a specific plan.
    pub fn for_plan(plan: TenantPlan) -> (l: Self)
        ensures
            is_plan_limits(l, plan),
    {
        match plan {
            TenantPlan::Free => TenantLimits::default(),
            TenantPlan::Starter => TenantLimits {
                max_users: Some(25),
                max_storage_bytes: Some(10 * GIB),
                max_api_requests: Some(100_000),
                max_connections: Some(50),
                custom: KeyedMap::new(),
            },
            TenantPlan::Professional => TenantLimits {
                max_users: Some(100),
                max_storage_bytes: Some(100 * GIB),
                max_api_requests: Some(1_000_000),
                max_connections: Some(200),
                custom: KeyedMap::new(),
            },
            TenantPlan::Enterprise | TenantPlan::Custom => TenantLimits {
                max_users: None,
                max_storage_bytes: None,
                max_api_requests: None,
                max_connections: None,
                custom: KeyedMap::new(),
            },
        }
    }

    /// Set custom limit.
    pub fn with_custom(self, key: &str, value: serde_json::Value) -> (l: Self)
        ensures
            l == (TenantLimits { custom: l.custom, ..self }),
            l.custom@ == self.custom@.insert(key@, value),
    {
        let mut l = self;
        l.custom.insert(key.to_owned(), value);
        l
    }
}

/// Current usage metrics for a tenant.
#[derive(Debug, Clone)]
pub struct TenantUsage {
    /// Number of active users
    pub users: u32,
    /// Storage used in bytes
    pub storage_bytes: u64,
    /// API requests this period
    pub api_requests: u64,
    /// Current active connections
    pub active_connections: u32,
    /// Custom usage metrics
    pub custom: KeyedMap<serde_json::Value>,
    /// Last updated timestamp
    pub last_updated: Option<Timestamp>,
}

/// `u` is the zero usage.
pub open spec fn is_zero_usage(u: TenantUsage) -> bool {
    &&& u.users == 0
    &&& u.storage_bytes == 0
    &&& u.api_requests == 0
    &&& u.active_connections == 0
    &&& u.custom@ == Map::<Seq<char>, serde_json::Value>::empty()
    &&& u.last_updated is None
}

impl Default for TenantUsage {
    fn default() -> (u: Self)
        ensures
            is_zero_usage(u),
    {
        TenantUsage {
            users: 0,
            storage_bytes: 0,
            api_requests: 0,
            active_connections: 0,
            custom: KeyedMap::new(),
            last_updated: None,
        }
    }
}

/// `"{label}{used} / {max}{unit}"`.
pub open spec fn violation_text(label: Seq<char>, used: nat, max: nat, unit: Seq<char>) -> Seq<char> {
    label + decimal(used) + " / "@ + decimal(max) + unit
}

/// The violation reported for one limit, if it is exceeded.
pub open spec fn violation(used: nat, max: Option<nat>, label: Seq<char>, unit: Seq<char>) -> Seq<
    Seq<char>,
> {
    match max {
        Some(m) => if used > m {
            seq![violation_text(label, used, m, unit)]
        } else {
            Seq::empty()
        },
        None => Seq::empty(),
    }
}

pub open spec fn opt_nat_u32(o: Option<u32>) -> Option<nat> {
    match o {
        Some(v) => Some(v as nat),
        None => None,
    }
}

pub open spec fn opt_nat_u64(o: Option<u64>) -> Option<nat> {
    match o {
        Some(v) => Some(v as nat),
        None => None,
    }
}

/// Every limit that `u` exceeds, in the order users, storage, API requests,
/// connections.
pub open spec fn limit_violations(u: TenantUsage, l: TenantLimits) -> Seq<Seq<char>> {
    violation(u.users as nat, opt_nat_u32(l.max_users), "Users: "@, ""@) + violation(
        u.storage_bytes as nat,
        opt_nat_u64(l.max_storage_bytes),
        "Storage: "@,
        " bytes"@,
    ) + violation(u.api_requests as nat, opt_nat_u64(l.max_api_requests), "API Requests: "@, ""@)
        + violation(
        u.active_connections as nat,
        opt_nat_u32(l.max_connections),
        "Connections: "@,
        ""@,
    )
}

/// The texts of a vector of strings.
pub open spec fn texts(v: Seq<String>) -> Seq<Seq<char>> {
    v.map_values(|s: String| s@)
}

fn violation_message(label: &str, used: u64, max: u64, unit: &str) -> (res: String)
    ensures
        res@ == violation_text(label@, used as nat, max as nat, unit@),
{
    let u = decimal_string(used);
    let m = decimal_string(max);
    let mut s = concat3(label, u.as_str(), " / ");
    s.append(m.as_str());
    s.append(unit);
    s
}

fn push_violation(out: &mut Vec<String>, used: u64, max: Option<u64>, label: &str, unit: &str)
    ensures
        texts(final(out)@) == texts(old(out)@) + violation(
            used as nat,
            opt_nat_u64(max),
            label@,
            unit@,
        ),
{
    let ghost before = out@;
    if let Some(m) = max {
        if used > m {
            out.push(violation_message(label, used, m, unit));
            proof {
                assert(texts(out@) =~= texts(before) + seq![violation_text(label@, used as nat, m as nat, unit@)]);
            }
            return;
        }
    }
    proof {
        assert(texts(out@) =~= texts(before) + violation(used as nat, opt_nat_u64(max), label@, unit@));
    }
}

impl TenantUsage {
    /// Every limit that this usage exceeds, as `"Users: 10 / 5"`-style texts.
    pub fn exceeds_limits(&self, limits: &TenantLimits) -> (res: Vec<String>)
        ensures
            texts(res@) == limit_violations(*self, *limits),
    {
        let mut violations: Vec<String> = Vec::new();
        let max_users = match limits.max_users {
            Some(m) => Some(m as u64),
            None => None,
        };
        let max_connections = match limits.max_connections {
            Some(m) => Some(m as u64),
            None => None,
        };
        proof {
            assert(texts(violations@) =~= Seq::<Seq<char>>::empty());
            assert(opt_nat_u64(max_users) == opt_nat_u32(limits.max_users));
            assert(opt_nat_u64(max_connections) == opt_nat_u32(limits.max_connections));
        }
        push_violation(&mut violations, self.users as u64, max_users, "Users: ", "");
        push_violation(
            &mut violations,
            self.storage_bytes,
            limits.max_storage_bytes,
            "Storage: ",
            " bytes",
        );
        push_violation(
            &mut violations,
            self.api_requests,
            limits.max_api_requests,
            "API Requests: ",
            "",
        );
        push_violation(
            &mut violations,
            self.active_connections as u64,
            max_connections,
            "Connections: ",
            "",
        );
        proof {
            assert(texts(violations@) =~= limit_violations(*self, *limits));
        }
        violations
    }
}


// ---------------------------------------------------------------------------
// Requests
// ---------------------------------------------------------------------------

/// Request to create a new tenant.
#[derive(Debug, Clone)]
pub struct CreateTenantRequest {
    /// Unique slug/identifier (URL-safe)
    pub slug: String,
    /// Display name
    pub display_name: Option<String>,
    /// Custom domain (optional)
    pub domain: Option<String>,
    /// Plan/tier
    pub plan: TenantPlan,
    /// Owner user ID
    pub owner_id: Option<String>,
    /// Initial metadata
    pub metadata: KeyedMap<String>,
    /// Custom limits (overrides plan defaults)
    pub custom_limits: Option<TenantLimits>,
}

impl CreateTenantRequest {
    /// Create a new tenant request on the free plan.
    pub fn new(slug: &str) -> (r: Self)
        ensures
            r.slug@ == slug@,
            r.display_name is None,
            r.domain is None,
            r.plan == TenantPlan::Free,
            r.owner_id is None,
            r.metadata@ == Map::<Seq<char>, String>::empty(),
            r.custom_limits is None,
    {
        CreateTenantRequest {
            slug: slug.to_owned(),
            display_name: None,
            domain: None,
            plan: TenantPlan::Free,
            owner_id: None,
            metadata: KeyedMap::new(),
            custom_limits: None,
        }
    }

    /// Set display name.
    pub fn with_display_name(self, name: &str) -> (r: Self)
        ensures
            r == (CreateTenantRequest { display_name: r.display_name, ..self }),
            r.display_name matches Some(d) && d@ == name@,
    {
        let mut r = self;
        r.display_name = Some(name.to_owned());
        r
    }

    /// Set custom domain.
    pub fn with_domain(self, domain: &str) -> (r: Self)
        ensures
            r == (CreateTenantRequest { domain: r.domain, ..self }),
            r.domain matches Some(d) && d@ == domain@,
    {
        let mut r = self;
        r.domain = Some(domain.to_owned());
        r
    }

    /// Set plan.
    pub fn with_plan(self, plan: TenantPlan) -> (r: Self)
        ensures
            r == (CreateTenantRequest { plan, ..self }),
    {
        let mut r = self;
        r.plan = plan;
        r
    }

    /// Set owner.
    pub fn with_owner(self, owner_id: &str) -> (r: Self)
        ensures
            r == (CreateTenantRequest { owner_id: r.owner_id, ..self }),
            r.owner_id matches Some(o) && o@ == owner_id@,
    {
        let mut r = self;
        r.owner_id = Some(owner_id.to_owned());
        r
    }

    /// Add metadata.
    pub fn with_metadata(self, key: &str, value: &str) -> (r: Self)
        ensures
            r == (CreateTenantRequest { metadata: r.metadata, ..self }),
            r.metadata@.dom() == self.metadata@.dom().insert(key@),
            r.metadata@[key@]@ == value@,
            forall|k: Seq<char>|
                k != key@ && #[trigger] self.metadata@.contains_key(k) ==> r.metadata@[k]
                    == self.metadata@[k],
    {
        let mut r = self;
        r.metadata.insert(key.to_owned(), value.to_owned());
        r
    }

    /// Set custom limits.
    pub fn with_limits(self, limits: TenantLimits) -> (r: Self)
        ensures
            r == (CreateTenantRequest { custom_limits: Some(limits), ..self }),
    {
        let mut r = self;
        r.custom_limits = Some(limits);
        r
    }
}

/// Request to update a tenant; every field left `None` is left unchanged.
#[derive(Debug, Clone)]
pub struct UpdateTenantRequest {
    /// New display name
    pub display_name: Option<String>,
    /// New domain
    pub domain: Option<Option<String>>,
    /// New plan
    pub plan: Option<TenantPlan>,
    /// Metadata to add/update
    pub metadata: Option<KeyedMap<String>>,
    /// New limits
    pub limits: Option<TenantLimits>,
}

/// `r` changes nothing.
pub open spec fn is_empty_update(r: UpdateTenantRequest) -> bool {
    &&& r.display_name is None
    &&& r.domain is None
    &&& r.plan is None
    &&& r.metadata is None
    &&& r.limits is None
}

impl Default for UpdateTenantRequest {
    fn default() -> (r: Self)
        ensures
            is_empty_update(r),
    {
        UpdateTenantRequest { display_name: None, domain: None, plan: None, metadata: None, limits: None }
    }
}

impl UpdateTenantRequest {
    /// Create empty update request.
    pub fn new() -> (r: Self)
        ensures
            is_empty_update(r),
    {
        UpdateTenantRequest::default()
    }

    /// Set display name.
    pub fn with_display_name(self, name: &str) -> (r: Self)
        ensures
            r == (UpdateTenantRequest { display_name: r.display_name, ..self }),
            r.display_name matches Some(d) && d@ == name@,
    {
        let mut r = self;
        r.display_name = Some(name.to_owned());
        r
    }

    /// Set domain (`None` clears it).
    pub fn with_domain(self, domain: Option<String>) -> (r: Self)
        ensures
            r == (UpdateTenantRequest { domain: Some(domain), ..self }),
    {
        let mut r = self;
        r.domain = Some(domain);
        r
    }

    /// Set plan.
    pub fn with_plan(self, plan: TenantPlan) -> (r: Self)
        ensures
            r == (UpdateTenantRequest { plan: Some(plan), ..self }),
    {
        let mut r = self;
        r.plan = Some(plan);
        r
    }

    /// Set metadata to add or replace.
    pub fn with_metadata(self, metadata: KeyedMap<String>) -> (r: Self)
        ensures
            r == (UpdateTenantRequest { metadata: Some(metadata), ..self }),
    {
        let mut r = self;
        r.metadata = Some(metadata);
        r
    }

    /// Set limits.
    pub fn with_limits(self, limits: TenantLimits) -> (r: Self)
        ensures
            r == (UpdateTenantRequest { limits: Some(limits), ..self }),
    {
        let mut r = self;
        r.limits = Some(limits);
        r
    }
}

// ---------------------------------------------------------------------------
// Managed tenants
// ---------------------------------------------------------------------------

/// Extended tenant with management information.
#[derive(Debug, Clone)]
pub struct ManagedTenant {
    /// Core tenant information
    pub tenant: Tenant,
    /// Current status
    pub status: TenantStatus,
    /// Plan/tier
    pub plan: TenantPlan,
    /// Resource limits
    pub limits: TenantLimits,
    /// Current usage
    pub usage: TenantUsage,
    /// Owner user ID
    pub owner_id: Option<String>,
    /// Created timestamp
    pub created_at: Timestamp,
    /// Last updated timestamp
    pub updated_at: Timestamp,
    /// Suspension reason (if suspended)
    pub suspension_reason: Option<String>,
}

/// `m` is a fresh record for `tenant` on `plan`: provisioning, plan limits,
/// zero usage, no owner or suspension, created and updated at the same time.
pub open spec fn is_fresh_record(m: ManagedTenant, tenant: Tenant, plan: TenantPlan) -> bool {
    &&& m.tenant == tenant
    &&& m.status == TenantStatus::Provisioning
    &&& m.plan == plan
    &&& is_plan_limits(m.limits, plan)
    &&& is_zero_usage(m.usage)
    &&& m.owner_id is None
    &&& m.created_at == m.updated_at
    &&& m.suspension_reason is None
}

impl ManagedTenant {
    /// Create from tenant with defaults, stamped with the current time.
    pub fn from_tenant(tenant: Tenant, plan: TenantPlan) -> (m: Self)
        ensures
            is_fresh_record(m, tenant, plan),
    {
        let t = now();
        ManagedTenant {
            tenant,
            status: TenantStatus::Provisioning,
            plan,
            limits: TenantLimits::for_plan(plan),
            usage: TenantUsage::default(),
            owner_id: None,
            created_at: t,
            updated_at: t,
            suspension_reason: None,
        }
    }

    /// Check if tenant is operational.
    pub fn is_operational(&self) -> (b: bool)
        ensures
            b == (self.status == TenantStatus::Active),
    {
        self.status == TenantStatus::Active
    }

    /// Check if tenant can accept requests.
    pub fn can_accept_requests(&self) -> (b: bool)
        ensures
            b == (self.status == TenantStatus::Active || self.status == TenantStatus::Provisioning),
    {
        match self.status {
            TenantStatus::Active | TenantStatus::Provisioning => true,
            _ => false,
        }
    }

    /// Get limit violations.
    pub fn get_violations(&self) -> (res: Vec<String>)
        ensures
            texts(res@) == limit_violations(self.usage, self.limits),
    {
        self.usage.exceeds_limits(&self.limits)
    }
}

// ---------------------------------------------------------------------------
// Filter
// ---------------------------------------------------------------------------

/// Filter for listing tenants.
#[derive(Debug, Clone)]
pub struct TenantFilter {
    /// Filter by status
    pub status: Option<TenantStatus>,
    /// Filter by plan
    pub plan: Option<TenantPlan>,
    /// Filter by owner
    pub owner_id: Option<String>,
    /// Search by name/slug
    pub search: Option<String>,
    /// Pagination offset
    pub offset: u64,
    /// Pagination limit
    pub limit: u64,
}

impl Default for TenantFilter {
    /// No criteria, offset 0 and limit 0.
    fn default() -> (f: Self)
        ensures
            f.status is None,
            f.plan is None,
            f.owner_id is None,
            f.search is None,
            f.offset == 0,
            f.limit == 0,
    {
        TenantFilter { status: None, plan: None, owner_id: None, search: None, offset: 0, limit: 0 }
    }
}

impl TenantFilter {
    /// Create new filter: no criteria, first page of 50.
    pub fn new() -> (f: Self)
        ensures
            f.status is None,
            f.plan is None,
            f.owner_id is None,
            f.search is None,
            f.offset == 0,
            f.limit == 50,
    {
        let mut f = TenantFilter::default();
        f.limit = 50;
        f
    }

    /// Filter by status.
    pub fn with_status(self, status: TenantStatus) -> (f: Self)
        ensures
            f == (TenantFilter { status: Some(status), ..self }),
    {
        let mut f = self;
        f.status = Some(status);
        f
    }

    /// Filter by plan.
    pub fn with_plan(self, plan: TenantPlan) -> (f: Self)
        ensures
            f == (TenantFilter { plan: Some(plan), ..self }),
    {
        let mut f = self;
        f.plan = Some(plan);
        f
    }

    /// Filter by owner.
    pub fn with_owner(self, owner_id: &str) -> (f: Self)
        ensures
            f == (TenantFilter { owner_id: f.owner_id, ..self }),
            f.owner_id matches Some(o) && o@ == owner_id@,
    {
        let mut f = self;
        f.owner_id = Some(owner_id.to_owned());
        f
    }

    /// Search by name/slug.
    pub fn with_search(self, search: &str) -> (f: Self)
        ensures
            f == (TenantFilter { search: f.search, ..self }),
            f.search matches Some(s) && s@ == search@,
    {
        let mut f = self;
        f.search = Some(search.to_owned());
        f
    }

    /// Set pagination.
    pub fn with_pagination(self, offset: u64, limit: u64) -> (f: Self)
        ensures
            f == (TenantFilter { offset, limit, ..self }),
    {
        let mut f = self;
        f.offset = offset;
        f.limit = limit;
        f
    }
}

/// Whether record `t` meets every criterion of `filter`: same status, same
/// plan, same owner, and the search text in its name or its id.
pub open spec fn filter_matches(filter: TenantFilter, t: ManagedTenant) -> bool {
    &&& (filter.status matches Some(s) ==> t.status == s)
    &&& (filter.plan matches Some(p) ==> t.plan == p)
    &&& (filter.owner_id matches Some(o) ==> (t.owner_id matches Some(to) && to@ == o@))
    &&& (filter.search matches Some(q) ==> contains_seq(t.tenant.name@, q@) || contains_seq(
        t.tenant.id@,
        q@,
    ))
}


/// Whether record `t` meets every criterion of `filter`.
fn filter_accepts(filter: &TenantFilter, t: &ManagedTenant) -> (b: bool)
    ensures
        b == filter_matches(*filter, *t),
{
    if let Some(status) = filter.status {
        if t.status != status {
            return false;
        }
    }
    if let Some(plan) = filter.plan {
        if t.plan != plan {
            return false;
        }
    }
    if let Some(owner) = &filter.owner_id {
        match &t.owner_id {
            Some(o) => {
                if !crate::keyed_map::str_equal(o.as_str(), owner.as_str()) {
                    return false;
                }
            },
            None => {
                return false;
            },
        }
    }
    if let Some(search) = &filter.search {
        if !crate::text::contains_str(t.tenant.name.as_str(), search.as_str())
            && !crate::text::contains_str(t.tenant.id.as_str(), search.as_str()) {
            return false;
        }
    }
    true
}

// ---------------------------------------------------------------------------
// Ordering and pagination of listings
// ---------------------------------------------------------------------------

/// Inserts `x` into a newest-first sequence, after every record that is not
/// older than `x` (so records of equal age keep their order).
pub open spec fn insert_by_age(s: Seq<ManagedTenant>, x: ManagedTenant) -> Seq<ManagedTenant>
    decreases s.len(),
{
    if s.len() == 0 {
        seq![x]
    } else if earlier(s[0].created_at, x.created_at) {
        seq![x] + s
    } else {
        seq![s[0]] + insert_by_age(s.drop_first(), x)
    }
}

/// `s` ordered by creation time, newest first; a stable ordering.
pub open spec fn newest_first(s: Seq<ManagedTenant>) -> Seq<ManagedTenant>
    decreases s.len(),
{
    if s.len() == 0 {
        s
    } else {
        insert_by_age(newest_first(s.drop_last()), s.last())
    }
}

/// No record of `s` is followed by a newer one.
pub open spec fn is_newest_first(s: Seq<ManagedTenant>) -> bool {
    forall|i: int, j: int|
        0 <= i < j < s.len() ==> !earlier(#[trigger] s[i].created_at, #[trigger] s[j].created_at)
}

/// The page of `s` that starts at `offset` and holds at most `limit` items.
pub open spec fn page<T>(s: Seq<T>, offset: nat, limit: nat) -> Seq<T> {
    let start = if offset < s.len() {
        offset
    } else {
        s.len()
    };
    let end = if offset + limit < s.len() {
        offset + limit
    } else {
        s.len()
    };
    s.subrange(start as int, end as int)
}

/// The records of `s` that meet `filter`, in their order.
pub open spec fn matching(s: Seq<ManagedTenant>, filter: TenantFilter) -> Seq<ManagedTenant> {
    s.filter(|t: ManagedTenant| filter_matches(filter, t))
}

/// The records that `list` returns for `filter`: the matching records, newest
/// first, paginated.
pub open spec fn listing(s: Seq<ManagedTenant>, filter: TenantFilter) -> Seq<ManagedTenant> {
    page(newest_first(matching(s, filter)), filter.offset as nat, filter.limit as nat)
}

/// The records a vector of references points at.
pub open spec fn derefs(v: Seq<&ManagedTenant>) -> Seq<ManagedTenant> {
    v.map_values(|r: &ManagedTenant| *r)
}

proof fn lemma_insert_by_age_position(s: Seq<ManagedTenant>, x: ManagedTenant, pos: int)
    requires
        0 <= pos <= s.len(),
        forall|j: int| 0 <= j < pos ==> !earlier(#[trigger] s[j].created_at, x.created_at),
        pos < s.len() ==> earlier(s[pos].created_at, x.created_at),
    ensures
        insert_by_age(s, x) == s.insert(pos, x),
    decreases s.len(),
{
    if s.len() == 0 {
        assert(s.insert(pos, x) =~= seq![x]);
    } else if pos == 0 {
        assert(s.insert(0, x) =~= seq![x] + s);
    } else {
        let t = s.drop_first();
        assert forall|j: int| 0 <= j < pos - 1 implies !earlier(#[trigger] t[j].created_at, x.created_at) by {
            assert(t[j] == s[j + 1]);
        }
        if pos < s.len() {
            assert(t[pos - 1] == s[pos]);
        }
        lemma_insert_by_age_position(t, x, pos - 1);
        assert(s.insert(pos, x) =~= seq![s[0]] + t.insert(pos - 1, x));
    }
}

/// The place where `insert_by_age` puts `x`: after every record not older than it.
proof fn insertion_point(s: Seq<ManagedTenant>, x: ManagedTenant) -> (pos: int)
    ensures
        0 <= pos <= s.len(),
        forall|j: int| 0 <= j < pos ==> !earlier(#[trigger] s[j].created_at, x.created_at),
        pos < s.len() ==> earlier(s[pos].created_at, x.created_at),
    decreases s.len(),
{
    if s.len() == 0 || earlier(s[0].created_at, x.created_at) {
        0
    } else {
        let t = s.drop_first();
        let p = insertion_point(t, x);
        assert forall|j: int| 0 <= j < p + 1 implies !earlier(#[trigger] s[j].created_at, x.created_at) by {
            if j > 0 {
                assert(s[j] == t[j - 1]);
            }
        }
        if p < t.len() {
            assert(s[p + 1] == t[p]);
        }
        p + 1
    }
}

/// Inserting by age keeps a sequence newest-first and adds exactly `x`.
proof fn lemma_insert_by_age_sorted(s: Seq<ManagedTenant>, x: ManagedTenant)
    requires
        is_newest_first(s),
    ensures
        is_newest_first(insert_by_age(s, x)),
        insert_by_age(s, x).to_multiset() == s.to_multiset().insert(x),
{
    broadcast use vstd::seq_lib::to_multiset_insert;

    let pos = insertion_point(s, x);
    lemma_insert_by_age_position(s, x, pos);
    let r = s.insert(pos, x);
    assert forall|i: int, j: int| 0 <= i < j < r.len() implies !earlier(
        #[trigger] r[i].created_at,
        #[trigger] r[j].created_at,
    ) by {
        if j < pos {
            assert(r[i] == s[i] && r[j] == s[j]);
        } else if j == pos {
            assert(r[i] == s[i] && r[j] == x);
        } else if i < pos {
            assert(r[i] == s[i] && r[j] == s[j - 1]);
        } else if i == pos {
            assert(r[i] == x && r[j] == s[j - 1]);
            assert(earlier(s[pos].created_at, x.created_at));
            if j - 1 > pos {
                assert(!earlier(s[pos].created_at, s[j - 1].created_at));
            }
        } else {
            assert(r[i] == s[i - 1] && r[j] == s[j - 1]);
        }
    }
}

/// Listings are ordered newest first and hold exactly the matching records
/// (a permutation of them).
pub proof fn lemma_newest_first(s: Seq<ManagedTenant>)
    ensures
        is_newest_first(newest_first(s)),
        newest_first(s).to_multiset() == s.to_multiset(),
    decreases s.len(),
{
    if s.len() > 0 {
        lemma_newest_first(s.drop_last());
        lemma_insert_by_age_sorted(newest_first(s.drop_last()), s.last());
        assert(s =~= s.drop_last().push(s.last()));
        vstd::seq_lib::to_multiset_build(s.drop_last(), s.last());
    } else {
        assert(is_newest_first(s));
    }
}

// ---------------------------------------------------------------------------
// In-memory store
// ---------------------------------------------------------------------------

/// The index of the first record whose tenant id is `id`.
pub open spec fn index_of_id(s: Seq<ManagedTenant>, id: Seq<char>) -> Option<int> {
    if exists|i: int| 0 <= i < s.len() && (#[trigger] s[i]).tenant.id@ == id {
        Some(
            choose|i: int|
                0 <= i < s.len() && (#[trigger] s[i]).tenant.id@ == id && forall|j: int|
                    0 <= j < i ==> (#[trigger] s[j]).tenant.id@ != id,
        )
    } else {
        None
    }
}

/// The index of the first record whose tenant name (slug) is `slug`.
pub open spec fn index_of_slug(s: Seq<ManagedTenant>, slug: Seq<char>) -> Option<int> {
    if exists|i: int| 0 <= i < s.len() && (#[trigger] s[i]).tenant.name@ == slug {
        Some(
            choose|i: int|
                0 <= i < s.len() && (#[trigger] s[i]).tenant.name@ == slug && forall|j: int|
                    0 <= j < i ==> (#[trigger] s[j]).tenant.name@ != slug,
        )
    } else {
        None
    }
}

/// No two records share a tenant id.
pub open spec fn ids_distinct(s: Seq<ManagedTenant>) -> bool {
    forall|i: int, j: int|
        0 <= i < j < s.len() ==> (#[trigger] s[i]).tenant.id@ != (#[trigger] s[j]).tenant.id@
}

/// `r` is `t` with its usage replaced by `usage`, stamped `Some(_)`.
pub open spec fn is_usage_update(r: ManagedTenant, t: ManagedTenant, usage: TenantUsage) -> bool {
    &&& r == (ManagedTenant { usage: r.usage, ..t })
    &&& r.usage == (TenantUsage { last_updated: r.usage.last_updated, ..usage })
    &&& r.usage.last_updated is Some
}

/// In-memory store of tenant records, in insertion order.
#[derive(Debug)]
pub struct InMemoryManagedTenantStore {
    tenants: Vec<ManagedTenant>,
}

impl InMemoryManagedTenantStore {
    /// The stored records, in insertion order.
    pub closed spec fn records(&self) -> Seq<ManagedTenant> {
        self.tenants@
    }

    /// Create new in-memory store.
    pub fn new() -> (s: Self)
        ensures
            s.records() == Seq::<ManagedTenant>::empty(),
    {
        InMemoryManagedTenantStore { tenants: Vec::new() }
    }

    fn position_of_id(&self, id: &str) -> (res: Option<usize>)
        ensures
            match res {
                Some(i) => index_of_id(self.records(), id@) == Some(i as int) && i < self.records().len()
                    && self.records()[i as int].tenant.id@ == id@,
                None => index_of_id(self.records(), id@) is None,
            },
    {
        let mut i: usize = 0;
        while i < self.tenants.len()
            invariant
                i <= self.tenants.len(),
                forall|j: int| 0 <= j < i ==> (#[trigger] self.tenants@[j]).tenant.id@ != id@,
            decreases self.tenants.len() - i,
        {
            if crate::keyed_map::str_equal(self.tenants[i].tenant.id.as_str(), id) {
                proof {
                    let s = self.tenants@;
                    assert(0 <= i < s.len() && s[i as int].tenant.id@ == id@);
                    let k = choose|k: int|
                        0 <= k < s.len() && (#[trigger] s[k]).tenant.id@ == id@ && forall|j: int|
                            0 <= j < k ==> (#[trigger] s[j]).tenant.id@ != id@;
                    assert(k == i);
                }
                return Some(i);
            }
            i = i + 1;
        }
        None
    }

    fn position_of_slug(&self, slug: &str) -> (res: Option<usize>)
        ensures
            match res {
                Some(i) => index_of_slug(self.records(), slug@) == Some(i as int) && i < self.records().len(),
                None => index_of_slug(self.records(), slug@) is None,
            },
    {
        let mut i: usize = 0;
        while i < self.tenants.len()
            invariant
                i <= self.tenants.len(),
                forall|j: int| 0 <= j < i ==> (#[trigger] self.tenants@[j]).tenant.name@ != slug@,
            decreases self.tenants.len() - i,
        {
            if crate::keyed_map::str_equal(self.tenants[i].tenant.name.as_str(), slug) {
                proof {
                    let s = self.tenants@;
                    assert(0 <= i < s.len() && s[i as int].tenant.name@ == slug@);
                    let k = choose|k: int|
                        0 <= k < s.len() && (#[trigger] s[k]).tenant.name@ == slug@ && forall|j: int|
                            0 <= j < k ==> (#[trigger] s[j]).tenant.name@ != slug@;
                    assert(k == i);
                }
                return Some(i);
            }
            i = i + 1;
        }
        None
    }

    /// Store a new record; refused when a record with the same id exists.
    pub fn create(&mut self, tenant: ManagedTenant) -> (res: Result<(), TenantError>)
        ensures
            index_of_id(old(self).records(), tenant.tenant.id@) is Some ==> (res matches Err(
                TenantError::Invalid(m),
            ) && m@ == "Tenant "@ + tenant.tenant.id@ + " already exists"@ && final(self).records()
                == old(self).records()),
            index_of_id(old(self).records(), tenant.tenant.id@) is None ==> (res is Ok
                && final(self).records() == old(self).records().push(tenant)),
    {
        match self.position_of_id(tenant.tenant.id.as_str()) {
            Some(_) => Err(
                TenantError::Invalid(
                    concat3("Tenant ", tenant.tenant.id.as_str(), " already exists"),
                ),
            ),
            None => {
                self.tenants.push(tenant);
                Ok(())
            },
        }
    }

    /// The record with tenant id `id`.
    pub fn get(&self, id: &str) -> (res: Option<&ManagedTenant>)
        ensures
            match index_of_id(self.records(), id@) {
                Some(i) => res == Some(&self.records()[i]),
                None => res is None,
            },
    {
        match self.position_of_id(id) {
            Some(i) => Some(&self.tenants[i]),
            None => None,
        }
    }

    /// The first record whose tenant slug is `slug`.
    pub fn get_by_slug(&self, slug: &str) -> (res: Option<&ManagedTenant>)
        ensures
            match index_of_slug(self.records(), slug@) {
                Some(i) => res == Some(&self.records()[i]),
                None => res is None,
            },
    {
        match self.position_of_slug(slug) {
            Some(i) => Some(&self.tenants[i]),
            None => None,
        }
    }

    /// Replace the record with the same tenant id; `NotFound` when there is none.
    pub fn update(&mut self, tenant: ManagedTenant) -> (res: Result<(), TenantError>)
        ensures
            match index_of_id(old(self).records(), tenant.tenant.id@) {
                Some(i) => res is Ok && final(self).records() == old(self).records().update(i, tenant),
                None => res matches Err(TenantError::NotFound(m)) && m@ == tenant.tenant.id@
                    && final(self).records() == old(self).records(),
            },
    {
        match self.position_of_id(tenant.tenant.id.as_str()) {
            Some(i) => {
                self.tenants.set(i, tenant);
                Ok(())
            },
            None => Err(TenantError::NotFound(tenant.tenant.id.clone())),
        }
    }

    /// Remove every record with tenant id `id`.
    pub fn delete(&mut self, id: &str)
        ensures
            final(self).records() == old(self).records().filter(
                |t: ManagedTenant| t.tenant.id@ != id@,
            ),
    {
        let ghost pred = |t: ManagedTenant| t.tenant.id@ != id@;
        let mut old_tenants: Vec<ManagedTenant> = Vec::new();
        std::mem::swap(&mut old_tenants, &mut self.tenants);
        let ghost src = old_tenants@;
        proof {
            reveal_with_fuel(Seq::<_>::filter, 1);
            assert(src.take(0).filter(pred) =~= Seq::<ManagedTenant>::empty());
        }
        for t in it: old_tenants.into_iter()
            invariant
                it.seq() == src,
                pred == (|t: ManagedTenant| t.tenant.id@ != id@),
                self.tenants@ == src.take(it.index() as int).filter(pred),
        {
            let ghost idx = it.index();
            proof {
                assert(src.take(idx + 1).drop_last() =~= src.take(idx as int));
                assert(src.take(idx + 1).last() == t);
            }
            if !crate::keyed_map::str_equal(t.tenant.id.as_str(), id) {
                self.tenants.push(t);
            }
            proof {
                reveal_with_fuel(Seq::<_>::filter, 1);
                assert(self.tenants@ =~= src.take(idx + 1).filter(pred));
            }
        }
        proof {
            assert(src.take(src.len() as int) =~= src);
        }
    }

    /// The records matching `filter`, newest first, from `filter.offset`, at
    /// most `filter.limit` of them.
    pub fn list(&self, filter: &TenantFilter) -> (res: Vec<&ManagedTenant>)
        requires
            filter.offset + filter.limit <= u64::MAX,
        ensures
            derefs(res@) == listing(self.records(), *filter),
    {
        let ghost pred = |t: ManagedTenant| filter_matches(*filter, t);
        let ghost recs = self.tenants@;
        // Matching records, in store order.
        let mut matched: Vec<&ManagedTenant> = Vec::new();
        let mut i: usize = 0;
        proof {
            reveal_with_fuel(Seq::<_>::filter, 1);
            assert(recs.take(0).filter(pred) =~= Seq::<ManagedTenant>::empty());
            assert(derefs(matched@) =~= Seq::<ManagedTenant>::empty());
        }
        while i < self.tenants.len()
            invariant
                recs == self.tenants@,
                i <= self.tenants.len(),
                pred == (|t: ManagedTenant| filter_matches(*filter, t)),
                derefs(matched@) == recs.take(i as int).filter(pred),
            decreases self.tenants.len() - i,
        {
            proof {
                assert(recs.take(i + 1).drop_last() =~= recs.take(i as int));
                assert(recs.take(i + 1).last() == recs[i as int]);
            }
            let ghost before = matched@;
            if filter_accepts(filter, &self.tenants[i]) {
                matched.push(&self.tenants[i]);
            }
            proof {
                reveal_with_fuel(Seq::<_>::filter, 1);
                assert(derefs(matched@) =~= recs.take(i + 1).filter(pred));
            }
            i = i + 1;
        }
        proof {
            assert(recs.take(recs.len() as int) =~= recs);
        }
        // Newest first, stable.
        let mut sorted: Vec<&ManagedTenant> = Vec::new();
        let mut k: usize = 0;
        let ghost ms = derefs(matched@);
        proof {
            assert(ms.take(0) =~= Seq::<ManagedTenant>::empty());
            assert(derefs(sorted@) =~= Seq::<ManagedTenant>::empty());
        }
        while k < matched.len()
            invariant
                ms == derefs(matched@),
                k <= matched.len(),
                derefs(sorted@) == newest_first(ms.take(k as int)),
                sorted@.len() == k,
            decreases matched.len() - k,
        {
            let x = matched[k];
            let mut pos: usize = 0;
            while pos < sorted.len() && !is_earlier(sorted[pos].created_at, x.created_at)
                invariant
                    pos <= sorted.len(),
                    forall|j: int| 0 <= j < pos ==> !earlier(#[trigger] derefs(sorted@)[j].created_at, x.created_at),
                decreases sorted.len() - pos,
            {
                pos = pos + 1;
            }
            proof {
                lemma_insert_by_age_position(derefs(sorted@), *x, pos as int);
                assert(ms.take(k + 1).drop_last() =~= ms.take(k as int));
                assert(ms.take(k + 1).last() == *x);
            }
            let ghost before = sorted@;
            sorted.insert(pos, x);
            proof {
                assert(derefs(sorted@) =~= derefs(before).insert(pos as int, *x));
            }
            k = k + 1;
        }
        proof {
            assert(ms.take(ms.len() as int) =~= ms);
        }
        // Pagination.
        let n = sorted.len();
        let start: usize = if filter.offset < n as u64 {
            filter.offset as usize
        } else {
            n
        };
        let end: usize = if filter.offset + filter.limit < n as u64 {
            (filter.offset + filter.limit) as usize
        } else {
            n
        };
        let mut out: Vec<&ManagedTenant> = Vec::new();
        let mut j: usize = start;
        let ghost sd = derefs(sorted@);
        while j < end
            invariant
                sd == derefs(sorted@),
                start <= j <= end <= sorted.len(),
                derefs(out@) == sd.subrange(start as int, j as int),
            decreases end - j,
        {
            let ghost before = out@;
            let r = sorted[j];
            out.push(r);
            proof {
                assert(*r == sd[j as int]);
                assert(derefs(out@) =~= derefs(before).push(*r));
                assert(sd.subrange(start as int, j + 1) =~= sd.subrange(start as int, j as int).push(sd[j as int]));
            }
            j = j + 1;
        }
        proof {
            assert(derefs(out@) =~= listing(self.records(), *filter));
        }
        out
    }

    /// Number of records matching `filter`, ignoring pagination.
    pub fn count(&self, filter: &TenantFilter) -> (n: u64)
        ensures
            n == matching(self.records(), *filter).len(),
    {
        let ghost pred = |t: ManagedTenant| filter_matches(*filter, t);
        let ghost recs = self.tenants@;
        let mut n: u64 = 0;
        let mut i: usize = 0;
        proof {
            reveal_with_fuel(Seq::<_>::filter, 1);
            assert(recs.take(0).filter(pred) =~= Seq::<ManagedTenant>::empty());
        }
        while i < self.tenants.len()
            invariant
                recs == self.tenants@,
                i <= self.tenants.len(),
                pred == (|t: ManagedTenant| filter_matches(*filter, t)),
                n == recs.take(i as int).filter(pred).len(),
                n <= i,
            decreases self.tenants.len() - i,
        {
            proof {
                assert(recs.take(i + 1).drop_last() =~= recs.take(i as int));
                assert(recs.take(i + 1).last() == recs[i as int]);
                reveal_with_fuel(Seq::<_>::filter, 1);
            }
            if filter_accepts(filter, &self.tenants[i]) {
                n = n + 1;
            }
            i = i + 1;
        }
        proof {
            assert(recs.take(recs.len() as int) =~= recs);
        }
        n
    }

    /// Replace the usage of the record with tenant id `id`, stamping it with
    /// the current time; `NotFound` when there is none.
    #[verifier::rlimit(50)]
    pub fn update_usage(&mut self, id: &str, usage: TenantUsage) -> (res: Result<(), TenantError>)
        ensures
            match index_of_id(old(self).records(), id@) {
                Some(i) => res is Ok && final(self).records() == old(self).records().update(
                    i,
                    final(self).records()[i],
                ) && is_usage_update(final(self).records()[i], old(self).records()[i], usage),
                None => res matches Err(TenantError::NotFound(m)) && m@ == id@ && final(self).records()
                    == old(self).records(),
            },
    {
        match self.position_of_id(id) {
            Some(i) => {
                let ghost before = self.tenants@;
                let t = self.tenants.remove(i);
                let ghost t0 = t;
                let t = ManagedTenant { usage: TenantUsage { last_updated: Some(now()), ..usage }, ..t };
                assert(is_usage_update(t, t0, usage));
                self.tenants.insert(i, t);
                proof {
                    assert(self.tenants@ =~= before.update(i as int, t));
                }
                Ok(())
            },
            None => Err(TenantError::NotFound(id.to_owned())),
        }
    }
}

// ---------------------------------------------------------------------------
// Laws of the store
// ---------------------------------------------------------------------------

/// The store never holds two records with the same tenant id: `create`
/// refuses a duplicate, `update` and `update_usage` keep every id, and
/// `delete` only removes records.
pub proof fn lemma_store_ids_stay_distinct(
    before: Seq<ManagedTenant>,
    t: ManagedTenant,
    i: int,
    id: Seq<char>,
)
    requires
        ids_distinct(before),
    ensures
        index_of_id(before, t.tenant.id@) is None ==> ids_distinct(before.push(t)),
        (0 <= i < before.len() && before[i].tenant.id@ == t.tenant.id@) ==> ids_distinct(
            before.update(i, t),
        ),
        ids_distinct(before.filter(|r: ManagedTenant| r.tenant.id@ != id)),
{
    if index_of_id(before, t.tenant.id@) is None {
        let s = before.push(t);
        assert forall|a: int, b: int| 0 <= a < b < s.len() implies (#[trigger] s[a]).tenant.id@
            != (#[trigger] s[b]).tenant.id@ by {
            if b == before.len() {
                assert(s[a] == before[a]);
                if before[a].tenant.id@ == t.tenant.id@ {
                    assert(exists|k: int| 0 <= k < before.len() && (#[trigger] before[k]).tenant.id@ == t.tenant.id@);
                }
            } else {
                assert(s[a] == before[a] && s[b] == before[b]);
            }
        }
    }
    if 0 <= i < before.len() && before[i].tenant.id@ == t.tenant.id@ {
        let s = before.update(i, t);
        assert forall|a: int, b: int| 0 <= a < b < s.len() implies (#[trigger] s[a]).tenant.id@
            != (#[trigger] s[b]).tenant.id@ by {
            assert(s[a].tenant.id@ == before[a].tenant.id@);
            assert(s[b].tenant.id@ == before[b].tenant.id@);
        }
    }
    lemma_filter_keeps_distinct(before, id);
}

/// What the store reads back after a write: a record stored by `create`
/// under a fresh id is what `get` finds under that id (and what
/// `get_by_slug` finds under its slug, when no stored record had that slug);
/// after `update` the id finds the new record in the same place; after
/// `delete(id)` neither the id nor the slug of a deleted record finds
/// anything (the slug can be reused).
pub proof fn lemma_store_read_after_write(
    before: Seq<ManagedTenant>,
    t: ManagedTenant,
    i: int,
    id: Seq<char>,
    slug: Seq<char>,
)
    ensures
        index_of_id(before, t.tenant.id@) is None ==> (index_of_id(before.push(t), t.tenant.id@)
            == Some(before.len() as int) && before.push(t)[before.len() as int] == t),
        index_of_slug(before, t.tenant.name@) is None ==> index_of_slug(before.push(t), t.tenant.name@)
            == Some(before.len() as int),
        index_of_id(before, t.tenant.id@) == Some(i) ==> (index_of_id(before.update(i, t), t.tenant.id@)
            == Some(i) && before.update(i, t)[i] == t),
        index_of_id(before.filter(|r: ManagedTenant| r.tenant.id@ != id), id) is None,
        (forall|k: int| 0 <= k < before.len() && (#[trigger] before[k]).tenant.name@ == slug ==> before[k].tenant.id@
            == id) ==> index_of_slug(before.filter(|r: ManagedTenant| r.tenant.id@ != id), slug) is None,
{
    if index_of_id(before, t.tenant.id@) is None {
        lemma_push_is_found(before, t);
    }
    if index_of_slug(before, t.tenant.name@) is None {
        lemma_push_slug_is_found(before, t);
    }
    if index_of_id(before, t.tenant.id@) == Some(i) {
        lemma_update_is_found(before, t, i);
    }
    lemma_delete_forgets(before, id, slug);
}

proof fn lemma_push_is_found(before: Seq<ManagedTenant>, t: ManagedTenant)
    requires
        index_of_id(before, t.tenant.id@) is None,
    ensures
        index_of_id(before.push(t), t.tenant.id@) == Some(before.len() as int),
        before.push(t)[before.len() as int] == t,
{
    let key = t.tenant.id@;
    let s = before.push(t);
    assert(s[before.len() as int] == t);
    assert forall|j: int| 0 <= j < before.len() implies (#[trigger] s[j]).tenant.id@ != key by {
        assert(s[j] == before[j]);
        if before[j].tenant.id@ == key {
            assert(exists|k: int| 0 <= k < before.len() && (#[trigger] before[k]).tenant.id@ == key);
        }
    }
    assert(exists|k: int| 0 <= k < s.len() && (#[trigger] s[k]).tenant.id@ == key);
}

/// A record with id `id` at `k` means a first such record at or before `k`.
proof fn lemma_first_id_witness(s: Seq<ManagedTenant>, id: Seq<char>, k: int)
    requires
        0 <= k < s.len(),
        s[k].tenant.id@ == id,
    ensures
        exists|i: int|
            0 <= i <= k && (#[trigger] s[i]).tenant.id@ == id && forall|j: int|
                0 <= j < i ==> (#[trigger] s[j]).tenant.id@ != id,
    decreases k,
{
    if exists|j: int| 0 <= j < k && (#[trigger] s[j]).tenant.id@ == id {
        let j = choose|j: int| 0 <= j < k && (#[trigger] s[j]).tenant.id@ == id;
        lemma_first_id_witness(s, id, j);
    } else {
        assert(forall|j: int| 0 <= j < k ==> (#[trigger] s[j]).tenant.id@ != id);
    }
}

/// `index_of_id` is the first index holding the id, when there is one.
proof fn lemma_index_of_id(s: Seq<ManagedTenant>, id: Seq<char>)
    ensures
        index_of_id(s, id) matches Some(i) ==> (0 <= i < s.len() && s[i].tenant.id@ == id && forall|j: int|
            0 <= j < i ==> (#[trigger] s[j]).tenant.id@ != id),
        index_of_id(s, id) is None ==> forall|j: int| 0 <= j < s.len() ==> (#[trigger] s[j]).tenant.id@ != id,
{
    if exists|k: int| 0 <= k < s.len() && (#[trigger] s[k]).tenant.id@ == id {
        let k = choose|k: int| 0 <= k < s.len() && (#[trigger] s[k]).tenant.id@ == id;
        lemma_first_id_witness(s, id, k);
    }
}

proof fn lemma_push_slug_is_found(before: Seq<ManagedTenant>, t: ManagedTenant)
    requires
        index_of_slug(before, t.tenant.name@) is None,
    ensures
        index_of_slug(before.push(t), t.tenant.name@) == Some(before.len() as int),
{
    let slug = t.tenant.name@;
    let s = before.push(t);
    assert(s[before.len() as int] == t);
    assert forall|j: int| 0 <= j < before.len() implies (#[trigger] s[j]).tenant.name@ != slug by {
        assert(s[j] == before[j]);
        if before[j].tenant.name@ == slug {
            assert(exists|k: int| 0 <= k < before.len() && (#[trigger] before[k]).tenant.name@ == slug);
        }
    }
    assert(exists|k: int| 0 <= k < s.len() && (#[trigger] s[k]).tenant.name@ == slug);
}

proof fn lemma_update_is_found(before: Seq<ManagedTenant>, t: ManagedTenant, i: int)
    requires
        index_of_id(before, t.tenant.id@) == Some(i),
    ensures
        index_of_id(before.update(i, t), t.tenant.id@) == Some(i),
        before.update(i, t)[i] == t,
{
    let key = t.tenant.id@;
    lemma_index_of_id(before, key);
    let s = before.update(i, t);
    assert forall|j: int| 0 <= j < i implies (#[trigger] s[j]).tenant.id@ != key by {
        assert(s[j] == before[j]);
    }
    assert(s[i] == t);
    assert(exists|k: int| 0 <= k < s.len() && (#[trigger] s[k]).tenant.id@ == key);
}

proof fn lemma_delete_forgets(before: Seq<ManagedTenant>, id: Seq<char>, slug: Seq<char>)
    ensures
        index_of_id(before.filter(|r: ManagedTenant| r.tenant.id@ != id), id) is None,
        (forall|k: int| 0 <= k < before.len() && (#[trigger] before[k]).tenant.name@ == slug ==> before[k].tenant.id@
            == id) ==> index_of_slug(before.filter(|r: ManagedTenant| r.tenant.id@ != id), slug) is None,
{
    let pred = |r: ManagedTenant| r.tenant.id@ != id;
    let f = before.filter(pred);
    assert forall|k: int| 0 <= k < f.len() implies (#[trigger] f[k]).tenant.id@ != id by {
        before.lemma_filter_pred(pred, k);
    }
    if forall|k: int| 0 <= k < before.len() && (#[trigger] before[k]).tenant.name@ == slug ==> before[k].tenant.id@
        == id {
        assert forall|k: int| 0 <= k < f.len() implies (#[trigger] f[k]).tenant.name@ != slug by {
            before.lemma_filter_pred(pred, k);
            assert(f.contains(f[k]));
            lemma_filter_within(before, pred, f[k]);
            let w = choose|w: int| 0 <= w < before.len() && before[w] == f[k];
            assert(before[w].tenant.name@ == f[k].tenant.name@);
        }
    }
}

/// Every element of a filtered sequence is an element of the sequence.
proof fn lemma_filter_within<A>(s: Seq<A>, pred: spec_fn(A) -> bool, x: A)
    requires
        s.filter(pred).contains(x),
    ensures
        s.contains(x),
    decreases s.len(),
{
    reveal_with_fuel(Seq::<_>::filter, 1);
    if s.len() > 0 {
        let t = s.drop_last();
        let ft = t.filter(pred);
        if ft.contains(x) {
            lemma_filter_within(t, pred, x);
            let k = choose|k: int| 0 <= k < t.len() && t[k] == x;
            assert(s[k] == x);
        } else {
            assert(x == s.last());
            assert(s[s.len() - 1] == x);
        }
    }
}

proof fn lemma_filter_keeps_distinct(s: Seq<ManagedTenant>, id: Seq<char>)
    requires
        ids_distinct(s),
    ensures
        ids_distinct(s.filter(|r: ManagedTenant| r.tenant.id@ != id)),
    decreases s.len(),
{
    reveal_with_fuel(Seq::<_>::filter, 1);
    let pred = |r: ManagedTenant| r.tenant.id@ != id;
    if s.len() > 0 {
        let t = s.drop_last();
        assert forall|a: int, b: int| 0 <= a < b < t.len() implies (#[trigger] t[a]).tenant.id@
            != (#[trigger] t[b]).tenant.id@ by {
            assert(t[a] == s[a] && t[b] == s[b]);
        }
        lemma_filter_keeps_distinct(t, id);
        let ft = t.filter(pred);
        if pred(s.last()) {
            let f = ft.push(s.last());
            assert forall|a: int, b: int| 0 <= a < b < f.len() implies (#[trigger] f[a]).tenant.id@
                != (#[trigger] f[b]).tenant.id@ by {
                if b == ft.len() {
                    assert(f[a] == ft[a]);
                    assert(ft.contains(ft[a]));
                    lemma_filter_within(t, pred, ft[a]);
                    let k = choose|k: int| 0 <= k < t.len() && t[k] == ft[a];
                    assert(s[k] == t[k]);
                    assert(s[s.len() - 1] == s.last());
                } else {
                    assert(f[a] == ft[a] && f[b] == ft[b]);
                }
            }
        }
    }
}


// ---------------------------------------------------------------------------
// Record transitions
// ---------------------------------------------------------------------------

/// `new` is `old` suspended for `reason` (and inactive), stamped anew.
pub open spec fn is_suspension(new: ManagedTenant, old: ManagedTenant, reason: Seq<char>) -> bool {
    &&& new == (ManagedTenant {
        status: TenantStatus::Suspended,
        suspension_reason: new.suspension_reason,
        tenant: Tenant { active: false, ..old.tenant },
        updated_at: new.updated_at,
        ..old
    })
    &&& new.suspension_reason matches Some(r) && r@ == reason
}

/// `new` is `old` active again, with no suspension reason, stamped anew.
pub open spec fn is_activation(new: ManagedTenant, old: ManagedTenant) -> bool {
    new == (ManagedTenant {
        status: TenantStatus::Active,
        suspension_reason: None,
        tenant: Tenant { active: true, ..old.tenant },
        updated_at: new.updated_at,
        ..old
    })
}

/// `new` is `old` marked as terminating, stamped anew.
pub open spec fn is_marked_terminating(new: ManagedTenant, old: ManagedTenant) -> bool {
    new == (ManagedTenant { status: TenantStatus::Terminating, updated_at: new.updated_at, ..old })
}

/// `new` is `old` terminated for `reason` (and inactive), stamped anew.
pub open spec fn is_termination(new: ManagedTenant, old: ManagedTenant, reason: Seq<char>) -> bool {
    &&& new == (ManagedTenant {
        status: TenantStatus::Terminated,
        suspension_reason: new.suspension_reason,
        tenant: Tenant { active: false, ..old.tenant },
        updated_at: new.updated_at,
        ..old
    })
    &&& new.suspension_reason matches Some(r) && r@ == reason
}

/// `new` is `old` changed as `req` asks: a new display name (never the slug),
/// domain, plan (with that plan's limits unless limits are given), metadata
/// merged in, limits; everything else kept, stamped anew.
pub open spec fn is_update(new: ManagedTenant, old: ManagedTenant, req: UpdateTenantRequest) -> bool {
    &&& new.tenant == (Tenant {
        display_name: match req.display_name {
            Some(n) => Some(n),
            None => old.tenant.display_name,
        },
        domain: match req.domain {
            Some(d) => d,
            None => old.tenant.domain,
        },
        metadata: new.tenant.metadata,
        ..old.tenant
    })
    &&& new.tenant.metadata@ == match req.metadata {
        Some(md) => old.tenant.metadata@.union_prefer_right(md@),
        None => old.tenant.metadata@,
    }
    &&& new.plan == match req.plan {
        Some(p) => p,
        None => old.plan,
    }
    &&& match req.limits {
        Some(l) => new.limits == l,
        None => match req.plan {
            Some(p) => is_plan_limits(new.limits, p),
            None => new.limits == old.limits,
        },
    }
    &&& new == (ManagedTenant {
        tenant: new.tenant,
        plan: new.plan,
        limits: new.limits,
        updated_at: new.updated_at,
        ..old
    })
}

/// Applies an update request to a record, stamping it with the current time.
pub fn apply_update(managed: ManagedTenant, request: UpdateTenantRequest) -> (res: ManagedTenant)
    ensures
        is_update(res, managed, request),
{
    let ghost req = request;
    let ghost old_meta = managed.tenant.metadata@;
    let UpdateTenantRequest { display_name, domain, plan, metadata, limits } = request;
    let ManagedTenant {
        tenant,
        status,
        plan: old_plan,
        limits: old_limits,
        usage,
        owner_id,
        created_at,
        updated_at: _,
        suspension_reason,
    } = managed;
    let Tenant {
        id,
        name,
        display_name: old_display_name,
        domain: old_domain,
        database,
        schema,
        active,
        metadata: mut meta,
    } = tenant;
    let new_display_name = match display_name {
        Some(n) => Some(n),
        None => old_display_name,
    };
    let new_domain = match domain {
        Some(d) => d,
        None => old_domain,
    };
    let new_plan = match plan {
        Some(p) => p,
        None => old_plan,
    };
    let new_limits = match limits {
        Some(l) => l,
        None => match plan {
            Some(p) => TenantLimits::for_plan(p),
            None => old_limits,
        },
    };
    match metadata {
        Some(md) => meta.extend(md),
        None => {},
    }
    let t = Tenant {
        id,
        name,
        display_name: new_display_name,
        domain: new_domain,
        database,
        schema,
        active,
        metadata: meta,
    };
    ManagedTenant {
        tenant: t,
        status,
        plan: new_plan,
        limits: new_limits,
        usage,
        owner_id,
        created_at,
        updated_at: now(),
        suspension_reason,
    }
}

/// `m` is the record that `create` builds for `req` (with some fresh id):
/// the requested slug, display name, domain, metadata, plan, owner and limits
/// (the plan's limits unless custom ones are given), provisioning, no usage.
pub open spec fn is_requested_record(m: ManagedTenant, req: CreateTenantRequest) -> bool {
    &&& m.tenant.name@ == req.slug@
    &&& m.tenant.display_name == req.display_name
    &&& m.tenant.domain == req.domain
    &&& m.tenant.database is None
    &&& m.tenant.schema is None
    &&& m.tenant.active
    &&& m.tenant.metadata@ == req.metadata@
    &&& m.status == TenantStatus::Provisioning
    &&& m.plan == req.plan
    &&& match req.custom_limits {
        Some(l) => m.limits == l,
        None => is_plan_limits(m.limits, req.plan),
    }
    &&& is_zero_usage(m.usage)
    &&& m.owner_id == req.owner_id
    &&& m.created_at == m.updated_at
    &&& m.suspension_reason is None
}

fn record_for_request(request: CreateTenantRequest, id: &str) -> (m: ManagedTenant)
    ensures
        is_requested_record(m, request),
        m.tenant.id@ == id@,
{
    let ghost req = request;
    let CreateTenantRequest { slug, display_name, domain, plan, owner_id, metadata, custom_limits } =
        request;
    let mut tenant = Tenant::new(id, slug.as_str());
    tenant.display_name = display_name;
    tenant.domain = domain;
    let ghost empty = tenant.metadata@;
    tenant.metadata.extend(metadata);
    proof {
        assert(tenant.metadata@ =~= req.metadata@);
    }
    let mut managed = ManagedTenant::from_tenant(tenant, plan);
    managed.owner_id = owner_id;
    match custom_limits {
        Some(l) => {
            managed.limits = l;
        },
        None => {},
    }
    managed
}

// ---------------------------------------------------------------------------
// Lifecycle operations as step functions
// ---------------------------------------------------------------------------

/// Provisioner that provisions nothing: every provisioning hook succeeds
/// without doing anything.
#[derive(Debug, Clone, Default)]
pub struct NoOpProvisioner;

/// What a lifecycle operation asks its driver to do next. The answer is fed
/// back to `advance` as `Ok(Some(record))` / `Ok(None)` for lookups,
/// `Ok(None)` for a completed action, or the error that occurred.
#[derive(Clone, Copy, Debug, PartialEq, Eq, Structural)]
pub enum StepEffect {
    /// Look a record up by slug (`key()`).
    FindBySlug,
    /// Look a record up by id (`key()`).
    Find,
    /// Store the new record (`record()`).
    Insert,
    /// Replace the stored record by `record()`.
    Save,
    /// Delete the record with id `key()`.
    Remove,
    /// Provision resources for `record()`.
    Provision,
    /// Release the resources of `record()`.
    Deprovision,
    /// Suspend the resources of `record()`.
    SuspendResources,
    /// Resume the resources of `record()`.
    ResumeResources,
    /// The operation is over; take its result.
    Done,
}

/// Where a `create` stands.
#[derive(Clone, Copy, Debug, PartialEq, Eq, Structural)]
pub enum CreateStage {
    CheckSlug,
    Insert,
    Provision,
    Activate,
    Rollback,
    Finished,
}

pub open spec fn create_effect(stage: CreateStage) -> StepEffect {
    match stage {
        CreateStage::CheckSlug => StepEffect::FindBySlug,
        CreateStage::Insert => StepEffect::Insert,
        CreateStage::Provision => StepEffect::Provision,
        CreateStage::Activate => StepEffect::Save,
        CreateStage::Rollback => StepEffect::Remove,
        CreateStage::Finished => StepEffect::Done,
    }
}

/// Creating a tenant: check that the slug is free, build and store the
/// record, provision it, then mark it active. When provisioning fails, the
/// stored record is deleted again (so the slug can be reused) and the
/// provisioning error is the result.
pub struct CreateFlow {
    stage: CreateStage,
    slug: String,
    request: Option<CreateTenantRequest>,
    record: Option<ManagedTenant>,
    error: Option<TenantError>,
}

impl CreateFlow {
    pub closed spec fn spec_stage(&self) -> CreateStage {
        self.stage
    }

    pub closed spec fn spec_slug(&self) -> Seq<char> {
        self.slug@
    }

    pub closed spec fn spec_request(&self) -> Option<CreateTenantRequest> {
        self.request
    }

    pub closed spec fn spec_record(&self) -> Option<ManagedTenant> {
        self.record
    }

    pub closed spec fn spec_error(&self) -> Option<TenantError> {
        self.error
    }

    /// The flow's internal consistency: a request until the record is built,
    /// a record from then on, and an error only once it is pending or final.
    pub closed spec fn wf(&self) -> bool {
        &&& (self.stage == CreateStage::CheckSlug ==> self.request is Some && self.record is None)
        &&& (self.stage == CreateStage::Insert || self.stage == CreateStage::Provision || self.stage
            == CreateStage::Activate || self.stage == CreateStage::Rollback) ==> self.record is Some
        &&& (self.stage != CreateStage::Finished && self.stage != CreateStage::Rollback) ==> self.error is None
        &&& self.stage == CreateStage::Rollback ==> self.error is Some
        &&& self.stage == CreateStage::Finished ==> self.error is Some || self.record is Some
    }

    /// Start creating the tenant that `request` describes.
    pub fn start(request: CreateTenantRequest) -> (f: Self)
        ensures
            f.spec_stage() == CreateStage::CheckSlug,
            f.spec_slug() == request.slug@,
            f.spec_request() == Some(request),
            f.spec_record() is None,
            f.spec_error() is None,
            f.wf(),
    {
        let slug = request.slug.clone();
        CreateFlow { stage: CreateStage::CheckSlug, slug, request: Some(request), record: None, error: None }
    }

    /// What the driver does next.
    pub fn effect(&self) -> (e: StepEffect)
        ensures
            e == create_effect(self.spec_stage()),
    {
        match self.stage {
            CreateStage::CheckSlug => StepEffect::FindBySlug,
            CreateStage::Insert => StepEffect::Insert,
            CreateStage::Provision => StepEffect::Provision,
            CreateStage::Activate => StepEffect::Save,
            CreateStage::Rollback => StepEffect::Remove,
            CreateStage::Finished => StepEffect::Done,
        }
    }

    /// The key of the next lookup or deletion: the slug before the record
    /// exists, the record's id afterwards.
    pub fn key(&self) -> (k: &str)
        ensures
            match self.spec_record() {
                Some(m) => k@ == m.tenant.id@,
                None => k@ == self.spec_slug(),
            },
    {
        match &self.record {
            Some(m) => m.tenant.id.as_str(),
            None => self.slug.as_str(),
        }
    }

    /// The record being created, once built.
    pub fn record(&self) -> (r: Option<&ManagedTenant>)
        ensures
            match self.spec_record() {
                Some(m) => r == Some(&m),
                None => r is None,
            },
    {
        match &self.record {
            Some(m) => Some(m),
            None => None,
        }
    }

    /// Feed the answer to the current effect.
    pub fn advance(&mut self, answer: Result<Option<ManagedTenant>, TenantError>)
        requires
            old(self).wf(),
        ensures
            final(self).wf(),
            old(self).spec_slug() == final(self).spec_slug(),
            match old(self).spec_stage() {
                CreateStage::CheckSlug => match answer {
                    Err(e) => final(self).spec_stage() == CreateStage::Finished && final(self).spec_error()
                        == Some(e) && final(self).spec_record() is None,
                    Ok(Some(_)) => final(self).spec_stage() == CreateStage::Finished
                        && final(self).spec_record() is None && (final(self).spec_error() matches Some(
                        TenantError::Invalid(m),
                    ) && m@ == "Tenant slug '"@ + old(self).spec_slug() + "' already exists"@),
                    Ok(None) => (final(self).spec_stage()
                        == CreateStage::Insert && final(self).spec_error() is None && (final(self).spec_record() matches Some(m) && is_requested_record(
                        m,
                        old(self).spec_request()->0,
                    ) && is_uuid_v4_text(m.tenant.id@))),
                },
                CreateStage::Insert => match answer {
                    Err(e) => final(self).spec_stage() == CreateStage::Finished && final(self).spec_error()
                        == Some(e) && final(self).spec_record() == old(self).spec_record(),
                    Ok(_) => final(self).spec_stage() == CreateStage::Provision && final(self).spec_error()
                        is None && final(self).spec_record() == old(self).spec_record(),
                },
                CreateStage::Provision => match answer {
                    Err(e) => final(self).spec_stage() == CreateStage::Rollback && final(self).spec_error()
                        == Some(e) && final(self).spec_record() == old(self).spec_record(),
                    Ok(_) => final(self).spec_stage() == CreateStage::Activate && final(self).spec_error()
                        is None && (final(self).spec_record() matches Some(n) && n == (ManagedTenant {
                        status: TenantStatus::Active,
                        updated_at: n.updated_at,
                        ..old(self).spec_record()->0
                    })),
                },
                CreateStage::Activate => match answer {
                    Err(e) => final(self).spec_stage() == CreateStage::Finished && final(self).spec_error()
                        == Some(e) && final(self).spec_record() == old(self).spec_record(),
                    Ok(_) => final(self).spec_stage() == CreateStage::Finished && final(self).spec_error()
                        is None && final(self).spec_record() == old(self).spec_record(),
                },
                CreateStage::Rollback => match answer {
                    Err(e) => final(self).spec_stage() == CreateStage::Finished && final(self).spec_error()
                        == Some(e) && final(self).spec_record() == old(self).spec_record(),
                    Ok(_) => final(self).spec_stage() == CreateStage::Finished && final(self).spec_error()
                        == old(self).spec_error() && final(self).spec_record() == old(self).spec_record(),
                },
                CreateStage::Finished => final(self).spec_stage() == CreateStage::Finished
                    && final(self).spec_error() == old(self).spec_error() && final(self).spec_record()
                    == old(self).spec_record(),
            },
    {
        match self.stage {
            CreateStage::CheckSlug => match answer {
                Err(e) => {
                    self.error = Some(e);
                    self.stage = CreateStage::Finished;
                },
                Ok(Some(_)) => {
                    self.error = Some(
                        TenantError::Invalid(
                            concat3("Tenant slug '", self.slug.as_str(), "' already exists"),
                        ),
                    );
                    self.stage = CreateStage::Finished;
                },
                Ok(None) => {
                    match self.request.take() {
                        Some(request) => {
                            let id = new_tenant_id();
                            self.record = Some(record_for_request(request, id.as_str()));
                            self.stage = CreateStage::Insert;
                        },
                        None => {},
                    }
                },
            },
            CreateStage::Insert => match answer {
                Err(e) => {
                    self.error = Some(e);
                    self.stage = CreateStage::Finished;
                },
                Ok(_) => {
                    self.stage = CreateStage::Provision;
                },
            },
            CreateStage::Provision => match answer {
                Err(e) => {
                    self.error = Some(e);
                    self.stage = CreateStage::Rollback;
                },
                Ok(_) => {
                    match self.record.take() {
                        Some(m) => {
                            self.record = Some(
                                ManagedTenant { status: TenantStatus::Active, updated_at: now(), ..m },
                            );
                        },
                        None => {},
                    }
                    self.stage = CreateStage::Activate;
                },
            },
            CreateStage::Activate => match answer {
                Err(e) => {
                    self.error = Some(e);
                    self.stage = CreateStage::Finished;
                },
                Ok(_) => {
                    self.stage = CreateStage::Finished;
                },
            },
            CreateStage::Rollback => match answer {
                Err(e) => {
                    self.error = Some(e);
                    self.stage = CreateStage::Finished;
                },
                Ok(_) => {
                    self.stage = CreateStage::Finished;
                },
            },
            CreateStage::Finished => {},
        }
    }

    /// The result of a finished creation: the error if one occurred, the
    /// created record otherwise.
    pub fn into_result(self) -> (res: Result<ManagedTenant, TenantError>)
        requires
            self.wf(),
            self.spec_stage() == CreateStage::Finished,
        ensures
            match self.spec_error() {
                Some(e) => res == Err::<ManagedTenant, TenantError>(e),
                None => res == Ok::<ManagedTenant, TenantError>(self.spec_record()->0),
            },
    {
        match self.error {
            Some(e) => Err(e),
            None => Ok(self.record.unwrap()),
        }
    }
}

/// Which change to an existing tenant is under way.
#[derive(Clone, Copy, Debug, PartialEq, Eq, Structural)]
pub enum ChangeKind {
    Update,
    Suspend,
    Activate,
    Terminate,
    Delete,
}

/// Where a change stands.
#[derive(Clone, Copy, Debug, PartialEq, Eq, Structural)]
pub enum ChangeStage {
    Fetch,
    Hook,
    MarkTerminating,
    Deprovision,
    Save,
    Remove,
    Finished,
}

pub open spec fn change_effect(kind: ChangeKind, stage: ChangeStage) -> StepEffect {
    match stage {
        ChangeStage::Fetch => StepEffect::Find,
        ChangeStage::Hook => if kind == ChangeKind::Suspend {
            StepEffect::SuspendResources
        } else {
            StepEffect::ResumeResources
        },
        ChangeStage::MarkTerminating => StepEffect::Save,
        ChangeStage::Deprovision => StepEffect::Deprovision,
        ChangeStage::Save => StepEffect::Save,
        ChangeStage::Remove => StepEffect::Remove,
        ChangeStage::Finished => StepEffect::Done,
    }
}

/// The refusal for changing a record of status `status`, if any: terminated
/// tenants cannot be suspended, activated or terminated again, and only
/// terminated tenants can be deleted.
pub open spec fn refusal(kind: ChangeKind, status: TenantStatus) -> Option<Seq<char>> {
    match kind {
        ChangeKind::Suspend => if status == TenantStatus::Terminated {
            Some("Cannot suspend terminated tenant"@)
        } else {
            None
        },
        ChangeKind::Activate => if status == TenantStatus::Terminated {
            Some("Cannot activate terminated tenant"@)
        } else {
            None
        },
        ChangeKind::Terminate => if status == TenantStatus::Terminated {
            Some("Tenant already terminated"@)
        } else {
            None
        },
        ChangeKind::Delete => if status != TenantStatus::Terminated {
            Some("Tenant must be terminated before deletion"@)
        } else {
            None
        },
        ChangeKind::Update => None,
    }
}

/// A change to an existing tenant: update, suspend, activate, terminate or
/// delete. Each fetches the record by id, checks that the change is allowed,
/// runs the provisioner hook the change needs, and saves (or deletes) the
/// record.
pub struct ChangeFlow {
    kind: ChangeKind,
    stage: ChangeStage,
    id: String,
    reason: String,
    update: Option<UpdateTenantRequest>,
    record: Option<ManagedTenant>,
    error: Option<TenantError>,
}

impl ChangeFlow {
    pub closed spec fn spec_kind(&self) -> ChangeKind {
        self.kind
    }

    pub closed spec fn spec_stage(&self) -> ChangeStage {
        self.stage
    }

    pub closed spec fn spec_id(&self) -> Seq<char> {
        self.id@
    }

    pub closed spec fn spec_reason(&self) -> Seq<char> {
        self.reason@
    }

    pub closed spec fn spec_update(&self) -> Option<UpdateTenantRequest> {
        self.update
    }

    pub closed spec fn spec_record(&self) -> Option<ManagedTenant> {
        self.record
    }

    pub closed spec fn spec_error(&self) -> Option<TenantError> {
        self.error
    }

    /// The flow's internal consistency: an update request until it is
    /// applied, a record from the fetch on, and an error only once finished.
    pub closed spec fn wf(&self) -> bool {
        &&& self.stage == ChangeStage::Fetch ==> self.record is None && (self.kind == ChangeKind::Update
            ==> self.update is Some)
        &&& (self.stage == ChangeStage::Hook || self.stage == ChangeStage::MarkTerminating || self.stage
            == ChangeStage::Deprovision || self.stage == ChangeStage::Save || self.stage
            == ChangeStage::Remove) ==> self.record is Some
        &&& self.stage != ChangeStage::Finished ==> self.error is None
        &&& (self.stage == ChangeStage::Finished && self.error is None && self.kind
            != ChangeKind::Delete) ==> self.record is Some
    }

    /// A change that starts by fetching the record.
    pub open spec fn is_start(&self, kind: ChangeKind, id: Seq<char>) -> bool {
        &&& self.spec_kind() == kind
        &&& self.spec_stage() == ChangeStage::Fetch
        &&& self.spec_id() == id
        &&& self.spec_record() is None
        &&& self.spec_error() is None
    }

    fn begin(kind: ChangeKind, id: &str, reason: &str, update: Option<UpdateTenantRequest>) -> (f: Self)
        requires
            kind == ChangeKind::Update ==> update is Some,
        ensures
            f.wf(),
            f.is_start(kind, id@),
            f.spec_reason() == reason@,
            f.spec_update() == update,
    {
        ChangeFlow {
            kind,
            stage: ChangeStage::Fetch,
            id: id.to_owned(),
            reason: reason.to_owned(),
            update,
            record: None,
            error: None,
        }
    }

    /// Start updating tenant `id` as `request` asks.
    pub fn update(id: &str, request: UpdateTenantRequest) -> (f: Self)
        ensures
            f.wf(),
            f.is_start(ChangeKind::Update, id@),
            f.spec_update() == Some(request),
    {
        ChangeFlow::begin(ChangeKind::Update, id, "", Some(request))
    }

    /// Start suspending tenant `id` for `reason`.
    pub fn suspend(id: &str, reason: &str) -> (f: Self)
        ensures
            f.wf(),
            f.is_start(ChangeKind::Suspend, id@),
            f.spec_reason() == reason@,
    {
        ChangeFlow::begin(ChangeKind::Suspend, id, reason, None)
    }

    /// Start activating tenant `id`.
    pub fn activate(id: &str) -> (f: Self)
        ensures
            f.wf(),
            f.is_start(ChangeKind::Activate, id@),
    {
        ChangeFlow::begin(ChangeKind::Activate, id, "", None)
    }

    /// Start terminating tenant `id` for `reason`.
    pub fn terminate(id: &str, reason: &str) -> (f: Self)
        ensures
            f.wf(),
            f.is_start(ChangeKind::Terminate, id@),
            f.spec_reason() == reason@,
    {
        ChangeFlow::begin(ChangeKind::Terminate, id, reason, None)
    }

    /// Start deleting tenant `id` for good.
    pub fn delete(id: &str) -> (f: Self)
        ensures
            f.wf(),
            f.is_start(ChangeKind::Delete, id@),
    {
        ChangeFlow::begin(ChangeKind::Delete, id, "", None)
    }

    /// What the driver does next.
    pub fn effect(&self) -> (e: StepEffect)
        ensures
            e == change_effect(self.spec_kind(), self.spec_stage()),
    {
        match self.stage {
            ChangeStage::Fetch => StepEffect::Find,
            ChangeStage::Hook => if self.kind == ChangeKind::Suspend {
                StepEffect::SuspendResources
            } else {
                StepEffect::ResumeResources
            },
            ChangeStage::MarkTerminating => StepEffect::Save,
            ChangeStage::Deprovision => StepEffect::Deprovision,
            ChangeStage::Save => StepEffect::Save,
            ChangeStage::Remove => StepEffect::Remove,
            ChangeStage::Finished => StepEffect::Done,
        }
    }

    /// The id of the tenant changed.
    pub fn key(&self) -> (k: &str)
        ensures
            k@ == self.spec_id(),
    {
        self.id.as_str()
    }

    /// The record as it stands in the change.
    pub fn record(&self) -> (r: Option<&ManagedTenant>)
        ensures
            match self.spec_record() {
                Some(m) => r == Some(&m),
                None => r is None,
            },
    {
        match &self.record {
            Some(m) => Some(m),
            None => None,
        }
    }

    /// Feed the answer to the current effect.
    pub fn advance(&mut self, answer: Result<Option<ManagedTenant>, TenantError>)
        requires
            old(self).wf(),
        ensures
            final(self).wf(),
            final(self).spec_kind() == old(self).spec_kind(),
            final(self).spec_id() == old(self).spec_id(),
            final(self).spec_reason() == old(self).spec_reason(),
            old(self).spec_stage() != ChangeStage::Finished ==> (answer matches Err(e) ==> (final(self).spec_stage() == ChangeStage::Finished && final(self).spec_error() == Some(e))),
            old(self).spec_stage() == ChangeStage::Finished ==> (final(self).spec_stage()
                == ChangeStage::Finished && final(self).spec_error() == old(self).spec_error()
                && final(self).spec_record() == old(self).spec_record()),
            answer is Ok ==> match old(self).spec_stage() {
                ChangeStage::Fetch => match answer->Ok_0 {
                    None => final(self).spec_stage() == ChangeStage::Finished && final(self).spec_record() is None
                        && if old(self).spec_kind() == ChangeKind::Delete {
                        final(self).spec_error() is None
                    } else {
                        final(self).spec_error() matches Some(TenantError::NotFound(m)) && m@
                            == old(self).spec_id()
                    },
                    Some(m) => match refusal(old(self).spec_kind(), m.status) {
                        Some(text) => final(self).spec_stage() == ChangeStage::Finished && final(self).spec_record() is None && (final(self).spec_error() matches Some(
                            TenantError::Invalid(t),
                        ) && t@ == text),
                        None => final(self).spec_error() is None && match old(self).spec_kind() {
                            ChangeKind::Update => final(self).spec_stage() == ChangeStage::Save
                                && (old(self).spec_update() matches Some(req) ==> (final(self).spec_record() matches Some(n) && is_update(n, m, req))),
                            ChangeKind::Suspend | ChangeKind::Activate => final(self).spec_stage()
                                == ChangeStage::Hook && final(self).spec_record() == Some(m),
                            ChangeKind::Terminate => final(self).spec_stage()
                                == ChangeStage::MarkTerminating && (final(self).spec_record() matches Some(
                                n,
                            ) && is_marked_terminating(n, m)),
                            ChangeKind::Delete => final(self).spec_stage() == ChangeStage::Remove
                                && final(self).spec_record() == Some(m),
                        },
                    },
                },
                ChangeStage::Hook => final(self).spec_stage() == ChangeStage::Save && final(self).spec_error()
                    is None && (old(self).spec_record() matches Some(m) ==> (final(self).spec_record() matches Some(
                    n,
                ) && if old(self).spec_kind() == ChangeKind::Suspend {
                    is_suspension(n, m, old(self).spec_reason())
                } else {
                    is_activation(n, m)
                })),
                ChangeStage::MarkTerminating => final(self).spec_stage() == ChangeStage::Deprovision
                    && final(self).spec_error() is None && final(self).spec_record() == old(self).spec_record(),
                ChangeStage::Deprovision => final(self).spec_stage() == ChangeStage::Save && final(self).spec_error()
                    is None && (old(self).spec_record() matches Some(m) ==> (final(self).spec_record() matches Some(
                    n,
                ) && is_termination(n, m, old(self).spec_reason()))),
                ChangeStage::Save | ChangeStage::Remove => final(self).spec_stage() == ChangeStage::Finished
                    && final(self).spec_error() is None && final(self).spec_record() == old(self).spec_record(),
                ChangeStage::Finished => true,
            },
    {
        if self.stage == ChangeStage::Finished {
            return;
        }
        match answer {
            Err(e) => {
                self.error = Some(e);
                self.stage = ChangeStage::Finished;
            },
            Ok(found) => match self.stage {
                ChangeStage::Fetch => self.fetched(found),
                ChangeStage::Hook => {
                    match self.record.take() {
                        Some(m) => {
                            if self.kind == ChangeKind::Suspend {
                                self.record = Some(
                                    ManagedTenant {
                                        status: TenantStatus::Suspended,
                                        suspension_reason: Some(self.reason.clone()),
                                        tenant: Tenant { active: false, ..m.tenant },
                                        updated_at: now(),
                                        ..m
                                    },
                                );
                            } else {
                                self.record = Some(
                                    ManagedTenant {
                                        status: TenantStatus::Active,
                                        suspension_reason: None,
                                        tenant: Tenant { active: true, ..m.tenant },
                                        updated_at: now(),
                                        ..m
                                    },
                                );
                            }
                        },
                        None => {},
                    }
                    self.stage = ChangeStage::Save;
                },
                ChangeStage::MarkTerminating => {
                    self.stage = ChangeStage::Deprovision;
                },
                ChangeStage::Deprovision => {
                    match self.record.take() {
                        Some(m) => {
                            self.record = Some(
                                ManagedTenant {
                                    status: TenantStatus::Terminated,
                                    suspension_reason: Some(self.reason.clone()),
                                    tenant: Tenant { active: false, ..m.tenant },
                                    updated_at: now(),
                                    ..m
                                },
                            );
                        },
                        None => {},
                    }
                    self.stage = ChangeStage::Save;
                },
                ChangeStage::Save | ChangeStage::Remove => {
                    self.stage = ChangeStage::Finished;
                },
                ChangeStage::Finished => {},
            },
        }
    }

    /// The answer to the initial fetch.
    fn fetched(&mut self, found: Option<ManagedTenant>)
        requires
            old(self).spec_stage() == ChangeStage::Fetch,
            old(self).wf(),
        ensures
            final(self).wf(),
            final(self).spec_kind() == old(self).spec_kind(),
            final(self).spec_id() == old(self).spec_id(),
            final(self).spec_reason() == old(self).spec_reason(),
            match found {
                None => final(self).spec_stage() == ChangeStage::Finished && final(self).spec_record() is None
                    && if old(self).spec_kind() == ChangeKind::Delete {
                    final(self).spec_error() is None
                } else {
                    final(self).spec_error() matches Some(TenantError::NotFound(m)) && m@
                        == old(self).spec_id()
                },
                Some(m) => match refusal(old(self).spec_kind(), m.status) {
                    Some(text) => final(self).spec_stage() == ChangeStage::Finished && final(self).spec_record() is None
                        && (final(self).spec_error() matches Some(TenantError::Invalid(t)) && t@ == text),
                    None => final(self).spec_error() is None && match old(self).spec_kind() {
                        ChangeKind::Update => final(self).spec_stage() == ChangeStage::Save && (old(self).spec_update() matches Some(req) ==> (final(self).spec_record() matches Some(n)
                            && is_update(n, m, req))),
                        ChangeKind::Suspend | ChangeKind::Activate => final(self).spec_stage()
                            == ChangeStage::Hook && final(self).spec_record() == Some(m),
                        ChangeKind::Terminate => final(self).spec_stage() == ChangeStage::MarkTerminating
                            && (final(self).spec_record() matches Some(n) && is_marked_terminating(n, m)),
                        ChangeKind::Delete => final(self).spec_stage() == ChangeStage::Remove && final(self).spec_record() == Some(m),
                    },
                },
            },
    {
        match found {
            None => {
                if self.kind != ChangeKind::Delete {
                    self.error = Some(TenantError::NotFound(self.id.clone()));
                }
                self.stage = ChangeStage::Finished;
            },
            Some(m) => {
                let terminated = m.status == TenantStatus::Terminated;
                match self.kind {
                    ChangeKind::Update => {
                        match self.update.take() {
                            Some(req) => {
                                self.record = Some(apply_update(m, req));
                            },
                            None => {
                                self.record = Some(m);
                            },
                        }
                        self.stage = ChangeStage::Save;
                    },
                    ChangeKind::Suspend => {
                        if terminated {
                            self.error = Some(TenantError::Invalid("Cannot suspend terminated tenant".to_owned()));
                            self.stage = ChangeStage::Finished;
                        } else {
                            self.record = Some(m);
                            self.stage = ChangeStage::Hook;
                        }
                    },
                    ChangeKind::Activate => {
                        if terminated {
                            self.error = Some(TenantError::Invalid("Cannot activate terminated tenant".to_owned()));
                            self.stage = ChangeStage::Finished;
                        } else {
                            self.record = Some(m);
                            self.stage = ChangeStage::Hook;
                        }
                    },
                    ChangeKind::Terminate => {
                        if terminated {
                            self.error = Some(TenantError::Invalid("Tenant already terminated".to_owned()));
                            self.stage = ChangeStage::Finished;
                        } else {
                            self.record = Some(
                                ManagedTenant { status: TenantStatus::Terminating, updated_at: now(), ..m },
                            );
                            self.stage = ChangeStage::MarkTerminating;
                        }
                    },
                    ChangeKind::Delete => {
                        if !terminated {
                            self.error = Some(
                                TenantError::Invalid(
                                    "Tenant must be terminated before deletion".to_owned(),
                                ),
                            );
                            self.stage = ChangeStage::Finished;
                        } else {
                            self.record = Some(m);
                            self.stage = ChangeStage::Remove;
                        }
                    },
                }
            },
        }
    }

    /// The result of a finished change: the error if one occurred, else the
    /// record as saved (`None` when a deletion found nothing to delete).
    pub fn into_result(self) -> (res: Result<Option<ManagedTenant>, TenantError>)
        requires
            self.wf(),
            self.spec_stage() == ChangeStage::Finished,
        ensures
            match self.spec_error() {
                Some(e) => res == Err::<Option<ManagedTenant>, TenantError>(e),
                None => res == Ok::<Option<ManagedTenant>, TenantError>(self.spec_record()),
            },
    {
        match self.error {
            Some(e) => Err(e),
            None => Ok(self.record),
        }
    }
}

impl ChangeFlow {
    /// The result of a finished update, suspension, activation or
    /// termination: the error if one occurred, else the record as saved.
    pub fn into_record(self) -> (res: Result<ManagedTenant, TenantError>)
        requires
            self.wf(),
            self.spec_stage() == ChangeStage::Finished,
            self.spec_kind() != ChangeKind::Delete,
        ensures
            match self.spec_error() {
                Some(e) => res == Err::<ManagedTenant, TenantError>(e),
                None => self.spec_record() matches Some(m) && res == Ok::<ManagedTenant, TenantError>(m),
            },
    {
        match self.error {
            Some(e) => Err(e),
            None => Ok(self.record.unwrap()),
        }
    }
}

/// Suspending and then activating a tenant gives back the original record,
/// active and with no suspension reason, whatever its status was.
pub proof fn lemma_suspend_then_activate(
    m: ManagedTenant,
    suspended: ManagedTenant,
    activated: ManagedTenant,
    reason: Seq<char>,
)
    requires
        is_suspension(suspended, m, reason),
        is_activation(activated, suspended),
    ensures
        activated == (ManagedTenant {
            status: TenantStatus::Active,
            suspension_reason: None,
            tenant: Tenant { active: true, ..m.tenant },
            updated_at: activated.updated_at,
            ..m
        }),
{
}

/// Termination is final: a terminated tenant can no longer be suspended,
/// activated or terminated again, and deletion is refused for every tenant
/// that is not terminated. Updates are never refused.
pub proof fn lemma_termination_is_final(status: TenantStatus)
    ensures
        refusal(ChangeKind::Suspend, TenantStatus::Terminated) is Some,
        refusal(ChangeKind::Activate, TenantStatus::Terminated) is Some,
        refusal(ChangeKind::Terminate, TenantStatus::Terminated) is Some,
        refusal(ChangeKind::Delete, status) is None <==> status == TenantStatus::Terminated,
        refusal(ChangeKind::Update, status) is None,
        status != TenantStatus::Terminated ==> refusal(ChangeKind::Suspend, status) is None,
        status != TenantStatus::Terminated ==> refusal(ChangeKind::Activate, status) is None,
        status != TenantStatus::Terminated ==> refusal(ChangeKind::Terminate, status) is None,
{
}

/// Every change is carried through to the store before it is over: `Done`
/// is asked for only once a change (or a creation) is finished; a change
/// that reaches its save stage asks for a `Save` of its record, a creation
/// saves the activated record, a deletion removes the record, and the
/// provisioner hooks are the ones each change needs.
pub proof fn lemma_changes_reach_the_store(kind: ChangeKind, stage: ChangeStage, cstage: CreateStage)
    ensures
        change_effect(kind, stage) == StepEffect::Done <==> stage == ChangeStage::Finished,
        change_effect(kind, ChangeStage::Fetch) == StepEffect::Find,
        change_effect(kind, ChangeStage::Save) == StepEffect::Save,
        change_effect(kind, ChangeStage::MarkTerminating) == StepEffect::Save,
        change_effect(kind, ChangeStage::Deprovision) == StepEffect::Deprovision,
        change_effect(kind, ChangeStage::Remove) == StepEffect::Remove,
        change_effect(ChangeKind::Suspend, ChangeStage::Hook) == StepEffect::SuspendResources,
        change_effect(ChangeKind::Activate, ChangeStage::Hook) == StepEffect::ResumeResources,
        create_effect(cstage) == StepEffect::Done <==> cstage == CreateStage::Finished,
        create_effect(CreateStage::CheckSlug) == StepEffect::FindBySlug,
        create_effect(CreateStage::Insert) == StepEffect::Insert,
        create_effect(CreateStage::Provision) == StepEffect::Provision,
        create_effect(CreateStage::Activate) == StepEffect::Save,
        create_effect(CreateStage::Rollback) == StepEffect::Remove,
{
}

/// The limits of each plan, as numbers: Free 5 users, 1 GiB, 10 000 API
/// requests, 10 connections; Starter 25, 10 GiB, 100 000, 50; Professional
/// 100, 100 GiB, 1 000 000, 200; Enterprise and Custom unlimited; never a
/// custom limit.
pub proof fn lemma_plan_limit_values(l: TenantLimits, plan: TenantPlan)
    requires
        is_plan_limits(l, plan),
    ensures
        l.custom@.dom().is_empty(),
        plan == TenantPlan::Free ==> (l.max_users == Some(5u32) && l.max_storage_bytes == Some(
            1_073_741_824u64,
        ) && l.max_api_requests == Some(10_000u64) && l.max_connections == Some(10u32)),
        plan == TenantPlan::Starter ==> (l.max_users == Some(25u32) && l.max_storage_bytes == Some(
            10_737_418_240u64,
        ) && l.max_api_requests == Some(100_000u64) && l.max_connections == Some(50u32)),
        plan == TenantPlan::Professional ==> (l.max_users == Some(100u32) && l.max_storage_bytes
            == Some(107_374_182_400u64) && l.max_api_requests == Some(1_000_000u64)
            && l.max_connections == Some(200u32)),
        (plan == TenantPlan::Enterprise || plan == TenantPlan::Custom) ==> (l.max_users is None
            && l.max_storage_bytes is None && l.max_api_requests is None && l.max_connections is None),
{
}

/// A search text is met wherever it occurs in the tenant's name or id, not
/// only at its start: a record whose name or id is `a + q + b` passes a
/// filter that only searches for `q`, and a record passes a search only if
/// the text occurs at some position of its name or id. A record of the store
/// that passes the filter is among the matching records that `count` counts
/// and `list` pages through.
pub proof fn lemma_search_anywhere(
    filter: TenantFilter,
    t: ManagedTenant,
    a: Seq<char>,
    b: Seq<char>,
    s: Seq<ManagedTenant>,
)
    ensures
        (filter.status is None && filter.plan is None && filter.owner_id is None && (filter.search matches Some(q) && (t.tenant.name@ == a + q@ + b || t.tenant.id@ == a + q@ + b)))
            ==> filter_matches(filter, t),
        filter.search matches Some(q) ==> (filter_matches(filter, t) ==> ((exists|i: int|
            0 <= i && i + q@.len() <= t.tenant.name@.len() && #[trigger] t.tenant.name@.subrange(i, i + q@.len()) == q@)
            || (exists|i: int|
            0 <= i && i + q@.len() <= t.tenant.id@.len() && #[trigger] t.tenant.id@.subrange(i, i + q@.len()) == q@))),
        (s.contains(t) && filter_matches(filter, t)) ==> matching(s, filter).contains(t),
{
    if let Some(q) = filter.search {
        let n = a.len() as int;
        if t.tenant.name@ == a + q@ + b {
            assert(t.tenant.name@.subrange(n, n + q@.len()) =~= q@);
            assert(crate::text::occurs_at(t.tenant.name@, q@, n));
        }
        if t.tenant.id@ == a + q@ + b {
            assert(t.tenant.id@.subrange(n, n + q@.len()) =~= q@);
            assert(crate::text::occurs_at(t.tenant.id@, q@, n));
        }
    }
    if s.contains(t) && filter_matches(filter, t) {
        let k = choose|k: int| 0 <= k < s.len() && s[k] == t;
        s.lemma_filter_contains(|r: ManagedTenant| filter_matches(filter, r), k);
    }
}

/// A page never holds more than the limit nor more than the matching records
/// after the offset; with offset 0 and a limit of at least `count`, the page
/// holds every matching record.
pub proof fn lemma_listing_size(s: Seq<ManagedTenant>, filter: TenantFilter)
    ensures
        listing(s, filter).len() <= filter.limit,
        listing(s, filter).len() <= matching(s, filter).len(),
        filter.offset as nat + listing(s, filter).len() <= matching(s, filter).len()
            || listing(s, filter).len() == 0,
        filter.offset == 0 && filter.limit >= matching(s, filter).len() ==> listing(s, filter).to_multiset()
            == matching(s, filter).to_multiset(),
{
    let m = matching(s, filter);
    lemma_newest_first(m);
    let sorted = newest_first(m);
    assert(sorted.len() == m.len()) by {
        vstd::seq_lib::to_multiset_len(sorted);
        vstd::seq_lib::to_multiset_len(m);
    }
    if filter.offset == 0 && filter.limit >= m.len() {
        assert(listing(s, filter) =~= sorted);
    }
}

/// The usage answered for tenant `id`, given the store's lookup.
pub fn usage_from_lookup(id: &str, lookup: Result<Option<ManagedTenant>, TenantError>) -> (res: Result<
    TenantUsage,
    TenantError,
>)
    ensures
        match lookup {
            Err(e) => res == Err::<TenantUsage, TenantError>(e),
            Ok(None) => res matches Err(TenantError::NotFound(m)) && m@ == id@,
            Ok(Some(m)) => res == Ok::<TenantUsage, TenantError>(m.usage),
        },
{
    match lookup {
        Err(e) => Err(e),
        Ok(None) => Err(TenantError::NotFound(id.to_owned())),
        Ok(Some(m)) => Ok(m.usage),
    }
}

/// The limit violations answered for tenant `id`, given the store's lookup.
pub fn violations_from_lookup(id: &str, lookup: Result<Option<ManagedTenant>, TenantError>) -> (res:
    Result<Vec<String>, TenantError>)
    ensures
        match lookup {
            Err(e) => res == Err::<Vec<String>, TenantError>(e),
            Ok(None) => res matches Err(TenantError::NotFound(m)) && m@ == id@,
            Ok(Some(m)) => res matches Ok(v) && texts(v@) == limit_violations(m.usage, m.limits),
        },
{
    match lookup {
        Err(e) => Err(e),
        Ok(None) => Err(TenantError::NotFound(id.to_owned())),
        Ok(Some(m)) => Ok(m.get_violations()),
    }
}

} // verus!
