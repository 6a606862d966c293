use armature_tenancy::management::{
    usage_from_lookup, violations_from_lookup, ChangeFlow, CreateFlow, CreateTenantRequest,
    InMemoryManagedTenantStore, ManagedTenant, StepEffect, TenantFilter, TenantLimits, TenantPlan,
    TenantStatus, TenantUsage, UpdateTenantRequest,
};
use armature_tenancy::{KeyedMap, Tenant, TenantError};

/// The provisioning hooks a lifecycle operation may call.
trait Provisioner {
    fn provision(&self, tenant: &ManagedTenant) -> Result<(), TenantError>;
    fn deprovision(&self, tenant: &ManagedTenant) -> Result<(), TenantError>;
    fn suspend(&self, _tenant: &ManagedTenant) -> Result<(), TenantError> {
        Ok(())
    }
    fn resume(&self, _tenant: &ManagedTenant) -> Result<(), TenantError> {
        Ok(())
    }
}

struct NoOpProvisioner;

impl Provisioner for NoOpProvisioner {
    fn provision(&self, _tenant: &ManagedTenant) -> Result<(), TenantError> {
        Ok(())
    }
    fn deprovision(&self, _tenant: &ManagedTenant) -> Result<(), TenantError> {
        Ok(())
    }
}

struct FailingProvisioner;

impl Provisioner for FailingProvisioner {
    fn provision(&self, _tenant: &ManagedTenant) -> Result<(), TenantError> {
        Err(TenantError::Invalid("provisioning boom".to_string()))
    }
    fn deprovision(&self, _tenant: &ManagedTenant) -> Result<(), TenantError> {
        Ok(())
    }
}

/// Performs one effect against the store and the provisioner.
fn perform(
    store: &mut InMemoryManagedTenantStore,
    provisioner: &dyn Provisioner,
    effect: StepEffect,
    key: &str,
    record: Option<&ManagedTenant>,
) -> Result<Option<ManagedTenant>, TenantError> {
    match effect {
        StepEffect::FindBySlug => Ok(store.get_by_slug(key).cloned()),
        StepEffect::Find => Ok(store.get(key).cloned()),
        StepEffect::Insert => store.create(record.unwrap().clone()).map(|_| None),
        StepEffect::Save => store.update(record.unwrap().clone()).map(|_| None),
        StepEffect::Remove => {
            store.delete(key);
            Ok(None)
        }
        StepEffect::Provision => provisioner.provision(record.unwrap()).map(|_| None),
        StepEffect::Deprovision => provisioner.deprovision(record.unwrap()).map(|_| None),
        StepEffect::SuspendResources => provisioner.suspend(record.unwrap()).map(|_| None),
        StepEffect::ResumeResources => provisioner.resume(record.unwrap()).map(|_| None),
        StepEffect::Done => unreachable!(),
    }
}

fn create_with(
    store: &mut InMemoryManagedTenantStore,
    provisioner: &dyn Provisioner,
    request: CreateTenantRequest,
) -> Result<ManagedTenant, TenantError> {
    let mut flow = CreateFlow::start(request);
    loop {
        let effect = flow.effect();
        if effect == StepEffect::Done {
            return flow.into_result();
        }
        let answer = perform(store, provisioner, effect, flow.key(), flow.record());
        flow.advance(answer);
    }
}

fn create(
    store: &mut InMemoryManagedTenantStore,
    request: CreateTenantRequest,
) -> Result<ManagedTenant, TenantError> {
    create_with(store, &NoOpProvisioner, request)
}

fn change(
    store: &mut InMemoryManagedTenantStore,
    mut flow: ChangeFlow,
) -> Result<Option<ManagedTenant>, TenantError> {
    loop {
        let effect = flow.effect();
        if effect == StepEffect::Done {
            return flow.into_result();
        }
        let answer = perform(store, &NoOpProvisioner, effect, flow.key(), flow.record());
        flow.advance(answer);
    }
}

fn changed(
    store: &mut InMemoryManagedTenantStore,
    flow: ChangeFlow,
) -> Result<ManagedTenant, TenantError> {
    change(store, flow).map(|m| m.unwrap())
}

fn invalid_text(e: TenantError) -> String {
    match e {
        TenantError::Invalid(m) => m,
        other => panic!("expected Invalid, got {:?}", other),
    }
}

#[test]
fn test_create_tenant() {
    let mut store = InMemoryManagedTenantStore::new();

    let request = CreateTenantRequest::new("acme-corp")
        .with_display_name("Acme Corporation")
        .with_plan(TenantPlan::Professional);

    let tenant = create(&mut store, request).unwrap();
    assert_eq!(tenant.tenant.name, "acme-corp");
    assert_eq!(tenant.plan, TenantPlan::Professional);
    assert_eq!(tenant.status, TenantStatus::Active);
}

#[test]
fn test_suspend_activate() {
    let mut store = InMemoryManagedTenantStore::new();

    let tenant = create(&mut store, CreateTenantRequest::new("test-tenant")).unwrap();

    // Suspend
    let suspended =
        changed(&mut store, ChangeFlow::suspend(&tenant.tenant.id, "Payment overdue")).unwrap();
    assert_eq!(suspended.status, TenantStatus::Suspended);
    assert!(!suspended.tenant.active);

    // Activate
    let activated = changed(&mut store, ChangeFlow::activate(&tenant.tenant.id)).unwrap();
    assert_eq!(activated.status, TenantStatus::Active);
    assert!(activated.tenant.active);
}

#[test]
fn test_limits() {
    let limits = TenantLimits::for_plan(TenantPlan::Free);
    let usage = TenantUsage {
        users: 10, // Exceeds limit of 5
        ..Default::default()
    };

    let violations = usage.exceeds_limits(&limits);
    assert!(!violations.is_empty());
}

#[test]
fn test_create_persists_display_name() {
    let mut store = InMemoryManagedTenantStore::new();

    let request = CreateTenantRequest::new("acme-corp").with_display_name("Acme Inc");

    let tenant = create(&mut store, request).unwrap();
    assert_eq!(tenant.tenant.name, "acme-corp");
    assert_eq!(
        tenant.tenant.display_name.as_deref(),
        Some("Acme Inc"),
        "display_name from CreateTenantRequest must be persisted, not dropped"
    );
}

#[test]
fn test_update_writes_display_name_not_slug() {
    let mut store = InMemoryManagedTenantStore::new();

    let created = create(&mut store, CreateTenantRequest::new("acme")).unwrap();
    assert_eq!(created.tenant.name, "acme");
    assert_eq!(created.tenant.display_name, None);

    let update = UpdateTenantRequest::new().with_display_name("Acme Corp");
    let updated = changed(&mut store, ChangeFlow::update(&created.tenant.id, update)).unwrap();

    assert_eq!(
        updated.tenant.display_name.as_deref(),
        Some("Acme Corp"),
        "update() must write display_name into the display_name field"
    );
    assert_eq!(
        updated.tenant.name, "acme",
        "update() must not overwrite the tenant slug when only display_name changes"
    );
}

#[test]
fn test_count_returns_full_filtered_size_not_page_size() {
    let mut store = InMemoryManagedTenantStore::new();

    for i in 0..200 {
        create(
            &mut store,
            CreateTenantRequest::new(&format!("tenant-{i}")).with_plan(TenantPlan::Professional),
        )
        .unwrap();
    }

    let filter = TenantFilter::new()
        .with_plan(TenantPlan::Professional)
        .with_pagination(0, 50);

    let page = store.list(&filter);
    assert_eq!(page.len(), 50, "page should be limited by pagination");

    let total = store.count(&filter);
    assert_eq!(
        total, 200,
        "count() must reflect the full filtered set, not the paginated page size"
    );
}

#[test]
fn test_provisioning_failure_reclaims_slug() {
    let mut store = InMemoryManagedTenantStore::new();

    let request = CreateTenantRequest::new("reclaim-me");
    let result = create_with(&mut store, &FailingProvisioner, request);
    assert!(result.is_err(), "provisioning failure should surface");

    // Slug must be reclaimable after the failed provisioning attempt.
    let retried = create(&mut store, CreateTenantRequest::new("reclaim-me"));
    assert!(
        retried.is_ok(),
        "slug should be reclaimable after provisioning failure, got: {:?}",
        retried.as_ref().err()
    );
    assert_eq!(retried.unwrap().status, TenantStatus::Active);
}

#[test]
fn test_list_filter() {
    let mut store = InMemoryManagedTenantStore::new();

    // Create tenants with different plans
    create(&mut store, CreateTenantRequest::new("free-tenant").with_plan(TenantPlan::Free))
        .unwrap();
    create(&mut store, CreateTenantRequest::new("pro-tenant").with_plan(TenantPlan::Professional))
        .unwrap();

    // Filter by plan
    let filter = TenantFilter::new().with_plan(TenantPlan::Professional);
    let results = store.list(&filter);
    assert_eq!(results.len(), 1);
    assert_eq!(results[0].tenant.name, "pro-tenant");
}

#[test]
fn provisioning_failure_returns_the_provisioner_error_and_stores_nothing() {
    let mut store = InMemoryManagedTenantStore::new();
    let err = create_with(&mut store, &FailingProvisioner, CreateTenantRequest::new("boom"))
        .unwrap_err();
    assert_eq!(invalid_text(err), "provisioning boom");
    assert!(store.get_by_slug("boom").is_none());
    assert_eq!(store.count(&TenantFilter::default().with_pagination(0, 0)), 0);
}

#[test]
fn duplicate_slug_is_refused() {
    let mut store = InMemoryManagedTenantStore::new();
    create(&mut store, CreateTenantRequest::new("acme")).unwrap();
    let err = create(&mut store, CreateTenantRequest::new("acme")).unwrap_err();
    assert_eq!(invalid_text(err), "Tenant slug 'acme' already exists");
    assert_eq!(store.count(&TenantFilter::new()), 1);
}

#[test]
fn created_record_carries_the_request() {
    let mut store = InMemoryManagedTenantStore::new();
    let request = CreateTenantRequest::new("globex")
        .with_domain("globex.example.com")
        .with_owner("user-7")
        .with_metadata("region", "eu")
        .with_plan(TenantPlan::Starter);
    let m = create(&mut store, request).unwrap();
    assert_eq!(m.tenant.id.len(), 36);
    assert_eq!(m.tenant.domain.as_deref(), Some("globex.example.com"));
    assert_eq!(m.owner_id.as_deref(), Some("user-7"));
    assert_eq!(m.tenant.metadata.get("region").map(|s| s.as_str()), Some("eu"));
    assert_eq!(m.limits.max_users, Some(25));
    assert!(m.tenant.active);
    assert!(m.suspension_reason.is_none());
    assert_eq!(m.usage.users, 0);

    let stored = store.get(&m.tenant.id).unwrap();
    assert_eq!(stored.status, TenantStatus::Active);
    assert_eq!(stored.tenant.name, "globex");

    // Custom limits win over the plan's.
    let custom = TenantLimits::for_plan(TenantPlan::Enterprise);
    let m2 = create(
        &mut store,
        CreateTenantRequest::new("initech").with_plan(TenantPlan::Free).with_limits(custom),
    )
    .unwrap();
    assert_eq!(m2.limits.max_users, None);
    assert_eq!(m2.plan, TenantPlan::Free);
}

#[test]
fn two_tenants_get_distinct_ids() {
    let mut store = InMemoryManagedTenantStore::new();
    let a = create(&mut store, CreateTenantRequest::new("a")).unwrap();
    let b = create(&mut store, CreateTenantRequest::new("b")).unwrap();
    assert_ne!(a.tenant.id, b.tenant.id);
}

#[test]
fn terminated_tenants_refuse_changes_and_can_then_be_deleted() {
    let mut store = InMemoryManagedTenantStore::new();
    let m = create(&mut store, CreateTenantRequest::new("doomed")).unwrap();
    let id = m.tenant.id.clone();

    // Deleting a live tenant is refused.
    let err = change(&mut store, ChangeFlow::delete(&id)).unwrap_err();
    assert_eq!(invalid_text(err), "Tenant must be terminated before deletion");

    let t = changed(&mut store, ChangeFlow::terminate(&id, "closed account")).unwrap();
    assert_eq!(t.status, TenantStatus::Terminated);
    assert!(!t.tenant.active);
    assert_eq!(t.suspension_reason.as_deref(), Some("closed account"));
    assert_eq!(store.get(&id).unwrap().status, TenantStatus::Terminated);

    let err = change(&mut store, ChangeFlow::suspend(&id, "x")).unwrap_err();
    assert_eq!(invalid_text(err), "Cannot suspend terminated tenant");
    let err = change(&mut store, ChangeFlow::activate(&id)).unwrap_err();
    assert_eq!(invalid_text(err), "Cannot activate terminated tenant");
    let err = change(&mut store, ChangeFlow::terminate(&id, "again")).unwrap_err();
    assert_eq!(invalid_text(err), "Tenant already terminated");

    // Updates still go through.
    let u = changed(&mut store, ChangeFlow::update(&id, UpdateTenantRequest::new().with_display_name("Gone")))
        .unwrap();
    assert_eq!(u.status, TenantStatus::Terminated);

    let deleted = change(&mut store, ChangeFlow::delete(&id)).unwrap();
    assert_eq!(deleted.unwrap().tenant.id, id);
    assert!(store.get(&id).is_none());

    // Deleting what is not there is no error.
    assert!(change(&mut store, ChangeFlow::delete(&id)).unwrap().is_none());
}

#[test]
fn unknown_tenant_is_not_found() {
    let mut store = InMemoryManagedTenantStore::new();
    for flow in [
        ChangeFlow::suspend("nope", "r"),
        ChangeFlow::activate("nope"),
        ChangeFlow::terminate("nope", "r"),
        ChangeFlow::update("nope", UpdateTenantRequest::new()),
    ] {
        match change(&mut store, flow) {
            Err(TenantError::NotFound(id)) => assert_eq!(id, "nope"),
            other => panic!("unexpected {:?}", other),
        }
    }
}

#[test]
fn suspension_keeps_the_reason_and_activation_clears_it() {
    let mut store = InMemoryManagedTenantStore::new();
    let m = create(&mut store, CreateTenantRequest::new("acme").with_plan(TenantPlan::Starter)).unwrap();
    let s = changed(&mut store, ChangeFlow::suspend(&m.tenant.id, "Payment overdue")).unwrap();
    assert_eq!(s.suspension_reason.as_deref(), Some("Payment overdue"));
    assert!(!s.is_operational());
    assert!(!s.can_accept_requests());
    let a = changed(&mut store, ChangeFlow::activate(&m.tenant.id)).unwrap();
    assert!(a.suspension_reason.is_none());
    assert!(a.is_operational());
    // Everything else is as it was created.
    assert_eq!(a.tenant.name, m.tenant.name);
    assert_eq!(a.plan, m.plan);
    assert_eq!(a.created_at, m.created_at);
}

#[test]
fn update_changes_plan_limits_unless_limits_given() {
    let mut store = InMemoryManagedTenantStore::new();
    let m = create(&mut store, CreateTenantRequest::new("acme")).unwrap();
    let id = m.tenant.id.clone();

    let u = changed(&mut store, ChangeFlow::update(&id, UpdateTenantRequest::new().with_plan(TenantPlan::Professional)))
        .unwrap();
    assert_eq!(u.plan, TenantPlan::Professional);
    assert_eq!(u.limits.max_users, Some(100));

    let u = changed(
        &mut store,
        ChangeFlow::update(
            &id,
            UpdateTenantRequest::new()
                .with_plan(TenantPlan::Starter)
                .with_limits(TenantLimits::for_plan(TenantPlan::Free)),
        ),
    )
    .unwrap();
    assert_eq!(u.plan, TenantPlan::Starter);
    assert_eq!(u.limits.max_users, Some(5));

    let mut md = KeyedMap::new();
    md.insert("tier".to_string(), "gold".to_string());
    let u = changed(
        &mut store,
        ChangeFlow::update(&id, UpdateTenantRequest::new().with_domain(Some("acme.io".to_string())).with_metadata(md)),
    )
    .unwrap();
    assert_eq!(u.tenant.domain.as_deref(), Some("acme.io"));
    assert_eq!(u.tenant.metadata.get("tier").map(|s| s.as_str()), Some("gold"));
    assert_eq!(store.get(&id).unwrap().tenant.domain.as_deref(), Some("acme.io"));
}

#[test]
fn listing_is_newest_first_and_paginated() {
    let mut store = InMemoryManagedTenantStore::new();
    for i in 0..5 {
        create(&mut store, CreateTenantRequest::new(&format!("t{i}")).with_owner("owner-1")).unwrap();
    }
    create(&mut store, CreateTenantRequest::new("other")).unwrap();

    let all = store.list(&TenantFilter::new());
    assert_eq!(all.len(), 6);
    for w in all.windows(2) {
        assert!(w[0].created_at.secs > w[1].created_at.secs
            || (w[0].created_at.secs == w[1].created_at.secs
                && w[0].created_at.nanos >= w[1].created_at.nanos));
    }

    let owned = TenantFilter::new().with_owner("owner-1");
    assert_eq!(store.count(&owned), 5);
    let page = store.list(&owned.clone().with_pagination(3, 10));
    assert_eq!(page.len(), 2);
    assert!(store.list(&owned.clone().with_pagination(10, 10)).is_empty());

    let search = TenantFilter::new().with_search("oth");
    let found = store.list(&search);
    assert_eq!(found.len(), 1);
    assert_eq!(found[0].tenant.name, "other");

    let active = TenantFilter::new().with_status(TenantStatus::Suspended);
    assert_eq!(store.count(&active), 0);
}

#[test]
fn filter_defaults() {
    let f = TenantFilter::new();
    assert_eq!(f.limit, 50);
    assert_eq!(f.offset, 0);
    let d = TenantFilter::default();
    assert_eq!(d.limit, 0);
    assert!(d.status.is_none() && d.plan.is_none() && d.owner_id.is_none() && d.search.is_none());
}

#[test]
fn store_refuses_duplicate_ids_and_unknown_updates() {
    let mut store = InMemoryManagedTenantStore::new();
    let m = ManagedTenant::from_tenant(Tenant::new("id-1", "acme"), TenantPlan::Free);
    assert!(store.create(m.clone()).is_ok());
    assert_eq!(invalid_text(store.create(m.clone()).unwrap_err()), "Tenant id-1 already exists");

    let other = ManagedTenant::from_tenant(Tenant::new("id-2", "globex"), TenantPlan::Free);
    match store.update(other) {
        Err(TenantError::NotFound(id)) => assert_eq!(id, "id-2"),
        r => panic!("unexpected {:?}", r),
    }
    match store.update_usage("id-2", TenantUsage::default()) {
        Err(TenantError::NotFound(id)) => assert_eq!(id, "id-2"),
        r => panic!("unexpected {:?}", r),
    }
}

#[test]
fn usage_updates_are_stamped_and_checked_against_limits() {
    let mut store = InMemoryManagedTenantStore::new();
    let m = create(&mut store, CreateTenantRequest::new("acme")).unwrap();
    let id = m.tenant.id.clone();

    let usage = TenantUsage { users: 10, active_connections: 11, ..Default::default() };
    store.update_usage(&id, usage).unwrap();
    let stored = store.get(&id).unwrap();
    assert_eq!(stored.usage.users, 10);
    assert!(stored.usage.last_updated.is_some());

    let u = usage_from_lookup(&id, Ok(store.get(&id).cloned())).unwrap();
    assert_eq!(u.active_connections, 11);
    let v = violations_from_lookup(&id, Ok(store.get(&id).cloned())).unwrap();
    assert_eq!(v, vec!["Users: 10 / 5".to_string(), "Connections: 11 / 10".to_string()]);

    match usage_from_lookup("missing", Ok(None)) {
        Err(TenantError::NotFound(id)) => assert_eq!(id, "missing"),
        r => panic!("unexpected {:?}", r),
    }
    match violations_from_lookup("x", Err(TenantError::Storage("down".to_string()))) {
        Err(TenantError::Storage(m)) => assert_eq!(m, "down"),
        r => panic!("unexpected {:?}", r),
    }
}

#[test]
fn violation_texts() {
    let limits = TenantLimits::for_plan(TenantPlan::Free);
    let usage = TenantUsage {
        users: 6,
        storage_bytes: 1024 * 1024 * 1024 + 1,
        api_requests: 10_001,
        active_connections: 10,
        ..Default::default()
    };
    assert_eq!(
        usage.exceeds_limits(&limits),
        vec![
            "Users: 6 / 5".to_string(),
            "Storage: 1073741825 / 1073741824 bytes".to_string(),
            "API Requests: 10001 / 10000".to_string(),
        ]
    );
    // At the limit is no violation; unlimited plans never report one.
    let at = TenantUsage { users: 5, ..Default::default() };
    assert!(at.exceeds_limits(&limits).is_empty());
    let huge = TenantUsage { users: u32::MAX, storage_bytes: u64::MAX, ..Default::default() };
    assert!(huge.exceeds_limits(&TenantLimits::for_plan(TenantPlan::Enterprise)).is_empty());
}

#[test]
fn plan_limits_and_names() {
    let free = TenantLimits::for_plan(TenantPlan::Free);
    assert_eq!(
        (free.max_users, free.max_storage_bytes, free.max_api_requests, free.max_connections),
        (Some(5), Some(1024 * 1024 * 1024), Some(10_000), Some(10))
    );
    let starter = TenantLimits::for_plan(TenantPlan::Starter);
    assert_eq!(starter.max_storage_bytes, Some(10 * 1024 * 1024 * 1024));
    assert_eq!(starter.max_connections, Some(50));
    let pro = TenantLimits::for_plan(TenantPlan::Professional);
    assert_eq!(pro.max_api_requests, Some(1_000_000));
    assert_eq!(pro.max_connections, Some(200));
    let custom = TenantLimits::for_plan(TenantPlan::Custom);
    assert_eq!(custom.max_users, None);
    assert_eq!(TenantLimits::default().max_users, Some(5));

    let with = TenantLimits::default().with_custom("seats", serde_json::Value::from(3));
    assert_eq!(with.custom.get("seats"), Some(&serde_json::Value::from(3)));
    assert_eq!(with.max_users, Some(5));

    assert_eq!(TenantPlan::Free.as_str(), "free");
    assert_eq!(TenantPlan::Starter.as_str(), "starter");
    assert_eq!(TenantPlan::Professional.as_str(), "professional");
    assert_eq!(TenantPlan::Enterprise.as_str(), "enterprise");
    assert_eq!(TenantPlan::Custom.as_str(), "custom");
    assert_eq!(TenantPlan::default(), TenantPlan::Free);
    assert_eq!(TenantStatus::Provisioning.as_str(), "provisioning");
    assert_eq!(TenantStatus::Active.as_str(), "active");
    assert_eq!(TenantStatus::Suspended.as_str(), "suspended");
    assert_eq!(TenantStatus::Terminating.as_str(), "terminating");
    assert_eq!(TenantStatus::Terminated.as_str(), "terminated");
    assert_eq!(TenantStatus::default(), TenantStatus::Provisioning);
}

#[test]
fn fresh_records_are_provisioning() {
    let m = ManagedTenant::from_tenant(Tenant::new("id", "acme"), TenantPlan::Starter);
    assert_eq!(m.status, TenantStatus::Provisioning);
    assert!(!m.is_operational());
    assert!(m.can_accept_requests());
    assert_eq!(m.created_at, m.updated_at);
    assert_eq!(m.limits.max_users, Some(25));
    assert!(m.get_violations().is_empty());
}

#[test]
fn store_reads_back_what_was_written() {
    let mut store = InMemoryManagedTenantStore::new();
    let m = ManagedTenant::from_tenant(Tenant::new("id-1", "acme"), TenantPlan::Free);
    store.create(m.clone()).unwrap();
    assert_eq!(store.get("id-1").unwrap().tenant.name, "acme");
    assert_eq!(store.get_by_slug("acme").unwrap().tenant.id, "id-1");

    let mut changed = m.clone();
    changed.plan = TenantPlan::Enterprise;
    store.update(changed).unwrap();
    assert_eq!(store.get("id-1").unwrap().plan, TenantPlan::Enterprise);

    store.delete("id-1");
    assert!(store.get("id-1").is_none());
    assert!(store.get_by_slug("acme").is_none());
}

#[test]
fn created_ids_are_lowercase_uuid_v4_texts() {
    let mut store = InMemoryManagedTenantStore::new();
    for i in 0..20 {
        let m = create(&mut store, CreateTenantRequest::new(&format!("t{i}"))).unwrap();
        let id: Vec<char> = m.tenant.id.chars().collect();
        assert_eq!(id.len(), 36);
        for (k, c) in id.iter().enumerate() {
            if [8, 13, 18, 23].contains(&k) {
                assert_eq!(*c, '-');
            } else {
                assert!(c.is_ascii_digit() || ('a'..='f').contains(c), "{c} in {}", m.tenant.id);
            }
        }
        assert_eq!(id[14], '4');
        assert!(['8', '9', 'a', 'b'].contains(&id[19]));
    }
}
