use vanguard::api::{
    bearer_token, finish_chaos, finish_create, finish_delete, finish_update, get_tenant, healthz, list_tenants,
    require_role, ApiState, CreateTenantRequest, UpdatePolicyRequest,
};
use vanguard::clock::Timestamp;
use vanguard::cloud::mock::{NoopIdentityVerifier, NoopTelemetrySink};
use vanguard::cloud::CallerIdentity;
use vanguard::crd::{ProxyConfig, RateLimitPolicy, TenantPipelineSpec, TenantPipelineStatus};
use vanguard::json::Json;
use vanguard::k8s_backend::mock::MockBackend;
use vanguard::k8s_backend::mock_crd::MockCrdBackend;
use vanguard::k8s_backend::{CrdBackend, K8sBackend, K8sError, ProxySpec};
use vanguard::reconcile::{apply_degraded_status, reconcile_tenant, ReconcileError};
use vanguard::store::{EventKind, Store, TenantPhase, TenantRecord};

type State = ApiState<MockCrdBackend, MockBackend, NoopIdentityVerifier, NoopTelemetrySink>;

fn test_state() -> State {
    ApiState::new(MockCrdBackend::new(), MockBackend::new(), Store::new())
}

fn caller(state: &State) -> CallerIdentity {
    state.authenticate(None).unwrap()
}

fn noon() -> Timestamp {
    Timestamp::new(43_200, 0).unwrap()
}

fn request(tenant_id: &str) -> CreateTenantRequest {
    CreateTenantRequest {
        tenant_id: tenant_id.into(),
        display_name: "Acme Corp".into(),
        rate_limit: RateLimitPolicy {
            tier: "pro".into(),
            requests_per_second: 200,
            burst_capacity: 400,
            max_concurrent: 50,
        },
        proxy: ProxyConfig {
            image: "envoyproxy/envoy:v1.28-latest".into(),
            port: 10000,
            ..Default::default()
        },
    }
}

fn policy(tier: &str, rps: i32, burst: i32, max: i32) -> UpdatePolicyRequest {
    UpdatePolicyRequest {
        tier: tier.into(),
        requests_per_second: rps,
        burst_capacity: burst,
        max_concurrent: max,
    }
}

fn reader() -> CallerIdentity {
    CallerIdentity {
        subject: "eve".into(),
        roles: vec!["Tenant.Read".into()],
        ..Default::default()
    }
}

#[test]
fn healthz_ok() {
    let reply = healthz(noon());
    assert_eq!(reply.status, 200);
    assert_eq!(reply.body.field("status"), Some(&Json::text("ok")));
    assert_eq!(reply.body.field("time"), Some(&Json::text("1970-01-01T12:00:00+00:00")));
}

#[test]
fn create_tenant_rejects_missing_tenant_id() {
    let mut state = test_state();
    let who = caller(&state);
    let req = CreateTenantRequest {
        tenant_id: String::new(),
        display_name: "no id".into(),
        rate_limit: RateLimitPolicy::default(),
        proxy: ProxyConfig::default(),
    };
    let e = state.create_tenant(&who, req, noon()).unwrap_err();
    assert_eq!(e.status, 400);
    assert_eq!(e.message, "tenantId is required");
    assert_eq!(e.body().field("error"), Some(&Json::text("tenantId is required")));
}

#[test]
fn create_tenant_persists_crd() {
    let mut state = test_state();
    let mut rx = state.store.subscribe();
    let who = caller(&state);
    let reply = state.create_tenant(&who, request("acme"), noon()).unwrap();
    assert_eq!(reply.status, 201);
    assert_eq!(reply.body.field("tenantId"), Some(&Json::text("acme")));

    let spec = state.crd.get("acme").unwrap();
    assert_eq!(spec.rate_limit.tier, "pro");
    assert!(!spec.paused);
    let ev = rx.try_recv().unwrap();
    assert_eq!(ev.kind, EventKind::TenantCreated);
    assert_eq!(ev.message, "Tenant \"acme\" created via API");
}

#[test]
fn get_and_list_tenants() {
    let mut state = test_state();
    state.store.upsert_tenant(TenantRecord {
        tenant_id: "acme".into(),
        phase: TenantPhase::Ready,
        tier: "pro".into(),
        ..Default::default()
    });

    let body = get_tenant(&state.store, "acme").unwrap();
    assert_eq!(body.tenant_id, "acme");
    assert_eq!(body.phase, "Ready");

    let e = get_tenant(&state.store, "ghost").unwrap_err();
    assert_eq!(e.status, 404);

    assert_eq!(list_tenants(&state.store).len(), 1);
    assert_eq!(list_tenants(&state.store)[0].tier, "pro");
}

#[test]
fn update_policy_patches_crd() {
    let mut state = test_state();
    let mut rx = state.store.subscribe();
    state
        .crd
        .create(TenantPipelineSpec {
            tenant_id: "acme".into(),
            display_name: "Acme".into(),
            rate_limit: RateLimitPolicy {
                tier: "free".into(),
                requests_per_second: 10,
                burst_capacity: 20,
                max_concurrent: 5,
            },
            proxy: Default::default(),
            paused: false,
        })
        .unwrap();
    let who = caller(&state);
    let req = policy("enterprise", 5000, 10000, 500);
    let reply = state.update_policy(&who, "acme", req, noon()).unwrap();
    assert_eq!(reply.status, 200);
    assert_eq!(state.crd.get("acme").unwrap().rate_limit.tier, "enterprise");
    assert_eq!(rx.try_recv().unwrap().message, "Policy updated → tier=enterprise rps=5000 burst=10000");
}

#[test]
fn update_policy_not_found() {
    let mut state = test_state();
    let who = caller(&state);
    let e = state.update_policy(&who, "ghost", policy("pro", 1, 1, 1), noon()).unwrap_err();
    assert_eq!(e.status, 404);
}

#[test]
fn delete_tenant_removes_crd() {
    let mut state = test_state();
    state
        .crd
        .create(TenantPipelineSpec {
            tenant_id: "acme".into(),
            display_name: "".into(),
            rate_limit: Default::default(),
            proxy: Default::default(),
            paused: false,
        })
        .unwrap();
    let who = caller(&state);
    let reply = state.delete_tenant(&who, "acme").unwrap();
    assert_eq!(reply.status, 200);
    assert!(state.crd.get("acme").is_none());
    assert_eq!(state.delete_tenant(&who, "acme").unwrap_err().status, 404);
}

/// The chaos endpoint must actually delete the Deployment, not just log
/// about it.
#[test]
fn chaos_kill_proxy_actually_deletes_the_deployment() {
    let mut state = test_state();
    state.store.upsert_tenant(TenantRecord {
        tenant_id: "acme".into(),
        namespace: "tenant-acme".into(),
        proxy_pod_name: "proxy-acme".into(),
        ..Default::default()
    });
    state
        .backend
        .ensure_proxy_deployment(ProxySpec {
            tenant_id: "acme".into(),
            namespace: "tenant-acme".into(),
            image: "envoy".into(),
            port: 10000,
            cpu_milli_limit: 100,
            memory_mib_limit: 64,
            config_map_name: "cm".into(),
        })
        .unwrap();
    assert!(state.backend.deployment("tenant-acme", "acme").is_some());

    let mut rx = state.store.subscribe();
    let who = caller(&state);
    let reply = state.chaos_kill_proxy(&who, "acme", noon()).unwrap();
    assert_eq!(reply.status, 200);
    assert_eq!(reply.body.field("proxy"), Some(&Json::text("proxy-acme")));
    assert!(
        state.backend.deployment("tenant-acme", "acme").is_none(),
        "chaos endpoint must actually delete the deployment"
    );
    let ev = rx.try_recv().unwrap();
    assert_eq!(ev.kind, EventKind::ChaosInjected);
    assert_eq!(ev.message, "💥 Chaos: killed proxy deployment proxy-acme");
    assert_eq!(
        state.store.logs(),
        vec!["[12:00:00.000] 💥 CHAOS → deleted proxy/proxy-acme in ns/tenant-acme".to_string()]
    );
}

#[test]
fn chaos_kill_proxy_unknown_tenant() {
    let mut state = test_state();
    let who = caller(&state);
    let e = state.chaos_kill_proxy(&who, "ghost", noon()).unwrap_err();
    assert_eq!(e.status, 404);
}

#[test]
fn callers_without_the_role_change_nothing() {
    let mut state = test_state();
    state.crd.create(TenantPipelineSpec {
        tenant_id: "acme".into(),
        display_name: "".into(),
        rate_limit: Default::default(),
        proxy: Default::default(),
        paused: false,
    })
    .unwrap();
    state.store.upsert_tenant(TenantRecord { tenant_id: "acme".into(), ..Default::default() });
    let eve = reader();
    let errors = [
        state.create_tenant(&eve, request("new"), noon()).unwrap_err(),
        state.delete_tenant(&eve, "acme").unwrap_err(),
        state.update_policy(&eve, "acme", policy("pro", 1, 1, 1), noon()).unwrap_err(),
        state.chaos_kill_proxy(&eve, "acme", noon()).unwrap_err(),
    ];
    for e in errors {
        assert_eq!(e.status, 403);
        assert_eq!(e.message, "caller \"eve\" missing required role \"Tenant.Write\"");
    }
    assert!(state.crd.get("new").is_none());
    assert_eq!(state.crd.get("acme").unwrap().rate_limit.tier, "");
    assert!(state.store.logs().is_empty());
}

#[test]
fn names_in_messages_are_escaped() {
    let who = CallerIdentity { subject: "a\"b\n".into(), ..Default::default() };
    let e = require_role(&who, "é\u{1b}").unwrap_err();
    assert_eq!(e.message, format!("caller {:?} missing required role {:?}", "a\"b\n", "é\u{1b}"));
}

#[test]
fn tokens_are_taken_from_bearer_headers_only() {
    assert_eq!(bearer_token(Some("Bearer abc")), "abc");
    assert_eq!(bearer_token(Some("Bearer ")), "");
    assert_eq!(bearer_token(Some("bearer abc")), "");
    assert_eq!(bearer_token(Some("Basic abc")), "");
    assert_eq!(bearer_token(None), "");
}

#[test]
fn cluster_errors_are_answered_with_their_text() {
    let mut store = Store::new();
    let who = reader();
    let down = || K8sError::Kube("down".into());
    let e = finish_create(&mut store, &who, "acme", Err(down()), noon()).unwrap_err();
    assert_eq!((e.status, e.message.as_str()), (500, "k8s create: kube api error: down"));
    let e = finish_delete("acme", Err(down())).unwrap_err();
    assert_eq!((e.status, e.message.as_str()), (500, "k8s delete: kube api error: down"));
    let e = finish_update(&mut store, "acme", &policy("pro", 1, 2, 3), Err(down()), noon()).unwrap_err();
    assert_eq!((e.status, e.message.as_str()), (500, "k8s patch: kube api error: down"));
    let rec = TenantRecord::default();
    let e = finish_chaos(&mut store, &who, "acme", &rec, Err(down()), noon()).unwrap_err();
    assert_eq!((e.status, e.message.as_str()), (500, "chaos: delete proxy deployment: kube api error: down"));
    assert!(store.logs().is_empty());
}

#[test]
fn finished_requests_tell_who_caused_them() {
    let mut store = Store::new();
    let (_, event) = finish_create(&mut store, &reader(), "acme", Ok(()), noon()).unwrap();
    assert_eq!(event.name, "TenantCreated");
    assert_eq!(
        event.properties,
        vec![
            ("tenantId".to_string(), "acme".to_string()),
            ("callerSubject".to_string(), "eve".to_string()),
        ]
    );
    let (_, event) = finish_chaos(&mut store, &reader(), "acme", &TenantRecord::default(), Ok(()), noon()).unwrap();
    assert_eq!(event.name, "ChaosInjected");
}

#[test]
fn chaos_reaches_the_proxy_of_a_degraded_tenant() {
    let mut state = test_state();
    let asked = request("acme");
    let spec = TenantPipelineSpec {
        tenant_id: asked.tenant_id,
        display_name: asked.display_name,
        rate_limit: asked.rate_limit,
        proxy: asked.proxy,
        paused: false,
    };
    reconcile_tenant(&mut state.backend, &mut state.store, &spec, 0, None).unwrap();
    let mut status = TenantPipelineStatus::default();
    let err = ReconcileError::Proxy("x".into());
    apply_degraded_status(&mut state.store, &mut status, "acme", "Acme Corp", &err);
    assert!(state.backend.deployment("tenant-acme", "acme").is_some());

    let who = caller(&state);
    let reply = state.chaos_kill_proxy(&who, "acme", noon()).unwrap();

    assert_eq!(reply.status, 200);
    assert!(state.backend.deployment("tenant-acme", "acme").is_none());
    assert_eq!(state.store.get_tenant("acme").unwrap().phase, TenantPhase::Degraded);
}
