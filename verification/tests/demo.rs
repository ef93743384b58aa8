use vanguard::clock::{Clock, PresetClock, SystemClock, Timestamp};
use vanguard::crd::{ProxyConfig, RateLimitPolicy, TenantPipelineSpec};
use vanguard::demo::{logs_handler, seed_demo_tenants, DemoLoop, Fingerprint, DRIFT_CHECK_INTERVAL_NANOS};
use vanguard::json::Json;
use vanguard::k8s_backend::mock::MockBackend;
use vanguard::k8s_backend::mock_crd::MockCrdBackend;
use vanguard::k8s_backend::{CrdBackend, K8sBackend};
use vanguard::store::{EventKind, Received, Store, TenantPhase};

fn spec(id: &str) -> TenantPipelineSpec {
    TenantPipelineSpec {
        tenant_id: id.to_string(),
        display_name: id.to_string(),
        rate_limit: RateLimitPolicy {
            tier: "pro".into(),
            requests_per_second: 100,
            burst_capacity: 200,
            max_concurrent: 20,
        },
        proxy: ProxyConfig::default(),
        paused: false,
    }
}

struct World {
    demo: DemoLoop,
    crd: MockCrdBackend,
    backend: MockBackend,
    store: Store,
}

impl World {
    fn new() -> World {
        World {
            demo: DemoLoop::new(),
            crd: MockCrdBackend::new(),
            backend: MockBackend::new(),
            store: Store::new(),
        }
    }

    fn cycle(&mut self, uptime: u64) {
        self.cycle_at(Timestamp::now(), uptime);
    }

    fn cycle_at(&mut self, now: Timestamp, uptime: u64) {
        let mut clock = PresetClock::new(vec![now], vec![uptime]);
        self.demo.cycle(&self.crd, &mut self.backend, &mut self.store, &mut clock);
    }
}

#[test]
fn poll_loop_reconciles_newly_created_spec() {
    let mut w = World::new();
    w.crd.create(spec("acme")).unwrap();
    w.cycle(0);
    assert_eq!(w.store.get_tenant("acme").unwrap().phase, TenantPhase::Ready);
    assert!(w.backend.has_namespace("acme"));
}

#[test]
fn poll_loop_heals_chaos_deleted_deployment_on_next_drift_check() {
    let mut w = World::new();
    w.crd.create(spec("acme")).unwrap();
    w.cycle(0);
    assert!(w.backend.deployment("tenant-acme", "acme").is_some());

    // Simulate the chaos endpoint deleting the live deployment directly.
    w.backend.delete_proxy_deployment("acme", "tenant-acme").unwrap();
    assert!(w.backend.deployment("tenant-acme", "acme").is_none());

    w.cycle(DRIFT_CHECK_INTERVAL_NANOS - 1);
    assert!(w.backend.deployment("tenant-acme", "acme").is_none());
    w.cycle(DRIFT_CHECK_INTERVAL_NANOS);
    assert!(w.backend.deployment("tenant-acme", "acme").is_some());
    assert_eq!(w.store.get_tenant("acme").unwrap().reconcile_count, 2);
}

#[test]
fn poll_loop_removes_deleted_tenant() {
    let mut w = World::new();
    w.crd.create(spec("acme")).unwrap();
    w.crd.create(spec("other")).unwrap();
    w.cycle(0);
    assert!(w.store.get_tenant("acme").is_some());

    w.crd.delete("acme").unwrap();
    w.cycle(1);

    assert!(w.store.get_tenant("acme").is_none());
    assert!(!w.backend.has_namespace("acme"));
    assert!(w.backend.deployment("tenant-acme", "acme").is_none());
    assert_eq!(w.store.get_tenant("other").unwrap().reconcile_count, 1);
    assert!(w.backend.has_namespace("other"));
}

#[test]
fn poll_loop_reconciles_immediately_on_spec_change() {
    let mut w = World::new();
    w.crd.create(spec("acme")).unwrap();
    w.cycle(0);
    assert!(w.store.get_tenant("acme").unwrap().reconcile_count >= 1);

    w.crd
        .patch_policy(
            "acme",
            RateLimitPolicy {
                tier: "enterprise".into(),
                requests_per_second: 999,
                burst_capacity: 1000,
                max_concurrent: 100,
            },
        )
        .unwrap();
    w.cycle(1);
    assert_eq!(w.store.get_tenant("acme").unwrap().rps, 999);
}

#[test]
fn poll_loop_handles_empty_crd_backend_without_panicking() {
    let mut w = World::new();
    for i in 0..3 {
        w.cycle(i);
    }
    assert!(w.store.list_tenants().is_empty());
    assert!(w.store.logs().is_empty());
}

#[test]
fn creation_time_survives_later_reconciles() {
    let mut w = World::new();
    w.crd.create(spec("acme")).unwrap();
    let first = Timestamp::new(100, 0).unwrap();
    let later = Timestamp::new(200, 0).unwrap();
    w.cycle_at(first, 0);
    w.cycle_at(later, DRIFT_CHECK_INTERVAL_NANOS);
    let rec = w.store.get_tenant("acme").unwrap();
    assert_eq!(rec.created_at, Some(first));
    assert_eq!(rec.last_reconcile_at, Some(later));
}

#[test]
fn fingerprints_ignore_names_only() {
    let a = Fingerprint::of(&spec("a"));
    assert!(a.same_as(&Fingerprint::of(&spec("b"))));
    let mut changed = spec("a");
    changed.proxy.resource_limit_milli_cpu = Some(0);
    assert!(!a.same_as(&Fingerprint::of(&changed)));
    let mut paused = spec("a");
    paused.paused = true;
    assert!(!a.same_as(&Fingerprint::of(&paused)));
}

#[test]
fn demo_tenants_are_seeded_and_logged() {
    let mut crd = MockCrdBackend::new();
    let mut store = Store::new();
    seed_demo_tenants(&mut crd, &mut store);
    let acme = crd.get("acme-corp").unwrap();
    assert_eq!(acme.display_name, "Acme Corp");
    assert_eq!(acme.rate_limit.requests_per_second, 200);
    assert_eq!(acme.proxy.port, 10000);
    let initech = crd.get("initech").unwrap();
    assert_eq!(initech.rate_limit.tier, "enterprise");
    assert_eq!(initech.rate_limit.max_concurrent, 500);
    assert_eq!(
        store.logs(),
        vec![
            "[boot] seeded demo tenant 'acme-corp'".to_string(),
            "[boot] seeded demo tenant 'initech'".to_string(),
        ]
    );
    let served = logs_handler(&store);
    assert_eq!(served.status, 200);
    assert_eq!(
        served.body.field("logs").unwrap().item(1),
        Some(&Json::text("[boot] seeded demo tenant 'initech'"))
    );
}

/// What a cycle says it has done: which tenants were reconciled to the end,
/// and which were taken down.
fn told(w: &mut World, uptime: u64) -> (Vec<String>, Vec<String>) {
    let mut rx = w.store.subscribe();
    w.cycle(uptime);
    let (mut reconciled, mut removed) = (Vec::new(), Vec::new());
    while let Received::Event(ev) = w.store.take_event(&mut rx) {
        match ev.kind {
            EventKind::ReconcileOk => reconciled.push(ev.tenant_id),
            EventKind::TenantDeleted => removed.push(ev.tenant_id),
            _ => {}
        }
    }
    reconciled.sort();
    (reconciled, removed)
}

#[test]
fn a_cycle_acts_where_it_must_and_nowhere_else() {
    let nobody: Vec<String> = Vec::new();
    let mut w = World::new();
    w.crd.create(spec("a")).unwrap();
    w.crd.create(spec("b")).unwrap();
    w.crd.create(spec("c")).unwrap();
    assert_eq!(told(&mut w, 0), (vec!["a".to_string(), "b".to_string(), "c".to_string()], nobody.clone()));
    assert_eq!(told(&mut w, 1), (nobody.clone(), nobody.clone()));

    // A new display name asks for nothing, a new image for a reconcile.
    w.crd.delete("a").unwrap();
    w.crd.create(TenantPipelineSpec { display_name: "Another name".into(), ..spec("a") }).unwrap();
    w.crd.delete("b").unwrap();
    let mut moved = spec("b");
    moved.proxy.image = "another".into();
    w.crd.create(moved).unwrap();
    w.crd.delete("c").unwrap();
    assert_eq!(told(&mut w, 2), (vec!["b".to_string()], vec!["c".to_string()]));
    assert_eq!(told(&mut w, 3), (nobody.clone(), nobody.clone()));

    // The drift check counts from each pipeline's last reconcile.
    assert_eq!(told(&mut w, DRIFT_CHECK_INTERVAL_NANOS), (vec!["a".to_string()], nobody.clone()));
    assert_eq!(told(&mut w, DRIFT_CHECK_INTERVAL_NANOS + 2), (vec!["b".to_string()], nobody));
}

#[test]
fn the_machines_clock_goes_on() {
    let mut clock = SystemClock::start();
    let before = clock.uptime();
    assert!(before < DRIFT_CHECK_INTERVAL_NANOS);
    assert!(clock.uptime() >= before);
    let year_2020 = 1_577_836_800;
    assert!(clock.now().seconds() > year_2020);
}

#[test]
fn the_drift_check_brings_a_killed_deployment_back_on_time() {
    let mut w = World::new();
    let acme = spec("acme");
    w.crd.create(spec("acme")).unwrap();
    let mut clock = PresetClock::new(vec![Timestamp::now()], vec![0]);
    w.demo.cycle_at(&w.crd, &mut w.backend, &mut w.store, 7, &mut clock);
    w.backend.delete_proxy_deployment("acme", "tenant-acme").unwrap();

    w.demo.cycle_at(&w.crd, &mut w.backend, &mut w.store, 6 + DRIFT_CHECK_INTERVAL_NANOS, &mut clock);
    assert!(w.backend.deployment("tenant-acme", "acme").is_none());
    w.demo.visit_at(&mut w.backend, &mut w.store, &acme, 6 + DRIFT_CHECK_INTERVAL_NANOS, &mut clock);
    assert!(w.backend.deployment("tenant-acme", "acme").is_none());

    w.demo.visit_at(&mut w.backend, &mut w.store, &acme, 7 + DRIFT_CHECK_INTERVAL_NANOS, &mut clock);
    assert!(w.backend.deployment("tenant-acme", "acme").is_some());
    assert_eq!(w.store.get_tenant("acme").unwrap().reconcile_count, 2);

    w.backend.delete_proxy_deployment("acme", "tenant-acme").unwrap();
    w.demo.cycle_at(&w.crd, &mut w.backend, &mut w.store, 7 + 2 * DRIFT_CHECK_INTERVAL_NANOS, &mut clock);
    assert!(w.backend.deployment("tenant-acme", "acme").is_some());
    assert_eq!(w.store.get_tenant("acme").unwrap().reconcile_count, 3);
}

#[test]
fn each_pipeline_is_timed_by_a_reading_of_its_own() {
    let mut w = World::new();
    let strides: Vec<u64> = (1..5).map(|i| i * DRIFT_CHECK_INTERVAL_NANOS).collect();
    let mut clock = PresetClock::new(vec![Timestamp::now()], strides);
    w.crd.create(spec("a")).unwrap();
    w.crd.create(spec("b")).unwrap();
    w.demo.cycle(&w.crd, &mut w.backend, &mut w.store, &mut clock);
    w.demo.visit(&mut w.backend, &mut w.store, &spec("a"), &mut clock);
    assert_eq!(w.store.get_tenant("a").unwrap().reconcile_count, 2);
    assert_eq!(w.store.get_tenant("b").unwrap().reconcile_count, 1);
    assert_eq!(clock.uptime(), 4 * DRIFT_CHECK_INTERVAL_NANOS);
}
