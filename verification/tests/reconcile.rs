use vanguard::clock::{PresetClock, Timestamp};
use vanguard::crd::{
    Phase, ProxyConfig, RateLimitPolicy, TenantPipelineSpec, TenantPipelineStatus, CONDITION_READY, FINALIZER,
};
use vanguard::json::Json;
use vanguard::k8s_backend::mock::MockBackend;
use vanguard::k8s_backend::{K8sBackend, K8sError};
use vanguard::operator::{build_finalizers_patch, conclude, on_error, plan, reconcile_with, Pipeline, Plan, Requeue, Write};
use vanguard::reconcile::{
    apply_degraded_status, apply_degraded_status_at, apply_degraded_status_with, apply_ready_status,
    apply_ready_status_at, apply_ready_status_with, handle_deletion,
    handle_deletion_with, home, reconcile_tenant, reconcile_tenant_with, Progress, ReconcileError, ReconcileOutcome, Reconciliation, Request,
    Teardown, TeardownProgress, TeardownRequest, DEFAULT_CPU_MILLI, DEFAULT_MEM_MIB, DEFAULT_PROXY_IMAGE,
    DEFAULT_PROXY_PORT,
};
use vanguard::store::{EventKind, Store, TenantPhase, TenantRecord};

fn sample_spec(tenant_id: &str) -> TenantPipelineSpec {
    TenantPipelineSpec {
        tenant_id: tenant_id.to_string(),
        display_name: "Acme Corp".to_string(),
        rate_limit: RateLimitPolicy {
            tier: "pro".into(),
            requests_per_second: 200,
            burst_capacity: 400,
            max_concurrent: 50,
        },
        proxy: ProxyConfig {
            image: "envoyproxy/envoy:v1.28-latest".into(),
            port: 10000,
            resource_limit_milli_cpu: Some(100),
            resource_limit_memory_mib: Some(64),
        },
        paused: false,
    }
}

fn noon() -> Timestamp {
    Timestamp::new(43_200, 0).unwrap()
}

/// A clock that stands at noon.
fn stopped() -> PresetClock {
    PresetClock::new(vec![noon()], vec![0])
}

/// A clock that gains a second with each reading, from noon on.
fn ticking() -> PresetClock {
    PresetClock::new((0..10).map(|i| Timestamp::new(43_200 + i, 0).unwrap()).collect(), vec![0])
}

#[test]
fn reconcile_provisions_full_stack() {
    let mut backend = MockBackend::new();
    let mut store = Store::new();
    let spec = sample_spec("acme");

    let outcome = reconcile_tenant(&mut backend, &mut store, &spec, 0, None).unwrap();

    assert_eq!(outcome.namespace_name, "tenant-acme");
    assert_eq!(outcome.proxy_pod_name, "proxy-acme");
    assert_eq!(outcome.config_map_name, "vanguard-rl-acme");
    assert_eq!(outcome.reconcile_count, 1);

    assert!(backend.has_namespace("acme"));
    assert!(backend.has_configmap("tenant-acme", "acme"));
    assert!(backend.deployment("tenant-acme", "acme").is_some());

    let rec = store.get_tenant("acme").unwrap();
    assert_eq!(rec.phase, TenantPhase::Ready);
    assert_eq!(rec.reconcile_count, 1);
}

#[test]
fn reconcile_is_idempotent_across_repeated_calls() {
    let mut backend = MockBackend::new();
    let mut store = Store::new();
    let spec = sample_spec("acme");

    let mut count = 0;
    for _ in 0..3 {
        let outcome = reconcile_tenant(&mut backend, &mut store, &spec, count, None).unwrap();
        count = outcome.reconcile_count;
    }
    assert_eq!(count, 3);
    assert_eq!(store.get_tenant("acme").unwrap().reconcile_count, 3);
}

#[test]
fn reconcile_defaults_proxy_image_and_port_when_unset() {
    let mut backend = MockBackend::new();
    let mut store = Store::new();
    let mut spec = sample_spec("acme");
    spec.proxy = ProxyConfig::default(); // no image/port/resources specified

    reconcile_tenant(&mut backend, &mut store, &spec, 0, None).unwrap();

    let dep = backend.deployment("tenant-acme", "acme").unwrap();
    assert_eq!(dep.image, DEFAULT_PROXY_IMAGE);
    assert_eq!(dep.port, DEFAULT_PROXY_PORT);
    assert_eq!(dep.cpu_milli_limit, DEFAULT_CPU_MILLI);
    assert_eq!(dep.memory_mib_limit, DEFAULT_MEM_MIB);
}

#[test]
fn zero_limits_count_as_unset() {
    let mut backend = MockBackend::new();
    let mut store = Store::new();
    let mut spec = sample_spec("acme");
    spec.proxy.resource_limit_milli_cpu = Some(0);
    spec.proxy.resource_limit_memory_mib = Some(-3);
    reconcile_tenant_with(&mut backend, &mut store, &spec, 0, None, &mut stopped()).unwrap();
    let dep = backend.deployment("tenant-acme", "acme").unwrap();
    assert_eq!(dep.cpu_milli_limit, 100);
    assert_eq!(dep.memory_mib_limit, -3);
}

#[test]
fn apply_ready_status_sets_single_condition_not_appended_per_call() {
    let mut backend = MockBackend::new();
    let mut store = Store::new();
    let spec = sample_spec("acme");
    let mut status = TenantPipelineStatus::default();

    for i in 0..3 {
        let outcome = reconcile_tenant(&mut backend, &mut store, &spec, i, None).unwrap();
        apply_ready_status(&mut status, &outcome, 1);
    }

    assert_eq!(
        status.conditions.len(),
        1,
        "Ready condition must be updated in place, not appended per reconcile"
    );
    assert_eq!(status.phase, Phase::Ready);
    assert_eq!(status.reconcile_count, 3);
}

#[test]
fn ready_status_reports_the_outcome() {
    let mut status = TenantPipelineStatus::default();
    let outcome = ReconcileOutcome {
        namespace_name: "ns".into(),
        proxy_pod_name: "p".into(),
        config_map_name: "cm".into(),
        reconcile_count: 9,
    };
    apply_ready_status_with(&mut status, &outcome.clone(), 4, &mut stopped());
    assert_eq!(status.namespace_name, "ns");
    assert_eq!(status.proxy_pod_name, "p");
    assert_eq!(status.config_map_name, "cm");
    assert_eq!((status.observed_generation, status.reconcile_count), (4, 9));
    assert_eq!(status.last_reconcile_time, Some("1970-01-01T12:00:00+00:00".to_string()));
    assert_eq!(status.conditions[0].type_, "Ready");
    assert_eq!(status.conditions[0].status, "True");
    assert_eq!(status.conditions[0].reason, "Reconciled");
    assert_eq!(status.conditions[0].message, "All resources healthy");
}

#[test]
fn apply_degraded_status_marks_store_and_status() {
    let mut store = Store::new();
    let mut status = TenantPipelineStatus::default();
    let err = ReconcileError::Proxy("connection refused".to_string());

    apply_degraded_status(&mut store, &mut status, "acme", "Acme Corp", &err);

    assert_eq!(status.phase, Phase::Degraded);
    let cond = status
        .conditions
        .iter()
        .find(|c| c.type_ == CONDITION_READY)
        .unwrap();
    assert_eq!(cond.status, "False");
    assert_eq!(cond.reason, "ProxyFailed");

    let rec = store.get_tenant("acme").unwrap();
    assert_eq!(rec.phase, TenantPhase::Degraded);
}

#[test]
fn degraded_tenants_are_logged_and_announced() {
    let mut store = Store::new();
    let mut rx = store.subscribe();
    let mut status = TenantPipelineStatus::default();
    let err = ReconcileError::Namespace("no".to_string());
    apply_degraded_status_with(&mut store, &mut status, "acme", "Acme Corp", &err, &mut stopped());
    assert_eq!(
        store.logs(),
        vec!["[12:00:00.000]   ✗ [acme] degraded: NamespaceFailed: namespace provisioning failed: no".to_string()]
    );
    let ev = rx.try_recv().unwrap();
    assert_eq!(ev.kind, EventKind::ReconcileError);
    assert_eq!(ev.message, "NamespaceFailed: namespace provisioning failed: no");
    assert_eq!(status.conditions[0].message, "namespace provisioning failed: no");
    let rec = store.get_tenant("acme").unwrap();
    assert_eq!(rec.display_name, "Acme Corp");
    assert_eq!(rec.last_reconcile_at, Some(noon()));
    assert_eq!(rec.namespace, "");
}

#[test]
fn handle_deletion_removes_owned_resources_and_store_entry() {
    let mut backend = MockBackend::new();
    let mut store = Store::new();
    let spec = sample_spec("acme");
    let mut other_store = Store::new();
    reconcile_tenant(&mut backend, &mut other_store, &spec, 0, None).unwrap();
    // Copy the reconciled record into the store used for deletion.
    let rec = other_store.get_tenant("acme").unwrap();
    store.upsert_tenant(rec);

    handle_deletion(&mut backend, &mut store, "acme").unwrap();

    assert!(backend.deployment("tenant-acme", "acme").is_none());
    assert!(!backend.has_namespace("acme"));
    assert!(store.get_tenant("acme").is_none());
}

#[test]
fn handle_deletion_on_unknown_tenant_is_a_noop_not_an_error() {
    let mut backend = MockBackend::new();
    let mut store = Store::new();
    handle_deletion(&mut backend, &mut store, "ghost").unwrap();
}

#[test]
fn reconcile_tells_its_steps() {
    let mut backend = MockBackend::new();
    let mut store = Store::new();
    let mut rx = store.subscribe();
    let created = Timestamp::new(1, 0);
    reconcile_tenant_with(&mut backend, &mut store, &sample_spec("acme"), 6, created, &mut stopped()).unwrap();
    assert_eq!(
        store.logs(),
        vec![
            "[12:00:00.000] ⟳  [acme] reconcile #7 start".to_string(),
            "[12:00:00.000]   ✓ namespace/tenant-acme ready".to_string(),
            "[12:00:00.000]   ✓ configmap/vanguard-rl-acme synced (tier=pro rps=200 burst=400)".to_string(),
            "[12:00:00.000]   ✓ deployment/proxy-acme up (image=envoyproxy/envoy:v1.28-latest port=10000)".to_string(),
            "[12:00:00.000]   ✓ [acme] reconcile complete".to_string(),
        ]
    );
    let want = [
        (EventKind::ReconcileStart, "Reconcile #7"),
        (EventKind::NamespaceReady, "Namespace tenant-acme ready"),
        (EventKind::ConfigReloaded, "ConfigMap vanguard-rl-acme synced"),
        (EventKind::ProxyUp, "Proxy deployment proxy-acme running"),
        (EventKind::ReconcileOk, "Converged"),
    ];
    for (kind, message) in want {
        let ev = rx.try_recv().unwrap();
        assert_eq!((ev.kind, ev.message.as_str(), ev.tenant_id.as_str()), (kind, message, "acme"));
    }
    let rec = store.get_tenant("acme").unwrap();
    assert_eq!(rec.created_at, created);
    assert_eq!(rec.last_reconcile_at, Some(noon()));
    assert_eq!((rec.rps, rec.burst, rec.max_concurrent), (200, 400, 50));
    assert_eq!(rec.proxy_image, "envoyproxy/envoy:v1.28-latest");
}

fn begin(store: &mut Store) -> Reconciliation {
    Reconciliation::start(store, &sample_spec("acme"), 0, None, noon())
}

fn pending(p: Progress) -> Reconciliation {
    match p {
        Progress::Pending(run) => run,
        Progress::Finished(_) => panic!("finished"),
    }
}

#[test]
fn a_failed_namespace_ends_the_reconcile() {
    let mut store = Store::new();
    let run = begin(&mut store);
    assert!(matches!(run.request(), Request::EnsureNamespace { tenant_id } if tenant_id == "acme"));
    match run.advance(&mut store, Err(K8sError::Kube("down".into())), noon()) {
        Progress::Finished(Err(e)) => {
            assert_eq!(e.reason(), "NamespaceFailed");
            assert_eq!(e.message(), "namespace provisioning failed: kube api error: down");
        }
        _ => panic!("must fail"),
    }
    assert!(store.get_tenant("acme").is_none());
}

#[test]
fn a_failed_configmap_ends_the_reconcile() {
    let mut store = Store::new();
    let run = begin(&mut store);
    let run = pending(run.advance(&mut store, Ok("tenant-acme".into()), noon()));
    match run.request() {
        Request::EnsureConfigMap { tenant_id, namespace, data } => {
            assert_eq!((tenant_id.as_str(), namespace.as_str()), ("acme", "tenant-acme"));
            assert_eq!((data.tier.as_str(), data.rps, data.burst, data.max_concurrent), ("pro", 200, 400, 50));
        }
        _ => panic!("wrong request"),
    }
    match run.advance(&mut store, Err(K8sError::Other("full".into())), noon()) {
        Progress::Finished(Err(e)) => {
            assert_eq!(e.reason(), "ConfigMapFailed");
            assert_eq!(e.message(), "configmap provisioning failed: full");
        }
        _ => panic!("must fail"),
    }
}

#[test]
fn a_failed_proxy_ends_the_reconcile() {
    let mut store = Store::new();
    let run = begin(&mut store);
    let run = pending(run.advance(&mut store, Ok("tenant-acme".into()), noon()));
    let run = pending(run.advance(&mut store, Ok("cm".into()), noon()));
    match run.request() {
        Request::EnsureProxy(p) => {
            assert_eq!((p.namespace.as_str(), p.config_map_name.as_str(), p.port), ("tenant-acme", "cm", 10000));
        }
        _ => panic!("wrong request"),
    }
    match run.advance(&mut store, Err(K8sError::Other("crash".into())), noon()) {
        Progress::Finished(Err(e)) => {
            assert_eq!(e.reason(), "ProxyFailed");
            assert_eq!(e.message(), "proxy deployment provisioning failed: crash");
        }
        _ => panic!("must fail"),
    }
    assert_eq!(store.logs().len(), 3);
}

fn known_tenant() -> Store {
    let mut store = Store::new();
    store.upsert_tenant(TenantRecord {
        tenant_id: "acme".into(),
        namespace: "elsewhere".into(),
        ..Default::default()
    });
    store
}

#[test]
fn a_failed_teardown_keeps_the_tenant() {
    let mut store = known_tenant();
    let run = match Teardown::start(&mut store, "acme", noon()) {
        TeardownProgress::Pending(run) => run,
        _ => panic!("must wait"),
    };
    match run.request() {
        TeardownRequest::DeleteProxy { tenant_id, namespace } => {
            assert_eq!((tenant_id.as_str(), namespace.as_str()), ("acme", "elsewhere"));
        }
        _ => panic!("wrong request"),
    }
    match run.advance(&mut store, Err(K8sError::Other("no".into())), noon()) {
        TeardownProgress::Finished(Err(ReconcileError::Proxy(e))) => assert_eq!(e, "no"),
        _ => panic!("must fail"),
    }
    assert!(store.get_tenant("acme").is_some());
}

#[test]
fn a_teardown_deletes_the_namespace_last() {
    let mut store = known_tenant();
    let mut rx = store.subscribe();
    let run = match Teardown::start(&mut store, "acme", noon()) {
        TeardownProgress::Pending(run) => run,
        _ => panic!("must wait"),
    };
    let run = match run.advance(&mut store, Ok(()), noon()) {
        TeardownProgress::Pending(run) => run,
        _ => panic!("must wait"),
    };
    assert!(matches!(run.request(), TeardownRequest::DeleteNamespace { tenant_id } if tenant_id == "acme"));
    assert!(store.get_tenant("acme").is_some());
    assert!(matches!(run.advance(&mut store, Ok(()), noon()), TeardownProgress::Finished(Ok(()))));
    assert!(store.get_tenant("acme").is_none());
    let ev = rx.try_recv().unwrap();
    assert_eq!((ev.kind, ev.message.as_str()), (EventKind::TenantDeleted, "Resources removed"));
    assert_eq!(store.logs(), vec!["[12:00:00.000]   🗑  deleting resources for tenant acme".to_string()]);
}

#[test]
fn a_failed_namespace_deletion_is_reported() {
    let mut store = known_tenant();
    let run = match Teardown::start(&mut store, "acme", noon()) {
        TeardownProgress::Pending(run) => run,
        _ => panic!("must wait"),
    };
    let run = match run.advance(&mut store, Ok(()), noon()) {
        TeardownProgress::Pending(run) => run,
        _ => panic!("must wait"),
    };
    match run.advance(&mut store, Err(K8sError::Kube("x".into())), noon()) {
        TeardownProgress::Finished(Err(ReconcileError::Namespace(e))) => assert_eq!(e, "kube api error: x"),
        _ => panic!("must fail"),
    }
    assert!(store.get_tenant("acme").is_some());
}

#[test]
fn a_deleted_proxy_comes_back_with_the_next_reconcile() {
    let mut backend = MockBackend::new();
    let mut store = Store::new();
    let spec = sample_spec("acme");
    reconcile_tenant(&mut backend, &mut store, &spec, 0, None).unwrap();
    backend.delete_proxy_deployment("acme", "tenant-acme").unwrap();
    assert!(backend.deployment("tenant-acme", "acme").is_none());
    reconcile_tenant(&mut backend, &mut store, &spec, 1, None).unwrap();
    assert_eq!(backend.deployment("tenant-acme", "acme").unwrap().port, 10000);
}

// ─── One pass of the operator ─────────────────────────────────────────────────

fn pipeline(finalizers: &[&str], deleting: bool, paused: bool) -> Pipeline {
    let mut spec_ = sample_spec("acme");
    spec_.paused = paused;
    Pipeline {
        spec_,
        deleting,
        finalizers: finalizers.iter().map(|f| f.to_string()).collect(),
        generation: Some(3),
        created_at: None,
        status: None,
    }
}

#[test]
fn plans_follow_finalizers_deletion_and_pause() {
    assert!(matches!(plan(&pipeline(&[], true, false)), Plan::Settled));
    assert!(matches!(plan(&pipeline(&["x"], false, false)), Plan::Claim(f) if f == vec!["x", FINALIZER]));
    assert!(matches!(plan(&pipeline(&[FINALIZER], false, true)), Plan::Hold));
    assert!(matches!(plan(&pipeline(&["x", FINALIZER], false, false)), Plan::Drive));
    let twice = pipeline(&["x", FINALIZER, "y", FINALIZER], true, true);
    assert!(matches!(plan(&twice), Plan::Release(f) if f == vec!["x", "y"]));
}

#[test]
fn requeues_follow_the_plan() {
    assert_eq!(plan(&pipeline(&[], true, false)).requeue(), Requeue::AwaitChange);
    assert_eq!(plan(&pipeline(&[FINALIZER], true, false)).requeue(), Requeue::AwaitChange);
    assert_eq!(plan(&pipeline(&[], false, false)).requeue(), Requeue::After(100));
    assert_eq!(plan(&pipeline(&[FINALIZER], false, true)).requeue(), Requeue::After(30_000));
    assert_eq!(plan(&pipeline(&[FINALIZER], false, false)).requeue(), Requeue::After(15_000));
    assert_eq!(on_error(), Requeue::After(5_000));
}

#[test]
fn a_pass_drives_and_reports() {
    let mut backend = MockBackend::new();
    let mut store = Store::new();
    let mut tp = pipeline(&[FINALIZER], false, false);
    tp.status = Some(TenantPipelineStatus { reconcile_count: 4, ..Default::default() });
    match reconcile_with(&mut backend, &mut store, &tp, &mut stopped()) {
        (Write::Status(status), requeue) => {
            assert_eq!(status.phase, Phase::Ready);
            assert_eq!(status.reconcile_count, 5);
            assert_eq!(status.observed_generation, 3);
            assert_eq!(requeue, Requeue::After(15_000));
        }
        _ => panic!("must write the status"),
    }
    assert!(backend.has_namespace("acme"));
}

#[test]
fn a_pass_takes_down_what_is_going() {
    let mut backend = MockBackend::new();
    let mut store = Store::new();
    reconcile_tenant(&mut backend, &mut store, &sample_spec("acme"), 0, None).unwrap();
    let tp = pipeline(&["x", FINALIZER], true, false);
    match reconcile_with(&mut backend, &mut store, &tp, &mut stopped()) {
        (Write::Object(patch), requeue) => {
            assert_eq!(patch, build_finalizers_patch(&vec!["x".to_string()]));
            let list = patch.field("metadata").unwrap().field("finalizers").unwrap();
            assert_eq!(list.item(0), Some(&Json::text("x")));
            assert_eq!(list.item(1), None);
            assert_eq!(requeue, Requeue::AwaitChange);
        }
        _ => panic!("must write the finalizers"),
    }
    assert!(!backend.has_namespace("acme"));
    assert!(store.get_tenant("acme").is_none());
}

#[test]
fn a_paused_pipeline_is_left_alone() {
    let mut backend = MockBackend::new();
    let mut store = Store::new();
    let (write, requeue) = reconcile_with(&mut backend, &mut store, &pipeline(&[FINALIZER], false, true), &mut stopped());
    assert!(matches!(write, Write::Nothing));
    assert_eq!(requeue, Requeue::After(30_000));
    assert!(!backend.has_namespace("acme"));
    assert!(store.logs().is_empty());
}

#[test]
fn a_failed_drive_is_reported_and_tried_again_soon() {
    let mut store = Store::new();
    let mut tp = pipeline(&[FINALIZER], false, false);
    tp.generation = None;
    assert_eq!(tp.observed_generation(), 0);
    let failed = Err(ReconcileError::ConfigMap("full".into()));
    let (status, requeue) = conclude(&mut store, &tp, &failed, &mut stopped());
    assert_eq!(requeue, Requeue::After(5_000));
    assert_eq!(status.phase, Phase::Degraded);
    assert_eq!(status.conditions[0].reason, "ConfigMapFailed");
    assert_eq!(status.reconcile_count, 0);
    assert_eq!(store.get_tenant("acme").unwrap().phase, TenantPhase::Degraded);
}

#[test]
fn every_step_is_stamped_with_its_own_time() {
    let mut backend = MockBackend::new();
    let mut store = Store::new();
    reconcile_tenant_with(&mut backend, &mut store, &sample_spec("acme"), 0, None, &mut ticking()).unwrap();
    let logs = store.logs();
    let stamps: Vec<&str> = logs.iter().map(|line| &line[..10]).collect();
    assert_eq!(stamps, vec!["[12:00:00.", "[12:00:01.", "[12:00:02.", "[12:00:03.", "[12:00:03."]);
    assert_eq!(store.get_tenant("acme").unwrap().last_reconcile_at, Timestamp::new(43_203, 0));

    let mut rx = store.subscribe();
    handle_deletion_with(&mut backend, &mut store, "acme", &mut ticking()).unwrap();
    assert_eq!(store.logs().last().unwrap(), "[12:00:00.000]   🗑  deleting resources for tenant acme");
    assert_eq!(Some(rx.try_recv().unwrap().timestamp), Timestamp::new(43_202, 0));
}

#[test]
fn every_part_of_a_report_is_stamped_with_its_own_time() {
    let mut store = Store::new();
    let mut rx = store.subscribe();
    let mut status = TenantPipelineStatus::default();
    let err = ReconcileError::Proxy("x".to_string());
    apply_degraded_status_with(&mut store, &mut status, "acme", "Acme Corp", &err, &mut ticking());
    assert!(store.logs()[0].starts_with("[12:00:00.000]"));
    assert_eq!(Some(rx.try_recv().unwrap().timestamp), Timestamp::new(43_201, 0));
    assert_eq!(Some(status.conditions[0].last_transition_time), Timestamp::new(43_202, 0));
    assert_eq!(store.get_tenant("acme").unwrap().last_reconcile_at, Timestamp::new(43_203, 0));
}

#[test]
fn a_degraded_tenant_is_taken_down_where_it_lives() {
    let mut backend = MockBackend::new();
    let mut store = Store::new();
    let mut status = TenantPipelineStatus::default();
    reconcile_tenant(&mut backend, &mut store, &sample_spec("acme"), 0, None).unwrap();
    apply_degraded_status(&mut store, &mut status, "acme", "Acme Corp", &ReconcileError::Proxy("x".into()));
    assert_eq!(store.get_tenant("acme").unwrap().namespace, "");
    assert!(backend.deployment("tenant-acme", "acme").is_some());

    handle_deletion(&mut backend, &mut store, "acme").unwrap();

    assert!(backend.deployment("tenant-acme", "acme").is_none());
    assert!(!backend.has_namespace("acme"));
    assert!(store.get_tenant("acme").is_none());
}

#[test]
fn a_record_leads_to_its_namespace() {
    let named = TenantRecord { tenant_id: "acme".into(), namespace: "elsewhere".into(), ..Default::default() };
    assert_eq!(home(&named), "elsewhere");
    let unnamed = TenantRecord { tenant_id: "acme".into(), ..Default::default() };
    assert_eq!(home(&unnamed), "tenant-acme");
}

#[test]
fn reports_carry_the_moments_they_are_given() {
    let at = |secs: i64| Timestamp::new(secs, 0).unwrap();
    let mut status = TenantPipelineStatus::default();
    let outcome = ReconcileOutcome {
        namespace_name: "ns".into(),
        proxy_pod_name: "p".into(),
        config_map_name: "cm".into(),
        reconcile_count: 1,
    };
    apply_ready_status_at(&mut status, &outcome, 1, at(1), at(2));
    assert_eq!(status.last_reconcile_time, Some("1970-01-01T00:00:01+00:00".to_string()));
    assert_eq!(status.conditions[0].last_transition_time, at(2));

    let mut store = Store::new();
    let mut rx = store.subscribe();
    let err = ReconcileError::Proxy("x".to_string());
    apply_degraded_status_at(&mut store, &mut status, "acme", "Acme", &err, at(3), at(4), at(5), at(6));
    assert!(store.logs()[0].starts_with("[00:00:03.000]"));
    assert_eq!(rx.try_recv().unwrap().timestamp, at(4));
    assert_eq!(status.conditions[0].last_transition_time, at(5));
    assert_eq!(status.conditions.len(), 1);
    assert_eq!(store.get_tenant("acme").unwrap().last_reconcile_at, Some(at(6)));
}
