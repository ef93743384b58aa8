use vanguard::crd::{set_condition, Phase, RateLimitPolicy, TenantPipelineSpec, TenantPipelineStatus, CONDITION_READY};
use vanguard::json::Json;
use vanguard::k8s_backend::mock::MockBackend;
use vanguard::k8s_backend::mock_crd::MockCrdBackend;
use vanguard::k8s_backend::{
    build_configmap_manifest, build_deployment_manifest, build_namespace_manifest, build_policy_patch,
    configmap_name, namespace_name, proxy_name, CrdBackend, K8sBackend, K8sError, ProxySpec, RateLimitData,
};

fn at<'a>(doc: &'a Json, path: &[&str]) -> &'a Json {
    let mut here = doc;
    for step in path {
        here = match step.parse::<usize>() {
            Ok(i) => here.item(i).unwrap(),
            Err(_) => here.field(step).unwrap(),
        };
    }
    here
}

fn text(s: &str) -> Json {
    Json::text(s)
}

#[test]
fn set_condition_updates_in_place_not_append() {
    let mut status = TenantPipelineStatus::default();
    set_condition(&mut status, CONDITION_READY, true, "Reconciled", "ok");
    set_condition(&mut status, CONDITION_READY, false, "ProxyFailed", "boom");

    assert_eq!(
        status.conditions.len(),
        1,
        "condition must be updated in place, not appended"
    );
    assert_eq!(status.conditions[0].status, "False");
    assert_eq!(status.conditions[0].reason, "ProxyFailed");
}

#[test]
fn other_conditions_stay_as_they_were() {
    let mut status = TenantPipelineStatus::default();
    set_condition(&mut status, "Progressing", true, "Working", "busy");
    status.conditions[0].observed_generation = Some(7);
    set_condition(&mut status, CONDITION_READY, true, "Reconciled", "ok");
    set_condition(&mut status, "Progressing", false, "Done", "idle");
    assert_eq!(status.conditions.len(), 2);
    assert_eq!(status.conditions[0].type_, "Progressing");
    assert_eq!(status.conditions[0].status, "False");
    assert_eq!(status.conditions[0].observed_generation, Some(7));
    assert_eq!(status.conditions[1].reason, "Reconciled");
    assert_eq!(status.conditions[1].message, "ok");
    assert_eq!(status.conditions[1].observed_generation, None);
    let copy = status.clone();
    assert_eq!(copy.conditions[1].reason, "Reconciled");
    assert_eq!(status.phase, Phase::Provisioning);
    assert_eq!(Phase::Degraded.as_str(), "Degraded");
}

#[test]
fn mock_ensure_namespace_is_idempotent() {
    let mut backend = MockBackend::new();
    let name1 = backend.ensure_namespace("acme").unwrap();
    let name2 = backend.ensure_namespace("acme").unwrap();
    assert_eq!(name1, "tenant-acme");
    assert_eq!(name1, name2);
    assert!(backend.has_namespace("acme"));
}

#[test]
fn mock_delete_namespace_is_idempotent() {
    let mut backend = MockBackend::new();
    backend.delete_namespace("ghost").unwrap(); // never existed
    backend.ensure_namespace("acme").unwrap();
    backend.delete_namespace("acme").unwrap();
    assert!(!backend.has_namespace("acme"));
}

#[test]
fn mock_configmap_and_deployment_roundtrip() {
    let mut backend = MockBackend::new();
    let ns = backend.ensure_namespace("acme").unwrap();
    backend
        .ensure_configmap(
            "acme",
            &ns,
            RateLimitData {
                tier: "pro".into(),
                rps: 200,
                burst: 400,
                max_concurrent: 50,
            },
        )
        .unwrap();
    assert!(backend.has_configmap(&ns, "acme"));

    backend
        .ensure_proxy_deployment(ProxySpec {
            tenant_id: "acme".into(),
            namespace: ns.clone(),
            image: "envoy".into(),
            port: 10000,
            cpu_milli_limit: 100,
            memory_mib_limit: 64,
            config_map_name: "vanguard-rl-acme".into(),
        })
        .unwrap();
    let dep = backend.deployment(&ns, "acme").unwrap();
    assert_eq!(dep.image, "envoy");

    backend.delete_proxy_deployment("acme", &ns).unwrap();
    assert!(backend.deployment(&ns, "acme").is_none());
}

#[test]
fn deployment_manifest_resource_requests_are_quarter_of_limits() {
    let spec = ProxySpec {
        tenant_id: "acme".into(),
        namespace: "tenant-acme".into(),
        image: "envoy".into(),
        port: 10000,
        cpu_milli_limit: 400,
        memory_mib_limit: 128,
        config_map_name: "cm".into(),
    };
    let manifest = build_deployment_manifest("proxy-acme", &spec);
    let resources = at(&manifest, &["spec", "template", "spec", "containers", "0", "resources"]);
    assert_eq!(at(resources, &["limits", "cpu"]), &text("400m"));
    assert_eq!(at(resources, &["requests", "cpu"]), &text("100m"));
    assert_eq!(
        at(resources, &["limits", "memory"]),
        &text(&(128 * 1024 * 1024).to_string())
    );
    assert_eq!(
        at(resources, &["requests", "memory"]),
        &text(&(128 * 1024 * 1024 / 4).to_string())
    );
}

#[test]
fn deployment_manifest_describes_the_proxy() {
    let spec = ProxySpec {
        tenant_id: "acme".into(),
        namespace: "tenant-acme".into(),
        image: "envoy".into(),
        port: 9000,
        cpu_milli_limit: -5,
        memory_mib_limit: -1,
        config_map_name: "cm".into(),
    };
    let manifest = build_deployment_manifest("proxy-acme", &spec);
    assert_eq!(at(&manifest, &["apiVersion"]), &text("apps/v1"));
    assert_eq!(at(&manifest, &["kind"]), &text("Deployment"));
    assert_eq!(at(&manifest, &["metadata", "name"]), &text("proxy-acme"));
    assert_eq!(at(&manifest, &["metadata", "namespace"]), &text("tenant-acme"));
    assert_eq!(
        at(&manifest, &["metadata", "labels", "app.kubernetes.io/managed-by"]),
        &text("vanguard-operator")
    );
    assert_eq!(at(&manifest, &["spec", "replicas"]), &Json::Int(1));
    assert_eq!(
        at(&manifest, &["spec", "selector", "matchLabels", "vanguard.io/tenant-id"]),
        &text("acme")
    );
    let pod = at(&manifest, &["spec", "template", "spec"]);
    let container = at(pod, &["containers", "0"]);
    assert_eq!(at(container, &["image"]), &text("envoy"));
    assert_eq!(at(container, &["ports", "0", "containerPort"]), &Json::Int(9000));
    assert_eq!(at(container, &["readinessProbe", "tcpSocket", "port"]), &Json::Int(9000));
    assert_eq!(at(container, &["readinessProbe", "periodSeconds"]), &Json::Int(5));
    assert_eq!(at(container, &["volumeMounts", "0", "readOnly"]), &Json::Bool(true));
    assert_eq!(at(container, &["resources", "requests", "cpu"]), &text("-1m"));
    assert_eq!(at(container, &["resources", "requests", "memory"]), &text("-262144"));
    assert_eq!(at(pod, &["volumes", "0", "configMap", "name"]), &text("cm"));
}

#[test]
fn namespace_and_configmap_manifests() {
    let ns = build_namespace_manifest("acme");
    assert_eq!(at(&ns, &["kind"]), &text("Namespace"));
    assert_eq!(at(&ns, &["metadata", "name"]), &text("tenant-acme"));
    assert_eq!(at(&ns, &["metadata", "labels", "vanguard.io/tenant-id"]), &text("acme"));
    let data = RateLimitData { tier: "pro".into(), rps: 200, burst: -1, max_concurrent: 50 };
    let cm = build_configmap_manifest("acme", "tenant-acme", &data);
    assert_eq!(at(&cm, &["metadata", "name"]), &text("vanguard-rl-acme"));
    assert_eq!(at(&cm, &["data", "tier"]), &text("pro"));
    assert_eq!(at(&cm, &["data", "requests_per_s"]), &text("200"));
    assert_eq!(at(&cm, &["data", "burst_capacity"]), &text("-1"));
    assert_eq!(at(&cm, &["data", "max_concurrent"]), &text("50"));
    assert_eq!(at(&cm, &["data", "tenant_id"]), &text("acme"));
}

#[test]
fn policy_patch_names_the_resource_and_the_limits() {
    let patch = build_policy_patch(&RateLimitPolicy {
        tier: "free".into(),
        requests_per_second: 10,
        burst_capacity: 20,
        max_concurrent: 5,
    });
    assert_eq!(at(&patch, &["apiVersion"]), &text("infrastructure.vanguard.io/v1alpha1"));
    assert_eq!(at(&patch, &["kind"]), &text("TenantPipeline"));
    assert_eq!(at(&patch, &["spec", "rateLimit", "tier"]), &text("free"));
    assert_eq!(at(&patch, &["spec", "rateLimit", "requestsPerSecond"]), &Json::Int(10));
    assert_eq!(at(&patch, &["spec", "rateLimit", "burstCapacity"]), &Json::Int(20));
    assert_eq!(at(&patch, &["spec", "rateLimit", "maxConcurrent"]), &Json::Int(5));
}

#[test]
fn mock_crd_backend_create_patch_delete() {
    let mut crd_backend = MockCrdBackend::new();

    let spec = TenantPipelineSpec {
        tenant_id: "acme".into(),
        display_name: "Acme Corp".into(),
        rate_limit: RateLimitPolicy {
            tier: "free".into(),
            requests_per_second: 10,
            burst_capacity: 20,
            max_concurrent: 5,
        },
        proxy: Default::default(),
        paused: false,
    };
    crd_backend.create(spec.clone()).unwrap();
    assert_eq!(crd_backend.get("acme").unwrap().rate_limit.tier, "free");

    let patched = crd_backend
        .patch_policy(
            "acme",
            RateLimitPolicy {
                tier: "enterprise".into(),
                requests_per_second: 5000,
                burst_capacity: 10000,
                max_concurrent: 500,
            },
        )
        .unwrap();
    assert!(patched);
    assert_eq!(
        crd_backend.get("acme").unwrap().rate_limit.tier,
        "enterprise"
    );
    assert_eq!(crd_backend.list().len(), 1);

    // Patching a tenant that doesn't exist must report "not found", not silently succeed.
    let patched_missing = crd_backend
        .patch_policy("ghost", RateLimitPolicy::default())
        .unwrap();
    assert!(!patched_missing);

    let deleted = crd_backend.delete("acme").unwrap();
    assert!(deleted);
    assert!(crd_backend.get("acme").is_none());
    assert!(!crd_backend.delete("acme").unwrap()); // already gone
}

#[test]
fn names_and_errors_are_printed() {
    assert_eq!(namespace_name("acme"), "tenant-acme");
    assert_eq!(configmap_name("acme"), "vanguard-rl-acme");
    assert_eq!(proxy_name("acme"), "proxy-acme");
    assert_ne!(namespace_name("acme"), namespace_name("acme-"));
    assert_ne!(configmap_name(""), configmap_name("a"));
    assert_ne!(proxy_name("b"), proxy_name("a"));
    assert_eq!(K8sError::Kube("down".into()).message(), "kube api error: down");
    assert_eq!(K8sError::Other("odd".into()).message(), "odd");
}

#[test]
fn backend_data_has_blank_defaults_and_copies() {
    let limits = RateLimitData { tier: "pro".into(), rps: 1, burst: 2, max_concurrent: 3 };
    let copy = limits.clone();
    assert_eq!((copy.tier.as_str(), copy.rps, copy.burst, copy.max_concurrent), ("pro", 1, 2, 3));
    let blank = RateLimitData::default();
    assert_eq!((blank.tier.as_str(), blank.rps, blank.burst, blank.max_concurrent), ("", 0, 0, 0));
    let blank = ProxySpec::default();
    assert_eq!((blank.tenant_id.as_str(), blank.namespace.as_str(), blank.image.as_str()), ("", "", ""));
    assert_eq!((blank.port, blank.cpu_milli_limit, blank.memory_mib_limit), (0, 0, 0));
    assert_eq!(blank.config_map_name, "");
}
