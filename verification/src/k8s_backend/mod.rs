//! Namespace, ConfigMap and Deployment lifecycle: the names and manifests of
//! a tenant's resources, and the interfaces through which they are brought
//! about.

pub mod mock;
pub mod mock_crd;

use crate::crd::{
    RateLimitPolicy, RateLimitPolicyView, TenantPipelineSpec, TenantPipelineSpecView, GROUP, KIND, VERSION,
};
use crate::json::{in_field, in_item, items, lemma_member_is_field, member_count, members, Json, JsonView};
use crate::text::{decimal, decimal_text, decimal_value, law_decimal_reads_back};
use vstd::prelude::*;

verus! {

pub const MANAGED_BY_LABEL: &'static str = "app.kubernetes.io/managed-by";

pub const MANAGED_BY_VALUE: &'static str = "vanguard-operator";

pub const TENANT_LABEL: &'static str = "vanguard.io/tenant-id";

/// Under which name the operator applies its manifests.
pub const FIELD_MANAGER: &'static str = "vanguard-operator";

/// Why a cluster operation failed. The API server's own errors are carried as
/// the text they print.
#[derive(Debug)]
pub enum K8sError {
    Kube(String),
    Other(String),
}

pub enum K8sErrorView {
    Kube(Seq<char>),
    Other(Seq<char>),
}

impl K8sErrorView {
    pub open spec fn message(self) -> Seq<char> {
        match self {
            K8sErrorView::Kube(t) => "kube api error: "@ + t,
            K8sErrorView::Other(t) => t,
        }
    }
}

impl View for K8sError {
    type V = K8sErrorView;

    open spec fn view(&self) -> K8sErrorView {
        match self {
            K8sError::Kube(t) => K8sErrorView::Kube(t@),
            K8sError::Other(t) => K8sErrorView::Other(t@),
        }
    }
}

impl K8sError {
    /// The error as it is printed.
    pub fn message(&self) -> (r: String)
        ensures
            r@ == self@.message(),
    {
        match self {
            K8sError::Kube(t) => "kube api error: ".to_owned().concat(t.as_str()),
            K8sError::Other(t) => t.clone(),
        }
    }
}

/// What came back of an operation that names a resource.
pub open spec fn named(r: Result<String, K8sError>) -> Result<Seq<char>, K8sErrorView> {
    match r {
        Ok(name) => Ok(name@),
        Err(e) => Err(e@),
    }
}

/// What came back of an operation that has no result.
pub open spec fn unit(r: Result<(), K8sError>) -> Result<(), K8sErrorView> {
    match r {
        Ok(()) => Ok(()),
        Err(e) => Err(e@),
    }
}

/// What came back of an operation that reports whether its object existed.
pub open spec fn found(r: Result<bool, K8sError>) -> Result<bool, K8sErrorView> {
    match r {
        Ok(b) => Ok(b),
        Err(e) => Err(e@),
    }
}

/// The rate limits written into a tenant's ConfigMap.
#[derive(Debug)]
pub struct RateLimitData {
    pub tier: String,
    pub rps: i32,
    pub burst: i32,
    pub max_concurrent: i32,
}

pub struct RateLimitDataView {
    pub tier: Seq<char>,
    pub rps: i32,
    pub burst: i32,
    pub max_concurrent: i32,
}

impl View for RateLimitData {
    type V = RateLimitDataView;

    open spec fn view(&self) -> RateLimitDataView {
        RateLimitDataView {
            tier: self.tier@,
            rps: self.rps,
            burst: self.burst,
            max_concurrent: self.max_concurrent,
        }
    }
}

impl Clone for RateLimitData {
    fn clone(&self) -> (r: Self)
        ensures
            r@ == self@,
    {
        RateLimitData {
            tier: self.tier.clone(),
            rps: self.rps,
            burst: self.burst,
            max_concurrent: self.max_concurrent,
        }
    }
}

impl Default for RateLimitData {
    fn default() -> (r: Self)
        ensures
            r@ == (RateLimitDataView { tier: Seq::empty(), rps: 0, burst: 0, max_concurrent: 0 }),
    {
        RateLimitData { tier: String::new(), rps: 0, burst: 0, max_concurrent: 0 }
    }
}

/// A tenant's proxy deployment.
#[derive(Debug)]
pub struct ProxySpec {
    pub tenant_id: String,
    pub namespace: String,
    pub image: String,
    pub port: i32,
    pub cpu_milli_limit: i64,
    pub memory_mib_limit: i64,
    pub config_map_name: String,
}

pub struct ProxySpecView {
    pub tenant_id: Seq<char>,
    pub namespace: Seq<char>,
    pub image: Seq<char>,
    pub port: i32,
    pub cpu_milli_limit: i64,
    pub memory_mib_limit: i64,
    pub config_map_name: Seq<char>,
}

impl View for ProxySpec {
    type V = ProxySpecView;

    open spec fn view(&self) -> ProxySpecView {
        ProxySpecView {
            tenant_id: self.tenant_id@,
            namespace: self.namespace@,
            image: self.image@,
            port: self.port,
            cpu_milli_limit: self.cpu_milli_limit,
            memory_mib_limit: self.memory_mib_limit,
            config_map_name: self.config_map_name@,
        }
    }
}

impl Clone for ProxySpec {
    fn clone(&self) -> (r: Self)
        ensures
            r@ == self@,
    {
        ProxySpec {
            tenant_id: self.tenant_id.clone(),
            namespace: self.namespace.clone(),
            image: self.image.clone(),
            port: self.port,
            cpu_milli_limit: self.cpu_milli_limit,
            memory_mib_limit: self.memory_mib_limit,
            config_map_name: self.config_map_name.clone(),
        }
    }
}

impl Default for ProxySpec {
    fn default() -> (r: Self)
        ensures
            r@ == (ProxySpecView {
                tenant_id: Seq::empty(),
                namespace: Seq::empty(),
                image: Seq::empty(),
                port: 0,
                cpu_milli_limit: 0,
                memory_mib_limit: 0,
                config_map_name: Seq::empty(),
            }),
    {
        ProxySpec {
            tenant_id: String::new(),
            namespace: String::new(),
            image: String::new(),
            port: 0,
            cpu_milli_limit: 0,
            memory_mib_limit: 0,
            config_map_name: String::new(),
        }
    }
}

/// The namespace of a tenant.
pub open spec fn namespace_of(tenant_id: Seq<char>) -> Seq<char> {
    "tenant-"@ + tenant_id
}

/// The ConfigMap of a tenant.
pub open spec fn configmap_of(tenant_id: Seq<char>) -> Seq<char> {
    "vanguard-rl-"@ + tenant_id
}

/// The proxy deployment of a tenant.
pub open spec fn proxy_of(tenant_id: Seq<char>) -> Seq<char> {
    "proxy-"@ + tenant_id
}

pub fn namespace_name(tenant_id: &str) -> (r: String)
    ensures
        r@ == namespace_of(tenant_id@),
{
    "tenant-".to_owned().concat(tenant_id)
}

pub fn configmap_name(tenant_id: &str) -> (r: String)
    ensures
        r@ == configmap_of(tenant_id@),
{
    "vanguard-rl-".to_owned().concat(tenant_id)
}

pub fn proxy_name(tenant_id: &str) -> (r: String)
    ensures
        r@ == proxy_of(tenant_id@),
{
    "proxy-".to_owned().concat(tenant_id)
}

/// Different tenants never share a namespace, a ConfigMap name or a proxy
/// name.
pub proof fn law_names_do_not_collide(a: Seq<char>, b: Seq<char>)
    requires
        a != b,
    ensures
        namespace_of(a) != namespace_of(b),
        configmap_of(a) != configmap_of(b),
        proxy_of(a) != proxy_of(b),
{
    lemma_prefix_injective("tenant-"@, a, b);
    lemma_prefix_injective("vanguard-rl-"@, a, b);
    lemma_prefix_injective("proxy-"@, a, b);
}

proof fn lemma_prefix_injective(p: Seq<char>, a: Seq<char>, b: Seq<char>)
    requires
        a != b,
    ensures
        p + a != p + b,
{
    if p + a == p + b {
        assert(a =~= (p + a).subrange(p.len() as int, (p + a).len() as int));
        assert(b =~= (p + b).subrange(p.len() as int, (p + b).len() as int));
    }
}

/// The cluster operations that reconciling a tenant needs. Each method comes
/// with the relation between the backend before the call, what the call
/// returned, and the backend after it.
pub trait K8sBackend: Sized {
    spec fn namespace_ensured(
        self,
        tenant_id: Seq<char>,
        reply: Result<Seq<char>, K8sErrorView>,
        post: Self,
    ) -> bool;

    spec fn namespace_deleted(self, tenant_id: Seq<char>, reply: Result<(), K8sErrorView>, post: Self) -> bool;

    spec fn configmap_ensured(
        self,
        tenant_id: Seq<char>,
        namespace: Seq<char>,
        data: RateLimitDataView,
        reply: Result<Seq<char>, K8sErrorView>,
        post: Self,
    ) -> bool;

    spec fn proxy_ensured(
        self,
        spec_: ProxySpecView,
        reply: Result<Seq<char>, K8sErrorView>,
        post: Self,
    ) -> bool;

    spec fn proxy_deleted(
        self,
        tenant_id: Seq<char>,
        namespace: Seq<char>,
        reply: Result<(), K8sErrorView>,
        post: Self,
    ) -> bool;

    fn ensure_namespace(&mut self, tenant_id: &str) -> (r: Result<String, K8sError>)
        ensures
            old(self).namespace_ensured(tenant_id@, named(r), *final(self)),
    ;

    fn delete_namespace(&mut self, tenant_id: &str) -> (r: Result<(), K8sError>)
        ensures
            old(self).namespace_deleted(tenant_id@, unit(r), *final(self)),
    ;

    fn ensure_configmap(
        &mut self,
        tenant_id: &str,
        namespace: &str,
        data: RateLimitData,
    ) -> (r: Result<String, K8sError>)
        ensures
            old(self).configmap_ensured(tenant_id@, namespace@, data@, named(r), *final(self)),
    ;

    fn ensure_proxy_deployment(&mut self, spec_: ProxySpec) -> (r: Result<String, K8sError>)
        ensures
            old(self).proxy_ensured(spec_@, named(r), *final(self)),
    ;

    fn delete_proxy_deployment(&mut self, tenant_id: &str, namespace: &str) -> (r: Result<(), K8sError>)
        ensures
            old(self).proxy_deleted(tenant_id@, namespace@, unit(r), *final(self)),
    ;
}

/// The operations on TenantPipeline objects themselves that the REST API
/// needs, each with the relation that its calls keep.
pub trait CrdBackend: Sized {
    spec fn created(self, spec_: TenantPipelineSpecView, reply: Result<(), K8sErrorView>, post: Self) -> bool;

    spec fn policy_patched(
        self,
        tenant_id: Seq<char>,
        policy: RateLimitPolicyView,
        reply: Result<bool, K8sErrorView>,
        post: Self,
    ) -> bool;

    spec fn deleted(self, tenant_id: Seq<char>, reply: Result<bool, K8sErrorView>, post: Self) -> bool;

    fn create(&mut self, spec_: TenantPipelineSpec) -> (r: Result<(), K8sError>)
        ensures
            old(self).created(spec_@, unit(r), *final(self)),
    ;

    /// Returns `false` if no TenantPipeline with that name exists.
    fn patch_policy(&mut self, tenant_id: &str, policy: RateLimitPolicy) -> (r: Result<bool, K8sError>)
        ensures
            old(self).policy_patched(tenant_id@, policy@, found(r), *final(self)),
    ;

    /// Returns `false` if no TenantPipeline with that name exists.
    fn delete(&mut self, tenant_id: &str) -> (r: Result<bool, K8sError>)
        ensures
            old(self).deleted(tenant_id@, found(r), *final(self)),
    ;
}

// ─── Manifests ────────────────────────────────────────────────────────────────

/// A member of an object whose value is a text.
pub open spec fn text_member(name: Seq<char>, value: Seq<char>) -> (Seq<char>, JsonView) {
    (name, JsonView::Text(value))
}

/// The labels that mark a resource as the operator's own.
pub open spec fn ownership_labels(tenant_id: Seq<char>) -> JsonView {
    JsonView::Object(
        seq![text_member(MANAGED_BY_LABEL@, MANAGED_BY_VALUE@), text_member(TENANT_LABEL@, tenant_id)],
    )
}

fn build_ownership_labels(tenant_id: &str) -> (r: Json)
    ensures
        r@ == ownership_labels(tenant_id@),
{
    let fields = vec![
        Json::member(MANAGED_BY_LABEL, Json::text(MANAGED_BY_VALUE)),
        Json::member(TENANT_LABEL, Json::text(tenant_id)),
    ];
    assert(members(fields@) =~= ownership_labels(tenant_id@)->Object_0);
    Json::object(fields)
}

/// The manifest of a tenant's namespace.
pub open spec fn namespace_manifest(tenant_id: Seq<char>) -> JsonView {
    JsonView::Object(
        seq![
            text_member("apiVersion"@, "v1"@),
            text_member("kind"@, "Namespace"@),
            (
                "metadata"@,
                JsonView::Object(
                    seq![
                        text_member("name"@, namespace_of(tenant_id)),
                        ("labels"@, ownership_labels(tenant_id)),
                    ],
                ),
            ),
        ],
    )
}

/// Builds the manifest of a tenant's namespace.
pub fn build_namespace_manifest(tenant_id: &str) -> (r: Json)
    ensures
        r@ == namespace_manifest(tenant_id@),
{
    let metadata = vec![
        Json::member("name", Json::text(namespace_name(tenant_id).as_str())),
        Json::member("labels", build_ownership_labels(tenant_id)),
    ];
    let ghost meta = members(metadata@);
    assert(meta =~= namespace_manifest(tenant_id@)->Object_0[2].1->Object_0);
    let fields = vec![
        Json::member("apiVersion", Json::text("v1")),
        Json::member("kind", Json::text("Namespace")),
        Json::member("metadata", Json::object(metadata)),
    ];
    assert(members(fields@) =~= namespace_manifest(tenant_id@)->Object_0);
    Json::object(fields)
}

/// The manifest of a tenant's ConfigMap, from which the proxy reads its rate
/// limits.
pub open spec fn configmap_manifest(
    tenant_id: Seq<char>,
    namespace: Seq<char>,
    data: RateLimitDataView,
) -> JsonView {
    JsonView::Object(
        seq![
            text_member("apiVersion"@, "v1"@),
            text_member("kind"@, "ConfigMap"@),
            (
                "metadata"@,
                JsonView::Object(
                    seq![
                        text_member("name"@, configmap_of(tenant_id)),
                        text_member("namespace"@, namespace),
                        ("labels"@, ownership_labels(tenant_id)),
                    ],
                ),
            ),
            (
                "data"@,
                JsonView::Object(
                    seq![
                        text_member("tier"@, data.tier),
                        text_member("requests_per_s"@, decimal_text(data.rps as int)),
                        text_member("burst_capacity"@, decimal_text(data.burst as int)),
                        text_member("max_concurrent"@, decimal_text(data.max_concurrent as int)),
                        text_member("tenant_id"@, tenant_id),
                    ],
                ),
            ),
        ],
    )
}

/// Builds the manifest of a tenant's ConfigMap.
pub fn build_configmap_manifest(tenant_id: &str, namespace: &str, data: &RateLimitData) -> (r: Json)
    ensures
        r@ == configmap_manifest(tenant_id@, namespace@, data@),
{
    let ghost whole = configmap_manifest(tenant_id@, namespace@, data@)->Object_0;
    let metadata = vec![
        Json::member("name", Json::text(configmap_name(tenant_id).as_str())),
        Json::member("namespace", Json::text(namespace)),
        Json::member("labels", build_ownership_labels(tenant_id)),
    ];
    assert(members(metadata@) =~= whole[2].1->Object_0);
    let values = vec![
        Json::member("tier", Json::text(data.tier.as_str())),
        Json::member("requests_per_s", Json::text(decimal(data.rps as i64).as_str())),
        Json::member("burst_capacity", Json::text(decimal(data.burst as i64).as_str())),
        Json::member("max_concurrent", Json::text(decimal(data.max_concurrent as i64).as_str())),
        Json::member("tenant_id", Json::text(tenant_id)),
    ];
    assert(members(values@) =~= whole[3].1->Object_0);
    let fields = vec![
        Json::member("apiVersion", Json::text("v1")),
        Json::member("kind", Json::text("ConfigMap")),
        Json::member("metadata", Json::object(metadata)),
        Json::member("data", Json::object(values)),
    ];
    assert(members(fields@) =~= whole);
    Json::object(fields)
}

/// A fourth, rounded toward zero.
pub open spec fn quarter(n: int) -> int {
    if n >= 0 {
        n / 4
    } else {
        -((-n) / 4)
    }
}

/// A memory limit in bytes.
pub open spec fn bytes_of_mib(mib: int) -> int {
    mib * 1024 * 1024
}

/// A memory limit that can be written in bytes.
pub open spec fn memory_fits(mib: int) -> bool {
    i64::MIN <= bytes_of_mib(mib) <= i64::MAX
}

/// The labels by which a deployment finds its pods.
pub open spec fn pod_labels(tenant_id: Seq<char>) -> JsonView {
    JsonView::Object(seq![text_member(TENANT_LABEL@, tenant_id), text_member("app"@, "vanguard-proxy"@)])
}

/// An amount of processor time, in thousandths of a core.
pub open spec fn milli_cpu(n: int) -> Seq<char> {
    decimal_text(n) + "m"@
}

/// Processor time and memory, as Kubernetes writes quantities.
pub open spec fn quantities(cpu_milli: int, memory_bytes: int) -> JsonView {
    JsonView::Object(
        seq![
            text_member("cpu"@, milli_cpu(cpu_milli)),
            text_member("memory"@, decimal_text(memory_bytes)),
        ],
    )
}

/// The container's limits, and a quarter of them as its requests.
pub open spec fn container_resources(cpu_milli: int, memory_mib: int) -> JsonView {
    JsonView::Object(
        seq![
            ("limits"@, quantities(cpu_milli, bytes_of_mib(memory_mib))),
            ("requests"@, quantities(quarter(cpu_milli), quarter(bytes_of_mib(memory_mib)))),
        ],
    )
}

/// A container requests a quarter of its limits, rounded toward zero, and so
/// never more than them.
pub proof fn law_requests_are_a_quarter_of_limits(cpu_milli: int, memory_mib: int)
    requires
        cpu_milli >= 0,
        memory_mib >= 0,
    ensures
        4 * quarter(cpu_milli) <= cpu_milli < 4 * quarter(cpu_milli) + 4,
        4 * quarter(bytes_of_mib(memory_mib)) == bytes_of_mib(memory_mib),
        container_resources(cpu_milli, memory_mib)->Object_0[0].1 == quantities(
            cpu_milli,
            bytes_of_mib(memory_mib),
        ),
        container_resources(cpu_milli, memory_mib)->Object_0[1].1 == quantities(
            quarter(cpu_milli),
            quarter(bytes_of_mib(memory_mib)),
        ),
{
}

/// The proxy container.
pub open spec fn proxy_container(s: ProxySpecView) -> JsonView {
    JsonView::Object(
        seq![
            text_member("name"@, "proxy"@),
            text_member("image"@, s.image),
            (
                "ports"@,
                JsonView::Array(
                    seq![
                        JsonView::Object(
                            seq![
                                ("containerPort"@, JsonView::Int(s.port as i64)),
                                text_member("protocol"@, "TCP"@),
                            ],
                        ),
                    ],
                ),
            ),
            ("resources"@, container_resources(s.cpu_milli_limit as int, s.memory_mib_limit as int)),
            (
                "volumeMounts"@,
                JsonView::Array(
                    seq![
                        JsonView::Object(
                            seq![
                                text_member("name"@, "rl-config"@),
                                text_member("mountPath"@, "/etc/vanguard/rl"@),
                                ("readOnly"@, JsonView::Bool(true)),
                            ],
                        ),
                    ],
                ),
            ),
            (
                "readinessProbe"@,
                JsonView::Object(
                    seq![
                        (
                            "tcpSocket"@,
                            JsonView::Object(seq![("port"@, JsonView::Int(s.port as i64))]),
                        ),
                        ("initialDelaySeconds"@, JsonView::Int(3)),
                        ("periodSeconds"@, JsonView::Int(5)),
                    ],
                ),
            ),
        ],
    )
}

/// The pods of a proxy deployment.
pub open spec fn pod_template(s: ProxySpecView) -> JsonView {
    JsonView::Object(
        seq![
            ("metadata"@, JsonView::Object(seq![("labels"@, pod_labels(s.tenant_id))])),
            (
                "spec"@,
                JsonView::Object(
                    seq![
                        ("containers"@, JsonView::Array(seq![proxy_container(s)])),
                        (
                            "volumes"@,
                            JsonView::Array(
                                seq![
                                    JsonView::Object(
                                        seq![
                                            text_member("name"@, "rl-config"@),
                                            (
                                                "configMap"@,
                                                JsonView::Object(seq![text_member("name"@, s.config_map_name)]),
                                            ),
                                        ],
                                    ),
                                ],
                            ),
                        ),
                    ],
                ),
            ),
        ],
    )
}

/// The manifest of a proxy deployment.
pub open spec fn deployment_manifest(name: Seq<char>, s: ProxySpecView) -> JsonView {
    JsonView::Object(
        seq![
            text_member("apiVersion"@, "apps/v1"@),
            text_member("kind"@, "Deployment"@),
            (
                "metadata"@,
                JsonView::Object(
                    seq![
                        text_member("name"@, name),
                        text_member("namespace"@, s.namespace),
                        (
                            "labels"@,
                            JsonView::Object(
                                seq![
                                    text_member(MANAGED_BY_LABEL@, MANAGED_BY_VALUE@),
                                    text_member(TENANT_LABEL@, s.tenant_id),
                                    text_member("app"@, "vanguard-proxy"@),
                                ],
                            ),
                        ),
                    ],
                ),
            ),
            (
                "spec"@,
                JsonView::Object(
                    seq![
                        ("replicas"@, JsonView::Int(1)),
                        ("selector"@, JsonView::Object(seq![("matchLabels"@, pod_labels(s.tenant_id))])),
                        ("template"@, pod_template(s)),
                    ],
                ),
            ),
        ],
    )
}

fn build_pod_labels(tenant_id: &str) -> (r: Json)
    ensures
        r@ == pod_labels(tenant_id@),
{
    let fields = vec![
        Json::member(TENANT_LABEL, Json::text(tenant_id)),
        Json::member("app", Json::text("vanguard-proxy")),
    ];
    assert(members(fields@) =~= pod_labels(tenant_id@)->Object_0);
    Json::object(fields)
}

fn build_quantities(cpu_milli: i64, memory_bytes: i64) -> (r: Json)
    ensures
        r@ == quantities(cpu_milli as int, memory_bytes as int),
{
    let cpu = decimal(cpu_milli).concat("m");
    let memory = decimal(memory_bytes);
    let fields = vec![
        Json::member("cpu", Json::text(cpu.as_str())),
        Json::member("memory", Json::text(memory.as_str())),
    ];
    assert(members(fields@) =~= quantities(cpu_milli as int, memory_bytes as int)->Object_0);
    Json::object(fields)
}

fn build_container_resources(cpu_milli: i64, memory_mib: i64) -> (r: Json)
    requires
        memory_fits(memory_mib as int),
    ensures
        r@ == container_resources(cpu_milli as int, memory_mib as int),
{
    let memory_bytes: i64 = memory_mib * 1024 * 1024;
    let fields = vec![
        Json::member("limits", build_quantities(cpu_milli, memory_bytes)),
        Json::member("requests", build_quantities(cpu_milli / 4, memory_bytes / 4)),
    ];
    assert(members(fields@) =~= container_resources(cpu_milli as int, memory_mib as int)->Object_0);
    Json::object(fields)
}

/// An object with a single member.
fn single(name: &str, value: Json) -> (r: Json)
    ensures
        r@ == JsonView::Object(seq![(name@, value@)]),
{
    let fields = vec![Json::member(name, value)];
    assert(members(fields@) =~= seq![(name@, value@)]);
    Json::object(fields)
}

/// An array with a single item.
fn sole(value: Json) -> (r: Json)
    ensures
        r@ == JsonView::Array(seq![value@]),
{
    let list = vec![value];
    assert(items(list@) =~= seq![value@]);
    Json::array(list)
}

fn build_proxy_container(s: &ProxySpec) -> (r: Json)
    requires
        memory_fits(s.memory_mib_limit as int),
    ensures
        r@ == proxy_container(s@),
{
    let ghost whole = proxy_container(s@)->Object_0;
    let port = vec![
        Json::member("containerPort", Json::Int(s.port as i64)),
        Json::member("protocol", Json::text("TCP")),
    ];
    assert(members(port@) =~= whole[2].1->Array_0[0]->Object_0);
    let mount = vec![
        Json::member("name", Json::text("rl-config")),
        Json::member("mountPath", Json::text("/etc/vanguard/rl")),
        Json::member("readOnly", Json::Bool(true)),
    ];
    assert(members(mount@) =~= whole[4].1->Array_0[0]->Object_0);
    let probe = vec![
        Json::member("tcpSocket", single("port", Json::Int(s.port as i64))),
        Json::member("initialDelaySeconds", Json::Int(3)),
        Json::member("periodSeconds", Json::Int(5)),
    ];
    assert(members(probe@) =~= whole[5].1->Object_0);
    let ports = sole(Json::object(port));
    let resources = build_container_resources(s.cpu_milli_limit, s.memory_mib_limit);
    let mounts = sole(Json::object(mount));
    let fields = vec![
        Json::member("name", Json::text("proxy")),
        Json::member("image", Json::text(s.image.as_str())),
        Json::member("ports", ports),
        Json::member("resources", resources),
        Json::member("volumeMounts", mounts),
        Json::member("readinessProbe", Json::object(probe)),
    ];
    assert(members(fields@) =~= whole);
    Json::object(fields)
}

fn build_pod_template(s: &ProxySpec) -> (r: Json)
    requires
        memory_fits(s.memory_mib_limit as int),
    ensures
        r@ == pod_template(s@),
{
    let ghost whole = pod_template(s@)->Object_0;
    let ghost inner = whole[1].1->Object_0;
    let volume = vec![
        Json::member("name", Json::text("rl-config")),
        Json::member("configMap", single("name", Json::text(s.config_map_name.as_str()))),
    ];
    assert(members(volume@) =~= inner[1].1->Array_0[0]->Object_0);
    let pod = vec![
        Json::member("containers", sole(build_proxy_container(s))),
        Json::member("volumes", sole(Json::object(volume))),
    ];
    assert(members(pod@) =~= inner);
    let fields = vec![
        Json::member("metadata", single("labels", build_pod_labels(s.tenant_id.as_str()))),
        Json::member("spec", Json::object(pod)),
    ];
    assert(members(fields@) =~= whole);
    Json::object(fields)
}

/// Builds the manifest of a proxy deployment.
pub fn build_deployment_manifest(name: &str, s: &ProxySpec) -> (r: Json)
    requires
        memory_fits(s.memory_mib_limit as int),
    ensures
        r@ == deployment_manifest(name@, s@),
{
    let ghost whole = deployment_manifest(name@, s@)->Object_0;
    let labels = vec![
        Json::member(MANAGED_BY_LABEL, Json::text(MANAGED_BY_VALUE)),
        Json::member(TENANT_LABEL, Json::text(s.tenant_id.as_str())),
        Json::member("app", Json::text("vanguard-proxy")),
    ];
    assert(members(labels@) =~= whole[2].1->Object_0[2].1->Object_0);
    let metadata = vec![
        Json::member("name", Json::text(name)),
        Json::member("namespace", Json::text(s.namespace.as_str())),
        Json::member("labels", Json::object(labels)),
    ];
    assert(members(metadata@) =~= whole[2].1->Object_0);
    let body = vec![
        Json::member("replicas", Json::Int(1)),
        Json::member("selector", single("matchLabels", build_pod_labels(s.tenant_id.as_str()))),
        Json::member("template", build_pod_template(s)),
    ];
    assert(members(body@) =~= whole[3].1->Object_0);
    let fields = vec![
        Json::member("apiVersion", Json::text("apps/v1")),
        Json::member("kind", Json::text("Deployment")),
        Json::member("metadata", Json::object(metadata)),
        Json::member("spec", Json::object(body)),
    ];
    assert(members(fields@) =~= whole);
    Json::object(fields)
}

/// The patch that rewrites the rate limits of a TenantPipeline.
pub open spec fn policy_patch(policy: RateLimitPolicyView) -> JsonView {
    JsonView::Object(
        seq![
            text_member("apiVersion"@, GROUP@ + "/"@ + VERSION@),
            text_member("kind"@, KIND@),
            (
                "spec"@,
                JsonView::Object(
                    seq![
                        (
                            "rateLimit"@,
                            JsonView::Object(
                                seq![
                                    text_member("tier"@, policy.tier),
                                    (
                                        "requestsPerSecond"@,
                                        JsonView::Int(policy.requests_per_second as i64),
                                    ),
                                    ("burstCapacity"@, JsonView::Int(policy.burst_capacity as i64)),
                                    ("maxConcurrent"@, JsonView::Int(policy.max_concurrent as i64)),
                                ],
                            ),
                        ),
                    ],
                ),
            ),
        ],
    )
}

/// Builds the patch that rewrites the rate limits of a TenantPipeline.
pub fn build_policy_patch(policy: &RateLimitPolicy) -> (r: Json)
    ensures
        r@ == policy_patch(policy@),
{
    let ghost whole = policy_patch(policy@)->Object_0;
    let limits = vec![
        Json::member("tier", Json::text(policy.tier.as_str())),
        Json::member("requestsPerSecond", Json::Int(policy.requests_per_second as i64)),
        Json::member("burstCapacity", Json::Int(policy.burst_capacity as i64)),
        Json::member("maxConcurrent", Json::Int(policy.max_concurrent as i64)),
    ];
    assert(members(limits@) =~= whole[2].1->Object_0[0].1->Object_0);
    let api_version = GROUP.to_owned().concat("/").concat(VERSION);
    let fields = vec![
        Json::member("apiVersion", Json::text(api_version.as_str())),
        Json::member("kind", Json::text(KIND)),
        Json::member("spec", single("rateLimit", Json::object(limits))),
    ];
    assert(members(fields@) =~= whole);
    Json::object(fields)
}

// ─── Laws ─────────────────────────────────────────────────────────────────────

/// The names of a tenant's resources are its identifier behind a fixed prefix.
pub proof fn law_resources_are_named_after_their_tenant(tenant_id: Seq<char>)
    ensures
        namespace_of(tenant_id) == "tenant-"@ + tenant_id,
        configmap_of(tenant_id) == "vanguard-rl-"@ + tenant_id,
        proxy_of(tenant_id) == "proxy-"@ + tenant_id,
{
}

/// A cluster error prints the text it carries; the API server's own errors say
/// where they come from.
pub proof fn law_cluster_errors_carry_their_text(text: Seq<char>)
    ensures
        K8sErrorView::Kube(text).message() == "kube api error: "@ + text,
        K8sErrorView::Other(text).message() == text,
{
}

/// What a contract says of rate limits, of a proxy, of an error and of what a
/// call returned is what their own fields hold.
pub proof fn law_cluster_data_is_read_field_by_field(
    limits: RateLimitData,
    proxy: ProxySpec,
    text: String,
    named_reply: Result<String, K8sError>,
    unit_reply: Result<(), K8sError>,
    found_reply: Result<bool, K8sError>,
)
    ensures
        limits@.tier == limits.tier@,
        limits@.rps == limits.rps,
        limits@.burst == limits.burst,
        limits@.max_concurrent == limits.max_concurrent,
        proxy@.tenant_id == proxy.tenant_id@,
        proxy@.namespace == proxy.namespace@,
        proxy@.image == proxy.image@,
        proxy@.port == proxy.port,
        proxy@.cpu_milli_limit == proxy.cpu_milli_limit,
        proxy@.memory_mib_limit == proxy.memory_mib_limit,
        proxy@.config_map_name == proxy.config_map_name@,
        K8sError::Kube(text)@ == K8sErrorView::Kube(text@),
        K8sError::Other(text)@ == K8sErrorView::Other(text@),
        named_reply matches Ok(s) ==> named(named_reply) == Ok::<Seq<char>, K8sErrorView>(s@),
        named_reply matches Err(e) ==> named(named_reply) == Err::<Seq<char>, K8sErrorView>(e@),
        unit_reply is Ok <==> unit(unit_reply) is Ok,
        unit_reply matches Err(e) ==> unit(unit_reply) == Err::<(), K8sErrorView>(e@),
        found_reply matches Ok(b) ==> found(found_reply) == Ok::<bool, K8sErrorView>(b),
        found_reply matches Err(e) ==> found(found_reply) == Err::<bool, K8sErrorView>(e@),
{
}

/// The labels of a resource that the operator owns, and for which tenant.
pub open spec fn owned_for(tenant_id: Seq<char>, labels: Option<JsonView>) -> bool {
    &&& in_field(labels, "app.kubernetes.io/managed-by"@) == Some(JsonView::Text("vanguard-operator"@))
    &&& in_field(labels, "vanguard.io/tenant-id"@) == Some(JsonView::Text(tenant_id))
}

proof fn lemma_manifest_top(doc: JsonView)
    requires
        doc is Object,
        doc->Object_0.len() >= 3,
        doc->Object_0[0].0 == "apiVersion"@,
        doc->Object_0[1].0 == "kind"@,
        doc->Object_0[2].0 == "metadata"@ || doc->Object_0[2].0 == "spec"@,
    ensures
        doc.found("apiVersion"@) == Some(doc->Object_0[0].1),
        doc.found("kind"@) == Some(doc->Object_0[1].1),
        doc.found(doc->Object_0[2].0) == Some(doc->Object_0[2].1),
        doc->Object_0.len() >= 4 && doc->Object_0[2].0 == "metadata"@ && (doc->Object_0[3].0 == "data"@
            || doc->Object_0[3].0 == "spec"@) ==> doc.found(doc->Object_0[3].0) == Some(doc->Object_0[3].1),
{
    reveal_strlit("apiVersion");
    assert("apiVersion"@.len() == 10 && "apiVersion"@[0] == 'a');
    reveal_strlit("kind");
    assert("kind"@.len() == 4 && "kind"@[0] == 'k');
    reveal_strlit("metadata");
    assert("metadata"@.len() == 8 && "metadata"@[0] == 'm');
    reveal_strlit("data");
    assert("data"@.len() == 4 && "data"@[0] == 'd');
    reveal_strlit("spec");
    assert("spec"@.len() == 4 && "spec"@[0] == 's');
    lemma_member_is_field(doc, 0);
    lemma_member_is_field(doc, 1);
    lemma_member_is_field(doc, 2);
    if doc->Object_0.len() >= 4 && doc->Object_0[2].0 == "metadata"@ && (doc->Object_0[3].0 == "data"@
        || doc->Object_0[3].0 == "spec"@) {
        lemma_member_is_field(doc, 3);
    }
}

proof fn lemma_ownership(doc: JsonView)
    requires
        doc is Object,
        doc->Object_0.len() >= 2,
        doc->Object_0[0].0 == "app.kubernetes.io/managed-by"@,
        doc->Object_0[1].0 == "vanguard.io/tenant-id"@,
    ensures
        doc.found("app.kubernetes.io/managed-by"@) == Some(doc->Object_0[0].1),
        doc.found("vanguard.io/tenant-id"@) == Some(doc->Object_0[1].1),
{
    reveal_strlit("app.kubernetes.io/managed-by");
    assert("app.kubernetes.io/managed-by"@.len() == 28 && "app.kubernetes.io/managed-by"@[0] == 'a');
    reveal_strlit("vanguard.io/tenant-id");
    assert("vanguard.io/tenant-id"@.len() == 21 && "vanguard.io/tenant-id"@[0] == 'v');
    lemma_member_is_field(doc, 0);
    lemma_member_is_field(doc, 1);
}

proof fn lemma_metadata(doc: JsonView)
    requires
        doc is Object,
        doc->Object_0.len() >= 2,
        doc->Object_0[0].0 == "name"@,
        doc->Object_0[1].0 == "labels"@ || (doc->Object_0.len() >= 3 && doc->Object_0[1].0 == "namespace"@
            && doc->Object_0[2].0 == "labels"@),
    ensures
        doc.found("name"@) == Some(doc->Object_0[0].1),
        doc.found(doc->Object_0[1].0) == Some(doc->Object_0[1].1),
        doc->Object_0.len() >= 3 && doc->Object_0[1].0 == "namespace"@ ==> doc.found("labels"@) == Some(
            doc->Object_0[2].1,
        ),
{
    reveal_strlit("name");
    assert("name"@.len() == 4 && "name"@[0] == 'n');
    reveal_strlit("labels");
    assert("labels"@.len() == 6 && "labels"@[0] == 'l');
    reveal_strlit("namespace");
    assert("namespace"@.len() == 9 && "namespace"@[0] == 'n');
    lemma_member_is_field(doc, 0);
    lemma_member_is_field(doc, 1);
    if doc->Object_0.len() >= 3 && doc->Object_0[1].0 == "namespace"@ {
        lemma_member_is_field(doc, 2);
    }
}

/// The manifest of a tenant's namespace is a `v1` `Namespace` of the tenant's
/// name, which the operator owns for the tenant.
pub proof fn law_namespace_manifest_says_whose_it_is(tenant_id: Seq<char>)
    ensures
        ({
            let doc = Some(namespace_manifest(tenant_id));
            let metadata = in_field(doc, "metadata"@);
            &&& in_field(doc, "apiVersion"@) == Some(JsonView::Text("v1"@))
            &&& in_field(doc, "kind"@) == Some(JsonView::Text("Namespace"@))
            &&& in_field(metadata, "name"@) == Some(JsonView::Text("tenant-"@ + tenant_id))
            &&& owned_for(tenant_id, in_field(metadata, "labels"@))
        }),
{
    let doc = namespace_manifest(tenant_id);
    lemma_manifest_top(doc);
    let metadata = doc->Object_0[2].1;
    lemma_metadata(metadata);
    lemma_ownership(metadata->Object_0[1].1);
}

/// The manifest of a tenant's ConfigMap stands in the given namespace under the
/// tenant's name, and its data reads back as the given limits: the tier as it
/// is, each number in decimal, and the tenant.
pub proof fn law_configmap_manifest_holds_the_limits(
    tenant_id: Seq<char>,
    namespace: Seq<char>,
    data: RateLimitDataView,
)
    ensures
        ({
            let doc = Some(configmap_manifest(tenant_id, namespace, data));
            let metadata = in_field(doc, "metadata"@);
            let values = in_field(doc, "data"@);
            &&& in_field(doc, "apiVersion"@) == Some(JsonView::Text("v1"@))
            &&& in_field(doc, "kind"@) == Some(JsonView::Text("ConfigMap"@))
            &&& in_field(metadata, "name"@) == Some(JsonView::Text("vanguard-rl-"@ + tenant_id))
            &&& in_field(metadata, "namespace"@) == Some(JsonView::Text(namespace))
            &&& owned_for(tenant_id, in_field(metadata, "labels"@))
            &&& in_field(values, "tier"@) == Some(JsonView::Text(data.tier))
            &&& writes_number(in_field(values, "requests_per_s"@), data.rps as int)
            &&& writes_number(in_field(values, "burst_capacity"@), data.burst as int)
            &&& writes_number(in_field(values, "max_concurrent"@), data.max_concurrent as int)
            &&& in_field(values, "tenant_id"@) == Some(JsonView::Text(tenant_id))
        }),
{
    let doc = configmap_manifest(tenant_id, namespace, data);
    lemma_manifest_top(doc);
    let metadata = doc->Object_0[2].1;
    lemma_metadata(metadata);
    lemma_ownership(metadata->Object_0[2].1);
    let values = doc->Object_0[3].1;
    reveal_strlit("tier");
    assert("tier"@.len() == 4 && "tier"@[0] == 't');
    reveal_strlit("requests_per_s");
    assert("requests_per_s"@.len() == 14 && "requests_per_s"@[0] == 'r');
    reveal_strlit("burst_capacity");
    assert("burst_capacity"@.len() == 14 && "burst_capacity"@[0] == 'b');
    reveal_strlit("max_concurrent");
    assert("max_concurrent"@.len() == 14 && "max_concurrent"@[0] == 'm');
    reveal_strlit("tenant_id");
    assert("tenant_id"@.len() == 9 && "tenant_id"@[0] == 't');
    lemma_member_is_field(values, 0);
    lemma_member_is_field(values, 1);
    lemma_member_is_field(values, 2);
    lemma_member_is_field(values, 3);
    lemma_member_is_field(values, 4);
    law_decimal_reads_back(data.rps as int, data.rps as int);
    law_decimal_reads_back(data.burst as int, data.burst as int);
    law_decimal_reads_back(data.max_concurrent as int, data.max_concurrent as int);
}

/// A member is a text that says a number.
pub open spec fn writes_number(member: Option<JsonView>, n: int) -> bool {
    member matches Some(JsonView::Text(t)) && decimal_value(t) == n
}

/// A member is a text that says a number of thousandths of a core.
pub open spec fn writes_milli_cpu(member: Option<JsonView>, n: int) -> bool {
    member matches Some(JsonView::Text(t)) && t.len() > 0 && t.last() == 'm' && decimal_value(t.drop_last()) == n
}

/// A fourth of a number, rounded toward zero: four times it comes as near to
/// the number as can be without passing it, from the side of zero.
pub proof fn law_quarter_rounds_toward_zero(n: int)
    ensures
        n >= 0 ==> 0 <= 4 * quarter(n) <= n < 4 * quarter(n) + 4,
        n <= 0 ==> 4 * quarter(n) - 4 < n <= 4 * quarter(n) <= 0,
{
}

proof fn lemma_quantities(doc: JsonView, cpu_milli: int, memory_bytes: int)
    requires
        doc == quantities(cpu_milli, memory_bytes),
    ensures
        writes_milli_cpu(doc.found("cpu"@), cpu_milli),
        writes_number(doc.found("memory"@), memory_bytes),
{
    reveal_strlit("cpu");
    assert("cpu"@.len() == 3 && "cpu"@[0] == 'c');
    reveal_strlit("memory");
    assert("memory"@.len() == 6 && "memory"@[0] == 'm');
    reveal_strlit("m");
    assert("m"@.len() == 1 && "m"@[0] == 'm');
    lemma_member_is_field(doc, 0);
    lemma_member_is_field(doc, 1);
    law_decimal_reads_back(cpu_milli, cpu_milli);
    law_decimal_reads_back(memory_bytes, memory_bytes);
    assert(milli_cpu(cpu_milli).drop_last() =~= decimal_text(cpu_milli));
}

proof fn lemma_resources(doc: JsonView, cpu_milli: int, memory_mib: int)
    requires
        doc == container_resources(cpu_milli, memory_mib),
    ensures
        writes_milli_cpu(in_field(doc.found("limits"@), "cpu"@), cpu_milli),
        writes_number(in_field(doc.found("limits"@), "memory"@), memory_mib * 1_048_576),
        writes_milli_cpu(in_field(doc.found("requests"@), "cpu"@), quarter(cpu_milli)),
        writes_number(in_field(doc.found("requests"@), "memory"@), memory_mib * 262_144),
{
    reveal_strlit("limits");
    assert("limits"@.len() == 6 && "limits"@[0] == 'l');
    reveal_strlit("requests");
    assert("requests"@.len() == 8 && "requests"@[0] == 'r');
    lemma_member_is_field(doc, 0);
    lemma_member_is_field(doc, 1);
    lemma_quantities(doc->Object_0[0].1, cpu_milli, bytes_of_mib(memory_mib));
    lemma_quantities(doc->Object_0[1].1, quarter(cpu_milli), quarter(bytes_of_mib(memory_mib)));
    assert(bytes_of_mib(memory_mib) == memory_mib * 1_048_576);
    assert(quarter(bytes_of_mib(memory_mib)) == memory_mib * 262_144);
}

proof fn lemma_container(c: JsonView, s: ProxySpecView)
    requires
        c == proxy_container(s),
    ensures
        c.found("name"@) == Some(c->Object_0[0].1),
        c.found("image"@) == Some(c->Object_0[1].1),
        c.found("ports"@) == Some(c->Object_0[2].1),
        c.found("resources"@) == Some(c->Object_0[3].1),
        c.found("volumeMounts"@) == Some(c->Object_0[4].1),
        c.found("readinessProbe"@) == Some(c->Object_0[5].1),
{
    reveal_strlit("name");
    assert("name"@.len() == 4 && "name"@[0] == 'n');
    reveal_strlit("image");
    assert("image"@.len() == 5 && "image"@[0] == 'i');
    reveal_strlit("ports");
    assert("ports"@.len() == 5 && "ports"@[0] == 'p');
    reveal_strlit("resources");
    assert("resources"@.len() == 9 && "resources"@[0] == 'r');
    reveal_strlit("volumeMounts");
    assert("volumeMounts"@.len() == 12 && "volumeMounts"@[0] == 'v');
    reveal_strlit("readinessProbe");
    assert("readinessProbe"@.len() == 14 && "readinessProbe"@[0] == 'r');
    lemma_member_is_field(c, 0);
    lemma_member_is_field(c, 1);
    lemma_member_is_field(c, 2);
    lemma_member_is_field(c, 3);
    lemma_member_is_field(c, 4);
    lemma_member_is_field(c, 5);
}

proof fn lemma_container_parts(c: JsonView, s: ProxySpecView)
    requires
        c == proxy_container(s),
    ensures
        ({
            let port = in_item(c.found("ports"@), 0);
            let mount = in_item(c.found("volumeMounts"@), 0);
            let probe = c.found("readinessProbe"@);
            &&& in_field(port, "containerPort"@) == Some(JsonView::Int(s.port as i64))
            &&& in_field(port, "protocol"@) == Some(JsonView::Text("TCP"@))
            &&& in_field(mount, "name"@) == Some(JsonView::Text("rl-config"@))
            &&& in_field(mount, "mountPath"@) == Some(JsonView::Text("/etc/vanguard/rl"@))
            &&& in_field(mount, "readOnly"@) == Some(JsonView::Bool(true))
            &&& in_field(in_field(probe, "tcpSocket"@), "port"@) == Some(JsonView::Int(s.port as i64))
            &&& in_field(probe, "initialDelaySeconds"@) == Some(JsonView::Int(3))
            &&& in_field(probe, "periodSeconds"@) == Some(JsonView::Int(5))
        }),
{
    lemma_container(c, s);
    let port = c->Object_0[2].1->Array_0[0];
    let mount = c->Object_0[4].1->Array_0[0];
    let probe = c->Object_0[5].1;
    reveal_strlit("containerPort");
    assert("containerPort"@.len() == 13 && "containerPort"@[0] == 'c');
    reveal_strlit("protocol");
    assert("protocol"@.len() == 8 && "protocol"@[0] == 'p');
    lemma_member_is_field(port, 0);
    lemma_member_is_field(port, 1);
    reveal_strlit("name");
    assert("name"@.len() == 4 && "name"@[0] == 'n');
    reveal_strlit("mountPath");
    assert("mountPath"@.len() == 9 && "mountPath"@[0] == 'm');
    reveal_strlit("readOnly");
    assert("readOnly"@.len() == 8 && "readOnly"@[0] == 'r');
    lemma_member_is_field(mount, 0);
    lemma_member_is_field(mount, 1);
    lemma_member_is_field(mount, 2);
    reveal_strlit("tcpSocket");
    assert("tcpSocket"@.len() == 9 && "tcpSocket"@[0] == 't');
    reveal_strlit("initialDelaySeconds");
    assert("initialDelaySeconds"@.len() == 19 && "initialDelaySeconds"@[0] == 'i');
    reveal_strlit("periodSeconds");
    assert("periodSeconds"@.len() == 13 && "periodSeconds"@[0] == 'p');
    lemma_member_is_field(probe, 0);
    lemma_member_is_field(probe, 1);
    lemma_member_is_field(probe, 2);
    lemma_member_is_field(probe->Object_0[0].1, 0);
}

/// The pod template that a deployment manifest holds, and the one container in
/// it.
pub open spec fn template_in(doc: JsonView) -> Option<JsonView> {
    in_field(in_field(Some(doc), "spec"@), "template"@)
}

pub open spec fn container_in(doc: JsonView) -> Option<JsonView> {
    in_item(in_field(in_field(template_in(doc), "spec"@), "containers"@), 0)
}

pub open spec fn volume_in(doc: JsonView) -> Option<JsonView> {
    in_item(in_field(in_field(template_in(doc), "spec"@), "volumes"@), 0)
}

proof fn lemma_deployment_parts(name: Seq<char>, s: ProxySpecView)
    ensures
        ({
            let doc = deployment_manifest(name, s);
            let spec_ = doc->Object_0[3].1;
            let template = spec_->Object_0[2].1;
            let pod = template->Object_0[1].1;
            &&& doc.found("spec"@) == Some(spec_)
            &&& spec_.found("replicas"@) == Some(spec_->Object_0[0].1)
            &&& spec_.found("selector"@) == Some(spec_->Object_0[1].1)
            &&& template_in(doc) == Some(template)
            &&& template.found("metadata"@) == Some(template->Object_0[0].1)
            &&& template.found("spec"@) == Some(pod)
            &&& pod.found("containers"@) == Some(pod->Object_0[0].1)
            &&& pod.found("volumes"@) == Some(pod->Object_0[1].1)
            &&& container_in(doc) == Some(proxy_container(s))
            &&& volume_in(doc) == Some(pod->Object_0[1].1->Array_0[0])
        }),
{
    let doc = deployment_manifest(name, s);
    lemma_manifest_top(doc);
    let spec_ = doc->Object_0[3].1;
    reveal_strlit("replicas");
    assert("replicas"@.len() == 8 && "replicas"@[0] == 'r');
    reveal_strlit("selector");
    assert("selector"@.len() == 8 && "selector"@[0] == 's');
    reveal_strlit("template");
    assert("template"@.len() == 8 && "template"@[0] == 't');
    lemma_member_is_field(spec_, 0);
    lemma_member_is_field(spec_, 1);
    lemma_member_is_field(spec_, 2);
    let template = spec_->Object_0[2].1;
    reveal_strlit("metadata");
    assert("metadata"@.len() == 8 && "metadata"@[0] == 'm');
    reveal_strlit("spec");
    assert("spec"@.len() == 4 && "spec"@[0] == 's');
    lemma_member_is_field(template, 0);
    lemma_member_is_field(template, 1);
    let pod = template->Object_0[1].1;
    reveal_strlit("containers");
    assert("containers"@.len() == 10 && "containers"@[0] == 'c');
    reveal_strlit("volumes");
    assert("volumes"@.len() == 7 && "volumes"@[0] == 'v');
    lemma_member_is_field(pod, 0);
    lemma_member_is_field(pod, 1);
}

/// A deployment finds the pods that it makes: the labels its selector asks for
/// and those its template puts on are the same, and they are the tenant's
/// identifier and the name of the proxy, and no others.
pub proof fn law_deployment_selects_its_own_pods(name: Seq<char>, s: ProxySpecView)
    ensures
        ({
            let doc = deployment_manifest(name, s);
            let wanted = in_field(in_field(in_field(Some(doc), "spec"@), "selector"@), "matchLabels"@);
            let given = in_field(in_field(template_in(doc), "metadata"@), "labels"@);
            &&& wanted == given
            &&& given == Some(
                JsonView::Object(
                    seq![
                        ("vanguard.io/tenant-id"@, JsonView::Text(s.tenant_id)),
                        ("app"@, JsonView::Text("vanguard-proxy"@)),
                    ],
                ),
            )
        }),
{
    lemma_deployment_parts(name, s);
    let spec_ = deployment_manifest(name, s)->Object_0[3].1;
    lemma_member_is_field(spec_->Object_0[1].1, 0);
    lemma_member_is_field(spec_->Object_0[2].1->Object_0[0].1, 0);
    let wanted = spec_->Object_0[1].1->Object_0[0].1;
    assert(wanted->Object_0 =~= seq![
        ("vanguard.io/tenant-id"@, JsonView::Text(s.tenant_id)),
        ("app"@, JsonView::Text("vanguard-proxy"@)),
    ]);
}

/// A deployment manifest is an `apps/v1` `Deployment` of the given name in the
/// proxy's namespace, which the operator owns for the tenant, with one replica
/// and one container.
pub proof fn law_deployment_manifest_says_whose_it_is(name: Seq<char>, s: ProxySpecView)
    ensures
        ({
            let doc = Some(deployment_manifest(name, s));
            let metadata = in_field(doc, "metadata"@);
            let labels = in_field(metadata, "labels"@);
            let pod = in_field(template_in(doc->0), "spec"@);
            &&& in_field(doc, "apiVersion"@) == Some(JsonView::Text("apps/v1"@))
            &&& in_field(doc, "kind"@) == Some(JsonView::Text("Deployment"@))
            &&& in_field(metadata, "name"@) == Some(JsonView::Text(name))
            &&& in_field(metadata, "namespace"@) == Some(JsonView::Text(s.namespace))
            &&& owned_for(s.tenant_id, labels)
            &&& in_field(labels, "app"@) == Some(JsonView::Text("vanguard-proxy"@))
            &&& in_field(in_field(doc, "spec"@), "replicas"@) == Some(JsonView::Int(1))
            &&& in_item(in_field(pod, "containers"@), 1) is None
            &&& in_item(in_field(pod, "volumes"@), 1) is None
        }),
{
    lemma_deployment_parts(name, s);
    let doc = deployment_manifest(name, s);
    lemma_manifest_top(doc);
    let metadata = doc->Object_0[2].1;
    lemma_metadata(metadata);
    let labels = metadata->Object_0[2].1;
    lemma_ownership(labels);
    reveal_strlit("app.kubernetes.io/managed-by");
    assert("app.kubernetes.io/managed-by"@.len() == 28 && "app.kubernetes.io/managed-by"@[0] == 'a');
    reveal_strlit("vanguard.io/tenant-id");
    assert("vanguard.io/tenant-id"@.len() == 21 && "vanguard.io/tenant-id"@[0] == 'v');
    reveal_strlit("app");
    assert("app"@.len() == 3 && "app"@[0] == 'a');
    lemma_member_is_field(labels, 2);
}

/// The container of a deployment manifest runs the proxy's image, is reached
/// and probed at the proxy's port, is limited as the proxy says (in
/// thousandths of a core and in bytes) and requests a quarter of that.
pub proof fn law_deployment_runs_the_proxy_as_asked(name: Seq<char>, s: ProxySpecView)
    ensures
        ({
            let c = container_in(deployment_manifest(name, s));
            let port = in_item(in_field(c, "ports"@), 0);
            let limits = in_field(in_field(c, "resources"@), "limits"@);
            let requests = in_field(in_field(c, "resources"@), "requests"@);
            let probe = in_field(c, "readinessProbe"@);
            &&& in_field(c, "name"@) == Some(JsonView::Text("proxy"@))
            &&& in_field(c, "image"@) == Some(JsonView::Text(s.image))
            &&& in_field(port, "containerPort"@) == Some(JsonView::Int(s.port as i64))
            &&& in_field(port, "protocol"@) == Some(JsonView::Text("TCP"@))
            &&& in_item(in_field(c, "ports"@), 1) is None
            &&& writes_milli_cpu(in_field(limits, "cpu"@), s.cpu_milli_limit as int)
            &&& writes_number(in_field(limits, "memory"@), s.memory_mib_limit * 1_048_576)
            &&& writes_milli_cpu(in_field(requests, "cpu"@), quarter(s.cpu_milli_limit as int))
            &&& writes_number(in_field(requests, "memory"@), s.memory_mib_limit * 262_144)
            &&& in_field(in_field(probe, "tcpSocket"@), "port"@) == Some(JsonView::Int(s.port as i64))
            &&& in_field(probe, "initialDelaySeconds"@) == Some(JsonView::Int(3))
            &&& in_field(probe, "periodSeconds"@) == Some(JsonView::Int(5))
        }),
{
    lemma_deployment_parts(name, s);
    let c = proxy_container(s);
    lemma_container(c, s);
    lemma_container_parts(c, s);
    lemma_resources(c->Object_0[3].1, s.cpu_milli_limit as int, s.memory_mib_limit as int);
}

/// The proxy reads its rate limits from the ConfigMap it was given: the volume
/// that the pod makes of it is the one that the container mounts, read only.
pub proof fn law_deployment_mounts_its_configmap(name: Seq<char>, s: ProxySpecView)
    ensures
        ({
            let doc = deployment_manifest(name, s);
            let mount = in_item(in_field(container_in(doc), "volumeMounts"@), 0);
            let volume = volume_in(doc);
            &&& in_field(in_field(volume, "configMap"@), "name"@) == Some(JsonView::Text(s.config_map_name))
            &&& in_field(volume, "name"@) is Some
            &&& in_field(volume, "name"@) == in_field(mount, "name"@)
            &&& in_field(mount, "mountPath"@) == Some(JsonView::Text("/etc/vanguard/rl"@))
            &&& in_field(mount, "readOnly"@) == Some(JsonView::Bool(true))
            &&& in_item(in_field(container_in(doc), "volumeMounts"@), 1) is None
        }),
{
    lemma_deployment_parts(name, s);
    let c = proxy_container(s);
    lemma_container(c, s);
    lemma_container_parts(c, s);
    let volume = volume_in(deployment_manifest(name, s))->0;
    reveal_strlit("name");
    assert("name"@.len() == 4 && "name"@[0] == 'n');
    reveal_strlit("configMap");
    assert("configMap"@.len() == 9 && "configMap"@[0] == 'c');
    lemma_member_is_field(volume, 0);
    lemma_member_is_field(volume, 1);
    lemma_member_is_field(volume->Object_0[1].1, 0);
}

/// The patch of a policy names the kind of object it is for, and the rate
/// limits in it read back as the policy, field by field; so policies that
/// differ anywhere give different patches.
pub proof fn law_policy_patch_reads_back(policy: RateLimitPolicyView, other: RateLimitPolicyView)
    ensures
        ({
            let doc = Some(policy_patch(policy));
            let limits = in_field(in_field(doc, "spec"@), "rateLimit"@);
            &&& in_field(doc, "apiVersion"@) == Some(JsonView::Text("infrastructure.vanguard.io/v1alpha1"@))
            &&& in_field(doc, "kind"@) == Some(JsonView::Text("TenantPipeline"@))
            &&& in_field(limits, "tier"@) == Some(JsonView::Text(policy.tier))
            &&& in_field(limits, "requestsPerSecond"@) == Some(JsonView::Int(policy.requests_per_second as i64))
            &&& in_field(limits, "burstCapacity"@) == Some(JsonView::Int(policy.burst_capacity as i64))
            &&& in_field(limits, "maxConcurrent"@) == Some(JsonView::Int(policy.max_concurrent as i64))
        }),
        policy_patch(policy) == policy_patch(other) ==> policy == other,
{
    lemma_policy_patch(policy);
    lemma_policy_patch(other);
}

proof fn lemma_policy_patch(policy: RateLimitPolicyView)
    ensures
        ({
            let doc = Some(policy_patch(policy));
            let limits = in_field(in_field(doc, "spec"@), "rateLimit"@);
            &&& in_field(doc, "apiVersion"@) == Some(JsonView::Text("infrastructure.vanguard.io/v1alpha1"@))
            &&& in_field(doc, "kind"@) == Some(JsonView::Text("TenantPipeline"@))
            &&& in_field(limits, "tier"@) == Some(JsonView::Text(policy.tier))
            &&& in_field(limits, "requestsPerSecond"@) == Some(JsonView::Int(policy.requests_per_second as i64))
            &&& in_field(limits, "burstCapacity"@) == Some(JsonView::Int(policy.burst_capacity as i64))
            &&& in_field(limits, "maxConcurrent"@) == Some(JsonView::Int(policy.max_concurrent as i64))
        }),
{
    let doc = policy_patch(policy);
    lemma_manifest_top(doc);
    let spec_ = doc->Object_0[2].1;
    lemma_member_is_field(spec_, 0);
    let limits = spec_->Object_0[0].1;
    reveal_strlit("tier");
    assert("tier"@.len() == 4 && "tier"@[0] == 't');
    reveal_strlit("requestsPerSecond");
    assert("requestsPerSecond"@.len() == 17 && "requestsPerSecond"@[0] == 'r');
    reveal_strlit("burstCapacity");
    assert("burstCapacity"@.len() == 13 && "burstCapacity"@[0] == 'b');
    reveal_strlit("maxConcurrent");
    assert("maxConcurrent"@.len() == 13 && "maxConcurrent"@[0] == 'm');
    lemma_member_is_field(limits, 0);
    lemma_member_is_field(limits, 1);
    lemma_member_is_field(limits, 2);
    lemma_member_is_field(limits, 3);
    reveal_strlit("infrastructure.vanguard.io");
    assert("infrastructure.vanguard.io"@.len() == 26 && "infrastructure.vanguard.io"@[0] == 'i');
    reveal_strlit("/");
    assert("/"@.len() == 1 && "/"@[0] == '/');
    reveal_strlit("v1alpha1");
    assert("v1alpha1"@.len() == 8 && "v1alpha1"@[0] == 'v');
    reveal_strlit("infrastructure.vanguard.io/v1alpha1");
    assert("infrastructure.vanguard.io/v1alpha1"@.len() == 35 && "infrastructure.vanguard.io/v1alpha1"@[0] == 'i');
    assert(GROUP@ + "/"@ + VERSION@ =~= "infrastructure.vanguard.io/v1alpha1"@);
}

/// The patch of a policy touches nothing but the rate limits.
pub proof fn law_policy_patch_touches_nothing_else(policy: RateLimitPolicyView)
    ensures
        ({
            let doc = Some(policy_patch(policy));
            let spec_ = in_field(doc, "spec"@);
            &&& member_count(doc) == 3
            &&& member_count(spec_) == 1
            &&& member_count(in_field(spec_, "rateLimit"@)) == 4
        }),
{
    let doc = policy_patch(policy);
    lemma_manifest_top(doc);
    lemma_member_is_field(doc->Object_0[2].1, 0);
}

/// The manifests of a namespace and of a ConfigMap say nothing beyond what
/// kind of object they are, whose, and the limits.
pub proof fn law_small_manifests_say_nothing_else(
    tenant_id: Seq<char>,
    namespace: Seq<char>,
    data: RateLimitDataView,
)
    ensures
        ({
            let doc = Some(namespace_manifest(tenant_id));
            let metadata = in_field(doc, "metadata"@);
            &&& member_count(doc) == 3
            &&& member_count(metadata) == 2
            &&& member_count(in_field(metadata, "labels"@)) == 2
        }),
        ({
            let doc = Some(configmap_manifest(tenant_id, namespace, data));
            let metadata = in_field(doc, "metadata"@);
            &&& member_count(doc) == 4
            &&& member_count(metadata) == 3
            &&& member_count(in_field(metadata, "labels"@)) == 2
            &&& member_count(in_field(doc, "data"@)) == 5
        }),
{
    let doc = namespace_manifest(tenant_id);
    lemma_manifest_top(doc);
    lemma_metadata(doc->Object_0[2].1);
    let doc = configmap_manifest(tenant_id, namespace, data);
    lemma_manifest_top(doc);
    lemma_metadata(doc->Object_0[2].1);
}

/// The manifest of a deployment says nothing beyond whose it is, how its pods
/// are found, and how its one container runs with its one volume.
pub proof fn law_deployment_manifest_says_nothing_else(name: Seq<char>, s: ProxySpecView)
    ensures
        ({
            let doc = Some(deployment_manifest(name, s));
            let metadata = in_field(doc, "metadata"@);
            let template = template_in(doc->0);
            &&& member_count(doc) == 4
            &&& member_count(metadata) == 3
            &&& member_count(in_field(metadata, "labels"@)) == 3
            &&& member_count(in_field(doc, "spec"@)) == 3
            &&& member_count(in_field(in_field(doc, "spec"@), "selector"@)) == 1
            &&& member_count(template) == 2
            &&& member_count(in_field(template, "metadata"@)) == 1
            &&& member_count(in_field(template, "spec"@)) == 2
            &&& member_count(volume_in(doc->0)) == 2
        }),
        ({
            let c = container_in(deployment_manifest(name, s));
            &&& member_count(c) == 6
            &&& member_count(in_item(in_field(c, "ports"@), 0)) == 2
            &&& member_count(in_field(c, "resources"@)) == 2
            &&& member_count(in_item(in_field(c, "volumeMounts"@), 0)) == 3
            &&& member_count(in_field(c, "readinessProbe"@)) == 3
        }),
{
    lemma_deployment_parts(name, s);
    let doc = deployment_manifest(name, s);
    lemma_manifest_top(doc);
    lemma_metadata(doc->Object_0[2].1);
    lemma_container(proxy_container(s), s);
}

/// A memory limit fits exactly when its number of bytes does.
pub proof fn law_memory_fits_as_its_bytes_do(mib: int)
    ensures
        memory_fits(mib) <==> -8_796_093_022_208 <= mib <= 8_796_093_022_207,
{
}

} // verus!
