//! The reconcile rules: how a tenant's declared state is driven into the
//! cluster, how the outcome is reported, and how everything a tenant owns is
//! taken down again.
//!
//! `Reconciliation` and `Teardown` hold a run between two cluster calls: each
//! says which call comes next and takes in what it returned. A caller that
//! has to wait for its calls drives them itself; `reconcile_tenant` and
//! `handle_deletion` drive them against a backend that answers at once.

use crate::clock::{rfc3339_text, Clock, SystemClock, Timestamp};
use crate::crd::{
    law_condition_says_what_was_set, law_condition_set_twice, law_condition_updated_in_place, set_condition_at,
    types_distinct, with_condition, Phase, TenantPipelineSpec, TenantPipelineSpecView, TenantPipelineStatus,
    TenantPipelineStatusView, CONDITION_READY,
};
use crate::k8s_backend::mock::{ClusterView, MockBackend};
use crate::k8s_backend::{
    configmap_of, named, namespace_name, namespace_of, proxy_of, unit, K8sBackend, K8sError, K8sErrorView, ProxySpec,
    ProxySpecView, RateLimitData, RateLimitDataView,
};
use crate::store::{
    lemma_note_and_announcement, says_more, stamped, EventKind, EventView, Store, StoreView, TenantPhase, TenantRecord,
    TenantRecordView,
};
use crate::text::{decimal, decimal_text};
use vstd::pervasive::unreached;
use vstd::prelude::*;

verus! {

pub const DEFAULT_PROXY_IMAGE: &'static str = "envoyproxy/envoy:v1.28-latest";

pub const DEFAULT_PROXY_PORT: i32 = 10000;

pub const DEFAULT_CPU_MILLI: i64 = 100;

pub const DEFAULT_MEM_MIB: i64 = 64;

/// What a successful reconcile reports about the resources it left behind.
#[derive(Debug)]
pub struct ReconcileOutcome {
    pub namespace_name: String,
    pub proxy_pod_name: String,
    pub config_map_name: String,
    pub reconcile_count: i64,
}

pub struct ReconcileOutcomeView {
    pub namespace_name: Seq<char>,
    pub proxy_pod_name: Seq<char>,
    pub config_map_name: Seq<char>,
    pub reconcile_count: i64,
}

impl View for ReconcileOutcome {
    type V = ReconcileOutcomeView;

    open spec fn view(&self) -> ReconcileOutcomeView {
        ReconcileOutcomeView {
            namespace_name: self.namespace_name@,
            proxy_pod_name: self.proxy_pod_name@,
            config_map_name: self.config_map_name@,
            reconcile_count: self.reconcile_count,
        }
    }
}

impl Clone for ReconcileOutcome {
    fn clone(&self) -> (r: Self)
        ensures
            r@ == self@,
    {
        ReconcileOutcome {
            namespace_name: self.namespace_name.clone(),
            proxy_pod_name: self.proxy_pod_name.clone(),
            config_map_name: self.config_map_name.clone(),
            reconcile_count: self.reconcile_count,
        }
    }
}

/// Which step failed, with the text of the backend's error.
#[derive(Debug)]
pub enum ReconcileError {
    Namespace(String),
    ConfigMap(String),
    Proxy(String),
}

pub enum ReconcileErrorView {
    Namespace(Seq<char>),
    ConfigMap(Seq<char>),
    Proxy(Seq<char>),
}

impl ReconcileErrorView {
    pub open spec fn reason(self) -> Seq<char> {
        match self {
            ReconcileErrorView::Namespace(_) => "NamespaceFailed"@,
            ReconcileErrorView::ConfigMap(_) => "ConfigMapFailed"@,
            ReconcileErrorView::Proxy(_) => "ProxyFailed"@,
        }
    }

    pub open spec fn message(self) -> Seq<char> {
        match self {
            ReconcileErrorView::Namespace(t) => "namespace provisioning failed: "@ + t,
            ReconcileErrorView::ConfigMap(t) => "configmap provisioning failed: "@ + t,
            ReconcileErrorView::Proxy(t) => "proxy deployment provisioning failed: "@ + t,
        }
    }
}

impl View for ReconcileError {
    type V = ReconcileErrorView;

    open spec fn view(&self) -> ReconcileErrorView {
        match self {
            ReconcileError::Namespace(t) => ReconcileErrorView::Namespace(t@),
            ReconcileError::ConfigMap(t) => ReconcileErrorView::ConfigMap(t@),
            ReconcileError::Proxy(t) => ReconcileErrorView::Proxy(t@),
        }
    }
}

impl ReconcileError {
    /// A one-word reason, for the Ready condition.
    pub fn reason(&self) -> (r: &'static str)
        ensures
            r@ == self@.reason(),
    {
        match self {
            ReconcileError::Namespace(_) => "NamespaceFailed",
            ReconcileError::ConfigMap(_) => "ConfigMapFailed",
            ReconcileError::Proxy(_) => "ProxyFailed",
        }
    }

    /// The error as it is printed.
    pub fn message(&self) -> (r: String)
        ensures
            r@ == self@.message(),
    {
        match self {
            ReconcileError::Namespace(t) => "namespace provisioning failed: ".to_owned().concat(t.as_str()),
            ReconcileError::ConfigMap(t) => "configmap provisioning failed: ".to_owned().concat(t.as_str()),
            ReconcileError::Proxy(t) => "proxy deployment provisioning failed: ".to_owned().concat(t.as_str()),
        }
    }
}

/// The result of a reconcile as it is read.
pub open spec fn outcome_view(
    r: Result<ReconcileOutcome, ReconcileError>,
) -> Result<ReconcileOutcomeView, ReconcileErrorView> {
    match r {
        Ok(o) => Ok(o@),
        Err(e) => Err(e@),
    }
}

/// The result of a teardown as it is read.
pub open spec fn teardown_view(r: Result<(), ReconcileError>) -> Result<(), ReconcileErrorView> {
    match r {
        Ok(()) => Ok(()),
        Err(e) => Err(e@),
    }
}

// ─── What a spec asks for ─────────────────────────────────────────────────────

/// The rate limits a spec declares.
pub open spec fn limits_of(s: TenantPipelineSpecView) -> RateLimitDataView {
    RateLimitDataView {
        tier: s.rate_limit.tier,
        rps: s.rate_limit.requests_per_second,
        burst: s.rate_limit.burst_capacity,
        max_concurrent: s.rate_limit.max_concurrent,
    }
}

/// The declared proxy image, or the default one.
pub open spec fn image_of(s: TenantPipelineSpecView) -> Seq<char> {
    if s.proxy.image.len() == 0 {
        DEFAULT_PROXY_IMAGE@
    } else {
        s.proxy.image
    }
}

/// The declared proxy port, or the default one.
pub open spec fn port_of(s: TenantPipelineSpecView) -> i32 {
    if s.proxy.port == 0 {
        DEFAULT_PROXY_PORT
    } else {
        s.proxy.port
    }
}

/// A declared limit, or `fallback` where none or zero is declared.
pub open spec fn limit_or(declared: Option<i64>, fallback: i64) -> i64 {
    match declared {
        Some(v) => if v != 0 {
            v
        } else {
            fallback
        },
        None => fallback,
    }
}

/// The proxy deployment a spec asks for.
pub open spec fn proxy_spec_of(s: TenantPipelineSpecView, namespace: Seq<char>, config_map: Seq<char>) -> ProxySpecView {
    ProxySpecView {
        tenant_id: s.tenant_id,
        namespace,
        image: image_of(s),
        port: port_of(s),
        cpu_milli_limit: limit_or(s.proxy.resource_limit_milli_cpu, DEFAULT_CPU_MILLI),
        memory_mib_limit: limit_or(s.proxy.resource_limit_memory_mib, DEFAULT_MEM_MIB),
        config_map_name: config_map,
    }
}

fn effective_image(s: &TenantPipelineSpec) -> (r: String)
    ensures
        r@ == image_of(s@),
{
    if s.proxy.image.as_str().is_empty() {
        DEFAULT_PROXY_IMAGE.to_owned()
    } else {
        s.proxy.image.clone()
    }
}

fn effective_port(s: &TenantPipelineSpec) -> (r: i32)
    ensures
        r == port_of(s@),
{
    if s.proxy.port == 0 {
        DEFAULT_PROXY_PORT
    } else {
        s.proxy.port
    }
}

fn effective_limit(declared: Option<i64>, fallback: i64) -> (r: i64)
    ensures
        r == limit_or(declared, fallback),
{
    match declared {
        Some(v) => if v != 0 {
            v
        } else {
            fallback
        },
        None => fallback,
    }
}

/// The record of a tenant that converged.
pub open spec fn converged_record(
    s: TenantPipelineSpecView,
    namespace: Seq<char>,
    config_map: Seq<char>,
    proxy: Seq<char>,
    count: i64,
    created_at: Option<Timestamp>,
    at: Timestamp,
) -> TenantRecordView {
    TenantRecordView {
        tenant_id: s.tenant_id,
        display_name: s.display_name,
        namespace,
        phase: TenantPhase::Ready,
        tier: s.rate_limit.tier,
        rps: s.rate_limit.requests_per_second,
        burst: s.rate_limit.burst_capacity,
        max_concurrent: s.rate_limit.max_concurrent,
        proxy_pod_name: proxy,
        proxy_image: image_of(s),
        config_map_name: config_map,
        reconcile_count: count,
        last_reconcile_at: Some(at),
        created_at,
    }
}

// ─── What each step leaves in the store ───────────────────────────────────────

/// A reconcile has begun.
pub open spec fn after_start(st: StoreView, tenant_id: Seq<char>, prior_count: i64, at: Timestamp) -> StoreView {
    let number = decimal_text(prior_count + 1);
    st.noting(at, "⟳  ["@ + tenant_id + "] reconcile #"@ + number + " start"@).announcing(
        EventKind::ReconcileStart,
        tenant_id,
        "Reconcile #"@ + number,
        at,
    )
}

/// The namespace is there.
pub open spec fn after_namespace(st: StoreView, tenant_id: Seq<char>, namespace: Seq<char>, at: Timestamp) -> StoreView {
    st.noting(at, "  ✓ namespace/"@ + namespace + " ready"@).announcing(
        EventKind::NamespaceReady,
        tenant_id,
        "Namespace "@ + namespace + " ready"@,
        at,
    )
}

/// The ConfigMap holds the declared limits.
pub open spec fn after_configmap(
    st: StoreView,
    s: TenantPipelineSpecView,
    config_map: Seq<char>,
    at: Timestamp,
) -> StoreView {
    st.noting(
        at,
        "  ✓ configmap/"@ + config_map + " synced (tier="@ + s.rate_limit.tier + " rps="@ + decimal_text(
            s.rate_limit.requests_per_second as int,
        ) + " burst="@ + decimal_text(s.rate_limit.burst_capacity as int) + ")"@,
    ).announcing(
        EventKind::ConfigReloaded,
        s.tenant_id,
        "ConfigMap "@ + config_map + " synced"@,
        at,
    )
}

/// The proxy runs, the tenant's record says so, and the reconcile is over.
pub open spec fn after_proxy(
    st: StoreView,
    s: TenantPipelineSpecView,
    prior_count: i64,
    created_at: Option<Timestamp>,
    namespace: Seq<char>,
    config_map: Seq<char>,
    proxy: Seq<char>,
    at: Timestamp,
) -> StoreView {
    st.noting(
        at,
        "  ✓ deployment/"@ + proxy + " up (image="@ + image_of(s) + " port="@ + decimal_text(port_of(s) as int)
            + ")"@,
    ).announcing(
        EventKind::ProxyUp,
        s.tenant_id,
        "Proxy deployment "@ + proxy + " running"@,
        at,
    ).with_tenant(
        converged_record(s, namespace, config_map, proxy, (prior_count + 1) as i64, created_at, at),
    ).noting(at, "  ✓ ["@ + s.tenant_id + "] reconcile complete"@).announcing(
        EventKind::ReconcileOk,
        s.tenant_id,
        "Converged"@,
        at,
    )
}

// ─── A reconcile, step by step ────────────────────────────────────────────────

/// How far a reconcile has come.
pub enum Stage {
    Namespace,
    ConfigMap { namespace: String },
    Proxy { namespace: String, config_map: String },
}

pub enum StageView {
    Namespace,
    ConfigMap { namespace: Seq<char> },
    Proxy { namespace: Seq<char>, config_map: Seq<char> },
}

impl View for Stage {
    type V = StageView;

    open spec fn view(&self) -> StageView {
        match self {
            Stage::Namespace => StageView::Namespace,
            Stage::ConfigMap { namespace } => StageView::ConfigMap { namespace: namespace@ },
            Stage::Proxy { namespace, config_map } => StageView::Proxy {
                namespace: namespace@,
                config_map: config_map@,
            },
        }
    }
}

/// The cluster call that a reconcile waits for.
pub enum Request {
    EnsureNamespace { tenant_id: String },
    EnsureConfigMap { tenant_id: String, namespace: String, data: RateLimitData },
    EnsureProxy(ProxySpec),
}

pub enum RequestView {
    EnsureNamespace { tenant_id: Seq<char> },
    EnsureConfigMap { tenant_id: Seq<char>, namespace: Seq<char>, data: RateLimitDataView },
    EnsureProxy(ProxySpecView),
}

impl View for Request {
    type V = RequestView;

    open spec fn view(&self) -> RequestView {
        match self {
            Request::EnsureNamespace { tenant_id } => RequestView::EnsureNamespace { tenant_id: tenant_id@ },
            Request::EnsureConfigMap { tenant_id, namespace, data } => RequestView::EnsureConfigMap {
                tenant_id: tenant_id@,
                namespace: namespace@,
                data: data@,
            },
            Request::EnsureProxy(s) => RequestView::EnsureProxy(s@),
        }
    }
}

/// A reconcile that waits for a cluster call.
pub struct Reconciliation {
    spec_: TenantPipelineSpec,
    prior_count: i64,
    created_at: Option<Timestamp>,
    stage: Stage,
}

pub struct ReconciliationView {
    pub spec_: TenantPipelineSpecView,
    pub prior_count: i64,
    pub created_at: Option<Timestamp>,
    pub stage: StageView,
}

impl View for Reconciliation {
    type V = ReconciliationView;

    closed spec fn view(&self) -> ReconciliationView {
        ReconciliationView {
            spec_: self.spec_@,
            prior_count: self.prior_count,
            created_at: self.created_at,
            stage: self.stage@,
        }
    }
}

/// What became of a reconcile when a call returned.
pub enum Progress {
    Pending(Reconciliation),
    Finished(Result<ReconcileOutcome, ReconcileError>),
}

pub enum ProgressView {
    Pending(ReconciliationView),
    Finished(Result<ReconcileOutcomeView, ReconcileErrorView>),
}

impl View for Progress {
    type V = ProgressView;

    open spec fn view(&self) -> ProgressView {
        match self {
            Progress::Pending(run) => ProgressView::Pending(run@),
            Progress::Finished(r) => ProgressView::Finished(outcome_view(*r)),
        }
    }
}

impl ReconciliationView {
    /// The call that the run waits for.
    pub open spec fn request(self) -> RequestView {
        match self.stage {
            StageView::Namespace => RequestView::EnsureNamespace { tenant_id: self.spec_.tenant_id },
            StageView::ConfigMap { namespace } => RequestView::EnsureConfigMap {
                tenant_id: self.spec_.tenant_id,
                namespace,
                data: limits_of(self.spec_),
            },
            StageView::Proxy { namespace, config_map } => RequestView::EnsureProxy(
                proxy_spec_of(self.spec_, namespace, config_map),
            ),
        }
    }

    /// The store once the awaited call has returned. A failed call leaves no
    /// trace there.
    pub open spec fn store_after(self, st: StoreView, reply: Result<Seq<char>, K8sErrorView>, at: Timestamp) -> StoreView {
        match reply {
            Ok(name) => match self.stage {
                StageView::Namespace => after_namespace(st, self.spec_.tenant_id, name, at),
                StageView::ConfigMap { namespace } => after_configmap(st, self.spec_, name, at),
                StageView::Proxy { namespace, config_map } => after_proxy(
                    st,
                    self.spec_,
                    self.prior_count,
                    self.created_at,
                    namespace,
                    config_map,
                    name,
                    at,
                ),
            },
            Err(_) => st,
        }
    }

    /// Where the run stands once the awaited call has returned.
    pub open spec fn progress(self, reply: Result<Seq<char>, K8sErrorView>) -> ProgressView {
        match reply {
            Ok(name) => match self.stage {
                StageView::Namespace => ProgressView::Pending(
                    ReconciliationView { stage: StageView::ConfigMap { namespace: name }, ..self },
                ),
                StageView::ConfigMap { namespace } => ProgressView::Pending(
                    ReconciliationView { stage: StageView::Proxy { namespace, config_map: name }, ..self },
                ),
                StageView::Proxy { namespace, config_map } => ProgressView::Finished(
                    Ok(
                        ReconcileOutcomeView {
                            namespace_name: namespace,
                            proxy_pod_name: name,
                            config_map_name: config_map,
                            reconcile_count: (self.prior_count + 1) as i64,
                        },
                    ),
                ),
            },
            Err(e) => ProgressView::Finished(
                Err(
                    match self.stage {
                        StageView::Namespace => ReconcileErrorView::Namespace(e.message()),
                        StageView::ConfigMap { namespace } => ReconcileErrorView::ConfigMap(e.message()),
                        StageView::Proxy { namespace, config_map } => ReconcileErrorView::Proxy(e.message()),
                    },
                ),
            ),
        }
    }
}

impl Reconciliation {
    #[verifier::type_invariant]
    spec fn countable(self) -> bool {
        self.prior_count < i64::MAX
    }

    /// Begins to reconcile a tenant that was reconciled `prior_count` times
    /// before.
    pub fn start(
        store: &mut Store,
        spec_: &TenantPipelineSpec,
        prior_count: i64,
        created_at: Option<Timestamp>,
        now: Timestamp,
    ) -> (r: Reconciliation)
        requires
            prior_count < i64::MAX,
        ensures
            final(store)@ == after_start(old(store)@, spec_@.tenant_id, prior_count, now),
            r@ == (ReconciliationView { spec_: spec_@, prior_count, created_at, stage: StageView::Namespace }),
    {
        let id = spec_.tenant_id.as_str();
        let number = decimal(prior_count + 1);
        let line = "⟳  [".to_owned().concat(id).concat("] reconcile #").concat(number.as_str()).concat(
            " start",
        );
        store.note(now, line.as_str());
        let message = "Reconcile #".to_owned().concat(number.as_str());
        store.announce(EventKind::ReconcileStart, id, message.as_str(), now);
        Reconciliation { spec_: spec_.clone(), prior_count, created_at, stage: Stage::Namespace }
    }

    /// The cluster call that has to be made next.
    pub fn request(&self) -> (r: Request)
        ensures
            r@ == self@.request(),
    {
        match &self.stage {
            Stage::Namespace => Request::EnsureNamespace { tenant_id: self.spec_.tenant_id.clone() },
            Stage::ConfigMap { namespace } => Request::EnsureConfigMap {
                tenant_id: self.spec_.tenant_id.clone(),
                namespace: namespace.clone(),
                data: RateLimitData {
                    tier: self.spec_.rate_limit.tier.clone(),
                    rps: self.spec_.rate_limit.requests_per_second,
                    burst: self.spec_.rate_limit.burst_capacity,
                    max_concurrent: self.spec_.rate_limit.max_concurrent,
                },
            },
            Stage::Proxy { namespace, config_map } => Request::EnsureProxy(
                ProxySpec {
                    tenant_id: self.spec_.tenant_id.clone(),
                    namespace: namespace.clone(),
                    image: effective_image(&self.spec_),
                    port: effective_port(&self.spec_),
                    cpu_milli_limit: effective_limit(
                        self.spec_.proxy.resource_limit_milli_cpu,
                        DEFAULT_CPU_MILLI,
                    ),
                    memory_mib_limit: effective_limit(
                        self.spec_.proxy.resource_limit_memory_mib,
                        DEFAULT_MEM_MIB,
                    ),
                    config_map_name: config_map.clone(),
                },
            ),
        }
    }

    fn note_namespace(&self, store: &mut Store, namespace: &str, now: Timestamp)
        ensures
            final(store)@ == after_namespace(old(store)@, self@.spec_.tenant_id, namespace@, now),
    {
        let line = "  ✓ namespace/".to_owned().concat(namespace).concat(" ready");
        store.note(now, line.as_str());
        let message = "Namespace ".to_owned().concat(namespace).concat(" ready");
        store.announce(EventKind::NamespaceReady, self.spec_.tenant_id.as_str(), message.as_str(), now);
    }

    fn note_configmap(&self, store: &mut Store, config_map: &str, now: Timestamp)
        ensures
            final(store)@ == after_configmap(old(store)@, self@.spec_, config_map@, now),
    {
        let rps = decimal(self.spec_.rate_limit.requests_per_second as i64);
        let burst = decimal(self.spec_.rate_limit.burst_capacity as i64);
        let line = "  ✓ configmap/".to_owned().concat(config_map).concat(" synced (tier=").concat(
            self.spec_.rate_limit.tier.as_str(),
        ).concat(" rps=").concat(rps.as_str()).concat(" burst=").concat(burst.as_str()).concat(")");
        store.note(now, line.as_str());
        let message = "ConfigMap ".to_owned().concat(config_map).concat(" synced");
        store.announce(EventKind::ConfigReloaded, self.spec_.tenant_id.as_str(), message.as_str(), now);
    }

    fn note_proxy(&self, store: &mut Store, namespace: &str, config_map: &str, proxy: &str, now: Timestamp)
        ensures
            final(store)@ == after_proxy(
                old(store)@,
                self@.spec_,
                self@.prior_count,
                self@.created_at,
                namespace@,
                config_map@,
                proxy@,
                now,
            ),
    {
        proof {
            use_type_invariant(self);
        }
        let id = self.spec_.tenant_id.as_str();
        let image = effective_image(&self.spec_);
        let port = decimal(effective_port(&self.spec_) as i64);
        let line = "  ✓ deployment/".to_owned().concat(proxy).concat(" up (image=").concat(
            image.as_str(),
        ).concat(" port=").concat(port.as_str()).concat(")");
        store.note(now, line.as_str());
        let message = "Proxy deployment ".to_owned().concat(proxy).concat(" running");
        store.announce(EventKind::ProxyUp, id, message.as_str(), now);
        store.upsert_tenant(
            TenantRecord {
                tenant_id: self.spec_.tenant_id.clone(),
                display_name: self.spec_.display_name.clone(),
                namespace: namespace.to_owned(),
                phase: TenantPhase::Ready,
                tier: self.spec_.rate_limit.tier.clone(),
                rps: self.spec_.rate_limit.requests_per_second,
                burst: self.spec_.rate_limit.burst_capacity,
                max_concurrent: self.spec_.rate_limit.max_concurrent,
                proxy_pod_name: proxy.to_owned(),
                proxy_image: image,
                config_map_name: config_map.to_owned(),
                reconcile_count: self.prior_count + 1,
                last_reconcile_at: Some(now),
                created_at: self.created_at,
            },
        );
        let done = "  ✓ [".to_owned().concat(id).concat("] reconcile complete");
        store.note(now, done.as_str());
        store.announce(EventKind::ReconcileOk, id, "Converged", now);
    }

    /// Takes in what the awaited call returned.
    pub fn advance(self, store: &mut Store, reply: Result<String, K8sError>, now: Timestamp) -> (r: Progress)
        ensures
            final(store)@ == self@.store_after(old(store)@, named(reply), now),
            r@ == self@.progress(named(reply)),
    {
        proof {
            use_type_invariant(&self);
        }
        match reply {
            Ok(name) => {
                match &self.stage {
                    Stage::Namespace => {
                        self.note_namespace(store, name.as_str(), now);
                        Progress::Pending(
                            Reconciliation {
                                spec_: self.spec_,
                                prior_count: self.prior_count,
                                created_at: self.created_at,
                                stage: Stage::ConfigMap { namespace: name },
                            },
                        )
                    },
                    Stage::ConfigMap { namespace } => {
                        self.note_configmap(store, name.as_str(), now);
                        let namespace = namespace.clone();
                        Progress::Pending(
                            Reconciliation {
                                spec_: self.spec_,
                                prior_count: self.prior_count,
                                created_at: self.created_at,
                                stage: Stage::Proxy { namespace, config_map: name },
                            },
                        )
                    },
                    Stage::Proxy { namespace, config_map } => {
                        self.note_proxy(store, namespace.as_str(), config_map.as_str(), name.as_str(), now);
                        Progress::Finished(
                            Ok(
                                ReconcileOutcome {
                                    namespace_name: namespace.clone(),
                                    proxy_pod_name: name,
                                    config_map_name: config_map.clone(),
                                    reconcile_count: self.prior_count + 1,
                                },
                            ),
                        )
                    },
                }
            },
            Err(e) => {
                let text = e.message();
                Progress::Finished(
                    Err(
                        match &self.stage {
                            Stage::Namespace => ReconcileError::Namespace(text),
                            Stage::ConfigMap { namespace } => ReconcileError::ConfigMap(text),
                            Stage::Proxy { namespace, config_map } => ReconcileError::Proxy(text),
                        },
                    ),
                )
            },
        }
    }
}

// ─── A reconcile against a backend that answers at once ───────────────────────

/// What the backend returned to the three calls of a reconcile. Replies to
/// calls that were not reached have no meaning.
pub struct Replies {
    pub namespace: Result<Seq<char>, K8sErrorView>,
    pub configmap: Result<Seq<char>, K8sErrorView>,
    pub proxy: Result<Seq<char>, K8sErrorView>,
}

/// `replies` are what the calls of a reconcile returned on the way from `pre`
/// to `post`. The calls come in order, and none follows a failed one.
pub open spec fn reconcile_calls<B: K8sBackend>(
    pre: B,
    s: TenantPipelineSpecView,
    replies: Replies,
    post: B,
) -> bool {
    exists|b1: B, b2: B|
        {
            &&& #[trigger] pre.namespace_ensured(s.tenant_id, replies.namespace, b1)
            &&& #[trigger] configmap_and_proxy_calls(b1, b2, s, replies, post)
        }
}

/// The second and third call of a reconcile.
pub open spec fn configmap_and_proxy_calls<B: K8sBackend>(
    b1: B,
    b2: B,
    s: TenantPipelineSpecView,
    replies: Replies,
    post: B,
) -> bool {
    match replies.namespace {
        Err(_) => post == b1,
        Ok(ns) => {
            &&& b1.configmap_ensured(s.tenant_id, ns, limits_of(s), replies.configmap, b2)
            &&& match replies.configmap {
                Err(_) => post == b2,
                Ok(cm) => b2.proxy_ensured(proxy_spec_of(s, ns, cm), replies.proxy, post),
            }
        },
    }
}

/// What a reconcile returns, given what the backend answered.
pub open spec fn reconcile_result(
    prior_count: i64,
    replies: Replies,
) -> Result<ReconcileOutcomeView, ReconcileErrorView> {
    match replies.namespace {
        Err(e) => Err(ReconcileErrorView::Namespace(e.message())),
        Ok(ns) => match replies.configmap {
            Err(e) => Err(ReconcileErrorView::ConfigMap(e.message())),
            Ok(cm) => match replies.proxy {
                Err(e) => Err(ReconcileErrorView::Proxy(e.message())),
                Ok(proxy) => Ok(
                    ReconcileOutcomeView {
                        namespace_name: ns,
                        proxy_pod_name: proxy,
                        config_map_name: cm,
                        reconcile_count: (prior_count + 1) as i64,
                    },
                ),
            },
        },
    }
}

/// When the steps of a reconcile were taken: its start, and the moment after
/// each of its three calls.
pub struct StepTimes {
    pub start: Timestamp,
    pub namespace: Timestamp,
    pub configmap: Timestamp,
    pub proxy: Timestamp,
}

/// The instants that a reconcile reads from its clock: one at the start, and
/// one after each call it makes.
pub open spec fn step_moments(at: StepTimes, replies: Replies) -> Seq<Timestamp> {
    if replies.namespace is Err {
        seq![at.start, at.namespace]
    } else if replies.configmap is Err {
        seq![at.start, at.namespace, at.configmap]
    } else {
        seq![at.start, at.namespace, at.configmap, at.proxy]
    }
}

/// What a reconcile leaves in the store, given what the backend answered and
/// when.
pub open spec fn reconcile_store(
    st: StoreView,
    s: TenantPipelineSpecView,
    prior_count: i64,
    created_at: Option<Timestamp>,
    at: StepTimes,
    replies: Replies,
) -> StoreView {
    let begun = after_start(st, s.tenant_id, prior_count, at.start);
    match replies.namespace {
        Err(_) => begun,
        Ok(ns) => {
            let spaced = after_namespace(begun, s.tenant_id, ns, at.namespace);
            match replies.configmap {
                Err(_) => spaced,
                Ok(cm) => {
                    let configured = after_configmap(spaced, s, cm, at.configmap);
                    match replies.proxy {
                        Err(_) => configured,
                        Ok(proxy) => after_proxy(configured, s, prior_count, created_at, ns, cm, proxy, at.proxy),
                    }
                },
            }
        },
    }
}

/// Drives one tenant's cluster resources to match `spec_`, with the clock read
/// at every step. Safe to call repeatedly with the same input.
pub fn reconcile_tenant_with<B: K8sBackend, C: Clock>(
    backend: &mut B,
    store: &mut Store,
    spec_: &TenantPipelineSpec,
    prior_reconcile_count: i64,
    created_at: Option<Timestamp>,
    clock: &mut C,
) -> (r: Result<ReconcileOutcome, ReconcileError>)
    requires
        prior_reconcile_count < i64::MAX,
    ensures
        exists|at: StepTimes, replies: Replies|
            {
                &&& reconcile_calls(*old(backend), spec_@, replies, *final(backend))
                &&& final(store)@ == #[trigger] reconcile_store(
                    old(store)@,
                    spec_@,
                    prior_reconcile_count,
                    created_at,
                    at,
                    replies,
                )
                &&& outcome_view(r) == reconcile_result(prior_reconcile_count, replies)
                &&& final(clock).moments() == old(clock).moments() + step_moments(at, replies)
            },
        final(clock).uptimes() == old(clock).uptimes(),
{
    let ghost b0 = *backend;
    let ghost st = store@;
    let ghost read = clock.moments();
    let t0 = clock.now();
    let run = Reconciliation::start(store, spec_, prior_reconcile_count, created_at, t0);
    let namespace_reply = backend.ensure_namespace(spec_.tenant_id.as_str());
    let ghost b1 = *backend;
    let ghost r1 = named(namespace_reply);
    let t1 = clock.now();
    let run = match run.advance(store, namespace_reply, t1) {
        Progress::Finished(r) => {
            proof {
                let at = StepTimes { start: t0, namespace: t1, configmap: t1, proxy: t1 };
                let replies = Replies { namespace: r1, configmap: r1, proxy: r1 };
                assert(configmap_and_proxy_calls(b1, b1, spec_@, replies, b1));
                assert(reconcile_calls(b0, spec_@, replies, b1));
                assert(store@ == reconcile_store(st, spec_@, prior_reconcile_count, created_at, at, replies));
                assert(clock.moments() =~= read + step_moments(at, replies));
            }
            return r;
        },
        Progress::Pending(run) => run,
    };
    let configmap_reply = match run.request() {
        Request::EnsureConfigMap { tenant_id, namespace, data } => backend.ensure_configmap(
            tenant_id.as_str(),
            namespace.as_str(),
            data,
        ),
        _ => unreached(),
    };
    let ghost b2 = *backend;
    let ghost r2 = named(configmap_reply);
    let t2 = clock.now();
    let run = match run.advance(store, configmap_reply, t2) {
        Progress::Finished(r) => {
            proof {
                let at = StepTimes { start: t0, namespace: t1, configmap: t2, proxy: t2 };
                let replies = Replies { namespace: r1, configmap: r2, proxy: r1 };
                assert(configmap_and_proxy_calls(b1, b2, spec_@, replies, b2));
                assert(reconcile_calls(b0, spec_@, replies, b2));
                assert(store@ == reconcile_store(st, spec_@, prior_reconcile_count, created_at, at, replies));
                assert(clock.moments() =~= read + step_moments(at, replies));
            }
            return r;
        },
        Progress::Pending(run) => run,
    };
    let proxy_reply = match run.request() {
        Request::EnsureProxy(proxy) => backend.ensure_proxy_deployment(proxy),
        _ => unreached(),
    };
    let ghost b3 = *backend;
    let ghost r3 = named(proxy_reply);
    let t3 = clock.now();
    match run.advance(store, proxy_reply, t3) {
        Progress::Finished(r) => {
            proof {
                let at = StepTimes { start: t0, namespace: t1, configmap: t2, proxy: t3 };
                let replies = Replies { namespace: r1, configmap: r2, proxy: r3 };
                assert(configmap_and_proxy_calls(b1, b2, spec_@, replies, b3));
                assert(reconcile_calls(b0, spec_@, replies, b3));
                assert(store@ == reconcile_store(st, spec_@, prior_reconcile_count, created_at, at, replies));
                assert(clock.moments() =~= read + step_moments(at, replies));
            }
            r
        },
        Progress::Pending(_) => unreached(),
    }
}

/// Drives one tenant's cluster resources to match `spec_`, by the machine's
/// clock.
pub fn reconcile_tenant<B: K8sBackend>(
    backend: &mut B,
    store: &mut Store,
    spec_: &TenantPipelineSpec,
    prior_reconcile_count: i64,
    created_at: Option<Timestamp>,
) -> (r: Result<ReconcileOutcome, ReconcileError>)
    requires
        prior_reconcile_count < i64::MAX,
    ensures
        exists|at: StepTimes, replies: Replies|
            {
                &&& reconcile_calls(*old(backend), spec_@, replies, *final(backend))
                &&& final(store)@ == #[trigger] reconcile_store(
                    old(store)@,
                    spec_@,
                    prior_reconcile_count,
                    created_at,
                    at,
                    replies,
                )
                &&& outcome_view(r) == reconcile_result(prior_reconcile_count, replies)
            },
{
    let mut clock = SystemClock::start();
    reconcile_tenant_with(backend, store, spec_, prior_reconcile_count, created_at, &mut clock)
}

// ─── Status ───────────────────────────────────────────────────────────────────

/// The status of a pipeline that has just converged: `recorded` is put down as
/// the moment of the reconcile, and `judged` as that of the Ready condition.
pub open spec fn ready_status(
    st: TenantPipelineStatusView,
    outcome: ReconcileOutcomeView,
    observed_generation: i64,
    recorded: Timestamp,
    judged: Timestamp,
) -> TenantPipelineStatusView {
    TenantPipelineStatusView {
        phase: Phase::Ready,
        conditions: with_condition(
            st.conditions,
            CONDITION_READY@,
            true,
            "Reconciled"@,
            "All resources healthy"@,
            judged,
        ),
        namespace_name: outcome.namespace_name,
        proxy_pod_name: outcome.proxy_pod_name,
        config_map_name: outcome.config_map_name,
        observed_generation,
        last_reconcile_time: Some(rfc3339_text(recorded.secs(), recorded.nanos())),
        reconcile_count: outcome.reconcile_count,
    }
}

/// Applies a successful outcome to a status, as of the given moments.
pub fn apply_ready_status_at(
    status: &mut TenantPipelineStatus,
    outcome: &ReconcileOutcome,
    observed_generation: i64,
    recorded: Timestamp,
    judged: Timestamp,
)
    ensures
        final(status)@ == ready_status(old(status)@, outcome@, observed_generation, recorded, judged),
{
    status.phase = Phase::Ready;
    status.namespace_name = outcome.namespace_name.clone();
    status.proxy_pod_name = outcome.proxy_pod_name.clone();
    status.config_map_name = outcome.config_map_name.clone();
    status.observed_generation = observed_generation;
    status.reconcile_count = outcome.reconcile_count;
    status.last_reconcile_time = Some(recorded.to_rfc3339());
    set_condition_at(status, CONDITION_READY, true, "Reconciled", "All resources healthy", judged);
}

/// Applies a successful outcome to a status, with the clock read for each
/// moment that is written down.
pub fn apply_ready_status_with<C: Clock>(
    status: &mut TenantPipelineStatus,
    outcome: &ReconcileOutcome,
    observed_generation: i64,
    clock: &mut C,
)
    ensures
        exists|recorded: Timestamp, judged: Timestamp|
            {
                &&& final(status)@ == #[trigger] ready_status(
                    old(status)@,
                    outcome@,
                    observed_generation,
                    recorded,
                    judged,
                )
                &&& final(clock).moments() == old(clock).moments() + seq![recorded, judged]
            },
        final(clock).uptimes() == old(clock).uptimes(),
{
    let ghost before = status@;
    let ghost read = clock.moments();
    let recorded = clock.now();
    let judged = clock.now();
    apply_ready_status_at(status, outcome, observed_generation, recorded, judged);
    proof {
        assert(status@ == ready_status(before, outcome@, observed_generation, recorded, judged));
        assert(clock.moments() =~= read + seq![recorded, judged]);
    }
}

/// Applies a successful outcome to a status, by the machine's clock.
pub fn apply_ready_status(
    status: &mut TenantPipelineStatus,
    outcome: &ReconcileOutcome,
    observed_generation: i64,
)
    ensures
        exists|recorded: Timestamp, judged: Timestamp|
            final(status)@ == #[trigger] ready_status(
                old(status)@,
                outcome@,
                observed_generation,
                recorded,
                judged,
            ),
{
    let mut clock = SystemClock::start();
    apply_ready_status_with(status, outcome, observed_generation, &mut clock);
}

/// When the parts of a degraded report were written: its log line, its event,
/// the Ready condition, and the tenant's record.
pub struct ReportTimes {
    pub noted: Timestamp,
    pub announced: Timestamp,
    pub judged: Timestamp,
    pub recorded: Timestamp,
}

/// The status of a pipeline whose reconcile failed.
pub open spec fn degraded_status(
    st: TenantPipelineStatusView,
    err: ReconcileErrorView,
    at: ReportTimes,
) -> TenantPipelineStatusView {
    TenantPipelineStatusView {
        phase: Phase::Degraded,
        conditions: with_condition(
            st.conditions,
            CONDITION_READY@,
            false,
            err.reason(),
            err.message(),
            at.judged,
        ),
        ..st
    }
}

/// The record of a tenant whose reconcile failed. It says nothing of where
/// the tenant's resources are.
pub open spec fn degraded_record(
    tenant_id: Seq<char>,
    display_name: Seq<char>,
    at: Timestamp,
) -> TenantRecordView {
    TenantRecordView {
        tenant_id,
        display_name,
        phase: TenantPhase::Degraded,
        last_reconcile_at: Some(at),
        ..TenantRecordView::blank()
    }
}

/// What a failed reconcile leaves in the store: a log line, an event, and a
/// fresh record that says the tenant is degraded.
pub open spec fn degraded_store(
    st: StoreView,
    tenant_id: Seq<char>,
    display_name: Seq<char>,
    err: ReconcileErrorView,
    at: ReportTimes,
) -> StoreView {
    st.noting(
        at.noted,
        "  ✗ ["@ + tenant_id + "] degraded: "@ + err.reason() + ": "@ + err.message(),
    ).announcing(
        EventKind::ReconcileError,
        tenant_id,
        err.reason() + ": "@ + err.message(),
        at.announced,
    ).with_tenant(degraded_record(tenant_id, display_name, at.recorded))
}

/// Marks a tenant degraded, in the store and on its status, as of the given
/// moments.
pub fn apply_degraded_status_at(
    store: &mut Store,
    status: &mut TenantPipelineStatus,
    tenant_id: &str,
    display_name: &str,
    err: &ReconcileError,
    noted: Timestamp,
    announced: Timestamp,
    judged: Timestamp,
    recorded: Timestamp,
)
    ensures
        ({
            let at = ReportTimes { noted, announced, judged, recorded };
            &&& final(store)@ == degraded_store(old(store)@, tenant_id@, display_name@, err@, at)
            &&& final(status)@ == degraded_status(old(status)@, err@, at)
        }),
{
    let reason = err.reason();
    let text = err.message();
    let line = "  ✗ [".to_owned().concat(tenant_id).concat("] degraded: ").concat(reason).concat(": ").concat(
        text.as_str(),
    );
    store.note(noted, line.as_str());
    let message = reason.to_owned().concat(": ").concat(text.as_str());
    store.announce(EventKind::ReconcileError, tenant_id, message.as_str(), announced);
    status.phase = Phase::Degraded;
    set_condition_at(status, CONDITION_READY, false, reason, text.as_str(), judged);
    let mut record: TenantRecord = TenantRecord::default();
    record.tenant_id = tenant_id.to_owned();
    record.display_name = display_name.to_owned();
    record.phase = TenantPhase::Degraded;
    record.last_reconcile_at = Some(recorded);
    store.upsert_tenant(record);
}

/// The instants that a degraded report reads from its clock.
pub open spec fn report_moments(at: ReportTimes) -> Seq<Timestamp> {
    seq![at.noted, at.announced, at.judged, at.recorded]
}

/// Marks a tenant degraded, in the store and on its status, with the clock
/// read for each moment that is written down.
pub fn apply_degraded_status_with<C: Clock>(
    store: &mut Store,
    status: &mut TenantPipelineStatus,
    tenant_id: &str,
    display_name: &str,
    err: &ReconcileError,
    clock: &mut C,
)
    ensures
        exists|at: ReportTimes|
            {
                &&& final(store)@ == degraded_store(old(store)@, tenant_id@, display_name@, err@, at)
                &&& final(status)@ == #[trigger] degraded_status(old(status)@, err@, at)
                &&& final(clock).moments() == old(clock).moments() + report_moments(at)
            },
        final(clock).uptimes() == old(clock).uptimes(),
{
    let ghost before = status@;
    let ghost st = store@;
    let ghost read = clock.moments();
    let noted = clock.now();
    let announced = clock.now();
    let judged = clock.now();
    let recorded = clock.now();
    apply_degraded_status_at(
        store,
        status,
        tenant_id,
        display_name,
        err,
        noted,
        announced,
        judged,
        recorded,
    );
    proof {
        let at = ReportTimes { noted, announced, judged, recorded };
        assert(store@ == degraded_store(st, tenant_id@, display_name@, err@, at));
        assert(status@ == degraded_status(before, err@, at));
        assert(clock.moments() =~= read + report_moments(at));
    }
}

/// Marks a tenant degraded, in the store and on its status, by the machine's
/// clock.
pub fn apply_degraded_status(
    store: &mut Store,
    status: &mut TenantPipelineStatus,
    tenant_id: &str,
    display_name: &str,
    err: &ReconcileError,
)
    ensures
        exists|at: ReportTimes|
            {
                &&& final(store)@ == degraded_store(old(store)@, tenant_id@, display_name@, err@, at)
                &&& final(status)@ == #[trigger] degraded_status(old(status)@, err@, at)
            },
{
    let mut clock = SystemClock::start();
    apply_degraded_status_with(store, status, tenant_id, display_name, err, &mut clock);
}

// ─── Teardown ─────────────────────────────────────────────────────────────────

/// The namespace that holds a tenant's proxy: the one its record names, and
/// the tenant's own where the record names none.
pub open spec fn home_of(rec: TenantRecordView) -> Seq<char> {
    if rec.namespace.len() == 0 {
        namespace_of(rec.tenant_id)
    } else {
        rec.namespace
    }
}

/// The namespace that holds a tenant's proxy.
pub fn home(rec: &TenantRecord) -> (r: String)
    ensures
        r@ == home_of(rec@),
{
    if rec.namespace.as_str().is_empty() {
        namespace_name(rec.tenant_id.as_str())
    } else {
        rec.namespace.clone()
    }
}

/// A record as a reconcile or a degraded report leaves it for a tenant: it
/// names the tenant's own namespace or none.
pub open spec fn left_for(rec: TenantRecordView, tenant_id: Seq<char>) -> bool {
    &&& rec.tenant_id == tenant_id
    &&& rec.namespace == namespace_of(tenant_id) || rec.namespace.len() == 0
}

/// A teardown has begun.
pub open spec fn after_teardown_start(st: StoreView, tenant_id: Seq<char>, at: Timestamp) -> StoreView {
    st.noting(at, "  🗑  deleting resources for tenant "@ + tenant_id)
}

/// The tenant is gone.
pub open spec fn after_teardown(st: StoreView, tenant_id: Seq<char>, at: Timestamp) -> StoreView {
    st.without_tenant(tenant_id).announcing(
        EventKind::TenantDeleted,
        tenant_id,
        "Resources removed"@,
        at,
    )
}

/// The cluster call that a teardown waits for.
pub enum TeardownRequest {
    DeleteProxy { tenant_id: String, namespace: String },
    DeleteNamespace { tenant_id: String },
}

pub enum TeardownRequestView {
    DeleteProxy { tenant_id: Seq<char>, namespace: Seq<char> },
    DeleteNamespace { tenant_id: Seq<char> },
}

impl View for TeardownRequest {
    type V = TeardownRequestView;

    open spec fn view(&self) -> TeardownRequestView {
        match self {
            TeardownRequest::DeleteProxy { tenant_id, namespace } => TeardownRequestView::DeleteProxy {
                tenant_id: tenant_id@,
                namespace: namespace@,
            },
            TeardownRequest::DeleteNamespace { tenant_id } => TeardownRequestView::DeleteNamespace {
                tenant_id: tenant_id@,
            },
        }
    }
}

/// A teardown that waits for a cluster call: first for the deletion of the
/// proxy, then for that of the namespace.
pub struct Teardown {
    tenant_id: String,
    namespace: String,
    proxy_gone: bool,
}

pub struct TeardownView {
    pub tenant_id: Seq<char>,
    pub namespace: Seq<char>,
    pub proxy_gone: bool,
}

impl View for Teardown {
    type V = TeardownView;

    closed spec fn view(&self) -> TeardownView {
        TeardownView { tenant_id: self.tenant_id@, namespace: self.namespace@, proxy_gone: self.proxy_gone }
    }
}

/// What became of a teardown.
pub enum TeardownProgress {
    Pending(Teardown),
    Finished(Result<(), ReconcileError>),
}

pub enum TeardownProgressView {
    Pending(TeardownView),
    Finished(Result<(), ReconcileErrorView>),
}

impl View for TeardownProgress {
    type V = TeardownProgressView;

    open spec fn view(&self) -> TeardownProgressView {
        match self {
            TeardownProgress::Pending(run) => TeardownProgressView::Pending(run@),
            TeardownProgress::Finished(r) => TeardownProgressView::Finished(teardown_view(*r)),
        }
    }
}

impl TeardownView {
    pub open spec fn request(self) -> TeardownRequestView {
        if self.proxy_gone {
            TeardownRequestView::DeleteNamespace { tenant_id: self.tenant_id }
        } else {
            TeardownRequestView::DeleteProxy { tenant_id: self.tenant_id, namespace: self.namespace }
        }
    }

    pub open spec fn store_after(self, st: StoreView, reply: Result<(), K8sErrorView>, at: Timestamp) -> StoreView {
        if reply is Ok && self.proxy_gone {
            after_teardown(st, self.tenant_id, at)
        } else {
            st
        }
    }

    pub open spec fn progress(self, reply: Result<(), K8sErrorView>) -> TeardownProgressView {
        match reply {
            Ok(_) => if self.proxy_gone {
                TeardownProgressView::Finished(Ok(()))
            } else {
                TeardownProgressView::Pending(TeardownView { proxy_gone: true, ..self })
            },
            Err(e) => TeardownProgressView::Finished(
                Err(
                    if self.proxy_gone {
                        ReconcileErrorView::Namespace(e.message())
                    } else {
                        ReconcileErrorView::Proxy(e.message())
                    },
                ),
            ),
        }
    }
}

impl Teardown {
    /// Begins to take down what a tenant owns. A tenant that the store does
    /// not know owns nothing, and is done with at once.
    pub fn start(store: &mut Store, tenant_id: &str, now: Timestamp) -> (r: TeardownProgress)
        ensures
            ({
                let st = old(store)@;
                let begun = after_teardown_start(st, tenant_id@, now);
                if st.tenants.contains_key(tenant_id@) {
                    &&& final(store)@ == begun
                    &&& r@ == TeardownProgressView::Pending(
                        TeardownView {
                            tenant_id: tenant_id@,
                            namespace: home_of(st.tenants[tenant_id@]),
                            proxy_gone: false,
                        },
                    )
                } else {
                    &&& final(store)@ == after_teardown(begun, tenant_id@, now)
                    &&& r@ == TeardownProgressView::Finished(Ok(()))
                }
            }),
    {
        let line = "  🗑  deleting resources for tenant ".to_owned().concat(tenant_id);
        store.note(now, line.as_str());
        match store.get_tenant(tenant_id) {
            Some(record) => TeardownProgress::Pending(
                Teardown { tenant_id: tenant_id.to_owned(), namespace: home(&record), proxy_gone: false },
            ),
            None => {
                forget(store, tenant_id, now);
                TeardownProgress::Finished(Ok(()))
            },
        }
    }

    /// The cluster call that has to be made next.
    pub fn request(&self) -> (r: TeardownRequest)
        ensures
            r@ == self@.request(),
    {
        if self.proxy_gone {
            TeardownRequest::DeleteNamespace { tenant_id: self.tenant_id.clone() }
        } else {
            TeardownRequest::DeleteProxy {
                tenant_id: self.tenant_id.clone(),
                namespace: self.namespace.clone(),
            }
        }
    }

    /// Takes in what the awaited call returned.
    pub fn advance(self, store: &mut Store, reply: Result<(), K8sError>, now: Timestamp) -> (r: TeardownProgress)
        ensures
            final(store)@ == self@.store_after(old(store)@, unit(reply), now),
            r@ == self@.progress(unit(reply)),
    {
        match reply {
            Ok(_) => if self.proxy_gone {
                forget(store, self.tenant_id.as_str(), now);
                TeardownProgress::Finished(Ok(()))
            } else {
                TeardownProgress::Pending(
                    Teardown { tenant_id: self.tenant_id, namespace: self.namespace, proxy_gone: true },
                )
            },
            Err(e) => {
                let text = e.message();
                TeardownProgress::Finished(
                    Err(
                        if self.proxy_gone {
                            ReconcileError::Namespace(text)
                        } else {
                            ReconcileError::Proxy(text)
                        },
                    ),
                )
            },
        }
    }
}

fn forget(store: &mut Store, tenant_id: &str, now: Timestamp)
    ensures
        final(store)@ == after_teardown(old(store)@, tenant_id@, now),
{
    store.delete_tenant(tenant_id);
    store.announce(EventKind::TenantDeleted, tenant_id, "Resources removed", now);
}

/// What the backend returned to the two calls of a teardown.
pub struct TeardownReplies {
    pub proxy: Result<(), K8sErrorView>,
    pub namespace: Result<(), K8sErrorView>,
}

/// `replies` are what the calls of a teardown returned on the way from `pre`
/// to `post`. A tenant that the store does not know takes no calls.
pub open spec fn teardown_calls<B: K8sBackend>(
    pre: B,
    st: StoreView,
    tenant_id: Seq<char>,
    replies: TeardownReplies,
    post: B,
) -> bool {
    if st.tenants.contains_key(tenant_id) {
        exists|b1: B|
            {
                &&& #[trigger] pre.proxy_deleted(tenant_id, home_of(st.tenants[tenant_id]), replies.proxy, b1)
                &&& match replies.proxy {
                    Err(_) => post == b1,
                    Ok(_) => b1.namespace_deleted(tenant_id, replies.namespace, post),
                }
            }
    } else {
        post == pre
    }
}

/// What a teardown returns, given what the backend answered.
pub open spec fn teardown_result(
    st: StoreView,
    tenant_id: Seq<char>,
    replies: TeardownReplies,
) -> Result<(), ReconcileErrorView> {
    if !st.tenants.contains_key(tenant_id) {
        Ok(())
    } else {
        match replies.proxy {
            Err(e) => Err(ReconcileErrorView::Proxy(e.message())),
            Ok(_) => match replies.namespace {
                Err(e) => Err(ReconcileErrorView::Namespace(e.message())),
                Ok(_) => Ok(()),
            },
        }
    }
}

/// When the steps of a teardown were taken: its start, and the moment after
/// each of its two calls.
pub struct TeardownTimes {
    pub start: Timestamp,
    pub between: Timestamp,
    pub end: Timestamp,
}

/// The instants that a teardown reads from its clock: one at the start, and
/// one after each call it makes.
pub open spec fn teardown_moments(
    st: StoreView,
    tenant_id: Seq<char>,
    at: TeardownTimes,
    replies: TeardownReplies,
) -> Seq<Timestamp> {
    if !st.tenants.contains_key(tenant_id) {
        seq![at.start]
    } else if replies.proxy is Err {
        seq![at.start, at.between]
    } else {
        seq![at.start, at.between, at.end]
    }
}

/// When a teardown that succeeds has ended. A tenant that the store does not
/// know is done with at once.
pub open spec fn teardown_end(st: StoreView, tenant_id: Seq<char>, at: TeardownTimes) -> Timestamp {
    if st.tenants.contains_key(tenant_id) {
        at.end
    } else {
        at.start
    }
}

/// What a teardown leaves in the store: when it failed, the tenant stays.
pub open spec fn teardown_store(
    st: StoreView,
    tenant_id: Seq<char>,
    at: TeardownTimes,
    replies: TeardownReplies,
) -> StoreView {
    let begun = after_teardown_start(st, tenant_id, at.start);
    if teardown_result(st, tenant_id, replies) is Ok {
        after_teardown(begun, tenant_id, teardown_end(st, tenant_id, at))
    } else {
        begun
    }
}

/// Deletes all resources owned by a tenant, with the clock read at every
/// step.
pub fn handle_deletion_with<B: K8sBackend, C: Clock>(
    backend: &mut B,
    store: &mut Store,
    tenant_id: &str,
    clock: &mut C,
) -> (r: Result<(), ReconcileError>)
    ensures
        exists|at: TeardownTimes, replies: TeardownReplies|
            {
                &&& teardown_calls(*old(backend), old(store)@, tenant_id@, replies, *final(backend))
                &&& final(store)@ == #[trigger] teardown_store(old(store)@, tenant_id@, at, replies)
                &&& teardown_view(r) == teardown_result(old(store)@, tenant_id@, replies)
                &&& final(clock).moments() == old(clock).moments() + teardown_moments(
                    old(store)@,
                    tenant_id@,
                    at,
                    replies,
                )
            },
        final(clock).uptimes() == old(clock).uptimes(),
{
    let ghost b0 = *backend;
    let ghost st = store@;
    let ghost read = clock.moments();
    let t0 = clock.now();
    let run = match Teardown::start(store, tenant_id, t0) {
        TeardownProgress::Finished(r) => {
            proof {
                let none: Result<(), K8sErrorView> = Ok(());
                let at = TeardownTimes { start: t0, between: t0, end: t0 };
                let replies = TeardownReplies { proxy: none, namespace: none };
                assert(teardown_calls(b0, st, tenant_id@, replies, b0));
                assert(store@ == teardown_store(st, tenant_id@, at, replies));
                assert(clock.moments() =~= read + teardown_moments(st, tenant_id@, at, replies));
            }
            return r;
        },
        TeardownProgress::Pending(run) => run,
    };
    let ghost ns = home_of(st.tenants[tenant_id@]);
    let proxy_reply = match run.request() {
        TeardownRequest::DeleteProxy { tenant_id, namespace } => backend.delete_proxy_deployment(
            tenant_id.as_str(),
            namespace.as_str(),
        ),
        _ => unreached(),
    };
    let ghost b1 = *backend;
    let ghost r1 = unit(proxy_reply);
    let t1 = clock.now();
    let run = match run.advance(store, proxy_reply, t1) {
        TeardownProgress::Finished(r) => {
            proof {
                let at = TeardownTimes { start: t0, between: t1, end: t1 };
                let replies = TeardownReplies { proxy: r1, namespace: r1 };
                assert(b0.proxy_deleted(tenant_id@, ns, r1, b1));
                assert(teardown_calls(b0, st, tenant_id@, replies, b1));
                assert(store@ == teardown_store(st, tenant_id@, at, replies));
                assert(clock.moments() =~= read + teardown_moments(st, tenant_id@, at, replies));
            }
            return r;
        },
        TeardownProgress::Pending(run) => run,
    };
    let namespace_reply = backend.delete_namespace(tenant_id);
    let ghost r2 = unit(namespace_reply);
    let t2 = clock.now();
    match run.advance(store, namespace_reply, t2) {
        TeardownProgress::Finished(r) => {
            proof {
                let at = TeardownTimes { start: t0, between: t1, end: t2 };
                let replies = TeardownReplies { proxy: r1, namespace: r2 };
                assert(b0.proxy_deleted(tenant_id@, ns, r1, b1));
                assert(teardown_calls(b0, st, tenant_id@, replies, *backend));
                assert(store@ == teardown_store(st, tenant_id@, at, replies));
                assert(clock.moments() =~= read + teardown_moments(st, tenant_id@, at, replies));
            }
            r
        },
        TeardownProgress::Pending(_) => unreached(),
    }
}

/// Deletes all resources owned by a tenant, by the machine's clock.
pub fn handle_deletion<B: K8sBackend>(backend: &mut B, store: &mut Store, tenant_id: &str) -> (r: Result<
    (),
    ReconcileError,
>)
    ensures
        exists|at: TeardownTimes, replies: TeardownReplies|
            {
                &&& teardown_calls(*old(backend), old(store)@, tenant_id@, replies, *final(backend))
                &&& final(store)@ == #[trigger] teardown_store(old(store)@, tenant_id@, at, replies)
                &&& teardown_view(r) == teardown_result(old(store)@, tenant_id@, replies)
            },
{
    let mut clock = SystemClock::start();
    handle_deletion_with(backend, store, tenant_id, &mut clock)
}

// ─── Laws ─────────────────────────────────────────────────────────────────────

/// Taking the steps of a reconcile one by one ends where the whole reconcile
/// ends.
pub proof fn law_steps_make_a_reconcile(
    st: StoreView,
    s: TenantPipelineSpecView,
    prior_count: i64,
    created_at: Option<Timestamp>,
    at: StepTimes,
    replies: Replies,
)
    ensures
        ({
            let begun = after_start(st, s.tenant_id, prior_count, at.start);
            let run = ReconciliationView { spec_: s, prior_count, created_at, stage: StageView::Namespace };
            let whole = reconcile_store(st, s, prior_count, created_at, at, replies);
            let result = ProgressView::Finished(reconcile_result(prior_count, replies));
            let spaced = run.store_after(begun, replies.namespace, at.namespace);
            match run.progress(replies.namespace) {
                ProgressView::Finished(_) => run.progress(replies.namespace) == result && spaced == whole,
                ProgressView::Pending(second) => {
                    let configured = second.store_after(spaced, replies.configmap, at.configmap);
                    match second.progress(replies.configmap) {
                        ProgressView::Finished(_) => second.progress(replies.configmap) == result && configured
                            == whole,
                        ProgressView::Pending(third) => third.progress(replies.proxy) == result
                            && third.store_after(configured, replies.proxy, at.proxy) == whole,
                    }
                },
            }
        }),
{
}

/// Taking the steps of a teardown one by one ends where the whole teardown
/// ends.
pub proof fn law_steps_make_a_teardown(
    st: StoreView,
    tenant_id: Seq<char>,
    at: TeardownTimes,
    replies: TeardownReplies,
)
    requires
        st.tenants.contains_key(tenant_id),
    ensures
        ({
            let begun = after_teardown_start(st, tenant_id, at.start);
            let run = TeardownView { tenant_id, namespace: home_of(st.tenants[tenant_id]), proxy_gone: false };
            let whole = teardown_store(st, tenant_id, at, replies);
            let result = TeardownProgressView::Finished(teardown_result(st, tenant_id, replies));
            let first = run.store_after(begun, replies.proxy, at.between);
            match run.progress(replies.proxy) {
                TeardownProgressView::Finished(_) => run.progress(replies.proxy) == result && first == whole,
                TeardownProgressView::Pending(second) => second.progress(replies.namespace) == result
                    && second.store_after(first, replies.namespace, at.end) == whole,
            }
        }),
{
}

/// The cluster with everything a tenant's spec asks for.
pub open spec fn provisioned(c: ClusterView, s: TenantPipelineSpecView) -> ClusterView {
    let ns = namespace_of(s.tenant_id);
    c.with_namespace(s.tenant_id).with_configmap(ns, s.tenant_id).with_deployment(
        proxy_spec_of(s, ns, configmap_of(s.tenant_id)),
    )
}

/// A reconcile against the in-memory cluster succeeds: it provisions the
/// namespace, the ConfigMap and the proxy, counts one more reconcile, and
/// stores a Ready record.
pub proof fn law_reconcile_provisions_full_stack(
    pre: MockBackend,
    post: MockBackend,
    st: StoreView,
    s: TenantPipelineSpecView,
    prior_count: i64,
    created_at: Option<Timestamp>,
    at: StepTimes,
    replies: Replies,
)
    requires
        prior_count < i64::MAX,
        reconcile_calls(pre, s, replies, post),
    ensures
        ({
            let ns = namespace_of(s.tenant_id);
            let cm = configmap_of(s.tenant_id);
            let proxy = proxy_of(s.tenant_id);
            let count = (prior_count + 1) as i64;
            let outcome = ReconcileOutcomeView {
                namespace_name: ns,
                proxy_pod_name: proxy,
                config_map_name: cm,
                reconcile_count: count,
            };
            let after = reconcile_store(st, s, prior_count, created_at, at, replies);
            &&& reconcile_result(prior_count, replies) == Ok::<ReconcileOutcomeView, ReconcileErrorView>(outcome)
            &&& post@ == provisioned(pre@, s)
            &&& post@.namespaces.contains(ns)
            &&& post@.configmaps.contains((ns, cm))
            &&& post@.deployments.contains_key((ns, proxy))
            &&& post@.deployments[(ns, proxy)] == proxy_spec_of(s, ns, cm)
            &&& after.tenants == st.tenants.insert(
                s.tenant_id,
                converged_record(s, ns, cm, proxy, count, created_at, at.proxy),
            )
            &&& after.tenants[s.tenant_id].phase == TenantPhase::Ready
        }),
{
    let (b1, b2) = choose|b1: MockBackend, b2: MockBackend|
        {
            &&& #[trigger] pre.namespace_ensured(s.tenant_id, replies.namespace, b1)
            &&& #[trigger] configmap_and_proxy_calls(b1, b2, s, replies, post)
        };
    assert(post@ == b2@.with_deployment(
        proxy_spec_of(s, namespace_of(s.tenant_id), configmap_of(s.tenant_id)),
    ));
}

/// Reconciling again with the same spec changes nothing in the cluster.
pub proof fn law_reconcile_idempotent(c: ClusterView, s: TenantPipelineSpecView)
    ensures
        provisioned(provisioned(c, s), s) == provisioned(c, s),
{
    assert(provisioned(provisioned(c, s), s) =~= provisioned(c, s));
}

/// When a tenant's proxy was deleted behind the operator's back, the next
/// reconcile brings it back, and the cluster is as it was.
pub proof fn law_reconcile_restores_deleted_proxy(c: ClusterView, s: TenantPipelineSpecView)
    ensures
        ({
            let ns = namespace_of(s.tenant_id);
            let key = (ns, proxy_of(s.tenant_id));
            let broken = provisioned(c, s).without_deployment(ns, s.tenant_id);
            &&& !broken.deployments.contains_key(key)
            &&& provisioned(broken, s).deployments.contains_key(key)
            &&& provisioned(broken, s) == provisioned(c, s)
        }),
{
    let ns = namespace_of(s.tenant_id);
    assert(provisioned(provisioned(c, s).without_deployment(ns, s.tenant_id), s) =~= provisioned(c, s));
}

/// Whatever the backend answers, a reconcile changes no other tenant's record.
pub proof fn law_reconcile_leaves_other_tenants(
    st: StoreView,
    s: TenantPipelineSpecView,
    prior_count: i64,
    created_at: Option<Timestamp>,
    at: StepTimes,
    replies: Replies,
    other: Seq<char>,
)
    requires
        other != s.tenant_id,
    ensures
        ({
            let after = reconcile_store(st, s, prior_count, created_at, at, replies);
            &&& after.tenants.contains_key(other) == st.tenants.contains_key(other)
            &&& st.tenants.contains_key(other) ==> after.tenants[other] == st.tenants[other]
        }),
{
}

/// A reconcile that fails stores no record: only one that reached the end
/// says that the tenant is Ready.
pub proof fn law_failed_reconcile_stores_no_record(
    st: StoreView,
    s: TenantPipelineSpecView,
    prior_count: i64,
    created_at: Option<Timestamp>,
    at: StepTimes,
    replies: Replies,
)
    requires
        reconcile_result(prior_count, replies) is Err,
    ensures
        reconcile_store(st, s, prior_count, created_at, at, replies).tenants == st.tenants,
{
}

/// A proxy deployment always gets an image, a port and limits: where a spec
/// leaves one out, the default stands.
pub proof fn law_proxy_defaults_fill_the_gaps(s: TenantPipelineSpecView, namespace: Seq<char>, config_map: Seq<char>)
    ensures
        ({
            let p = proxy_spec_of(s, namespace, config_map);
            &&& p.image.len() > 0
            &&& p.port != 0
            &&& p.cpu_milli_limit != 0
            &&& p.memory_mib_limit != 0
            &&& s.proxy.image.len() > 0 ==> p.image == s.proxy.image
            &&& s.proxy.port != 0 ==> p.port == s.proxy.port
        }),
{
    reveal_strlit("envoyproxy/envoy:v1.28-latest");
}

/// Every record that a reconcile against the in-memory cluster or a degraded
/// report leaves leads back to the tenant's own namespace.
pub proof fn law_records_lead_home(
    s: TenantPipelineSpecView,
    config_map: Seq<char>,
    proxy: Seq<char>,
    count: i64,
    created_at: Option<Timestamp>,
    at: Timestamp,
)
    ensures
        ({
            let own = namespace_of(s.tenant_id);
            let ready = converged_record(s, own, config_map, proxy, count, created_at, at);
            let degraded = degraded_record(s.tenant_id, s.display_name, at);
            &&& left_for(ready, s.tenant_id)
            &&& left_for(degraded, s.tenant_id)
            &&& home_of(ready) == own
            &&& home_of(degraded) == own
        }),
{
}

/// Taking a tenant down in the in-memory cluster succeeds: its proxy, its
/// namespace and its record are gone. Where the record is one that a reconcile
/// or a degraded report left, the proxy is the one in the tenant's own
/// namespace.
pub proof fn law_teardown_removes_everything(
    pre: MockBackend,
    post: MockBackend,
    st: StoreView,
    tenant_id: Seq<char>,
    at: TeardownTimes,
    replies: TeardownReplies,
)
    requires
        st.tenants.contains_key(tenant_id),
        teardown_calls(pre, st, tenant_id, replies, post),
    ensures
        ({
            let rec = st.tenants[tenant_id];
            let ns = home_of(rec);
            &&& teardown_result(st, tenant_id, replies) == Ok::<(), ReconcileErrorView>(())
            &&& post@ == pre@.without_deployment(ns, tenant_id).without_namespace(tenant_id)
            &&& !post@.deployments.contains_key((ns, proxy_of(tenant_id)))
            &&& left_for(rec, tenant_id) ==> !post@.deployments.contains_key(
                (namespace_of(tenant_id), proxy_of(tenant_id)),
            )
            &&& !post@.namespaces.contains(namespace_of(tenant_id))
            &&& teardown_store(st, tenant_id, at, replies).tenants == st.tenants.remove(tenant_id)
        }),
{
}

/// A teardown undoes what a reconcile provisioned, but for the ConfigMap,
/// which goes with its namespace in a real cluster.
pub proof fn law_teardown_undoes_reconcile(c: ClusterView, s: TenantPipelineSpecView)
    ensures
        ({
            let ns = namespace_of(s.tenant_id);
            let gone = provisioned(c, s).without_deployment(ns, s.tenant_id).without_namespace(s.tenant_id);
            &&& gone.namespaces == c.namespaces.remove(ns)
            &&& gone.deployments == c.deployments.remove((ns, proxy_of(s.tenant_id)))
        }),
{
    let ns = namespace_of(s.tenant_id);
    let gone = provisioned(c, s).without_deployment(ns, s.tenant_id).without_namespace(s.tenant_id);
    assert(gone.namespaces =~= c.namespaces.remove(ns));
    assert(gone.deployments =~= c.deployments.remove((ns, proxy_of(s.tenant_id))));
}

/// Taking down a tenant that the store does not know is no error, and neither
/// the cluster nor any record changes.
pub proof fn law_teardown_of_unknown_tenant_is_a_noop<B: K8sBackend>(
    pre: B,
    post: B,
    st: StoreView,
    tenant_id: Seq<char>,
    at: TeardownTimes,
    replies: TeardownReplies,
)
    requires
        !st.tenants.contains_key(tenant_id),
        teardown_calls(pre, st, tenant_id, replies, post),
    ensures
        teardown_result(st, tenant_id, replies) == Ok::<(), ReconcileErrorView>(()),
        post == pre,
        teardown_store(st, tenant_id, at, replies).tenants == st.tenants,
{
    assert(st.tenants.remove(tenant_id) =~= st.tenants);
}

/// A teardown that fails keeps every record, so that it can be tried again.
pub proof fn law_failed_teardown_keeps_the_tenant(
    st: StoreView,
    tenant_id: Seq<char>,
    at: TeardownTimes,
    replies: TeardownReplies,
)
    requires
        teardown_result(st, tenant_id, replies) is Err,
    ensures
        st.tenants.contains_key(tenant_id),
        teardown_store(st, tenant_id, at, replies).tenants == st.tenants,
        teardown_store(st, tenant_id, at, replies).events == st.events,
{
}

/// However often a status is reported, Ready or Degraded, it carries one
/// Ready condition, which says what was reported last.
pub proof fn law_status_keeps_one_ready_condition(
    st: TenantPipelineStatusView,
    outcome: ReconcileOutcomeView,
    observed_generation: i64,
    err: ReconcileErrorView,
    first: ReportTimes,
    second: ReportTimes,
)
    ensures
        ({
            let ready = ready_status(st, outcome, observed_generation, first.recorded, first.judged);
            let again = ready_status(ready, outcome, observed_generation, second.recorded, second.judged);
            let degraded = degraded_status(ready, err, second);
            &&& again.conditions.len() == ready.conditions.len()
            &&& degraded.conditions.len() == ready.conditions.len()
            &&& again.conditions == ready_status(
                st,
                outcome,
                observed_generation,
                second.recorded,
                second.judged,
            ).conditions
            &&& degraded.conditions == degraded_status(st, err, second).conditions
        }),
{
    let good = (true, "Reconciled"@, "All resources healthy"@);
    law_condition_set_twice(
        st.conditions,
        CONDITION_READY@,
        (good.0, good.1, good.2, first.judged),
        (good.0, good.1, good.2, second.judged),
    );
    law_condition_set_twice(
        st.conditions,
        CONDITION_READY@,
        (good.0, good.1, good.2, first.judged),
        (false, err.reason(), err.message(), second.judged),
    );
}

/// A resource limit is the declared one whenever one other than zero is
/// declared, however large or small; otherwise the proxy gets 100 milli-cores
/// and 64 MiB.
pub proof fn law_resource_limits_are_as_declared(s: TenantPipelineSpecView, namespace: Seq<char>, config_map: Seq<char>)
    ensures
        ({
            let p = proxy_spec_of(s, namespace, config_map);
            &&& (s.proxy.resource_limit_milli_cpu matches Some(v) ==> (v != 0 ==> p.cpu_milli_limit == v))
            &&& s.proxy.resource_limit_milli_cpu is None ==> p.cpu_milli_limit == 100
            &&& s.proxy.resource_limit_milli_cpu == Some(0i64) ==> p.cpu_milli_limit == 100
            &&& (s.proxy.resource_limit_memory_mib matches Some(v) ==> (v != 0 ==> p.memory_mib_limit == v))
            &&& s.proxy.resource_limit_memory_mib is None ==> p.memory_mib_limit == 64
            &&& s.proxy.resource_limit_memory_mib == Some(0i64) ==> p.memory_mib_limit == 64
        }),
{
}

/// The proxy that is deployed is the declared tenant's, in the given namespace
/// and under the given limits, with the declared image and port; where none is
/// declared, it is Envoy 1.28 on port 10000.
pub proof fn law_proxy_is_deployed_as_declared(s: TenantPipelineSpecView, namespace: Seq<char>, config_map: Seq<char>)
    ensures
        ({
            let p = proxy_spec_of(s, namespace, config_map);
            &&& p.tenant_id == s.tenant_id
            &&& p.namespace == namespace
            &&& p.config_map_name == config_map
            &&& s.proxy.image.len() > 0 ==> p.image == s.proxy.image
            &&& s.proxy.image.len() == 0 ==> p.image == "envoyproxy/envoy:v1.28-latest"@
            &&& s.proxy.port != 0 ==> p.port == s.proxy.port
            &&& s.proxy.port == 0 ==> p.port == 10000
        }),
{
}

/// The limits that go into a tenant's ConfigMap are the declared ones.
pub proof fn law_rate_limits_are_as_declared(s: TenantPipelineSpecView)
    ensures
        limits_of(s).tier == s.rate_limit.tier,
        limits_of(s).rps == s.rate_limit.requests_per_second,
        limits_of(s).burst == s.rate_limit.burst_capacity,
        limits_of(s).max_concurrent == s.rate_limit.max_concurrent,
{
}

/// The record of a converged tenant repeats what was declared for it and names
/// the resources that the cluster answered with, one more reconcile, its
/// moment, and the creation that was known before.
pub proof fn law_converged_record_says_what_was_done(
    st: StoreView,
    s: TenantPipelineSpecView,
    prior_count: i64,
    created_at: Option<Timestamp>,
    at: StepTimes,
    replies: Replies,
)
    requires
        prior_count < i64::MAX,
        replies.namespace is Ok,
        replies.configmap is Ok,
        replies.proxy is Ok,
    ensures
        ({
            let after = reconcile_store(st, s, prior_count, created_at, at, replies);
            let rec = after.tenants[s.tenant_id];
            &&& after.tenants.contains_key(s.tenant_id)
            &&& rec.tenant_id == s.tenant_id
            &&& rec.display_name == s.display_name
            &&& rec.namespace == replies.namespace->Ok_0
            &&& rec.config_map_name == replies.configmap->Ok_0
            &&& rec.proxy_pod_name == replies.proxy->Ok_0
            &&& rec.phase == TenantPhase::Ready
            &&& rec.tier == s.rate_limit.tier
            &&& rec.rps == s.rate_limit.requests_per_second
            &&& rec.burst == s.rate_limit.burst_capacity
            &&& rec.max_concurrent == s.rate_limit.max_concurrent
            &&& s.proxy.image.len() > 0 ==> rec.proxy_image == s.proxy.image
            &&& s.proxy.image.len() == 0 ==> rec.proxy_image == "envoyproxy/envoy:v1.28-latest"@
            &&& rec.reconcile_count == prior_count + 1
            &&& rec.last_reconcile_at == Some(at.proxy)
            &&& rec.created_at == created_at
        }),
{
}

/// A reconcile returns the names that the cluster answered with and one more
/// reconcile, or the error of the first call that failed, which tells the
/// failed resource and the cluster's words.
pub proof fn law_reconcile_reports_what_the_cluster_answered(prior_count: i64, replies: Replies)
    requires
        prior_count < i64::MAX,
    ensures
        ({
            let r = reconcile_result(prior_count, replies);
            &&& r is Ok <==> replies.namespace is Ok && replies.configmap is Ok && replies.proxy is Ok
            &&& (r matches Ok(o) ==> {
                &&& Ok::<Seq<char>, K8sErrorView>(o.namespace_name) == replies.namespace
                &&& Ok::<Seq<char>, K8sErrorView>(o.config_map_name) == replies.configmap
                &&& Ok::<Seq<char>, K8sErrorView>(o.proxy_pod_name) == replies.proxy
                &&& o.reconcile_count == prior_count + 1
            })
            &&& (replies.namespace matches Err(e) ==> {
                &&& r->Err_0.reason() == "NamespaceFailed"@
                &&& r->Err_0.message() == "namespace provisioning failed: "@ + e.message()
            })
            &&& (replies.configmap is Err && replies.namespace is Ok ==> {
                &&& r->Err_0.reason() == "ConfigMapFailed"@
                &&& r->Err_0.message() == "configmap provisioning failed: "@ + replies.configmap->Err_0.message()
            })
            &&& (replies.proxy is Err && replies.namespace is Ok && replies.configmap is Ok ==> {
                &&& r->Err_0.reason() == "ProxyFailed"@
                &&& r->Err_0.message() == "proxy deployment provisioning failed: "@ + replies.proxy->Err_0.message()
            })
        }),
{
}

/// A run asks for its tenant's namespace, then for a ConfigMap with the
/// declared limits there, then for the proxy that reads that ConfigMap, and it
/// remembers each name that the cluster answered with.
pub proof fn law_run_asks_for_each_resource_in_turn(run: ReconciliationView, ns: Seq<char>, cm: Seq<char>)
    requires
        run.stage is Namespace,
    ensures
        run.request() == (RequestView::EnsureNamespace { tenant_id: run.spec_.tenant_id }),
        ({
            let second = run.progress(Ok(ns))->Pending_0;
            let third = second.progress(Ok(cm))->Pending_0;
            &&& run.progress(Ok(ns)) is Pending
            &&& second.progress(Ok(cm)) is Pending
            &&& second.spec_ == run.spec_ && third.spec_ == run.spec_
            &&& second.prior_count == run.prior_count && third.prior_count == run.prior_count
            &&& second.created_at == run.created_at && third.created_at == run.created_at
            &&& (second.request() matches RequestView::EnsureConfigMap { tenant_id, namespace, data } && {
                &&& tenant_id == run.spec_.tenant_id
                &&& namespace == ns
                &&& data.tier == run.spec_.rate_limit.tier
                &&& data.rps == run.spec_.rate_limit.requests_per_second
                &&& data.burst == run.spec_.rate_limit.burst_capacity
                &&& data.max_concurrent == run.spec_.rate_limit.max_concurrent
            })
            &&& (third.request() matches RequestView::EnsureProxy(p) && {
                &&& p.tenant_id == run.spec_.tenant_id
                &&& p.namespace == ns
                &&& p.config_map_name == cm
            })
        }),
{
}

/// The first two steps of a reconcile tell what they did in one log line and
/// one event each, and change no record.
pub proof fn law_start_and_namespace_are_told(
    st: StoreView,
    tenant_id: Seq<char>,
    prior_count: i64,
    namespace: Seq<char>,
    at: Timestamp,
)
    ensures
        says_more(
            st,
            after_start(st, tenant_id, prior_count, at),
            stamped(at, "⟳  ["@ + tenant_id + "] reconcile #"@ + decimal_text(prior_count + 1) + " start"@),
            (EventView {
                kind: EventKind::ReconcileStart,
                tenant_id,
                message: "Reconcile #"@ + decimal_text(prior_count + 1),
                timestamp: at,
            }),
        ),
        says_more(
            st,
            after_namespace(st, tenant_id, namespace, at),
            stamped(at, "  ✓ namespace/"@ + namespace + " ready"@),
            (EventView {
                kind: EventKind::NamespaceReady,
                tenant_id,
                message: "Namespace "@ + namespace + " ready"@,
                timestamp: at,
            }),
        ),
{
    lemma_note_and_announcement(
        st,
        at,
        "⟳  ["@ + tenant_id + "] reconcile #"@ + decimal_text(prior_count + 1) + " start"@,
        EventKind::ReconcileStart,
        tenant_id,
        "Reconcile #"@ + decimal_text(prior_count + 1),
        at,
    );
    lemma_note_and_announcement(
        st,
        at,
        "  ✓ namespace/"@ + namespace + " ready"@,
        EventKind::NamespaceReady,
        tenant_id,
        "Namespace "@ + namespace + " ready"@,
        at,
    );
}

/// The ConfigMap's step tells the tier, the rate and the burst that were
/// declared, and changes no record.
pub proof fn law_configmap_is_told(st: StoreView, s: TenantPipelineSpecView, config_map: Seq<char>, at: Timestamp)
    ensures
        says_more(
            st,
            after_configmap(st, s, config_map, at),
            stamped(
                at,
                "  ✓ configmap/"@ + config_map + " synced (tier="@ + s.rate_limit.tier + " rps="@ + decimal_text(
                    s.rate_limit.requests_per_second as int,
                ) + " burst="@ + decimal_text(s.rate_limit.burst_capacity as int) + ")"@,
            ),
            (EventView {
                kind: EventKind::ConfigReloaded,
                tenant_id: s.tenant_id,
                message: "ConfigMap "@ + config_map + " synced"@,
                timestamp: at,
            }),
        ),
{
    lemma_note_and_announcement(
        st,
        at,
        "  ✓ configmap/"@ + config_map + " synced (tier="@ + s.rate_limit.tier + " rps="@ + decimal_text(
            s.rate_limit.requests_per_second as int,
        ) + " burst="@ + decimal_text(s.rate_limit.burst_capacity as int) + ")"@,
        EventKind::ConfigReloaded,
        s.tenant_id,
        "ConfigMap "@ + config_map + " synced"@,
        at,
    );
}

/// The last step tells first of the proxy, with its image and port, and then
/// that the tenant converged, and no other record than the tenant's changes.
pub proof fn law_proxy_and_convergence_are_told(
    st: StoreView,
    s: TenantPipelineSpecView,
    prior_count: i64,
    created_at: Option<Timestamp>,
    namespace: Seq<char>,
    config_map: Seq<char>,
    proxy: Seq<char>,
    at: Timestamp,
)
    ensures
        ({
            let p = proxy_spec_of(s, namespace, config_map);
            let after = after_proxy(st, s, prior_count, created_at, namespace, config_map, proxy, at);
            let up = "  ✓ deployment/"@ + proxy + " up (image="@ + p.image + " port="@ + decimal_text(p.port as int) + ")"@;
            let done = "  ✓ ["@ + s.tenant_id + "] reconcile complete"@;
            &&& after.events == st.events.push(
                (EventView {
                    kind: EventKind::ProxyUp,
                    tenant_id: s.tenant_id,
                    message: "Proxy deployment "@ + proxy + " running"@,
                    timestamp: at,
                }),
            ).push(
                (EventView {
                    kind: EventKind::ReconcileOk,
                    tenant_id: s.tenant_id,
                    message: "Converged"@,
                    timestamp: at,
                }),
            )
            &&& after.logs == st.with_log(stamped(at, up)).with_log(stamped(at, done)).logs
            &&& after.tenants.remove(s.tenant_id) == st.tenants.remove(s.tenant_id)
            &&& after.channel == st.channel && after.room == st.room
        }),
{
    let after = after_proxy(st, s, prior_count, created_at, namespace, config_map, proxy, at);
    assert(after.tenants.remove(s.tenant_id) =~= st.tenants.remove(s.tenant_id));
}

/// The clock is read once at the start and once after each call that is made,
/// in that order.
pub proof fn law_reconcile_reads_its_clock_in_order(at: StepTimes, replies: Replies)
    ensures
        ({
            let read = step_moments(at, replies);
            &&& 2 <= read.len() <= 4
            &&& read[0] == at.start && read[1] == at.namespace
            &&& read.len() > 2 <==> replies.namespace is Ok
            &&& read.len() > 2 ==> read[2] == at.configmap
            &&& read.len() > 3 <==> replies.namespace is Ok && replies.configmap is Ok
            &&& read.len() > 3 ==> read[3] == at.proxy
        }),
{
}

/// The status of a converged pipeline repeats the outcome, the generation and
/// the moment, and says under `Ready` that all is well; its other conditions
/// stay as they were.
pub proof fn law_ready_status_repeats_the_outcome(
    st: TenantPipelineStatusView,
    outcome: ReconcileOutcomeView,
    observed_generation: i64,
    recorded: Timestamp,
    judged: Timestamp,
    i: int,
)
    requires
        types_distinct(st.conditions),
    ensures
        ({
            let after = ready_status(st, outcome, observed_generation, recorded, judged);
            &&& after.phase == Phase::Ready
            &&& after.namespace_name == outcome.namespace_name
            &&& after.proxy_pod_name == outcome.proxy_pod_name
            &&& after.config_map_name == outcome.config_map_name
            &&& after.reconcile_count == outcome.reconcile_count
            &&& after.observed_generation == observed_generation
            &&& after.last_reconcile_time == Some(rfc3339_text(recorded.secs(), recorded.nanos()))
            &&& exists|k: int| 0 <= k < after.conditions.len() && (#[trigger] after.conditions[k]).type_ == "Ready"@
            &&& 0 <= i < after.conditions.len() && after.conditions[i].type_ == "Ready"@ ==> {
                &&& after.conditions[i].status == "True"@
                &&& after.conditions[i].reason == "Reconciled"@
                &&& after.conditions[i].message == "All resources healthy"@
                &&& after.conditions[i].last_transition_time == judged
            }
            &&& 0 <= i < st.conditions.len() && st.conditions[i].type_ != "Ready"@ ==> after.conditions[i]
                == st.conditions[i]
        }),
{
    let after = ready_status(st, outcome, observed_generation, recorded, judged);
    law_condition_updated_in_place(st.conditions, "Ready"@, true, "Reconciled"@, "All resources healthy"@, judged);
    if 0 <= i < after.conditions.len() && after.conditions[i].type_ == "Ready"@ {
        law_condition_says_what_was_set(
            st.conditions,
            "Ready"@,
            true,
            "Reconciled"@,
            "All resources healthy"@,
            judged,
            i,
        );
    }
}

/// The status of a failed pipeline says under `Ready` that it is not, with the
/// error's reason and words; what it said of resources, generation and count
/// stays, and so do its other conditions.
pub proof fn law_degraded_status_tells_the_error(
    st: TenantPipelineStatusView,
    err: ReconcileErrorView,
    at: ReportTimes,
    i: int,
)
    requires
        types_distinct(st.conditions),
    ensures
        ({
            let after = degraded_status(st, err, at);
            &&& after.phase == Phase::Degraded
            &&& after.namespace_name == st.namespace_name
            &&& after.proxy_pod_name == st.proxy_pod_name
            &&& after.config_map_name == st.config_map_name
            &&& after.reconcile_count == st.reconcile_count
            &&& after.observed_generation == st.observed_generation
            &&& after.last_reconcile_time == st.last_reconcile_time
            &&& exists|k: int| 0 <= k < after.conditions.len() && (#[trigger] after.conditions[k]).type_ == "Ready"@
            &&& 0 <= i < after.conditions.len() && after.conditions[i].type_ == "Ready"@ ==> {
                &&& after.conditions[i].status == "False"@
                &&& after.conditions[i].reason == err.reason()
                &&& after.conditions[i].message == err.message()
                &&& after.conditions[i].last_transition_time == at.judged
            }
            &&& 0 <= i < st.conditions.len() && st.conditions[i].type_ != "Ready"@ ==> after.conditions[i]
                == st.conditions[i]
        }),
{
    let after = degraded_status(st, err, at);
    law_condition_updated_in_place(st.conditions, "Ready"@, false, err.reason(), err.message(), at.judged);
    if 0 <= i < after.conditions.len() && after.conditions[i].type_ == "Ready"@ {
        law_condition_says_what_was_set(st.conditions, "Ready"@, false, err.reason(), err.message(), at.judged, i);
    }
}

/// A degraded report tells the error in one log line and one event, and leaves
/// a record that knows the tenant's names, that it is degraded and since when,
/// and nothing else; no other record changes.
pub proof fn law_degraded_report_tells_the_error(
    st: StoreView,
    tenant_id: Seq<char>,
    display_name: Seq<char>,
    err: ReconcileErrorView,
    at: ReportTimes,
)
    ensures
        ({
            let after = degraded_store(st, tenant_id, display_name, err, at);
            let rec = after.tenants[tenant_id];
            let words = err.reason() + ": "@ + err.message();
            &&& after.tenants.contains_key(tenant_id)
            &&& rec.tenant_id == tenant_id
            &&& rec.display_name == display_name
            &&& rec.phase == TenantPhase::Degraded
            &&& rec.last_reconcile_at == Some(at.recorded)
            &&& rec.namespace.len() == 0 && rec.proxy_pod_name.len() == 0 && rec.config_map_name.len() == 0
            &&& rec.tier.len() == 0 && rec.proxy_image.len() == 0
            &&& rec.rps == 0 && rec.burst == 0 && rec.max_concurrent == 0 && rec.reconcile_count == 0
            &&& rec.created_at is None
            &&& after.tenants.remove(tenant_id) == st.tenants.remove(tenant_id)
            &&& after.logs == st.with_log(
                stamped(at.noted, "  ✗ ["@ + tenant_id + "] degraded: "@ + words),
            ).logs
            &&& after.events == st.events.push(
                (EventView {
                    kind: EventKind::ReconcileError,
                    tenant_id,
                    message: words,
                    timestamp: at.announced,
                }),
            )
        }),
{
    let after = degraded_store(st, tenant_id, display_name, err, at);
    assert("  ✗ ["@ + tenant_id + "] degraded: "@ + (err.reason() + ": "@ + err.message()) =~= "  ✗ ["@ + tenant_id
        + "] degraded: "@ + err.reason() + ": "@ + err.message());
    assert(after.tenants.remove(tenant_id) =~= st.tenants.remove(tenant_id));
}

/// A degraded report reads its clock for the log line, the event, the
/// condition and the record, in that order.
pub proof fn law_report_reads_its_clock_in_order(at: ReportTimes)
    ensures
        report_moments(at).len() == 4,
        report_moments(at)[0] == at.noted,
        report_moments(at)[1] == at.announced,
        report_moments(at)[2] == at.judged,
        report_moments(at)[3] == at.recorded,
{
}

/// A tenant's proxy is looked for where its record says, and in the namespace
/// `tenant-` and the tenant's identifier where the record says nothing.
pub proof fn law_home_is_where_the_record_says(rec: TenantRecordView)
    ensures
        rec.namespace.len() > 0 ==> home_of(rec) == rec.namespace,
        rec.namespace.len() == 0 ==> home_of(rec) == "tenant-"@ + rec.tenant_id,
{
}

/// A teardown tells when it begins, and when it is over that the tenant's
/// resources are gone; then, and only then, the tenant's record is gone.
pub proof fn law_teardown_is_told(
    st: StoreView,
    tenant_id: Seq<char>,
    at: TeardownTimes,
    replies: TeardownReplies,
)
    ensures
        ({
            let after = teardown_store(st, tenant_id, at, replies);
            let known = st.tenants.contains_key(tenant_id);
            let done = !known || replies.proxy is Ok && replies.namespace is Ok;
            &&& after.logs == st.with_log(
                stamped(at.start, "  🗑  deleting resources for tenant "@ + tenant_id),
            ).logs
            &&& done ==> after.events == st.events.push(
                (EventView {
                    kind: EventKind::TenantDeleted,
                    tenant_id,
                    message: "Resources removed"@,
                    timestamp: if known {
                        at.end
                    } else {
                        at.start
                    },
                }),
            )
            &&& done ==> after.tenants == st.tenants.remove(tenant_id)
            &&& !done ==> after.events == st.events && after.tenants == st.tenants
        }),
{
}

/// A teardown of a known tenant returns the error of the first call that
/// failed, in the cluster's words, and none if both went well.
pub proof fn law_teardown_reports_what_the_cluster_answered(
    st: StoreView,
    tenant_id: Seq<char>,
    replies: TeardownReplies,
)
    requires
        st.tenants.contains_key(tenant_id),
    ensures
        ({
            let r = teardown_result(st, tenant_id, replies);
            &&& r is Ok <==> replies.proxy is Ok && replies.namespace is Ok
            &&& (replies.proxy matches Err(e) ==> {
                &&& r->Err_0.reason() == "ProxyFailed"@
                &&& r->Err_0.message() == "proxy deployment provisioning failed: "@ + e.message()
            })
            &&& (replies.namespace is Err && replies.proxy is Ok ==> {
                &&& r->Err_0.reason() == "NamespaceFailed"@
                &&& r->Err_0.message() == "namespace provisioning failed: "@ + replies.namespace->Err_0.message()
            })
        }),
{
}

/// A teardown asks first for the tenant's proxy in the tenant's home, and once
/// that is gone for the tenant's namespace.
pub proof fn law_teardown_asks_for_the_proxy_first(run: TeardownView)
    requires
        !run.proxy_gone,
    ensures
        run.request() == (TeardownRequestView::DeleteProxy { tenant_id: run.tenant_id, namespace: run.namespace }),
        ({
            let second = run.progress(Ok(()))->Pending_0;
            &&& run.progress(Ok(())) is Pending
            &&& second.request() == (TeardownRequestView::DeleteNamespace { tenant_id: run.tenant_id })
            &&& second.progress(Ok(())) == TeardownProgressView::Finished(Ok(()))
        }),
{
}

/// The clock is read once at the start of a teardown and once after each call
/// that is made, in that order.
pub proof fn law_teardown_reads_its_clock_in_order(
    st: StoreView,
    tenant_id: Seq<char>,
    at: TeardownTimes,
    replies: TeardownReplies,
)
    ensures
        ({
            let read = teardown_moments(st, tenant_id, at, replies);
            &&& 1 <= read.len() <= 3
            &&& read[0] == at.start
            &&& read.len() > 1 <==> st.tenants.contains_key(tenant_id)
            &&& read.len() > 1 ==> read[1] == at.between
            &&& read.len() > 2 <==> st.tenants.contains_key(tenant_id) && replies.proxy is Ok
            &&& read.len() > 2 ==> read[2] == at.end
        }),
{
}

/// What a contract says of an outcome, an error and a request is what their
/// own fields hold.
pub proof fn law_outcomes_and_requests_are_read_field_by_field(
    outcome: ReconcileOutcome,
    error: ReconcileError,
    request: Request,
    last: TeardownRequest,
)
    ensures
        outcome@.namespace_name == outcome.namespace_name@,
        outcome@.proxy_pod_name == outcome.proxy_pod_name@,
        outcome@.config_map_name == outcome.config_map_name@,
        outcome@.reconcile_count == outcome.reconcile_count,
        error matches ReconcileError::Namespace(t) ==> error@ == ReconcileErrorView::Namespace(t@),
        error matches ReconcileError::ConfigMap(t) ==> error@ == ReconcileErrorView::ConfigMap(t@),
        error matches ReconcileError::Proxy(t) ==> error@ == ReconcileErrorView::Proxy(t@),
        request matches Request::EnsureNamespace { tenant_id } ==> request@ == (RequestView::EnsureNamespace {
            tenant_id: tenant_id@,
        }),
        request matches Request::EnsureConfigMap { tenant_id, namespace, data } ==> request@
            == (RequestView::EnsureConfigMap { tenant_id: tenant_id@, namespace: namespace@, data: data@ }),
        request matches Request::EnsureProxy(p) ==> request@ == RequestView::EnsureProxy(p@),
        last matches TeardownRequest::DeleteProxy { tenant_id, namespace } ==> last@
            == (TeardownRequestView::DeleteProxy { tenant_id: tenant_id@, namespace: namespace@ }),
        last matches TeardownRequest::DeleteNamespace { tenant_id } ==> last@
            == (TeardownRequestView::DeleteNamespace { tenant_id: tenant_id@ }),
{
}

/// The results of a reconcile and of a teardown are read as they are.
pub proof fn law_results_are_read_as_they_are(
    driven: Result<ReconcileOutcome, ReconcileError>,
    torn: Result<(), ReconcileError>,
)
    ensures
        driven matches Ok(o) ==> outcome_view(driven) == Ok::<ReconcileOutcomeView, ReconcileErrorView>(o@),
        driven matches Err(e) ==> outcome_view(driven) == Err::<ReconcileOutcomeView, ReconcileErrorView>(e@),
        torn is Ok <==> teardown_view(torn) is Ok,
        torn matches Err(e) ==> teardown_view(torn) == Err::<(), ReconcileErrorView>(e@),
{
}

/// Whatever backend it works on, a reconcile asks first for the namespace of
/// the declared tenant, then for the ConfigMap with the declared limits in the
/// namespace it was told, and then for the proxy that the declaration asks for,
/// in that namespace and with the ConfigMap it was told. After a failed call it
/// asks for nothing more.
pub proof fn law_calls_follow_the_declaration<B: K8sBackend>(pre: B, s: TenantPipelineSpecView, replies: Replies, post: B)
    requires
        reconcile_calls(pre, s, replies, post),
    ensures
        exists|b1: B, b2: B, data: RateLimitDataView|
            {
                &&& #[trigger] pre.namespace_ensured(s.tenant_id, replies.namespace, b1)
                &&& replies.namespace is Err ==> post == b1
                &&& replies.namespace is Ok ==> {
                    &&& #[trigger] b1.configmap_ensured(
                        s.tenant_id,
                        replies.namespace->Ok_0,
                        data,
                        replies.configmap,
                        b2,
                    )
                    &&& data.tier == s.rate_limit.tier
                    &&& data.rps == s.rate_limit.requests_per_second
                    &&& data.burst == s.rate_limit.burst_capacity
                    &&& data.max_concurrent == s.rate_limit.max_concurrent
                    &&& replies.configmap is Err ==> post == b2
                    &&& replies.configmap is Ok ==> b2.proxy_ensured(
                        proxy_spec_of(s, replies.namespace->Ok_0, replies.configmap->Ok_0),
                        replies.proxy,
                        post,
                    )
                }
            },
{
    let (b1, b2) = choose|b1: B, b2: B|
        {
            &&& #[trigger] pre.namespace_ensured(s.tenant_id, replies.namespace, b1)
            &&& #[trigger] configmap_and_proxy_calls(b1, b2, s, replies, post)
        };
    let data = limits_of(s);
    assert(pre.namespace_ensured(s.tenant_id, replies.namespace, b1));
    if replies.namespace is Ok {
        assert(b1.configmap_ensured(s.tenant_id, replies.namespace->Ok_0, data, replies.configmap, b2));
    } else {
        // Names the second call, which was not made.
        let made = b1.configmap_ensured(s.tenant_id, replies.namespace->Ok_0, data, replies.configmap, b2);
        assert(made || !made);
    }
}

/// Whatever backend it works on, a teardown of a known tenant deletes the
/// tenant's proxy from where its record says it is, and then, if that went
/// well, the tenant's namespace. One of an unknown tenant asks for nothing.
pub proof fn law_teardown_calls_follow_the_record<B: K8sBackend>(
    pre: B,
    st: StoreView,
    tenant_id: Seq<char>,
    replies: TeardownReplies,
    post: B,
)
    requires
        teardown_calls(pre, st, tenant_id, replies, post),
        forall|id: Seq<char>| #[trigger] st.tenants.contains_key(id) ==> st.tenants[id].tenant_id == id,
    ensures
        !st.tenants.contains_key(tenant_id) ==> post == pre,
        st.tenants.contains_key(tenant_id) ==> exists|b1: B, place: Seq<char>|
            {
                &&& #[trigger] pre.proxy_deleted(tenant_id, place, replies.proxy, b1)
                &&& st.tenants[tenant_id].namespace.len() > 0 ==> place == st.tenants[tenant_id].namespace
                &&& st.tenants[tenant_id].namespace.len() == 0 ==> place == "tenant-"@ + tenant_id
                &&& replies.proxy is Err ==> post == b1
                &&& replies.proxy is Ok ==> b1.namespace_deleted(tenant_id, replies.namespace, post)
            },
{
    if st.tenants.contains_key(tenant_id) {
        let place = home_of(st.tenants[tenant_id]);
        let b1 = choose|b1: B|
            {
                &&& #[trigger] pre.proxy_deleted(tenant_id, place, replies.proxy, b1)
                &&& match replies.proxy {
                    Err(_) => post == b1,
                    Ok(_) => b1.namespace_deleted(tenant_id, replies.namespace, post),
                }
            };
        assert(pre.proxy_deleted(tenant_id, place, replies.proxy, b1));
    }
}

} // verus!
