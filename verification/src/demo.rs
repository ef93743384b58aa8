//! The operator loop of the demo: there is no API server to watch, so the
//! declared pipelines are polled, and driven to convergence in an in-memory
//! cluster by the same reconcile rules.
//!
//! A converged pipeline is reconciled again from time to time even if its
//! spec has not changed, so a deployment that was deleted behind the
//! operator's back really comes back.

use crate::api::{ApiReply, ApiReplyView, STATUS_OK};
use crate::clock::{Clock, Timestamp};
use crate::crd::{
    ProxyConfig, ProxyConfigView, RateLimitPolicy, RateLimitPolicyView, TenantPipelineSpec, TenantPipelineSpecView,
};
use crate::json::{in_field, in_item, lemma_member_is_field, members, Json, JsonView};
use crate::k8s_backend::mock::{ClusterView, MockBackend};
use crate::k8s_backend::mock_crd::{is_spec_listing, keyed_by_tenant, spec_views, MockCrdBackend, PipelinesView};
use crate::k8s_backend::{configmap_of, law_names_do_not_collide, namespace_of, proxy_of, CrdBackend};
use crate::keyed::{is_listing, KeyedList};
use crate::reconcile::{
    after_teardown, after_teardown_start, handle_deletion_with, home_of, law_reconcile_provisions_full_stack,
    law_teardown_of_unknown_tenant_is_a_noop, law_teardown_removes_everything, left_for, outcome_view, provisioned,
    proxy_spec_of, reconcile_calls, reconcile_result, reconcile_store, reconcile_tenant_with, step_moments,
    teardown_calls, teardown_end, teardown_moments, teardown_result, teardown_store, teardown_view, Replies, StepTimes, TeardownReplies, TeardownTimes,
};
use crate::store::{EventKind, EventView, Store, StoreView, TenantPhase};
use crate::text::texts;
use vstd::prelude::*;

verus! {

/// How often the pipelines are polled, in milliseconds.
pub const POLL_INTERVAL_MILLIS: u64 = 400;

/// How long a converged, unchanged pipeline is left alone, in nanoseconds.
pub const DRIFT_CHECK_INTERVAL_NANOS: u64 = 12_000_000_000;

/// The part of a spec whose change asks for an immediate reconcile.
#[derive(Debug)]
pub struct Fingerprint {
    tier: String,
    rps: i32,
    burst: i32,
    max_concurrent: i32,
    image: String,
    port: i32,
    cpu_milli: Option<i64>,
    mem_mib: Option<i64>,
    paused: bool,
}

pub struct FingerprintView {
    pub rate_limit: RateLimitPolicyView,
    pub proxy: ProxyConfigView,
    pub paused: bool,
}

impl View for Fingerprint {
    type V = FingerprintView;

    closed spec fn view(&self) -> FingerprintView {
        FingerprintView {
            rate_limit: RateLimitPolicyView {
                tier: self.tier@,
                requests_per_second: self.rps,
                burst_capacity: self.burst,
                max_concurrent: self.max_concurrent,
            },
            proxy: ProxyConfigView {
                image: self.image@,
                port: self.port,
                resource_limit_milli_cpu: self.cpu_milli,
                resource_limit_memory_mib: self.mem_mib,
            },
            paused: self.paused,
        }
    }
}

/// A spec's fingerprint: everything but the tenant's names.
pub open spec fn fingerprint_of(s: TenantPipelineSpecView) -> FingerprintView {
    FingerprintView { rate_limit: s.rate_limit, proxy: s.proxy, paused: s.paused }
}

impl Fingerprint {
    /// The fingerprint of a spec.
    pub fn of(s: &TenantPipelineSpec) -> (r: Fingerprint)
        ensures
            r@ == fingerprint_of(s@),
    {
        Fingerprint {
            tier: s.rate_limit.tier.clone(),
            rps: s.rate_limit.requests_per_second,
            burst: s.rate_limit.burst_capacity,
            max_concurrent: s.rate_limit.max_concurrent,
            image: s.proxy.image.clone(),
            port: s.proxy.port,
            cpu_milli: s.proxy.resource_limit_milli_cpu,
            mem_mib: s.proxy.resource_limit_memory_mib,
            paused: s.paused,
        }
    }

    /// Whether two fingerprints are equal.
    pub fn same_as(&self, other: &Fingerprint) -> (r: bool)
        ensures
            r == (self@ == other@),
    {
        self.tier == other.tier && self.rps == other.rps && self.burst == other.burst && self.max_concurrent
            == other.max_concurrent && self.image == other.image && self.port == other.port && self.cpu_milli
            == other.cpu_milli && self.mem_mib == other.mem_mib && self.paused == other.paused
    }
}

/// What the loop remembers of a pipeline.
struct Seen {
    fingerprint: Fingerprint,
    created_at: Timestamp,
    last_reconciled: u64,
}

pub struct SeenView {
    pub fingerprint: FingerprintView,
    /// When the loop first saw the pipeline.
    pub created_at: Timestamp,
    /// The uptime at which it was last reconciled, in nanoseconds.
    pub last_reconciled: u64,
}

impl View for Seen {
    type V = SeenView;

    closed spec fn view(&self) -> SeenView {
        SeenView {
            fingerprint: self.fingerprint@,
            created_at: self.created_at,
            last_reconciled: self.last_reconciled,
        }
    }
}

/// Everything a cycle works on.
#[verifier::ext_equal]
pub struct DemoView {
    pub seen: Map<Seq<char>, SeenView>,
    pub cluster: ClusterView,
    pub store: StoreView,
}

/// The time from one uptime to another, or none at all.
pub open spec fn elapsed(since: u64, uptime: u64) -> int {
    if uptime >= since {
        uptime - since
    } else {
        0
    }
}

/// Whether a pipeline has to be reconciled: because it is new, because it
/// changed, or because it was left alone for long enough.
pub open spec fn is_due(seen: Map<Seq<char>, SeenView>, s: TenantPipelineSpecView, uptime: u64) -> bool {
    if seen.contains_key(s.tenant_id) {
        let t = seen[s.tenant_id];
        t.fingerprint != fingerprint_of(s) || elapsed(t.last_reconciled, uptime) >= DRIFT_CHECK_INTERVAL_NANOS
    } else {
        true
    }
}

/// How often a tenant was reconciled before.
pub open spec fn prior_count(st: StoreView, tenant_id: Seq<char>) -> i64 {
    if st.tenants.contains_key(tenant_id) {
        st.tenants[tenant_id].reconcile_count
    } else {
        0
    }
}

/// Since when a pipeline is known.
pub open spec fn known_since(seen: Map<Seq<char>, SeenView>, tenant_id: Seq<char>, now: Timestamp) -> Timestamp {
    if seen.contains_key(tenant_id) {
        seen[tenant_id].created_at
    } else {
        now
    }
}

/// What the in-memory cluster answers to a reconcile.
pub open spec fn mock_replies(tenant_id: Seq<char>) -> Replies {
    Replies {
        namespace: Ok(namespace_of(tenant_id)),
        configmap: Ok(configmap_of(tenant_id)),
        proxy: Ok(proxy_of(tenant_id)),
    }
}

/// When a pipeline was looked at: the uptime in nanoseconds, the moment from
/// which it counts as known if it is new, and the steps of its reconcile.
pub struct VisitTimes {
    pub uptime: u64,
    pub first_seen: Timestamp,
    pub steps: StepTimes,
}

/// The world after a pipeline was looked at.
pub open spec fn visited(d: DemoView, s: TenantPipelineSpecView, at: VisitTimes) -> DemoView {
    if is_due(d.seen, s, at.uptime) {
        let created_at = known_since(d.seen, s.tenant_id, at.first_seen);
        DemoView {
            seen: d.seen.insert(
                s.tenant_id,
                SeenView { fingerprint: fingerprint_of(s), created_at, last_reconciled: at.uptime },
            ),
            cluster: provisioned(d.cluster, s),
            store: reconcile_store(
                d.store,
                s,
                prior_count(d.store, s.tenant_id),
                Some(created_at),
                at.steps,
                mock_replies(s.tenant_id),
            ),
        }
    } else {
        d
    }
}

/// The instants that are read from the clock while a pipeline is looked at:
/// when it is due, one more if it is new, and those of its reconcile.
pub open spec fn visit_moments(d: DemoView, s: TenantPipelineSpecView, at: VisitTimes) -> Seq<Timestamp> {
    let steps = step_moments(at.steps, mock_replies(s.tenant_id));
    if !is_due(d.seen, s, at.uptime) {
        Seq::empty()
    } else if d.seen.contains_key(s.tenant_id) {
        steps
    } else {
        seq![at.first_seen] + steps
    }
}

/// What the in-memory cluster answers to a teardown.
pub open spec fn mock_teardown_replies() -> TeardownReplies {
    TeardownReplies { proxy: Ok(()), namespace: Ok(()) }
}

/// The instants that are read from the clock while a pipeline is retired.
pub open spec fn retire_moments(d: DemoView, tenant_id: Seq<char>, at: TeardownTimes) -> Seq<Timestamp> {
    teardown_moments(d.store, tenant_id, at, mock_teardown_replies())
}

/// The world after a pipeline's disappearance was noticed.
pub open spec fn retired(d: DemoView, tenant_id: Seq<char>, at: TeardownTimes) -> DemoView {
    DemoView {
        seen: d.seen.remove(tenant_id),
        cluster: if d.store.tenants.contains_key(tenant_id) {
            d.cluster.without_deployment(home_of(d.store.tenants[tenant_id]), tenant_id).without_namespace(tenant_id)
        } else {
            d.cluster
        },
        store: after_teardown(
            after_teardown_start(d.store, tenant_id, at.start),
            tenant_id,
            teardown_end(d.store, tenant_id, at),
        ),
    }
}

/// The world after a number of disappearances, each noticed at its own time.
pub open spec fn all_retired(d: DemoView, ids: Seq<Seq<char>>, at: Map<Seq<char>, TeardownTimes>) -> DemoView
    decreases ids.len(),
{
    if ids.len() == 0 {
        d
    } else {
        retired(all_retired(d, ids.drop_last(), at), ids.last(), at[ids.last()])
    }
}

/// The world after a number of pipelines were looked at, each at its own time.
pub open spec fn all_visited(
    d: DemoView,
    specs: Seq<TenantPipelineSpecView>,
    at: Map<Seq<char>, VisitTimes>,
) -> DemoView
    decreases specs.len(),
{
    if specs.len() == 0 {
        d
    } else {
        visited(all_visited(d, specs.drop_last(), at), specs.last(), at[specs.last().tenant_id])
    }
}

/// The instants that are read while a number of pipelines are retired.
pub open spec fn all_retired_moments(
    d: DemoView,
    ids: Seq<Seq<char>>,
    at: Map<Seq<char>, TeardownTimes>,
) -> Seq<Timestamp>
    decreases ids.len(),
{
    if ids.len() == 0 {
        Seq::empty()
    } else {
        all_retired_moments(d, ids.drop_last(), at) + retire_moments(
            all_retired(d, ids.drop_last(), at),
            ids.last(),
            at[ids.last()],
        )
    }
}

/// The instants that are read while a number of pipelines are looked at.
pub open spec fn all_visited_moments(
    d: DemoView,
    specs: Seq<TenantPipelineSpecView>,
    at: Map<Seq<char>, VisitTimes>,
) -> Seq<Timestamp>
    decreases specs.len(),
{
    if specs.len() == 0 {
        Seq::empty()
    } else {
        all_visited_moments(d, specs.drop_last(), at) + visit_moments(
            all_visited(d, specs.drop_last(), at),
            specs.last(),
            at[specs.last().tenant_id],
        )
    }
}

/// `ids` names each seen pipeline that is no longer declared, once.
pub open spec fn lists_the_gone(
    ids: Seq<Seq<char>>,
    seen: Map<Seq<char>, SeenView>,
    pipelines: PipelinesView,
) -> bool {
    &&& ids.no_duplicates()
    &&& forall|id: Seq<char>| #[trigger]
        ids.contains(id) <==> seen.contains_key(id) && !pipelines.contains_key(id)
}

/// How a cycle went: in which order it retired what had disappeared and looked
/// at what was declared, and when, by tenant.
pub struct CycleRun {
    pub gone: Seq<Seq<char>>,
    pub specs: Seq<TenantPipelineSpecView>,
    pub teardowns: Map<Seq<char>, TeardownTimes>,
    pub visits: Map<Seq<char>, VisitTimes>,
}

/// A cycle led from `pre` to `post`: what disappeared was retired, and each
/// declared pipeline was then looked at.
pub open spec fn cycle_made(pre: DemoView, pipelines: PipelinesView, run: CycleRun, post: DemoView) -> bool {
    &&& lists_the_gone(run.gone, pre.seen, pipelines)
    &&& is_spec_listing(run.specs, pipelines)
    &&& post == all_visited(all_retired(pre, run.gone, run.teardowns), run.specs, run.visits)
}

/// The instants that a cycle reads from its clock.
pub open spec fn cycle_moments(pre: DemoView, run: CycleRun) -> Seq<Timestamp> {
    all_retired_moments(pre, run.gone, run.teardowns) + all_visited_moments(
        all_retired(pre, run.gone, run.teardowns),
        run.specs,
        run.visits,
    )
}

/// The uptimes at which a cycle looked at the declared pipelines.
pub open spec fn visit_uptimes(specs: Seq<TenantPipelineSpecView>, visits: Map<Seq<char>, VisitTimes>) -> Seq<u64> {
    specs.map_values(|s: TenantPipelineSpecView| visits[s.tenant_id].uptime)
}

/// The poll loop's memory.
pub struct DemoLoop {
    seen: KeyedList<String, Seen>,
}

impl View for DemoLoop {
    type V = Map<Seq<char>, SeenView>;

    closed spec fn view(&self) -> Map<Seq<char>, SeenView> {
        self.seen@.map_values(|t: Seen| t@)
    }
}

/// The world made of its parts.
pub open spec fn world(seen: Map<Seq<char>, SeenView>, backend: MockBackend, store: Store) -> DemoView {
    DemoView { seen, cluster: backend@, store: store@ }
}

impl DemoLoop {
    /// A loop that has seen nothing yet.
    pub fn new() -> (r: DemoLoop)
        ensures
            r@ == Map::<Seq<char>, SeenView>::empty(),
    {
        let r = DemoLoop { seen: KeyedList::new() };
        assert(r@ =~= Map::<Seq<char>, SeenView>::empty());
        r
    }

    /// Looks at one declared pipeline, at the given uptime in nanoseconds.
    pub fn visit_at<C: Clock>(
        &mut self,
        backend: &mut MockBackend,
        store: &mut Store,
        s: &TenantPipelineSpec,
        uptime: u64,
        clock: &mut C,
    )
        requires
            is_due(old(self)@, s@, uptime) ==> prior_count(old(store)@, s@.tenant_id) < i64::MAX,
        ensures
            exists|at: VisitTimes|
                {
                    &&& at.uptime == uptime
                    &&& world(final(self)@, *final(backend), *final(store)) == #[trigger] visited(
                        world(old(self)@, *old(backend), *old(store)),
                        s@,
                        at,
                    )
                    &&& final(clock).moments() == old(clock).moments() + visit_moments(
                        world(old(self)@, *old(backend), *old(store)),
                        s@,
                        at,
                    )
                },
            final(clock).uptimes() == old(clock).uptimes(),
    {
        let ghost pre = world(self@, *backend, *store);
        let ghost b0 = *backend;
        let ghost st = store@;
        let ghost read = clock.moments();
        let fingerprint = Fingerprint::of(s);
        let created_at = match self.seen.get(&s.tenant_id) {
            Some(t) => {
                let waited: u64 = if uptime >= t.last_reconciled {
                    uptime - t.last_reconciled
                } else {
                    0
                };
                if t.fingerprint.same_as(&fingerprint) && waited < DRIFT_CHECK_INTERVAL_NANOS {
                    proof {
                        let at = VisitTimes { uptime, ..arbitrary() };
                        assert(world(self@, *backend, *store) == visited(pre, s@, at));
                        assert(clock.moments() =~= read + visit_moments(pre, s@, at));
                    }
                    return ;
                }
                t.created_at
            },
            None => clock.now(),
        };
        let ghost halfway = clock.moments();
        let prior: i64 = match store.get_tenant(s.tenant_id.as_str()) {
            Some(record) => record.reconcile_count,
            None => 0,
        };
        let result = reconcile_tenant_with(backend, store, s, prior, Some(created_at), clock);
        let ghost mut steps: StepTimes = arbitrary();
        proof {
            let (times, replies) = choose|times: StepTimes, replies: Replies|
                {
                    &&& reconcile_calls(b0, s@, replies, *backend)
                    &&& store@ == #[trigger] reconcile_store(st, s@, prior, Some(created_at), times, replies)
                    &&& outcome_view(result) == reconcile_result(prior, replies)
                    &&& clock.moments() == halfway + step_moments(times, replies)
                };
            law_reconcile_provisions_full_stack(b0, *backend, st, s@, prior, Some(created_at), times, replies);
            assert(replies == mock_replies(s@.tenant_id));
            steps = times;
        }
        self.seen.insert(s.tenant_id.clone(), Seen { fingerprint, created_at, last_reconciled: uptime });
        proof {
            let at = VisitTimes { uptime, first_seen: created_at, steps };
            assert(self@ =~= visited(pre, s@, at).seen);
            assert(world(self@, *backend, *store) == visited(pre, s@, at));
            lemma_one_more(read, created_at, step_moments(steps, mock_replies(s@.tenant_id)));
            assert(clock.moments() == read + visit_moments(pre, s@, at));
        }
    }

    /// Looks at one declared pipeline, at the uptime that the clock shows.
    pub fn visit<C: Clock>(
        &mut self,
        backend: &mut MockBackend,
        store: &mut Store,
        s: &TenantPipelineSpec,
        clock: &mut C,
    )
        requires
            prior_count(old(store)@, s@.tenant_id) < i64::MAX,
        ensures
            exists|at: VisitTimes|
                {
                    &&& world(final(self)@, *final(backend), *final(store)) == #[trigger] visited(
                        world(old(self)@, *old(backend), *old(store)),
                        s@,
                        at,
                    )
                    &&& final(clock).moments() == old(clock).moments() + visit_moments(
                        world(old(self)@, *old(backend), *old(store)),
                        s@,
                        at,
                    )
                    &&& final(clock).uptimes() == old(clock).uptimes().push(at.uptime)
                },
    {
        let uptime: u64 = clock.uptime();
        self.visit_at(backend, store, s, uptime, clock);
    }

    /// Takes down a pipeline that is no longer declared.
    pub fn retire<C: Clock>(
        &mut self,
        backend: &mut MockBackend,
        store: &mut Store,
        tenant_id: &str,
        clock: &mut C,
    )
        ensures
            exists|at: TeardownTimes|
                {
                    &&& world(final(self)@, *final(backend), *final(store)) == #[trigger] retired(
                        world(old(self)@, *old(backend), *old(store)),
                        tenant_id@,
                        at,
                    )
                    &&& final(clock).moments() == old(clock).moments() + retire_moments(
                        world(old(self)@, *old(backend), *old(store)),
                        tenant_id@,
                        at,
                    )
                },
            final(clock).uptimes() == old(clock).uptimes(),
    {
        let ghost pre = world(self@, *backend, *store);
        let ghost b0 = *backend;
        let ghost st = store@;
        let ghost read = clock.moments();
        let result = handle_deletion_with(backend, store, tenant_id, clock);
        let _ = self.seen.remove(&tenant_id.to_owned());
        proof {
            let (at, replies) = choose|at: TeardownTimes, replies: TeardownReplies|
                {
                    &&& teardown_calls(b0, st, tenant_id@, replies, *backend)
                    &&& store@ == #[trigger] teardown_store(st, tenant_id@, at, replies)
                    &&& teardown_view(result) == teardown_result(st, tenant_id@, replies)
                    &&& clock.moments() == read + teardown_moments(st, tenant_id@, at, replies)
                };
            if st.tenants.contains_key(tenant_id@) {
                law_teardown_removes_everything(b0, *backend, st, tenant_id@, at, replies);
            } else {
                law_teardown_of_unknown_tenant_is_a_noop(b0, *backend, st, tenant_id@, at, replies);
            }
            assert(self@ =~= retired(pre, tenant_id@, at).seen);
            assert(world(self@, *backend, *store) == retired(pre, tenant_id@, at));
            assert(clock.moments() == read + retire_moments(pre, tenant_id@, at));
        }
    }

    /// The pipelines the loop has seen that are no longer declared.
    fn find_gone(&self, crd: &MockCrdBackend) -> (r: Vec<String>)
        ensures
            lists_the_gone(texts(r@), self@, crd@),
    {
        let mut gone: Vec<String> = Vec::new();
        let n: usize = self.seen.len();
        let ghost pairs = self.seen.pairs();
        let mut i: usize = 0;
        while i < n
            invariant
                i <= n,
                n == pairs.len(),
                pairs == self.seen.pairs(),
                is_listing(pairs, self.seen@),
                texts(gone@).no_duplicates(),
                forall|j: int|
                    0 <= j < gone@.len() ==> !crd@.contains_key((#[trigger] gone@[j])@) && exists|m: int|
                        0 <= m < i && (#[trigger] pairs[m]).0 == gone@[j]@,
                forall|m: int|
                    0 <= m < i && !crd@.contains_key((#[trigger] pairs[m]).0) ==> texts(gone@).contains(pairs[m].0),
            decreases n - i,
        {
            let (id, _) = self.seen.at(i);
            if crd.get(id.as_str()).is_none() {
                let ghost before = gone@;
                gone.push(id.clone());
                proof {
                    let now = texts(gone@);
                    assert(now =~= texts(before).push(id@));
                    assert forall|a: int, b: int| 0 <= a < now.len() && 0 <= b < now.len() && a != b implies now[a]
                        != now[b] by {
                        if a == before.len() || b == before.len() {
                            let old_one = if a == before.len() {
                                b
                            } else {
                                a
                            };
                            let m = choose|m: int| 0 <= m < i && (#[trigger] pairs[m]).0 == before[old_one]@;
                            assert(pairs[m].0 != pairs[i as int].0);
                            assert(now[old_one] == texts(before)[old_one]);
                        } else {
                            assert(texts(before)[a] != texts(before)[b]);
                        }
                    }
                    assert forall|j: int| 0 <= j < gone@.len() implies !crd@.contains_key((#[trigger] gone@[j])@)
                        && exists|m: int| 0 <= m < i + 1 && (#[trigger] pairs[m]).0 == gone@[j]@ by {
                        if j < before.len() {
                            let m = choose|m: int| 0 <= m < i && (#[trigger] pairs[m]).0 == before[j]@;
                            assert(pairs[m].0 == gone@[j]@);
                        } else {
                            assert(pairs[i as int].0 == gone@[j]@);
                        }
                    }
                    assert forall|m: int|
                        0 <= m < i + 1 && !crd@.contains_key((#[trigger] pairs[m]).0) implies now.contains(
                        pairs[m].0,
                    ) by {
                        if m < i {
                            let k = choose|k: int| 0 <= k < texts(before).len() && texts(before)[k] == pairs[m].0;
                            assert(now[k] == pairs[m].0);
                        } else {
                            assert(now[before.len() as int] == pairs[m].0);
                        }
                    }
                }
            }
            i = i + 1;
        }
        proof {
            let ids = texts(gone@);
            assert forall|id: Seq<char>| #[trigger] ids.contains(id) implies self@.contains_key(id)
                && !crd@.contains_key(id) by {
                let k = choose|k: int| 0 <= k < ids.len() && ids[k] == id;
                assert(gone@[k]@ == id);
                let m = choose|m: int| 0 <= m < n && (#[trigger] pairs[m]).0 == gone@[k]@;
                assert(self.seen@.contains_key(pairs[m].0));
            }
            assert forall|id: Seq<char>| self@.contains_key(id) && !crd@.contains_key(id) implies #[trigger] ids.contains(
                id,
            ) by {
                assert(self.seen@.contains_key(id));
                let m = choose|m: int| 0 <= m < pairs.len() && (#[trigger] pairs[m]).0 == id;
                assert(!crd@.contains_key(pairs[m].0));
            }
        }
        gone
    }

    /// One cycle of the loop, at the given uptime in nanoseconds if there is
    /// one, and otherwise at what the clock shows for each pipeline.
    fn cycle_by<C: Clock>(
        &mut self,
        crd: &MockCrdBackend,
        backend: &mut MockBackend,
        store: &mut Store,
        fixed: Option<u64>,
        clock: &mut C,
    )
        requires
            forall|id: Seq<char>| #[trigger]
                crd@.contains_key(id) && may_be_due(old(self)@, crd@[id], fixed) ==> prior_count(old(store)@, id)
                    < i64::MAX,
        ensures
            exists|run: CycleRun|
                {
                    &&& #[trigger] cycle_made(
                        world(old(self)@, *old(backend), *old(store)),
                        crd@,
                        run,
                        world(final(self)@, *final(backend), *final(store)),
                    )
                    &&& final(clock).moments() == old(clock).moments() + cycle_moments(
                        world(old(self)@, *old(backend), *old(store)),
                        run,
                    )
                    &&& timed_by(crd@, run, fixed, old(clock).uptimes(), final(clock).uptimes())
                },
    {
        let ghost pre = world(self@, *backend, *store);
        let ghost read = clock.moments();
        let ghost ups = clock.uptimes();
        let specs = crd.list();
        let ghost listed = spec_views(specs@);
        proof {
            lemma_listing_distinct(listed, crd@);
        }
        let gone = self.find_gone(crd);
        let ghost ids = texts(gone@);
        let ghost mut teardowns: Map<Seq<char>, TeardownTimes> = Map::empty();
        let mut i: usize = 0;
        assert(ids.take(0) =~= Seq::<Seq<char>>::empty());
        assert(clock.moments() =~= read + all_retired_moments(pre, ids.take(0), teardowns));
        while i < gone.len()
            invariant
                i <= gone@.len(),
                ids == texts(gone@),
                ids.no_duplicates(),
                world(self@, *backend, *store) == all_retired(pre, ids.take(i as int), teardowns),
                clock.moments() == read + all_retired_moments(pre, ids.take(i as int), teardowns),
                clock.uptimes() == ups,
            decreases gone@.len() - i,
        {
            let ghost before = world(self@, *backend, *store);
            let ghost so_far = clock.moments();
            let ghost earlier = ids.take(i as int);
            let ghost id = ids[i as int];
            self.retire(backend, store, gone[i].as_str(), clock);
            proof {
                let at = choose|at: TeardownTimes|
                    {
                        &&& world(self@, *backend, *store) == #[trigger] retired(before, id, at)
                        &&& clock.moments() == so_far + retire_moments(before, id, at)
                    };
                let known = teardowns;
                teardowns = teardowns.insert(id, at);
                assert(ids.take(i + 1).drop_last() =~= earlier);
                assert(ids.take(i + 1).last() == id);
                assert forall|a: int| 0 <= a < earlier.len() implies teardowns[#[trigger] earlier[a]]
                    == known[earlier[a]] by {
                    assert(ids[a] != ids[i as int]);
                }
                lemma_retired_alike(pre, earlier, known, teardowns);
                assert(clock.moments() =~= read + all_retired_moments(pre, ids.take(i + 1), teardowns));
            }
            i = i + 1;
        }
        assert(ids.take(gone@.len() as int) =~= ids);
        let ghost swept = all_retired(pre, ids, teardowns);
        let ghost swept_at = clock.moments();
        proof {
            assert forall|j: int|
                0 <= j < listed.len() && may_be_due(self@, #[trigger] listed[j], fixed) implies prior_count(
                store@,
                listed[j].tenant_id,
            ) < i64::MAX by {
                lemma_listing_values(listed, crd@, j);
                lemma_all_retired(pre, ids, teardowns, listed[j].tenant_id);
                assert(may_be_due(pre.seen, listed[j], fixed));
            }
        }
        let ghost mut visits: Map<Seq<char>, VisitTimes> = Map::empty();
        let mut k: usize = 0;
        assert(listed.take(0) =~= Seq::<TenantPipelineSpecView>::empty());
        assert(clock.moments() =~= swept_at + all_visited_moments(swept, listed.take(0), visits));
        assert(clock.uptimes() =~= ups + visit_uptimes(listed.take(0), visits));
        while k < specs.len()
            invariant
                k <= specs@.len(),
                listed == spec_views(specs@),
                world(self@, *backend, *store) == all_visited(swept, listed.take(k as int), visits),
                clock.moments() == swept_at + all_visited_moments(swept, listed.take(k as int), visits),
                match fixed {
                    Some(uptime) => {
                        &&& clock.uptimes() == ups
                        &&& forall|a: int|
                            0 <= a < k ==> visits[(#[trigger] listed[a]).tenant_id].uptime == uptime
                    },
                    None => clock.uptimes() == ups + visit_uptimes(listed.take(k as int), visits),
                },
                forall|a: int, b: int|
                    0 <= a < b < listed.len() ==> (#[trigger] listed[a]).tenant_id != (#[trigger] listed[b]).tenant_id,
                forall|j: int|
                    k <= j < listed.len() && may_be_due(self@, #[trigger] listed[j], fixed) ==> prior_count(
                        store@,
                        listed[j].tenant_id,
                    ) < i64::MAX,
            decreases specs@.len() - k,
        {
            let ghost before = world(self@, *backend, *store);
            let ghost so_far = clock.moments();
            let ghost earlier = listed.take(k as int);
            let ghost one = listed[k as int];
            assert(one == specs@[k as int]@);
            let uptime: u64 = match fixed {
                Some(uptime) => uptime,
                None => clock.uptime(),
            };
            assert(is_due(self@, one, uptime) ==> may_be_due(self@, one, fixed));
            self.visit_at(backend, store, &specs[k], uptime, clock);
            proof {
                let at = choose|at: VisitTimes|
                    {
                        &&& at.uptime == uptime
                        &&& world(self@, *backend, *store) == #[trigger] visited(before, one, at)
                        &&& clock.moments() == so_far + visit_moments(before, one, at)
                    };
                let known = visits;
                visits = visits.insert(one.tenant_id, at);
                assert(listed.take(k + 1).drop_last() =~= earlier);
                assert(listed.take(k + 1).last() == one);
                assert forall|a: int| 0 <= a < earlier.len() implies visits[(#[trigger] earlier[a]).tenant_id]
                    == known[earlier[a].tenant_id] by {
                    assert(listed[a].tenant_id != listed[k as int].tenant_id);
                }
                lemma_visited_alike(swept, earlier, known, visits);
                assert(clock.moments() =~= swept_at + all_visited_moments(swept, listed.take(k + 1), visits));
                assert(visit_uptimes(listed.take(k + 1), visits) =~= visit_uptimes(earlier, known).push(uptime));
                assert forall|a: int| 0 <= a < k + 1 && fixed is Some implies visits[(
                #[trigger] listed[a]).tenant_id].uptime == uptime by {
                    if a < k {
                        assert(earlier[a] == listed[a]);
                    }
                }
                assert forall|j: int|
                    k + 1 <= j < listed.len() && may_be_due(self@, #[trigger] listed[j], fixed) implies prior_count(
                    store@,
                    listed[j].tenant_id,
                ) < i64::MAX by {
                    assert(listed[k as int].tenant_id != listed[j].tenant_id);
                    lemma_visit_is_local(before, one, at, listed[j].tenant_id);
                    assert(may_be_due(before.seen, listed[j], fixed));
                }
            }
            k = k + 1;
        }
        proof {
            let run = CycleRun { gone: ids, specs: listed, teardowns, visits };
            assert(listed.take(specs@.len() as int) =~= listed);
            assert(cycle_made(pre, crd@, run, world(self@, *backend, *store)));
            assert(clock.moments() =~= read + cycle_moments(pre, run));
            assert forall|id: Seq<char>| #[trigger] crd@.contains_key(id) && fixed is Some implies run.visits[id].uptime
                == fixed->0 by {
                let a = choose|a: int| 0 <= a < listed.len() && (#[trigger] listed[a]).tenant_id == id;
                assert(visits[listed[a].tenant_id].uptime == fixed->0);
            }
        }
    }

    /// One cycle of the loop, at the given uptime in nanoseconds: takes down
    /// what is no longer declared, and looks at every pipeline that is.
    pub fn cycle_at<C: Clock>(
        &mut self,
        crd: &MockCrdBackend,
        backend: &mut MockBackend,
        store: &mut Store,
        uptime: u64,
        clock: &mut C,
    )
        requires
            forall|id: Seq<char>| #[trigger]
                crd@.contains_key(id) && is_due(old(self)@, crd@[id], uptime) ==> prior_count(old(store)@, id)
                    < i64::MAX,
        ensures
            exists|run: CycleRun|
                {
                    &&& #[trigger] cycle_made(
                        world(old(self)@, *old(backend), *old(store)),
                        crd@,
                        run,
                        world(final(self)@, *final(backend), *final(store)),
                    )
                    &&& forall|id: Seq<char>| #[trigger]
                        crd@.contains_key(id) ==> run.visits[id].uptime == uptime
                    &&& final(clock).moments() == old(clock).moments() + cycle_moments(
                        world(old(self)@, *old(backend), *old(store)),
                        run,
                    )
                },
            final(clock).uptimes() == old(clock).uptimes(),
    {
        self.cycle_by(crd, backend, store, Some(uptime), clock);
    }

    /// One cycle of the loop: takes down what is no longer declared, and looks
    /// at every pipeline that is, each at the uptime that the clock then shows.
    pub fn cycle<C: Clock>(
        &mut self,
        crd: &MockCrdBackend,
        backend: &mut MockBackend,
        store: &mut Store,
        clock: &mut C,
    )
        requires
            forall|id: Seq<char>| #[trigger] crd@.contains_key(id) ==> prior_count(old(store)@, id) < i64::MAX,
        ensures
            exists|run: CycleRun|
                {
                    &&& #[trigger] cycle_made(
                        world(old(self)@, *old(backend), *old(store)),
                        crd@,
                        run,
                        world(final(self)@, *final(backend), *final(store)),
                    )
                    &&& final(clock).moments() == old(clock).moments() + cycle_moments(
                        world(old(self)@, *old(backend), *old(store)),
                        run,
                    )
                    &&& final(clock).uptimes() == old(clock).uptimes() + visit_uptimes(run.specs, run.visits)
                },
    {
        self.cycle_by(crd, backend, store, None, clock);
    }
}

/// Reading one instant and then the rest is reading all of them.
proof fn lemma_one_more(read: Seq<Timestamp>, first: Timestamp, rest: Seq<Timestamp>)
    ensures
        read.push(first) + rest == read + (seq![first] + rest),
{
    assert(read.push(first) + rest =~= read + (seq![first] + rest));
}

/// Whether a pipeline may have to be reconciled, at the given uptime if there
/// is one.
pub open spec fn may_be_due(seen: Map<Seq<char>, SeenView>, s: TenantPipelineSpecView, fixed: Option<u64>) -> bool {
    fixed matches Some(uptime) ==> is_due(seen, s, uptime)
}

/// A cycle looked at every pipeline at the given uptime, or else at what was
/// read from the clock in turn.
pub open spec fn timed_by(
    pipelines: PipelinesView,
    run: CycleRun,
    fixed: Option<u64>,
    before: Seq<u64>,
    after: Seq<u64>,
) -> bool {
    match fixed {
        Some(uptime) => {
            &&& after == before
            &&& forall|id: Seq<char>| #[trigger] pipelines.contains_key(id) ==> run.visits[id].uptime == uptime
        },
        None => after == before + visit_uptimes(run.specs, run.visits),
    }
}

/// Only the times of the tenants at hand matter to what is retired.
proof fn lemma_retired_alike(
    d: DemoView,
    ids: Seq<Seq<char>>,
    at: Map<Seq<char>, TeardownTimes>,
    also: Map<Seq<char>, TeardownTimes>,
)
    requires
        forall|a: int| 0 <= a < ids.len() ==> also[#[trigger] ids[a]] == at[ids[a]],
    ensures
        all_retired(d, ids, at) == all_retired(d, ids, also),
        all_retired_moments(d, ids, at) == all_retired_moments(d, ids, also),
    decreases ids.len(),
{
    if ids.len() > 0 {
        assert forall|a: int| 0 <= a < ids.drop_last().len() implies also[#[trigger] ids.drop_last()[a]]
            == at[ids.drop_last()[a]] by {
            assert(also[ids[a]] == at[ids[a]]);
        }
        lemma_retired_alike(d, ids.drop_last(), at, also);
        assert(also[ids[ids.len() - 1]] == at[ids[ids.len() - 1]]);
    }
}

/// Only the times of the pipelines at hand matter to what is looked at.
proof fn lemma_visited_alike(
    d: DemoView,
    specs: Seq<TenantPipelineSpecView>,
    at: Map<Seq<char>, VisitTimes>,
    also: Map<Seq<char>, VisitTimes>,
)
    requires
        forall|a: int| 0 <= a < specs.len() ==> also[(#[trigger] specs[a]).tenant_id] == at[specs[a].tenant_id],
    ensures
        all_visited(d, specs, at) == all_visited(d, specs, also),
        all_visited_moments(d, specs, at) == all_visited_moments(d, specs, also),
    decreases specs.len(),
{
    if specs.len() > 0 {
        let shorter = specs.drop_last();
        assert forall|a: int| 0 <= a < shorter.len() implies also[(#[trigger] shorter[a]).tenant_id]
            == at[shorter[a].tenant_id] by {
            assert(also[specs[a].tenant_id] == at[specs[a].tenant_id]);
        }
        lemma_visited_alike(d, shorter, at, also);
        assert(also[specs[specs.len() - 1].tenant_id] == at[specs[specs.len() - 1].tenant_id]);
    }
}

/// No two listed pipelines are of the same tenant.
proof fn lemma_listing_distinct(specs: Seq<TenantPipelineSpecView>, pipelines: PipelinesView)
    requires
        is_spec_listing(specs, pipelines),
        keyed_by_tenant(pipelines),
    ensures
        forall|a: int, b: int|
            0 <= a < b < specs.len() ==> (#[trigger] specs[a]).tenant_id != (#[trigger] specs[b]).tenant_id,
        forall|a: int| 0 <= a < specs.len() ==> pipelines.contains_key((#[trigger] specs[a]).tenant_id),
        forall|id: Seq<char>| #[trigger]
            pipelines.contains_key(id) ==> exists|a: int| 0 <= a < specs.len() && (#[trigger] specs[a]).tenant_id == id,
{
    let keys = choose|keys: Seq<(Seq<char>, TenantPipelineSpecView)>|
        #![trigger is_listing(keys, pipelines)]
        {
            &&& is_listing(keys, pipelines)
            &&& keys.len() == specs.len()
            &&& forall|j: int| 0 <= j < keys.len() ==> (#[trigger] keys[j]).1 == specs[j]
        };
    assert forall|a: int| 0 <= a < specs.len() implies (#[trigger] specs[a]).tenant_id == keys[a].0
        && pipelines.contains_key(specs[a].tenant_id) by {
        assert(pipelines[keys[a].0] == keys[a].1);
    }
    assert forall|a: int, b: int| 0 <= a < b < specs.len() implies (#[trigger] specs[a]).tenant_id != (
    #[trigger] specs[b]).tenant_id by {
        assert(keys[a].0 != keys[b].0);
    }
    assert forall|id: Seq<char>| #[trigger] pipelines.contains_key(id) implies exists|a: int|
        0 <= a < specs.len() && (#[trigger] specs[a]).tenant_id == id by {
        let a = choose|a: int| 0 <= a < keys.len() && (#[trigger] keys[a]).0 == id;
        assert(specs[a].tenant_id == id);
    }
}

// ─── Demo tenants ─────────────────────────────────────────────────────────────

/// A demo tenant's pipeline.
pub open spec fn demo_spec(id: Seq<char>, name: Seq<char>, rate_limit: RateLimitPolicyView) -> TenantPipelineSpecView {
    TenantPipelineSpecView {
        tenant_id: id,
        display_name: name,
        rate_limit,
        proxy: ProxyConfigView {
            image: "envoyproxy/envoy:v1.28-latest"@,
            port: 10000,
            resource_limit_milli_cpu: None,
            resource_limit_memory_mib: None,
        },
        paused: false,
    }
}

/// The first demo tenant.
pub open spec fn acme_corp() -> TenantPipelineSpecView {
    demo_spec(
        "acme-corp"@,
        "Acme Corp"@,
        RateLimitPolicyView { tier: "pro"@, requests_per_second: 200, burst_capacity: 400, max_concurrent: 50 },
    )
}

/// The second demo tenant.
pub open spec fn initech() -> TenantPipelineSpecView {
    demo_spec(
        "initech"@,
        "Initech"@,
        RateLimitPolicyView {
            tier: "enterprise"@,
            requests_per_second: 5000,
            burst_capacity: 10000,
            max_concurrent: 500,
        },
    )
}

/// The log line about a seeded tenant.
pub open spec fn seeded_line(id: Seq<char>) -> Seq<char> {
    "[boot] seeded demo tenant '"@ + id + "'"@
}

fn seed(crd: &mut MockCrdBackend, store: &mut Store, id: &str, name: &str, rate_limit: RateLimitPolicy)
    ensures
        final(crd)@ == old(crd)@.insert(id@, demo_spec(id@, name@, rate_limit@)),
        final(store)@ == old(store)@.with_log(seeded_line(id@)),
{
    let _ = crd.create(
        TenantPipelineSpec {
            tenant_id: id.to_owned(),
            display_name: name.to_owned(),
            rate_limit,
            proxy: ProxyConfig {
                image: "envoyproxy/envoy:v1.28-latest".to_owned(),
                port: 10000,
                resource_limit_milli_cpu: None,
                resource_limit_memory_mib: None,
            },
            paused: false,
        },
    );
    let line = "[boot] seeded demo tenant '".to_owned().concat(id).concat("'");
    store.append_log(line.as_str());
}

/// Declares the demo tenants, so that there is something to see from the
/// start.
pub fn seed_demo_tenants(crd: &mut MockCrdBackend, store: &mut Store)
    ensures
        final(crd)@ == old(crd)@.insert(acme_corp().tenant_id, acme_corp()).insert(initech().tenant_id, initech()),
        final(store)@ == old(store)@.with_log(seeded_line(acme_corp().tenant_id)).with_log(
            seeded_line(initech().tenant_id),
        ),
{
    seed(
        crd,
        store,
        "acme-corp",
        "Acme Corp",
        RateLimitPolicy { tier: "pro".to_owned(), requests_per_second: 200, burst_capacity: 400, max_concurrent: 50 },
    );
    seed(
        crd,
        store,
        "initech",
        "Initech",
        RateLimitPolicy {
            tier: "enterprise".to_owned(),
            requests_per_second: 5000,
            burst_capacity: 10000,
            max_concurrent: 500,
        },
    );
}

/// The log as it is served.
pub open spec fn logs_body(logs: Seq<Seq<char>>) -> JsonView {
    JsonView::Object(seq![("logs"@, JsonView::Array(logs.map_values(|s: Seq<char>| JsonView::Text(s))))])
}

/// Serves the log.
pub fn logs_handler(store: &Store) -> (r: ApiReply)
    ensures
        r@ == (ApiReplyView { status: STATUS_OK, body: logs_body(store@.logs) }),
{
    let logs = store.logs();
    let fields = vec![Json::member("logs", Json::text_array(&logs))];
    assert(members(fields@) =~= logs_body(store@.logs)->Object_0);
    ApiReply { status: STATUS_OK, body: Json::object(fields) }
}

// ─── Laws ─────────────────────────────────────────────────────────────────────

/// A pipeline is reconciled at once when it is new or any of its settings
/// changed, and in any case once the drift check is due; otherwise looking at
/// it changes nothing at all. A new display name alone asks for nothing.
pub proof fn law_poll_decisions(d: DemoView, s: TenantPipelineSpecView, renamed: Seq<char>, at: VisitTimes)
    ensures
        !d.seen.contains_key(s.tenant_id) ==> is_due(d.seen, s, at.uptime),
        is_due(d.seen, (TenantPipelineSpecView { display_name: renamed, ..s }), at.uptime) == is_due(
            d.seen,
            s,
            at.uptime,
        ),
        d.seen.contains_key(s.tenant_id) ==> {
            let t = d.seen[s.tenant_id];
            let unchanged = t.fingerprint.rate_limit == s.rate_limit && t.fingerprint.proxy == s.proxy
                && t.fingerprint.paused == s.paused;
            let overdue = at.uptime >= t.last_reconciled + DRIFT_CHECK_INTERVAL_NANOS;
            &&& is_due(d.seen, s, at.uptime) <==> !unchanged || overdue
            &&& unchanged && !overdue ==> visited(d, s, at) == d
        },
{
}

/// A pipeline that is due converges: everything it asks for is in the
/// cluster, even if its deployment had been deleted, its record is Ready with
/// one more reconcile counted, and the pipeline is remembered as it is now.
pub proof fn law_due_pipeline_converges(d: DemoView, s: TenantPipelineSpecView, at: VisitTimes)
    requires
        is_due(d.seen, s, at.uptime),
    ensures
        converged(visited(d, s, at), s),
        counted_once_more(d, visited(d, s, at), s.tenant_id),
        visited(d, s, at).seen[s.tenant_id].last_reconciled == at.uptime,
        !is_due(visited(d, s, at).seen, s, at.uptime),
{
}

/// Everything a pipeline asks for is in the cluster, and its record is Ready.
pub open spec fn converged(d: DemoView, s: TenantPipelineSpecView) -> bool {
    let ns = namespace_of(s.tenant_id);
    let cm = configmap_of(s.tenant_id);
    let key = (ns, proxy_of(s.tenant_id));
    &&& d.cluster.namespaces.contains(ns)
    &&& d.cluster.configmaps.contains((ns, cm))
    &&& d.cluster.deployments.contains_key(key)
    &&& d.cluster.deployments[key] == proxy_spec_of(s, ns, cm)
    &&& d.store.tenants.contains_key(s.tenant_id)
    &&& d.store.tenants[s.tenant_id].phase == TenantPhase::Ready
    &&& d.store.tenants[s.tenant_id].rps == s.rate_limit.requests_per_second
    &&& d.seen.contains_key(s.tenant_id)
    &&& d.seen[s.tenant_id].fingerprint == fingerprint_of(s)
}

/// One more reconcile is counted for a tenant, unless the counter was full.
pub open spec fn counted_once_more(a: DemoView, b: DemoView, id: Seq<char>) -> bool {
    prior_count(a.store, id) < i64::MAX ==> b.store.tenants[id].reconcile_count == prior_count(a.store, id) + 1
}

/// Neither the loop nor the store knows a tenant.
pub open spec fn absent(d: DemoView, id: Seq<char>) -> bool {
    &&& !d.seen.contains_key(id)
    &&& !d.store.tenants.contains_key(id)
}

/// Looking at one pipeline changes nothing of any other tenant.
proof fn lemma_visit_is_local(d: DemoView, s: TenantPipelineSpecView, at: VisitTimes, id: Seq<char>)
    requires
        id != s.tenant_id,
    ensures
        same_for(d, visited(d, s, at), id),
{
    law_names_do_not_collide(id, s.tenant_id);
}

/// Two worlds agree about a tenant.
pub open spec fn same_for(a: DemoView, b: DemoView, id: Seq<char>) -> bool {
    let ns = namespace_of(id);
    let key = (ns, proxy_of(id));
    &&& a.seen.contains_key(id) == b.seen.contains_key(id)
    &&& a.seen.contains_key(id) ==> a.seen[id] == b.seen[id]
    &&& a.store.tenants.contains_key(id) == b.store.tenants.contains_key(id)
    &&& a.store.tenants.contains_key(id) ==> a.store.tenants[id] == b.store.tenants[id]
    &&& a.cluster.namespaces.contains(ns) == b.cluster.namespaces.contains(ns)
    &&& a.cluster.configmaps.contains((ns, configmap_of(id))) == b.cluster.configmaps.contains(
        (ns, configmap_of(id)),
    )
    &&& a.cluster.deployments.contains_key(key) == b.cluster.deployments.contains_key(key)
    &&& a.cluster.deployments.contains_key(key) ==> a.cluster.deployments[key] == b.cluster.deployments[key]
}

proof fn lemma_retire_is_local(d: DemoView, gone: Seq<char>, at: TeardownTimes, id: Seq<char>)
    requires
        id != gone,
    ensures
        same_for(d, retired(d, gone, at), id),
{
    law_names_do_not_collide(id, gone);
}

proof fn lemma_all_retired(d: DemoView, ids: Seq<Seq<char>>, at: Map<Seq<char>, TeardownTimes>, id: Seq<char>)
    requires
        ids.no_duplicates(),
    ensures
        !ids.contains(id) ==> same_for(d, all_retired(d, ids, at), id),
        ids.contains(id) ==> absent(all_retired(d, ids, at), id),
        ids.contains(id) && d.store.tenants.contains_key(id) ==> !all_retired(d, ids, at).cluster.namespaces.contains(
            namespace_of(id),
        ),
        ids.contains(id) && d.store.tenants.contains_key(id) && left_for(d.store.tenants[id], id)
            ==> !all_retired(d, ids, at).cluster.deployments.contains_key((namespace_of(id), proxy_of(id))),
    decreases ids.len(),
{
    if ids.len() > 0 {
        let shorter = ids.drop_last();
        let last = ids.last();
        assert forall|a: int, b: int| 0 <= a < shorter.len() && 0 <= b < shorter.len() && a != b implies shorter[a]
            != shorter[b] by {
            assert(ids[a] != ids[b]);
        }
        lemma_all_retired(d, shorter, at, id);
        let before = all_retired(d, shorter, at);
        if id == last {
            assert(ids[ids.len() - 1] == id);
            assert(!shorter.contains(id)) by {
                if shorter.contains(id) {
                    let k = choose|k: int| 0 <= k < shorter.len() && shorter[k] == id;
                    assert(ids[k] != ids[ids.len() - 1]);
                }
            }
        } else {
            lemma_retire_is_local(before, last, at[last], id);
            assert(shorter.contains(id) == ids.contains(id)) by {
                if ids.contains(id) {
                    let k = choose|k: int| 0 <= k < ids.len() && ids[k] == id;
                    assert(shorter[k] == id);
                }
                if shorter.contains(id) {
                    let k = choose|k: int| 0 <= k < shorter.len() && shorter[k] == id;
                    assert(ids[k] == id);
                }
            }
        }
    }
}

proof fn lemma_all_visited_elsewhere(
    d: DemoView,
    specs: Seq<TenantPipelineSpecView>,
    at: Map<Seq<char>, VisitTimes>,
    id: Seq<char>,
)
    requires
        forall|a: int| 0 <= a < specs.len() ==> (#[trigger] specs[a]).tenant_id != id,
    ensures
        same_for(d, all_visited(d, specs, at), id),
    decreases specs.len(),
{
    if specs.len() > 0 {
        let shorter = specs.drop_last();
        assert forall|a: int| 0 <= a < shorter.len() implies (#[trigger] shorter[a]).tenant_id != id by {
            assert(specs[a].tenant_id != id);
        }
        lemma_all_visited_elsewhere(d, shorter, at, id);
        assert(specs[specs.len() - 1].tenant_id != id);
        lemma_visit_is_local(all_visited(d, shorter, at), specs.last(), at[specs.last().tenant_id], id);
    }
}

proof fn lemma_all_visited_at(
    d: DemoView,
    specs: Seq<TenantPipelineSpecView>,
    at: Map<Seq<char>, VisitTimes>,
    k: int,
)
    requires
        0 <= k < specs.len(),
        forall|a: int, b: int|
            0 <= a < b < specs.len() ==> (#[trigger] specs[a]).tenant_id != (#[trigger] specs[b]).tenant_id,
    ensures
        all_visited(d, specs, at).seen.contains_key(specs[k].tenant_id),
        is_due(d.seen, specs[k], at[specs[k].tenant_id].uptime) ==> all_visited(d, specs, at).seen[specs[k].tenant_id].last_reconciled
            == at[specs[k].tenant_id].uptime,
        is_due(d.seen, specs[k], at[specs[k].tenant_id].uptime) ==> converged(all_visited(d, specs, at), specs[k]),
        is_due(d.seen, specs[k], at[specs[k].tenant_id].uptime) ==> counted_once_more(
            d,
            all_visited(d, specs, at),
            specs[k].tenant_id,
        ),
        !is_due(d.seen, specs[k], at[specs[k].tenant_id].uptime) ==> same_for(d, all_visited(d, specs, at), specs[k].tenant_id),
    decreases specs.len(),
{
    let s = specs[k];
    let uptime = at[s.tenant_id].uptime;
    let shorter = specs.drop_last();
    assert forall|a: int, b: int| 0 <= a < b < shorter.len() implies (#[trigger] shorter[a]).tenant_id != (
    #[trigger] shorter[b]).tenant_id by {
        assert(specs[a].tenant_id != specs[b].tenant_id);
    }
    let before = all_visited(d, shorter, at);
    if k == specs.len() - 1 {
        assert forall|a: int| 0 <= a < shorter.len() implies (#[trigger] shorter[a]).tenant_id != s.tenant_id by {
            assert(specs[a].tenant_id != specs[k].tenant_id);
        }
        lemma_all_visited_elsewhere(d, shorter, at, s.tenant_id);
        assert(is_due(before.seen, s, uptime) == is_due(d.seen, s, uptime));
        if is_due(d.seen, s, uptime) {
            law_due_pipeline_converges(before, s, at[s.tenant_id]);
        }
    } else {
        assert(shorter[k] == s);
        lemma_all_visited_at(d, shorter, at, k);
        assert(specs[k].tenant_id != specs[specs.len() - 1].tenant_id);
        lemma_visit_is_local(before, specs.last(), at[specs.last().tenant_id], s.tenant_id);
    }
}

/// After a cycle the loop remembers exactly the declared pipelines. Each that
/// was due has converged; each that was not is as it was before.
pub proof fn law_cycle_converges_what_is_declared(
    pre: DemoView,
    pipelines: PipelinesView,
    run: CycleRun,
    post: DemoView,
    id: Seq<char>,
)
    requires
        keyed_by_tenant(pipelines),
        cycle_made(pre, pipelines, run, post),
    ensures
        post.seen.contains_key(id) == pipelines.contains_key(id),
        pipelines.contains_key(id) && is_due(pre.seen, pipelines[id], run.visits[id].uptime) ==> converged(post, pipelines[id])
            && post.seen[id].last_reconciled == run.visits[id].uptime && counted_once_more(pre, post, id),
        pipelines.contains_key(id) && !is_due(pre.seen, pipelines[id], run.visits[id].uptime) ==> same_for(pre, post, id),
{
    let (gone, specs) = (run.gone, run.specs);
    let swept = all_retired(pre, gone, run.teardowns);
    lemma_listing_distinct(specs, pipelines);
    lemma_all_retired(pre, gone, run.teardowns, id);
    if pipelines.contains_key(id) {
        let k = choose|k: int| 0 <= k < specs.len() && (#[trigger] specs[k]).tenant_id == id;
        lemma_listing_values(specs, pipelines, k);
        assert(!gone.contains(id));
        assert(is_due(swept.seen, specs[k], run.visits[id].uptime) == is_due(pre.seen, specs[k], run.visits[id].uptime));
        lemma_all_visited_at(swept, specs, run.visits, k);
    } else {
        assert forall|a: int| 0 <= a < specs.len() implies (#[trigger] specs[a]).tenant_id != id by {
            assert(pipelines.contains_key(specs[a].tenant_id));
        }
        lemma_all_visited_elsewhere(swept, specs, run.visits, id);
        assert(gone.contains(id) == pre.seen.contains_key(id));
    }
}

proof fn lemma_listing_values(specs: Seq<TenantPipelineSpecView>, pipelines: PipelinesView, k: int)
    requires
        is_spec_listing(specs, pipelines),
        keyed_by_tenant(pipelines),
        0 <= k < specs.len(),
    ensures
        pipelines.contains_key(specs[k].tenant_id),
        pipelines[specs[k].tenant_id] == specs[k],
{
    let keys = choose|keys: Seq<(Seq<char>, TenantPipelineSpecView)>|
        #![trigger is_listing(keys, pipelines)]
        {
            &&& is_listing(keys, pipelines)
            &&& keys.len() == specs.len()
            &&& forall|j: int| 0 <= j < keys.len() ==> (#[trigger] keys[j]).1 == specs[j]
        };
    assert(pipelines[keys[k].0] == keys[k].1);
}

/// Where the drift check is due for a pipeline that has not changed, a cycle
/// reconciles it: everything it asks for is in the cluster again, whatever had
/// been deleted behind the operator's back, and one more reconcile is counted.
/// Until then a cycle leaves such a pipeline as it is.
pub proof fn law_drift_is_healed_after_the_interval(
    pre: DemoView,
    pipelines: PipelinesView,
    run: CycleRun,
    post: DemoView,
    id: Seq<char>,
)
    requires
        keyed_by_tenant(pipelines),
        cycle_made(pre, pipelines, run, post),
        pipelines.contains_key(id),
        pre.seen.contains_key(id),
    ensures
        ({
            let waited = run.visits[id].uptime - pre.seen[id].last_reconciled;
            let key = (namespace_of(id), proxy_of(id));
            &&& waited >= DRIFT_CHECK_INTERVAL_NANOS ==> {
                &&& converged(post, pipelines[id])
                &&& post.cluster.deployments.contains_key(key)
                &&& counted_once_more(pre, post, id)
                &&& post.seen[id].last_reconciled == run.visits[id].uptime
            }
            &&& waited < DRIFT_CHECK_INTERVAL_NANOS && pre.seen[id].fingerprint == fingerprint_of(pipelines[id])
                ==> same_for(pre, post, id)
        }),
{
    law_cycle_converges_what_is_declared(pre, pipelines, run, post, id);
}

/// After a cycle nothing is left of a tenant whose pipeline is no longer
/// declared: the loop and the store have forgotten it, and if the store knew
/// it before, its namespace and the deployment in it are gone.
pub proof fn law_cycle_removes_what_is_gone(
    pre: DemoView,
    pipelines: PipelinesView,
    run: CycleRun,
    post: DemoView,
    id: Seq<char>,
)
    requires
        keyed_by_tenant(pipelines),
        cycle_made(pre, pipelines, run, post),
        pre.seen.contains_key(id),
        !pipelines.contains_key(id),
    ensures
        absent(post, id),
        pre.store.tenants.contains_key(id) ==> !post.cluster.namespaces.contains(namespace_of(id)),
        pre.store.tenants.contains_key(id) && left_for(pre.store.tenants[id], id)
            ==> !post.cluster.deployments.contains_key((namespace_of(id), proxy_of(id))),
{
    let (gone, specs) = (run.gone, run.specs);
    let swept = all_retired(pre, gone, run.teardowns);
    lemma_listing_distinct(specs, pipelines);
    assert(gone.contains(id));
    lemma_all_retired(pre, gone, run.teardowns, id);
    assert forall|a: int| 0 <= a < specs.len() implies (#[trigger] specs[a]).tenant_id != id by {
        assert(pipelines.contains_key(specs[a].tenant_id));
    }
    lemma_all_visited_elsewhere(swept, specs, run.visits, id);
}

/// How many of the events are of this kind and about this tenant.
pub open spec fn times_told(events: Seq<EventView>, kind: EventKind, id: Seq<char>) -> nat
    decreases events.len(),
{
    if events.len() == 0 {
        0
    } else {
        times_told(events.drop_last(), kind, id) + once(events.last().kind == kind && events.last().tenant_id == id)
    }
}

/// One if it happens, none if it does not.
pub open spec fn once(happens: bool) -> nat {
    if happens {
        1
    } else {
        0
    }
}

proof fn lemma_told_on_retiring(d: DemoView, gone: Seq<char>, at: TeardownTimes, id: Seq<char>)
    ensures
        ({
            let before = d.store.events;
            let after = retired(d, gone, at).store.events;
            &&& times_told(after, EventKind::TenantDeleted, id) == times_told(before, EventKind::TenantDeleted, id)
                + once(gone == id)
            &&& times_told(after, EventKind::ReconcileOk, id) == times_told(before, EventKind::ReconcileOk, id)
        }),
{
    let after = retired(d, gone, at).store.events;
    assert(after.drop_last() =~= d.store.events);
}

proof fn lemma_told_on_visiting(d: DemoView, s: TenantPipelineSpecView, at: VisitTimes, id: Seq<char>)
    ensures
        ({
            let before = d.store.events;
            let after = visited(d, s, at).store.events;
            &&& times_told(after, EventKind::TenantDeleted, id) == times_told(before, EventKind::TenantDeleted, id)
            &&& times_told(after, EventKind::ReconcileOk, id) == times_told(before, EventKind::ReconcileOk, id) + once(
                s.tenant_id == id && is_due(d.seen, s, at.uptime),
            )
        }),
{
    if is_due(d.seen, s, at.uptime) {
        let before = d.store.events;
        let after = visited(d, s, at).store.events;
        assert(after.len() == before.len() + 5);
        assert(after.take(before.len() as int) =~= before);
        reveal_with_fuel(times_told, 6);
        assert(after.drop_last().drop_last().drop_last().drop_last().drop_last() =~= before);
    }
}

proof fn lemma_told_on_retiring_all(
    d: DemoView,
    ids: Seq<Seq<char>>,
    at: Map<Seq<char>, TeardownTimes>,
    id: Seq<char>,
)
    requires
        ids.no_duplicates(),
    ensures
        ({
            let before = d.store.events;
            let after = all_retired(d, ids, at).store.events;
            &&& times_told(after, EventKind::TenantDeleted, id) == times_told(before, EventKind::TenantDeleted, id)
                + once(ids.contains(id))
            &&& times_told(after, EventKind::ReconcileOk, id) == times_told(before, EventKind::ReconcileOk, id)
        }),
    decreases ids.len(),
{
    if ids.len() > 0 {
        let shorter = ids.drop_last();
        let last = ids.last();
        assert forall|a: int, b: int| 0 <= a < shorter.len() && 0 <= b < shorter.len() && a != b implies shorter[a]
            != shorter[b] by {
            assert(ids[a] != ids[b]);
        }
        lemma_told_on_retiring_all(d, shorter, at, id);
        lemma_told_on_retiring(all_retired(d, shorter, at), last, at[last], id);
        if id == last {
            assert(ids[ids.len() - 1] == id);
            if shorter.contains(id) {
                let k = choose|k: int| 0 <= k < shorter.len() && shorter[k] == id;
                assert(ids[k] != ids[ids.len() - 1]);
            }
        } else {
            if ids.contains(id) {
                let k = choose|k: int| 0 <= k < ids.len() && ids[k] == id;
                assert(shorter[k] == id);
            }
            if shorter.contains(id) {
                let k = choose|k: int| 0 <= k < shorter.len() && shorter[k] == id;
                assert(ids[k] == id);
            }
        }
    }
}

proof fn lemma_told_on_visiting_others(
    d: DemoView,
    specs: Seq<TenantPipelineSpecView>,
    at: Map<Seq<char>, VisitTimes>,
    id: Seq<char>,
)
    requires
        forall|a: int| 0 <= a < specs.len() ==> (#[trigger] specs[a]).tenant_id != id,
    ensures
        ({
            let before = d.store.events;
            let after = all_visited(d, specs, at).store.events;
            &&& times_told(after, EventKind::TenantDeleted, id) == times_told(before, EventKind::TenantDeleted, id)
            &&& times_told(after, EventKind::ReconcileOk, id) == times_told(before, EventKind::ReconcileOk, id)
        }),
    decreases specs.len(),
{
    if specs.len() > 0 {
        let shorter = specs.drop_last();
        let last = specs.last();
        assert forall|a: int| 0 <= a < shorter.len() implies (#[trigger] shorter[a]).tenant_id != id by {
            assert(specs[a].tenant_id != id);
        }
        lemma_told_on_visiting_others(d, shorter, at, id);
        assert(specs[specs.len() - 1].tenant_id != id);
        lemma_told_on_visiting(all_visited(d, shorter, at), last, at[last.tenant_id], id);
    }
}

proof fn lemma_told_on_visiting_all(
    d: DemoView,
    specs: Seq<TenantPipelineSpecView>,
    at: Map<Seq<char>, VisitTimes>,
    k: int,
)
    requires
        0 <= k < specs.len(),
        forall|a: int, b: int|
            0 <= a < b < specs.len() ==> (#[trigger] specs[a]).tenant_id != (#[trigger] specs[b]).tenant_id,
    ensures
        ({
            let id = specs[k].tenant_id;
            let before = d.store.events;
            let after = all_visited(d, specs, at).store.events;
            &&& times_told(after, EventKind::TenantDeleted, id) == times_told(before, EventKind::TenantDeleted, id)
            &&& times_told(after, EventKind::ReconcileOk, id) == times_told(before, EventKind::ReconcileOk, id) + once(
                is_due(d.seen, specs[k], at[id].uptime),
            )
        }),
    decreases specs.len(),
{
    let id = specs[k].tenant_id;
    let shorter = specs.drop_last();
    let last = specs.last();
    let before = all_visited(d, shorter, at);
    lemma_told_on_visiting(before, last, at[last.tenant_id], id);
    if k == specs.len() - 1 {
        assert forall|a: int| 0 <= a < shorter.len() implies (#[trigger] shorter[a]).tenant_id != id by {
            assert(specs[a].tenant_id != specs[k].tenant_id);
        }
        lemma_told_on_visiting_others(d, shorter, at, id);
        lemma_all_visited_elsewhere(d, shorter, at, id);
    } else {
        assert forall|a: int, b: int| 0 <= a < b < shorter.len() implies (#[trigger] shorter[a]).tenant_id != (
        #[trigger] shorter[b]).tenant_id by {
            assert(specs[a].tenant_id != specs[b].tenant_id);
        }
        assert(shorter[k] == specs[k]);
        lemma_told_on_visiting_all(d, shorter, at, k);
        assert(specs[k].tenant_id != specs[specs.len() - 1].tenant_id);
    }
}

/// A cycle takes down exactly the tenants that it remembered and that are no
/// longer declared, and reconciles exactly the declared pipelines that are
/// due, each of them once: so say the events that it publishes.
pub proof fn law_cycle_acts_where_it_must(
    pre: DemoView,
    pipelines: PipelinesView,
    run: CycleRun,
    post: DemoView,
    id: Seq<char>,
)
    requires
        keyed_by_tenant(pipelines),
        cycle_made(pre, pipelines, run, post),
    ensures
        times_told(post.store.events, EventKind::TenantDeleted, id) == times_told(
            pre.store.events,
            EventKind::TenantDeleted,
            id,
        ) + once(pre.seen.contains_key(id) && !pipelines.contains_key(id)),
        times_told(post.store.events, EventKind::ReconcileOk, id) == times_told(
            pre.store.events,
            EventKind::ReconcileOk,
            id,
        ) + once(pipelines.contains_key(id) && is_due(pre.seen, pipelines[id], run.visits[id].uptime)),
{
    let (gone, specs) = (run.gone, run.specs);
    let swept = all_retired(pre, gone, run.teardowns);
    lemma_listing_distinct(specs, pipelines);
    lemma_all_retired(pre, gone, run.teardowns, id);
    lemma_told_on_retiring_all(pre, gone, run.teardowns, id);
    assert(gone.contains(id) == (pre.seen.contains_key(id) && !pipelines.contains_key(id)));
    if pipelines.contains_key(id) {
        let k = choose|k: int| 0 <= k < specs.len() && (#[trigger] specs[k]).tenant_id == id;
        lemma_listing_values(specs, pipelines, k);
        lemma_told_on_visiting_all(swept, specs, run.visits, k);
        assert(is_due(swept.seen, specs[k], run.visits[id].uptime) == is_due(
            pre.seen,
            specs[k],
            run.visits[id].uptime,
        ));
    } else {
        assert forall|a: int| 0 <= a < specs.len() implies (#[trigger] specs[a]).tenant_id != id by {
            assert(pipelines.contains_key(specs[a].tenant_id));
        }
        lemma_told_on_visiting_others(swept, specs, run.visits, id);
    }
}

/// One pass of the loop: what it worked on, what was declared, how it went,
/// and what it left.
pub struct Pass {
    pub pre: DemoView,
    pub pipelines: PipelinesView,
    pub run: CycleRun,
    pub post: DemoView,
}

/// The passes of a loop from its start. Between two of them the store and the
/// cluster may change, but not what the loop remembers.
pub open spec fn passes_made(passes: Seq<Pass>) -> bool {
    &&& passes.len() > 0 ==> passes[0].pre.seen == Map::<Seq<char>, SeenView>::empty()
    &&& forall|k: int|
        0 <= k < passes.len() ==> keyed_by_tenant((#[trigger] passes[k]).pipelines) && cycle_made(
            passes[k].pre,
            passes[k].pipelines,
            passes[k].run,
            passes[k].post,
        )
    &&& forall|k: int| 0 < k < passes.len() ==> (#[trigger] passes[k]).pre.seen == passes[k - 1].post.seen
}

/// A pass reconciled a tenant.
pub open spec fn reconciled_in(pass: Pass, id: Seq<char>) -> bool {
    &&& pass.pipelines.contains_key(id)
    &&& is_due(pass.pre.seen, pass.pipelines[id], pass.run.visits[id].uptime)
}

/// The pass `k` was the last of the passes to reconcile a tenant, which was
/// declared in every pass since.
pub open spec fn last_reconciled_in(passes: Seq<Pass>, k: int, id: Seq<char>) -> bool {
    &&& 0 <= k < passes.len()
    &&& reconciled_in(passes[k], id)
    &&& forall|j: int|
        k < j < passes.len() ==> (#[trigger] passes[j]).pipelines.contains_key(id) && !reconciled_in(passes[j], id)
}

/// What the loop remembers after any number of passes is what it last
/// reconciled: the tenants that an earlier pass reconciled and every pass since
/// found declared, each with the settings and the uptime of its last
/// reconcile. By this memory the next pass decides.
pub proof fn law_memory_is_of_the_last_reconcile(passes: Seq<Pass>, id: Seq<char>)
    requires
        passes_made(passes),
        passes.len() > 0,
    ensures
        passes.last().post.seen.contains_key(id) <==> exists|k: int| #[trigger] last_reconciled_in(passes, k, id),
        forall|k: int| #[trigger]
            last_reconciled_in(passes, k, id) ==> {
                let t = passes.last().post.seen[id];
                &&& t.fingerprint == fingerprint_of(passes[k].pipelines[id])
                &&& t.last_reconciled == passes[k].run.visits[id].uptime
            },
    decreases passes.len(),
{
    let n = passes.len() - 1;
    let last = passes[n];
    law_cycle_converges_what_is_declared(last.pre, last.pipelines, last.run, last.post, id);
    if n > 0 {
        let earlier = passes.drop_last();
        assert(passes_made(earlier)) by {
            assert forall|k: int| 0 <= k < earlier.len() implies keyed_by_tenant((#[trigger] earlier[k]).pipelines)
                && cycle_made(earlier[k].pre, earlier[k].pipelines, earlier[k].run, earlier[k].post) by {
                assert(earlier[k] == passes[k]);
            }
            assert forall|k: int| 0 < k < earlier.len() implies (#[trigger] earlier[k]).pre.seen == earlier[k
                - 1].post.seen by {
                assert(passes[k].pre.seen == passes[k - 1].post.seen);
            }
        }
        law_memory_is_of_the_last_reconcile(earlier, id);
        assert(last.pre.seen == earlier.last().post.seen);
        assert forall|k: int| #[trigger] last_reconciled_in(passes, k, id) && k < n implies last_reconciled_in(
            earlier,
            k,
            id,
        ) by {
            assert forall|j: int| k < j < earlier.len() implies (#[trigger] earlier[j]).pipelines.contains_key(id)
                && !reconciled_in(earlier[j], id) by {
                assert(passes[j] == earlier[j]);
            }
            assert(passes[n].pipelines.contains_key(id) && !reconciled_in(passes[n], id));
        }
        if last.post.seen.contains_key(id) && !reconciled_in(last, id) {
            let k = choose|k: int| #[trigger] last_reconciled_in(earlier, k, id);
            assert forall|j: int| k < j < passes.len() implies (#[trigger] passes[j]).pipelines.contains_key(id)
                && !reconciled_in(passes[j], id) by {
                if j < n {
                    assert(passes[j] == earlier[j]);
                }
            }
            assert(last_reconciled_in(passes, k, id));
        }
    }
    if reconciled_in(last, id) {
        assert(last_reconciled_in(passes, n, id));
    }
    assert forall|k: int| #[trigger] last_reconciled_in(passes, k, id) implies last.post.seen.contains_key(id)
        && last.post.seen[id].fingerprint == fingerprint_of(passes[k].pipelines[id])
        && last.post.seen[id].last_reconciled == passes[k].run.visits[id].uptime by {
        if k < n {
            assert(passes[n].pipelines.contains_key(id) && !reconciled_in(passes[n], id));
            assert(last_reconciled_in(passes.drop_last(), k, id));
        }
    }
}

/// With nothing declared and nothing remembered, a cycle does nothing.
pub proof fn law_idle_cycle_does_nothing(
    pre: DemoView,
    pipelines: PipelinesView,
    run: CycleRun,
    post: DemoView,
)
    requires
        cycle_made(pre, pipelines, run, post),
        pipelines == Map::<Seq<char>, TenantPipelineSpecView>::empty(),
        pre.seen == Map::<Seq<char>, SeenView>::empty(),
    ensures
        post == pre,
{
    let (gone, specs) = (run.gone, run.specs);
    lemma_listing_distinct(specs, pipelines);
    if specs.len() > 0 {
        assert(pipelines.contains_key(specs[0].tenant_id));
    }
    if gone.len() > 0 {
        assert(gone.contains(gone[0]));
    }
}

/// A pipeline that is known is reconciled when its limits, its proxy or its
/// pause differ from what was last reconciled, and otherwise not before twelve
/// seconds have passed since.
pub proof fn law_unchanged_pipelines_rest_for_twelve_seconds(
    seen: Map<Seq<char>, SeenView>,
    before: TenantPipelineSpecView,
    s: TenantPipelineSpecView,
    uptime: u64,
)
    requires
        seen.contains_key(s.tenant_id),
        seen[s.tenant_id].fingerprint == fingerprint_of(before),
    ensures
        ({
            let since = seen[s.tenant_id].last_reconciled;
            let same = before.rate_limit == s.rate_limit && before.proxy == s.proxy && before.paused == s.paused;
            &&& !same ==> is_due(seen, s, uptime)
            &&& same ==> (is_due(seen, s, uptime) <==> uptime >= since + 12_000_000_000)
        }),
{
}

/// A reconcile that the loop makes goes on from what is known: it counts from
/// the tenant's record, keeps the moment since which the pipeline is known,
/// which is the present one for a new pipeline, and is remembered with its
/// uptime.
pub proof fn law_visit_goes_on_from_what_is_known(d: DemoView, s: TenantPipelineSpecView, at: VisitTimes)
    requires
        is_due(d.seen, s, at.uptime),
        d.store.tenants.contains_key(s.tenant_id) ==> d.store.tenants[s.tenant_id].reconcile_count < i64::MAX,
    ensures
        ({
            let after = visited(d, s, at);
            let rec = after.store.tenants[s.tenant_id];
            let memory = after.seen[s.tenant_id];
            let new = !d.seen.contains_key(s.tenant_id);
            &&& d.store.tenants.contains_key(s.tenant_id) ==> rec.reconcile_count == d.store.tenants[s.tenant_id].reconcile_count
                + 1
            &&& !d.store.tenants.contains_key(s.tenant_id) ==> rec.reconcile_count == 1
            &&& new ==> rec.created_at == Some(at.first_seen) && memory.created_at == at.first_seen
            &&& !new ==> rec.created_at == Some(d.seen[s.tenant_id].created_at) && memory.created_at
                == d.seen[s.tenant_id].created_at
            &&& rec.last_reconcile_at == Some(at.steps.proxy)
            &&& rec.namespace == "tenant-"@ + s.tenant_id
            &&& rec.config_map_name == "vanguard-rl-"@ + s.tenant_id
            &&& rec.proxy_pod_name == "proxy-"@ + s.tenant_id
            &&& rec.display_name == s.display_name
            &&& rec.tier == s.rate_limit.tier
            &&& rec.rps == s.rate_limit.requests_per_second
            &&& rec.burst == s.rate_limit.burst_capacity
            &&& rec.max_concurrent == s.rate_limit.max_concurrent
            &&& memory.last_reconciled == at.uptime
            &&& memory.fingerprint.rate_limit == s.rate_limit
            &&& memory.fingerprint.proxy == s.proxy
            &&& memory.fingerprint.paused == s.paused
            &&& after.seen.remove(s.tenant_id) == d.seen.remove(s.tenant_id)
        }),
{
    assert(visited(d, s, at).seen.remove(s.tenant_id) =~= d.seen.remove(s.tenant_id));
}

/// The clock is not read for a pipeline that is not due; for one that is, it
/// is read at the start of the reconcile and after each of its three calls,
/// and once before if the pipeline is new.
pub proof fn law_visit_reads_its_clock_in_order(d: DemoView, s: TenantPipelineSpecView, at: VisitTimes)
    ensures
        ({
            let read = visit_moments(d, s, at);
            let steps = seq![at.steps.start, at.steps.namespace, at.steps.configmap, at.steps.proxy];
            let due = is_due(d.seen, s, at.uptime);
            &&& !due ==> read.len() == 0
            &&& due && d.seen.contains_key(s.tenant_id) ==> read == steps
            &&& due && !d.seen.contains_key(s.tenant_id) ==> read == seq![at.first_seen] + steps
        }),
{
}

/// A pipeline that disappeared is forgotten with everything the store and the
/// cluster knew of it but its ConfigMap, and its end is told at its own
/// moment; nobody else is forgotten.
pub proof fn law_retiring_forgets_the_tenant(d: DemoView, id: Seq<char>, at: TeardownTimes)
    ensures
        ({
            let after = retired(d, id, at);
            let known = d.store.tenants.contains_key(id);
            &&& after.seen == d.seen.remove(id)
            &&& after.store.tenants == d.store.tenants.remove(id)
            &&& after.cluster.configmaps == d.cluster.configmaps
            &&& known ==> after.cluster.namespaces == d.cluster.namespaces.remove("tenant-"@ + id)
            &&& known && d.store.tenants[id].namespace.len() > 0 ==> after.cluster.deployments
                == d.cluster.deployments.remove((d.store.tenants[id].namespace, "proxy-"@ + id))
            &&& !known ==> after.cluster == d.cluster
            &&& after.store.events == d.store.events.push(
                (EventView {
                    kind: EventKind::TenantDeleted,
                    tenant_id: id,
                    message: "Resources removed"@,
                    timestamp: if known {
                        at.end
                    } else {
                        at.start
                    },
                }),
            )
        }),
{
}

/// The two demo tenants are Acme Corp on the pro tier and Initech on the
/// enterprise tier; both run the stock proxy on port 10000 without limits of
/// their own, and neither is paused.
pub proof fn law_demo_tenants_are_as_advertised()
    ensures
        acme_corp().tenant_id == "acme-corp"@,
        acme_corp().display_name == "Acme Corp"@,
        acme_corp().rate_limit.tier == "pro"@,
        acme_corp().rate_limit.requests_per_second == 200,
        acme_corp().rate_limit.burst_capacity == 400,
        acme_corp().rate_limit.max_concurrent == 50,
        initech().tenant_id == "initech"@,
        initech().display_name == "Initech"@,
        initech().rate_limit.tier == "enterprise"@,
        initech().rate_limit.requests_per_second == 5000,
        initech().rate_limit.burst_capacity == 10000,
        initech().rate_limit.max_concurrent == 500,
        acme_corp().proxy == initech().proxy,
        acme_corp().proxy.image == "envoyproxy/envoy:v1.28-latest"@,
        acme_corp().proxy.port == 10000,
        acme_corp().proxy.resource_limit_milli_cpu is None,
        acme_corp().proxy.resource_limit_memory_mib is None,
        !acme_corp().paused,
        !initech().paused,
{
}

/// A seeded tenant is named in quotes in the log.
pub proof fn law_seeding_is_logged_by_name(id: Seq<char>)
    ensures
        seeded_line(id) == "[boot] seeded demo tenant '"@ + id + "'"@,
{
}

/// The served log holds every line, in order, under `logs`.
pub proof fn law_served_log_reads_back(logs: Seq<Seq<char>>, i: int)
    ensures
        ({
            let list = in_field(Some(logs_body(logs)), "logs"@);
            &&& list matches Some(JsonView::Array(v)) && v.len() == logs.len()
            &&& 0 <= i < logs.len() ==> in_item(list, i) == Some(JsonView::Text(logs[i]))
        }),
{
    lemma_member_is_field(logs_body(logs), 0);
}

/// A cycle goes through what disappeared and then through what is declared,
/// one by one: each step goes on from the world that the one before left, at
/// its own time, and the clock is read in the same order.
pub proof fn law_cycle_goes_step_by_step(pre: DemoView, run: CycleRun, id: Seq<char>, s: TenantPipelineSpecView)
    ensures
        ({
            let torn = all_retired(pre, run.gone, run.teardowns);
            let longer = run.gone.push(id);
            &&& all_retired(pre, longer, run.teardowns) == retired(torn, id, run.teardowns[id])
            &&& all_retired(pre, Seq::empty(), run.teardowns) == pre
            &&& all_retired_moments(pre, longer, run.teardowns) == all_retired_moments(pre, run.gone, run.teardowns)
                + teardown_moments(torn.store, id, run.teardowns[id], (TeardownReplies { proxy: Ok(()), namespace: Ok(()) }))
            &&& all_retired_moments(pre, Seq::empty(), run.teardowns).len() == 0
        }),
        ({
            let torn = all_retired(pre, run.gone, run.teardowns);
            let met = all_visited(torn, run.specs, run.visits);
            let longer = CycleRun { specs: run.specs.push(s), ..run };
            &&& all_visited(torn, longer.specs, run.visits) == visited(met, s, run.visits[s.tenant_id])
            &&& all_visited(torn, Seq::empty(), run.visits) == torn
            &&& cycle_moments(pre, longer) == cycle_moments(pre, run) + visit_moments(met, s, run.visits[s.tenant_id])
            &&& cycle_moments(pre, (CycleRun { specs: Seq::empty(), ..run })) == all_retired_moments(
                pre,
                run.gone,
                run.teardowns,
            )
            &&& visit_uptimes(longer.specs, run.visits) == visit_uptimes(run.specs, run.visits).push(
                run.visits[s.tenant_id].uptime,
            )
        }),
{
    let longer = CycleRun { specs: run.specs.push(s), ..run };
    assert(run.gone.push(id).drop_last() =~= run.gone);
    assert(longer.specs.drop_last() =~= run.specs);
    let torn = all_retired(pre, run.gone, run.teardowns);
    let met = all_visited(torn, run.specs, run.visits);
    assert(cycle_moments(pre, longer) =~= cycle_moments(pre, run) + visit_moments(
        met,
        s,
        run.visits[s.tenant_id],
    ));
    assert(cycle_moments(pre, (CycleRun { specs: Seq::empty(), ..run })) =~= all_retired_moments(
        pre,
        run.gone,
        run.teardowns,
    ));
    assert(visit_uptimes(longer.specs, run.visits) =~= visit_uptimes(run.specs, run.visits).push(
        run.visits[s.tenant_id].uptime,
    ));
}

} // verus!
