//! One pass of the operator over a TenantPipeline: finalizer bookkeeping, the
//! paused guard, and what is written back. Watching the API server and
//! sending the patches is left to the caller, and so are the cluster calls
//! where the caller has to wait for them: it follows `plan`, drives a
//! `Teardown` or a `Reconciliation`, and hands the outcome to `conclude`.

use crate::clock::{rfc3339_text, Clock, SystemClock, Timestamp};
use crate::crd::{
    Phase, TenantPipelineSpec, TenantPipelineSpecView, TenantPipelineStatus, TenantPipelineStatusView, FINALIZER,
};
use crate::json::{in_field, in_item, lemma_member_is_field, member_count, members, Json, JsonView};
use crate::k8s_backend::mock::MockBackend;
use crate::k8s_backend::K8sBackend;
use crate::reconcile::{
    apply_degraded_status_with, apply_ready_status_with, degraded_status, degraded_store, handle_deletion_with,
    law_reconcile_provisions_full_stack, outcome_view, proxy_spec_of, ready_status, reconcile_calls, reconcile_result, reconcile_store, reconcile_tenant_with,
    report_moments, step_moments, teardown_calls, teardown_moments, teardown_result, teardown_store, teardown_view, ReconcileError, ReconcileErrorView, ReconcileOutcome,
    ReconcileOutcomeView, Replies, ReportTimes, StepTimes, TeardownReplies, TeardownTimes,
};
use crate::store::{EventKind, Store, StoreView, TenantPhase};
use crate::text::{copy_texts, list_has, same, texts};
use vstd::prelude::*;

verus! {

/// Under which name the operator writes the status.
pub const STATUS_FIELD_MANAGER: &'static str = "vanguard-operator-status";

/// Pause before the next look at a pipeline that has just been claimed, in
/// milliseconds.
pub const CLAIM_RETRY_MILLIS: u64 = 100;

/// Pause before the next look at a paused pipeline, in milliseconds.
pub const PAUSED_RETRY_MILLIS: u64 = 30_000;

/// Pause before a converged pipeline is checked for drift, in milliseconds.
pub const DRIFT_CHECK_INTERVAL_MILLIS: u64 = 15_000;

/// Pause before a failed pass is tried again, in milliseconds.
pub const ERROR_RETRY_INTERVAL_MILLIS: u64 = 5_000;

/// A TenantPipeline object, as far as a pass looks at it.
#[derive(Debug)]
pub struct Pipeline {
    pub spec_: TenantPipelineSpec,
    /// The object's deletion was asked for.
    pub deleting: bool,
    pub finalizers: Vec<String>,
    pub generation: Option<i64>,
    pub created_at: Option<Timestamp>,
    pub status: Option<TenantPipelineStatus>,
}

pub struct PipelineView {
    pub spec_: TenantPipelineSpecView,
    pub deleting: bool,
    pub finalizers: Seq<Seq<char>>,
    pub generation: Option<i64>,
    pub created_at: Option<Timestamp>,
    pub status: Option<TenantPipelineStatusView>,
}

impl View for Pipeline {
    type V = PipelineView;

    open spec fn view(&self) -> PipelineView {
        PipelineView {
            spec_: self.spec_@,
            deleting: self.deleting,
            finalizers: texts(self.finalizers@),
            generation: self.generation,
            created_at: self.created_at,
            status: match self.status {
                Some(s) => Some(s@),
                None => None,
            },
        }
    }
}

impl PipelineView {
    /// The status the object carries, or a blank one.
    pub open spec fn current_status(self) -> TenantPipelineStatusView {
        match self.status {
            Some(s) => s,
            None => TenantPipelineStatusView::blank(),
        }
    }

    /// The generation of the spec, or zero.
    pub open spec fn observed_generation(self) -> i64 {
        match self.generation {
            Some(g) => g,
            None => 0,
        }
    }
}

impl Pipeline {
    /// A copy of the status the object carries, or a blank one.
    pub fn current_status(&self) -> (r: TenantPipelineStatus)
        ensures
            r@ == self@.current_status(),
    {
        match &self.status {
            Some(s) => s.clone(),
            None => TenantPipelineStatus::default(),
        }
    }

    /// The generation of the spec, or zero.
    pub fn observed_generation(&self) -> (r: i64)
        ensures
            r == self@.observed_generation(),
    {
        match self.generation {
            Some(g) => g,
            None => 0,
        }
    }
}

/// What a pass has to do.
#[derive(Debug)]
pub enum Plan {
    /// Nothing: the object is going, and the operator has no claim on it.
    Settled,
    /// Take the tenant down, and leave these finalizers on the object.
    Release(Vec<String>),
    /// Put these finalizers on the object before anything is provisioned.
    Claim(Vec<String>),
    /// Nothing for now: the pipeline is paused.
    Hold,
    /// Drive the cluster to the declared state.
    Drive,
}

pub enum PlanView {
    Settled,
    Release(Seq<Seq<char>>),
    Claim(Seq<Seq<char>>),
    Hold,
    Drive,
}

impl View for Plan {
    type V = PlanView;

    open spec fn view(&self) -> PlanView {
        match self {
            Plan::Settled => PlanView::Settled,
            Plan::Release(f) => PlanView::Release(texts(f@)),
            Plan::Claim(f) => PlanView::Claim(texts(f@)),
            Plan::Hold => PlanView::Hold,
            Plan::Drive => PlanView::Drive,
        }
    }
}

/// The finalizers that are not the operator's, in their order.
pub open spec fn others(finalizers: Seq<Seq<char>>) -> Seq<Seq<char>> {
    finalizers.filter(|f: Seq<char>| f != FINALIZER@)
}

/// What a pass over `tp` has to do.
pub open spec fn plan_of(tp: PipelineView) -> PlanView {
    let claimed = tp.finalizers.contains(FINALIZER@);
    if tp.deleting {
        if claimed {
            PlanView::Release(others(tp.finalizers))
        } else {
            PlanView::Settled
        }
    } else if !claimed {
        PlanView::Claim(tp.finalizers.push(FINALIZER@))
    } else if tp.spec_.paused {
        PlanView::Hold
    } else {
        PlanView::Drive
    }
}

fn without_finalizer(finalizers: &Vec<String>) -> (r: Vec<String>)
    ensures
        texts(r@) == others(texts(finalizers@)),
{
    let ghost all = texts(finalizers@);
    let mut out: Vec<String> = Vec::new();
    let mut i: usize = 0;
    assert(texts(out@) =~= others(all.take(0))) by {
        reveal(Seq::filter);
    }
    while i < finalizers.len()
        invariant
            i <= finalizers@.len(),
            all == texts(finalizers@),
            texts(out@) == others(all.take(i as int)),
        decreases finalizers@.len() - i,
    {
        let ghost before = out@;
        proof {
            assert(all.take(i + 1).drop_last() =~= all.take(i as int));
            assert(all.take(i + 1).last() == finalizers@[i as int]@);
            reveal(Seq::filter);
        }
        if !same(finalizers[i].as_str(), FINALIZER) {
            out.push(finalizers[i].clone());
            assert(texts(out@) =~= texts(before).push(finalizers@[i as int]@));
        }
        i = i + 1;
    }
    assert(all.take(finalizers@.len() as int) =~= all);
    out
}

/// Decides what a pass over a pipeline has to do.
pub fn plan(tp: &Pipeline) -> (r: Plan)
    ensures
        r@ == plan_of(tp@),
{
    let claimed = list_has(&tp.finalizers, FINALIZER);
    if tp.deleting {
        return if claimed {
            Plan::Release(without_finalizer(&tp.finalizers))
        } else {
            Plan::Settled
        };
    }
    if !claimed {
        let mut finalizers = copy_texts(&tp.finalizers);
        let ghost before = finalizers@;
        finalizers.push(FINALIZER.to_owned());
        assert(texts(finalizers@) =~= texts(before).push(FINALIZER@));
        return Plan::Claim(finalizers);
    }
    if tp.spec_.paused {
        Plan::Hold
    } else {
        Plan::Drive
    }
}

/// The patch that replaces an object's finalizers.
pub open spec fn finalizers_patch(finalizers: Seq<Seq<char>>) -> JsonView {
    JsonView::Object(
        seq![
            (
                "metadata"@,
                JsonView::Object(
                    seq![
                        (
                            "finalizers"@,
                            JsonView::Array(finalizers.map_values(|s: Seq<char>| JsonView::Text(s))),
                        ),
                    ],
                ),
            ),
        ],
    )
}

/// Builds the patch that replaces an object's finalizers.
pub fn build_finalizers_patch(finalizers: &Vec<String>) -> (r: Json)
    ensures
        r@ == finalizers_patch(texts(finalizers@)),
{
    let ghost whole = finalizers_patch(texts(finalizers@))->Object_0;
    let metadata = vec![Json::member("finalizers", Json::text_array(finalizers))];
    assert(members(metadata@) =~= whole[0].1->Object_0);
    let fields = vec![Json::member("metadata", Json::object(metadata))];
    assert(members(fields@) =~= whole);
    Json::object(fields)
}

/// When the pipeline is looked at again.
#[derive(Clone, Copy, Debug, PartialEq, Eq)]
pub enum Requeue {
    /// When it changes.
    AwaitChange,
    /// After so many milliseconds, or when it changes.
    After(u64),
}

/// When a pipeline is looked at again whose plan did not drive the cluster.
pub open spec fn requeue_of(plan: PlanView) -> Requeue {
    match plan {
        PlanView::Settled => Requeue::AwaitChange,
        PlanView::Release(_) => Requeue::AwaitChange,
        PlanView::Claim(_) => Requeue::After(CLAIM_RETRY_MILLIS),
        PlanView::Hold => Requeue::After(PAUSED_RETRY_MILLIS),
        PlanView::Drive => Requeue::After(DRIFT_CHECK_INTERVAL_MILLIS),
    }
}

impl Plan {
    /// When to look again once the plan was carried out. A drive that failed
    /// is looked at sooner: see `conclude`.
    pub fn requeue(&self) -> (r: Requeue)
        ensures
            r == requeue_of(self@),
    {
        match self {
            Plan::Settled => Requeue::AwaitChange,
            Plan::Release(_) => Requeue::AwaitChange,
            Plan::Claim(_) => Requeue::After(CLAIM_RETRY_MILLIS),
            Plan::Hold => Requeue::After(PAUSED_RETRY_MILLIS),
            Plan::Drive => Requeue::After(DRIFT_CHECK_INTERVAL_MILLIS),
        }
    }
}

/// When a pass is tried again that an API server error cut short.
pub fn on_error() -> (r: Requeue)
    ensures
        r == Requeue::After(5_000),
{
    Requeue::After(ERROR_RETRY_INTERVAL_MILLIS)
}

/// The status that a pass reports.
pub open spec fn concluded_status(
    tp: PipelineView,
    result: Result<ReconcileOutcomeView, ReconcileErrorView>,
    at: ReportTimes,
) -> TenantPipelineStatusView {
    match result {
        Ok(outcome) => ready_status(
            tp.current_status(),
            outcome,
            tp.observed_generation(),
            at.recorded,
            at.judged,
        ),
        Err(err) => degraded_status(tp.current_status(), err, at),
    }
}

/// What a pass leaves in the store once the drive has ended.
pub open spec fn concluded_store(
    st: StoreView,
    tp: PipelineView,
    result: Result<ReconcileOutcomeView, ReconcileErrorView>,
    at: ReportTimes,
) -> StoreView {
    match result {
        Ok(_) => st,
        Err(err) => degraded_store(st, tp.spec_.tenant_id, tp.spec_.display_name, err, at),
    }
}

/// When a driven pipeline is looked at again.
pub open spec fn concluded_requeue(result: Result<ReconcileOutcomeView, ReconcileErrorView>) -> Requeue {
    match result {
        Ok(_) => Requeue::After(DRIFT_CHECK_INTERVAL_MILLIS),
        Err(_) => Requeue::After(ERROR_RETRY_INTERVAL_MILLIS),
    }
}

/// The instants that a report reads from its clock.
pub open spec fn concluded_moments(
    result: Result<ReconcileOutcomeView, ReconcileErrorView>,
    at: ReportTimes,
) -> Seq<Timestamp> {
    match result {
        Ok(_) => seq![at.recorded, at.judged],
        Err(_) => report_moments(at),
    }
}

/// The result of a drive was reported: in the store, in a status, and in the
/// time of the next look.
pub open spec fn report_made(
    st: StoreView,
    tp: PipelineView,
    result: Result<ReconcileOutcomeView, ReconcileErrorView>,
    at: ReportTimes,
    after: StoreView,
    status: TenantPipelineStatusView,
    requeue: Requeue,
) -> bool {
    &&& after == concluded_store(st, tp, result, at)
    &&& status == concluded_status(tp, result, at)
    &&& requeue == concluded_requeue(result)
}

/// Turns the result of a drive into the status to report and the time of the
/// next look, with the clock read for each moment that is written down.
pub fn conclude<C: Clock>(
    store: &mut Store,
    tp: &Pipeline,
    result: &Result<ReconcileOutcome, ReconcileError>,
    clock: &mut C,
) -> (r: (TenantPipelineStatus, Requeue))
    ensures
        exists|at: ReportTimes|
            {
                &&& #[trigger] report_made(
                    old(store)@,
                    tp@,
                    outcome_view(*result),
                    at,
                    final(store)@,
                    r.0@,
                    r.1,
                )
                &&& final(clock).moments() == old(clock).moments() + concluded_moments(outcome_view(*result), at)
            },
        final(clock).uptimes() == old(clock).uptimes(),
{
    let ghost st = store@;
    let ghost read = clock.moments();
    let mut status = tp.current_status();
    let ghost before = status@;
    let ghost mut at: ReportTimes = arbitrary();
    let requeue = match result {
        Ok(outcome) => {
            let generation = tp.observed_generation();
            apply_ready_status_with(&mut status, outcome, generation, clock);
            proof {
                let (recorded, judged) = choose|recorded: Timestamp, judged: Timestamp|
                    {
                        &&& status@ == #[trigger] ready_status(before, outcome@, generation, recorded, judged)
                        &&& clock.moments() == read + seq![recorded, judged]
                    };
                at = ReportTimes { recorded, judged, ..at };
            }
            Requeue::After(DRIFT_CHECK_INTERVAL_MILLIS)
        },
        Err(err) => {
            apply_degraded_status_with(
                store,
                &mut status,
                tp.spec_.tenant_id.as_str(),
                tp.spec_.display_name.as_str(),
                err,
                clock,
            );
            proof {
                at = choose|at: ReportTimes|
                    {
                        &&& store@ == degraded_store(st, tp@.spec_.tenant_id, tp@.spec_.display_name, err@, at)
                        &&& status@ == #[trigger] degraded_status(before, err@, at)
                        &&& clock.moments() == read + report_moments(at)
                    };
            }
            Requeue::After(ERROR_RETRY_INTERVAL_MILLIS)
        },
    };
    let r = (status, requeue);
    assert(report_made(st, tp@, outcome_view(*result), at, store@, r.0@, r.1));
    r
}

/// What a pass writes to the API server.
#[derive(Debug)]
pub enum Write {
    Nothing,
    /// A merge patch on the object.
    Object(Json),
    /// A merge patch on the status.
    Status(TenantPipelineStatus),
}

pub enum WriteView {
    Nothing,
    Object(JsonView),
    Status(TenantPipelineStatusView),
}

impl View for Write {
    type V = WriteView;

    open spec fn view(&self) -> WriteView {
        match self {
            Write::Nothing => WriteView::Nothing,
            Write::Object(patch) => WriteView::Object(patch@),
            Write::Status(status) => WriteView::Status(status@),
        }
    }
}

/// When the parts of a pass were done: the steps of its teardown or of its
/// drive, and the report.
pub struct PassTimes {
    pub teardown: TeardownTimes,
    pub steps: StepTimes,
    pub report: ReportTimes,
}

/// A pass over `tp` led from one backend and store to another, and ended in a
/// write and a requeue. `read` are the instants it read from its clock.
pub open spec fn pass_made<B: K8sBackend>(
    pre: B,
    st: StoreView,
    tp: PipelineView,
    at: PassTimes,
    read: Seq<Timestamp>,
    post: B,
    after: StoreView,
    write: WriteView,
    requeue: Requeue,
) -> bool {
    match plan_of(tp) {
        PlanView::Settled => {
            &&& post == pre && after == st && read.len() == 0
            &&& write == WriteView::Nothing
            &&& requeue == requeue_of(plan_of(tp))
        },
        PlanView::Hold => {
            &&& post == pre && after == st && read.len() == 0
            &&& write == WriteView::Nothing
            &&& requeue == requeue_of(plan_of(tp))
        },
        PlanView::Claim(finalizers) => {
            &&& post == pre && after == st && read.len() == 0
            &&& write == WriteView::Object(finalizers_patch(finalizers))
            &&& requeue == requeue_of(plan_of(tp))
        },
        PlanView::Release(finalizers) => exists|replies: TeardownReplies|
            {
                &&& #[trigger] teardown_calls(pre, st, tp.spec_.tenant_id, replies, post)
                &&& after == teardown_store(st, tp.spec_.tenant_id, at.teardown, replies)
                &&& read == teardown_moments(st, tp.spec_.tenant_id, at.teardown, replies)
                &&& write == WriteView::Object(finalizers_patch(finalizers))
                &&& requeue == requeue_of(plan_of(tp))
            },
        PlanView::Drive => exists|replies: Replies|
            {
                let prior = tp.current_status().reconcile_count;
                let result = reconcile_result(prior, replies);
                let driven = reconcile_store(st, tp.spec_, prior, tp.created_at, at.steps, replies);
                &&& #[trigger] reconcile_calls(pre, tp.spec_, replies, post)
                &&& after == concluded_store(driven, tp, result, at.report)
                &&& read == step_moments(at.steps, replies) + concluded_moments(result, at.report)
                &&& write == WriteView::Status(concluded_status(tp, result, at.report))
                &&& requeue == concluded_requeue(result)
            },
    }
}

/// One pass over a pipeline against a backend that answers at once, with the
/// clock read at every step. Returns what has to be written to the API server,
/// and when to look again. A teardown that fails does not keep the finalizer
/// in place.
pub fn reconcile_with<B: K8sBackend, C: Clock>(
    backend: &mut B,
    store: &mut Store,
    tp: &Pipeline,
    clock: &mut C,
) -> (r: (Write, Requeue))
    requires
        plan_of(tp@) is Drive ==> tp@.current_status().reconcile_count < i64::MAX,
    ensures
        exists|at: PassTimes, read: Seq<Timestamp>|
            {
                &&& #[trigger] pass_made(
                    *old(backend),
                    old(store)@,
                    tp@,
                    at,
                    read,
                    *final(backend),
                    final(store)@,
                    r.0@,
                    r.1,
                )
                &&& final(clock).moments() == old(clock).moments() + read
            },
        final(clock).uptimes() == old(clock).uptimes(),
{
    let ghost b0 = *backend;
    let ghost st = store@;
    let ghost id = tp@.spec_.tenant_id;
    let ghost before = clock.moments();
    let ghost mut at: PassTimes = arbitrary();
    let ghost mut read: Seq<Timestamp> = Seq::empty();
    let todo = plan(tp);
    let done = match &todo {
        Plan::Settled => (Write::Nothing, todo.requeue()),
        Plan::Hold => (Write::Nothing, todo.requeue()),
        Plan::Claim(finalizers) => (Write::Object(build_finalizers_patch(finalizers)), todo.requeue()),
        Plan::Release(finalizers) => {
            let torn = handle_deletion_with(backend, store, tp.spec_.tenant_id.as_str(), clock);
            proof {
                let (times, replies) = choose|times: TeardownTimes, replies: TeardownReplies|
                    {
                        &&& teardown_calls(b0, st, id, replies, *backend)
                        &&& store@ == #[trigger] teardown_store(st, id, times, replies)
                        &&& teardown_view(torn) == teardown_result(st, id, replies)
                        &&& clock.moments() == before + teardown_moments(st, id, times, replies)
                    };
                assert(teardown_calls(b0, st, id, replies, *backend));
                at = PassTimes { teardown: times, ..at };
                read = teardown_moments(st, id, times, replies);
            }
            (Write::Object(build_finalizers_patch(finalizers)), todo.requeue())
        },
        Plan::Drive => {
            let prior: i64 = tp.current_status().reconcile_count;
            let result = reconcile_tenant_with(backend, store, &tp.spec_, prior, tp.created_at, clock);
            let ghost driven = store@;
            let ghost (times, replies) = choose|times: StepTimes, replies: Replies|
                {
                    &&& reconcile_calls(b0, tp@.spec_, replies, *backend)
                    &&& store@ == #[trigger] reconcile_store(st, tp@.spec_, prior, tp.created_at, times, replies)
                    &&& outcome_view(result) == reconcile_result(prior, replies)
                    &&& clock.moments() == before + step_moments(times, replies)
                };
            let ghost halfway = clock.moments();
            let (status, requeue) = conclude(store, tp, &result, clock);
            proof {
                let report = choose|report: ReportTimes|
                    {
                        &&& #[trigger] report_made(
                            driven,
                            tp@,
                            outcome_view(result),
                            report,
                            store@,
                            status@,
                            requeue,
                        )
                        &&& clock.moments() == halfway + concluded_moments(outcome_view(result), report)
                    };
                assert(reconcile_calls(b0, tp@.spec_, replies, *backend));
                at = PassTimes { steps: times, report, ..at };
                read = step_moments(times, replies) + concluded_moments(outcome_view(result), report);
            }
            (Write::Status(status), requeue)
        },
    };
    assert(clock.moments() =~= before + read);
    assert(pass_made(b0, st, tp@, at, read, *backend, store@, done.0@, done.1));
    done
}

/// One pass over a pipeline against a backend that answers at once, by the
/// machine's clock.
pub fn reconcile<B: K8sBackend>(backend: &mut B, store: &mut Store, tp: &Pipeline) -> (r: (Write, Requeue))
    requires
        plan_of(tp@) is Drive ==> tp@.current_status().reconcile_count < i64::MAX,
    ensures
        exists|at: PassTimes, read: Seq<Timestamp>| #[trigger]
            pass_made(*old(backend), old(store)@, tp@, at, read, *final(backend), final(store)@, r.0@, r.1),
{
    let mut clock = SystemClock::start();
    reconcile_with(backend, store, tp, &mut clock)
}

// ─── Laws ─────────────────────────────────────────────────────────────────────

/// Claiming a pipeline settles the claim: the next pass does not claim again.
/// Releasing it settles it for good, and puts its finalizers back as they
/// were before the claim.
pub proof fn law_claim_and_release(tp: PipelineView)
    requires
        !tp.finalizers.contains(FINALIZER@),
        !tp.deleting,
    ensures
        ({
            let claimed = PipelineView { finalizers: tp.finalizers.push(FINALIZER@), ..tp };
            let going = PipelineView { deleting: true, ..claimed };
            let released = PipelineView { finalizers: others(claimed.finalizers), ..going };
            &&& plan_of(tp) == PlanView::Claim(claimed.finalizers)
            &&& plan_of(claimed) == if tp.spec_.paused {
                PlanView::Hold
            } else {
                PlanView::Drive
            }
            &&& plan_of(going) == PlanView::Release(tp.finalizers)
            &&& plan_of(released) == PlanView::Settled
        }),
{
    let claimed = tp.finalizers.push(FINALIZER@);
    assert(claimed[tp.finalizers.len() as int] == FINALIZER@);
    lemma_nothing_to_drop(tp.finalizers);
    assert(claimed.drop_last() =~= tp.finalizers);
    assert(others(claimed) == tp.finalizers) by {
        reveal(Seq::filter);
    }
}

proof fn lemma_nothing_to_drop(finalizers: Seq<Seq<char>>)
    requires
        !finalizers.contains(FINALIZER@),
    ensures
        others(finalizers) == finalizers,
    decreases finalizers.len(),
{
    reveal(Seq::filter);
    if finalizers.len() > 0 {
        let shorter = finalizers.drop_last();
        assert forall|i: int| 0 <= i < shorter.len() implies shorter[i] != FINALIZER@ by {
            assert(finalizers[i] != FINALIZER@);
        }
        lemma_nothing_to_drop(shorter);
        assert(finalizers.last() != FINALIZER@);
        assert(others(finalizers) =~= finalizers);
    } else {
        assert(others(finalizers) =~= finalizers);
    }
}

/// Nothing is provisioned for a pipeline that is going, that is paused, or
/// that the operator has not claimed yet; and only a pipeline that is going
/// is taken down.
pub proof fn law_only_claimed_live_pipelines_are_driven(tp: PipelineView)
    ensures
        plan_of(tp) is Drive <==> !tp.deleting && !tp.spec_.paused && tp.finalizers.contains(FINALIZER@),
        plan_of(tp) is Release ==> tp.deleting,
        tp.deleting && !tp.finalizers.contains(FINALIZER@) ==> plan_of(tp) is Settled,
{
}

/// What a pass does follows from three things alone: whether the object is
/// going, whether it carries the operator's finalizer, and whether it is
/// paused. A claim puts the finalizer behind those that are there.
pub proof fn law_plan_follows_the_object(tp: PipelineView)
    ensures
        ({
            let claimed = tp.finalizers.contains("vanguard.io/tenant-cleanup"@);
            let plan = plan_of(tp);
            &&& plan is Settled <==> tp.deleting && !claimed
            &&& plan is Release <==> tp.deleting && claimed
            &&& plan is Claim <==> !tp.deleting && !claimed
            &&& plan is Hold <==> !tp.deleting && claimed && tp.spec_.paused
            &&& plan is Drive <==> !tp.deleting && claimed && !tp.spec_.paused
            &&& plan is Claim ==> plan->Claim_0 == tp.finalizers.push("vanguard.io/tenant-cleanup"@)
            &&& plan is Release ==> plan->Release_0 == others(tp.finalizers)
        }),
{
}

/// Releasing a pipeline takes the operator's finalizer off, wherever and
/// however often it stands, and keeps every other one in its place.
pub proof fn law_release_takes_off_the_own_finalizer_alone(finalizers: Seq<Seq<char>>, other: Seq<char>)
    requires
        other != "vanguard.io/tenant-cleanup"@,
    ensures
        others(Seq::empty()).len() == 0,
        others(finalizers.push("vanguard.io/tenant-cleanup"@)) == others(finalizers),
        others(finalizers.push(other)) == others(finalizers).push(other),
        !others(finalizers).contains("vanguard.io/tenant-cleanup"@),
{
    reveal(Seq::filter);
    assert(finalizers.push("vanguard.io/tenant-cleanup"@).drop_last() =~= finalizers);
    assert(finalizers.push(other).drop_last() =~= finalizers);
    lemma_own_finalizer_is_dropped(finalizers);
}

proof fn lemma_own_finalizer_is_dropped(finalizers: Seq<Seq<char>>)
    ensures
        !others(finalizers).contains(FINALIZER@),
    decreases finalizers.len(),
{
    reveal(Seq::filter);
    if finalizers.len() > 0 {
        lemma_own_finalizer_is_dropped(finalizers.drop_last());
        let kept = others(finalizers.drop_last());
        if others(finalizers).contains(FINALIZER@) {
            let i = others(finalizers).index_of(FINALIZER@);
            assert(others(finalizers)[i] == FINALIZER@);
            assert(i < kept.len() ==> kept[i] == FINALIZER@);
        }
    }
}

/// The patch holds the finalizers, in order, under `metadata` and
/// `finalizers`.
pub proof fn law_finalizers_patch_reads_back(finalizers: Seq<Seq<char>>, i: int)
    ensures
        ({
            let list = in_field(in_field(Some(finalizers_patch(finalizers)), "metadata"@), "finalizers"@);
            &&& list matches Some(JsonView::Array(v)) && v.len() == finalizers.len()
            &&& 0 <= i < finalizers.len() ==> in_item(list, i) == Some(JsonView::Text(finalizers[i]))
        }),
{
    let doc = finalizers_patch(finalizers);
    lemma_member_is_field(doc, 0);
    lemma_member_is_field(doc->Object_0[0].1, 0);
}

/// A claimed pipeline is looked at again after a tenth of a second, a paused
/// one after half a minute, a converged one after fifteen seconds and a failed
/// one after five; the others wait for a change.
pub proof fn law_next_look(plan: PlanView, result: Result<ReconcileOutcomeView, ReconcileErrorView>)
    ensures
        plan is Settled || plan is Release ==> requeue_of(plan) == Requeue::AwaitChange,
        plan is Claim ==> requeue_of(plan) == Requeue::After(100),
        plan is Hold ==> requeue_of(plan) == Requeue::After(30_000),
        plan is Drive ==> requeue_of(plan) == Requeue::After(15_000),
        result is Ok ==> concluded_requeue(result) == Requeue::After(15_000),
        result is Err ==> concluded_requeue(result) == Requeue::After(5_000),
{
}

/// An object without a status counts as blank, and one without a generation as
/// of generation zero.
pub proof fn law_missing_parts_count_as_blank(tp: PipelineView)
    ensures
        tp.status matches Some(s) ==> tp.current_status() == s,
        tp.status is None ==> tp.current_status().reconcile_count == 0 && tp.current_status().conditions.len() == 0,
        tp.status is None ==> tp.current_status() == TenantPipelineStatusView::blank(),
        tp.generation matches Some(g) ==> tp.observed_generation() == g,
        tp.generation is None ==> tp.observed_generation() == 0,
{
}

/// A pass that has nothing to provision or to take down touches neither the
/// cluster nor the store, and writes no more than its claim.
pub proof fn law_idle_passes_touch_nothing<B: K8sBackend>(
    pre: B,
    st: StoreView,
    tp: PipelineView,
    at: PassTimes,
    read: Seq<Timestamp>,
    post: B,
    after: StoreView,
    write: WriteView,
    requeue: Requeue,
)
    requires
        pass_made(pre, st, tp, at, read, post, after, write, requeue),
        !tp.finalizers.contains("vanguard.io/tenant-cleanup"@) || !tp.deleting && tp.spec_.paused,
    ensures
        post == pre,
        after == st,
        read.len() == 0,
        tp.deleting ==> write == WriteView::Nothing && requeue == Requeue::AwaitChange,
        !tp.deleting && tp.finalizers.contains("vanguard.io/tenant-cleanup"@) ==> write == WriteView::Nothing
            && requeue == Requeue::After(30_000),
        !tp.deleting && !tp.finalizers.contains("vanguard.io/tenant-cleanup"@) ==> requeue == Requeue::After(100)
            && write == WriteView::Object(finalizers_patch(tp.finalizers.push("vanguard.io/tenant-cleanup"@))),
{
}

/// A pass over a pipeline that is going takes its tenant down and lets the
/// object go: of its finalizers only the others' are left. In the in-memory
/// cluster nothing of the tenant stays but its ConfigMap.
pub proof fn law_release_pass_takes_the_tenant_down(
    pre: MockBackend,
    st: StoreView,
    tp: PipelineView,
    at: PassTimes,
    read: Seq<Timestamp>,
    post: MockBackend,
    after: StoreView,
    write: WriteView,
    requeue: Requeue,
)
    requires
        pass_made(pre, st, tp, at, read, post, after, write, requeue),
        tp.deleting,
        tp.finalizers.contains("vanguard.io/tenant-cleanup"@),
    ensures
        after.tenants == st.tenants.remove(tp.spec_.tenant_id),
        st.tenants.contains_key(tp.spec_.tenant_id) ==> !post@.namespaces.contains("tenant-"@ + tp.spec_.tenant_id),
        !st.tenants.contains_key(tp.spec_.tenant_id) ==> post == pre,
        post@.configmaps == pre@.configmaps,
        write == WriteView::Object(finalizers_patch(others(tp.finalizers))),
        requeue == Requeue::AwaitChange,
{
}

/// A pass over a live, claimed pipeline that is not paused converges in the
/// in-memory cluster: the tenant's record and the reported status say so, count
/// one reconcile more than the object's own status does, and carry the object's
/// creation and generation. The pipeline is looked at again after fifteen
/// seconds.
pub proof fn law_drive_pass_converges(
    pre: MockBackend,
    st: StoreView,
    tp: PipelineView,
    at: PassTimes,
    read: Seq<Timestamp>,
    post: MockBackend,
    after: StoreView,
    write: WriteView,
    requeue: Requeue,
)
    requires
        pass_made(pre, st, tp, at, read, post, after, write, requeue),
        !tp.deleting,
        tp.finalizers.contains("vanguard.io/tenant-cleanup"@),
        !tp.spec_.paused,
        tp.current_status().reconcile_count < i64::MAX,
    ensures
        ({
            let id = tp.spec_.tenant_id;
            let own = "tenant-"@ + id;
            let rec = after.tenants[id];
            let prior = tp.current_status().reconcile_count;
            &&& post@.namespaces == pre@.namespaces.insert(own)
            &&& post@.configmaps == pre@.configmaps.insert((own, "vanguard-rl-"@ + id))
            &&& post@.deployments == pre@.deployments.insert(
                (own, "proxy-"@ + id),
                proxy_spec_of(tp.spec_, own, "vanguard-rl-"@ + id),
            )
            &&& after.tenants == st.tenants.insert(id, rec)
            &&& rec.phase == TenantPhase::Ready
            &&& rec.reconcile_count == prior + 1
            &&& rec.created_at == tp.created_at
            &&& rec.last_reconcile_at == Some(at.steps.proxy)
            &&& write matches WriteView::Status(status) && {
                &&& status.phase == Phase::Ready
                &&& status.reconcile_count == prior + 1
                &&& status.namespace_name == own
                &&& status.config_map_name == "vanguard-rl-"@ + id
                &&& status.proxy_pod_name == "proxy-"@ + id
                &&& status.observed_generation == tp.observed_generation()
                &&& status.last_reconcile_time == Some(
                    rfc3339_text(at.report.recorded.secs(), at.report.recorded.nanos()),
                )
            }
            &&& requeue == Requeue::After(15_000)
            &&& read =~= seq![
                at.steps.start,
                at.steps.namespace,
                at.steps.configmap,
                at.steps.proxy,
                at.report.recorded,
                at.report.judged,
            ]
        }),
{
    let prior = tp.current_status().reconcile_count;
    let replies = choose|replies: Replies|
        {
            let result = reconcile_result(prior, replies);
            let driven = reconcile_store(st, tp.spec_, prior, tp.created_at, at.steps, replies);
            &&& #[trigger] reconcile_calls(pre, tp.spec_, replies, post)
            &&& after == concluded_store(driven, tp, result, at.report)
            &&& read == step_moments(at.steps, replies) + concluded_moments(result, at.report)
            &&& write == WriteView::Status(concluded_status(tp, result, at.report))
            &&& requeue == concluded_requeue(result)
        };
    law_reconcile_provisions_full_stack(pre, post, st, tp.spec_, prior, tp.created_at, at.steps, replies);
}

/// A drive that failed is reported as degraded, in the store and in the
/// status, and one that converged leaves the store as the drive left it.
pub proof fn law_conclusion_follows_the_result(
    st: StoreView,
    tp: PipelineView,
    result: Result<ReconcileOutcomeView, ReconcileErrorView>,
    at: ReportTimes,
)
    ensures
        result is Ok ==> {
            &&& concluded_store(st, tp, result, at) == st
            &&& concluded_status(tp, result, at).phase == Phase::Ready
            &&& concluded_moments(result, at) == seq![at.recorded, at.judged]
        },
        result is Err ==> {
            let rec = concluded_store(st, tp, result, at).tenants[tp.spec_.tenant_id];
            &&& rec.tenant_id == tp.spec_.tenant_id
            &&& rec.display_name == tp.spec_.display_name
            &&& rec.phase == TenantPhase::Degraded
            &&& concluded_status(tp, result, at).phase == Phase::Degraded
            &&& concluded_status(tp, result, at).reconcile_count == tp.current_status().reconcile_count
            &&& concluded_moments(result, at) == seq![at.noted, at.announced, at.judged, at.recorded]
        },
{
}

/// What a contract says of an object is what its own fields hold.
pub proof fn law_objects_are_read_field_by_field(tp: Pipeline, i: int)
    ensures
        tp@.spec_ == tp.spec_@,
        tp@.deleting == tp.deleting,
        tp@.finalizers.len() == tp.finalizers@.len(),
        0 <= i < tp.finalizers@.len() ==> tp@.finalizers[i] == tp.finalizers@[i]@,
        tp@.generation == tp.generation,
        tp@.created_at == tp.created_at,
        tp.status is None <==> tp@.status is None,
        tp.status matches Some(s) ==> tp@.status == Some(s@),
{
}

/// The patch touches nothing but the finalizers.
pub proof fn law_finalizers_patch_touches_nothing_else(finalizers: Seq<Seq<char>>)
    ensures
        member_count(Some(finalizers_patch(finalizers))) == 1,
        member_count(in_field(Some(finalizers_patch(finalizers)), "metadata"@)) == 1,
{
    lemma_member_is_field(finalizers_patch(finalizers), 0);
}

/// A report of a converged drive leaves the store alone, says Ready with the
/// outcome's names and the object's generation, and comes back in fifteen
/// seconds; one of a failed drive leaves a degraded record, says Degraded, and
/// comes back in five.
pub proof fn law_report_follows_the_result(
    st: StoreView,
    tp: PipelineView,
    result: Result<ReconcileOutcomeView, ReconcileErrorView>,
    at: ReportTimes,
    after: StoreView,
    status: TenantPipelineStatusView,
    requeue: Requeue,
)
    requires
        report_made(st, tp, result, at, after, status, requeue),
    ensures
        result is Ok ==> {
            &&& after == st
            &&& status.phase == Phase::Ready
            &&& status.namespace_name == result->Ok_0.namespace_name
            &&& status.proxy_pod_name == result->Ok_0.proxy_pod_name
            &&& status.config_map_name == result->Ok_0.config_map_name
            &&& status.reconcile_count == result->Ok_0.reconcile_count
            &&& status.observed_generation == tp.observed_generation()
            &&& requeue == Requeue::After(15_000)
        },
        result is Err ==> {
            &&& after.tenants[tp.spec_.tenant_id].phase == TenantPhase::Degraded
            &&& after.events.len() == st.events.len() + 1
            &&& after.events.last().kind == EventKind::ReconcileError
            &&& after.events.last().tenant_id == tp.spec_.tenant_id
            &&& status.phase == Phase::Degraded
            &&& status.observed_generation == tp.current_status().observed_generation
            &&& requeue == Requeue::After(5_000)
        },
{
}

} // verus!
