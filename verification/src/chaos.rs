//! Self-heal narration: on a chaos event, a realistic-looking recovery is
//! told step by step while the reconciler does the actual healing.
//!
//! Waiting is left to the caller: `Engine` says what to do about what came
//! in, and `HealSequence` says how long to wait and what happens at the end
//! of the wait.

use crate::clock::Timestamp;
use crate::reconcile::{home_of, left_for};
use crate::store::{
    lemma_note_and_announcement, says_more, stamped, Event, EventKind, EventView, Store, StoreView, TenantPhase,
    TenantRecordView,
};
use vstd::prelude::*;

verus! {

/// One step of the narration: the wait before it in milliseconds, what is
/// told, and the event that goes with it.
pub struct StepView {
    pub delay: u64,
    pub message: Seq<char>,
    pub kind: EventKind,
}

/// How many steps the narration has.
pub const STEPS: usize = 5;

/// The narration for a tenant.
pub open spec fn narration(tenant_id: Seq<char>) -> Seq<StepView> {
    seq![
        StepView {
            delay: 150,
            message: "  ⚠  ["@ + tenant_id + "] drift detected — proxy deployment missing"@,
            kind: EventKind::DriftDetected,
        },
        StepView {
            delay: 300,
            message: "  ⟳  ["@ + tenant_id + "] reconcile triggered by informer cache miss"@,
            kind: EventKind::ReconcileStart,
        },
        StepView {
            delay: 600,
            message: "  ✓  ["@ + tenant_id + "] proxy deployment re-created"@,
            kind: EventKind::ProxyRestored,
        },
        StepView {
            delay: 900,
            message: "  ✓  ["@ + tenant_id + "] configmap re-mounted and verified"@,
            kind: EventKind::ConfigReloaded,
        },
        StepView {
            delay: 1100,
            message: "  ✓  ["@ + tenant_id + "] tenant pipeline back to READY ⚡ self-heal complete"@,
            kind: EventKind::ReconcileOk,
        },
    ]
}

/// What a list of steps says.
pub open spec fn step_views(v: Seq<(u64, String, EventKind)>) -> Seq<StepView> {
    v.map_values(|s: (u64, String, EventKind)| StepView { delay: s.0, message: s.1@, kind: s.2 })
}

fn bracketed(mark: &str, tenant_id: &str, rest: &str) -> (r: String)
    ensures
        r@ == mark@ + tenant_id@ + rest@,
{
    mark.to_owned().concat(tenant_id).concat(rest)
}

/// The steps of the narration for a tenant.
pub fn steps(tenant_id: &str) -> (r: Vec<(u64, String, EventKind)>)
    ensures
        step_views(r@) == narration(tenant_id@),
{
    let r = vec![
        (
            150,
            bracketed("  ⚠  [", tenant_id, "] drift detected — proxy deployment missing"),
            EventKind::DriftDetected,
        ),
        (
            300,
            bracketed("  ⟳  [", tenant_id, "] reconcile triggered by informer cache miss"),
            EventKind::ReconcileStart,
        ),
        (600, bracketed("  ✓  [", tenant_id, "] proxy deployment re-created"), EventKind::ProxyRestored),
        (
            900,
            bracketed("  ✓  [", tenant_id, "] configmap re-mounted and verified"),
            EventKind::ConfigReloaded,
        ),
        (
            1100,
            bracketed("  ✓  [", tenant_id, "] tenant pipeline back to READY ⚡ self-heal complete"),
            EventKind::ReconcileOk,
        ),
    ];
    assert(step_views(r@) =~= narration(tenant_id@));
    r
}

/// What reaches the engine while it waits.
#[derive(Debug)]
pub enum Signal {
    /// The shutdown flag changed to this.
    Shutdown(bool),
    /// An event came over the bus.
    Event(Event),
    /// The engine fell behind, and events were lost.
    Lagged,
    /// The bus is gone.
    Closed,
}

/// What the engine does about it.
#[derive(Debug)]
pub enum Reaction {
    Ignore,
    /// Tell the self-heal sequence of this tenant.
    Heal(String),
    Stop,
}

pub enum ReactionView {
    Ignore,
    Heal(Seq<char>),
    Stop,
}

impl View for Reaction {
    type V = ReactionView;

    open spec fn view(&self) -> ReactionView {
        match self {
            Reaction::Ignore => ReactionView::Ignore,
            Reaction::Heal(id) => ReactionView::Heal(id@),
            Reaction::Stop => ReactionView::Stop,
        }
    }
}

/// Only injected chaos is healed; the engine stops on shutdown, and when no
/// event can come any more.
pub open spec fn reaction(signal: Signal) -> ReactionView {
    match signal {
        Signal::Shutdown(true) => ReactionView::Stop,
        Signal::Event(ev) => if ev.kind == EventKind::ChaosInjected {
            ReactionView::Heal(ev.tenant_id@)
        } else {
            ReactionView::Ignore
        },
        Signal::Closed => ReactionView::Stop,
        _ => ReactionView::Ignore,
    }
}

/// Watches for chaos.
#[derive(Clone, Copy, Debug)]
pub struct Engine {}

impl Engine {
    pub fn new() -> (r: Engine)
        ensures
            r == (Engine {  }),
    {
        Engine {  }
    }

    /// What to do about a signal.
    pub fn react(&self, signal: &Signal) -> (r: Reaction)
        ensures
            r@ == reaction(*signal),
    {
        match signal {
            Signal::Shutdown(on) => if *on {
                Reaction::Stop
            } else {
                Reaction::Ignore
            },
            Signal::Event(ev) => if ev.kind == EventKind::ChaosInjected {
                Reaction::Heal(ev.tenant_id.clone())
            } else {
                Reaction::Ignore
            },
            Signal::Lagged => Reaction::Ignore,
            Signal::Closed => Reaction::Stop,
        }
    }
}

/// What ended the wait before a step.
#[derive(Clone, Copy, Debug)]
pub enum Wake {
    /// The time was up.
    Elapsed,
    /// The cancel flag changed to this.
    CancelFlag(bool),
}

/// A self-heal sequence that waits for its next step.
pub struct HealSequence {
    tenant_id: String,
    next: usize,
}

pub struct HealSequenceView {
    pub tenant_id: Seq<char>,
    pub next: int,
}

impl View for HealSequence {
    type V = HealSequenceView;

    closed spec fn view(&self) -> HealSequenceView {
        HealSequenceView { tenant_id: self.tenant_id@, next: self.next as int }
    }
}

/// The store after a step was told: a log line and an event.
pub open spec fn told(st: StoreView, tenant_id: Seq<char>, step: StepView, at: Timestamp) -> StoreView {
    st.noting(at, step.message).announcing(step.kind, tenant_id, step.message, at)
}

/// The record of a tenant that has healed.
pub open spec fn healed_record(record: TenantRecordView, at: Timestamp) -> TenantRecordView {
    TenantRecordView {
        phase: TenantPhase::Ready,
        last_reconcile_at: Some(at),
        reconcile_count: (record.reconcile_count + 1) as i64,
        ..record
    }
}

/// The store after the end of the sequence: a tenant that is still there is
/// Ready again.
pub open spec fn healed(st: StoreView, tenant_id: Seq<char>, at: Timestamp) -> StoreView {
    if st.tenants.contains_key(tenant_id) {
        st.with_tenant(healed_record(st.tenants[tenant_id], at))
    } else {
        st
    }
}

impl HealSequenceView {
    /// The store after the wait has ended.
    pub open spec fn store_after(self, st: StoreView, wake: Wake, at: Timestamp) -> StoreView {
        if wake == Wake::CancelFlag(true) {
            st
        } else {
            let after = told(st, self.tenant_id, narration(self.tenant_id)[self.next], at);
            if self.next + 1 == STEPS {
                healed(after, self.tenant_id, at)
            } else {
                after
            }
        }
    }

    /// What is left of the sequence after the wait has ended.
    pub open spec fn rest(self, wake: Wake) -> Option<HealSequenceView> {
        if wake == Wake::CancelFlag(true) || self.next + 1 == STEPS {
            None
        } else {
            Some(HealSequenceView { next: self.next + 1, ..self })
        }
    }
}

impl HealSequence {
    #[verifier::type_invariant]
    spec fn has_steps_left(self) -> bool {
        self.next < STEPS
    }

    /// Begins to tell the sequence for a tenant.
    pub fn start(tenant_id: &str) -> (r: HealSequence)
        ensures
            r@ == (HealSequenceView { tenant_id: tenant_id@, next: 0 }),
    {
        HealSequence { tenant_id: tenant_id.to_owned(), next: 0 }
    }

    /// How long to wait before the next step, in milliseconds.
    pub fn delay(&self) -> (r: u64)
        ensures
            0 <= self@.next < STEPS,
            r == narration(self@.tenant_id)[self@.next].delay,
    {
        proof {
            use_type_invariant(self);
        }
        let all = steps(self.tenant_id.as_str());
        assert(all@.len() == narration(self@.tenant_id).len());
        assert(step_views(all@)[self.next as int] == narration(self@.tenant_id)[self@.next]);
        all[self.next].0
    }

    /// Whether the next step is the last one, after which the tenant counts as
    /// reconciled once more.
    pub fn is_last(&self) -> (r: bool)
        ensures
            r == (self@.next + 1 == STEPS),
    {
        proof {
            use_type_invariant(self);
        }
        self.next + 1 == STEPS
    }

    /// Goes on after the wait: tells the next step, unless it was cancelled.
    /// Returns what is left to tell.
    pub fn wake(self, store: &mut Store, wake: Wake, now: Timestamp) -> (r: Option<HealSequence>)
        requires
            self@.next + 1 == STEPS && wake != Wake::CancelFlag(true) && old(store)@.tenants.contains_key(
                self@.tenant_id,
            ) ==> old(store)@.tenants[self@.tenant_id].reconcile_count < i64::MAX,
        ensures
            0 <= self@.next < STEPS,
            final(store)@ == self@.store_after(old(store)@, wake, now),
            match r {
                Some(rest) => self@.rest(wake) == Some(rest@),
                None => self@.rest(wake) is None,
            },
    {
        proof {
            use_type_invariant(&self);
        }
        let cancelled = match wake {
            Wake::CancelFlag(on) => on,
            Wake::Elapsed => false,
        };
        if cancelled {
            return None;
        }
        let id = self.tenant_id.as_str();
        let all = steps(id);
        assert(all@.len() == narration(self@.tenant_id).len());
        assert(step_views(all@)[self.next as int] == narration(self@.tenant_id)[self@.next]);
        let message = all[self.next].1.as_str();
        store.note(now, message);
        store.announce(all[self.next].2, id, message, now);
        if self.next + 1 < STEPS {
            return Some(HealSequence { tenant_id: self.tenant_id, next: self.next + 1 });
        }
        match store.get_tenant(id) {
            Some(mut record) => {
                record.phase = TenantPhase::Ready;
                record.last_reconcile_at = Some(now);
                record.reconcile_count = record.reconcile_count + 1;
                store.upsert_tenant(record);
            },
            None => {},
        }
        None
    }
}

// ─── Laws ─────────────────────────────────────────────────────────────────────

/// The store after the first `n` steps, each told when its wait was up.
pub open spec fn told_through(st: StoreView, tenant_id: Seq<char>, times: Seq<Timestamp>, n: int) -> StoreView
    decreases n,
{
    if n <= 0 {
        st
    } else {
        HealSequenceView { tenant_id, next: n - 1 }.store_after(
            told_through(st, tenant_id, times, n - 1),
            Wake::Elapsed,
            times[n - 1],
        )
    }
}

/// The event that goes with a step.
pub open spec fn step_event(tenant_id: Seq<char>, step: StepView, at: Timestamp) -> EventView {
    EventView { kind: step.kind, tenant_id, message: step.message, timestamp: at }
}

/// A sequence that is not cancelled publishes the five events of the
/// narration in order, and leaves a tenant that is there Ready, with one more
/// reconcile counted. Nobody else's record changes.
pub proof fn law_heal_sequence_restores_ready(st: StoreView, tenant_id: Seq<char>, times: Seq<Timestamp>)
    requires
        st.wf(),
        times.len() == STEPS,
    ensures
        ({
            let end = told_through(st, tenant_id, times, STEPS as int);
            let steps = narration(tenant_id);
            &&& end.events == st.events + seq![
                step_event(tenant_id, steps[0], times[0]),
                step_event(tenant_id, steps[1], times[1]),
                step_event(tenant_id, steps[2], times[2]),
                step_event(tenant_id, steps[3], times[3]),
                step_event(tenant_id, steps[4], times[4]),
            ]
            &&& st.tenants.contains_key(tenant_id) ==> end.tenants == st.tenants.insert(
                tenant_id,
                healed_record(st.tenants[tenant_id], times[4]),
            )
            &&& !st.tenants.contains_key(tenant_id) ==> end.tenants == st.tenants
        }),
{
    reveal_with_fuel(told_through, 6);
    let end = told_through(st, tenant_id, times, STEPS as int);
    let steps = narration(tenant_id);
    assert(end.events =~= st.events + seq![
        step_event(tenant_id, steps[0], times[0]),
        step_event(tenant_id, steps[1], times[1]),
        step_event(tenant_id, steps[2], times[2]),
        step_event(tenant_id, steps[3], times[3]),
        step_event(tenant_id, steps[4], times[4]),
    ]);
}

/// The engine is still waiting after it has reacted to these signals.
pub open spec fn goes_on(signals: Seq<Signal>) -> bool
    decreases signals.len(),
{
    signals.len() == 0 || goes_on(signals.drop_last()) && reaction(signals.last()) != ReactionView::Stop
}

/// The tenants whose sequences the engine has started on these signals, in
/// order. Once it has stopped it starts none.
pub open spec fn started(signals: Seq<Signal>) -> Seq<Seq<char>>
    decreases signals.len(),
{
    if signals.len() == 0 {
        Seq::empty()
    } else {
        let before = started(signals.drop_last());
        match reaction(signals.last()) {
            ReactionView::Heal(id) if goes_on(signals.drop_last()) => before.push(id),
            _ => before,
        }
    }
}

/// A signal says that chaos was injected for a tenant.
pub open spec fn tells_chaos(signal: Signal, id: Seq<char>) -> bool {
    signal matches Signal::Event(ev) && ev.kind == EventKind::ChaosInjected && ev.tenant_id@ == id
}

/// A signal ends the engine: the shutdown flag was raised, or the bus is gone.
pub open spec fn ends_engine(signal: Signal) -> bool {
    signal == Signal::Shutdown(true) || signal == Signal::Closed
}

/// Whatever signals reach it, the engine goes on until the shutdown flag is
/// raised or the bus is gone, and up to then it starts a sequence for each
/// event of injected chaos, for its own tenant, and for nothing else.
pub proof fn law_engine_heals_until_it_is_stopped(signals: Seq<Signal>, id: Seq<char>)
    ensures
        goes_on(signals) <==> forall|i: int| 0 <= i < signals.len() ==> !ends_engine(#[trigger] signals[i]),
        started(signals).contains(id) <==> exists|i: int|
            0 <= i < signals.len() && tells_chaos(#[trigger] signals[i], id) && goes_on(signals.take(i)),
    decreases signals.len(),
{
    if signals.len() > 0 {
        let shorter = signals.drop_last();
        let last = signals.len() - 1;
        law_engine_heals_until_it_is_stopped(shorter, id);
        assert(signals.take(last) =~= shorter);
        assert(signals[last] == signals.last());
        assert forall|i: int| 0 <= i < last implies signals.take(i) == #[trigger] shorter.take(i) by {
            assert(signals.take(i) =~= shorter.take(i));
        }
        if goes_on(signals) {
            assert forall|i: int| 0 <= i < signals.len() implies !ends_engine(#[trigger] signals[i]) by {
                if i < last {
                    assert(!ends_engine(shorter[i]));
                }
            }
        } else if goes_on(shorter) {
            assert(ends_engine(signals[last]));
        } else {
            let i = choose|i: int| 0 <= i < shorter.len() && ends_engine(#[trigger] shorter[i]);
            assert(ends_engine(signals[i]));
        }
        let before = started(shorter);
        let after = started(signals);
        if after.contains(id) {
            if before.contains(id) {
                let i = choose|i: int|
                    0 <= i < shorter.len() && tells_chaos(#[trigger] shorter[i], id) && goes_on(shorter.take(i));
                assert(tells_chaos(signals[i], id) && goes_on(signals.take(i)));
            } else {
                let k = choose|k: int| 0 <= k < after.len() && after[k] == id;
                if k < before.len() {
                    assert(before[k] == id);
                }
                assert(tells_chaos(signals[last], id) && goes_on(signals.take(last)));
            }
        }
        if exists|i: int|
            0 <= i < signals.len() && tells_chaos(#[trigger] signals[i], id) && goes_on(signals.take(i)) {
            let i = choose|i: int|
                0 <= i < signals.len() && tells_chaos(#[trigger] signals[i], id) && goes_on(signals.take(i));
            if i < last {
                assert(tells_chaos(shorter[i], id) && goes_on(shorter.take(i)));
                let k = choose|k: int| 0 <= k < before.len() && before[k] == id;
                assert(after[k] == id);
            } else {
                assert(after[before.len() as int] == id);
            }
        }
    }
}

/// An event of injected chaos starts the sequence of its own tenant, and told
/// to its end that leaves the tenant Ready, whatever phase it was in. An event
/// of any other kind starts nothing.
pub proof fn law_chaos_event_restores_its_tenant(st: StoreView, ev: Event, times: Seq<Timestamp>)
    requires
        st.wf(),
        times.len() == STEPS,
    ensures
        ({
            let id = ev.tenant_id@;
            let end = told_through(st, id, times, STEPS as int);
            &&& ev.kind == EventKind::ChaosInjected ==> {
                &&& reaction(Signal::Event(ev)) == ReactionView::Heal(id)
                &&& st.tenants.contains_key(id) ==> end.tenants[id].phase == TenantPhase::Ready
            }
            &&& ev.kind != EventKind::ChaosInjected ==> reaction(Signal::Event(ev)) == ReactionView::Ignore
        }),
{
    law_heal_sequence_restores_ready(st, ev.tenant_id@, times);
}

/// A healed record leads to the same namespace as before.
pub proof fn law_heal_keeps_the_home(record: TenantRecordView, at: Timestamp, tenant_id: Seq<char>)
    ensures
        home_of(healed_record(record, at)) == home_of(record),
        left_for(healed_record(record, at), tenant_id) == left_for(record, tenant_id),
{
}

/// Until its last step the sequence touches no record, so cancelling it
/// anywhere leaves the tenant as it was.
pub proof fn law_cancelled_heal_leaves_the_tenant(
    st: StoreView,
    tenant_id: Seq<char>,
    times: Seq<Timestamp>,
    n: int,
    at: Timestamp,
)
    requires
        0 <= n < STEPS,
        n <= times.len(),
    ensures
        ({
            let waiting = HealSequenceView { tenant_id, next: n };
            let before = told_through(st, tenant_id, times, n);
            let cancelled = waiting.store_after(before, Wake::CancelFlag(true), at);
            &&& cancelled == before
            &&& cancelled.tenants == st.tenants
            &&& n == 0 ==> cancelled == st
            &&& waiting.rest(Wake::CancelFlag(true)) is None
        }),
    decreases n,
{
    if n > 0 {
        law_cancelled_heal_leaves_the_tenant(st, tenant_id, times, n - 1, at);
    }
}

/// The narration goes from the drift that was found to the tenant that is well
/// again, in five steps that name the tenant, each after a longer wait than
/// the one before.
pub proof fn law_narration_tells_the_recovery(tenant_id: Seq<char>, i: int)
    ensures
        ({
            let steps = narration(tenant_id);
            &&& steps.len() == 5
            &&& STEPS == 5
            &&& steps[0].kind == EventKind::DriftDetected && steps[0].delay == 150
            &&& steps[1].kind == EventKind::ReconcileStart && steps[1].delay == 300
            &&& steps[2].kind == EventKind::ProxyRestored && steps[2].delay == 600
            &&& steps[3].kind == EventKind::ConfigReloaded && steps[3].delay == 900
            &&& steps[4].kind == EventKind::ReconcileOk && steps[4].delay == 1100
            &&& steps[0].message == "  ⚠  ["@ + tenant_id + "] drift detected — proxy deployment missing"@
            &&& steps[1].message == "  ⟳  ["@ + tenant_id + "] reconcile triggered by informer cache miss"@
            &&& steps[2].message == "  ✓  ["@ + tenant_id + "] proxy deployment re-created"@
            &&& steps[3].message == "  ✓  ["@ + tenant_id + "] configmap re-mounted and verified"@
            &&& steps[4].message == "  ✓  ["@ + tenant_id
                + "] tenant pipeline back to READY ⚡ self-heal complete"@
            &&& 0 <= i < 4 ==> steps[i].delay < steps[i + 1].delay
        }),
{
}

/// A step that is told adds its words to the log and its event to the stream,
/// and changes no record.
pub proof fn law_step_is_logged_and_published(st: StoreView, tenant_id: Seq<char>, step: StepView, at: Timestamp)
    ensures
        says_more(
            st,
            told(st, tenant_id, step, at),
            stamped(at, step.message),
            (EventView { kind: step.kind, tenant_id, message: step.message, timestamp: at }),
        ),
{
    lemma_note_and_announcement(st, at, step.message, step.kind, tenant_id, step.message, at);
}

/// Healing makes a record Ready, as of the given moment and with one reconcile
/// more, and keeps everything else it says.
pub proof fn law_healing_keeps_the_rest_of_the_record(record: TenantRecordView, at: Timestamp)
    requires
        record.reconcile_count < i64::MAX,
    ensures
        ({
            let after = healed_record(record, at);
            &&& after.phase == TenantPhase::Ready
            &&& after.last_reconcile_at == Some(at)
            &&& after.reconcile_count == record.reconcile_count + 1
            &&& after.tenant_id == record.tenant_id
            &&& after.display_name == record.display_name
            &&& after.namespace == record.namespace
            &&& after.tier == record.tier
            &&& after.rps == record.rps
            &&& after.burst == record.burst
            &&& after.max_concurrent == record.max_concurrent
            &&& after.proxy_pod_name == record.proxy_pod_name
            &&& after.proxy_image == record.proxy_image
            &&& after.config_map_name == record.config_map_name
            &&& after.created_at == record.created_at
        }),
{
}

/// A wait that ends without a cancellation, be it that the time was up or that
/// the flag was lowered, tells the next step and leaves the rest; the fifth
/// step is the last, and after it a tenant that is there has healed.
pub proof fn law_wait_leads_to_the_next_step(seq_: HealSequenceView, st: StoreView, wake: Wake, at: Timestamp)
    requires
        st.wf(),
        0 <= seq_.next < 5,
        wake != Wake::CancelFlag(true),
    ensures
        ({
            let step = narration(seq_.tenant_id)[seq_.next];
            let after = seq_.store_after(st, wake, at);
            &&& seq_.next < 4 ==> seq_.rest(wake) == Some(
                (HealSequenceView { tenant_id: seq_.tenant_id, next: seq_.next + 1 }),
            )
            &&& seq_.next == 4 ==> seq_.rest(wake) is None
            &&& after.logs == st.with_log(stamped(at, step.message)).logs
            &&& after.events == st.events.push(
                (EventView { kind: step.kind, tenant_id: seq_.tenant_id, message: step.message, timestamp: at }),
            )
            &&& seq_.next < 4 || !st.tenants.contains_key(seq_.tenant_id) ==> after.tenants == st.tenants
            &&& seq_.next == 4 && st.tenants.contains_key(seq_.tenant_id) ==> {
                &&& after.tenants[seq_.tenant_id].phase == TenantPhase::Ready
                &&& after.tenants.remove(seq_.tenant_id) == st.tenants.remove(seq_.tenant_id)
            }
        }),
{
    let after = seq_.store_after(st, wake, at);
    if seq_.next == 4 && st.tenants.contains_key(seq_.tenant_id) {
        assert(after.tenants.remove(seq_.tenant_id) =~= st.tenants.remove(seq_.tenant_id));
    }
}

/// The engine stops when the shutdown flag is raised or the bus is gone, heals
/// the tenant that chaos struck, and lets everything else pass.
pub proof fn law_engine_reacts_to_chaos_and_shutdown(signal: Signal)
    ensures
        reaction(signal) is Stop <==> signal == Signal::Shutdown(true) || signal == Signal::Closed,
        reaction(signal) is Heal <==> (signal matches Signal::Event(ev) && ev.kind == EventKind::ChaosInjected),
        reaction(signal) is Heal ==> reaction(signal)->Heal_0 == signal->Event_0.tenant_id@,
        signal == Signal::Shutdown(false) || signal == Signal::Lagged ==> reaction(signal) is Ignore,
{
}

/// Steps are read one by one, in order.
pub proof fn law_steps_are_read_in_order(v: Seq<(u64, String, EventKind)>, i: int)
    ensures
        step_views(v).len() == v.len(),
        0 <= i < v.len() ==> step_views(v)[i].delay == v[i].0,
        0 <= i < v.len() ==> step_views(v)[i].message == v[i].1@,
        0 <= i < v.len() ==> step_views(v)[i].kind == v[i].2,
{
}

} // verus!
