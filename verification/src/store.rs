//! Shared in-memory state that connects the operator, the REST API and the
//! terminal screen: the tenants, the recent log lines, and the bus on which
//! events reach their subscribers. Reads hand out owned copies, so a caller
//! that changes one changes nothing here until it writes it back.

use crate::clock::{time_of_day, Timestamp};
use crate::keyed::{is_listing, lemma_listing_len, KeyedList};
use crate::text::texts;
use std::collections::VecDeque;
use vstd::arithmetic::power2::is_pow2;
use vstd::prelude::*;

verus! {

/// How many log lines are kept.
pub const MAX_LOGS: usize = 200;

/// How many events the bus keeps for a subscriber that lags behind.
pub const EVENT_BUS_CAPACITY: usize = 256;

/// What happened.
#[derive(Clone, Copy, Debug, PartialEq, Eq, Hash, Structural)]
pub enum EventKind {
    TenantCreated,
    TenantUpdated,
    TenantDeleted,
    NamespaceReady,
    ProxyUp,
    ProxyDown,
    ProxyRestored,
    ConfigReloaded,
    ReconcileStart,
    ReconcileOk,
    ReconcileError,
    DriftDetected,
    ChaosInjected,
}

impl EventKind {
    /// The name of the kind on the wire.
    pub open spec fn name(self) -> Seq<char> {
        match self {
            EventKind::TenantCreated => "TENANT_CREATED"@,
            EventKind::TenantUpdated => "TENANT_UPDATED"@,
            EventKind::TenantDeleted => "TENANT_DELETED"@,
            EventKind::NamespaceReady => "NAMESPACE_READY"@,
            EventKind::ProxyUp => "PROXY_UP"@,
            EventKind::ProxyDown => "PROXY_DOWN"@,
            EventKind::ProxyRestored => "PROXY_RESTORED"@,
            EventKind::ConfigReloaded => "CONFIG_RELOADED"@,
            EventKind::ReconcileStart => "RECONCILE_START"@,
            EventKind::ReconcileOk => "RECONCILE_OK"@,
            EventKind::ReconcileError => "RECONCILE_ERROR"@,
            EventKind::DriftDetected => "DRIFT_DETECTED"@,
            EventKind::ChaosInjected => "CHAOS_INJECTED"@,
        }
    }

    pub fn as_str(&self) -> (r: &'static str)
        ensures
            r@ == self.name(),
    {
        match self {
            EventKind::TenantCreated => "TENANT_CREATED",
            EventKind::TenantUpdated => "TENANT_UPDATED",
            EventKind::TenantDeleted => "TENANT_DELETED",
            EventKind::NamespaceReady => "NAMESPACE_READY",
            EventKind::ProxyUp => "PROXY_UP",
            EventKind::ProxyDown => "PROXY_DOWN",
            EventKind::ProxyRestored => "PROXY_RESTORED",
            EventKind::ConfigReloaded => "CONFIG_RELOADED",
            EventKind::ReconcileStart => "RECONCILE_START",
            EventKind::ReconcileOk => "RECONCILE_OK",
            EventKind::ReconcileError => "RECONCILE_ERROR",
            EventKind::DriftDetected => "DRIFT_DETECTED",
            EventKind::ChaosInjected => "CHAOS_INJECTED",
        }
    }
}

/// Something that happened to a tenant.
#[derive(Debug)]
pub struct Event {
    pub kind: EventKind,
    pub tenant_id: String,
    pub message: String,
    pub timestamp: Timestamp,
}

pub struct EventView {
    pub kind: EventKind,
    pub tenant_id: Seq<char>,
    pub message: Seq<char>,
    pub timestamp: Timestamp,
}

impl View for Event {
    type V = EventView;

    open spec fn view(&self) -> EventView {
        EventView {
            kind: self.kind,
            tenant_id: self.tenant_id@,
            message: self.message@,
            timestamp: self.timestamp,
        }
    }
}

impl Clone for Event {
    fn clone(&self) -> (r: Self)
        ensures
            r@ == self@,
    {
        Event {
            kind: self.kind,
            tenant_id: self.tenant_id.clone(),
            message: self.message.clone(),
            timestamp: self.timestamp,
        }
    }
}

impl Event {
    /// An event of this moment.
    pub fn new(kind: EventKind, tenant_id: &str, message: &str) -> (r: Event)
        ensures
            r@.kind == kind,
            r@.tenant_id == tenant_id@,
            r@.message == message@,
            0 <= r@.timestamp.nanos() < 1_000_000_000,
    {
        Event::at(kind, tenant_id, message, Timestamp::now())
    }

    /// An event of the given moment.
    pub fn at(kind: EventKind, tenant_id: &str, message: &str, timestamp: Timestamp) -> (r: Event)
        ensures
            r@ == (EventView { kind, tenant_id: tenant_id@, message: message@, timestamp }),
    {
        Event { kind, tenant_id: tenant_id.to_owned(), message: message.to_owned(), timestamp }
    }
}

/// Where a tenant stands.
#[derive(Clone, Copy, Debug, PartialEq, Eq, Structural)]
pub enum TenantPhase {
    Provisioning,
    Ready,
    Degraded,
    Terminating,
}

impl Default for TenantPhase {
    fn default() -> (r: Self)
        ensures
            r == TenantPhase::Provisioning,
    {
        TenantPhase::Provisioning
    }
}

impl TenantPhase {
    pub open spec fn name(self) -> Seq<char> {
        match self {
            TenantPhase::Provisioning => "Provisioning"@,
            TenantPhase::Ready => "Ready"@,
            TenantPhase::Degraded => "Degraded"@,
            TenantPhase::Terminating => "Terminating"@,
        }
    }

    pub fn as_str(&self) -> (r: &'static str)
        ensures
            r@ == self.name(),
    {
        match self {
            TenantPhase::Provisioning => "Provisioning",
            TenantPhase::Ready => "Ready",
            TenantPhase::Degraded => "Degraded",
            TenantPhase::Terminating => "Terminating",
        }
    }
}

/// Live view of a single tenant held in the store.
#[derive(Debug)]
pub struct TenantRecord {
    pub tenant_id: String,
    pub display_name: String,
    pub namespace: String,
    pub phase: TenantPhase,
    pub tier: String,
    pub rps: i32,
    pub burst: i32,
    pub max_concurrent: i32,
    pub proxy_pod_name: String,
    pub proxy_image: String,
    pub config_map_name: String,
    pub reconcile_count: i64,
    pub last_reconcile_at: Option<Timestamp>,
    pub created_at: Option<Timestamp>,
}

pub struct TenantRecordView {
    pub tenant_id: Seq<char>,
    pub display_name: Seq<char>,
    pub namespace: Seq<char>,
    pub phase: TenantPhase,
    pub tier: Seq<char>,
    pub rps: i32,
    pub burst: i32,
    pub max_concurrent: i32,
    pub proxy_pod_name: Seq<char>,
    pub proxy_image: Seq<char>,
    pub config_map_name: Seq<char>,
    pub reconcile_count: i64,
    pub last_reconcile_at: Option<Timestamp>,
    pub created_at: Option<Timestamp>,
}

impl TenantRecordView {
    /// The record of a tenant of which nothing is known.
    pub open spec fn blank() -> TenantRecordView {
        TenantRecordView {
            tenant_id: Seq::empty(),
            display_name: Seq::empty(),
            namespace: Seq::empty(),
            phase: TenantPhase::Provisioning,
            tier: Seq::empty(),
            rps: 0,
            burst: 0,
            max_concurrent: 0,
            proxy_pod_name: Seq::empty(),
            proxy_image: Seq::empty(),
            config_map_name: Seq::empty(),
            reconcile_count: 0,
            last_reconcile_at: None,
            created_at: None,
        }
    }
}

impl View for TenantRecord {
    type V = TenantRecordView;

    open spec fn view(&self) -> TenantRecordView {
        TenantRecordView {
            tenant_id: self.tenant_id@,
            display_name: self.display_name@,
            namespace: self.namespace@,
            phase: self.phase,
            tier: self.tier@,
            rps: self.rps,
            burst: self.burst,
            max_concurrent: self.max_concurrent,
            proxy_pod_name: self.proxy_pod_name@,
            proxy_image: self.proxy_image@,
            config_map_name: self.config_map_name@,
            reconcile_count: self.reconcile_count,
            last_reconcile_at: self.last_reconcile_at,
            created_at: self.created_at,
        }
    }
}

impl Default for TenantRecord {
    fn default() -> (r: Self)
        ensures
            r@ == TenantRecordView::blank(),
    {
        TenantRecord {
            tenant_id: String::new(),
            display_name: String::new(),
            namespace: String::new(),
            phase: TenantPhase::Provisioning,
            tier: String::new(),
            rps: 0,
            burst: 0,
            max_concurrent: 0,
            proxy_pod_name: String::new(),
            proxy_image: String::new(),
            config_map_name: String::new(),
            reconcile_count: 0,
            last_reconcile_at: None,
            created_at: None,
        }
    }
}

impl Clone for TenantRecord {
    fn clone(&self) -> (r: Self)
        ensures
            r@ == self@,
    {
        TenantRecord {
            tenant_id: self.tenant_id.clone(),
            display_name: self.display_name.clone(),
            namespace: self.namespace.clone(),
            phase: self.phase,
            tier: self.tier.clone(),
            rps: self.rps,
            burst: self.burst,
            max_concurrent: self.max_concurrent,
            proxy_pod_name: self.proxy_pod_name.clone(),
            proxy_image: self.proxy_image.clone(),
            config_map_name: self.config_map_name.clone(),
            reconcile_count: self.reconcile_count,
            last_reconcile_at: self.last_reconcile_at,
            created_at: self.created_at,
        }
    }
}

/// `x` added at the end of `s`; when `s` is full, its oldest element makes
/// room.
pub open spec fn ring_push<A>(s: Seq<A>, x: A, capacity: int) -> Seq<A> {
    if s.len() >= capacity {
        s.subrange(1, s.len() as int).push(x)
    } else {
        s.push(x)
    }
}

/// A log line: the time of day in brackets, then the message.
pub open spec fn stamped(at: Timestamp, message: Seq<char>) -> Seq<char> {
    "["@ + time_of_day(at.secs(), at.nanos()) + "] "@ + message
}

/// Puts the time of day before a log message.
pub fn stamp(at: Timestamp, message: &str) -> (r: String)
    ensures
        r@ == stamped(at, message@),
{
    "[".to_owned().concat(at.clock_text().as_str()).concat("] ").concat(message)
}

/// The sending half of a broadcast channel.
#[verifier::external_type_specification]
#[verifier::external_body]
#[verifier::reject_recursive_types(T)]
pub struct ExSender<T>(tokio::sync::broadcast::Sender<T>);

/// A subscription to a broadcast channel.
#[verifier::external_type_specification]
#[verifier::external_body]
#[verifier::reject_recursive_types(T)]
pub struct ExReceiver<T>(tokio::sync::broadcast::Receiver<T>);

/// The events that were handed to `send` on a bus, first to last.
pub uninterp spec fn sent_on(bus: tokio::sync::broadcast::Sender<Event>) -> Seq<EventView>;

/// How many events a bus keeps for a receiver that lags behind.
pub uninterp spec fn room_of(bus: tokio::sync::broadcast::Sender<Event>) -> nat;

/// Which channel a bus is the sending half of.
pub uninterp spec fn channel_of(bus: tokio::sync::broadcast::Sender<Event>) -> int;

/// Which channel a receiver has joined.
pub uninterp spec fn joined_by(receiver: tokio::sync::broadcast::Receiver<Event>) -> int;

/// How many of the events on its channel a receiver is past: those that were
/// handed to `send` before it joined, and those it has taken or lost since.
pub uninterp spec fn heard_by(receiver: tokio::sync::broadcast::Receiver<Event>) -> nat;

/// Calls `tokio::sync::broadcast::channel` and keeps the sending half.
/// Trusted: nothing was handed to `send` on the new channel, and it keeps
/// `capacity` events; one that is no power of two would be rounded up. The
/// call panics on a capacity of more than half of what `usize` can hold.
#[verifier::external_body]
fn open_bus(capacity: usize) -> (r: tokio::sync::broadcast::Sender<Event>)
    requires
        is_pow2(capacity as int),
        capacity <= usize::MAX / 2,
    ensures
        sent_on(r) == Seq::<EventView>::empty(),
        room_of(r) == capacity,
{
    let (bus, _) = tokio::sync::broadcast::channel(capacity);
    bus
}

/// Calls `tokio::sync::broadcast::Sender::send`. Trusted: the event is handed
/// to `send` behind those before it. With no receiver on the channel `send`
/// hands it back, which is no error here. The call does not panic.
#[verifier::external_body]
fn send_on(bus: &mut tokio::sync::broadcast::Sender<Event>, event: Event)
    ensures
        sent_on(*final(bus)) == sent_on(*old(bus)).push(event@),
        room_of(*final(bus)) == room_of(*old(bus)),
        channel_of(*final(bus)) == channel_of(*old(bus)),
    no_unwind
{
    let _ = bus.send(event);
}

/// Calls `tokio::sync::broadcast::Sender::subscribe`. Trusted: the receiver
/// joins the channel behind the events that were handed to `send` so far. The
/// call panics when there are as many receivers as a quarter of what `usize`
/// can count, which no memory holds.
#[verifier::external_body]
fn join_bus(bus: &tokio::sync::broadcast::Sender<Event>) -> (r: tokio::sync::broadcast::Receiver<Event>)
    ensures
        joined_by(r) == channel_of(*bus),
        heard_by(r) == sent_on(*bus).len(),
{
    bus.subscribe()
}

/// What a subscriber finds when it asks for an event.
#[derive(Debug)]
pub enum Received {
    /// The next event.
    Event(Event),
    /// Nothing new.
    Empty,
    /// So many events were dropped since it last asked.
    Lagged(u64),
    /// The sending half is gone.
    Closed,
}

pub enum ReceivedView {
    Event(EventView),
    Empty,
    Lagged(u64),
    Closed,
}

impl View for Received {
    type V = ReceivedView;

    open spec fn view(&self) -> ReceivedView {
        match self {
            Received::Event(event) => ReceivedView::Event(event@),
            Received::Empty => ReceivedView::Empty,
            Received::Lagged(n) => ReceivedView::Lagged(*n),
            Received::Closed => ReceivedView::Closed,
        }
    }
}

/// A subscriber that was past `heard` of the events found `found`, and is
/// past `after` of them now. It gets the next event, or finds that there is
/// none; one that is further behind than there is room first learns how many
/// it has lost, and goes on with the oldest that is kept.
pub open spec fn takes(
    events: Seq<EventView>,
    room: nat,
    heard: nat,
    found: ReceivedView,
    after: nat,
) -> bool {
    if heard >= events.len() {
        found == ReceivedView::Empty && after == heard
    } else if events.len() - heard <= room {
        found == ReceivedView::Event(events[heard as int]) && after == heard + 1
    } else {
        &&& found matches ReceivedView::Lagged(n) && n == events.len() - room - heard
        &&& after == events.len() - room
    }
}

/// Calls `tokio::sync::broadcast::Receiver::try_recv`. Trusted: while `bus` is
/// held no event is sent, so a receiver on the channel of `bus` finds what
/// `takes` says of the events on it. What a receiver on another channel finds
/// is left unsaid. A receiver stays on its channel.
#[verifier::external_body]
fn receive_from(
    receiver: &mut tokio::sync::broadcast::Receiver<Event>,
    bus: &tokio::sync::broadcast::Sender<Event>,
) -> (r: Received)
    ensures
        joined_by(*final(receiver)) == joined_by(*old(receiver)),
        joined_by(*old(receiver)) == channel_of(*bus) ==> takes(
            sent_on(*bus),
            room_of(*bus),
            heard_by(*old(receiver)),
            r@,
            heard_by(*final(receiver)),
        ),
{
    match receiver.try_recv() {
        Ok(event) => Received::Event(event),
        Err(tokio::sync::broadcast::error::TryRecvError::Empty) => Received::Empty,
        Err(tokio::sync::broadcast::error::TryRecvError::Lagged(n)) => Received::Lagged(n),
        Err(tokio::sync::broadcast::error::TryRecvError::Closed) => Received::Closed,
    }
}

/// What the store holds.
#[verifier::ext_equal]
pub struct StoreView {
    /// The tenants by identifier.
    pub tenants: Map<Seq<char>, TenantRecordView>,
    /// The recent log lines, oldest first.
    pub logs: Seq<Seq<char>>,
    /// The events published so far, first to last.
    pub events: Seq<EventView>,
    /// The channel they are published on.
    pub channel: int,
    /// How many events are kept for a subscriber that lags behind.
    pub room: nat,
}

impl StoreView {
    pub open spec fn empty(channel: int) -> StoreView {
        StoreView {
            tenants: Map::empty(),
            logs: Seq::empty(),
            events: Seq::empty(),
            channel,
            room: EVENT_BUS_CAPACITY as nat,
        }
    }

    /// The log holds no more than its limit, and every tenant stands under
    /// its own identifier.
    pub open spec fn wf(self) -> bool {
        &&& self.logs.len() <= MAX_LOGS
        &&& self.room == EVENT_BUS_CAPACITY
        &&& forall|id: Seq<char>| #[trigger]
            self.tenants.contains_key(id) ==> self.tenants[id].tenant_id == id
    }

    pub open spec fn with_tenant(self, record: TenantRecordView) -> StoreView {
        StoreView { tenants: self.tenants.insert(record.tenant_id, record), ..self }
    }

    pub open spec fn without_tenant(self, id: Seq<char>) -> StoreView {
        StoreView { tenants: self.tenants.remove(id), ..self }
    }

    pub open spec fn with_log(self, line: Seq<char>) -> StoreView {
        StoreView { logs: ring_push(self.logs, line, MAX_LOGS as int), ..self }
    }

    /// With a log line that carries the time.
    pub open spec fn noting(self, at: Timestamp, message: Seq<char>) -> StoreView {
        self.with_log(stamped(at, message))
    }

    pub open spec fn with_event(self, event: EventView) -> StoreView {
        StoreView { events: self.events.push(event), ..self }
    }

    /// With an event made of its parts.
    pub open spec fn announcing(
        self,
        kind: EventKind,
        tenant_id: Seq<char>,
        message: Seq<char>,
        at: Timestamp,
    ) -> StoreView {
        self.with_event(EventView { kind, tenant_id, message, timestamp: at })
    }
}

/// The views of a list of records.
pub open spec fn record_views(v: Seq<TenantRecord>) -> Seq<TenantRecordView> {
    v.map_values(|r: TenantRecord| r@)
}

/// Central in-memory state. It is well-formed at all times.
pub struct Store {
    tenants: KeyedList<String, TenantRecord>,
    logs: VecDeque<String>,
    bus: tokio::sync::broadcast::Sender<Event>,
}

impl View for Store {
    type V = StoreView;

    closed spec fn view(&self) -> StoreView {
        StoreView {
            tenants: self.tenants@.map_values(|r: TenantRecord| r@),
            logs: texts(self.logs@),
            events: sent_on(self.bus),
            channel: channel_of(self.bus),
            room: room_of(self.bus),
        }
    }
}

impl Store {
    #[verifier::type_invariant]
    spec fn sound(self) -> bool {
        self@.wf()
    }

    pub fn new() -> (r: Store)
        ensures
            r@.wf(),
            r@ == StoreView::empty(r@.channel),
    {
        proof {
            reveal_with_fuel(is_pow2, 9);
        }
        let tenants = KeyedList::new();
        let logs = VecDeque::with_capacity(MAX_LOGS);
        let bus = open_bus(EVENT_BUS_CAPACITY);
        assert(texts(logs@) =~= Seq::<Seq<char>>::empty());
        let r = Store { tenants, logs, bus };
        assert(r@ =~= StoreView::empty(r@.channel));
        r
    }

    /// Stores a record under its own identifier, replacing an earlier one.
    pub fn upsert_tenant(&mut self, record: TenantRecord)
        ensures
            final(self)@ == old(self)@.with_tenant(record@),
            old(self)@.wf(),
            final(self)@.wf(),
    {
        proof {
            use_type_invariant(&*self);
        }
        let mut tenants: KeyedList<String, TenantRecord> = KeyedList::new();
        core::mem::swap(&mut tenants, &mut self.tenants);
        tenants.insert(record.tenant_id.clone(), record);
        let ghost views = tenants@.map_values(|r: TenantRecord| r@);
        assert(views =~= old(self)@.with_tenant(record@).tenants);
        self.tenants = tenants;
        assert(self@ =~= old(self)@.with_tenant(record@));
    }

    /// A copy of a tenant's record. Changing it changes nothing here:
    /// `upsert_tenant` writes it back.
    pub fn get_tenant(&self, id: &str) -> (r: Option<TenantRecord>)
        ensures
            match r {
                Some(record) => self@.tenants.contains_key(id@) && record@ == self@.tenants[id@],
                None => !self@.tenants.contains_key(id@),
            },
            self@.wf(),
    {
        proof {
            use_type_invariant(self);
        }
        match self.tenants.get(&id.to_owned()) {
            Some(record) => Some(record.clone()),
            None => None,
        }
    }

    /// Forgets a tenant; forgetting an unknown one changes nothing.
    pub fn delete_tenant(&mut self, id: &str)
        ensures
            final(self)@ == old(self)@.without_tenant(id@),
            old(self)@.wf(),
            final(self)@.wf(),
    {
        proof {
            use_type_invariant(&*self);
        }
        let mut tenants: KeyedList<String, TenantRecord> = KeyedList::new();
        core::mem::swap(&mut tenants, &mut self.tenants);
        let _ = tenants.remove(&id.to_owned());
        let ghost views = tenants@.map_values(|r: TenantRecord| r@);
        assert(views =~= old(self)@.without_tenant(id@).tenants);
        self.tenants = tenants;
        assert(self@ =~= old(self)@.without_tenant(id@));
    }

    /// Copies of all records, each tenant once.
    pub fn list_tenants(&self) -> (r: Vec<TenantRecord>)
        ensures
            is_record_listing(record_views(r@), self@.tenants),
            self@.wf(),
    {
        proof {
            use_type_invariant(self);
        }
        let n: usize = self.tenants.len();
        let mut out: Vec<TenantRecord> = Vec::new();
        let mut i: usize = 0;
        let ghost pairs = self.tenants.pairs();
        while i < n
            invariant
                i <= n,
                pairs == self.tenants.pairs(),
                n == pairs.len(),
                out@.len() == i,
                forall|j: int| 0 <= j < i ==> (#[trigger] out@[j])@ == pairs[j].1@,
            decreases n - i,
        {
            let (_, record) = self.tenants.at(i);
            out.push(record.clone());
            i = i + 1;
        }
        proof {
            let views = record_views(out@);
            let keys = Seq::new(pairs.len(), |j: int| (pairs[j].0, views[j]));
            assert forall|k: Seq<char>| #[trigger] self@.tenants.contains_key(k) implies exists|j: int|
                0 <= j < keys.len() && (#[trigger] keys[j]).0 == k by {
                assert(self.tenants@.contains_key(k));
                let j = choose|j: int| 0 <= j < pairs.len() && (#[trigger] pairs[j]).0 == k;
                assert(keys[j].0 == k);
            }
            assert(is_listing(keys, self@.tenants));
            assert(keys.len() == views.len());
            assert(forall|j: int| 0 <= j < keys.len() ==> (#[trigger] keys[j]).1 == views[j]);
        }
        out
    }

    /// A subscription to the events published from now on. A subscriber that
    /// lags behind by more than the bus keeps loses the oldest of them.
    pub fn subscribe(&self) -> (r: tokio::sync::broadcast::Receiver<Event>)
        ensures
            joined_by(r) == self@.channel,
            heard_by(r) == self@.events.len(),
            self@.wf(),
    {
        proof {
            use_type_invariant(self);
        }
        join_bus(&self.bus)
    }

    /// The next event for a subscriber, if there is one.
    pub fn take_event(&self, receiver: &mut tokio::sync::broadcast::Receiver<Event>) -> (r: Received)
        ensures
            joined_by(*final(receiver)) == joined_by(*old(receiver)),
            joined_by(*old(receiver)) == self@.channel ==> takes(
                self@.events,
                self@.room,
                heard_by(*old(receiver)),
                r@,
                heard_by(*final(receiver)),
            ),
            self@.wf(),
    {
        proof {
            use_type_invariant(self);
        }
        receive_from(receiver, &self.bus)
    }

    /// Sends an event to every subscriber. Never waits for one.
    pub fn publish(&mut self, event: Event)
        ensures
            final(self)@ == old(self)@.with_event(event@),
            old(self)@.wf(),
            final(self)@.wf(),
    {
        proof {
            use_type_invariant(&*self);
        }
        send_on(&mut self.bus, event);
        assert(self@ =~= old(self)@.with_event(event@));
    }

    /// Adds a log line; beyond the limit the oldest line goes.
    pub fn append_log(&mut self, line: &str)
        ensures
            final(self)@ == old(self)@.with_log(line@),
            old(self)@.wf(),
            final(self)@.wf(),
    {
        proof {
            use_type_invariant(&*self);
        }
        let mut logs: VecDeque<String> = VecDeque::new();
        core::mem::swap(&mut logs, &mut self.logs);
        if logs.len() >= MAX_LOGS {
            let _ = logs.pop_front();
        }
        logs.push_back(line.to_owned());
        assert(texts(logs@) =~= old(self)@.with_log(line@).logs);
        self.logs = logs;
        assert(self@ =~= old(self)@.with_log(line@));
    }

    /// A copy of the log, oldest line first.
    pub fn logs(&self) -> (r: Vec<String>)
        ensures
            texts(r@) == self@.logs,
            self@.wf(),
    {
        proof {
            use_type_invariant(self);
        }
        let n: usize = self.logs.len();
        let mut out: Vec<String> = Vec::new();
        let mut i: usize = 0;
        while i < n
            invariant
                i <= n,
                n == self.logs@.len(),
                out@.len() == i,
                forall|j: int| 0 <= j < i ==> (#[trigger] out@[j])@ == self.logs@[j]@,
            decreases n - i,
        {
            out.push(self.logs[i].clone());
            i = i + 1;
        }
        assert(texts(out@) =~= self@.logs);
        out
    }

    /// Adds a log line that carries the time of day.
    pub fn note(&mut self, at: Timestamp, message: &str)
        ensures
            final(self)@ == old(self)@.noting(at, message@),
            old(self)@.wf(),
            final(self)@.wf(),
    {
        self.append_log(stamp(at, message).as_str());
    }

    /// Publishes an event made of its parts.
    pub fn announce(&mut self, kind: EventKind, tenant_id: &str, message: &str, at: Timestamp)
        ensures
            final(self)@ == old(self)@.announcing(kind, tenant_id@, message@, at),
            old(self)@.wf(),
            final(self)@.wf(),
    {
        self.publish(Event::at(kind, tenant_id, message, at));
    }
}

impl Default for Store {
    fn default() -> (r: Self)
        ensures
            r@.wf(),
            r@ == StoreView::empty(r@.channel),
    {
        Store::new()
    }
}

/// `records` holds the value of every key of `tenants`, each key once.
pub open spec fn is_record_listing(
    records: Seq<TenantRecordView>,
    tenants: Map<Seq<char>, TenantRecordView>,
) -> bool {
    exists|keys: Seq<(Seq<char>, TenantRecordView)>|
        #![trigger is_listing(keys, tenants)]
        {
            &&& is_listing(keys, tenants)
            &&& keys.len() == records.len()
            &&& forall|j: int| 0 <= j < keys.len() ==> (#[trigger] keys[j]).1 == records[j]
        }
}

// ─── Laws ─────────────────────────────────────────────────────────────────────

/// A new store is well-formed, and every operation keeps a store so.
pub proof fn law_store_stays_well_formed(
    st: StoreView,
    record: TenantRecordView,
    id: Seq<char>,
    line: Seq<char>,
    event: EventView,
)
    requires
        st.wf(),
    ensures
        StoreView::empty(st.channel).wf(),
        st.with_tenant(record).wf(),
        st.without_tenant(id).wf(),
        st.with_log(line).wf(),
        st.with_event(event).wf(),
{
}

/// Storing a record overwrites an earlier one of the same tenant: it is read
/// back as it was stored, the tenants do not multiply, and nobody else's
/// record changes.
pub proof fn law_upsert_overwrites(st: StoreView, first: TenantRecordView, second: TenantRecordView, other: Seq<char>)
    requires
        first.tenant_id == second.tenant_id,
        other != first.tenant_id,
    ensures
        st.with_tenant(first).tenants.contains_key(first.tenant_id),
        st.with_tenant(first).tenants[first.tenant_id] == first,
        st.with_tenant(first).with_tenant(second) == st.with_tenant(second),
        st.with_tenant(first).with_tenant(second).tenants.dom() == st.with_tenant(first).tenants.dom(),
        st.with_tenant(first).tenants.contains_key(other) == st.tenants.contains_key(other),
        st.tenants.contains_key(other) ==> st.with_tenant(first).tenants[other] == st.tenants[other],
{
    assert(st.with_tenant(first).with_tenant(second) =~= st.with_tenant(second));
    assert(st.with_tenant(first).with_tenant(second).tenants.dom() =~= st.with_tenant(first).tenants.dom());
}

/// Forgetting a tenant twice is forgetting it once, forgetting an unknown one
/// changes nothing, and nobody else is forgotten.
pub proof fn law_delete_idempotent(st: StoreView, id: Seq<char>, other: Seq<char>)
    requires
        other != id,
    ensures
        !st.without_tenant(id).tenants.contains_key(id),
        st.without_tenant(id).without_tenant(id) == st.without_tenant(id),
        !st.tenants.contains_key(id) ==> st.without_tenant(id) == st,
        st.without_tenant(id).tenants.contains_key(other) == st.tenants.contains_key(other),
        st.tenants.contains_key(other) ==> st.without_tenant(id).tenants[other] == st.tenants[other],
{
    assert(st.without_tenant(id).without_tenant(id) =~= st.without_tenant(id));
    if !st.tenants.contains_key(id) {
        assert(st.without_tenant(id) =~= st);
    }
}

/// A listing is as long as there are tenants, and holds each tenant's record.
pub proof fn law_listing_holds_every_tenant(
    records: Seq<TenantRecordView>,
    tenants: Map<Seq<char>, TenantRecordView>,
    id: Seq<char>,
)
    requires
        is_record_listing(records, tenants),
    ensures
        tenants.dom().finite(),
        records.len() == tenants.dom().len(),
        tenants.contains_key(id) ==> records.contains(tenants[id]),
{
    let keys = choose|keys: Seq<(Seq<char>, TenantRecordView)>|
        #![trigger is_listing(keys, tenants)]
        {
            &&& is_listing(keys, tenants)
            &&& keys.len() == records.len()
            &&& forall|j: int| 0 <= j < keys.len() ==> (#[trigger] keys[j]).1 == records[j]
        };
    lemma_listing_len(keys, tenants);
    if tenants.contains_key(id) {
        let j = choose|j: int| 0 <= j < keys.len() && (#[trigger] keys[j]).0 == id;
        assert(records[j] == keys[j].1);
    }
}

/// The store after a number of log lines.
pub open spec fn with_logs(st: StoreView, lines: Seq<Seq<char>>) -> StoreView
    decreases lines.len(),
{
    if lines.len() == 0 {
        st
    } else {
        with_logs(st, lines.drop_last()).with_log(lines.last())
    }
}

/// The last `MAX_LOGS` of a number of lines, or all of them if there are no
/// more.
pub open spec fn latest(lines: Seq<Seq<char>>) -> Seq<Seq<char>> {
    if lines.len() <= MAX_LOGS {
        lines
    } else {
        lines.subrange(lines.len() - MAX_LOGS, lines.len() as int)
    }
}

/// However many lines are logged, the log holds the latest of them, oldest
/// first.
pub proof fn law_log_keeps_the_latest(channel: int, lines: Seq<Seq<char>>)
    ensures
        with_logs(StoreView::empty(channel), lines).logs == latest(lines),
    decreases lines.len(),
{
    if lines.len() > 0 {
        law_log_keeps_the_latest(channel, lines.drop_last());
        assert(with_logs(StoreView::empty(channel), lines).logs =~= latest(lines));
    } else {
        assert(StoreView::empty(channel).logs =~= lines);
    }
}

/// The store after a number of events.
pub open spec fn with_events(st: StoreView, events: Seq<EventView>) -> StoreView
    decreases events.len(),
{
    if events.len() == 0 {
        st
    } else {
        with_events(st, events.drop_last()).with_event(events.last())
    }
}

/// The events that wait for a subscriber.
pub open spec fn pending_for(st: StoreView, receiver: tokio::sync::broadcast::Receiver<Event>) -> Seq<EventView> {
    st.events.skip(heard_by(receiver) as int)
}

/// A receiver has subscribed to this store.
pub open spec fn subscribed(st: StoreView, receiver: tokio::sync::broadcast::Receiver<Event>) -> bool {
    &&& joined_by(receiver) == st.channel
    &&& heard_by(receiver) <= st.events.len()
}

/// For a subscriber that asks until it finds nothing, everything that waits
/// for it comes, each event once and in the order of publishing.
pub open spec fn gets_all_pending(st: StoreView, receiver: tokio::sync::broadcast::Receiver<Event>) -> bool {
    let heard = heard_by(receiver);
    let waiting = pending_for(st, receiver);
    &&& forall|i: nat| #![trigger waiting[i as int]]
        i < waiting.len() ==> takes(
            st.events,
            st.room,
            heard + i,
            ReceivedView::Event(waiting[i as int]),
            heard + i + 1,
        )
    &&& takes(st.events, st.room, heard + waiting.len(), ReceivedView::Empty, heard + waiting.len())
}

/// A published event reaches every subscriber: it waits behind what waited for
/// the subscriber before, and where there is room for that, the subscriber gets
/// all of it, this event last and once. Publishing changes neither the tenants
/// nor the log nor who has subscribed.
pub proof fn law_publish_reaches_every_subscriber(st: StoreView, event: EventView)
    ensures
        ({
            let after = st.with_event(event);
            &&& after.tenants == st.tenants
            &&& after.logs == st.logs
            &&& forall|receiver: tokio::sync::broadcast::Receiver<Event>| #[trigger]
                subscribed(st, receiver) ==> {
                    &&& subscribed(after, receiver)
                    &&& pending_for(after, receiver) == pending_for(st, receiver).push(event)
                    &&& pending_for(st, receiver).len() < st.room ==> gets_all_pending(after, receiver)
                }
        }),
{
    let after = st.with_event(event);
    assert forall|receiver: tokio::sync::broadcast::Receiver<Event>| #[trigger]
        subscribed(st, receiver) implies subscribed(after, receiver) && pending_for(after, receiver) == pending_for(
        st,
        receiver,
    ).push(event) && (pending_for(st, receiver).len() < st.room ==> gets_all_pending(after, receiver)) by {
        assert(pending_for(after, receiver) =~= pending_for(st, receiver).push(event));
    }
}

/// Nothing waits for a subscriber that has just joined; what is published
/// afterwards waits for it, in the order it was published, however much it is.
/// Publishing touches neither the tenants nor the log.
pub proof fn law_subscribers_get_what_follows(
    st: StoreView,
    receiver: tokio::sync::broadcast::Receiver<Event>,
    events: Seq<EventView>,
)
    requires
        joined_by(receiver) == st.channel,
        heard_by(receiver) == st.events.len(),
    ensures
        pending_for(with_events(st, events), receiver) == events,
        events.len() <= st.room ==> gets_all_pending(with_events(st, events), receiver),
        with_events(st, events).tenants == st.tenants,
        with_events(st, events).logs == st.logs,
{
    lemma_events_follow(st, events);
    assert(pending_for(with_events(st, events), receiver) =~= events);
}

proof fn lemma_events_follow(st: StoreView, events: Seq<EventView>)
    ensures
        with_events(st, events) == (StoreView { events: st.events + events, ..st }),
    decreases events.len(),
{
    if events.len() > 0 {
        lemma_events_follow(st, events.drop_last());
    }
    assert(with_events(st, events).events =~= st.events + events);
}

/// A kind of event has its own name on the wire, and so different kinds have
/// different names.
pub proof fn law_event_kinds_have_their_names(kind: EventKind, other: EventKind)
    ensures
        kind == EventKind::TenantCreated ==> kind.name() == "TENANT_CREATED"@,
        kind == EventKind::TenantUpdated ==> kind.name() == "TENANT_UPDATED"@,
        kind == EventKind::TenantDeleted ==> kind.name() == "TENANT_DELETED"@,
        kind == EventKind::NamespaceReady ==> kind.name() == "NAMESPACE_READY"@,
        kind == EventKind::ProxyUp ==> kind.name() == "PROXY_UP"@,
        kind == EventKind::ProxyDown ==> kind.name() == "PROXY_DOWN"@,
        kind == EventKind::ProxyRestored ==> kind.name() == "PROXY_RESTORED"@,
        kind == EventKind::ConfigReloaded ==> kind.name() == "CONFIG_RELOADED"@,
        kind == EventKind::ReconcileStart ==> kind.name() == "RECONCILE_START"@,
        kind == EventKind::ReconcileOk ==> kind.name() == "RECONCILE_OK"@,
        kind == EventKind::ReconcileError ==> kind.name() == "RECONCILE_ERROR"@,
        kind == EventKind::DriftDetected ==> kind.name() == "DRIFT_DETECTED"@,
        kind == EventKind::ChaosInjected ==> kind.name() == "CHAOS_INJECTED"@,
        kind.name() == other.name() ==> kind == other,
{
    reveal_strlit("TENANT_CREATED");
    reveal_strlit("TENANT_UPDATED");
    reveal_strlit("TENANT_DELETED");
    reveal_strlit("NAMESPACE_READY");
    reveal_strlit("PROXY_UP");
    reveal_strlit("PROXY_DOWN");
    reveal_strlit("PROXY_RESTORED");
    reveal_strlit("CONFIG_RELOADED");
    reveal_strlit("RECONCILE_START");
    reveal_strlit("RECONCILE_OK");
    reveal_strlit("RECONCILE_ERROR");
    reveal_strlit("DRIFT_DETECTED");
    reveal_strlit("CHAOS_INJECTED");
    let (a, b) = (kind.name(), other.name());
    assert(a == b ==> a.len() == b.len() && a[0] == b[0] && a[7] == b[7] && a[a.len() - 1] == b[b.len() - 1]);
}

/// A tenant's phase prints its own name, and so different phases print
/// differently.
pub proof fn law_tenant_phases_print_their_names(phase: TenantPhase, other: TenantPhase)
    ensures
        phase == TenantPhase::Provisioning ==> phase.name() == "Provisioning"@,
        phase == TenantPhase::Ready ==> phase.name() == "Ready"@,
        phase == TenantPhase::Degraded ==> phase.name() == "Degraded"@,
        phase == TenantPhase::Terminating ==> phase.name() == "Terminating"@,
        phase.name() == other.name() ==> phase == other,
{
    reveal_strlit("Provisioning");
    reveal_strlit("Ready");
    reveal_strlit("Degraded");
    reveal_strlit("Terminating");
    assert("Provisioning"@.len() == 12 && "Ready"@.len() == 5 && "Degraded"@.len() == 8 && "Terminating"@.len() == 11);
}

/// What a contract says of an event and of a tenant's record is what their own
/// fields hold.
pub proof fn law_events_and_records_are_read_field_by_field(event: Event, record: TenantRecord)
    ensures
        event@.kind == event.kind,
        event@.tenant_id == event.tenant_id@,
        event@.message == event.message@,
        event@.timestamp == event.timestamp,
        record@.tenant_id == record.tenant_id@,
        record@.display_name == record.display_name@,
        record@.namespace == record.namespace@,
        record@.phase == record.phase,
        record@.tier == record.tier@,
        record@.rps == record.rps,
        record@.burst == record.burst,
        record@.max_concurrent == record.max_concurrent,
        record@.proxy_pod_name == record.proxy_pod_name@,
        record@.proxy_image == record.proxy_image@,
        record@.config_map_name == record.config_map_name@,
        record@.reconcile_count == record.reconcile_count,
        record@.last_reconcile_at == record.last_reconcile_at,
        record@.created_at == record.created_at,
{
}

/// A blank record knows nothing of its tenant, which is being provisioned.
pub proof fn law_blank_record_knows_nothing()
    ensures
        ({
            let blank = TenantRecordView::blank();
            &&& blank.phase == TenantPhase::Provisioning
            &&& blank.tenant_id.len() == 0 && blank.display_name.len() == 0 && blank.namespace.len() == 0
            &&& blank.tier.len() == 0 && blank.proxy_pod_name.len() == 0 && blank.proxy_image.len() == 0
            &&& blank.config_map_name.len() == 0
            &&& blank.rps == 0 && blank.burst == 0 && blank.max_concurrent == 0 && blank.reconcile_count == 0
            &&& blank.last_reconcile_at is None && blank.created_at is None
        }),
{
}

/// Each operation on the store changes its own part, in its own way, and
/// nothing else: a record is put under its own identifier or taken away, a line
/// goes to the end of the log with at most the oldest one dropped, and an event
/// goes behind those before it.
pub proof fn law_operations_change_their_own_part(
    st: StoreView,
    record: TenantRecordView,
    id: Seq<char>,
    line: Seq<char>,
    event: EventView,
)
    requires
        st.wf(),
    ensures
        ({
            let put = st.with_tenant(record);
            &&& put.tenants.contains_key(record.tenant_id) && put.tenants[record.tenant_id] == record
            &&& id != record.tenant_id ==> put.tenants.contains_key(id) == st.tenants.contains_key(id)
            &&& id != record.tenant_id && st.tenants.contains_key(id) ==> put.tenants[id] == st.tenants[id]
            &&& put.logs == st.logs && put.events == st.events && put.channel == st.channel && put.room == st.room
        }),
        ({
            let gone = st.without_tenant(id);
            &&& !gone.tenants.contains_key(id)
            &&& record.tenant_id != id ==> gone.tenants.contains_key(record.tenant_id) == st.tenants.contains_key(
                record.tenant_id,
            )
            &&& record.tenant_id != id && st.tenants.contains_key(record.tenant_id)
                ==> gone.tenants[record.tenant_id] == st.tenants[record.tenant_id]
            &&& gone.logs == st.logs && gone.events == st.events && gone.channel == st.channel && gone.room == st.room
        }),
        ({
            let logged = st.with_log(line);
            let kept = logged.logs.drop_last();
            &&& logged.logs.len() > 0 && logged.logs.last() == line
            &&& st.logs.len() < 200 ==> kept == st.logs
            &&& st.logs.len() >= 200 ==> kept == st.logs.drop_first()
            &&& logged.tenants == st.tenants && logged.events == st.events
            &&& logged.channel == st.channel && logged.room == st.room
        }),
        ({
            let told = st.with_event(event);
            &&& told.events.len() == st.events.len() + 1
            &&& told.events.last() == event
            &&& told.events.drop_last() == st.events
            &&& told.tenants == st.tenants && told.logs == st.logs
            &&& told.channel == st.channel && told.room == st.room
        }),
{
    let logged = st.with_log(line);
    if st.logs.len() < 200 {
        assert(logged.logs.drop_last() =~= st.logs);
    } else {
        assert(logged.logs.drop_last() =~= st.logs.drop_first());
    }
    assert(st.with_event(event).events.drop_last() =~= st.events);
}

/// A note is logged as its message behind the time of day in brackets, and an
/// announcement is an event of the given kind, tenant, message and moment.
pub proof fn law_notes_and_announcements_say_what_they_are_given(
    st: StoreView,
    at: Timestamp,
    message: Seq<char>,
    kind: EventKind,
    tenant_id: Seq<char>,
)
    ensures
        ({
            let line = st.noting(at, message).logs.last();
            let n = time_of_day(at.secs(), at.nanos()).len() as int;
            &&& line.len() == n + message.len() + 3
            &&& line[0] == '['
            &&& line.subrange(1, n + 1) == time_of_day(at.secs(), at.nanos())
            &&& line[n + 1] == ']' && line[n + 2] == ' '
            &&& line.skip(n + 3) == message
        }),
        ({
            let event = st.announcing(kind, tenant_id, message, at).events.last();
            &&& event.kind == kind
            &&& event.tenant_id == tenant_id
            &&& event.message == message
            &&& event.timestamp == at
        }),
        st.noting(at, message).tenants == st.tenants,
        st.noting(at, message).events == st.events,
        st.announcing(kind, tenant_id, message, at).tenants == st.tenants,
        st.announcing(kind, tenant_id, message, at).logs == st.logs,
{
    reveal_strlit("[");
    reveal_strlit("] ");
    let line = stamped(at, message);
    let n = time_of_day(at.secs(), at.nanos()).len() as int;
    assert(line.subrange(1, n + 1) =~= time_of_day(at.secs(), at.nanos()));
    assert(line.skip(n + 3) =~= message);
    assert(st.noting(at, message).logs.last() == line);
}

/// `after` is `before` with one line more in its log and one event more in its
/// stream, and with nothing else changed.
pub open spec fn says_more(before: StoreView, after: StoreView, line: Seq<char>, event: EventView) -> bool {
    &&& after.logs.len() > 0 && after.logs.last() == line
    &&& before.logs.len() < 200 ==> after.logs.drop_last() == before.logs
    &&& before.logs.len() >= 200 ==> after.logs.drop_last() == before.logs.drop_first()
    &&& after.events == before.events.push(event)
    &&& after.tenants == before.tenants
    &&& after.channel == before.channel
    &&& after.room == before.room
}

/// A note with an announcement behind it says one line and one event more.
pub proof fn lemma_note_and_announcement(
    st: StoreView,
    noted: Timestamp,
    line: Seq<char>,
    kind: EventKind,
    tenant_id: Seq<char>,
    message: Seq<char>,
    announced: Timestamp,
)
    ensures
        says_more(
            st,
            st.noting(noted, line).announcing(kind, tenant_id, message, announced),
            stamped(noted, line),
            EventView { kind, tenant_id, message, timestamp: announced },
        ),
{
    let after = st.noting(noted, line);
    if st.logs.len() < 200 {
        assert(after.logs.drop_last() =~= st.logs);
    } else {
        assert(after.logs.drop_last() =~= st.logs.drop_first());
    }
}

/// A new store knows no tenant, has logged and published nothing, and keeps up
/// to 256 events for a subscriber that lags behind; its log holds up to 200
/// lines.
pub proof fn law_new_store_is_empty(channel: int, st: StoreView)
    ensures
        StoreView::empty(channel).tenants.dom().is_empty(),
        StoreView::empty(channel).logs.len() == 0,
        StoreView::empty(channel).events.len() == 0,
        StoreView::empty(channel).channel == channel,
        StoreView::empty(channel).room == 256,
        st.wf() ==> st.logs.len() <= 200 && st.room == 256,
{
}

/// A subscriber takes what was published in order, one event at a time, finds
/// nothing once it is past the last, and learns how many it has lost when more
/// wait for it than there is room for.
pub proof fn law_subscriber_takes_events_in_order(
    events: Seq<EventView>,
    room: nat,
    heard: nat,
    found: ReceivedView,
    after: nat,
)
    requires
        takes(events, room, heard, found, after),
        heard <= events.len(),
    ensures
        heard == events.len() ==> found == ReceivedView::Empty && after == heard,
        heard < events.len() <= heard + room ==> found == ReceivedView::Event(events[heard as int]) && after
            == heard + 1,
        events.len() > heard + room ==> {
            &&& found is Lagged
            &&& found->Lagged_0 == after - heard
            &&& events.len() - after == room
        },
        after <= events.len(),
{
}

/// Records are read one by one, in order.
pub proof fn law_records_are_read_in_order(v: Seq<TenantRecord>, i: int)
    ensures
        record_views(v).len() == v.len(),
        0 <= i < v.len() ==> record_views(v)[i] == v[i]@,
{
}

} // verus!
