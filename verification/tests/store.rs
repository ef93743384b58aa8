use std::sync::{Arc, Mutex};
use tokio::sync::broadcast::error::TryRecvError;
use vanguard::clock::Timestamp;
use vanguard::store::{
    stamp, Event, EventKind, Received, Store, TenantPhase, TenantRecord, EVENT_BUS_CAPACITY, MAX_LOGS,
};

fn at(secs: i64, nanos: u32) -> Timestamp {
    Timestamp::new(secs, nanos).unwrap()
}

#[test]
fn upsert_and_get_tenant() {
    let mut store = Store::new();
    assert!(store.get_tenant("acme").is_none());

    store.upsert_tenant(TenantRecord {
        tenant_id: "acme".into(),
        phase: TenantPhase::Provisioning,
        ..Default::default()
    });
    let rec = store.get_tenant("acme").unwrap();
    assert_eq!(rec.phase, TenantPhase::Provisioning);

    // Re-upsert must overwrite, not duplicate.
    store.upsert_tenant(TenantRecord {
        tenant_id: "acme".into(),
        phase: TenantPhase::Ready,
        ..Default::default()
    });
    assert_eq!(store.get_tenant("acme").unwrap().phase, TenantPhase::Ready);
    assert_eq!(store.list_tenants().len(), 1);
}

#[test]
fn delete_tenant_is_idempotent() {
    let mut store = Store::new();
    store.upsert_tenant(TenantRecord {
        tenant_id: "acme".into(),
        ..Default::default()
    });
    store.delete_tenant("acme");
    assert!(store.get_tenant("acme").is_none());
    store.delete_tenant("does-not-exist"); // must not panic
}

#[test]
fn get_tenant_returns_independent_copy() {
    let mut store = Store::new();
    store.upsert_tenant(TenantRecord {
        tenant_id: "acme".into(),
        phase: TenantPhase::Degraded,
        ..Default::default()
    });

    let mut rec = store.get_tenant("acme").unwrap();
    rec.phase = TenantPhase::Ready; // mutate the caller's copy only
    assert_eq!(rec.phase, TenantPhase::Ready);

    let fresh = store.get_tenant("acme").unwrap();
    assert_eq!(
        fresh.phase,
        TenantPhase::Degraded,
        "mutating a get_tenant() result must not leak into the store"
    );
}

#[test]
fn publish_subscribe() {
    let mut store = Store::new();
    let mut rx = store.subscribe();
    store.publish(Event::new(EventKind::TenantCreated, "acme", "created"));

    let ev = rx.try_recv().expect("recv error");
    assert_eq!(ev.kind, EventKind::TenantCreated);
    assert_eq!(ev.tenant_id, "acme");
    assert_eq!(ev.message, "created");
}

#[test]
fn publish_fans_out_to_multiple_subscribers() {
    let mut store = Store::new();
    let mut a = store.subscribe();
    let mut b = store.subscribe();
    store.publish(Event::new(EventKind::ProxyUp, "acme", "up"));

    for rx in [&mut a, &mut b] {
        let ev = rx.try_recv().expect("recv error");
        assert_eq!(ev.kind, EventKind::ProxyUp);
    }
}

#[test]
fn publish_does_not_block_on_undrained_subscriber() {
    let mut store = Store::new();
    let _slow = store.subscribe(); // never drained

    // Publish far more than the channel capacity; must never block.
    for i in 0..(EVENT_BUS_CAPACITY * 4) {
        store.publish(Event::new(EventKind::ReconcileOk, &format!("t{i}"), "ok"));
    }
}

#[test]
fn subscribers_get_only_what_is_published_later() {
    let mut store = Store::new();
    store.publish(Event::new(EventKind::TenantCreated, "early", ""));
    let mut rx = store.subscribe();
    assert_eq!(rx.try_recv().unwrap_err(), TryRecvError::Empty);
    store.publish(Event::at(EventKind::ProxyDown, "a", "one", at(1, 2)));
    store.publish(Event::at(EventKind::ProxyRestored, "b", "two", at(3, 4)));
    let first = rx.try_recv().unwrap();
    assert_eq!((first.kind, first.tenant_id.as_str(), first.message.as_str()), (EventKind::ProxyDown, "a", "one"));
    assert_eq!((first.timestamp.seconds(), first.timestamp.subsec_nanos()), (1, 2));
    assert_eq!(rx.try_recv().unwrap().kind, EventKind::ProxyRestored);
    assert_eq!(rx.try_recv().unwrap_err(), TryRecvError::Empty);
}

#[test]
fn lagging_subscriber_loses_the_oldest_events() {
    let mut store = Store::new();
    let mut rx = store.subscribe();
    for i in 0..(EVENT_BUS_CAPACITY + 3) {
        store.publish(Event::new(EventKind::ReconcileOk, &format!("t{i}"), "ok"));
    }
    assert_eq!(rx.try_recv().unwrap_err(), TryRecvError::Lagged(3));
    assert_eq!(rx.try_recv().unwrap().tenant_id, "t3");
}

#[test]
fn log_ring_buffer_caps_and_evicts_oldest() {
    let mut store = Store::new();
    for i in 0..(MAX_LOGS + 50) {
        store.append_log(&format!("line-{i}"));
    }
    let logs = store.logs();
    assert_eq!(logs.len(), MAX_LOGS);
    assert_eq!(logs.last().unwrap(), &format!("line-{}", MAX_LOGS + 49));
    assert_eq!(logs.first().unwrap(), &"line-50".to_string());
}

#[test]
fn logs_returns_independent_copy() {
    let mut store = Store::new();
    store.append_log("one");
    let mut logs = store.logs();
    logs[0] = "mutated".into();
    assert_eq!(logs[0], "mutated");
    assert_eq!(store.logs()[0], "one");
}

#[test]
fn concurrent_access_is_race_free() {
    let store = Arc::new(Mutex::new(Store::new()));
    let runtime = tokio::runtime::Builder::new_multi_thread().worker_threads(8).build().unwrap();
    let mut handles = Vec::new();

    for w in 0..8 {
        let store = store.clone();
        handles.push(runtime.spawn_blocking(move || {
            let tenant_id = format!("tenant-{w}");
            for i in 0..200 {
                store.lock().unwrap().upsert_tenant(TenantRecord {
                    tenant_id: tenant_id.clone(),
                    reconcile_count: i,
                    ..Default::default()
                });
                store.lock().unwrap().append_log(&format!("[{tenant_id}] reconcile {i}"));
                store.lock().unwrap().publish(Event::new(EventKind::ReconcileOk, &tenant_id, "ok"));
                let _ = store.lock().unwrap().list_tenants();
                let _ = store.lock().unwrap().logs();
            }
        }));
    }

    for h in handles {
        runtime.block_on(h).unwrap();
    }
    assert_eq!(store.lock().unwrap().list_tenants().len(), 8);
}

#[test]
fn log_lines_carry_the_time_of_day() {
    let mut store = Store::new();
    store.note(at(3661, 5_000_000), "hello");
    assert_eq!(store.logs(), vec!["[01:01:01.005] hello".to_string()]);
    assert_eq!(stamp(at(86399, 999_999_999), "x"), "[23:59:59.999] x");
}

#[test]
fn names_of_kinds_and_phases() {
    assert_eq!(EventKind::TenantUpdated.as_str(), "TENANT_UPDATED");
    assert_eq!(EventKind::ChaosInjected.as_str(), "CHAOS_INJECTED");
    assert_eq!(EventKind::ReconcileError.as_str(), "RECONCILE_ERROR");
    assert_eq!(TenantPhase::default().as_str(), "Provisioning");
    assert_eq!(TenantPhase::Terminating.as_str(), "Terminating");
}

#[test]
fn a_new_event_is_of_this_moment() {
    let before = Timestamp::now();
    let ev = Event::new(EventKind::ProxyUp, "acme", "up");
    let after = Timestamp::now();
    assert!(before.seconds() <= ev.timestamp.seconds());
    assert!(ev.timestamp.seconds() <= after.seconds());
    assert!(before.seconds() > 1_700_000_000);
}

#[test]
fn every_subscriber_takes_each_event_once() {
    let mut store = Store::new();
    let mut a = store.subscribe();
    store.publish(Event::at(EventKind::ProxyDown, "x", "one", at(1, 2)));
    let mut b = store.subscribe();
    store.publish(Event::at(EventKind::ProxyUp, "y", "two", at(3, 4)));
    let mut take = |rx: &mut tokio::sync::broadcast::Receiver<Event>| match store.take_event(rx) {
        Received::Event(ev) => Some((ev.kind, ev.tenant_id, ev.message)),
        _ => None,
    };
    assert_eq!(take(&mut a), Some((EventKind::ProxyDown, "x".to_string(), "one".to_string())));
    assert_eq!(take(&mut a), Some((EventKind::ProxyUp, "y".to_string(), "two".to_string())));
    assert_eq!(take(&mut a), None);
    assert_eq!(take(&mut b), Some((EventKind::ProxyUp, "y".to_string(), "two".to_string())));
    assert_eq!(take(&mut b), None);
    assert!(store.list_tenants().is_empty());
    assert!(store.logs().is_empty());
}

#[test]
fn a_full_bus_still_serves_every_event() {
    let mut store = Store::new();
    let mut rx = store.subscribe();
    for i in 0..EVENT_BUS_CAPACITY {
        store.publish(Event::new(EventKind::ReconcileOk, &format!("t{i}"), "ok"));
    }
    for i in 0..EVENT_BUS_CAPACITY {
        match store.take_event(&mut rx) {
            Received::Event(ev) => assert_eq!(ev.tenant_id, format!("t{i}")),
            other => panic!("event {i} is missing: {other:?}"),
        }
    }
    assert!(matches!(store.take_event(&mut rx), Received::Empty));
}

#[test]
fn a_subscriber_that_lags_learns_what_it_lost() {
    let mut store = Store::new();
    let mut rx = store.subscribe();
    for i in 0..(EVENT_BUS_CAPACITY * 4) {
        store.publish(Event::new(EventKind::ReconcileOk, &format!("t{i}"), "ok"));
    }
    assert!(matches!(store.take_event(&mut rx), Received::Lagged(768)));
    assert!(matches!(store.take_event(&mut rx), Received::Event(ev) if ev.tenant_id == "t768"));
}

#[test]
fn a_subscription_outlives_its_store() {
    let mut rx = Store::new().subscribe();
    assert!(matches!(Store::new().take_event(&mut rx), Received::Closed));
}
