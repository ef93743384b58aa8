use vanguard::chaos::{steps, Engine, HealSequence, Reaction, Signal, Wake};
use vanguard::clock::Timestamp;
use vanguard::reconcile::home;
use vanguard::store::{Event, EventKind, Store, TenantPhase, TenantRecord};

fn seed_degraded(store: &mut Store, tenant_id: &str) {
    store.upsert_tenant(TenantRecord {
        tenant_id: tenant_id.to_string(),
        phase: TenantPhase::Degraded,
        reconcile_count: 3,
        ..Default::default()
    });
}

/// Tells the whole sequence, each wait ended the same way.
fn heal(store: &mut Store, tenant_id: &str, wake: Wake) -> Vec<u64> {
    let mut delays = Vec::new();
    let mut left = Some(HealSequence::start(tenant_id));
    while let Some(sequence) = left {
        delays.push(sequence.delay());
        left = sequence.wake(store, wake, Timestamp::now());
    }
    delays
}

#[test]
fn heal_sequence_emits_full_narration_and_restores_phase() {
    let mut store = Store::new();
    seed_degraded(&mut store, "acme");
    let mut events = store.subscribe();

    let delays = heal(&mut store, "acme", Wake::Elapsed);
    assert_eq!(delays, vec![150, 300, 600, 900, 1100]);

    let want = [
        EventKind::DriftDetected,
        EventKind::ReconcileStart,
        EventKind::ProxyRestored,
        EventKind::ConfigReloaded,
        EventKind::ReconcileOk,
    ];
    for kind in want {
        let ev = events.try_recv().unwrap();
        assert_eq!(ev.kind, kind);
        assert_eq!(ev.tenant_id, "acme");
    }

    let rec = store.get_tenant("acme").unwrap();
    assert_eq!(rec.phase, TenantPhase::Ready);
    assert_eq!(rec.reconcile_count, 4);
}

#[test]
fn heal_sequence_stops_on_cancellation() {
    let mut store = Store::new();
    seed_degraded(&mut store, "acme");

    // Already "cancelled" before the sequence starts.
    heal(&mut store, "acme", Wake::CancelFlag(true));

    // No step should have run — phase must remain Degraded.
    assert_eq!(
        store.get_tenant("acme").unwrap().phase,
        TenantPhase::Degraded
    );
    assert!(store.logs().is_empty());
}

#[test]
fn a_lowered_cancel_flag_does_not_cancel() {
    let mut store = Store::new();
    seed_degraded(&mut store, "acme");
    heal(&mut store, "acme", Wake::CancelFlag(false));
    assert_eq!(store.get_tenant("acme").unwrap().phase, TenantPhase::Ready);
    assert_eq!(store.logs().len(), 5);
}

#[test]
fn healing_an_unknown_tenant_invents_no_record() {
    let mut store = Store::new();
    heal(&mut store, "ghost", Wake::Elapsed);
    assert!(store.get_tenant("ghost").is_none());
    assert_eq!(store.logs().len(), 5);
}

#[test]
fn engine_run_only_triggers_on_chaos_injected_events() {
    let mut store = Store::new();
    seed_degraded(&mut store, "acme");
    let mut events = store.subscribe();
    let engine = Engine::new();

    store.publish(Event::new(EventKind::ReconcileStart, "acme", "unrelated"));
    let reaction = engine.react(&Signal::Event(events.try_recv().unwrap()));
    assert!(matches!(reaction, Reaction::Ignore));
    assert_eq!(
        store.get_tenant("acme").unwrap().phase,
        TenantPhase::Degraded,
        "unrelated event must not trigger heal"
    );

    store.publish(Event::new(EventKind::ChaosInjected, "acme", "boom"));
    match engine.react(&Signal::Event(events.try_recv().unwrap())) {
        Reaction::Heal(id) => {
            heal(&mut store, &id, Wake::Elapsed);
        }
        _ => panic!("chaos must be healed"),
    }
    assert_eq!(store.get_tenant("acme").unwrap().phase, TenantPhase::Ready);

    assert!(matches!(engine.react(&Signal::Shutdown(true)), Reaction::Stop));
}

#[test]
fn engine_survives_lag_and_stops_with_the_bus() {
    let engine = Engine::new();
    assert!(matches!(engine.react(&Signal::Lagged), Reaction::Ignore));
    assert!(matches!(engine.react(&Signal::Shutdown(false)), Reaction::Ignore));
    assert!(matches!(engine.react(&Signal::Closed), Reaction::Stop));
}

#[test]
fn steps_tell_the_recovery() {
    let all = steps("acme");
    assert_eq!(all.len(), 5);
    assert_eq!(all[0].1, "  ⚠  [acme] drift detected — proxy deployment missing");
    assert_eq!(all[4].1, "  ✓  [acme] tenant pipeline back to READY ⚡ self-heal complete");
    assert_eq!(all[2].2, EventKind::ProxyRestored);
}

#[test]
fn a_healed_record_leads_to_the_same_namespace() {
    let mut store = Store::new();
    seed_degraded(&mut store, "acme");
    let before = home(&store.get_tenant("acme").unwrap());
    heal(&mut store, "acme", Wake::Elapsed);
    let rec = store.get_tenant("acme").unwrap();
    assert_eq!(rec.phase, TenantPhase::Ready);
    assert_eq!(home(&rec), before);
    assert_eq!(before, "tenant-acme");
}

#[test]
fn the_engine_heals_until_it_is_stopped() {
    let engine = Engine::new();
    let event = |kind: EventKind, id: &str| Signal::Event(Event::new(kind, id, ""));
    let signals = [
        event(EventKind::ProxyDown, "a"),
        event(EventKind::ChaosInjected, "b"),
        Signal::Lagged,
        Signal::Shutdown(false),
        event(EventKind::ChaosInjected, "c"),
        event(EventKind::ChaosInjected, "b"),
        Signal::Shutdown(true),
        event(EventKind::ChaosInjected, "d"),
    ];
    let mut healed: Vec<String> = Vec::new();
    let mut seen = 0;
    for signal in &signals {
        seen += 1;
        match engine.react(signal) {
            Reaction::Ignore => {}
            Reaction::Heal(id) => healed.push(id),
            Reaction::Stop => break,
        }
    }
    assert_eq!(seen, 7);
    assert_eq!(healed, vec!["b".to_string(), "c".to_string(), "b".to_string()]);
}
