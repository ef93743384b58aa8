use vanguard::store::{Store, TenantPhase, TenantRecord};
use vanguard::tui::{colorise, is_quit_key, truncate_display, App, Color};

#[test]
fn truncate_display_is_char_boundary_safe_on_emoji() {
    let line = "  ⟳  [acme] reconcile #1 start — provisioning namespace, configmap, and proxy deployment 💥⚠✓";
    // Would panic on a byte-index slice landing mid-codepoint; must not here.
    let out = truncate_display(line, 20);
    assert!(out.chars().count() <= 20);
    assert!(out.ends_with('…'));
}

#[test]
fn truncate_display_leaves_short_lines_untouched() {
    let line = "short line";
    assert_eq!(truncate_display(line, 50), line);
}

#[test]
fn colorise_maps_categories() {
    assert_eq!(colorise("  ✓ ready").fg, Some(Color::Green));
    assert_eq!(colorise("  ✗ DEGRADED").fg, Some(Color::Red));
    assert_eq!(colorise("  💥 chaos").fg, Some(Color::Magenta));
    assert_eq!(colorise("  ⚠ drift").fg, Some(Color::Yellow));
    assert_eq!(colorise("  ⟳ reconcile").fg, Some(Color::Cyan));
    assert_eq!(colorise("  plain info").fg, Some(Color::Gray));
}

#[test]
fn app_refresh_handles_empty_store_without_panicking() {
    let store = Store::new();
    let mut app = App::new("test");
    app.refresh(&store);
    assert_eq!(app.tenants.len(), 0);
}

fn app_with(records: Vec<TenantRecord>, logs: &[&str]) -> App {
    let mut store = Store::new();
    for r in records {
        store.upsert_tenant(r);
    }
    for l in logs {
        store.append_log(l);
    }
    let mut app = App::new("1.2.3");
    app.refresh(&store);
    app
}

fn acme() -> TenantRecord {
    TenantRecord {
        tenant_id: "acme".into(),
        namespace: "tenant-acme".into(),
        phase: TenantPhase::Degraded,
        tier: "pro".into(),
        rps: 200,
        proxy_pod_name: "proxy-acme".into(),
        reconcile_count: 3,
        ..Default::default()
    }
}

#[test]
fn truncation_edges() {
    assert_eq!(truncate_display("abc", 3), "abc");
    assert_eq!(truncate_display("abcd", 3), "ab…");
    assert_eq!(truncate_display("abcd", 1), "…");
    assert_eq!(truncate_display("abcd", 0), "…");
    assert_eq!(truncate_display("", 0), "");
    assert_eq!(truncate_display("⟳⟳⟳", 2), "⟳…");
}

#[test]
fn the_first_mark_decides_the_colour() {
    assert_eq!(colorise("✓ and 💥").fg, Some(Color::Green));
    assert_eq!(colorise("all DEGRADED 💥").fg, Some(Color::Red));
    assert!(colorise("💥").bold);
    assert!(!colorise("⚠").bold);
}

#[test]
fn header_pulses_and_counts() {
    let mut app = app_with(vec![acme()], &[]);
    assert_eq!(app.header(), "  ◇  VANGUARD FLIGHT DECK  •  Control Plane 1.2.3  •  1 tenants active");
    app.refresh(&Store::new());
    assert_eq!(app.header(), "  ◆  VANGUARD FLIGHT DECK  •  Control Plane 1.2.3  •  0 tenants active");
}

#[test]
fn tenant_rows_are_aligned() {
    let rows = app_with(vec![acme()], &[]).tenant_rows();
    assert_eq!(rows.len(), 1);
    assert_eq!(rows[0][0].text, format!("  {:<16}", "acme"));
    assert_eq!(rows[0][1].text, format!("{:<12}", "Degraded"));
    assert_eq!(rows[0][1].style.fg, Some(Color::Red));
    assert_eq!(rows[0][2].text, format!("tier={:<10} rps={:<6} reconciles={}", "pro", 200, 3));
    assert_eq!(rows[0][2].style.fg, None);
    let empty = app_with(vec![], &[]).tenant_rows();
    assert_eq!(empty[0][0].text, "  (no tenants yet — POST /api/v1/tenants)");
}

#[test]
fn namespace_and_chaos_rows() {
    let app = app_with(vec![acme()], &[]);
    assert_eq!(app.namespace_rows(), vec![format!("  ns/{:<20} proxy={}", "tenant-acme", "proxy-acme")]);
    assert_eq!(
        app.chaos_rows(),
        vec![
            "  curl -X POST /api/v1/tenants/<id>/chaos/kill-proxy".to_string(),
            "".to_string(),
            "  acme → Degraded".to_string(),
        ]
    );
    assert_eq!(
        app_with(vec![], &[]).namespace_rows(),
        vec!["  (namespaces appear once a tenant reconciles)".to_string()]
    );
}

#[test]
fn log_rows_show_the_latest_that_fit() {
    let app = app_with(vec![], &["one", "two ✓ long", "three"]);
    let rows = app.log_rows(9, 4);
    let shown: Vec<&str> = rows.iter().map(|s| s.text.as_str()).collect();
    assert_eq!(shown, vec!["two …", "three"]);
    assert_eq!(rows[0].style.fg, Some(Color::Green));
    assert!(app.log_rows(80, 2).is_empty());
    assert!(app.log_rows(80, 0).is_empty());
    assert_eq!(app.log_rows(0, 3)[0].text, "…");
    assert_eq!(app.log_rows(80, 50).len(), 3);
}

#[test]
fn quit_keys() {
    assert!(is_quit_key('q', false));
    assert!(is_quit_key('q', true));
    assert!(is_quit_key('c', true));
    assert!(!is_quit_key('c', false));
    assert!(!is_quit_key('x', true));
}
