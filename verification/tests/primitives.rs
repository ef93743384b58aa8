use vanguard::clock::{Clock, PresetClock, Timestamp, MAX_SECONDS, MIN_SECONDS};
use vanguard::json::Json;
use vanguard::keyed::KeyedList;
use vanguard::text::{
    copy_texts, decimal, decimal_count, has_char, has_text, left_justify, list_has, precedes, same, strip_prefix,
};

fn clock(secs: i64, nanos: u32) -> String {
    Timestamp::new(secs, nanos).unwrap().clock_text()
}

#[test]
fn time_of_day_is_written_to_the_millisecond() {
    assert_eq!(clock(0, 0), "00:00:00.000");
    assert_eq!(clock(45_296, 789_654_321), "12:34:56.789");
    assert_eq!(clock(1_700_000_000, 1_999_999), "22:13:20.001");
    assert_eq!(clock(-1, 0), "23:59:59.000");
    assert_eq!(clock(-86_399, 10_000_000), "00:00:01.010");
    assert_eq!(clock(MIN_SECONDS, 0), "00:00:00.000");
    assert_eq!(clock(MAX_SECONDS, 999_999_999), "23:59:59.999");
}

#[test]
fn a_leap_second_is_the_sixtieth_of_its_minute() {
    assert_eq!(clock(59, 1_000_000_000), "00:00:60.000");
    assert_eq!(clock(59, 1_999_999_999), "00:00:60.999");
    assert_eq!(clock(-1, 1_500_000_000), "23:59:60.500");
}

#[test]
fn instants_outside_the_calendar_are_refused() {
    assert!(Timestamp::new(MAX_SECONDS + 1, 0).is_none());
    assert!(Timestamp::new(MIN_SECONDS - 1, 0).is_none());
    assert!(Timestamp::new(0, 2_000_000_000).is_none());
    assert!(Timestamp::new(58, 1_000_000_000).is_none());
    assert!(chrono::DateTime::from_timestamp(MAX_SECONDS, 0).is_some());
    assert!(chrono::DateTime::from_timestamp(MAX_SECONDS + 1, 0).is_none());
    assert!(chrono::DateTime::from_timestamp(MIN_SECONDS, 0).is_some());
    assert!(chrono::DateTime::from_timestamp(MIN_SECONDS - 1, 0).is_none());
}

#[test]
fn rfc3339_form_has_an_offset_and_needed_digits_only() {
    assert_eq!(Timestamp::new(0, 0).unwrap().to_rfc3339(), "1970-01-01T00:00:00+00:00");
    assert_eq!(
        Timestamp::new(1_700_000_000, 120_000_000).unwrap().to_rfc3339(),
        "2023-11-14T22:13:20.120+00:00"
    );
}

#[test]
fn numbers_are_written_in_decimal() {
    for n in [0, 7, 10, -1, -90, 1024, i64::MAX, i64::MIN] {
        assert_eq!(decimal(n), n.to_string());
    }
    assert_eq!(decimal_count(0), "0");
    assert_eq!(decimal_count(usize::MAX), usize::MAX.to_string());
}

#[test]
fn texts_are_padded_searched_and_stripped_by_characters() {
    assert_eq!(left_justify("ab", 5), format!("{:<5}", "ab"));
    assert_eq!(left_justify("⟳é", 4), format!("{:<4}", "⟳é"));
    assert_eq!(left_justify("longer", 3), "longer");
    assert!(has_char("a⟳b", '⟳'));
    assert!(!has_char("ab", '⟳'));
    assert!(has_text("  ✗ DEGRADED", "DEGRADED"));
    assert!(has_text("x", ""));
    assert!(has_text("", ""));
    assert!(!has_text("DEGRADE", "DEGRADED"));
    assert_eq!(strip_prefix(":8081", ":"), Some("8081".to_string()));
    assert_eq!(strip_prefix("8081", ":"), None);
    assert_eq!(strip_prefix("", "a"), None);
    assert!(same("é", "é") && !same("e", "é"));
    let list = vec!["a".to_string(), "b".to_string()];
    assert!(list_has(&list, "b") && !list_has(&list, "c"));
    assert_eq!(copy_texts(&list), list);
}

#[test]
fn keyed_list_is_a_map() {
    let mut m: KeyedList<String, u32> = KeyedList::new();
    assert_eq!(m.len(), 0);
    m.insert("a".into(), 1);
    m.insert("b".into(), 2);
    m.insert("a".into(), 3);
    assert_eq!(m.len(), 2);
    assert_eq!(m.get(&"a".to_string()), Some(&3));
    assert_eq!(m.at(1), (&"b".to_string(), &2));
    assert!(m.remove(&"a".to_string()));
    assert!(!m.remove(&"a".to_string()));
    assert!(!m.contains(&"a".to_string()) && m.contains(&"b".to_string()));
}

#[test]
fn json_members_and_items_are_found() {
    let doc = Json::object(vec![
        ("a".to_string(), Json::text("first")),
        ("a".to_string(), Json::text("second")),
        ("list".to_string(), Json::text_array(&vec!["x".to_string(), "y".to_string()])),
    ]);
    assert_eq!(doc.field("a"), Some(&Json::text("first")));
    assert_eq!(doc.field("b"), None);
    assert_eq!(doc.item(0), None);
    let list = doc.field("list").unwrap();
    assert_eq!(list.item(1), Some(&Json::text("y")));
    assert_eq!(list.item(2), None);
    assert_eq!(list.field("a"), None);
    assert_eq!(Json::array(vec![Json::Bool(true), Json::Int(3)]).item(0), Some(&Json::Bool(true)));
}

#[test]
fn texts_are_ordered_by_their_characters() {
    let ordered = ["", "Z", "a", "aa", "ab", "b", "é", "💥"];
    for (i, a) in ordered.iter().enumerate() {
        for (j, b) in ordered.iter().enumerate() {
            assert_eq!(precedes(a, b), i < j, "{a:?} {b:?}");
            assert_eq!(precedes(a, b), a < b);
        }
    }
}

#[test]
fn a_preset_clock_shows_its_times_in_turn() {
    let at = |secs: i64| Timestamp::new(secs, 0).unwrap();
    let mut clock = PresetClock::new(vec![at(5), at(3)], vec![1, 9, 4]);
    assert_eq!((clock.now(), clock.uptime()), (at(5), 1));
    assert_eq!((clock.now(), clock.now(), clock.now()), (at(3), at(3), at(3)));
    assert_eq!((clock.uptime(), clock.uptime(), clock.uptime()), (9, 4, 4));
}
