use chrono::TimeZone;
use freemind_sonos::config::{FreemindAuth, FreemindConfig};
use freemind_sonos::engine::FreemindState;
use freemind_sonos::record::{AppElement, Preparation};

fn record(id: u16, due: Option<u32>, repeats: Option<&str>, lead: Option<u32>, alert: bool) -> AppElement {
    AppElement::new(
        Some(id),
        format!("title {}", id),
        format!("record {}", id),
        due,
        repeats.map(|r| r.to_string()),
        lead.map(|m| Preparation { description: None, time: Some(m) }),
        None,
        if alert { Some("ring".to_string()) } else { None },
    )
}

fn state_with(records: Vec<AppElement>) -> FreemindState {
    let mut state = FreemindState::new(FreemindConfig::default());
    state.replace(records);
    state
}

fn descriptions(v: &[&AppElement]) -> Vec<String> {
    v.iter().map(|e| e.description().to_string()).collect()
}

#[test]
fn replace_sorts_by_due_with_missing_as_zero() {
    let state = state_with(vec![
        record(1, Some(30), None, None, false),
        record(2, None, None, None, false),
        record(3, Some(10), None, None, false),
        record(4, Some(0), None, None, false),
        record(5, Some(10), None, None, false),
    ]);
    let keys: Vec<u32> = state.elements().iter().map(|e| e.due_or_zero()).collect();
    assert_eq!(keys, vec![0, 0, 10, 10, 30]);
    let ids: Vec<Option<u16>> = state.elements().iter().map(|e| e.id).collect();
    assert_eq!(ids, vec![Some(2), Some(4), Some(3), Some(5), Some(1)]);
}

#[test]
fn replace_with_nothing_leaves_nothing() {
    let mut state = state_with(vec![record(1, Some(3), None, None, false)]);
    state.replace(Vec::new());
    assert!(state.elements().is_empty());
}

#[test]
fn due_alone_is_the_effective_time() {
    let mut state = state_with(vec![record(1, Some(1000), None, None, false)]);
    state.compute_takes_place(0);
    assert_eq!(state.elements()[0].takes_place_on, Some(1000));
}

#[test]
fn preparation_lead_pulls_the_time_earlier() {
    let mut state = state_with(vec![record(1, Some(1000), None, Some(2), false)]);
    state.compute_takes_place(0);
    assert_eq!(state.elements()[0].takes_place_on, Some(880));
}

#[test]
fn lead_before_the_epoch_leaves_no_time() {
    let mut state = state_with(vec![record(1, Some(100), None, Some(2), false)]);
    state.compute_takes_place(0);
    assert_eq!(state.elements()[0].takes_place_on, None);
}

#[test]
fn next_occurrence_alone_is_the_effective_time() {
    let mut state = state_with(vec![record(1, None, None, None, false)]);
    state.compute_takes_place_with(&vec![Some(4242)]);
    assert_eq!(state.elements()[0].takes_place_on, Some(4242));
}

#[test]
fn rule_every_second_gives_the_next_second() {
    let mut state = state_with(vec![record(1, None, Some("* * * * * *"), None, false)]);
    state.compute_takes_place(1_000_000);
    assert_eq!(state.elements()[0].takes_place_on, Some(1_000_001));
}

#[test]
fn earlier_of_due_and_occurrence_wins() {
    let mut state = state_with(vec![record(1, Some(500), None, None, false)]);
    state.compute_takes_place_with(&vec![Some(300)]);
    assert_eq!(state.elements()[0].takes_place_on, Some(300));
    state.compute_takes_place_with(&vec![Some(700)]);
    assert_eq!(state.elements()[0].takes_place_on, Some(500));
}

#[test]
fn occurrence_outside_u32_counts_as_none() {
    let e = record(1, None, None, None, false);
    assert_eq!(e.effective_time_with(Some(-5)), None);
    assert_eq!(e.effective_time_with(Some(1i64 << 40)), None);
    let d = record(2, Some(700), None, None, false);
    assert_eq!(d.effective_time_with(Some(-5)), Some(700));
    assert_eq!(d.effective_time_with(Some(u32::MAX as i64)), Some(700));
}

#[test]
fn clock_outside_the_calendar_expands_no_rule() {
    let mut state = state_with(vec![
        record(1, Some(1000), Some("* * * * * *"), None, false),
        record(2, None, Some("* * * * * *"), None, false),
    ]);
    state.compute_takes_place(i64::MAX);
    assert_eq!(state.elements()[0].takes_place_on, None);
    assert_eq!(state.elements()[1].takes_place_on, Some(1000));
    state.compute_takes_place(-1);
    assert_eq!(state.elements()[1].takes_place_on, Some(1000));
}

#[test]
fn timedelta_counts_to_the_event_itself() {
    let mut state = state_with(vec![record(1, Some(1000), None, Some(5), false)]);
    state.compute_takes_place(0);
    let e = &state.elements()[0];
    assert_eq!(e.takes_place_on, Some(700));
    assert_eq!(e.timedelta(100), Some(15));
}

#[test]
fn malformed_rule_falls_back_to_due() {
    let mut state = state_with(vec![
        record(1, Some(1000), Some("not a schedule"), None, false),
        record(2, None, Some("61 * *"), None, false),
    ]);
    state.compute_takes_place(0);
    assert_eq!(state.elements()[0].takes_place_on, None);
    assert_eq!(state.elements()[1].takes_place_on, Some(1000));
}

#[test]
fn alert_window_lower_bound_inclusive() {
    let mut state = state_with(vec![record(1, Some(1000), None, None, true)]);
    assert!(state.needs_trigger_at(30, 1000));
}

#[test]
fn alert_window_upper_bound_exclusive() {
    let mut state = state_with(vec![record(1, Some(2800), None, None, true)]);
    assert!(!state.needs_trigger_at(30, 1000));
    let mut state = state_with(vec![record(1, Some(2799), None, None, true)]);
    assert!(state.needs_trigger_at(30, 1000));
}

#[test]
fn alert_window_needs_an_alert_and_a_time() {
    let mut state = state_with(vec![
        record(1, Some(1500), None, None, false),
        record(2, None, None, None, true),
        record(3, Some(999), None, None, true),
    ]);
    assert!(!state.needs_trigger_at(30, 1000));
}

#[test]
fn alert_window_uses_the_preparation_lead() {
    let mut state = state_with(vec![record(1, Some(4000), None, Some(30), true)]);
    assert!(state.needs_trigger_at(30, 1000));
}

#[test]
fn empty_collection_needs_no_alert() {
    let mut state = state_with(Vec::new());
    assert!(!state.needs_trigger_at(30, 1000));
    assert!(state.get_today_at(1000).is_empty());
}

#[test]
fn day_end_is_included_and_the_second_after_is_not() {
    let mut state = state_with(vec![
        record(1, Some(5000), None, None, false),
        record(2, Some(5001), None, None, false),
        record(3, Some(999), None, None, false),
        record(4, Some(1000), None, None, false),
        record(5, Some(3000), None, None, false),
    ]);
    state.compute_takes_place(0);
    let today = state.due_between(1000, 5000);
    assert_eq!(descriptions(&today), vec!["record 4", "record 5", "record 1"]);
}

#[test]
fn today_is_sorted_by_effective_time() {
    let mut state = state_with(vec![
        record(1, Some(100), None, None, false),
        record(2, Some(300), None, Some(1), false),
        record(3, Some(200), None, None, false),
    ]);
    state.compute_takes_place_with(&vec![None, None, None]);
    let today = state.due_between(0, 1000);
    assert_eq!(descriptions(&today), vec!["record 1", "record 3", "record 2"]);
}

#[test]
fn today_needs_both_bounds() {
    let mut state = state_with(vec![record(1, Some(100), None, None, false)]);
    state.compute_takes_place(0);
    assert!(state.today_from_bounds(None, Some(500)).is_empty());
    assert_eq!(state.today_from_bounds(Some(0), Some(500)).len(), 1);
    assert_eq!(state.today_from_bounds(Some(-10), Some(1i64 << 40)).len(), 1);
}

#[test]
fn today_uses_the_local_day() {
    let now: i64 = 1_700_000_000;
    let day = chrono::Local.timestamp_opt(now, 0).single().unwrap().date_naive();
    let end = day.and_hms_opt(23, 59, 59).unwrap().and_local_timezone(chrono::Local).earliest().unwrap().timestamp() as u32;
    let start = day.and_hms_opt(0, 0, 0).unwrap().and_local_timezone(chrono::Local).earliest().unwrap().timestamp() as u32;
    let mut state = state_with(vec![
        record(1, Some(end + 1), None, None, false),
        record(2, Some(end), None, None, false),
        record(3, Some(start), None, None, false),
        record(4, Some(start - 1), None, None, false),
    ]);
    let today = state.get_today_at(now);
    assert_eq!(descriptions(&today), vec!["record 3", "record 2"]);
}

#[test]
fn timedelta_counts_whole_minutes() {
    let mut state = state_with(vec![record(1, Some(1000), None, None, false)]);
    state.compute_takes_place(0);
    let e = &state.elements()[0];
    assert_eq!(e.timedelta(100), Some(15));
    assert_eq!(e.timedelta(1090), Some(-1));
    assert_eq!(record(2, Some(5), None, None, false).timedelta(0), None);
}

#[test]
fn timepoint_is_hours_and_minutes() {
    let mut state = state_with(vec![record(1, Some(1_700_000_000), None, Some(10), false)]);
    assert_eq!(state.elements()[0].timepoint(), None);
    state.compute_takes_place(0);
    let e = &state.elements()[0];
    assert_eq!(e.nominal_timestamp(), Some(1_700_000_000));
    let expected = chrono::Local.timestamp_opt(1_700_000_000, 0).single().unwrap().format("%H:%M").to_string();
    assert_eq!(e.timepoint(), Some(expected));
}

#[test]
fn location_defaults_to_empty() {
    let mut e = record(1, None, None, None, false);
    assert_eq!(e.location(), "");
    e.location = Some("kitchen".to_string());
    assert_eq!(e.location(), "kitchen");
    assert_eq!(e.description(), "record 1");
}

#[test]
fn auth_header_names() {
    assert_eq!(FreemindAuth::Token.header_name(), "token");
    assert_eq!(FreemindAuth::Password.header_name(), "password");
    let c = FreemindConfig::default();
    assert_eq!(c.server, "https://example.com/api:8080");
    assert_eq!(c.method, FreemindAuth::Password);
}

#[test]
fn records_are_equal_by_id_only() {
    let a = record(7, Some(1), None, None, false);
    let b = record(7, Some(2), None, None, true);
    let c = record(8, Some(1), None, None, false);
    assert!(a == b);
    assert!(a != c);
    let anon = AppElement::new(None, "t".to_string(), "d".to_string(), None, None, None, None, None);
    assert!(anon != anon);
    assert!(anon != a);
    assert!(a != anon);
}

#[test]
fn today_keeps_collection_order_for_equal_times() {
    let mut state = state_with(vec![
        record(1, Some(200), None, None, false),
        record(2, Some(100), None, None, false),
        record(3, Some(200), None, None, false),
        record(4, Some(260), None, Some(1), false),
    ]);
    state.compute_takes_place(0);
    let today = state.due_between(0, 1000);
    assert_eq!(descriptions(&today), vec!["record 2", "record 1", "record 3", "record 4"]);
}

#[test]
fn today_outside_the_calendar_is_empty() {
    let mut state = state_with(vec![record(1, Some(100), None, None, false)]);
    assert!(state.get_today_at(i64::MAX).is_empty());
    assert!(state.get_today_at(-1).is_empty());
    assert_eq!(state.elements()[0].takes_place_on, Some(100));
}

#[test]
fn timepoint_reads_hours_colon_minutes() {
    let mut state = state_with(vec![record(1, Some(4_000_000_000), None, None, false)]);
    state.compute_takes_place(0);
    let text = state.elements()[0].timepoint().unwrap();
    let b = text.as_bytes();
    assert_eq!(b.len(), 5);
    assert_eq!(b[2], b':');
    let hour: u32 = text[0..2].parse().unwrap();
    let minute: u32 = text[3..5].parse().unwrap();
    assert!(hour <= 23 && minute <= 59);
}
