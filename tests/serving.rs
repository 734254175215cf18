use ical_merger::cache::CalendarCache;
use ical_merger::config::{Mode, SchedulerMisconfigured, Snapshot};
use ical_merger::handler::{answer_request, plan_request, read_request, RequestError, RequestPlan};
use ical_merger::scheduler::{apply_tick, refresh_interval, BuildReport};

fn s(text: &str) -> String {
    text.to_string()
}

fn snapshot(on_demand: bool, interval: Option<u64>, calendars: &[(&str, &str)]) -> Snapshot<String> {
    let mut snap = Snapshot::new(on_demand, interval).unwrap();
    for (ident, source) in calendars {
        snap.insert_calendar(s(ident), s(source));
    }
    snap
}

fn ok(ident: &str, document: &str) -> BuildReport {
    BuildReport { identifier: s(ident), outcome: Ok(s(document)) }
}

fn failed(ident: &str, cause: &str) -> BuildReport {
    BuildReport { identifier: s(ident), outcome: Err(s(cause)) }
}

#[test]
fn on_demand_request_serves_fresh_build() {
    let snap = snapshot(true, None, &[("team", "src1")]);
    let mut cache = CalendarCache::new();
    let ident = s("team");
    assert_eq!(plan_request(&snap, &ident), RequestPlan::BuildThenRead);
    assert_eq!(snap.source(&ident), Some(&s("src1")));
    let r = answer_request(&snap, &mut cache, &ident, Some(s("DOC1")));
    assert_eq!(r, Ok(s("DOC1")));
}

#[test]
fn periodic_request_before_first_tick_has_no_document() {
    let snap = snapshot(false, Some(60), &[("team", "src1")]);
    let mut cache = CalendarCache::new();
    let ident = s("team");
    assert_eq!(plan_request(&snap, &ident), RequestPlan::ReadCache);
    assert_eq!(answer_request(&snap, &mut cache, &ident, None), Err(RequestError::NoCachedDocument));
}

#[test]
fn empty_configuration_serves_nothing_in_either_mode() {
    for snap in [snapshot(true, None, &[]), snapshot(false, Some(60), &[])] {
        let mut cache = CalendarCache::new();
        let ident = s("anything");
        assert_eq!(plan_request(&snap, &ident), RequestPlan::Reject);
        assert_eq!(answer_request(&snap, &mut cache, &ident, None), Err(RequestError::NotConfigured));
        assert_eq!(answer_request(&snap, &mut cache, &ident, Some(s("DOC"))), Err(RequestError::NotConfigured));
        assert_eq!(cache.get(&ident), None);
    }
}

#[test]
fn failed_build_does_not_block_other_calendar_in_tick() {
    let snap = snapshot(false, Some(60), &[("a", "srcA"), ("b", "srcB")]);
    let mut cache = CalendarCache::new();
    let failures = apply_tick(&mut cache, vec![failed("a", "unreachable"), ok("b", "DOCB")]);
    assert_eq!(cache.get(&s("a")), None);
    assert_eq!(cache.get(&s("b")), Some(s("DOCB")));
    assert_eq!(failures.len(), 1);
    assert_eq!(failures[0].identifier, "a");
    assert_eq!(failures[0].cause, "unreachable");
    assert_eq!(answer_request(&snap, &mut cache, &s("a"), None), Err(RequestError::NoCachedDocument));
    assert_eq!(answer_request(&snap, &mut cache, &s("b"), None), Ok(s("DOCB")));
}

#[test]
fn unconfigured_identifier_rejected_even_when_cached() {
    let snap = snapshot(false, Some(60), &[("team", "src1")]);
    let mut cache = CalendarCache::new();
    cache.put(s("other"), s("DOC"));
    assert_eq!(answer_request(&snap, &mut cache, &s("other"), None), Err(RequestError::NotConfigured));
}

#[test]
fn identifiers_are_case_sensitive() {
    let snap = snapshot(true, None, &[("team", "src1")]);
    let mut cache = CalendarCache::new();
    assert_eq!(answer_request(&snap, &mut cache, &s("Team"), Some(s("DOC"))), Err(RequestError::NotConfigured));
    assert!(snap.is_configured(&s("team")));
    assert!(!snap.is_configured(&s("team/")));
}

#[test]
fn on_demand_build_stays_cached_for_later_reads() {
    let snap = snapshot(true, None, &[("team", "src1")]);
    let mut cache = CalendarCache::new();
    let ident = s("team");
    assert_eq!(answer_request(&snap, &mut cache, &ident, Some(s("DOC1"))), Ok(s("DOC1")));
    assert_eq!(cache.get(&ident), Some(s("DOC1")));
    assert_eq!(answer_request(&snap, &mut cache, &ident, None), Ok(s("DOC1")));
}

#[test]
fn on_demand_failed_build_serves_stale_document() {
    let snap = snapshot(true, None, &[("team", "src1")]);
    let mut cache = CalendarCache::new();
    let ident = s("team");
    assert_eq!(answer_request(&snap, &mut cache, &ident, None), Err(RequestError::NoCachedDocument));
    cache.put(s("team"), s("OLD"));
    assert_eq!(answer_request(&snap, &mut cache, &ident, None), Ok(s("OLD")));
    assert_eq!(answer_request(&snap, &mut cache, &ident, Some(s("NEW"))), Ok(s("NEW")));
}

#[test]
fn periodic_request_ignores_a_build() {
    let snap = snapshot(false, Some(5), &[("team", "src1")]);
    let mut cache = CalendarCache::new();
    let ident = s("team");
    assert_eq!(answer_request(&snap, &mut cache, &ident, Some(s("DOC"))), Err(RequestError::NoCachedDocument));
    assert_eq!(cache.get(&ident), None);
}

#[test]
fn repeated_builds_give_stable_reads() {
    let snap = snapshot(true, None, &[("team", "src1")]);
    let mut cache = CalendarCache::new();
    let ident = s("team");
    for _ in 0..3 {
        assert_eq!(answer_request(&snap, &mut cache, &ident, Some(s("DOC1"))), Ok(s("DOC1")));
        assert_eq!(cache.get(&ident), Some(s("DOC1")));
    }
    let reports = vec![ok("team", "DOC1")];
    apply_tick(&mut cache, vec![ok("team", "DOC1")]);
    apply_tick(&mut cache, reports);
    assert_eq!(cache.get(&ident), Some(s("DOC1")));
}

#[test]
fn tick_failure_keeps_stale_entry() {
    let mut cache = CalendarCache::new();
    apply_tick(&mut cache, vec![ok("a", "DOCA1")]);
    let failures = apply_tick(&mut cache, vec![failed("a", "timeout"), ok("b", "DOCB")]);
    assert_eq!(failures.len(), 1);
    assert_eq!(cache.get(&s("a")), Some(s("DOCA1")));
    assert_eq!(cache.get(&s("b")), Some(s("DOCB")));
}

#[test]
fn tick_last_success_wins() {
    let mut cache = CalendarCache::new();
    let failures = apply_tick(&mut cache, vec![ok("a", "ONE"), ok("a", "TWO"), failed("a", "x")]);
    assert_eq!(failures.len(), 1);
    assert_eq!(cache.get(&s("a")), Some(s("TWO")));
}

#[test]
fn empty_tick_changes_nothing() {
    let mut cache = CalendarCache::new();
    cache.put(s("a"), s("DOC"));
    assert!(apply_tick(&mut cache, Vec::new()).is_empty());
    assert_eq!(cache.get(&s("a")), Some(s("DOC")));
}

#[test]
fn cache_put_replaces_entry() {
    let mut cache = CalendarCache::new();
    assert_eq!(cache.get(&s("k")), None);
    cache.put(s("k"), s("first"));
    cache.put(s("j"), s("other"));
    cache.put(s("k"), s("second"));
    assert_eq!(cache.get(&s("k")), Some(s("second")));
    assert_eq!(cache.get(&s("j")), Some(s("other")));
}

#[test]
fn mode_selection() {
    let on_demand: Snapshot<String> = Snapshot::new(true, None).unwrap();
    assert_eq!(on_demand.mode(), Mode::OnDemand);
    let on_demand_with_interval: Snapshot<String> = Snapshot::new(true, Some(30)).unwrap();
    assert_eq!(on_demand_with_interval.mode(), Mode::OnDemand);
    let periodic: Snapshot<String> = Snapshot::new(false, Some(60)).unwrap();
    assert_eq!(periodic.mode(), Mode::Periodic { interval_secs: 60 });
    assert_eq!(refresh_interval(&periodic), Some(60));
    assert_eq!(refresh_interval(&on_demand), None);
}

#[test]
fn periodic_without_interval_is_misconfigured() {
    assert_eq!(Snapshot::<String>::new(false, None).err(), Some(SchedulerMisconfigured));
    assert_eq!(Snapshot::<String>::new(false, Some(0)).err(), Some(SchedulerMisconfigured));
}

#[test]
fn insert_calendar_replaces_source() {
    let mut snap = snapshot(false, Some(60), &[("a", "one"), ("b", "two")]);
    snap.insert_calendar(s("a"), s("three"));
    assert_eq!(snap.source(&s("a")), Some(&s("three")));
    assert_eq!(snap.source(&s("b")), Some(&s("two")));
    assert_eq!(snap.source(&s("c")), None);
    let mut ids = snap.identifiers();
    ids.sort();
    assert_eq!(ids, vec![s("a"), s("b")]);
}

#[test]
fn error_messages() {
    assert_eq!(RequestError::NotConfigured.message(), "Calendar not found");
    assert_eq!(RequestError::NoCachedDocument.message(), "No calendar found");
}

#[test]
fn read_request_matches_answer_without_build() {
    let snap = snapshot(false, Some(60), &[("team", "src1")]);
    let mut cache = CalendarCache::new();
    assert_eq!(read_request(&snap, &cache, &s("team")), Err(RequestError::NoCachedDocument));
    assert_eq!(read_request(&snap, &cache, &s("nope")), Err(RequestError::NotConfigured));
    apply_tick(&mut cache, vec![ok("team", "DOC")]);
    assert_eq!(read_request(&snap, &cache, &s("team")), Ok(s("DOC")));
}
