use sloth_agent::cron::Cron;
use sloth_agent::scheduler::{
    secs_of_clock, wall_secs, AddError, ScheduledJob, Scheduler, CATCH_UP, LATEST,
};

fn job(name: &str, cron: &str, prompt: &str) -> ScheduledJob {
    ScheduledJob {
        id: String::new(),
        name: name.to_string(),
        cron: cron.to_string(),
        prompt: prompt.to_string(),
        session_id: "default".to_string(),
        ..Default::default()
    }
}

#[test]
fn parses_basic() {
    Cron::parse("*/5 * * * *").unwrap();
    Cron::parse("0 9 * * 1-5").unwrap();
    Cron::parse("30 2 1 1 *").unwrap();
    assert!(Cron::parse("* * * *").is_err());
    assert!(Cron::parse("60 * * * *").is_err());
}

#[test]
fn every_minute_matches() {
    let c = Cron::parse("* * * * *").unwrap();
    assert!(c.matches(0, 0, 1, 1, 4));
    assert!(c.matches(59, 23, 31, 12, 0));
}

#[test]
fn step_field() {
    let c = Cron::parse("*/15 * * * *").unwrap();
    assert!(c.matches(0, 0, 1, 1, 0));
    assert!(c.matches(15, 0, 1, 1, 0));
    assert!(c.matches(30, 0, 1, 1, 0));
    assert!(c.matches(45, 0, 1, 1, 0));
    assert!(!c.matches(7, 0, 1, 1, 0));
}

#[test]
fn weekday_7_is_sunday() {
    let c = Cron::parse("0 0 * * 7").unwrap();
    assert!(c.matches(0, 0, 1, 1, 0));
    assert!(!c.matches(0, 0, 1, 1, 1));
}

#[test]
fn dom_or_dow_when_both_restricted() {
    let c = Cron::parse("0 0 13 * 5").unwrap();
    assert!(c.matches(0, 0, 13, 6, 3));
    assert!(c.matches(0, 0, 20, 6, 5));
    assert!(!c.matches(0, 0, 14, 6, 3));
}

#[test]
fn next_after_advances() {
    let c = Cron::parse("*/5 * * * *").unwrap();
    assert_eq!(c.next_after(0), 300);
}

#[test]
fn cron_next_after_is_monotonic() {
    let c = Cron::parse("*/15 * * * *").unwrap();
    let t1 = c.next_after(0);
    let t2 = c.next_after(t1);
    assert!(t2 > t1);
    assert_eq!(t2 - t1, 900);
}

#[test]
fn six_fields_fire_on_seconds() {
    let c = Cron::parse("*/10 * * * * *").unwrap();
    assert_eq!(c.next_after(0), 10);
    assert_eq!(c.next_after(10), 20);
    assert_eq!(c.next_after(55), 60);
    assert_eq!(c.as_str(), "*/10 * * * * *");
}

#[test]
fn next_after_crosses_years_and_leap_days() {
    // 1970-01-01 to 1971-01-01.
    let c = Cron::parse("0 0 1 1 *").unwrap();
    assert_eq!(c.next_after(0), 365 * 86_400);
    // The first leap day after 1972-01-01.
    let start = 730 * 86_400;
    let c = Cron::parse("0 0 29 2 *").unwrap();
    assert_eq!(c.next_after(start), start + (31 + 28) * 86_400);
}

#[test]
fn next_after_works_before_the_epoch() {
    let c = Cron::parse("*/5 * * * *").unwrap();
    assert_eq!(c.next_after(-1), 0);
    assert_eq!(c.next_after(-301), -300);
}

#[test]
fn malformed_expressions_are_errors() {
    for text in ["", "a * * * *", "1-70 * * * *", "*/x * * * *", "5-1 * * * *", "* 24 * * *", "* * 0 * *",
        "* * * 13 *", "* * * * 8", "* * * * 6-8", "* * * * 7-1", "60 * * * * *"] {
        assert!(Cron::parse(text).is_err(), "{text}");
    }
}

#[test]
fn weekday_ranges_reach_sunday() {
    let days = |field: &str| -> Vec<u8> {
        let c = Cron::parse(&format!("0 0 * * {field}")).unwrap();
        (0..7).filter(|w| c.matches(0, 0, 1, 1, *w)).collect()
    };
    assert_eq!(days("5-7"), vec![0, 5, 6]);
    assert_eq!(days("0-7"), vec![0, 1, 2, 3, 4, 5, 6]);
    assert_eq!(days("5-7/2"), vec![0, 5]);
    assert_eq!(days("1-7/4"), vec![1, 5]);
    assert_eq!(days("7"), vec![0]);
    assert_eq!(days("7,3"), vec![0, 3]);
    assert_eq!(days("1-5"), vec![1, 2, 3, 4, 5]);
    assert_eq!(days("*/3"), vec![0, 3, 6]);
    // A range of all days is a restriction, the wildcard is none.
    let c = Cron::parse("0 0 13 * *").unwrap();
    assert!(!c.matches(0, 0, 14, 6, 3));
    let c = Cron::parse("0 0 13 * 1-7").unwrap();
    assert!(c.matches(0, 0, 14, 6, 3));
}

#[test]
fn minute_lists_select_by_item() {
    let c = Cron::parse("3,10-20/5,*/30 * * * *").unwrap();
    let minutes: Vec<u8> = (0..60).filter(|m| c.matches(*m, 1, 1, 1, 1)).collect();
    assert_eq!(minutes, vec![0, 3, 10, 15, 20, 30]);
}

#[test]
fn a_step_of_zero_is_a_step_of_one() {
    let c = Cron::parse("*/0 * * * *").unwrap();
    assert!(c.matches(7, 0, 1, 1, 0));
}

#[test]
fn add_and_evaluate_fires_due_job_once() {
    let mut s = Scheduler::new();
    let now = 1_000_000_i64;
    s.add_at(job("tick", "* * * * *", "hello"), now).unwrap();
    let fires = s.evaluate(now + 60);
    assert_eq!(fires.len(), 1);
    assert_eq!(fires[0].prompt, "hello");
    let again = s.evaluate(now + 60);
    assert!(again.is_empty());
    let next = s.evaluate(now + 120);
    assert_eq!(next.len(), 1);
}

#[test]
fn remove_and_list() {
    let mut s = Scheduler::new();
    let id = s.add_at(job("j", "*/5 * * * *", "p"), 0).unwrap();
    assert_eq!(s.list().len(), 1);
    assert!(s.remove(&id));
    assert!(s.list().is_empty());
    assert!(!s.remove(&id));
}

#[test]
fn invalid_cron_rejected() {
    let mut s = Scheduler::new();
    assert!(s.add_at(job("x", "not a cron", "p"), 0).is_err());
}

#[test]
fn invalid_cron_says_why() {
    let mut s = Scheduler::new();
    let e = s.add_at(job("x", "* * * *", "p"), 0).unwrap_err();
    assert_eq!(e.text(), "invalid cron: * * * *");
    assert!(e.chain().starts_with("invalid cron: * * * *: "));
    assert!(matches!(e, AddError::InvalidCron { .. }));
    assert_eq!(AddError::ClockOutOfRange.text(), "clock out of range");
    assert_eq!(AddError::ClockOutOfRange.chain(), "clock out of range");
}

#[test]
fn scheduler_fires_due_job_and_reschedules() {
    let mut s = Scheduler::new();
    let now = 60 * 16_667;
    let id = s.add_at(job("every-minute", "* * * * *", "tick"), now).unwrap();
    assert!(s.evaluate(now + 30).is_empty());
    let fired = s.evaluate(now + 60);
    assert_eq!(fired.len(), 1);
    assert_eq!(fired[0].id, id);
    assert!(s.evaluate(now + 60).is_empty());
    assert_eq!(s.evaluate(now + 120).len(), 1);
}

#[test]
fn start_ticker_emits_due_second_precision_job() {
    let mut s = Scheduler::new();
    let id = s.add(job("every-second", "*/1 * * * * *", "tick")).unwrap();
    let fired = s.evaluate(wall_secs() + 2);
    assert!(!fired.is_empty());
    assert_eq!(fired[0].id, id);
    assert_eq!(fired[0].prompt, "tick");
}

#[test]
fn fresh_job_ids_differ_and_have_their_form() {
    let mut s = Scheduler::new();
    let a = s.add_at(job("a", "* * * * *", "p"), 0).unwrap();
    let b = s.add_at(job("b", "* * * * *", "p"), 0).unwrap();
    assert_ne!(a, b);
    assert_eq!(a.len(), "job-".len() + 32);
    assert!(a.starts_with("job-"));
    assert!(a[4..].chars().all(|c| c.is_ascii_hexdigit() && !c.is_ascii_uppercase()));
}

#[test]
fn a_given_id_is_kept_and_replaced() {
    let mut s = Scheduler::new();
    let mut j = job("a", "* * * * *", "one");
    j.id = "mine".to_string();
    assert_eq!(s.add_at(j, 0).unwrap(), "mine");
    let mut j = job("a", "* * * * *", "two");
    j.id = "mine".to_string();
    assert_eq!(s.add_at(j, 0).unwrap(), "mine");
    assert_eq!(s.list().len(), 1);
    assert_eq!(s.get("mine").unwrap().prompt, "two");
    assert!(s.get("other").is_none());
}

#[test]
fn catch_up_is_capped() {
    let mut s = Scheduler::new();
    s.add_at(job("tick", "* * * * *", "p"), 0).unwrap();
    let fired = s.evaluate(60 * 1000);
    assert_eq!(fired.len(), CATCH_UP as usize);
    assert_eq!(fired[0].fired_at, 60);
    assert_eq!(fired[1].fired_at, 120);
}

#[test]
fn jobs_are_listed_and_removed_by_tenant() {
    let mut s = Scheduler::new();
    let mut a = job("a", "* * * * *", "p");
    a.tenant_id = Some("t1".to_string());
    let id = s.add_at(a, 0).unwrap();
    s.add_at(job("b", "* * * * *", "p"), 0).unwrap();
    assert_eq!(s.list().len(), 2);
    assert_eq!(s.list_for(Some("t1")).len(), 1);
    assert_eq!(s.list_for(Some("t1"))[0].name, "a");
    assert_eq!(s.list_for(None).len(), 1);
    assert_eq!(s.list_for(Some("t2")).len(), 0);
    assert!(!s.remove_for(&id, Some("t2")));
    assert_eq!(s.list().len(), 2);
    assert!(s.remove_for(&id, Some("t1")));
    assert_eq!(s.list().len(), 1);
}

#[test]
fn clock_before_the_epoch_is_zero() {
    assert_eq!(secs_of_clock(None), 0);
    assert_eq!(secs_of_clock(Some(17)), 17);
    assert!(wall_secs() > 1_600_000_000);
}

#[test]
fn no_job_is_added_past_the_latest_instant() {
    let mut s = Scheduler::new();
    assert!(matches!(
        s.add_at(job("j", "* * * * *", "p"), LATEST + 1),
        Err(AddError::ClockOutOfRange)
    ));
    assert!(matches!(s.add_at(job("j", "x", "p"), LATEST + 1), Err(AddError::InvalidCron { .. })));
    assert!(s.list().is_empty());
    assert!(s.add_at(job("j", "* * * * *", "p"), LATEST).is_ok());
}
