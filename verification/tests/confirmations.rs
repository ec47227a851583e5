use sloth_agent::config::HitlConfig;
use sloth_agent::hitl::{glob_match, HitlBroker, Outcome, Wait};
use sloth_agent::runtime::{meaning_of, parse_hitl_reply};

fn broker(enabled: bool, timeout_secs: u64, patterns: &[&str]) -> HitlBroker {
    HitlBroker::new(HitlConfig {
        enabled,
        timeout_secs,
        confirm_tools: patterns.iter().map(|p| p.to_string()).collect(),
    })
}

#[test]
fn glob_basics() {
    assert!(glob_match("scheduler_*", "scheduler_add_job"));
    assert!(glob_match("mcp_*__*", "mcp_weather__forecast"));
    assert!(!glob_match("scheduler_*", "mcp_weather__forecast"));
    assert!(glob_match("*", "anything"));
    assert!(glob_match("a?c", "abc"));
    assert!(!glob_match("a?c", "ac"));
}

#[test]
fn globs_backtrack_and_handle_any_character() {
    assert!(glob_match("*ab", "aab"));
    assert!(glob_match("a*b*c", "aXbYbZc"));
    assert!(!glob_match("a*b*c", "aXbY"));
    assert!(glob_match("", ""));
    assert!(!glob_match("", "x"));
    assert!(glob_match("**", ""));
    assert!(glob_match("?", "é"));
    assert!(!glob_match("Ab", "ab"));
}

#[test]
fn approval_flow() {
    let mut b = broker(true, 5, &[]);
    assert!(b.requires_confirmation("scheduler_add_job"));
    let p = b.new_pending("scheduler_add_job", "add daily 9am job", "default", "u1");
    b.register(&p);
    let wait = b.resolve(&p.id, Outcome::Approved).unwrap();
    let outcome = b.await_decision(wait);
    assert_eq!(outcome, Outcome::Approved);
    assert!(b.resolve(&p.id, Outcome::Approved).is_none());
}

#[test]
fn timeout_denies() {
    let mut b = broker(true, 1, &[]);
    let p = b.new_pending("x", "y", "default", "u1");
    b.register(&p);
    let outcome = b.await_decision(Wait::Elapsed);
    assert_eq!(outcome, Outcome::TimedOut);
}

#[test]
fn a_dropped_answer_denies() {
    let b = broker(true, 1, &[]);
    assert_eq!(b.await_decision(Wait::Dropped), Outcome::Denied);
    assert_eq!(b.await_decision(Wait::Answered(Outcome::Denied)), Outcome::Denied);
}

#[test]
fn pattern_gates_only_matching() {
    let b = broker(true, 5, &["scheduler_*", "mcp_*"]);
    assert!(b.requires_confirmation("scheduler_add_job"));
    assert!(b.requires_confirmation("mcp_weather__forecast"));
    assert!(!b.requires_confirmation("session_list"));
}

#[test]
fn nothing_is_gated_when_off() {
    let b = broker(false, 0, &[]);
    assert!(!b.enabled());
    assert!(!b.requires_confirmation("scheduler_add_job"));
    assert_eq!(b.timeout_secs(), 1);
    assert_eq!(broker(true, 7, &[]).timeout_secs(), 7);
}

#[test]
fn pending_ids_are_fresh() {
    let b = broker(true, 5, &[]);
    let p = b.new_pending("t", "s", "default", "u");
    let q = b.new_pending("t", "s", "default", "u");
    assert_ne!(p.id, q.id);
    assert!(p.id.starts_with("hitl-"));
    assert_eq!(p.id.len(), 37);
    assert_eq!(p.tool, "t");
    assert_eq!(p.summary, "s");
    assert_eq!(p.session_id, "default");
    assert_eq!(p.sender_id, "u");
}

#[test]
fn parse_hitl_reply_maps_yes_and_no() {
    assert_eq!(parse_hitl_reply("yes"), Outcome::Approved);
    assert_eq!(parse_hitl_reply("Y"), Outcome::Approved);
    assert_eq!(parse_hitl_reply("approve"), Outcome::Approved);
    assert_eq!(parse_hitl_reply("confirm"), Outcome::Approved);
    assert_eq!(parse_hitl_reply("no"), Outcome::Denied);
    assert_eq!(parse_hitl_reply("deny"), Outcome::Denied);
    assert_eq!(parse_hitl_reply("cancel"), Outcome::Denied);
    assert_eq!(parse_hitl_reply("maybe"), Outcome::Denied);
    assert_eq!(parse_hitl_reply(""), Outcome::Denied);
}

#[test]
fn replies_are_read_by_their_first_word() {
    assert_eq!(parse_hitl_reply("  Yes, sure"), Outcome::Denied);
    assert_eq!(parse_hitl_reply("  YES sure"), Outcome::Approved);
    assert_eq!(parse_hitl_reply("sure yes"), Outcome::Denied);
    assert_eq!(parse_hitl_reply("\u{a0}CONFIRM\u{2003}it"), Outcome::Approved);
    for other in ["ok", "approved", "confirmed", "allow", "1", "yep", "yes!"] {
        assert_eq!(parse_hitl_reply(other), Outcome::Denied, "{other}");
    }
    // The long s is its own lowercase, and an s only in capitals.
    assert_eq!(parse_hitl_reply("ye\u{17f}"), Outcome::Denied);
    assert_eq!(meaning_of("y now"), Outcome::Approved);
    assert_eq!(meaning_of("YES"), Outcome::Denied);
}
