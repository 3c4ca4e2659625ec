use qwen_proxy::machine::{completion_id, created_now, low_bits, millis_at, now_millis};
use qwen_proxy::session::{
    acquire_error_status, max_sessions, session_ttl, Acquired, AcquiredSession, Moment,
    SessionLimits, SessionManager, Turns,
};

const LIMITS: SessionLimits = SessionLimits { ttl_secs: 60, max_sessions: 3 };

fn at(ms: u64) -> Moment {
    Moment { uptime_ms: ms, unix_ms: 1_000_000 + ms }
}

fn ask(manager: &mut SessionManager, key: &str, ms: u64) -> Option<AcquiredSession> {
    match manager.acquire(key, &LIMITS, &at(ms)) {
        Acquired::Reused(session) => Some(session),
        Acquired::CreateChat => None,
    }
}

fn open(manager: &mut SessionManager, key: &str, chat: &str, ms: u64) {
    assert!(ask(manager, key, ms).is_none());
    let session = manager.insert_new_entry(key, chat.to_string(), &at(ms));
    assert_eq!(session.chat_id, chat);
    assert_eq!(session.parent_id, None);
}

#[test]
fn a_client_keeps_its_chat_until_it_expires() {
    let mut manager = SessionManager::new();
    open(&mut manager, "a", "c1", 0);
    assert_eq!(ask(&mut manager, "a", 59_999).unwrap().chat_id, "c1");
    assert!(ask(&mut manager, "b", 59_999).is_none());
    assert!(ask(&mut manager, "a", 60_000).is_none());
    open(&mut manager, "a", "c2", 60_001);
    assert_eq!(ask(&mut manager, "a", 60_002).unwrap().chat_id, "c2");
}

#[test]
fn the_next_turn_follows_what_was_noted() {
    let mut manager = SessionManager::new();
    open(&mut manager, "a", "c1", 0);
    let mut session = ask(&mut manager, "a", 1).unwrap();
    session.set_parent_id("r1".to_string(), 5);
    assert_eq!(session.last_used_ms, 5);
    let mut waiting = ask(&mut manager, "a", 2).unwrap();
    assert_eq!(waiting.parent_id, None);
    manager.keep("a", &session);
    manager.refresh("a", &mut waiting);
    assert_eq!(waiting.parent_id, Some("r1".to_string()));
    assert_eq!(ask(&mut manager, "a", 3).unwrap().parent_id, Some("r1".to_string()));
}

#[test]
fn a_chat_that_was_replaced_is_left_alone() {
    let mut manager = SessionManager::new();
    open(&mut manager, "a", "c1", 0);
    let mut old = ask(&mut manager, "a", 1).unwrap();
    manager.insert_new_entry("a", "c2".to_string(), &at(2));
    old.set_parent_id("r1".to_string(), 5);
    manager.keep("a", &old);
    assert_eq!(ask(&mut manager, "a", 3).unwrap().parent_id, None);
    manager.refresh("a", &mut old);
    assert_eq!(old.parent_id, Some("r1".to_string()));
    manager.keep("nobody", &old);
    assert!(ask(&mut manager, "nobody", 4).is_none());
}

#[test]
fn a_full_table_loses_what_was_used_least_recently() {
    let mut manager = SessionManager::new();
    open(&mut manager, "a", "c1", 0);
    open(&mut manager, "b", "c2", 1);
    assert!(ask(&mut manager, "a", 2).is_some());
    open(&mut manager, "c", "c3", 3);
    open(&mut manager, "d", "c4", 4);
    assert!(ask(&mut manager, "b", 5).is_none());
    assert!(ask(&mut manager, "c", 6).is_some());
    assert!(ask(&mut manager, "d", 7).is_some());
}

#[test]
fn expired_chats_are_cleaned_up_once_a_minute() {
    let mut manager = SessionManager::new();
    open(&mut manager, "a", "c1", 0);
    open(&mut manager, "b", "c2", 30_000);
    open(&mut manager, "c", "c3", 30_001);
    assert!(ask(&mut manager, "x", 70_000).is_none());
    assert_eq!(ask(&mut manager, "b", 70_001).unwrap().chat_id, "c2");
    assert_eq!(ask(&mut manager, "c", 70_002).unwrap().chat_id, "c3");
}

#[test]
fn limits_come_from_the_environment() {
    assert_eq!(session_ttl(None), 1800);
    assert_eq!(session_ttl(Some("2")), 120);
    assert_eq!(session_ttl(Some("+3")), 180);
    assert_eq!(session_ttl(Some("x")), 1800);
    assert_eq!(session_ttl(Some("99999999999999999999")), 1800);
    assert_eq!(max_sessions(None), 100);
    assert_eq!(max_sessions(Some("7")), 7);
    assert_eq!(max_sessions(Some("-7")), 100);
    assert_eq!(max_sessions(Some("")), 100);
}

#[test]
fn an_expired_token_is_told_by_status() {
    assert_eq!(acquire_error_status("Qwen token expired or invalid"), 401);
    assert_eq!(acquire_error_status("No chat ID in response"), 500);
}

#[test]
fn ids_and_times_are_fresh() {
    let ids = [completion_id(), completion_id()];
    assert_ne!(ids[0], ids[1]);
    assert!(ids[0].starts_with("chatcmpl-") && ids[0].len() == 45);
    assert!(ids[0][9..].chars().all(|c| c == '-' || c.is_ascii_hexdigit()));
    let now = now_millis();
    assert!(now > 1_600_000_000_000);
    assert!((now / 1000).abs_diff(created_now() as u64) <= 5);
    assert_eq!(low_bits((1u128 << 64) + 3), 3);
}

#[test]
fn times_are_counted_from_the_epoch() {
    let epoch = std::time::UNIX_EPOCH;
    assert_eq!(millis_at(epoch), 0);
    assert_eq!(millis_at(epoch + std::time::Duration::from_micros(1_500_999)), 1_500);
    assert_eq!(millis_at(epoch - std::time::Duration::from_secs(1)), 0);
    let before = millis_at(std::time::SystemTime::now());
    let now = now_millis();
    let after = millis_at(std::time::SystemTime::now());
    assert!(before <= now && now <= after);
}

#[test]
fn other_clients_leave_a_chat_alone() {
    let mut manager = SessionManager::new();
    open(&mut manager, "a", "c1", 0);
    let mut session = ask(&mut manager, "a", 1).unwrap();
    session.set_parent_id("r1".to_string(), 2);
    manager.keep("a", &session);
    assert!(ask(&mut manager, "b", 3).is_none());
    let again = ask(&mut manager, "a", 4).unwrap();
    assert_eq!(again.chat_id, "c1");
    assert_eq!(again.parent_id.as_deref(), Some("r1"));
}

#[test]
fn requests_for_one_chat_take_turns() {
    let mut turns = Turns::new();
    let first = turns.join("c1").unwrap();
    let second = turns.join("c1").unwrap();
    let other = turns.join("c2").unwrap();
    let third = turns.join("c1").unwrap();
    assert!(turns.may_go("c1", first));
    assert!(!turns.may_go("c1", second));
    assert!(!turns.may_go("c1", third));
    assert!(turns.may_go("c2", other));
    assert!(!turns.may_go("c1", other));
    turns.leave(second);
    assert!(turns.may_go("c1", first) && !turns.may_go("c1", third));
    turns.leave(first);
    turns.leave(first);
    assert!(turns.may_go("c1", third));
    turns.leave(third);
    assert!(!turns.may_go("c1", third));
    let last = turns.join("c1").unwrap();
    assert!(turns.may_go("c1", last) && last > third);
}
