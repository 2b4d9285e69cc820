use onetcli::sessions::{
    should_keep_session, ConnectionManager, DatabaseCheck, ReleaseOutcome, SessionError, SessionStart,
};

fn open(m: &mut ConnectionManager, config: &str, db: Option<&str>, now: u64) -> String {
    let database = db.map(|d| d.to_string());
    match m.begin_session(config, &database, now).unwrap() {
        SessionStart::Reused(id) => id,
        SessionStart::Connect { session_id, serial } => {
            let id = m.add_connected_session(config, serial, database, now).unwrap();
            assert_eq!(id, session_id);
            id
        }
    }
}

#[test]
fn sessions_are_reused_only_when_idle_on_the_same_database() {
    let mut m = ConnectionManager::new();
    let a = open(&mut m, "c1", Some("app"), 0);
    assert_eq!(a, "c1:session:1");
    let b = open(&mut m, "c1", Some("app"), 1);
    assert_eq!(b, "c1:session:2");
    assert_eq!(m.release_session(&a, DatabaseCheck::Unchanged, 2), Ok(ReleaseOutcome::Released));
    assert_eq!(open(&mut m, "c1", Some("app"), 3), a);
    assert_eq!(m.release_session(&a, DatabaseCheck::Unchanged, 4), Ok(ReleaseOutcome::Released));
    // no database named: never reused
    assert_eq!(open(&mut m, "c1", None, 5), "c1:session:3");
    let stats = m.stats();
    assert_eq!((stats.total_sessions, stats.active_sessions, stats.configs_with_sessions), (3, 2, 1));
}

#[test]
fn release_follows_database_switches_and_failures() {
    let mut m = ConnectionManager::new();
    let a = open(&mut m, "c1", Some("app"), 0);
    assert_eq!(m.release_session(&a, DatabaseCheck::Switched(Some("other".to_string())), 1), Ok(ReleaseOutcome::Released));
    let listed = m.list_sessions("c1", 10);
    assert_eq!(listed[0].database, Some("other".to_string()));
    assert_eq!(listed[0].idle_time, 9);
    assert_eq!(m.release_session(&a, DatabaseCheck::Failed, 2), Ok(ReleaseOutcome::Closed));
    assert_eq!(m.release_session(&a, DatabaseCheck::Unchanged, 3), Err(SessionError::Internal(format!("session not found: {}", a))));
    assert_eq!(m.close_session(&a), Err(SessionError::Internal(format!("session not found: {}", a))));
}

#[test]
fn cleanup_closes_idle_and_old_sessions() {
    let mut m = ConnectionManager::with_config(100, 1000);
    let a = open(&mut m, "c1", Some("a"), 0);
    let b = open(&mut m, "c2", Some("b"), 0);
    let _c = open(&mut m, "c2", Some("c"), 0);
    m.release_session(&a, DatabaseCheck::Unchanged, 10).unwrap();
    m.release_session(&b, DatabaseCheck::Unchanged, 500).unwrap();
    let closed = m.cleanup_expired_sessions(200);
    assert_eq!(closed, vec![a.clone()]);
    let closed = m.cleanup_expired_sessions(1001);
    assert_eq!(closed.len(), 2);
    assert_eq!(m.stats().total_sessions, 0);
}

#[test]
fn removing_a_config_closes_its_sessions() {
    let mut m = ConnectionManager::new();
    let a = open(&mut m, "c1", Some("a"), 0);
    let b = open(&mut m, "c2", Some("a"), 0);
    assert_eq!(m.remove_all_sessions("c1"), vec![a]);
    assert_eq!(m.list_sessions("c1", 0).len(), 0);
    assert!(m.touch_session(&b, 5));
    assert_eq!(m.close_session(&b), Ok(()));
    assert_eq!(m.stats().configs_with_sessions, 0);
}

#[test]
fn serials_are_checked() {
    let mut m = ConnectionManager::new();
    assert_eq!(m.add_connected_session("c", 1, None, 0), None);
    let _ = open(&mut m, "c", None, 0);
    assert_eq!(m.add_connected_session("c", 1, None, 0), None);
}

#[test]
fn sessions_stay_open_for_open_transactions() {
    assert!(should_keep_session("select 1", true));
    assert!(should_keep_session("begin; update t set a = 1;", false));
    assert!(!should_keep_session("begin; update t set a = 1; commit;", false));
    assert!(!should_keep_session("start transaction; rollback;", false));
    assert!(!should_keep_session("select 1", false));
}
