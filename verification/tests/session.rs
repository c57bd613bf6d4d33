use securitydept_core::models::Timestamp;
use securitydept_core::session::Session;
use securitydept_core::session::SessionManager;
use securitydept_core::table::Table;

fn at(secs: i64) -> Timestamp {
    Timestamp { secs, nanos: 0 }
}

#[test]
fn session_lives_for_its_time_to_live() {
    let mut sessions = SessionManager::new(86400);
    sessions.create_at(
        "sid".to_string(),
        at(1000),
        "Ada".to_string(),
        Some("ada.png".to_string()),
        "{\"sub\":\"ada\"}".to_string(),
    );
    let expected = Session {
        session_id: "sid".to_string(),
        display_name: "Ada".to_string(),
        picture: Some("ada.png".to_string()),
        claims: "{\"sub\":\"ada\"}".to_string(),
        expires_at: at(87400),
    };
    assert_eq!(sessions.get_at("sid", at(1000)), Some(expected.clone()));
    assert_eq!(sessions.get_at("sid", at(87399)), Some(expected));
    // valid only while the expiry is later than now
    assert_eq!(sessions.get_at("sid", at(87400)), None);
    assert_eq!(sessions.get_at("sid", at(90000)), None);
    assert_eq!(sessions.get_at("other", at(1000)), None);
}

#[test]
fn created_session_is_found_until_removed() {
    let mut sessions = SessionManager::new(86400);
    let id = sessions.create("dev".to_string(), None, "{\"oidc_enabled\":false}".to_string());
    assert_eq!(id.len(), 36);
    let session = sessions.get(&id).expect("session");
    assert_eq!(session.session_id, id);
    assert_eq!(session.display_name, "dev");
    assert_eq!(session.picture, None);
    assert_eq!(session.claims, "{\"oidc_enabled\":false}");
    let other = sessions.create("dev".to_string(), None, "{}".to_string());
    assert_ne!(id, other);
    sessions.remove(&id);
    assert_eq!(sessions.get(&id), None);
    assert!(sessions.get(&other).is_some());
    sessions.remove(&id);
    sessions.remove("never-there");
    assert!(sessions.get(&other).is_some());
}

#[test]
fn session_without_time_to_live_is_never_valid() {
    let mut sessions = SessionManager::new(0);
    let id = sessions.create("x".to_string(), None, "{}".to_string());
    assert_eq!(sessions.get(&id), None);
    let mut negative = SessionManager::new(-10);
    negative.create_at("s".to_string(), at(100), "x".to_string(), None, "{}".to_string());
    assert_eq!(negative.get_at("s", at(89)).unwrap().expires_at, at(90));
    assert_eq!(negative.get_at("s", at(90)), None);
}

#[test]
fn cleanup_keeps_only_live_sessions() {
    let mut sessions = SessionManager::new(10);
    sessions.create_at("a".to_string(), at(0), "a".to_string(), None, "{}".to_string());
    sessions.create_at("b".to_string(), at(5), "b".to_string(), None, "{}".to_string());
    sessions.create_at("c".to_string(), at(20), "c".to_string(), None, "{}".to_string());
    sessions.cleanup_at(at(10));
    // "a" expired at 10 and is gone even for an earlier clock
    assert_eq!(sessions.get_at("a", at(0)), None);
    assert!(sessions.get_at("b", at(10)).is_some());
    assert!(sessions.get_at("c", at(10)).is_some());
    sessions.cleanup_at(at(15));
    assert_eq!(sessions.get_at("b", at(0)), None);
    assert!(sessions.get_at("c", at(0)).is_some());
    sessions.cleanup();
    assert_eq!(sessions.get_at("c", at(0)), None);
}

#[test]
fn same_id_replaces_the_session() {
    let mut sessions = SessionManager::new(10);
    sessions.create_at("a".to_string(), at(0), "first".to_string(), None, "{}".to_string());
    sessions.create_at("a".to_string(), at(1), "second".to_string(), None, "{}".to_string());
    assert_eq!(sessions.get_at("a", at(2)).unwrap().display_name, "second");
    sessions.remove("a");
    assert_eq!(sessions.get_at("a", at(2)), None);
}

#[test]
fn table_is_a_map() {
    let mut t: Table<u32> = Table::new();
    assert_eq!(t.len(), 0);
    assert_eq!(t.get("a"), None);
    t.insert("a".to_string(), 1);
    t.insert("b".to_string(), 2);
    t.insert("a".to_string(), 3);
    assert_eq!(t.len(), 2);
    assert_eq!(t.get("a"), Some(&3));
    assert_eq!(t.get("b"), Some(&2));
    let mut keys = t.keys();
    keys.sort();
    assert_eq!(keys, vec!["a", "b"]);
    assert_eq!(t.remove("a"), Some(3));
    assert_eq!(t.remove("a"), None);
    assert_eq!(t.get("a"), None);
    assert_eq!(t.len(), 1);
}
