use securitydept_core::error::Error;
use securitydept_core::models::AuthEntry;
use securitydept_core::models::AuthEntryKind;
use securitydept_core::models::Group;
use securitydept_core::models::Timestamp;
use securitydept_core::store::DataFile;
use securitydept_core::store::Store;

fn at(secs: i64) -> Timestamp {
    Timestamp { secs, nanos: 0 }
}

fn new_store() -> Store {
    Store::load(DataFile::empty())
}

fn names_unique(store: &Store) -> bool {
    let entries = store.list_entries();
    let groups = store.list_groups();
    let mut ok = true;
    for (i, a) in entries.iter().enumerate() {
        for b in entries.iter().skip(i + 1) {
            ok = ok && a.name != b.name;
        }
    }
    for (i, a) in groups.iter().enumerate() {
        for b in groups.iter().skip(i + 1) {
            ok = ok && a.name != b.name;
        }
    }
    ok
}

fn references_resolve(store: &Store) -> bool {
    let groups = store.list_groups();
    store
        .list_entries()
        .iter()
        .all(|e| e.group_ids.iter().all(|gid| groups.iter().any(|g| &g.id == gid)))
}

#[test]
fn delete_group_removes_group_membership_from_entries() {
    let mut store = new_store();

    let e1 = store
        .create_entry(AuthEntry::new_token(
            "entry-a".to_string(),
            "hash-a".to_string(),
            vec![],
        ))
        .expect("create entry a");

    let e2 = store
        .create_entry(AuthEntry::new_token(
            "entry-b".to_string(),
            "hash-b".to_string(),
            vec![],
        ))
        .expect("create entry b");

    let created_group = store
        .create_group(
            Group::new("g-delete".to_string()),
            Some(vec![e1.id.clone(), e2.id.clone()]),
        )
        .expect("create group");

    store
        .delete_group(&created_group.id)
        .expect("delete group");

    let reloaded_e1 = store.get_entry(&e1.id).expect("reload entry a");
    let reloaded_e2 = store.get_entry(&e2.id).expect("reload entry b");
    assert!(!reloaded_e1.group_ids.iter().any(|g| g == &created_group.id));
    assert!(!reloaded_e2.group_ids.iter().any(|g| g == &created_group.id));
}

#[test]
fn update_group_updates_entry_memberships_and_renames_group() {
    let mut store = new_store();

    let e1 = store
        .create_entry(AuthEntry::new_token(
            "entry-a".to_string(),
            "hash-a".to_string(),
            vec![],
        ))
        .expect("create entry a");

    let e2 = store
        .create_entry(AuthEntry::new_token(
            "entry-b".to_string(),
            "hash-b".to_string(),
            vec![],
        ))
        .expect("create entry b");

    let created_group = store
        .create_group(
            Group::new("old-group".to_string()),
            Some(vec![e1.id.clone()]),
        )
        .expect("create group");

    store
        .update_group(
            &created_group.id,
            "new-group".to_string(),
            Some(vec![e2.id.clone()]),
        )
        .expect("update group");

    let reloaded_e1 = store.get_entry(&e1.id).expect("reload entry a");
    let reloaded_e2 = store.get_entry(&e2.id).expect("reload entry b");
    assert!(!reloaded_e1.group_ids.iter().any(|g| g == &created_group.id));
    assert!(reloaded_e2.group_ids.iter().any(|g| g == &created_group.id));
    assert_eq!(store.get_group(&created_group.id).unwrap().name, "new-group");
    assert!(store.find_group_by_name("old-group").is_none());
}

#[test]
fn reload_takes_over_a_changed_document() {
    let mut store = new_store();
    let created = store
        .create_entry(AuthEntry::new_token(
            "entry-a".to_string(),
            "hash-a".to_string(),
            vec![],
        ))
        .expect("create entry");
    let written = store.data().clone();
    store.commit(written.clone(), at(100));
    assert_eq!(store.cache_version(), Some(at(100)));

    let mut disk_data = written;
    disk_data.entries[0].name = "entry-from-external-change".to_string();

    // Same modification time: the cache stays.
    assert!(!store.reload(disk_data.clone(), at(100)));
    assert_eq!(store.get_entry(&created.id).unwrap().name, "entry-a");

    // Another modification time: the cache is replaced.
    assert!(store.reload(disk_data, at(101)));
    assert_eq!(
        store.get_entry(&created.id).unwrap().name,
        "entry-from-external-change"
    );
    assert_eq!(store.cache_version(), Some(at(101)));
}

#[test]
fn mutations_on_the_fresh_document_do_not_lose_updates() {
    // Two stores over one file: each mutation starts from what the file holds.
    let mut file = DataFile::empty();

    let mut a = Store::load(file.clone());
    a.create_entry(AuthEntry::new_token(
        "entry-a".to_string(),
        "hash-a".to_string(),
        vec![],
    ))
    .expect("create entry a");
    file = a.into_data();

    let mut b = Store::load(file.clone());
    b.create_entry(AuthEntry::new_token(
        "entry-b".to_string(),
        "hash-b".to_string(),
        vec![],
    ))
    .expect("create entry b");
    file = b.into_data();

    let has_a = file.entries.iter().any(|e| e.name == "entry-a");
    let has_b = file.entries.iter().any(|e| e.name == "entry-b");
    assert!(has_a && has_b);

    // A name taken by the other store's commit is seen.
    let mut c = Store::load(file);
    let clash = c.create_entry(AuthEntry::new_token(
        "entry-a".to_string(),
        "hash-c".to_string(),
        vec![],
    ));
    assert_eq!(
        clash,
        Err(Error::DuplicateEntryName {
            name: "entry-a".to_string()
        })
    );
}

#[test]
fn create_entry_checks_name_and_groups() {
    let mut store = new_store();
    let g = store
        .create_group_at(Group::with_id("g1".to_string(), "admins".to_string()), None, at(1))
        .unwrap();
    assert_eq!(g, Group { id: "g1".to_string(), name: "admins".to_string() });

    let alice = AuthEntry::basic(
        "e1".to_string(),
        at(2),
        "alice".to_string(),
        "alice".to_string(),
        "phc".to_string(),
        vec!["g1".to_string(), "g1".to_string()],
    );
    let stored = store.create_entry(alice).unwrap();
    // memberships are deduplicated
    assert_eq!(stored.group_ids, vec!["g1".to_string()]);
    assert_eq!(stored.kind, AuthEntryKind::Basic);
    assert_eq!(stored.created_at, at(2));
    assert_eq!(store.get_entry("e1").unwrap(), stored);
    assert_eq!(store.list_entries(), vec![stored.clone()]);

    let clash = AuthEntry::token("e2".to_string(), at(3), "alice".to_string(), "h".to_string(), vec![]);
    assert_eq!(
        store.create_entry(clash),
        Err(Error::DuplicateEntryName { name: "alice".to_string() })
    );

    let dangling = AuthEntry::token(
        "e3".to_string(),
        at(3),
        "ci".to_string(),
        "h".to_string(),
        vec!["g1".to_string(), "nope".to_string(), "nada".to_string()],
    );
    assert_eq!(
        store.create_entry(dangling),
        Err(Error::GroupNotFound { id: "nope".to_string() })
    );
    // a failed mutation changes nothing
    assert_eq!(store.list_entries().len(), 1);

    // the name clash is reported before the unknown group
    let both = AuthEntry::token(
        "e4".to_string(),
        at(3),
        "alice".to_string(),
        "h".to_string(),
        vec!["nope".to_string()],
    );
    assert_eq!(
        store.create_entry(both),
        Err(Error::DuplicateEntryName { name: "alice".to_string() })
    );
    assert!(names_unique(&store));
    assert!(references_resolve(&store));
}

#[test]
fn update_entry_replaces_what_is_given() {
    let mut store = new_store();
    store.create_group_at(Group::with_id("g1".to_string(), "a".to_string()), None, at(1)).unwrap();
    store.create_group_at(Group::with_id("g2".to_string(), "b".to_string()), None, at(1)).unwrap();
    store
        .create_entry(AuthEntry::basic(
            "e1".to_string(),
            at(2),
            "alice".to_string(),
            "al".to_string(),
            "phc1".to_string(),
            vec!["g1".to_string()],
        ))
        .unwrap();
    store
        .create_entry(AuthEntry::token("e2".to_string(), at(2), "ci".to_string(), "h".to_string(), vec![]))
        .unwrap();

    let updated = store
        .update_entry_at(
            "e1",
            Some("alice2".to_string()),
            None,
            Some("phc2".to_string()),
            Some(vec!["g2".to_string(), "g2".to_string(), "g1".to_string()]),
            at(9),
        )
        .unwrap();
    assert_eq!(updated.name, "alice2");
    assert_eq!(updated.username, Some("al".to_string()));
    assert_eq!(updated.password_hash, Some("phc2".to_string()));
    assert_eq!(updated.group_ids, vec!["g2".to_string(), "g1".to_string()]);
    assert_eq!(updated.created_at, at(2));
    assert_eq!(updated.updated_at, at(9));
    assert_eq!(store.get_entry("e1").unwrap(), updated);

    // keeping one's own name is no clash
    assert!(store
        .update_entry_at("e1", Some("alice2".to_string()), None, None, None, at(10))
        .is_ok());
    // another entry's name is
    assert_eq!(
        store.update_entry_at("e1", Some("ci".to_string()), None, None, None, at(11)),
        Err(Error::DuplicateEntryName { name: "ci".to_string() })
    );
    assert_eq!(
        store.update_entry_at("missing", None, None, None, None, at(11)),
        Err(Error::EntryNotFound { id: "missing".to_string() })
    );
    // the name clash is reported before the missing entry
    assert_eq!(
        store.update_entry_at("missing", Some("ci".to_string()), None, None, None, at(11)),
        Err(Error::DuplicateEntryName { name: "ci".to_string() })
    );
    assert_eq!(
        store.update_entry_at("e1", None, None, None, Some(vec!["gx".to_string()]), at(11)),
        Err(Error::GroupNotFound { id: "gx".to_string() })
    );
    assert_eq!(store.get_entry("e1").unwrap().updated_at, at(10));

    // update_entry stamps the current time
    let before = store.get_entry("e2").unwrap();
    let after = store.update_entry("e2", None, None, None, None).unwrap();
    assert_eq!(after.name, before.name);
    assert!(after.updated_at.is_after(&at(2)));
    assert!(names_unique(&store));
    assert!(references_resolve(&store));
}

#[test]
fn delete_entry_removes_or_reports() {
    let mut store = new_store();
    store
        .create_entry(AuthEntry::token("e1".to_string(), at(1), "a".to_string(), "h".to_string(), vec![]))
        .unwrap();
    store
        .create_entry(AuthEntry::token("e2".to_string(), at(1), "b".to_string(), "h".to_string(), vec![]))
        .unwrap();
    assert_eq!(store.delete_entry("e1"), Ok(()));
    assert_eq!(
        store.get_entry("e1"),
        Err(Error::EntryNotFound { id: "e1".to_string() })
    );
    assert_eq!(
        store.delete_entry("e1"),
        Err(Error::EntryNotFound { id: "e1".to_string() })
    );
    assert_eq!(store.list_entries().len(), 1);
    assert_eq!(store.list_entries()[0].id, "e2");
}

#[test]
fn create_group_adds_members_by_union() {
    let mut store = new_store();
    store
        .create_entry(AuthEntry::token("e1".to_string(), at(1), "a".to_string(), "h".to_string(), vec![]))
        .unwrap();
    store
        .create_entry(AuthEntry::token("e2".to_string(), at(1), "b".to_string(), "h".to_string(), vec![]))
        .unwrap();
    store
        .create_group_at(
            Group::with_id("g1".to_string(), "admins".to_string()),
            Some(vec!["e1".to_string()]),
            at(5),
        )
        .unwrap();
    let e1 = store.get_entry("e1").unwrap();
    let e2 = store.get_entry("e2").unwrap();
    assert_eq!(e1.group_ids, vec!["g1".to_string()]);
    assert_eq!(e1.updated_at, at(5));
    assert!(e2.group_ids.is_empty());
    assert_eq!(e2.updated_at, at(1));

    assert_eq!(
        store.create_group_at(Group::with_id("g2".to_string(), "admins".to_string()), None, at(6)),
        Err(Error::DuplicateGroupName { name: "admins".to_string() })
    );
    assert_eq!(
        store.create_group_at(
            Group::with_id("g2".to_string(), "ops".to_string()),
            Some(vec!["e1".to_string(), "ghost".to_string()]),
            at(6)
        ),
        Err(Error::EntryNotFound { id: "ghost".to_string() })
    );
    assert_eq!(store.list_groups().len(), 1);
    assert_eq!(store.get_entry("e1").unwrap().updated_at, at(5));
    assert_eq!(
        store.get_group("g2"),
        Err(Error::GroupNotFound { id: "g2".to_string() })
    );
    assert_eq!(store.find_group_by_name("admins").unwrap().id, "g1");
    assert_eq!(store.entries_by_group_id("g1"), vec![e1.clone()]);
    assert_eq!(store.entries_by_group("admins"), vec![e1]);
    assert!(store.entries_by_group("nobody").is_empty());
    assert!(store.entries_by_group_id("g9").is_empty());
}

#[test]
fn update_group_bumps_only_changed_entries() {
    let mut store = new_store();
    for (id, name) in [("e1", "a"), ("e2", "b"), ("e3", "c")] {
        store
            .create_entry(AuthEntry::token(id.to_string(), at(1), name.to_string(), "h".to_string(), vec![]))
            .unwrap();
    }
    store
        .create_group_at(
            Group::with_id("g1".to_string(), "admins".to_string()),
            Some(vec!["e1".to_string(), "e2".to_string()]),
            at(2),
        )
        .unwrap();
    store.create_group_at(Group::with_id("g2".to_string(), "ops".to_string()), None, at(2)).unwrap();

    // without a list, membership stays
    store.update_group_at("g1", "root".to_string(), None, at(3)).unwrap();
    assert_eq!(store.get_entry("e1").unwrap().updated_at, at(2));
    assert_eq!(store.entries_by_group_id("g1").len(), 2);

    // e1 leaves, e2 stays, e3 joins
    let g = store
        .update_group_at("g1", "root".to_string(), Some(vec!["e2".to_string(), "e3".to_string()]), at(4))
        .unwrap();
    assert_eq!(g, Group { id: "g1".to_string(), name: "root".to_string() });
    let e1 = store.get_entry("e1").unwrap();
    let e2 = store.get_entry("e2").unwrap();
    let e3 = store.get_entry("e3").unwrap();
    assert!(e1.group_ids.is_empty());
    assert_eq!(e1.updated_at, at(4));
    assert_eq!(e2.group_ids, vec!["g1".to_string()]);
    assert_eq!(e2.updated_at, at(2));
    assert_eq!(e3.group_ids, vec!["g1".to_string()]);
    assert_eq!(e3.updated_at, at(4));

    assert_eq!(
        store.update_group_at("g1", "ops".to_string(), None, at(5)),
        Err(Error::DuplicateGroupName { name: "ops".to_string() })
    );
    assert_eq!(
        store.update_group_at("gx", "x".to_string(), None, at(5)),
        Err(Error::GroupNotFound { id: "gx".to_string() })
    );
    assert_eq!(
        store.update_group_at("g1", "root".to_string(), Some(vec!["zz".to_string()]), at(5)),
        Err(Error::EntryNotFound { id: "zz".to_string() })
    );
    assert!(names_unique(&store));
    assert!(references_resolve(&store));
}

#[test]
fn delete_group_leaves_no_dangling_reference() {
    let mut store = new_store();
    store.create_group_at(Group::with_id("g1".to_string(), "a".to_string()), None, at(1)).unwrap();
    store.create_group_at(Group::with_id("g2".to_string(), "b".to_string()), None, at(1)).unwrap();
    store
        .create_entry(AuthEntry::token(
            "e1".to_string(),
            at(1),
            "x".to_string(),
            "h".to_string(),
            vec!["g1".to_string(), "g2".to_string()],
        ))
        .unwrap();
    store
        .create_entry(AuthEntry::token(
            "e2".to_string(),
            at(1),
            "y".to_string(),
            "h".to_string(),
            vec!["g2".to_string()],
        ))
        .unwrap();
    assert_eq!(store.delete_group_at("g1", at(7)), Ok(()));
    let e1 = store.get_entry("e1").unwrap();
    let e2 = store.get_entry("e2").unwrap();
    assert_eq!(e1.group_ids, vec!["g2".to_string()]);
    assert_eq!(e1.updated_at, at(7));
    assert_eq!(e2.group_ids, vec!["g2".to_string()]);
    assert_eq!(e2.updated_at, at(1));
    assert_eq!(
        store.delete_group_at("g1", at(8)),
        Err(Error::GroupNotFound { id: "g1".to_string() })
    );
    assert!(references_resolve(&store));
    assert_eq!(store.list_groups(), vec![Group { id: "g2".to_string(), name: "b".to_string() }]);
}

#[test]
fn new_entries_are_consistent_with_their_kind() {
    let b = AuthEntry::new_basic("n".to_string(), "u".to_string(), "p".to_string(), vec![]);
    assert_eq!(b.kind, AuthEntryKind::Basic);
    assert_eq!(b.username, Some("u".to_string()));
    assert_eq!(b.password_hash, Some("p".to_string()));
    assert_eq!(b.token_hash, None);
    assert_eq!(b.created_at, b.updated_at);
    assert_eq!(b.id.len(), 36);
    let t = AuthEntry::new_token("n".to_string(), "h".to_string(), vec!["g".to_string()]);
    assert_eq!(t.kind, AuthEntryKind::Token);
    assert_eq!(t.username, None);
    assert_eq!(t.password_hash, None);
    assert_eq!(t.token_hash, Some("h".to_string()));
    assert_eq!(t.group_ids, vec!["g".to_string()]);
    assert_ne!(b.id, t.id);
    let g = Group::new("admins".to_string());
    assert_eq!(g.name, "admins");
    assert_eq!(g.id.len(), 36);
}

#[test]
fn timestamps_compare_and_saturate() {
    let a = Timestamp { secs: 5, nanos: 10 };
    assert!(Timestamp { secs: 5, nanos: 11 }.is_after(&a));
    assert!(Timestamp { secs: 6, nanos: 0 }.is_after(&a));
    assert!(!a.is_after(&a));
    assert!(!Timestamp { secs: 4, nanos: 999 }.is_after(&a));
    assert_eq!(a.plus_seconds(86400), Timestamp { secs: 86405, nanos: 10 });
    assert_eq!(a.plus_seconds(-6), Timestamp { secs: -1, nanos: 10 });
    assert_eq!(a.plus_seconds(i64::MAX), Timestamp { secs: i64::MAX, nanos: 10 });
    assert_eq!(
        Timestamp { secs: -5, nanos: 0 }.plus_seconds(i64::MIN),
        Timestamp { secs: i64::MIN, nanos: 0 }
    );
}

#[test]
fn documents_are_checked_against_the_invariant() {
    let group = |id: &str, name: &str| Group { id: id.to_string(), name: name.to_string() };
    let entry = |id: &str, name: &str, groups: &[&str]| {
        AuthEntry::token(
            id.to_string(),
            at(1),
            name.to_string(),
            "h".to_string(),
            groups.iter().map(|g| g.to_string()).collect(),
        )
    };
    assert!(DataFile::empty().is_well_formed());
    let good = DataFile {
        entries: vec![entry("e1", "a", &["g1", "g2"]), entry("e2", "b", &[])],
        groups: vec![group("g1", "x"), group("g2", "y")],
    };
    assert!(good.is_well_formed());
    let dangling = DataFile {
        entries: vec![entry("e1", "a", &["g1", "g3"])],
        groups: vec![group("g1", "x")],
    };
    assert!(!dangling.is_well_formed());
    let same_entry_name = DataFile {
        entries: vec![entry("e1", "a", &[]), entry("e2", "b", &[]), entry("e3", "a", &[])],
        groups: vec![],
    };
    assert!(!same_entry_name.is_well_formed());
    let same_group_name = DataFile {
        entries: vec![],
        groups: vec![group("g1", "x"), group("g2", "x")],
    };
    assert!(!same_group_name.is_well_formed());
    let repeated_membership = DataFile {
        entries: vec![entry("e1", "a", &["g1", "g1"])],
        groups: vec![group("g1", "x")],
    };
    assert!(!repeated_membership.is_well_formed());
    // the same id twice is no breach of the invariant
    let same_ids = DataFile {
        entries: vec![entry("e1", "a", &[]), entry("e1", "b", &[])],
        groups: vec![group("g1", "x"), group("g1", "y")],
    };
    assert!(same_ids.is_well_formed());
}
