use vault_core::db::{contains_ignoring_case, Database, Password};
use vault_core::error::VaultError;

fn record(service: &str, username: &str, envelope: &str, notes: Option<&str>) -> Password {
    Password {
        id: None,
        service: service.to_string(),
        username: username.to_string(),
        password: envelope.to_string(),
        notes: notes.map(|n| n.to_string()),
    }
}

fn services(rows: &[Password]) -> Vec<String> {
    rows.iter().map(|p| p.service.clone()).collect()
}

#[test]
fn added_record_reads_back() {
    let mut db = Database::new();
    let id = db.add_password(&record("GitHub", "alice", "00ff", Some("work"))).unwrap();
    assert_eq!(id, 1);
    let got = db.get_password(id).unwrap();
    assert_eq!(got.id, Some(1));
    assert_eq!(got.service, "GitHub");
    assert_eq!(got.username, "alice");
    assert_eq!(got.password, "00ff");
    assert_eq!(got.notes, Some("work".to_string()));
}

#[test]
fn ids_increase_and_are_not_reused() {
    let mut db = Database::new();
    assert_eq!(db.add_password(&record("a", "u", "00", None)), Ok(1));
    assert_eq!(db.add_password(&record("b", "u", "00", None)), Ok(2));
    assert_eq!(db.delete_password(2), Ok(()));
    assert_eq!(db.add_password(&record("c", "u", "00", None)), Ok(3));
    assert_eq!(db.next_id(), 4);
}

#[test]
fn supplied_id_is_ignored_on_add() {
    let mut db = Database::new();
    let mut r = record("a", "u", "00", None);
    r.id = Some(99);
    assert_eq!(db.add_password(&r), Ok(1));
    assert!(db.get_password(99).is_none());
}

#[test]
fn deleted_record_is_gone() {
    let mut db = Database::new();
    let id = db.add_password(&record("GitHub", "alice", "00ff", None)).unwrap();
    let other = db.add_password(&record("Email", "bob", "11", None)).unwrap();
    assert_eq!(db.delete_password(id), Ok(()));
    assert!(db.get_password(id).is_none());
    assert_eq!(db.get_password(other).unwrap().service, "Email");
    assert_eq!(db.delete_password(id), Err(VaultError::NotFound));
}

#[test]
fn missing_id_reads_none() {
    let db = Database::new();
    assert!(db.get_password(1).is_none());
    assert!(db.get_password(-5).is_none());
}

#[test]
fn update_of_missing_id_is_not_found() {
    let mut db = Database::new();
    db.add_password(&record("a", "u", "00", None)).unwrap();
    let mut r = record("b", "v", "11", None);
    r.id = Some(42);
    assert_eq!(db.update_password(&r), Err(VaultError::NotFound));
    r.id = None;
    assert_eq!(db.update_password(&r), Err(VaultError::NotFound));
    assert_eq!(db.get_password(1).unwrap().service, "a");
}

#[test]
fn update_replaces_whole_record() {
    let mut db = Database::new();
    let id = db.add_password(&record("a", "u", "00", Some("n"))).unwrap();
    let keep = db.add_password(&record("k", "k", "22", None)).unwrap();
    let mut r = record("b", "v", "11", None);
    r.id = Some(id);
    assert_eq!(db.update_password(&r), Ok(()));
    let got = db.get_password(id).unwrap();
    assert_eq!(got.service, "b");
    assert_eq!(got.username, "v");
    assert_eq!(got.password, "11");
    assert_eq!(got.notes, None);
    assert_eq!(db.get_password(keep).unwrap().service, "k");
    assert_eq!(services(&db.get_all_passwords()), vec!["b", "k"]);
}

#[test]
fn list_is_in_insertion_order() {
    let mut db = Database::new();
    for s in ["Zeta", "Alpha", "Mid"] {
        db.add_password(&record(s, "u", "00", None)).unwrap();
    }
    let all = db.get_all_passwords();
    assert_eq!(services(&all), vec!["Zeta", "Alpha", "Mid"]);
    assert_eq!(all.iter().map(|p| p.id.unwrap()).collect::<Vec<_>>(), vec![1, 2, 3]);
    assert!(Database::new().get_all_passwords().is_empty());
}

#[test]
fn search_ignores_case() {
    let mut db = Database::new();
    for s in ["GitHub", "Gitea", "Email"] {
        db.add_password(&record(s, "someone", "00", None)).unwrap();
    }
    assert_eq!(services(&db.search_passwords("git")), vec!["GitHub", "Gitea"]);
    assert_eq!(services(&db.search_passwords("GIT")), vec!["GitHub", "Gitea"]);
    assert_eq!(services(&db.search_passwords("hub")), vec!["GitHub"]);
    assert!(db.search_passwords("nothing").is_empty());
}

#[test]
fn empty_query_matches_everything() {
    let mut db = Database::new();
    for s in ["GitHub", "Gitea", "Email"] {
        db.add_password(&record(s, "u", "00", None)).unwrap();
    }
    assert_eq!(services(&db.search_passwords("")), vec!["GitHub", "Gitea", "Email"]);
}

#[test]
fn search_matches_username_not_envelope() {
    let mut db = Database::new();
    db.add_password(&record("Bank", "Alice", "deadbeef", Some("alice notes"))).unwrap();
    db.add_password(&record("Shop", "bob", "00", None)).unwrap();
    assert_eq!(services(&db.search_passwords("ALI")), vec!["Bank"]);
    assert!(db.search_passwords("beef").is_empty());
    assert!(db.search_passwords("notes").is_empty());
}

#[test]
fn case_folding_is_ascii_only() {
    assert!(contains_ignoring_case("GitHub", "github"));
    assert!(contains_ignoring_case("abc", ""));
    assert!(!contains_ignoring_case("", "a"));
    assert!(contains_ignoring_case("ÉCOLE", "COLE"));
    assert!(!contains_ignoring_case("ÉCOLE", "école"));
}

#[test]
fn rows_reload_into_a_table() {
    let mut db = Database::new();
    db.add_password(&record("a", "u", "00", None)).unwrap();
    db.add_password(&record("b", "u", "11", None)).unwrap();
    db.delete_password(1).unwrap();
    let reloaded = Database::from_rows(db.get_all_passwords(), db.next_id()).unwrap();
    assert_eq!(services(&reloaded.get_all_passwords()), vec!["b"]);
    assert_eq!(reloaded.next_id(), 3);
}

#[test]
fn bad_rows_are_refused() {
    let mut a = record("a", "u", "00", None);
    let mut b = record("b", "u", "00", None);
    a.id = Some(2);
    b.id = Some(1);
    assert_eq!(Database::from_rows(vec![a, b], 5).err(), Some(VaultError::StorageError));
    let mut c = record("c", "u", "00", None);
    c.id = Some(5);
    assert_eq!(Database::from_rows(vec![c], 5).err(), Some(VaultError::StorageError));
    let d = record("d", "u", "00", None);
    assert_eq!(Database::from_rows(vec![d], 5).err(), Some(VaultError::StorageError));
    assert_eq!(Database::from_rows(vec![], 0).err(), Some(VaultError::StorageError));
    assert!(Database::from_rows(vec![], 1).is_ok());
}

#[test]
fn exhausted_id_space_is_a_storage_error() {
    let mut db = Database::from_rows(vec![], i64::MAX).unwrap();
    assert_eq!(db.add_password(&record("a", "u", "00", None)), Err(VaultError::StorageError));
    assert!(db.get_all_passwords().is_empty());
}

#[test]
fn load_resumes_after_largest_issued_id() {
    let mut a = record("a", "u", "00", None);
    a.id = Some(3);
    let mut b = record("b", "u", "00", None);
    b.id = Some(5);
    let mut db = Database::load(vec![a, b], 7).unwrap();
    assert_eq!(db.next_id(), 8);
    assert_eq!(db.add_password(&record("c", "u", "00", None)), Ok(8));

    let mut c = record("c", "u", "00", None);
    c.id = Some(9);
    assert_eq!(Database::load(vec![c], 2).unwrap().next_id(), 10);
    assert_eq!(Database::load(vec![], 0).unwrap().next_id(), 1);
    assert_eq!(Database::load(vec![], -4).unwrap().next_id(), 1);
    assert_eq!(Database::load(vec![], i64::MAX).err(), Some(VaultError::StorageError));
    let mut d = record("d", "u", "00", None);
    d.id = Some(2);
    let mut e = record("e", "u", "00", None);
    e.id = Some(1);
    assert_eq!(Database::load(vec![d, e], 0).err(), Some(VaultError::StorageError));
}
