use rustssh::connection::{AuthType, Connection, ConnectionStore, ID_LENGTH};

fn profile(id: &str, name: &str) -> Connection {
    Connection::with_id(
        id.to_string(),
        name.to_string(),
        "example.org".to_string(),
        22,
        "root".to_string(),
        AuthType::Password,
        Some("secret".to_string()),
        None,
        None,
    )
}

fn names(store: &ConnectionStore) -> Vec<String> {
    store.connections().iter().map(|c| c.name.clone()).collect()
}

#[test]
fn with_id_keeps_every_field() {
    let c = Connection::with_id(
        "id-1".to_string(),
        "web".to_string(),
        "10.0.0.1".to_string(),
        2222,
        "deploy".to_string(),
        AuthType::KeyFile,
        None,
        Some("/home/me/.ssh/id_ed25519".to_string()),
        Some("phrase".to_string()),
    );
    assert_eq!(c.id, "id-1");
    assert_eq!(c.name, "web");
    assert_eq!(c.host, "10.0.0.1");
    assert_eq!(c.port, 2222);
    assert_eq!(c.username, "deploy");
    assert_eq!(c.auth_type, AuthType::KeyFile);
    assert_eq!(c.password, None);
    assert_eq!(c.private_key_path.as_deref(), Some("/home/me/.ssh/id_ed25519"));
    assert_eq!(c.passphrase.as_deref(), Some("phrase"));
}

#[test]
fn new_draws_an_identifier_of_36_characters() {
    let c = Connection::new(
        "web".to_string(),
        "10.0.0.1".to_string(),
        22,
        "deploy".to_string(),
        AuthType::Password,
        Some("pw".to_string()),
        None,
        None,
    );
    assert_eq!(ID_LENGTH, 36);
    assert_eq!(c.id.chars().count(), 36);
    assert_eq!(c.name, "web");
    assert_eq!(c.host, "10.0.0.1");
    assert_eq!(c.port, 22);
    assert_eq!(c.username, "deploy");
    assert_eq!(c.auth_type, AuthType::Password);
    assert_eq!(c.password.as_deref(), Some("pw"));
    assert_eq!(c.private_key_path, None);
    assert_eq!(c.passphrase, None);
}

#[test]
fn new_draws_a_new_identifier_each_time() {
    let a = Connection::new(
        "a".to_string(),
        "h".to_string(),
        22,
        "u".to_string(),
        AuthType::Password,
        None,
        None,
        None,
    );
    let b = Connection::new(
        "a".to_string(),
        "h".to_string(),
        22,
        "u".to_string(),
        AuthType::Password,
        None,
        None,
        None,
    );
    assert_ne!(a.id, b.id);
}

#[test]
fn store_starts_with_what_was_loaded() {
    let store = ConnectionStore::new(vec![profile("1", "one"), profile("2", "two")]);
    assert_eq!(names(&store), vec!["one", "two"]);
    let empty = ConnectionStore::new(Vec::new());
    assert!(empty.connections().is_empty());
}

#[test]
fn add_appends() {
    let mut store = ConnectionStore::new(vec![profile("1", "one")]);
    store.add(profile("2", "two"));
    store.add(profile("1", "again"));
    assert_eq!(names(&store), vec!["one", "two", "again"]);
}

#[test]
fn update_replaces_the_profile_with_the_identifier() {
    let mut store =
        ConnectionStore::new(vec![profile("1", "one"), profile("2", "two"), profile("3", "three")]);
    let r = store.update(profile("2", "zwei"));
    assert_eq!(r, Ok(()));
    assert_eq!(names(&store), vec!["one", "zwei", "three"]);
}

#[test]
fn update_replaces_only_the_first_of_several() {
    let mut store =
        ConnectionStore::new(vec![profile("1", "one"), profile("2", "two"), profile("2", "deux")]);
    assert_eq!(store.update(profile("2", "zwei")), Ok(()));
    assert_eq!(names(&store), vec!["one", "zwei", "deux"]);
}

#[test]
fn update_of_an_unknown_identifier_is_an_error() {
    let mut store = ConnectionStore::new(vec![profile("1", "one")]);
    let r = store.update(profile("9", "nine"));
    assert_eq!(r, Err("Connection not found".to_string()));
    assert_eq!(names(&store), vec!["one"]);
}

#[test]
fn update_in_an_empty_store_is_an_error() {
    let mut store = ConnectionStore::new(Vec::new());
    assert_eq!(store.update(profile("1", "one")), Err("Connection not found".to_string()));
    assert!(store.connections().is_empty());
}

#[test]
fn delete_drops_every_profile_with_the_identifier() {
    let mut store = ConnectionStore::new(vec![
        profile("1", "one"),
        profile("2", "two"),
        profile("1", "uno"),
        profile("3", "three"),
    ]);
    store.delete("1");
    assert_eq!(names(&store), vec!["two", "three"]);
}

#[test]
fn delete_of_an_unknown_identifier_changes_nothing() {
    let mut store = ConnectionStore::new(vec![profile("1", "one"), profile("2", "two")]);
    store.delete("9");
    assert_eq!(names(&store), vec!["one", "two"]);
    store.delete("");
    assert_eq!(names(&store), vec!["one", "two"]);
}

#[test]
fn delete_can_empty_the_store() {
    let mut store = ConnectionStore::new(vec![profile("1", "one"), profile("1", "uno")]);
    store.delete("1");
    assert!(store.connections().is_empty());
}

#[test]
fn find_gives_the_first_profile_with_the_identifier() {
    let store =
        ConnectionStore::new(vec![profile("1", "one"), profile("2", "two"), profile("2", "deux")]);
    assert_eq!(store.find("2").map(|c| c.name.as_str()), Some("two"));
    assert_eq!(store.find("1").map(|c| c.name.as_str()), Some("one"));
    assert!(store.find("3").is_none());
}

#[test]
fn into_connections_gives_the_profiles_up() {
    let mut store = ConnectionStore::new(vec![profile("1", "one")]);
    store.add(profile("2", "two"));
    let list = store.into_connections();
    assert_eq!(list.len(), 2);
    assert_eq!(list[1].id, "2");
}
