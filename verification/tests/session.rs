use mcserver_handler::session::SessionStore;

#[test]
fn a_new_store_accepts_nothing() {
    let store = SessionStore::new();
    assert!(!store.is_valid(&"".to_string()));
    assert!(!store.is_valid(&"0".to_string()));
}

#[test]
fn a_session_gets_the_number_that_was_drawn() {
    let mut store = SessionStore::new();
    assert_eq!(store.create(0), 0);
    assert_eq!(store.create(4294967295), 4294967295);
    assert_eq!(store.create(1234), 1234);
    assert!(store.is_valid(&"0".to_string()));
    assert!(store.is_valid(&"4294967295".to_string()));
    assert!(store.is_valid(&"1234".to_string()));
}

#[test]
fn a_session_gets_a_number_that_no_session_has() {
    let mut store = SessionStore::new();
    assert_eq!(store.create(7), 7);
    assert_eq!(store.create(7), 8);
    assert_eq!(store.create(7), 9);
    assert_eq!(store.create(8), 10);
    assert_eq!(store.create(4294967295), 4294967295);
    assert_eq!(store.create(4294967295), 0);
    assert_eq!(store.create(4294967295), 1);
    store.remove(&"8".to_string());
    assert_eq!(store.create(7), 8);
    for token in ["7", "8", "9", "10", "4294967295", "0", "1"] {
        assert!(store.is_valid(&token.to_string()), "{}", token);
    }
    store.remove(&"7".to_string());
    assert!(!store.is_valid(&"7".to_string()));
    assert!(store.is_valid(&"8".to_string()));
}

#[test]
fn a_created_session_is_valid_until_it_is_removed() {
    let mut store = SessionStore::new();
    let first = store.create(17).to_string();
    let second = store.create(99).to_string();
    assert!(store.is_valid(&first));
    assert!(store.is_valid(&second));
    assert!(!store.is_valid(&"1".to_string()));
    store.remove(&first);
    assert!(!store.is_valid(&first));
    assert!(store.is_valid(&second));
    store.remove(&first);
    assert!(!store.is_valid(&first));
    assert!(store.is_valid(&second));
}

#[test]
fn a_cleared_store_accepts_nothing() {
    let mut store = SessionStore::new();
    let token = store.create(5).to_string();
    store.clear();
    assert!(!store.is_valid(&token));
    assert_eq!(store.create(5), 5);
}
