use api_for_cursor::credentials::{
    delete_api_key, get_api_key, has_api_key, read_api_key, set_api_key, StoreSession, ACCOUNT,
    LEGACY_SERVICE, SERVICE,
};
use keyring_core::{mock, set_default_store, Entry, Error};

fn session() -> StoreSession {
    StoreSession::new()
}

fn stored(service: &str) -> Option<String> {
    match Entry::new(service, ACCOUNT).unwrap().get_password() {
        Ok(p) => Some(p),
        Err(Error::NoEntry) => None,
        Err(e) => panic!("unexpected store error: {e}"),
    }
}

// One test, because the default store is shared by the whole process.
#[test]
fn api_key_in_a_credential_store() {
    // Before a store is registered every operation fails with its message.
    let no_store = "No default store has been set, so cannot search or create entries";
    assert_eq!(read_api_key(&mut session()), Err(no_store.to_string()));
    assert_eq!(set_api_key(&mut session(), "k".to_string()), Err(no_store.to_string()));
    assert_eq!(delete_api_key(&mut session()), Err(no_store.to_string()));
    assert_eq!(has_api_key(&mut session()), Err(no_store.to_string()));

    set_default_store(mock::Store::new().unwrap());

    // Nothing stored anywhere: the empty key, and nothing is written.
    assert_eq!(read_api_key(&mut session()), Ok(String::new()));
    assert_eq!(has_api_key(&mut session()), Ok(false));
    assert_eq!(stored(SERVICE), None);

    // Deleting nothing succeeds, also twice.
    assert_eq!(delete_api_key(&mut session()), Ok(()));
    assert_eq!(delete_api_key(&mut session()), Ok(()));

    // The key is stored trimmed under the current service.
    assert_eq!(set_api_key(&mut session(), "  crsr_abc\n".to_string()), Ok(()));
    assert_eq!(stored(SERVICE), Some("crsr_abc".to_string()));
    assert_eq!(stored(LEGACY_SERVICE), None);
    assert_eq!(get_api_key(&mut session()), Ok("crsr_abc".to_string()));
    assert_eq!(has_api_key(&mut session()), Ok(true));

    // Deleting removes it from the current service only.
    Entry::new(LEGACY_SERVICE, ACCOUNT).unwrap().set_password("kept").unwrap();
    assert_eq!(delete_api_key(&mut session()), Ok(()));
    assert_eq!(stored(SERVICE), None);
    assert_eq!(stored(LEGACY_SERVICE), Some("kept".to_string()));

    // A key found only under the legacy service is the answer and is moved.
    assert_eq!(read_api_key(&mut session()), Ok("kept".to_string()));
    assert_eq!(stored(SERVICE), Some("kept".to_string()));
    assert_eq!(stored(LEGACY_SERVICE), None);

    // A key under the current service wins over a legacy one, which stays.
    Entry::new(LEGACY_SERVICE, ACCOUNT).unwrap().set_password("old").unwrap();
    assert_eq!(read_api_key(&mut session()), Ok("kept".to_string()));
    assert_eq!(stored(LEGACY_SERVICE), Some("old".to_string()));

    // A failure of the store is its message, and the legacy entry is not
    // consulted.
    let entry = Entry::new(SERVICE, ACCOUNT).unwrap();
    let cred: &mock::Cred = entry.as_any().downcast_ref().unwrap();
    cred.set_error(Error::Invalid("password".to_string(), "locked".to_string()));
    assert_eq!(read_api_key(&mut session()), Err("Value of 'password' is invalid: locked".to_string()));
    assert_eq!(stored(LEGACY_SERVICE), Some("old".to_string()));

    // Setting an empty key stores it empty; it counts as absent.
    assert_eq!(set_api_key(&mut session(), " \t".to_string()), Ok(()));
    assert_eq!(has_api_key(&mut session()), Ok(false));
}
