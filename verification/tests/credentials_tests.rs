use kube_config_updater::credentials::{
    check_credentials_with, default_account, delete_credential_with, get_credential_with,
    keyring_error_is_unavailable, resolve_lookup, resolve_with_file_fallback, service_name,
    set_credential_with, CredentialResult, FileKeyring, KeyringBackend,
};

struct MockKeyring {
    store: Vec<((String, String), String)>,
}

impl MockKeyring {
    fn new() -> Self {
        MockKeyring { store: Vec::new() }
    }
}

impl KeyringBackend for MockKeyring {
    fn get(&self, service: &str, account: &str) -> CredentialResult {
        for ((s, a), pw) in &self.store {
            if s == service && a == account {
                return CredentialResult::Found(pw.clone());
            }
        }
        CredentialResult::NotFound
    }

    fn set(&mut self, service: &str, account: &str, password: &str) -> Result<(), String> {
        self.store
            .retain(|((s, a), _)| !(s == service && a == account));
        self.store
            .push(((service.to_string(), account.to_string()), password.to_string()));
        Ok(())
    }

    fn delete(&mut self, service: &str, account: &str) -> Result<(), String> {
        self.store
            .retain(|((s, a), _)| !(s == service && a == account));
        Ok(())
    }
}

/// A backend that cannot be reached at all.
struct DownKeyring;

impl KeyringBackend for DownKeyring {
    fn get(&self, _service: &str, _account: &str) -> CredentialResult {
        CredentialResult::Unavailable("dbus connection failed".to_string())
    }

    fn set(&mut self, _service: &str, _account: &str, _password: &str) -> Result<(), String> {
        Err("dbus connection failed".to_string())
    }

    fn delete(&mut self, _service: &str, _account: &str) -> Result<(), String> {
        Err("dbus connection failed".to_string())
    }
}

#[test]
fn test_get_credential_found() {
    let mut mock = MockKeyring::new();
    mock.set(service_name(), "my-server", "secret").unwrap();
    let result = get_credential_with("my-server", &mock);
    assert!(matches!(result, CredentialResult::Found(pw) if pw == "secret"));
}

#[test]
fn test_get_credential_falls_back_to_default() {
    let mut mock = MockKeyring::new();
    mock.set(service_name(), default_account(), "default-secret").unwrap();
    let result = get_credential_with("unknown-server", &mock);
    assert!(matches!(result, CredentialResult::Found(pw) if pw == "default-secret"));
}

#[test]
fn test_get_credential_not_found() {
    let mock = MockKeyring::new();
    let result = get_credential_with("no-such-server", &mock);
    assert!(matches!(result, CredentialResult::NotFound));
}

#[test]
fn test_set_and_delete_credential() {
    let mut mock = MockKeyring::new();
    set_credential_with("srv", "pw", &mut mock).unwrap();
    assert!(matches!(
        get_credential_with("srv", &mock),
        CredentialResult::Found(_)
    ));
    delete_credential_with("srv", &mut mock).unwrap();
    assert!(matches!(
        get_credential_with("srv", &mock),
        CredentialResult::NotFound
    ));
}

#[test]
fn test_check_credentials() {
    let mut mock = MockKeyring::new();
    mock.set(service_name(), "s1", "pw1").unwrap();
    let results = check_credentials_with(&["s1", "s2"], &mock);
    assert_eq!(results.len(), 2);
    assert!(matches!(&results[0].1, CredentialResult::Found(_)));
    assert!(matches!(&results[1].1, CredentialResult::NotFound));
}

#[test]
fn test_debug_redacts_password() {
    let found = CredentialResult::Found("super-secret".to_string());
    let debug_str = found.redacted();
    assert!(!debug_str.contains("super-secret"));
    assert!(debug_str.contains("redacted"));
}

#[test]
fn test_keyring_error_is_unavailable_detects_dbus() {
    assert!(keyring_error_is_unavailable(
        "Platform secure storage failure: DBus error: Failed to execute program org.freedesktop.secrets: No such file or directory"
    ));
    assert!(keyring_error_is_unavailable("dbus connection failed"));
    assert!(!keyring_error_is_unavailable("wrong password"));
    assert!(!keyring_error_is_unavailable("authentication failed"));
}

#[test]
fn test_unavailable_backend_propagates() {
    let down = DownKeyring;
    let result = get_credential_with("any", &down);
    assert!(matches!(result, CredentialResult::Unavailable(msg) if msg == "dbus connection failed"));
}

#[test]
fn test_resolve_lookup_prefers_server_entry() {
    let r = resolve_lookup(
        CredentialResult::Found("own".to_string()),
        CredentialResult::Found("dflt".to_string()),
    );
    assert!(matches!(r, CredentialResult::Found(pw) if pw == "own"));

    let r = resolve_lookup(
        CredentialResult::NotFound,
        CredentialResult::Found("dflt".to_string()),
    );
    assert!(matches!(r, CredentialResult::Found(pw) if pw == "dflt"));

    let r = resolve_lookup(CredentialResult::NotFound, CredentialResult::NotFound);
    assert!(matches!(r, CredentialResult::NotFound));

    let r = resolve_lookup(
        CredentialResult::Unavailable("down".to_string()),
        CredentialResult::Found("dflt".to_string()),
    );
    assert!(matches!(r, CredentialResult::Unavailable(_)));
}

#[test]
fn test_file_keyring_round_trips_through_its_file_format() {
    let mut store = FileKeyring::new();
    store.record("alpha", "secret one".to_string());
    store.record("beta", "p@ss\tword".to_string());
    let text = store.render_store();
    assert!(text.starts_with("# kube_config_updater credentials\n"));
    assert!(text.contains("alpha\t"));
    // The password itself never appears in the rendered file.
    assert!(!text.contains("secret one"));

    let reloaded = FileKeyring::parse_store(&text);
    assert_eq!(reloaded.lookup("alpha").unwrap(), "secret one");
    assert_eq!(reloaded.lookup("beta").unwrap(), "p@ss\tword");
    assert!(reloaded.lookup("gamma").is_none());
}

#[test]
fn test_file_keyring_parse_skips_comments_and_junk() {
    let text = "# comment\n\n   \nnot-a-data-line\nacct\taGVsbG8gd29ybGQ=\nbad\t!!!notbase64!!!\n";
    let store = FileKeyring::parse_store(text);
    assert_eq!(store.lookup("acct").unwrap(), "hello world");
    assert!(store.lookup("not-a-data-line").is_none());
    assert!(store.lookup("bad").is_none());
    assert!(store.lookup("# comment").is_none());
}

#[test]
fn test_file_keyring_erase() {
    let mut store = FileKeyring::new();
    store.record("a", "1".to_string());
    store.record("b", "2".to_string());
    store.erase("a");
    assert!(store.lookup("a").is_none());
    assert_eq!(store.lookup("b").unwrap(), "2");
}

#[test]
fn test_resolve_with_file_fallback_policy() {
    let mut store = FileKeyring::new();
    store.record("srv-a", "file-pw".to_string());
    store.record("_default", "file-default".to_string());

    // Only an unreachable primary consults the file store.
    let r = resolve_with_file_fallback(
        CredentialResult::Unavailable("dbus connection failed".to_string()),
        &store,
        "srv-a",
    );
    assert!(matches!(r, CredentialResult::Found(pw) if pw == "file-pw"));

    // The file store's own layered lookup: default entry behind the name.
    let r = resolve_with_file_fallback(
        CredentialResult::Unavailable("dbus connection failed".to_string()),
        &store,
        "srv-unknown",
    );
    assert!(matches!(r, CredentialResult::Found(pw) if pw == "file-default"));

    let empty = FileKeyring::new();
    let r = resolve_with_file_fallback(
        CredentialResult::Unavailable("dbus connection failed".to_string()),
        &empty,
        "srv-a",
    );
    assert!(matches!(r, CredentialResult::NotFound));

    // A reachable primary answer stands, found or missing.
    let r = resolve_with_file_fallback(
        CredentialResult::Found("keyring-pw".to_string()),
        &store,
        "srv-a",
    );
    assert!(matches!(r, CredentialResult::Found(pw) if pw == "keyring-pw"));
    let r = resolve_with_file_fallback(CredentialResult::NotFound, &store, "srv-a");
    assert!(matches!(r, CredentialResult::NotFound));
}
