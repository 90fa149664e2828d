use yshell::secret::SecretRef;
use yshell::test_support::fake_secret_store::FakeSecretStore;
use yshell::test_support::fixtures::fixture_session_id;
use yshell::test_support::ssh_server::TestSshServer;

#[test]
fn secret_ref_is_opaque_identifier() {
    let secret_ref = SecretRef::new("keychain://yshell/session/demo");
    assert_eq!(secret_ref.as_str(), "keychain://yshell/session/demo");
    assert_eq!(secret_ref.to_text(), "keychain://yshell/session/demo");
}

#[test]
fn fake_secret_store_keeps_the_last_value_per_key() {
    let mut store = FakeSecretStore::new();
    assert_eq!(store.get("k"), None);
    store.insert("k", b"one".to_vec());
    store.insert("j", b"two".to_vec());
    store.insert("k", b"three".to_vec());
    assert_eq!(store.get("k"), Some(&b"three"[..]));
    assert_eq!(store.get("j"), Some(&b"two"[..]));
}

#[test]
fn fixtures_and_placeholder_server() {
    assert_eq!(fixture_session_id(), "fixture-session");
    let server = TestSshServer::placeholder("127.0.0.1", 2222);
    assert_eq!(server.host(), "127.0.0.1");
    assert_eq!(server.port(), 2222);
}
