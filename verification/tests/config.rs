use yshell::config::paths::{
    join_path, ConfigPathError, ConfigPathResolver, OperatingSystem, APP_DIR_NAME, CONFIG_DIR_ENV,
};
use yshell::config::profile_table::ProfileTable;
use yshell::config::schema::{
    plan_migration, AuthMethod, AuthProfile, ConfigDocument, FolderProfile, Migration,
    ProxyProfile, SchemaVersionError, SessionBasicEdit, SessionProfile, SftpProfile,
    SCHEMA_VERSION,
};
use yshell::config::store::{ConfigStore, CONFIG_FILE_NAME};

fn resolver(os: OperatingSystem, values: &[(&str, &str)]) -> ConfigPathResolver {
    ConfigPathResolver::new(
        os,
        values
            .iter()
            .map(|(key, value)| ((*key).to_owned(), (*value).to_owned()))
            .collect(),
    )
}

#[test]
fn explicit_override_wins_on_unix() {
    let path = resolver(
        OperatingSystem::Unix,
        &[(CONFIG_DIR_ENV, "/tmp/custom"), ("XDG_CONFIG_HOME", "/tmp/xdg")],
    )
    .discover_config_dir()
    .expect("override should resolve");

    assert_eq!(path, "/tmp/custom");
}

#[test]
fn unix_uses_xdg_config_home() {
    let path = resolver(OperatingSystem::Unix, &[("XDG_CONFIG_HOME", "/home/me/.xdg")])
        .discover_config_dir()
        .expect("xdg config should resolve");

    assert_eq!(path, join_path("/home/me/.xdg", APP_DIR_NAME));
    assert_eq!(path, "/home/me/.xdg/yshell");
}

#[test]
fn unix_falls_back_to_home_config() {
    let path = resolver(OperatingSystem::Unix, &[("HOME", "/home/me")])
        .discover_config_dir()
        .expect("home fallback should resolve");

    assert_eq!(path, "/home/me/.config/yshell");
}

#[test]
fn windows_uses_appdata() {
    let path = resolver(OperatingSystem::Windows, &[("APPDATA", r"C:\Users\me\AppData\Roaming")])
        .discover_config_dir()
        .expect("appdata should resolve");

    assert_eq!(path, join_path(r"C:\Users\me\AppData\Roaming", "YShell"));
}

#[test]
fn macos_uses_application_support() {
    let path = resolver(OperatingSystem::MacOs, &[("HOME", "/Users/me")])
        .discover_config_dir()
        .expect("macOS home should resolve");

    assert_eq!(path, "/Users/me/Library/Application Support/YShell");
}

#[test]
fn empty_values_are_ignored() {
    let error = resolver(OperatingSystem::Unix, &[(CONFIG_DIR_ENV, ""), ("HOME", "")])
        .discover_config_dir()
        .expect_err("empty values should not resolve");

    assert_eq!(error, ConfigPathError::MissingBaseDirectory { os: OperatingSystem::Unix });
}

#[test]
fn later_environment_entries_override_earlier_ones() {
    let path = resolver(
        OperatingSystem::Unix,
        &[("HOME", "/home/old"), ("HOME", "/home/new")],
    )
    .discover_config_dir()
    .expect("home should resolve");
    assert_eq!(path, "/home/new/.config/yshell");
}

#[test]
fn missing_directory_errors_name_the_system() {
    let error = resolver(OperatingSystem::Windows, &[("HOME", "/home/me")])
        .discover_config_dir()
        .expect_err("windows needs APPDATA");
    assert_eq!(error, ConfigPathError::MissingBaseDirectory { os: OperatingSystem::Windows });
    assert_eq!(error.describe(), "could not discover a YShell config directory for Windows");
    assert_eq!(
        resolver(OperatingSystem::MacOs, &[]).discover_config_dir(),
        Err(ConfigPathError::MissingBaseDirectory { os: OperatingSystem::MacOs })
    );
}

#[test]
fn join_path_adds_one_separator() {
    assert_eq!(join_path("/a", "b"), "/a/b");
    assert_eq!(join_path("/a/", "b"), "/a/b");
}

fn sample_document() -> ConfigDocument {
    let mut document = ConfigDocument {
        sftp: SftpProfile { enabled: true, initial_directory: Some("/srv".to_owned()) },
        ..ConfigDocument::default()
    };
    document.auth_profiles.insert(
        "auth-1".to_owned(),
        AuthProfile { id: "auth-1".to_owned(), name: "Key".to_owned(), method: AuthMethod::Agent },
    );
    let mut session = SessionProfile::new("session-1", "Prod", "example.com");
    session.auth_profile_id = Some("auth-1".to_owned());
    document.folders.push(FolderProfile {
        id: "folder-1".to_owned(),
        name: "Servers".to_owned(),
        sessions: vec![session],
        folders: Vec::new(),
    });
    document
}

#[test]
fn resolves_document_defaults_and_references() {
    let resolved = sample_document()
        .resolve_session("session-1")
        .expect("session should resolve");

    assert_eq!(resolved.sftp.initial_directory.as_deref(), Some("/srv"));
    assert_eq!(resolved.auth.expect("auth").name, "Key");
}

#[test]
fn batch_edits_basic_fields() {
    let mut document = sample_document();
    let edit = SessionBasicEdit {
        port: Some(2200),
        username: Some("deploy".to_owned()),
        username_set: true,
        ..SessionBasicEdit::default()
    };

    assert_eq!(document.batch_edit_basic(&["session-1"], &edit), 1);
    let session = document.find_session("session-1").expect("edited");
    assert_eq!(session.port, 2200);
    assert_eq!(session.username.as_deref(), Some("deploy"));
}

#[test]
fn batch_edit_skips_unknown_ids_and_counts_hits() {
    let mut document = sample_document();
    document.sessions.push(SessionProfile::new("top", "Top", "top.example"));
    let edit = SessionBasicEdit { name: Some("Renamed".to_owned()), ..SessionBasicEdit::default() };
    assert_eq!(document.batch_edit_basic(&["missing", "top", "session-1"], &edit), 2);
    assert_eq!(document.find_session("top").expect("top").name, "Renamed");
    assert_eq!(document.find_session("session-1").expect("nested").name, "Renamed");
    assert_eq!(document.find_session("session-1").expect("nested").port, 22);
}

#[test]
fn resolve_missing_session_and_unknown_references() {
    let mut document = sample_document();
    assert!(document.resolve_session("nope").is_none());
    let mut session = SessionProfile::new("s2", "Two", "two.example");
    session.auth_profile_id = Some("missing".to_owned());
    session.proxy_profile_id = Some("jump".to_owned());
    session.sftp = Some(SftpProfile { enabled: false, initial_directory: None });
    document.sessions.push(session);
    document.proxy_profiles.insert(
        "jump".to_owned(),
        ProxyProfile {
            id: "jump".to_owned(),
            name: "Jump".to_owned(),
            host: "bastion".to_owned(),
            port: 22,
            username: None,
        },
    );
    let resolved = document.resolve_session("s2").expect("resolves");
    assert!(resolved.auth.is_none());
    assert_eq!(resolved.proxy.expect("proxy").host, "bastion");
    assert!(!resolved.sftp.enabled);
    assert_eq!(resolved.sftp.initial_directory, None);
}

#[test]
fn new_session_profile_has_defaults() {
    let s = SessionProfile::new("id", "Name", "host");
    assert_eq!(s.port, 22);
    assert!(s.username.is_none());
    assert!(s.tags.is_empty());
    let folder = FolderProfile::new("f", "Folder");
    assert!(folder.sessions.is_empty());
    assert!(folder.find_session("id").is_none());
}

#[test]
fn default_document_is_current_and_empty() {
    let document = ConfigDocument::default();
    assert_eq!(document.schema_version, SCHEMA_VERSION);
    assert!(document.sessions.is_empty());
    assert!(document.folders.is_empty());
    assert!(document.sftp.enabled);
    assert_eq!(document.logging.format, "text");
}

#[test]
fn migration_plans_by_version() {
    assert_eq!(plan_migration(Some(SCHEMA_VERSION as i64)), Ok(Migration::Current));
    assert_eq!(plan_migration(Some(0)), Ok(Migration::FromZero));
    assert_eq!(plan_migration(Some(99)), Err(SchemaVersionError::UnsupportedVersion(99)));
    assert_eq!(plan_migration(None), Err(SchemaVersionError::MissingVersion));
    assert_eq!(plan_migration(Some(-1)), Err(SchemaVersionError::UnsupportedVersion(u32::MAX)));
    assert_eq!(plan_migration(Some(4_294_967_297)), Ok(Migration::Current));
    assert_eq!(plan_migration(Some(4_294_967_296)), Ok(Migration::FromZero));
}

#[test]
fn profile_table_replaces_equal_keys() {
    let mut table: ProfileTable<u32> = ProfileTable::new();
    assert_eq!(table.len(), 0);
    table.insert("b".to_owned(), 1);
    table.insert("a".to_owned(), 2);
    table.insert("b".to_owned(), 3);
    assert_eq!(table.len(), 2);
    assert_eq!(table.get("b"), Some(&3));
    assert_eq!(table.get("a"), Some(&2));
    assert_eq!(table.get("c"), None);
}

#[test]
fn store_paths_live_under_the_root() {
    let store = ConfigStore::new("/cfg");
    assert_eq!(store.root(), "/cfg");
    assert_eq!(store.config_file(), format!("/cfg/{CONFIG_FILE_NAME}"));
    assert_eq!(store.temp_file(), "/cfg/config.toml.tmp");
    assert_eq!(store.backup_path(1234), "/cfg/config.toml.1234.bak");
}

#[test]
fn store_with_empty_root_uses_relative_file_names() {
    let store = ConfigStore::new("");
    assert_eq!(store.config_file(), "config.toml");
    assert_eq!(store.temp_file(), "config.toml.tmp");
}

#[test]
fn join_path_follows_path_join() {
    assert_eq!(join_path("", "x"), "x");
    assert_eq!(join_path("/a", "/b"), "/b");
    assert_eq!(join_path("/a/", "b"), "/a/b");
    assert_eq!(join_path("/a", "b"), "/a/b");
}
