use yshell::config::quick_connect::parse_quick_connect;
use yshell::config::schema::{
    AuthMethod as ConfigAuthMethod, AuthProfile, ConfigDocument, FolderProfile, LoggingProfile,
    SftpProfile,
};
use yshell::logging::{transcript_line, Redactor, TranscriptDirection, TranscriptFormat};
use yshell::secret::SecretRef;
use yshell::session::session_event::{SessionId, TabId};
use yshell::session::session_handle::SessionState;
use yshell::session::session_manager::SessionManager;
use yshell::session::workspace_layout::{PaneId, SplitDirection, WorkspaceLayoutError};
use yshell::sftp::client::{FakeSftpBackend, SftpBackend, SftpClient};
use yshell::sftp::fs_entry::FsEntry;
use yshell::ssh::auth::AuthMethod;
use yshell::ssh::client::{SshClient, SshConnectionConfig};
use yshell::terminal::color::TerminalColor;
use yshell::terminal::grid::TerminalGrid;
use yshell::terminal::parser::TerminalParser;
use yshell::test_support::fake_secret_store::FakeSecretStore;
use yshell::test_support::ssh_server::TestSshServer;

const SESSION_SECRET: &str = "p@ssw0rd-never-log";

#[test]
fn in_memory_backend_loop_from_quick_connect_to_redacted_log() {
    let fake_server = TestSshServer::placeholder("smoke.example.test", 2200);
    let quick = parse_quick_connect("ssh://qa@smoke.example.test:2200/srv").expect("parses");
    assert_eq!(quick.username.as_deref(), Some("qa"));
    assert_eq!(quick.host, fake_server.host());
    assert_eq!(quick.port, fake_server.port());

    let secret_ref = SecretRef::new("fake://yshell/smoke/session/password");
    let mut secrets = FakeSecretStore::new();
    secrets.insert(secret_ref.as_str(), SESSION_SECRET.as_bytes().to_vec());

    let mut document = ConfigDocument {
        sftp: SftpProfile { enabled: true, initial_directory: Some("/srv".to_owned()) },
        logging: LoggingProfile {
            enabled: true,
            directory: Some("logs".to_owned()),
            format: "sanitized".to_owned(),
        },
        ..ConfigDocument::default()
    };
    document.auth_profiles.insert(
        "smoke-auth".to_owned(),
        AuthProfile {
            id: "smoke-auth".to_owned(),
            name: "Smoke password ref".to_owned(),
            method: ConfigAuthMethod::Password { secret_key: secret_ref.as_str().to_owned() },
        },
    );
    let mut profile = quick.into_session_profile("smoke-session");
    profile.name = "Smoke Session".to_owned();
    profile.auth_profile_id = Some("smoke-auth".to_owned());
    document.folders.push(FolderProfile::new("smoke-folder", "Smoke"));
    document.folders[0].sessions.push(profile);

    let resolved = document.resolve_session("smoke-session").expect("resolves");
    assert_eq!(resolved.session.host, fake_server.host());
    assert_eq!(resolved.session.port, fake_server.port());
    assert_eq!(resolved.session.username.as_deref(), Some("qa"));
    assert_eq!(resolved.sftp.initial_directory.as_deref(), Some("/srv"));
    assert_eq!(resolved.logging.format, "sanitized");
    assert_eq!(resolved.auth.expect("auth").name, "Smoke password ref");

    let mut manager = SessionManager::new();
    let session_id = SessionId::new(&resolved.session.id);
    let tab_id = TabId::new("smoke-tab");
    manager.open_tab(tab_id.clone(), session_id.clone());
    manager.set_state(&session_id, SessionState::Connecting).expect("connecting");
    manager.set_state(&session_id, SessionState::Connected).expect("connected");
    let tab = manager.tab_mut(&tab_id).expect("tab is tracked");
    let second = tab
        .layout_mut()
        .split(PaneId::new(1), SplitDirection::Horizontal, 500, Some(session_id.clone()))
        .expect("split");
    let third = tab
        .layout_mut()
        .split(second, SplitDirection::Vertical, 500, Some(session_id.clone()))
        .expect("split");
    tab.layout_mut()
        .split(third, SplitDirection::Horizontal, 500, Some(session_id.clone()))
        .expect("split");
    assert_eq!(tab.layout().leaf_count(), 4);
    assert_eq!(
        tab.layout_mut().split(PaneId::new(1), SplitDirection::Horizontal, 500, None),
        Err(WorkspaceLayoutError::TooManyLeaves)
    );

    let mut grid = TerminalGrid::new(24, 3);
    let mut parser = TerminalParser::new();
    parser.advance(&mut grid, b"plain \x1b[1;38;2;12;34;56mred-ish\x1b[0m\nwide: \xe5\xa5\xbd");
    let styled_cell = grid.cell(6, 0).expect("styled output cell");
    assert_eq!(styled_cell.grapheme, "r");
    assert!(styled_cell.bold);
    assert_eq!(styled_cell.foreground, TerminalColor::rgb(12, 34, 56));
    assert_eq!(grid.line_text(1), "wide: 好");

    let password = String::from_utf8(secrets.get(secret_ref.as_str()).expect("secret").to_vec())
        .expect("utf8");
    let ssh = SshClient::new();
    let ssh_config = SshConnectionConfig::new(
        &resolved.session.host,
        resolved.session.port,
        AuthMethod::Password {
            username: resolved.session.username.clone().expect("username"),
            password: Some(password),
        },
    );
    let mut ssh_session = ssh.connect(&ssh_config).expect("fake ssh connects");
    let exec = ssh.exec(&mut ssh_session, "printf smoke").expect("fake exec");
    assert_eq!(ssh_session.host, fake_server.host());
    assert_eq!(exec.exit_status, 0);
    assert_eq!(exec.stdout, b"fake ssh executed: printf smoke\n");

    let mut sftp_backend = FakeSftpBackend::default();
    sftp_backend.mkdir("/srv").expect("mkdir /srv");
    sftp_backend.insert(FsEntry::file("/srv/readme.txt", 12));
    let mut sftp = SftpClient::with_backend(sftp_backend);
    assert_eq!(sftp.list_dir("/srv").expect("list /srv").entries.len(), 1);
    sftp.chmod("/srv/readme.txt", 0o600).expect("chmod");
    sftp.rename("/srv/readme.txt", "/srv/renamed.txt").expect("rename");
    assert_eq!(sftp.list_dir("/srv").expect("list renamed").entries[0].name, "renamed.txt");

    let redactor = Redactor::new().with_secret(SESSION_SECRET);
    let line = transcript_line(
        TranscriptFormat::Sanitized,
        &redactor,
        TranscriptDirection::Input,
        format!("password={SESSION_SECRET}").as_bytes(),
    );
    assert!(!line.contains(SESSION_SECRET));
    assert!(line.contains("[REDACTED]"));
}
