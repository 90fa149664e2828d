use yshell::config::quick_connect::QuickConnectTarget;
use yshell::config::schema::ConfigDocument;
use yshell::config::store::LoadOutcome;
use yshell::runtime::app_runtime::AppRuntime;
use yshell::runtime::error::AppError;
use yshell::runtime::session_runtime::{SessionRuntime, SessionSource};
use yshell::session::session_handle::SessionState;
use yshell::ssh::auth::AuthMethod;
use yshell::ssh::channel::ShellSession;
use yshell::ssh::client::{AnyShell, SshConnectionConfig, TransportBackend};

fn fresh_runtime() -> AppRuntime {
    AppRuntime::new(
        "/tmp/yshell-config",
        LoadOutcome { document: ConfigDocument::default(), recovered_from_backup: None },
    )
}

#[test]
fn runtime_boots_with_startup_projection() {
    let runtime = fresh_runtime();
    let projection = runtime.projection();

    assert!(projection.status_text.contains("Saved sessions discovered"));
    assert_eq!(
        projection.status_text,
        "Runtime initialized. Config: /tmp/yshell-config. Saved sessions discovered: 0."
    );
    assert_eq!(projection.active_session_text, "Welcome");
    assert!(projection.sftp_visible);
    assert_eq!(projection.session_summary_text, "No runtime sessions yet.");
    assert_eq!(projection.tab_text, "Welcome  idle");
}

#[test]
fn quick_connect_enters_runtime_pipeline() {
    let mut runtime = fresh_runtime();

    let projection = runtime.handle_quick_connect("alice@example.com:2200").expect("quick connect");

    assert!(projection.active_session_text.contains("alice@example.com:2200"));
    assert!(projection.status_text.contains("The shell boundary is live"));
    assert!(projection.tab_text.contains("alice@example.com:2200"));
    assert!(projection.terminal_body_text.contains("Fake shell established"));
    assert_eq!(runtime.emitted_events().len(), 1);
}

#[test]
fn hydrates_saved_sessions_from_config() {
    let mut document = ConfigDocument::default();
    document.sessions.push(
        QuickConnectTarget {
            username: Some("ops".to_owned()),
            host: "saved.example.test".to_owned(),
            port: 22,
        }
        .into_session_profile("saved-session-1"),
    );

    let runtime = AppRuntime::new("/tmp/yshell-config", LoadOutcome { document, recovered_from_backup: None });

    assert_eq!(runtime.saved_session_profiles().len(), 1);
    assert!(runtime.projection().active_session_text.contains("Saved Sessions (1)"));
    assert_eq!(runtime.emitted_events().len(), 1);
}

#[test]
fn recovered_startup_reports_the_backup() {
    let runtime = AppRuntime::new(
        "/cfg",
        LoadOutcome {
            document: ConfigDocument::default(),
            recovered_from_backup: Some("/cfg/config.toml.7.bak".to_owned()),
        },
    );
    assert_eq!(
        runtime.projection().status_text,
        "Recovered configuration from backup. Saved sessions: 0. Backup: /cfg/config.toml.7.bak"
    );
}

#[test]
fn active_terminal_input_flows_through_shell_boundary() {
    let mut runtime = fresh_runtime();
    runtime.handle_quick_connect("alice@example.com:2200").expect("quick connect");

    let projection = runtime.send_active_terminal_input("pwd\n").expect("send input");

    assert!(projection.status_text.contains("Sent"));
    assert_eq!(projection.status_text, "Sent 4 bytes through the runtime terminal pipeline.");
    assert!(projection.terminal_body_text.contains("fake-shell received input"));
}

#[test]
fn active_terminal_resize_flows_through_shell_boundary() {
    let mut runtime = fresh_runtime();
    runtime.handle_quick_connect("alice@example.com:2200").expect("quick connect");

    let projection = runtime.resize_active_terminal(100, 40).expect("resize terminal");

    assert!(projection.status_text.contains("100x40"));
    assert!(projection.terminal_body_text.contains("fake-shell resized"));
}

#[test]
fn disconnect_and_reconnect_update_runtime_state() {
    let mut runtime = fresh_runtime();
    runtime.handle_quick_connect("alice@example.com:2200").expect("quick connect");

    let disconnected = runtime.disconnect_active_session().expect("disconnect active session");
    assert!(disconnected.tab_text.contains("disconnected"));
    assert_eq!(disconnected.status_text, "Disconnected the active runtime session.");

    let reconnected = runtime.reconnect_active_session().expect("reconnect active session");
    assert!(reconnected.tab_text.contains("connected"));
    assert!(reconnected.terminal_body_text.contains("Fake shell established"));
    assert_eq!(
        reconnected.status_text,
        "Reconnected the active runtime session through the `fake` shell backend."
    );
}

#[test]
fn real_backend_enters_connecting_scaffold_instead_of_false_connected_state() {
    let mut runtime = fresh_runtime();
    let projection = runtime.select_real_transport_backend();
    assert_eq!(projection.transport_backend_text, "real");

    let projection = runtime.handle_quick_connect("alice@example.com:2200").expect("quick connect");

    assert!(projection.tab_text.contains("connecting"));
    assert!(projection.status_text.contains("backend scaffold"));
    assert!(projection.terminal_body_text.contains("Real SSH backend selected"));
    assert!(projection.terminal_body_text.contains("tcp-connect"));

    let reopened = runtime.reconnect_active_session().expect("reopen");
    assert_eq!(
        reopened.status_text,
        "Reopened the active runtime session through the `real` shell backend."
    );
    assert!(reopened.tab_text.contains("connecting"));
}

#[test]
fn transport_backend_selection_is_runtime_visible() {
    let mut runtime = fresh_runtime();

    let fake_projection = runtime.select_fake_transport_backend();
    assert_eq!(fake_projection.transport_backend_text, "fake");
    assert!(fake_projection.status_text.contains("deterministic shell adapter"));

    let real_projection = runtime.select_real_transport_backend();
    assert_eq!(real_projection.transport_backend_text, "real");
    assert!(real_projection.status_text.contains("staged real-transport scaffold"));
}

#[test]
fn save_active_session_persists_minimal_profile() {
    let mut runtime = fresh_runtime();
    runtime.handle_quick_connect("alice@example.com:2200").expect("quick connect");

    let profile_id = runtime.save_active_session().expect("save active session");
    let projection = runtime.finish_saving_session(&profile_id);

    assert!(projection.status_text.contains("Saved active runtime session"));
    assert_eq!(runtime.saved_session_profiles().len(), 1);
    assert_eq!(runtime.saved_session_profiles()[0].host, "example.com");
    assert_eq!(runtime.saved_session_profiles()[0].port, 2200);
    assert_eq!(profile_id, "saved-example-com");
    assert_eq!(
        projection.status_text,
        "Saved active runtime session as profile `saved-example-com`. Config now contains 1 saved session(s)."
    );
}

#[test]
fn saving_twice_picks_the_next_free_id() {
    let mut runtime = fresh_runtime();
    runtime.handle_quick_connect("alice@Example.COM:2200").expect("quick connect");
    assert_eq!(runtime.save_active_session().expect("first"), "saved-example-com");
    assert_eq!(runtime.save_active_session().expect("second"), "saved-example-com-2");
    assert_eq!(runtime.save_active_session().expect("third"), "saved-example-com-3");
    runtime.handle_quick_connect("--").expect_err("no host");
    runtime.handle_quick_connect("[::1]").expect("ipv6");
    assert_eq!(runtime.save_active_session().expect("ipv6 save"), "saved-1");
}

#[test]
fn open_saved_session_reuses_saved_profile_path() {
    let mut runtime = fresh_runtime();
    runtime.handle_quick_connect("ops@saved.example.test:2222").expect("quick connect");
    runtime.save_active_session().expect("save active session");

    let profile_id = runtime.saved_session_profiles()[0].id.clone();
    let projection = runtime.open_saved_session(&profile_id).expect("open saved session");

    assert!(projection.active_session_text.contains("saved.example.test"));
    assert!(projection.terminal_body_text.contains("Fake shell established"));
}

#[test]
fn open_first_saved_session_uses_minimal_ui_path() {
    let mut runtime = fresh_runtime();
    runtime.handle_quick_connect("ops@saved.example.test:2222").expect("quick connect");
    runtime.save_active_session().expect("save active session");

    let projection = runtime.open_first_saved_session().expect("open first saved session");

    assert!(projection.active_session_text.contains("saved.example.test"));
    assert!(projection.tab_text.contains("connected"));
}

#[test]
fn runtime_errors_for_each_refusal() {
    let mut runtime = fresh_runtime();
    assert_eq!(runtime.send_active_terminal_input("x").unwrap_err().message, "no active runtime session");
    assert_eq!(runtime.resize_active_terminal(1, 1).unwrap_err().message, "no active runtime session");
    assert_eq!(runtime.disconnect_active_session().unwrap_err().message, "no active runtime session");
    assert_eq!(runtime.reconnect_active_session().unwrap_err().message, "no active runtime session");
    assert_eq!(runtime.save_active_session().unwrap_err().message, "no active runtime session");
    assert_eq!(
        runtime.open_first_saved_session().unwrap_err().message,
        "no saved sessions are available"
    );
    assert_eq!(
        runtime.open_saved_session("ghost").unwrap_err().message,
        "saved session `ghost` was not found"
    );
    assert_eq!(
        runtime.handle_quick_connect("example.com:0").unwrap_err().message,
        "invalid quick connect port '0'"
    );
    runtime.handle_new_session();
    assert_eq!(
        runtime.send_active_terminal_input("x").unwrap_err().message,
        "unknown session draft-1"
    );
    assert_eq!(runtime.reconnect_active_session().unwrap_err().message, "unknown session draft-1");
}

#[test]
fn new_session_drafts_and_panels_toggle() {
    let mut runtime = fresh_runtime();
    let projection = runtime.handle_new_session();
    assert_eq!(projection.active_session_text, "New Session  idle");
    assert_eq!(projection.terminal_title_text, "Terminal: New Session");
    assert!(projection.terminal_body_text.contains("Draft session created"));
    let hidden = runtime.toggle_sftp();
    assert!(!hidden.sftp_visible);
    assert_eq!(hidden.status_text, "SFTP panel hidden");
    assert!(runtime.toggle_sftp().sftp_visible);
    assert!(!runtime.toggle_tunnels().tunnels_visible);
    assert!(!runtime.toggle_commands().commands_visible);
}

#[test]
fn session_runtime_constructors_and_labels() {
    let target = QuickConnectTarget { username: None, host: "h.example".to_owned(), port: 22 };
    let runtime = SessionRuntime::from_quick_connect(target, 3);
    assert_eq!(runtime.session_id().as_str(), "quick-connect-3");
    assert_eq!(runtime.tab_id().as_str(), "tab-quick-connect-3");
    assert_eq!(runtime.display_name, "<default>@h.example:22");
    assert_eq!(runtime.username_label(), "user");
    assert_eq!(runtime.host_label(), "h.example:22");
    assert_eq!(runtime.state_label(), "connecting");
    assert_eq!(runtime.source, SessionSource::QuickConnect);
    assert!(runtime.visible_text().contains("Quick Connect accepted"));
    assert!(runtime.sidebar_summary().contains("<default>@h.example:22"));
    let profile = runtime.to_session_profile("p1");
    assert_eq!(profile.id, "p1");
    assert_eq!(profile.username.as_deref(), Some("user"));

    let mut draft = SessionRuntime::draft(1);
    draft.set_state(SessionState::Failed);
    assert_eq!(draft.state_label(), "failed");
    draft.append_status_line("hello runtime");
    assert!(draft.visible_text().contains("hello runtime"));
    assert!(draft.poll_shell_output().expect("no shell").is_empty());
    assert!(draft.disconnect_shell().is_ok());
}

#[test]
fn app_errors_carry_their_message() {
    assert_eq!(AppError::new("boom").message, "boom");
    assert_eq!(AppError::from_error("x".to_owned()).clone().message, "x");
}

fn runtime_with_fake_shell() -> SessionRuntime {
    let target = QuickConnectTarget {
        username: Some("alice".to_owned()),
        host: "example.com".to_owned(),
        port: 2200,
    };
    let mut runtime = SessionRuntime::from_quick_connect(target, 1);
    let config = SshConnectionConfig::new(
        "example.com",
        2200,
        AuthMethod::Agent { username: "alice".to_owned() },
    );
    let shell = TransportBackend::Fake.open_shell(&config).expect("fake shell");
    runtime.attach_shell_session(shell);
    runtime.poll_shell_output().expect("greeting");
    runtime
}

#[test]
fn runtime_shell_records_input_size_and_disconnect() {
    let mut runtime = runtime_with_fake_shell();
    let echoed = runtime.write_terminal_input(b"pwd\n").expect("write");
    assert_eq!(echoed.len(), 1);
    assert!(String::from_utf8_lossy(&echoed[0]).contains("fake-shell received input: pwd"));
    assert!(runtime.poll_shell_output().expect("drained").is_empty());
    runtime.resize_shell_pty(100, 40).expect("resize");
    runtime.disconnect_shell().expect("disconnect");
    match runtime.shell_session.as_ref().expect("shell kept") {
        AnyShell::Fake(shell) => {
            assert_eq!(shell.written_inputs, vec![b"pwd\n".to_vec()]);
            assert_eq!(shell.pty_size.columns, 100);
            assert_eq!(shell.pty_size.rows, 40);
            assert!(!shell.is_connected());
        }
        AnyShell::Real(_) => panic!("expected the fake shell"),
    }
    let refused = runtime.write_terminal_input(b"x").unwrap_err();
    assert_eq!(refused.message, "cannot write input into disconnected shell session");
}

#[test]
fn active_session_operations_succeed_on_a_live_shell() {
    let mut runtime = fresh_runtime();
    runtime.handle_quick_connect("alice@example.com:2200").expect("quick connect");
    let sent = runtime.send_active_terminal_input("pwd\n").expect("send");
    assert_eq!(sent.status_text, "Sent 4 bytes through the runtime terminal pipeline.");
    let resized = runtime.resize_active_terminal(100, 40).expect("resize");
    assert_eq!(resized.status_text, "Resized runtime terminal to 100x40.");
    let closed = runtime.disconnect_active_session().expect("disconnect");
    assert_eq!(closed.tab_text, "alice@example.com:2200  disconnected");
    let refused = runtime.send_active_terminal_input("x").unwrap_err();
    assert_eq!(
        refused.message,
        "Channel: cannot write input into disconnected shell session"
    );
}
