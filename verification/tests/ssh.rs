use yshell::ssh::auth::AuthMethod;
use yshell::ssh::channel::ShellSession;
use yshell::ssh::client::{
    ShellClient, SshAdapter, SshClient, SshConnectionConfig, TransportBackend,
};
use yshell::ssh::error::SshErrorKind;
use yshell::ssh::proxy::ProxyConfig;
use yshell::ssh::pty::PtySize;
use yshell::ssh::real_transport::{RealAuthStrategy, RealConnectionStage, RealSshAdapter};

fn agent_config(host: &str, port: u16) -> SshConnectionConfig {
    SshConnectionConfig::new(host, port, AuthMethod::Agent { username: "alice".to_owned() })
}

fn lossy(bytes: &[u8]) -> String {
    String::from_utf8_lossy(bytes).into_owned()
}

#[test]
fn client_fake_adapter_connects_and_executes_deterministically() {
    let client = SshClient::new();
    let config = agent_config("example.test", 22);
    let mut session = client.connect(&config).expect("connect");
    let output = client.exec(&mut session, "uptime").expect("exec");
    assert_eq!(session.host, "example.test");
    assert_eq!(output.stdout, b"fake ssh executed: uptime\n");
}

#[test]
fn validates_required_connection_fields() {
    let config = agent_config("", 22);
    assert_eq!(config.validate().unwrap_err().kind, SshErrorKind::Configuration);
}

#[test]
fn fake_fake_adapter_connects_and_executes_deterministically() {
    let client = SshClient::new();
    let config = agent_config("example.test", 22);
    let mut session = client.connect(&config).expect("connect");
    let output = client.exec(&mut session, "uptime").expect("exec");
    assert_eq!(session.host, "example.test");
    assert_eq!(output.stdout, b"fake ssh executed: uptime\n");
}

#[test]
fn fake_shell_session_streams_output_and_accepts_input() {
    let client = ShellClient::new();
    let config = agent_config("example.test", 22);
    let mut shell = client.open_shell(&config).expect("open shell");

    assert!(lossy(&shell.poll_output().expect("banner")).contains("Connecting"));
    assert!(lossy(&shell.poll_output().expect("term")).contains("Fake shell established"));

    shell.write_input(b"pwd\n").expect("write input");
    assert!(lossy(&shell.poll_output().expect("prompt")).contains('$'));
    assert!(lossy(&shell.poll_output().expect("echo")).contains("fake-shell received input"));
}

#[test]
fn real_backend_now_returns_a_non_connected_stage_scaffold() {
    let client = ShellClient::with_real_backend();
    let config = agent_config("example.test", 22);

    let mut shell = client.open_shell(&config).expect("real shell scaffold");
    assert!(!shell.is_connected());
    assert_eq!(shell.attempt.stage, RealConnectionStage::TcpConnect);

    let first_chunk = lossy(&shell.poll_output().expect("banner"));
    let second_chunk = lossy(&shell.poll_output().expect("plan"));
    let third_chunk = lossy(&shell.poll_output().expect("stage"));
    assert!(first_chunk.contains("Real SSH backend selected"));
    assert!(second_chunk.contains("auth=agent"));
    assert!(third_chunk.contains("tcp-connect"));
}

#[test]
fn real_adapter_can_build_connection_plan_before_transport_exists() {
    let adapter = RealSshAdapter;
    let config = SshConnectionConfig::new(
        "example.test",
        2222,
        AuthMethod::PrivateKey {
            username: "alice".to_owned(),
            key_path: "/tmp/id_ed25519".to_owned(),
            passphrase: Some("secret".to_owned()),
        },
    );

    let plan = adapter.plan_connection(&config).expect("plan connection");
    assert_eq!(plan.host, "example.test");
    assert_eq!(plan.port, 2222);
    assert_eq!(plan.username, "alice");
    assert_eq!(
        plan.auth_strategy,
        RealAuthStrategy::PrivateKey { key_path: "/tmp/id_ed25519".to_owned(), has_passphrase: true }
    );
}

#[test]
fn real_adapter_exposes_prepared_stage_scaffold() {
    let adapter = RealSshAdapter;
    let config = agent_config("example.test", 22);

    let mut shell = adapter.scaffold_shell_session(&config).expect("scaffold shell session");
    assert_eq!(shell.attempt.stage, RealConnectionStage::Prepared);
    assert!(!shell.is_connected());

    assert!(shell.poll_output().expect("prepared output").is_empty());
}

#[test]
fn real_scaffold_disconnects_without_transport_error() {
    let client = ShellClient::with_real_backend();
    let config = agent_config("example.test", 22);

    let mut shell = client.open_shell(&config).expect("real shell scaffold");
    shell.disconnect().expect("disconnect scaffold");
    assert_eq!(shell.attempt.stage, RealConnectionStage::Disconnected);
    let _ = shell.poll_output().expect("banner");
    let _ = shell.poll_output().expect("plan");
    let _ = shell.poll_output().expect("stage");
    let disconnect_chunk = lossy(&shell.poll_output().expect("disconnect chunk"));
    assert!(disconnect_chunk.contains("disconnected"));
}

#[test]
fn real_backend_uses_proxy_negotiation_stage_when_proxy_is_configured() {
    let client = ShellClient::with_real_backend();
    let mut config = agent_config("example.test", 22);
    config.proxy = ProxyConfig::Socks5 {
        address: "127.0.0.1:1080".to_owned(),
        username: None,
        password: None,
    };

    let mut shell = client.open_shell(&config).expect("real shell scaffold");
    assert_eq!(shell.attempt.stage, RealConnectionStage::ProxyNegotiation);
    let _ = shell.poll_output().expect("banner");
    let plan_chunk = lossy(&shell.poll_output().expect("plan"));
    let stage_chunk = lossy(&shell.poll_output().expect("stage"));
    assert!(plan_chunk.contains("proxy=socks5"));
    assert!(stage_chunk.contains("proxy-negotiation"));
}

#[test]
fn real_connect_returns_stage_aware_connection_attempt() {
    let adapter = RealSshAdapter;
    let config = agent_config("example.test", 22);

    let attempt = adapter.connect(&config).expect("real connection attempt");
    assert_eq!(attempt.stage, RealConnectionStage::TcpConnect);
    assert_eq!(attempt.plan.username, "alice");
    assert_eq!(attempt.history.len(), 2);
    assert!(attempt.history[1].note.contains("TCP socket creation"));
}

#[test]
fn real_connect_uses_proxy_stage_when_proxy_exists() {
    let adapter = RealSshAdapter;
    let mut config = agent_config("example.test", 22);
    config.proxy = ProxyConfig::HttpConnect {
        address: "127.0.0.1:8080".to_owned(),
        username: None,
        password: None,
    };

    let attempt = adapter.connect(&config).expect("real connection attempt");
    assert_eq!(attempt.stage, RealConnectionStage::ProxyNegotiation);
    assert_eq!(attempt.plan.proxy.label(), "http-connect");
    assert_eq!(attempt.history.len(), 2);
    assert!(attempt.history[1].note.contains("Proxy negotiation"));
}

#[test]
fn configuration_errors_name_the_first_problem() {
    let no_port = agent_config("example.test", 0).validate().unwrap_err();
    assert_eq!(no_port.kind, SshErrorKind::Configuration);
    assert_eq!(no_port.message, "ssh port must be greater than zero");
    let no_user =
        SshConnectionConfig::new("h", 22, AuthMethod::Agent { username: "  ".to_owned() })
            .validate()
            .unwrap_err();
    assert_eq!(no_user.message, "ssh username must not be empty");
    let blank = agent_config("   ", 22).validate().unwrap_err();
    assert_eq!(blank.message, "ssh host must not be empty");
    assert_eq!(blank.describe(), "Configuration: ssh host must not be empty");
    assert!(agent_config("h", 22).validate().is_ok());
    assert!(SshClient::new().connect(&agent_config("", 22)).is_err());
}

#[test]
fn new_config_has_the_documented_defaults() {
    let config = agent_config("h", 22);
    assert_eq!(config.pty.term, "xterm-256color");
    assert_eq!(config.pty.size.columns, 80);
    assert_eq!(config.pty.size.rows, 24);
    assert_eq!(config.proxy, ProxyConfig::Direct);
    assert_eq!(config.username(), "alice");
}

#[test]
fn fake_shell_echoes_resizes_and_stops_after_disconnect() {
    let mut shell = ShellClient::new().open_shell(&agent_config("h", 22)).expect("shell");
    assert!(shell.is_connected());
    let _ = shell.poll_output().expect("banner");
    let _ = shell.poll_output().expect("established");
    assert_eq!(shell.poll_output().expect("prompt"), b"$ ");
    assert!(shell.poll_output().expect("empty").is_empty());
    shell
        .resize_pty(PtySize { columns: 100, rows: 30, pixel_width: 0, pixel_height: 0 })
        .expect("resize");
    assert!(lossy(&shell.poll_output().expect("resize note")).contains("100x30"));
    shell.disconnect().expect("disconnect");
    assert!(!shell.is_connected());
    assert!(shell.write_input(b"x").is_err());
    assert!(shell.poll_output().is_err());
}

#[test]
fn transport_backends_open_matching_shells() {
    assert_eq!(TransportBackend::Fake.label(), "fake");
    assert_eq!(TransportBackend::Real.label(), "real");
    let fake = TransportBackend::Fake.open_shell(&agent_config("h", 22)).expect("fake");
    assert!(fake.is_connected());
    let real = TransportBackend::Real.open_shell(&agent_config("h", 22)).expect("real");
    assert!(!real.is_connected());
    assert!(TransportBackend::Real.open_shell(&agent_config("", 22)).is_err());
}

#[test]
fn real_exec_is_unsupported_and_input_is_buffered() {
    let adapter = RealSshAdapter;
    let mut attempt = adapter.connect(&agent_config("h", 22)).expect("attempt");
    let error = adapter.exec(&mut attempt, "ls").expect_err("no transport");
    assert_eq!(error.kind, SshErrorKind::Unsupported);
    let mut shell = ShellClient::with_real_backend().open_shell(&agent_config("h", 22)).expect("shell");
    for _ in 0..3 {
        let _ = shell.poll_output().expect("transcript");
    }
    shell.write_input(b"ls\r\n").expect("buffered");
    let chunk = lossy(&shell.poll_output().expect("buffered note"));
    assert!(chunk.contains("buffered input at stage `tcp-connect`"));
    assert!(chunk.contains("ls\\r"));
}
