use yshell::config::quick_connect::{parse_quick_connect, quick_connect_status, QuickConnectError};

#[test]
fn parses_supported_forms() {
    let cases = [
        ("example.com", None, "example.com", 22),
        ("alice@example.com", Some("alice"), "example.com", 22),
        ("example.com:2200", None, "example.com", 2200),
        ("alice@example.com:2200", Some("alice"), "example.com", 2200),
        (
            "ssh://alice@example.com:2200",
            Some("alice"),
            "example.com",
            2200,
        ),
    ];

    for (input, user, host, port) in cases {
        let parsed = parse_quick_connect(input).expect(input);
        assert_eq!(parsed.username.as_deref(), user);
        assert_eq!(parsed.host, host);
        assert_eq!(parsed.port, port);
    }
}

#[test]
fn rejects_bad_port_and_host() {
    assert_eq!(
        parse_quick_connect("example.com:0").expect_err("bad port"),
        QuickConnectError::InvalidPort("0".to_owned())
    );
    assert_eq!(
        parse_quick_connect("bad host").expect_err("bad host"),
        QuickConnectError::InvalidHost("bad host".to_owned())
    );
}

#[test]
fn parses_ipv6_paths_and_trims() {
    let t = parse_quick_connect("  ssh://qa@smoke.example.test:2200/srv  ").expect("url");
    assert_eq!(t.username.as_deref(), Some("qa"));
    assert_eq!(t.host, "smoke.example.test");
    assert_eq!(t.port, 2200);
    let t = parse_quick_connect("[::1]:2222").expect("bracketed");
    assert_eq!(t.host, "::1");
    assert_eq!(t.port, 2222);
    let t = parse_quick_connect("fe80::1").expect("bare v6");
    assert_eq!(t.host, "fe80::1");
    assert_eq!(t.port, 22);
    let t = parse_quick_connect("a@b@host").expect("last at");
    assert_eq!(t.username.as_deref(), Some("a@b"));
}

#[test]
fn reports_each_quick_connect_error() {
    assert_eq!(parse_quick_connect("   "), Err(QuickConnectError::Empty));
    assert_eq!(parse_quick_connect("http://x"), Err(QuickConnectError::UnsupportedScheme));
    assert_eq!(parse_quick_connect("alice@"), Err(QuickConnectError::MissingHost));
    assert_eq!(parse_quick_connect("@host"), Err(QuickConnectError::InvalidUsername));
    assert_eq!(parse_quick_connect("-host"), Err(QuickConnectError::InvalidHost("-host".to_owned())));
    assert_eq!(parse_quick_connect("host:70000"), Err(QuickConnectError::InvalidPort("70000".to_owned())));
    assert_eq!(parse_quick_connect("host:2x"), Err(QuickConnectError::InvalidPort("2x".to_owned())));
    assert_eq!(parse_quick_connect("[::1"), Err(QuickConnectError::InvalidHost("[::1".to_owned())));
    assert_eq!(parse_quick_connect("[::1]x"), Err(QuickConnectError::InvalidHost("[::1]x".to_owned())));
}

#[test]
fn status_line_names_the_target_or_the_error() {
    assert_eq!(
        quick_connect_status("alice@example.com:2200"),
        "Quick Connect validated: user=alice host=example.com port=2200"
    );
    assert_eq!(
        quick_connect_status("example.com"),
        "Quick Connect validated: user=<default> host=example.com port=22"
    );
    assert_eq!(quick_connect_status("   "), "Quick Connect error: quick connect target is empty");
}
