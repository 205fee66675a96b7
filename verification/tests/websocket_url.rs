use chatgpt_zh_launcher::websocket::{check_websocket_parts, validate_websocket_url, UriParts, UrlError};

#[test]
fn accepts_only_the_expected_loopback_websocket() {
    assert!(validate_websocket_url("ws://127.0.0.1:43123/devtools/page/one", 43123).is_ok());
    assert!(validate_websocket_url("ws://example.com:43123/devtools/page/one", 43123).is_err());
    assert!(validate_websocket_url("ws://127.0.0.1:43124/devtools/page/one", 43123).is_err());
}

#[test]
fn ipv6_loopback_is_accepted_in_brackets() {
    assert!(validate_websocket_url("ws://[::1]:4000/devtools/page/one", 4000).is_ok());
}

#[test]
fn websocket_refusals_name_their_reason() {
    assert!(matches!(
        validate_websocket_url("wss://127.0.0.1:4000/x", 4000),
        Err(UrlError::NotWs)
    ));
    assert!(matches!(
        validate_websocket_url("ws://127.0.0.1/x", 4000),
        Err(UrlError::WrongPort)
    ));
    assert!(matches!(
        validate_websocket_url("ws://localhost:4000/x", 4000),
        Err(UrlError::NotLoopback)
    ));
    assert!(matches!(validate_websocket_url("", 4000), Err(UrlError::InvalidUri(_))));
    assert!(matches!(
        validate_websocket_url("ws://127.0.0.1:4000/a b", 4000),
        Err(UrlError::InvalidUri(_))
    ));
}

#[test]
fn checks_parts_in_order_scheme_host_port() {
    let parts = UriParts { scheme: Some("http".to_string()), host: None, port: None };
    assert!(matches!(check_websocket_parts(&parts, 1), Err(UrlError::NotWs)));
    let parts = UriParts { scheme: Some("ws".to_string()), host: None, port: Some(1) };
    assert!(matches!(check_websocket_parts(&parts, 1), Err(UrlError::NotLoopback)));
    let parts = UriParts {
        scheme: Some("ws".to_string()),
        host: Some("[[127.0.0.1]]".to_string()),
        port: Some(1),
    };
    assert!(check_websocket_parts(&parts, 1).is_ok());
}

#[test]
fn websocket_refusals_read_as_the_launcher_words_them() {
    assert_eq!(
        validate_websocket_url("wss://127.0.0.1:9222/x", 9222).unwrap_err().message(),
        "调试 WebSocket 必须使用本机 ws 协议"
    );
    assert_eq!(
        validate_websocket_url("ws://example.com:9222/x", 9222).unwrap_err().message(),
        "调试 WebSocket 地址不是本机回环地址，已拒绝连接"
    );
    assert_eq!(
        validate_websocket_url("ws://127.0.0.1:9223/x", 9222).unwrap_err().message(),
        "调试 WebSocket 端口与启动器选择的端口不一致"
    );
    let invalid = validate_websocket_url("ws://127.0.0.1:9222/a b", 9222).unwrap_err();
    match &invalid {
        UrlError::InvalidUri(detail) => assert_eq!(
            invalid.message(),
            format!("调试页面返回了无效 WebSocket 地址：{detail}")
        ),
        other => panic!("unexpected {:?}", other),
    }
}
