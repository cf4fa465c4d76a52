use ccn::json::Json;
use ccn::transport::{
    interpret, non_empty, read_reply, split_base, Address, Transport, TransportError,
};

#[test]
fn a_base_url_splits_into_host_port_and_prefix() {
    let (h, p, pre) = split_base("http://127.0.0.1:8080/pods/abc").unwrap();
    assert_eq!(
        (h.as_str(), p, pre.as_str()),
        ("127.0.0.1", 8080, "/pods/abc")
    );
    let (h, p, pre) = split_base("http://node:9000").unwrap();
    assert_eq!((h.as_str(), p, pre.as_str()), ("node", 9000, ""));
}

#[test]
fn a_variable_set_to_the_empty_string_is_not_configuration() {
    assert_eq!(non_empty(None), None);
    assert_eq!(non_empty(Some("".into())), None);
    assert_eq!(non_empty(Some("   ".into())), None);
    assert_eq!(
        non_empty(Some("/run/x.sock".into())),
        Some("/run/x.sock".into())
    );
}

#[test]
fn the_label_is_the_authority_and_nothing_else() {
    assert_eq!(
        Transport::Http {
            base: "http://127.0.0.1:52341".into(),
            token: None
        }
        .label(),
        "127.0.0.1:52341"
    );
    assert_eq!(
        Transport::Unix("/run/nucleus/pod.sock".into()).label(),
        "pod.sock"
    );
}

#[test]
fn https_is_refused_because_this_client_cannot_verify_it() {
    assert!(split_base("https://node:443").is_err());
}

#[test]
fn the_socket_wins_over_the_url() {
    match Transport::from_env(
        Some("/run/pod.sock".into()),
        Some("http://node:1".into()),
        Some("t".into()),
    ) {
        Ok(Transport::Unix(path)) => assert_eq!(path, "/run/pod.sock"),
        other => panic!("{other:?}"),
    }
    match Transport::from_env(Some(" ".into()), Some("http://node:1/".into()), None) {
        Ok(Transport::Http { base, token }) => {
            assert_eq!(base, "http://node:1");
            assert_eq!(token, None);
        }
        other => panic!("{other:?}"),
    }
    match Transport::from_env(None, Some("".into()), None) {
        Err(TransportError::Unconfigured) => {}
        other => panic!("{other:?}"),
    }
}

#[test]
fn a_discovered_pod_is_reached_over_http() {
    match Transport::from_discovery(Ok("http://h:1".into()), Some("t".into())) {
        Ok(Transport::Http { base, token }) => {
            assert_eq!(base, "http://h:1");
            assert_eq!(token.as_deref(), Some("t"));
        }
        other => panic!("{other:?}"),
    }
    match Transport::from_discovery(Err("no node".into()), None) {
        Err(TransportError::Discovery(why)) => assert_eq!(why, "no node"),
        other => panic!("{other:?}"),
    }
}

#[test]
fn a_post_is_framed_as_one_request() {
    let t = Transport::Http {
        base: "http://node:9000/pods/a".into(),
        token: Some("s".into()),
    };
    let r = t.post("/v1/read", &Json::parse(r#"{"path":"é"}"#).unwrap()).unwrap();
    match &r.address {
        Address::Tcp { host, port } => assert_eq!((host.as_str(), *port), ("node", 9000)),
        other => panic!("{other:?}"),
    }
    let (head, body) = r.text.split_once("\r\n\r\n").unwrap();
    assert_eq!(body, r#"{"path":"é"}"#);
    assert!(head.starts_with("POST /pods/a/v1/read HTTP/1.1\r\n"), "{head}");
    assert!(head.contains("Content-Length: 13"), "{head}");
    assert!(head.contains("Authorization: Bearer s"), "{head}");
}

#[test]
fn a_get_has_no_body() {
    let t = Transport::Unix("/run/pod.sock".into());
    let r = t.get("/v1/health").unwrap();
    match &r.address {
        Address::Unix(path) => assert_eq!(path, "/run/pod.sock"),
        other => panic!("{other:?}"),
    }
    assert!(r.text.starts_with("GET /v1/health HTTP/1.1\r\n"), "{}", r.text);
    assert!(r.text.ends_with("\r\n\r\n"), "{}", r.text);
    assert!(!r.text.contains("Authorization"), "{}", r.text);
}

#[test]
fn a_base_that_cannot_be_split_is_an_error_before_anything_is_sent() {
    let t = Transport::Http {
        base: "https://node:1".into(),
        token: None,
    };
    assert!(matches!(
        t.get("/v1/health"),
        Err(TransportError::Protocol(_))
    ));
}

#[test]
fn a_reply_is_its_body() {
    assert_eq!(
        read_reply(b"HTTP/1.1 200 OK\r\nA: b\r\n\r\n{\"a\": 1}")
            .unwrap()
            .to_text(),
        r#"{"a":1}"#
    );
    assert!(matches!(
        read_reply(b"HTTP/1.1 204 No Content\r\n\r\n"),
        Ok(Json::Null)
    ));
}

#[test]
fn each_way_a_reply_can_be_wrong_is_an_error_of_its_own() {
    match read_reply(b"HTTP/1.1 403 Forbidden\r\n\r\nno\xff") {
        Err(TransportError::Status { status, body }) => {
            assert_eq!(status, 403);
            assert_eq!(body, "no\u{fffd}");
        }
        other => panic!("{other:?}"),
    }
    assert!(matches!(
        read_reply(b"HTTP/1.1 200 OK\r\n"),
        Err(TransportError::Protocol(_))
    ));
    assert!(matches!(
        read_reply(b"nonsense\r\n\r\n{}"),
        Err(TransportError::Protocol(_))
    ));
    assert!(matches!(
        read_reply(b"HTTP/1.1 200 OK\r\n\r\n{oops"),
        Err(TransportError::Protocol(_))
    ));
}

#[test]
fn a_parsed_reply_is_read_by_its_status() {
    assert_eq!(
        interpret("HTTP/1.1 200 OK", "3", Some(Ok(Json::uint(3))))
            .unwrap()
            .to_text(),
        "3"
    );
    assert!(matches!(
        interpret("HTTP/1.1 500 x", "sad", Some(Ok(Json::uint(3)))),
        Err(TransportError::Status { status: 500, .. })
    ));
}

#[test]
fn an_error_says_what_happened() {
    assert_eq!(
        TransportError::Status {
            status: 403,
            body: "no".into()
        }
        .message()
        .contains("403"),
        true
    );
    for e in [
        TransportError::Io("refused".into()),
        TransportError::Protocol("refused".into()),
        TransportError::Discovery("refused".into()),
    ] {
        assert!(e.message().contains("refused"), "{}", e.message());
    }
    assert!(TransportError::Unconfigured.message().contains("NUCLEUS_POD_SOCK"));
}

#[test]
fn a_description_names_the_transport() {
    assert!(Transport::Unix("/run/pod.sock".into())
        .describe()
        .contains("/run/pod.sock"));
    assert!(Transport::Http {
        base: "http://node:1".into(),
        token: None
    }
    .describe()
    .contains("http://node:1"));
}

#[test]
fn only_plain_http_is_accepted() {
    for base in ["https://n:1", "n:1", "ftp://n", "http://n:x", "http://n:70000"] {
        assert!(
            matches!(split_base(base), Err(TransportError::Protocol(_))),
            "{base}"
        );
    }
    let (host, port, prefix) = split_base("http://n/a:b").unwrap();
    assert_eq!((host.as_str(), port, prefix.as_str()), ("n", 80, "/a:b"));
}

#[test]
fn a_socket_is_named_by_its_last_component() {
    for p in [
        "/run/nucleus/pod.sock",
        "pod.sock",
        "/run/pod.sock/",
        "/run/pod.sock//",
        "/run/pod.sock/.",
        "/run/./pod.sock/././",
        "/run/..",
        "..",
        ".",
        "./.",
        "/",
        "//",
        "",
        "a/../b",
        "./a",
        "a/.b",
        "a/...",
        " ",
    ] {
        let path = std::path::Path::new(p);
        let expected = path
            .file_name()
            .map(|f| f.to_string_lossy().to_string())
            .unwrap_or_else(|| path.display().to_string());
        assert_eq!(Transport::Unix(p.into()).label(), expected, "{p:?}");
    }
}

#[test]
fn the_label_of_a_prefixed_base_is_its_authority() {
    let label = |base: &str| {
        Transport::Http {
            base: base.into(),
            token: None,
        }
        .label()
    };
    assert_eq!(label("http://127.0.0.1:8080/pods/abc"), "127.0.0.1:8080");
    assert_eq!(label("https://node/x"), "node");
    assert_eq!(label("node:1"), "node:1");
}

#[test]
fn a_call_carries_the_token_of_the_moment() {
    let made = Transport::from_env(None, Some("http://n:1".into()), Some("a".into())).unwrap();
    let sent = made
        .with_token(Some("b".into()))
        .post("/v1/read", &Json::Null)
        .unwrap()
        .text;
    assert!(sent.contains("Authorization: Bearer b\r\n"), "{sent}");
    assert!(!sent.contains("Bearer a"), "{sent}");
    for none in [None, Some(" ".to_string())] {
        let sent = made.with_token(none).get("/v1/health").unwrap().text;
        assert!(!sent.contains("Authorization"), "{sent}");
    }
    match Transport::Unix("/s".into()).with_token(Some("b".into())) {
        Transport::Unix(path) => assert_eq!(path, "/s"),
        other => panic!("{other:?}"),
    }
}
