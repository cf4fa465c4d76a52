use ccn::journal::Outcome;
use ccn::json::Json;
use ccn::mediation::{disposition, Disposition, BUILTIN_TOOLS};
use ccn::server::{
    call_tool, describe, dispatch, err, initialize, ok, receive, schema_for, tool_error,
    tool_result, tools_list, Call, Step, PROTOCOL_VERSION,
};
use ccn::transport::TransportError;

fn json(s: &str) -> Json {
    Json::parse(s).unwrap()
}

fn tools() -> Vec<Json> {
    let listed = tools_list();
    listed
        .get("tools")
        .unwrap()
        .as_array()
        .unwrap()
        .iter()
        .map(|t| t.copy())
        .collect()
}

#[test]
fn the_advertised_tools_are_exactly_the_gates_redirect_targets() {
    let listed = tools();
    let names: Vec<String> = listed
        .iter()
        .map(|t| t.str_at("name").unwrap().to_string())
        .collect();
    for builtin in BUILTIN_TOOLS {
        if let Disposition::Mediated { mcp_tool, .. } = disposition(builtin) {
            assert!(
                names.iter().any(|n| n == mcp_tool),
                "gate redirects {builtin} -> {mcp_tool}, which is not advertised"
            );
        }
    }
    assert_eq!(names.len(), 7);
}

#[test]
fn every_advertised_tool_has_a_usable_schema() {
    for t in tools() {
        let name = t.str_at("name").unwrap();
        let schema = t.get("inputSchema").unwrap();
        assert_eq!(
            schema.str_at("type"),
            Some("object"),
            "{name} has no object schema"
        );
        assert!(
            matches!(schema.get("properties"), Some(Json::Object(_))),
            "{name} has no properties"
        );
    }
}

#[test]
fn a_failure_is_marked_as_an_error_not_an_empty_result() {
    let e = tool_error("socket refused");
    assert!(matches!(e.get("isError"), Some(Json::Bool(true))));
    let content = e.get("content").unwrap().as_array().unwrap();
    assert!(content[0].str_at("text").unwrap().contains("socket refused"));
}

#[test]
fn the_schemas_require_what_the_translation_requires() {
    let expected = [
        ("run", r#"["command"]"#),
        ("read", r#"["file_path"]"#),
        ("write", r#"["file_path","content"]"#),
        ("glob", r#"["pattern"]"#),
        ("grep", r#"["pattern"]"#),
        ("web_fetch", r#"["url"]"#),
        ("web_search", r#"["query"]"#),
        ("subagent", r#"["prompt"]"#),
        ("other", "[]"),
    ];
    for (name, required) in expected {
        let schema = schema_for(name);
        let listed = schema.get("required").unwrap();
        assert_eq!(listed.to_text(), required);
        let props = schema.get("properties").unwrap();
        for key in listed.as_array().unwrap() {
            assert!(props.get(key.as_str().unwrap()).is_some(), "{name}");
        }
    }
    assert_eq!(
        schema_for("read").to_text(),
        r#"{"properties":{"file_path":{"description":"Absolute path inside the pod","type":"string"}},"required":["file_path"],"type":"object"}"#
    );
}

#[test]
fn a_description_says_what_enforces_the_tool() {
    assert_eq!(
        describe("read", "/v1/read"),
        "Read a file inside the pod. Enforced by nucleus at /v1/read; returns a signed mediation receipt."
    );
    assert!(describe("run", "/v1/run").contains("no shell"));
    assert!(describe("x", "/y").starts_with("Mediated effect. "));
}

#[test]
fn the_handshake_names_the_protocol_and_the_server() {
    let v = initialize("1.2.3");
    assert_eq!(v.str_at("protocolVersion"), Some(PROTOCOL_VERSION));
    let info = v.get("serverInfo").unwrap();
    assert_eq!(info.str_at("name"), Some("nucleus"));
    assert_eq!(info.str_at("version"), Some("1.2.3"));
    assert_eq!(v.get("capabilities").unwrap().to_text(), r#"{"tools":{}}"#);
}

fn reply(line: &str) -> String {
    match receive(line, "0") {
        Step::Reply(v) => v.to_text(),
        other => panic!("{other:?}"),
    }
}

#[test]
fn a_message_is_answered_by_its_method() {
    assert_eq!(
        reply(" {\"id\":7,\"method\":\"ping\"}\r"),
        r#"{"id":7,"jsonrpc":"2.0","result":{}}"#
    );
    assert_eq!(
        reply(r#"{"id":"a","method":"nope"}"#),
        r#"{"error":{"code":-32601,"message":"method not found: nope"},"id":"a","jsonrpc":"2.0"}"#
    );
    assert_eq!(
        reply(r#"{"id":null}"#),
        r#"{"error":{"code":-32601,"message":"method not found: "},"id":null,"jsonrpc":"2.0"}"#
    );
    assert_eq!(
        json(&reply(r#"{"id":1,"method":"initialize"}"#))
            .get("result")
            .unwrap()
            .to_text(),
        initialize("0").to_text()
    );
    assert_eq!(
        json(&reply(r#"{"id":1,"method":"tools/list"}"#))
            .get("result")
            .unwrap()
            .to_text(),
        tools_list().to_text()
    );
}

#[test]
fn what_is_no_request_is_skipped() {
    for line in [
        "",
        "   ",
        "{not json",
        "[]",
        "3",
        r#"{"method":"notifications/initialized"}"#,
    ] {
        assert!(matches!(receive(line, "0"), Step::Skip), "{line}");
    }
}

#[test]
fn a_call_is_handed_on_with_its_id() {
    match dispatch(
        &json(r#"{"id":1.5,"method":"tools/call","params":{"name":"x"}}"#),
        "0",
    ) {
        Step::Call { id, params } => {
            assert_eq!(id.to_text(), "1.5");
            assert_eq!(params.to_text(), r#"{"name":"x"}"#);
        }
        other => panic!("{other:?}"),
    }
    match dispatch(&json(r#"{"id":1,"method":"tools/call"}"#), "0") {
        Step::Call { params, .. } => assert!(matches!(params, Json::Null)),
        other => panic!("{other:?}"),
    }
}

#[test]
fn a_call_is_translated_for_its_route() {
    let call = call_tool(&json(
        r#"{"name":"glob","arguments":{"pattern":"*.rs","path":"src"}}"#,
    ))
    .unwrap();
    assert_eq!(call.tool, "glob");
    assert_eq!(call.subject, "*.rs in src");
    assert_eq!(call.route.0, "/v1/glob");
    assert_eq!(
        call.body.to_text(),
        r#"{"directory":"src","pattern":"*.rs"}"#
    );
}

#[test]
fn a_call_that_cannot_be_sent_says_why() {
    assert_eq!(
        call_tool(&json("{}")).unwrap_err(),
        "tools/call with no tool name"
    );
    assert_eq!(
        call_tool(&json(r#"{"name":"Bash"}"#)).unwrap_err(),
        "`Bash` is not a tool this bridge serves"
    );
    assert_eq!(
        call_tool(&json(r#"{"name":"read"}"#)).unwrap_err(),
        "`read` requires a string `file_path`"
    );
    assert!(
        call_tool(&json(r#"{"name":"run","arguments":{"command":"a | b"}}"#))
            .unwrap_err()
            .contains("no shell inside the pod")
    );
}

#[test]
fn a_reply_is_handed_back_word_for_word() {
    let v = Call::answer(&Ok(json(r#"{"a":1}"#)));
    assert!(matches!(v.get("isError"), Some(Json::Bool(false))));
    let content = v.get("content").unwrap().as_array().unwrap();
    assert_eq!(content[0].str_at("type"), Some("text"));
    assert_eq!(content[0].str_at("text"), Some("{\n  \"a\": 1\n}"));
    assert_eq!(
        tool_result("x").to_text(),
        r#"{"content":[{"text":"x","type":"text"}],"isError":false}"#
    );
    let v = Call::answer(&Err(TransportError::Io("gone".into())));
    assert_eq!(
        v.to_text(),
        tool_error("cannot reach the nucleus pod: gone").to_text()
    );
}

#[test]
fn a_call_is_noted_by_what_came_back() {
    let call = call_tool(&json(r#"{"name":"read","arguments":{"file_path":"a"}}"#)).unwrap();
    let status = |status: u16| TransportError::Status {
        status,
        body: r#"{"reason":"never"}"#.into(),
    };
    let e = call.observe("pod", &Ok(Json::Null));
    assert_eq!(
        (e.tool.as_str(), e.subject.as_str(), e.pod.as_str()),
        ("read", "a", "pod")
    );
    assert_eq!(e.outcome, Outcome::Allowed);
    for code in [403, 409] {
        assert_eq!(
            call.observe("pod", &Err(status(code))).outcome,
            Outcome::Refused("never".into())
        );
    }
    for code in [404, 422, 500] {
        assert!(matches!(
            call.observe("pod", &Err(status(code))).outcome,
            Outcome::Failed(_)
        ));
    }
}

#[test]
fn replies_carry_a_result_or_an_error() {
    assert_eq!(
        ok(Json::uint(3), Json::Null).to_text(),
        r#"{"id":3,"jsonrpc":"2.0","result":null}"#
    );
    assert_eq!(
        err(Json::Null, 5, "m").to_text(),
        r#"{"error":{"code":5,"message":"m"},"id":null,"jsonrpc":"2.0"}"#
    );
}
