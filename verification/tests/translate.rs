use ccn::json::Json;
use ccn::mediation::mediated_tools;
use ccn::translate::{expansion, to_proxy_body, tokenize, unbalanced, unsupported, whole_seconds};

fn json(s: &str) -> Json {
    Json::parse(s).unwrap()
}

/// The body that a call becomes, as compact text with its keys in order.
fn body(tool: &str, args: &str) -> String {
    to_proxy_body(tool, &json(args)).unwrap().to_text()
}

#[test]
fn the_builtins_names_become_the_routes_names() {
    assert_eq!(
        body("read", r#"{ "file_path": "src/a.rs" }"#),
        json(r#"{ "path": "src/a.rs" }"#).to_text()
    );
    assert_eq!(
        body("write", r#"{ "file_path": "a.txt", "content": "hi" }"#),
        json(r#"{ "path": "a.txt", "contents": "hi" }"#).to_text()
    );
    assert_eq!(
        body("glob", r#"{ "pattern": "*.rs", "path": "src" }"#),
        json(r#"{ "pattern": "*.rs", "directory": "src" }"#).to_text()
    );
}

#[test]
fn the_routes_that_already_agreed_are_left_alone() {
    assert_eq!(
        body("grep", r#"{ "pattern": "fn main", "glob": "*.rs" }"#),
        json(r#"{ "pattern": "fn main", "glob": "*.rs" }"#).to_text()
    );
    assert_eq!(
        body("web_search", r#"{ "query": "firecracker" }"#),
        json(r#"{ "query": "firecracker" }"#).to_text()
    );
}

#[test]
fn web_fetch_drops_the_prompt_the_route_cannot_honour() {
    assert_eq!(
        body("web_fetch", r#"{ "url": "https://x", "prompt": "summarise" }"#),
        json(r#"{ "url": "https://x" }"#).to_text()
    );
}

#[test]
fn a_command_string_becomes_an_argument_vector() {
    assert_eq!(
        body("run", r#"{ "command": "cargo test --workspace" }"#),
        json(r#"{ "args": ["cargo", "test", "--workspace"] }"#).to_text()
    );
}

#[test]
fn milliseconds_become_seconds_and_never_round_down_to_zero() {
    let b = to_proxy_body("run", &json(r#"{ "command": "id", "timeout_ms": 1 }"#)).unwrap();
    assert_eq!(b.u64_at("timeout_seconds"), Some(1));
    let b = to_proxy_body("run", &json(r#"{ "command": "id", "timeout_ms": 2500 }"#)).unwrap();
    assert_eq!(b.u64_at("timeout_seconds"), Some(3));
}

#[test]
fn a_missing_field_is_named_here_rather_than_422ing_over_there() {
    let e = to_proxy_body("write", &json(r#"{ "file_path": "a.txt" }"#)).unwrap_err();
    assert!(e.contains("content"), "{e}");
}

#[test]
fn quoting_and_escaping_survive_tokenisation() {
    assert_eq!(
        tokenize(r#"git commit -m "two words""#).unwrap(),
        ["git", "commit", "-m", "two words"]
    );
    assert_eq!(
        tokenize(r#"grep 'fn .*(' src/lib.rs"#).unwrap(),
        ["grep", "fn .*(", "src/lib.rs"]
    );
    assert_eq!(tokenize(r"echo a\ b").unwrap(), ["echo", "a b"]);
    // A backslash-escaped metacharacter is a literal, not a refusal.
    assert_eq!(tokenize(r"echo \*").unwrap(), ["echo", "*"]);
}

#[test]
fn shell_syntax_is_refused_with_a_reason_rather_than_passed_through_literally() {
    for command in [
        "ls | wc -l",
        "make && make test",
        "cargo build; cargo test",
        "echo hi > out.txt",
        "cat < in.txt",
        "echo $HOME",
        "echo `id`",
        "echo $(id)",
        "ls *.rs",
        "rm -rf / &",
    ] {
        let e = tokenize(command).unwrap_err();
        assert!(
            e.contains("no shell inside the pod"),
            "{command} was not refused with an explanation: {e}"
        );
    }
}

#[test]
fn a_refusal_names_the_tool_that_does_express_it() {
    assert!(tokenize("ls *.rs").unwrap_err().contains("`glob`"));
    assert!(tokenize("echo hi > f").unwrap_err().contains("`write`"));
}

#[test]
fn an_unbalanced_quote_is_an_error_not_a_silent_truncation() {
    assert!(tokenize(r#"echo "unterminated"#).is_err());
    assert!(tokenize("echo 'unterminated").is_err());
    assert!(tokenize("echo").is_ok());
    assert!(tokenize("   ").is_err());
}

/// The request shapes that the routes read.
const CONTRACT: &str = r#"{
  "routes": {
    "/v1/read": { "required": ["path"], "optional": [] },
    "/v1/write": { "required": ["path", "contents"], "optional": [] },
    "/v1/run": { "required": ["args"], "optional": ["stdin", "directory", "timeout_seconds"] },
    "/v1/glob": { "required": ["pattern"], "optional": ["directory", "max_results"] },
    "/v1/grep": { "required": ["pattern"], "optional": ["path", "glob"] },
    "/v1/web_fetch": { "required": ["url"], "optional": [] },
    "/v1/web_search": { "required": ["query"], "optional": ["max_results"] }
  }
}"#;

/// A call of each tool with every argument the schema advertises.
fn widest_call(tool: &str) -> Option<Json> {
    Some(json(match tool {
        "read" => r#"{ "file_path": "a.txt", "offset": 1, "limit": 2 }"#,
        "write" => r#"{ "file_path": "a.txt", "content": "x" }"#,
        "run" => {
            r#"{ "command": "id", "directory": "src", "stdin": "x", "timeout_ms": 1000 }"#
        }
        "glob" => r#"{ "pattern": "*.rs", "path": "src", "max_results": 10 }"#,
        "grep" => r#"{ "pattern": "fn", "path": "src", "glob": "*.rs" }"#,
        "web_fetch" => r#"{ "url": "https://x", "prompt": "p" }"#,
        "web_search" => r#"{ "query": "q", "max_results": 5 }"#,
        _ => return None,
    }))
}

fn strings(spec: &Json, key: &str) -> Vec<String> {
    match spec.get(key).and_then(|v| v.as_array()) {
        Some(a) => a
            .iter()
            .filter_map(|v| v.as_str().map(str::to_string))
            .collect(),
        None => Vec::new(),
    }
}

#[test]
fn the_translation_emits_only_fields_the_route_deserialises() {
    let contract = json(CONTRACT);
    let routes = contract.get("routes").unwrap();

    for (tool, route) in mediated_tools() {
        let Some(args) = widest_call(tool) else {
            continue;
        };
        let route = route.0;
        let spec = routes.get(route).unwrap_or(&Json::Null);
        assert!(
            matches!(spec, Json::Object(_)),
            "`{tool}` posts to {route}, which the contract does not describe"
        );

        let required = strings(spec, "required");
        let mut known = required.clone();
        known.extend(strings(spec, "optional"));

        let body = to_proxy_body(tool, &args)
            .unwrap_or_else(|e| panic!("`{tool}` would not translate its own schema: {e}"));
        let Json::Object(fields) = &body else {
            panic!("a body is an object")
        };

        for (field, _) in fields {
            assert!(
                known.contains(field),
                "`{tool}` sends `{field}` to {route}, which does not deserialise it — a 422"
            );
        }
        for field in &required {
            assert!(
                body.get(field).is_some(),
                "{route} requires `{field}` and `{tool}` does not send it — a 422"
            );
        }
    }
}

#[test]
fn the_contract_covers_every_route_the_bridge_posts_to() {
    let contract = json(CONTRACT);
    for (tool, route) in mediated_tools() {
        let route = route.0;
        if widest_call(tool).is_none() {
            continue;
        }
        assert!(
            matches!(
                contract.get("routes").and_then(|r| r.get(route)),
                Some(Json::Object(_))
            ),
            "{route} is posted to by `{tool}` but is not in the contract"
        );
    }
}

#[test]
fn the_widest_calls_become_these_bodies() {
    let expected = [
        ("run", r#"{"args":["id"],"directory":"src","stdin":"x","timeout_seconds":1}"#),
        ("read", r#"{"path":"a.txt"}"#),
        ("write", r#"{"contents":"x","path":"a.txt"}"#),
        ("glob", r#"{"directory":"src","max_results":10,"pattern":"*.rs"}"#),
        ("grep", r#"{"glob":"*.rs","path":"src","pattern":"fn"}"#),
        ("web_fetch", r#"{"url":"https://x"}"#),
        ("web_search", r#"{"max_results":5,"query":"q"}"#),
    ];
    for (tool, text) in expected {
        assert_eq!(
            to_proxy_body(tool, &widest_call(tool).unwrap()).unwrap().to_text(),
            text
        );
    }
}

#[test]
fn an_argument_of_the_wrong_type_is_missing_or_left_out() {
    assert_eq!(
        to_proxy_body("read", &json(r#"{ "file_path": 3 }"#)).unwrap_err(),
        to_proxy_body("read", &json("{}")).unwrap_err()
    );
    assert_eq!(
        body("glob", r#"{ "pattern": "p", "path": 1, "max_results": -1 }"#),
        r#"{"pattern":"p"}"#
    );
    assert_eq!(
        body("run", r#"{ "command": "id", "timeout_ms": 1.5 }"#),
        r#"{"args":["id"]}"#
    );
}

#[test]
fn a_tool_that_is_not_served_is_not_translated() {
    let e = to_proxy_body("subagent", &json("{}")).unwrap_err();
    assert!(e.contains("`subagent`"), "{e}");
}

#[test]
fn whole_seconds_rounds_up() {
    assert_eq!(whole_seconds(0), 1);
    assert_eq!(whole_seconds(1), 1);
    assert_eq!(whole_seconds(1000), 1);
    assert_eq!(whole_seconds(1001), 2);
    assert_eq!(whole_seconds(u64::MAX), u64::MAX / 1000 + 1);
}

#[test]
fn quotes_hold_shell_syntax_and_empty_words() {
    assert_eq!(tokenize("echo '$HOME | x'").unwrap(), ["echo", "$HOME | x"]);
    assert_eq!(tokenize("echo ''").unwrap(), ["echo", ""]);
    assert_eq!(tokenize("a'b c'd").unwrap(), ["ab cd"]);
    assert_eq!(tokenize(r#"echo "a\"b""#).unwrap(), ["echo", "a\"b"]);
    assert_eq!(tokenize("  a \t b  ").unwrap(), ["a", "b"]);
}

#[test]
fn an_expansion_inside_double_quotes_is_refused() {
    assert_eq!(tokenize(r#"echo "$HOME""#).unwrap_err(), expansion('$'));
    assert_eq!(tokenize(r#"echo "`id`""#).unwrap_err(), expansion('`'));
}

#[test]
fn each_refusal_says_which_syntax_it_refuses() {
    assert_eq!(tokenize("echo 'a").unwrap_err(), unbalanced('\''));
    assert_eq!(tokenize("echo \"a").unwrap_err(), unbalanced('"'));
    assert!(unsupported("`|`", "do x").contains("`|`"));
    assert!(unsupported("`|`", "do x").contains("do x"));
    assert_eq!(
        unbalanced('"'),
        "the command has an unbalanced \" quote"
    );
}

#[test]
fn any_argument_vector_can_be_spelt() {
    let words = ["a b", "$HOME", "it's", "\"q\" \\ `x`", "*"];
    let single: Vec<String> = words
        .iter()
        .map(|w| format!("'{}'", w.replace('\'', "'\\''")))
        .collect();
    assert_eq!(tokenize(&single.join(" ")).unwrap(), words);
    let double: Vec<String> = words
        .iter()
        .map(|w| {
            let inner: String = w
                .chars()
                .map(|c| match c {
                    '"' | '\\' | '$' | '`' => format!("\\{c}"),
                    _ => c.to_string(),
                })
                .collect();
            format!("\"{inner}\"")
        })
        .collect();
    assert_eq!(tokenize(&double.join(" ")).unwrap(), words);
    let escaped: Vec<String> = words
        .iter()
        .map(|w| w.chars().map(|c| format!("\\{c}")).collect())
        .collect();
    assert_eq!(tokenize(&escaped.join(" ")).unwrap(), words);
}

#[test]
fn a_plain_command_is_split_on_white_space() {
    assert_eq!(
        tokenize("cargo  test\t--workspace a~b").unwrap(),
        ["cargo", "test", "--workspace", "a~b"]
    );
    assert!(tokenize("ls ~").unwrap_err().contains("a leading `~`"));
    assert_eq!(
        tokenize("").unwrap_err(),
        "`run` was given an empty command"
    );
    assert!(tokenize("a\\").unwrap_err().contains("a trailing backslash"));
    assert!(tokenize("a && b").unwrap_err().contains("`&&`"));
    assert!(tokenize("a & b").unwrap_err().contains("`&`"));
    assert!(tokenize("(a)").unwrap_err().contains("a subshell"));
    assert!(tokenize("a?").unwrap_err().contains("an unquoted glob (`?`)"));
}

#[test]
fn a_second_command_after_a_line_feed_is_refused() {
    for command in ["make\nmake test", "make \n\n  make test", "make\r\nmake", "a\n'b'", "a\n\\b"] {
        assert_eq!(
            tokenize(command).unwrap_err(),
            unsupported(
                "a second command after a line feed",
                "run each command in its own call and combine the results yourself"
            ),
            "{command:?}"
        );
    }
}

#[test]
fn a_line_feed_around_a_command_or_quoted_is_harmless() {
    assert_eq!(tokenize("\n \nmake test\n \n").unwrap(), ["make", "test"]);
    assert_eq!(tokenize("echo 'a\nb'").unwrap(), ["echo", "a\nb"]);
    assert_eq!(tokenize("echo \"a\nb\" c").unwrap(), ["echo", "a\nb", "c"]);
    assert_eq!(tokenize("echo a\\\nb").unwrap(), ["echo", "a\nb"]);
    assert_eq!(
        tokenize("\n").unwrap_err(),
        "`run` was given an empty command"
    );
}
