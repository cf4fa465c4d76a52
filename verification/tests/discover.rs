use ccn::discover::{
    as_base_url, cause, cli_args, create_pod, env_or, find_or_create_pod, nucleus, payload_of,
    running_pod, strip_ansi, CliRun, Next, Stage, DEFAULT_POD_SPEC,
};
use ccn::json::Json;
use ccn::transport::split_base;

fn args(words: &[&str]) -> Vec<String> {
    words.iter().map(|w| w.to_string()).collect()
}

fn json(s: &str) -> Json {
    Json::parse(s).unwrap()
}

#[test]
fn a_bare_host_port_becomes_a_url_and_a_url_is_left_alone() {
    assert_eq!(as_base_url("127.0.0.1:52341"), "http://127.0.0.1:52341");
    assert_eq!(as_base_url("http://node:9000/"), "http://node:9000");
    assert_eq!(as_base_url("https://node:9000"), "https://node:9000");
}

#[test]
fn the_clis_error_line_survives_its_own_logging() {
    let stderr = "\u{1b}[2m2026-09-15T01:16:07Z\u{1b}[0m \u{1b}[32m INFO\u{1b}[0m \
                  \u{1b}[2mnucleus\u{1b}[0m: Starting nucleus\n\
                  Error: List pods failed: io: Connection refused\n";
    assert_eq!(cause(stderr), "List pods failed: io: Connection refused");
}

#[test]
fn with_no_error_line_the_last_thing_said_is_the_cause() {
    assert_eq!(
        cause("first\nsomething went wrong\n\n"),
        "something went wrong"
    );
    assert_eq!(cause("   \n"), "no output");
}

#[test]
fn the_pod_name_and_spec_are_overridable_but_have_defaults() {
    assert_eq!(env_or(None, "fallback"), "fallback");
    assert_eq!(env_or(Some("given".into()), "fallback"), "given");
    assert_eq!(env_or(Some(String::new()), "fallback"), "");
    assert_eq!(DEFAULT_POD_SPEC, "pod.yaml");
}

#[test]
fn a_coloured_error_line_is_found_and_is_plain() {
    assert_eq!(
        cause("\u{1b}[31mError:\u{1b}[0m no route\nlast"),
        "no route"
    );
    assert_eq!(strip_ansi("\u{1b}[1;31mred\u{1b}[0m!"), "red!");
    assert_eq!(strip_ansi("a\u{1b}Mb"), "ab");
    assert_eq!(strip_ansi("plain"), "plain");
}

#[test]
fn the_address_of_a_pod_is_one_the_transport_accepts() {
    let (host, port, prefix) = split_base(&as_base_url("127.0.0.1:52341")).unwrap();
    assert_eq!(
        (host.as_str(), port, prefix.as_str()),
        ("127.0.0.1", 52341, "")
    );
}

#[test]
fn the_json_is_found_after_the_log_lines() {
    let a = args(&["node", "pods"]);
    assert_eq!(
        payload_of(&a, true, "INFO starting\n[1, 2]\n", "").unwrap(),
        "[1, 2]\n"
    );
    assert_eq!(
        payload_of(&a, true, "nothing here", "").unwrap_err(),
        "`nucleus node pods` printed no JSON"
    );
    assert_eq!(
        payload_of(&a, false, "[]", "Error: denied\n").unwrap_err(),
        "`nucleus node pods` failed: denied"
    );
}

#[test]
fn a_run_of_the_tool_is_read() {
    let a = args(&["node", "create", "pod.yaml"]);
    let ran = |success: bool, stdout: &[u8], stderr: &[u8]| CliRun::Ran {
        success,
        stdout: stdout.to_vec(),
        stderr: stderr.to_vec(),
    };
    assert_eq!(
        nucleus(&a, ran(true, b"log\n{\"proxy_addr\": \"h:1\"}", b""))
            .unwrap()
            .to_text(),
        r#"{"proxy_addr":"h:1"}"#
    );
    assert_eq!(
        nucleus(&a, ran(false, b"", b"\xffError: a\nError: b")).unwrap_err(),
        "`nucleus node create pod.yaml` failed: b"
    );
    assert_eq!(
        nucleus(&a, CliRun::NotRun("not found".into())).unwrap_err(),
        "could not run `nucleus node create pod.yaml`: not found. Set NUCLEUS_PROXY_URL to a \
         pod's proxy address to skip pod discovery entirely."
    );
    let e = nucleus(&a, ran(true, b"{oops", b"")).unwrap_err();
    assert!(
        e.starts_with("could not parse `nucleus node create pod.yaml` output: "),
        "{e}"
    );
}

#[test]
fn only_a_running_pod_of_the_name_is_reused() {
    let pods = json(
        r#"[
            { "name": "other", "state": "running", "proxy_addr": "h:1" },
            { "name": "mine", "state": "exited", "proxy_addr": "h:2" },
            { "name": "mine", "state": "running", "proxy_addr": "h:3" },
            { "name": "mine", "state": "running", "proxy_addr": "h:4" }
        ]"#,
    );
    assert_eq!(running_pod(&pods, "mine"), Ok(Some("http://h:3".into())));
    assert_eq!(running_pod(&pods, "absent"), Ok(None));
    let silent = json(
        r#"[
            { "name": "mine", "state": "running" },
            { "name": "mine", "state": "running", "proxy_addr": "h:4" }
        ]"#,
    );
    assert_eq!(running_pod(&silent, "mine"), Ok(None));
    assert_eq!(
        running_pod(&json("{}"), "mine"),
        Err("`nucleus node pods` did not return a list".into())
    );
}

#[test]
fn a_created_pod_without_an_address_is_an_error_that_quotes_the_reply() {
    assert_eq!(
        create_pod(&json(r#"{ "proxy_addr": "h:7/" }"#)),
        Ok("http://h:7".into())
    );
    assert_eq!(
        create_pod(&json(r#"{ "id": 4 }"#)),
        Err(
            "the node created a pod but reported no proxy_addr, so there is nothing to talk to. \
             Its reply: {\"id\":4}"
                .into()
        )
    );
}

#[test]
fn the_search_lists_then_creates() {
    assert_eq!(cli_args(Stage::Listing, "s.yaml"), ["node", "pods"]);
    assert_eq!(
        cli_args(Stage::Creating, "s.yaml"),
        ["node", "create", "s.yaml"]
    );
    match find_or_create_pod(Stage::Listing, "n", "s.yaml", Ok(json("[]"))) {
        Next::Create { note } => {
            assert_eq!(note, "no running pod named `n`; creating one from s.yaml")
        }
        other => panic!("{other:?}"),
    }
    let listed = json(r#"[{ "name": "n", "state": "running", "proxy_addr": "h:1" }]"#);
    match find_or_create_pod(Stage::Listing, "n", "s.yaml", Ok(listed)) {
        Next::Use { addr, note } => {
            assert_eq!(addr, "http://h:1");
            assert_eq!(note, "reusing pod `n` at http://h:1");
        }
        other => panic!("{other:?}"),
    }
    let made = json(r#"{ "proxy_addr": "h:2" }"#);
    match find_or_create_pod(Stage::Creating, "n", "s.yaml", Ok(made)) {
        Next::Use { addr, note } => {
            assert_eq!(addr, "http://h:2");
            assert_eq!(note, "created pod at http://h:2");
        }
        other => panic!("{other:?}"),
    }
}

#[test]
fn a_search_that_fails_says_why() {
    for stage in [Stage::Listing, Stage::Creating] {
        match find_or_create_pod(stage, "n", "s", Err("refused".into())) {
            Next::GiveUp(why) => assert_eq!(why, "refused"),
            other => panic!("{other:?}"),
        }
    }
    match find_or_create_pod(Stage::Listing, "n", "s", Ok(json("3"))) {
        Next::GiveUp(why) => assert_eq!(why, "`nucleus node pods` did not return a list"),
        other => panic!("{other:?}"),
    }
    match find_or_create_pod(Stage::Creating, "n", "s", Ok(json("3"))) {
        Next::GiveUp(why) => assert!(why.ends_with("Its reply: 3"), "{why}"),
        other => panic!("{other:?}"),
    }
}

#[test]
fn the_cause_is_one_plain_line() {
    let cause = cause("\u{1b}[2mlog\u{1b}[0m\n\u{1b}[31mError:Error: a\u{1b}[1mb\r\n more");
    assert_eq!(cause, "ab");
}
