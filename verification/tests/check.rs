use ccn::check::{
    act, blame, call, classify, compare, mismatch, run, summarise, summarise_value, Action,
    CallError, Check, Event, COLUMN, ESCAPE_PROBE, TITLE,
};
use ccn::json::Json;
use ccn::mediation::Route;
use ccn::transport::TransportError;

fn json(s: &str) -> Json {
    Json::parse(s).unwrap()
}

fn status(status: u16, body: &str) -> TransportError {
    TransportError::Status {
        status,
        body: body.into(),
    }
}

#[test]
fn the_escape_probe_is_outside_any_pod_root() {
    assert!(
        ESCAPE_PROBE.starts_with('/') && !ESCAPE_PROBE.starts_with("/work"),
        "the probe must be an absolute path outside the pod's work_dir"
    );
}

#[test]
fn an_error_body_is_summarised_to_its_reason() {
    assert_eq!(
        summarise(r#"{"error":"sandbox_escape","reason":"resolves outside the root"}"#),
        "resolves outside the root"
    );
    assert_eq!(summarise("  plain text  "), "plain text");
}

#[test]
fn a_policy_refusal_is_not_counted_as_a_failure() {
    let refused = act(
        1,
        "probe",
        Err(CallError::Refused("denied by lattice".into())),
    );
    assert_eq!(refused.1, 0);

    let broken = act(1, "probe", Err(CallError::Broken("422".into())));
    assert_eq!(broken.1, 1);
}

#[test]
fn a_read_back_that_does_not_match_is_a_failure() {
    let reply = json(r#"{ "contents": "something else" }"#);
    let verify = if reply.str_at("contents") == Some("expected") {
        Ok("identical".into())
    } else {
        Err("mismatch".into())
    };
    let mismatched = act(3, "read it back", Ok(verify));
    assert_eq!(mismatched.1, 1);
    let mismatched = act(3, "read it back", Ok(compare(&reply, "expected")));
    assert_eq!(mismatched.1, 1);
}

#[test]
fn each_field_of_an_error_body_is_looked_at_in_turn() {
    assert_eq!(summarise(r#"{"detail":"d","message":"m"}"#), "m");
    assert_eq!(summarise(r#"{"detail":"d","message":3}"#), "d");
    assert_eq!(summarise(r#"{"other":"d"}"#), r#"{"other":"d"}"#);
    assert_eq!(summarise(&"é".repeat(200)), "é".repeat(160));
    assert_eq!(summarise_value(Some(&json(r#"{"error":"e"}"#)), "x"), "e");
    assert_eq!(summarise_value(None, " x "), "x");
}

#[test]
fn a_file_reads_back_or_does_not() {
    assert_eq!(
        compare(&json(r#"{ "contents": "a\n" }"#), "a\n"),
        Ok("identical".into())
    );
    assert_eq!(
        compare(&json(r#"{ "contents": "a\n\"" }"#), "a\n"),
        Err("the pod returned \"a\\n\\\"\", not what was written".into())
    );
    assert_eq!(
        compare(&json("{}"), "a"),
        Err("the pod returned \"\", not what was written".into())
    );
    assert_eq!(mismatch("X"), "the pod returned X, not what was written");
}

#[test]
fn a_failed_request_is_put_down_to_a_policy_or_to_a_fault() {
    let route = Route("/v1/read");
    for code in [403, 409] {
        match blame(route, &status(code, r#"{"reason":"never"}"#)) {
            CallError::Refused(why) => assert_eq!(why, "never"),
            other => panic!("{other:?}"),
        }
    }
    match blame(route, &status(404, "x")) {
        CallError::Broken(why) => assert_eq!(
            why,
            "404 — this pod does not serve /v1/read. The bridge advertises a tool the pod has not got."
        ),
        other => panic!("{other:?}"),
    }
    match classify(route, &status(422, "ignored"), "no path") {
        CallError::Broken(why) => assert_eq!(
            why,
            "422 — /v1/read could not deserialise the body this bridge sent: no path"
        ),
        other => panic!("{other:?}"),
    }
    for e in [status(500, "sad"), TransportError::Io("gone".into())] {
        match blame(route, &e) {
            CallError::Broken(why) => assert_eq!(why, e.message()),
            other => panic!("{other:?}"),
        }
    }
}

#[test]
fn a_call_is_prepared_for_its_route() {
    let (route, body) = call("read", &json(r#"{ "file_path": "a" }"#)).unwrap();
    assert_eq!(route, Route("/v1/read"));
    assert_eq!(body.to_text(), r#"{"path":"a"}"#);
    match call("read", &json("{}")) {
        Err(CallError::Broken(why)) => assert!(why.contains("file_path"), "{why}"),
        other => panic!("{other:?}"),
    }
    assert!(matches!(
        call("nope", &json("{}")),
        Err(CallError::Broken(_))
    ));
}

#[test]
fn every_result_starts_in_the_same_column() {
    let (a, _) = act(1, "run true", Ok(Ok("x".into())));
    let (b, _) = act(2, "write ccn-check-00000000.txt", Ok(Ok("x".into())));
    assert_eq!(a.find("ok    x"), b.find("ok    x"));
    assert_eq!(a.find("ok    x"), Some(6 + COLUMN));
}

fn ok() -> Event {
    Event::Reply(Ok(json("{}")))
}

fn refused(why: &str) -> Event {
    Event::Reply(Err(CallError::Refused(why.into())))
}

fn broken(why: &str) -> Event {
    Event::Reply(Err(CallError::Broken(why.into())))
}

fn back(content: &str) -> Event {
    let v = Json::Object(vec![("contents".into(), Json::text(content))]);
    Event::Reply(Ok(v))
}

/// Runs a whole check; gives what was printed and the exit code.
fn walk(stamp: u128, events: Vec<Event>) -> (String, Option<i32>) {
    let mut check = Check::new(stamp);
    let mut out = TITLE.to_string();
    for event in events {
        out.push_str(&run(&mut check, event));
    }
    match check.pending() {
        Action::Exit(code) => (out, Some(code)),
        _ => (out, None),
    }
}

fn reached() -> Vec<Event> {
    vec![
        Event::Transport(Ok("unix socket /x".into())),
        Event::Health(Ok(())),
    ]
}

#[test]
fn a_sound_path_passes() {
    let mut events = reached();
    events.extend([ok(), ok(), back("mediated at 305419896\n"), refused("outside")]);
    let (out, code) = walk(0x12345678, events);
    assert_eq!(code, Some(0));
    assert_eq!(
        out,
        "nucleus bridge check\n\n  transport   unix socket /x\n  health      ok\n  \
         tools       7 — run, read, write, glob, grep, web_fetch, web_search\n\n  \
         [1] run true                              ok    the pod executed a command\n  \
         [2] write ccn-check-12345678.txt          ok    22 bytes\n  \
         [3] read it back                          ok    identical\n  \
         [4] read /etc/shadow (must be refused)    ok    refused: outside\n\n  \
         Receipts are not in these replies. The pod ships each signed MediationReceipt to\n  \
         the node over vsock as it is produced; they are collected at\n  \
         <node-state>/pods/<pod-id>/collected-receipts.jsonl and verified with\n  \
         `nucleus-audit verify-mediation-receipts`.\n\n\
         the mediated path works, and the boundary refused what it should.\n"
    );
}

#[test]
fn a_probe_that_is_served_fails_the_check() {
    let mut events = reached();
    events.extend([ok(), ok(), back("mediated at 1\n"), ok()]);
    let (out, code) = walk(1, events);
    assert_eq!(code, Some(1));
    assert!(out.contains("FAIL  the pod served it\n\n  This is the serious one."), "{out}");
    assert!(out.ends_with("1 check(s) failed — the mediated path is not sound.\n"), "{out}");
}

#[test]
fn faults_are_counted_and_refusals_are_not() {
    let mut events = reached();
    events.extend([broken("404"), refused("never"), back("other"), broken("422")]);
    let (out, code) = walk(1, events);
    assert_eq!(code, Some(1));
    assert!(out.contains("FAIL  404\n"), "{out}");
    assert!(out.contains("--    refused by policy: never\n"), "{out}");
    assert!(out.contains("FAIL  the pod returned \"other\", not what was written\n"), "{out}");
    assert!(out.ends_with("3 check(s) failed — the mediated path is not sound.\n"), "{out}");

    let mut events = reached();
    events.extend([refused("a"), refused("b"), refused("c"), refused("d")]);
    assert_eq!(walk(1, events).1, Some(0));
}

#[test]
fn without_a_path_nothing_is_called() {
    let (out, code) = walk(1, vec![Event::Transport(Err("no node".into()))]);
    assert_eq!(code, Some(1));
    assert!(out.contains("  transport   FAIL  no node\n\nthere is no mediated path."), "{out}");
    let (out, code) = walk(
        1,
        vec![
            Event::Transport(Ok("x".into())),
            Event::Health(Err("refused".into())),
        ],
    );
    assert_eq!(code, Some(1));
    assert!(out.contains("  health      FAIL  refused\n\nthe pod is not answering."), "{out}");
}

#[test]
fn the_check_asks_for_one_thing_at_a_time() {
    let mut check = Check::new(0xabcdef0123456789);
    assert!(matches!(check.pending(), Action::Resolve));
    run(&mut check, Event::Transport(Ok("x".into())));
    assert!(matches!(check.pending(), Action::AskHealth));
    run(&mut check, Event::Health(Ok(())));
    let mut calls = Vec::new();
    while let Action::Call { tool, args } = check.pending() {
        assert!(call(tool, &args).is_ok(), "{tool}");
        calls.push(format!("{tool} {}", args.to_text()));
        run(&mut check, refused("x"));
    }
    assert_eq!(
        calls,
        [
            r#"run {"command":"true"}"#,
            r#"write {"content":"mediated at 12379813738877118345\n","file_path":"ccn-check-23456789.txt"}"#,
            r#"read {"file_path":"ccn-check-23456789.txt"}"#,
            r#"read {"file_path":"/etc/shadow"}"#,
        ]
    );
}

#[test]
fn an_event_that_nothing_asked_for_changes_nothing() {
    let mut check = Check::new(1);
    assert_eq!(run(&mut check, ok()), "");
    assert!(matches!(check.pending(), Action::Resolve));
}

#[test]
fn two_checks_write_different_files() {
    let name = |stamp: u128| {
        let mut check = Check::new(stamp);
        run(&mut check, Event::Transport(Ok("x".into())));
        run(&mut check, Event::Health(Ok(())));
        run(&mut check, ok());
        match check.pending() {
            Action::Call { args, .. } => args.str_at("file_path").unwrap().to_string(),
            other => panic!("{other:?}"),
        }
    };
    assert_eq!(name(0), "ccn-check-00000000.txt");
    assert_eq!(name(0xfedcba98), "ccn-check-fedcba98.txt");
    assert_ne!(name(1), name(2));
    assert_eq!(name(1), name((1 << 32) + 1));
}
