use ccn::hook::{answer, decide, emit_allow, emit_deny, Decision, Event};
use ccn::json::Json;
use ccn::mediation::{disposition, Disposition, BUILTIN_TOOLS};

fn call(tool_name: &str) -> Event {
    Event::Call {
        tool_name: tool_name.into(),
    }
}

fn denial(event: &Event) -> String {
    match decide(event) {
        Decision::Deny(reason) => reason,
        Decision::Allow => panic!("{event:?} was allowed"),
    }
}

#[test]
fn a_denied_builtin_is_redirected_to_its_mediated_tool() {
    assert_eq!(
        denial(&call("Bash")),
        "`Bash` does not run on the host. Call `mcp__nucleus__run` instead — same arguments, \
         executed inside the Firecracker pod under the nucleus permission lattice, and it returns \
         a signed mediation receipt."
    );
}

#[test]
fn a_tool_without_an_equivalent_is_refused_with_the_reason() {
    assert_eq!(
        denial(&call("TodoWrite")),
        "`TodoWrite` is refused by the nucleus bridge: TodoWrite has no effect outside the \
         transcript and is not mediated."
    );
    assert!(denial(&call("SomeToolShippedNextTuesday")).contains("unknown tool"));
    assert!(denial(&call("")).contains("unknown tool"));
}

#[test]
fn no_builtin_is_allowed() {
    for name in BUILTIN_TOOLS {
        denial(&call(name));
    }
}

#[test]
fn a_redirect_leads_to_a_call_that_is_allowed() {
    for name in BUILTIN_TOOLS {
        if let Disposition::Mediated { mcp_tool, .. } = disposition(name) {
            let target = format!("mcp__nucleus__{mcp_tool}");
            assert!(denial(&call(name)).contains(&target));
            assert!(matches!(decide(&call(&target)), Decision::Allow));
        }
    }
}

#[test]
fn another_server_is_not_this_bridge() {
    denial(&call("mcp__nucleusx__run"));
    denial(&call("mcp__nucleus"));
    denial(&call("xmcp__nucleus__run"));
}

#[test]
fn every_error_path_ends_in_a_denial() {
    assert_eq!(
        denial(&Event::Unreadable),
        "nucleus gate could not read the hook event; refusing the call"
    );
    assert_eq!(
        denial(&Event::Unparsable),
        "nucleus gate could not parse the hook event; refusing the call"
    );
}

#[test]
fn the_output_carries_the_decision() {
    let allowed = emit_allow();
    let inner = allowed.get("hookSpecificOutput").unwrap();
    assert_eq!(inner.str_at("hookEventName"), Some("PreToolUse"));
    assert_eq!(inner.str_at("permissionDecision"), Some("allow"));
    assert_eq!(
        inner.str_at("permissionDecisionReason"),
        Some("mediated by nucleus inside the pod")
    );
    let denied = emit_deny("because");
    let inner = denied.get("hookSpecificOutput").unwrap();
    assert_eq!(inner.str_at("permissionDecision"), Some("deny"));
    assert_eq!(inner.str_at("permissionDecisionReason"), Some("because"));
}

#[test]
fn the_answer_is_one_line_of_json() {
    let line = answer(&call("Bash"));
    assert!(!line.contains('\n'));
    let v = Json::parse(&line).unwrap();
    let inner = v.get("hookSpecificOutput").unwrap();
    assert_eq!(inner.str_at("permissionDecision"), Some("deny"));
    let line = answer(&call("mcp__nucleus__read"));
    assert_eq!(
        line,
        "{\"hookSpecificOutput\":{\"hookEventName\":\"PreToolUse\",\"permissionDecision\":\"allow\",\
         \"permissionDecisionReason\":\"mediated by nucleus inside the pod\"}}"
    );
}
