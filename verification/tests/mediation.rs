use ccn::mediation::{
    disallowed_tools_arg, disposition, mediated_tools, route_of, unknown_tool_disposition,
    Disposition, Route, BUILTIN_TOOLS,
};

/// The law. Not "most tools are handled": every one, with no default-allow.
#[test]
fn every_builtin_has_a_disposition_and_none_is_an_allow() {
    for name in BUILTIN_TOOLS {
        match disposition(name) {
            Disposition::Mediated { mcp_tool, route } => {
                assert!(!mcp_tool.is_empty(), "{name} mediated to an empty tool");
                assert!(
                    route.0.starts_with("/v1/"),
                    "{name} routes off-surface: {}",
                    route.0
                );
            }
            Disposition::Denied { reason } => {
                assert!(!reason.is_empty(), "{name} denied without a reason");
            }
        }
    }
}

#[test]
fn an_unknown_tool_is_denied_not_allowed() {
    let d = disposition("SomeToolShippedNextTuesday");
    assert!(
        matches!(d, Disposition::Denied { .. }),
        "unknown tool must be denied, got {d:?}"
    );
}

#[test]
fn nothing_is_mediated_to_a_route_only_some_pods_mount() {
    for name in BUILTIN_TOOLS {
        if let Disposition::Mediated { route, .. } = disposition(name) {
            assert!(
                !route.0.starts_with("/v1/pod/"),
                "{name} is mediated to {}, which a standard pod does not serve",
                route.0
            );
        }
    }
}

#[test]
fn every_mediated_target_is_actually_served() {
    let served = mediated_tools();
    for name in BUILTIN_TOOLS {
        if let Disposition::Mediated { mcp_tool, .. } = disposition(name) {
            assert!(
                served.iter().any(|(t, _)| *t == mcp_tool),
                "{name} is mediated to `{mcp_tool}`, which the server does not serve"
            );
        }
    }
}

#[test]
fn every_denial_says_what_to_do_instead_or_what_would_enable_it() {
    for name in BUILTIN_TOOLS {
        if let Disposition::Denied { reason } = disposition(name) {
            assert!(
                reason.len() > 30,
                "{name} is denied with a reason too terse to act on: {reason}"
            );
        }
    }
    let Disposition::Denied { reason } = disposition("Task") else {
        panic!("Task must be denied while /v1/pod/create is conditional")
    };
    assert!(
        reason.contains("enable_pod_mgmt") && reason.contains("manage_pods"),
        "the subagent denial must name both conditions: {reason}"
    );
}

#[test]
fn the_consequential_effects_are_mediated_rather_than_refused() {
    for name in ["Bash", "Read", "Write", "Edit", "WebFetch", "WebSearch"] {
        assert!(
            matches!(disposition(name), Disposition::Mediated { .. }),
            "{name} must be mediated, not denied"
        );
    }
}

#[test]
fn each_builtin_goes_to_its_tool_and_route() {
    let expected = [
        ("Bash", "run", "/v1/run"),
        ("Read", "read", "/v1/read"),
        ("Write", "write", "/v1/write"),
        ("Edit", "write", "/v1/write"),
        ("NotebookEdit", "write", "/v1/write"),
        ("Glob", "glob", "/v1/glob"),
        ("Grep", "grep", "/v1/grep"),
        ("WebFetch", "web_fetch", "/v1/web_fetch"),
        ("WebSearch", "web_search", "/v1/web_search"),
    ];
    for (name, tool, path) in expected {
        assert_eq!(
            disposition(name),
            Disposition::Mediated {
                mcp_tool: tool,
                route: Route(path)
            }
        );
        assert_eq!(route_of(tool), Some(Route(path)));
    }
}

#[test]
fn an_unknown_tool_is_denied_whatever_its_name() {
    assert_eq!(unknown_tool_disposition("a"), unknown_tool_disposition("b"));
    assert_eq!(disposition("bash"), unknown_tool_disposition("bash"));
    assert_eq!(disposition(""), unknown_tool_disposition(""));
}

#[test]
fn the_served_tools_come_once_each_in_the_order_of_the_builtins() {
    let names: Vec<&str> = mediated_tools().into_iter().map(|(t, _)| t).collect();
    assert_eq!(
        names,
        [
            "run",
            "read",
            "write",
            "glob",
            "grep",
            "web_fetch",
            "web_search"
        ]
    );
}

#[test]
fn a_tool_that_is_not_served_has_no_route() {
    assert_eq!(route_of("subagent"), None);
    assert_eq!(route_of("Bash"), None);
}

#[test]
fn the_list_for_the_command_line_names_every_builtin() {
    assert_eq!(
        disallowed_tools_arg(),
        "Bash,Read,Write,Edit,Glob,Grep,WebFetch,WebSearch,NotebookEdit,Agent,Task,TodoWrite,BashOutput,KillShell"
    );
}
