//! What becomes of each tool.

use vstd::prelude::*;

use crate::mediation::{
    builtins, disposed, lemma_builtins, reveal_names, DispositionV, BACKGROUND_REASON,
    SCRATCHPAD_REASON, SUBAGENT_REASON, UNKNOWN_REASON,
};

verus! {

/// Whether a tool is mediated to another, at a route.
pub open spec fn goes_to(name: Seq<char>, tool: Seq<char>, route: Seq<char>) -> bool {
    disposed(name) == (DispositionV::Mediated { mcp_tool: tool, route })
}

/// Whether a tool is denied, for a reason.
pub open spec fn denied_for(name: Seq<char>, reason: Seq<char>) -> bool {
    disposed(name) == (DispositionV::Denied { reason })
}

/// Every built-in tool goes to the tool in the pod that does the same, or is denied
/// with its own reason; every other name is denied as unknown.
pub proof fn law_dispositions(name: Seq<char>)
    ensures
        goes_to("Bash"@, "run"@, "/v1/run"@),
        goes_to("Read"@, "read"@, "/v1/read"@),
        goes_to("Write"@, "write"@, "/v1/write"@),
        goes_to("Edit"@, "write"@, "/v1/write"@),
        goes_to("NotebookEdit"@, "write"@, "/v1/write"@),
        goes_to("Glob"@, "glob"@, "/v1/glob"@),
        goes_to("Grep"@, "grep"@, "/v1/grep"@),
        goes_to("WebFetch"@, "web_fetch"@, "/v1/web_fetch"@),
        goes_to("WebSearch"@, "web_search"@, "/v1/web_search"@),
        denied_for("Agent"@, SUBAGENT_REASON@),
        denied_for("Task"@, SUBAGENT_REASON@),
        denied_for("TodoWrite"@, SCRATCHPAD_REASON@),
        denied_for("BashOutput"@, BACKGROUND_REASON@),
        denied_for("KillShell"@, BACKGROUND_REASON@),
        !seq![
            "Bash"@,
            "Read"@,
            "Write"@,
            "Edit"@,
            "Glob"@,
            "Grep"@,
            "WebFetch"@,
            "WebSearch"@,
            "NotebookEdit"@,
            "Agent"@,
            "Task"@,
            "TodoWrite"@,
            "BashOutput"@,
            "KillShell"@,
        ].contains(name) ==> denied_for(name, UNKNOWN_REASON@),
{
    reveal_names();
    assert("Bash"@.len() == 4 && "Read"@.len() == 4 && "Edit"@.len() == 4 && "Glob"@.len() == 4
        && "Grep"@.len() == 4 && "Task"@.len() == 4);
    assert("Bash"@[0] == 'B' && "Read"@[0] == 'R' && "Edit"@[0] == 'E' && "Glob"@[0] == 'G'
        && "Grep"@[0] == 'G' && "Task"@[0] == 'T');
    assert("Glob"@[1] == 'l' && "Grep"@[1] == 'r');
    assert("Write"@.len() == 5 && "Agent"@.len() == 5);
    assert("Write"@[0] == 'W' && "Agent"@[0] == 'A');
    assert("WebFetch"@.len() == 8 && "NotebookEdit"@.len() == 12 && "BashOutput"@.len() == 10);
    assert("WebSearch"@.len() == 9 && "TodoWrite"@.len() == 9 && "KillShell"@.len() == 9);
    assert("WebSearch"@[0] == 'W' && "TodoWrite"@[0] == 'T' && "KillShell"@[0] == 'K');
    let l = seq![
        "Bash"@,
        "Read"@,
        "Write"@,
        "Edit"@,
        "Glob"@,
        "Grep"@,
        "WebFetch"@,
        "WebSearch"@,
        "NotebookEdit"@,
        "Agent"@,
        "Task"@,
        "TodoWrite"@,
        "BashOutput"@,
        "KillShell"@,
    ];
    assert(l[0] == "Bash"@ && l[1] == "Read"@ && l[2] == "Write"@ && l[3] == "Edit"@ && l[4]
        == "Glob"@ && l[5] == "Grep"@ && l[6] == "WebFetch"@ && l[7] == "WebSearch"@ && l[8]
        == "NotebookEdit"@ && l[9] == "Agent"@ && l[10] == "Task"@ && l[11] == "TodoWrite"@ && l[12]
        == "BashOutput"@ && l[13] == "KillShell"@);
}

/// The built-in tools, in order. These are the ones that the assistant is told it
/// may not use.
pub proof fn law_builtin_tools()
    ensures
        builtins() == seq![
            "Bash"@,
            "Read"@,
            "Write"@,
            "Edit"@,
            "Glob"@,
            "Grep"@,
            "WebFetch"@,
            "WebSearch"@,
            "NotebookEdit"@,
            "Agent"@,
            "Task"@,
            "TodoWrite"@,
            "BashOutput"@,
            "KillShell"@,
        ],
{
    lemma_builtins();
}

/// The reasons for denials.
pub proof fn law_reasons()
    ensures
        SUBAGENT_REASON@
            == "subagents are not mediated: spawning a child pod needs an orchestrator pod (a spec labelled `enable_pod_mgmt`) with `manage_pods` above `never`, and a PodSpec rather than a prompt. Do the work in this session instead"@,
        SCRATCHPAD_REASON@ == "TodoWrite has no effect outside the transcript and is not mediated"@,
        BACKGROUND_REASON@
            == "background shells are not mediated: their output cannot be bound to one receipt"@,
        UNKNOWN_REASON@
            == "unknown tool: this bridge mediates a closed set and refuses anything outside it"@,
{
}

} // verus!
