//! The complete-mediation boundary.
//!
//! The assistant runs a hook before every tool call, and this module is what the
//! hook decides. The rule is one line: **a built-in tool never executes on the
//! host.** Either it has a mediated equivalent, which the denial names, or it has
//! none, and the denial says why. Anything unknown is denied.
//!
//! The decision depends on the tool's *name* alone. One that looked at the
//! arguments would be a second policy engine outside the pod. And a hook that
//! fails must not become a hook that allows: every error path ends in a denial.

use vstd::prelude::*;
use vstd::string::*;

use crate::json::{compact, fields, nested, one_line, put, reads_back, Json, JsonV};
use crate::mediation::{
    builtins, disposed, disposition, law_mediated_target_is_served, served_route, Disposition,
    DispositionV,
};
use crate::text::{begins, chars, starts_with};

verus! {

/// The name that the bridge's server is registered under. Its tools are called
/// by this name and their own.
pub const MCP_SERVER: &'static str = "nucleus";

/// What the hook was handed.
#[derive(Debug)]
pub enum Event {
    /// Nothing that could be read.
    Unreadable,
    /// Something that is not an event.
    Unparsable,
    /// A call is about to be made of a tool.
    Call {
        /// The tool's name; empty where the event has none.
        tool_name: String,
    },
}

/// The model of an event.
pub ghost enum EventV {
    /// Nothing that could be read.
    Unreadable,
    /// Something that is not an event.
    Unparsable,
    /// A call is about to be made.
    Call { tool_name: Seq<char> },
}

impl View for Event {
    type V = EventV;

    open spec fn view(&self) -> EventV {
        match self {
            Event::Unreadable => EventV::Unreadable,
            Event::Unparsable => EventV::Unparsable,
            Event::Call { tool_name } => EventV::Call { tool_name: tool_name@ },
        }
    }
}

/// What the hook decides.
#[derive(Debug)]
pub enum Decision {
    /// The call may be made: it goes to the bridge itself.
    Allow,
    /// The call may not be made, for this reason.
    Deny(String),
}

/// The model of a decision.
pub ghost enum DecisionV {
    /// The call may be made.
    Allow,
    /// The call may not be made.
    Deny(Seq<char>),
}

impl View for Decision {
    type V = DecisionV;

    open spec fn view(&self) -> DecisionV {
        match self {
            Decision::Allow => DecisionV::Allow,
            Decision::Deny(reason) => DecisionV::Deny(reason@),
        }
    }
}

/// How the names of the bridge's own tools begin.
pub open spec fn own_prefix() -> Seq<char> {
    "mcp__"@ + MCP_SERVER@ + "__"@
}

/// What the hook decides about a call of a tool.
pub open spec fn decided_call(tool_name: Seq<char>) -> DecisionV {
    if begins(tool_name, own_prefix()) {
        DecisionV::Allow
    } else {
        match disposed(tool_name) {
            DispositionV::Mediated { mcp_tool, .. } => DecisionV::Deny(
                "`"@ + tool_name + "` does not run on the host. Call `"@ + own_prefix() + mcp_tool
                    + "` instead — same arguments, executed inside the Firecracker pod under the nucleus permission lattice, and it returns a signed mediation receipt."@,
            ),
            DispositionV::Denied { reason } => DecisionV::Deny(
                "`"@ + tool_name + "` is refused by the nucleus bridge: "@ + reason + "."@,
            ),
        }
    }
}

/// What the hook decides about an event.
pub open spec fn decided(event: EventV) -> DecisionV {
    match event {
        EventV::Unreadable => DecisionV::Deny(
            "nucleus gate could not read the hook event; refusing the call"@,
        ),
        EventV::Unparsable => DecisionV::Deny(
            "nucleus gate could not parse the hook event; refusing the call"@,
        ),
        EventV::Call { tool_name } => decided_call(tool_name),
    }
}

/// How the names of the bridge's own tools begin.
fn prefix() -> (r: String)
    ensures
        r@ == own_prefix(),
{
    let mut out = "mcp__".to_owned();
    out.append(MCP_SERVER);
    out.append("__");
    out
}

/// Decides about an event.
///
/// A call of one of the bridge's own tools is allowed, because what is on the
/// other end of it enforces the policy: denying it would deadlock the path that
/// the denials recommend.
pub fn decide(event: &Event) -> (r: Decision)
    ensures
        r@ == decided(event@),
{
    match event {
        Event::Unreadable => Decision::Deny(
            "nucleus gate could not read the hook event; refusing the call".to_owned(),
        ),
        Event::Unparsable => Decision::Deny(
            "nucleus gate could not parse the hook event; refusing the call".to_owned(),
        ),
        Event::Call { tool_name } => {
            let own = prefix();
            let name = chars(tool_name.as_str());
            let start = chars(own.as_str());
            if starts_with(name.as_slice(), start.as_slice()) {
                return Decision::Allow;
            }
            let mut reason = "`".to_owned();
            reason.append(tool_name.as_str());
            match disposition(tool_name.as_str()) {
                Disposition::Mediated { mcp_tool, .. } => {
                    reason.append("` does not run on the host. Call `");
                    reason.append(own.as_str());
                    reason.append(mcp_tool);
                    reason.append(
                        "` instead — same arguments, executed inside the Firecracker pod under the nucleus permission lattice, and it returns a signed mediation receipt.",
                    );
                },
                Disposition::Denied { reason: why } => {
                    reason.append("` is refused by the nucleus bridge: ");
                    reason.append(why);
                    reason.append(".");
                },
            }
            Decision::Deny(reason)
        },
    }
}

/// The hook's output for a decision.
pub open spec fn output(d: DecisionV) -> JsonV {
    let (word, reason) = match d {
        DecisionV::Allow => ("allow"@, "mediated by nucleus inside the pod"@),
        DecisionV::Deny(reason) => ("deny"@, reason),
    };
    JsonV::Object(
        Map::empty().insert(
            "hookSpecificOutput"@,
            JsonV::Object(
                Map::empty().insert("hookEventName"@, JsonV::Str("PreToolUse"@)).insert(
                    "permissionDecision"@,
                    JsonV::Str(word),
                ).insert("permissionDecisionReason"@, JsonV::Str(reason)),
            ),
        ),
    )
}

/// The hook's output with this word and this reason.
fn emit(word: &str, reason: &str) -> (r: Json)
    ensures
        r@ == JsonV::Object(
            Map::empty().insert(
                "hookSpecificOutput"@,
                JsonV::Object(
                    Map::empty().insert("hookEventName"@, JsonV::Str("PreToolUse"@)).insert(
                        "permissionDecision"@,
                        JsonV::Str(word@),
                    ).insert("permissionDecisionReason"@, JsonV::Str(reason@)),
                ),
            ),
        ),
{
    let mut inner: Vec<(String, Json)> = Vec::new();
    assert(fields(inner@) =~= Map::empty());
    put(&mut inner, "hookEventName", Json::text("PreToolUse"));
    put(&mut inner, "permissionDecision", Json::text(word));
    put(&mut inner, "permissionDecisionReason", Json::text(reason));
    let mut outer: Vec<(String, Json)> = Vec::new();
    assert(fields(outer@) =~= Map::empty());
    put(&mut outer, "hookSpecificOutput", Json::Object(inner));
    Json::Object(outer)
}

/// The hook's output for an allowance. It is reached for the bridge's own tools
/// alone.
pub fn emit_allow() -> (r: Json)
    ensures
        r@ == output(DecisionV::Allow),
{
    emit("allow", "mediated by nucleus inside the pod")
}

/// The hook's output for a denial. The output carries the decision; failing the
/// process would read as a malfunction.
pub fn emit_deny(reason: &str) -> (r: Json)
    ensures
        r@ == output(DecisionV::Deny(reason@)),
{
    emit("deny", reason)
}

/// The line that the hook prints about an event.
pub fn answer(event: &Event) -> (r: String)
    ensures
        r@ == compact(output(decided(event@))),
        one_line(r@),
        reads_back(r@, output(decided(event@))),
{
    let out = match decide(event) {
        Decision::Allow => emit_allow(),
        Decision::Deny(reason) => emit_deny(reason.as_str()),
    };
    proof {
        lemma_output_nested(decided(event@));
    }
    out.to_text()
}

/// The hook's output is an object of an object of strings.
proof fn lemma_output_nested(d: DecisionV)
    ensures
        nested(output(d), 127),
{
    let outer = output(d)->Object_0;
    let inner = outer["hookSpecificOutput"@]->Object_0;
    assert forall|k: Seq<char>| inner.contains_key(k) implies nested(#[trigger] inner[k], 125) by {}
    assert forall|k: Seq<char>| outer.contains_key(k) implies nested(#[trigger] outer[k], 126) by {}
}

/// Nothing is allowed but a call of one of the bridge's own tools. What cannot be
/// read or parsed is denied.
pub proof fn law_only_own_tools_are_allowed(event: EventV)
    ensures
        decided(event) is Allow <==> (event matches EventV::Call { tool_name } && begins(
            tool_name,
            own_prefix(),
        )),
{
}

/// No built-in tool executes on the host.
pub proof fn law_builtins_are_denied(name: Seq<char>)
    requires
        builtins().contains(name),
    ensures
        decided(EventV::Call { tool_name: name }) is Deny,
{
    reveal_strlit("mcp__");
    reveal_strlit("Bash");
    reveal_strlit("Read");
    reveal_strlit("Write");
    reveal_strlit("Edit");
    reveal_strlit("Glob");
    reveal_strlit("Grep");
    reveal_strlit("WebFetch");
    reveal_strlit("WebSearch");
    reveal_strlit("NotebookEdit");
    reveal_strlit("Agent");
    reveal_strlit("Task");
    reveal_strlit("TodoWrite");
    reveal_strlit("BashOutput");
    reveal_strlit("KillShell");
    let p = own_prefix();
    assert(p[0] == 'm');
    if begins(name, p) {
        assert(name[0] == name.take(p.len() as int)[0]);
        assert(name[0] == 'm');
    }
}

/// A name that the map does not know is denied, unless it is one of the bridge's
/// own.
pub proof fn law_unknown_names_are_denied(name: Seq<char>)
    requires
        !builtins().contains(name),
        !begins(name, own_prefix()),
    ensures
        decided(EventV::Call { tool_name: name }) is Deny,
{
}

/// A denial that redirects names a tool that the hook allows and the bridge
/// serves: following it does not run into another denial.
pub proof fn law_redirect_is_allowed_and_served(name: Seq<char>)
    ensures
        disposed(name) matches DispositionV::Mediated { mcp_tool, .. } ==> {
            &&& decided(EventV::Call { tool_name: own_prefix() + mcp_tool }) is Allow
            &&& served_route(mcp_tool) is Some
        },
{
    if let DispositionV::Mediated { mcp_tool, .. } = disposed(name) {
        let t = own_prefix() + mcp_tool;
        assert(t.take(own_prefix().len() as int) =~= own_prefix());
        law_mediated_target_is_served(name);
    }
}

} // verus!
