//! What is said to the assistant: the answers of the server and of the hook.

use vstd::prelude::*;
use vstd::string::*;

use crate::check::{blamed, CallErrorV};
use crate::hook::{decided, output, own_prefix, DecisionV, EventV};
use crate::journal::{subject, OutcomeV};
use crate::json::{number_model, parsed, pretty, signed, JsonV};
use crate::laws::texts::{blank, law_beginning, law_trimming};
use crate::mediation::{disposed, served, served_route, DispositionV};
use crate::server::{
    advertised, advertisements, answered, called, content, described, dispatched, effect,
    error_reply, failure, initialized, mandatory, observed, properties, received, result_reply,
    schema, tool_list, CallV, StepV, METHOD_NOT_FOUND, PROTOCOL_VERSION,
};
use crate::text::is_space;
use crate::translate::proxy_body;
use crate::transport::TransportErrorV;

verus! {

/// Whether a value is an object with just these keys.
pub open spec fn has_just(v: JsonV, keys: Set<Seq<char>>) -> bool {
    v matches JsonV::Object(m) && m.dom() =~= keys
}

/// Whether a tool result has one part, a text, and says whether the call failed.
pub open spec fn one_text(result: JsonV, said: Seq<char>, failed: bool) -> bool {
    &&& has_just(result, set!["content"@, "isError"@])
    &&& result.get("isError"@) == Some(JsonV::Bool(failed))
    &&& result.get("content"@) matches Some(JsonV::Array(parts)) && {
        &&& parts.len() == 1
        &&& has_just(parts[0], set!["type"@, "text"@])
        &&& parts[0].get("type"@) == Some(JsonV::Str("text"@))
        &&& parts[0].get("text"@) == Some(JsonV::Str(said))
    }
}

/// The answer to a successful call is one text, and that is the whole reply of the
/// pod, whatever its fields. The answer to a failed one is the error, marked so.
pub proof fn law_whole_reply_is_answered(reply: JsonV, e: TransportErrorV, why: Seq<char>)
    ensures
        one_text(answered(Ok(reply)), pretty(reply), false),
        one_text(
            answered(Err(e)),
            "nucleus refused or could not complete this call: "@ + e.said(),
            true,
        ),
        one_text(failure(why), "nucleus refused or could not complete this call: "@ + why, true),
        forall|said: Seq<char>, failed: bool|
            one_text(#[trigger] content(said, failed), said, failed),
{
    lemma_result_keys();
}

/// The keys of a tool result differ.
proof fn lemma_result_keys()
    ensures
        "content"@ != "isError"@,
        "text"@ != "type"@,
{
    reveal_strlit("content");
    reveal_strlit("isError");
    reveal_strlit("text");
    reveal_strlit("type");
    assert("content"@[0] == 'c' && "isError"@[0] == 'i');
    assert("text"@[1] == 'e' && "type"@[1] == 'y');
}

/// A reply carries the version of the protocol, the id and the result, or the error
/// with its code and message, and nothing else.
pub proof fn law_replies(id: JsonV, result: JsonV, code: i64, message: Seq<char>)
    ensures
        has_just(result_reply(id, result), set!["jsonrpc"@, "id"@, "result"@]),
        result_reply(id, result).get("jsonrpc"@) == Some(JsonV::Str("2.0"@)),
        result_reply(id, result).get("id"@) == Some(id),
        result_reply(id, result).get("result"@) == Some(result),
        has_just(error_reply(id, code, message), set!["jsonrpc"@, "id"@, "error"@]),
        error_reply(id, code, message).get("jsonrpc"@) == Some(JsonV::Str("2.0"@)),
        error_reply(id, code, message).get("id"@) == Some(id),
        error_reply(id, code, message).get("error"@) matches Some(e) && {
            &&& has_just(e, set!["code"@, "message"@])
            &&& e.get("code"@) == Some(number_model(signed(code)))
            &&& e.get("message"@) == Some(JsonV::Str(message))
        },
{
    reveal_strlit("jsonrpc");
    reveal_strlit("id");
    reveal_strlit("result");
    reveal_strlit("error");
    reveal_strlit("code");
    reveal_strlit("message");
    assert("jsonrpc"@.len() == 7 && "id"@.len() == 2 && "result"@.len() == 6 && "error"@.len()
        == 5);
    assert("code"@.len() == 4 && "message"@.len() == 7);
}

/// A request without an id gets no answer. Every other one is answered by what its
/// method asks for, under its id; an unknown method is an error that names it.
pub proof fn law_requests_are_answered(req: JsonV, version: Seq<char>)
    ensures
        req.get("id"@) is None ==> dispatched(req, version) is Skip,
        req.get("id"@) matches Some(id) ==> match req.get("method"@) {
            Some(JsonV::Str(m)) => if m == "initialize"@ {
                dispatched(req, version) == StepV::Reply(result_reply(id, initialized(version)))
            } else if m == "tools/list"@ {
                dispatched(req, version) == StepV::Reply(result_reply(id, tool_list()))
            } else if m == "ping"@ {
                dispatched(req, version) == StepV::Reply(
                    result_reply(id, JsonV::Object(Map::empty())),
                )
            } else if m == "tools/call"@ {
                dispatched(req, version) == (StepV::Call {
                    id,
                    params: match req.get("params"@) {
                        Some(p) => p,
                        None => JsonV::Null,
                    },
                })
            } else {
                dispatched(req, version) == StepV::Reply(
                    error_reply(id, METHOD_NOT_FOUND, "method not found: "@ + m),
                )
            },
            _ => dispatched(req, version) == StepV::Reply(
                error_reply(id, METHOD_NOT_FOUND, "method not found: "@),
            ),
        },
{
    reveal_strlit("initialize");
    reveal_strlit("tools/list");
    reveal_strlit("tools/call");
    reveal_strlit("ping");
    assert("tools/list"@[6] == 'l' && "tools/call"@[6] == 'c' && "initialize"@[0] == 'i');
    assert("method not found: "@ + Seq::<char>::empty() =~= "method not found: "@);
}

/// A line is read without the white space around it; one that is blank or cannot
/// be read is passed over.
pub proof fn law_lines_are_read(a: Seq<char>, x: Seq<char>, b: Seq<char>, version: Seq<char>)
    requires
        blank(a),
        blank(b),
        x.len() > 0 ==> !is_space(x[0]) && !is_space(x.last()),
    ensures
        received(a + x + b, version) == if x.len() == 0 {
            StepV::Skip
        } else {
            match parsed(x) {
                Ok(req) => dispatched(req, version),
                Err(_) => StepV::Skip,
            }
        },
{
    law_trimming(a, x, b);
}

/// What the server says of itself.
pub proof fn law_introduction(version: Seq<char>)
    ensures
        PROTOCOL_VERSION@ == "2025-06-18"@,
        METHOD_NOT_FOUND == -32601,
        has_just(
            initialized(version),
            set!["protocolVersion"@, "capabilities"@, "serverInfo"@, "instructions"@],
        ),
        initialized(version).get("protocolVersion"@) == Some(JsonV::Str("2025-06-18"@)),
        initialized(version).get("instructions"@) == Some(
            JsonV::Str(
                "Every tool here executes inside a Firecracker microVM under the nucleus permission lattice. Host built-ins are denied by the PreToolUse gate; use these instead. A refusal from one of these tools is a policy verdict, not a bug — do not attempt to work around it."@,
            ),
        ),
        initialized(version).get("capabilities"@) matches Some(c) && {
            &&& has_just(c, set!["tools"@])
            &&& c.get("tools"@) matches Some(t) && has_just(t, set![])
        },
        initialized(version).get("serverInfo"@) matches Some(i) && {
            &&& has_just(i, set!["name"@, "version"@])
            &&& i.get("name"@) == Some(JsonV::Str("nucleus"@))
            &&& i.get("version"@) == Some(JsonV::Str(version))
        },
{
    reveal_strlit("protocolVersion");
    reveal_strlit("capabilities");
    reveal_strlit("serverInfo");
    reveal_strlit("instructions");
    reveal_strlit("name");
    reveal_strlit("version");
    assert("protocolVersion"@.len() == 15 && "capabilities"@.len() == 12 && "serverInfo"@.len()
        == 10 && "instructions"@.len() == 12);
    assert("capabilities"@[0] == 'c' && "instructions"@[0] == 'i');
    assert("name"@.len() == 4 && "version"@.len() == 7);
}

/// Every tool that is served is listed once, in order, under its name, with what it
/// does, where it is enforced and what it takes.
pub proof fn law_listing(i: int)
    requires
        0 <= i < served().len(),
    ensures
        has_just(tool_list(), set!["tools"@]),
        tool_list().get("tools"@) matches Some(JsonV::Array(list)) && {
            &&& list.len() == served().len()
            &&& has_just(list[i], set!["name"@, "description"@, "inputSchema"@])
            &&& list[i].get("name"@) == Some(JsonV::Str(served()[i].0))
            &&& list[i].get("description"@) == Some(
                JsonV::Str(
                    effect(served()[i].0) + ". Enforced by nucleus at "@ + served()[i].1
                        + "; returns a signed mediation receipt."@,
                ),
            )
            &&& list[i].get("inputSchema"@) == Some(schema(served()[i].0))
        },
{
    reveal_strlit("name");
    reveal_strlit("description");
    reveal_strlit("inputSchema");
    assert("name"@.len() == 4 && "description"@.len() == 11 && "inputSchema"@.len() == 11);
    assert("description"@[0] == 'd' && "inputSchema"@[0] == 'i');
    assert(advertisements(served())[i] == advertised(served()[i]));
}

/// The names of the tools differ.
pub proof fn lemma_tool_names()
    ensures
        "run"@.len() == 3,
        "read"@.len() == 4,
        "write"@.len() == 5,
        "glob"@.len() == 4,
        "grep"@.len() == 4,
        "web_fetch"@.len() == 9,
        "web_search"@.len() == 10,
        "subagent"@.len() == 8,
        "read"@ != "glob"@,
        "read"@ != "grep"@,
        "glob"@ != "grep"@,
{
    reveal_strlit("run");
    reveal_strlit("read");
    reveal_strlit("write");
    reveal_strlit("glob");
    reveal_strlit("grep");
    reveal_strlit("web_fetch");
    reveal_strlit("web_search");
    reveal_strlit("subagent");
    assert("read"@[0] == 'r' && "glob"@[0] == 'g' && "grep"@[0] == 'g');
    assert("glob"@[1] == 'l' && "grep"@[1] == 'r');
}

/// What each tool is said to do, and how it is described.
pub proof fn law_effects(name: Seq<char>, route: Seq<char>)
    ensures
        described(name, route) == effect(name) + ". Enforced by nucleus at "@ + route
            + "; returns a signed mediation receipt."@,
        effect("run"@)
            == "Run one program with arguments inside the pod. There is no shell: quoting works, and pipes, redirection, expansion and globs are refused"@,
        effect("read"@) == "Read a file inside the pod"@,
        effect("write"@) == "Write a file inside the pod"@,
        effect("glob"@) == "Match files by glob inside the pod"@,
        effect("grep"@) == "Search file contents inside the pod"@,
        effect("web_fetch"@)
            == "Fetch a URL through the pod's mediated egress (taints the session)"@,
        effect("web_search"@)
            == "Search the web through the pod's mediated egress (taints the session)"@,
        effect("subagent"@) == "Start a child pod for a delegated task, with its own flow state"@,
        !(set![
            "run"@,
            "read"@,
            "write"@,
            "glob"@,
            "grep"@,
            "web_fetch"@,
            "web_search"@,
            "subagent"@,
        ]).contains(name) ==> effect(name) == "Mediated effect"@,
{
    lemma_tool_names();
}

/// A property that a schema describes, with an explanation or without one.
pub open spec fn property(
    props: Map<Seq<char>, JsonV>,
    key: Seq<char>,
    kind: Seq<char>,
    what: Option<Seq<char>>,
) -> bool {
    &&& props.contains_key(key)
    &&& props[key].get("type"@) == Some(JsonV::Str(kind))
    &&& match what {
        Some(w) => has_just(props[key], set!["type"@, "description"@])
            && props[key].get("description"@) == Some(JsonV::Str(w)),
        None => has_just(props[key], set!["type"@]),
    }
}

/// A schema describes an object with the properties of the tool, and says which of
/// them a call must have.
pub proof fn law_schemas(name: Seq<char>)
    ensures
        has_just(schema(name), set!["type"@, "properties"@, "required"@]),
        schema(name).get("type"@) == Some(JsonV::Str("object"@)),
        schema(name).get("properties"@) == Some(JsonV::Object(properties(name))),
        schema(name).get("required"@) matches Some(JsonV::Array(r)) && {
            &&& r.len() == mandatory(name).len()
            &&& forall|i: int|
                0 <= i < r.len() ==> #[trigger] r[i] == JsonV::Str(mandatory(name)[i])
        },
{
    reveal_strlit("type");
    reveal_strlit("properties");
    reveal_strlit("required");
    assert("type"@.len() == 4 && "properties"@.len() == 10 && "required"@.len() == 8);
}

/// What each tool takes.
pub proof fn law_properties()
    ensures
        ({
            let p = properties("run"@);
            &&& p.dom() =~= set!["command"@, "directory"@, "stdin"@, "timeout_ms"@]
            &&& property(p, "command"@, "string"@, Some("Program and arguments to run; no shell reads them"@))
            &&& property(p, "directory"@, "string"@, Some("Directory to run it in"@))
            &&& property(p, "stdin"@, "string"@, Some("Text to hand to the program"@))
            &&& property(p, "timeout_ms"@, "integer"@, Some("Optional timeout in milliseconds"@))
        }),
        ({
            let p = properties("read"@);
            &&& p.dom() =~= set!["file_path"@]
            &&& property(p, "file_path"@, "string"@, Some("Absolute path inside the pod"@))
        }),
        ({
            let p = properties("write"@);
            &&& p.dom() =~= set!["file_path"@, "content"@]
            &&& property(p, "file_path"@, "string"@, Some("Absolute path inside the pod"@))
            &&& property(p, "content"@, "string"@, Some("Full file contents"@))
        }),
        ({
            let p = properties("glob"@);
            &&& p.dom() =~= set!["pattern"@, "path"@, "max_results"@]
            &&& property(p, "pattern"@, "string"@, None)
            &&& property(p, "path"@, "string"@, Some("Directory to search from"@))
            &&& property(p, "max_results"@, "integer"@, None)
        }),
        ({
            let p = properties("grep"@);
            &&& p.dom() =~= set!["pattern"@, "path"@, "glob"@]
            &&& property(p, "pattern"@, "string"@, None)
            &&& property(p, "path"@, "string"@, None)
            &&& property(p, "glob"@, "string"@, None)
        }),
        ({
            let p = properties("web_fetch"@);
            &&& p.dom() =~= set!["url"@, "prompt"@]
            &&& property(p, "url"@, "string"@, None)
            &&& property(p, "prompt"@, "string"@, None)
        }),
        ({
            let p = properties("web_search"@);
            &&& p.dom() =~= set!["query"@, "max_results"@]
            &&& property(p, "query"@, "string"@, None)
            &&& property(p, "max_results"@, "integer"@, None)
        }),
        ({
            let p = properties("subagent"@);
            &&& p.dom() =~= set!["prompt"@, "description"@]
            &&& property(p, "prompt"@, "string"@, Some("Task for the child pod"@))
            &&& property(p, "description"@, "string"@, None)
        }),
        mandatory("run"@) == seq!["command"@],
        mandatory("read"@) == seq!["file_path"@],
        mandatory("write"@) == seq!["file_path"@, "content"@],
        mandatory("glob"@) == seq!["pattern"@],
        mandatory("grep"@) == seq!["pattern"@],
        mandatory("web_fetch"@) == seq!["url"@],
        mandatory("web_search"@) == seq!["query"@],
        mandatory("subagent"@) == seq!["prompt"@],
{
    lemma_tool_names();
    reveal_strlit("type");
    reveal_strlit("description");
    reveal_strlit("command");
    reveal_strlit("directory");
    reveal_strlit("stdin");
    reveal_strlit("timeout_ms");
    reveal_strlit("file_path");
    reveal_strlit("content");
    reveal_strlit("pattern");
    reveal_strlit("path");
    reveal_strlit("max_results");
    reveal_strlit("url");
    reveal_strlit("prompt");
    reveal_strlit("query");
    assert("type"@.len() == 4 && "description"@.len() == 11 && "command"@.len() == 7
        && "directory"@.len() == 9 && "stdin"@.len() == 5 && "timeout_ms"@.len() == 10
        && "file_path"@.len() == 9 && "content"@.len() == 7 && "pattern"@.len() == 7
        && "path"@.len() == 4 && "max_results"@.len() == 11 && "url"@.len() == 3
        && "prompt"@.len() == 6 && "query"@.len() == 5);
    assert("path"@[0] == 'p' && "glob"@ != "path"@) by {
        reveal_strlit("glob");
        assert("glob"@[0] == 'g');
    }
}

/// A call of a tool that is served sends the body that its arguments make, to the
/// route of the tool; a call without a name, of any other tool, or with arguments
/// that make no body sends nothing, and says why.
pub proof fn law_calls(params: JsonV)
    ensures
        match params.get("name"@) {
            Some(JsonV::Str(name)) => {
                let args = match params.get("arguments"@) {
                    Some(a) => a,
                    None => JsonV::Object(Map::empty()),
                };
                match served_route(name) {
                    None => called(params) == Err::<CallV, Seq<char>>(
                        "`"@ + name + "` is not a tool this bridge serves"@,
                    ),
                    Some(route) => match proxy_body(name, args) {
                        Err(e) => called(params) == Err::<CallV, Seq<char>>(e),
                        Ok(body) => called(params) matches Ok(call) && {
                            &&& call.tool == name
                            &&& call.route == route
                            &&& call.body == body
                            &&& call.subject == subject(name, args)
                        },
                    },
                }
            },
            _ => called(params) == Err::<CallV, Seq<char>>("tools/call with no tool name"@),
        },
{
}

/// What is recorded of a call names its tool, its subject and the pod, and says
/// what came of it.
pub proof fn law_observations(
    call: CallV,
    pod: Seq<char>,
    reply: JsonV,
    e: TransportErrorV,
)
    ensures
        forall|outcome: Result<JsonV, TransportErrorV>|
            {
                let seen = #[trigger] observed(call, pod, outcome);
                seen.tool == call.tool && seen.subject == call.subject && seen.pod == pod
            },
        observed(call, pod, Ok(reply)).outcome == OutcomeV::Allowed,
        match blamed(call.route, e) {
            CallErrorV::Refused(why) => observed(call, pod, Err(e)).outcome == OutcomeV::Refused(
                why,
            ),
            CallErrorV::Broken(why) => observed(call, pod, Err(e)).outcome == OutcomeV::Failed(why),
        },
{
}

/// The hook allows a call exactly if the name of its tool begins as those of the
/// bridge do. A built-in tool with an equivalent is denied with the name of that,
/// any other tool with the reason; what is no call is denied too.
pub proof fn law_hook(name: Seq<char>, tool: Seq<char>)
    ensures
        own_prefix() == "mcp__nucleus__"@,
        decided(EventV::Call { tool_name: "mcp__nucleus__"@ + tool }) is Allow,
        !"mcp__nucleus__"@.is_prefix_of(name) ==> decided(EventV::Call { tool_name: name })
            == DecisionV::Deny(
            match disposed(name) {
                DispositionV::Mediated { mcp_tool, .. } => "`"@ + name
                    + "` does not run on the host. Call `"@ + "mcp__nucleus__"@ + mcp_tool
                    + "` instead — same arguments, executed inside the Firecracker pod under the nucleus permission lattice, and it returns a signed mediation receipt."@,
                DispositionV::Denied { reason } => "`"@ + name
                    + "` is refused by the nucleus bridge: "@ + reason + "."@,
            },
        ),
        decided(EventV::Unreadable) == DecisionV::Deny(
            "nucleus gate could not read the hook event; refusing the call"@,
        ),
        decided(EventV::Unparsable) == DecisionV::Deny(
            "nucleus gate could not parse the hook event; refusing the call"@,
        ),
{
    reveal_strlit("mcp__nucleus__");
    reveal_strlit("mcp__");
    reveal_strlit("nucleus");
    reveal_strlit("__");
    let p = "mcp__nucleus__"@;
    assert(own_prefix() =~= p);
    law_beginning(name, p, tool);
}

/// The hook prints one object in one object: which event it is for, the decision and
/// its reason.
pub proof fn law_hook_output()
    ensures
        forall|d: DecisionV|
            {
                let out = #[trigger] output(d);
                &&& has_just(out, set!["hookSpecificOutput"@])
                &&& out.get("hookSpecificOutput"@) matches Some(inner) && {
                    &&& has_just(
                        inner,
                        set!["hookEventName"@, "permissionDecision"@, "permissionDecisionReason"@],
                    )
                    &&& inner.get("hookEventName"@) == Some(JsonV::Str("PreToolUse"@))
                    &&& inner.get("permissionDecision"@) == Some(
                        JsonV::Str(
                            if d is Allow {
                                "allow"@
                            } else {
                                "deny"@
                            },
                        ),
                    )
                    &&& inner.get("permissionDecisionReason"@) == Some(
                        JsonV::Str(
                            match d {
                                DecisionV::Allow => "mediated by nucleus inside the pod"@,
                                DecisionV::Deny(why) => why,
                            },
                        ),
                    )
                }
            },
{
    reveal_strlit("hookEventName");
    reveal_strlit("permissionDecision");
    reveal_strlit("permissionDecisionReason");
    assert("hookEventName"@.len() == 13 && "permissionDecision"@.len() == 18
        && "permissionDecisionReason"@.len() == 24);
}

} // verus!
