//! The mediated tool surface.
//!
//! The assistant talks to the bridge in JSON-RPC, one message to a line. It sees
//! one tool for each mediated effect, and every call it makes is forwarded into
//! the pod. Nothing here performs an effect, decides a policy, caches or retries:
//! this is a translator between two wire formats. The one judgement it makes is
//! fail-closed: a failure becomes a tool error that the model can see, and never
//! a success.
//!
//! Reading lines, sending and writing are the caller's. [`receive`] says what to
//! do about a line; [`call_tool`] says what a call sends, and [`Call::answer`] and
//! [`Call::observe`] say what is made of what came back.

use vstd::prelude::*;
use vstd::string::*;

use crate::check::{blame, blamed, CallError, CallErrorV};
use crate::journal::{subject, subject_of, Entry, EntryV, Outcome, OutcomeV};
use crate::json::{append, fields, items, number_model, parsed, pretty, put, signed, Json, JsonV};
use crate::mediation::{
    builtins, disposed, law_mediated_target_is_served, law_served_tool_is_a_target,
    law_served_tools, listing, mediated_tools, route_of, served, served_route, DispositionV,
    Route,
};
use crate::text::{chars, same, text, trim, trimmed};
use crate::translate::{
    fits, holds_texts, law_body_fits_its_route, law_translated_iff_complete, lemma_served_route,
    proxy_body, strings, to_proxy_body, tokens, tool_requires,
};
use crate::transport::{TransportError, TransportErrorV};

verus! {

/// The revision of the protocol that this server implements.
pub const PROTOCOL_VERSION: &'static str = "2025-06-18";

/// The code of the error that a method is not known.
pub const METHOD_NOT_FOUND: i64 = -32601;

/// What the server tells the model about itself.
pub const INSTRUCTIONS: &'static str =
    "Every tool here executes inside a Firecracker microVM under the nucleus permission lattice. Host built-ins are denied by the PreToolUse gate; use these instead. A refusal from one of these tools is a policy verdict, not a bug — do not attempt to work around it.";

/// An object without entries.
pub open spec fn nothing() -> Map<Seq<char>, JsonV> {
    Map::empty()
}

/// The result of `initialize`, for a server of this version.
pub open spec fn initialized(version: Seq<char>) -> JsonV {
    JsonV::Object(
        nothing().insert("protocolVersion"@, JsonV::Str(PROTOCOL_VERSION@)).insert(
            "capabilities"@,
            JsonV::Object(nothing().insert("tools"@, JsonV::Object(nothing()))),
        ).insert(
            "serverInfo"@,
            JsonV::Object(
                nothing().insert("name"@, JsonV::Str("nucleus"@)).insert(
                    "version"@,
                    JsonV::Str(version),
                ),
            ),
        ).insert("instructions"@, JsonV::Str(INSTRUCTIONS@)),
    )
}

/// An object without entries.
fn new_object() -> (r: Vec<(String, Json)>)
    ensures
        fields(r@) == nothing(),
{
    let f: Vec<(String, Json)> = Vec::new();
    assert(fields(f@) =~= nothing());
    f
}

/// The result of `initialize`.
pub fn initialize(version: &str) -> (r: Json)
    ensures
        r@ == initialized(version@),
{
    let mut capabilities = new_object();
    put(&mut capabilities, "tools", Json::Object(new_object()));
    let mut info = new_object();
    put(&mut info, "name", Json::text("nucleus"));
    put(&mut info, "version", Json::text(version));
    let mut out = new_object();
    put(&mut out, "protocolVersion", Json::text(PROTOCOL_VERSION));
    put(&mut out, "capabilities", Json::Object(capabilities));
    put(&mut out, "serverInfo", Json::Object(info));
    put(&mut out, "instructions", Json::text(INSTRUCTIONS));
    Json::Object(out)
}

/// What a tool does, in words.
pub open spec fn effect(name: Seq<char>) -> Seq<char> {
    if name == "run"@ {
        "Run one program with arguments inside the pod. There is no shell: quoting works, and pipes, redirection, expansion and globs are refused"@
    } else if name == "read"@ {
        "Read a file inside the pod"@
    } else if name == "write"@ {
        "Write a file inside the pod"@
    } else if name == "glob"@ {
        "Match files by glob inside the pod"@
    } else if name == "grep"@ {
        "Search file contents inside the pod"@
    } else if name == "web_fetch"@ {
        "Fetch a URL through the pod's mediated egress (taints the session)"@
    } else if name == "web_search"@ {
        "Search the web through the pod's mediated egress (taints the session)"@
    } else if name == "subagent"@ {
        "Start a child pod for a delegated task, with its own flow state"@
    } else {
        "Mediated effect"@
    }
}

/// How a tool is described.
pub open spec fn described(name: Seq<char>, route: Seq<char>) -> Seq<char> {
    effect(name) + ". Enforced by nucleus at "@ + route
        + "; returns a signed mediation receipt."@
}

/// Describes a tool.
pub fn describe(name: &str, route: &str) -> (r: String)
    ensures
        r@ == described(name@, route@),
{
    let what = if same(name, "run") {
        "Run one program with arguments inside the pod. There is no shell: quoting works, and pipes, redirection, expansion and globs are refused"
    } else if same(name, "read") {
        "Read a file inside the pod"
    } else if same(name, "write") {
        "Write a file inside the pod"
    } else if same(name, "glob") {
        "Match files by glob inside the pod"
    } else if same(name, "grep") {
        "Search file contents inside the pod"
    } else if same(name, "web_fetch") {
        "Fetch a URL through the pod's mediated egress (taints the session)"
    } else if same(name, "web_search") {
        "Search the web through the pod's mediated egress (taints the session)"
    } else if same(name, "subagent") {
        "Start a child pod for a delegated task, with its own flow state"
    } else {
        "Mediated effect"
    };
    let mut out = what.to_owned();
    out.append(". Enforced by nucleus at ");
    out.append(route);
    out.append("; returns a signed mediation receipt.");
    out
}

/// The schema of an argument of this type.
pub open spec fn typed(kind: Seq<char>) -> JsonV {
    JsonV::Object(nothing().insert("type"@, JsonV::Str(kind)))
}

/// The schema of an argument of this type, with a description.
pub open spec fn explained(kind: Seq<char>, what: Seq<char>) -> JsonV {
    JsonV::Object(
        nothing().insert("type"@, JsonV::Str(kind)).insert("description"@, JsonV::Str(what)),
    )
}

/// The arguments that a tool advertises. They have the built-ins' names, so that
/// the model does not have to learn a second vocabulary.
pub open spec fn properties(name: Seq<char>) -> Map<Seq<char>, JsonV> {
    if name == "run"@ {
        nothing().insert(
            "command"@,
            explained("string"@, "Program and arguments to run; no shell reads them"@),
        ).insert("directory"@, explained("string"@, "Directory to run it in"@)).insert(
            "stdin"@,
            explained("string"@, "Text to hand to the program"@),
        ).insert("timeout_ms"@, explained("integer"@, "Optional timeout in milliseconds"@))
    } else if name == "read"@ {
        nothing().insert("file_path"@, explained("string"@, "Absolute path inside the pod"@))
    } else if name == "write"@ {
        nothing().insert(
            "file_path"@,
            explained("string"@, "Absolute path inside the pod"@),
        ).insert("content"@, explained("string"@, "Full file contents"@))
    } else if name == "glob"@ {
        nothing().insert("pattern"@, typed("string"@)).insert(
            "path"@,
            explained("string"@, "Directory to search from"@),
        ).insert("max_results"@, typed("integer"@))
    } else if name == "grep"@ {
        nothing().insert("pattern"@, typed("string"@)).insert("path"@, typed("string"@)).insert(
            "glob"@,
            typed("string"@),
        )
    } else if name == "web_fetch"@ {
        nothing().insert("url"@, typed("string"@)).insert("prompt"@, typed("string"@))
    } else if name == "web_search"@ {
        nothing().insert("query"@, typed("string"@)).insert("max_results"@, typed("integer"@))
    } else if name == "subagent"@ {
        nothing().insert("prompt"@, explained("string"@, "Task for the child pod"@)).insert(
            "description"@,
            typed("string"@),
        )
    } else {
        nothing()
    }
}

/// The arguments that a tool's schema requires.
pub open spec fn mandatory(name: Seq<char>) -> Seq<Seq<char>> {
    if name == "run"@ {
        seq!["command"@]
    } else if name == "read"@ {
        seq!["file_path"@]
    } else if name == "write"@ {
        seq!["file_path"@, "content"@]
    } else if name == "glob"@ || name == "grep"@ {
        seq!["pattern"@]
    } else if name == "web_fetch"@ {
        seq!["url"@]
    } else if name == "web_search"@ {
        seq!["query"@]
    } else if name == "subagent"@ {
        seq!["prompt"@]
    } else {
        seq![]
    }
}

/// The schema of a tool's arguments.
pub open spec fn schema(name: Seq<char>) -> JsonV {
    JsonV::Object(
        nothing().insert("type"@, JsonV::Str("object"@)).insert(
            "properties"@,
            JsonV::Object(properties(name)),
        ).insert("required"@, strings(mandatory(name))),
    )
}

/// The schema of an argument of this type.
fn typed_as(kind: &str) -> (r: Json)
    ensures
        r@ == typed(kind@),
{
    let mut out = new_object();
    put(&mut out, "type", Json::text(kind));
    Json::Object(out)
}

/// The schema of an argument of this type, with a description.
fn explain(kind: &str, what: &str) -> (r: Json)
    ensures
        r@ == explained(kind@, what@),
{
    let mut out = new_object();
    put(&mut out, "type", Json::text(kind));
    put(&mut out, "description", Json::text(what));
    Json::Object(out)
}

/// The arguments that a tool advertises, and those that it requires.
fn arguments(name: &str) -> (r: (Vec<(String, Json)>, Vec<Json>))
    ensures
        fields(r.0@) == properties(name@),
        JsonV::Array(items(r.1@)) == strings(mandatory(name@)),
{
    let mut props = new_object();
    let mut required: Vec<Json> = Vec::new();
    if same(name, "run") {
        put(
            &mut props,
            "command",
            explain("string", "Program and arguments to run; no shell reads them"),
        );
        put(&mut props, "directory", explain("string", "Directory to run it in"));
        put(&mut props, "stdin", explain("string", "Text to hand to the program"));
        put(&mut props, "timeout_ms", explain("integer", "Optional timeout in milliseconds"));
        append(&mut required, Json::text("command"));
    } else if same(name, "read") {
        put(&mut props, "file_path", explain("string", "Absolute path inside the pod"));
        append(&mut required, Json::text("file_path"));
    } else if same(name, "write") {
        put(&mut props, "file_path", explain("string", "Absolute path inside the pod"));
        put(&mut props, "content", explain("string", "Full file contents"));
        append(&mut required, Json::text("file_path"));
        append(&mut required, Json::text("content"));
    } else if same(name, "glob") {
        put(&mut props, "pattern", typed_as("string"));
        put(&mut props, "path", explain("string", "Directory to search from"));
        put(&mut props, "max_results", typed_as("integer"));
        append(&mut required, Json::text("pattern"));
    } else if same(name, "grep") {
        put(&mut props, "pattern", typed_as("string"));
        put(&mut props, "path", typed_as("string"));
        put(&mut props, "glob", typed_as("string"));
        append(&mut required, Json::text("pattern"));
    } else if same(name, "web_fetch") {
        put(&mut props, "url", typed_as("string"));
        put(&mut props, "prompt", typed_as("string"));
        append(&mut required, Json::text("url"));
    } else if same(name, "web_search") {
        put(&mut props, "query", typed_as("string"));
        put(&mut props, "max_results", typed_as("integer"));
        append(&mut required, Json::text("query"));
    } else if same(name, "subagent") {
        put(&mut props, "prompt", explain("string", "Task for the child pod"));
        put(&mut props, "description", typed_as("string"));
        append(&mut required, Json::text("prompt"));
    }
    assert(items(required@) =~= mandatory(name@).map_values(|w: Seq<char>| JsonV::Str(w)));
    (props, required)
}

/// The schema of a tool's arguments.
///
/// It is permissive on purpose: the proxy validates on the far side, and this
/// exists to keep the call shapes familiar.
pub fn schema_for(name: &str) -> (r: Json)
    ensures
        r@ == schema(name@),
{
    let (props, required) = arguments(name);
    let mut out = new_object();
    put(&mut out, "type", Json::text("object"));
    put(&mut out, "properties", Json::Object(props));
    put(&mut out, "required", Json::Array(required));
    Json::Object(out)
}

/// How a tool is advertised.
pub open spec fn advertised(tool: (Seq<char>, Seq<char>)) -> JsonV {
    JsonV::Object(
        nothing().insert("name"@, JsonV::Str(tool.0)).insert(
            "description"@,
            JsonV::Str(described(tool.0, tool.1)),
        ).insert("inputSchema"@, schema(tool.0)),
    )
}

/// How some tools are advertised.
pub open spec fn advertisements(tools: Seq<(Seq<char>, Seq<char>)>) -> Seq<JsonV> {
    tools.map_values(|t: (Seq<char>, Seq<char>)| advertised(t))
}

/// The result of `tools/list`.
pub open spec fn tool_list() -> JsonV {
    JsonV::Object(nothing().insert("tools"@, JsonV::Array(advertisements(served()))))
}

/// The result of `tools/list`, derived from the map, so that the server cannot
/// advertise a tool that the hook does not redirect to, or omit one that it does.
pub fn tools_list() -> (r: Json)
    ensures
        r@ == tool_list(),
{
    let tools = mediated_tools();
    let ghost l = listing(tools@);
    let mut list: Vec<Json> = Vec::new();
    let mut i: usize = 0;
    while i < tools.len()
        invariant
            i <= tools@.len(),
            l == listing(tools@),
            items(list@) == advertisements(l.take(i as int)),
        decreases tools@.len() - i,
    {
        let name = tools[i].0;
        let route: &'static str = tools[i].1.0;
        let ghost before = items(list@);
        assert(l[i as int] == (name@, route@));
        let mut one = new_object();
        put(&mut one, "name", Json::text(name));
        let description = describe(name, route);
        put(&mut one, "description", Json::Str(description));
        put(&mut one, "inputSchema", schema_for(name));
        append(&mut list, Json::Object(one));
        assert(items(list@) == before.push(advertised(l[i as int])));
        assert(advertisements(l.take(i + 1)) =~= advertisements(l.take(i as int)).push(
            advertised(l[i as int]),
        ));
        i += 1;
    }
    assert(l.take(i as int) =~= l);
    let mut out = new_object();
    put(&mut out, "tools", Json::Array(list));
    Json::Object(out)
}

/// What a call comes back with: a text, and whether it is an error.
pub open spec fn content(said: Seq<char>, failed: bool) -> JsonV {
    JsonV::Object(
        nothing().insert(
            "content"@,
            JsonV::Array(
                seq![
                    JsonV::Object(
                        nothing().insert("type"@, JsonV::Str("text"@)).insert(
                            "text"@,
                            JsonV::Str(said),
                        ),
                    ),
                ],
            ),
        ).insert("isError"@, JsonV::Bool(failed)),
    )
}

/// What a failed call comes back with.
pub open spec fn failure(why: Seq<char>) -> JsonV {
    content("nucleus refused or could not complete this call: "@ + why, true)
}

/// What a call comes back with: a text, and whether it is an error.
fn with_content(said: String, failed: bool) -> (r: Json)
    ensures
        r@ == content(said@, failed),
{
    let mut part = new_object();
    put(&mut part, "type", Json::text("text"));
    put(&mut part, "text", Json::Str(said));
    let ghost shown = JsonV::Object(fields(part@));
    let mut parts: Vec<Json> = Vec::new();
    append(&mut parts, Json::Object(part));
    assert(items(parts@) =~= seq![shown]);
    let mut out = new_object();
    put(&mut out, "content", Json::Array(parts));
    put(&mut out, "isError", Json::Bool(failed));
    Json::Object(out)
}

/// What a successful call comes back with: the reply's text, word for word.
pub fn tool_result(reply: &str) -> (r: Json)
    ensures
        r@ == content(reply@, false),
{
    with_content(reply.to_owned(), false)
}

/// What a failed call comes back with. The model can see it, and it is marked so
/// that it cannot be mistaken for a result.
pub fn tool_error(why: &str) -> (r: Json)
    ensures
        r@ == failure(why@),
{
    let mut said = "nucleus refused or could not complete this call: ".to_owned();
    said.append(why);
    with_content(said, true)
}

/// The reply that carries a result.
pub open spec fn result_reply(id: JsonV, result: JsonV) -> JsonV {
    JsonV::Object(
        nothing().insert("jsonrpc"@, JsonV::Str("2.0"@)).insert("id"@, id).insert(
            "result"@,
            result,
        ),
    )
}

/// The reply that carries an error.
pub open spec fn error_reply(id: JsonV, code: i64, message: Seq<char>) -> JsonV {
    JsonV::Object(
        nothing().insert("jsonrpc"@, JsonV::Str("2.0"@)).insert("id"@, id).insert(
            "error"@,
            JsonV::Object(
                nothing().insert("code"@, number_model(signed(code))).insert(
                    "message"@,
                    JsonV::Str(message),
                ),
            ),
        ),
    )
}

/// The reply that carries a result.
pub fn ok(id: Json, result: Json) -> (r: Json)
    ensures
        r@ == result_reply(id@, result@),
{
    let mut out = new_object();
    put(&mut out, "jsonrpc", Json::text("2.0"));
    put(&mut out, "id", id);
    put(&mut out, "result", result);
    Json::Object(out)
}

/// The reply that carries an error.
pub fn err(id: Json, code: i64, message: &str) -> (r: Json)
    ensures
        r@ == error_reply(id@, code, message@),
{
    let mut e = new_object();
    put(&mut e, "code", Json::integer(code));
    put(&mut e, "message", Json::text(message));
    let mut out = new_object();
    put(&mut out, "jsonrpc", Json::text("2.0"));
    put(&mut out, "id", id);
    put(&mut out, "error", Json::Object(e));
    Json::Object(out)
}

/// What to do about a line.
#[derive(Debug)]
pub enum Step {
    /// Nothing.
    Skip,
    /// Write this reply.
    Reply(Json),
    /// Make a call, and reply to this id with what comes of it.
    Call {
        /// What the reply is about.
        id: Json,
        /// What to call.
        params: Json,
    },
}

/// The model of what to do about a line.
pub ghost enum StepV {
    /// Nothing.
    Skip,
    /// Write a reply.
    Reply(JsonV),
    /// Make a call.
    Call { id: JsonV, params: JsonV },
}

impl View for Step {
    type V = StepV;

    open spec fn view(&self) -> StepV {
        match self {
            Step::Skip => StepV::Skip,
            Step::Reply(v) => StepV::Reply(v@),
            Step::Call { id, params } => StepV::Call { id: id@, params: params@ },
        }
    }
}

/// The method that a message asks for.
pub open spec fn method_of(req: JsonV) -> Seq<char> {
    match req.text_at("method"@) {
        Some(m) => m,
        None => seq![],
    }
}

/// What to do about a message. One without an id is a notification and takes no
/// reply.
pub open spec fn dispatched(req: JsonV, version: Seq<char>) -> StepV {
    match req.get("id"@) {
        None => StepV::Skip,
        Some(id) => if method_of(req) == "initialize"@ {
            StepV::Reply(result_reply(id, initialized(version)))
        } else if method_of(req) == "tools/list"@ {
            StepV::Reply(result_reply(id, tool_list()))
        } else if method_of(req) == "tools/call"@ {
            StepV::Call {
                id,
                params: match req.get("params"@) {
                    Some(p) => p,
                    None => JsonV::Null,
                },
            }
        } else if method_of(req) == "ping"@ {
            StepV::Reply(result_reply(id, JsonV::Object(nothing())))
        } else {
            StepV::Reply(
                error_reply(id, METHOD_NOT_FOUND, "method not found: "@ + method_of(req)),
            )
        },
    }
}

/// What to do about a line.
pub open spec fn received(line: Seq<char>, version: Seq<char>) -> StepV {
    if trimmed(line).len() == 0 {
        StepV::Skip
    } else {
        match parsed(trimmed(line)) {
            Ok(req) => dispatched(req, version),
            Err(_) => StepV::Skip,
        }
    }
}

/// Says what to do about a message.
pub fn dispatch(req: &Json, version: &str) -> (r: Step)
    ensures
        r@ == dispatched(req@, version@),
{
    let id = match req.get("id") {
        Some(id) => id.copy(),
        None => {
            return Step::Skip;
        },
    };
    let method = match req.str_at("method") {
        Some(m) => m,
        None => "",
    };
    proof {
        reveal_strlit("");
        assert(method@ =~= method_of(req@));
    }
    if same(method, "initialize") {
        Step::Reply(ok(id, initialize(version)))
    } else if same(method, "tools/list") {
        Step::Reply(ok(id, tools_list()))
    } else if same(method, "tools/call") {
        let params = match req.get("params") {
            Some(p) => p.copy(),
            None => Json::Null,
        };
        Step::Call { id, params }
    } else if same(method, "ping") {
        Step::Reply(ok(id, Json::Object(new_object())))
    } else {
        let mut message = "method not found: ".to_owned();
        message.append(method);
        Step::Reply(err(id, METHOD_NOT_FOUND, message.as_str()))
    }
}

/// Says what to do about a line. One that cannot be parsed is skipped: to give up
/// would leave the model with nothing but denials.
pub fn receive(line: &str, version: &str) -> (r: Step)
    ensures
        r@ == received(line@, version@),
{
    let c = chars(line);
    let t = trim(c.as_slice());
    if t.len() == 0 {
        return Step::Skip;
    }
    match Json::parse(text(t).as_str()) {
        Ok(req) => dispatch(&req, version),
        Err(_) => Step::Skip,
    }
}

/// A call that is ready to be sent.
#[derive(Debug)]
pub struct Call {
    /// The tool that is called.
    pub tool: String,
    /// What the call is against.
    pub subject: String,
    /// Where it is posted.
    pub route: Route,
    /// What is posted.
    pub body: Json,
}

/// The model of a call.
pub ghost struct CallV {
    /// The tool that is called.
    pub tool: Seq<char>,
    /// What the call is against.
    pub subject: Seq<char>,
    /// Where it is posted.
    pub route: Seq<char>,
    /// What is posted.
    pub body: JsonV,
}

impl View for Call {
    type V = CallV;

    open spec fn view(&self) -> CallV {
        CallV {
            tool: self.tool@,
            subject: self.subject@,
            route: self.route@,
            body: self.body@,
        }
    }
}

/// The arguments of a call.
pub open spec fn arguments_of(params: JsonV) -> JsonV {
    match params.get("arguments"@) {
        Some(a) => a,
        None => JsonV::Object(nothing()),
    }
}

/// What a call sends, or why it sends nothing.
pub open spec fn called(params: JsonV) -> Result<CallV, Seq<char>> {
    match params.text_at("name"@) {
        None => Err("tools/call with no tool name"@),
        Some(name) => match served_route(name) {
            None => Err("`"@ + name + "` is not a tool this bridge serves"@),
            Some(route) => match proxy_body(name, arguments_of(params)) {
                Err(e) => Err(e),
                Ok(body) => Ok(
                    CallV { tool: name, subject: subject(name, arguments_of(params)), route, body },
                ),
            },
        },
    }
}

/// Says what a call sends. An unknown tool is refused for the same reason as an
/// unknown built-in: the bridge serves a closed set.
pub fn call_tool(params: &Json) -> (r: Result<Call, String>)
    ensures
        match r {
            Ok(call) => called(params@) == Ok::<CallV, Seq<char>>(call@),
            Err(e) => called(params@) == Err::<CallV, Seq<char>>(e@),
        },
{
    let name = match params.str_at("name") {
        Some(name) => name,
        None => {
            return Err("tools/call with no tool name".to_owned());
        },
    };
    let args = match params.get("arguments") {
        Some(a) => a.copy(),
        None => Json::Object(new_object()),
    };
    match route_of(name) {
        None => {
            let mut e = "`".to_owned();
            e.append(name);
            e.append("` is not a tool this bridge serves");
            Err(e)
        },
        Some(route) => {
            let body = to_proxy_body(name, &args)?;
            let about = subject_of(name, &args);
            Ok(Call { tool: name.to_owned(), subject: about, route, body })
        },
    }
}

/// What a call comes back with.
pub open spec fn answered(outcome: Result<JsonV, TransportErrorV>) -> JsonV {
    match outcome {
        Ok(reply) => content(pretty(reply), false),
        Err(e) => failure(e.said()),
    }
}

/// What the bridge observed of a call: it was performed, a policy refused it, or
/// something failed.
pub open spec fn observed(
    call: CallV,
    pod: Seq<char>,
    outcome: Result<JsonV, TransportErrorV>,
) -> EntryV {
    EntryV {
        tool: call.tool,
        subject: call.subject,
        outcome: match outcome {
            Ok(_) => OutcomeV::Allowed,
            Err(e) => match blamed(call.route, e) {
                CallErrorV::Refused(why) => OutcomeV::Refused(why),
                CallErrorV::Broken(why) => OutcomeV::Failed(why),
            },
        },
        pod,
    }
}

/// What came back of a request.
pub open spec fn outcome_of(outcome: Result<Json, TransportError>) -> Result<
    JsonV,
    TransportErrorV,
> {
    match outcome {
        Ok(v) => Ok(v@),
        Err(e) => Err(e@),
    }
}

impl Call {
    /// What the call comes back with. The pod's reply is handed back word for
    /// word: to summarise a receipt would make it unverifiable.
    pub fn answer(outcome: &Result<Json, TransportError>) -> (r: Json)
        ensures
            r@ == answered(outcome_of(*outcome)),
    {
        match outcome {
            Ok(reply) => {
                let shown = reply.to_pretty();
                tool_result(shown.as_str())
            },
            Err(e) => {
                let why = e.message();
                tool_error(why.as_str())
            },
        }
    }

    /// What the bridge observed of the call, for its journal.
    pub fn observe(&self, pod: &str, outcome: &Result<Json, TransportError>) -> (r: Entry)
        ensures
            r@ == observed(self@, pod@, outcome_of(*outcome)),
    {
        let seen = match outcome {
            Ok(_) => Outcome::Allowed,
            Err(e) => match blame(self.route, e) {
                CallError::Refused(why) => Outcome::Refused(why),
                CallError::Broken(why) => Outcome::Failed(why),
            },
        };
        Entry {
            tool: self.tool.clone(),
            subject: self.subject.clone(),
            outcome: seen,
            pod: pod.to_owned(),
        }
    }
}

/// The server advertises exactly what the hook redirects to: a tool is listed if
/// and only if some built-in is mediated to it.
pub proof fn law_advertised_iff_redirected_to(tool: Seq<char>)
    ensures
        (exists|i: int|
            0 <= i < served().len() && (#[trigger] advertisements(served())[i]).text_at("name"@)
                == Some(tool)) <==> (exists|name: Seq<char>| #[trigger]
            builtins().contains(name) && (disposed(name) matches DispositionV::Mediated {
                mcp_tool,
                ..
            } && mcp_tool == tool)),
{
    lemma_keys();
    law_served_tools();
    lemma_served_route(tool);
    let l = served();
    let a = advertisements(l);
    assert forall|i: int| 0 <= i < l.len() implies (#[trigger] a[i]).text_at("name"@) == Some(l[i].0) by {
        assert(a[i] == advertised(l[i]));
    }
    if exists|i: int| 0 <= i < l.len() && (#[trigger] a[i]).text_at("name"@) == Some(tool) {
        let i = choose|i: int| 0 <= i < l.len() && (#[trigger] a[i]).text_at("name"@) == Some(tool);
        assert(l[i].0 == tool);
        assert(served_route(tool) is Some);
        law_served_tool_is_a_target(tool);
    }
    if exists|name: Seq<char>| #[trigger]
        builtins().contains(name) && (disposed(name) matches DispositionV::Mediated { mcp_tool, .. }
            && mcp_tool == tool) {
        let name = choose|name: Seq<char>| #[trigger]
            builtins().contains(name) && (disposed(name) matches DispositionV::Mediated {
                mcp_tool,
                ..
            } && mcp_tool == tool);
        law_mediated_target_is_served(name);
        assert(served_route(tool) is Some);
        assert(a[0].text_at("name"@) == Some(l[0].0));
        assert(a[1].text_at("name"@) == Some(l[1].0));
        assert(a[2].text_at("name"@) == Some(l[2].0));
        assert(a[3].text_at("name"@) == Some(l[3].0));
        assert(a[4].text_at("name"@) == Some(l[4].0));
        assert(a[5].text_at("name"@) == Some(l[5].0));
        assert(a[6].text_at("name"@) == Some(l[6].0));
    }
}

/// The keys of an advertisement and of a schema differ.
proof fn lemma_keys()
    ensures
        "name"@ != "description"@,
        "name"@ != "inputSchema"@,
        "description"@ != "inputSchema"@,
        "type"@ != "properties"@,
        "type"@ != "required"@,
        "properties"@ != "required"@,
{
    reveal_strlit("name");
    reveal_strlit("description");
    reveal_strlit("inputSchema");
    reveal_strlit("type");
    reveal_strlit("properties");
    reveal_strlit("required");
    assert("name"@.len() == 4 && "description"@.len() == 11 && "inputSchema"@.len() == 11);
    assert("description"@[0] == 'd' && "inputSchema"@[0] == 'i');
    assert("type"@.len() == 4 && "properties"@.len() == 10 && "required"@.len() == 8);
}

/// Every advertised tool has a usable schema: it is that of an object, and it
/// requires exactly the arguments that the translation refuses to do without, all
/// of which it describes.
pub proof fn law_schema_is_usable(i: int)
    requires
        0 <= i < served().len(),
    ensures
        advertisements(served())[i].get("inputSchema"@) matches Some(s) && {
            &&& s.text_at("type"@) == Some("object"@)
            &&& s.get("required"@) == Some(strings(tool_requires(served()[i].0)))
            &&& s.get("properties"@) matches Some(JsonV::Object(props)) && forall|k: int|
                0 <= k < tool_requires(served()[i].0).len() ==> props.contains_key(
                    #[trigger] tool_requires(served()[i].0)[k],
                )
        },
{
    lemma_keys();
    law_served_tools();
    let name = served()[i].0;
    assert(advertisements(served())[i] == advertised(served()[i]));
    assert(tool_requires(name) =~= mandatory(name));
    let props = properties(name);
    let t = tool_requires(name);
    assert forall|k: int| 0 <= k < t.len() implies props.contains_key(#[trigger] t[k]) by {}
}

/// A failure is marked as an error, and says why; nothing else is marked so.
pub proof fn law_failure_is_marked(outcome: Result<JsonV, TransportErrorV>, why: Seq<char>)
    ensures
        answered(outcome).get("isError"@) == Some(JsonV::Bool(outcome is Err)),
        outcome matches Err(e) ==> answered(outcome) == failure(e.said()),
        failure(why).get("isError"@) == Some(JsonV::Bool(true)),
        failure(why).get("content"@) matches Some(JsonV::Array(parts)) && parts.len() == 1
            && parts[0].text_at("text"@) == Some(
            "nucleus refused or could not complete this call: "@ + why,
        ),
{
    reveal_strlit("content");
    reveal_strlit("isError");
    reveal_strlit("text");
    reveal_strlit("type");
    assert("content"@[0] == 'c' && "isError"@[0] == 'i');
    assert("text"@[1] == 'e' && "type"@[1] == 'y');
}

/// A notification gets no reply. Any other message gets one, at once or after its
/// call, and it carries the message's id and either a result or an error.
pub proof fn law_reply_carries_the_id(req: JsonV, version: Seq<char>)
    ensures
        match dispatched(req, version) {
            StepV::Skip => req.get("id"@) is None,
            StepV::Reply(reply) => {
                &&& req.get("id"@) is Some
                &&& reply.get("id"@) == req.get("id"@)
                &&& reply.text_at("jsonrpc"@) == Some("2.0"@)
                &&& reply.get("result"@) is Some <==> reply.get("error"@) is None
            },
            StepV::Call { id, .. } => req.get("id"@) == Some(id) && method_of(req)
                == "tools/call"@,
        },
{
    lemma_reply_keys();
}

/// The reply to a call carries the id of the message that asked for it.
pub proof fn law_call_reply_carries_the_id(id: JsonV, result: JsonV)
    ensures
        result_reply(id, result).get("id"@) == Some(id),
        result_reply(id, result).get("result"@) == Some(result),
{
    lemma_reply_keys();
}

/// The keys of a reply differ.
proof fn lemma_reply_keys()
    ensures
        "jsonrpc"@ != "id"@,
        "jsonrpc"@ != "result"@,
        "jsonrpc"@ != "error"@,
        "id"@ != "result"@,
        "id"@ != "error"@,
        "result"@ != "error"@,
{
    reveal_strlit("jsonrpc");
    reveal_strlit("id");
    reveal_strlit("result");
    reveal_strlit("error");
    assert("jsonrpc"@.len() == 7 && "id"@.len() == 2 && "result"@.len() == 6 && "error"@.len()
        == 5);
}

/// What a call sends goes to the route that serves its tool, and fits it.
pub proof fn law_call_fits_its_route(params: JsonV)
    ensures
        called(params) matches Ok(call) ==> {
            &&& params.text_at("name"@) == Some(call.tool)
            &&& served_route(call.tool) == Some(call.route)
            &&& fits(call.body, call.route)
        },
{
    if let Ok(call) = called(params) {
        law_body_fits_its_route(call.tool, arguments_of(params));
    }
}

/// A call that an advertised schema admits is sent: its tool is served, and the
/// arguments that the schema requires are there. A command to run must stand for
/// an argument vector besides.
pub proof fn law_advertised_call_is_sent(params: JsonV, tool: Seq<char>)
    requires
        params.text_at("name"@) == Some(tool),
        served_route(tool) is Some,
        holds_texts(arguments_of(params), mandatory(tool)),
        tool == "run"@ ==> (arguments_of(params).text_at("command"@) matches Some(command)
            && tokens(command) is Ok),
    ensures
        called(params) is Ok,
{
    lemma_served_route(tool);
    assert(tool_requires(tool) =~= mandatory(tool));
    law_translated_iff_complete(tool, arguments_of(params));
}

/// The bridge notes a refusal exactly where the pod answered with one of the two
/// statuses that mean a decision, and a performed effect exactly where the pod
/// replied with success.
pub proof fn law_observation_is_what_came_back(
    call: CallV,
    pod: Seq<char>,
    outcome: Result<JsonV, TransportErrorV>,
)
    ensures
        observed(call, pod, outcome).outcome is Allowed <==> outcome is Ok,
        observed(call, pod, outcome).outcome is Refused <==> (outcome matches Err(
            TransportErrorV::Status { status, .. },
        ) && (status == 403 || status == 409)),
{
}

} // verus!
