//! Proving the mediated path, and not just the hook.
//!
//! The check walks the whole path: reach the pod, run something, write a file and
//! read it back, and make a call that **must** be refused. Not every refusal is a
//! failure of the check: a refusal is a policy's decision. The failures are those
//! that mean that the bridge is broken or is not enforcing: no way to the pod, a
//! route that the pod does not serve, a body that it cannot read, and above all a
//! probe from outside the pod's root that *succeeds*.
//!
//! Resolving the transport, sending and printing are the caller's. [`run`] takes
//! what came of one such step, and says what to print; [`Check::pending`] says
//! what to do next.

use vstd::prelude::*;
use vstd::string::*;
use vstd::utf8::encode_utf8;

use crate::json::{fields, parsed, put, Json, JsonV};
use crate::mediation::{listing, mediated_tools, route_of, served, served_route, Route};
use crate::text::{
    chars, decimal, head, head_of, is_space, join, joined, push_decimal, same, texts, trim,
    trim_start, trimmed,
};
use crate::translate::{
    holds_texts, is_plain, law_plain_command_is_split_on_white_space,
    law_translated_iff_complete, lemma_served_route, proxy_body, to_proxy_body, tokens,
    tool_requires,
};
use crate::transport::{TransportError, TransportErrorV};

verus! {

/// A path that no pod should serve from: the probe that must be refused. It is
/// refused by containment, so it means the same under every profile.
pub const ESCAPE_PROBE: &'static str = "/etc/shadow";

/// Width of the description column, so that every result starts in the same
/// place.
pub const COLUMN: usize = 38;

/// How long a summary may be, so that a line stays a line.
pub const SUMMARY_MAX: usize = 160;

/// What the check prints before anything else.
pub const TITLE: &'static str = "nucleus bridge check\n\n";

/// Why a mediated call did not succeed, by whose fault it is.
#[derive(Debug)]
pub enum CallError {
    /// The lattice, the path policy or the command policy said no.
    Refused(String),
    /// A fault of the bridge or of the pod's surface.
    Broken(String),
}

/// The model of a failed call.
pub ghost enum CallErrorV {
    /// A policy said no.
    Refused(Seq<char>),
    /// Something is broken.
    Broken(Seq<char>),
}

impl View for CallError {
    type V = CallErrorV;

    open spec fn view(&self) -> CallErrorV {
        match self {
            CallError::Refused(why) => CallErrorV::Refused(why@),
            CallError::Broken(why) => CallErrorV::Broken(why@),
        }
    }
}

/// What an error body says, where it is a JSON value that says it in one of the
/// known fields.
pub open spec fn reason_in(v: JsonV) -> Option<Seq<char>> {
    if v.text_at("reason"@) is Some {
        v.text_at("reason"@)
    } else if v.text_at("error"@) is Some {
        v.text_at("error"@)
    } else if v.text_at("message"@) is Some {
        v.text_at("message"@)
    } else {
        v.text_at("detail"@)
    }
}

/// The summary of an error body, given the JSON value that it is, if it is one.
pub open spec fn summary_of(value: Option<JsonV>, body: Seq<char>) -> Seq<char> {
    let said = match value {
        Some(v) => match reason_in(v) {
            Some(s) => s,
            None => trimmed(body),
        },
        None => trimmed(body),
    };
    head_of(said, SUMMARY_MAX as nat)
}

/// The summary of an error body.
pub open spec fn summary(body: Seq<char>) -> Seq<char> {
    summary_of(
        match parsed(body) {
            Ok(v) => Some(v),
            Err(_) => None,
        },
        body,
    )
}

/// Summarises an error body, given the JSON value that it is, if it is one.
pub fn summarise_value(value: Option<&Json>, body: &str) -> (r: String)
    ensures
        r@ == summary_of(
            match value {
                Some(v) => Some(v@),
                None => None,
            },
            body@,
        ),
{
    let said = match value {
        Some(v) => match v.str_at("reason") {
            Some(s) => Some(s),
            None => match v.str_at("error") {
                Some(s) => Some(s),
                None => match v.str_at("message") {
                    Some(s) => Some(s),
                    None => v.str_at("detail"),
                },
            },
        },
        None => None,
    };
    match said {
        Some(s) => {
            let c = chars(s);
            head(c.as_slice(), SUMMARY_MAX)
        },
        None => {
            let c = chars(body);
            head(trim(c.as_slice()), SUMMARY_MAX)
        },
    }
}

/// Summarises an error body: to its reason where it is JSON that gives one, and
/// to its text otherwise.
pub fn summarise(body: &str) -> (r: String)
    ensures
        r@ == summary(body@),
{
    match Json::parse(body) {
        Ok(v) => summarise_value(Some(&v), body),
        Err(_) => summarise_value(None, body),
    }
}

/// Whose fault a failed request is, given the summary of its body.
pub open spec fn classified(route: Seq<char>, e: TransportErrorV, why: Seq<char>) -> CallErrorV {
    match e {
        TransportErrorV::Status { status, body } => if status == 403 || status == 409 {
            CallErrorV::Refused(why)
        } else if status == 404 {
            CallErrorV::Broken(
                "404 — this pod does not serve "@ + route
                    + ". The bridge advertises a tool the pod has not got."@,
            )
        } else if status == 422 {
            CallErrorV::Broken(
                "422 — "@ + route + " could not deserialise the body this bridge sent: "@ + why,
            )
        } else {
            CallErrorV::Broken(e.said())
        },
        _ => CallErrorV::Broken(e.said()),
    }
}

/// Whose fault a failed request is.
pub open spec fn blamed(route: Seq<char>, e: TransportErrorV) -> CallErrorV {
    classified(
        route,
        e,
        match e {
            TransportErrorV::Status { body, .. } => summary(body),
            _ => seq![],
        },
    )
}

/// Says whose fault a failed request is, given the summary of its body. Two
/// statuses are the lattice and the flow state deciding; anything else is the
/// surface being wrong.
pub fn classify(route: Route, e: &TransportError, why: &str) -> (r: CallError)
    ensures
        r@ == classified(route@, e@, why@),
{
    match e {
        TransportError::Status { status, .. } => {
            if *status == 403 || *status == 409 {
                CallError::Refused(why.to_owned())
            } else if *status == 404 {
                let mut out = "404 — this pod does not serve ".to_owned();
                out.append(route.0);
                out.append(". The bridge advertises a tool the pod has not got.");
                CallError::Broken(out)
            } else if *status == 422 {
                let mut out = "422 — ".to_owned();
                out.append(route.0);
                out.append(" could not deserialise the body this bridge sent: ");
                out.append(why);
                CallError::Broken(out)
            } else {
                CallError::Broken(e.message())
            }
        },
        _ => CallError::Broken(e.message()),
    }
}

/// Says whose fault a failed request is.
pub fn blame(route: Route, e: &TransportError) -> (r: CallError)
    ensures
        r@ == blamed(route@, e@),
{
    let why = match e {
        TransportError::Status { body, .. } => summarise(body.as_str()),
        _ => String::new(),
    };
    assert(!(e@ is Status) ==> why@ =~= Seq::<char>::empty());
    classify(route, e, why.as_str())
}

/// The route and the body of a call, or why there are none.
pub open spec fn prepared(tool: Seq<char>, args: JsonV) -> Result<(Seq<char>, JsonV), CallErrorV> {
    match proxy_body(tool, args) {
        Err(e) => Err(CallErrorV::Broken(e)),
        Ok(body) => match served_route(tool) {
            Some(route) => Ok((route, body)),
            None => Err(CallErrorV::Broken("`"@ + tool + "` is not served"@)),
        },
    }
}

/// Prepares a call: where it is posted, and what.
pub fn call(tool: &str, args: &Json) -> (r: Result<(Route, Json), CallError>)
    ensures
        match r {
            Ok((route, body)) => prepared(tool@, args@) == Ok::<(Seq<char>, JsonV), CallErrorV>(
                (route@, body@),
            ),
            Err(e) => prepared(tool@, args@) == Err::<(Seq<char>, JsonV), CallErrorV>(e@),
        },
{
    let body = match to_proxy_body(tool, args) {
        Ok(body) => body,
        Err(e) => {
            return Err(CallError::Broken(e));
        },
    };
    match route_of(tool) {
        Some(route) => Ok((route, body)),
        None => {
            let mut e = "`".to_owned();
            e.append(tool);
            e.append("` is not served");
            Err(CallError::Broken(e))
        },
    }
}

/// `n` spaces.
pub open spec fn spaces(n: nat) -> Seq<char> {
    Seq::new(n, |i: int| ' ')
}

/// A text filled up with spaces to a width.
pub open spec fn padded(s: Seq<char>, width: nat) -> Seq<char> {
    if s.len() < width {
        s + spaces((width - s.len()) as nat)
    } else {
        s
    }
}

/// How the line of the `n`th act begins.
pub open spec fn lead(n: nat, what: Seq<char>) -> Seq<char> {
    "  ["@ + decimal(n) + "] "@ + padded(what, COLUMN as nat)
}

/// How the line of the `n`th act begins.
fn begin_line(n: usize, what: &str) -> (r: String)
    ensures
        r@ == lead(n as nat, what@),
{
    let mut out = "  [".to_owned();
    push_decimal(&mut out, n as u128);
    out.append("] ");
    let ghost so_far = out@;
    out.append(what);
    let mut i: usize = what.unicode_len();
    assert(out@ =~= so_far + what@);
    while i < COLUMN
        invariant
            what@.len() <= i,
            i <= COLUMN || i == what@.len(),
            out@ == so_far + (what@ + spaces((i - what@.len()) as nat)),
        decreases COLUMN - i,
    {
        let ghost before = out@;
        out.push(' ');
        i += 1;
        assert(out@ =~= so_far + (what@ + spaces((i - what@.len()) as nat)));
    }
    assert(what@ + spaces((i - what@.len()) as nat) =~= padded(what@, COLUMN as nat));
    out
}

/// The line of an act, and how many failures it counts for: none or one. A reply
/// was found right or wrong, or the call did not succeed. A refusal is no
/// failure: a strict profile is a choice, and not a defect.
pub open spec fn acted(
    n: nat,
    what: Seq<char>,
    outcome: Result<Result<Seq<char>, Seq<char>>, CallErrorV>,
) -> (Seq<char>, nat) {
    match outcome {
        Ok(Ok(detail)) => (lead(n, what) + "ok    "@ + detail + "\n"@, 0),
        Ok(Err(why)) => (lead(n, what) + "FAIL  "@ + why + "\n"@, 1),
        Err(CallErrorV::Refused(why)) => (
            lead(n, what) + "--    refused by policy: "@ + why + "\n"@,
            0,
        ),
        Err(CallErrorV::Broken(why)) => (lead(n, what) + "FAIL  "@ + why + "\n"@, 1),
    }
}

/// The model of what came of an act.
pub open spec fn outcome_model(outcome: Result<Result<String, String>, CallError>) -> Result<
    Result<Seq<char>, Seq<char>>,
    CallErrorV,
> {
    match outcome {
        Ok(Ok(detail)) => Ok(Ok(detail@)),
        Ok(Err(why)) => Ok(Err(why@)),
        Err(e) => Err(e@),
    }
}

/// Writes one act's line, and counts its failure.
pub fn act(n: usize, what: &str, outcome: Result<Result<String, String>, CallError>) -> (r: (
    String,
    usize,
))
    ensures
        (r.0@, r.1 as nat) == acted(n as nat, what@, outcome_model(outcome)),
{
    let mut line = begin_line(n, what);
    match outcome {
        Ok(Ok(detail)) => {
            line.append("ok    ");
            line.append(detail.as_str());
            line.append("\n");
            (line, 0)
        },
        Ok(Err(why)) => {
            line.append("FAIL  ");
            line.append(why.as_str());
            line.append("\n");
            (line, 1)
        },
        Err(CallError::Refused(why)) => {
            line.append("--    refused by policy: ");
            line.append(why.as_str());
            line.append("\n");
            (line, 0)
        },
        Err(CallError::Broken(why)) => {
            line.append("FAIL  ");
            line.append(why.as_str());
            line.append("\n");
            (line, 1)
        },
    }
}

/// The hexadecimal digit for a number below sixteen.
pub open spec fn hex_digit(d: nat) -> char {
    if d < 10 {
        (48 + d) as char
    } else {
        (87 + d) as char
    }
}

/// The last `width` hexadecimal digits of a number.
pub open spec fn hex(n: nat, width: nat) -> Seq<char>
    decreases width,
{
    if width == 0 {
        seq![]
    } else {
        hex(n / 16, (width - 1) as nat).push(hex_digit(n % 16))
    }
}

/// Appends the last `width` hexadecimal digits of a number.
fn push_hex(out: &mut String, n: u128, width: usize)
    ensures
        final(out)@ == old(out)@ + hex(n as nat, width as nat),
    decreases width,
{
    if width == 0 {
        assert(out@ =~= old(out)@ + hex(n as nat, 0));
        return;
    }
    let ghost before = out@;
    push_hex(out, n / 16, width - 1);
    let d: u8 = (n % 16) as u8;
    if d < 10 {
        out.push((48 + d) as char);
    } else {
        out.push((87 + d) as char);
    }
    assert(out@ =~= before + hex(n as nat, width as nat));
}

/// The name of the file that a check made at `stamp` writes: of its own, so that
/// what another check left behind cannot pass for what this one wrote.
pub open spec fn file_name(stamp: nat) -> Seq<char> {
    "ccn-check-"@ + hex(stamp, 8) + ".txt"@
}

/// What a check made at `stamp` writes.
pub open spec fn file_content(stamp: nat) -> Seq<char> {
    "mediated at "@ + decimal(stamp) + "\n"@
}

/// Which step of the check comes next.
#[derive(Debug, Clone, Copy)]
pub enum Stage {
    /// Resolve the transport.
    Transport,
    /// Ask the pod for its health.
    Health,
    /// Run a command.
    Run,
    /// Write a file.
    Write,
    /// Read the file back.
    ReadBack,
    /// Read from outside the pod's root.
    Escape,
    /// Nothing: exit with this code.
    Over(i32),
}

/// A check that is going on.
#[derive(Debug)]
pub struct Check {
    stage: Stage,
    file: String,
    content: String,
    failures: usize,
}

/// The model of a check.
pub ghost struct CheckV {
    /// Which step comes next.
    pub stage: Stage,
    /// The name of the file that is written.
    pub file: Seq<char>,
    /// What is written.
    pub content: Seq<char>,
    /// How many acts have failed.
    pub failures: nat,
}

impl View for Check {
    type V = CheckV;

    closed spec fn view(&self) -> CheckV {
        CheckV {
            stage: self.stage,
            file: self.file@,
            content: self.content@,
            failures: self.failures as nat,
        }
    }
}

impl CheckV {
    /// A check at its beginning.
    pub open spec fn fresh(stamp: nat) -> CheckV {
        CheckV {
            stage: Stage::Transport,
            file: file_name(stamp),
            content: file_content(stamp),
            failures: 0,
        }
    }

    /// Whether no more acts have failed than there were.
    pub open spec fn valid(self) -> bool {
        match self.stage {
            Stage::Transport | Stage::Health | Stage::Run => self.failures == 0,
            Stage::Write => self.failures <= 1,
            Stage::ReadBack => self.failures <= 2,
            Stage::Escape => self.failures <= 3,
            Stage::Over(_) => self.failures <= 4,
        }
    }
}

/// What to do next.
#[derive(Debug)]
pub enum Action {
    /// Resolve the transport.
    Resolve,
    /// Ask the pod for its health.
    AskHealth,
    /// Make a mediated call.
    Call {
        /// The tool.
        tool: &'static str,
        /// Its arguments.
        args: Json,
    },
    /// Exit with this code.
    Exit(i32),
}

/// The model of what to do next.
pub ghost enum ActionV {
    /// Resolve the transport.
    Resolve,
    /// Ask the pod for its health.
    AskHealth,
    /// Make a mediated call.
    Call { tool: Seq<char>, args: JsonV },
    /// Exit.
    Exit(i32),
}

impl View for Action {
    type V = ActionV;

    open spec fn view(&self) -> ActionV {
        match self {
            Action::Resolve => ActionV::Resolve,
            Action::AskHealth => ActionV::AskHealth,
            Action::Call { tool, args } => ActionV::Call { tool: tool@, args: args@ },
            Action::Exit(code) => ActionV::Exit(*code),
        }
    }
}

/// What came of an action.
#[derive(Debug)]
pub enum Event {
    /// The transport's description, or why there is none.
    Transport(Result<String, String>),
    /// Whether the pod answered, or why not.
    Health(Result<(), String>),
    /// What came of a call.
    Reply(Result<Json, CallError>),
}

/// The model of what came of an action.
pub ghost enum EventV {
    /// The transport's description, or why there is none.
    Transport(Result<Seq<char>, Seq<char>>),
    /// Whether the pod answered, or why not.
    Health(Result<(), Seq<char>>),
    /// What came of a call.
    Reply(Result<JsonV, CallErrorV>),
}

impl View for Event {
    type V = EventV;

    open spec fn view(&self) -> EventV {
        match self {
            Event::Transport(Ok(s)) => EventV::Transport(Ok(s@)),
            Event::Transport(Err(e)) => EventV::Transport(Err(e@)),
            Event::Health(Ok(_)) => EventV::Health(Ok(())),
            Event::Health(Err(e)) => EventV::Health(Err(e@)),
            Event::Reply(Ok(v)) => EventV::Reply(Ok(v@)),
            Event::Reply(Err(e)) => EventV::Reply(Err(e@)),
        }
    }
}

/// An object with one string.
pub open spec fn one_field(key: Seq<char>, value: Seq<char>) -> JsonV {
    JsonV::Object(Map::empty().insert(key, JsonV::Str(value)))
}

/// What to do at a stage.
pub open spec fn action_of(c: CheckV) -> ActionV {
    match c.stage {
        Stage::Transport => ActionV::Resolve,
        Stage::Health => ActionV::AskHealth,
        Stage::Run => ActionV::Call { tool: "run"@, args: one_field("command"@, "true"@) },
        Stage::Write => ActionV::Call {
            tool: "write"@,
            args: JsonV::Object(
                Map::empty().insert("file_path"@, JsonV::Str(c.file)).insert(
                    "content"@,
                    JsonV::Str(c.content),
                ),
            ),
        },
        Stage::ReadBack => ActionV::Call { tool: "read"@, args: one_field("file_path"@, c.file) },
        Stage::Escape => ActionV::Call {
            tool: "read"@,
            args: one_field("file_path"@, ESCAPE_PROBE@),
        },
        Stage::Over(code) => ActionV::Exit(code),
    }
}

/// The names of the tools that this bridge serves.
pub open spec fn served_names() -> Seq<Seq<char>> {
    served().map_values(|p: (Seq<char>, Seq<char>)| p.0)
}

/// The line that lists the tools.
pub open spec fn tools_line() -> Seq<char> {
    "  tools       "@ + decimal(served_names().len()) + " — "@ + joined(served_names(), ", "@)
        + "\n\n"@
}

/// What the pod gave back of the file.
pub open spec fn got(reply: JsonV) -> Seq<char> {
    match reply.text_at("contents"@) {
        Some(s) => s,
        None => seq![],
    }
}

/// What the `Debug` of `str` writes.
pub uninterp spec fn debug(s: Seq<char>) -> Seq<char>;

/// What is said of a file that does not read back, where the pod gave back what
/// `shown` shows.
pub open spec fn mismatch_text(shown: Seq<char>) -> Seq<char> {
    "the pod returned "@ + shown + ", not what was written"@
}

/// Whether a reply gives back what was written, in words.
pub open spec fn read_back(reply: JsonV, content: Seq<char>) -> Result<Seq<char>, Seq<char>> {
    if got(reply) == content {
        Ok("identical"@)
    } else {
        Err(mismatch_text(debug(got(reply))))
    }
}

/// The line of the escape probe, and whether it counts as a failure. This is the
/// act that tells enforcement from routing: anything but a refusal fails.
pub open spec fn escaped(outcome: Result<JsonV, CallErrorV>) -> (Seq<char>, nat) {
    let line = lead(4, "read "@ + ESCAPE_PROBE@ + " (must be refused)"@);
    match outcome {
        Err(CallErrorV::Refused(why)) => (line + "ok    refused: "@ + why + "\n"@, 0),
        Err(CallErrorV::Broken(why)) => (line + "FAIL  "@ + why + "\n"@, 1),
        Ok(_) => (
            line
                + "FAIL  the pod served it\n\n  This is the serious one. A path outside the pod's root was read successfully,\n  so the containment boundary is not holding and every other line above is\n  routing rather than enforcement.\n"@,
            1,
        ),
    }
}

/// What the check ends with.
pub open spec fn conclusion(failures: nat) -> Seq<char> {
    "\n  Receipts are not in these replies. The pod ships each signed MediationReceipt to\n  the node over vsock as it is produced; they are collected at\n  <node-state>/pods/<pod-id>/collected-receipts.jsonl and verified with\n  `nucleus-audit verify-mediation-receipts`.\n\n"@
        + if failures == 0 {
        "the mediated path works, and the boundary refused what it should.\n"@
    } else {
        decimal(failures) + " check(s) failed — the mediated path is not sound.\n"@
    }
}

/// What is said of a reply, where its call succeeded.
pub open spec fn judged(
    outcome: Result<JsonV, CallErrorV>,
    found: Result<Seq<char>, Seq<char>>,
) -> Result<Result<Seq<char>, Seq<char>>, CallErrorV> {
    match outcome {
        Ok(_) => Ok(found),
        Err(e) => Err(e),
    }
}

/// The check after an act that took it on to `stage`.
pub open spec fn onwards(c: CheckV, stage: Stage, acted: (Seq<char>, nat)) -> (CheckV, Seq<char>) {
    (CheckV { stage, failures: c.failures + acted.1, ..c }, acted.0)
}

/// The check after an event, and what is printed of it.
pub open spec fn after(c: CheckV, e: EventV) -> (CheckV, Seq<char>) {
    match (c.stage, e) {
        (Stage::Transport, EventV::Transport(Ok(described))) => (
            CheckV { stage: Stage::Health, ..c },
            "  transport   "@ + described + "\n"@,
        ),
        (Stage::Transport, EventV::Transport(Err(why))) => (
            CheckV { stage: Stage::Over(1), ..c },
            "  transport   FAIL  "@ + why
                + "\n\nthere is no mediated path. Nothing below could be checked.\n"@,
        ),
        (Stage::Health, EventV::Health(Ok(_))) => (
            CheckV { stage: Stage::Run, ..c },
            "  health      ok\n"@ + tools_line(),
        ),
        (Stage::Health, EventV::Health(Err(why))) => (
            CheckV { stage: Stage::Over(1), ..c },
            "  health      FAIL  "@ + why
                + "\n\nthe pod is not answering. Nothing below could be checked.\n"@,
        ),
        (Stage::Run, EventV::Reply(outcome)) => onwards(
            c,
            Stage::Write,
            acted(1, "run true"@, judged(outcome, Ok("the pod executed a command"@))),
        ),
        (Stage::Write, EventV::Reply(outcome)) => onwards(
            c,
            Stage::ReadBack,
            acted(
                2,
                "write "@ + c.file,
                judged(outcome, Ok(decimal(encode_utf8(c.content).len()) + " bytes"@)),
            ),
        ),
        (Stage::ReadBack, EventV::Reply(outcome)) => onwards(
            c,
            Stage::Escape,
            acted(
                3,
                "read it back"@,
                match outcome {
                    Ok(reply) => Ok(read_back(reply, c.content)),
                    Err(e) => Err(e),
                },
            ),
        ),
        (Stage::Escape, EventV::Reply(outcome)) => {
            let (line, failed) = escaped(outcome);
            let failures = c.failures + failed;
            onwards(
                c,
                Stage::Over(
                    if failures == 0 {
                        0
                    } else {
                        1
                    },
                ),
                (line + conclusion(failures), failed),
            )
        },
        _ => (c, seq![]),
    }
}

/// The `Debug` of `str`; the result is named.
#[verifier::external_body]
fn debug_text(s: &str) -> (r: String)
    ensures
        r@ == debug(s@),
{
    format!("{s:?}")
}

/// Says that a file does not read back, where the pod gave back what `shown`
/// shows.
pub fn mismatch(shown: &str) -> (r: String)
    ensures
        r@ == mismatch_text(shown@),
{
    let mut out = "the pod returned ".to_owned();
    out.append(shown);
    out.append(", not what was written");
    out
}

/// Says whether a reply gives back what was written.
pub fn compare(reply: &Json, content: &str) -> (r: Result<String, String>)
    ensures
        match r {
            Ok(s) => read_back(reply@, content@) == Ok::<Seq<char>, Seq<char>>(s@),
            Err(s) => read_back(reply@, content@) == Err::<Seq<char>, Seq<char>>(s@),
        },
{
    let given = match reply.str_at("contents") {
        Some(s) => s,
        None => "",
    };
    proof {
        reveal_strlit("");
        assert(given@ =~= got(reply@));
    }
    if same(given, content) {
        Ok("identical".to_owned())
    } else {
        let shown = debug_text(given);
        Err(mismatch(shown.as_str()))
    }
}

/// The line that lists the tools.
fn list_tools() -> (r: String)
    ensures
        r@ == tools_line(),
{
    let tools = mediated_tools();
    let ghost l = listing(tools@);
    let mut names: Vec<String> = Vec::new();
    let mut i: usize = 0;
    while i < tools.len()
        invariant
            i <= tools@.len(),
            l == listing(tools@),
            l == served(),
            texts(names@) == served_names().take(i as int),
        decreases tools@.len() - i,
    {
        let ghost before = texts(names@);
        assert(l[i as int].0 == tools@[i as int].0@);
        names.push(tools[i].0.to_owned());
        assert(texts(names@) =~= before.push(tools@[i as int].0@));
        assert(served_names().take(i + 1) =~= served_names().take(i as int).push(
            served_names()[i as int],
        ));
        i += 1;
    }
    assert(served_names().take(i as int) =~= served_names());
    let mut out = "  tools       ".to_owned();
    push_decimal(&mut out, names.len() as u128);
    out.append(" — ");
    let list = join(names.as_slice(), ", ");
    out.append(list.as_str());
    out.append("\n\n");
    out
}

/// The line of the escape probe, and whether it counts as a failure.
fn judge_escape(outcome: &Result<Json, CallError>) -> (r: (String, usize))
    ensures
        (r.0@, r.1 as nat) == escaped(
            match outcome {
                Ok(v) => Ok(v@),
                Err(e) => Err(e@),
            },
        ),
{
    let mut what = "read ".to_owned();
    what.append(ESCAPE_PROBE);
    what.append(" (must be refused)");
    let mut line = begin_line(4, what.as_str());
    match outcome {
        Err(CallError::Refused(why)) => {
            line.append("ok    refused: ");
            line.append(why.as_str());
            line.append("\n");
            (line, 0)
        },
        Err(CallError::Broken(why)) => {
            line.append("FAIL  ");
            line.append(why.as_str());
            line.append("\n");
            (line, 1)
        },
        Ok(_) => {
            line.append(
                "FAIL  the pod served it\n\n  This is the serious one. A path outside the pod's root was read successfully,\n  so the containment boundary is not holding and every other line above is\n  routing rather than enforcement.\n",
            );
            (line, 1)
        },
    }
}

/// What the check ends with.
fn conclude(failures: usize) -> (r: String)
    ensures
        r@ == conclusion(failures as nat),
{
    let mut out =
        "\n  Receipts are not in these replies. The pod ships each signed MediationReceipt to\n  the node over vsock as it is produced; they are collected at\n  <node-state>/pods/<pod-id>/collected-receipts.jsonl and verified with\n  `nucleus-audit verify-mediation-receipts`.\n\n".to_owned();
    if failures == 0 {
        out.append("the mediated path works, and the boundary refused what it should.\n");
    } else {
        let mut last = String::new();
        push_decimal(&mut last, failures as u128);
        last.append(" check(s) failed — the mediated path is not sound.\n");
        assert(last@ =~= decimal(failures as nat)
            + " check(s) failed — the mediated path is not sound.\n"@);
        out.append(last.as_str());
    }
    out
}

/// An object with one string.
fn field(key: &str, value: &str) -> (r: Json)
    ensures
        r@ == one_field(key@, value@),
{
    let mut f: Vec<(String, Json)> = Vec::new();
    assert(fields(f@) =~= Map::empty());
    put(&mut f, key, Json::text(value));
    Json::Object(f)
}

impl Check {
    /// No more acts have failed than there were.
    #[verifier::type_invariant]
    spec fn in_order(self) -> bool {
        self@.valid()
    }

    /// A check at its beginning. `stamp` tells it from every other: it is the time
    /// in nanoseconds.
    pub fn new(stamp: u128) -> (r: Check)
        ensures
            r@ == CheckV::fresh(stamp as nat),
    {
        let mut file = "ccn-check-".to_owned();
        push_hex(&mut file, stamp, 8);
        file.append(".txt");
        let mut content = "mediated at ".to_owned();
        push_decimal(&mut content, stamp);
        content.append("\n");
        Check { stage: Stage::Transport, file, content, failures: 0 }
    }

    /// What to do next.
    pub fn pending(&self) -> (r: Action)
        ensures
            r@ == action_of(self@),
    {
        match self.stage {
            Stage::Transport => Action::Resolve,
            Stage::Health => Action::AskHealth,
            Stage::Run => Action::Call { tool: "run", args: field("command", "true") },
            Stage::Write => {
                let mut f: Vec<(String, Json)> = Vec::new();
                assert(fields(f@) =~= Map::empty());
                put(&mut f, "file_path", Json::text(self.file.as_str()));
                put(&mut f, "content", Json::text(self.content.as_str()));
                Action::Call { tool: "write", args: Json::Object(f) }
            },
            Stage::ReadBack => Action::Call {
                tool: "read",
                args: field("file_path", self.file.as_str()),
            },
            Stage::Escape => Action::Call { tool: "read", args: field("file_path", ESCAPE_PROBE) },
            Stage::Over(code) => Action::Exit(code),
        }
    }
}

/// What an act of the check found, where its call succeeded.
fn judge(outcome: Result<Json, CallError>, detail: String) -> (r: Result<
    Result<String, String>,
    CallError,
>)
    ensures
        outcome_model(r) == judged(
            match outcome {
                Ok(v) => Ok(v@),
                Err(e) => Err(e@),
            },
            Ok(detail@),
        ),
{
    match outcome {
        Ok(_) => Ok(Ok(detail)),
        Err(e) => Err(e),
    }
}

/// Takes the check on by what came of the action that was pending. Returns what
/// to print of it. Anything else leaves the check as it is.
pub fn run(check: &mut Check, event: Event) -> (r: String)
    ensures
        (final(check)@, r@) == after(old(check)@, event@),
{
    proof {
        use_type_invariant(&*check);
    }
    match (check.stage, event) {
        (Stage::Transport, Event::Transport(Ok(described))) => {
            check.stage = Stage::Health;
            let mut out = "  transport   ".to_owned();
            out.append(described.as_str());
            out.append("\n");
            out
        },
        (Stage::Transport, Event::Transport(Err(why))) => {
            check.stage = Stage::Over(1);
            let mut out = "  transport   FAIL  ".to_owned();
            out.append(why.as_str());
            out.append("\n\nthere is no mediated path. Nothing below could be checked.\n");
            out
        },
        (Stage::Health, Event::Health(Ok(_))) => {
            check.stage = Stage::Run;
            let mut out = "  health      ok\n".to_owned();
            let tools = list_tools();
            out.append(tools.as_str());
            out
        },
        (Stage::Health, Event::Health(Err(why))) => {
            check.stage = Stage::Over(1);
            let mut out = "  health      FAIL  ".to_owned();
            out.append(why.as_str());
            out.append("\n\nthe pod is not answering. Nothing below could be checked.\n");
            out
        },
        (Stage::Run, Event::Reply(outcome)) => {
            let found = judge(outcome, "the pod executed a command".to_owned());
            let (line, failed) = act(1, "run true", found);
            check.stage = Stage::Write;
            check.failures = check.failures + failed;
            line
        },
        (Stage::Write, Event::Reply(outcome)) => {
            let mut detail = String::new();
            push_decimal(&mut detail, check.content.as_str().as_bytes().len() as u128);
            detail.append(" bytes");
            assert(detail@ =~= decimal(encode_utf8(check.content@).len()) + " bytes"@);
            let mut what = "write ".to_owned();
            what.append(check.file.as_str());
            let found = judge(outcome, detail);
            let (line, failed) = act(2, what.as_str(), found);
            check.stage = Stage::ReadBack;
            check.failures = check.failures + failed;
            line
        },
        (Stage::ReadBack, Event::Reply(outcome)) => {
            let found = match outcome {
                Ok(reply) => Ok(compare(&reply, check.content.as_str())),
                Err(e) => Err(e),
            };
            let (line, failed) = act(3, "read it back", found);
            check.stage = Stage::Escape;
            check.failures = check.failures + failed;
            line
        },
        (Stage::Escape, Event::Reply(outcome)) => {
            let (line, failed) = judge_escape(&outcome);
            let failures: usize = check.failures + failed;
            check.stage = Stage::Over(
                if failures == 0 {
                    0
                } else {
                    1
                },
            );
            check.failures = failures;
            let mut out = line;
            let end = conclude(failures);
            out.append(end.as_str());
            out
        },
        _ => String::new(),
    }
}

/// A refusal is a policy's decision and no failure; a fault is a failure.
pub proof fn law_refusal_is_no_failure(n: nat, what: Seq<char>, why: Seq<char>)
    ensures
        acted(n, what, Err(CallErrorV::Refused(why))).1 == 0,
        acted(n, what, Err(CallErrorV::Broken(why))).1 == 1,
{
}

/// Without a transport, or without an answer from the pod, the check fails, and
/// makes no call.
pub proof fn law_no_path_is_a_failure(c: CheckV, why: Seq<char>)
    ensures
        c.stage is Transport ==> action_of(after(c, EventV::Transport(Err(why))).0)
            == ActionV::Exit(1),
        c.stage is Health ==> action_of(after(c, EventV::Health(Err(why))).0) == ActionV::Exit(1),
{
}

/// A check that reached the pod, after its four calls.
pub open spec fn walked(
    stamp: nat,
    described: Seq<char>,
    ran: Result<JsonV, CallErrorV>,
    wrote: Result<JsonV, CallErrorV>,
    back: Result<JsonV, CallErrorV>,
    probed: Result<JsonV, CallErrorV>,
) -> CheckV {
    let c = after(CheckV::fresh(stamp), EventV::Transport(Ok(described))).0;
    let c = after(c, EventV::Health(Ok(()))).0;
    let c = after(c, EventV::Reply(ran)).0;
    let c = after(c, EventV::Reply(wrote)).0;
    let c = after(c, EventV::Reply(back)).0;
    after(c, EventV::Reply(probed)).0
}

/// The check passes exactly if nothing is broken, the file reads back as it was
/// written unless reading it is refused, and the escape probe is refused.
pub proof fn law_check_passes_iff_sound(
    stamp: nat,
    described: Seq<char>,
    ran: Result<JsonV, CallErrorV>,
    wrote: Result<JsonV, CallErrorV>,
    back: Result<JsonV, CallErrorV>,
    probed: Result<JsonV, CallErrorV>,
)
    ensures
        action_of(walked(stamp, described, ran, wrote, back, probed)) == ActionV::Exit(
            if {
                &&& !(ran matches Err(CallErrorV::Broken(_)))
                &&& !(wrote matches Err(CallErrorV::Broken(_)))
                &&& match back {
                    Ok(reply) => got(reply) == file_content(stamp),
                    Err(e) => e is Refused,
                }
                &&& (probed matches Err(e) && e is Refused)
            } {
                0
            } else {
                1
            },
        ),
{
}

/// The calls that the check makes are all translated and all served: what fails
/// in them fails in the pod, or on the way there.
pub proof fn law_calls_are_prepared(c: CheckV)
    ensures
        action_of(c) matches ActionV::Call { tool, args } ==> prepared(tool, args) is Ok,
{
    if let ActionV::Call { tool, args } = action_of(c) {
        law_translated_iff_complete(tool, args);
        lemma_served_route(tool);
        reveal_strlit("run");
        reveal_strlit("read");
        reveal_strlit("write");
        reveal_strlit("file_path");
        reveal_strlit("content");
        assert("run"@.len() == 3 && "read"@.len() == 4 && "write"@.len() == 5);
        assert("file_path"@.len() == 9 && "content"@.len() == 7);
        assert(holds_texts(args, tool_requires(tool)));
        if tool == "run"@ {
            lemma_true_is_a_command();
        }
    }
}

/// `true` is a command.
proof fn lemma_true_is_a_command()
    ensures
        tokens("true"@) is Ok,
{
    reveal_strlit("true");
    let t = "true"@;
    assert(is_plain(t));
    law_plain_command_is_split_on_white_space(t);
    assert(!is_space(t[0]));
    assert(trim_start(t) == t);
}

/// A summary is short enough for its line.
pub proof fn law_summary_is_short(body: Seq<char>)
    ensures
        summary(body).len() <= SUMMARY_MAX,
{
}

/// Every result starts in the same column, whatever its act is called, as long as
/// the name fits; those of this check do.
pub proof fn law_results_line_up(n: nat, what: Seq<char>, stamp: nat)
    requires
        n < 10,
        what.len() <= COLUMN,
    ensures
        lead(n, what).len() == 6 + COLUMN,
        "run true"@.len() <= COLUMN,
        ("write "@ + file_name(stamp)).len() <= COLUMN,
        "read it back"@.len() <= COLUMN,
        ("read "@ + ESCAPE_PROBE@ + " (must be refused)"@).len() <= COLUMN,
{
    reveal_strlit("  [");
    reveal_strlit("] ");
    reveal_strlit("run true");
    reveal_strlit("write ");
    reveal_strlit("ccn-check-");
    reveal_strlit(".txt");
    reveal_strlit("read it back");
    reveal_strlit("read ");
    reveal_strlit("/etc/shadow");
    reveal_strlit(" (must be refused)");
    lemma_hex_len(stamp, 8);
}

/// Two checks whose stamps differ in their last eight hexadecimal digits write
/// different files.
pub proof fn law_files_differ(a: nat, b: nat)
    requires
        a % 0x1_0000_0000 != b % 0x1_0000_0000,
    ensures
        file_name(a) != file_name(b),
{
    lemma_hex_len(a, 8);
    lemma_hex_len(b, 8);
    if file_name(a) == file_name(b) {
        let p = "ccn-check-"@.len() as int;
        assert(hex(a, 8) =~= file_name(a).subrange(p, p + 8));
        assert(hex(b, 8) =~= file_name(b).subrange(p, p + 8));
        lemma_hex_value(a, 8);
        lemma_hex_value(b, 8);
    }
}

/// The number of digits is the width.
proof fn lemma_hex_len(n: nat, width: nat)
    ensures
        hex(n, width).len() == width,
    decreases width,
{
    if width > 0 {
        lemma_hex_len(n / 16, (width - 1) as nat);
    }
}

/// The number that a hexadecimal digit stands for.
spec fn digit_value(c: char) -> nat {
    if c as nat >= 97 {
        (c as nat - 87) as nat
    } else {
        (c as nat - 48) as nat
    }
}

/// The number that hexadecimal digits stand for.
spec fn hex_value(s: Seq<char>) -> nat
    decreases s.len(),
{
    if s.len() == 0 {
        0
    } else {
        hex_value(s.drop_last()) * 16 + digit_value(s.last())
    }
}

/// Sixteen to the power of `k`.
spec fn pow16(k: nat) -> nat
    decreases k,
{
    if k == 0 {
        1
    } else {
        16 * pow16((k - 1) as nat)
    }
}

/// The last digits of a number give back what is left of it.
proof fn lemma_hex_value(n: nat, width: nat)
    ensures
        hex_value(hex(n, width)) == n % pow16(width),
        pow16(width) > 0,
        width == 8 ==> pow16(width) == 0x1_0000_0000,
    decreases width,
{
    reveal_with_fuel(pow16, 9);
    if width > 0 {
        let w = (width - 1) as nat;
        lemma_hex_value(n / 16, w);
        assert(hex(n, width).drop_last() =~= hex(n / 16, w));
        let p = pow16(w);
        vstd::arithmetic::div_mod::lemma_breakdown(n as int, 16, p as int);
    }
}

} // verus!
