//! What the operations return is what the other laws speak of.

use vstd::prelude::*;

use crate::check::{
    act, acted, action_of, blame, blamed, call, classified, classify, compare, debug, got, mismatch,
    prepared, summarise, summarise_value, summary, summary_of, Action, CallError, CallErrorV, Check,
    CheckV,
};
use crate::discover::{
    as_base_url, base_url, cause, cause_of, cli_args, cli_reply, create_pod, created, env_or,
    find_or_create_pod, follow_up, nucleus, payload, payload_of, question, running, running_pod,
    strip_ansi, CliRun, Next, NextV, Stage,
};
use crate::hook::{
    answer, decide, decided, emit_allow, emit_deny, output, Decision, DecisionV, Event, EventV,
};
use crate::journal::{
    entries_in, entry_from, entry_in, entry_of, history, journal_path, last_lines, line_value,
    opt_bytes, overgrown, parse, path, recent, record, shown, subject, subject_of, taints, trim,
    trimmed_to, truncate, window, Entry, Outcome, OutcomeV,
};
use crate::json::{compact, Json, JsonV};
use crate::laws::commands::no_shell;
use crate::laws::rows::egress;
use crate::mediation::{
    disallowed_tools_arg, disposed, disposition, lemma_builtins, listing, mediated_tools, route_of,
    served, served_route, unknown_tool_disposition, Disposition, DispositionV, Route,
};
use crate::server::{
    call_tool, called, content, describe, described, dispatch, dispatched, err, error_reply,
    failure, initialize, initialized, observed, ok, receive, received, result_reply, schema,
    schema_for, tool_error, tool_list, tool_result, tools_list, Call, CallV, Step, StepV,
};
use crate::statusline::{is_taint, last_where, rows, short, shortened, taint_source, visible};
use crate::text::{cut_to, joined, lines_of, slices, stripped, texts};
use crate::translate::{
    expansion, proxy_body, to_proxy_body, tokenize, tokens, unbalanced, unsupported, whole_seconds,
};
use crate::transport::{
    authority, chosen, configured, interpret, name_in, non_empty, opt_text, read_reply, reply,
    split, split_base, Address, AddressV, Request, Transport, TransportError, TransportErrorV,
    TransportV,
};

verus! {

/// What a value is taken for is what it holds.
pub proof fn law_models()
    ensures
        forall|e: Entry|
            {
                let m = #[trigger] e@;
                &&& m.tool == e.tool@
                &&& m.subject == e.subject@
                &&& m.outcome == e.outcome@
                &&& m.pod == e.pod@
            },
        forall|d: String| #[trigger] Outcome::Refused(d)@ == OutcomeV::Refused(d@),
        forall|d: String| #[trigger] Outcome::Failed(d)@ == OutcomeV::Failed(d@),
        Outcome::Allowed@ == OutcomeV::Allowed,
        forall|c: Call|
            {
                let m = #[trigger] c@;
                &&& m.tool == c.tool@
                &&& m.subject == c.subject@
                &&& m.route == c.route.0@
                &&& m.body == c.body@
            },
        forall|p: String| #[trigger] Transport::Unix(p)@ == TransportV::Unix(p@),
        forall|b: String, t: Option<String>|
            (#[trigger] Transport::Http { base: b, token: t }@) == (TransportV::Http {
                base: b@,
                token: opt_text(t),
            }),
        forall|q: Request| (#[trigger] q@).0 == q.address@ && q@.1 == q.text@,
        forall|p: String| #[trigger] Address::Unix(p)@ == AddressV::Unix(p@),
        forall|h: String, p: u16|
            (#[trigger] Address::Tcp { host: h, port: p }@) == (AddressV::Tcp { host: h@, port: p }),
        forall|s: String| #[trigger] TransportError::Io(s)@ == TransportErrorV::Io(s@),
        forall|s: String| #[trigger] TransportError::Protocol(s)@ == TransportErrorV::Protocol(s@),
        forall|s: String| #[trigger] TransportError::Discovery(s)@ == TransportErrorV::Discovery(s@),
        TransportError::Unconfigured@ == TransportErrorV::Unconfigured,
        forall|n: u16, s: String|
            (#[trigger] TransportError::Status { status: n, body: s }@) == (
            TransportErrorV::Status { status: n, body: s@ }),
        forall|s: String| #[trigger] CallError::Refused(s)@ == CallErrorV::Refused(s@),
        forall|s: String| #[trigger] CallError::Broken(s)@ == CallErrorV::Broken(s@),
        forall|s: String| #[trigger] Decision::Deny(s)@ == DecisionV::Deny(s@),
        Decision::Allow@ == DecisionV::Allow,
        Event::Unreadable@ == EventV::Unreadable,
        Event::Unparsable@ == EventV::Unparsable,
        forall|s: String|
            (#[trigger] Event::Call { tool_name: s }@) == (EventV::Call { tool_name: s@ }),
        Step::Skip@ == StepV::Skip,
        forall|v: Json| #[trigger] Step::Reply(v)@ == StepV::Reply(v@),
        forall|i: Json, p: Json|
            (#[trigger] Step::Call { id: i, params: p }@) == (StepV::Call { id: i@, params: p@ }),
        forall|s: String| (#[trigger] Next::Create { note: s }@) == (NextV::Create { note: s@ }),
        forall|a: String, s: String|
            (#[trigger] Next::Use { addr: a, note: s }@) == (NextV::Use { addr: a@, note: s@ }),
        forall|s: String| #[trigger] Next::GiveUp(s)@ == NextV::GiveUp(s@),
        forall|t: &'static str, r: Route|
            (#[trigger] Disposition::Mediated { mcp_tool: t, route: r }@) == (
            DispositionV::Mediated { mcp_tool: t@, route: r.0@ }),
        forall|s: &'static str|
            (#[trigger] Disposition::Denied { reason: s }@) == (DispositionV::Denied {
                reason: s@,
            }),
{
}

/// What a list is taken for is what its members are taken for, in order.
pub proof fn law_lists(
    v: Seq<String>,
    l: Seq<&str>,
    e: Seq<Entry>,
    t: Seq<(&'static str, Route)>,
)
    ensures
        texts(v) == Seq::new(v.len(), |i: int| v[i]@),
        slices(l) == Seq::new(l.len(), |i: int| l[i]@),
        history(e) == Seq::new(e.len(), |i: int| e[i]@),
        listing(t) == Seq::new(t.len(), |i: int| (t[i].0@, t[i].1.0@)),
{
    assert(texts(v) =~= Seq::new(v.len(), |i: int| v[i]@));
    assert(slices(l) =~= Seq::new(l.len(), |i: int| l[i]@));
    assert(history(e) =~= Seq::new(e.len(), |i: int| e[i]@));
    assert(listing(t) =~= Seq::new(t.len(), |i: int| (t[i].0@, t[i].1.0@)));
}

/// Finding a pod.
pub proof fn law_finding_operations()
    ensures
        forall|v: Option<String>, d: &str, r: String| #[trigger]
            call_ensures(env_or, (v, d), r) ==> r@ == match v {
                Some(s) => s@,
                None => d@,
            },
        forall|a: &str, r: String| #[trigger]
            call_ensures(as_base_url, (a,), r) ==> r@ == base_url(a@),
        forall|a: &str, r: String| #[trigger]
            call_ensures(strip_ansi, (a,), r) ==> r@ == stripped(a@),
        forall|a: &str, r: String| #[trigger] call_ensures(cause, (a,), r) ==> r@ == cause_of(a@),
        forall|a: &Vec<String>, s: bool, o: &str, e: &str, r: Result<String, String>| #[trigger]
            call_ensures(payload_of, (a, s, o, e), r) ==> match r {
                Ok(t) => payload(texts(a@), s, o@, e@) == Ok::<Seq<char>, Seq<char>>(t@),
                Err(t) => payload(texts(a@), s, o@, e@) == Err::<Seq<char>, Seq<char>>(t@),
            },
        forall|a: &Vec<String>, run: CliRun, r: Result<Json, String>| #[trigger]
            call_ensures(nucleus, (a, run), r) ==> match r {
                Ok(v) => cli_reply(texts(a@), run) == Ok::<JsonV, Seq<char>>(v@),
                Err(e) => cli_reply(texts(a@), run) == Err::<JsonV, Seq<char>>(e@),
            },
        forall|p: &Json, n: &str, r: Result<Option<String>, String>| #[trigger]
            call_ensures(running_pod, (p, n), r) ==> match r {
                Ok(Some(a)) => running(p@, n@) == Ok::<Option<Seq<char>>, Seq<char>>(Some(a@)),
                Ok(None) => running(p@, n@) == Ok::<Option<Seq<char>>, Seq<char>>(None),
                Err(e) => running(p@, n@) == Err::<Option<Seq<char>>, Seq<char>>(e@),
            },
        forall|p: &Json, r: Result<String, String>| #[trigger]
            call_ensures(create_pod, (p,), r) ==> match r {
                Ok(a) => created(p@) == Ok::<Seq<char>, Seq<char>>(a@),
                Err(e) => created(p@) == Err::<Seq<char>, Seq<char>>(e@),
            },
        forall|s: Stage, f: &str, r: Vec<String>| #[trigger]
            call_ensures(cli_args, (s, f), r) ==> texts(r@) == question(s, f@),
        forall|s: Stage, n: &str, f: &str, v: Json, r: Next| #[trigger]
            call_ensures(find_or_create_pod, (s, n, f, Ok::<Json, String>(v)), r) ==> r@
                == follow_up(s, n@, f@, Ok(v@)),
        forall|s: Stage, n: &str, f: &str, e: String, r: Next| #[trigger]
            call_ensures(find_or_create_pod, (s, n, f, Err::<Json, String>(e)), r) ==> r@
                == follow_up(s, n@, f@, Err(e@)),
{
}

/// Deciding about calls.
pub proof fn law_deciding_operations()
    ensures
        forall|e: &Event, r: Decision| #[trigger]
            call_ensures(decide, (e,), r) ==> r@ == decided(e@),
        forall|r: Json| #[trigger]
            call_ensures(emit_allow, (), r) ==> r@ == output(DecisionV::Allow),
        forall|s: &str, r: Json| #[trigger]
            call_ensures(emit_deny, (s,), r) ==> r@ == output(DecisionV::Deny(s@)),
        forall|e: &Event, r: String| #[trigger]
            call_ensures(answer, (e,), r) ==> r@ == compact(output(decided(e@))),
        forall|n: &str, r: Disposition| #[trigger]
            call_ensures(disposition, (n,), r) ==> r@ == disposed(n@),
        forall|n: &str, r: Disposition| #[trigger]
            call_ensures(unknown_tool_disposition, (n,), r) ==> r@ == (DispositionV::Denied {
                reason: "unknown tool: this bridge mediates a closed set and refuses anything outside it"@,
            }),
        forall|r: Vec<(&'static str, Route)>| #[trigger]
            call_ensures(mediated_tools, (), r) ==> listing(r@) == served(),
        forall|n: &str, r: Option<Route>| #[trigger]
            call_ensures(route_of, (n,), r) ==> match r {
                Some(route) => served_route(n@) == Some(route@),
                None => served_route(n@) is None,
            },
        forall|r: String| #[trigger]
            call_ensures(disallowed_tools_arg, (), r) ==> r@ == joined(
                seq![
                    "Bash"@,
                    "Read"@,
                    "Write"@,
                    "Edit"@,
                    "Glob"@,
                    "Grep"@,
                    "WebFetch"@,
                    "WebSearch"@,
                    "NotebookEdit"@,
                    "Agent"@,
                    "Task"@,
                    "TodoWrite"@,
                    "BashOutput"@,
                    "KillShell"@,
                ],
                ","@,
            ),
{
    lemma_builtins();
}

/// Serving.
pub proof fn law_serving_operations()
    ensures
        forall|v: &str, r: Json| #[trigger]
            call_ensures(initialize, (v,), r) ==> r@ == initialized(v@),
        forall|n: &str, p: &str, r: String| #[trigger]
            call_ensures(describe, (n, p), r) ==> r@ == described(n@, p@),
        forall|n: &str, r: Json| #[trigger]
            call_ensures(schema_for, (n,), r) ==> r@ == schema(n@),
        forall|r: Json| #[trigger] call_ensures(tools_list, (), r) ==> r@ == tool_list(),
        forall|s: &str, r: Json| #[trigger]
            call_ensures(tool_result, (s,), r) ==> r@ == content(s@, false),
        forall|s: &str, r: Json| #[trigger] call_ensures(tool_error, (s,), r) ==> r@ == failure(s@),
        forall|i: Json, v: Json, r: Json| #[trigger]
            call_ensures(ok, (i, v), r) ==> r@ == result_reply(i@, v@),
        forall|i: Json, c: i64, m: &str, r: Json| #[trigger]
            call_ensures(err, (i, c, m), r) ==> r@ == error_reply(i@, c, m@),
        forall|q: &Json, v: &str, r: Step| #[trigger]
            call_ensures(dispatch, (q, v), r) ==> r@ == dispatched(q@, v@),
        forall|l: &str, v: &str, r: Step| #[trigger]
            call_ensures(receive, (l, v), r) ==> r@ == received(l@, v@),
        forall|p: &Json, r: Result<Call, String>| #[trigger]
            call_ensures(call_tool, (p,), r) ==> match r {
                Ok(c) => called(p@) matches Ok(m) && m.tool == c.tool@ && m.subject == c.subject@
                    && m.route == c.route@ && m.body == c.body@,
                Err(e) => called(p@) == Err::<CallV, Seq<char>>(e@),
            },
        forall|c: &Call, p: &str, v: Json, r: Entry| #[trigger]
            call_ensures(Call::observe, (c, p, &Ok::<Json, TransportError>(v)), r) ==> r@
                == observed(c@, p@, Ok(v@)),
        forall|c: &Call, p: &str, e: TransportError, r: Entry| #[trigger]
            call_ensures(Call::observe, (c, p, &Err::<Json, TransportError>(e)), r) ==> r@
                == observed(c@, p@, Err(e@)),
        forall|w: &str, i: &str, r: String| #[trigger]
            call_ensures(unsupported, (w, i), r) ==> r@ == no_shell(w@, i@),
        forall|c: char, r: String| #[trigger]
            call_ensures(expansion, (c,), r) ==> r@ == no_shell(
                "shell expansion (`"@ + seq![c] + "`)"@,
                "substitute the value yourself, or quote the character with a backslash to pass it through literally"@,
            ),
        forall|c: char, r: String| #[trigger]
            call_ensures(unbalanced, (c,), r) ==> r@ == "the command has an unbalanced "@ + seq![c]
                + " quote"@,
        forall|c: &str, r: Result<Vec<String>, String>| #[trigger]
            call_ensures(tokenize, (c,), r) ==> match r {
                Ok(w) => tokens(c@) == Ok::<Seq<Seq<char>>, Seq<char>>(texts(w@)),
                Err(e) => tokens(c@) == Err::<Seq<Seq<char>>, Seq<char>>(e@),
            },
        forall|t: &str, a: &Json, r: Result<Json, String>| #[trigger]
            call_ensures(to_proxy_body, (t, a), r) ==> match r {
                Ok(b) => proxy_body(t@, a@) == Ok::<JsonV, Seq<char>>(b@),
                Err(e) => proxy_body(t@, a@) == Err::<JsonV, Seq<char>>(e@),
            },
        forall|ms: u64, s: u64| #[trigger]
            call_ensures(whole_seconds, (ms,), s) ==> s >= 1 && s * 1000 >= ms && (s > 1 ==> (s - 1)
                * 1000 < ms),
{
    assert forall|c: char| #![auto] "shell expansion (`"@.push(c) == "shell expansion (`"@ + seq![c] by {
        assert("shell expansion (`"@.push(c) =~= "shell expansion (`"@ + seq![c]);
    }
    assert forall|c: char| #![auto] "the command has an unbalanced "@.push(c)
        == "the command has an unbalanced "@ + seq![c] by {
        assert("the command has an unbalanced "@.push(c) =~= "the command has an unbalanced "@
            + seq![c]);
    }
}

/// Reaching the pod.
pub proof fn law_reaching_operations()
    ensures
        forall|e: &TransportError, r: String| #[trigger]
            call_ensures(TransportError::message, (e,), r) ==> r@ == e@.said(),
        forall|v: String, r: Option<String>| #[trigger]
            call_ensures(non_empty, (Some(v),), r) ==> (match r {
                Some(s) => configured(Some(v@)) == Some(s@),
                None => configured(Some(v@)) is None,
            }),
        forall|r: Option<String>| #[trigger]
            call_ensures(non_empty, (None::<String>,), r) ==> r is None,
        forall|
            s: Option<String>,
            u: Option<String>,
            t: Option<String>,
            r: Result<Transport, TransportError>,
        | #[trigger]
            call_ensures(Transport::from_env, (s, u, t), r) ==> match r {
                Ok(n) => chosen(opt_text(s), opt_text(u), opt_text(t)) == Ok::<
                    TransportV,
                    TransportErrorV,
                >(n@),
                Err(e) => chosen(opt_text(s), opt_text(u), opt_text(t)) == Err::<
                    TransportV,
                    TransportErrorV,
                >(e@),
            },
        forall|b: String, t: Option<String>, r: Result<Transport, TransportError>| #[trigger]
            call_ensures(Transport::from_discovery, (Ok::<String, String>(b), t), r) ==> (r matches Ok(n)
                && n@ == (TransportV::Http { base: b@, token: configured(opt_text(t)) })),
        forall|w: String, t: Option<String>, r: Result<Transport, TransportError>| #[trigger]
            call_ensures(Transport::from_discovery, (Err::<String, String>(w), t), r) ==> (r matches Err(e)
                && e@ == TransportErrorV::Discovery(w@)),
        forall|n: &Transport, t: Option<String>, r: Transport| #[trigger]
            call_ensures(Transport::with_token, (n, t), r) ==> r@ == match n@ {
                TransportV::Unix(p) => TransportV::Unix(p),
                TransportV::Http { base, .. } => TransportV::Http {
                    base,
                    token: configured(opt_text(t)),
                },
            },
        forall|n: &Transport, r: String| #[trigger]
            call_ensures(Transport::label, (n,), r) ==> r@ == match n@ {
                TransportV::Unix(p) => match name_in(p) {
                    Some(name) => name,
                    None => p,
                },
                TransportV::Http { base, .. } => authority(base),
            },
        forall|n: &Transport, r: String| #[trigger]
            call_ensures(Transport::describe, (n,), r) ==> r@ == match n@ {
                TransportV::Unix(p) => "unix socket "@ + p,
                TransportV::Http { base, token: Some(_) } => base + " (bearer token)"@,
                TransportV::Http { base, token: None } => base
                    + " (no token — the node signs this hop)"@,
            },
        forall|b: &str, r: Result<(String, u16, String), TransportError>| #[trigger]
            call_ensures(split_base, (b,), r) ==> match r {
                Ok((h, p, x)) => split(b@) == Ok::<(Seq<char>, u16, Seq<char>), TransportErrorV>(
                    (h@, p, x@),
                ),
                Err(e) => split(b@) == Err::<(Seq<char>, u16, Seq<char>), TransportErrorV>(e@),
            },
        forall|b: &[u8], r: Result<Json, TransportError>| #[trigger]
            call_ensures(read_reply, (b,), r) ==> match r {
                Ok(v) => reply(b@) == Ok::<JsonV, TransportErrorV>(v@),
                Err(e) => reply(b@) == Err::<JsonV, TransportErrorV>(e@),
            },
        forall|h: &str, b: &str, v: Json, r: Result<Json, TransportError>| #[trigger]
            call_ensures(interpret, (h, b, Some(Ok::<Json, String>(v))), r) ==> match r {
                Ok(j) => crate::transport::answer(h@, b@, Some(Ok(v@))) == Ok::<
                    JsonV,
                    TransportErrorV,
                >(j@),
                Err(e) => crate::transport::answer(h@, b@, Some(Ok(v@))) == Err::<
                    JsonV,
                    TransportErrorV,
                >(e@),
            },
        forall|h: &str, b: &str, w: String, r: Result<Json, TransportError>| #[trigger]
            call_ensures(interpret, (h, b, Some(Err::<Json, String>(w))), r) ==> match r {
                Ok(j) => crate::transport::answer(h@, b@, Some(Err(w@))) == Ok::<
                    JsonV,
                    TransportErrorV,
                >(j@),
                Err(e) => crate::transport::answer(h@, b@, Some(Err(w@))) == Err::<
                    JsonV,
                    TransportErrorV,
                >(e@),
            },
        forall|h: &str, b: &str, r: Result<Json, TransportError>| #[trigger]
            call_ensures(interpret, (h, b, None::<Result<Json, String>>), r) ==> match r {
                Ok(j) => crate::transport::answer(h@, b@, None) == Ok::<JsonV, TransportErrorV>(j@),
                Err(e) => crate::transport::answer(h@, b@, None) == Err::<JsonV, TransportErrorV>(
                    e@,
                ),
            },
        opt_text(None) is None,
        forall|s: String| #[trigger] opt_text(Some(s)) == Some(s@),
{
}

/// Writing down what was seen, and showing it.
pub proof fn law_recording_operations()
    ensures
        forall|o: &Outcome, r: &'static str| #[trigger]
            call_ensures(Outcome::tag, (o,), r) ==> r@ == match o {
                Outcome::Allowed => "allow"@,
                Outcome::Refused(_) => "refuse"@,
                Outcome::Failed(_) => "fail"@,
            },
        forall|o: &Outcome, r: Option<&str>| #[trigger]
            call_ensures(Outcome::detail, (o,), r) ==> match (o, r) {
                (Outcome::Allowed, None) => true,
                (Outcome::Refused(d), Some(s)) => s@ == d@,
                (Outcome::Failed(d), Some(s)) => s@ == d@,
                _ => false,
            },
        forall|s: &str, n: usize, r: String| #[trigger]
            call_ensures(truncate, (s, n), r) ==> r@ == cut_to(s@, n as nat),
        forall|t: u64, e: &Entry, r: String| #[trigger]
            call_ensures(record, (t, e), r) ==> r@ == compact(line_value(t, e@)),
        forall|n: u64, r: bool| #[trigger] call_ensures(overgrown, (n,), r) ==> r == (n > 262144),
        forall|e: &Entry, r: bool| #[trigger]
            call_ensures(Entry::taints, (e,), r) ==> r == egress(e@),
        forall|s: &str, r: String| #[trigger] call_ensures(trim, (s,), r) ==> r@ == trimmed_to(s@),
        forall|s: &str, n: usize, r: Vec<Entry>| #[trigger]
            call_ensures(recent, (s, n), r) ==> history(r@) == entries_in(
                last_lines(lines_of(s@), n as nat),
            ),
        forall|s: &str, n: usize, r: Vec<Entry>| #[trigger]
            call_ensures(shown, (s, n), r) ==> history(r@) == entries_in(
                window(lines_of(s@), n as nat),
            ),
        forall|v: &Json, r: Option<Entry>| #[trigger]
            call_ensures(entry_of, (v,), r) ==> match r {
                Some(e) => entry_from(v@) == Some(e@),
                None => entry_from(v@) is None,
            },
        forall|s: &str, r: Option<Entry>| #[trigger]
            call_ensures(parse, (s,), r) ==> match r {
                Some(e) => entry_in(s@) == Some(e@),
                None => entry_in(s@) is None,
            },
        forall|a: Option<Vec<u8>>, b: Option<Vec<u8>>, c: Option<Vec<u8>>, r: Option<Vec<u8>>|
         #[trigger]
            call_ensures(path, (a, b, c), r) ==> opt_bytes(r) == journal_path(
                opt_bytes(a),
                opt_bytes(b),
                opt_bytes(c),
            ),
        forall|t: &str, a: &Json, r: String| #[trigger]
            call_ensures(subject_of, (t, a), r) ==> r@ == subject(t@, a@),
        forall|s: &str, n: usize, r: String| #[trigger]
            call_ensures(short, (s, n), r) ==> r@ == shortened(s@, n as nat),
        forall|s: &str, r: usize| #[trigger]
            call_ensures(visible, (s,), r) ==> r == stripped(s@).len(),
        forall|e: &[Entry], r: Option<&Entry>| #[trigger]
            call_ensures(taint_source, (e,), r) ==> match r {
                Some(x) => last_where(history(e@), is_taint()) == Some(x@),
                None => last_where(history(e@), is_taint()) is None,
            },
        forall|s: &str, c: bool, r: Vec<String>| #[trigger]
            call_ensures(crate::statusline::run, (s, c), r) ==> texts(r@) == rows(
                entries_in(window(lines_of(s@), 200)),
                c,
            ),
        opt_bytes(None) is None,
        forall|v: Vec<u8>| #[trigger] opt_bytes(Some(v)) == Some(v@),
{
}

/// Checking the path.
pub proof fn law_checking_operations()
    ensures
        forall|b: &str, r: String| #[trigger] call_ensures(summarise, (b,), r) ==> r@ == summary(b@),
        forall|v: &Json, b: &str, r: String| #[trigger]
            call_ensures(summarise_value, (Some(v), b), r) ==> r@ == summary_of(Some(v@), b@),
        forall|b: &str, r: String| #[trigger]
            call_ensures(summarise_value, (None::<&Json>, b), r) ==> r@ == summary_of(None, b@),
        forall|p: Route, e: &TransportError, w: &str, r: CallError| #[trigger]
            call_ensures(classify, (p, e, w), r) ==> r@ == classified(p@, e@, w@),
        forall|p: Route, e: &TransportError, r: CallError| #[trigger]
            call_ensures(blame, (p, e), r) ==> r@ == blamed(p@, e@),
        forall|t: &str, a: &Json, r: Result<(Route, Json), CallError>| #[trigger]
            call_ensures(call, (t, a), r) ==> match r {
                Ok((p, b)) => prepared(t@, a@) == Ok::<(Seq<char>, JsonV), CallErrorV>((p@, b@)),
                Err(e) => prepared(t@, a@) == Err::<(Seq<char>, JsonV), CallErrorV>(e@),
            },
        forall|
            n: usize,
            w: &str,
            o: Result<Result<String, String>, CallError>,
            r: (String, usize),
        | #[trigger]
            call_ensures(act, (n, w, o), r) ==> {
                let m = acted(
                    n as nat,
                    w@,
                    match o {
                        Ok(Ok(d)) => Ok(Ok(d@)),
                        Ok(Err(d)) => Ok(Err(d@)),
                        Err(e) => Err(e@),
                    },
                );
                r.0@ == m.0 && r.1 == m.1
            },
        forall|s: &str, r: String| #[trigger]
            call_ensures(mismatch, (s,), r) ==> r@ == "the pod returned "@ + s@
                + ", not what was written"@,
        forall|v: &Json, c: &str, r: Result<String, String>| #[trigger]
            call_ensures(compare, (v, c), r) ==> (r is Ok <==> got(v@) == c@) && (r matches Ok(s)
                ==> s@ == "identical"@) && (r matches Err(s) ==> s@ == "the pod returned "@ + debug(
                got(v@),
            ) + ", not what was written"@),
        forall|s: u128, r: Check| #[trigger]
            call_ensures(Check::new, (s,), r) ==> r@ == CheckV::fresh(s as nat),
        forall|c: &Check, r: Action| #[trigger]
            call_ensures(Check::pending, (c,), r) ==> r@ == action_of(c@),
{
}

} // verus!
