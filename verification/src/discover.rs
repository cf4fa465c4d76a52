//! Finding the pod, when nobody said where it is.
//!
//! The address of a pod is a port that its node chose when the pod was created,
//! so nothing can hard-code it. The node's command-line tool already holds the
//! credentials to ask: it is asked for a running pod, and to create one if there
//! is none. Running the tool is the caller's; this module says what to run, and
//! reads what came of it. Nothing here decides a policy. It learns an address.

use vstd::prelude::*;
use vstd::string::*;

use crate::json::{compact, items, lemma_items, parsed, Json, JsonV};
use crate::text::{
    after_escape, after_final, begins, chars, decimal, is_space, join, joined,
    lemma_after_final, lemma_decimal, lemma_lines, lemma_trim_start, lines, lines_of, lossy,
    same, starts_with, strip, stripped, text, texts, trim, trim_end, trim_end_matches,
    trim_start, trim_start_matches, trimmed, utf8_lossy, without_prefixes, without_trailing,
};
use crate::transport::{law_base_url_splits, opt_text, split, TransportErrorV};

verus! {

/// What to create a pod from when none is running.
pub const DEFAULT_POD_SPEC: &'static str = "pod.yaml";

/// The value of a variable, or its default. The pod to look for and the file to
/// create one from are settled so.
pub fn env_or(value: Option<String>, default: &str) -> (r: String)
    ensures
        r@ == match opt_text(value) {
            Some(v) => v,
            None => default@,
        },
{
    match value {
        Some(v) => v,
        None => default.to_owned(),
    }
}

/// An address as the base of URLs.
pub open spec fn base_url(addr: Seq<char>) -> Seq<char> {
    if begins(addr, "http://"@) || begins(addr, "https://"@) {
        without_trailing(addr, '/')
    } else {
        "http://"@ + without_trailing(addr, '/')
    }
}

/// Makes a base URL of what the node reports, which is a host and a port.
pub fn as_base_url(addr: &str) -> (r: String)
    ensures
        r@ == base_url(addr@),
{
    let c = chars(addr);
    let http = chars("http://");
    let https = chars("https://");
    let rest = text(trim_end_matches(c.as_slice(), '/'));
    if starts_with(c.as_slice(), http.as_slice()) || starts_with(c.as_slice(), https.as_slice()) {
        rest
    } else {
        let mut out = "http://".to_owned();
        out.append(rest.as_str());
        out
    }
}

/// Removes the escape sequences of a line.
pub fn strip_ansi(line: &str) -> (r: String)
    ensures
        r@ == stripped(line@),
{
    let c = chars(line);
    text(strip(c.as_slice()).as_slice())
}

/// The lines that say something: without escape sequences and white space at
/// their ends, and not empty.
pub open spec fn said(l: Seq<Seq<char>>) -> Seq<Seq<char>>
    decreases l.len(),
{
    if l.len() == 0 {
        seq![]
    } else {
        let line = trimmed(stripped(l.last()));
        if line.len() == 0 {
            said(l.drop_last())
        } else {
            said(l.drop_last()).push(line)
        }
    }
}

/// The first line that begins with `p`, if there is one.
pub open spec fn first_with(l: Seq<Seq<char>>, p: Seq<char>) -> Option<Seq<char>>
    decreases l.len(),
{
    if l.len() == 0 {
        None
    } else if begins(l[0], p) {
        Some(l[0])
    } else {
        first_with(l.drop_first(), p)
    }
}

/// The line of an error output that says what went wrong: the first that is
/// marked as an error, or else the last that says anything, without the mark.
pub open spec fn cause_of(stderr: Seq<char>) -> Seq<char> {
    let l = said(lines_of(stderr));
    if l.len() == 0 {
        "no output"@
    } else {
        let line = match first_with(l, "Error:"@) {
            Some(e) => e,
            None => l.last(),
        };
        trimmed(without_prefixes(line, "Error:"@))
    }
}

/// The one line of the tool's error output that says what went wrong.
///
/// The tool writes coloured log lines alongside its error, and reproducing all
/// of them would bury the answer.
pub fn cause(stderr: &str) -> (r: String)
    ensures
        r@ == cause_of(stderr@),
{
    let all = lines(stderr);
    let ghost a = texts(all@);
    let mut clean: Vec<Vec<char>> = Vec::new();
    let mut i: usize = 0;
    assert(lists(clean@) =~= said(a.take(0)));
    while i < all.len()
        invariant
            i <= all@.len(),
            a == texts(all@),
            lists(clean@) == said(a.take(i as int)),
        decreases all@.len() - i,
    {
        let ghost before = clean@;
        assert(a.take(i + 1).drop_last() == a.take(i as int));
        assert(a.take(i + 1).last() == all@[i as int]@);
        let plain = chars(strip_ansi(all[i].as_str()).as_str());
        let line = trim(plain.as_slice());
        if line.len() > 0 {
            let kept = chars(text(line).as_str());
            clean.push(kept);
            assert(lists(clean@) =~= lists(before).push(line@));
        }
        i += 1;
    }
    assert(a.take(i as int) == a);
    let ghost l = lists(clean@);
    if clean.len() == 0 {
        return "no output".to_owned();
    }
    let mark = chars("Error:");
    let mut k: usize = 0;
    assert(l.skip(0) == l);
    while k < clean.len() && !starts_with(clean[k].as_slice(), mark.as_slice())
        invariant
            k <= clean@.len(),
            l == lists(clean@),
            mark@ == "Error:"@,
            first_with(l, mark@) == first_with(l.skip(k as int), mark@),
        decreases clean@.len() - k,
    {
        assert(l.skip(k as int)[0] == clean@[k as int]@);
        assert(l.skip(k as int).drop_first() == l.skip(k + 1));
        k += 1;
    }
    let n: usize = if k < clean.len() {
        k
    } else {
        clean.len() - 1
    };
    proof {
        if k < clean@.len() {
            assert(l.skip(k as int)[0] == clean@[k as int]@);
        }
        assert(l.last() == clean@[clean@.len() - 1]@);
    }
    text(trim(trim_start_matches(clean[n].as_slice(), mark.as_slice())))
}

/// The texts of a list of character lists.
pub open spec fn lists(v: Seq<Vec<char>>) -> Seq<Seq<char>> {
    v.map_values(|c: Vec<char>| c@)
}

/// What came of running the node's tool.
#[derive(Debug)]
pub enum CliRun {
    /// It could not be run; what the system says.
    NotRun(String),
    /// It ran.
    Ran {
        /// Whether it reported success.
        success: bool,
        /// What it printed.
        stdout: Vec<u8>,
        /// What it printed as errors.
        stderr: Vec<u8>,
    },
}

/// Where the JSON in an output begins: at its first brace or bracket, or at the
/// end where it has none.
pub open spec fn json_start(s: Seq<char>) -> nat
    decreases s.len(),
{
    if s.len() == 0 || s[0] == '{' || s[0] == '[' {
        0
    } else {
        1 + json_start(s.drop_first())
    }
}

/// A command of the tool, as it is quoted in messages.
pub open spec fn command(args: Seq<Seq<char>>) -> Seq<char> {
    "`nucleus "@ + joined(args, " "@) + "`"@
}

/// What is said where the tool could not be run.
pub open spec fn not_run(args: Seq<Seq<char>>, why: Seq<char>) -> Seq<char> {
    "could not run "@ + command(args) + ": "@ + why
        + ". Set NUCLEUS_PROXY_URL to a pod's proxy address to skip pod discovery entirely."@
}

/// The JSON text in what the tool printed, or why there is none.
pub open spec fn payload(
    args: Seq<Seq<char>>,
    success: bool,
    stdout: Seq<char>,
    stderr: Seq<char>,
) -> Result<Seq<char>, Seq<char>> {
    if !success {
        Err(command(args) + " failed: "@ + cause_of(stderr))
    } else if json_start(stdout) >= stdout.len() {
        Err(command(args) + " printed no JSON"@)
    } else {
        Ok(stdout.skip(json_start(stdout) as int))
    }
}

/// What the tool replied, or why it did not.
pub open spec fn cli_reply(args: Seq<Seq<char>>, run: CliRun) -> Result<JsonV, Seq<char>> {
    match run {
        CliRun::NotRun(why) => Err(not_run(args, why@)),
        CliRun::Ran { success, stdout, stderr } => match payload(
            args,
            success,
            lossy(stdout@),
            lossy(stderr@),
        ) {
            Ok(json) => match parsed(json) {
                Ok(v) => Ok(v),
                Err(e) => Err("could not parse "@ + command(args) + " output: "@ + e),
            },
            Err(e) => Err(e),
        },
    }
}

/// A command of the tool, as it is quoted in messages.
fn quote_command(args: &Vec<String>) -> (r: String)
    ensures
        r@ == command(texts(args@)),
{
    let mut out = "`nucleus ".to_owned();
    let words = join(args.as_slice(), " ");
    out.append(words.as_str());
    out.append("`");
    out
}

/// The JSON text in what the tool printed.
///
/// Its log lines can share the output with the payload, so the JSON is found
/// rather than assumed: it starts at the first brace or bracket and runs to the
/// end.
pub fn payload_of(args: &Vec<String>, success: bool, stdout: &str, stderr: &str) -> (r: Result<
    String,
    String,
>)
    ensures
        match r {
            Ok(json) => payload(texts(args@), success, stdout@, stderr@) == Ok::<
                Seq<char>,
                Seq<char>,
            >(json@),
            Err(e) => payload(texts(args@), success, stdout@, stderr@) == Err::<
                Seq<char>,
                Seq<char>,
            >(e@),
        },
{
    if !success {
        let mut e = quote_command(args);
        e.append(" failed: ");
        let why = cause(stderr);
        e.append(why.as_str());
        return Err(e);
    }
    let c = chars(stdout);
    let mut i: usize = 0;
    assert(c@.skip(0) == c@);
    while i < c.len() && c[i] != '{' && c[i] != '['
        invariant
            i <= c@.len(),
            json_start(c@) == i + json_start(c@.skip(i as int)),
        decreases c@.len() - i,
    {
        assert(c@.skip(i as int).drop_first() == c@.skip(i + 1));
        i += 1;
    }
    assert(json_start(c@.skip(i as int)) == 0);
    if i == c.len() {
        let mut e = quote_command(args);
        e.append(" printed no JSON");
        return Err(e);
    }
    let json = text(vstd::slice::slice_subrange(c.as_slice(), i, c.len()));
    assert(json@ == c@.skip(i as int));
    Ok(json)
}

/// Reads what came of running the tool with these arguments.
pub fn nucleus(args: &Vec<String>, run: CliRun) -> (r: Result<Json, String>)
    ensures
        match r {
            Ok(v) => cli_reply(texts(args@), run) == Ok::<JsonV, Seq<char>>(v@),
            Err(e) => cli_reply(texts(args@), run) == Err::<JsonV, Seq<char>>(e@),
        },
{
    match run {
        CliRun::NotRun(why) => {
            let mut e = "could not run ".to_owned();
            let quoted = quote_command(args);
            e.append(quoted.as_str());
            e.append(": ");
            e.append(why.as_str());
            e.append(
                ". Set NUCLEUS_PROXY_URL to a pod's proxy address to skip pod discovery entirely.",
            );
            Err(e)
        },
        CliRun::Ran { success, stdout, stderr } => {
            let out = utf8_lossy(stdout.as_slice());
            let err = utf8_lossy(stderr.as_slice());
            let json = payload_of(args, success, out.as_str(), err.as_str())?;
            match Json::parse(json.as_str()) {
                Ok(v) => Ok(v),
                Err(why) => {
                    let mut e = "could not parse ".to_owned();
                    let quoted = quote_command(args);
                    e.append(quoted.as_str());
                    e.append(" output: ");
                    e.append(why.as_str());
                    Err(e)
                },
            }
        },
    }
}

/// Whether a pod in the node's list has this name and is running. A pod that has
/// exited is still listed, with an address that no longer serves.
pub open spec fn is_running(pod: JsonV, name: Seq<char>) -> bool {
    pod.text_at("name"@) == Some(name) && pod.text_at("state"@) == Some("running"@)
}

/// The first running pod of this name, if there is one.
pub open spec fn first_running(pods: Seq<JsonV>, name: Seq<char>) -> Option<JsonV>
    decreases pods.len(),
{
    if pods.len() == 0 {
        None
    } else if is_running(pods[0], name) {
        Some(pods[0])
    } else {
        first_running(pods.drop_first(), name)
    }
}

/// The address of a running pod of this name in the node's reply.
pub open spec fn running(pods: JsonV, name: Seq<char>) -> Result<Option<Seq<char>>, Seq<char>> {
    match pods {
        JsonV::Array(list) => Ok(
            match first_running(list, name) {
                Some(pod) => match pod.text_at("proxy_addr"@) {
                    Some(addr) => Some(base_url(addr)),
                    None => None,
                },
                None => None,
            },
        ),
        _ => Err("`nucleus node pods` did not return a list"@),
    }
}

/// The address of a running pod of this name, if there is one.
pub fn running_pod(pods: &Json, name: &str) -> (r: Result<Option<String>, String>)
    ensures
        match r {
            Ok(addr) => running(pods@, name@) == Ok::<Option<Seq<char>>, Seq<char>>(opt_text(addr)),
            Err(e) => running(pods@, name@) == Err::<Option<Seq<char>>, Seq<char>>(e@),
        },
{
    match pods.as_array() {
        None => Err("`nucleus node pods` did not return a list".to_owned()),
        Some(list) => {
            let ghost l = items(list@);
            proof {
                lemma_items(list@);
            }
            let mut i: usize = 0;
            assert(l.skip(0) == l);
            while i < list.len()
                invariant
                    i <= list@.len(),
                    l == items(list@),
                    l.len() == list@.len(),
                    forall|k: int| 0 <= k < list@.len() ==> #[trigger] l[k] == list@[k]@,
                    pods@ == JsonV::Array(l),
                    first_running(l, name@) == first_running(l.skip(i as int), name@),
                decreases list@.len() - i,
            {
                assert(l.skip(i as int)[0] == l[i as int]);
                assert(l.skip(i as int).drop_first() == l.skip(i + 1));
                let pod = &list[i];
                let named = match pod.str_at("name") {
                    Some(n) => same(n, name),
                    None => false,
                };
                let up = match pod.str_at("state") {
                    Some(s) => same(s, "running"),
                    None => false,
                };
                if named && up {
                    return Ok(
                        match pod.str_at("proxy_addr") {
                            Some(addr) => Some(as_base_url(addr)),
                            None => None,
                        },
                    );
                }
                i += 1;
            }
            Ok(None)
        },
    }
}

/// The address in the node's reply to a creation, or what is said where there is
/// none.
pub open spec fn created(reply: JsonV) -> Result<Seq<char>, Seq<char>> {
    match reply.text_at("proxy_addr"@) {
        Some(addr) => Ok(base_url(addr)),
        None => Err(
            "the node created a pod but reported no proxy_addr, so there is nothing to talk to. Its reply: "@
                + compact(reply),
        ),
    }
}

/// The address of a pod that was created.
pub fn create_pod(reply: &Json) -> (r: Result<String, String>)
    ensures
        match r {
            Ok(addr) => created(reply@) == Ok::<Seq<char>, Seq<char>>(addr@),
            Err(e) => created(reply@) == Err::<Seq<char>, Seq<char>>(e@),
        },
{
    match reply.str_at("proxy_addr") {
        Some(addr) => Ok(as_base_url(addr)),
        None => {
            let mut e =
                "the node created a pod but reported no proxy_addr, so there is nothing to talk to. Its reply: ".to_owned();
            let shown = reply.to_text();
            e.append(shown.as_str());
            Err(e)
        },
    }
}

/// What the tool was last asked for.
#[derive(Debug, Clone, Copy, PartialEq, Eq)]
pub enum Stage {
    /// The pods of the node.
    Listing,
    /// A new pod.
    Creating,
}

/// What to do next.
#[derive(Debug)]
pub enum Next {
    /// Ask for a new pod.
    Create {
        /// What to announce.
        note: String,
    },
    /// Use the pod at this address.
    Use {
        /// The base of its URLs.
        addr: String,
        /// What to announce.
        note: String,
    },
    /// Give up, for this reason.
    GiveUp(String),
}

/// The model of what to do next.
pub ghost enum NextV {
    /// Ask for a new pod.
    Create { note: Seq<char> },
    /// Use a pod.
    Use { addr: Seq<char>, note: Seq<char> },
    /// Give up.
    GiveUp(Seq<char>),
}

impl View for Next {
    type V = NextV;

    open spec fn view(&self) -> NextV {
        match self {
            Next::Create { note } => NextV::Create { note: note@ },
            Next::Use { addr, note } => NextV::Use { addr: addr@, note: note@ },
            Next::GiveUp(why) => NextV::GiveUp(why@),
        }
    }
}

/// What to ask the tool for.
pub open spec fn question(stage: Stage, spec_file: Seq<char>) -> Seq<Seq<char>> {
    match stage {
        Stage::Listing => seq!["node"@, "pods"@],
        Stage::Creating => seq!["node"@, "create"@, spec_file],
    }
}

/// The arguments to run the tool with.
pub fn cli_args(stage: Stage, spec_file: &str) -> (r: Vec<String>)
    ensures
        texts(r@) == question(stage, spec_file@),
{
    let mut out: Vec<String> = Vec::new();
    out.push("node".to_owned());
    match stage {
        Stage::Listing => {
            out.push("pods".to_owned());
        },
        Stage::Creating => {
            out.push("create".to_owned());
            out.push(spec_file.to_owned());
        },
    }
    assert(texts(out@) =~= question(stage, spec_file@));
    out
}

/// What follows from the tool's reply at a stage.
pub open spec fn follow_up(
    stage: Stage,
    name: Seq<char>,
    spec_file: Seq<char>,
    reply: Result<JsonV, Seq<char>>,
) -> NextV {
    match (stage, reply) {
        (_, Err(e)) => NextV::GiveUp(e),
        (Stage::Listing, Ok(pods)) => match running(pods, name) {
            Err(e) => NextV::GiveUp(e),
            Ok(Some(addr)) => NextV::Use { addr, note: "reusing pod `"@ + name + "` at "@ + addr },
            Ok(None) => NextV::Create {
                note: "no running pod named `"@ + name + "`; creating one from "@ + spec_file,
            },
        },
        (Stage::Creating, Ok(reply)) => match created(reply) {
            Err(e) => NextV::GiveUp(e),
            Ok(addr) => NextV::Use { addr, note: "created pod at "@ + addr },
        },
    }
}

/// Finds a running pod, and asks for one to be created if there is none: what to
/// do after the tool's reply to the question of a stage.
///
/// The search starts with [`Stage::Listing`]. Where the answer is
/// [`Next::Create`], the tool is asked at [`Stage::Creating`], and its reply comes
/// back here. Every step has something to announce: a bridge that silently boots
/// a microVM would be worse than one that cannot find a pod.
pub fn find_or_create_pod(
    stage: Stage,
    name: &str,
    spec_file: &str,
    reply: Result<Json, String>,
) -> (r: Next)
    ensures
        r@ == follow_up(
            stage,
            name@,
            spec_file@,
            match reply {
                Ok(v) => Ok(v@),
                Err(e) => Err(e@),
            },
        ),
{
    let value = match reply {
        Ok(v) => v,
        Err(e) => {
            return Next::GiveUp(e);
        },
    };
    match stage {
        Stage::Listing => match running_pod(&value, name) {
            Err(e) => Next::GiveUp(e),
            Ok(Some(addr)) => {
                let mut note = "reusing pod `".to_owned();
                note.append(name);
                note.append("` at ");
                note.append(addr.as_str());
                Next::Use { addr, note }
            },
            Ok(None) => {
                let mut note = "no running pod named `".to_owned();
                note.append(name);
                note.append("`; creating one from ");
                note.append(spec_file);
                Next::Create { note }
            },
        },
        Stage::Creating => match create_pod(&value) {
            Err(e) => Next::GiveUp(e),
            Ok(addr) => {
                let mut note = "created pod at ".to_owned();
                note.append(addr.as_str());
                Next::Use { addr, note }
            },
        },
    }
}

/// What the node reports of a pod, a host and a port, becomes a base URL that the
/// transport accepts and splits into the same host and port.
pub proof fn law_bare_address_is_accepted(host: Seq<char>, port: u16)
    requires
        !host.contains('/'),
    ensures
        split(base_url(host + ":"@ + decimal(port as nat))) == Ok::<
            (Seq<char>, u16, Seq<char>),
            TransportErrorV,
        >((host, port, seq![])),
{
    let p = decimal(port as nat);
    lemma_decimal(port as nat);
    reveal_strlit(":");
    reveal_strlit("http://");
    reveal_strlit("https://");
    let addr = host + ":"@ + p;
    assert(addr.last() == p.last());
    assert('0' <= p[p.len() - 1] <= '9');
    assert(without_trailing(addr, '/') == addr);
    assert forall|i: int| 0 <= i < addr.len() implies addr[i] != '/' by {
        if i < host.len() {
            assert(addr[i] == host[i]);
        } else if i > host.len() {
            assert(addr[i] == p[i - host.len() - 1]);
        }
    }
    if begins(addr, "http://"@) {
        assert(addr.take(7)[5] == '/');
        assert(addr[5] != '/');
    }
    if begins(addr, "https://"@) {
        assert(addr.take(8)[6] == '/');
        assert(addr[6] != '/');
    }
    law_base_url_splits(host, port, seq![]);
    assert("http://"@ + addr =~= "http://"@ + host + ":"@ + p + Seq::<char>::empty());
}

/// A pod that is reused was listed as running under the name that was asked for.
pub proof fn law_reused_pod_is_running(pods: Seq<JsonV>, name: Seq<char>, addr: Seq<char>)
    requires
        running(JsonV::Array(pods), name) == Ok::<Option<Seq<char>>, Seq<char>>(Some(addr)),
    ensures
        exists|i: int|
            0 <= i < pods.len() && is_running(#[trigger] pods[i], name) && (pods[i].text_at(
                "proxy_addr"@,
            ) matches Some(a) && base_url(a) == addr),
    decreases pods.len(),
{
    if is_running(pods[0], name) {
        assert(pods[0].text_at("proxy_addr"@) is Some);
    } else {
        let d = pods.drop_first();
        law_reused_pod_is_running(d, name, addr);
        let i = choose|i: int|
            0 <= i < d.len() && is_running(#[trigger] d[i], name) && (d[i].text_at("proxy_addr"@) matches Some(
                a,
            ) && base_url(a) == addr);
        assert(pods[i + 1] == d[i]);
    }
}

/// What is left of a text without its escape sequences was in the text, and is no
/// escape character.
proof fn lemma_stripped(s: Seq<char>)
    ensures
        forall|c: char| #[trigger] stripped(s).contains(c) ==> s.contains(c) && c != '\u{1b}',
    decreases s.len(),
{
    if s.len() > 0 {
        let t = s.drop_first();
        if s[0] == '\u{1b}' {
            let r = after_escape(t);
            lemma_after_escape(t);
            lemma_stripped(r);
            assert forall|c: char| #[trigger] stripped(s).contains(c) implies s.contains(c) && c
                != '\u{1b}' by {
                assert(stripped(r).contains(c));
                assert(r.contains(c));
                let i = choose|i: int| 0 <= i < r.len() && r[i] == c;
                assert(s[i + s.len() - r.len()] == c);
            }
        } else {
            lemma_stripped(t);
            assert forall|c: char| #[trigger] stripped(s).contains(c) implies s.contains(c) && c
                != '\u{1b}' by {
                let i = choose|i: int| 0 <= i < stripped(s).len() && stripped(s)[i] == c;
                if i == 0 {
                    assert(s[0] == c);
                } else {
                    assert(stripped(t)[i - 1] == c);
                    assert(stripped(t).contains(c));
                    let j = choose|j: int| 0 <= j < t.len() && t[j] == c;
                    assert(s[j + 1] == c);
                }
            }
        }
    }
}

/// What follows an escape sequence is an end of the text.
proof fn lemma_after_escape(s: Seq<char>)
    ensures
        after_escape(s).len() <= s.len(),
        after_escape(s) == s.skip(s.len() - after_escape(s).len()),
{
    lemma_after_final(s);
    if s.len() > 0 {
        lemma_after_final(s.drop_first());
        assert(s.drop_first().skip(s.len() - 1 - after_final(s.drop_first()).len()) =~= s.skip(
            s.len() - after_final(s.drop_first()).len(),
        ));
    }
}

/// White space at the ends of a text, and marks at its beginning, take nothing
/// but characters of the text away.
proof fn lemma_trimmed_parts(s: Seq<char>, p: Seq<char>)
    ensures
        forall|c: char| #[trigger] trim_end(s).contains(c) ==> s.contains(c),
        forall|c: char| #[trigger] trimmed(s).contains(c) ==> s.contains(c),
        forall|c: char| #[trigger] without_prefixes(s, p).contains(c) ==> s.contains(c),
    decreases s.len(),
{
    lemma_trim_start(s);
    let t = trim_start(s);
    assert forall|c: char| #[trigger] trim_end(s).contains(c) implies s.contains(c) by {
        lemma_trim_end_part(s, c);
    }
    assert forall|c: char| #[trigger] trimmed(s).contains(c) implies s.contains(c) by {
        lemma_trim_end_part(t, c);
        let i = choose|i: int| 0 <= i < t.len() && t[i] == c;
        assert(s[i + s.len() - t.len()] == c);
    }
    assert forall|c: char| #[trigger] without_prefixes(s, p).contains(c) implies s.contains(c) by {
        if p.len() > 0 && begins(s, p) {
            let r = s.skip(p.len() as int);
            lemma_trimmed_parts(r, p);
            assert(without_prefixes(r, p).contains(c));
            assert(r.contains(c));
            let i = choose|i: int| 0 <= i < r.len() && r[i] == c;
            assert(s[i + p.len()] == c);
        }
    }
}

/// A text without its trailing white space holds characters of the text.
proof fn lemma_trim_end_part(s: Seq<char>, c: char)
    requires
        trim_end(s).contains(c),
    ensures
        s.contains(c),
    decreases s.len(),
{
    if s.len() > 0 && is_space(s.last()) {
        let d = s.drop_last();
        lemma_trim_end_part(d, c);
        let i = choose|i: int| 0 <= i < d.len() && d[i] == c;
        assert(s[i] == c);
    }
}

/// The lines that say something hold no line feeds and no escape characters.
proof fn lemma_said(l: Seq<Seq<char>>)
    requires
        forall|i: int| 0 <= i < l.len() ==> !(#[trigger] l[i]).contains('\n'),
    ensures
        forall|i: int|
            0 <= i < said(l).len() ==> !(#[trigger] said(l)[i]).contains('\n')
                && !said(l)[i].contains('\u{1b}'),
    decreases l.len(),
{
    if l.len() > 0 {
        let d = l.drop_last();
        assert forall|i: int| 0 <= i < d.len() implies !(#[trigger] d[i]).contains('\n') by {
            assert(d[i] == l[i]);
        }
        lemma_said(d);
        let plain = stripped(l.last());
        assert(!l[l.len() - 1].contains('\n'));
        lemma_stripped(l.last());
        lemma_trimmed_parts(plain, seq![]);
        let line = trimmed(plain);
        assert(!line.contains('\n'));
        assert(!line.contains('\u{1b}'));
        assert forall|i: int| 0 <= i < said(l).len() implies !(#[trigger] said(l)[i]).contains('\n')
            && !said(l)[i].contains('\u{1b}') by {
            if i < said(d).len() {
                assert(said(l)[i] == said(d)[i]);
            } else {
                assert(said(l)[i] == line);
            }
        }
    }
}

/// The first line that begins in a certain way is one of the lines.
proof fn lemma_first_with(l: Seq<Seq<char>>, p: Seq<char>)
    ensures
        first_with(l, p) matches Some(line) ==> l.contains(line),
    decreases l.len(),
{
    if l.len() > 0 {
        let d = l.drop_first();
        lemma_first_with(d, p);
        if begins(l[0], p) {
            assert(l.contains(l[0]));
        } else if let Some(line) = first_with(d, p) {
            let i = choose|i: int| 0 <= i < d.len() && d[i] == line;
            assert(l[i + 1] == line);
        }
    }
}

/// The cause fits on a line of plain text: it holds no line feeds and no escape
/// characters, whatever the tool printed.
pub proof fn law_cause_is_one_plain_line(stderr: Seq<char>)
    ensures
        !cause_of(stderr).contains('\n'),
        !cause_of(stderr).contains('\u{1b}'),
{
    let l = said(lines_of(stderr));
    lemma_lines(stderr);
    lemma_said(lines_of(stderr));
    if l.len() == 0 {
        reveal_strlit("no output");
    } else {
        lemma_first_with(l, "Error:"@);
        let line = match first_with(l, "Error:"@) {
            Some(e) => e,
            None => l.last(),
        };
        assert(l.contains(line)) by {
            assert(l.contains(l[l.len() - 1]));
        }
        let i = choose|i: int| 0 <= i < l.len() && l[i] == line;
        assert(!l[i].contains('\n'));
        lemma_trimmed_parts(line, "Error:"@);
        lemma_trimmed_parts(without_prefixes(line, "Error:"@), seq![]);
    }
}

} // verus!
