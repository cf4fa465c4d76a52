//! How the pod is found.

use vstd::prelude::*;
use vstd::string::*;

use crate::discover::{
    base_url, cause_of, cli_reply, created, first_running, first_with, follow_up, is_running,
    json_start, payload, question, running, said, CliRun, NextV, Stage, DEFAULT_POD_SPEC,
};
use crate::json::{compact, parsed, JsonV};
use crate::laws::texts::{
    law_beginning, law_prefixes_go, law_trailing_goes, law_trimming, law_trimming_of_any,
};
use crate::text::{begins, joined, lines_of, lossy, stripped, trimmed, without_prefixes};

verus! {

/// Whether a character begins a JSON object or array.
pub open spec fn opens(c: char) -> bool {
    c == '{' || c == '['
}

/// Whether no character of a text begins a JSON object or array.
pub open spec fn plain_log(s: Seq<char>) -> bool {
    forall|i: int| 0 <= i < s.len() ==> !opens(#[trigger] s[i])
}

/// Log lines before the JSON are passed over, whatever is in the JSON: the payload
/// of a successful run begins at the first brace or bracket of what was printed and
/// runs to the end. Where there is neither, nothing was printed that counts.
pub proof fn law_payload_follows_the_log(
    args: Seq<Seq<char>>,
    log: Seq<char>,
    json: Seq<char>,
    stderr: Seq<char>,
)
    requires
        plain_log(log),
        json.len() > 0,
        opens(json[0]),
    ensures
        payload(args, true, log + json, stderr) == Ok::<Seq<char>, Seq<char>>(json),
        payload(args, true, log, stderr) == Err::<Seq<char>, Seq<char>>(
            "`nucleus "@ + joined(args, " "@) + "`"@ + " printed no JSON"@,
        ),
    decreases log.len(),
{
    lemma_start(log, json);
    assert((log + json).skip(log.len() as int) =~= json);
}

/// Where the payload begins.
proof fn lemma_start(log: Seq<char>, json: Seq<char>)
    requires
        plain_log(log),
        json.len() > 0,
        opens(json[0]),
    ensures
        json_start(log + json) == log.len(),
        json_start(log) == log.len(),
    decreases log.len(),
{
    let s = log + json;
    if log.len() == 0 {
        assert(s =~= json);
    } else {
        let d = log.drop_first();
        assert forall|i: int| 0 <= i < d.len() implies !opens(#[trigger] d[i]) by {
            assert(d[i] == log[i + 1]);
        }
        lemma_start(d, json);
        assert(!opens(log[0]));
        assert(s[0] == log[0]);
        assert(s.drop_first() =~= d + json);
    }
}

/// A run that failed gives its cause and no payload, whatever it printed.
pub proof fn law_failure_has_no_payload(
    args: Seq<Seq<char>>,
    stdout: Seq<char>,
    stderr: Seq<char>,
)
    ensures
        payload(args, false, stdout, stderr) == Err::<Seq<char>, Seq<char>>(
            "`nucleus "@ + joined(args, " "@) + "`"@ + " failed: "@ + cause_of(stderr),
        ),
{
}

/// A line as a reader of the cause sees it.
pub open spec fn clean(line: Seq<char>) -> Seq<char> {
    trimmed(stripped(line))
}

/// Whether none of some lines is marked as an error.
pub open spec fn unmarked(l: Seq<Seq<char>>) -> bool {
    forall|i: int| 0 <= i < l.len() ==> !"Error:"@.is_prefix_of(clean(#[trigger] l[i]))
}

/// Whether none of some lines says anything.
pub open spec fn silent(l: Seq<Seq<char>>) -> bool {
    forall|i: int| 0 <= i < l.len() ==> clean(#[trigger] l[i]).len() == 0
}

/// The first line that is marked as an error is the cause, without the mark however
/// often it stands there, whatever follows.
pub proof fn law_first_marked_line_is_the_cause(
    stderr: Seq<char>,
    before: Seq<Seq<char>>,
    line: Seq<char>,
    after: Seq<Seq<char>>,
    what: Seq<char>,
)
    requires
        lines_of(stderr) == before + seq![line] + after,
        unmarked(before),
        clean(line) == "Error:"@ + what,
    ensures
        cause_of(stderr) == trimmed(without_prefixes(what, "Error:"@)),
{
    let p = "Error:"@;
    reveal_strlit("Error:");
    law_beginning(p, p, what);
    law_prefixes_go(p, what);
    lemma_said_split(before, line, after);
    lemma_said_unmarked(before);
    let m = said(before);
    assert forall|i: int| 0 <= i < m.len() implies !begins(#[trigger] m[i], p) by {
        law_beginning(m[i], p, what);
    }
    assert(said(lines_of(stderr)) =~= m + (seq![p + what] + said(after)));
    lemma_first_marked(m, p + what, said(after), p);
}

/// Where no line is marked, the last line that says something is the cause.
pub proof fn law_last_line_is_the_cause(
    stderr: Seq<char>,
    before: Seq<Seq<char>>,
    line: Seq<char>,
    after: Seq<Seq<char>>,
)
    requires
        lines_of(stderr) == before + seq![line] + after,
        unmarked(before),
        !"Error:"@.is_prefix_of(clean(line)),
        clean(line).len() > 0,
        silent(after),
    ensures
        cause_of(stderr) == clean(line),
{
    let p = "Error:"@;
    reveal_strlit("Error:");
    let x = clean(line);
    lemma_said_split(before, line, after);
    lemma_said_silent(after);
    lemma_said_unmarked(before);
    let l = said(lines_of(stderr));
    assert(l =~= said(before).push(x));
    assert forall|i: int| 0 <= i < l.len() implies !begins(#[trigger] l[i], p) by {
        law_beginning(l[i], p, x);
        if i < said(before).len() {
            assert(l[i] == said(before)[i]);
        }
    }
    lemma_none_marked(l, p);
    law_prefixes_go(p, x);
    law_trimming_of_any(stripped(line));
    law_trimming(seq![], x, seq![]);
    assert(Seq::<char>::empty() + x + Seq::<char>::empty() =~= x);
}

/// An error output that says nothing is called so.
pub proof fn law_silence_is_said(stderr: Seq<char>)
    requires
        silent(lines_of(stderr)),
    ensures
        cause_of(stderr) == "no output"@,
{
    lemma_said_silent(lines_of(stderr));
}

/// What is said before, on and after a line.
proof fn lemma_said_split(before: Seq<Seq<char>>, line: Seq<char>, after: Seq<Seq<char>>)
    ensures
        said(before + seq![line] + after) == (if clean(line).len() == 0 {
            said(before)
        } else {
            said(before).push(clean(line))
        }) + said(after),
    decreases after.len(),
{
    let l = before + seq![line] + after;
    if after.len() == 0 {
        assert(l =~= before.push(line));
        assert(before.push(line).drop_last() =~= before);
        assert(said(after) =~= Seq::<Seq<char>>::empty());
        assert(said(l) =~= said(l) + said(after));
    } else {
        lemma_said_split(before, line, after.drop_last());
        assert(l.drop_last() =~= before + seq![line] + after.drop_last());
        assert(l.last() == after.last());
    }
}

/// Lines that say nothing leave nothing.
proof fn lemma_said_silent(l: Seq<Seq<char>>)
    requires
        silent(l),
    ensures
        said(l) == Seq::<Seq<char>>::empty(),
    decreases l.len(),
{
    if l.len() > 0 {
        let d = l.drop_last();
        assert forall|i: int| 0 <= i < d.len() implies clean(#[trigger] d[i]).len() == 0 by {
            assert(d[i] == l[i]);
        }
        lemma_said_silent(d);
        assert(clean(l[l.len() - 1]).len() == 0);
    }
}

/// Lines that are not marked stay so.
proof fn lemma_said_unmarked(l: Seq<Seq<char>>)
    requires
        unmarked(l),
    ensures
        forall|i: int| 0 <= i < said(l).len() ==> !"Error:"@.is_prefix_of(#[trigger] said(l)[i]),
    decreases l.len(),
{
    if l.len() > 0 {
        let d = l.drop_last();
        assert forall|i: int| 0 <= i < d.len() implies !"Error:"@.is_prefix_of(
            clean(#[trigger] d[i]),
        ) by {
            assert(d[i] == l[i]);
        }
        lemma_said_unmarked(d);
        assert(!"Error:"@.is_prefix_of(clean(l[l.len() - 1])));
        assert forall|i: int| 0 <= i < said(l).len() implies !"Error:"@.is_prefix_of(
            #[trigger] said(l)[i],
        ) by {
            if i < said(d).len() {
                assert(said(l)[i] == said(d)[i]);
            }
        }
    }
}

/// The first of some lines that begins in a certain way.
proof fn lemma_first_marked(
    before: Seq<Seq<char>>,
    line: Seq<char>,
    after: Seq<Seq<char>>,
    p: Seq<char>,
)
    requires
        forall|i: int| 0 <= i < before.len() ==> !begins(#[trigger] before[i], p),
        begins(line, p),
    ensures
        first_with(before + (seq![line] + after), p) == Some(line),
    decreases before.len(),
{
    let l = before + (seq![line] + after);
    if before.len() == 0 {
        assert(l[0] == line);
    } else {
        let d = before.drop_first();
        assert forall|i: int| 0 <= i < d.len() implies !begins(#[trigger] d[i], p) by {
            assert(d[i] == before[i + 1]);
        }
        lemma_first_marked(d, line, after, p);
        assert(l[0] == before[0]);
        assert(l.drop_first() =~= d + (seq![line] + after));
    }
}

/// Where no line begins in a certain way, none is found.
proof fn lemma_none_marked(l: Seq<Seq<char>>, p: Seq<char>)
    requires
        forall|i: int| 0 <= i < l.len() ==> !begins(#[trigger] l[i], p),
    ensures
        first_with(l, p) is None,
    decreases l.len(),
{
    if l.len() > 0 {
        let d = l.drop_first();
        assert forall|i: int| 0 <= i < d.len() implies !begins(#[trigger] d[i], p) by {
            assert(d[i] == l[i + 1]);
        }
        lemma_none_marked(d, p);
        assert(!begins(l[0], p));
    }
}

/// What was printed is read as JSON; what cannot be read, and a tool that cannot be
/// run, are told with the command that was to run.
pub proof fn law_reply_of_the_tool(
    args: Seq<Seq<char>>,
    why: String,
    success: bool,
    stdout: Vec<u8>,
    stderr: Vec<u8>,
)
    ensures
        cli_reply(args, CliRun::NotRun(why)) == Err::<JsonV, Seq<char>>(
            "could not run "@ + ("`nucleus "@ + joined(args, " "@) + "`"@) + ": "@ + why@
                + ". Set NUCLEUS_PROXY_URL to a pod's proxy address to skip pod discovery entirely."@,
        ),
        ({
            let r = cli_reply(args, CliRun::Ran { success, stdout, stderr });
            match payload(args, success, lossy(stdout@), lossy(stderr@)) {
                Err(e) => r == Err::<JsonV, Seq<char>>(e),
                Ok(json) => match parsed(json) {
                    Ok(v) => r == Ok::<JsonV, Seq<char>>(v),
                    Err(e) => r == Err::<JsonV, Seq<char>>(
                        "could not parse "@ + ("`nucleus "@ + joined(args, " "@) + "`"@)
                            + " output: "@ + e,
                    ),
                },
            }
        }),
{
}

/// The tool is asked for the pods of the node, and for one from the given file.
pub proof fn law_questions(file: Seq<char>)
    ensures
        DEFAULT_POD_SPEC@ == "pod.yaml"@,
        question(Stage::Listing, file) == seq!["node"@, "pods"@],
        question(Stage::Creating, file) == seq!["node"@, "create"@, file],
{
}

/// An address with a scheme stays as it is, and a bare one gets the scheme of HTTP;
/// slashes at the end go.
pub proof fn law_addresses(addr: Seq<char>, slashes: nat)
    requires
        addr.len() > 0 ==> addr.last() != '/',
    ensures
        base_url(addr + Seq::new(slashes, |i: int| '/')) == if "http://"@.is_prefix_of(
            addr + Seq::new(slashes, |i: int| '/'),
        ) || "https://"@.is_prefix_of(addr + Seq::new(slashes, |i: int| '/')) {
            addr
        } else {
            "http://"@ + addr
        },
{
    let s = addr + Seq::new(slashes, |i: int| '/');
    law_trailing_goes(addr, '/', slashes);
    law_beginning(s, "http://"@, s);
    law_beginning(s, "https://"@, s);
}

/// Whether a pod has a name and is said to run.
pub open spec fn runs_as(pod: JsonV, name: Seq<char>) -> bool {
    &&& pod.get("name"@) == Some(JsonV::Str(name))
    &&& pod.get("state"@) == Some(JsonV::Str("running"@))
}

/// The first pod in the list that has the name and runs is the one that is used,
/// whatever stands before and after it.
pub proof fn law_first_running_pod_is_used(
    before: Seq<JsonV>,
    pod: JsonV,
    after: Seq<JsonV>,
    name: Seq<char>,
)
    requires
        forall|i: int| 0 <= i < before.len() ==> !runs_as(#[trigger] before[i], name),
        runs_as(pod, name),
    ensures
        running(JsonV::Array(before + seq![pod] + after), name) == Ok::<
            Option<Seq<char>>,
            Seq<char>,
        >(
            match pod.get("proxy_addr"@) {
                Some(JsonV::Str(addr)) => Some(base_url(addr)),
                _ => None,
            },
        ),
        running(JsonV::Array(before), name) == Ok::<Option<Seq<char>>, Seq<char>>(None),
{
    lemma_first_running(before, pod, after, name);
}

/// The first running pod in a list.
proof fn lemma_first_running(
    before: Seq<JsonV>,
    pod: JsonV,
    after: Seq<JsonV>,
    name: Seq<char>,
)
    requires
        forall|i: int| 0 <= i < before.len() ==> !runs_as(#[trigger] before[i], name),
        runs_as(pod, name),
    ensures
        first_running(before + seq![pod] + after, name) == Some(pod),
        first_running(before, name) is None,
    decreases before.len(),
{
    let l = before + seq![pod] + after;
    if before.len() == 0 {
        assert(l[0] == pod);
        assert(is_running(pod, name));
    } else {
        let d = before.drop_first();
        assert forall|i: int| 0 <= i < d.len() implies !runs_as(#[trigger] d[i], name) by {
            assert(d[i] == before[i + 1]);
        }
        lemma_first_running(d, pod, after, name);
        assert(!runs_as(before[0], name));
        assert(!is_running(before[0], name));
        assert(l[0] == before[0]);
        assert(l.drop_first() =~= d + seq![pod] + after);
    }
}

/// What is no list of pods, and a creation without an address, are told as such.
pub proof fn law_unusable_replies(reply: JsonV, name: Seq<char>)
    ensures
        !(reply is Array) ==> running(reply, name) == Err::<Option<Seq<char>>, Seq<char>>(
            "`nucleus node pods` did not return a list"@,
        ),
        created(reply) == match reply.get("proxy_addr"@) {
            Some(JsonV::Str(addr)) => Ok::<Seq<char>, Seq<char>>(base_url(addr)),
            _ => Err::<Seq<char>, Seq<char>>(
                "the node created a pod but reported no proxy_addr, so there is nothing to talk to. Its reply: "@
                    + compact(reply),
            ),
        },
{
}

/// A running pod is used; where there is none one is created from the given file,
/// and then used. Whatever fails ends the search, with its reason.
pub proof fn law_search(
    name: Seq<char>,
    file: Seq<char>,
    pods: JsonV,
    reply: JsonV,
    stage: Stage,
    why: Seq<char>,
)
    ensures
        follow_up(stage, name, file, Err(why)) == NextV::GiveUp(why),
        match running(pods, name) {
            Ok(Some(addr)) => follow_up(Stage::Listing, name, file, Ok(pods)) == (NextV::Use {
                addr,
                note: "reusing pod `"@ + name + "` at "@ + addr,
            }),
            Ok(None) => follow_up(Stage::Listing, name, file, Ok(pods)) == (NextV::Create {
                note: "no running pod named `"@ + name + "`; creating one from "@ + file,
            }),
            Err(e) => follow_up(Stage::Listing, name, file, Ok(pods)) == NextV::GiveUp(e),
        },
        match created(reply) {
            Ok(addr) => follow_up(Stage::Creating, name, file, Ok(reply)) == (NextV::Use {
                addr,
                note: "created pod at "@ + addr,
            }),
            Err(e) => follow_up(Stage::Creating, name, file, Ok(reply)) == NextV::GiveUp(e),
        },
{
}

} // verus!
