//! What the bridge saw, written down so that a status line can read it.
//!
//! This is an observation log, not evidence: the authoritative record of a
//! mediated call is the signed receipt that the pod ships to its node. Nothing
//! reads the journal back to make a decision. The file itself is the caller's;
//! this module writes its lines, reads them and trims them.

use vstd::prelude::*;
use vstd::string::*;
use vstd::utf8::encode_utf8;

use crate::json::{compact, fields, nested, one_line, parsed, put, reads_back, Json, JsonV};
use crate::text::{
    chars, cut, cut_to, ends_a_line, join, joined, lemma_joined_lines, lemma_lines,
    lemma_lines_append, lemma_one_line, lines, lines_of, same, texts, without_cr,
};

verus! {

/// The size, in bytes, past which the file is trimmed.
pub const MAX_BYTES: u64 = 262144;

/// How many lines a trimmed file keeps.
pub const KEEP_ENTRIES: usize = 500;

/// How long a subject or a detail may be before it is cut.
pub const SUBJECT_MAX: usize = 160;

/// What the bridge observed a call to do.
#[derive(Debug, Clone, PartialEq, Eq)]
pub enum Outcome {
    /// The pod performed the effect.
    Allowed,
    /// A decision: the lattice, the path policy or the command policy said no.
    Refused(String),
    /// Nothing decided the call: a fault.
    Failed(String),
}

/// The model of an outcome.
pub ghost enum OutcomeV {
    /// The pod performed the effect.
    Allowed,
    /// A verdict.
    Refused(Seq<char>),
    /// A fault.
    Failed(Seq<char>),
}

impl View for Outcome {
    type V = OutcomeV;

    open spec fn view(&self) -> OutcomeV {
        match self {
            Outcome::Allowed => OutcomeV::Allowed,
            Outcome::Refused(d) => OutcomeV::Refused(d@),
            Outcome::Failed(d) => OutcomeV::Failed(d@),
        }
    }
}

impl OutcomeV {
    /// The word that stands for the outcome in the journal.
    pub open spec fn tag(self) -> Seq<char> {
        match self {
            OutcomeV::Allowed => "allow"@,
            OutcomeV::Refused(_) => "refuse"@,
            OutcomeV::Failed(_) => "fail"@,
        }
    }

    /// What is said of the outcome, if anything.
    pub open spec fn detail(self) -> Option<Seq<char>> {
        match self {
            OutcomeV::Allowed => None,
            OutcomeV::Refused(d) => Some(d),
            OutcomeV::Failed(d) => Some(d),
        }
    }
}

impl Outcome {
    /// The word that stands for the outcome in the journal.
    pub fn tag(&self) -> (r: &'static str)
        ensures
            r@ == self@.tag(),
    {
        match self {
            Outcome::Allowed => "allow",
            Outcome::Refused(_) => "refuse",
            Outcome::Failed(_) => "fail",
        }
    }

    /// What is said of the outcome, if anything.
    pub fn detail(&self) -> (r: Option<&str>)
        ensures
            match r {
                Some(d) => self@.detail() == Some(d@),
                None => self@.detail() is None,
            },
    {
        match self {
            Outcome::Allowed => None,
            Outcome::Refused(d) => Some(d.as_str()),
            Outcome::Failed(d) => Some(d.as_str()),
        }
    }
}

/// One observed call.
#[derive(Debug, Clone)]
pub struct Entry {
    /// The tool that was called.
    pub tool: String,
    /// What the call was against: a path, a URL, a command.
    pub subject: String,
    /// What it was observed to do.
    pub outcome: Outcome,
    /// Which pod, so that two pods cannot be confused.
    pub pod: String,
}

/// The model of an observed call.
#[verifier::ext_equal]
pub ghost struct EntryV {
    /// The tool that was called.
    pub tool: Seq<char>,
    /// What the call was against.
    pub subject: Seq<char>,
    /// What it was observed to do.
    pub outcome: OutcomeV,
    /// Which pod.
    pub pod: Seq<char>,
}

impl View for Entry {
    type V = EntryV;

    open spec fn view(&self) -> EntryV {
        EntryV {
            tool: self.tool@,
            subject: self.subject@,
            outcome: self.outcome@,
            pod: self.pod@,
        }
    }
}

/// The models of a list of calls.
pub open spec fn history(e: Seq<Entry>) -> Seq<EntryV> {
    e.map_values(|x: Entry| x@)
}

/// The value that a line of the journal holds for a call observed at `ts`.
pub open spec fn line_value(ts: u64, e: EntryV) -> JsonV {
    JsonV::Object(
        Map::empty().insert("ts"@, JsonV::Uint(ts)).insert("tool"@, JsonV::Str(e.tool)).insert(
            "subject"@,
            JsonV::Str(cut_to(e.subject, SUBJECT_MAX as nat)),
        ).insert("outcome"@, JsonV::Str(e.outcome.tag())).insert(
            "detail"@,
            match e.outcome.detail() {
                Some(d) => JsonV::Str(cut_to(d, SUBJECT_MAX as nat)),
                None => JsonV::Null,
            },
        ).insert("pod"@, JsonV::Str(e.pod)),
    )
}

/// A call as the journal keeps it: its subject and its detail are cut.
pub open spec fn kept(e: EntryV) -> EntryV {
    let max = SUBJECT_MAX as nat;
    EntryV {
        tool: e.tool,
        subject: cut_to(e.subject, max),
        outcome: match e.outcome {
            OutcomeV::Allowed => OutcomeV::Allowed,
            OutcomeV::Refused(d) => OutcomeV::Refused(cut_to(d, max)),
            OutcomeV::Failed(d) => OutcomeV::Failed(cut_to(d, max)),
        },
        pod: e.pod,
    }
}

/// The string under `key`, or nothing where there is none.
pub open spec fn text_or_empty(v: JsonV, key: Seq<char>) -> Seq<char> {
    match v.text_at(key) {
        Some(s) => s,
        None => seq![],
    }
}

/// The call that a value stands for, if it stands for one: it names a tool and an
/// outcome.
pub open spec fn entry_from(v: JsonV) -> Option<EntryV> {
    match (v.text_at("tool"@), v.text_at("outcome"@)) {
        (Some(tool), Some(outcome)) => {
            let detail = text_or_empty(v, "detail"@);
            Some(
                EntryV {
                    tool,
                    subject: text_or_empty(v, "subject"@),
                    outcome: if outcome == "allow"@ {
                        OutcomeV::Allowed
                    } else if outcome == "refuse"@ {
                        OutcomeV::Refused(detail)
                    } else {
                        OutcomeV::Failed(detail)
                    },
                    pod: text_or_empty(v, "pod"@),
                },
            )
        },
        _ => None,
    }
}

/// The call that a line of the journal stands for, if it stands for one.
pub open spec fn entry_in(line: Seq<char>) -> Option<EntryV> {
    match parsed(line) {
        Ok(v) => entry_from(v),
        Err(_) => None,
    }
}

/// The calls that some lines stand for. A line that stands for none is skipped.
pub open spec fn entries_in(lines: Seq<Seq<char>>) -> Seq<EntryV>
    decreases lines.len(),
{
    if lines.len() == 0 {
        seq![]
    } else {
        match entry_in(lines.last()) {
            Some(e) => entries_in(lines.drop_last()).push(e),
            None => entries_in(lines.drop_last()),
        }
    }
}

/// The last `n` of some lines, or all of them.
pub open spec fn last_lines(lines: Seq<Seq<char>>, n: nat) -> Seq<Seq<char>> {
    if lines.len() <= n {
        lines
    } else {
        lines.skip(lines.len() - n)
    }
}

/// Whether a call brought untrusted content into the session: an egress call that
/// the pod performed.
pub open spec fn taints(e: EntryV) -> bool {
    e.outcome is Allowed && (e.tool == "web_fetch"@ || e.tool == "web_search"@)
}

/// Whether a line stands for a call that brought untrusted content in.
pub open spec fn taint_line(line: Seq<char>) -> bool {
    entry_in(line) matches Some(e) && taints(e)
}

/// The last line that stands for such a call, if one does.
pub open spec fn last_taint(lines: Seq<Seq<char>>) -> Option<Seq<char>>
    decreases lines.len(),
{
    if lines.len() == 0 {
        None
    } else if taint_line(lines.last()) {
        Some(lines.last())
    } else {
        last_taint(lines.drop_last())
    }
}

/// The last `n` of some lines. Where none of them stands for a call that brought
/// untrusted content in and an earlier line does, the last such line comes before
/// them: a session does not become trusted by going on.
pub open spec fn window(lines: Seq<Seq<char>>, n: nat) -> Seq<Seq<char>> {
    let last = last_lines(lines, n);
    match (last_taint(last), last_taint(lines)) {
        (None, Some(line)) => seq![line] + last,
        _ => last,
    }
}

/// What a trimmed journal holds.
pub open spec fn trimmed_to(raw: Seq<char>) -> Seq<char> {
    joined(window(lines_of(raw), KEEP_ENTRIES as nat), "\n"@) + "\n"@
}

/// Cuts a text on a character boundary, marking that it was cut.
pub fn truncate(s: &str, max: usize) -> (r: String)
    ensures
        r@ == cut_to(s@, max as nat),
{
    let c = chars(s);
    cut(c.as_slice(), max)
}

/// Whether a text is the line that the journal gets for a call.
pub open spec fn is_line_for(line: Seq<char>, ts: u64, e: EntryV) -> bool {
    &&& line == compact(line_value(ts, e))
    &&& one_line(line)
    &&& reads_back(line, line_value(ts, e))
}

/// The line that the journal gets for a call observed at `now`, in seconds since
/// the epoch. A line feed is to be written after it.
pub fn record(now: u64, entry: &Entry) -> (r: String)
    ensures
        is_line_for(r@, now, entry@),
        entry_in(r@) == Some(kept(entry@)),
{
    let mut line: Vec<(String, Json)> = Vec::new();
    assert(fields(line@) =~= Map::empty());
    put(&mut line, "ts", Json::uint(now));
    put(&mut line, "tool", Json::text(entry.tool.as_str()));
    put(&mut line, "subject", Json::Str(truncate(entry.subject.as_str(), SUBJECT_MAX)));
    put(&mut line, "outcome", Json::text(entry.outcome.tag()));
    let detail = match entry.outcome.detail() {
        Some(d) => Json::Str(truncate(d, SUBJECT_MAX)),
        None => Json::Null,
    };
    put(&mut line, "detail", detail);
    put(&mut line, "pod", Json::text(entry.pod.as_str()));
    let value = Json::Object(line);
    assert(value@ == line_value(now, entry@));
    proof {
        lemma_line_nested(now, entry@);
    }
    let text = value.to_text();
    proof {
        law_recorded_call_comes_back(text@, now, entry@);
    }
    text
}

/// A line of the journal is one object of strings, an integer and perhaps `null`.
proof fn lemma_line_nested(ts: u64, e: EntryV)
    ensures
        nested(line_value(ts, e), 127),
{
    let m = line_value(ts, e)->Object_0;
    assert forall|k: Seq<char>| m.contains_key(k) implies nested(#[trigger] m[k], 126) by {}
}

/// Whether the file has grown past what is kept.
pub fn overgrown(bytes: u64) -> (r: bool)
    ensures
        r == (bytes > MAX_BYTES),
{
    bytes > MAX_BYTES
}

/// The last `n` of some lines.
fn tail(lines: Vec<String>, n: usize) -> (r: Vec<String>)
    ensures
        texts(r@) == last_lines(texts(lines@), n as nat),
{
    let from: usize = if lines.len() <= n {
        0
    } else {
        lines.len() - n
    };
    let mut out: Vec<String> = Vec::new();
    let mut i: usize = from;
    while i < lines.len()
        invariant
            from <= i <= lines@.len(),
            texts(out@) == texts(lines@).subrange(from as int, i as int),
        decreases lines@.len() - i,
    {
        let ghost before = texts(out@);
        out.push(lines[i].clone());
        assert(texts(out@) =~= before.push(texts(lines@)[i as int]));
        i += 1;
    }
    assert(texts(lines@).subrange(from as int, i as int) =~= last_lines(texts(lines@), n as nat));
    out
}

impl Entry {
    /// Whether the call brought untrusted content into the session. A fetch that was
    /// refused brought nothing in.
    pub fn taints(&self) -> (r: bool)
        ensures
            r == taints(self@),
    {
        let performed = match &self.outcome {
            Outcome::Allowed => true,
            _ => false,
        };
        performed && (same(self.tool.as_str(), "web_fetch") || same(
            self.tool.as_str(),
            "web_search",
        ))
    }
}

/// Whether a line stands for a call that brought untrusted content in.
fn is_taint_line(line: &str) -> (r: bool)
    ensures
        r == taint_line(line@),
{
    match parse(line) {
        Some(e) => e.taints(),
        None => false,
    }
}

/// The last line that stands for a call that brought untrusted content in.
fn find_taint(lines: &Vec<String>) -> (r: Option<String>)
    ensures
        match r {
            Some(line) => last_taint(texts(lines@)) == Some(line@),
            None => last_taint(texts(lines@)) is None,
        },
{
    let ghost l = texts(lines@);
    let mut i: usize = lines.len();
    assert(l.take(i as int) == l);
    while 0 < i
        invariant
            i <= lines@.len(),
            l == texts(lines@),
            last_taint(l) == last_taint(l.take(i as int)),
        decreases i,
    {
        assert(l.take(i as int).drop_last() == l.take(i - 1));
        assert(l.take(i as int).last() == lines@[i - 1]@);
        if is_taint_line(lines[i - 1].as_str()) {
            return Some(lines[i - 1].clone());
        }
        i -= 1;
    }
    None
}

/// The last `n` of some lines, and before them the last one that stands for a call
/// that brought untrusted content in, where they hold none themselves.
fn keep(lines: Vec<String>, n: usize) -> (r: Vec<String>)
    ensures
        texts(r@) == window(texts(lines@), n as nat),
{
    let earlier = find_taint(&lines);
    let last = tail(lines, n);
    if let Some(line) = earlier {
        if find_taint(&last).is_none() {
            let ghost first = line@;
            let mut out: Vec<String> = Vec::new();
            out.push(line);
            let mut i: usize = 0;
            while i < last.len()
                invariant
                    i <= last@.len(),
                    texts(out@) == seq![first] + texts(last@).take(i as int),
                decreases last@.len() - i,
            {
                let ghost before = texts(out@);
                out.push(last[i].clone());
                assert(texts(out@) =~= before.push(texts(last@)[i as int]));
                i += 1;
            }
            assert(texts(last@).take(i as int) =~= texts(last@));
            return out;
        }
    }
    last
}

/// The journal as its most recent lines. A call that brought untrusted content in
/// is not forgotten with the lines that go: the last one stays.
pub fn trim(raw: &str) -> (r: String)
    ensures
        r@ == trimmed_to(raw@),
{
    let last = keep(lines(raw), KEEP_ENTRIES);
    let mut out = join(last.as_slice(), "\n");
    out.append("\n");
    out
}

/// The calls in the last `limit` lines of the journal, oldest first. A line that
/// does not parse is skipped: half a history beats a broken bar.
pub fn recent(raw: &str, limit: usize) -> (r: Vec<Entry>)
    ensures
        history(r@) == entries_in(last_lines(lines_of(raw@), limit as nat)),
{
    read(&tail(lines(raw), limit))
}

/// The calls that a status line shows: those in the last `limit` lines of the
/// journal, and before them the last one of the whole journal that brought
/// untrusted content in, where they hold none themselves.
pub fn shown(raw: &str, limit: usize) -> (r: Vec<Entry>)
    ensures
        history(r@) == entries_in(window(lines_of(raw@), limit as nat)),
{
    read(&keep(lines(raw), limit))
}

/// The calls that some lines stand for.
fn read(last: &Vec<String>) -> (r: Vec<Entry>)
    ensures
        history(r@) == entries_in(texts(last@)),
{
    let ghost l = texts(last@);
    let mut out: Vec<Entry> = Vec::new();
    let mut i: usize = 0;
    assert(history(out@) =~= entries_in(l.take(0)));
    while i < last.len()
        invariant
            i <= last@.len(),
            l == texts(last@),
            history(out@) == entries_in(l.take(i as int)),
        decreases last@.len() - i,
    {
        let ghost before = out@;
        assert(l.take(i + 1).drop_last() == l.take(i as int));
        assert(l.take(i + 1).last() == last@[i as int]@);
        match parse(last[i].as_str()) {
            Some(e) => {
                out.push(e);
                assert(history(out@) =~= history(before).push(e@));
            },
            None => {},
        }
        i += 1;
    }
    assert(l.take(i as int) == l);
    out
}

/// The string under `key`, or nothing where there is none.
fn str_or_empty(v: &Json, key: &str) -> (r: String)
    ensures
        r@ == text_or_empty(v@, key@),
{
    match v.str_at(key) {
        Some(s) => s.to_owned(),
        None => String::new(),
    }
}

/// The call that a value stands for.
pub fn entry_of(v: &Json) -> (r: Option<Entry>)
    ensures
        match r {
            Some(e) => entry_from(v@) == Some(e@),
            None => entry_from(v@) is None,
        },
{
    let tool = v.str_at("tool")?;
    let outcome = v.str_at("outcome")?;
    let detail = str_or_empty(v, "detail");
    Some(
        Entry {
            tool: tool.to_owned(),
            subject: str_or_empty(v, "subject"),
            outcome: if same(outcome, "allow") {
                Outcome::Allowed
            } else if same(outcome, "refuse") {
                Outcome::Refused(detail)
            } else {
                Outcome::Failed(detail)
            },
            pod: str_or_empty(v, "pod"),
        },
    )
}

/// The call that a line of the journal stands for.
pub fn parse(line: &str) -> (r: Option<Entry>)
    ensures
        match r {
            Some(e) => entry_in(line@) == Some(e@),
            None => entry_in(line@) is None,
        },
{
    match Json::parse(line) {
        Ok(v) => entry_of(&v),
        Err(_) => None,
    }
}

/// A path with one more component, as `std::path::Path::join` adds a relative one.
pub open spec fn joined_path(base: Seq<u8>, part: Seq<u8>) -> Seq<u8> {
    if base.len() > 0 && base.last() != 47 {
        base.push(47) + part
    } else {
        base + part
    }
}

/// Where the journal is: at the explicit path, unless that is empty, in which
/// case nowhere; else under the state directory; else under the home directory.
pub open spec fn journal_path(
    explicit: Option<Seq<u8>>,
    state_home: Option<Seq<u8>>,
    home: Option<Seq<u8>>,
) -> Option<Seq<u8>> {
    match explicit {
        Some(p) => if p.len() > 0 {
            Some(p)
        } else {
            None
        },
        None => {
            let base = match state_home {
                Some(s) => Some(s),
                None => match home {
                    Some(h) => Some(joined_path(h, encode_utf8(".local/state"@))),
                    None => None,
                },
            };
            match base {
                Some(b) => Some(
                    joined_path(
                        joined_path(b, encode_utf8("ccn"@)),
                        encode_utf8("journal.jsonl"@),
                    ),
                ),
                None => None,
            }
        },
    }
}

/// The bytes of an optional path.
pub open spec fn opt_bytes(p: Option<Vec<u8>>) -> Option<Seq<u8>> {
    match p {
        Some(b) => Some(b@),
        None => None,
    }
}

/// Adds a relative component to a path.
fn join_path(base: Vec<u8>, part: &str) -> (r: Vec<u8>)
    ensures
        r@ == joined_path(base@, encode_utf8(part@)),
{
    let mut out = base;
    if out.len() > 0 && out[out.len() - 1] != 47 {
        out.push(47);
    }
    let ghost start = out@;
    let b = part.as_bytes();
    let mut i: usize = 0;
    while i < b.len()
        invariant
            i <= b@.len(),
            out@ == start + b@.take(i as int),
        decreases b@.len() - i,
    {
        out.push(b[i]);
        i += 1;
    }
    assert(b@.take(i as int) == b@);
    out
}

/// Where the journal is, from the values of `CCN_JOURNAL`, `XDG_STATE_HOME` and
/// `HOME`, as the bytes that the system holds them in.
///
/// One file rather than one per session: flow state belongs to the pod, and two
/// sessions on the same pod share its taint.
pub fn path(explicit: Option<Vec<u8>>, state_home: Option<Vec<u8>>, home: Option<Vec<u8>>) -> (r:
    Option<Vec<u8>>)
    ensures
        opt_bytes(r) == journal_path(opt_bytes(explicit), opt_bytes(state_home), opt_bytes(home)),
{
    match explicit {
        Some(p) => {
            if p.len() > 0 {
                Some(p)
            } else {
                None
            }
        },
        None => {
            let base = match state_home {
                Some(s) => s,
                None => match home {
                    Some(h) => join_path(h, ".local/state"),
                    None => {
                        return None;
                    },
                },
            };
            Some(join_path(join_path(base, "ccn"), "journal.jsonl"))
        },
    }
}

/// What a call of `tool` with these arguments is about.
pub open spec fn subject(tool: Seq<char>, args: JsonV) -> Seq<char> {
    if tool == "read"@ || tool == "write"@ {
        text_or_empty(args, "file_path"@)
    } else if tool == "run"@ {
        text_or_empty(args, "command"@)
    } else if tool == "glob"@ || tool == "grep"@ {
        let pattern = text_or_empty(args, "pattern"@);
        let path = text_or_empty(args, "path"@);
        if path.len() == 0 {
            pattern
        } else {
            pattern + " in "@ + path
        }
    } else if tool == "web_fetch"@ {
        text_or_empty(args, "url"@)
    } else if tool == "web_search"@ {
        text_or_empty(args, "query"@)
    } else {
        seq![]
    }
}

/// The subject of a call, for the one line that a status line can spare.
pub fn subject_of(tool: &str, args: &Json) -> (r: String)
    ensures
        r@ == subject(tool@, args@),
{
    if same(tool, "read") || same(tool, "write") {
        str_or_empty(args, "file_path")
    } else if same(tool, "run") {
        str_or_empty(args, "command")
    } else if same(tool, "glob") || same(tool, "grep") {
        let mut out = str_or_empty(args, "pattern");
        let path = str_or_empty(args, "path");
        if !path.as_str().is_empty() {
            out.append(" in ");
            out.append(path.as_str());
        }
        out
    } else if same(tool, "web_fetch") {
        str_or_empty(args, "url")
    } else if same(tool, "web_search") {
        str_or_empty(args, "query")
    } else {
        String::new()
    }
}

/// What was written is what comes back: a call that is recorded stands for
/// itself, with its subject and its detail cut.
pub proof fn law_recorded_call_comes_back(line: Seq<char>, ts: u64, e: EntryV)
    requires
        is_line_for(line, ts, e),
    ensures
        entry_in(line) == Some(kept(e)),
{
    let m = line_value(ts, e)->Object_0;
    reveal_keys();
    assert(m["tool"@] == JsonV::Str(e.tool));
    assert(m["subject"@] == JsonV::Str(cut_to(e.subject, SUBJECT_MAX as nat)));
    assert(m["outcome"@] == JsonV::Str(e.outcome.tag()));
    assert(m["pod"@] == JsonV::Str(e.pod));
    assert(entry_from(line_value(ts, e)) == Some(kept(e)));
}

/// The keys and words of a journal line are told apart.
proof fn reveal_keys()
    ensures
        "ts"@ =~= seq!['t', 's'],
        "tool"@ =~= seq!['t', 'o', 'o', 'l'],
        "subject"@ =~= seq!['s', 'u', 'b', 'j', 'e', 'c', 't'],
        "outcome"@ =~= seq!['o', 'u', 't', 'c', 'o', 'm', 'e'],
        "detail"@ =~= seq!['d', 'e', 't', 'a', 'i', 'l'],
        "pod"@ =~= seq!['p', 'o', 'd'],
        "subject"@ != "outcome"@,
        "allow"@ =~= seq!['a', 'l', 'l', 'o', 'w'],
        "refuse"@ =~= seq!['r', 'e', 'f', 'u', 's', 'e'],
        "fail"@ =~= seq!['f', 'a', 'i', 'l'],
{
    reveal_strlit("ts");
    reveal_strlit("tool");
    reveal_strlit("subject");
    reveal_strlit("outcome");
    reveal_strlit("detail");
    reveal_strlit("pod");
    reveal_strlit("allow");
    reveal_strlit("refuse");
    reveal_strlit("fail");
    assert("subject"@[0] == 's');
    assert("outcome"@[0] == 'o');
}

/// Recording a call adds it to the end of the history, whatever the journal held
/// before.
pub proof fn law_record_appends(raw: Seq<char>, line: Seq<char>, ts: u64, e: EntryV)
    requires
        ends_a_line(raw),
        is_line_for(line, ts, e),
    ensures
        lines_of(raw + line.push('\n')) == lines_of(raw).push(line),
        entries_in(lines_of(raw + line.push('\n'))) == entries_in(lines_of(raw)).push(kept(e)),
{
    lemma_lines_append(raw, line.push('\n'));
    assert(!line.contains('\n')) by {
        if line.contains('\n') {
            let i = choose|i: int| 0 <= i < line.len() && line[i] == '\n';
            assert(line[i] != '\n');
        }
    }
    lemma_one_line(line);
    assert(without_cr(line) == line) by {
        if line.len() > 0 {
            assert(line[line.len() - 1] != '\r');
        }
    }
    let l = lines_of(raw).push(line);
    assert(lines_of(raw) + seq![line] =~= l);
    law_recorded_call_comes_back(line, ts, e);
    assert(l.drop_last() =~= lines_of(raw));
}

/// A line that stands for no call is skipped, and the others are read as if it
/// were not there.
pub proof fn law_corrupt_line_is_skipped(
    before: Seq<Seq<char>>,
    bad: Seq<char>,
    after: Seq<Seq<char>>,
)
    requires
        entry_in(bad) is None,
    ensures
        entries_in(before.push(bad) + after) == entries_in(before + after),
    decreases after.len(),
{
    if after.len() == 0 {
        assert(before.push(bad) + after =~= before.push(bad));
        assert(before + after =~= before);
        assert(before.push(bad).drop_last() =~= before);
    } else {
        let d = after.drop_last();
        law_corrupt_line_is_skipped(before, bad, d);
        assert((before.push(bad) + after).drop_last() =~= before.push(bad) + d);
        assert((before + after).drop_last() =~= before + d);
    }
}

/// The lines that are kept are lines of the text.
proof fn lemma_window(lines: Seq<Seq<char>>, n: nat)
    ensures
        window(lines, n).len() <= n + 1,
        forall|i: int|
            0 <= i < window(lines, n).len() ==> lines.contains(#[trigger] window(lines, n)[i]),
        lines.len() > 0 && n > 0 ==> window(lines, n).len() > 0,
{
    let last = last_lines(lines, n);
    lemma_last_taint(lines);
    assert forall|i: int| 0 <= i < window(lines, n).len() implies lines.contains(
        #[trigger] window(lines, n)[i],
    ) by {
        let w = window(lines, n);
        if w != last && i == 0 {
            assert(w[0] == last_taint(lines)->Some_0);
        } else {
            let k = i - (w.len() - last.len());
            assert(w[i] == last[k]);
            assert(last[k] == lines[k + (lines.len() - last.len())]);
        }
    }
}

/// The last line of its kind is one of the lines, and of that kind; where there is
/// none, no line is.
proof fn lemma_last_taint(lines: Seq<Seq<char>>)
    ensures
        match last_taint(lines) {
            Some(line) => lines.contains(line) && taint_line(line),
            None => forall|i: int| 0 <= i < lines.len() ==> !taint_line(#[trigger] lines[i]),
        },
    decreases lines.len(),
{
    if lines.len() > 0 {
        let d = lines.drop_last();
        lemma_last_taint(d);
        assert(lines[lines.len() - 1] == lines.last());
        if !taint_line(lines.last()) {
            match last_taint(d) {
                Some(line) => {
                    let i = choose|i: int| 0 <= i < d.len() && d[i] == line;
                    assert(lines[i] == line);
                },
                None => {
                    assert forall|i: int| 0 <= i < lines.len() implies !taint_line(
                        #[trigger] lines[i],
                    ) by {
                        if i < d.len() {
                            assert(d[i] == lines[i]);
                        }
                    }
                },
            }
        }
    }
}

/// The last line of its kind in two lists, one after the other, is that of the
/// second, or else that of the first.
proof fn lemma_last_taint_add(a: Seq<Seq<char>>, b: Seq<Seq<char>>)
    ensures
        last_taint(a + b) == match last_taint(b) {
            Some(line) => Some(line),
            None => last_taint(a),
        },
    decreases b.len(),
{
    if b.len() == 0 {
        assert(a + b =~= a);
    } else {
        lemma_last_taint_add(a, b.drop_last());
        assert((a + b).drop_last() =~= a + b.drop_last());
        assert((a + b).last() == b.last());
    }
}

/// The lines that are kept have the same last line of its kind.
proof fn lemma_window_taint(lines: Seq<Seq<char>>, n: nat)
    ensures
        last_taint(window(lines, n)) == last_taint(lines),
{
    let last = last_lines(lines, n);
    let k = lines.len() - last.len();
    assert(lines.take(k) + last =~= lines);
    lemma_last_taint_add(lines.take(k), last);
    lemma_last_taint(lines);
    if let Some(line) = last_taint(lines) {
        let one = seq![line];
        lemma_last_taint_add(one, last);
        assert(one.drop_last() =~= Seq::<Seq<char>>::empty());
        assert(last_taint(one) == Some(line));
    }
}

/// Some line stands for a call that brought untrusted content in, exactly if one
/// of the calls did.
pub proof fn lemma_taint_entries(lines: Seq<Seq<char>>)
    ensures
        last_taint(lines) is Some <==> exists|i: int|
            0 <= i < entries_in(lines).len() && taints(#[trigger] entries_in(lines)[i]),
    decreases lines.len(),
{
    if lines.len() > 0 {
        let d = lines.drop_last();
        lemma_taint_entries(d);
        let all = entries_in(lines);
        let rest = entries_in(d);
        if taint_line(lines.last()) {
            assert(taints(all[all.len() - 1]));
        } else {
            if last_taint(d) is Some {
                let i = choose|i: int| 0 <= i < rest.len() && taints(#[trigger] rest[i]);
                assert(all[i] == rest[i]);
            }
            if exists|i: int| 0 <= i < all.len() && taints(#[trigger] all[i]) {
                let i = choose|i: int| 0 <= i < all.len() && taints(#[trigger] all[i]);
                if i < rest.len() {
                    assert(rest[i] == all[i]);
                }
            }
        }
    }
}

/// What is shown of a journal holds a call that brought untrusted content in,
/// exactly if the whole journal does, however long ago that was.
pub proof fn law_shown_calls_keep_the_taint(raw: Seq<char>, limit: nat)
    ensures
        (exists|i: int|
            0 <= i < entries_in(window(lines_of(raw), limit)).len() && taints(
                #[trigger] entries_in(window(lines_of(raw), limit))[i],
            )) <==> (exists|i: int|
            0 <= i < entries_in(lines_of(raw)).len() && taints(
                #[trigger] entries_in(lines_of(raw))[i],
            )),
{
    lemma_window_taint(lines_of(raw), limit);
    lemma_taint_entries(lines_of(raw));
    lemma_taint_entries(window(lines_of(raw), limit));
}

/// A trimmed journal is short: it keeps the last lines, no more of them than it
/// may, and at most one line from before them, which stands for a call that
/// brought untrusted content in.
pub proof fn law_trimmed_journal_is_short(raw: Seq<char>)
    ensures
        lines_of(trimmed_to(raw)).len() <= KEEP_ENTRIES + 1,
        last_taint(lines_of(raw)) is None ==> lines_of(trimmed_to(raw)).len() <= KEEP_ENTRIES,
        ends_a_line(trimmed_to(raw)),
        raw.len() > 0 ==> lines_of(trimmed_to(raw)) == window(
            lines_of(raw),
            KEEP_ENTRIES as nat,
        ).map_values(|s: Seq<char>| without_cr(s)),
{
    let all = lines_of(raw);
    let l = window(all, KEEP_ENTRIES as nat);
    lemma_lines(raw);
    lemma_window(all, KEEP_ENTRIES as nat);
    assert forall|i: int| 0 <= i < l.len() implies !(#[trigger] l[i]).contains('\n') by {
        let k = choose|k: int| 0 <= k < all.len() && all[k] == l[i];
        assert(!all[k].contains('\n'));
    }
    reveal_strlit("\n");
    assert("\n"@ =~= seq!['\n']);
    assert(trimmed_to(raw) =~= joined(l, seq!['\n']).push('\n'));
    if raw.len() > 0 {
        lemma_joined_lines(l);
    } else {
        assert(l =~= Seq::<Seq<char>>::empty());
        lemma_one_line(seq![]);
    }
}

/// Where no line ends with a carriage return of its own, the lines that are kept
/// stay as they are.
proof fn lemma_trimmed_lines(raw: Seq<char>)
    requires
        raw.len() > 0,
        forall|i: int|
            0 <= i < lines_of(raw).len() ==> without_cr(#[trigger] lines_of(raw)[i]) == lines_of(
                raw,
            )[i],
    ensures
        lines_of(trimmed_to(raw)) == window(lines_of(raw), KEEP_ENTRIES as nat),
{
    law_trimmed_journal_is_short(raw);
    let all = lines_of(raw);
    let l = window(all, KEEP_ENTRIES as nat);
    lemma_window(all, KEEP_ENTRIES as nat);
    assert(l.map_values(|s: Seq<char>| without_cr(s)) =~= l) by {
        assert forall|i: int| 0 <= i < l.len() implies without_cr(#[trigger] l[i]) == l[i] by {
            let k = choose|k: int| 0 <= k < all.len() && all[k] == l[i];
            assert(without_cr(all[k]) == all[k]);
        }
    }
}

/// Trimming changes nothing that a reader of no more lines than are kept can see,
/// nor anything that a status line shows, where no line ends with a carriage
/// return of its own. No recorded line does.
pub proof fn law_trimming_is_invisible(raw: Seq<char>, limit: nat)
    requires
        raw.len() > 0,
        forall|i: int|
            0 <= i < lines_of(raw).len() ==> without_cr(#[trigger] lines_of(raw)[i]) == lines_of(
                raw,
            )[i],
        limit <= KEEP_ENTRIES,
    ensures
        entries_in(last_lines(lines_of(trimmed_to(raw)), limit)) == entries_in(
            last_lines(lines_of(raw), limit),
        ),
        entries_in(window(lines_of(trimmed_to(raw)), limit)) == entries_in(
            window(lines_of(raw), limit),
        ),
{
    lemma_trimmed_lines(raw);
    let all = lines_of(raw);
    let l = window(all, KEEP_ENTRIES as nat);
    lemma_window_taint(all, KEEP_ENTRIES as nat);
    assert(last_lines(l, limit) =~= last_lines(all, limit));
}

/// Trimming does not make a session trusted again: the trimmed journal holds a
/// call that brought untrusted content in, exactly if the journal did, where no
/// line ends with a carriage return of its own.
pub proof fn law_trimming_keeps_the_taint(raw: Seq<char>)
    requires
        raw.len() > 0,
        forall|i: int|
            0 <= i < lines_of(raw).len() ==> without_cr(#[trigger] lines_of(raw)[i]) == lines_of(
                raw,
            )[i],
    ensures
        (exists|i: int|
            0 <= i < entries_in(lines_of(trimmed_to(raw))).len() && taints(
                #[trigger] entries_in(lines_of(trimmed_to(raw)))[i],
            )) <==> (exists|i: int|
            0 <= i < entries_in(lines_of(raw)).len() && taints(
                #[trigger] entries_in(lines_of(raw))[i],
            )),
{
    lemma_trimmed_lines(raw);
    let all = lines_of(raw);
    let l = window(all, KEEP_ENTRIES as nat);
    lemma_window_taint(all, KEEP_ENTRIES as nat);
    lemma_taint_entries(all);
    lemma_taint_entries(l);
}

} // verus!
