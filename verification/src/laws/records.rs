//! What the journal holds and what is read back from it.

use vstd::prelude::*;
use vstd::string::*;
use vstd::utf8::encode_utf8;

use crate::journal::{
    entries_in, entry_from, entry_in, journal_path, last_lines, last_taint, line_value, subject,
    taint_line, taints, trimmed_to, window, EntryV, OutcomeV, KEEP_ENTRIES, MAX_BYTES, SUBJECT_MAX,
};
use crate::json::{parsed, JsonV};
use crate::laws::messages::{has_just, lemma_tool_names};
use crate::text::{cut_to, joined, lines_of};

verus! {

/// How much the journal keeps.
pub proof fn law_limits()
    ensures
        MAX_BYTES == 262144,
        KEEP_ENTRIES == 500,
        SUBJECT_MAX == 160,
{
}

/// A line of the journal says when a call was made, of which tool, against what, in
/// which pod, and what came of it. What is long is cut.
pub proof fn law_line_of_a_call(ts: u64, e: EntryV)
    ensures
        has_just(
            line_value(ts, e),
            set!["ts"@, "tool"@, "subject"@, "outcome"@, "detail"@, "pod"@],
        ),
        line_value(ts, e).get("ts"@) == Some(JsonV::Uint(ts)),
        line_value(ts, e).get("tool"@) == Some(JsonV::Str(e.tool)),
        line_value(ts, e).get("subject"@) == Some(JsonV::Str(cut_to(e.subject, 160))),
        line_value(ts, e).get("pod"@) == Some(JsonV::Str(e.pod)),
        line_value(ts, e).get("outcome"@) == Some(
            JsonV::Str(
                match e.outcome {
                    OutcomeV::Allowed => "allow"@,
                    OutcomeV::Refused(_) => "refuse"@,
                    OutcomeV::Failed(_) => "fail"@,
                },
            ),
        ),
        line_value(ts, e).get("detail"@) == Some(
            match e.outcome {
                OutcomeV::Allowed => JsonV::Null,
                OutcomeV::Refused(d) => JsonV::Str(cut_to(d, 160)),
                OutcomeV::Failed(d) => JsonV::Str(cut_to(d, 160)),
            },
        ),
{
    lemma_record_keys();
}

/// The keys of a line differ.
proof fn lemma_record_keys()
    ensures
        "ts"@.len() == 2,
        "tool"@.len() == 4,
        "subject"@.len() == 7,
        "outcome"@.len() == 7,
        "detail"@.len() == 6,
        "pod"@.len() == 3,
        "subject"@ != "outcome"@,
        "allow"@ != "refuse"@,
        "allow"@ != "fail"@,
        "refuse"@ != "fail"@,
{
    reveal_strlit("ts");
    reveal_strlit("tool");
    reveal_strlit("subject");
    reveal_strlit("outcome");
    reveal_strlit("detail");
    reveal_strlit("pod");
    reveal_strlit("allow");
    reveal_strlit("refuse");
    reveal_strlit("fail");
    assert("subject"@[0] == 's' && "outcome"@[0] == 'o');
    assert("allow"@.len() == 5 && "refuse"@.len() == 6 && "fail"@.len() == 4);
}

/// The string under a key, or the empty one.
pub open spec fn text_under(v: JsonV, key: Seq<char>) -> Seq<char> {
    match v.get(key) {
        Some(JsonV::Str(s)) => s,
        _ => seq![],
    }
}

/// A value stands for a call exactly if it names a tool and an outcome. An outcome
/// that is neither of the two that decide is a failure.
pub proof fn law_call_in_a_value(v: JsonV)
    ensures
        match (v.get("tool"@), v.get("outcome"@)) {
            (Some(JsonV::Str(tool)), Some(JsonV::Str(word))) => entry_from(v) matches Some(e) && {
                &&& e.tool == tool
                &&& e.subject == text_under(v, "subject"@)
                &&& e.pod == text_under(v, "pod"@)
                &&& word == "allow"@ ==> e.outcome == OutcomeV::Allowed
                &&& word == "refuse"@ ==> e.outcome == OutcomeV::Refused(text_under(v, "detail"@))
                &&& word != "allow"@ && word != "refuse"@ ==> e.outcome == OutcomeV::Failed(
                    text_under(v, "detail"@),
                )
            },
            _ => entry_from(v) is None,
        },
{
    lemma_record_keys();
}

/// A line stands for the call that its value stands for, and for none where it
/// holds no value.
pub proof fn law_call_in_a_line(line: Seq<char>)
    ensures
        entry_in(line) == match parsed(line) {
            Ok(v) => entry_from(v),
            Err(_) => None,
        },
{
}

/// The calls in some lines are in the order of the lines; lines that stand for none
/// are passed over.
pub proof fn law_calls_in_lines(a: Seq<Seq<char>>, b: Seq<Seq<char>>, line: Seq<char>)
    ensures
        entries_in(a + b) == entries_in(a) + entries_in(b),
        entries_in(seq![line]) == match entry_in(line) {
            Some(e) => seq![e],
            None => Seq::<EntryV>::empty(),
        },
    decreases b.len(),
{
    if b.len() == 0 {
        assert(a + b =~= a);
        assert(entries_in(a) + entries_in(b) =~= entries_in(a));
    } else {
        law_calls_in_lines(a, b.drop_last(), line);
        assert((a + b).drop_last() =~= a + b.drop_last());
        assert((a + b).last() == b.last());
        assert(entries_in(a + b) =~= entries_in(a) + entries_in(b));
    }
    let one = seq![line];
    assert(one.drop_last() =~= Seq::<Seq<char>>::empty());
    assert(entries_in(one.drop_last()) =~= Seq::<EntryV>::empty());
    assert(entries_in(one) =~= match entry_in(line) {
        Some(e) => seq![e],
        None => Seq::<EntryV>::empty(),
    });
}

/// The last lines are the last ones: as many as were asked for, or all there are.
pub proof fn law_last_lines(a: Seq<Seq<char>>, b: Seq<Seq<char>>, n: nat)
    requires
        b.len() == n || (b.len() < n && a.len() == 0),
    ensures
        last_lines(a + b, n) == b,
{
    assert((a + b).skip(a.len() as int) =~= b);
    if a.len() == 0 {
        assert(a + b =~= b);
    }
}

/// An egress call that the pod performed brings untrusted content in, and nothing
/// else does.
pub proof fn law_taint(e: EntryV)
    ensures
        taints(e) <==> e.outcome is Allowed && (e.tool == "web_fetch"@ || e.tool == "web_search"@),
{
}

/// Whether a line stands for an egress call that the pod performed.
pub open spec fn taint_in(line: Seq<char>) -> bool {
    entry_in(line) matches Some(e) && e.outcome is Allowed && (e.tool == "web_fetch"@ || e.tool
        == "web_search"@)
}

/// Whether none of some lines stands for such a call.
pub open spec fn no_taint(l: Seq<Seq<char>>) -> bool {
    forall|i: int| 0 <= i < l.len() ==> !taint_in(#[trigger] l[i])
}

/// What is kept of a journal is its last lines. Where these hold no call that
/// brought untrusted content in and an earlier line does, the last such line comes
/// before them, and no other.
pub proof fn law_window(
    a: Seq<Seq<char>>,
    t: Seq<char>,
    b: Seq<Seq<char>>,
    last: Seq<Seq<char>>,
    n: nat,
)
    requires
        last.len() == n,
        no_taint(b),
        taint_in(t),
    ensures
        no_taint(last) ==> window(a + seq![t] + b + last, n) == seq![t] + last,
        !no_taint(last) ==> window(a + seq![t] + b + last, n) == last,
        no_taint(last) ==> window(b + last, n) == last,
        !no_taint(last) ==> window(b + last, n) == last,
        forall|few: Seq<Seq<char>>| few.len() <= n ==> #[trigger] window(few, n) == few,
{
    let all = a + seq![t] + b + last;
    law_last_lines(a + seq![t] + b, last, n);
    law_last_lines(b, last, n);
    if no_taint(last) {
        lemma_no_taint(last);
        let bl = b + last;
        assert forall|i: int| 0 <= i < bl.len() implies !taint_in(#[trigger] bl[i]) by {
            if i < b.len() {
                assert(bl[i] == b[i]);
            } else {
                assert(bl[i] == last[i - b.len()]);
            }
        }
        lemma_no_taint(bl);
        lemma_last_taint(a, t, bl);
        assert(a + seq![t] + bl =~= all);
    } else {
        lemma_some_taint(last);
    }
    assert forall|few: Seq<Seq<char>>| few.len() <= n implies #[trigger] window(few, n) == few by {}
}

/// Where no line stands for such a call, none is found.
proof fn lemma_no_taint(l: Seq<Seq<char>>)
    requires
        no_taint(l),
    ensures
        last_taint(l) is None,
    decreases l.len(),
{
    if l.len() > 0 {
        let d = l.drop_last();
        assert forall|i: int| 0 <= i < d.len() implies !taint_in(#[trigger] d[i]) by {
            assert(d[i] == l[i]);
        }
        lemma_no_taint(d);
        assert(!taint_in(l[l.len() - 1]));
        assert(!taint_line(l.last()));
    }
}

/// Where a line stands for such a call, one is found.
proof fn lemma_some_taint(l: Seq<Seq<char>>)
    requires
        !no_taint(l),
    ensures
        last_taint(l) is Some,
    decreases l.len(),
{
    let i = choose|i: int| 0 <= i < l.len() && taint_in(#[trigger] l[i]);
    if !taint_line(l.last()) {
        let d = l.drop_last();
        assert(d[i] == l[i]);
        lemma_some_taint(d);
    }
}

/// The last line that stands for such a call.
proof fn lemma_last_taint(a: Seq<Seq<char>>, t: Seq<char>, b: Seq<Seq<char>>)
    requires
        taint_in(t),
        no_taint(b),
    ensures
        last_taint(a + seq![t] + b) == Some(t),
    decreases b.len(),
{
    let l = a + seq![t] + b;
    if b.len() == 0 {
        assert(l.last() == t);
        assert(taint_line(t));
    } else {
        let d = b.drop_last();
        assert forall|i: int| 0 <= i < d.len() implies !taint_in(#[trigger] d[i]) by {
            assert(d[i] == b[i]);
        }
        lemma_last_taint(a, t, d);
        assert(!taint_in(b[b.len() - 1]));
        assert(!taint_line(l.last()));
        assert(l.drop_last() =~= a + seq![t] + d);
    }
}

/// A trimmed journal is what is kept of its lines, each ended by a line feed.
pub proof fn law_trimmed_journal(raw: Seq<char>)
    ensures
        trimmed_to(raw) == joined(window(lines_of(raw), 500), seq!['\n']) + seq!['\n'],
{
    reveal_strlit("\n");
    assert("\n"@ =~= seq!['\n']);
}

/// A directory as it stands before a name: with one slash at its end.
pub open spec fn before_a_name(dir: Seq<u8>) -> Seq<u8> {
    if dir.len() > 0 && dir.last() != 47 {
        dir.push(47)
    } else {
        dir
    }
}

/// The journal is where it is said to be, and nowhere where that is empty; else in
/// its place under the state directory, and else under the home directory.
pub proof fn law_place(
    explicit: Seq<u8>,
    state: Option<Seq<u8>>,
    home: Option<Seq<u8>>,
    dir: Seq<u8>,
)
    ensures
        journal_path(Some(explicit), state, home) == if explicit.len() == 0 {
            None
        } else {
            Some(explicit)
        },
        journal_path(None, Some(dir), home) == Some(
            before_a_name(before_a_name(dir) + encode_utf8("ccn"@)) + encode_utf8(
                "journal.jsonl"@,
            ),
        ),
        journal_path(None, None, Some(dir)) == journal_path(
            None,
            Some(before_a_name(dir) + encode_utf8(".local/state"@)),
            home,
        ),
        journal_path(None, None, None) is None,
{
}

/// What a call is about.
pub proof fn law_subjects(args: JsonV, other: Seq<char>)
    ensures
        subject("read"@, args) == text_under(args, "file_path"@),
        subject("write"@, args) == text_under(args, "file_path"@),
        subject("run"@, args) == text_under(args, "command"@),
        subject("web_fetch"@, args) == text_under(args, "url"@),
        subject("web_search"@, args) == text_under(args, "query"@),
        forall|tool: Seq<char>|
            tool == "glob"@ || tool == "grep"@ ==> #[trigger] subject(tool, args) == if text_under(
                args,
                "path"@,
            ).len() == 0 {
                text_under(args, "pattern"@)
            } else {
                text_under(args, "pattern"@) + " in "@ + text_under(args, "path"@)
            },
        !seq![
            "read"@,
            "write"@,
            "run"@,
            "glob"@,
            "grep"@,
            "web_fetch"@,
            "web_search"@,
        ].contains(other) ==> subject(other, args).len() == 0,
{
    lemma_tool_names();
    let l = seq!["read"@, "write"@, "run"@, "glob"@, "grep"@, "web_fetch"@, "web_search"@];
    assert(l[0] == "read"@ && l[1] == "write"@ && l[2] == "run"@ && l[3] == "glob"@ && l[4]
        == "grep"@ && l[5] == "web_fetch"@ && l[6] == "web_search"@);
}

} // verus!
