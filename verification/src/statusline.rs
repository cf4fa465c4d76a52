//! The lattice position, continuously: one or two rows for a status line.
//!
//! A mediated call gets refused, the reason goes past in one tool result, and
//! from then on nobody can see why the next call keeps failing. The rows here go on
//! saying it. `~` marks an inference: the bridge cannot read
//! the session's label, so it derives taint from its own observations. An egress
//! call that the pod performed is untrusted content entering the session. That
//! never claims clean when tainted, and it is not the label.

use vstd::prelude::*;
use vstd::string::*;

use crate::journal::{
    entries_in, history, law_shown_calls_keep_the_taint, shown, taints, window, Entry, EntryV,
    Outcome, OutcomeV,
};
use crate::text::{
    after_final, begins, chars, concat, concat_of, cut, cut_to, decimal, is_space, law_cut_fits,
    lemma_decimal, lemma_trim_start, lines_of, push_decimal, slices, strip, stripped, texts,
    trim, trim_end, trim_start, trim_start_matches, trimmed, without_prefixes,
};

verus! {

/// How far back the status line reads.
pub const WINDOW: usize = 200;

/// The width to aim for. A status line is not told how wide it is, so this is a
/// budget rather than a measurement.
pub const WIDTH: usize = 80;

/// What a subject gets of the second row. A reason gets whatever the rest of the
/// row leaves, because real refusals are long.
pub const SUBJECT_BUDGET: usize = 20;

/// The least that a reason gets of the second row.
pub const REASON_LEAST: usize = 24;

/// An escape sequence where colour is wanted, and nothing where it is not.
pub open spec fn paint(colour: bool, code: Seq<char>) -> Seq<char> {
    if colour {
        code
    } else {
        seq![]
    }
}

/// The sequence that dims.
pub open spec fn dim(colour: bool) -> Seq<char> {
    paint(colour, "\x1b[2m"@)
}

/// The sequence for green.
pub open spec fn green(colour: bool) -> Seq<char> {
    paint(colour, "\x1b[32m"@)
}

/// The sequence for yellow.
pub open spec fn yellow(colour: bool) -> Seq<char> {
    paint(colour, "\x1b[33m"@)
}

/// The sequence for red.
pub open spec fn red(colour: bool) -> Seq<char> {
    paint(colour, "\x1b[31m"@)
}

/// The sequence that ends a colour.
pub open spec fn reset(colour: bool) -> Seq<char> {
    paint(colour, "\x1b[0m"@)
}

/// The sequences of one rendering.
struct Palette {
    colour: bool,
    dim: &'static str,
    green: &'static str,
    yellow: &'static str,
    red: &'static str,
    reset: &'static str,
}

impl Palette {
    /// Whether these are the sequences for the rendering that the palette names.
    spec fn wf(self) -> bool {
        &&& self.dim@ == dim(self.colour)
        &&& self.green@ == green(self.colour)
        &&& self.yellow@ == yellow(self.colour)
        &&& self.red@ == red(self.colour)
        &&& self.reset@ == reset(self.colour)
    }
}

/// The sequences for a rendering with or without colour.
fn palette(colour: bool) -> (r: Palette)
    ensures
        r.wf(),
        r.colour == colour,
{
    if colour {
        Palette {
            colour,
            dim: "\x1b[2m",
            green: "\x1b[32m",
            yellow: "\x1b[33m",
            red: "\x1b[31m",
            reset: "\x1b[0m",
        }
    } else {
        proof {
            reveal_strlit("");
        }
        assert(""@ =~= Seq::<char>::empty());
        Palette { colour, dim: "", green: "", yellow: "", red: "", reset: "" }
    }
}

/// The last entry that has a property, if one has it.
pub open spec fn last_where(e: Seq<EntryV>, p: spec_fn(EntryV) -> bool) -> Option<EntryV>
    decreases e.len(),
{
    if e.len() == 0 {
        None
    } else if p(e.last()) {
        Some(e.last())
    } else {
        last_where(e.drop_last(), p)
    }
}

/// How many entries have a property.
pub open spec fn count_where(e: Seq<EntryV>, p: spec_fn(EntryV) -> bool) -> nat
    decreases e.len(),
{
    if e.len() == 0 {
        0
    } else {
        count_where(e.drop_last(), p) + if p(e.last()) {
            1nat
        } else {
            0
        }
    }
}

/// The calls that the pod performed.
pub open spec fn is_allowed() -> spec_fn(EntryV) -> bool {
    |e: EntryV| e.outcome is Allowed
}

/// The calls that were refused.
pub open spec fn is_refused() -> spec_fn(EntryV) -> bool {
    |e: EntryV| e.outcome is Refused
}

/// The calls that did not reach a verdict.
pub open spec fn is_failed() -> spec_fn(EntryV) -> bool {
    |e: EntryV| e.outcome is Failed
}

/// The calls that brought untrusted content into the session: egress that the
/// pod performed.
pub open spec fn is_taint() -> spec_fn(EntryV) -> bool {
    |e: EntryV| taints(e)
}

/// The calls that name their pod.
pub open spec fn names_pod() -> spec_fn(EntryV) -> bool {
    |e: EntryV| e.pod.len() > 0
}

/// The pod that the history last names.
pub open spec fn pod_of(e: Seq<EntryV>) -> Seq<char> {
    match last_where(e, names_pod()) {
        Some(x) => x.pod,
        None => "pod"@,
    }
}

/// A text squeezed into a budget. A URL loses its scheme before it loses its
/// host, because the host tells where the untrusted bytes came from.
pub open spec fn shortened(s: Seq<char>, budget: nat) -> Seq<char> {
    cut_to(
        without_prefixes(without_prefixes(trimmed(s), "https://"@), "http://"@),
        budget,
    )
}

/// The row of a session that has called nothing.
pub open spec fn quiet_row(colour: bool) -> Seq<char> {
    concat_of(
        seq![
            green(colour),
            "nucleus"@,
            reset(colour),
            " "@,
            dim(colour),
            "● gate on · no mediated calls yet"@,
            reset(colour),
        ],
    )
}

/// The first row of a session: the pod, the health of the bridge, and how many
/// calls were performed.
pub open spec fn summary_row(e: Seq<EntryV>, colour: bool) -> Seq<char> {
    concat_of(
        seq![
            green(colour),
            "nucleus"@,
            reset(colour),
            " "@,
            if count_where(e, is_failed()) > 0 {
                red(colour)
            } else {
                green(colour)
            },
            "●"@,
            reset(colour),
            " "@,
            dim(colour),
            pod_of(e),
            reset(colour),
            " "@,
            dim(colour),
            "·"@,
            reset(colour),
            " "@,
            decimal(count_where(e, is_allowed())),
            " ok"@,
        ],
    )
}

/// A count with its word, in a colour, after a dot; nothing where it is zero.
pub open spec fn tally(n: nat, hue: Seq<char>, word: Seq<char>, colour: bool) -> Seq<char> {
    if n == 0 {
        seq![]
    } else {
        concat_of(
            seq![
                " "@,
                dim(colour),
                "·"@,
                reset(colour),
                " "@,
                hue,
                decimal(n),
                " "@,
                word,
                reset(colour),
            ],
        )
    }
}

/// The first row.
pub open spec fn first_row(e: Seq<EntryV>, colour: bool) -> Seq<char> {
    summary_row(e, colour) + tally(
        count_where(e, is_refused()),
        yellow(colour),
        "refused"@,
        colour,
    ) + tally(count_where(e, is_failed()), red(colour), "failed"@, colour)
}

/// What is said of the call that tainted the session.
pub open spec fn taint_part(e: EntryV, colour: bool) -> Seq<char> {
    concat_of(
        seq![
            yellow(colour),
            "⚠ untrusted"@,
            reset(colour),
            " "@,
            dim(colour),
            "~ "@,
            e.tool,
            " "@,
            shortened(e.subject, SUBJECT_BUDGET as nat),
            reset(colour),
        ],
    )
}

/// The reason of a refusal, or a word in its place.
pub open spec fn reason_of(e: EntryV) -> Seq<char> {
    match e.outcome {
        OutcomeV::Refused(why) => if why.len() == 0 {
            "refused"@
        } else {
            why
        },
        _ => "refused"@,
    }
}

/// What stands after the tool: a space and the subject of the call, or a colon
/// where it has none.
pub open spec fn after_tool(e: EntryV) -> Seq<char> {
    let s = shortened(e.subject, SUBJECT_BUDGET as nat);
    if s.len() == 0 {
        ":"@
    } else {
        " "@ + s
    }
}

/// How much of the row is spoken for before the reason: the margin, what stands
/// before this part, the tool and the subject.
pub open spec fn spoken_for(before: Option<Seq<char>>, e: EntryV) -> nat {
    let first: nat = match before {
        Some(part) => stripped(part).len() + 3,
        None => 0,
    };
    2 + first + e.tool.len() + after_tool(e).len() + 3
}

/// How much of the row a reason gets.
pub open spec fn reason_budget(used: nat) -> nat {
    if used + REASON_LEAST <= WIDTH {
        (WIDTH - used) as nat
    } else {
        REASON_LEAST as nat
    }
}

/// What is said of the last refusal: which call, against what, and why.
pub open spec fn refusal_part(before: Option<Seq<char>>, e: EntryV, colour: bool) -> Seq<char> {
    concat_of(
        seq![
            red(colour),
            "✗ "@,
            e.tool,
            after_tool(e),
            reset(colour),
            " "@,
            dim(colour),
            shortened(reason_of(e), reason_budget(spoken_for(before, e))),
            reset(colour),
        ],
    )
}

/// The second row, when there is something worth a row.
pub open spec fn alert_row(e: Seq<EntryV>, colour: bool) -> Option<Seq<char>> {
    match (last_where(e, is_taint()), last_where(e, is_refused())) {
        (None, None) => None,
        (Some(t), None) => Some("  "@ + taint_part(t, colour)),
        (None, Some(r)) => Some("  "@ + refusal_part(None, r, colour)),
        (Some(t), Some(r)) => {
            let part = taint_part(t, colour);
            Some(
                "  "@ + (part + concat_of(
                    seq![" "@, dim(colour), "·"@, reset(colour), " "@],
                ) + refusal_part(Some(part), r, colour)),
            )
        },
    }
}

/// The rows for a history.
pub open spec fn rows(e: Seq<EntryV>, colour: bool) -> Seq<Seq<char>> {
    if e.len() == 0 {
        seq![quiet_row(colour)]
    } else {
        match alert_row(e, colour) {
            Some(second) => seq![first_row(e, colour), second],
            None => seq![first_row(e, colour)],
        }
    }
}

/// Squeezes a text into a budget.
pub fn short(s: &str, budget: usize) -> (r: String)
    ensures
        r@ == shortened(s@, budget as nat),
{
    let c = chars(s);
    let https = chars("https://");
    let http = chars("http://");
    let rest = trim_start_matches(trim(c.as_slice()), https.as_slice());
    cut(trim_start_matches(rest, http.as_slice()), budget)
}

/// The width of a text as a terminal renders it: escape sequences occupy no
/// columns.
pub fn visible(s: &str) -> (r: usize)
    ensures
        r == stripped(s@).len(),
{
    let c = chars(s);
    strip(c.as_slice()).len()
}

/// The call that put untrusted content into the session, if one did.
///
/// A fetch that was refused brought nothing in, so it does not taint.
pub fn taint_source(entries: &[Entry]) -> (r: Option<&Entry>)
    ensures
        match r {
            Some(e) => last_where(history(entries@), is_taint()) == Some(e@),
            None => last_where(history(entries@), is_taint()) is None,
        },
{
    let ghost h = history(entries@);
    let mut i: usize = entries.len();
    assert(h.take(i as int) == h);
    while 0 < i
        invariant
            i <= entries@.len(),
            h == history(entries@),
            last_where(h, is_taint()) == last_where(h.take(i as int), is_taint()),
        decreases i,
    {
        assert(h.take(i as int).drop_last() == h.take(i - 1));
        assert(h.take(i as int).last() == entries@[i - 1]@);
        let e = &entries[i - 1];
        if e.taints() {
            return Some(e);
        }
        i -= 1;
    }
    None
}

/// The most recent refusal, which is what a user is trying to understand when
/// they look at the bar at all.
fn last_refusal(entries: &[Entry]) -> (r: Option<&Entry>)
    ensures
        match r {
            Some(e) => last_where(history(entries@), is_refused()) == Some(e@),
            None => last_where(history(entries@), is_refused()) is None,
        },
{
    let ghost h = history(entries@);
    let mut i: usize = entries.len();
    assert(h.take(i as int) == h);
    while 0 < i
        invariant
            i <= entries@.len(),
            h == history(entries@),
            last_where(h, is_refused()) == last_where(h.take(i as int), is_refused()),
        decreases i,
    {
        assert(h.take(i as int).drop_last() == h.take(i - 1));
        assert(h.take(i as int).last() == entries@[i - 1]@);
        let e = &entries[i - 1];
        match &e.outcome {
            Outcome::Refused(_) => {
                return Some(e);
            },
            _ => {},
        }
        i -= 1;
    }
    None
}

/// The pod that the history last names.
fn pod_name(entries: &[Entry]) -> (r: &str)
    ensures
        r@ == pod_of(history(entries@)),
{
    let ghost h = history(entries@);
    let mut i: usize = entries.len();
    assert(h.take(i as int) == h);
    while 0 < i
        invariant
            i <= entries@.len(),
            h == history(entries@),
            last_where(h, names_pod()) == last_where(h.take(i as int), names_pod()),
        decreases i,
    {
        assert(h.take(i as int).drop_last() == h.take(i - 1));
        assert(h.take(i as int).last() == entries@[i - 1]@);
        if !entries[i - 1].pod.as_str().is_empty() {
            return entries[i - 1].pod.as_str();
        }
        i -= 1;
    }
    "pod"
}

/// How many calls were performed, were refused and did not reach a verdict.
fn tallies(entries: &[Entry]) -> (r: (usize, usize, usize))
    ensures
        r.0 == count_where(history(entries@), is_allowed()),
        r.1 == count_where(history(entries@), is_refused()),
        r.2 == count_where(history(entries@), is_failed()),
{
    let ghost h = history(entries@);
    let mut allowed: usize = 0;
    let mut refused: usize = 0;
    let mut failed: usize = 0;
    let mut i: usize = 0;
    while i < entries.len()
        invariant
            i <= entries@.len(),
            h == history(entries@),
            allowed <= i && refused <= i && failed <= i,
            allowed == count_where(h.take(i as int), is_allowed()),
            refused == count_where(h.take(i as int), is_refused()),
            failed == count_where(h.take(i as int), is_failed()),
        decreases entries@.len() - i,
    {
        assert(h.take(i + 1).drop_last() == h.take(i as int));
        assert(h.take(i + 1).last() == entries@[i as int]@);
        match &entries[i].outcome {
            Outcome::Allowed => {
                allowed += 1;
            },
            Outcome::Refused(_) => {
                refused += 1;
            },
            Outcome::Failed(_) => {
                failed += 1;
            },
        }
        i += 1;
    }
    assert(h.take(i as int) == h);
    (allowed, refused, failed)
}

/// A number in decimal notation.
fn number(n: usize) -> (r: String)
    ensures
        r@ == decimal(n as nat),
{
    let mut out = String::new();
    push_decimal(&mut out, n as u128);
    assert(out@ =~= decimal(n as nat));
    out
}

/// Adds a count with its word, unless it is zero.
fn push_tally(out: &mut String, n: usize, hue: &str, word: &str, p: &Palette)
    requires
        p.wf(),
    ensures
        final(out)@ == old(out)@ + tally(n as nat, hue@, word@, p.colour),
{
    if n > 0 {
        let count = number(n);
        let parts: [&str; 10] = [
            " ",
            p.dim,
            "·",
            p.reset,
            " ",
            hue,
            count.as_str(),
            " ",
            word,
            p.reset,
        ];
        let piece = concat(&parts);
        assert(slices(parts@) =~= seq![
            " "@,
            dim(p.colour),
            "·"@,
            reset(p.colour),
            " "@,
            hue@,
            decimal(n as nat),
            " "@,
            word@,
            reset(p.colour),
        ]);
        out.append(piece.as_str());
    } else {
        assert(out@ + tally(n as nat, hue@, word@, p.colour) =~= out@);
    }
}

/// The second row, when there is something worth a row.
fn alerts(entries: &[Entry], p: &Palette) -> (r: Option<String>)
    requires
        p.wf(),
    ensures
        match r {
            Some(row) => alert_row(history(entries@), p.colour) == Some(row@),
            None => alert_row(history(entries@), p.colour) is None,
        },
{
    let taint: Option<String> = match taint_source(entries) {
        Some(source) => {
            let subject = short(source.subject.as_str(), SUBJECT_BUDGET);
            let parts: [&str; 10] = [
                p.yellow,
                "⚠ untrusted",
                p.reset,
                " ",
                p.dim,
                "~ ",
                source.tool.as_str(),
                " ",
                subject.as_str(),
                p.reset,
            ];
            let part = concat(&parts);
            assert(slices(parts@) =~= seq![
                yellow(p.colour),
                "⚠ untrusted"@,
                reset(p.colour),
                " "@,
                dim(p.colour),
                "~ "@,
                source@.tool,
                " "@,
                shortened(source@.subject, SUBJECT_BUDGET as nat),
                reset(p.colour),
            ]);
            assert(part@ == taint_part(source@, p.colour));
            Some(part)
        },
        None => None,
    };
    let refusal: Option<String> = match last_refusal(entries) {
        Some(last) => {
            let why: &str = match &last.outcome {
                Outcome::Refused(why) => if why.as_str().is_empty() {
                    "refused"
                } else {
                    why.as_str()
                },
                _ => "refused",
            };
            assert(why@ == reason_of(last@));
            let cut_subject = short(last.subject.as_str(), SUBJECT_BUDGET);
            let mut subject = String::new();
            if cut_subject.as_str().is_empty() {
                subject.append(":");
            } else {
                subject.append(" ");
                subject.append(cut_subject.as_str());
            }
            assert(subject@ =~= after_tool(last@));
            let before: u128 = match &taint {
                Some(part) => visible(part.as_str()) as u128 + 3,
                None => 0,
            };
            let used: u128 = 2 + before + last.tool.as_str().unicode_len() as u128
                + subject.as_str().unicode_len() as u128 + 3;
            let budget: usize = if used + REASON_LEAST as u128 <= WIDTH as u128 {
                WIDTH - used as usize
            } else {
                REASON_LEAST
            };
            let reason = short(why, budget);
            let parts: [&str; 9] = [
                p.red,
                "✗ ",
                last.tool.as_str(),
                subject.as_str(),
                p.reset,
                " ",
                p.dim,
                reason.as_str(),
                p.reset,
            ];
            let part = concat(&parts);
            assert(slices(parts@) =~= seq![
                red(p.colour),
                "✗ "@,
                last@.tool,
                after_tool(last@),
                reset(p.colour),
                " "@,
                dim(p.colour),
                reason@,
                reset(p.colour),
            ]);
            assert(part@ == refusal_part(
                match taint {
                    Some(t) => Some(t@),
                    None => None,
                },
                last@,
                p.colour,
            ));
            Some(part)
        },
        None => None,
    };
    let mut row = "  ".to_owned();
    match (taint, refusal) {
        (None, None) => None,
        (Some(t), None) => {
            row.append(t.as_str());
            Some(row)
        },
        (None, Some(r)) => {
            row.append(r.as_str());
            Some(row)
        },
        (Some(t), Some(r)) => {
            let parts: [&str; 5] = [" ", p.dim, "·", p.reset, " "];
            let between = concat(&parts);
            assert(slices(parts@) =~= seq![" "@, dim(p.colour), "·"@, reset(p.colour), " "@]);
            let mut both = t;
            both.append(between.as_str());
            both.append(r.as_str());
            row.append(both.as_str());
            Some(row)
        },
    }
}

/// One or two rows, from the history alone.
pub fn render(entries: &[Entry], colour: bool) -> (r: Vec<String>)
    ensures
        texts(r@) == rows(history(entries@), colour),
{
    let p = palette(colour);
    let mut out: Vec<String> = Vec::new();
    if entries.len() == 0 {
        let parts: [&str; 7] = [
            p.green,
            "nucleus",
            p.reset,
            " ",
            p.dim,
            "● gate on · no mediated calls yet",
            p.reset,
        ];
        let row = concat(&parts);
        assert(slices(parts@) =~= seq![
            green(colour),
            "nucleus"@,
            reset(colour),
            " "@,
            dim(colour),
            "● gate on · no mediated calls yet"@,
            reset(colour),
        ]);
        out.push(row);
        assert(texts(out@) =~= rows(history(entries@), colour));
        return out;
    }
    let (allowed, refused, failed) = tallies(entries);
    let hue: &'static str = if failed > 0 {
        p.red
    } else {
        p.green
    };
    let count = number(allowed);
    let pod = pod_name(entries);
    let parts: [&str; 18] = [
        p.green,
        "nucleus",
        p.reset,
        " ",
        hue,
        "●",
        p.reset,
        " ",
        p.dim,
        pod,
        p.reset,
        " ",
        p.dim,
        "·",
        p.reset,
        " ",
        count.as_str(),
        " ok",
    ];
    let mut first = concat(&parts);
    assert(slices(parts@) =~= seq![
        green(colour),
        "nucleus"@,
        reset(colour),
        " "@,
        hue@,
        "●"@,
        reset(colour),
        " "@,
        dim(colour),
        pod@,
        reset(colour),
        " "@,
        dim(colour),
        "·"@,
        reset(colour),
        " "@,
        decimal(allowed as nat),
        " ok"@,
    ]);
    assert(first@ == summary_row(history(entries@), colour));
    push_tally(&mut first, refused, p.yellow, "refused", &p);
    push_tally(&mut first, failed, p.red, "failed", &p);
    out.push(first);
    match alerts(entries, &p) {
        Some(second) => {
            out.push(second);
        },
        None => {},
    }
    assert(texts(out@) =~= rows(history(entries@), colour));
    out
}

/// The rows for a journal: of the calls in the last lines of it, and of the last
/// call that brought untrusted content in, wherever it stands.
pub fn run(raw: &str, colour: bool) -> (r: Vec<String>)
    ensures
        texts(r@) == rows(entries_in(window(lines_of(raw@), WINDOW as nat)), colour),
{
    let entries = shown(raw, WINDOW);
    render(entries.as_slice(), colour)
}

/// Whether a text holds no escape character.
pub open spec fn clean(s: Seq<char>) -> bool {
    forall|i: int| 0 <= i < s.len() ==> #[trigger] s[i] != '\u{1b}'
}

/// Whether no text of an entry holds an escape character.
pub open spec fn clean_entry(e: EntryV) -> bool {
    &&& clean(e.tool)
    &&& clean(e.subject)
    &&& clean(e.pod)
    &&& e.outcome matches OutcomeV::Refused(why) ==> clean(why)
}

/// Whether a text can be stripped apart from what follows it.
spec fn neutral(a: Seq<char>) -> bool {
    forall|b: Seq<char>| #[trigger] stripped(a + b) == stripped(a) + stripped(b)
}

/// Stripping leaves a clean text as it is.
proof fn lemma_clean(a: Seq<char>)
    requires
        clean(a),
    ensures
        neutral(a),
        stripped(a) == a,
{
    let empty = Seq::<char>::empty();
    assert forall|b: Seq<char>| #[trigger] stripped(a + b) == a + stripped(b) by {
        lemma_clean_before(a, b);
    }
    assert(stripped(a + empty) == a + stripped(empty));
    assert(a + empty =~= a);
    assert(stripped(a) =~= a);
}

/// Stripping leaves the clean beginning of a text as it is.
proof fn lemma_clean_before(a: Seq<char>, b: Seq<char>)
    requires
        clean(a),
    ensures
        stripped(a + b) == a + stripped(b),
    decreases a.len(),
{
    if a.len() == 0 {
        assert(a + b =~= b);
        assert(a + stripped(b) =~= stripped(b));
    } else {
        let d = a.drop_first();
        assert forall|i: int| 0 <= i < d.len() implies #[trigger] d[i] != '\u{1b}' by {
            assert(d[i] == a[i + 1]);
        }
        lemma_clean_before(d, b);
        assert((a + b)[0] == a[0]);
        assert((a + b).drop_first() =~= d + b);
        assert(seq![a[0]] + (d + stripped(b)) =~= a + stripped(b));
    }
}

/// Stripping removes a colour sequence.
proof fn lemma_code(code: Seq<char>)
    requires
        code.len() == 4 || code.len() == 5,
        code[0] == '\u{1b}',
        code[1] == '[',
        forall|i: int| 2 <= i < code.len() - 1 ==> '0' <= #[trigger] code[i] <= '9',
        code.last() == 'm',
    ensures
        neutral(code),
        stripped(code) == Seq::<char>::empty(),
{
    let empty = Seq::<char>::empty();
    assert forall|b: Seq<char>| #[trigger] stripped(code + b) == stripped(b) by {
        let t = (code + b).drop_first();
        assert((code + b)[0] == '\u{1b}');
        assert(t[0] == '[');
        let u = t.drop_first();
        assert(u[0] == code[2]);
        let v = u.drop_first();
        assert(v[0] == code[3]);
        if code.len() == 4 {
            assert(v.drop_first() =~= b);
            assert(after_final(v) == b);
            assert(after_final(u) == b);
        } else {
            let w = v.drop_first();
            assert(w[0] == code[4]);
            assert(w.drop_first() =~= b);
            assert(after_final(w) == b);
            assert(after_final(v) == b);
            assert(after_final(u) == b);
        }
    }
    assert(code + empty =~= code);
    assert(stripped(code + empty) == stripped(empty));
    assert forall|b: Seq<char>| #[trigger] stripped(code + b) == stripped(code) + stripped(b) by {
        assert(stripped(code) + stripped(b) =~= stripped(b));
    }
}

/// Two texts that can be stripped apart, one after the other, can be.
proof fn lemma_neutral_add(a: Seq<char>, b: Seq<char>)
    requires
        neutral(a),
        neutral(b),
    ensures
        neutral(a + b),
        stripped(a + b) == stripped(a) + stripped(b),
{
    assert forall|c: Seq<char>| #[trigger] stripped((a + b) + c) == stripped(a + b) + stripped(
        c,
    ) by {
        assert((a + b) + c =~= a + (b + c));
        assert(stripped(a + (b + c)) == stripped(a) + stripped(b + c));
        assert(stripped(b + c) == stripped(b) + stripped(c));
        assert(stripped(a) + (stripped(b) + stripped(c)) =~= (stripped(a) + stripped(b)) + stripped(
            c,
        ));
    }
}

/// Parts that can be stripped apart are stripped one by one.
proof fn lemma_neutral_concat(parts: Seq<Seq<char>>, plain: Seq<Seq<char>>)
    requires
        parts.len() == plain.len(),
        forall|i: int|
            0 <= i < parts.len() ==> neutral(#[trigger] parts[i]) && stripped(parts[i]) == plain[i],
    ensures
        neutral(concat_of(parts)),
        stripped(concat_of(parts)) == concat_of(plain),
    decreases parts.len(),
{
    if parts.len() == 0 {
        lemma_clean(Seq::empty());
    } else {
        let d = parts.drop_last();
        let q = plain.drop_last();
        assert forall|i: int| 0 <= i < d.len() implies neutral(#[trigger] d[i]) && stripped(d[i])
            == q[i] by {
            assert(d[i] == parts[i]);
        }
        lemma_neutral_concat(d, q);
        assert(neutral(parts[parts.len() - 1]));
        lemma_neutral_add(concat_of(d), parts.last());
    }
}

/// The colour sequences are removed, and the fixed words are not.
proof fn lemma_pieces()
    ensures
        neutral(dim(true)) && stripped(dim(true)) == dim(false),
        neutral(green(true)) && stripped(green(true)) == green(false),
        neutral(yellow(true)) && stripped(yellow(true)) == yellow(false),
        neutral(red(true)) && stripped(red(true)) == red(false),
        neutral(reset(true)) && stripped(reset(true)) == reset(false),
        clean("nucleus"@),
        clean(" "@),
        clean(":"@),
        clean("  "@),
        clean("● gate on · no mediated calls yet"@),
        clean("●"@),
        clean("·"@),
        clean(" ok"@),
        clean("refused"@),
        clean("failed"@),
        clean("⚠ untrusted"@),
        clean("~ "@),
        clean("✗ "@),
        clean("pod"@),
{
    reveal_strlit("\x1b[2m");
    reveal_strlit("\x1b[32m");
    reveal_strlit("\x1b[33m");
    reveal_strlit("\x1b[31m");
    reveal_strlit("\x1b[0m");
    lemma_code("\x1b[2m"@);
    lemma_code("\x1b[32m"@);
    lemma_code("\x1b[33m"@);
    lemma_code("\x1b[31m"@);
    lemma_code("\x1b[0m"@);
    reveal_strlit("nucleus");
    reveal_strlit(" ");
    reveal_strlit(":");
    reveal_strlit("  ");
    reveal_strlit("● gate on · no mediated calls yet");
    reveal_strlit("●");
    reveal_strlit("·");
    reveal_strlit(" ok");
    reveal_strlit("refused");
    reveal_strlit("failed");
    reveal_strlit("⚠ untrusted");
    reveal_strlit("~ ");
    reveal_strlit("✗ ");
    reveal_strlit("pod");
}

/// The last entry with a property is an entry, and has it; where there is none,
/// no entry has it.
proof fn lemma_last_where(e: Seq<EntryV>, p: spec_fn(EntryV) -> bool)
    ensures
        match last_where(e, p) {
            Some(x) => p(x) && e.contains(x),
            None => forall|i: int| 0 <= i < e.len() ==> !p(#[trigger] e[i]),
        },
    decreases e.len(),
{
    if e.len() > 0 {
        let d = e.drop_last();
        assert(e[e.len() - 1] == e.last());
        if !p(e.last()) {
            lemma_last_where(d, p);
            match last_where(d, p) {
                Some(x) => {
                    let i = choose|i: int| 0 <= i < d.len() && d[i] == x;
                    assert(e[i] == x);
                },
                None => {
                    assert forall|i: int| 0 <= i < e.len() implies !p(#[trigger] e[i]) by {
                        if i < d.len() {
                            assert(d[i] == e[i]);
                        }
                    }
                },
            }
        }
    }
}

/// Part of a clean text is clean.
proof fn lemma_clean_part(s: Seq<char>, i: int, j: int)
    requires
        clean(s),
        0 <= i <= j <= s.len(),
    ensures
        clean(s.subrange(i, j)),
{
    let t = s.subrange(i, j);
    assert forall|k: int| 0 <= k < t.len() implies #[trigger] t[k] != '\u{1b}' by {
        assert(t[k] == s[i + k]);
    }
}

/// Trimming white space off the end of a clean text leaves it clean.
proof fn lemma_clean_trim_end(s: Seq<char>)
    requires
        clean(s),
    ensures
        clean(trim_end(s)),
    decreases s.len(),
{
    if s.len() > 0 && is_space(s.last()) {
        lemma_clean_part(s, 0, s.len() - 1);
        assert(s.drop_last() =~= s.subrange(0, s.len() - 1));
        lemma_clean_trim_end(s.drop_last());
    }
}

/// Taking prefixes off a clean text leaves it clean.
proof fn lemma_clean_without_prefixes(s: Seq<char>, p: Seq<char>)
    requires
        clean(s),
    ensures
        clean(without_prefixes(s, p)),
    decreases s.len(),
{
    if p.len() > 0 && begins(s, p) {
        lemma_clean_part(s, p.len() as int, s.len() as int);
        assert(s.skip(p.len() as int) =~= s.subrange(p.len() as int, s.len() as int));
        lemma_clean_without_prefixes(s.skip(p.len() as int), p);
    }
}

/// Shortening a clean text leaves it clean.
proof fn lemma_clean_shortened(s: Seq<char>, budget: nat)
    requires
        clean(s),
    ensures
        clean(shortened(s, budget)),
{
    lemma_trim_start(s);
    let a = trim_start(s);
    lemma_clean_part(s, s.len() - a.len(), s.len() as int);
    assert(a =~= s.subrange(s.len() - a.len(), s.len() as int));
    lemma_clean_trim_end(a);
    lemma_clean_without_prefixes(trimmed(s), "https://"@);
    let b = without_prefixes(trimmed(s), "https://"@);
    lemma_clean_without_prefixes(b, "http://"@);
    let c = without_prefixes(b, "http://"@);
    if c.len() > budget {
        let k: int = if budget == 0 {
            0
        } else {
            budget - 1
        };
        lemma_clean_part(c, 0, k);
        assert(c.take(k) =~= c.subrange(0, k));
    }
}

/// A number in decimal notation is clean.
proof fn lemma_clean_decimal(n: nat)
    ensures
        clean(decimal(n)),
{
    lemma_decimal(n);
    let d = decimal(n);
    assert forall|i: int| 0 <= i < d.len() implies #[trigger] d[i] != '\u{1b}' by {
        assert('0' <= d[i] <= '9');
    }
}

/// The quiet row is the same with colour as without it.
proof fn lemma_quiet_row()
    ensures
        stripped(quiet_row(true)) == quiet_row(false),
{
    lemma_pieces();
    lemma_clean("nucleus"@);
    lemma_clean(" "@);
    lemma_clean("● gate on · no mediated calls yet"@);
    lemma_neutral_concat(
        seq![
            green(true),
            "nucleus"@,
            reset(true),
            " "@,
            dim(true),
            "● gate on · no mediated calls yet"@,
            reset(true),
        ],
        seq![
            green(false),
            "nucleus"@,
            reset(false),
            " "@,
            dim(false),
            "● gate on · no mediated calls yet"@,
            reset(false),
        ],
    );
}

/// The first row is the same with colour as without it.
proof fn lemma_first_row(e: Seq<EntryV>)
    requires
        clean(pod_of(e)),
    ensures
        stripped(first_row(e, true)) == first_row(e, false),
{
    lemma_pieces();
    lemma_clean("nucleus"@);
    lemma_clean(" "@);
    lemma_clean("●"@);
    lemma_clean("·"@);
    lemma_clean(" ok"@);
    lemma_clean(pod_of(e));
    let n = count_where(e, is_allowed());
    lemma_clean_decimal(n);
    lemma_clean(decimal(n));
    let bad = count_where(e, is_failed()) > 0;
    lemma_neutral_concat(
        seq![
            green(true),
            "nucleus"@,
            reset(true),
            " "@,
            if bad {
                red(true)
            } else {
                green(true)
            },
            "●"@,
            reset(true),
            " "@,
            dim(true),
            pod_of(e),
            reset(true),
            " "@,
            dim(true),
            "·"@,
            reset(true),
            " "@,
            decimal(n),
            " ok"@,
        ],
        seq![
            green(false),
            "nucleus"@,
            reset(false),
            " "@,
            if bad {
                red(false)
            } else {
                green(false)
            },
            "●"@,
            reset(false),
            " "@,
            dim(false),
            pod_of(e),
            reset(false),
            " "@,
            dim(false),
            "·"@,
            reset(false),
            " "@,
            decimal(n),
            " ok"@,
        ],
    );
    let r = count_where(e, is_refused());
    let f = count_where(e, is_failed());
    lemma_tally(r, yellow(true), yellow(false), "refused"@);
    lemma_tally(f, red(true), red(false), "failed"@);
    let a = summary_row(e, true);
    let b = tally(r, yellow(true), "refused"@, true);
    lemma_neutral_add(a, b);
    lemma_neutral_add(a + b, tally(f, red(true), "failed"@, true));
}

/// A count is the same with colour as without it.
proof fn lemma_tally(n: nat, hue: Seq<char>, plain: Seq<char>, word: Seq<char>)
    requires
        neutral(hue),
        stripped(hue) == plain,
        clean(word),
    ensures
        neutral(tally(n, hue, word, true)),
        stripped(tally(n, hue, word, true)) == tally(n, plain, word, false),
{
    if n == 0 {
        lemma_clean(Seq::empty());
    } else {
        lemma_pieces();
        lemma_clean(" "@);
        lemma_clean("·"@);
        lemma_clean(word);
        lemma_clean_decimal(n);
        lemma_clean(decimal(n));
        lemma_neutral_concat(
            seq![
                " "@,
                dim(true),
                "·"@,
                reset(true),
                " "@,
                hue,
                decimal(n),
                " "@,
                word,
                reset(true),
            ],
            seq![
                " "@,
                dim(false),
                "·"@,
                reset(false),
                " "@,
                plain,
                decimal(n),
                " "@,
                word,
                reset(false),
            ],
        );
    }
}

/// What is said of taint is the same with colour as without it.
proof fn lemma_taint_part(e: EntryV)
    requires
        clean_entry(e),
    ensures
        neutral(taint_part(e, true)),
        stripped(taint_part(e, true)) == taint_part(e, false),
        clean(taint_part(e, false)),
{
    lemma_pieces();
    lemma_clean(" "@);
    lemma_clean("⚠ untrusted"@);
    lemma_clean("~ "@);
    lemma_clean(e.tool);
    let s = shortened(e.subject, SUBJECT_BUDGET as nat);
    lemma_clean_shortened(e.subject, SUBJECT_BUDGET as nat);
    lemma_clean(s);
    let plain = seq![
        yellow(false),
        "⚠ untrusted"@,
        reset(false),
        " "@,
        dim(false),
        "~ "@,
        e.tool,
        " "@,
        s,
        reset(false),
    ];
    lemma_neutral_concat(
        seq![
            yellow(true),
            "⚠ untrusted"@,
            reset(true),
            " "@,
            dim(true),
            "~ "@,
            e.tool,
            " "@,
            s,
            reset(true),
        ],
        plain,
    );
    lemma_clean_concat(plain);
}

/// Clean parts make a clean text.
proof fn lemma_clean_concat(parts: Seq<Seq<char>>)
    requires
        forall|i: int| 0 <= i < parts.len() ==> clean(#[trigger] parts[i]),
    ensures
        clean(concat_of(parts)),
    decreases parts.len(),
{
    if parts.len() > 0 {
        let d = parts.drop_last();
        assert forall|i: int| 0 <= i < d.len() implies clean(#[trigger] d[i]) by {
            assert(d[i] == parts[i]);
        }
        lemma_clean_concat(d);
        assert(clean(parts[parts.len() - 1]));
        lemma_clean_add(concat_of(d), parts.last());
    }
}

/// Two clean texts, one after the other, are clean.
proof fn lemma_clean_add(a: Seq<char>, b: Seq<char>)
    requires
        clean(a),
        clean(b),
    ensures
        clean(a + b),
{
    let c = a + b;
    assert forall|i: int| 0 <= i < c.len() implies #[trigger] c[i] != '\u{1b}' by {
        if i < a.len() {
            assert(c[i] == a[i]);
        } else {
            assert(c[i] == b[i - a.len()]);
        }
    }
}

/// What is said of a refusal is the same with colour as without it.
proof fn lemma_refusal_part(before: Option<Seq<char>>, plain_before: Option<Seq<char>>, e: EntryV)
    requires
        clean_entry(e),
        spoken_for(before, e) == spoken_for(plain_before, e),
    ensures
        neutral(refusal_part(before, e, true)),
        stripped(refusal_part(before, e, true)) == refusal_part(plain_before, e, false),
        clean(refusal_part(plain_before, e, false)),
{
    lemma_pieces();
    lemma_clean(" "@);
    lemma_clean("✗ "@);
    lemma_clean(e.tool);
    lemma_clean_shortened(e.subject, SUBJECT_BUDGET as nat);
    lemma_clean_add(" "@, shortened(e.subject, SUBJECT_BUDGET as nat));
    lemma_clean(after_tool(e));
    assert(clean(reason_of(e)));
    let why = shortened(reason_of(e), reason_budget(spoken_for(before, e)));
    lemma_clean_shortened(reason_of(e), reason_budget(spoken_for(before, e)));
    lemma_clean(why);
    let plain = seq![
        red(false),
        "✗ "@,
        e.tool,
        after_tool(e),
        reset(false),
        " "@,
        dim(false),
        why,
        reset(false),
    ];
    lemma_neutral_concat(
        seq![
            red(true),
            "✗ "@,
            e.tool,
            after_tool(e),
            reset(true),
            " "@,
            dim(true),
            why,
            reset(true),
        ],
        plain,
    );
    lemma_clean_concat(plain);
}

/// The second row is the same with colour as without it, and without it has no
/// escapes.
proof fn lemma_alert_row(e: Seq<EntryV>)
    requires
        forall|i: int| 0 <= i < e.len() ==> clean_entry(#[trigger] e[i]),
    ensures
        match (alert_row(e, true), alert_row(e, false)) {
            (None, None) => true,
            (Some(a), Some(b)) => stripped(a) == b && clean(b),
            _ => false,
        },
{
    lemma_pieces();
    lemma_clean("  "@);
    lemma_last_where(e, is_taint());
    lemma_last_where(e, is_refused());
    match (last_where(e, is_taint()), last_where(e, is_refused())) {
        (None, None) => {},
        (Some(t), None) => {
            lemma_taint_part(t);
            lemma_neutral_add("  "@, taint_part(t, true));
            lemma_clean_add("  "@, taint_part(t, false));
        },
        (None, Some(r)) => {
            lemma_refusal_part(None, None, r);
            lemma_neutral_add("  "@, refusal_part(None, r, true));
            lemma_clean_add("  "@, refusal_part(None, r, false));
        },
        (Some(t), Some(r)) => {
            lemma_taint_part(t);
            let a = taint_part(t, true);
            let b = taint_part(t, false);
            lemma_clean(b);
            lemma_refusal_part(Some(a), Some(b), r);
            lemma_clean(" "@);
            lemma_clean("·"@);
            let dots = seq![" "@, dim(true), "·"@, reset(true), " "@];
            let plain = seq![" "@, dim(false), "·"@, reset(false), " "@];
            lemma_neutral_concat(dots, plain);
            lemma_clean_concat(plain);
            let c = refusal_part(Some(a), r, true);
            let d = refusal_part(Some(b), r, false);
            lemma_neutral_add(a, concat_of(dots));
            lemma_neutral_add(a + concat_of(dots), c);
            lemma_neutral_add("  "@, a + concat_of(dots) + c);
            lemma_clean_add(b, concat_of(plain));
            lemma_clean_add(b + concat_of(plain), d);
            lemma_clean_add("  "@, b + concat_of(plain) + d);
        },
    }
}

/// The plain form carries the same words: what a terminal shows of the coloured
/// rows is the plain rows.
///
/// It is stated of histories without escape characters of their own. A bare
/// escape at the end of a subject would swallow what the row says after it.
pub proof fn law_plain_loses_nothing(e: Seq<EntryV>)
    requires
        forall|i: int| 0 <= i < e.len() ==> clean_entry(#[trigger] e[i]),
    ensures
        rows(e, true).len() == rows(e, false).len(),
        forall|i: int|
            0 <= i < rows(e, true).len() ==> stripped(#[trigger] rows(e, true)[i]) == rows(
                e,
                false,
            )[i],
{
    if e.len() == 0 {
        lemma_quiet_row();
    } else {
        lemma_pieces();
        lemma_last_where(e, names_pod());
        lemma_first_row(e);
        lemma_alert_row(e);
    }
}

/// The plain form has no escapes, where the history has none.
pub proof fn law_plain_has_no_escapes(e: Seq<EntryV>)
    requires
        forall|i: int| 0 <= i < e.len() ==> clean_entry(#[trigger] e[i]),
    ensures
        forall|i: int| 0 <= i < rows(e, false).len() ==> clean(#[trigger] rows(e, false)[i]),
{
    lemma_pieces();
    if e.len() == 0 {
        lemma_clean_concat(
            seq![
                green(false),
                "nucleus"@,
                reset(false),
                " "@,
                dim(false),
                "● gate on · no mediated calls yet"@,
                reset(false),
            ],
        );
    } else {
        lemma_last_where(e, names_pod());
        lemma_alert_row(e);
        let n = count_where(e, is_allowed());
        lemma_clean_decimal(n);
        lemma_clean_concat(
            seq![
                green(false),
                "nucleus"@,
                reset(false),
                " "@,
                if count_where(e, is_failed()) > 0 {
                    red(false)
                } else {
                    green(false)
                },
                "●"@,
                reset(false),
                " "@,
                dim(false),
                pod_of(e),
                reset(false),
                " "@,
                dim(false),
                "·"@,
                reset(false),
                " "@,
                decimal(n),
                " ok"@,
            ],
        );
        let r = count_where(e, is_refused());
        let f = count_where(e, is_failed());
        lemma_clean_tally(r, yellow(false), "refused"@);
        lemma_clean_tally(f, red(false), "failed"@);
        let a = summary_row(e, false);
        let b = tally(r, yellow(false), "refused"@, false);
        lemma_clean_add(a, b);
        lemma_clean_add(a + b, tally(f, red(false), "failed"@, false));
    }
}

/// A count without colour is clean.
proof fn lemma_clean_tally(n: nat, hue: Seq<char>, word: Seq<char>)
    requires
        clean(hue),
        clean(word),
    ensures
        clean(tally(n, hue, word, false)),
{
    lemma_pieces();
    lemma_clean_decimal(n);
    lemma_clean_concat(
        seq![
            " "@,
            dim(false),
            "·"@,
            reset(false),
            " "@,
            hue,
            decimal(n),
            " "@,
            word,
            reset(false),
        ],
    );
}

/// Whether untrusted content entered the session.
pub open spec fn is_tainted(e: Seq<EntryV>) -> bool {
    last_where(e, is_taint()) is Some
}

/// Whether the rows show the session as untrusted: the second one begins so.
pub open spec fn shown_untrusted(e: Seq<EntryV>, colour: bool) -> bool {
    rows(e, colour).len() == 2 && begins(
        rows(e, colour)[1],
        "  "@ + yellow(colour) + "⚠ untrusted"@,
    )
}

/// What is put together begins with what its first parts make.
proof fn lemma_concat_begins(parts: Seq<Seq<char>>, k: int)
    requires
        0 <= k <= parts.len(),
    ensures
        begins(concat_of(parts), concat_of(parts.take(k))),
    decreases parts.len(),
{
    if k == parts.len() {
        assert(parts.take(k) =~= parts);
        assert(concat_of(parts).take(concat_of(parts).len() as int) =~= concat_of(parts));
    } else {
        let d = parts.drop_last();
        lemma_concat_begins(d, k);
        assert(d.take(k) =~= parts.take(k));
        let p = concat_of(parts.take(k));
        assert(concat_of(parts).take(p.len() as int) =~= concat_of(d).take(p.len() as int));
    }
}

/// What two parts make.
proof fn lemma_concat_two(a: Seq<char>, b: Seq<char>)
    ensures
        concat_of(seq![a, b]) == a + b,
{
    let two = seq![a, b];
    assert(two.drop_last() =~= seq![a]);
    assert(seq![a].drop_last() =~= Seq::<Seq<char>>::empty());
    assert(concat_of(seq![a]) =~= a) by {
        assert(concat_of(Seq::<Seq<char>>::empty()) =~= Seq::<char>::empty());
    }
}

/// What is said of taint begins with the warning.
proof fn lemma_taint_begins(e: EntryV, colour: bool)
    ensures
        begins(taint_part(e, colour), yellow(colour) + "⚠ untrusted"@),
{
    let parts = seq![
        yellow(colour),
        "⚠ untrusted"@,
        reset(colour),
        " "@,
        dim(colour),
        "~ "@,
        e.tool,
        " "@,
        shortened(e.subject, SUBJECT_BUDGET as nat),
        reset(colour),
    ];
    lemma_concat_begins(parts, 2);
    lemma_concat_two(yellow(colour), "⚠ untrusted"@);
    assert(parts.take(2) =~= seq![yellow(colour), "⚠ untrusted"@]);
}

/// What is said of a refusal begins with its mark.
proof fn lemma_refusal_begins(before: Option<Seq<char>>, e: EntryV, colour: bool)
    ensures
        begins(refusal_part(before, e, colour), red(colour) + "✗ "@),
{
    let parts = seq![
        red(colour),
        "✗ "@,
        e.tool,
        after_tool(e),
        reset(colour),
        " "@,
        dim(colour),
        shortened(reason_of(e), reason_budget(spoken_for(before, e))),
        reset(colour),
    ];
    lemma_concat_begins(parts, 2);
    lemma_concat_two(red(colour), "✗ "@);
    assert(parts.take(2) =~= seq![red(colour), "✗ "@]);
}

/// The rows show the session as untrusted exactly where it is tainted.
proof fn lemma_shown_untrusted(e: Seq<EntryV>, colour: bool)
    ensures
        shown_untrusted(e, colour) <==> is_tainted(e),
{
    reveal_strlit("  ");
    reveal_strlit("⚠ untrusted");
    reveal_strlit("✗ ");
    reveal_strlit("\x1b[31m");
    reveal_strlit("\x1b[33m");
    let warning = yellow(colour) + "⚠ untrusted"@;
    let start = "  "@ + yellow(colour) + "⚠ untrusted"@;
    assert(start =~= "  "@ + warning);
    if let Some(t) = last_where(e, is_taint()) {
        lemma_taint_begins(t, colour);
        let part = taint_part(t, colour);
        let row = rows(e, colour)[1];
        assert(part.take(warning.len() as int) == warning);
        assert forall|i: int| 0 <= i < start.len() implies row[i] == start[i] by {
            if i >= 2 {
                assert(row[i] == part[i - 2]);
                assert(part[i - 2] == part.take(warning.len() as int)[i - 2]);
            }
        }
        assert(row.take(start.len() as int) =~= start);
    } else if let Some(r) = last_where(e, is_refused()) {
        lemma_refusal_begins(None, r, colour);
        let part = refusal_part(None, r, colour);
        let mark = red(colour) + "✗ "@;
        let row = rows(e, colour)[1];
        let k: int = if colour {
            3
        } else {
            0
        };
        assert(row[2 + k] == part[k]);
        assert(part[k] == part.take(mark.len() as int)[k]);
        assert(mark[k] != warning[k]);
        if begins(row, start) {
            assert(row.take(start.len() as int)[2 + k] == start[2 + k]);
            assert(start[2 + k] == warning[k]);
        }
    }
}

/// The inference is sound in the direction that matters, and in the other: the
/// rows show the session as untrusted if and only if the pod performed a fetch or
/// a search. A refused one does not taint.
pub proof fn law_untrusted_iff_egress_was_performed(e: Seq<EntryV>, colour: bool)
    ensures
        shown_untrusted(e, colour) <==> exists|i: int|
            0 <= i < e.len() && (#[trigger] e[i]).outcome is Allowed && (e[i].tool == "web_fetch"@
                || e[i].tool == "web_search"@),
{
    let p = is_taint();
    lemma_shown_untrusted(e, colour);
    lemma_last_where(e, p);
    if let Some(x) = last_where(e, p) {
        let i = choose|i: int| 0 <= i < e.len() && e[i] == x;
        assert(e[i].outcome is Allowed);
    } else {
        assert forall|i: int| 0 <= i < e.len() implies !p(#[trigger] e[i]) by {}
        if exists|i: int|
            0 <= i < e.len() && (#[trigger] e[i]).outcome is Allowed && (e[i].tool == "web_fetch"@
                || e[i].tool == "web_search"@) {
            let i = choose|i: int|
                0 <= i < e.len() && (#[trigger] e[i]).outcome is Allowed && (e[i].tool
                    == "web_fetch"@ || e[i].tool == "web_search"@);
            assert(p(e[i]));
        }
    }
}

/// The bar never claims clean when the session is tainted: what is shown of a
/// journal, through a window of any size, says untrusted exactly if some call in
/// the whole journal brought untrusted content in, however long ago.
pub proof fn law_bar_never_claims_clean(raw: Seq<char>, limit: nat, colour: bool)
    ensures
        shown_untrusted(entries_in(window(lines_of(raw), limit)), colour) <==> exists|i: int|
            0 <= i < entries_in(lines_of(raw)).len() && taints(
                #[trigger] entries_in(lines_of(raw))[i],
            ),
{
    let e = entries_in(window(lines_of(raw), limit));
    law_untrusted_iff_egress_was_performed(e, colour);
    law_shown_calls_keep_the_taint(raw, limit);
    if exists|i: int| 0 <= i < e.len() && taints(#[trigger] e[i]) {
        let i = choose|i: int| 0 <= i < e.len() && taints(#[trigger] e[i]);
        assert(e[i].outcome is Allowed);
    }
    if shown_untrusted(e, colour) {
        let i = choose|i: int|
            0 <= i < e.len() && (#[trigger] e[i]).outcome is Allowed && (e[i].tool == "web_fetch"@
                || e[i].tool == "web_search"@);
        assert(taints(e[i]));
    }
}

/// Taint is monotonic: no later call makes the session trusted again.
pub proof fn law_taint_is_monotonic(e: Seq<EntryV>, later: Seq<EntryV>, colour: bool)
    requires
        shown_untrusted(e, colour),
    ensures
        shown_untrusted(e + later, colour),
{
    lemma_shown_untrusted(e, colour);
    lemma_taint_stays(e, later);
    lemma_shown_untrusted(e + later, colour);
}

/// A tainted session stays tainted.
proof fn lemma_taint_stays(e: Seq<EntryV>, later: Seq<EntryV>)
    requires
        is_tainted(e),
    ensures
        is_tainted(e + later),
    decreases later.len(),
{
    if later.len() == 0 {
        assert(e + later =~= e);
    } else {
        let d = later.drop_last();
        lemma_taint_stays(e, d);
        assert((e + later).drop_last() =~= e + d);
    }
}

/// Whether `s` ends with `p`.
pub open spec fn ends(s: Seq<char>, p: Seq<char>) -> bool {
    p.len() <= s.len() && s.skip(s.len() - p.len()) == p
}

/// Whether the rows show a refusal: the second one ends with what is said of it.
pub open spec fn shows_refusal(e: Seq<EntryV>, r: EntryV, colour: bool) -> bool {
    rows(e, colour).len() == 2 && exists|before: Option<Seq<char>>| #[trigger]
        ends(rows(e, colour)[1], refusal_part(before, r, colour))
}

/// A refusal stays visible, however many of the calls that are shown were made
/// after it, until another call is refused.
pub proof fn law_refusal_stays_visible(e: Seq<EntryV>, r: EntryV, later: Seq<EntryV>, colour: bool)
    requires
        r.outcome is Refused,
        forall|i: int| 0 <= i < later.len() ==> !((#[trigger] later[i]).outcome is Refused),
    ensures
        shows_refusal(e.push(r) + later, r, colour),
{
    let all = e.push(r) + later;
    lemma_last_refusal(e.push(r), later);
    assert(last_where(e.push(r), is_refused()) == Some(r));
    let row = rows(all, colour)[1];
    let before = match last_where(all, is_taint()) {
        Some(t) => Some(taint_part(t, colour)),
        None => None,
    };
    let part = refusal_part(before, r, colour);
    assert(row.skip(row.len() - part.len()) =~= part);
    assert(ends(row, part));
}

/// The last refusal is the same after calls that were not refused.
proof fn lemma_last_refusal(e: Seq<EntryV>, later: Seq<EntryV>)
    requires
        forall|i: int| 0 <= i < later.len() ==> !((#[trigger] later[i]).outcome is Refused),
    ensures
        last_where(e + later, is_refused()) == last_where(e, is_refused()),
    decreases later.len(),
{
    if later.len() == 0 {
        assert(e + later =~= e);
    } else {
        let d = later.drop_last();
        assert forall|i: int| 0 <= i < d.len() implies !((#[trigger] d[i]).outcome is Refused) by {
            assert(d[i] == later[i]);
        }
        lemma_last_refusal(e, d);
        assert((e + later).drop_last() =~= e + d);
        assert((e + later).last() == later[later.len() - 1]);
    }
}

/// A boundary that is holding gets one quiet row: there is a second one if and
/// only if the session is untrusted or a call was refused.
pub proof fn law_second_row_only_when_needed(e: Seq<EntryV>)
    ensures
        rows(e, true).len() == rows(e, false).len(),
        rows(e, false).len() == if is_tainted(e) || last_where(e, is_refused()) is Some {
            2nat
        } else {
            1
        },
{
}

/// Every call is counted once: as performed, as refused or as failed.
pub proof fn law_every_call_is_counted_once(e: Seq<EntryV>)
    ensures
        count_where(e, is_allowed()) + count_where(e, is_refused()) + count_where(e, is_failed())
            == e.len(),
    decreases e.len(),
{
    if e.len() > 0 {
        law_every_call_is_counted_once(e.drop_last());
    }
}

/// Where nothing was refused, the second row of a tainted session fits, however
/// long the subject is.
pub proof fn law_taint_row_fits(e: Seq<EntryV>)
    requires
        is_tainted(e),
        last_where(e, is_refused()) is None,
    ensures
        rows(e, false)[1].len() < WIDTH,
{
    lemma_last_where(e, is_taint());
    let t = last_where(e, is_taint())->Some_0;
    reveal_strlit("web_fetch");
    reveal_strlit("web_search");
    reveal_strlit("  ");
    lemma_taint_len(t);
}

/// How long what is said of taint is.
proof fn lemma_taint_len(t: EntryV)
    ensures
        taint_part(t, false).len() <= 15 + t.tool.len() + SUBJECT_BUDGET,
{
    reveal_strlit("⚠ untrusted");
    reveal_strlit("~ ");
    reveal_strlit(" ");
    let s = shortened(t.subject, SUBJECT_BUDGET as nat);
    law_cut_fits(
        without_prefixes(without_prefixes(trimmed(t.subject), "https://"@), "http://"@),
        SUBJECT_BUDGET as nat,
    );
    let parts = seq![
        yellow(false),
        "⚠ untrusted"@,
        reset(false),
        " "@,
        dim(false),
        "~ "@,
        t.tool,
        " "@,
        s,
        reset(false),
    ];
    lemma_concat_len(parts, 10);
}

/// The length of some parts one after the other.
proof fn lemma_concat_len(parts: Seq<Seq<char>>, n: nat)
    requires
        n == parts.len(),
        n <= 10,
    ensures
        concat_of(parts).len() == part_len(parts, 0) + part_len(parts, 1) + part_len(parts, 2)
            + part_len(parts, 3) + part_len(parts, 4) + part_len(parts, 5) + part_len(parts, 6)
            + part_len(parts, 7) + part_len(parts, 8) + part_len(parts, 9),
    decreases n,
{
    if n > 0 {
        let d = parts.drop_last();
        lemma_concat_len(d, (n - 1) as nat);
        assert forall|i: int| 0 <= i < n - 1 implies #[trigger] part_len(d, i) == part_len(
            parts,
            i,
        ) by {
            assert(d[i] == parts[i]);
        }
    }
}

/// The length of one of some parts.
spec fn part_len(parts: Seq<Seq<char>>, i: int) -> nat {
    if 0 <= i < parts.len() {
        parts[i].len()
    } else {
        0
    }
}

/// A second row with a refusal takes what is spoken for and its reason, and the
/// reason is cut so that the row keeps to the width as long as it gets its least.
pub proof fn law_refusal_row_fits(e: Seq<EntryV>)
    requires
        last_where(e, is_refused()) is Some,
        forall|i: int| 0 <= i < e.len() ==> clean_entry(#[trigger] e[i]),
    ensures
        ({
            let r = last_where(e, is_refused())->Some_0;
            let before = match last_where(e, is_taint()) {
                Some(t) => Some(taint_part(t, false)),
                None => None,
            };
            let used = spoken_for(before, r);
            &&& rows(e, false)[1].len() <= used + reason_budget(used)
            &&& used + REASON_LEAST <= WIDTH ==> rows(e, false)[1].len() <= WIDTH
        }),
{
    lemma_last_where(e, is_taint());
    lemma_last_where(e, is_refused());
    let r = last_where(e, is_refused())->Some_0;
    let before = match last_where(e, is_taint()) {
        Some(t) => Some(taint_part(t, false)),
        None => None,
    };
    let used = spoken_for(before, r);
    let budget = reason_budget(used);
    law_cut_fits(
        without_prefixes(without_prefixes(trimmed(reason_of(r)), "https://"@), "http://"@),
        budget,
    );
    let why = shortened(reason_of(r), budget);
    assert(why.len() <= budget);
    reveal_strlit("✗ ");
    reveal_strlit(" ");
    reveal_strlit("  ");
    reveal_strlit("·");
    let parts = seq![
        red(false),
        "✗ "@,
        r.tool,
        after_tool(r),
        reset(false),
        " "@,
        dim(false),
        why,
        reset(false),
    ];
    lemma_concat_len(parts, 9);
    if let Some(t) = last_where(e, is_taint()) {
        lemma_taint_part(t);
        lemma_clean(taint_part(t, false));
        lemma_concat_len(seq![" "@, dim(false), "·"@, reset(false), " "@], 5);
    }
}

/// Shortening a URL keeps the host: only the scheme goes before the cut. A scheme
/// that stands twice goes twice, and white space at the end goes too.
pub proof fn law_short_url_keeps_the_host(rest: Seq<char>, budget: nat)
    requires
        rest.len() > 0 ==> !is_space(rest.last()),
        !begins(rest, "https://"@),
        !begins(rest, "http://"@),
    ensures
        shortened("https://"@ + rest, budget) == cut_to(rest, budget),
        shortened("http://"@ + rest, budget) == cut_to(rest, budget),
{
    reveal_strlit("https://");
    reveal_strlit("http://");
    let https = "https://"@;
    let http = "http://"@;
    let secure = https + rest;
    let url = http + rest;
    assert(secure[0] == 'h' && url[0] == 'h');
    assert(secure[7] == '/' && url[6] == '/');
    assert(!is_space(secure.last()));
    assert(!is_space(url.last()));
    assert(trimmed(secure) == secure);
    assert(trimmed(url) == url);
    assert(secure.take(8) =~= https);
    assert(secure.skip(8) =~= rest);
    assert(without_prefixes(rest, https) == rest);
    assert(without_prefixes(secure, https) == rest);
    if begins(url, https) {
        assert(url.take(8)[4] == url[4]);
    }
    assert(without_prefixes(url, https) == url);
    assert(url.take(7) =~= http);
    assert(url.skip(7) =~= rest);
    assert(without_prefixes(rest, http) == rest);
    assert(without_prefixes(url, http) == rest);
}

} // verus!
