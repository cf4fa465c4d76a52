//! What the status line shows.

use vstd::prelude::*;
use vstd::string::*;

use crate::journal::{EntryV, OutcomeV};
use crate::laws::texts::{blank, law_prefixes_go, law_putting_together, law_trimming};
use crate::statusline::{
    count_where, first_row, is_allowed, is_failed, is_refused, is_taint, last_where, names_pod,
    rows, shortened, tally, REASON_LEAST, SUBJECT_BUDGET, WIDTH, WINDOW,
};
use crate::text::{concat_of, cut_to, decimal, is_space, stripped, without_prefixes};

verus! {

/// An escape sequence, where the rows are coloured.
pub open spec fn hue(colour: bool, code: Seq<char>) -> Seq<char> {
    if colour {
        code
    } else {
        seq![]
    }
}

/// How many calls in a history are of a kind.
pub open spec fn tallied(e: Seq<EntryV>, kind: spec_fn(EntryV) -> bool) -> nat {
    e.filter(kind).len()
}

/// A count on the first row, which stands there where it is not zero.
pub open spec fn counted(n: nat, code: Seq<char>, word: Seq<char>, colour: bool) -> Seq<char> {
    if n == 0 {
        seq![]
    } else {
        " "@ + hue(colour, "\x1b[2m"@) + "·"@ + hue(colour, "\x1b[0m"@) + " "@ + hue(colour, code)
            + decimal(n) + " "@ + word + hue(colour, "\x1b[0m"@)
    }
}

/// The first row for a pod and the counts of calls that were allowed, refused and
/// failed. Its dot is red where a call failed.
pub open spec fn row_of(pod: Seq<char>, ok: nat, refused: nat, failed: nat, colour: bool) -> Seq<
    char,
> {
    hue(colour, "\x1b[32m"@) + "nucleus"@ + hue(colour, "\x1b[0m"@) + " "@ + hue(
        colour,
        if failed > 0 {
            "\x1b[31m"@
        } else {
            "\x1b[32m"@
        },
    ) + "●"@ + hue(colour, "\x1b[0m"@) + " "@ + hue(colour, "\x1b[2m"@) + pod + hue(
        colour,
        "\x1b[0m"@,
    ) + " "@ + hue(colour, "\x1b[2m"@) + "·"@ + hue(colour, "\x1b[0m"@) + " "@ + decimal(ok)
        + " ok"@ + counted(refused, "\x1b[33m"@, "refused"@, colour) + counted(
        failed,
        "\x1b[31m"@,
        "failed"@,
        colour,
    )
}

/// The first row of a history, for a pod.
pub open spec fn row_for(pod: Seq<char>, h: Seq<EntryV>, colour: bool) -> Seq<char> {
    row_of(
        pod,
        tallied(h, |x: EntryV| x.outcome is Allowed),
        tallied(h, |x: EntryV| x.outcome is Refused),
        tallied(h, |x: EntryV| x.outcome is Failed),
        colour,
    )
}

/// The pod that the first row shows is the one that was named last: later calls
/// that name none do not change it, and earlier calls have no say.
pub proof fn law_last_named_pod_is_shown(
    e: Seq<EntryV>,
    x: EntryV,
    later: Seq<EntryV>,
    colour: bool,
)
    requires
        x.pod.len() > 0,
        forall|i: int| 0 <= i < later.len() ==> (#[trigger] later[i]).pod.len() == 0,
    ensures
        rows(e.push(x) + later, colour)[0] == row_for(x.pod, e.push(x) + later, colour),
{
    lemma_last_of(e, x, later, names_pod());
    lemma_first_row(e.push(x) + later, colour);
}

/// Where no call names a pod, the first row just says that there is one.
pub proof fn law_unnamed_pod(h: Seq<EntryV>, colour: bool)
    requires
        h.len() > 0,
        forall|i: int| 0 <= i < h.len() ==> (#[trigger] h[i]).pod.len() == 0,
    ensures
        rows(h, colour)[0] == row_for("pod"@, h, colour),
{
    lemma_last_none(h, names_pod());
    lemma_first_row(h, colour);
}

/// Before the first call there is one row, which says so.
pub proof fn law_no_calls_yet(colour: bool)
    ensures
        rows(seq![], colour) == seq![
            hue(colour, "\x1b[32m"@) + "nucleus"@ + hue(colour, "\x1b[0m"@) + " "@ + hue(
                colour,
                "\x1b[2m"@,
            ) + "● gate on · no mediated calls yet"@ + hue(colour, "\x1b[0m"@),
        ],
{
    let a = hue(colour, "\x1b[32m"@);
    let b = "nucleus"@;
    let z = hue(colour, "\x1b[0m"@);
    let d = hue(colour, "\x1b[2m"@);
    let t = "● gate on · no mediated calls yet"@;
    lemma_five(a, b, z, " "@, d);
    lemma_two(t, z);
    lemma_together(seq![a, b, z, " "@, d], seq![t, z]);
    assert(seq![a, b, z, " "@, d] + seq![t, z] =~= seq![a, b, z, " "@, d, t, z]);
    assert(concat_of(seq![a, b, z, " "@, d, t, z]) =~= a + b + z + " "@ + d + t + z);
}

/// The first row, for the last pod that was named.
proof fn lemma_first_row(h: Seq<EntryV>, colour: bool)
    requires
        h.len() > 0,
    ensures
        rows(h, colour)[0] == row_for(
            match last_where(h, names_pod()) {
                Some(x) => x.pod,
                None => "pod"@,
            },
            h,
            colour,
        ),
{
    let ok = |x: EntryV| x.outcome is Allowed;
    let no = |x: EntryV| x.outcome is Refused;
    let bad = |x: EntryV| x.outcome is Failed;
    lemma_counts(h, is_allowed(), ok);
    lemma_counts(h, is_refused(), no);
    lemma_counts(h, is_failed(), bad);
    let z = hue(colour, "\x1b[0m"@);
    let d = hue(colour, "\x1b[2m"@);
    let g = hue(colour, "\x1b[32m"@);
    let dot = hue(
        colour,
        if tallied(h, bad) > 0 {
            "\x1b[31m"@
        } else {
            "\x1b[32m"@
        },
    );
    let pod = match last_where(h, names_pod()) {
        Some(x) => x.pod,
        None => "pod"@,
    };
    let n = decimal(tallied(h, ok));
    lemma_summary(g, z, dot, d, pod, n);
    lemma_tally(tallied(h, no), "\x1b[33m"@, "refused"@, colour);
    lemma_tally(tallied(h, bad), "\x1b[31m"@, "failed"@, colour);
    assert(first_row(h, colour) == row_of(
        pod,
        tallied(h, ok),
        tallied(h, no),
        tallied(h, bad),
        colour,
    ));
}

/// The parts of the first row, put together.
proof fn lemma_summary(
    g: Seq<char>,
    z: Seq<char>,
    dot: Seq<char>,
    d: Seq<char>,
    pod: Seq<char>,
    n: Seq<char>,
)
    ensures
        concat_of(
            seq![
                g,
                "nucleus"@,
                z,
                " "@,
                dot,
                "●"@,
                z,
                " "@,
                d,
                pod,
                z,
                " "@,
                d,
                "·"@,
                z,
                " "@,
                n,
                " ok"@,
            ],
        ) == g + "nucleus"@ + z + " "@ + dot + "●"@ + z + " "@ + d + pod + z + " "@ + d + "·"@ + z
            + " "@ + n + " ok"@,
{
    lemma_five(g, "nucleus"@, z, " "@, dot);
    let s5 = seq![g, "nucleus"@, z, " "@, dot];
    law_putting_together(s5, "●"@);
    let s6 = s5.push("●"@);
    law_putting_together(s6, z);
    let s7 = s6.push(z);
    law_putting_together(s7, " "@);
    let s8 = s7.push(" "@);
    law_putting_together(s8, d);
    let s9 = s8.push(d);
    law_putting_together(s9, pod);
    let s10 = s9.push(pod);
    law_putting_together(s10, z);
    let s11 = s10.push(z);
    law_putting_together(s11, " "@);
    let s12 = s11.push(" "@);
    law_putting_together(s12, d);
    let s13 = s12.push(d);
    law_putting_together(s13, "·"@);
    let s14 = s13.push("·"@);
    law_putting_together(s14, z);
    let s15 = s14.push(z);
    law_putting_together(s15, " "@);
    let s16 = s15.push(" "@);
    law_putting_together(s16, n);
    let s17 = s16.push(n);
    law_putting_together(s17, " ok"@);
    assert(s17.push(" ok"@) =~= seq![
        g,
        "nucleus"@,
        z,
        " "@,
        dot,
        "●"@,
        z,
        " "@,
        d,
        pod,
        z,
        " "@,
        d,
        "·"@,
        z,
        " "@,
        n,
        " ok"@,
    ]);
}

/// A count on the first row.
proof fn lemma_tally(n: nat, code: Seq<char>, word: Seq<char>, colour: bool)
    ensures
        tally(n, hue(colour, code), word, colour) == counted(n, code, word, colour),
{
    if n > 0 {
        let z = hue(colour, "\x1b[0m"@);
        let d = hue(colour, "\x1b[2m"@);
        let c = hue(colour, code);
        let w = decimal(n);
        lemma_five(" "@, d, "·"@, z, " "@);
        lemma_five(c, w, " "@, word, z);
        lemma_together(seq![" "@, d, "·"@, z, " "@], seq![c, w, " "@, word, z]);
        assert(seq![" "@, d, "·"@, z, " "@] + seq![c, w, " "@, word, z] =~= seq![
            " "@,
            d,
            "·"@,
            z,
            " "@,
            c,
            w,
            " "@,
            word,
            z,
        ]);
        assert(tally(n, c, word, colour) =~= counted(n, code, word, colour));
    }
}

/// Counting is filtering.
proof fn lemma_counts(
    h: Seq<EntryV>,
    p: spec_fn(EntryV) -> bool,
    q: spec_fn(EntryV) -> bool,
)
    requires
        forall|x: EntryV| #[trigger] p(x) == q(x),
    ensures
        count_where(h, p) == tallied(h, q),
    decreases h.len(),
{
    reveal(Seq::filter);
    if h.len() > 0 {
        lemma_counts(h.drop_last(), p, q);
        assert(p(h.last()) == q(h.last()));
    }
}

/// The last call of a kind is that one, whatever comes before it, where none of the
/// kind follows.
pub proof fn lemma_last_of(
    e: Seq<EntryV>,
    x: EntryV,
    later: Seq<EntryV>,
    p: spec_fn(EntryV) -> bool,
)
    requires
        p(x),
        forall|i: int| 0 <= i < later.len() ==> !p(#[trigger] later[i]),
    ensures
        last_where(e.push(x) + later, p) == Some(x),
    decreases later.len(),
{
    let h = e.push(x) + later;
    if later.len() == 0 {
        assert(h.last() == x);
    } else {
        let d = later.drop_last();
        assert forall|i: int| 0 <= i < d.len() implies !p(#[trigger] d[i]) by {
            assert(d[i] == later[i]);
        }
        lemma_last_of(e, x, d, p);
        assert(!p(later[later.len() - 1]));
        assert(h.last() == later.last());
        assert(h.drop_last() =~= e.push(x) + d);
    }
}

/// Where no call is of a kind, there is no last one.
pub proof fn lemma_last_none(h: Seq<EntryV>, p: spec_fn(EntryV) -> bool)
    requires
        forall|i: int| 0 <= i < h.len() ==> !p(#[trigger] h[i]),
    ensures
        last_where(h, p) is None,
    decreases h.len(),
{
    if h.len() > 0 {
        let d = h.drop_last();
        assert forall|i: int| 0 <= i < d.len() implies !p(#[trigger] d[i]) by {
            assert(d[i] == h[i]);
        }
        lemma_last_none(d, p);
        assert(!p(h[h.len() - 1]));
    }
}

/// Two lists of parts, put together.
proof fn lemma_together(a: Seq<Seq<char>>, b: Seq<Seq<char>>)
    ensures
        concat_of(a + b) == concat_of(a) + concat_of(b),
    decreases b.len(),
{
    if b.len() == 0 {
        assert(a + b =~= a);
        assert(concat_of(a) + concat_of(b) =~= concat_of(a));
    } else {
        lemma_together(a, b.drop_last());
        assert((a + b).drop_last() =~= a + b.drop_last());
        assert(concat_of(a + b) =~= concat_of(a) + concat_of(b));
    }
}

/// Two parts, put together.
proof fn lemma_two(a: Seq<char>, b: Seq<char>)
    ensures
        concat_of(seq![a, b]) == a + b,
{
    law_putting_together(seq![], a);
    law_putting_together(seq![a], b);
    assert(Seq::<Seq<char>>::empty().push(a) =~= seq![a]);
    assert(seq![a].push(b) =~= seq![a, b]);
    assert(Seq::<char>::empty() + a =~= a);
}

/// Three parts, put together.
proof fn lemma_three(a: Seq<char>, b: Seq<char>, c: Seq<char>)
    ensures
        concat_of(seq![a, b, c]) == a + b + c,
{
    lemma_two(a, b);
    law_putting_together(seq![a, b], c);
    assert(seq![a, b].push(c) =~= seq![a, b, c]);
}

/// Five parts, put together.
proof fn lemma_five(a: Seq<char>, b: Seq<char>, c: Seq<char>, d: Seq<char>, e: Seq<char>)
    ensures
        concat_of(seq![a, b, c, d, e]) == a + b + c + d + e,
{
    lemma_three(a, b, c);
    law_putting_together(seq![a, b, c], d);
    law_putting_together(seq![a, b, c, d], e);
    assert(seq![a, b, c].push(d) =~= seq![a, b, c, d]);
    assert(seq![a, b, c, d].push(e) =~= seq![a, b, c, d, e]);
}

/// How much the rows show.
pub proof fn law_sizes()
    ensures
        WINDOW == 200,
        WIDTH == 80,
        SUBJECT_BUDGET == 20,
        REASON_LEAST == 24,
{
}

/// What is shown of a URL begins after its scheme; what is shown of any other text
/// is the text without the white space around it. Either is cut where it is long.
pub proof fn law_shortening(a: Seq<char>, x: Seq<char>, b: Seq<char>, budget: nat)
    requires
        blank(a),
        blank(b),
        x.len() > 0,
        !is_space(x[0]),
        !is_space(x.last()),
        !"https://"@.is_prefix_of(x),
        !"http://"@.is_prefix_of(x),
    ensures
        shortened(a + x + b, budget) == cut_to(x, budget),
        shortened(a + ("https://"@ + x) + b, budget) == cut_to(x, budget),
        shortened(a + ("http://"@ + x) + b, budget) == cut_to(x, budget),
{
    let s = "https://"@;
    let p = "http://"@;
    reveal_strlit("https://");
    reveal_strlit("http://");
    law_trimming(a, x, b);
    assert((s + x)[0] == 'h' && (s + x).last() == x.last());
    assert((p + x)[0] == 'h' && (p + x).last() == x.last());
    law_trimming(a, s + x, b);
    law_trimming(a, p + x, b);
    law_prefixes_go(s, x);
    law_prefixes_go(p, x);
    law_prefixes_go(s, p + x);
    assert(!s.is_prefix_of(p + x)) by {
        assert((p + x)[4] == ':' && s[4] == 's');
    }
}

/// What is shown of any text is the text without the white space around it and
/// without schemes at its beginning.
pub proof fn law_shortening_of_any(a: Seq<char>, x: Seq<char>, b: Seq<char>, budget: nat)
    requires
        blank(a),
        blank(b),
        x.len() > 0,
        !is_space(x[0]),
        !is_space(x.last()),
    ensures
        shortened(a + x + b, budget) == cut_to(
            without_prefixes(without_prefixes(x, "https://"@), "http://"@),
            budget,
        ),
{
    law_trimming(a, x, b);
}

/// Blank text is shown as nothing.
pub proof fn law_shortening_of_blanks(a: Seq<char>, budget: nat)
    requires
        blank(a),
    ensures
        shortened(a, budget).len() == 0,
{
    reveal_strlit("https://");
    reveal_strlit("http://");
    law_trimming(a, seq![], seq![]);
    assert(a + Seq::<char>::empty() + Seq::<char>::empty() =~= a);
    law_prefixes_go("https://"@, seq![]);
    law_prefixes_go("http://"@, seq![]);
}

/// What is said of the call that brought untrusted content in.
pub open spec fn untrusted_by(t: EntryV, colour: bool) -> Seq<char> {
    hue(colour, "\x1b[33m"@) + "⚠ untrusted"@ + hue(colour, "\x1b[0m"@) + " "@ + hue(
        colour,
        "\x1b[2m"@,
    ) + "~ "@ + t.tool + " "@ + shortened(t.subject, 20) + hue(colour, "\x1b[0m"@)
}

/// What a refused call was about: its subject, or a colon where it has none.
pub open spec fn about(r: EntryV) -> Seq<char> {
    if shortened(r.subject, 20).len() == 0 {
        ":"@
    } else {
        " "@ + shortened(r.subject, 20)
    }
}

/// What is said of a refused call, where `used` is how much of the row is taken: the
/// reason gets the rest of the row, and never less than a few words.
pub open spec fn refused_with(r: EntryV, why: Seq<char>, used: nat, colour: bool) -> Seq<char> {
    let taken = used + r.tool.len() + about(r).len() + 3;
    hue(colour, "\x1b[31m"@) + "✗ "@ + r.tool + about(r) + hue(colour, "\x1b[0m"@) + " "@ + hue(
        colour,
        "\x1b[2m"@,
    ) + shortened(
        why,
        if 80 - taken >= 24 {
            (80 - taken) as nat
        } else {
            24
        },
    ) + hue(colour, "\x1b[0m"@)
}

/// Whether the pod performed an egress call.
pub open spec fn egress(x: EntryV) -> bool {
    x.outcome is Allowed && (x.tool == "web_fetch"@ || x.tool == "web_search"@)
}

/// Whether a call of a history is the last of its kind.
pub open spec fn last_such(h: Seq<EntryV>, i: int, kind: spec_fn(EntryV) -> bool) -> bool {
    &&& 0 <= i < h.len()
    &&& kind(h[i])
    &&& forall|k: int| i < k < h.len() ==> !kind(#[trigger] h[k])
}

/// The second row shows the last egress call that the pod performed and the last
/// refusal with its reason, wherever in the history they are; where there is
/// neither, there is no second row.
pub proof fn law_second_row(h: Seq<EntryV>, i: int, j: int, why: Seq<char>, colour: bool)
    requires
        h.len() > 0,
        last_such(h, i, |x: EntryV| egress(x)) || (i < 0 && forall|k: int|
            0 <= k < h.len() ==> !egress(#[trigger] h[k])),
        last_such(h, j, |x: EntryV| x.outcome is Refused) || (j < 0 && forall|k: int|
            0 <= k < h.len() ==> !((#[trigger] h[k]).outcome is Refused)),
        j >= 0 ==> h[j].outcome == OutcomeV::Refused(why),
    ensures
        ({
            let said = if why.len() == 0 {
                "refused"@
            } else {
                why
            };
            let gap = " "@ + hue(colour, "\x1b[2m"@) + "·"@ + hue(colour, "\x1b[0m"@) + " "@;
            if i < 0 && j < 0 {
                rows(h, colour).len() == 1
            } else {
                &&& rows(h, colour).len() == 2
                &&& rows(h, colour)[1] == "  "@ + if j < 0 {
                    untrusted_by(h[i], colour)
                } else if i < 0 {
                    refused_with(h[j], said, 2, colour)
                } else {
                    untrusted_by(h[i], colour) + gap + refused_with(
                        h[j],
                        said,
                        2 + stripped(untrusted_by(h[i], colour)).len() + 3,
                        colour,
                    )
                }
            }
        }),
{
    let kind = |x: EntryV| egress(x);
    let no = |x: EntryV| x.outcome is Refused;
    if i >= 0 {
        lemma_last_at(h, i, kind, is_taint());
        lemma_taint(h[i], colour);
    } else {
        lemma_last_none(h, is_taint());
    }
    if j >= 0 {
        lemma_last_at(h, j, no, is_refused());
        let said = if why.len() == 0 {
            "refused"@
        } else {
            why
        };
        assert(said == crate::statusline::reason_of(h[j]));
        lemma_refusal(None, h[j], colour);
        lemma_refusal(Some(untrusted_by(h[i], colour)), h[j], colour);
    } else {
        lemma_last_none(h, is_refused());
    }
    lemma_five(" "@, hue(colour, "\x1b[2m"@), "·"@, hue(colour, "\x1b[0m"@), " "@);
}

/// The last call of a kind, by its place.
proof fn lemma_last_at(
    h: Seq<EntryV>,
    i: int,
    kind: spec_fn(EntryV) -> bool,
    p: spec_fn(EntryV) -> bool,
)
    requires
        last_such(h, i, kind),
        forall|x: EntryV| #[trigger] kind(x) == p(x),
    ensures
        last_where(h, p) == Some(h[i]),
{
    let later = h.skip(i + 1);
    assert(h =~= h.take(i).push(h[i]) + later);
    assert(kind(h[i]) == p(h[i]));
    assert forall|k: int| 0 <= k < later.len() implies !p(#[trigger] later[k]) by {
        assert(later[k] == h[k + i + 1]);
        assert(kind(h[k + i + 1]) == p(h[k + i + 1]));
    }
    lemma_last_of(h.take(i), h[i], later, p);
}

/// What is said of an egress call.
proof fn lemma_taint(t: EntryV, colour: bool)
    ensures
        crate::statusline::taint_part(t, colour) == untrusted_by(t, colour),
{
    let z = hue(colour, "\x1b[0m"@);
    let d = hue(colour, "\x1b[2m"@);
    let y = hue(colour, "\x1b[33m"@);
    let s = shortened(t.subject, 20);
    lemma_five(y, "⚠ untrusted"@, z, " "@, d);
    lemma_five("~ "@, t.tool, " "@, s, z);
    lemma_together(seq![y, "⚠ untrusted"@, z, " "@, d], seq!["~ "@, t.tool, " "@, s, z]);
    assert(seq![y, "⚠ untrusted"@, z, " "@, d] + seq!["~ "@, t.tool, " "@, s, z] =~= seq![
        y,
        "⚠ untrusted"@,
        z,
        " "@,
        d,
        "~ "@,
        t.tool,
        " "@,
        s,
        z,
    ]);
    assert(crate::statusline::taint_part(t, colour) =~= untrusted_by(t, colour));
}

/// What is said of a refusal.
proof fn lemma_refusal(before: Option<Seq<char>>, r: EntryV, colour: bool)
    ensures
        crate::statusline::refusal_part(before, r, colour) == refused_with(
            r,
            crate::statusline::reason_of(r),
            match before {
                Some(part) => 2 + stripped(part).len() + 3,
                None => 2,
            },
            colour,
        ),
{
    let z = hue(colour, "\x1b[0m"@);
    let d = hue(colour, "\x1b[2m"@);
    let c = hue(colour, "\x1b[31m"@);
    let used = crate::statusline::spoken_for(before, r);
    let w = shortened(crate::statusline::reason_of(r), crate::statusline::reason_budget(used));
    lemma_five(c, "✗ "@, r.tool, about(r), z);
    lemma_three(d, w, z);
    lemma_two(w, z);
    lemma_together(seq![" "@], seq![d, w, z]);
    law_putting_together(seq![], " "@);
    assert(Seq::<Seq<char>>::empty().push(" "@) =~= seq![" "@]);
    lemma_together(seq![c, "✗ "@, r.tool, about(r), z], seq![" "@] + seq![d, w, z]);
    assert(seq![c, "✗ "@, r.tool, about(r), z] + (seq![" "@] + seq![d, w, z]) =~= seq![
        c,
        "✗ "@,
        r.tool,
        about(r),
        z,
        " "@,
        d,
        w,
        z,
    ]);
    assert(crate::statusline::after_tool(r) == about(r));
    let u: nat = match before {
        Some(part) => 2 + stripped(part).len() + 3,
        None => 2,
    };
    assert(used == u + r.tool.len() + about(r).len() + 3);
    assert(crate::statusline::refusal_part(before, r, colour) =~= refused_with(
        r,
        crate::statusline::reason_of(r),
        u,
        colour,
    ));
}

} // verus!
