//! What the check of the mediated path does and says.

use vstd::prelude::*;
use vstd::string::*;
use vstd::utf8::encode_utf8;

use crate::check::{
    acted, action_of, after, blamed, classified, conclusion, debug, file_content, file_name, got,
    hex, lead, prepared, served_names, summary, summary_of, tools_line, ActionV, CallErrorV, CheckV,
    EventV, Stage, COLUMN, ESCAPE_PROBE, SUMMARY_MAX, TITLE,
};
use crate::json::{parsed, JsonV};
use crate::laws::messages::has_just;
use crate::laws::texts::law_cutting;
use crate::mediation::{law_served_tools, served_route};
use crate::text::{decimal, joined, trimmed};
use crate::translate::proxy_body;
use crate::transport::TransportErrorV;

verus! {

/// The fixed parts of the check.
pub proof fn law_settings()
    ensures
        ESCAPE_PROBE@ == "/etc/shadow"@,
        COLUMN == 38,
        SUMMARY_MAX == 160,
        TITLE@ == "nucleus bridge check\n\n"@,
{
}

/// The beginning of a text that fits a summary.
pub open spec fn at_most(s: Seq<char>, n: int) -> Seq<char> {
    if s.len() <= n {
        s
    } else {
        s.subrange(0, n)
    }
}

/// The fields that may hold a reason, the first to look in first.
pub open spec fn reason_keys() -> Seq<Seq<char>> {
    seq!["reason"@, "error"@, "message"@, "detail"@]
}

/// A refusal is summed up by the first of these fields that holds a string, as far
/// as it fits.
pub proof fn law_summary_gives_the_reason(body: Seq<char>, v: JsonV, i: int, s: Seq<char>)
    requires
        parsed(body) == Ok::<JsonV, Seq<char>>(v),
        0 <= i < 4,
        v.get(reason_keys()[i]) == Some(JsonV::Str(s)),
        forall|j: int|
            0 <= j < i ==> !(v.get(#[trigger] reason_keys()[j]) matches Some(JsonV::Str(_))),
    ensures
        summary(body) == at_most(s, 160),
{
    law_cutting(s, 160);
    let k = reason_keys();
    assert(k[0] == "reason"@ && k[1] == "error"@ && k[2] == "message"@ && k[3] == "detail"@);
}

/// The same, where the body has been read already.
pub proof fn law_summary_of_a_value(body: Seq<char>, v: JsonV, i: int, s: Seq<char>)
    requires
        0 <= i < 4 ==> v.get(reason_keys()[i]) == Some(JsonV::Str(s)),
        forall|j: int|
            0 <= j < i && j < 4 ==> !(v.get(#[trigger] reason_keys()[j]) matches Some(
                JsonV::Str(_),
            )),
        i >= 0,
    ensures
        summary_of(Some(v), body) == at_most(
            if i < 4 {
                s
            } else {
                trimmed(body)
            },
            160,
        ),
        summary_of(None, body) == at_most(trimmed(body), 160),
{
    law_cutting(s, 160);
    law_cutting(trimmed(body), 160);
    let k = reason_keys();
    assert(k[0] == "reason"@ && k[1] == "error"@ && k[2] == "message"@ && k[3] == "detail"@);
}

/// Without such a field the whole body is the summary, without the white space
/// around it, as far as it fits.
pub proof fn law_summary_of_other_bodies(body: Seq<char>)
    requires
        parsed(body) matches Ok(v) ==> forall|j: int|
            0 <= j < 4 ==> !(v.get(#[trigger] reason_keys()[j]) matches Some(JsonV::Str(_))),
    ensures
        summary(body) == at_most(trimmed(body), 160),
{
    law_cutting(trimmed(body), 160);
    let k = reason_keys();
    assert(k[0] == "reason"@ && k[1] == "error"@ && k[2] == "message"@ && k[3] == "detail"@);
}

/// A refusal is the pod's word; a route that it lacks, a body that it cannot read
/// and everything else is a fault, and said as such.
pub proof fn law_blame(route: Seq<char>, status: u16, body: Seq<char>, other: TransportErrorV)
    ensures
        blamed(route, (TransportErrorV::Status { status, body })) == if status == 403 || status
            == 409 {
            CallErrorV::Refused(summary(body))
        } else if status == 404 {
            CallErrorV::Broken(
                "404 — this pod does not serve "@ + route
                    + ". The bridge advertises a tool the pod has not got."@,
            )
        } else if status == 422 {
            CallErrorV::Broken(
                "422 — "@ + route + " could not deserialise the body this bridge sent: "@
                    + summary(body),
            )
        } else {
            CallErrorV::Broken(
                "the pod refused the call: HTTP "@ + decimal(status as nat) + ": "@ + body,
            )
        },
        !(other is Status) ==> blamed(route, other) == CallErrorV::Broken(other.said()),
{
}

/// The same, with what is said of the body given.
pub proof fn law_classes(
    route: Seq<char>,
    status: u16,
    body: Seq<char>,
    why: Seq<char>,
    other: TransportErrorV,
)
    ensures
        classified(route, (TransportErrorV::Status { status, body }), why) == if status == 403
            || status == 409 {
            CallErrorV::Refused(why)
        } else if status == 404 {
            CallErrorV::Broken(
                "404 — this pod does not serve "@ + route
                    + ". The bridge advertises a tool the pod has not got."@,
            )
        } else if status == 422 {
            CallErrorV::Broken(
                "422 — "@ + route + " could not deserialise the body this bridge sent: "@ + why,
            )
        } else {
            CallErrorV::Broken(
                "the pod refused the call: HTTP "@ + decimal(status as nat) + ": "@ + body,
            )
        },
        !(other is Status) ==> classified(route, other, why) == CallErrorV::Broken(other.said()),
{
}

/// A call is sent to the route of its tool, with the body that its arguments make,
/// or it is a fault.
pub proof fn law_preparation(tool: Seq<char>, args: JsonV)
    ensures
        match (proxy_body(tool, args), served_route(tool)) {
            (Err(e), _) => prepared(tool, args) == Err::<(Seq<char>, JsonV), CallErrorV>(
                CallErrorV::Broken(e),
            ),
            (Ok(body), Some(route)) => prepared(tool, args) == Ok::<(Seq<char>, JsonV), CallErrorV>(
                (route, body),
            ),
            (Ok(_), None) => prepared(tool, args) == Err::<(Seq<char>, JsonV), CallErrorV>(
                CallErrorV::Broken("`"@ + tool + "` is not served"@),
            ),
        },
{
}

/// How a line of the check begins: its number, what it is about, and spaces as far as
/// the column where results stand.
pub open spec fn heading(n: nat, what: Seq<char>) -> Seq<char> {
    "  ["@ + decimal(n) + "] "@ + what + Seq::new(
        (if what.len() < 38 {
            38 - what.len()
        } else {
            0
        }) as nat,
        |i: int| ' ',
    )
}

/// A line of the check says what came of it. A success and a refusal are no
/// failures; what was found wrong and what broke are one each.
pub proof fn law_lines_of_the_check(n: nat, what: Seq<char>, said: Seq<char>)
    ensures
        acted(n, what, Ok(Ok(said))) == (heading(n, what) + "ok    "@ + said + "\n"@, 0nat),
        acted(n, what, Ok(Err(said))) == (heading(n, what) + "FAIL  "@ + said + "\n"@, 1nat),
        acted(n, what, Err(CallErrorV::Refused(said))) == (
            heading(n, what) + "--    refused by policy: "@ + said + "\n"@,
            0nat,
        ),
        acted(n, what, Err(CallErrorV::Broken(said))) == (
            heading(n, what) + "FAIL  "@ + said + "\n"@,
            1nat,
        ),
{
    lemma_heading(n, what);
}

/// How a line begins.
proof fn lemma_heading(n: nat, what: Seq<char>)
    ensures
        lead(n, what) == heading(n, what),
{
    assert(lead(n, what) =~= heading(n, what));
}

/// The number that a text of hexadecimal digits stands for.
pub open spec fn hex_reads(s: Seq<char>) -> int {
    s.fold_left(
        0int,
        |v: int, c: char|
            v * 16 + if c <= '9' {
                c as int - 48
            } else {
                c as int - 87
            },
    )
}

/// A power of sixteen.
pub open spec fn sixteens(w: nat) -> nat
    decreases w,
{
    if w == 0 {
        1
    } else {
        16 * sixteens((w - 1) as nat)
    }
}

/// The file that the check writes is named after the stamp, in eight hexadecimal
/// digits, and holds the stamp in decimal.
pub proof fn law_file(stamp: nat)
    ensures
        file_name(stamp).len() == 22,
        "ccn-check-"@.is_prefix_of(file_name(stamp)),
        file_name(stamp).skip(18) == ".txt"@,
        forall|i: int|
            10 <= i < 18 ==> ('0' <= #[trigger] file_name(stamp)[i] <= '9') || ('a' <= file_name(
                stamp,
            )[i] <= 'f'),
        hex_reads(file_name(stamp).subrange(10, 18)) == stamp % 0x1_0000_0000,
        file_content(stamp) == "mediated at "@ + decimal(stamp) + "\n"@,
{
    reveal_strlit("ccn-check-");
    reveal_strlit(".txt");
    lemma_hex(stamp, 8);
    reveal_with_fuel(sixteens, 9);
    let f = file_name(stamp);
    assert(f.subrange(10, 18) =~= hex(stamp, 8));
    assert(f.skip(18) =~= ".txt"@);
    assert(f.subrange(0, 10) =~= "ccn-check-"@);
    assert forall|i: int| 10 <= i < 18 implies ('0' <= #[trigger] f[i] <= '9') || ('a' <= f[i]
        <= 'f') by {
        assert(f[i] == hex(stamp, 8)[i - 10]);
    }
}

/// What hexadecimal digits stand for.
proof fn lemma_hex(n: nat, w: nat)
    ensures
        hex(n, w).len() == w,
        forall|i: int|
            0 <= i < w ==> ('0' <= #[trigger] hex(n, w)[i] <= '9') || ('a' <= hex(n, w)[i] <= 'f'),
        hex_reads(hex(n, w)) == n % sixteens(w),
        sixteens(w) > 0,
    decreases w,
{
    reveal(Seq::fold_left);
    if w > 0 {
        let m = (w - 1) as nat;
        lemma_hex(n / 16, m);
        let h = hex(n, w);
        assert(h.drop_last() =~= hex(n / 16, m));
        let d = n % 16;
        assert(h.last() == crate::check::hex_digit(d));
        assert forall|i: int| 0 <= i < w implies ('0' <= #[trigger] h[i] <= '9') || ('a' <= h[i]
            <= 'f') by {
            if i < m {
                assert(h[i] == hex(n / 16, m)[i]);
            }
        }
        vstd::arithmetic::div_mod::lemma_breakdown(n as int, 16, sixteens(m) as int);
    }
}

/// What the check does at each stage.
pub proof fn law_plan(c: CheckV)
    ensures
        match c.stage {
            Stage::Transport => action_of(c) is Resolve,
            Stage::Health => action_of(c) is AskHealth,
            Stage::Run => action_of(c) matches ActionV::Call { tool, args } && {
                &&& tool == "run"@
                &&& has_just(args, set!["command"@])
                &&& args.get("command"@) == Some(JsonV::Str("true"@))
            },
            Stage::Write => action_of(c) matches ActionV::Call { tool, args } && {
                &&& tool == "write"@
                &&& has_just(args, set!["file_path"@, "content"@])
                &&& args.get("file_path"@) == Some(JsonV::Str(c.file))
                &&& args.get("content"@) == Some(JsonV::Str(c.content))
            },
            Stage::ReadBack => action_of(c) matches ActionV::Call { tool, args } && {
                &&& tool == "read"@
                &&& has_just(args, set!["file_path"@])
                &&& args.get("file_path"@) == Some(JsonV::Str(c.file))
            },
            Stage::Escape => action_of(c) matches ActionV::Call { tool, args } && {
                &&& tool == "read"@
                &&& has_just(args, set!["file_path"@])
                &&& args.get("file_path"@) == Some(JsonV::Str("/etc/shadow"@))
            },
            Stage::Over(code) => action_of(c) == ActionV::Exit(code),
        },
{
    reveal_strlit("file_path");
    reveal_strlit("content");
    assert("file_path"@.len() == 9 && "content"@.len() == 7);
}

/// A check begins with the transport, no failures and the file of its stamp. It
/// goes on in one order, keeps its file, and ends where there is no way to the pod.
pub proof fn law_course(stamp: nat, c: CheckV, e: EventV)
    ensures
        ({
            let n = CheckV::fresh(stamp);
            &&& n.stage is Transport && n.failures == 0
            &&& n.file == file_name(stamp) && n.content == file_content(stamp)
        }),
        ({
            let (n, _) = after(c, e);
            &&& n.file == c.file && n.content == c.content
            &&& match (c.stage, e) {
                (Stage::Transport, EventV::Transport(r)) => if r is Ok {
                    n.stage is Health && n.failures == c.failures
                } else {
                    n.stage == Stage::Over(1)
                },
                (Stage::Health, EventV::Health(r)) => if r is Ok {
                    n.stage is Run && n.failures == c.failures
                } else {
                    n.stage == Stage::Over(1)
                },
                (Stage::Run, EventV::Reply(r)) => n.stage is Write && n.failures == c.failures + (
                if r matches Err(CallErrorV::Broken(_)) {
                    1int
                } else {
                    0
                }),
                (Stage::Write, EventV::Reply(r)) => n.stage is ReadBack && n.failures == c.failures
                    + (if r matches Err(CallErrorV::Broken(_)) {
                    1int
                } else {
                    0
                }),
                (Stage::ReadBack, EventV::Reply(r)) => n.stage is Escape && n.failures == c.failures
                    + (match r {
                    Ok(v) => if v.get("contents"@) == Some(JsonV::Str(c.content)) || (
                    c.content.len() == 0 && !(v.get("contents"@) matches Some(JsonV::Str(_)))) {
                        0int
                    } else {
                        1
                    },
                    Err(CallErrorV::Refused(_)) => 0,
                    Err(CallErrorV::Broken(_)) => 1,
                }),
                (Stage::Escape, EventV::Reply(r)) => {
                    &&& n.failures == c.failures + (if r matches Err(CallErrorV::Refused(_)) {
                        0int
                    } else {
                        1
                    })
                    &&& n.stage == Stage::Over(
                        if n.failures == 0 {
                            0
                        } else {
                            1
                        },
                    )
                },
                _ => n == c,
            }
        }),
{
    if c.stage is ReadBack {
        if let EventV::Reply(Ok(v)) = e {
            if c.content.len() == 0 {
                assert(c.content =~= Seq::<char>::empty());
            }
            assert(got(v) == c.content <==> v.get("contents"@) == Some(JsonV::Str(c.content)) || (
            c.content.len() == 0 && !(v.get("contents"@) matches Some(JsonV::Str(_)))));
        }
    }
}

/// What the check says of the transport and of the pod's health.
pub proof fn law_first_words(c: CheckV, said: Seq<char>)
    ensures
        c.stage is Transport ==> after(c, EventV::Transport(Ok(said))).1 == "  transport   "@ + said
            + "\n"@,
        c.stage is Transport ==> after(c, EventV::Transport(Err(said))).1
            == "  transport   FAIL  "@ + said
            + "\n\nthere is no mediated path. Nothing below could be checked.\n"@,
        c.stage is Health ==> after(c, EventV::Health(Ok(()))).1 == "  health      ok\n"@ + (
        "  tools       "@ + decimal(7) + " — "@ + joined(
            seq![
                "run"@,
                "read"@,
                "write"@,
                "glob"@,
                "grep"@,
                "web_fetch"@,
                "web_search"@,
            ],
            ", "@,
        ) + "\n\n"@),
        c.stage is Health ==> after(c, EventV::Health(Err(said))).1 == "  health      FAIL  "@
            + said + "\n\nthe pod is not answering. Nothing below could be checked.\n"@,
{
    law_served_tools();
    assert(served_names() =~= seq![
        "run"@,
        "read"@,
        "write"@,
        "glob"@,
        "grep"@,
        "web_fetch"@,
        "web_search"@,
    ]);
    assert(tools_line() == "  tools       "@ + decimal(7) + " — "@ + joined(served_names(), ", "@)
        + "\n\n"@);
}

/// What the check says of a command, of a file that it writes, and of that file as it
/// comes back.
pub proof fn law_middle_words(c: CheckV, reply: JsonV, e: CallErrorV)
    ensures
        c.stage is Run ==> after(c, EventV::Reply(Ok(reply))).1 == heading(1, "run true"@)
            + "ok    "@ + "the pod executed a command"@ + "\n"@,
        c.stage is Run ==> after(c, EventV::Reply(Err(e))).1 == acted(1, "run true"@, Err(e)).0,
        c.stage is Write ==> after(c, EventV::Reply(Ok(reply))).1 == heading(2, "write "@ + c.file)
            + "ok    "@ + (decimal(encode_utf8(c.content).len()) + " bytes"@) + "\n"@,
        c.stage is Write ==> after(c, EventV::Reply(Err(e))).1 == acted(
            2,
            "write "@ + c.file,
            Err(e),
        ).0,
        c.stage is ReadBack ==> ({
            let back = match reply.get("contents"@) {
                Some(JsonV::Str(s)) => s,
                _ => seq![],
            };
            after(c, EventV::Reply(Ok(reply))).1 == heading(3, "read it back"@) + if back
                == c.content {
                "ok    "@ + "identical"@ + "\n"@
            } else {
                "FAIL  "@ + ("the pod returned "@ + debug(back) + ", not what was written"@)
                    + "\n"@
            }
        }),
        c.stage is ReadBack ==> after(c, EventV::Reply(Err(e))).1 == acted(
            3,
            "read it back"@,
            Err(e),
        ).0,
{
    lemma_heading(1, "run true"@);
    lemma_heading(2, "write "@ + c.file);
    lemma_heading(3, "read it back"@);
    let h = heading(3, "read it back"@);
    let bad = "the pod returned "@ + debug(got(reply)) + ", not what was written"@;
    assert(h + "ok    "@ + "identical"@ + "\n"@ =~= h + ("ok    "@ + "identical"@ + "\n"@));
    assert(h + "FAIL  "@ + bad + "\n"@ =~= h + ("FAIL  "@ + bad + "\n"@));
}

/// What the check says of the probe, which must be refused, and in the end.
pub proof fn law_last_words(c: CheckV, reply: JsonV, why: Seq<char>)
    requires
        c.stage is Escape,
    ensures
        ({
            let line = heading(4, "read "@ + "/etc/shadow"@ + " (must be refused)"@);
            &&& after(c, EventV::Reply(Err(CallErrorV::Refused(why)))).1 == line
                + "ok    refused: "@ + why + "\n"@ + conclusion(c.failures)
            &&& after(c, EventV::Reply(Err(CallErrorV::Broken(why)))).1 == line + "FAIL  "@ + why
                + "\n"@ + conclusion(c.failures + 1)
            &&& after(c, EventV::Reply(Ok(reply))).1 == line
                + "FAIL  the pod served it\n\n  This is the serious one. A path outside the pod's root was read successfully,\n  so the containment boundary is not holding and every other line above is\n  routing rather than enforcement.\n"@
                + conclusion(c.failures + 1)
        }),
{
    lemma_heading(4, "read "@ + "/etc/shadow"@ + " (must be refused)"@);
}

/// How the check ends: where the receipts are, and whether the path is sound.
pub proof fn law_conclusion(failures: nat)
    ensures
        conclusion(failures)
            == "\n  Receipts are not in these replies. The pod ships each signed MediationReceipt to\n  the node over vsock as it is produced; they are collected at\n  <node-state>/pods/<pod-id>/collected-receipts.jsonl and verified with\n  `nucleus-audit verify-mediation-receipts`.\n\n"@
            + if failures == 0 {
            "the mediated path works, and the boundary refused what it should.\n"@
        } else {
            decimal(failures) + " check(s) failed — the mediated path is not sound.\n"@
        },
{
}

} // verus!
