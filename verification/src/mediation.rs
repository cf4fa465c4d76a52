//! The mediation map: one table, one law.
//!
//! The assistant's built-in tools and the routes of the tool proxy inside a pod
//! are very nearly the same alphabet. This module is the arrow between them, and
//! the property that makes the arrow worth having: every tool name has a
//! disposition, which is either *mediated* (re-expressed as a tool that runs
//! inside the pod) or *denied*. There is no third case and no default-allow.

use vstd::prelude::*;

use crate::text::{begins, join, joined, same, texts};

verus! {

/// A route on the tool proxy's HTTP surface inside the pod.
///
/// The proxy applies the permission lattice before it performs any effect, so
/// reaching one of these is what "the call ran under enforcement" means.
#[derive(Debug, Clone, Copy, PartialEq, Eq)]
pub struct Route(pub &'static str);

impl View for Route {
    type V = Seq<char>;

    open spec fn view(&self) -> Seq<char> {
        self.0@
    }
}

/// What the hook does with a built-in tool call.
///
/// Closed on purpose: a new variant is a change to the security boundary.
#[derive(Debug, Clone, PartialEq, Eq)]
pub enum Disposition {
    /// Re-expressed as a tool that runs inside the pod. The hook denies the
    /// built-in and names the replacement, so that the model retries through the
    /// mediated path.
    Mediated {
        /// The tool to call instead, without the prefix that the harness adds.
        mcp_tool: &'static str,
        /// The route that the tool forwards to.
        route: Route,
    },
    /// Refused outright, with no mediated equivalent.
    Denied {
        /// Why, for the user and the model.
        reason: &'static str,
    },
}

/// The model of a disposition.
pub ghost enum DispositionV {
    /// Runs inside the pod, as a tool that forwards to a route.
    Mediated { mcp_tool: Seq<char>, route: Seq<char> },
    /// Refused, for a reason.
    Denied { reason: Seq<char> },
}

impl View for Disposition {
    type V = DispositionV;

    open spec fn view(&self) -> DispositionV {
        match self {
            Disposition::Mediated { mcp_tool, route } => DispositionV::Mediated {
                mcp_tool: mcp_tool@,
                route: route@,
            },
            Disposition::Denied { reason } => DispositionV::Denied { reason: reason@ },
        }
    }
}

/// Every built-in tool that the assistant is known to emit.
///
/// A name that the assistant emits and that is missing here is the one real
/// failure mode, which is why [`unknown_tool_disposition`] denies.
pub const BUILTIN_TOOLS: [&'static str; 14] = [
    "Bash",
    "Read",
    "Write",
    "Edit",
    "Glob",
    "Grep",
    "WebFetch",
    "WebSearch",
    "NotebookEdit",
    "Agent",
    "Task",
    "TodoWrite",
    "BashOutput",
    "KillShell",
];

/// The names of the built-in tools.
pub open spec fn builtins() -> Seq<Seq<char>> {
    BUILTIN_TOOLS@.map_values(|s: &'static str| s@)
}

/// Why subagents are refused.
pub const SUBAGENT_REASON: &'static str =
    "subagents are not mediated: spawning a child pod needs an orchestrator pod (a spec labelled `enable_pod_mgmt`) with `manage_pods` above `never`, and a PodSpec rather than a prompt. Do the work in this session instead";

/// Why the scratchpad is refused.
pub const SCRATCHPAD_REASON: &'static str =
    "TodoWrite has no effect outside the transcript and is not mediated";

/// Why background shells are refused.
pub const BACKGROUND_REASON: &'static str =
    "background shells are not mediated: their output cannot be bound to one receipt";

/// Why a name that is not in the map is refused.
pub const UNKNOWN_REASON: &'static str =
    "unknown tool: this bridge mediates a closed set and refuses anything outside it";

/// The map: what becomes of a call of the tool `name`.
pub open spec fn disposed(name: Seq<char>) -> DispositionV {
    if name == "Bash"@ {
        DispositionV::Mediated { mcp_tool: "run"@, route: "/v1/run"@ }
    } else if name == "Read"@ {
        DispositionV::Mediated { mcp_tool: "read"@, route: "/v1/read"@ }
    } else if name == "Write"@ || name == "Edit"@ || name == "NotebookEdit"@ {
        DispositionV::Mediated { mcp_tool: "write"@, route: "/v1/write"@ }
    } else if name == "Glob"@ {
        DispositionV::Mediated { mcp_tool: "glob"@, route: "/v1/glob"@ }
    } else if name == "Grep"@ {
        DispositionV::Mediated { mcp_tool: "grep"@, route: "/v1/grep"@ }
    } else if name == "WebFetch"@ {
        DispositionV::Mediated { mcp_tool: "web_fetch"@, route: "/v1/web_fetch"@ }
    } else if name == "WebSearch"@ {
        DispositionV::Mediated { mcp_tool: "web_search"@, route: "/v1/web_search"@ }
    } else if name == "Agent"@ || name == "Task"@ {
        DispositionV::Denied { reason: SUBAGENT_REASON@ }
    } else if name == "TodoWrite"@ {
        DispositionV::Denied { reason: SCRATCHPAD_REASON@ }
    } else if name == "BashOutput"@ || name == "KillShell"@ {
        DispositionV::Denied { reason: BACKGROUND_REASON@ }
    } else {
        DispositionV::Denied { reason: UNKNOWN_REASON@ }
    }
}

/// The map. Total over [`BUILTIN_TOOLS`]; fail-closed everywhere else.
///
/// Only routes that every pod serves are mediated to. `pod/*` is mounted on an
/// orchestrator pod alone, so subagents are denied with the condition named:
/// redirecting the model to a route that is not there would be a deadlock.
/// `Edit` and `NotebookEdit` are whole-file writes, because the pod owns the
/// file. Background shells outlive a single call, so their output cannot be
/// bound to one receipt.
pub fn disposition(tool_name: &str) -> (r: Disposition)
    ensures
        r@ == disposed(tool_name@),
{
    if same(tool_name, "Bash") {
        Disposition::Mediated { mcp_tool: "run", route: Route("/v1/run") }
    } else if same(tool_name, "Read") {
        Disposition::Mediated { mcp_tool: "read", route: Route("/v1/read") }
    } else if same(tool_name, "Write") || same(tool_name, "Edit") || same(
        tool_name,
        "NotebookEdit",
    ) {
        Disposition::Mediated { mcp_tool: "write", route: Route("/v1/write") }
    } else if same(tool_name, "Glob") {
        Disposition::Mediated { mcp_tool: "glob", route: Route("/v1/glob") }
    } else if same(tool_name, "Grep") {
        Disposition::Mediated { mcp_tool: "grep", route: Route("/v1/grep") }
    } else if same(tool_name, "WebFetch") {
        Disposition::Mediated { mcp_tool: "web_fetch", route: Route("/v1/web_fetch") }
    } else if same(tool_name, "WebSearch") {
        Disposition::Mediated { mcp_tool: "web_search", route: Route("/v1/web_search") }
    } else if same(tool_name, "Agent") || same(tool_name, "Task") {
        Disposition::Denied { reason: SUBAGENT_REASON }
    } else if same(tool_name, "TodoWrite") {
        Disposition::Denied { reason: SCRATCHPAD_REASON }
    } else if same(tool_name, "BashOutput") || same(tool_name, "KillShell") {
        Disposition::Denied { reason: BACKGROUND_REASON }
    } else {
        unknown_tool_disposition(tool_name)
    }
}

/// Fail-closed default for a tool name that is not in the map.
///
/// A tool added to the assistant after this was built reaches here. An unknown
/// effect is exactly what the pod exists to contain.
pub fn unknown_tool_disposition(_tool_name: &str) -> (r: Disposition)
    ensures
        r@ == (DispositionV::Denied { reason: UNKNOWN_REASON@ }),
{
    Disposition::Denied { reason: UNKNOWN_REASON }
}

/// The tools of a list with their routes.
pub open spec fn listing(v: Seq<(&'static str, Route)>) -> Seq<(Seq<char>, Seq<char>)> {
    v.map_values(|p: (&'static str, Route)| (p.0@, p.1@))
}

/// Whether a list has the tool `tool`.
pub open spec fn lists(l: Seq<(Seq<char>, Seq<char>)>, tool: Seq<char>) -> bool {
    exists|i: int| 0 <= i < l.len() && (#[trigger] l[i]).0 == tool
}

/// The tools that some built-in names are mediated to, each once, in the order
/// in which the names first ask for them.
pub open spec fn targets(names: Seq<Seq<char>>) -> Seq<(Seq<char>, Seq<char>)>
    decreases names.len(),
{
    if names.len() == 0 {
        seq![]
    } else {
        let before = targets(names.drop_last());
        match disposed(names.last()) {
            DispositionV::Mediated { mcp_tool, route } => if lists(before, mcp_tool) {
                before
            } else {
                before.push((mcp_tool, route))
            },
            DispositionV::Denied { .. } => before,
        }
    }
}

/// The tools that this bridge serves, with their routes.
pub open spec fn served() -> Seq<(Seq<char>, Seq<char>)> {
    targets(builtins())
}

/// The tools that this bridge serves, in the order they are advertised.
///
/// Derived from the map rather than written twice, so that the server cannot
/// drift from the hook.
pub fn mediated_tools() -> (r: Vec<(&'static str, Route)>)
    ensures
        listing(r@) == served(),
{
    let mut seen: Vec<(&'static str, Route)> = Vec::new();
    let names = BUILTIN_TOOLS;
    let mut i: usize = 0;
    assert(listing(seen@) == targets(builtins().take(0)));
    while i < names.len()
        invariant
            i <= 14,
            names@ == BUILTIN_TOOLS@,
            listing(seen@) == targets(builtins().take(i as int)),
        decreases 14 - i,
    {
        let ghost before = listing(seen@);
        let name: &'static str = names[i];
        assert(builtins().take(i + 1).drop_last() == builtins().take(i as int));
        assert(builtins().take(i + 1).last() == name@);
        if let Disposition::Mediated { mcp_tool, route } = disposition(name) {
            let mut k: usize = 0;
            while k < seen.len() && !same(seen[k].0, mcp_tool)
                invariant
                    k <= seen@.len(),
                    before == listing(seen@),
                    forall|m: int| 0 <= m < k ==> (#[trigger] before[m]).0 != mcp_tool@,
                decreases seen@.len() - k,
            {
                assert(before[k as int].0 == seen@[k as int].0@);
                k += 1;
            }
            if k == seen.len() {
                assert(!lists(before, mcp_tool@));
                seen.push((mcp_tool, route));
                assert(listing(seen@) == before.push((mcp_tool@, route@)));
            } else {
                assert(before[k as int].0 == mcp_tool@);
                assert(lists(before, mcp_tool@));
            }
        }
        i += 1;
    }
    assert(builtins().take(14) == builtins());
    seen
}

/// The route that a list gives for the tool `tool`: that of its first entry.
pub open spec fn route_in(l: Seq<(Seq<char>, Seq<char>)>, tool: Seq<char>) -> Option<Seq<char>>
    decreases l.len(),
{
    if l.len() == 0 {
        None
    } else if l[0].0 == tool {
        Some(l[0].1)
    } else {
        route_in(l.drop_first(), tool)
    }
}

/// The route that this bridge forwards the tool `tool` to, if it serves it.
pub open spec fn served_route(tool: Seq<char>) -> Option<Seq<char>> {
    route_in(served(), tool)
}

/// The route that this bridge forwards the tool `tool` to. An unknown tool is
/// refused for the same reason as an unknown built-in: the set is closed.
pub fn route_of(tool: &str) -> (r: Option<Route>)
    ensures
        match r {
            Some(route) => served_route(tool@) == Some(route@),
            None => served_route(tool@) is None,
        },
{
    let tools = mediated_tools();
    let ghost l = listing(tools@);
    let mut i: usize = 0;
    assert(l.skip(0) == l);
    while i < tools.len()
        invariant
            i <= tools@.len(),
            l == listing(tools@),
            l == served(),
            route_in(l.skip(i as int), tool@) == served_route(tool@),
        decreases tools@.len() - i,
    {
        assert(l.skip(i as int).drop_first() == l.skip(i + 1));
        assert(l[i as int] == (tools@[i as int].0@, tools@[i as int].1@));
        if same(tools[i].0, tool) {
            return Some(tools[i].1);
        }
        i += 1;
    }
    None
}

/// The names of the built-in tools, separated by commas: the list to disallow
/// as a second layer behind the hook.
pub fn disallowed_tools_arg() -> (r: String)
    ensures
        r@ == joined(builtins(), ","@),
{
    let mut names: Vec<String> = Vec::new();
    let all = BUILTIN_TOOLS;
    let mut i: usize = 0;
    while i < all.len()
        invariant
            i <= 14,
            all@ == BUILTIN_TOOLS@,
            texts(names@) == builtins().take(i as int),
        decreases 14 - i,
    {
        let ghost before = texts(names@);
        names.push(all[i].to_owned());
        assert(texts(names@) == before.push(all@[i as int]@));
        assert(builtins().take(i + 1) == builtins().take(i as int).push(builtins()[i as int]));
        i += 1;
    }
    assert(builtins().take(14) == builtins());
    join(names.as_slice(), ",")
}

/// The texts of the names, tools and routes in the map.
pub proof fn reveal_names()
    ensures
        "Bash"@ =~= seq!['B', 'a', 's', 'h'],
        "Read"@ =~= seq!['R', 'e', 'a', 'd'],
        "Write"@ =~= seq!['W', 'r', 'i', 't', 'e'],
        "Edit"@ =~= seq!['E', 'd', 'i', 't'],
        "Glob"@ =~= seq!['G', 'l', 'o', 'b'],
        "Grep"@ =~= seq!['G', 'r', 'e', 'p'],
        "WebFetch"@ =~= seq!['W', 'e', 'b', 'F', 'e', 't', 'c', 'h'],
        "WebSearch"@ =~= seq!['W', 'e', 'b', 'S', 'e', 'a', 'r', 'c', 'h'],
        "NotebookEdit"@ =~= seq!['N', 'o', 't', 'e', 'b', 'o', 'o', 'k', 'E', 'd', 'i', 't'],
        "Agent"@ =~= seq!['A', 'g', 'e', 'n', 't'],
        "Task"@ =~= seq!['T', 'a', 's', 'k'],
        "TodoWrite"@ =~= seq!['T', 'o', 'd', 'o', 'W', 'r', 'i', 't', 'e'],
        "BashOutput"@ =~= seq!['B', 'a', 's', 'h', 'O', 'u', 't', 'p', 'u', 't'],
        "KillShell"@ =~= seq!['K', 'i', 'l', 'l', 'S', 'h', 'e', 'l', 'l'],
        "run"@ =~= seq!['r', 'u', 'n'],
        "read"@ =~= seq!['r', 'e', 'a', 'd'],
        "write"@ =~= seq!['w', 'r', 'i', 't', 'e'],
        "glob"@ =~= seq!['g', 'l', 'o', 'b'],
        "grep"@ =~= seq!['g', 'r', 'e', 'p'],
        "web_fetch"@ =~= seq!['w', 'e', 'b', '_', 'f', 'e', 't', 'c', 'h'],
        "web_search"@ =~= seq!['w', 'e', 'b', '_', 's', 'e', 'a', 'r', 'c', 'h'],
{
    reveal_strlit("Bash");
    reveal_strlit("Read");
    reveal_strlit("Write");
    reveal_strlit("Edit");
    reveal_strlit("Glob");
    reveal_strlit("Grep");
    reveal_strlit("WebFetch");
    reveal_strlit("WebSearch");
    reveal_strlit("NotebookEdit");
    reveal_strlit("Agent");
    reveal_strlit("Task");
    reveal_strlit("TodoWrite");
    reveal_strlit("BashOutput");
    reveal_strlit("KillShell");
    reveal_strlit("run");
    reveal_strlit("read");
    reveal_strlit("write");
    reveal_strlit("glob");
    reveal_strlit("grep");
    reveal_strlit("web_fetch");
    reveal_strlit("web_search");
}

/// The list of built-ins, spelt out.
pub proof fn lemma_builtins()
    ensures
        builtins() =~= seq![
            "Bash"@,
            "Read"@,
            "Write"@,
            "Edit"@,
            "Glob"@,
            "Grep"@,
            "WebFetch"@,
            "WebSearch"@,
            "NotebookEdit"@,
            "Agent"@,
            "Task"@,
            "TodoWrite"@,
            "BashOutput"@,
            "KillShell"@,
        ],
{
}

/// What becomes of the built-ins that are not mediated.
proof fn lemma_denied()
    ensures
        disposed("Agent"@) == (DispositionV::Denied { reason: SUBAGENT_REASON@ }),
        disposed("Task"@) == (DispositionV::Denied { reason: SUBAGENT_REASON@ }),
        disposed("TodoWrite"@) == (DispositionV::Denied { reason: SCRATCHPAD_REASON@ }),
        disposed("BashOutput"@) == (DispositionV::Denied { reason: BACKGROUND_REASON@ }),
        disposed("KillShell"@) == (DispositionV::Denied { reason: BACKGROUND_REASON@ }),
{
    reveal_names();
    assert("Agent"@[0] == 'A');
    assert("Task"@[0] == 'T');
    assert("TodoWrite"@[0] == 'T');
    assert("BashOutput"@.len() == 10);
    assert("KillShell"@[0] == 'K');
    assert("Write"@[0] == 'W');
    assert("Bash"@[0] == 'B');
    assert("Read"@[0] == 'R');
    assert("Edit"@[0] == 'E');
    assert("Glob"@[0] == 'G');
    assert("Grep"@[0] == 'G');
    assert("WebSearch"@[0] == 'W');
}

/// One more name asks for one more tool, if it is mediated to a new one.
proof fn targets_step(names: Seq<Seq<char>>, k: int)
    requires
        0 <= k < names.len(),
    ensures
        targets(names.take(k + 1)) == match disposed(names[k]) {
            DispositionV::Mediated { mcp_tool, route } => if lists(
                targets(names.take(k)),
                mcp_tool,
            ) {
                targets(names.take(k))
            } else {
                targets(names.take(k)).push((mcp_tool, route))
            },
            DispositionV::Denied { .. } => targets(names.take(k)),
        },
{
    assert(names.take(k + 1).drop_last() == names.take(k));
}

/// The tools that this bridge serves, spelt out.
pub proof fn law_served_tools()
    ensures
        served() =~= seq![
            ("run"@, "/v1/run"@),
            ("read"@, "/v1/read"@),
            ("write"@, "/v1/write"@),
            ("glob"@, "/v1/glob"@),
            ("grep"@, "/v1/grep"@),
            ("web_fetch"@, "/v1/web_fetch"@),
            ("web_search"@, "/v1/web_search"@),
        ],
{
    reveal_names();
    lemma_denied();
    lemma_builtins();
    let b = builtins();
    let all = seq![
        ("run"@, "/v1/run"@),
        ("read"@, "/v1/read"@),
        ("write"@, "/v1/write"@),
        ("glob"@, "/v1/glob"@),
        ("grep"@, "/v1/grep"@),
        ("web_fetch"@, "/v1/web_fetch"@),
        ("web_search"@, "/v1/web_search"@),
    ];
    assert(b.take(14) == b);
    assert(targets(b.take(0)) =~= all.take(0));
    targets_step(b, 0);
    assert(targets(b.take(1)) =~= all.take(1));
    targets_step(b, 1);
    assert(targets(b.take(2)) =~= all.take(2));
    targets_step(b, 2);
    assert(targets(b.take(3)) =~= all.take(3));
    targets_step(b, 3);
    assert(all.take(3)[2].0 == "write"@);
    assert(targets(b.take(4)) =~= all.take(3));
    targets_step(b, 4);
    assert(targets(b.take(5)) =~= all.take(4));
    targets_step(b, 5);
    assert(targets(b.take(6)) =~= all.take(5));
    targets_step(b, 6);
    assert(targets(b.take(7)) =~= all.take(6));
    targets_step(b, 7);
    assert(targets(b.take(8)) =~= all.take(7));
    targets_step(b, 8);
    assert(all.take(7)[2].0 == "write"@);
    assert(targets(b.take(9)) =~= all.take(7));
    targets_step(b, 9);
    assert(targets(b.take(10)) =~= all.take(7));
    targets_step(b, 10);
    assert(targets(b.take(11)) =~= all.take(7));
    targets_step(b, 11);
    assert(targets(b.take(12)) =~= all.take(7));
    targets_step(b, 12);
    assert(targets(b.take(13)) =~= all.take(7));
    targets_step(b, 13);
    assert(targets(b.take(14)) =~= all.take(7));
    assert(all.take(7) =~= all);
}

/// Complete mediation: a tool name is either mediated to a tool and a route, or
/// denied with a reason that is long enough to act on. There is no third case.
pub proof fn law_complete_mediation(name: Seq<char>)
    ensures
        match disposed(name) {
            DispositionV::Mediated { mcp_tool, route } => {
                &&& builtins().contains(name)
                &&& mcp_tool.len() > 0
                &&& begins(route, "/v1/"@)
            },
            DispositionV::Denied { reason } => reason.len() > 30,
        },
{
    reveal_names();
    reveal_routes();
    lemma_builtins();
    let b = builtins();
    assert(b[0] == "Bash"@ && b[1] == "Read"@ && b[2] == "Write"@ && b[3] == "Edit"@ && b[4]
        == "Glob"@ && b[5] == "Grep"@ && b[6] == "WebFetch"@ && b[7] == "WebSearch"@ && b[8]
        == "NotebookEdit"@);
    reveal_strlit(
        "subagents are not mediated: spawning a child pod needs an orchestrator pod (a spec labelled `enable_pod_mgmt`) with `manage_pods` above `never`, and a PodSpec rather than a prompt. Do the work in this session instead",
    );
    reveal_strlit("TodoWrite has no effect outside the transcript and is not mediated");
    reveal_strlit(
        "background shells are not mediated: their output cannot be bound to one receipt",
    );
    reveal_strlit(
        "unknown tool: this bridge mediates a closed set and refuses anything outside it",
    );
}

/// A name that is not a known built-in is denied: the default is fail-closed.
pub proof fn law_unknown_tool_is_denied(name: Seq<char>)
    requires
        !builtins().contains(name),
    ensures
        disposed(name) == (DispositionV::Denied { reason: UNKNOWN_REASON@ }),
{
    lemma_builtins();
    let b = builtins();
    assert(b[0] == "Bash"@ && b[1] == "Read"@ && b[2] == "Write"@ && b[3] == "Edit"@ && b[4]
        == "Glob"@ && b[5] == "Grep"@ && b[6] == "WebFetch"@ && b[7] == "WebSearch"@ && b[8]
        == "NotebookEdit"@ && b[9] == "Agent"@ && b[10] == "Task"@ && b[11] == "TodoWrite"@
        && b[12] == "BashOutput"@ && b[13] == "KillShell"@);
}

/// The texts of the routes in the map.
proof fn reveal_routes()
    ensures
        begins("/v1/run"@, "/v1/"@) && !begins("/v1/run"@, "/v1/pod/"@),
        begins("/v1/read"@, "/v1/"@) && !begins("/v1/read"@, "/v1/pod/"@),
        begins("/v1/write"@, "/v1/"@) && !begins("/v1/write"@, "/v1/pod/"@),
        begins("/v1/glob"@, "/v1/"@) && !begins("/v1/glob"@, "/v1/pod/"@),
        begins("/v1/grep"@, "/v1/"@) && !begins("/v1/grep"@, "/v1/pod/"@),
        begins("/v1/web_fetch"@, "/v1/"@) && !begins("/v1/web_fetch"@, "/v1/pod/"@),
        begins("/v1/web_search"@, "/v1/"@) && !begins("/v1/web_search"@, "/v1/pod/"@),
{
    reveal_strlit("/v1/");
    reveal_strlit("/v1/pod/");
    reveal_strlit("/v1/run");
    reveal_strlit("/v1/read");
    reveal_strlit("/v1/write");
    reveal_strlit("/v1/glob");
    reveal_strlit("/v1/grep");
    reveal_strlit("/v1/web_fetch");
    reveal_strlit("/v1/web_search");
    let v = "/v1/"@;
    assert("/v1/run"@.take(4) =~= v);
    assert("/v1/read"@.take(4) =~= v);
    assert("/v1/write"@.take(4) =~= v);
    assert("/v1/glob"@.take(4) =~= v);
    assert("/v1/grep"@.take(4) =~= v);
    assert("/v1/web_fetch"@.take(4) =~= v);
    assert("/v1/web_search"@.take(4) =~= v);
    let p = "/v1/pod/"@;
    assert(p[4] == 'p');
    assert("/v1/read"@.take(8)[4] == 'r');
    assert("/v1/write"@.take(8)[4] == 'w');
    assert("/v1/glob"@.take(8)[4] == 'g');
    assert("/v1/grep"@.take(8)[4] == 'g');
    assert("/v1/web_fetch"@.take(8)[4] == 'w');
    assert("/v1/web_search"@.take(8)[4] == 'w');
}

/// Nothing is mediated to a route that only some pods mount.
pub proof fn law_no_conditional_route(name: Seq<char>)
    ensures
        disposed(name) matches DispositionV::Mediated { mcp_tool, route } ==> !begins(
            route,
            "/v1/pod/"@,
        ),
{
    reveal_routes();
}

/// The hook and the server agree: whatever a tool is mediated to is served, and
/// at the route that the map gives.
pub proof fn law_mediated_target_is_served(name: Seq<char>)
    ensures
        disposed(name) matches DispositionV::Mediated { mcp_tool, route } ==> served_route(mcp_tool)
            == Some(route),
{
    law_served_tools();
    reveal_names();
    lemma_route_in(served());
    let l = served();
    assert(l[0] == ("run"@, "/v1/run"@));
    assert(l[1] == ("read"@, "/v1/read"@));
    assert(l[2] == ("write"@, "/v1/write"@));
    assert(l[3] == ("glob"@, "/v1/glob"@));
    assert(l[4] == ("grep"@, "/v1/grep"@));
    assert(l[5] == ("web_fetch"@, "/v1/web_fetch"@));
    assert(l[6] == ("web_search"@, "/v1/web_search"@));
}

/// `route_in` finds every entry of a list that no earlier entry hides.
proof fn lemma_route_in(l: Seq<(Seq<char>, Seq<char>)>)
    ensures
        forall|i: int|
            0 <= i < l.len() && (forall|j: int| 0 <= j < i ==> (#[trigger] l[j]).0 != l[i].0) ==> route_in(
                l,
                (#[trigger] l[i]).0,
            ) == Some(l[i].1),
        forall|t: Seq<char>|
            !lists(l, t) ==> #[trigger] route_in(l, t) is None,
    decreases l.len(),
{
    if l.len() > 0 {
        let d = l.drop_first();
        lemma_route_in(d);
        assert forall|i: int|
            0 <= i < l.len() && (forall|j: int| 0 <= j < i ==> (#[trigger] l[j]).0 != l[i].0) implies route_in(
            l,
            (#[trigger] l[i]).0,
        ) == Some(l[i].1) by {
            if i > 0 {
                assert(d[i - 1] == l[i]);
                assert(l[0].0 != l[i].0);
                assert forall|j: int| 0 <= j < i - 1 implies (#[trigger] d[j]).0 != d[i - 1].0 by {
                    assert(d[j] == l[j + 1]);
                }
            }
        }
        assert forall|t: Seq<char>| !lists(l, t) implies #[trigger] route_in(l, t) is None by {
            assert(l[0].0 != t);
            if lists(d, t) {
                let i = choose|i: int| 0 <= i < d.len() && (#[trigger] d[i]).0 == t;
                assert(l[i + 1].0 == t);
            }
            assert(route_in(d, t) is None);
        }
    }
}

/// Nothing is served but what some built-in is mediated to.
pub proof fn law_served_tool_is_a_target(tool: Seq<char>)
    requires
        served_route(tool) is Some,
    ensures
        exists|name: Seq<char>| #[trigger]
            builtins().contains(name) && disposed(name) == (DispositionV::Mediated {
                mcp_tool: tool,
                route: served_route(tool).unwrap(),
            }),
{
    lemma_route_in(served());
    assert(lists(served(), tool));
    let i = choose|i: int| 0 <= i < served().len() && (#[trigger] served()[i]).0 == tool;
    lemma_targets(builtins(), i);
    let name = choose|name: Seq<char>| #[trigger]
        builtins().contains(name) && disposed(name) == (DispositionV::Mediated {
            mcp_tool: served()[i].0,
            route: served()[i].1,
        });
    law_mediated_target_is_served(name);
}

/// Every target is what one of the names is mediated to.
proof fn lemma_targets(names: Seq<Seq<char>>, i: int)
    requires
        0 <= i < targets(names).len(),
    ensures
        exists|name: Seq<char>| #[trigger]
            names.contains(name) && disposed(name) == (DispositionV::Mediated {
                mcp_tool: targets(names)[i].0,
                route: targets(names)[i].1,
            }),
    decreases names.len(),
{
    let d = names.drop_last();
    if i < targets(d).len() {
        lemma_targets(d, i);
        let name = choose|name: Seq<char>| #[trigger]
            d.contains(name) && disposed(name) == (DispositionV::Mediated {
                mcp_tool: targets(d)[i].0,
                route: targets(d)[i].1,
            });
        let k = choose|k: int| 0 <= k < d.len() && d[k] == name;
        assert(names[k] == name);
        assert(names.contains(name));
    } else {
        assert(names[names.len() - 1] == names.last());
        assert(names.contains(names.last()));
    }
}

} // verus!
