//! The same, said of what the operations return.
//!
//! Each law here takes what an operation was given and what it returned, and says
//! how the two relate.

use vstd::prelude::*;

use crate::discover::payload_of;
use crate::journal::Entry;
use crate::json::{compact, pretty, Json, JsonV};
use crate::laws::calls::law_write_body;
use crate::laws::messages::{has_just, law_whole_reply_is_answered, one_text};
use crate::laws::pods::{law_payload_follows_the_log, opens, plain_log};
use crate::laws::requests::{law_request_reads_as_http, reads_as_request};
use crate::laws::rows::{law_last_named_pod_is_shown, row_for};
use crate::server::Call;
use crate::statusline::{render, rows};
use crate::text::texts;
use crate::translate::{proxy_body, to_proxy_body};
use crate::transport::{split, AddressV, Request, Transport, TransportError, TransportV};

verus! {

/// The body of a write holds exactly the path and the content of the call,
/// character for character.
pub proof fn law_write_is_sent_as_it_is(
    tool: &str,
    args: Json,
    path: Seq<char>,
    content: Seq<char>,
    r: Result<Json, String>,
)
    requires
        call_ensures(to_proxy_body, (tool, &args), r),
        tool@ == "write"@,
        args@.get("file_path"@) == Some(JsonV::Str(path)),
        args@.get("content"@) == Some(JsonV::Str(content)),
    ensures
        r matches Ok(body) && {
            &&& has_just(body@, set!["path"@, "contents"@])
            &&& body@.get("path"@) == Some(JsonV::Str(path))
            &&& body@.get("contents"@) == Some(JsonV::Str(content))
        },
{
    law_write_body(args@);
    let body = proxy_body("write"@, args@)->Ok_0;
    let k = seq!["path"@, "contents"@];
    assert(k[0] == "path"@ && k[1] == "contents"@);
    let m = body->Object_0;
    assert forall|key: Seq<char>| m.contains_key(key) implies key == "path"@ || key
        == "contents"@ by {
        assert(body.get(key) is Some);
    }
    assert(m.dom() =~= set!["path"@, "contents"@]);
}

/// The payload of a successful run is what follows the log, whatever is in it.
pub proof fn law_payload_of_a_run(
    args: Vec<String>,
    stdout: &str,
    stderr: &str,
    log: Seq<char>,
    json: Seq<char>,
    r: Result<String, String>,
)
    requires
        call_ensures(payload_of, (&args, true, stdout, stderr), r),
        stdout@ == log + json,
        plain_log(log),
        json.len() > 0,
        opens(json[0]),
    ensures
        r matches Ok(payload) && payload@ == json,
{
    law_payload_follows_the_log(texts(args@), log, json, stderr@);
}

/// A post reads as HTTP, and gives back the method, the path and exactly the body;
/// it goes to the socket without a token, or to the host of the base with the token.
pub proof fn law_post_reads_as_http(
    t: Transport,
    route: &str,
    body: Json,
    r: Result<Request, TransportError>,
)
    requires
        call_ensures(Transport::post, (&t, route, &body), r),
    ensures
        match t@ {
            TransportV::Unix(path) => r matches Ok(q) && {
                &&& q.address@ == AddressV::Unix(path)
                &&& reads_as_request(
                    q.text@,
                    "POST"@,
                    route@,
                    "localhost"@,
                    None,
                    compact(body@),
                )
            },
            TransportV::Http { base, token } => match split(base) {
                Ok((host, port, prefix)) => r matches Ok(q) && {
                    &&& q.address@ == (AddressV::Tcp { host, port })
                    &&& reads_as_request(
                        q.text@,
                        "POST"@,
                        prefix + route@,
                        host,
                        token,
                        compact(body@),
                    )
                },
                Err(e) => r matches Err(f) && f@ == e,
            },
        },
{
    let payload = compact(body@);
    match t@ {
        TransportV::Unix(_) => {
            law_request_reads_as_http("POST"@, route@, "localhost"@, payload, None);
        },
        TransportV::Http { base, token } => {
            if let Ok((host, _, prefix)) = split(base) {
                law_request_reads_as_http("POST"@, prefix + route@, host, payload, token);
            }
        },
    }
}

/// A get reads as HTTP, with no payload.
pub proof fn law_get_reads_as_http(t: Transport, route: &str, r: Result<Request, TransportError>)
    requires
        call_ensures(Transport::get, (&t, route), r),
    ensures
        match t@ {
            TransportV::Unix(path) => r matches Ok(q) && {
                &&& q.address@ == AddressV::Unix(path)
                &&& reads_as_request(q.text@, "GET"@, route@, "localhost"@, None, seq![])
            },
            TransportV::Http { base, token } => match split(base) {
                Ok((host, port, prefix)) => r matches Ok(q) && {
                    &&& q.address@ == (AddressV::Tcp { host, port })
                    &&& reads_as_request(q.text@, "GET"@, prefix + route@, host, token, seq![])
                },
                Err(e) => r matches Err(f) && f@ == e,
            },
        },
{
    match t@ {
        TransportV::Unix(_) => {
            law_request_reads_as_http("GET"@, route@, "localhost"@, seq![], None);
        },
        TransportV::Http { base, token } => {
            if let Ok((host, _, prefix)) = split(base) {
                law_request_reads_as_http("GET"@, prefix + route@, host, seq![], token);
            }
        },
    }
}

/// The result of a successful call is one text, the whole reply; that of a failed
/// one is one text, the error.
pub proof fn law_answer_is_the_whole_reply(outcome: Result<Json, TransportError>, r: Json)
    requires
        call_ensures(Call::answer, (&outcome,), r),
    ensures
        match outcome {
            Ok(reply) => one_text(r@, pretty(reply@), false),
            Err(e) => one_text(
                r@,
                "nucleus refused or could not complete this call: "@ + e@.said(),
                true,
            ),
        },
{
    match outcome {
        Ok(reply) => {
            law_whole_reply_is_answered(reply@, arbitrary(), arbitrary());
        },
        Err(e) => {
            law_whole_reply_is_answered(arbitrary(), e@, arbitrary());
        },
    }
}

/// The first row shows the pod that was named last.
pub proof fn law_row_shows_the_last_named_pod(
    entries: &[Entry],
    i: int,
    colour: bool,
    r: Vec<String>,
)
    requires
        call_ensures(render, (entries, colour), r),
        0 <= i < entries@.len(),
        entries@[i].pod@.len() > 0,
        forall|k: int| i < k < entries@.len() ==> (#[trigger] entries@[k]).pod@.len() == 0,
    ensures
        r@.len() > 0,
        r@[0]@ == row_for(
            entries@[i].pod@,
            Seq::new(entries@.len(), |k: int| entries@[k]@),
            colour,
        ),
{
    let h = Seq::new(entries@.len(), |k: int| entries@[k]@);
    assert(h =~= crate::journal::history(entries@));
    let e = h.take(i);
    let later = h.skip(i + 1);
    assert(h =~= e.push(h[i]) + later);
    assert forall|k: int| 0 <= k < later.len() implies (#[trigger] later[k]).pod.len() == 0 by {
        assert(later[k] == entries@[k + i + 1]@);
        assert(entries@[k + i + 1].pod@.len() == 0);
    }
    law_last_named_pod_is_shown(e, h[i], later, colour);
    let shown = rows(h, colour);
    assert(texts(r@) == shown);
    assert(shown.len() > 0);
    assert(texts(r@).len() == r@.len());
    assert(texts(r@)[0] == r@[0]@);
}

} // verus!
