//! How a mediated tool call reaches the pod.
//!
//! There are two transports, and the choice between them is a trust decision. A
//! Unix socket is verified by peer credentials, so the bridge holds no secret at
//! all. A forwarded HTTP surface is for a pod that is reached across a node, with
//! a session token. This module chooses the transport, writes the request and
//! reads the reply; connecting, sending and receiving are the caller's.

use vstd::prelude::*;
use vstd::string::*;
use vstd::utf8::encode_utf8;

use crate::json::{compact, nested, parsed_bytes, reads_back, Json, JsonV};
use crate::text::{
    begins, chars, decimal, find_from, find_tail, first_index, head, head_of, lemma_decimal,
    lemma_first_index_is, lemma_tail_start_is, lemma_u16_decimal, lines, lines_of, lossy,
    parse_u16, push_decimal, same, starts_with, tail_start, text, texts, trim, trim_end_matches,
    trim_start_matches, trimmed, u16_of, utf8_lossy, without_prefixes, without_trailing, words,
    words_of,
};

verus! {

/// Why a call did not come back with a reply.
#[derive(Debug)]
pub enum TransportError {
    /// The pod cannot be reached; what the system says.
    Io(String),
    /// The pod answered with another status than success.
    Status {
        /// The HTTP status.
        status: u16,
        /// The beginning of the reply's body.
        body: String,
    },
    /// The reply, or the address, is not of the expected shape.
    Protocol(String),
    /// No transport is configured.
    Unconfigured,
    /// No transport is configured, and asking the node for a pod did not work
    /// either.
    Discovery(String),
}

/// The model of a transport error.
pub ghost enum TransportErrorV {
    /// The pod cannot be reached.
    Io(Seq<char>),
    /// The pod answered with another status than success.
    Status { status: u16, body: Seq<char> },
    /// The reply, or the address, is not of the expected shape.
    Protocol(Seq<char>),
    /// No transport is configured.
    Unconfigured,
    /// No pod was found.
    Discovery(Seq<char>),
}

impl View for TransportError {
    type V = TransportErrorV;

    open spec fn view(&self) -> TransportErrorV {
        match self {
            TransportError::Io(e) => TransportErrorV::Io(e@),
            TransportError::Status { status, body } => TransportErrorV::Status {
                status: *status,
                body: body@,
            },
            TransportError::Protocol(e) => TransportErrorV::Protocol(e@),
            TransportError::Unconfigured => TransportErrorV::Unconfigured,
            TransportError::Discovery(e) => TransportErrorV::Discovery(e@),
        }
    }
}

impl TransportErrorV {
    /// What is said of the error.
    pub open spec fn said(self) -> Seq<char> {
        match self {
            TransportErrorV::Io(e) => "cannot reach the nucleus pod: "@ + e,
            TransportErrorV::Status { status, body } => "the pod refused the call: HTTP "@
                + decimal(status as nat) + ": "@ + body,
            TransportErrorV::Protocol(e) =>
                "the pod's reply was not the shape this bridge expects: "@ + e,
            TransportErrorV::Unconfigured =>
                "no transport configured: set NUCLEUS_POD_SOCK or NUCLEUS_PROXY_URL"@,
            TransportErrorV::Discovery(e) => "could not find a nucleus pod: "@ + e,
        }
    }
}

impl TransportError {
    /// What is said of the error.
    pub fn message(&self) -> (r: String)
        ensures
            r@ == self@.said(),
    {
        match self {
            TransportError::Io(e) => {
                let mut out = "cannot reach the nucleus pod: ".to_owned();
                out.append(e.as_str());
                out
            },
            TransportError::Status { status, body } => {
                let mut out = "the pod refused the call: HTTP ".to_owned();
                push_decimal(&mut out, *status as u128);
                out.append(": ");
                out.append(body.as_str());
                out
            },
            TransportError::Protocol(e) => {
                let mut out = "the pod's reply was not the shape this bridge expects: ".to_owned();
                out.append(e.as_str());
                out
            },
            TransportError::Unconfigured => {
                "no transport configured: set NUCLEUS_POD_SOCK or NUCLEUS_PROXY_URL".to_owned()
            },
            TransportError::Discovery(e) => {
                let mut out = "could not find a nucleus pod: ".to_owned();
                out.append(e.as_str());
                out
            },
        }
    }
}

/// The text of an optional string.
pub open spec fn opt_text(s: Option<String>) -> Option<Seq<char>> {
    match s {
        Some(t) => Some(t@),
        None => None,
    }
}

/// The value of a variable that counts as configuration: one that is set and not
/// blank.
pub open spec fn configured(value: Option<Seq<char>>) -> Option<Seq<char>> {
    match value {
        Some(v) => if trimmed(v).len() > 0 {
            Some(v)
        } else {
            None
        },
        None => None,
    }
}

/// A variable that is set to nothing but white space is not configuration.
///
/// Set-but-empty variables are routine, and treating one as an address would
/// fail later with a message that says nothing about the cause.
pub fn non_empty(value: Option<String>) -> (r: Option<String>)
    ensures
        opt_text(r) == configured(opt_text(value)),
{
    match value {
        Some(v) => {
            let c = chars(v.as_str());
            if trim(c.as_slice()).len() > 0 {
                Some(v)
            } else {
                None
            }
        },
        None => None,
    }
}

/// How the pod is reached.
#[derive(Debug)]
pub enum Transport {
    /// Over a Unix socket at this path.
    Unix(String),
    /// Over HTTP.
    Http {
        /// The base of the pod's URLs.
        base: String,
        /// The session token to send, if there is one.
        token: Option<String>,
    },
}

/// The model of a transport.
pub ghost enum TransportV {
    /// Over a Unix socket.
    Unix(Seq<char>),
    /// Over HTTP.
    Http { base: Seq<char>, token: Option<Seq<char>> },
}

impl View for Transport {
    type V = TransportV;

    open spec fn view(&self) -> TransportV {
        match self {
            Transport::Unix(p) => TransportV::Unix(p@),
            Transport::Http { base, token } => TransportV::Http {
                base: base@,
                token: opt_text(*token),
            },
        }
    }
}

/// The transport that the environment asks for. The socket wins over the URL.
pub open spec fn chosen(
    sock: Option<Seq<char>>,
    url: Option<Seq<char>>,
    token: Option<Seq<char>>,
) -> Result<TransportV, TransportErrorV> {
    match configured(sock) {
        Some(path) => Ok(TransportV::Unix(path)),
        None => match configured(url) {
            Some(base) => Ok(
                TransportV::Http { base: without_trailing(base, '/'), token: configured(token) },
            ),
            None => Err(TransportErrorV::Unconfigured),
        },
    }
}

/// The last name in a path, as `std::path::Path::file_name` finds it: slashes at
/// the end and `.` components do not count, and a path that ends in `..` has
/// none.
pub open spec fn name_in(path: Seq<char>) -> Option<Seq<char>>
    decreases path.len(),
    via name_in_decreases
{
    let p = without_trailing(path, '/');
    let name = p.skip(tail_start(p, '/') as int);
    if p.len() == 0 || name == ".."@ {
        None
    } else if name == "."@ {
        name_in(p.drop_last())
    } else {
        Some(name)
    }
}

#[via_fn]
proof fn name_in_decreases(path: Seq<char>) {
    lemma_without_trailing(path, '/');
}

/// What `without_trailing` leaves is a beginning of the text.
pub proof fn lemma_without_trailing(s: Seq<char>, c: char)
    ensures
        without_trailing(s, c).len() <= s.len(),
        without_trailing(s, c) == s.take(without_trailing(s, c).len() as int),
    decreases s.len(),
{
    if s.len() > 0 && s.last() == c {
        lemma_without_trailing(s.drop_last(), c);
        let n = without_trailing(s, c).len() as int;
        assert(s.drop_last().take(n) == s.take(n));
    } else {
        assert(s.take(s.len() as int) == s);
    }
}

/// `std::path::Path::file_name`.
fn file_name(path: &[char]) -> (r: Option<String>)
    ensures
        opt_text(r) == name_in(path@),
    decreases path@.len(),
{
    let p = trim_end_matches(path, '/');
    proof {
        lemma_without_trailing(path@, '/');
    }
    if p.len() == 0 {
        return None;
    }
    let from = find_tail(p, '/');
    let name = text(vstd::slice::slice_subrange(p, from, p.len()));
    assert(name@ == p@.skip(from as int));
    if same(name.as_str(), "..") {
        None
    } else if same(name.as_str(), ".") {
        let rest = vstd::slice::slice_subrange(p, 0, p.len() - 1);
        assert(rest@ == p@.drop_last());
        file_name(rest)
    } else {
        Some(name)
    }
}

/// The authority of a URL: what stands between the scheme and the path.
pub open spec fn authority(base: Seq<char>) -> Seq<char> {
    let rest = without_prefixes(without_prefixes(base, "http://"@), "https://"@);
    rest.take(first_index(rest, '/') as int)
}

/// A transport with another token: that of a call that is made now. The socket
/// has none.
pub open spec fn renewed(t: TransportV, token: Option<Seq<char>>) -> TransportV {
    match t {
        TransportV::Unix(path) => TransportV::Unix(path),
        TransportV::Http { base, .. } => TransportV::Http { base, token: configured(token) },
    }
}

impl Transport {
    /// Chooses the transport from the values of `NUCLEUS_POD_SOCK`,
    /// `NUCLEUS_PROXY_URL` and `NUCLEUS_SESSION_TOKEN`.
    ///
    /// The socket wins when both are set: it is the stronger of the two, and
    /// silently preferring the weaker is how a deployment ends up authenticating
    /// with a token nobody knew was still in use.
    pub fn from_env(sock: Option<String>, url: Option<String>, token: Option<String>) -> (r: Result<
        Transport,
        TransportError,
    >)
        ensures
            match r {
                Ok(t) => chosen(opt_text(sock), opt_text(url), opt_text(token)) == Ok::<
                    TransportV,
                    TransportErrorV,
                >(t@),
                Err(e) => chosen(opt_text(sock), opt_text(url), opt_text(token)) == Err::<
                    TransportV,
                    TransportErrorV,
                >(e@),
            },
    {
        match non_empty(sock) {
            Some(path) => Ok(Transport::Unix(path)),
            None => match non_empty(url) {
                Some(base) => {
                    let c = chars(base.as_str());
                    Ok(
                        Transport::Http {
                            base: text(trim_end_matches(c.as_slice(), '/')),
                            token: non_empty(token),
                        },
                    )
                },
                None => Err(TransportError::Unconfigured),
            },
        }
    }

    /// The transport to a pod that was asked for where none was configured.
    pub fn from_discovery(found: Result<String, String>, token: Option<String>) -> (r: Result<
        Transport,
        TransportError,
    >)
        ensures
            match (found, r) {
                (Ok(base), Ok(t)) => t@ == (TransportV::Http {
                    base: base@,
                    token: configured(opt_text(token)),
                }),
                (Err(why), Err(e)) => e@ == TransportErrorV::Discovery(why@),
                _ => false,
            },
    {
        match found {
            Ok(base) => Ok(Transport::Http { base, token: non_empty(token) }),
            Err(why) => Err(TransportError::Discovery(why)),
        }
    }

    /// The same transport with the token that `NUCLEUS_SESSION_TOKEN` holds now, so
    /// that a revoked token stops working at once.
    pub fn with_token(&self, token: Option<String>) -> (r: Transport)
        ensures
            r@ == renewed(self@, opt_text(token)),
    {
        match self {
            Transport::Unix(path) => Transport::Unix(path.clone()),
            Transport::Http { base, .. } => Transport::Http {
                base: base.clone(),
                token: non_empty(token),
            },
        }
    }

    /// The pod in as few characters as name it, for a status line: the authority
    /// and nothing else.
    pub fn label(&self) -> (r: String)
        ensures
            r@ == match self@ {
                TransportV::Unix(path) => match name_in(path) {
                    Some(name) => name,
                    None => path,
                },
                TransportV::Http { base, .. } => authority(base),
            },
    {
        match self {
            Transport::Unix(p) => {
                let c = chars(p.as_str());
                match file_name(c.as_slice()) {
                    Some(name) => name,
                    None => p.clone(),
                }
            },
            Transport::Http { base, .. } => {
                let c = chars(base.as_str());
                let http = chars("http://");
                let https = chars("https://");
                let rest = trim_start_matches(c.as_slice(), http.as_slice());
                let rest = trim_start_matches(rest, https.as_slice());
                let n = find_from(rest, '/', 0);
                let host_port = text(vstd::slice::slice_subrange(rest, 0, n));
                assert(rest@.skip(0) == rest@);
                assert(host_port@ == rest@.take(n as int));
                host_port
            },
        }
    }

    /// How this transport was chosen, for the first line of a check.
    pub fn describe(&self) -> (r: String)
        ensures
            r@ == match self@ {
                TransportV::Unix(path) => "unix socket "@ + path,
                TransportV::Http { base, token: Some(_) } => base + " (bearer token)"@,
                TransportV::Http { base, token: None } => base
                    + " (no token — the node signs this hop)"@,
            },
    {
        match self {
            Transport::Unix(p) => {
                let mut out = "unix socket ".to_owned();
                out.append(p.as_str());
                out
            },
            Transport::Http { base, token } => {
                let mut out = base.clone();
                match token {
                    Some(_) => {
                        out.append(" (bearer token)");
                    },
                    None => {
                        out.append(" (no token — the node signs this hop)");
                    },
                }
                out
            },
        }
    }
}

/// The host, the port and the prefix of the paths that a base URL names.
///
/// Only plaintext is accepted: a client that takes `https` and does not verify
/// the certificate is worse than one that refuses it.
pub open spec fn split(base: Seq<char>) -> Result<(Seq<char>, u16, Seq<char>), TransportErrorV> {
    if !begins(base, "http://"@) {
        Err(TransportErrorV::Protocol("NUCLEUS_PROXY_URL must be http://: "@ + base))
    } else {
        let rest = base.skip("http://"@.len() as int);
        let n = first_index(rest, '/') as int;
        let host_port = rest.take(n);
        let prefix = rest.skip(n);
        let m = tail_start(host_port, ':') as int;
        if m == 0 {
            Ok((host_port, 80, prefix))
        } else {
            match u16_of(host_port.skip(m)) {
                Some(port) => Ok((host_port.take(m - 1), port, prefix)),
                None => Err(TransportErrorV::Protocol("bad port in "@ + base)),
            }
        }
    }
}

/// Splits a base URL into host, port and prefix.
pub fn split_base(base: &str) -> (r: Result<(String, u16, String), TransportError>)
    ensures
        match r {
            Ok(p) => split(base@) == Ok::<(Seq<char>, u16, Seq<char>), TransportErrorV>(
                (p.0@, p.1, p.2@),
            ),
            Err(e) => split(base@) == Err::<(Seq<char>, u16, Seq<char>), TransportErrorV>(e@),
        },
{
    let c = chars(base);
    let scheme = chars("http://");
    if !starts_with(c.as_slice(), scheme.as_slice()) {
        let mut e = "NUCLEUS_PROXY_URL must be http://: ".to_owned();
        e.append(base);
        return Err(TransportError::Protocol(e));
    }
    let rest = vstd::slice::slice_subrange(c.as_slice(), scheme.len(), c.len());
    assert(rest@ == base@.skip(scheme@.len() as int));
    let n = find_from(rest, '/', 0);
    assert(rest@.skip(0) == rest@);
    let host_port = vstd::slice::slice_subrange(rest, 0, n);
    assert(host_port@ == rest@.take(n as int));
    let prefix = text(vstd::slice::slice_subrange(rest, n, rest.len()));
    assert(prefix@ == rest@.skip(n as int));
    let m = find_tail(host_port, ':');
    if m == 0 {
        return Ok((text(host_port), 80, prefix));
    }
    let digits = vstd::slice::slice_subrange(host_port, m, host_port.len());
    assert(digits@ == host_port@.skip(m as int));
    match parse_u16(digits) {
        Some(port) => {
            let host = text(vstd::slice::slice_subrange(host_port, 0, m - 1));
            assert(host@ == host_port@.take(m - 1));
            Ok((host, port, prefix))
        },
        None => {
            let mut e = "bad port in ".to_owned();
            e.append(base);
            Err(TransportError::Protocol(e))
        },
    }
}

/// Where a request goes.
#[derive(Debug)]
pub enum Address {
    /// A Unix socket.
    Unix(String),
    /// A TCP port of a host.
    Tcp {
        /// The host.
        host: String,
        /// The port.
        port: u16,
    },
}

/// The model of an address.
pub ghost enum AddressV {
    /// A Unix socket.
    Unix(Seq<char>),
    /// A TCP port of a host.
    Tcp { host: Seq<char>, port: u16 },
}

impl View for Address {
    type V = AddressV;

    open spec fn view(&self) -> AddressV {
        match self {
            Address::Unix(p) => AddressV::Unix(p@),
            Address::Tcp { host, port } => AddressV::Tcp { host: host@, port: *port },
        }
    }
}

/// One request: where it goes, and what is sent there.
#[derive(Debug)]
pub struct Request {
    /// Where it goes.
    pub address: Address,
    /// What is sent, head and payload.
    pub text: String,
}

impl View for Request {
    type V = (AddressV, Seq<char>);

    open spec fn view(&self) -> (AddressV, Seq<char>) {
        (self.address@, self.text@)
    }
}

/// The header that carries a token, if there is one.
pub open spec fn authorization(token: Option<Seq<char>>) -> Seq<char> {
    match token {
        Some(t) => "Authorization: Bearer "@ + t + "\r\n"@,
        None => seq![],
    }
}

/// What a request begins with, up to the header that carries a token.
pub open spec fn request_start(
    method: Seq<char>,
    path: Seq<char>,
    host: Seq<char>,
    payload: Seq<char>,
) -> Seq<char> {
    method + " "@ + path + " HTTP/1.1\r\nHost: "@ + host
        + "\r\nContent-Type: application/json\r\nContent-Length: "@ + decimal(
        encode_utf8(payload).len(),
    ) + "\r\n"@
}

/// One HTTP/1.1 request. `Connection: close` makes the reply end at the end of
/// the stream, so that no framing has to be read.
pub open spec fn request_text(
    method: Seq<char>,
    path: Seq<char>,
    host: Seq<char>,
    payload: Seq<char>,
    token: Option<Seq<char>>,
) -> Seq<char> {
    request_start(method, path, host, payload) + authorization(token)
        + "Connection: close\r\n\r\n"@ + payload
}

/// The request that a transport makes of a method, a route and a payload. The
/// socket gets no token; a base URL's prefix goes before the route.
pub open spec fn request_for(
    t: TransportV,
    method: Seq<char>,
    route: Seq<char>,
    payload: Seq<char>,
) -> Result<(AddressV, Seq<char>), TransportErrorV> {
    match t {
        TransportV::Unix(path) => Ok(
            (
                AddressV::Unix(path),
                request_text(method, route, "localhost"@, payload, None),
            ),
        ),
        TransportV::Http { base, token } => match split(base) {
            Ok((host, port, prefix)) => Ok(
                (
                    AddressV::Tcp { host, port },
                    request_text(method, prefix + route, host, payload, token),
                ),
            ),
            Err(e) => Err(e),
        },
    }
}

/// Writes one HTTP/1.1 request.
fn write_request(
    method: &str,
    path: &str,
    host: &str,
    payload: &str,
    token: &Option<String>,
) -> (r: String)
    ensures
        r@ == request_text(method@, path@, host@, payload@, opt_text(*token)),
{
    let mut out = method.to_owned();
    out.append(" ");
    out.append(path);
    out.append(" HTTP/1.1\r\nHost: ");
    out.append(host);
    out.append("\r\nContent-Type: application/json\r\nContent-Length: ");
    push_decimal(&mut out, payload.as_bytes().len() as u128);
    out.append("\r\n");
    let ghost so_far = out@;
    match token {
        Some(t) => {
            let mut auth = "Authorization: Bearer ".to_owned();
            auth.append(t.as_str());
            auth.append("\r\n");
            out.append(auth.as_str());
        },
        None => {},
    }
    assert(out@ =~= so_far + authorization(opt_text(*token)));
    out.append("Connection: close\r\n\r\n");
    out.append(payload);
    out
}

impl Transport {
    /// The request for a method, a route and a payload.
    fn request(&self, method: &str, route: &str, payload: &str) -> (r: Result<
        Request,
        TransportError,
    >)
        ensures
            match r {
                Ok(q) => request_for(self@, method@, route@, payload@) == Ok::<
                    (AddressV, Seq<char>),
                    TransportErrorV,
                >(q@),
                Err(e) => request_for(self@, method@, route@, payload@) == Err::<
                    (AddressV, Seq<char>),
                    TransportErrorV,
                >(e@),
            },
    {
        match self {
            Transport::Unix(p) => {
                let none: Option<String> = None;
                Ok(
                    Request {
                        address: Address::Unix(p.clone()),
                        text: write_request(method, route, "localhost", payload, &none),
                    },
                )
            },
            Transport::Http { base, token } => {
                let (host, port, prefix) = split_base(base.as_str())?;
                let mut path = prefix;
                path.append(route);
                let text = write_request(method, path.as_str(), host.as_str(), payload, token);
                Ok(Request { address: Address::Tcp { host, port }, text })
            },
        }
    }

    /// The request that posts a body to a route of the pod. Its payload reads back
    /// as the body, unless that nests too deep or holds other numbers than those
    /// of `u64`.
    pub fn post(&self, route: &str, body: &Json) -> (r: Result<Request, TransportError>)
        ensures
            match r {
                Ok(q) => request_for(self@, "POST"@, route@, compact(body@)) == Ok::<
                    (AddressV, Seq<char>),
                    TransportErrorV,
                >(q@),
                Err(e) => request_for(self@, "POST"@, route@, compact(body@)) == Err::<
                    (AddressV, Seq<char>),
                    TransportErrorV,
                >(e@),
            },
            nested(body@, 127) ==> reads_back(compact(body@), body@),
    {
        self.request("POST", route, body.to_text().as_str())
    }

    /// The request that gets a route of the pod. Only the health route needs it,
    /// to answer whether the pod is serving yet.
    pub fn get(&self, route: &str) -> (r: Result<Request, TransportError>)
        ensures
            match r {
                Ok(q) => request_for(self@, "GET"@, route@, seq![]) == Ok::<
                    (AddressV, Seq<char>),
                    TransportErrorV,
                >(q@),
                Err(e) => request_for(self@, "GET"@, route@, seq![]) == Err::<
                    (AddressV, Seq<char>),
                    TransportErrorV,
                >(e@),
            },
    {
        let nothing = String::new();
        self.request("GET", route, nothing.as_str())
    }
}

/// Where the blank line that ends the headers begins, if there is one.
pub open spec fn headers_end(raw: Seq<u8>) -> Option<nat>
    decreases raw.len(),
{
    if raw.len() < 4 {
        None
    } else if raw[0] == 13 && raw[1] == 10 && raw[2] == 13 && raw[3] == 10 {
        Some(0)
    } else {
        match headers_end(raw.drop_first()) {
            Some(n) => Some(n + 1),
            None => None,
        }
    }
}

/// The status in the headers of a reply: the second word of their first line.
pub open spec fn status_of(headers: Seq<char>) -> Option<u16> {
    let l = lines_of(headers);
    if l.len() > 0 && words_of(l[0]).len() > 1 {
        u16_of(words_of(l[0])[1])
    } else {
        None
    }
}

/// What a reply with these headers and this body says. `shown` is the body as
/// text, and `value` what stands in it, unless it is empty.
pub open spec fn answer(
    headers: Seq<char>,
    shown: Seq<char>,
    value: Option<Result<JsonV, Seq<char>>>,
) -> Result<JsonV, TransportErrorV> {
    match status_of(headers) {
        None => Err(TransportErrorV::Protocol("no status line in reply"@)),
        Some(status) => if !(200 <= status < 300) {
            Err(TransportErrorV::Status { status, body: head_of(shown, 2000) })
        } else {
            match value {
                None => Ok(JsonV::Null),
                Some(Ok(j)) => Ok(j),
                Some(Err(e)) => Err(TransportErrorV::Protocol(e)),
            }
        },
    }
}

/// What the bytes of a reply say.
pub open spec fn reply(raw: Seq<u8>) -> Result<JsonV, TransportErrorV> {
    match headers_end(raw) {
        None => Err(TransportErrorV::Protocol("no header terminator in reply"@)),
        Some(n) => {
            let body = raw.skip(n as int + 4);
            answer(
                lossy(raw.take(n as int)),
                lossy(body),
                if body.len() == 0 {
                    None
                } else {
                    Some(parsed_bytes(body))
                },
            )
        },
    }
}

/// The position of the blank line that ends the headers.
fn find_headers_end(raw: &[u8]) -> (r: Option<usize>)
    ensures
        match r {
            Some(n) => headers_end(raw@) == Some(n as nat) && n + 4 <= raw@.len(),
            None => headers_end(raw@) is None,
        },
{
    let mut i: usize = 0;
    assert(raw@.skip(0) == raw@);
    while i < raw.len() && raw.len() - i >= 4
        invariant
            i <= raw@.len(),
            headers_end(raw@) == match headers_end(raw@.skip(i as int)) {
                Some(n) => Some(n + i as nat),
                None => None,
            },
        decreases raw@.len() - i,
    {
        let ghost rest = raw@.skip(i as int);
        assert(rest[0] == raw@[i as int] && rest[1] == raw@[i + 1] && rest[2] == raw@[i + 2]
            && rest[3] == raw@[i + 3]);
        if raw[i] == 13 && raw[i + 1] == 10 && raw[i + 2] == 13 && raw[i + 3] == 10 {
            return Some(i);
        }
        assert(rest.drop_first() == raw@.skip(i + 1));
        i += 1;
    }
    None
}

/// The status in the headers of a reply.
fn status_in(headers: &str) -> (r: Option<u16>)
    ensures
        r == status_of(headers@),
{
    let l = lines(headers);
    if l.len() == 0 {
        return None;
    }
    assert(texts(l@)[0] == l@[0]@);
    let c = chars(l[0].as_str());
    let w = words(c.as_slice());
    if w.len() < 2 {
        return None;
    }
    assert(texts(w@)[1] == w@[1]@);
    let d = chars(w[1].as_str());
    parse_u16(d.as_slice())
}

/// The model of a value or of what is said in its place.
pub open spec fn value_or_error(r: Result<Json, String>) -> Result<JsonV, Seq<char>> {
    match r {
        Ok(j) => Ok(j@),
        Err(e) => Err(e@),
    }
}

/// Says what a reply with these headers and this body means. A status other than
/// success is an error that carries the beginning of the body; an empty body is
/// `null`.
pub fn interpret(headers: &str, shown: &str, value: Option<Result<Json, String>>) -> (r: Result<
    Json,
    TransportError,
>)
    ensures
        match r {
            Ok(j) => answer(
                headers@,
                shown@,
                match value {
                    Some(v) => Some(value_or_error(v)),
                    None => None,
                },
            ) == Ok::<JsonV, TransportErrorV>(j@),
            Err(e) => answer(
                headers@,
                shown@,
                match value {
                    Some(v) => Some(value_or_error(v)),
                    None => None,
                },
            ) == Err::<JsonV, TransportErrorV>(e@),
        },
{
    match status_in(headers) {
        None => Err(TransportError::Protocol("no status line in reply".to_owned())),
        Some(status) => {
            if !(200 <= status && status < 300) {
                let c = chars(shown);
                return Err(TransportError::Status { status, body: head(c.as_slice(), 2000) });
            }
            match value {
                None => Ok(Json::Null),
                Some(Ok(j)) => Ok(j),
                Some(Err(e)) => Err(TransportError::Protocol(e)),
            }
        },
    }
}

/// Reads the bytes of a reply, up to the end of the stream.
pub fn read_reply(raw: &[u8]) -> (r: Result<Json, TransportError>)
    ensures
        match r {
            Ok(j) => reply(raw@) == Ok::<JsonV, TransportErrorV>(j@),
            Err(e) => reply(raw@) == Err::<JsonV, TransportErrorV>(e@),
        },
{
    let len: usize = raw.len();
    match find_headers_end(raw) {
        None => Err(TransportError::Protocol("no header terminator in reply".to_owned())),
        Some(n) => {
            let headers = vstd::slice::slice_subrange(raw, 0, n);
            let body = vstd::slice::slice_subrange(raw, n + 4, len);
            assert(headers@ == raw@.take(n as int));
            assert(body@ == raw@.skip(n + 4));
            let value = if body.len() == 0 {
                None
            } else {
                Some(Json::parse_bytes(body))
            };
            interpret(utf8_lossy(headers).as_str(), utf8_lossy(body).as_str(), value)
        },
    }
}

/// A success is never made up: a reply counts as one only where its headers say
/// so, and what it gives is then what stands in its body.
pub proof fn law_success_needs_a_success_status(raw: Seq<u8>)
    ensures
        reply(raw) matches Ok(value) ==> (headers_end(raw) matches Some(n) && {
            &&& status_of(lossy(raw.take(n as int))) matches Some(status) && 200 <= status < 300
            &&& raw.len() > n + 4 ==> parsed_bytes(raw.skip(n as int + 4)) == Ok::<
                JsonV,
                Seq<char>,
            >(value)
            &&& raw.len() == n + 4 ==> value == JsonV::Null
        }),
{
    if let Some(n) = headers_end(raw) {
        lemma_headers_end(raw);
        assert(raw.skip(n as int + 4).len() == raw.len() - n - 4);
    }
}

/// The blank line stands where it was found.
proof fn lemma_headers_end(raw: Seq<u8>)
    ensures
        headers_end(raw) matches Some(n) ==> n + 4 <= raw.len(),
    decreases raw.len(),
{
    if raw.len() >= 4 {
        lemma_headers_end(raw.drop_first());
    }
}

/// A request carries the token of the moment and no other: whatever token the
/// transport was made with, the request is the one for the token that it was
/// renewed with, in the one place where a request carries one. A blank token is
/// none, and the socket carries none.
pub proof fn law_request_carries_the_current_token(
    t: TransportV,
    token: Option<Seq<char>>,
    method: Seq<char>,
    route: Seq<char>,
    payload: Seq<char>,
)
    ensures
        request_for(renewed(t, token), method, route, payload) matches Ok((_, sent)) ==> match t {
            TransportV::Unix(_) => sent == request_start(method, route, "localhost"@, payload)
                + authorization(None) + "Connection: close\r\n\r\n"@ + payload,
            TransportV::Http { base, .. } => split(base) matches Ok((host, _, prefix)) && sent
                == request_start(method, prefix + route, host, payload) + authorization(
                configured(token),
            ) + "Connection: close\r\n\r\n"@ + payload,
        },
        t matches TransportV::Http { base, .. } ==> forall|stored: Option<Seq<char>>|
            renewed(t, token) == #[trigger] renewed(TransportV::Http { base, token: stored }, token),
{
}

/// The label of a base URL is its authority, whatever path follows it.
pub proof fn law_label_is_the_authority(host_port: Seq<char>, prefix: Seq<char>)
    requires
        !host_port.contains('/'),
        prefix.len() > 0 ==> prefix[0] == '/',
        !begins(host_port + prefix, "http://"@),
        !begins(host_port + prefix, "https://"@),
    ensures
        authority("http://"@ + host_port + prefix) == host_port,
{
    reveal_strlit("http://");
    let scheme = "http://"@;
    let base = scheme + host_port + prefix;
    let rest = host_port + prefix;
    assert(base.take(7) =~= scheme);
    assert(base.skip(7) =~= rest);
    assert(without_prefixes(rest, scheme) == rest);
    assert(without_prefixes(base, scheme) == rest);
    let n = host_port.len() as int;
    assert forall|i: int| 0 <= i < n implies rest[i] != '/' by {
        assert(rest[i] == host_port[i]);
    }
    if prefix.len() > 0 {
        assert(rest[n] == prefix[0]);
    }
    lemma_first_index_is(rest, '/', n);
    assert(rest.take(n) =~= host_port);
}

/// The socket wins: where one is configured, nothing else is looked at.
pub proof fn law_socket_wins(
    sock: Seq<char>,
    url: Option<Seq<char>>,
    token: Option<Seq<char>>,
)
    requires
        trimmed(sock).len() > 0,
    ensures
        chosen(Some(sock), url, token) == Ok::<TransportV, TransportErrorV>(TransportV::Unix(sock)),
{
}

/// A blank variable configures what an unset one does.
pub proof fn law_blank_is_unset(
    sock: Option<Seq<char>>,
    url: Option<Seq<char>>,
    token: Option<Seq<char>>,
)
    ensures
        chosen(sock, url, token) == chosen(configured(sock), configured(url), configured(token)),
{
}

/// A base URL with another scheme than plain HTTP is refused, and `https` with it.
pub proof fn law_https_is_refused(base: Seq<char>)
    ensures
        !begins(base, "http://"@) ==> split(base) is Err,
        begins(base, "https://"@) ==> split(base) is Err,
{
    reveal_strlit("http://");
    reveal_strlit("https://");
    if begins(base, "https://"@) {
        assert(base.take("https://"@.len() as int)[4] == 's');
        if begins(base, "http://"@) {
            assert(base.take("http://"@.len() as int)[4] == ':');
        }
    }
}

/// A base URL splits into the host, the port and the prefix it was made of.
pub proof fn law_base_url_splits(host: Seq<char>, port: u16, prefix: Seq<char>)
    requires
        !host.contains('/'),
        prefix.len() > 0 ==> prefix[0] == '/',
    ensures
        split("http://"@ + host + ":"@ + decimal(port as nat) + prefix) == Ok::<
            (Seq<char>, u16, Seq<char>),
            TransportErrorV,
        >((host, port, prefix)),
{
    let p = decimal(port as nat);
    lemma_decimal(port as nat);
    lemma_u16_decimal(port);
    reveal_strlit("http://");
    reveal_strlit(":");
    let scheme = "http://"@;
    let base = scheme + host + ":"@ + p + prefix;
    let rest = host + ":"@ + p + prefix;
    let host_port = host + ":"@ + p;
    assert(base.take(7) =~= scheme);
    assert(base.skip(7) =~= rest);
    let n = host_port.len() as int;
    assert forall|i: int| 0 <= i < n implies rest[i] != '/' by {
        if i < host.len() {
            assert(rest[i] == host[i]);
        } else if i == host.len() {
            assert(rest[i] == ':');
        } else {
            assert(rest[i] == p[i - host.len() - 1]);
        }
    }
    if prefix.len() > 0 {
        assert(rest[n] == prefix[0]);
    }
    lemma_first_index_is(rest, '/', n);
    assert(rest.take(n) =~= host_port);
    assert(rest.skip(n) =~= prefix);
    let m = host.len() as int + 1;
    assert forall|i: int| m <= i < host_port.len() implies host_port[i] != ':' by {
        assert(host_port[i] == p[i - m]);
    }
    lemma_tail_start_is(host_port, ':', m);
    assert(host_port.skip(m) =~= p);
    assert(host_port.take(m - 1) =~= host);
}

} // verus!
