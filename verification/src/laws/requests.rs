//! What goes to the pod and what comes back from it.

use vstd::prelude::*;
use vstd::string::*;
use vstd::utf8::encode_utf8;

use crate::json::{parsed_bytes, JsonV};
use crate::laws::texts::{
    blank, law_beginning, law_cutting, law_decimal, law_joining, law_lines, law_prefixes_go,
    law_trailing_goes, law_trimming_of_any, law_words, reads_as, solid,
};
use crate::text::{
    decimal, is_space, joined, lemma_first_index_is, lemma_tail_start_is, lossy, trimmed, u16_of,
    words_of,
};
use crate::transport::{
    answer, authority, chosen, configured, headers_end, name_in, renewed, reply, request_for,
    request_text, split, status_of, AddressV, TransportErrorV, TransportV,
};

verus! {

/// Whether a text holds no line break.
pub open spec fn tame(s: Seq<char>) -> bool {
    forall|i: int| 0 <= i < s.len() ==> #[trigger] s[i] != '\r' && s[i] != '\n'
}

/// Whether a text is made of decimal digits.
pub open spec fn digits(s: Seq<char>) -> bool {
    s.len() > 0 && forall|i: int| 0 <= i < s.len() ==> '0' <= #[trigger] s[i] <= '9'
}

/// A carriage return and a line feed.
pub open spec fn crlf() -> Seq<char> {
    seq!['\r', '\n']
}

/// Whether a blank line begins at a position.
pub open spec fn blank_line_at(s: Seq<char>, k: int) -> bool {
    0 <= k && k + 4 <= s.len() && s[k] == '\r' && s[k + 1] == '\n' && s[k + 2] == '\r' && s[k + 3]
        == '\n'
}

/// The lines of a request's head, where `length` is what it announces.
pub open spec fn head_lines(
    method: Seq<char>,
    path: Seq<char>,
    host: Seq<char>,
    length: Seq<char>,
    token: Option<Seq<char>>,
) -> Seq<Seq<char>> {
    seq![
        method + seq![' '] + path + " HTTP/1.1"@,
        "Host: "@ + host,
        "Content-Type: application/json"@,
        "Content-Length: "@ + length,
    ] + (match token {
        Some(t) => seq!["Authorization: Bearer "@ + t],
        None => seq![],
    }) + seq!["Connection: close"@]
}

/// Whether a text reads as an HTTP request with a payload: a head of header lines,
/// a blank line, and the payload. The length that the head announces is the number
/// of bytes of the payload. Where no part of the head holds a line break, the first
/// blank line is the one before the payload.
pub open spec fn reads_as_request(
    r: Seq<char>,
    method: Seq<char>,
    path: Seq<char>,
    host: Seq<char>,
    token: Option<Seq<char>>,
    payload: Seq<char>,
) -> bool {
    exists|length: Seq<char>|
        {
            let lines = #[trigger] head_lines(method, path, host, length, token);
            let head = joined(lines, crlf());
            &&& digits(length)
            &&& reads_as(length) == encode_utf8(payload).len()
            &&& r == head + crlf() + crlf() + payload
            &&& blank_line_at(r, head.len() as int)
            &&& tame(method) && tame(path) && tame(host) && (token matches Some(t) ==> tame(t))
                ==> forall|k: int| 0 <= k < head.len() ==> !#[trigger] blank_line_at(r, k)
        }
}

/// A request reads as HTTP: its head names the method and the path and carries a
/// token exactly if there is one, and what follows the blank line is the payload,
/// of just the length that the head announces.
pub proof fn law_request_reads_as_http(
    method: Seq<char>,
    path: Seq<char>,
    host: Seq<char>,
    payload: Seq<char>,
    token: Option<Seq<char>>,
)
    ensures
        reads_as_request(
            request_text(method, path, host, payload, token),
            method,
            path,
            host,
            token,
            payload,
        ),
{
    let length = decimal(encode_utf8(payload).len());
    law_decimal(encode_utf8(payload).len());
    let lines = head_lines(method, path, host, length, token);
    let head = joined(lines, crlf());
    let r = request_text(method, path, host, payload, token);
    lemma_request_text(method, path, host, payload, token);
    assert(blank_line_at(r, head.len() as int));
    if tame(method) && tame(path) && tame(host) && (token matches Some(t) ==> tame(t)) {
        lemma_tame_lines(method, path, host, length, token);
        lemma_no_blank_line(lines);
        assert forall|k: int| 0 <= k < head.len() implies !#[trigger] blank_line_at(r, k) by {
            assert(r[k] == head[k]);
            if r[k] == '\r' {
                assert(r[k + 2] == head[k + 2]);
            }
        }
    }
}

/// The text of a request is its head, a blank line and its payload.
proof fn lemma_request_text(
    method: Seq<char>,
    path: Seq<char>,
    host: Seq<char>,
    payload: Seq<char>,
    token: Option<Seq<char>>,
)
    ensures
        request_text(method, path, host, payload, token) == joined(
            head_lines(method, path, host, decimal(encode_utf8(payload).len()), token),
            crlf(),
        ) + crlf() + crlf() + payload,
{
    let length = decimal(encode_utf8(payload).len());
    let c = crlf();
    lemma_head_lines(method, path, host, length, token);
    lemma_literals();
    let a = method + seq![' '] + path;
    let http = " HTTP/1.1"@;
    let h = "Host: "@;
    let kind = "Content-Type: application/json"@;
    let l = "Content-Length: "@;
    let last = "Connection: close"@;
    lemma_in_parts(a, http, c, h);
    lemma_in_parts(a + http + c, h, host, seq![]);
    let b = a + http + c + h + host;
    lemma_in_parts(b, c, kind, c);
    lemma_in_parts(b, c + kind + c, l, seq![]);
    let d = b + c + kind + c + l + length + c;
    lemma_in_parts(b + c + kind + c, l, length, seq![]);
    match token {
        Some(t) => {
            let f = "Authorization: Bearer "@ + t;
            lemma_in_parts(d, f, c, seq![]);
            let e = d + f + c;
            lemma_in_parts(e, last, c, c);
        },
        None => {
            assert(d + Seq::<char>::empty() =~= d);
            lemma_in_parts(d, last, c, c);
        },
    }
}

/// What is added in one piece may be added in parts.
proof fn lemma_in_parts(s: Seq<char>, a: Seq<char>, b: Seq<char>, c: Seq<char>)
    ensures
        s + (a + b + c) == s + a + b + c,
        s + (a + b) == s + a + b,
{
    assert(s + (a + b + c) =~= s + a + b + c);
    assert(s + (a + b) =~= s + a + b);
}

/// The literals of a request, in parts.
proof fn lemma_literals()
    ensures
        " "@ =~= seq![' '],
        "\r\n"@ =~= crlf(),
        " HTTP/1.1\r\nHost: "@ =~= " HTTP/1.1"@ + crlf() + "Host: "@,
        "\r\nContent-Type: application/json\r\nContent-Length: "@ =~= crlf()
            + "Content-Type: application/json"@ + crlf() + "Content-Length: "@,
        "Connection: close\r\n\r\n"@ =~= "Connection: close"@ + crlf() + crlf(),
{
    reveal_strlit(" ");
    reveal_strlit("\r\n");
    reveal_strlit(" HTTP/1.1\r\nHost: ");
    reveal_strlit(" HTTP/1.1");
    reveal_strlit("Host: ");
    reveal_strlit("\r\nContent-Type: application/json\r\nContent-Length: ");
    reveal_strlit("Content-Type: application/json");
    reveal_strlit("Content-Length: ");
    reveal_strlit("Connection: close\r\n\r\n");
    reveal_strlit("Connection: close");
}

/// The head, line by line.
proof fn lemma_head_lines(
    method: Seq<char>,
    path: Seq<char>,
    host: Seq<char>,
    length: Seq<char>,
    token: Option<Seq<char>>,
)
    ensures
        joined(head_lines(method, path, host, length, token), crlf()) == method + seq![' '] + path
            + " HTTP/1.1"@ + crlf() + ("Host: "@ + host) + crlf()
            + "Content-Type: application/json"@ + crlf() + ("Content-Length: "@ + length) + crlf()
            + (match token {
            Some(t) => ("Authorization: Bearer "@ + t) + crlf(),
            None => seq![],
        }) + "Connection: close"@,
{
    let a = method + seq![' '] + path + " HTTP/1.1"@;
    let b = "Host: "@ + host;
    let c = "Content-Type: application/json"@;
    let d = "Content-Length: "@ + length;
    let e = "Connection: close"@;
    law_joining(seq![a], b, crlf());
    law_joining(seq![a, b], c, crlf());
    law_joining(seq![a, b, c], d, crlf());
    assert(joined(seq![a], crlf()) == a);
    assert(seq![a].push(b) =~= seq![a, b]);
    assert(seq![a, b].push(c) =~= seq![a, b, c]);
    assert(seq![a, b, c].push(d) =~= seq![a, b, c, d]);
    match token {
        Some(t) => {
            let f = "Authorization: Bearer "@ + t;
            law_joining(seq![a, b, c, d], f, crlf());
            law_joining(seq![a, b, c, d, f], e, crlf());
            assert(seq![a, b, c, d].push(f) =~= seq![a, b, c, d, f]);
            assert(seq![a, b, c, d, f].push(e) =~= head_lines(method, path, host, length, token));
            assert(joined(head_lines(method, path, host, length, token), crlf()) =~= a + crlf() + b
                + crlf() + c + crlf() + d + crlf() + (f + crlf()) + e);
        },
        None => {
            law_joining(seq![a, b, c, d], e, crlf());
            assert(seq![a, b, c, d].push(e) =~= head_lines(method, path, host, length, token));
            assert(joined(head_lines(method, path, host, length, token), crlf()) =~= a + crlf() + b
                + crlf() + c + crlf() + d + crlf() + Seq::<char>::empty() + e);
        },
    }
}

/// The lines of a head hold no line breaks, where its parts hold none.
proof fn lemma_tame_lines(
    method: Seq<char>,
    path: Seq<char>,
    host: Seq<char>,
    length: Seq<char>,
    token: Option<Seq<char>>,
)
    requires
        tame(method),
        tame(path),
        tame(host),
        digits(length),
        token matches Some(t) ==> tame(t),
    ensures
        forall|i: int|
            0 <= i < head_lines(method, path, host, length, token).len() ==> tame(
                #[trigger] head_lines(method, path, host, length, token)[i],
            ) && head_lines(method, path, host, length, token)[i].len() > 0,
{
    reveal_strlit(" HTTP/1.1");
    reveal_strlit("Host: ");
    reveal_strlit("Content-Type: application/json");
    reveal_strlit("Content-Length: ");
    reveal_strlit("Authorization: Bearer ");
    reveal_strlit("Connection: close");
    let lines = head_lines(method, path, host, length, token);
    lemma_tame_add(method, seq![' ']);
    lemma_tame_add(method + seq![' '], path);
    lemma_tame_add(method + seq![' '] + path, " HTTP/1.1"@);
    lemma_tame_add("Host: "@, host);
    assert(tame(length)) by {
        assert forall|i: int| 0 <= i < length.len() implies #[trigger] length[i] != '\r'
            && length[i] != '\n' by {
            assert('0' <= length[i] <= '9');
        }
    }
    lemma_tame_add("Content-Length: "@, length);
    assert(lines[0] == method + seq![' '] + path + " HTTP/1.1"@);
    assert(lines[1] == "Host: "@ + host);
    assert(lines[2] == "Content-Type: application/json"@);
    assert(lines[3] == "Content-Length: "@ + length);
    match token {
        Some(t) => {
            lemma_tame_add("Authorization: Bearer "@, t);
            assert(lines[4] == "Authorization: Bearer "@ + t);
            assert(lines[5] == "Connection: close"@);
        },
        None => {
            assert(lines[4] == "Connection: close"@);
        },
    }
}

/// Two texts without line breaks make one.
proof fn lemma_tame_add(a: Seq<char>, b: Seq<char>)
    requires
        tame(a),
        tame(b),
    ensures
        tame(a + b),
{
    let s = a + b;
    assert forall|i: int| 0 <= i < s.len() implies #[trigger] s[i] != '\r' && s[i] != '\n' by {
        if i < a.len() {
            assert(s[i] == a[i]);
        } else {
            assert(s[i] == b[i - a.len()]);
        }
    }
}

/// Joined lines hold no blank line, where none of them is empty or holds a line
/// break.
proof fn lemma_no_blank_line(lines: Seq<Seq<char>>)
    requires
        forall|i: int|
            0 <= i < lines.len() ==> tame(#[trigger] lines[i]) && lines[i].len() > 0,
    ensures
        forall|k: int|
            0 <= k < joined(lines, crlf()).len() && #[trigger] joined(lines, crlf())[k] == '\r'
                ==> k + 2 < joined(lines, crlf()).len() && joined(lines, crlf())[k + 2] != '\r',
    decreases lines.len(),
{
    let h = joined(lines, crlf());
    if lines.len() == 1 {
        assert(tame(lines[0]));
    } else if lines.len() > 1 {
        let d = lines.drop_last();
        assert forall|i: int| 0 <= i < d.len() implies tame(#[trigger] d[i]) && d[i].len() > 0 by {
            assert(d[i] == lines[i]);
        }
        lemma_no_blank_line(d);
        law_joining(d, lines.last(), crlf());
        assert(d.push(lines.last()) =~= lines);
        let g = joined(d, crlf());
        let last = lines.last();
        assert(tame(lines[lines.len() - 1]));
        assert(h == g + crlf() + last);
        assert forall|k: int| 0 <= k < h.len() && #[trigger] h[k] == '\r' implies k + 2 < h.len()
            && h[k + 2] != '\r' by {
            if k < g.len() {
                assert(h[k] == g[k]);
                assert(h[k + 2] == g[k + 2]);
            } else if k == g.len() {
                assert(h[k + 2] == last[0]);
            } else if k > g.len() + 1 {
                assert(h[k] == last[k - g.len() - 2]);
            }
        }
    }
}

/// A request goes to the pod: over the socket as it is, without a token; over HTTP
/// to the host and the port of the base, with its prefix before the route.
pub proof fn law_request_goes_to_the_pod(
    path: Seq<char>,
    base: Seq<char>,
    token: Option<Seq<char>>,
    method: Seq<char>,
    route: Seq<char>,
    payload: Seq<char>,
)
    ensures
        request_for(TransportV::Unix(path), method, route, payload) == Ok::<
            (AddressV, Seq<char>),
            TransportErrorV,
        >(
            (
                AddressV::Unix(path),
                request_text(method, route, "localhost"@, payload, None),
            ),
        ),
        request_for((TransportV::Http { base, token }), method, route, payload) == match split(
            base,
        ) {
            Ok((host, port, prefix)) => Ok::<(AddressV, Seq<char>), TransportErrorV>(
                (
                    (AddressV::Tcp { host, port }),
                    request_text(method, prefix + route, host, payload, token),
                ),
            ),
            Err(e) => Err::<(AddressV, Seq<char>), TransportErrorV>(e),
        },
{
}

/// Whether a blank line begins at a position of some bytes.
pub open spec fn blank_bytes_at(raw: Seq<u8>, k: int) -> bool {
    0 <= k && k + 4 <= raw.len() && raw[k] == 13 && raw[k + 1] == 10 && raw[k + 2] == 13 && raw[k
        + 3] == 10
}

/// A reply is split at its first blank line. A status of success gives what stands
/// in the body, or `null` where there is none; any other status gives that status
/// and the beginning of the body. Without a blank line or a status there is no
/// reply.
pub proof fn law_reply_is_read(raw: Seq<u8>, k: int)
    requires
        blank_bytes_at(raw, k),
        forall|j: int| 0 <= j < k ==> !#[trigger] blank_bytes_at(raw, j),
    ensures
        ({
            let body = raw.subrange(k + 4, raw.len() as int);
            let shown = lossy(body);
            match status_of(lossy(raw.subrange(0, k))) {
                None => reply(raw) == Err::<JsonV, TransportErrorV>(
                    TransportErrorV::Protocol("no status line in reply"@),
                ),
                Some(status) => if 200 <= status < 300 {
                    if body.len() == 0 {
                        reply(raw) == Ok::<JsonV, TransportErrorV>(JsonV::Null)
                    } else {
                        match parsed_bytes(body) {
                            Ok(v) => reply(raw) == Ok::<JsonV, TransportErrorV>(v),
                            Err(e) => reply(raw) == Err::<JsonV, TransportErrorV>(
                                TransportErrorV::Protocol(e),
                            ),
                        }
                    }
                } else {
                    reply(raw) == Err::<JsonV, TransportErrorV>(
                        TransportErrorV::Status {
                            status,
                            body: if shown.len() <= 2000 {
                                shown
                            } else {
                                shown.subrange(0, 2000)
                            },
                        },
                    )
                },
            }
        }),
{
    lemma_first_blank(raw, k);
    assert(raw.take(k) =~= raw.subrange(0, k));
    assert(raw.skip(k + 4) =~= raw.subrange(k + 4, raw.len() as int));
    let shown = lossy(raw.skip(k + 4));
    assert(shown.len() > 2000 ==> shown.take(2000) =~= shown.subrange(0, 2000));
}

/// A reply without a blank line is none.
pub proof fn law_no_blank_line_no_reply(raw: Seq<u8>)
    requires
        forall|j: int| !#[trigger] blank_bytes_at(raw, j),
    ensures
        reply(raw) == Err::<JsonV, TransportErrorV>(
            TransportErrorV::Protocol("no header terminator in reply"@),
        ),
{
    lemma_no_blank(raw);
}

/// The first blank line is where the headers end.
proof fn lemma_first_blank(raw: Seq<u8>, k: int)
    requires
        blank_bytes_at(raw, k),
        forall|j: int| 0 <= j < k ==> !#[trigger] blank_bytes_at(raw, j),
    ensures
        headers_end(raw) == Some(k as nat),
    decreases raw.len(),
{
    if k > 0 {
        let d = raw.drop_first();
        assert(!blank_bytes_at(raw, 0));
        assert(blank_bytes_at(d, k - 1));
        assert forall|j: int| 0 <= j < k - 1 implies !#[trigger] blank_bytes_at(d, j) by {
            assert(!blank_bytes_at(raw, j + 1));
        }
        lemma_first_blank(d, k - 1);
    }
}

/// Where there is no blank line, none is found.
proof fn lemma_no_blank(raw: Seq<u8>)
    requires
        forall|j: int| !#[trigger] blank_bytes_at(raw, j),
    ensures
        headers_end(raw) is None,
    decreases raw.len(),
{
    if raw.len() >= 4 {
        let d = raw.drop_first();
        assert(!blank_bytes_at(raw, 0));
        assert forall|j: int| !#[trigger] blank_bytes_at(d, j) by {
            assert(!blank_bytes_at(raw, j + 1));
        }
        lemma_no_blank(d);
    }
}

/// The status of a reply is the number that is the second word of its first line.
pub proof fn law_status(
    version: Seq<char>,
    gap: Seq<char>,
    code: Seq<char>,
    tail: Seq<char>,
    more: Seq<char>,
)
    requires
        solid(version),
        version.len() > 0,
        blank(gap),
        gap.len() > 0,
        !gap.contains('\n'),
        solid(code),
        code.len() > 0,
        !tail.contains('\n'),
        tail.len() > 0 ==> is_space(tail[0]),
    ensures
        status_of(version + gap + code + tail) == u16_of(code),
        status_of(version + gap + code + tail + seq!['\n'] + more) == u16_of(code),
{
    let line = version + gap + code + tail;
    assert(!line.contains('\n')) by {
        if line.contains('\n') {
            let i = choose|i: int| 0 <= i < line.len() && line[i] == '\n';
            if i < version.len() {
                assert(version[i] == '\n');
            } else if i < version.len() + gap.len() {
                assert(gap[i - version.len()] == '\n');
            } else if i < version.len() + gap.len() + code.len() {
                assert(code[i - version.len() - gap.len()] == '\n');
            } else {
                assert(tail[i - version.len() - gap.len() - code.len()] == '\n');
            }
        }
    }
    law_lines(line, more);
    lemma_second_word(version, gap, code, tail);
    if tail.len() > 0 && tail.last() == '\r' {
        let t = tail.drop_last();
        lemma_second_word(version, gap, code, t);
        assert(line.drop_last() =~= version + gap + code + t);
    } else if tail.len() == 0 {
        assert(line.last() == code.last());
        assert(!is_space(code[code.len() - 1]));
    }
}

/// The second word of a line.
proof fn lemma_second_word(version: Seq<char>, gap: Seq<char>, code: Seq<char>, tail: Seq<char>)
    requires
        solid(version),
        version.len() > 0,
        blank(gap),
        gap.len() > 0,
        solid(code),
        code.len() > 0,
        tail.len() > 0 ==> is_space(tail[0]),
    ensures
        words_of(version + gap + code + tail).len() > 1,
        words_of(version + gap + code + tail)[1] == code,
{
    let rest = gap + code + tail;
    assert(is_space(gap[0]));
    assert(rest[0] == gap[0]);
    law_words(seq![], version, rest);
    assert(Seq::<char>::empty() + version + rest =~= version + gap + code + tail);
    law_words(gap, code, tail);
}

/// A value counts as configuration exactly if it holds something but white space,
/// and it counts as it stands.
pub proof fn law_configuration(value: Seq<char>)
    ensures
        configured(Some(value)) == if exists|i: int|
            0 <= i < value.len() && !is_space(#[trigger] value[i]) {
            Some(value)
        } else {
            None
        },
        configured(None) is None,
{
    law_trimming_of_any(value);
    let t = trimmed(value);
    let (a, b) = choose|a: int, b: int|
        0 <= a <= b <= value.len() && blank(value.take(a)) && blank(value.skip(b))
            && #[trigger] value.subrange(a, b) == t;
    if t.len() > 0 {
        assert(value[a] == t[0]);
    } else {
        assert forall|i: int| 0 <= i < value.len() implies is_space(#[trigger] value[i]) by {
            if i < a {
                assert(value.take(a)[i] == value[i]);
            } else {
                assert(value.skip(b)[i - b] == value[i]);
            }
        }
    }
}

/// The socket is chosen where it is configured; else the URL, without the slashes
/// that it ends with and with the token that is configured; else there is no
/// transport.
pub proof fn law_choice(
    sock: Option<Seq<char>>,
    base: Seq<char>,
    slashes: nat,
    token: Option<Seq<char>>,
)
    requires
        base.len() > 0 ==> base.last() != '/',
    ensures
        configured(sock) matches Some(path) ==> chosen(
            sock,
            Some(base + Seq::new(slashes, |i: int| '/')),
            token,
        ) == Ok::<TransportV, TransportErrorV>(TransportV::Unix(path)),
        configured(sock) is None && configured(Some(base + Seq::new(slashes, |i: int| '/'))) is Some
            ==> chosen(sock, Some(base + Seq::new(slashes, |i: int| '/')), token) == Ok::<
            TransportV,
            TransportErrorV,
        >((TransportV::Http { base, token: configured(token) })),
        configured(sock) is None ==> chosen(sock, None, token) == Err::<TransportV, TransportErrorV>(
            TransportErrorV::Unconfigured,
        ),
{
    law_trailing_goes(base, '/', slashes);
}

/// A base without a port means the port of HTTP; one with another scheme or with a
/// port that is no number is refused, and quoted.
pub proof fn law_bases(host: Seq<char>, port: Seq<char>, prefix: Seq<char>, other: Seq<char>)
    requires
        !host.contains('/'),
        !port.contains('/'),
        !port.contains(':'),
        prefix.len() > 0 ==> prefix[0] == '/',
    ensures
        !host.contains(':') ==> split("http://"@ + host + prefix) == Ok::<
            (Seq<char>, u16, Seq<char>),
            TransportErrorV,
        >((host, 80, prefix)),
        split("http://"@ + host + seq![':'] + port + prefix) == match u16_of(port) {
            Some(n) => Ok::<(Seq<char>, u16, Seq<char>), TransportErrorV>((host, n, prefix)),
            None => Err::<(Seq<char>, u16, Seq<char>), TransportErrorV>(
                TransportErrorV::Protocol(
                    "bad port in "@ + ("http://"@ + host + seq![':'] + port + prefix),
                ),
            ),
        },
        !("http://"@).is_prefix_of(other) ==> split(other) == Err::<
            (Seq<char>, u16, Seq<char>),
            TransportErrorV,
        >(TransportErrorV::Protocol("NUCLEUS_PROXY_URL must be http://: "@ + other)),
{
    reveal_strlit("http://");
    let scheme = "http://"@;
    law_beginning(other, scheme, other);
    if !host.contains(':') {
        let base = scheme + host + prefix;
        let rest = host + prefix;
        assert(base.take(7) =~= scheme);
        assert(base.skip(7) =~= rest);
        let n = host.len() as int;
        assert forall|i: int| 0 <= i < n implies rest[i] != '/' by {
            assert(rest[i] == host[i]);
        }
        lemma_first_index_is(rest, '/', n);
        assert(rest.take(n) =~= host);
        assert(rest.skip(n) =~= prefix);
        lemma_tail_start_is(host, ':', 0);
    }
    let hp = host + seq![':'] + port;
    let base = scheme + host + seq![':'] + port + prefix;
    let rest = hp + prefix;
    assert(base.take(7) =~= scheme);
    assert(base.skip(7) =~= rest);
    let n = hp.len() as int;
    assert forall|i: int| 0 <= i < n implies rest[i] != '/' by {
        if i < host.len() {
            assert(rest[i] == host[i]);
        } else if i > host.len() {
            assert(rest[i] == port[i - host.len() - 1]);
        }
    }
    lemma_first_index_is(rest, '/', n);
    assert(rest.take(n) =~= hp);
    assert(rest.skip(n) =~= prefix);
    let m = host.len() as int + 1;
    assert forall|i: int| m <= i < hp.len() implies hp[i] != ':' by {
        assert(hp[i] == port[i - m]);
    }
    lemma_tail_start_is(hp, ':', m);
    assert(hp.skip(m) =~= port);
    assert(hp.take(m - 1) =~= host);
}

/// A socket is named by the last component of its path, whatever directory it is
/// in and whatever slashes follow it.
pub proof fn law_socket_name(dir: Seq<char>, name: Seq<char>, slashes: nat)
    requires
        name.len() > 0,
        !name.contains('/'),
        name != seq!['.'],
        name != seq!['.', '.'],
        dir.len() > 0 ==> dir.last() == '/',
    ensures
        name_in(dir + name + Seq::new(slashes, |i: int| '/')) == Some(name),
{
    let p = dir + name;
    assert(name.contains(name[name.len() - 1]));
    assert(p.last() == name.last());
    law_trailing_goes(p, '/', slashes);
    let n = dir.len() as int;
    assert forall|i: int| n <= i < p.len() implies p[i] != '/' by {
        assert(p[i] == name[i - n]);
    }
    lemma_tail_start_is(p, '/', n);
    assert(p.skip(n) =~= name);
    reveal_strlit(".");
    reveal_strlit("..");
    assert("."@ =~= seq!['.']);
    assert(".."@ =~= seq!['.', '.']);
}

/// A path that ends in the parent directory has no name, and neither has one of
/// slashes alone; a component that stands for the directory itself does not count.
pub proof fn law_nameless_sockets(dir: Seq<char>, slashes: nat)
    requires
        dir.len() > 0 ==> dir.last() == '/',
    ensures
        name_in(dir + seq!['.', '.'] + Seq::new(slashes, |i: int| '/')) is None,
        name_in(Seq::new(slashes, |i: int| '/')) is None,
        name_in(dir + seq!['.'] + Seq::new(slashes, |i: int| '/')) == name_in(dir),
{
    reveal_strlit(".");
    reveal_strlit("..");
    let s = Seq::new(slashes, |i: int| '/');
    let n = dir.len() as int;
    let p = dir + seq!['.', '.'];
    law_trailing_goes(p, '/', slashes);
    assert forall|i: int| n <= i < p.len() implies p[i] != '/' by {
        assert(p[i] == seq!['.', '.'][i - n]);
    }
    lemma_tail_start_is(p, '/', n);
    assert(p.skip(n) =~= ".."@);
    law_trailing_goes(seq![], '/', slashes);
    assert(Seq::<char>::empty() + s =~= s);
    let q = dir + seq!['.'];
    law_trailing_goes(q, '/', slashes);
    lemma_tail_start_is(q, '/', n);
    assert(q.skip(n) =~= "."@);
    assert("."@ != ".."@) by {
        assert("."@.len() == 1 && ".."@.len() == 2);
    }
    assert(q.drop_last() =~= dir);
}

/// A pod that is reached over HTTP is labelled by the host and the port of its base,
/// whatever the scheme and whatever path follows.
pub proof fn law_labels(host_port: Seq<char>, prefix: Seq<char>)
    requires
        !host_port.contains('/'),
        prefix.len() > 0 ==> prefix[0] == '/',
        !"http://"@.is_prefix_of(host_port + prefix),
        !"https://"@.is_prefix_of(host_port + prefix),
    ensures
        authority("http://"@ + (host_port + prefix)) == host_port,
        authority("https://"@ + (host_port + prefix)) == host_port,
        authority(host_port + prefix) == host_port,
{
    reveal_strlit("http://");
    reveal_strlit("https://");
    let rest = host_port + prefix;
    law_prefixes_go("http://"@, rest);
    law_prefixes_go("https://"@, rest);
    let s = "https://"@ + rest;
    law_prefixes_go("http://"@, s);
    assert(!"http://"@.is_prefix_of(s)) by {
        assert(s[4] == 's' && "http://"@[4] == ':');
    }
    let n = host_port.len() as int;
    assert forall|i: int| 0 <= i < n implies rest[i] != '/' by {
        assert(rest[i] == host_port[i]);
    }
    lemma_first_index_is(rest, '/', n);
    assert(rest.take(n) =~= host_port);
}

/// A transport gets the token of the moment, and nothing else about it changes.
pub proof fn law_renewal(
    path: Seq<char>,
    base: Seq<char>,
    stored: Option<Seq<char>>,
    token: Option<Seq<char>>,
)
    ensures
        renewed(TransportV::Unix(path), token) == TransportV::Unix(path),
        renewed((TransportV::Http { base, token: stored }), token) == (TransportV::Http {
            base,
            token: configured(token),
        }),
{
}

/// Where the first line has no second word, there is no status.
pub proof fn law_no_status(line: Seq<char>, more: Seq<char>)
    requires
        !line.contains('\n'),
        line.len() > 0 ==> line.last() != '\r',
        words_of(line).len() < 2,
    ensures
        status_of(line) is None,
        status_of(line + seq!['\n'] + more) is None,
        status_of(seq![]) is None,
{
    law_lines(line, more);
    if line.len() == 0 {
        assert(line =~= Seq::<char>::empty());
    }
}

/// What a reply says by its headers, its body as text and the value in it.
pub proof fn law_answers(
    headers: Seq<char>,
    shown: Seq<char>,
    value: Option<Result<JsonV, Seq<char>>>,
)
    ensures
        match status_of(headers) {
            None => answer(headers, shown, value) == Err::<JsonV, TransportErrorV>(
                TransportErrorV::Protocol("no status line in reply"@),
            ),
            Some(status) => if 200 <= status < 300 {
                match value {
                    None => answer(headers, shown, value) == Ok::<JsonV, TransportErrorV>(
                        JsonV::Null,
                    ),
                    Some(Ok(v)) => answer(headers, shown, value) == Ok::<JsonV, TransportErrorV>(v),
                    Some(Err(e)) => answer(headers, shown, value) == Err::<JsonV, TransportErrorV>(
                        TransportErrorV::Protocol(e),
                    ),
                }
            } else {
                answer(headers, shown, value) == Err::<JsonV, TransportErrorV>(
                    TransportErrorV::Status {
                        status,
                        body: if shown.len() <= 2000 {
                            shown
                        } else {
                            shown.subrange(0, 2000)
                        },
                    },
                )
            },
        },
{
    law_cutting(shown, 2000);
}

/// What is said of each error.
pub proof fn law_errors_say(why: Seq<char>, status: u16, body: Seq<char>)
    ensures
        TransportErrorV::Io(why).said() == "cannot reach the nucleus pod: "@ + why,
        (TransportErrorV::Status { status, body }).said() == "the pod refused the call: HTTP "@
            + decimal(status as nat) + ": "@ + body,
        TransportErrorV::Protocol(why).said()
            == "the pod's reply was not the shape this bridge expects: "@ + why,
        TransportErrorV::Unconfigured.said()
            == "no transport configured: set NUCLEUS_POD_SOCK or NUCLEUS_PROXY_URL"@,
        TransportErrorV::Discovery(why).said() == "could not find a nucleus pod: "@ + why,
{
}

} // verus!
