//! The exchange with a client's remote-debugging endpoint: the request the
//! launcher sends, how much of the reply it reads, and when it accepts the
//! reply as coming from the client it started.

use vstd::prelude::*;
use vstd::utf8::*;
use crate::json::{json_string_member, lookup_json_string};
use crate::text::{
    chars_eq_ignore_ascii_case, chars_start_with, decimal, ends_with, eq_ignore_ascii_case,
    find_char, first_index, lemma_first_index, lemma_lines_step, lines, parse_usize,
    parse_usize_range, push_decimal, starts_with, str_chars, strip_cr, trim, trim_bounds,
    utf8_chars,
};

verus! {

/// The state of the header scan: `None` once the reply is refused, else the
/// `Content-Length` seen so far.
pub open spec fn header_line_step(state: Option<Option<usize>>, line: Seq<char>) -> Option<Option<usize>> {
    match state {
        None => None,
        Some(length) => {
            let k = first_index(line, ':');
            if k >= line.len() {
                Some(length)
            } else {
                let name = line.take(k);
                let value = line.skip(k + 1);
                if eq_ignore_ascii_case(name, "transfer-encoding"@) {
                    None
                } else if eq_ignore_ascii_case(name, "content-length"@) {
                    if length is Some {
                        None
                    } else {
                        match parse_usize(trim(value)) {
                            Some(n) => Some(Some(n)),
                            None => None,
                        }
                    }
                } else {
                    Some(length)
                }
            }
        }
    }
}

/// The header scan over `lines`, one line after the other.
pub open spec fn scan_header_lines(state: Option<Option<usize>>, lines: Seq<Seq<char>>) -> Option<Option<usize>>
    decreases lines.len(),
{
    if lines.len() == 0 {
        state
    } else {
        scan_header_lines(header_line_step(state, lines[0]), lines.drop_first())
    }
}

proof fn lemma_scan_refused(lines: Seq<Seq<char>>)
    ensures
        scan_header_lines(None, lines) == None::<Option<usize>>,
    decreases lines.len(),
{
    if lines.len() > 0 {
        lemma_scan_refused(lines.drop_first());
    }
}

/// The largest body the launcher reads from the endpoint.
pub open spec fn max_body_len() -> nat {
    65536
}

/// The body length that a reply header announces, when the launcher accepts
/// the header: the status line is `HTTP/1.1 200 ` or `HTTP/1.0 200 `, no
/// field is `Transfer-Encoding`, exactly one field is `Content-Length` (names
/// compared without ASCII case), its trimmed value is an unsigned integer,
/// and that integer is between 1 and 65536.
pub open spec fn content_length(header: Seq<char>) -> Option<usize> {
    if starts_with(header, "HTTP/1.1 200 "@) || starts_with(header, "HTTP/1.0 200 "@) {
        match scan_header_lines(Some(None), lines(header).drop_first()) {
            Some(Some(n)) => if 0 < n <= max_body_len() {
                Some(n)
            } else {
                None
            },
            _ => None,
        }
    } else {
        None
    }
}

/// `content_length` of the header bytes, which must be UTF-8.
pub open spec fn response_content_length(header: Seq<u8>) -> Option<usize> {
    if valid_utf8(header) {
        content_length(decode_utf8(header))
    } else {
        None
    }
}

fn header_line(h: &Vec<char>, from: usize, to: usize, length: Option<usize>) -> (res: Option<Option<usize>>)
    requires
        from <= to <= h.len(),
    ensures
        res == header_line_step(Some(length), h@.subrange(from as int, to as int)),
{
    let ghost line = h@.subrange(from as int, to as int);
    let colon = find_char(h, from, to, ':');
    proof {
        lemma_first_index(line, ':', colon - from);
    }
    if colon == to {
        return Some(length);
    }
    assert(line.take(colon - from) =~= h@.subrange(from as int, colon as int));
    assert(line.skip(colon - from + 1) =~= h@.subrange(colon + 1, to as int));
    if chars_eq_ignore_ascii_case(h, from, colon, "transfer-encoding") {
        return None;
    }
    if chars_eq_ignore_ascii_case(h, from, colon, "content-length") {
        if length.is_some() {
            return None;
        }
        let (a, b) = trim_bounds(h, colon + 1, to);
        match parse_usize_range(h, a, b) {
            None => None,
            Some(n) => Some(Some(n)),
        }
    } else {
        Some(length)
    }
}

/// The body length announced by a reply header that the launcher accepts
/// (see `content_length`), or `None` when it refuses the reply.
pub fn response_body_length(header: &[u8]) -> (res: Option<usize>)
    ensures
        res == response_content_length(header@),
{
    let h = match utf8_chars(header) {
        None => return None,
        Some(h) => h,
    };
    if !(chars_start_with(&h, 0, "HTTP/1.1 200 ") || chars_start_with(&h, 0, "HTTP/1.0 200 ")) {
        assert(h@.skip(0) =~= h@);
        return None;
    }
    assert(h@.skip(0) =~= h@);
    proof {
        reveal_strlit("HTTP/1.1 200 ");
        reveal_strlit("HTTP/1.0 200 ");
    }
    assert(h.len() > 0);
    let first_end = find_char(&h, 0, h.len(), '\n');
    let mut pos: usize = if first_end < h.len() { first_end + 1 } else { h.len() };
    proof {
        lemma_lines_step(h@, 0, first_end as int);
        assert(h@.skip(h@.len() as int) =~= Seq::<char>::empty());
    }
    let ghost all = lines(h@).drop_first();
    assert(all == lines(h@.skip(pos as int)));
    let mut length: Option<usize> = None;
    while pos < h.len()
        invariant
            pos <= h.len(),
            valid_utf8(header@),
            h@ == decode_utf8(header@),
            starts_with(h@, "HTTP/1.1 200 "@) || starts_with(h@, "HTTP/1.0 200 "@),
            all == lines(h@).drop_first(),
            scan_header_lines(Some(None), all) == scan_header_lines(Some(length), lines(h@.skip(pos as int))),
        decreases h.len() - pos,
    {
        let end = find_char(&h, pos, h.len(), '\n');
        proof {
            lemma_lines_step(h@, pos as int, end as int);
        }
        let line_end: usize = if end < h.len() && end > pos && h[end - 1] == '\r' { end - 1 } else { end };
        assert(end < h.len() ==> h@.subrange(pos as int, line_end as int) == strip_cr(h@.subrange(pos as int, end as int))) by {
            if end < h.len() {
                if end > pos && h@[end - 1] == '\r' {
                    assert(h@.subrange(pos as int, end as int).drop_last() =~= h@.subrange(pos as int, line_end as int));
                }
            }
        }
        assert(end == h.len() ==> h@.subrange(pos as int, line_end as int) == h@.skip(pos as int));
        let next = header_line(&h, pos, line_end, length);
        let ghost rest = if end < h.len() { lines(h@.skip(end + 1)) } else { Seq::<Seq<char>>::empty() };
        assert(lines(h@.skip(pos as int)).drop_first() =~= rest);
        assert(lines(h@.skip(pos as int)).len() > 0);
        assert(lines(h@.skip(pos as int))[0] == h@.subrange(pos as int, line_end as int));
        assert(scan_header_lines(Some(length), lines(h@.skip(pos as int))) == scan_header_lines(next, rest));
        match next {
            None => {
                proof {
                    lemma_scan_refused(rest);
                }
                return None;
            }
            Some(l) => {
                length = l;
            }
        }
        if end < h.len() {
            pos = end + 1;
        } else {
            pos = h.len();
            assert(h@.skip(pos as int) =~= Seq::<char>::empty());
        }
    }
    assert(h@.skip(pos as int) =~= Seq::<char>::empty());
    match length {
        Some(n) => if n > 0 && n <= 65536 {
            Some(n)
        } else {
            None
        },
        None => None,
    }
}

/// Whether `line` is a header field whose name is `name`, compared without
/// ASCII case.
pub open spec fn is_field_named(line: Seq<char>, name: Seq<char>) -> bool {
    first_index(line, ':') < line.len() && eq_ignore_ascii_case(line.take(first_index(line, ':')), name)
}

proof fn lemma_scan_meets_refusal(state: Option<Option<usize>>, ls: Seq<Seq<char>>, i: int)
    requires
        0 <= i < ls.len(),
        forall|st: Option<Option<usize>>| header_line_step(st, ls[i]) == None::<Option<usize>>,
    ensures
        scan_header_lines(state, ls) == None::<Option<usize>>,
    decreases ls.len(),
{
    if i == 0 {
        lemma_scan_refused(ls.drop_first());
    } else {
        lemma_scan_meets_refusal(header_line_step(state, ls[0]), ls.drop_first(), i - 1);
    }
}

/// The header states in which a `Content-Length` has been seen or the reply refused.
pub open spec fn length_seen(state: Option<Option<usize>>) -> bool {
    state is None || state matches Some(Some(_))
}

proof fn lemma_scan_second_length(state: Option<Option<usize>>, ls: Seq<Seq<char>>, j: int)
    requires
        0 <= j < ls.len(),
        length_seen(state),
        is_field_named(ls[j], "content-length"@),
    ensures
        scan_header_lines(state, ls) == None::<Option<usize>>,
    decreases ls.len(),
{
    if j == 0 {
        lemma_scan_refused(ls.drop_first());
    } else {
        lemma_scan_second_length(header_line_step(state, ls[0]), ls.drop_first(), j - 1);
    }
}

proof fn lemma_scan_two_lengths(state: Option<Option<usize>>, ls: Seq<Seq<char>>, i: int, j: int)
    requires
        0 <= i < j < ls.len(),
        is_field_named(ls[i], "content-length"@),
        is_field_named(ls[j], "content-length"@),
    ensures
        scan_header_lines(state, ls) == None::<Option<usize>>,
    decreases ls.len(),
{
    if i == 0 {
        lemma_scan_second_length(header_line_step(state, ls[0]), ls.drop_first(), j - 1);
    } else {
        lemma_scan_two_lengths(header_line_step(state, ls[0]), ls.drop_first(), i - 1, j - 1);
    }
}

/// A reply whose header has a `Transfer-Encoding` field is refused, whatever
/// else it holds: the launcher reads only bodies of a declared length.
pub proof fn law_transfer_encoding_refused(header: Seq<char>, i: int)
    requires
        1 <= i < lines(header).len(),
        is_field_named(lines(header)[i], "transfer-encoding"@),
    ensures
        content_length(header) == None::<usize>,
{
    let ls = lines(header).drop_first();
    assert(ls[i - 1] == lines(header)[i]);
    lemma_scan_meets_refusal(Some(None), ls, i - 1);
}

/// A reply whose header has two `Content-Length` fields is refused.
pub proof fn law_repeated_length_refused(header: Seq<char>, i: int, j: int)
    requires
        1 <= i < j < lines(header).len(),
        is_field_named(lines(header)[i], "content-length"@),
        is_field_named(lines(header)[j], "content-length"@),
    ensures
        content_length(header) == None::<usize>,
{
    let ls = lines(header).drop_first();
    assert(ls[i - 1] == lines(header)[i]);
    assert(ls[j - 1] == lines(header)[j]);
    lemma_scan_two_lengths(Some(None), ls, i - 1, j - 1);
}

/// An accepted reply announces a body of at least one and at most 65536 bytes,
/// and only a reply with status 200 is accepted.
pub proof fn law_accepted_reply_bounds(header: Seq<char>)
    requires
        content_length(header) is Some,
    ensures
        0 < content_length(header)->0 <= max_body_len(),
        starts_with(header, "HTTP/1.1 200 "@) || starts_with(header, "HTTP/1.0 200 "@),
{
}

/// Whether `line` is a `Content-Length` field whose trimmed value is the
/// unsigned integer `n`.
pub open spec fn is_length_field(line: Seq<char>, n: usize) -> bool {
    is_field_named(line, "content-length"@) && parse_usize(trim(line.skip(first_index(line, ':') + 1))) == Some(n)
}

/// Whether `line` is neither a `Content-Length` nor a `Transfer-Encoding`
/// field: another field, or a line without a `:`.
pub open spec fn is_other_line(line: Seq<char>) -> bool {
    !is_field_named(line, "content-length"@) && !is_field_named(line, "transfer-encoding"@)
}

proof fn lemma_step_other(state: Option<Option<usize>>, line: Seq<char>)
    requires
        is_other_line(line),
    ensures
        header_line_step(state, line) == state,
{
}

proof fn lemma_step_length(line: Seq<char>, n: usize)
    requires
        is_length_field(line, n),
    ensures
        header_line_step(Some(None), line) == Some(Some(n)),
{
    reveal_strlit("content-length");
    reveal_strlit("transfer-encoding");
    let name = line.take(first_index(line, ':'));
    assert(name.len() == "content-length"@.len());
    assert(!eq_ignore_ascii_case(name, "transfer-encoding"@));
}

proof fn lemma_scan_others(state: Option<Option<usize>>, ls: Seq<Seq<char>>)
    requires
        forall|j: int| 0 <= j < ls.len() ==> is_other_line(#[trigger] ls[j]),
    ensures
        scan_header_lines(state, ls) == state,
    decreases ls.len(),
{
    if ls.len() > 0 {
        lemma_step_other(state, ls[0]);
        assert forall|j: int| 0 <= j < ls.drop_first().len() implies is_other_line(#[trigger] ls.drop_first()[j]) by {
            assert(ls.drop_first()[j] == ls[j + 1]);
        }
        lemma_scan_others(state, ls.drop_first());
    }
}

proof fn lemma_scan_single_length(ls: Seq<Seq<char>>, i: int, n: usize)
    requires
        0 <= i < ls.len(),
        is_length_field(ls[i], n),
        forall|j: int| 0 <= j < ls.len() && j != i ==> is_other_line(#[trigger] ls[j]),
    ensures
        scan_header_lines(Some(None), ls) == Some(Some(n)),
    decreases ls.len(),
{
    let rest = ls.drop_first();
    if i == 0 {
        lemma_step_length(ls[0], n);
        assert forall|j: int| 0 <= j < rest.len() implies is_other_line(#[trigger] rest[j]) by {
            assert(rest[j] == ls[j + 1]);
        }
        lemma_scan_others(Some(Some(n)), rest);
    } else {
        lemma_step_other(Some(None), ls[0]);
        assert(rest[i - 1] == ls[i]);
        assert forall|j: int| 0 <= j < rest.len() && j != i - 1 implies is_other_line(#[trigger] rest[j]) by {
            assert(rest[j] == ls[j + 1]);
        }
        lemma_scan_single_length(rest, i - 1, n);
    }
}

/// A header line that is neither a `Content-Length` nor a
/// `Transfer-Encoding` field changes nothing, wherever it stands among the
/// header lines: the scan gives the same with and without it.
pub proof fn law_other_fields_ignored(state: Option<Option<usize>>, ls: Seq<Seq<char>>, i: int, line: Seq<char>)
    requires
        0 <= i <= ls.len(),
        is_other_line(line),
    ensures
        scan_header_lines(state, ls.insert(i, line)) == scan_header_lines(state, ls),
    decreases ls.len(),
{
    let with = ls.insert(i, line);
    if i == 0 {
        assert(with.drop_first() =~= ls);
        assert(with[0] == line);
        lemma_step_other(state, line);
    } else {
        assert(with[0] == ls[0]);
        assert(with.drop_first() =~= ls.drop_first().insert(i - 1, line));
        law_other_fields_ignored(header_line_step(state, ls[0]), ls.drop_first(), i - 1, line);
    }
}

/// Two replies with the same kind of status line whose header lines differ
/// by one line that is neither a `Content-Length` nor a `Transfer-Encoding`
/// field announce the same body length.
pub proof fn law_other_header_line_ignored(h1: Seq<char>, h2: Seq<char>, i: int, line: Seq<char>)
    requires
        (starts_with(h1, "HTTP/1.1 200 "@) || starts_with(h1, "HTTP/1.0 200 "@))
            == (starts_with(h2, "HTTP/1.1 200 "@) || starts_with(h2, "HTTP/1.0 200 "@)),
        0 <= i <= lines(h1).drop_first().len(),
        lines(h2).drop_first() == lines(h1).drop_first().insert(i, line),
        is_other_line(line),
    ensures
        content_length(h2) == content_length(h1),
{
    law_other_fields_ignored(Some(None), lines(h1).drop_first(), i, line);
}

/// A reply with status 200 whose header has exactly one `Content-Length`
/// field, with value `n` between 1 and 65536, and no `Transfer-Encoding`
/// field is accepted with a body of `n` bytes, whatever other fields it has
/// and in whatever order.
pub proof fn law_single_length_accepted(header: Seq<char>, i: int, n: usize)
    requires
        starts_with(header, "HTTP/1.1 200 "@) || starts_with(header, "HTTP/1.0 200 "@),
        1 <= i < lines(header).len(),
        is_length_field(lines(header)[i], n),
        1 <= n <= 65536,
        forall|j: int| 1 <= j < lines(header).len() && j != i ==> is_other_line(#[trigger] lines(header)[j]),
    ensures
        content_length(header) == Some(n),
{
    let ls = lines(header).drop_first();
    assert(ls[i - 1] == lines(header)[i]);
    assert forall|j: int| 0 <= j < ls.len() && j != i - 1 implies is_other_line(#[trigger] ls[j]) by {
        assert(ls[j] == lines(header)[j + 1]);
    }
    lemma_scan_single_length(ls, i - 1, n);
}

/// How far reading a reply header has got.
#[derive(PartialEq, Eq, Structural, Clone, Copy, Debug)]
pub enum HeaderRead {
    /// The bytes end with the blank line that closes the header.
    Complete,
    /// The header is not closed yet and another byte may be read.
    NeedMore,
    /// The header is not closed and already as long as the launcher allows.
    TooLong,
}

/// The blank line that ends an HTTP header.
pub open spec fn header_terminator() -> Seq<u8> {
    seq![13u8, 10u8, 13u8, 10u8]
}

/// The most header bytes the launcher reads.
pub open spec fn max_header_len() -> nat {
    8192
}

/// What a reader that has `bytes` of a header should do next.
pub open spec fn spec_header_read(bytes: Seq<u8>) -> HeaderRead {
    if ends_with(bytes, header_terminator()) {
        HeaderRead::Complete
    } else if bytes.len() >= max_header_len() {
        HeaderRead::TooLong
    } else {
        HeaderRead::NeedMore
    }
}

/// Whether the header in `bytes` is complete, still open, or too long to go on.
pub fn header_read_state(bytes: &[u8]) -> (res: HeaderRead)
    ensures
        res == spec_header_read(bytes@),
{
    let n = bytes.len();
    if n >= 4 && bytes[n - 4] == 13 && bytes[n - 3] == 10 && bytes[n - 2] == 13 && bytes[n - 1] == 10 {
        assert(bytes@.skip(n - 4) =~= header_terminator());
        return HeaderRead::Complete;
    }
    assert(!ends_with(bytes@, header_terminator())) by {
        if ends_with(bytes@, header_terminator()) {
            assert(bytes@.skip(n - 4)[0] == bytes@[n - 4]);
            assert(bytes@.skip(n - 4)[1] == bytes@[n - 3]);
            assert(bytes@.skip(n - 4)[2] == bytes@[n - 2]);
            assert(bytes@.skip(n - 4)[3] == bytes@[n - 1]);
        }
    }
    if n >= 8192 {
        HeaderRead::TooLong
    } else {
        HeaderRead::NeedMore
    }
}

/// The request for the endpoint's version document, sent to port `port` of
/// the loopback address.
pub open spec fn debugger_request_text(port: u16) -> Seq<char> {
    "GET /json/version HTTP/1.1\r\nHost: 127.0.0.1:"@ + decimal(port as nat) + "\r\nConnection: close\r\n\r\n"@
}

/// The request that asks the endpoint on `port` for its version document.
pub fn debugger_request(port: u16) -> (res: String)
    ensures
        res@ == debugger_request_text(port),
{
    let mut req = "GET /json/version HTTP/1.1\r\nHost: 127.0.0.1:".to_owned();
    push_decimal(&mut req, port as u64);
    req.append("\r\nConnection: close\r\n\r\n");
    req
}

/// The beginning of a WebSocket URL on `host` at `port`.
pub open spec fn websocket_prefix(host: Seq<char>, port: u16) -> Seq<char> {
    "ws://"@ + host + ":"@ + decimal(port as nat) + "/"@
}

/// Whether `url` is a WebSocket URL on the loopback interface at `port`,
/// written with `127.0.0.1`, `localhost` or `[::1]`.
pub open spec fn is_loopback_debugger_url(url: Seq<char>, port: u16) -> bool {
    ||| starts_with(url, websocket_prefix("127.0.0.1"@, port))
    ||| starts_with(url, websocket_prefix("localhost"@, port))
    ||| starts_with(url, websocket_prefix("[::1]"@, port))
}

fn websocket_prefix_string(host: &str, port: u16) -> (res: String)
    ensures
        res@ == websocket_prefix(host@, port),
{
    let mut p = "ws://".to_owned();
    p.append(host);
    p.append(":");
    push_decimal(&mut p, port as u64);
    p.append("/");
    p
}

/// Whether `url` points at the debugging endpoint on this machine at `port`.
pub fn debugger_url_accepted(url: &str, port: u16) -> (res: bool)
    ensures
        res == is_loopback_debugger_url(url@, port),
{
    let cs = str_chars(url);
    assert(cs@.skip(0) =~= cs@);
    let p1 = websocket_prefix_string("127.0.0.1", port);
    if chars_start_with(&cs, 0, p1.as_str()) {
        return true;
    }
    let p2 = websocket_prefix_string("localhost", port);
    if chars_start_with(&cs, 0, p2.as_str()) {
        return true;
    }
    let p3 = websocket_prefix_string("[::1]", port);
    chars_start_with(&cs, 0, p3.as_str())
}

/// Whether a version document names a debugger URL on this machine at `port`.
pub open spec fn version_body_accepted(body: Seq<u8>, port: u16) -> bool {
    match json_string_member(body, "webSocketDebuggerUrl"@) {
        Some(url) => is_loopback_debugger_url(url, port),
        None => false,
    }
}

/// Whether the body of the endpoint's reply shows the client's own debugger:
/// a JSON object whose `webSocketDebuggerUrl` is a loopback WebSocket URL at
/// `port`.
pub fn version_body_ok(body: &[u8], port: u16) -> (res: bool)
    ensures
        res == version_body_accepted(body@, port),
{
    match lookup_json_string(body, "webSocketDebuggerUrl") {
        Some(url) => debugger_url_accepted(url.as_str(), port),
        None => false,
    }
}

} // verus!
