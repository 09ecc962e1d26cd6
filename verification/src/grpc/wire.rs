//! The gRPC wire handling of the server: finding the service and method a
//! request names, finding where its body starts, and framing responses.

use crate::grpc::error::GrpcError;
use crate::grpc::stats::DMSCGrpcStats;
use crate::text::{chars_of, occurs_between, occurs_in};
use vstd::prelude::*;
use vstd::utf8::{decode_utf8, encode_utf8, valid_utf8};

verus! {

broadcast use vstd::string::group_string_axioms;

// ---------------------------------------------------------------------
// Character classes and searches over the request text.
// ---------------------------------------------------------------------

/// The characters with the Unicode White_Space property.
pub open spec fn is_white_space(c: char) -> bool {
    ('\u{9}' <= c && c <= '\u{d}') || c == ' ' || c == '\u{85}' || c == '\u{a0}' || c == '\u{1680}'
        || ('\u{2000}' <= c && c <= '\u{200a}') || c == '\u{2028}' || c == '\u{2029}'
        || c == '\u{202f}' || c == '\u{205f}' || c == '\u{3000}'
}

fn white_space(c: char) -> (b: bool)
    ensures
        b == is_white_space(c),
{
    ('\u{9}' <= c && c <= '\u{d}') || c == ' ' || c == '\u{85}' || c == '\u{a0}' || c == '\u{1680}'
        || ('\u{2000}' <= c && c <= '\u{200a}') || c == '\u{2028}' || c == '\u{2029}'
        || c == '\u{202f}' || c == '\u{205f}' || c == '\u{3000}'
}

/// The first position at or after `i` holding a line feed, or the length.
pub open spec fn newline_from(s: Seq<char>, i: int) -> int
    decreases s.len() - i,
{
    if i < 0 || i >= s.len() {
        s.len() as int
    } else if s[i] == '\n' {
        i
    } else {
        newline_from(s, i + 1)
    }
}

/// The first position at or after `i` whose character is not white space
/// (when `ws`) or is white space (when not `ws`), or `end`.
pub open spec fn scan_from(s: Seq<char>, i: int, end: int, ws: bool) -> int
    decreases end - i,
{
    if i < 0 || i >= end || end > s.len() {
        end
    } else if is_white_space(s[i]) != ws {
        i
    } else {
        scan_from(s, i + 1, end, ws)
    }
}

/// The first position at or after `i`, before `end`, holding `c` (when
/// `eq`) or holding another character (when not `eq`), or `end`.
pub open spec fn find_char_from(s: Seq<char>, i: int, end: int, c: char, eq: bool) -> int
    decreases end - i,
{
    if i < 0 || i >= end || end > s.len() {
        end
    } else if (s[i] == c) == eq {
        i
    } else {
        find_char_from(s, i + 1, end, c, eq)
    }
}

// ---------------------------------------------------------------------
// The path a request names.
// ---------------------------------------------------------------------

/// Where the line starting at `start` ends: before its line feed, and
/// before a carriage return that precedes the line feed; a last line with
/// no line feed runs to the end.
pub open spec fn line_end(s: Seq<char>, start: int) -> int {
    let nl = newline_from(s, start);
    if nl < s.len() && nl > start && s[nl - 1] == '\r' {
        nl - 1
    } else {
        nl
    }
}

/// The service and method that the line between `start` and `end` names:
/// the line must contain ":path"; its second white-space separated word,
/// with its leading slashes removed, must hold a slash; the service is what
/// precedes the first such slash and the method what follows it.
pub open spec fn line_path(s: Seq<char>, start: int, end: int) -> Option<(Seq<char>, Seq<char>)> {
    if !occurs_in(s, start, end, ":path"@) {
        None
    } else {
        let a0 = scan_from(s, start, end, true);
        let e0 = scan_from(s, a0, end, false);
        let a1 = scan_from(s, e0, end, true);
        let e1 = scan_from(s, a1, end, false);
        if a0 >= end || a1 >= end {
            None
        } else {
            let t = find_char_from(s, a1, e1, '/', false);
            let k = find_char_from(s, t, e1, '/', true);
            if k >= e1 {
                None
            } else {
                Some((s.subrange(t, k), s.subrange(k + 1, e1)))
            }
        }
    }
}

/// The service and method named by the first line, at or after `start`,
/// that names one.
pub open spec fn path_from(s: Seq<char>, start: int) -> Option<(Seq<char>, Seq<char>)>
    decreases s.len() - start,
{
    if start < 0 || start >= s.len() {
        None
    } else {
        match line_path(s, start, line_end(s, start)) {
            Some(p) => Some(p),
            None => {
                let nl = newline_from(s, start);
                if start <= nl && nl < s.len() {
                    path_from(s, nl + 1)
                } else {
                    None
                }
            },
        }
    }
}

/// The service and method that a request text names, read line by line.
pub open spec fn request_path(s: Seq<char>) -> Option<(Seq<char>, Seq<char>)> {
    path_from(s, 0)
}

fn newline_at_or_after(s: &Vec<char>, i: usize) -> (r: usize)
    requires
        i <= s@.len(),
    ensures
        r == newline_from(s@, i as int),
        i <= r <= s@.len(),
{
    let mut j = i;
    while j < s.len()
        invariant
            i <= j <= s@.len(),
            newline_from(s@, i as int) == newline_from(s@, j as int),
        decreases s@.len() - j,
    {
        if s[j] == '\n' {
            return j;
        }
        j = j + 1;
    }
    j
}

fn scan(s: &Vec<char>, i: usize, end: usize, ws: bool) -> (r: usize)
    requires
        i <= end <= s@.len(),
    ensures
        r == scan_from(s@, i as int, end as int, ws),
        i <= r <= end,
{
    let mut j = i;
    while j < end
        invariant
            i <= j <= end,
            end <= s@.len(),
            scan_from(s@, i as int, end as int, ws) == scan_from(s@, j as int, end as int, ws),
        decreases end - j,
    {
        if white_space(s[j]) != ws {
            return j;
        }
        j = j + 1;
    }
    j
}

fn find_char(s: &Vec<char>, i: usize, end: usize, c: char, eq: bool) -> (r: usize)
    requires
        i <= end <= s@.len(),
    ensures
        r == find_char_from(s@, i as int, end as int, c, eq),
        i <= r <= end,
{
    let mut j = i;
    while j < end
        invariant
            i <= j <= end,
            end <= s@.len(),
            find_char_from(s@, i as int, end as int, c, eq) == find_char_from(s@, j as int, end as int, c, eq),
        decreases end - j,
    {
        if (s[j] == c) == eq {
            return j;
        }
        j = j + 1;
    }
    j
}

/// Reads the service and method that a request text names: the first line
/// that contains ":path" and whose second word, leading slashes removed,
/// holds a slash, gives the service before that slash and the method after.
pub fn parse_request_path(request_str: &str) -> (r: Result<(String, String), GrpcError>)
    ensures
        match request_path(request_str@) {
            Some((service, method)) => r matches Ok((a, b)) && a@ == service && b@ == method,
            None => r matches Err(GrpcError::Server { message }) && message@ == "Invalid request path"@,
        },
{
    let s = chars_of(request_str);
    let n = s.len();
    let mut start: usize = 0;
    while start < n
        invariant
            n == s@.len(),
            s@ == request_str@,
            start <= n,
            request_path(s@) == path_from(s@, start as int),
        decreases n - start,
    {
        let nl = newline_at_or_after(&s, start);
        let end = if nl < n && nl > start && s[nl - 1] == '\r' { nl - 1 } else { nl };
        assert(end == line_end(s@, start as int));
        if occurs_between(&s, start, end, ":path") {
            let a0 = scan(&s, start, end, true);
            let e0 = scan(&s, a0, end, false);
            let a1 = scan(&s, e0, end, true);
            let e1 = scan(&s, a1, end, false);
            if a0 < end && a1 < end {
                let t = find_char(&s, a1, e1, '/', false);
                let k = find_char(&s, t, e1, '/', true);
                if k < e1 {
                    let service = request_str.substring_char(t, k).to_owned();
                    let method = request_str.substring_char(k + 1, e1).to_owned();
                    return Ok((service, method));
                }
            }
        }
        if nl < n {
            start = nl + 1;
        } else {
            start = n;
        }
    }
    Err(GrpcError::Server { message: "Invalid request path".to_owned() })
}

// ---------------------------------------------------------------------
// The body of a request.
// ---------------------------------------------------------------------

/// Whether a blank line, "\r\n\r\n", starts at `p`.
pub open spec fn blank_line_at(b: Seq<u8>, p: int) -> bool {
    0 <= p && p + 3 < b.len() && b[p] == 13 && b[p + 1] == 10 && b[p + 2] == 13 && b[p + 3] == 10
}

/// Where the body of a request starts: just after its first blank line,
/// or at its end when it has none.
pub open spec fn body_start(b: Seq<u8>) -> int {
    if exists|p: int| blank_line_at(b, p) {
        (choose|p: int| blank_line_at(b, p) && forall|q: int| 0 <= q < p ==> !blank_line_at(b, q)) + 4
    } else {
        b.len() as int
    }
}

/// Finds where the body of a request starts: just after its first
/// "\r\n\r\n", or at its end when it has none.
pub fn find_body_start(buffer: &[u8]) -> (r: usize)
    ensures
        r == body_start(buffer@),
        r <= buffer@.len(),
{
    let mut pos: usize = 0;
    if buffer.len() < 4 {
        proof {
            assert forall|p: int| !blank_line_at(buffer@, p) by {}
        }
        return buffer.len();
    }
    while pos < buffer.len() - 3
        invariant
            buffer@.len() >= 4,
            forall|q: int| 0 <= q < pos ==> !blank_line_at(buffer@, q),
        decreases buffer@.len() - pos,
    {
        if buffer[pos] == 13 && buffer[pos + 1] == 10 && buffer[pos + 2] == 13 && buffer[pos + 3] == 10 {
            proof {
                assert(blank_line_at(buffer@, pos as int));
                let p0 = choose|p: int| blank_line_at(buffer@, p) && forall|q: int| 0 <= q < p ==> !blank_line_at(buffer@, q);
                assert(blank_line_at(buffer@, pos as int) && forall|q: int| 0 <= q < pos ==> !blank_line_at(buffer@, q));
                if p0 < pos {
                } else if p0 > pos {
                }
                assert(p0 == pos);
            }
            return pos + 4;
        }
        pos = pos + 1;
    }
    proof {
        assert forall|p: int| !blank_line_at(buffer@, p) by {
            if p >= pos {
            }
        }
    }
    buffer.len()
}

// ---------------------------------------------------------------------
// Responses.
// ---------------------------------------------------------------------

/// The header that opens every response.
pub open spec fn response_header() -> Seq<u8> {
    encode_utf8("HTTP/2.0 200 OK\r\ncontent-type: application/grpc\r\n\r\n"@)
}

/// The trailer that closes a successful response.
pub open spec fn ok_trailer() -> Seq<u8> {
    encode_utf8("\r\ngrpc-status: 0\r\n\r\n"@)
}

/// The length prefix of a message of `n` bytes: a zero flag byte and the
/// low three bytes, most significant first, of `n` taken modulo 2^32.
pub open spec fn length_prefix(n: nat) -> Seq<u8> {
    let m = n % 0x1_0000_0000;
    seq![0u8, ((m / 0x1_0000) % 0x100) as u8, ((m / 0x100) % 0x100) as u8, (m % 0x100) as u8]
}

/// The successful response carrying `data`.
pub open spec fn grpc_response(data: Seq<u8>) -> Seq<u8> {
    response_header() + length_prefix(data.len()) + data + ok_trailer()
}

/// The error response carrying `message`: status 2 and the message.
pub open spec fn grpc_error_response(message: Seq<char>) -> Seq<u8> {
    response_header() + encode_utf8(
        "\r\ngrpc-status: 2\r\ngrpc-message: "@ + message + "\r\n\r\n"@,
    )
}

fn push_bytes(v: &mut Vec<u8>, b: &[u8])
    ensures
        final(v)@ == old(v)@ + b@,
{
    let mut i: usize = 0;
    while i < b.len()
        invariant
            i <= b@.len(),
            v@ == old(v)@ + b@.take(i as int),
        decreases b@.len() - i,
    {
        v.push(b[i]);
        i = i + 1;
        assert(v@ =~= old(v)@ + b@.take(i as int));
    }
    assert(b@.take(b@.len() as int) =~= b@);
}

/// Frames `data` as a successful response.
pub fn build_grpc_response(data: &[u8]) -> (r: Vec<u8>)
    ensures
        r@ == grpc_response(data@),
{
    let mut response: Vec<u8> = Vec::new();
    let header = "HTTP/2.0 200 OK\r\ncontent-type: application/grpc\r\n\r\n";
    push_bytes(&mut response, header.as_bytes());
    let m: u64 = (data.len() as u64) % 0x1_0000_0000;
    let prefix: Vec<u8> = vec![0u8, ((m / 0x1_0000) % 0x100) as u8, ((m / 0x100) % 0x100) as u8, (m % 0x100) as u8];
    push_bytes(&mut response, prefix.as_slice());
    push_bytes(&mut response, data);
    let trailer = "\r\ngrpc-status: 0\r\n\r\n";
    push_bytes(&mut response, trailer.as_bytes());
    assert(prefix@ =~= length_prefix(data@.len()));
    response
}

/// Frames an error response with status 2 carrying `message`.
pub fn build_grpc_error_response(message: &str) -> (r: Vec<u8>)
    ensures
        r@ == grpc_error_response(message@),
{
    let mut response: Vec<u8> = Vec::new();
    let header = "HTTP/2.0 200 OK\r\ncontent-type: application/grpc\r\n\r\n";
    push_bytes(&mut response, header.as_bytes());
    let mut trailers = "\r\ngrpc-status: 2\r\ngrpc-message: ".to_owned();
    trailers.append(message);
    trailers.append("\r\n\r\n");
    push_bytes(&mut response, trailers.as_str().as_bytes());
    response
}

/// Answers a request for a service that is not registered: counts a
/// failure and gives the error response "Service not found: <service>".
pub fn answer_missing_service(stats: &mut DMSCGrpcStats, service: &str) -> (r: Vec<u8>)
    requires
        old(stats).requests_failed < u64::MAX,
    ensures
        r@ == grpc_error_response("Service not found: "@ + service@),
        final(stats).requests_failed == old(stats).requests_failed + 1,
        final(stats).active_connections == (if old(stats).active_connections > 0 {
            old(stats).active_connections - 1
        } else {
            0
        }),
        final(stats).requests_received == old(stats).requests_received,
        final(stats).requests_completed == old(stats).requests_completed,
        final(stats).bytes_received == old(stats).bytes_received,
        final(stats).bytes_sent == old(stats).bytes_sent,
{
    stats.record_error();
    let mut message = "Service not found: ".to_owned();
    message.append(service);
    build_grpc_error_response(message.as_str())
}

/// Answers a request that a service handled: a response is counted and
/// framed as a successful response; an error, given by its text, is
/// counted as a failure and framed as an error response.
pub fn answer_handled(stats: &mut DMSCGrpcStats, result: &Result<Vec<u8>, String>) -> (r: Vec<u8>)
    requires
        old(stats).requests_completed < u64::MAX,
        old(stats).requests_failed < u64::MAX,
        result matches Ok(data) ==> old(stats).bytes_sent + data@.len() <= u64::MAX,
    ensures
        result matches Ok(data) ==> r@ == grpc_response(data@)
            && final(stats).requests_completed == old(stats).requests_completed + 1
            && final(stats).bytes_sent == old(stats).bytes_sent + data@.len()
            && final(stats).requests_failed == old(stats).requests_failed,
        result matches Err(text) ==> r@ == grpc_error_response(text@)
            && final(stats).requests_failed == old(stats).requests_failed + 1
            && final(stats).requests_completed == old(stats).requests_completed
            && final(stats).bytes_sent == old(stats).bytes_sent,
        final(stats).active_connections == (if old(stats).active_connections > 0 {
            old(stats).active_connections - 1
        } else {
            0
        }),
        final(stats).requests_received == old(stats).requests_received,
        final(stats).bytes_received == old(stats).bytes_received,
{
    match result {
        Ok(data) => {
            stats.record_response(data.len());
            build_grpc_response(data.as_slice())
        },
        Err(text) => {
            stats.record_error();
            build_grpc_error_response(text.as_str())
        },
    }
}

// ---------------------------------------------------------------------
// Routing a request.
// ---------------------------------------------------------------------

/// What `String::from_utf8_lossy` makes of some bytes.
pub uninterp spec fn utf8_lossy(bytes: Seq<u8>) -> Seq<char>;

/// Calls `String::from_utf8_lossy` and takes the text it gives. Trusted:
/// the text is named `utf8_lossy` of the bytes; as its documentation says,
/// bytes that are valid UTF-8 decode unchanged.
#[verifier::external_body]
fn utf8_lossy_text(bytes: &[u8]) -> (s: String)
    ensures
        s@ == utf8_lossy(bytes@),
        valid_utf8(bytes@) ==> s@ == decode_utf8(bytes@),
{
    String::from_utf8_lossy(bytes).into_owned()
}

/// Where a request goes: the service and method its text names, and where
/// its body starts.
pub struct RiGrpcRoute {
    pub service: String,
    pub method: String,
    pub body_start: usize,
}

/// Reads a raw request: its bytes are decoded as UTF-8, replacing invalid
/// sequences, the service and method are read from the text, and the body
/// starts after the first blank line of the bytes.
pub fn route_request(request_data: &[u8]) -> (r: Result<RiGrpcRoute, GrpcError>)
    ensures
        match request_path(utf8_lossy(request_data@)) {
            Some((service, method)) => r matches Ok(route) && route.service@ == service && route.method@ == method
                && route.body_start == body_start(request_data@),
            None => r matches Err(GrpcError::Server { message }) && message@ == "Invalid request path"@,
        },
{
    let text = utf8_lossy_text(request_data);
    match parse_request_path(text.as_str()) {
        Ok((service, method)) => {
            let body_start = find_body_start(request_data);
            Ok(RiGrpcRoute { service, method, body_start })
        },
        Err(e) => Err(e),
    }
}

// ---------------------------------------------------------------------
// Laws.
// ---------------------------------------------------------------------

proof fn lemma_find_char(s: Seq<char>, i: int, end: int, c: char, eq: bool)
    requires
        0 <= i <= end <= s.len(),
    ensures
        i <= find_char_from(s, i, end, c, eq) <= end,
        forall|x: int| i <= x < find_char_from(s, i, end, c, eq) ==> (s[x] == c) != eq,
        find_char_from(s, i, end, c, eq) < end ==> (s[find_char_from(s, i, end, c, eq)] == c) == eq,
    decreases end - i,
{
    if i < end && (s[i] == c) != eq {
        lemma_find_char(s, i + 1, end, c, eq);
    }
}

proof fn lemma_scan(s: Seq<char>, i: int, end: int, ws: bool)
    requires
        0 <= i <= end <= s.len(),
    ensures
        i <= scan_from(s, i, end, ws) <= end,
        forall|x: int| i <= x < scan_from(s, i, end, ws) ==> is_white_space(s[x]) == ws,
        scan_from(s, i, end, ws) < end ==> is_white_space(s[scan_from(s, i, end, ws)]) != ws,
    decreases end - i,
{
    if i < end && is_white_space(s[i]) == ws {
        lemma_scan(s, i + 1, end, ws);
    }
}

proof fn lemma_newline(s: Seq<char>, i: int)
    requires
        0 <= i <= s.len(),
    ensures
        i <= newline_from(s, i) <= s.len(),
        newline_from(s, i) < s.len() ==> s[newline_from(s, i)] == '\n',
    decreases s.len() - i,
{
    if i < s.len() && s[i] != '\n' {
        lemma_newline(s, i + 1);
    }
}

/// What a line's path names is a word of the line: see
/// `law_request_path_names_a_word`.
proof fn lemma_line_path(s: Seq<char>, start: int, end: int, service: Seq<char>, method: Seq<char>)
    requires
        0 <= start <= end <= s.len(),
        end == s.len() || is_white_space(s[end]),
        line_path(s, start, end) == Some((service, method)),
    ensures
        exists|i: int, j: int|
            0 < i <= j <= s.len() && #[trigger] s.subrange(i, j) == service + "/"@ + method && (s[i - 1] == '/'
                || is_white_space(s[i - 1])) && (j == s.len() || is_white_space(s[j])) && (forall|x: int|
                i <= x < j ==> !is_white_space(#[trigger] s[x])),
        forall|x: int| 0 <= x < service.len() ==> #[trigger] service[x] != '/',
{
    let a0 = scan_from(s, start, end, true);
    lemma_scan(s, start, end, true);
    let e0 = scan_from(s, a0, end, false);
    lemma_scan(s, a0, end, false);
    let a1 = scan_from(s, e0, end, true);
    lemma_scan(s, e0, end, true);
    let e1 = scan_from(s, a1, end, false);
    lemma_scan(s, a1, end, false);
    let t = find_char_from(s, a1, e1, '/', false);
    lemma_find_char(s, a1, e1, '/', false);
    let k = find_char_from(s, t, e1, '/', true);
    lemma_find_char(s, t, e1, '/', true);
    assert(a0 < end && a1 < end && k < e1);
    assert(service == s.subrange(t, k) && method == s.subrange(k + 1, e1));
    if t == a1 {
        if e0 == a1 {
            assert(is_white_space(s[e0]));
            assert(!is_white_space(s[a1]));
        }
        assert(e0 < a1);
        assert(is_white_space(s[a1 - 1]));
    } else {
        assert(s[t - 1] == '/');
    }
    assert(s[k] == '/');
    assert(s.subrange(t, e1) =~= service + "/"@ + method) by {
        reveal_strlit("/");
    }
    assert(forall|x: int| t <= x < e1 ==> !is_white_space(#[trigger] s[x]));
    assert(e1 == s.len() || is_white_space(s[e1]));
    assert forall|x: int| 0 <= x < service.len() implies #[trigger] service[x] != '/' by {
        assert(service[x] == s[t + x]);
    }
}

proof fn lemma_path_from(s: Seq<char>, start: int, service: Seq<char>, method: Seq<char>)
    requires
        path_from(s, start) == Some((service, method)),
    ensures
        exists|i: int, j: int|
            0 < i <= j <= s.len() && #[trigger] s.subrange(i, j) == service + "/"@ + method && (s[i - 1] == '/'
                || is_white_space(s[i - 1])) && (j == s.len() || is_white_space(s[j])) && (forall|x: int|
                i <= x < j ==> !is_white_space(#[trigger] s[x])),
        forall|x: int| 0 <= x < service.len() ==> #[trigger] service[x] != '/',
    decreases s.len() - start,
{
    lemma_newline(s, start);
    let nl = newline_from(s, start);
    let end = line_end(s, start);
    assert(end == s.len() || is_white_space(s[end]));
    match line_path(s, start, end) {
        Some(p) => {
            lemma_line_path(s, start, end, service, method);
        },
        None => {
            lemma_path_from(s, nl + 1, service, method);
        },
    }
}

/// What a request names is a word of one of its lines: the service, a
/// slash and the method, preceded by a slash or white space (the word's
/// leading slashes are dropped), followed by white space or the end of the
/// text, with no white space inside; and the service holds no slash, so the
/// method is what follows the word's first slash.
pub proof fn law_request_path_names_a_word(s: Seq<char>, service: Seq<char>, method: Seq<char>)
    requires
        request_path(s) == Some((service, method)),
    ensures
        exists|i: int, j: int|
            0 < i <= j <= s.len() && #[trigger] s.subrange(i, j) == service + "/"@ + method && (s[i - 1] == '/'
                || is_white_space(s[i - 1])) && (j == s.len() || is_white_space(s[j])) && (forall|x: int|
                i <= x < j ==> !is_white_space(#[trigger] s[x])),
        forall|x: int| 0 <= x < service.len() ==> #[trigger] service[x] != '/',
{
    lemma_path_from(s, 0, service, method);
}

/// A successful response is the header, a zero flag byte, three bytes that
/// read, most significant first, as the data's length (modulo 2^24, the
/// most that three bytes hold), the data, and the status-0 trailer.
pub proof fn law_response_frames_data(data: Seq<u8>)
    ensures
        ({
            let r = grpc_response(data);
            let h = response_header().len() as int;
            let n = data.len() as int;
            &&& r.len() == h + 4 + n + ok_trailer().len()
            &&& r.subrange(0, h) == response_header()
            &&& r[h] == 0
            &&& r[h + 1] * 0x1_0000 + r[h + 2] * 0x100 + r[h + 3] == n % 0x100_0000
            &&& r.subrange(h + 4, h + 4 + n) == data
            &&& r.subrange(h + 4 + n, r.len() as int) == ok_trailer()
        }),
{
    let r = grpc_response(data);
    let h = response_header().len() as int;
    let n = data.len() as int;
    let p = length_prefix(data.len());
    assert(r =~= response_header() + p + data + ok_trailer());
    assert(r.subrange(0, h) =~= response_header());
    assert(r.subrange(h + 4, h + 4 + n) =~= data);
    assert(r.subrange(h + 4 + n, r.len() as int) =~= ok_trailer());
    assert(r[h] == p[0] && r[h + 1] == p[1] && r[h + 2] == p[2] && r[h + 3] == p[3]);
    lemma_prefix_reads_length(data.len());
}

proof fn lemma_prefix_reads_length(n: nat)
    ensures
        length_prefix(n)[0] == 0,
        length_prefix(n)[1] * 0x1_0000 + length_prefix(n)[2] * 0x100 + length_prefix(n)[3] == n % 0x100_0000,
{
    let m = n % 0x1_0000_0000;
    let b1 = (m / 0x1_0000) % 0x100;
    let b2 = (m / 0x100) % 0x100;
    let b3 = m % 0x100;
    assert(b1 * 0x1_0000 + b2 * 0x100 + b3 == m % 0x100_0000) by (nonlinear_arith)
        requires
            m >= 0,
            b1 == (m / 0x1_0000) % 0x100,
            b2 == (m / 0x100) % 0x100,
            b3 == m % 0x100,
    {
    }
    assert(m % 0x100_0000 == n % 0x100_0000) by (nonlinear_arith)
        requires
            m == n % 0x1_0000_0000,
    {
    }
    assert((b1 as u8) as int == b1 && (b2 as u8) as int == b2 && (b3 as u8) as int == b3);
}

} // verus!
