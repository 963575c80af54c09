//! Parsing of the HTTP requests the relay accepts inside the sandbox.
//!
//! Two shapes arrive on the relay's listener: `CONNECT host:port
//! HTTP/1.x` for tunnels, and ordinary requests (`GET`, `POST`, …)
//! whose target is an absolute-form URL or, failing that, whose
//! `Host:` header names the destination (default port 80).

use vstd::prelude::*;

use crate::strutil::{chars_to_string, copy_chars, str_chars};

verus! {

/// ASCII whitespace characters.
pub open spec fn is_ws_char(c: char) -> bool {
    c == ' ' || c == '\t' || c == '\n' || c == '\r' || c == '\u{b}' || c == '\u{c}'
}

/// ASCII decimal digit.
pub open spec fn is_digit_char(c: char) -> bool {
    '0' <= c <= '9'
}

/// Every character is a decimal digit.
pub open spec fn all_digit_chars(s: Seq<char>) -> bool {
    forall|k: int| 0 <= k < s.len() ==> is_digit_char(#[trigger] s[k])
}

/// Value of a decimal digit string.
pub open spec fn dec_chars_value(s: Seq<char>) -> nat
    decreases s.len(),
{
    if s.len() == 0 {
        0
    } else {
        dec_chars_value(s.drop_last()) * 10 + ((s.last() as int - 48) as nat)
    }
}

/// Index of the first occurrence of `c` from `i` on, or the length.
pub open spec fn find_char_from(s: Seq<char>, c: char, i: int) -> int
    decreases s.len() - i,
{
    if i < 0 || i >= s.len() {
        s.len() as int
    } else if s[i] == c {
        i
    } else {
        find_char_from(s, c, i + 1)
    }
}

/// Index of the last occurrence of `c`, or `-1`.
pub open spec fn rfind_char(s: Seq<char>, c: char) -> int
    decreases s.len(),
{
    if s.len() == 0 {
        -1
    } else if s.last() == c {
        s.len() - 1
    } else {
        rfind_char(s.drop_last(), c)
    }
}

/// End of the token that starts at `i`: the next whitespace position.
pub open spec fn token_end(s: Seq<char>, i: int) -> int
    decreases s.len() - i,
{
    if i < 0 || i >= s.len() {
        s.len() as int
    } else if is_ws_char(s[i]) {
        i
    } else {
        token_end(s, i + 1)
    }
}

/// The whitespace-separated tokens of `s`, from position `i` on.
pub open spec fn tokens_from(s: Seq<char>, i: int) -> Seq<Seq<char>>
    decreases s.len() - i, 0nat,
    via tokens_from_dec
{
    if i < 0 || i >= s.len() {
        Seq::empty()
    } else if is_ws_char(s[i]) {
        tokens_from(s, i + 1)
    } else {
        seq![s.subrange(i, token_end(s, i))] + tokens_from(s, token_end(s, i))
    }
}

/// `token_end` lies at or after its start, and after a non-blank start.
proof fn lemma_token_end(s: Seq<char>, i: int)
    requires
        0 <= i <= s.len(),
    ensures
        i <= token_end(s, i) <= s.len(),
        i < s.len() && !is_ws_char(s[i]) ==> token_end(s, i) > i,
        token_end(s, i) < s.len() ==> is_ws_char(s[token_end(s, i)]),
        forall|k: int| i <= k < token_end(s, i) ==> !is_ws_char(#[trigger] s[k]),
    decreases s.len() - i,
{
    if i < s.len() && !is_ws_char(s[i]) {
        lemma_token_end(s, i + 1);
    }
}

#[via_fn]
proof fn tokens_from_dec(s: Seq<char>, i: int) {
    if 0 <= i < s.len() && !is_ws_char(s[i]) {
        lemma_token_end(s, i);
    }
}

/// The first line: everything before the first newline, without a
/// trailing carriage return.
pub open spec fn first_line(s: Seq<char>) -> Seq<char> {
    let raw = s.subrange(0, find_char_from(s, '\n', 0));
    if raw.len() > 0 && raw.last() == '\r' {
        raw.drop_last()
    } else {
        raw
    }
}

/// Leading and trailing whitespace removed.
pub open spec fn trim_start_spec(s: Seq<char>) -> Seq<char>
    decreases s.len(),
{
    if s.len() > 0 && is_ws_char(s[0]) {
        trim_start_spec(s.skip(1))
    } else {
        s
    }
}

pub open spec fn trim_end_spec(s: Seq<char>) -> Seq<char>
    decreases s.len(),
{
    if s.len() > 0 && is_ws_char(s.last()) {
        trim_end_spec(s.drop_last())
    } else {
        s
    }
}

pub open spec fn trim_spec(s: Seq<char>) -> Seq<char> {
    trim_end_spec(trim_start_spec(s))
}

/// What the relay asks the daemon for.
pub enum ReqSpec {
    /// A `CONNECT` tunnel request.
    ConnectTo { host: Seq<char>, port: u16 },
    /// An ordinary request to be forwarded.
    ForwardTo { host: Seq<char>, port: u16 },
}

/// Host and port named by an absolute-form URL, when the string is
/// one.  The value depends on the string alone.
pub uninterp spec fn url_host_port(s: Seq<char>) -> Option<(Seq<char>, u16)>;

/// Split a `host:port` token at its last colon and read the port.
pub open spec fn spec_host_port(t: Seq<char>) -> Option<(Seq<char>, u16)> {
    let ci = rfind_char(t, ':');
    if ci < 0 {
        None
    } else {
        let digits = t.subrange(ci + 1, t.len() as int);
        if digits.len() >= 1 && all_digit_chars(digits) && dec_chars_value(digits) <= 65535 {
            Some((t.subrange(0, ci), dec_chars_value(digits) as u16))
        } else {
            None
        }
    }
}

/// Destination taken from a `Host:` header value: `host:port` when the
/// port reads as a number, else the whole value with port 80.
pub open spec fn spec_host_header_value(v: Seq<char>) -> (Seq<char>, u16) {
    match spec_host_port(v) {
        Some(hp) => hp,
        None => (v, 80u16),
    }
}

/// Scan the lines of `s` (the text after the request line) for the
/// first `Host:` or `host:` header and read the destination off it.
pub open spec fn spec_host_header(s: Seq<char>) -> Option<(Seq<char>, u16)>
    decreases s.len(),
    via spec_host_header_dec
{
    if s.len() == 0 {
        None
    } else {
        let e = find_char_from(s, '\n', 0);
        let raw = s.subrange(0, e);
        let line = if raw.len() > 0 && raw.last() == '\r' {
            raw.drop_last()
        } else {
            raw
        };
        if line.len() >= 5 && (line.subrange(0, 5) == "Host:"@ || line.subrange(0, 5)
            == "host:"@) {
            Some(spec_host_header_value(trim_spec(line.skip(5))))
        } else if e >= s.len() {
            None
        } else {
            spec_host_header(s.skip(e + 1))
        }
    }
}

/// `find_char_from` finds the first occurrence at or after `i`.
proof fn lemma_find_char_from(s: Seq<char>, c: char, i: int)
    requires
        0 <= i <= s.len(),
    ensures
        i <= find_char_from(s, c, i) <= s.len(),
        find_char_from(s, c, i) < s.len() ==> s[find_char_from(s, c, i)] == c,
        forall|k: int| i <= k < find_char_from(s, c, i) ==> s[k] != c,
    decreases s.len() - i,
{
    if i < s.len() && s[i] != c {
        lemma_find_char_from(s, c, i + 1);
    }
}

#[via_fn]
proof fn spec_host_header_dec(s: Seq<char>) {
    if s.len() > 0 {
        lemma_find_char_from(s, '\n', 0);
    }
}

/// Parse of the request's first line: `CONNECT host:port …` gives a
/// tunnel target; any other method gives a forward target taken from
/// an absolute-form URL or from the `Host:` header.
pub open spec fn spec_parse_request(s: Seq<char>) -> Option<ReqSpec> {
    let toks = tokens_from(first_line(s), 0);
    if toks.len() < 2 {
        None
    } else if toks[0] == "CONNECT"@ {
        match spec_host_port(toks[1]) {
            Some(hp) => Some(ReqSpec::ConnectTo { host: hp.0, port: hp.1 }),
            None => None,
        }
    } else {
        match url_host_port(toks[1]) {
            Some(hp) => Some(ReqSpec::ForwardTo { host: hp.0, port: hp.1 }),
            None => {
                let e = find_char_from(s, '\n', 0);
                if e >= s.len() {
                    None
                } else {
                    match spec_host_header(s.skip(e + 1)) {
                        Some(hp) => Some(ReqSpec::ForwardTo { host: hp.0, port: hp.1 }),
                        None => None,
                    }
                }
            },
        }
    }
}

/// Request type: either a CONNECT tunnel or a forwarded HTTP request.
#[derive(Debug, Clone)]
pub enum RequestType {
    /// CONNECT method for HTTPS tunneling.
    Connect { host: String, port: u16 },
    /// Regular HTTP request to be forwarded.
    Forward { host: String, port: u16 },
}

/// Relies on url::Url::parse, Url::host_str and
/// Url::port_or_known_default: the host and default-completed port of
/// an absolute URL are a function of the string alone.
#[verifier::external_body]
fn parse_absolute_url(s: &str) -> (r: Option<(String, u16)>)
    ensures
        match url_host_port(s@) {
            Some(hp) => r matches Some(x) && x.0@ == hp.0 && x.1 == hp.1,
            None => r is None,
        },
{
    match url::Url::parse(s) {
        Ok(u) => match (u.host_str(), u.port_or_known_default()) {
            (Some(h), Some(p)) => Some((h.to_string(), p)),
            _ => None,
        },
        Err(_) => None,
    }
}

/// Find the first `\n` at or after `from`.
fn find_newline(v: &Vec<char>, from: usize) -> (e: usize)
    requires
        from <= v@.len(),
    ensures
        e == find_char_from(v@, '\n', from as int),
        from <= e <= v@.len(),
{
    let n = v.len();
    let mut i: usize = from;
    while i < n && v[i] != '\n'
        invariant
            from <= i <= n == v@.len(),
            forall|k: int| from <= k < i ==> v@[k] != '\n',
        decreases n - i,
    {
        i += 1;
    }
    proof {
        lemma_find_char_from(v@, '\n', from as int);
        let f = find_char_from(v@, '\n', from as int);
        if f < i {
            assert(v@[f] == '\n');
        }
        if f > i && i < n {
            assert(v@[i as int] != '\n');
        }
    }
    i
}

/// Whether a character is ASCII whitespace.
fn is_ws(c: char) -> (r: bool)
    ensures
        r == is_ws_char(c),
{
    c == ' ' || c == '\t' || c == '\n' || c == '\r' || c == '\u{b}' || c == '\u{c}'
}

/// Cut `v[start..end]` into whitespace-separated tokens.
fn tokenize(v: &Vec<char>) -> (r: Vec<String>)
    ensures
        r.deep_view() == tokens_from(v@, 0),
{
    let n = v.len();
    let mut toks: Vec<String> = Vec::new();
    let mut i: usize = 0;
    proof {
        assert(toks.deep_view() =~= Seq::<Seq<char>>::empty());
        assert(toks.deep_view() + tokens_from(v@, 0) =~= tokens_from(v@, 0));
    }
    while i < n
        invariant
            i <= n == v@.len(),
            tokens_from(v@, 0) == toks.deep_view() + tokens_from(v@, i as int),
        decreases n - i,
    {
        if is_ws(v[i]) {
            i += 1;
            proof {
                assert(tokens_from(v@, i - 1) == tokens_from(v@, i as int));
            }
        } else {
            let mut j: usize = i;
            while j < n && !is_ws(v[j])
                invariant
                    i <= j <= n == v@.len(),
                    forall|k: int| i <= k < j ==> !is_ws_char(#[trigger] v@[k]),
                decreases n - j,
            {
                j += 1;
            }
            proof {
                lemma_token_end(v@, i as int);
                let e = token_end(v@, i as int);
                assert(e == j) by {
                    if e < j {
                        assert(is_ws_char(v@[e]));
                    }
                    if e > j {
                        if j < n {
                            assert(!is_ws_char(v@[j as int]));
                        }
                    }
                }
            }
            let tok = chars_to_string(v, i, j);
            let ghost before = toks.deep_view();
            toks.push(tok);
            proof {
                assert(toks.deep_view() =~= before.push(v@.subrange(i as int, j as int)));
                assert(tokens_from(v@, i as int) == seq![v@.subrange(i as int, j as int)]
                    + tokens_from(v@, j as int));
                assert(toks.deep_view() + tokens_from(v@, j as int) =~= before + tokens_from(
                    v@,
                    i as int,
                ));
            }
            i = j;
        }
    }
    proof {
        assert(tokens_from(v@, n as int) =~= Seq::<Seq<char>>::empty());
        assert(toks.deep_view() + tokens_from(v@, n as int) =~= toks.deep_view());
    }
    toks
}

/// Parse the digit characters `v[start..end]` as a decimal u16.
fn parse_u16_chars(v: &Vec<char>, start: usize, end: usize) -> (r: Option<u16>)
    requires
        start <= end <= v@.len(),
    ensures
        ({
            let digits = v@.subrange(start as int, end as int);
            if digits.len() >= 1 && all_digit_chars(digits) && dec_chars_value(digits) <= 65535 {
                r == Some(dec_chars_value(digits) as u16)
            } else {
                r is None
            }
        }),
{
    let ghost digits = v@.subrange(start as int, end as int);
    if start == end {
        return None;
    }
    let mut val: u32 = 0;
    let mut i: usize = start;
    while i < end
        invariant
            start <= i <= end <= v@.len(),
            digits == v@.subrange(start as int, end as int),
            all_digit_chars(digits.subrange(0, i - start)),
            val == dec_chars_value(digits.subrange(0, i - start)),
            val <= 65535,
        decreases end - i,
    {
        let c = v[i];
        if c < '0' || c > '9' {
            proof {
                assert(digits[i - start] == c);
                assert(!all_digit_chars(digits));
            }
            return None;
        }
        let d: u32 = (c as u32) - 48;
        let next: u32 = val * 10 + d;
        proof {
            let pre = digits.subrange(0, i - start);
            let cur = digits.subrange(0, i + 1 - start);
            assert(cur.drop_last() =~= pre);
            assert(cur.last() == c);
            assert forall|k: int| 0 <= k < cur.len() implies is_digit_char(cur[k]) by {
                if k < pre.len() {
                    assert(is_digit_char(pre[k]));
                }
            }
        }
        if next > 65535 {
            proof {
                lemma_dec_chars_grows(digits, i + 1 - start);
                assert(digits.subrange(0, digits.len() as int) =~= digits);
            }
            return None;
        }
        val = next;
        i += 1;
    }
    proof {
        assert(digits.subrange(0, end - start) =~= digits);
    }
    Some(val as u16)
}

/// A longer digit prefix never has a smaller value.
proof fn lemma_dec_chars_grows(s: Seq<char>, i: int)
    requires
        0 <= i <= s.len(),
    ensures
        dec_chars_value(s.subrange(0, i)) <= dec_chars_value(s),
    decreases s.len() - i,
{
    if i < s.len() {
        lemma_dec_chars_grows(s, i + 1);
        let a = s.subrange(0, i);
        let b = s.subrange(0, i + 1);
        assert(b.drop_last() =~= a);
    } else {
        assert(s.subrange(0, i) =~= s);
    }
}

/// Find the last colon of `v`, if any.
fn rfind_colon(v: &Vec<char>) -> (r: Option<usize>)
    ensures
        match r {
            Some(i) => rfind_char(v@, ':') == i as int && i < v@.len(),
            None => rfind_char(v@, ':') == -1,
        },
{
    let n = v.len();
    let mut i: usize = n;
    proof {
        assert(v@.subrange(0, n as int) =~= v@);
    }
    while i > 0
        invariant
            i <= n == v@.len(),
            rfind_char(v@, ':') == rfind_char(v@.subrange(0, i as int), ':'),
        decreases i,
    {
        i -= 1;
        proof {
            let cur = v@.subrange(0, i + 1);
            assert(cur.last() == v@[i as int]);
            assert(cur.drop_last() =~= v@.subrange(0, i as int));
        }
        if v[i] == ':' {
            return Some(i);
        }
    }
    proof {
        assert(v@.subrange(0, 0) =~= Seq::<char>::empty());
    }
    None
}

/// Split a `host:port` token at its last colon, reading the port.
fn host_port_of_token(tok: &String) -> (r: Option<(String, u16)>)
    ensures
        match spec_host_port(tok@) {
            Some(hp) => r matches Some(x) && x.0@ == hp.0 && x.1 == hp.1,
            None => r is None,
        },
{
    let chars = str_chars(tok.as_str());
    let ci = match rfind_colon(&chars) {
        None => {
            return None;
        },
        Some(ci) => ci,
    };
    let n = chars.len();
    let port = match parse_u16_chars(&chars, ci + 1, n) {
        None => {
            return None;
        },
        Some(p) => p,
    };
    let host = chars_to_string(&chars, 0, ci);
    Some((host, port))
}

/// Trimmed copy of `v[start..end]`.
fn trim_range(v: &Vec<char>, start: usize, end: usize) -> (r: (usize, usize))
    requires
        start <= end <= v@.len(),
    ensures
        start <= r.0 <= r.1 <= end,
        v@.subrange(r.0 as int, r.1 as int) == trim_spec(v@.subrange(start as int, end as int)),
{
    let mut a = start;
    while a < end && is_ws(v[a])
        invariant
            start <= a <= end <= v@.len(),
            trim_start_spec(v@.subrange(start as int, end as int)) == trim_start_spec(
                v@.subrange(a as int, end as int),
            ),
        decreases end - a,
    {
        proof {
            let cur = v@.subrange(a as int, end as int);
            assert(cur[0] == v@[a as int]);
            assert(cur.skip(1) =~= v@.subrange(a + 1, end as int));
        }
        a += 1;
    }
    proof {
        let cur = v@.subrange(a as int, end as int);
        if cur.len() > 0 {
            assert(cur[0] == v@[a as int]);
        }
        assert(trim_start_spec(v@.subrange(start as int, end as int)) == cur);
    }
    let mut b = end;
    while b > a && is_ws(v[b - 1])
        invariant
            a <= b <= end <= v@.len(),
            trim_end_spec(v@.subrange(a as int, end as int)) == trim_end_spec(
                v@.subrange(a as int, b as int),
            ),
        decreases b,
    {
        proof {
            let cur = v@.subrange(a as int, b as int);
            assert(cur.last() == v@[b - 1]);
            assert(cur.drop_last() =~= v@.subrange(a as int, b - 1));
        }
        b -= 1;
    }
    proof {
        let cur = v@.subrange(a as int, b as int);
        if cur.len() > 0 {
            assert(cur.last() == v@[b - 1]);
        }
        assert(trim_end_spec(v@.subrange(a as int, end as int)) == cur);
    }
    (a, b)
}

/// Parse either a CONNECT request or a regular HTTP request.
pub fn parse_request_line(request: &str) -> (r: Result<RequestType, String>)
    ensures
        match spec_parse_request(request@) {
            Some(ReqSpec::ConnectTo { host, port }) => r matches Ok(
                RequestType::Connect { host: h, port: p },
            ) && h@ == host && p == port,
            Some(ReqSpec::ForwardTo { host, port }) => r matches Ok(
                RequestType::Forward { host: h, port: p },
            ) && h@ == host && p == port,
            None => r is Err,
        },
{
    let chars = str_chars(request);
    let e1 = find_newline(&chars, 0);
    let mut line_end = e1;
    if line_end > 0 && chars[line_end - 1] == '\r' {
        line_end = line_end - 1;
    }
    let line = copy_chars(&chars, 0, line_end);
    proof {
        assert(line@ == first_line(request@)) by {
            let raw = request@.subrange(0, e1 as int);
            if e1 > 0 && request@[e1 - 1] == '\r' {
                assert(raw.last() == request@[e1 - 1]);
                assert(raw.drop_last() =~= request@.subrange(0, e1 - 1));
            }
        }
    }
    let toks = tokenize(&line);
    if toks.len() < 2 {
        return Err(error_text("Invalid request format"));
    }
    proof {
        assert(toks.deep_view()[0] == toks@[0]@);
        assert(toks.deep_view()[1] == toks@[1]@);
    }
    if crate::strutil::str_eq(toks[0].as_str(), "CONNECT") {
        match host_port_of_token(&toks[1]) {
            Some(hp) => Ok(RequestType::Connect { host: hp.0, port: hp.1 }),
            None => Err(error_text("Invalid host or port")),
        }
    } else {
        match forward_target(request, &chars, &toks, e1) {
            Some(hp) => Ok(RequestType::Forward { host: hp.0, port: hp.1 }),
            None => Err(error_text("Cannot determine host and port from HTTP request")),
        }
    }
}

/// Parse a regular HTTP request, extracting host and port from the
/// request target or the `Host:` header.
pub fn parse_http_request(request: &str) -> (r: Result<(String, u16), String>)
    ensures
        match spec_parse_request(request@) {
            Some(ReqSpec::ForwardTo { host, port }) => r matches Ok(hp) && hp.0@ == host && hp.1
                == port,
            _ => true,
        },
        ({
            let toks = tokens_from(first_line(request@), 0);
            toks.len() >= 2 && toks[0] != "CONNECT"@ && spec_parse_request(request@) is None
        }) ==> r is Err,
{
    let chars = str_chars(request);
    let e1 = find_newline(&chars, 0);
    let mut line_end = e1;
    if line_end > 0 && chars[line_end - 1] == '\r' {
        line_end = line_end - 1;
    }
    let line = copy_chars(&chars, 0, line_end);
    proof {
        assert(line@ == first_line(request@)) by {
            let raw = request@.subrange(0, e1 as int);
            if e1 > 0 && request@[e1 - 1] == '\r' {
                assert(raw.last() == request@[e1 - 1]);
                assert(raw.drop_last() =~= request@.subrange(0, e1 - 1));
            }
        }
    }
    let toks = tokenize(&line);
    if toks.len() < 2 {
        return Err(error_text("Invalid HTTP request format"));
    }
    proof {
        assert(toks.deep_view()[1] == toks@[1]@);
    }
    match forward_target(request, &chars, &toks, e1) {
        Some(hp) => Ok((hp.0, hp.1)),
        None => Err(error_text("Cannot determine host and port from HTTP request")),
    }
}

/// The forward destination: the absolute-form target URL, or the first
/// `Host:` header.
fn forward_target(request: &str, chars: &Vec<char>, toks: &Vec<String>, e1: usize) -> (r: Option<
    (String, u16),
>)
    requires
        chars@ == request@,
        toks@.len() >= 2,
        e1 == find_char_from(request@, '\n', 0),
        0 <= e1 <= request@.len(),
    ensures
        ({
            let spec_r = match url_host_port(toks@[1]@) {
                Some(hp) => Some(hp),
                None => {
                    if e1 >= request@.len() {
                        None
                    } else {
                        spec_host_header(request@.skip(e1 + 1))
                    }
                },
            };
            match spec_r {
                Some(hp) => r matches Some(x) && x.0@ == hp.0 && x.1 == hp.1,
                None => r is None,
            }
        }),
{
    match parse_absolute_url(toks[1].as_str()) {
        Some(hp) => Some(hp),
        None => {
            let n = chars.len();
            if e1 >= n {
                return None;
            }
            host_header_scan(chars, e1 + 1)
        },
    }
}

/// Scan the header lines from position `pos` for `Host:`/`host:`.
fn host_header_scan(chars: &Vec<char>, pos: usize) -> (r: Option<(String, u16)>)
    requires
        pos <= chars@.len(),
    ensures
        match spec_host_header(chars@.skip(pos as int)) {
            Some(hp) => r matches Some(x) && x.0@ == hp.0 && x.1 == hp.1,
            None => r is None,
        },
    decreases chars@.len() - pos,
{
    let ghost s = chars@.skip(pos as int);
    let n = chars.len();
    if pos == n {
        proof {
            assert(s.len() == 0);
        }
        return None;
    }
    let e = find_newline(chars, pos);
    let mut line_end = e;
    if line_end > pos && chars[line_end - 1] == '\r' {
        line_end = line_end - 1;
    }
    proof {
        lemma_find_char_from(chars@, '\n', pos as int);
        assert(find_char_from(s, '\n', 0) == e - pos) by {
            lemma_find_char_from(s, '\n', 0);
            let f = find_char_from(s, '\n', 0);
            assert forall|k: int| 0 <= k < e - pos implies s[k] != '\n' by {
                assert(s[k] == chars@[k + pos]);
            }
            if f < e - pos {
                assert(s[f] == '\n');
            }
            if f > e - pos {
                if e < n {
                    assert(s[e - pos] == chars@[e as int]);
                    assert(s[e - pos] != '\n');
                }
            }
        }
        let raw = s.subrange(0, e - pos);
        assert(raw =~= chars@.subrange(pos as int, e as int));
        if e > pos && chars@[e - 1] == '\r' {
            assert(raw.last() == chars@[e - 1]);
            assert(raw.drop_last() =~= chars@.subrange(pos as int, e - 1));
        }
        assert(chars@.subrange(pos as int, line_end as int) == (if raw.len() > 0 && raw.last()
            == '\r' {
            raw.drop_last()
        } else {
            raw
        }));
    }
    // does this line begin with `Host:` or `host:`?
    let is_host = line_end - pos >= 5 && (chars[pos] == 'H' || chars[pos] == 'h') && chars[pos + 1]
        == 'o' && chars[pos + 2] == 's' && chars[pos + 3] == 't' && chars[pos + 4] == ':';
    proof {
        let line = chars@.subrange(pos as int, line_end as int);
        if is_host {
            assert(line.subrange(0, 5) =~= (if chars@[pos as int] == 'H' {
                "Host:"@
            } else {
                "host:"@
            })) by {
                vstd::prelude::reveal_strlit("Host:");
                vstd::prelude::reveal_strlit("host:");
            }
        } else {
            vstd::prelude::reveal_strlit("Host:");
            vstd::prelude::reveal_strlit("host:");
            if line.len() >= 5 {
                assert(line[0] == chars@[pos as int]);
                assert(line[1] == chars@[pos + 1]);
                assert(line[2] == chars@[pos + 2]);
                assert(line[3] == chars@[pos + 3]);
                assert(line[4] == chars@[pos + 4]);
                assert(line.subrange(0, 5) != "Host:"@ && line.subrange(0, 5) != "host:"@) by {
                    if line.subrange(0, 5) == "Host:"@ {
                        assert(line.subrange(0, 5)[0] == 'H');
                        assert(line.subrange(0, 5)[1] == 'o');
                        assert(line.subrange(0, 5)[2] == 's');
                        assert(line.subrange(0, 5)[3] == 't');
                        assert(line.subrange(0, 5)[4] == ':');
                    }
                    if line.subrange(0, 5) == "host:"@ {
                        assert(line.subrange(0, 5)[0] == 'h');
                        assert(line.subrange(0, 5)[1] == 'o');
                        assert(line.subrange(0, 5)[2] == 's');
                        assert(line.subrange(0, 5)[3] == 't');
                        assert(line.subrange(0, 5)[4] == ':');
                    }
                }
            }
        }
    }
    if is_host {
        let (a, b) = trim_range(chars, pos + 5, line_end);
        proof {
            let line = chars@.subrange(pos as int, line_end as int);
            assert(line.skip(5) =~= chars@.subrange(pos + 5, line_end as int));
        }
        let value = chars_to_string(chars, a, b);
        let vchars = copy_chars(chars, a, b);
        match host_port_of_token_chars(&vchars) {
            Some(hp) => Some(hp),
            None => Some((value, 80)),
        }
    } else if e >= n {
        proof {
            assert(e - pos >= s.len());
        }
        None
    } else {
        let rec = host_header_scan(chars, e + 1);
        proof {
            assert(chars@.skip(e + 1) =~= s.skip(e - pos + 1));
        }
        rec
    }
}

/// Split a `host:port` character vector at its last colon.
fn host_port_of_token_chars(chars: &Vec<char>) -> (r: Option<(String, u16)>)
    ensures
        match spec_host_port(chars@) {
            Some(hp) => r matches Some(x) && x.0@ == hp.0 && x.1 == hp.1,
            None => r is None,
        },
{
    let ci = match rfind_colon(chars) {
        None => {
            return None;
        },
        Some(ci) => ci,
    };
    let n = chars.len();
    let port = match parse_u16_chars(chars, ci + 1, n) {
        None => {
            return None;
        },
        Some(p) => p,
    };
    let host = chars_to_string(chars, 0, ci);
    Some((host, port))
}

/// An error message as an owned string.
fn error_text(m: &str) -> (r: String)
    ensures
        r@ == m@,
{
    m.to_owned()
}

} // verus!
