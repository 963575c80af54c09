//! The line protocol between the relay and the filter daemon.
//!
//! One request per connection: `CONNECT <host> <port>\n`, where the
//! host is a byte sequence without whitespace and the port a decimal
//! u16.  The reply is exactly one of `OK\n`, `BLOCKED\n`, `FAIL\n` or
//! `ERROR\n`; after `OK\n` the connection becomes a raw byte tunnel.

use vstd::prelude::*;

use vstd::string::StringExecFns;

use crate::engine::PolicyEngine;
use crate::strutil::push_char;

verus! {

/// ASCII whitespace bytes.
pub open spec fn is_ws_byte(b: u8) -> bool {
    b == 32 || (9 <= b <= 13)
}

/// ASCII decimal digit.
pub open spec fn is_digit_byte(b: u8) -> bool {
    48 <= b <= 57
}

/// Every byte is a decimal digit.
pub open spec fn all_digits(s: Seq<u8>) -> bool {
    forall|k: int| 0 <= k < s.len() ==> is_digit_byte(#[trigger] s[k])
}

/// Value of a decimal digit string.
pub open spec fn dec_value(s: Seq<u8>) -> nat
    decreases s.len(),
{
    if s.len() == 0 {
        0
    } else {
        dec_value(s.drop_last()) * 10 + (s.last() - 48) as nat
    }
}

/// Index of the first occurrence of `b`, or the length when absent.
pub open spec fn find_byte(s: Seq<u8>, b: u8) -> int
    decreases s.len(),
{
    if s.len() == 0 {
        0
    } else if s[0] == b {
        0
    } else {
        1 + find_byte(s.skip(1), b)
    }
}

/// The bytes `CONNECT ` that begin every request.
pub open spec fn connect_prefix() -> Seq<u8> {
    seq![67u8, 79u8, 78u8, 78u8, 69u8, 67u8, 84u8, 32u8]
}

/// The characters a byte sequence stands for, byte by byte.
pub open spec fn bytes_as_chars(s: Seq<u8>) -> Seq<char> {
    s.map(|i: int, b: u8| b as char)
}

/// Parse of a request line.  The line must be exactly
/// `CONNECT <host> <port>\n`: the literal prefix, a nonempty host
/// without whitespace, one space, a nonempty run of decimal digits
/// whose value fits a u16, and a final newline.
pub open spec fn spec_parse_connect(line: Seq<u8>) -> Option<(Seq<u8>, u16)> {
    if line.len() >= 8 && line.subrange(0, 8) == connect_prefix() {
        let rest = line.skip(8);
        let sp = find_byte(rest, 32);
        if 1 <= sp < rest.len() {
            let host = rest.subrange(0, sp);
            if forall|k: int| 0 <= k < host.len() ==> !is_ws_byte(#[trigger] host[k]) {
                let tail = rest.skip(sp + 1);
                if tail.len() >= 2 && tail.last() == 10 && all_digits(tail.drop_last())
                    && dec_value(tail.drop_last()) <= 65535 {
                    Some((host, dec_value(tail.drop_last()) as u16))
                } else {
                    None
                }
            } else {
                None
            }
        } else {
            None
        }
    } else {
        None
    }
}

/// `find_byte` points at the first occurrence.
proof fn lemma_find_byte(s: Seq<u8>, b: u8)
    ensures
        0 <= find_byte(s, b) <= s.len(),
        find_byte(s, b) < s.len() ==> s[find_byte(s, b)] == b,
        forall|k: int| 0 <= k < find_byte(s, b) ==> s[k] != b,
    decreases s.len(),
{
    if s.len() > 0 && s[0] != b {
        lemma_find_byte(s.skip(1), b);
        let f = find_byte(s, b);
        assert forall|k: int| 0 <= k < f implies s[k] != b by {
            if k > 0 {
                assert(s.skip(1)[k - 1] != b);
            }
        }
        if f < s.len() {
            assert(s.skip(1)[f - 1] == b);
        }
    }
}

/// A longer digit prefix never has a smaller value.
proof fn lemma_dec_value_grows(s: Seq<u8>, i: int)
    requires
        0 <= i <= s.len(),
    ensures
        dec_value(s.subrange(0, i)) <= dec_value(s),
    decreases s.len() - i,
{
    if i < s.len() {
        lemma_dec_value_grows(s, i + 1);
        let a = s.subrange(0, i);
        let b = s.subrange(0, i + 1);
        assert(b.drop_last() =~= a);
        assert(dec_value(b) == dec_value(a) * 10 + (b.last() - 48) as nat);
    } else {
        assert(s.subrange(0, i) =~= s);
    }
}

/// Decode a byte sequence into the string of the characters each byte
/// stands for.
pub fn bytes_to_string(bytes: &Vec<u8>, start: usize, end: usize) -> (r: String)
    requires
        start <= end <= bytes@.len(),
    ensures
        r@ == bytes_as_chars(bytes@.subrange(start as int, end as int)),
{
    let mut out = String::new();
    let mut i: usize = start;
    proof {
        assert(out@ =~= bytes_as_chars(bytes@.subrange(start as int, start as int)));
    }
    while i < end
        invariant
            start <= i <= end <= bytes@.len(),
            out@ == bytes_as_chars(bytes@.subrange(start as int, i as int)),
        decreases end - i,
    {
        push_char(&mut out, bytes[i] as char);
        proof {
            assert(out@ =~= bytes_as_chars(bytes@.subrange(start as int, i + 1)));
        }
        i += 1;
    }
    out
}

/// Parse the digits `bytes[start..end]` as a decimal u16.
fn parse_u16_digits(bytes: &Vec<u8>, start: usize, end: usize) -> (r: Option<u16>)
    requires
        start <= end <= bytes@.len(),
    ensures
        ({
            let digits = bytes@.subrange(start as int, end as int);
            if digits.len() >= 1 && all_digits(digits) && dec_value(digits) <= 65535 {
                r == Some(dec_value(digits) as u16)
            } else {
                r is None
            }
        }),
{
    let ghost digits = bytes@.subrange(start as int, end as int);
    if start == end {
        return None;
    }
    let mut val: u32 = 0;
    let mut i: usize = start;
    while i < end
        invariant
            start <= i <= end <= bytes@.len(),
            digits == bytes@.subrange(start as int, end as int),
            all_digits(digits.subrange(0, i - start)),
            val == dec_value(digits.subrange(0, i - start)),
            val <= 65535,
        decreases end - i,
    {
        let b = bytes[i];
        if b < 48 || b > 57 {
            proof {
                assert(digits[i - start] == b);
                assert(!all_digits(digits));
            }
            return None;
        }
        let d: u32 = (b - 48) as u32;
        let next: u32 = val * 10 + d;
        proof {
            let pre = digits.subrange(0, i - start);
            let cur = digits.subrange(0, i + 1 - start);
            assert(cur.drop_last() =~= pre);
            assert(cur.last() == b);
            assert forall|k: int| 0 <= k < cur.len() implies is_digit_byte(cur[k]) by {
                if k < pre.len() {
                    assert(is_digit_byte(pre[k]));
                }
            }
        }
        if next > 65535 {
            proof {
                lemma_dec_value_grows(digits, i + 1 - start);
                assert(digits.subrange(0, digits.len() as int) =~= digits);
            }
            return None;
        }
        val = next;
        i += 1;
    }
    proof {
        assert(digits.subrange(0, end - start) =~= digits);
    }
    Some(val as u16)
}

/// Parse one request line.  Returns the host bytes decoded to a string
/// and the port exactly when the line matches the protocol grammar.
pub fn parse_connect_line(line: &Vec<u8>) -> (r: Option<(String, u16)>)
    ensures
        match spec_parse_connect(line@) {
            Some((h, p)) => r matches Some(hp) && hp.0@ == bytes_as_chars(h) && hp.1 == p,
            None => r is None,
        },
{
    let n = line.len();
    if n < 8 {
        return None;
    }
    // literal prefix `CONNECT `
    if !(line[0] == 67 && line[1] == 79 && line[2] == 78 && line[3] == 78 && line[4] == 69
        && line[5] == 67 && line[6] == 84 && line[7] == 32) {
        proof {
            assert(line@.subrange(0, 8) != connect_prefix()) by {
                if line@.subrange(0, 8) == connect_prefix() {
                    assert(line@[0] == 67 && line@[1] == 79 && line@[2] == 78 && line@[3] == 78
                        && line@[4] == 69 && line@[5] == 67 && line@[6] == 84 && line@[7] == 32);
                }
            }
        }
        return None;
    }
    proof {
        assert(line@.subrange(0, 8) =~= connect_prefix());
    }
    let ghost rest = line@.skip(8);
    // find the space after the host
    let mut sp: usize = 8;
    while sp < n && line[sp] != 32
        invariant
            8 <= sp <= n == line@.len(),
            forall|k: int| 8 <= k < sp ==> line@[k] != 32,
        decreases n - sp,
    {
        sp += 1;
    }
    proof {
        lemma_find_byte(rest, 32);
        assert(find_byte(rest, 32) == sp - 8) by {
            let f = find_byte(rest, 32);
            assert forall|k: int| 0 <= k < sp - 8 implies rest[k] != 32 by {
                assert(rest[k] == line@[k + 8]);
            }
            if f < sp - 8 {
                assert(rest[f] == 32);
            }
            if f > sp - 8 {
                if sp < n {
                    assert(rest[sp - 8] == line@[sp as int]);
                    assert(rest[sp - 8] != 32);
                } else {
                    assert(f <= rest.len());
                }
            }
        }
    }
    if sp == n || sp == 8 {
        // no space, or an empty host
        return None;
    }
    // the host may not contain other whitespace either
    let mut found_ws = false;
    let mut k: usize = 8;
    while k < sp
        invariant
            8 <= k <= sp < n == line@.len(),
            forall|j: int| 8 <= j < sp ==> line@[j] != 32,
            !found_ws ==> forall|j: int| 8 <= j < k ==> !is_ws_byte(#[trigger] line@[j]),
            found_ws ==> exists|j: int| 8 <= j < sp && is_ws_byte(#[trigger] line@[j]),
        decreases sp - k,
    {
        let b = line[k];
        if b == 9 || b == 10 || b == 11 || b == 12 || b == 13 {
            assert(is_ws_byte(line@[k as int]));
            found_ws = true;
        }
        k += 1;
    }
    let ghost host = rest.subrange(0, sp - 8);
    if found_ws {
        proof {
            let j = choose|j: int| 8 <= j < sp && is_ws_byte(#[trigger] line@[j]);
            assert(host[j - 8] == line@[j]);
            assert(is_ws_byte(host[j - 8]));
        }
        return None;
    }
    proof {
        assert forall|j: int| 0 <= j < host.len() implies !is_ws_byte(host[j]) by {
            assert(host[j] == line@[j + 8]);
            assert(line@[j + 8] != 32);
        }
    }
    // the port digits and the final newline
    if n - sp < 3 {
        proof {
            let tail = rest.skip(sp - 8 + 1);
            assert(tail.len() < 2);
        }
        return None;
    }
    if line[n - 1] != 10 {
        proof {
            let tail = rest.skip(sp - 8 + 1);
            assert(tail.last() == line@[n - 1]);
        }
        return None;
    }
    let port = match parse_u16_digits(line, sp + 1, n - 1) {
        Some(p) => p,
        None => {
            proof {
                let tail = rest.skip(sp - 8 + 1);
                assert(tail.drop_last() =~= line@.subrange(sp + 1, n - 1));
            }
            return None;
        },
    };
    let host = bytes_to_string(line, 8, sp);
    proof {
        let tail = rest.skip(sp - 8 + 1);
        assert(tail.drop_last() =~= line@.subrange(sp + 1, n - 1));
        assert(tail.last() == line@[n - 1]);
        assert(tail.len() >= 2);
        assert(rest.subrange(0, sp - 8) =~= line@.subrange(8, sp as int));
    }
    Some((host, port))
}

/// One decimal digit, as a character.
pub open spec fn spec_dec_digit(d: nat) -> char {
    seq!['0', '1', '2', '3', '4', '5', '6', '7', '8', '9'][
        if d < 10 {
            d as int
        } else {
            0
        }
    ]
}

/// The decimal digits of `n`, without leading zeros.
pub open spec fn dec_chars_of(n: nat) -> Seq<char>
    decreases n,
{
    if n < 10 {
        seq![spec_dec_digit(n)]
    } else {
        dec_chars_of(n / 10).push(spec_dec_digit(n % 10))
    }
}

/// One decimal digit character.
fn dec_digit(d: u16) -> (r: char)
    requires
        d < 10,
    ensures
        r == spec_dec_digit(d as nat),
{
    let r: char = match d {
        0 => '0',
        1 => '1',
        2 => '2',
        3 => '3',
        4 => '4',
        5 => '5',
        6 => '6',
        7 => '7',
        8 => '8',
        _ => '9',
    };
    r
}

/// Write `n` in decimal.
fn dec_string(n: u16) -> (r: String)
    ensures
        r@ == dec_chars_of(n as nat),
    decreases n,
{
    if n < 10 {
        let mut out = String::new();
        push_char(&mut out, dec_digit(n));
        proof {
            assert(out@ =~= seq![spec_dec_digit(n as nat)]);
        }
        out
    } else {
        let mut out = dec_string(n / 10);
        push_char(&mut out, dec_digit(n % 10));
        out
    }
}

/// The request line the relay sends the daemon for a destination:
/// `CONNECT <host> <port>\n` with the port in decimal.
pub fn format_connect_request(host: &str, port: u16) -> (r: String)
    ensures
        r@ == "CONNECT "@ + host@ + " "@ + dec_chars_of(port as nat) + "\n"@,
{
    let mut out = String::new();
    out.append("CONNECT ");
    out.append(host);
    out.append(" ");
    let digits = dec_string(port);
    out.append(digits.as_str());
    out.append("\n");
    proof {
        assert(out@ =~= "CONNECT "@ + host@ + " "@ + dec_chars_of(port as nat) + "\n"@);
    }
    out
}

/// What the daemon does with one request.
#[derive(Debug)]
pub enum DaemonAction {
    /// Malformed request: reply `ERROR\n` and close.
    Reject,
    /// Denied by policy: reply `BLOCKED\n` and close.
    Blocked { host: String },
    /// Allowed: try to open a TCP connection to `host:port`, then
    /// reply `OK\n` and tunnel, or `FAIL\n` when the dial fails.
    Connect { host: String, port: u16 },
}

/// Decide one request line: reject a line that does not match the
/// grammar; consult the policy engine when one is present and block a
/// denied host; otherwise connect.  Without an engine every
/// well-formed request connects.
pub fn decide_request(engine: Option<&PolicyEngine>, line: &Vec<u8>) -> (r: DaemonAction)
    requires
        match engine {
            Some(e) => e.wf(),
            None => true,
        },
    ensures
        match spec_parse_connect(line@) {
            None => r is Reject,
            Some((h, p)) => {
                let host_chars = bytes_as_chars(h);
                match engine {
                    Some(e) => {
                        if e.spec_allow(host_chars) {
                            r matches DaemonAction::Connect { host, port } && host@ == host_chars
                                && port == p
                        } else {
                            r matches DaemonAction::Blocked { host } && host@ == host_chars
                        }
                    },
                    None => r matches DaemonAction::Connect { host, port } && host@ == host_chars
                        && port == p,
                }
            },
        },
{
    let total = line.len();
    let parsed = parse_connect_line(line);
    let (host, port) = match parsed {
        None => {
            return DaemonAction::Reject;
        },
        Some(hp) => hp,
    };
    proof {
        let h = spec_parse_connect(line@)->Some_0.0;
        assert(host@.len() == h.len());
        assert(h.len() < line@.len());
        assert(line@.len() == total);
    }
    match engine {
        Some(e) => {
            if e.allow(host.as_str(), None) {
                DaemonAction::Connect { host, port }
            } else {
                DaemonAction::Blocked { host }
            }
        },
        None => DaemonAction::Connect { host, port },
    }
}

/// The reply `OK\n`.
pub fn reply_ok() -> (r: Vec<u8>)
    ensures
        r@ == seq![79u8, 75u8, 10u8],
{
    let mut v: Vec<u8> = Vec::new();
    v.push(79);
    v.push(75);
    v.push(10);
    proof {
        assert(v@ =~= seq![79u8, 75u8, 10u8]);
    }
    v
}

/// The reply `BLOCKED\n`.
pub fn reply_blocked() -> (r: Vec<u8>)
    ensures
        r@ == seq![66u8, 76u8, 79u8, 67u8, 75u8, 69u8, 68u8, 10u8],
{
    let mut v: Vec<u8> = Vec::new();
    v.push(66);
    v.push(76);
    v.push(79);
    v.push(67);
    v.push(75);
    v.push(69);
    v.push(68);
    v.push(10);
    proof {
        assert(v@ =~= seq![66u8, 76u8, 79u8, 67u8, 75u8, 69u8, 68u8, 10u8]);
    }
    v
}

/// The reply `FAIL\n`.
pub fn reply_fail() -> (r: Vec<u8>)
    ensures
        r@ == seq![70u8, 65u8, 73u8, 76u8, 10u8],
{
    let mut v: Vec<u8> = Vec::new();
    v.push(70);
    v.push(65);
    v.push(73);
    v.push(76);
    v.push(10);
    proof {
        assert(v@ =~= seq![70u8, 65u8, 73u8, 76u8, 10u8]);
    }
    v
}

/// The reply `ERROR\n`.
pub fn reply_error() -> (r: Vec<u8>)
    ensures
        r@ == seq![69u8, 82u8, 82u8, 79u8, 82u8, 10u8],
{
    let mut v: Vec<u8> = Vec::new();
    v.push(69);
    v.push(82);
    v.push(82);
    v.push(79);
    v.push(82);
    v.push(10);
    proof {
        assert(v@ =~= seq![69u8, 82u8, 82u8, 79u8, 82u8, 10u8]);
    }
    v
}

/// Whether a daemon reply grants the tunnel: it starts with `OK`.
pub fn is_ok_reply(reply: &Vec<u8>) -> (r: bool)
    ensures
        r == (reply@.len() >= 2 && reply@[0] == 79 && reply@[1] == 75),
{
    reply.len() >= 2 && reply[0] == 79 && reply[1] == 75
}

} // verus!
