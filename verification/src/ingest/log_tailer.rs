//! Following a web server access log.
//!
//! The program around this library reads what was appended to the file and
//! hands the bytes over; here they become lines, and lines become events.

use vstd::prelude::*;

use crate::clock;
use crate::clock::Timestamp;
use crate::event;
use crate::event::{ConnectionEvent, EventView, Severity, Source};
use crate::ingest::access_log;
use crate::ingest::access_log::Entry;
use crate::ip;
use crate::ip::IpAddr;
use crate::text;

verus! {

/// Whether `c` is one of `0` to `9`.
pub open spec fn is_ascii_digit(c: char) -> bool {
    '0' <= c && c <= '9'
}

/// The number that ASCII digits spell.
pub open spec fn digits_value(s: Seq<char>) -> nat
    decreases s.len(),
{
    if s.len() == 0 {
        0
    } else {
        digits_value(s.drop_last()) * 10 + (s.last() as nat - 48) as nat
    }
}

/// The number that `s` spells in ASCII digits, if it is one of at most `max`.
pub open spec fn number(s: Seq<char>, max: nat) -> Option<nat> {
    if s.len() > 0 && (forall|k: int| 0 <= k < s.len() ==> is_ascii_digit(#[trigger] s[k]))
        && digits_value(s) <= max {
        Some(digits_value(s))
    } else {
        None
    }
}

proof fn digits_value_grows(s: Seq<char>, k: int)
    requires
        0 <= k <= s.len(),
    ensures
        digits_value(s.take(k)) <= digits_value(s),
    decreases s.len(),
{
    if k < s.len() {
        assert(s.drop_last().take(k) =~= s.take(k));
        digits_value_grows(s.drop_last(), k);
    } else {
        assert(s.take(k) =~= s);
    }
}

fn read_number(s: &Vec<char>, from: usize, to: usize, max: u64) -> (value: Option<u64>)
    requires
        from <= to <= s@.len(),
    ensures
        match value {
            Some(n) => number(s@.subrange(from as int, to as int), max as nat) == Some(n as nat),
            None => number(s@.subrange(from as int, to as int), max as nat) is None,
        },
{
    let ghost digits = s@.subrange(from as int, to as int);
    if from == to {
        return None;
    }
    let mut value: u64 = 0;
    let mut i: usize = from;
    while i < to
        invariant
            from <= i <= to <= s@.len(),
            digits == s@.subrange(from as int, to as int),
            value <= max,
            value == digits_value(digits.take(i - from)),
            forall|k: int| 0 <= k < i - from ==> is_ascii_digit(#[trigger] digits[k]),
        decreases to - i,
    {
        let c: char = s[i];
        assert(c == digits[i - from]);
        if !('0' <= c && c <= '9') {
            assert(!is_ascii_digit(digits[i - from]));
            return None;
        }
        let d: u64 = (c as u32 - 48) as u64;
        assert(digits.take(i - from + 1).drop_last() =~= digits.take(i - from));
        proof {
            digits_value_grows(digits, i - from + 1);
        }
        match value.checked_mul(10) {
            None => {
                return None;
            },
            Some(ten) => match ten.checked_add(d) {
                None => {
                    return None;
                },
                Some(next) => {
                    if next > max {
                        return None;
                    }
                    value = next;
                },
            },
        }
        i = i + 1;
    }
    assert(digits.take(to - from) =~= digits);
    Some(value)
}

/// The port that a request path points to: 443 for an `https` URI, else 80.
pub open spec fn http_port(uri: Option<Seq<char>>) -> u16 {
    match uri {
        Some(u) => if text::found_at(u, "https://"@, 0) {
            443
        } else {
            80
        },
        None => 80,
    }
}

/// Guesses the destination port from the URI scheme.
pub fn detect_http_port(uri: Option<&str>) -> (port: u16)
    ensures
        port == http_port(
            match uri {
                Some(u) => Some(u@),
                None => None,
            },
        ),
{
    match uri {
        Some(u) => if text::starts_with(u, "https://") {
            443
        } else {
            80
        },
        None => 80,
    }
}

/// The severity of a request by its status: errors of the client (4xx) and of
/// the server (5xx) are alerts.
pub open spec fn status_severity(status: int) -> Severity {
    if 400 <= status <= 599 {
        Severity::Alert
    } else {
        Severity::Info
    }
}

/// The event that a log line stands for when it is read at the instant `now`:
/// nothing, unless the line begins with an entry whose address and status can
/// be read.
pub open spec fn line_event(line: Seq<char>, now: Timestamp) -> Option<EventView> {
    match access_log::entry_of(line) {
        None => None,
        Some(e) => {
            let path = line.subrange(e.path as int, e.path_end as int);
            match (
                ip::ip_from_text(line.subrange(0, e.ip_end as int)),
                number(line.subrange(e.status as int, e.status + 3), 0xffff),
            ) {
                (Some(src_ip), Some(status)) => Some(
                    EventView {
                        timestamp: now,
                        src_ip,
                        dst_port: Some(http_port(Some(path))),
                        protocol: "HTTP"@,
                        http_status: Some(status as u16),
                        http_method: Some(line.subrange(e.method as int, e.method_end as int)),
                        http_path: Some(path),
                        user_agent: match access_log::agent_of(line, e.size_end as int) {
                            Some((u, v)) => Some(line.subrange(u, v)),
                            None => None,
                        },
                        bytes: match number(
                            line.subrange(e.size as int, e.size_end as int),
                            u64::MAX as nat,
                        ) {
                            Some(n) => Some(n as u64),
                            None => None,
                        },
                        source: Source::Log,
                        severity: status_severity(status as int),
                    },
                ),
                _ => None,
            }
        },
    }
}

/// Parses a single log line as of the instant `now`.
pub fn parse_line_at(line: &str, now: Timestamp) -> (event: Option<ConnectionEvent>)
    ensures
        event::event_view(event) == line_event(line@, now),
{
    let s: Vec<char> = text::chars_of(line);
    let e: Entry = match access_log::find_entry(&s) {
        Some(e) => {
            assert(access_log::entry_of(s@) == Some(e)) by {
                let other = choose|other: Entry| access_log::is_entry(s@, other);
                access_log::entry_is_unique(s@, e, other);
            }
            e
        },
        None => {
            return None;
        },
    };
    proof {
        reveal(access_log::is_entry);
    }
    let ip_text: String = text::string_of(&s, 0, e.ip_end);
    let src_ip: IpAddr = match IpAddr::from_text(ip_text.as_str()) {
        Some(ip) => ip,
        None => {
            return None;
        },
    };
    let status: u16 = match read_number(&s, e.status, e.status + 3, 0xffff) {
        Some(n) => n as u16,
        None => {
            return None;
        },
    };
    let method: String = text::string_of(&s, e.method, e.method_end);
    let path: String = text::string_of(&s, e.path, e.path_end);
    let user_agent: Option<String> = match access_log::find_agent(&s, e.size_end) {
        Some((u, v)) => Some(text::string_of(&s, u, v)),
        None => None,
    };
    let bytes: Option<u64> = read_number(&s, e.size, e.size_end, u64::MAX);
    let port: u16 = detect_http_port(Some(path.as_str()));
    let severity: Severity = if 400 <= status && status <= 599 {
        Severity::Alert
    } else {
        Severity::Info
    };
    Some(
        ConnectionEvent {
            timestamp: now,
            src_ip,
            dst_port: Some(port),
            protocol: "HTTP".to_owned(),
            http_status: Some(status),
            http_method: Some(method),
            http_path: Some(path),
            user_agent,
            bytes,
            source: Source::Log,
            severity,
        },
    )
}

/// Parses a single log line now. Returns `None` if it is no log entry.
pub fn parse_line(line: &str) -> (event: Option<ConnectionEvent>)
    ensures
        exists|now: Timestamp| #[trigger]
            now.valid() && event::event_view(event) == line_event(line@, now),
{
    let now: Timestamp = clock::utc_now();
    assert(now.valid());
    parse_line_at(line, now)
}

/// Decimal digits spell a number from left to right.
pub proof fn digits_spell_numbers(s: Seq<char>, c: char)
    ensures
        digits_value(Seq::empty()) == 0,
        '0' <= c <= '9' ==> digits_value(s.push(c)) == 10 * digits_value(s) + (c as int - '0' as int),
{
    assert(s.push(c).drop_last() =~= s);
}

/// A number that is written in decimal is read back, if it is not too large;
/// anything but digits is no number.
pub proof fn written_numbers_are_read(n: nat, max: nat)
    ensures
        n <= max ==> number(text::decimal(n), max) == Some(n),
        n > max ==> number(text::decimal(n), max) is None,
        number(Seq::empty(), max) is None,
        number(seq!['-'], max) is None,
{
    decimal_is_digits(n);
    let dash = seq!['-'];
    assert(!is_ascii_digit(dash[0]));
}

proof fn decimal_is_digits(n: nat)
    ensures
        text::decimal(n).len() > 0,
        forall|k: int| 0 <= k < text::decimal(n).len() ==> is_ascii_digit(#[trigger] text::decimal(n)[k]),
        digits_value(text::decimal(n)) == n,
    decreases n,
{
    let t = text::decimal(n);
    if n < 10 {
        assert(t.drop_last() =~= Seq::empty());
        assert(digits_value(t.drop_last()) == 0);
    } else {
        decimal_is_digits(n / 10);
        assert(t.drop_last() =~= text::decimal(n / 10));
    }
}

/// A text is a number if and only if it holds digits only, at least one, and is
/// not too large.
pub proof fn numbers_are_digits(s: Seq<char>, max: nat)
    ensures
        number(s, max) is Some <==> s.len() > 0 && (forall|k: int|
            0 <= k < s.len() ==> '0' <= #[trigger] s[k] <= '9') && digits_value(s) <= max,
        number(s, max) matches Some(n) ==> n == digits_value(s),
{
    assert((forall|k: int| 0 <= k < s.len() ==> is_ascii_digit(#[trigger] s[k])) <==> (forall|k: int|
        0 <= k < s.len() ==> '0' <= #[trigger] s[k] <= '9')) by {
        if forall|k: int| 0 <= k < s.len() ==> '0' <= #[trigger] s[k] <= '9' {
            assert forall|k: int| 0 <= k < s.len() implies is_ascii_digit(#[trigger] s[k]) by {}
        }
        if forall|k: int| 0 <= k < s.len() ==> is_ascii_digit(#[trigger] s[k]) {
            assert forall|k: int| 0 <= k < s.len() implies '0' <= #[trigger] s[k] <= '9' by {
                assert(is_ascii_digit(s[k]));
            }
        }
    }
}

/// Three digits spell their hundreds, tens and units.
proof fn three_digits(s: Seq<char>)
    requires
        s.len() == 3,
    ensures
        digits_value(s) == (s[0] as nat - 48) as nat * 100 + (s[1] as nat - 48) as nat * 10 + (
        s[2] as nat - 48) as nat,
{
    reveal_with_fuel(digits_value, 4);
    assert(s.drop_last().drop_last().drop_last().len() == 0);
    assert(s.drop_last().last() == s[1]);
    assert(s.drop_last().drop_last().last() == s[0]);
}

/// An entry gives an event if and only if its address can be read and its
/// status is of ASCII digits. The event repeats the entry: its address, method,
/// path, status and size, in either format, with a user agent or without. It is
/// an alert for the statuses from 400 to 599 and information else, and its port
/// is that of HTTPS only where the path says so.
pub proof fn events_repeat_their_entry(line: Seq<char>, e: Entry, now: Timestamp)
    requires
        access_log::entry_of(line) == Some(e),
    ensures
        ({
            let address = ip::ip_from_text(line.subrange(0, e.ip_end as int));
            let i = e.status as int;
            let plain = '0' <= line[i] <= '9' && '0' <= line[i + 1] <= '9' && '0' <= line[i + 2]
                <= '9';
            let status = (line[i] as int - 48) * 100 + (line[i + 1] as int - 48) * 10 + (line[i
                + 2] as int - 48);
            let path = line.subrange(e.path as int, e.path_end as int);
            let size = line.subrange(e.size as int, e.size_end as int);
            let ev = line_event(line, now)->0;
            &&& line_event(line, now) is Some <==> address is Some && plain
            &&& line_event(line, now) is Some ==> {
                &&& ev.timestamp == now
                &&& Some(ev.src_ip) == address
                &&& ev.http_status matches Some(n) && n == status
                &&& ev.http_method == Some(line.subrange(e.method as int, e.method_end as int))
                &&& ev.http_path == Some(path)
                &&& ev.protocol == "HTTP"@
                &&& ev.source == Source::Log
                &&& 400 <= status <= 599 ==> ev.severity == Severity::Alert
                &&& !(400 <= status <= 599) ==> ev.severity == Severity::Info
                &&& ev.dst_port == Some(443u16) || ev.dst_port == Some(80u16)
                &&& ev.dst_port == Some(443u16) <==> path.len() >= 8 && path.take(8) == "https://"@
                &&& ev.bytes matches Some(n) ==> number(size, u64::MAX as nat) == Some(n as nat)
                &&& ev.bytes is None ==> number(size, u64::MAX as nat) is None
                &&& access_log::agent_of(line, e.size_end as int) matches Some((u, v))
                    ==> ev.user_agent == Some(line.subrange(u, v))
                &&& access_log::agent_of(line, e.size_end as int) is None ==> ev.user_agent is None
            }
        }),
{
    reveal(access_log::is_entry);
    reveal_strlit("https://");
    let i = e.status as int;
    let digits = line.subrange(i, i + 3);
    three_digits(digits);
    assert(digits[0] == line[i] && digits[1] == line[i + 1] && digits[2] == line[i + 2]);
    numbers_are_digits(digits, 0xffff);
    if '0' <= line[i] <= '9' && '0' <= line[i + 1] <= '9' && '0' <= line[i + 2] <= '9' {
        assert forall|k: int| 0 <= k < digits.len() implies '0' <= #[trigger] digits[k] <= '9' by {}
    }
    let path = line.subrange(e.path as int, e.path_end as int);
    if path.len() >= 8 {
        assert(path.subrange(0, 8) =~= path.take(8));
    }
}

/// Lines that agree up to the end of the size give events that agree in
/// everything but the user agent.
pub proof fn the_rest_of_a_line_only_names_the_agent(
    a: Seq<char>,
    b: Seq<char>,
    e: Entry,
    now: Timestamp,
)
    requires
        access_log::entry_of(a) == Some(e),
        access_log::entry_of(b) == Some(e),
        a.take(e.size_end as int) == b.take(e.size_end as int),
    ensures
        line_event(a, now) is Some <==> line_event(b, now) is Some,
        line_event(a, now) is Some ==> {
            let x = line_event(a, now)->0;
            let y = line_event(b, now)->0;
            &&& x.timestamp == y.timestamp && x.src_ip == y.src_ip && x.dst_port == y.dst_port
            &&& x.protocol == y.protocol && x.http_status == y.http_status
            &&& x.http_method == y.http_method && x.http_path == y.http_path
            &&& x.bytes == y.bytes && x.source == y.source && x.severity == y.severity
        },
{
    reveal(access_log::is_entry);
    let n = e.size_end as int;
    assert forall|i: int, j: int| 0 <= i <= j <= n implies #[trigger] a.subrange(i, j)
        == b.subrange(i, j) by {
        assert(a.subrange(i, j) =~= a.take(n).subrange(i, j));
        assert(b.subrange(i, j) =~= b.take(n).subrange(i, j));
    }
}

/// What a server writes is what the dashboard gets: a line made of an address,
/// a request, a status and a size becomes the event with that address, method,
/// path, status and size, whatever follows behind a blank.
pub proof fn written_lines_are_read(
    ip: Seq<char>,
    ident: Seq<char>,
    user: Seq<char>,
    time: Seq<char>,
    method: Seq<char>,
    path: Seq<char>,
    version: Option<(char, char)>,
    status: Seq<char>,
    size: Seq<char>,
    rest: Seq<char>,
    now: Timestamp,
)
    requires
        ip::ip_from_text(ip) is Some,
        ip.len() > 0 && ident.len() > 0 && user.len() > 0 && time.len() > 0 && method.len() > 0
            && path.len() > 0 && status.len() == 3 && size.len() > 0,
        forall|k: int| 0 <= k < ip.len() ==> !text::is_space(#[trigger] ip[k]),
        forall|k: int| 0 <= k < ident.len() ==> !text::is_space(#[trigger] ident[k]),
        forall|k: int| 0 <= k < user.len() ==> !text::is_space(#[trigger] user[k]),
        forall|k: int| 0 <= k < time.len() ==> #[trigger] time[k] != ']',
        forall|k: int| 0 <= k < method.len() ==> 'A' <= #[trigger] method[k] <= 'Z',
        forall|k: int| 0 <= k < path.len() ==> !text::is_space(#[trigger] path[k]),
        version matches Some((major, minor)) ==> '0' <= major <= '9' && '0' <= minor <= '9',
        forall|k: int| 0 <= k < 3 ==> '0' <= #[trigger] status[k] <= '9',
        size == seq!['-'] || forall|k: int| 0 <= k < size.len() ==> '0' <= #[trigger] size[k]
            <= '9',
        rest.len() > 0 ==> text::is_space(rest[0]),
        (access_log::written_entry(
            access_log::written_request(ip, ident, user, time, method, path),
            version,
            status,
            size,
        ) + rest).len() <= usize::MAX,
    ensures
        ({
            let line = access_log::written_entry(
                access_log::written_request(ip, ident, user, time, method, path),
                version,
                status,
                size,
            ) + rest;
            let ev = line_event(line, now)->0;
            &&& line_event(line, now) is Some
            &&& Some(ev.src_ip) == ip::ip_from_text(ip)
            &&& ev.http_method == Some(method)
            &&& ev.http_path == Some(path)
            &&& ev.http_status matches Some(n) && n == digits_value(status)
            &&& size == seq!['-'] ==> ev.bytes is None
            &&& size != seq!['-'] && digits_value(size) <= u64::MAX ==> (ev.bytes matches Some(n) && n
                == digits_value(size))
            &&& rest.len() == 0 ==> ev.user_agent is None
        }),
{
    access_log::written_entries_are_found(
        ip,
        ident,
        user,
        time,
        method,
        path,
        version,
        status,
        size,
        rest,
    );
    let line = access_log::written_entry(
        access_log::written_request(ip, ident, user, time, method, path),
        version,
        status,
        size,
    ) + rest;
    let e = access_log::written_pieces(ip, ident, user, time, method, path, version, size);
    events_repeat_their_entry(line, e, now);
    let digits = line.subrange(e.status as int, e.status + 3);
    assert(digits[0] == line[e.status as int] && digits[1] == line[e.status + 1] && digits[2]
        == line[e.status + 2]);
    three_digits(status);
    numbers_are_digits(size, u64::MAX as nat);
    if size == seq!['-'] {
        assert(size[0] == '-');
    }
    assert(line.skip(e.size_end as int).len() == line.len() - e.size_end);
    access_log::agents_are_quoted(line, e.size_end as int);
}

/// The port that is shown: that of HTTPS for a path that begins with the name
/// of that scheme, and that of HTTP for every other.
pub proof fn only_https_has_its_port(path: Seq<char>, rest: Seq<char>)
    ensures
        http_port(Some("https://"@ + rest)) == 443,
        http_port(None) == 80,
        http_port(Some(path)) == 443 ==> path.len() >= 8 && path.take(8) == "https://"@,
        http_port(Some(path)) == 443 || http_port(Some(path)) == 80,
{
    reveal_strlit("https://");
    let p = "https://"@ + rest;
    assert(p.subrange(0, 8) =~= "https://"@);
    if path.len() >= 8 {
        assert(path.subrange(0, 8) =~= path.take(8));
    }
}

/// The severity of a status: an alert from 400 to 599, information else.
pub proof fn failed_requests_are_alerts(status: int)
    ensures
        400 <= status <= 599 ==> status_severity(status) == Severity::Alert,
        status < 400 || status > 599 ==> status_severity(status) == Severity::Info,
{
}

// ---------------------------------------------------------------------------
// From appended bytes to lines
// ---------------------------------------------------------------------------

/// The byte that ends a line.
pub const NEWLINE: u8 = 10;

/// The position of the first newline, or the length where there is none.
pub open spec fn first_newline(b: Seq<u8>) -> int
    decreases b.len(),
{
    if b.len() == 0 || b[0] == NEWLINE {
        0
    } else {
        1 + first_newline(b.skip(1))
    }
}

/// The completed lines of `b`, without their newlines and without empty ones.
pub open spec fn completed(b: Seq<u8>) -> Seq<Seq<u8>>
    decreases b.len(),
{
    let n = first_newline(b);
    if 0 <= n < b.len() {
        let rest = completed(b.skip(n + 1));
        if n == 0 {
            rest
        } else {
            seq![b.take(n)] + rest
        }
    } else {
        Seq::empty()
    }
}

/// What follows the last newline of `b`: a line still being written.
pub open spec fn unfinished(b: Seq<u8>) -> Seq<u8>
    decreases b.len(),
{
    let n = first_newline(b);
    if 0 <= n < b.len() {
        unfinished(b.skip(n + 1))
    } else {
        b
    }
}

proof fn first_newline_is_first(b: Seq<u8>)
    ensures
        0 <= first_newline(b) <= b.len(),
        first_newline(b) < b.len() ==> b[first_newline(b)] == NEWLINE,
        forall|k: int| 0 <= k < first_newline(b) ==> b[k] != NEWLINE,
    decreases b.len(),
{
    if b.len() > 0 && b[0] != NEWLINE {
        first_newline_is_first(b.skip(1));
        assert forall|k: int| 0 <= k < first_newline(b) implies b[k] != NEWLINE by {
            if k > 0 {
                assert(b.skip(1)[k - 1] == b[k]);
            }
        }
    }
}

proof fn newline_is_first_newline(b: Seq<u8>, n: int)
    requires
        0 <= n <= b.len(),
        n < b.len() ==> b[n] == NEWLINE,
        forall|k: int| 0 <= k < n ==> b[k] != NEWLINE,
    ensures
        first_newline(b) == n,
{
    first_newline_is_first(b);
    let m = first_newline(b);
    if m < n {
        assert(b[m] != NEWLINE);
    }
}

proof fn unfinished_has_no_newline(b: Seq<u8>)
    ensures
        forall|k: int| 0 <= k < unfinished(b).len() ==> unfinished(b)[k] != NEWLINE,
    decreases b.len(),
{
    first_newline_is_first(b);
    let n = first_newline(b);
    if n < b.len() {
        unfinished_has_no_newline(b.skip(n + 1));
        assert(unfinished(b) == unfinished(b.skip(n + 1)));
    } else {
        assert(unfinished(b) == b);
    }
}

/// How appended bytes are cut into reads makes no difference: reading `a` and
/// then `b` completes the lines that reading both at once completes, and
/// leaves the same unfinished line.
pub proof fn reads_can_be_split(a: Seq<u8>, b: Seq<u8>)
    ensures
        completed(a + b) == completed(a) + completed(unfinished(a) + b),
        unfinished(a + b) == unfinished(unfinished(a) + b),
    decreases a.len(),
{
    first_newline_is_first(a);
    let n = first_newline(a);
    if n < a.len() {
        newline_is_first_newline(a + b, n);
        assert((a + b).take(n) =~= a.take(n));
        assert((a + b).skip(n + 1) =~= a.skip(n + 1) + b);
        reads_can_be_split(a.skip(n + 1), b);
    } else {
        assert(completed(a) =~= Seq::empty());
    }
}

/// A newline completes the unfinished line; any other byte extends it.
proof fn one_more_byte(a: Seq<u8>, c: u8)
    ensures
        completed(a.push(c)) == if c == NEWLINE && unfinished(a).len() > 0 {
            completed(a).push(unfinished(a))
        } else {
            completed(a)
        },
        unfinished(a.push(c)) == if c == NEWLINE {
            Seq::empty()
        } else {
            unfinished(a).push(c)
        },
{
    let u = unfinished(a);
    assert(a.push(c) =~= a + seq![c]);
    assert(u.push(c) =~= u + seq![c]);
    reads_can_be_split(a, seq![c]);
    unfinished_has_no_newline(a);
    if c == NEWLINE {
        newline_is_first_newline(u.push(c), u.len() as int);
        assert(u.push(c).take(u.len() as int) =~= u);
        assert(u.push(c).skip(u.len() as int + 1) =~= Seq::empty());
        assert(completed(Seq::<u8>::empty()) =~= Seq::empty());
        assert(unfinished(Seq::<u8>::empty()) =~= Seq::empty());
        assert(unfinished(u.push(c)) =~= Seq::empty());
        if u.len() > 0 {
            assert(completed(u.push(c)) =~= seq![u]);
        }
    } else {
        newline_is_first_newline(u.push(c), u.len() as int + 1);
        assert(unfinished(u.push(c)) == u.push(c));
        assert(completed(u.push(c)) =~= Seq::empty());
    }
}

/// Nothing is lost and nothing is made up: the completed lines are those pieces
/// between newlines that are not empty, in order, and what is unfinished is
/// what follows the last newline. So a byte that is no newline extends the
/// unfinished line, and a newline completes it, if there is anything of it.
pub proof fn lines_end_at_newlines(b: Seq<u8>, c: u8)
    ensures
        completed(Seq::empty()).len() == 0,
        unfinished(Seq::empty()).len() == 0,
        c != 10 ==> completed(b.push(c)) == completed(b) && unfinished(b.push(c)) == unfinished(
            b,
        ).push(c),
        c == 10 ==> unfinished(b.push(c)).len() == 0,
        c == 10 && unfinished(b).len() == 0 ==> completed(b.push(c)) == completed(b),
        c == 10 && unfinished(b).len() > 0 ==> completed(b.push(c)) == completed(b).push(
            unfinished(b),
        ),
{
    one_more_byte(b, c);
}

/// No line that is handed on is empty or holds a newline, and neither does the
/// unfinished one hold one.
pub proof fn lines_hold_no_newline(b: Seq<u8>, i: int, k: int)
    ensures
        0 <= i < completed(b).len() ==> completed(b)[i].len() > 0,
        0 <= i < completed(b).len() && 0 <= k < completed(b)[i].len() ==> completed(b)[i][k] != 10,
        0 <= k < unfinished(b).len() ==> unfinished(b)[k] != 10,
    decreases b.len(),
{
    if b.len() > 0 {
        let init = b.drop_last();
        lines_hold_no_newline(init, i, k);
        lines_hold_no_newline(init, i, i);
        one_more_byte(init, b.last());
        assert(init.push(b.last()) =~= b);
        unfinished_has_no_newline(init);
        unfinished_has_no_newline(b);
    }
}

/// The text that std reads from bytes that may not be UTF-8, with U+FFFD for
/// what is not.
pub uninterp spec fn lossy_text(bytes: Seq<u8>) -> Seq<char>;

/// Wraps `String::from_utf8_lossy`. The result depends on the bytes alone, and
/// is their text where they are valid UTF-8.
#[verifier::external_body]
fn decode_lossy(bytes: &Vec<u8>) -> (decoded: String)
    ensures
        decoded@ == lossy_text(bytes@),
        vstd::utf8::valid_utf8(bytes@) ==> decoded@ == vstd::utf8::decode_utf8(bytes@),
{
    String::from_utf8_lossy(bytes).into_owned()
}

/// The texts of a list of byte lines.
pub open spec fn decoded(lines: Seq<Seq<u8>>) -> Seq<Seq<char>> {
    lines.map_values(|l: Seq<u8>| lossy_text(l))
}

/// Whether texts are those of the byte lines, wherever these are valid UTF-8.
pub open spec fn faithful(lines: Seq<Seq<u8>>, texts: Seq<Seq<char>>) -> bool {
    forall|i: int|
        0 <= i < lines.len() && vstd::utf8::valid_utf8(#[trigger] lines[i]) ==> texts[i]
            == vstd::utf8::decode_utf8(lines[i])
}

/// How far a log file has been read.
#[derive(Debug)]
pub struct LogCursor {
    /// Bytes of the file that were read.
    pub offset: u64,
    /// The bytes read of a line that is not finished.
    pub partial: Vec<u8>,
}

impl LogCursor {
    /// Whether the unfinished line is a single line.
    pub open spec fn well_formed(&self) -> bool {
        forall|k: int| 0 <= k < self.partial@.len() ==> self.partial@[k] != NEWLINE
    }

    /// A cursor behind the `len` bytes that the file already holds.
    pub fn at_end(len: u64) -> (cursor: LogCursor)
        ensures
            cursor.well_formed(),
            cursor.offset == len,
            cursor.partial@ == Seq::<u8>::empty(),
    {
        LogCursor { offset: len, partial: Vec::new() }
    }

    /// Where to go on reading a file that now holds `len` bytes, or `None` if
    /// nothing was appended. A file that shrank was rotated or truncated: it
    /// is read from the start, and the unfinished line is forgotten.
    pub fn next_read(&mut self, len: u64) -> (from: Option<u64>)
        requires
            old(self).well_formed(),
        ensures
            final(self).well_formed(),
            len < old(self).offset ==> final(self).offset == 0 && final(self).partial@ == Seq::<
                u8,
            >::empty(),
            len >= old(self).offset ==> *final(self) == *old(self),
            from == if len == final(self).offset {
                None
            } else {
                Some(final(self).offset)
            },
            (final(self).offset, final(self).partial@, from) == resumed(
                old(self).offset,
                old(self).partial@,
                len,
            ),
    {
        if len < self.offset {
            self.offset = 0;
            self.partial = Vec::new();
        }
        if len == self.offset {
            None
        } else {
            Some(self.offset)
        }
    }

    /// Takes the bytes that were read from the cursor's offset on, and returns
    /// the lines that they complete. The line that is not finished is kept
    /// until its newline arrives.
    pub fn take_lines(&mut self, bytes: &Vec<u8>) -> (lines: Vec<String>)
        requires
            old(self).offset + bytes@.len() <= u64::MAX,
            old(self).well_formed(),
        ensures
            final(self).well_formed(),
            final(self).offset == old(self).offset + bytes@.len(),
            final(self).partial@ == unfinished(old(self).partial@ + bytes@),
            text::texts(lines@) == decoded(completed(old(self).partial@ + bytes@)),
            faithful(completed(old(self).partial@ + bytes@), text::texts(lines@)),
    {
        let ghost before = self.partial@;
        let mut partial: Vec<u8> = Vec::new();
        std::mem::swap(&mut partial, &mut self.partial);
        let mut lines: Vec<String> = Vec::new();
        proof {
            newline_is_first_newline(before, before.len() as int);
            assert(before + bytes@.take(0) =~= before);
            assert(decoded(completed(before)) =~= Seq::empty());
            assert(text::texts(lines@) =~= Seq::empty());
        }
        let mut i: usize = 0;
        while i < bytes.len()
            invariant
                i <= bytes@.len(),
                partial@ == unfinished(before + bytes@.take(i as int)),
                text::texts(lines@) == decoded(completed(before + bytes@.take(i as int))),
                faithful(completed(before + bytes@.take(i as int)), text::texts(lines@)),
            decreases bytes@.len() - i,
        {
            let c: u8 = bytes[i];
            proof {
                let a = before + bytes@.take(i as int);
                one_more_byte(a, c);
                assert(before + bytes@.take(i + 1) =~= a.push(c));
            }
            let ghost done = completed(before + bytes@.take(i as int));
            let ghost emitted = lines@;
            if c == NEWLINE {
                if partial.len() > 0 {
                    let line: String = decode_lossy(&partial);
                    proof {
                        assert(text::texts(emitted.push(line)) =~= text::texts(emitted).push(line@));
                        assert(decoded(done.push(partial@)) =~= decoded(done).push(
                            lossy_text(partial@),
                        ));
                    }
                    lines.push(line);
                }
                partial = Vec::new();
            } else {
                partial.push(c);
            }
            i = i + 1;
        }
        assert(bytes@.take(bytes@.len() as int) =~= bytes@);
        proof {
            unfinished_has_no_newline(before + bytes@);
        }
        self.partial = partial;
        self.offset = self.offset + bytes.len() as u64;
        lines
    }
}

/// The offset and the unfinished line of a cursor that finds `len` bytes in its
/// file, and where it goes on reading.
pub open spec fn resumed(offset: u64, partial: Seq<u8>, len: u64) -> (u64, Seq<u8>, Option<u64>) {
    if len < offset {
        (
            0,
            Seq::empty(),
            if len == 0 {
                None
            } else {
                Some(0)
            },
        )
    } else if len == offset {
        (offset, partial, None)
    } else {
        (offset, partial, Some(offset))
    }
}

/// A file that grew is read on from where the cursor stands, one that shrank
/// from its start, and one that did not change not at all. An unfinished line
/// is kept but where the file shrank.
pub proof fn files_are_read_on(offset: u64, partial: Seq<u8>, len: u64)
    ensures
        len > offset ==> resumed(offset, partial, len).2 == Some(offset),
        len < offset && len > 0 ==> resumed(offset, partial, len).2 == Some(0u64),
        len == offset || len == 0 ==> resumed(offset, partial, len).2 is None,
        len >= offset ==> resumed(offset, partial, len).0 == offset && resumed(
            offset,
            partial,
            len,
        ).1 == partial,
        len < offset ==> resumed(offset, partial, len).0 == 0 && resumed(offset, partial, len).1.len()
            == 0,
{
}

} // verus!
