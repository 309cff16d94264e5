//! Events: addresses, access logs, packets.

use geotop::clock::{clock_text, Timestamp};
use geotop::event::{is_plottable_ip, ConnectionEvent, Severity, Source};
use geotop::ingest::access_log::{find_agent, find_entry};
use geotop::ingest::log_tailer::{detect_http_port, parse_line, parse_line_at, LogCursor};
use geotop::ingest::pcap_sniffer::{is_listed, parse_frame, parse_frame_at, tcp_udp_info};
use geotop::ip::IpAddr;

const NOON: Timestamp = Timestamp { secs: 43_200, nanos: 0 };

fn ip(text: &str) -> IpAddr {
    IpAddr::from_text(text).unwrap()
}

#[test]
fn plottable_public_ips() {
    assert!(is_plottable_ip(ip("8.8.8.8")));
    assert!(is_plottable_ip(ip("1.1.1.1")));
    assert!(is_plottable_ip(ip("2001:4860:4860::8888")));
}

#[test]
fn unplottable_private_and_reserved_ips() {
    assert!(!is_plottable_ip(ip("0.0.0.0")));
    assert!(!is_plottable_ip(ip("127.0.0.1")));
    assert!(!is_plottable_ip(ip("10.0.0.1")));
    assert!(!is_plottable_ip(ip("172.16.0.1")));
    assert!(!is_plottable_ip(ip("192.168.1.1")));
    assert!(!is_plottable_ip(ip("169.254.1.1")));
    assert!(!is_plottable_ip(ip("::")));
    assert!(!is_plottable_ip(ip("::1")));
    assert!(!is_plottable_ip(ip("fe80::1")));
    assert!(!is_plottable_ip(ip("fc00::1")));
}

#[test]
fn edges_of_the_reserved_ranges() {
    for (text, yes) in [
        ("9.255.255.255", true),
        ("10.255.255.255", false),
        ("11.0.0.0", true),
        ("172.15.255.255", true),
        ("172.31.255.255", false),
        ("172.32.0.0", true),
        ("192.167.255.255", true),
        ("192.169.0.0", true),
        ("169.253.255.255", true),
        ("169.255.0.0", true),
        ("126.255.255.255", true),
        ("128.0.0.0", true),
        ("febf::1", false),
        ("fec0::1", true),
        ("fdff::1", false),
        ("fe00::1", true),
    ] {
        assert_eq!(is_plottable_ip(ip(text)), yes, "{}", text);
    }
}

#[test]
fn addresses_as_text() {
    assert_eq!(IpAddr::v4(1, 2, 3, 4), IpAddr::V4(0x01020304));
    assert_eq!(ip("1.2.3.4"), IpAddr::v4(1, 2, 3, 4));
    assert_eq!(IpAddr::v4(192, 0, 2, 255).to_text(), "192.0.2.255");
    assert_eq!(ip("2001:DB8:0:0:0:0:0:1").to_text(), "2001:db8::1");
    assert_eq!(ip("::ffff:1.2.3.4").to_text(), "::ffff:1.2.3.4");
    for bad in ["", "1.2.3", "1.2.3.256", "01.2.3.4", " 1.2.3.4", "1.2.3.4:80", "g::1", "localhost"] {
        assert_eq!(IpAddr::from_text(bad), None, "{}", bad);
    }
    for text in ["0.0.0.0", "255.255.255.255", "::", "fe80::1", "1:2:3:4:5:6:7:8"] {
        assert_eq!(ip(text).to_text(), text);
    }
}

#[test]
fn keys_differ_between_families() {
    assert_ne!(ip("0.0.0.1").key(), ip("::1").key());
    assert_eq!(ip("0.0.0.1").key(), IpAddr::v4(0, 0, 0, 1).key());
}

#[test]
fn time_of_day_is_utc() {
    assert_eq!(clock_text(Timestamp { secs: 0, nanos: 0 }), "00:00:00");
    assert_eq!(clock_text(NOON), "12:00:00");
    assert_eq!(clock_text(Timestamp { secs: 86_399, nanos: 999_999_999 }), "23:59:59");
    assert_eq!(clock_text(Timestamp { secs: -1, nanos: 0 }), "23:59:59");
    assert_eq!(clock_text(Timestamp { secs: 1_700_000_000, nanos: 5 }), "22:13:20");
}

#[test]
fn invalid_instants() {
    assert!(NOON.is_valid());
    assert!(!Timestamp { secs: i64::MAX, nanos: 0 }.is_valid());
    assert!(!Timestamp { secs: i64::MIN, nanos: 0 }.is_valid());
    assert!(!Timestamp { secs: 0, nanos: 2_000_000_000 }.is_valid());
}

fn event(status: Option<u16>, method: Option<&str>, port: Option<u16>) -> ConnectionEvent {
    ConnectionEvent {
        timestamp: NOON,
        src_ip: ip("1.2.3.4"),
        dst_port: port,
        protocol: "HTTP".to_string(),
        http_status: status,
        http_method: method.map(|m| m.to_string()),
        http_path: None,
        user_agent: None,
        bytes: None,
        source: Source::Log,
        severity: Severity::Info,
    }
}

#[test]
fn event_summaries() {
    assert_eq!(event(Some(200), Some("GET"), Some(80)).summary(), "[LOG ] 1.2.3.4:80 HTTP GET 200");
    assert_eq!(event(Some(200), None, Some(443)).summary(), "[LOG ] 1.2.3.4:443 HTTP 200");
    assert_eq!(event(None, Some("GET"), None).summary(), "[LOG ] 1.2.3.4     HTTP");
    assert_eq!(Source::Log.label(), "LOG ");
    assert_eq!(Source::Pcap.label(), "PCAP");
    assert_eq!(Severity::Info.label(), "INFO");
    assert_eq!(Severity::Warn.label(), "WARN");
    assert_eq!(Severity::Alert.label(), "ALRT");
}

const COMBINED: &str = r#"93.184.216.34 - bob [10/Oct/2024:13:55:36 -0700] "GET /a/b?c=d HTTP/1.1" 200 2326 "http://ref/" "Mozilla/5.0 (X11)""#;

#[test]
fn combined_log_line() {
    let ev = parse_line_at(COMBINED, NOON).unwrap();
    assert_eq!(ev.timestamp, NOON);
    assert_eq!(ev.src_ip, ip("93.184.216.34"));
    assert_eq!(ev.dst_port, Some(80));
    assert_eq!(ev.protocol, "HTTP");
    assert_eq!(ev.http_status, Some(200));
    assert_eq!(ev.http_method.as_deref(), Some("GET"));
    assert_eq!(ev.http_path.as_deref(), Some("/a/b?c=d"));
    assert_eq!(ev.user_agent.as_deref(), Some("Mozilla/5.0 (X11)"));
    assert_eq!(ev.bytes, Some(2326));
    assert_eq!(ev.source, Source::Log);
    assert_eq!(ev.severity, Severity::Info);
}

#[test]
fn common_log_line() {
    let line = r#"2001:db8::7 - - [t] "POST https://x/y" 503 -"#;
    let ev = parse_line_at(line, NOON).unwrap();
    assert_eq!(ev.src_ip, ip("2001:db8::7"));
    assert_eq!(ev.dst_port, Some(443));
    assert_eq!(ev.http_method.as_deref(), Some("POST"));
    assert_eq!(ev.user_agent, None);
    assert_eq!(ev.bytes, None);
    assert_eq!(ev.severity, Severity::Alert);
}

#[test]
fn severity_follows_the_status() {
    for (status, severity) in [
        ("200", Severity::Info),
        ("301", Severity::Info),
        ("399", Severity::Info),
        ("400", Severity::Alert),
        ("404", Severity::Alert),
        ("500", Severity::Alert),
        ("599", Severity::Alert),
        ("600", Severity::Info),
    ] {
        let line = format!("1.2.3.4 - - [t] \"GET /\" {} 1", status);
        assert_eq!(parse_line_at(&line, NOON).unwrap().severity, severity, "{}", status);
    }
}

#[test]
fn lines_that_are_no_entries() {
    for line in [
        "",
        "hello",
        r#"example.com - - [t] "GET /" 200 1"#,
        r#"1.2.3.4 - - [] "GET /" 200 1"#,
        r#"1.2.3.4 - - [t] "get /" 200 1"#,
        r#"1.2.3.4 - - [t] "GET" 200 1"#,
        r#"1.2.3.4 - - [t] "GET /" 20 1"#,
        r#"1.2.3.4 - - [t] "GET /" 200"#,
        r#" 1.2.3.4 - - [t] "GET /" 200 1"#,
        r#"1.2.3.4 - - [t] "GET / HTTP/11" 200 1"#,
    ] {
        assert!(parse_line_at(line, NOON).is_none(), "{}", line);
    }
}

#[test]
fn too_large_sizes_are_unknown() {
    let line = r#"1.2.3.4 - - [t] "GET /" 200 99999999999999999999999"#;
    let ev = parse_line_at(line, NOON).unwrap();
    assert_eq!(ev.bytes, None);
    let line = r#"1.2.3.4 - - [t] "GET /" 200 18446744073709551615"#;
    assert_eq!(parse_line_at(line, NOON).unwrap().bytes, Some(u64::MAX));
}

#[test]
fn lines_are_stamped_with_the_present() {
    let before = Timestamp { secs: chrono::Utc::now().timestamp(), nanos: 0 };
    let ev = parse_line(COMBINED).unwrap();
    assert!(ev.timestamp.is_valid());
    assert!(ev.timestamp.secs >= before.secs);
    assert!(ev.timestamp.secs <= chrono::Utc::now().timestamp());
    assert_eq!(ev.src_ip, ip("93.184.216.34"));
    assert!(parse_line("nonsense").is_none());
}

const COMBINED_LOG_RE: &str = r#"^(?P<ip>\S+)\s+\S+\s+\S+\s+\[(?P<time>[^\]]+)\]\s+"(?P<method>[A-Z]+)\s+(?P<path>\S+)(?:\s+HTTP/\d\.\d)?"\s+(?P<status>\d{3})\s+(?P<size>\d+|-)\s+(?:"[^"]*")?\s+"(?P<ua>[^"]*)""#;

const COMMON_LOG_RE: &str = r#"^(?P<ip>\S+)\s+\S+\s+\S+\s+\[(?P<time>[^\]]+)\]\s+"(?P<method>[A-Z]+)\s+(?P<path>\S+)(?:\s+HTTP/\d\.\d)?"\s+(?P<status>\d{3})\s+(?P<size>\d+|-)"#;

/// What the two patterns say of a line: method, path, status, size, agent.
fn by_pattern(line: &str, combined: &regex::Regex, common: &regex::Regex) -> Option<Vec<String>> {
    let caps = combined.captures(line).or_else(|| common.captures(line))?;
    Some(
        ["ip", "method", "path", "status", "size", "ua"]
            .iter()
            .map(|n| caps.name(n).map_or("<none>".to_string(), |m| m.as_str().to_string()))
            .collect(),
    )
}

fn by_library(line: &str) -> Option<Vec<String>> {
    let chars: Vec<char> = line.chars().collect();
    let e = find_entry(&chars)?;
    let part = |a: usize, b: usize| -> String { chars[a..b].iter().collect() };
    let agent = find_agent(&chars, e.size_end);
    Some(vec![
        part(0, e.ip_end),
        part(e.method, e.method_end),
        part(e.path, e.path_end),
        part(e.status, e.status + 3),
        part(e.size, e.size_end),
        agent.map_or("<none>".to_string(), |(a, b)| part(a, b)),
    ])
}

#[test]
fn entries_match_the_documented_patterns() {
    let combined = regex::Regex::new(COMBINED_LOG_RE).unwrap();
    let common = regex::Regex::new(COMMON_LOG_RE).unwrap();
    // Every line of these pieces, with one of them left out or doubled.
    let pieces: [&str; 22] = [
        "1.2.3.4", " ", "-", "\u{a0}", "u", " ", "[", "10/Oct", "]", " ", "\"", "GET", " ", "/p\"q",
        " HTTP/1.\u{664}", "\"", " ", "200", " ", "12", " \"r\" \"ua\"", " x",
    ];
    let mut seen = 0;
    for skip in 0..pieces.len() {
        for double in 0..pieces.len() {
            let mut line = String::new();
            for (i, p) in pieces.iter().enumerate() {
                if i != skip {
                    line.push_str(p);
                }
                if i == double {
                    line.push_str(p);
                }
            }
            let expected = by_pattern(&line, &combined, &common);
            if expected.is_some() {
                seen += 1;
            }
            assert_eq!(by_library(&line), expected, "{:?}", line);
        }
    }
    assert!(seen > 20);
}

#[test]
fn ambiguous_lines_match_the_documented_patterns() {
    let combined = regex::Regex::new(COMBINED_LOG_RE).unwrap();
    let common = regex::Regex::new(COMMON_LOG_RE).unwrap();
    for line in [
        COMBINED,
        r#"1.2.3.4 - - [t] "GET /"x" HTTP/1.0" 200 5"#,
        r#"1.2.3.4 - - [t] "GET /" 200 5" 404 6 "" "a""#,
        r#"1.2.3.4 - - [t] "GET /" 2000 5"#,
        r#"1.2.3.4 - - [t] "GET /" 200 5 "only""#,
        r#"1.2.3.4 - - [t] "GET /" 200 5  "only""#,
        r#"1.2.3.4 - - [t] "GET /" 200 5 "a""b""#,
        r#"1.2.3.4 - - [t] "GET /" 200 5 "a" "b" "c""#,
        r#"1.2.3.4 - - [t] "GET /" 200 5 "" """#,
        r#"1.2.3.4 - - [t] "GET /" 200 -5 "a" "b""#,
        r#"1.2.3.4 - - [t[u] "GET /" 200 5"#,
        r#"1.2.3.4 - - [t]u] "GET /" 200 5"#,
        r#"1.2.3.4 a b c [t] "GET /" 200 5"#,
        r#"1.2.3.4 - - [t] "GET / HTTP/1.1 HTTP/1.1" 200 5"#,
        r#"1.2.3.4 - - [t] "GETx /" 200 5"#,
        r#"1.2.3.4 - - [t] "GET  HTTP/1.1" 200 5"#,
        "1.2.3.4\t-\u{2003}-\u{85}[t]\u{b}\"GET\u{c}/\"\n200\r-",
        "1.2.3.4 - - [t] \"GET /\" \u{0661}\u{0662}\u{0663} \u{0967}",
    ] {
        assert_eq!(by_library(line), by_pattern(line, &combined, &common), "{:?}", line);
    }
}

#[test]
fn ports_by_scheme() {
    assert_eq!(detect_http_port(None), 80);
    assert_eq!(detect_http_port(Some("/index.html")), 80);
    assert_eq!(detect_http_port(Some("http://a")), 80);
    assert_eq!(detect_http_port(Some("https://a")), 443);
    assert_eq!(detect_http_port(Some("HTTPS://a")), 80);
}

#[test]
fn log_files_are_followed() {
    let mut cursor = LogCursor::at_end(10);
    assert_eq!(cursor.next_read(10), None);
    assert_eq!(cursor.next_read(16), Some(10));
    assert_eq!(cursor.take_lines(&b"ab\n\ncd".to_vec()), vec!["ab".to_string()]);
    assert_eq!(cursor.offset, 16);
    // The rest of the line.
    assert_eq!(cursor.next_read(19), Some(16));
    assert_eq!(cursor.take_lines(&b"ef\n".to_vec()), vec!["cdef".to_string()]);
    assert_eq!(cursor.next_read(19), None);
}

#[test]
fn rotated_files_start_over() {
    let mut cursor = LogCursor::at_end(0);
    assert_eq!(cursor.next_read(3), Some(0));
    assert_eq!(cursor.take_lines(&b"abc".to_vec()), Vec::<String>::new());
    assert_eq!(cursor.next_read(2), Some(0));
    assert_eq!(cursor.take_lines(&b"x\n".to_vec()), vec!["x".to_string()]);
    let mut cursor = LogCursor::at_end(5);
    assert_eq!(cursor.next_read(0), None);
    assert_eq!(cursor.next_read(1), Some(0));
}

#[test]
fn damaged_text_is_repaired() {
    let mut cursor = LogCursor::at_end(0);
    assert_eq!(cursor.next_read(4), Some(0));
    assert_eq!(cursor.take_lines(&vec![b'a', 0xff, b'b', b'\n']), vec!["a\u{fffd}b".to_string()]);
}

#[test]
fn sound_text_is_kept() {
    let mut cursor = LogCursor::at_end(0);
    let text = "caf\u{e9} \u{4e2d}\u{6587} \u{1f3e0}\nplain\n".as_bytes().to_vec();
    assert_eq!(cursor.next_read(text.len() as u64), Some(0));
    assert_eq!(
        cursor.take_lines(&text),
        vec!["caf\u{e9} \u{4e2d}\u{6587} \u{1f3e0}".to_string(), "plain".to_string()]
    );
}

#[test]
fn reads_may_come_in_pieces() {
    let all = b"one\ntwo\nthr\xc3\xa9e\nrest".to_vec();
    let mut whole = LogCursor::at_end(0);
    whole.next_read(all.len() as u64);
    let expected = whole.take_lines(&all);
    for cut in 0..=all.len() {
        let mut cursor = LogCursor::at_end(0);
        let mut lines = Vec::new();
        if cursor.next_read(cut as u64).is_some() {
            lines.extend(cursor.take_lines(&all[..cut].to_vec()));
        }
        if cursor.next_read(all.len() as u64).is_some() {
            lines.extend(cursor.take_lines(&all[cut..].to_vec()));
        }
        assert_eq!(lines, expected, "{}", cut);
        assert_eq!(cursor.partial, b"rest");
    }
}

/// An Ethernet frame with an IPv4 packet of the given protocol.
fn ipv4_frame(protocol: u8, payload: &[u8]) -> Vec<u8> {
    let mut f = vec![0u8; 12];
    f.extend([0x08, 0x00]);
    let total = 20 + payload.len() as u16;
    f.extend([0x45, 0]);
    f.extend(total.to_be_bytes());
    f.extend([0, 0, 0, 0, 64, protocol, 0, 0]);
    f.extend([203, 0, 113, 9]);
    f.extend([10, 0, 0, 1]);
    f.extend(payload);
    f
}

/// A TCP header to the given port.
fn tcp(port: u16) -> Vec<u8> {
    let mut p = vec![0x30, 0x39];
    p.extend(port.to_be_bytes());
    p.extend([0, 0, 0, 0, 0, 0, 0, 0, 0x50, 0, 0, 0, 0, 0, 0, 0]);
    p
}

#[test]
fn tcp_packets() {
    let frame = ipv4_frame(6, &tcp(443));
    let ev = parse_frame_at(&frame, NOON).unwrap();
    assert_eq!(ev.timestamp, NOON);
    assert_eq!(ev.src_ip, ip("203.0.113.9"));
    assert_eq!(ev.dst_port, Some(443));
    assert_eq!(ev.protocol, "TCP");
    assert_eq!(ev.bytes, Some(frame.len() as u64));
    assert_eq!(ev.source, Source::Pcap);
    assert_eq!(ev.severity, Severity::Info);
    assert!(ev.http_status.is_none() && ev.http_method.is_none());
    assert!(ev.http_path.is_none() && ev.user_agent.is_none());
    assert_eq!(parse_frame(&frame).unwrap().dst_port, Some(443));
}

#[test]
fn admin_and_attack_ports() {
    for (port, severity) in [
        (22, Severity::Warn),
        (3389, Severity::Warn),
        (5900, Severity::Warn),
        (23, Severity::Alert),
        (445, Severity::Alert),
        (1433, Severity::Alert),
        (80, Severity::Info),
        (0, Severity::Info),
    ] {
        let ev = parse_frame_at(&ipv4_frame(6, &tcp(port)), NOON).unwrap();
        assert_eq!(ev.severity, severity, "{}", port);
    }
}

#[test]
fn other_protocols() {
    let udp = vec![0, 1, 0, 53, 0, 8, 0, 0];
    let ev = parse_frame_at(&ipv4_frame(17, &udp), NOON).unwrap();
    assert_eq!((ev.protocol.as_str(), ev.dst_port), ("UDP", Some(53)));
    let ev = parse_frame_at(&ipv4_frame(17, &udp[..7]), NOON).unwrap();
    assert_eq!((ev.protocol.as_str(), ev.dst_port), ("UDP", None));
    let ev = parse_frame_at(&ipv4_frame(6, &tcp(22)[..19]), NOON).unwrap();
    assert_eq!((ev.protocol.as_str(), ev.dst_port, ev.severity), ("TCP", None, Severity::Info));
    let ev = parse_frame_at(&ipv4_frame(1, &[]), NOON).unwrap();
    assert_eq!((ev.protocol.as_str(), ev.dst_port), ("ICMP", None));
    let ev = parse_frame_at(&ipv4_frame(58, &[]), NOON).unwrap();
    assert_eq!(ev.protocol, "ICMP");
    let other = pnet::packet::ip::IpNextHeaderProtocol::new(47);
    let ev = parse_frame_at(&ipv4_frame(47, &[]), NOON).unwrap();
    assert_eq!(ev.protocol, format!("IP/{}", other));
    assert_eq!(tcp_udp_info(17, &udp).1, Some(53));
}

#[test]
fn ipv6_packets() {
    let mut f = vec![0u8; 12];
    f.extend([0x86, 0xdd, 0x60, 0, 0, 0, 0, 8, 17, 64]);
    f.extend([0x20, 0x01, 0x0d, 0xb8, 0, 0, 0, 0, 0, 0, 0, 0, 0, 0, 0, 7]);
    f.extend([0u8; 16]);
    f.extend([0, 1, 0x14, 0xe9, 0, 8, 0, 0]);
    let ev = parse_frame_at(&f, NOON).unwrap();
    assert_eq!(ev.src_ip, ip("2001:db8::7"));
    assert_eq!((ev.protocol.as_str(), ev.dst_port), ("UDP", Some(5353)));
}

#[test]
fn frames_that_are_no_events() {
    assert!(parse_frame_at(&[], NOON).is_none());
    assert!(parse_frame_at(&[0; 13], NOON).is_none());
    // ARP.
    let mut arp = ipv4_frame(6, &tcp(80));
    arp[13] = 6;
    assert!(parse_frame_at(&arp, NOON).is_none());
    // Cut off inside the address header.
    assert!(parse_frame_at(&ipv4_frame(6, &[])[..33], NOON).is_none());
    let mut six = ipv4_frame(6, &tcp(80));
    six[12] = 0x86;
    six[13] = 0xdd;
    assert!(parse_frame_at(&six[..53], NOON).is_none());
}

#[test]
fn interfaces_that_are_listed() {
    assert!(is_listed("eth0", false));
    assert!(!is_listed("lo", true));
    assert!(!is_listed("", false));
}
