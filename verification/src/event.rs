//! The events that flow from the ingestion workers to the dashboard.
//!
//! The packet sniffer and the log tailer both produce a normalised
//! [`ConnectionEvent`].

use vstd::prelude::*;
use vstd::string::StringExecFns;

use crate::clock::Timestamp;
use crate::ip;
use crate::ip::IpAddr;
use crate::text;

verus! {

/// Where an event came from.
#[derive(Clone, Copy, Debug, PartialEq, Eq, Structural)]
pub enum Source {
    /// Packet sniffed from a network interface.
    Pcap,
    /// Parsed from a web server access log (nginx/apache).
    Log,
}

impl Source {
    /// The four-character tag of a source.
    pub open spec fn tag(self) -> Seq<char> {
        match self {
            Source::Pcap => "PCAP"@,
            Source::Log => "LOG "@,
        }
    }

    /// The four-character tag of a source.
    pub fn label(self) -> (text: &'static str)
        ensures
            text@ == self.tag(),
    {
        match self {
            Source::Pcap => "PCAP",
            Source::Log => "LOG ",
        }
    }
}

/// Visual category of a connection on the map.
#[derive(Clone, Copy, Debug, PartialEq, Eq, Structural)]
pub enum Severity {
    /// Normal traffic: green.
    Info,
    /// Elevated traffic, many requests: yellow.
    Warn,
    /// Suspicious, proxy, datacenter or 4xx-5xx traffic: red.
    Alert,
}

impl Severity {
    /// The four-character tag of a severity.
    pub open spec fn tag(self) -> Seq<char> {
        match self {
            Severity::Info => "INFO"@,
            Severity::Warn => "WARN"@,
            Severity::Alert => "ALRT"@,
        }
    }

    /// The four-character tag of a severity.
    pub fn label(self) -> (text: &'static str)
        ensures
            text@ == self.tag(),
    {
        match self {
            Severity::Info => "INFO",
            Severity::Warn => "WARN",
            Severity::Alert => "ALRT",
        }
    }
}

/// A single connection event.
#[derive(Debug)]
pub struct ConnectionEvent {
    /// Wall-clock time the event was observed.
    pub timestamp: Timestamp,
    /// Originating IP address.
    pub src_ip: IpAddr,
    /// Best-effort destination port (HTTP 80/443 from logs, real port from
    /// packets).
    pub dst_port: Option<u16>,
    /// Protocol (`"TCP"`, `"UDP"`, `"HTTP"`, ...).
    pub protocol: String,
    /// HTTP status code, from logs only.
    pub http_status: Option<u16>,
    /// HTTP method, from logs only.
    pub http_method: Option<String>,
    /// HTTP path, from logs only.
    pub http_path: Option<String>,
    /// User agent, from logs only.
    pub user_agent: Option<String>,
    /// Size in bytes of the request or packet payload, if known.
    pub bytes: Option<u64>,
    /// What subsystem produced the event.
    pub source: Source,
    /// Severity derived from the event alone.
    pub severity: Severity,
}

/// What a [`ConnectionEvent`] says, with its texts as character sequences.
#[verifier::ext_equal]
pub struct EventView {
    pub timestamp: Timestamp,
    pub src_ip: IpAddr,
    pub dst_port: Option<u16>,
    pub protocol: Seq<char>,
    pub http_status: Option<u16>,
    pub http_method: Option<Seq<char>>,
    pub http_path: Option<Seq<char>>,
    pub user_agent: Option<Seq<char>>,
    pub bytes: Option<u64>,
    pub source: Source,
    pub severity: Severity,
}

impl View for ConnectionEvent {
    type V = EventView;

    open spec fn view(&self) -> EventView {
        EventView {
            timestamp: self.timestamp,
            src_ip: self.src_ip,
            dst_port: self.dst_port,
            protocol: self.protocol@,
            http_status: self.http_status,
            http_method: text::text_of(self.http_method),
            http_path: text::text_of(self.http_path),
            user_agent: text::text_of(self.user_agent),
            bytes: self.bytes,
            source: self.source,
            severity: self.severity,
        }
    }
}

/// The view of an optional event.
pub open spec fn event_view(ev: Option<ConnectionEvent>) -> Option<EventView> {
    match ev {
        Some(e) => Some(e@),
        None => None,
    }
}

/// Whether an address can sensibly be geolocated and plotted on the world map.
///
/// Not so the unspecified addresses, the loopback addresses (127.0.0.0/8 and
/// ::1), the private networks (10.0.0.0/8, 172.16.0.0/12, 192.168.0.0/16 and
/// fc00::/7) and the link-local ones (169.254.0.0/16 and fe80::/10).
pub open spec fn plottable(ip: IpAddr) -> bool {
    match ip {
        IpAddr::V4(bits) => {
            &&& bits != 0
            &&& ip::octet(bits, 0) != 127
            &&& ip::octet(bits, 0) != 10
            &&& !(ip::octet(bits, 0) == 172 && 16 <= ip::octet(bits, 1) <= 31)
            &&& !(ip::octet(bits, 0) == 192 && ip::octet(bits, 1) == 168)
            &&& !(ip::octet(bits, 0) == 169 && ip::octet(bits, 1) == 254)
        },
        IpAddr::V6(bits) => {
            let group = bits as int / 0x1_0000_0000_0000_0000_0000_0000_0000;
            &&& bits != 0
            &&& bits != 1
            &&& !(0xfe80 <= group <= 0xfebf)
            &&& !(0xfc00 <= group <= 0xfdff)
        },
    }
}

/// Whether an address can sensibly be geolocated and plotted on the world map.
/// Other addresses still appear in the live log.
pub fn is_plottable_ip(ip: IpAddr) -> (yes: bool)
    ensures
        yes == plottable(ip),
{
    match ip {
        IpAddr::V4(bits) => {
            let a: u32 = bits / 0x100_0000;
            let b: u32 = bits / 0x1_0000 % 0x100;
            bits != 0 && a != 127 && a != 10 && !(a == 172 && b >= 16 && b <= 31) && !(a == 192
                && b == 168) && !(a == 169 && b == 254)
        },
        IpAddr::V6(bits) => {
            let group: u128 = bits / 0x1_0000_0000_0000_0000_0000_0000_0000;
            bits != 0 && bits != 1 && !(group >= 0xfe80 && group <= 0xfebf) && !(group >= 0xfc00
                && group <= 0xfdff)
        },
    }
}

/// The one-line summary of an event: source, address, port, protocol and, for
/// a log event with a status, method and status.
pub open spec fn summary_text(ev: EventView) -> Seq<char> {
    let port = match ev.dst_port {
        Some(p) => ":"@ + text::decimal(p as nat),
        None => "    "@,
    };
    let http = match (ev.http_status, ev.http_method) {
        (Some(s), Some(m)) => " "@ + m + " "@ + text::decimal(s as nat),
        (Some(s), None) => " "@ + text::decimal(s as nat),
        _ => ""@,
    };
    "["@ + ev.source.tag() + "] "@ + ip::ip_text(ev.src_ip) + port + " "@ + ev.protocol + http
}

impl ConnectionEvent {
    /// Short, single-line summary used in the connection log panel.
    pub fn summary(&self) -> (line: String)
        ensures
            line@ == summary_text(self@),
    {
        let mut out: String = "[".to_owned();
        out.append(self.source.label());
        out.append("] ");
        out.append(self.src_ip.to_text().as_str());
        match self.dst_port {
            Some(p) => {
                out.append(":");
                out.append(text::decimal_text(p as u64).as_str());
            },
            None => {
                out.append("    ");
            },
        }
        out.append(" ");
        out.append(self.protocol.as_str());
        proof {
            reveal_strlit("");
        }
        match (self.http_status, &self.http_method) {
            (Some(s), Some(m)) => {
                out.append(" ");
                out.append(m.as_str());
                out.append(" ");
                out.append(text::decimal_text(s as u64).as_str());
            },
            (Some(s), None) => {
                out.append(" ");
                out.append(text::decimal_text(s as u64).as_str());
            },
            _ => {},
        }
        assert(out@ =~= summary_text(self@));
        out
    }
}

/// Which IPv4 addresses are plotted: all that are not in the blocks of the
/// private, loopback and link-local networks, and not 0.0.0.0.
pub proof fn public_ipv4_is_plotted(bits: u32)
    ensures
        plottable(IpAddr::V4(bits)) <==> !(bits == 0 || 0x0a00_0000 <= bits <= 0x0aff_ffff
            || 0x7f00_0000 <= bits <= 0x7fff_ffff || 0xac10_0000 <= bits <= 0xac1f_ffff
            || 0xc0a8_0000 <= bits <= 0xc0a8_ffff || 0xa9fe_0000 <= bits <= 0xa9fe_ffff),
{
}

/// Which IPv6 addresses are plotted: all that are not in the blocks of the
/// unique local and link-local networks, and neither `::` nor `::1`.
pub proof fn public_ipv6_is_plotted(bits: u128)
    ensures
        plottable(IpAddr::V6(bits)) <==> !(bits == 0 || bits == 1
            || 0xfc00_0000_0000_0000_0000_0000_0000_0000 <= bits
            <= 0xfdff_ffff_ffff_ffff_ffff_ffff_ffff_ffff
            || 0xfe80_0000_0000_0000_0000_0000_0000_0000 <= bits
            <= 0xfebf_ffff_ffff_ffff_ffff_ffff_ffff_ffff),
{
}

/// A summary names source, address, port if there is one, protocol, and for
/// requests method and status.
pub proof fn summaries_name_everything(ev: EventView)
    ensures
        ({
            let line = summary_text(ev);
            let start = if ev.source == Source::Pcap {
                "[PCAP] "@
            } else {
                "[LOG ] "@
            };
            let plain = start + ip::ip_text(ev.src_ip) + (if ev.dst_port is Some {
                ":"@ + text::decimal(ev.dst_port->0 as nat)
            } else {
                "    "@
            }) + " "@ + ev.protocol;
            &&& ev.http_status is None ==> line == plain
            &&& ev.http_status matches Some(n) ==> (ev.http_method matches Some(m) ==> line == plain
                + " "@ + m + " "@ + text::decimal(n as nat))
            &&& ev.http_status matches Some(n) ==> ev.http_method is None ==> line == plain + " "@
                + text::decimal(n as nat)
        }),
{
    reveal_strlit("");
    reveal_strlit("[");
    reveal_strlit("] ");
    reveal_strlit("PCAP");
    reveal_strlit("LOG ");
    reveal_strlit("[PCAP] ");
    reveal_strlit("[LOG ] ");
    let line = summary_text(ev);
    let start = if ev.source == Source::Pcap {
        "[PCAP] "@
    } else {
        "[LOG ] "@
    };
    assert(start =~= "["@ + ev.source.tag() + "] "@);
    let plain = start + ip::ip_text(ev.src_ip) + (if ev.dst_port is Some {
        ":"@ + text::decimal(ev.dst_port->0 as nat)
    } else {
        "    "@
    }) + " "@ + ev.protocol;
    match (ev.http_status, ev.http_method) {
        (Some(n), Some(m)) => {
            assert(line =~= plain + " "@ + m + " "@ + text::decimal(n as nat));
        },
        (Some(n), None) => {
            assert(line =~= plain + " "@ + text::decimal(n as nat));
        },
        _ => {
            assert(line =~= plain);
        },
    }
}

/// Tags are four characters long and tell sources and severities apart.
pub proof fn tags_tell_apart(s: Source, t: Source, a: Severity, b: Severity)
    ensures
        s.tag().len() == 4,
        a.tag().len() == 4,
        s.tag() == t.tag() ==> s == t,
        a.tag() == b.tag() ==> a == b,
        Source::Pcap.tag() == "PCAP"@ && Source::Log.tag() == "LOG "@,
        Severity::Info.tag() == "INFO"@ && Severity::Warn.tag() == "WARN"@
            && Severity::Alert.tag() == "ALRT"@,
{
    reveal_strlit("PCAP");
    reveal_strlit("LOG ");
    reveal_strlit("INFO");
    reveal_strlit("WARN");
    reveal_strlit("ALRT");
    assert("PCAP"@[0] != "LOG "@[0]);
    assert("INFO"@[0] != "WARN"@[0] && "INFO"@[0] != "ALRT"@[0] && "WARN"@[0] != "ALRT"@[0]);
}

/// The view of an event hides nothing of it.
pub proof fn views_show_all_of_an_event(ev: ConnectionEvent)
    ensures
        ev@.timestamp == ev.timestamp && ev@.src_ip == ev.src_ip && ev@.dst_port == ev.dst_port,
        ev@.protocol == ev.protocol@ && ev@.http_status == ev.http_status,
        ev@.bytes == ev.bytes && ev@.source == ev.source && ev@.severity == ev.severity,
        ev.http_method matches Some(s) ==> ev@.http_method == Some(s@),
        ev.http_path matches Some(s) ==> ev@.http_path == Some(s@),
        ev.user_agent matches Some(s) ==> ev@.user_agent == Some(s@),
        ev.http_method is None ==> ev@.http_method is None,
        ev.http_path is None ==> ev@.http_path is None,
        ev.user_agent is None ==> ev@.user_agent is None,
        event_view(Some(ev)) == Some(ev@),
        event_view(None) is None,
{
}

} // verus!
