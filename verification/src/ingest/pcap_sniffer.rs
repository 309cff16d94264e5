//! Decoding sniffed Ethernet frames.
//!
//! Only IPv4 and IPv6 headers and the TCP and UDP headers behind them are
//! looked at, never the payload.

use vstd::prelude::*;
use vstd::string::StringExecFns;

use crate::clock;
use crate::clock::Timestamp;
use crate::event;
use crate::event::{ConnectionEvent, EventView, Severity, Source};
use crate::ip::IpAddr;

verus! {

/// The big-endian 16-bit number at position `i`.
pub open spec fn be16(b: Seq<u8>, i: int) -> int {
    b[i] * 0x100 + b[i + 1]
}

/// The big-endian number that the bytes `i..j` spell.
pub open spec fn be(b: Seq<u8>, i: int, j: int) -> int
    decreases j - i,
{
    if i < j {
        be(b, i, j - 1) * 0x100 + b[j - 1]
    } else {
        0
    }
}

/// The bytes from `start` on, at most `len` of them, as far as there are any.
pub open spec fn window(b: Seq<u8>, start: int, len: int) -> Seq<u8> {
    if b.len() <= start {
        Seq::empty()
    } else if b.len() <= start + len {
        b.skip(start)
    } else {
        b.subrange(start, start + len)
    }
}

/// What the sniffer reads from an Ethernet frame.
pub struct EthernetFrame {
    /// The type of the payload.
    pub ethertype: u16,
    /// What follows the header.
    pub payload: Vec<u8>,
}

/// What the sniffer reads from an IPv4 or IPv6 header.
pub struct IpHeader {
    /// The source address.
    pub source: IpAddr,
    /// The number of the next protocol.
    pub protocol: u8,
    /// What follows the header.
    pub payload: Vec<u8>,
}

/// What an [`IpHeader`] says.
#[verifier::ext_equal]
pub struct IpHeaderView {
    pub source: IpAddr,
    pub protocol: u8,
    pub payload: Seq<u8>,
}

impl View for IpHeader {
    type V = IpHeaderView;

    open spec fn view(&self) -> IpHeaderView {
        IpHeaderView { source: self.source, protocol: self.protocol, payload: self.payload@ }
    }
}

/// The view of an optional header.
pub open spec fn header_view(ip: Option<IpHeader>) -> Option<IpHeaderView> {
    match ip {
        Some(ip) => Some(ip@),
        None => None,
    }
}

/// Wraps `pnet::packet::ethernet::EthernetPacket`: `new` accepts 14 bytes and
/// more; the type is the 16-bit number at byte 12, the payload all that
/// follows.
#[verifier::external_body]
fn read_ethernet(frame: &[u8]) -> (read: Option<EthernetFrame>)
    ensures
        read is Some <==> frame@.len() >= 14,
        read matches Some(eth) ==> eth.ethertype == be16(frame@, 12) && eth.payload@ == frame@.skip(
            14,
        ),
{
    let eth = pnet::packet::ethernet::EthernetPacket::new(frame)?;
    let payload = pnet::packet::Packet::payload(&eth).to_vec();
    Some(EthernetFrame { ethertype: eth.get_ethertype().0, payload })
}

/// What `pnet` reads from the IPv4 header at the start of `b`, if there are
/// the 20 bytes of one: the source address at byte 12, the protocol at byte 9,
/// and as payload what follows the header (whose length in words is the low
/// half of byte 0) up to the total length (the 16-bit number at byte 2).
pub open spec fn ipv4_header(b: Seq<u8>) -> Option<IpHeaderView> {
    let header = b[0] as int % 16 * 4;
    let total = be16(b, 2);
    if b.len() < 20 {
        None
    } else {
        Some(
            IpHeaderView {
                source: IpAddr::V4(be(b, 12, 16) as u32),
                protocol: b[9],
                payload: window(
                    b,
                    if header > 20 {
                        header
                    } else {
                        20
                    },
                    if total > header {
                        total - header
                    } else {
                        0
                    },
                ),
            },
        )
    }
}

/// Wraps `pnet::packet::ipv4::Ipv4Packet`: `new` accepts 20 bytes and more.
#[verifier::external_body]
fn read_ipv4(bytes: &Vec<u8>) -> (read: Option<IpHeader>)
    ensures
        header_view(read) == ipv4_header(bytes@),
{
    let v4 = pnet::packet::ipv4::Ipv4Packet::new(bytes)?;
    Some(
        IpHeader {
            source: IpAddr::V4(u32::from(v4.get_source())),
            protocol: v4.get_next_level_protocol().0,
            payload: pnet::packet::Packet::payload(&v4).to_vec(),
        },
    )
}

/// What `pnet` reads from the IPv6 header at the start of `b`, if there are
/// the 40 bytes of one: the source address at byte 8, the protocol at byte 6,
/// and as payload what follows the header, as many bytes as the 16-bit number
/// at byte 4 says.
pub open spec fn ipv6_header(b: Seq<u8>) -> Option<IpHeaderView> {
    if b.len() < 40 {
        None
    } else {
        Some(
            IpHeaderView {
                source: IpAddr::V6(be(b, 8, 24) as u128),
                protocol: b[6],
                payload: window(b, 40, be16(b, 4)),
            },
        )
    }
}

/// Wraps `pnet::packet::ipv6::Ipv6Packet`: `new` accepts 40 bytes and more.
#[verifier::external_body]
fn read_ipv6(bytes: &Vec<u8>) -> (read: Option<IpHeader>)
    ensures
        header_view(read) == ipv6_header(bytes@),
{
    let v6 = pnet::packet::ipv6::Ipv6Packet::new(bytes)?;
    Some(
        IpHeader {
            source: IpAddr::V6(u128::from(v6.get_source())),
            protocol: v6.get_next_header().0,
            payload: pnet::packet::Packet::payload(&v6).to_vec(),
        },
    )
}

/// The destination port of a segment whose header has `header` bytes.
pub open spec fn port_of(b: Seq<u8>, header: int) -> Option<u16> {
    if b.len() >= header {
        Some(be16(b, 2) as u16)
    } else {
        None
    }
}

/// Wraps `pnet::packet::tcp::TcpPacket`: `new` accepts 20 bytes and more, the
/// destination is the 16-bit number at byte 2.
#[verifier::external_body]
fn read_tcp_destination(bytes: &Vec<u8>) -> (port: Option<u16>)
    ensures
        port == port_of(bytes@, 20),
{
    Some(pnet::packet::tcp::TcpPacket::new(bytes)?.get_destination())
}

/// Wraps `pnet::packet::udp::UdpPacket`: `new` accepts 8 bytes and more, the
/// destination is the 16-bit number at byte 2.
#[verifier::external_body]
fn read_udp_destination(bytes: &Vec<u8>) -> (port: Option<u16>)
    ensures
        port == port_of(bytes@, 8),
{
    Some(pnet::packet::udp::UdpPacket::new(bytes)?.get_destination())
}

/// The name that `pnet` gives to an IP protocol number.
pub uninterp spec fn protocol_name(number: u8) -> Seq<char>;

/// Wraps the `Display` of `pnet::packet::ip::IpNextHeaderProtocol`, a table of
/// names. The result depends on the number alone.
#[verifier::external_body]
fn read_protocol_name(number: u8) -> (name: String)
    ensures
        name@ == protocol_name(number),
{
    pnet::packet::ip::IpNextHeaderProtocol::new(number).to_string()
}

/// The ethertype of IPv4.
pub const ETHERTYPE_IPV4: u16 = 0x0800;

/// The ethertype of IPv6.
pub const ETHERTYPE_IPV6: u16 = 0x86DD;

/// The protocol number of ICMP.
pub const PROTOCOL_ICMP: u8 = 1;

/// The protocol number of TCP.
pub const PROTOCOL_TCP: u8 = 6;

/// The protocol number of UDP.
pub const PROTOCOL_UDP: u8 = 17;

/// The protocol number of ICMP for IPv6.
pub const PROTOCOL_ICMPV6: u8 = 58;

/// The severity of a TCP connection by its destination port: the common admin
/// ports are worth a warning, telnet, SMB and MSSQL an alert.
pub open spec fn port_severity(port: Option<u16>) -> Severity {
    match port {
        Some(p) => if p == 22 || p == 3389 || p == 5900 {
            Severity::Warn
        } else if p == 23 || p == 445 || p == 1433 {
            Severity::Alert
        } else {
            Severity::Info
        },
        None => Severity::Info,
    }
}

/// The protocol label, destination port and severity of a packet with the
/// given protocol number and payload.
pub open spec fn transport(protocol: u8, payload: Seq<u8>) -> (Seq<char>, Option<u16>, Severity) {
    if protocol == PROTOCOL_TCP {
        let port = port_of(payload, 20);
        ("TCP"@, port, port_severity(port))
    } else if protocol == PROTOCOL_UDP {
        ("UDP"@, port_of(payload, 8), Severity::Info)
    } else if protocol == PROTOCOL_ICMP || protocol == PROTOCOL_ICMPV6 {
        ("ICMP"@, None, Severity::Info)
    } else {
        ("IP/"@ + protocol_name(protocol), None, Severity::Info)
    }
}

/// Finds the protocol label, destination port and severity of a packet.
pub fn tcp_udp_info(next: u8, payload: &Vec<u8>) -> (info: (String, Option<u16>, Severity))
    ensures
        (info.0@, info.1, info.2) == transport(next, payload@),
{
    if next == PROTOCOL_TCP {
        let port: Option<u16> = read_tcp_destination(payload);
        let severity: Severity = match port {
            Some(22) | Some(3389) | Some(5900) => Severity::Warn,
            Some(23) | Some(445) | Some(1433) => Severity::Alert,
            _ => Severity::Info,
        };
        ("TCP".to_owned(), port, severity)
    } else if next == PROTOCOL_UDP {
        ("UDP".to_owned(), read_udp_destination(payload), Severity::Info)
    } else if next == PROTOCOL_ICMP || next == PROTOCOL_ICMPV6 {
        ("ICMP".to_owned(), None, Severity::Info)
    } else {
        let mut label: String = "IP/".to_owned();
        label.append(read_protocol_name(next).as_str());
        (label, None, Severity::Info)
    }
}

/// The IP header that a frame carries, if its ethertype announces one and it
/// is long enough.
pub open spec fn carried_header(frame: Seq<u8>) -> Option<IpHeaderView> {
    if frame.len() < 14 {
        None
    } else if be16(frame, 12) == ETHERTYPE_IPV4 {
        ipv4_header(frame.skip(14))
    } else if be16(frame, 12) == ETHERTYPE_IPV6 {
        ipv6_header(frame.skip(14))
    } else {
        None
    }
}

/// The event that a frame stands for when it is seen at `now`: nothing, unless
/// it carries an IP header.
pub open spec fn frame_event(frame: Seq<u8>, now: Timestamp) -> Option<EventView> {
    match carried_header(frame) {
        None => None,
        Some(ip) => {
            let (protocol, dst_port, severity) = transport(ip.protocol, ip.payload);
            Some(
                EventView {
                    timestamp: now,
                    src_ip: ip.source,
                    dst_port,
                    protocol,
                    http_status: None,
                    http_method: None,
                    http_path: None,
                    user_agent: None,
                    bytes: Some(frame.len() as u64),
                    source: Source::Pcap,
                    severity,
                },
            )
        },
    }
}

/// Decodes one Ethernet frame seen at `now`. Returns `None` for non-IP frames
/// and malformed packets.
pub fn parse_frame_at(frame: &[u8], now: Timestamp) -> (event: Option<ConnectionEvent>)
    ensures
        event::event_view(event) == frame_event(frame@, now),
{
    let eth: EthernetFrame = match read_ethernet(frame) {
        Some(eth) => eth,
        None => {
            return None;
        },
    };
    let header: Option<IpHeader> = if eth.ethertype == ETHERTYPE_IPV4 {
        read_ipv4(&eth.payload)
    } else if eth.ethertype == ETHERTYPE_IPV6 {
        read_ipv6(&eth.payload)
    } else {
        None
    };
    let ip: IpHeader = match header {
        Some(ip) => ip,
        None => {
            return None;
        },
    };
    let (protocol, dst_port, severity) = tcp_udp_info(ip.protocol, &ip.payload);
    Some(
        ConnectionEvent {
            timestamp: now,
            src_ip: ip.source,
            dst_port,
            protocol,
            http_status: None,
            http_method: None,
            http_path: None,
            user_agent: None,
            bytes: Some(frame.len() as u64),
            source: Source::Pcap,
            severity,
        },
    )
}

/// Decodes one Ethernet frame as of now.
pub fn parse_frame(frame: &[u8]) -> (event: Option<ConnectionEvent>)
    ensures
        exists|now: Timestamp| #[trigger]
            now.valid() && event::event_view(event) == frame_event(frame@, now),
{
    let now: Timestamp = clock::utc_now();
    assert(now.valid());
    parse_frame_at(frame, now)
}

/// Whether an interface is offered for sniffing: it has a name and is not the
/// loopback.
pub fn is_listed(name: &str, loopback: bool) -> (yes: bool)
    ensures
        yes == (!loopback && name@.len() > 0),
{
    !loopback && name.unicode_len() > 0
}

/// Only TCP to the ports that administrators and intruders use is more than
/// information: a warning for SSH, remote desktop and VNC, an alert for telnet,
/// SMB and MSSQL. Every other packet, of UDP, ICMP or anything else, is
/// information.
pub proof fn packets_are_harmless_but_for_some_ports(protocol: u8, payload: Seq<u8>)
    ensures
        ({
            let (_, port, severity) = transport(protocol, payload);
            let tcp = protocol == 6;
            let admin = port == Some(22u16) || port == Some(3389u16) || port == Some(5900u16);
            let attacked = port == Some(23u16) || port == Some(445u16) || port == Some(1433u16);
            &&& severity == Severity::Warn <==> tcp && admin
            &&& severity == Severity::Alert <==> tcp && attacked
            &&& severity == Severity::Info <==> !(tcp && (admin || attacked))
        }),
{
}

/// A packet is labelled with its protocol, and has a port if and only if it is
/// TCP or UDP and its header is whole: the number in its third and fourth byte.
pub proof fn packets_are_labelled(protocol: u8, payload: Seq<u8>)
    ensures
        ({
            let (label, port, _) = transport(protocol, payload);
            let whole = (protocol == 6 && payload.len() >= 20) || (protocol == 17 && payload.len()
                >= 8);
            &&& protocol == 6 ==> label == "TCP"@
            &&& protocol == 17 ==> label == "UDP"@
            &&& protocol == 1 || protocol == 58 ==> label == "ICMP"@
            &&& protocol != 6 && protocol != 17 && protocol != 1 && protocol != 58 ==> label
                == "IP/"@ + protocol_name(protocol)
            &&& port is Some <==> whole
            &&& whole ==> port->0 == payload[2] * 256 + payload[3]
        }),
{
}

/// Every event of a frame says when it was seen, that it was sniffed and how
/// long the frame was, and nothing of HTTP; its severity is other than
/// information only for TCP to one of the ports that are watched.
pub proof fn sniffed_events_are_plain(frame: Seq<u8>, now: Timestamp)
    requires
        frame.len() <= u64::MAX,
        frame_event(frame, now) is Some,
    ensures
        ({
            let ev = frame_event(frame, now)->0;
            let port = ev.dst_port;
            let admin = port == Some(22u16) || port == Some(3389u16) || port == Some(5900u16);
            let attacked = port == Some(23u16) || port == Some(445u16) || port == Some(1433u16);
            &&& ev.timestamp == now
            &&& ev.source == Source::Pcap
            &&& ev.bytes matches Some(n) && n == frame.len()
            &&& ev.http_status is None && ev.http_method is None
            &&& ev.http_path is None && ev.user_agent is None
            &&& ev.severity == Severity::Warn ==> ev.protocol == "TCP"@ && admin
            &&& ev.severity == Severity::Alert ==> ev.protocol == "TCP"@ && attacked
        }),
{
}

/// Big-endian numbers are spelled byte by byte.
pub proof fn numbers_are_big_endian(b: Seq<u8>, i: int, j: int)
    requires
        i <= j,
    ensures
        be(b, i, i) == 0,
        be(b, i, j + 1) == be(b, i, j) * 256 + b[j],
        be16(b, i) == b[i] * 256 + b[i + 1],
{
}

/// A frame gives an event if and only if it announces IPv4 and holds the twenty
/// bytes of such a header behind its own fourteen, or announces IPv6 and holds
/// forty.
pub proof fn ip_frames_give_events(frame: Seq<u8>, now: Timestamp)
    ensures
        frame_event(frame, now) is Some <==> (frame.len() >= 34 && frame[12] == 0x08 && frame[13]
            == 0x00) || (frame.len() >= 54 && frame[12] == 0x86 && frame[13] == 0xdd),
{
}

/// What is read from a frame with IPv4: the source address in bytes 26 to 29,
/// the protocol in byte 23, and behind the header, as far as the packet's
/// length and the frame reach, what [`transport`] tells.
pub proof fn ipv4_frames_are_read(frame: Seq<u8>, now: Timestamp)
    requires
        frame.len() >= 34,
        frame[12] == 0x08,
        frame[13] == 0x00,
    ensures
        ({
            let ev = frame_event(frame, now)->0;
            let header = frame[14] as int % 16 * 4;
            let start: int = if header > 20 {
                14 + header
            } else {
                34
            };
            let stated = frame[16] * 256 + frame[17] - header;
            let there = frame.len() - start;
            let n = if stated <= 0 || there <= 0 {
                0
            } else if stated < there {
                stated
            } else {
                there
            };
            let told = transport(
                frame[23],
                if n > 0 {
                    frame.subrange(start, start + n)
                } else {
                    Seq::empty()
                },
            );
            &&& frame_event(frame, now) is Some
            &&& ev.src_ip == IpAddr::V4(
                (frame[26] * 0x100_0000 + frame[27] * 0x1_0000 + frame[28] * 0x100
                    + frame[29]) as u32,
            )
            &&& ev.protocol == told.0
            &&& ev.dst_port == told.1
            &&& ev.severity == told.2
        }),
{
    let b = frame.skip(14);
    reveal_with_fuel(be, 5);
    assert(b[12] == frame[26] && b[13] == frame[27] && b[14] == frame[28] && b[15] == frame[29]);
    assert(b[0] == frame[14] && b[2] == frame[16] && b[3] == frame[17] && b[9] == frame[23]);
    let header = b[0] as int % 16 * 4;
    let total = be16(b, 2);
    let start = if header > 20 {
        header
    } else {
        20
    };
    let len = if total > header {
        total - header
    } else {
        0
    };
    let payload = window(b, start, len);
    let n = if len == 0 || b.len() <= start {
        0
    } else if b.len() <= start + len {
        b.len() - start
    } else {
        len
    };
    if n > 0 {
        assert(payload =~= frame.subrange(14 + start, 14 + start + n));
    } else {
        assert(payload =~= Seq::empty());
    }
}

/// What is read from a frame with IPv6: the source address in bytes 22 to 37,
/// the protocol in byte 20, and behind the header, as far as the packet's
/// length and the frame reach, what [`transport`] tells.
pub proof fn ipv6_frames_are_read(frame: Seq<u8>, now: Timestamp)
    requires
        frame.len() >= 54,
        frame[12] == 0x86,
        frame[13] == 0xdd,
    ensures
        ({
            let ev = frame_event(frame, now)->0;
            let stated = frame[18] * 256 + frame[19];
            let there = frame.len() - 54;
            let n = if stated < there {
                stated
            } else {
                there
            };
            let told = transport(frame[20], frame.subrange(54, 54 + n));
            &&& frame_event(frame, now) is Some
            &&& ev.src_ip == IpAddr::V6(be(frame, 22, 38) as u128)
            &&& ev.protocol == told.0
            &&& ev.dst_port == told.1
            &&& ev.severity == told.2
        }),
{
    let b = frame.skip(14);
    same_number_farther_on(frame, b, 14, 8, 24);
    assert(b[4] == frame[18] && b[5] == frame[19] && b[6] == frame[20]);
    let stated = be16(b, 4);
    let n = if stated < frame.len() - 54 {
        stated
    } else {
        frame.len() - 54
    };
    assert(window(b, 40, stated) =~= frame.subrange(54, 54 + n));
}

proof fn same_number_farther_on(a: Seq<u8>, b: Seq<u8>, shift: int, i: int, j: int)
    requires
        0 <= shift <= a.len(),
        b == a.skip(shift),
        0 <= i <= j <= b.len(),
    ensures
        be(b, i, j) == be(a, i + shift, j + shift),
    decreases j - i,
{
    if i < j {
        same_number_farther_on(a, b, shift, i, j - 1);
        assert(b[j - 1] == a[j - 1 + shift]);
    }
}

} // verus!
