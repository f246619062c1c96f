//! VPN (TUN) mode: the front end's configuration, packet-header parsing,
//! and the pure argv builders for bypass routes, capture routes and
//! elevation prompts (executed by the caller, never here).

use vstd::prelude::*;

use crate::net::{ip_text, IpAddress, SocketAddress};
use crate::text::{chars_of, commands_view, eq_str, join, join_strings, owned, string_of, strings_view};

verus! {

/// What the TUN front end needs: the SOCKS listener to forward through,
/// the tunnel MTU, and edge IPs that must bypass the TUN.
#[derive(Debug, Clone, PartialEq, Eq)]
pub struct TunConfig {
    pub socks: SocketAddress,
    pub mtu: u16,
    pub bypass_ips: Vec<IpAddress>,
}

/// The message an out-of-range MTU gives.
pub open spec fn mtu_error(mtu: u16) -> Seq<char> {
    "invalid TUN MTU "@ + crate::net::decimal(mtu as nat) + ": must be in 1280..=9000"@
}

impl TunConfig {
    /// MTU 1500, no bypass IPs.
    pub fn new(socks: SocketAddress) -> (r: TunConfig)
        ensures
            r.socks == socks,
            r.mtu == 1500,
            r.bypass_ips@.len() == 0,
    {
        TunConfig { socks, mtu: 1500, bypass_ips: Vec::new() }
    }

    pub fn with_bypass(self, ips: Vec<IpAddress>) -> (r: TunConfig)
        ensures
            r.socks == self.socks,
            r.mtu == self.mtu,
            r.bypass_ips == ips,
    {
        TunConfig { bypass_ips: ips, ..self }
    }

    /// The MTU must fit an IPv6-capable tunnel (at least 1280) and stay
    /// at most 9000; the error names the bad value.
    pub fn validate(&self) -> (r: Result<(), String>)
        ensures
            r is Ok <==> 1280 <= self.mtu <= 9000,
            r matches Err(m) ==> m@ == mtu_error(self.mtu),
    {
        if 1280 <= self.mtu && self.mtu <= 9000 {
            Ok(())
        } else {
            let mut m = owned("invalid TUN MTU ");
            m.append(crate::net::decimal_text(self.mtu as u64).as_str());
            m.append(": must be in 1280..=9000");
            Err(m)
        }
    }
}

/// A running TUN session; `stop` stops forwarding and removes routes.
pub trait TunHandle: Send + Sync {
    fn stop(&mut self);
}

pub open spec fn not_linked_message() -> Seq<char> {
    "VPN (TUN) mode needs the tun backend: rebuild with --features tun (desktop) or use the Android app/NEXT-STEPS.md §B"@
}

/// Error when VPN (TUN) mode is requested but the driver is not linked.
pub fn not_linked_error() -> (r: String)
    ensures
        r@ == not_linked_message(),
{
    owned(
        "VPN (TUN) mode needs the tun backend: rebuild with --features tun (desktop) or use the Android app/NEXT-STEPS.md §B",
    )
}

/// The elevation hint shown when adapter creation fails for want of
/// privileges, per OS (`linux`, `windows`, `macos`, or any other).
pub open spec fn elevation_hint_text(os: Seq<char>) -> Seq<char> {
    if os == "linux"@ {
        "TUN mode needs privileges: re-run via `pkexec` (polkit) or `sudo` so the virtual adapter and bypass routes can be created."@
    } else if os == "windows"@ {
        "TUN mode needs elevation: approve the UAC prompt so Windows can create the virtual adapter and bypass routes."@
    } else if os == "macos"@ {
        "TUN mode needs administrator authorization: approve the system prompt so macOS can create the virtual adapter and bypass routes."@
    } else {
        "TUN mode needs administrator privileges on this OS to create the virtual adapter and bypass routes."@
    }
}

/// The elevation hint for an OS; never empty.
pub fn elevation_hint_for(os: &str) -> (r: &'static str)
    ensures
        r@ == elevation_hint_text(os@),
        r@.len() > 0,
{
    let o = chars_of(os);
    if eq_str(&o, "linux") {
        proof {
            reveal_strlit(
                "TUN mode needs privileges: re-run via `pkexec` (polkit) or `sudo` so the virtual adapter and bypass routes can be created.",
            );
        }
        "TUN mode needs privileges: re-run via `pkexec` (polkit) or `sudo` so the virtual adapter and bypass routes can be created."
    } else if eq_str(&o, "windows") {
        proof {
            reveal_strlit(
                "TUN mode needs elevation: approve the UAC prompt so Windows can create the virtual adapter and bypass routes.",
            );
        }
        "TUN mode needs elevation: approve the UAC prompt so Windows can create the virtual adapter and bypass routes."
    } else if eq_str(&o, "macos") {
        proof {
            reveal_strlit(
                "TUN mode needs administrator authorization: approve the system prompt so macOS can create the virtual adapter and bypass routes.",
            );
        }
        "TUN mode needs administrator authorization: approve the system prompt so macOS can create the virtual adapter and bypass routes."
    } else {
        proof {
            reveal_strlit(
                "TUN mode needs administrator privileges on this OS to create the virtual adapter and bypass routes.",
            );
        }
        "TUN mode needs administrator privileges on this OS to create the virtual adapter and bypass routes."
    }
}

// -------------------------------------------------------- bypass routes

/// The host route keeping one edge IP off the TUN, via the physical
/// gateway, per OS.
pub open spec fn bypass_route_spec(os: Seq<char>, edge: IpAddress, gateway: IpAddress) -> Result<
    Seq<Seq<char>>,
    Seq<char>,
> {
    let v6 = edge is V6;
    let e = ip_text(edge);
    let g = ip_text(gateway);
    if os == "windows"@ {
        if v6 {
            Ok(seq!["route"@, "add"@, e + "/128"@, g])
        } else {
            Ok(seq!["route"@, "add"@, e, "mask"@, "255.255.255.255"@, g])
        }
    } else if os == "macos"@ {
        if v6 {
            Ok(seq!["route"@, "add"@, "-inet6"@, e, g])
        } else {
            Ok(seq!["route"@, "add"@, "-host"@, e, g])
        }
    } else if os == "linux"@ {
        if v6 {
            Ok(seq!["ip"@, "-6"@, "route"@, "add"@, e, "via"@, g])
        } else {
            Ok(seq!["ip"@, "route"@, "add"@, e, "via"@, g])
        }
    } else {
        Err("unsupported OS for TUN bypass route: '"@ + os + "'"@)
    }
}

/// The argv of a result, as character sequences.
pub open spec fn argv_result_view(r: Result<Vec<String>, String>) -> Result<Seq<Seq<char>>, Seq<char>> {
    match r {
        Ok(v) => Ok(strings_view(v@)),
        Err(m) => Err(m@),
    }
}

/// The host route argv for one edge IP (`os` is `windows`, `macos` or
/// `linux`; anything else is an error naming it).
pub fn bypass_route_args_for(os: &str, edge: IpAddress, gateway: IpAddress) -> (r: Result<Vec<String>, String>)
    ensures
        argv_result_view(r) == bypass_route_spec(os@, edge, gateway),
{
    let is_v6 = edge.is_ipv6();
    let e = edge.to_string();
    let g = gateway.to_string();
    let o = chars_of(os);
    if eq_str(&o, "windows") {
        if is_v6 {
            let mut host = e;
            host.append("/128");
            let v = vec![owned("route"), owned("add"), host, g];
            assert(strings_view(v@) =~= bypass_route_spec(os@, edge, gateway)->Ok_0);
            Ok(v)
        } else {
            let v = vec![owned("route"), owned("add"), e, owned("mask"), owned("255.255.255.255"), g];
            assert(strings_view(v@) =~= bypass_route_spec(os@, edge, gateway)->Ok_0);
            Ok(v)
        }
    } else if eq_str(&o, "macos") {
        if is_v6 {
            let v = vec![owned("route"), owned("add"), owned("-inet6"), e, g];
            assert(strings_view(v@) =~= bypass_route_spec(os@, edge, gateway)->Ok_0);
            Ok(v)
        } else {
            let v = vec![owned("route"), owned("add"), owned("-host"), e, g];
            assert(strings_view(v@) =~= bypass_route_spec(os@, edge, gateway)->Ok_0);
            Ok(v)
        }
    } else if eq_str(&o, "linux") {
        if is_v6 {
            let v = vec![owned("ip"), owned("-6"), owned("route"), owned("add"), e, owned("via"), g];
            assert(strings_view(v@) =~= bypass_route_spec(os@, edge, gateway)->Ok_0);
            Ok(v)
        } else {
            let v = vec![owned("ip"), owned("route"), owned("add"), e, owned("via"), g];
            assert(strings_view(v@) =~= bypass_route_spec(os@, edge, gateway)->Ok_0);
            Ok(v)
        }
    } else {
        let mut m = owned("unsupported OS for TUN bypass route: '");
        m.append(os);
        m.append("'");
        Err(m)
    }
}

// -------------------------------------------------------- capture routes

/// Add/remove argv for capturing all traffic via the split default routes
/// `0.0.0.0/1` and `128.0.0.0/1`.
#[derive(Debug, Clone, PartialEq, Eq)]
pub struct RoutePair {
    pub add_all: Vec<Vec<String>>,
    pub del_all: Vec<Vec<String>>,
}

/// The capture routes per OS (`dev` is the TUN interface, on Windows its
/// index): `(add, delete)`.
pub open spec fn default_routes_spec(os: Seq<char>, dev: Seq<char>) -> Result<
    (Seq<Seq<Seq<char>>>, Seq<Seq<Seq<char>>>),
    Seq<char>,
> {
    if os == "linux"@ {
        Ok(
            (
                seq![
                    seq!["ip"@, "route"@, "add"@, "0.0.0.0/1"@, "dev"@, dev],
                    seq!["ip"@, "route"@, "add"@, "128.0.0.0/1"@, "dev"@, dev],
                ],
                seq![
                    seq!["ip"@, "route"@, "del"@, "0.0.0.0/1"@, "dev"@, dev],
                    seq!["ip"@, "route"@, "del"@, "128.0.0.0/1"@, "dev"@, dev],
                ],
            ),
        )
    } else if os == "macos"@ {
        Ok(
            (
                seq![
                    seq!["route"@, "add"@, "-net"@, "0.0.0.0/1"@, "-interface"@, dev],
                    seq!["route"@, "add"@, "-net"@, "128.0.0.0/1"@, "-interface"@, dev],
                ],
                seq![
                    seq!["route"@, "delete"@, "-net"@, "0.0.0.0/1"@, "-interface"@, dev],
                    seq!["route"@, "delete"@, "-net"@, "128.0.0.0/1"@, "-interface"@, dev],
                ],
            ),
        )
    } else if os == "windows"@ {
        Ok(
            (
                seq![
                    seq!["route"@, "add"@, "0.0.0.0"@, "mask"@, "128.0.0.0"@, "0.0.0.0"@, "metric"@, "5"@, "if"@, dev],
                    seq!["route"@, "add"@, "128.0.0.0"@, "mask"@, "128.0.0.0"@, "0.0.0.0"@, "metric"@, "5"@, "if"@, dev],
                ],
                seq![
                    seq!["route"@, "delete"@, "0.0.0.0"@, "mask"@, "128.0.0.0"@],
                    seq!["route"@, "delete"@, "128.0.0.0"@, "mask"@, "128.0.0.0"@],
                ],
            ),
        )
    } else {
        Err("unsupported OS for TUN default routes: '"@ + os + "'"@)
    }
}

/// The capture routes for the TUN device `dev` on `os`.
pub fn default_routes_for(os: &str, dev: &str) -> (r: Result<RoutePair, String>)
    ensures
        match default_routes_spec(os@, dev@) {
            Ok((add, del)) => r matches Ok(p) && commands_view(p.add_all@) == add && commands_view(
                p.del_all@,
            ) == del,
            Err(m) => r matches Err(e) && e@ == m,
        },
{
    let o = chars_of(os);
    let (add_all, del_all) = if eq_str(&o, "linux") {
        (
            vec![vec![owned("ip"), owned("route"), owned("add"), owned("0.0.0.0/1"), owned("dev"), owned(dev)], vec![owned("ip"), owned("route"), owned("add"), owned("128.0.0.0/1"), owned("dev"), owned(dev)]],
            vec![vec![owned("ip"), owned("route"), owned("del"), owned("0.0.0.0/1"), owned("dev"), owned(dev)], vec![owned("ip"), owned("route"), owned("del"), owned("128.0.0.0/1"), owned("dev"), owned(dev)]],
        )
    } else if eq_str(&o, "macos") {
        (
            vec![vec![owned("route"), owned("add"), owned("-net"), owned("0.0.0.0/1"), owned("-interface"), owned(dev)], vec![owned("route"), owned("add"), owned("-net"), owned("128.0.0.0/1"), owned("-interface"), owned(dev)]],
            vec![vec![owned("route"), owned("delete"), owned("-net"), owned("0.0.0.0/1"), owned("-interface"), owned(dev)], vec![owned("route"), owned("delete"), owned("-net"), owned("128.0.0.0/1"), owned("-interface"), owned(dev)]],
        )
    } else if eq_str(&o, "windows") {
        (
            vec![
                vec![owned("route"), owned("add"), owned("0.0.0.0"), owned("mask"), owned("128.0.0.0"), owned("0.0.0.0"), owned("metric"), owned("5"), owned("if"), owned(dev)],
                vec![owned("route"), owned("add"), owned("128.0.0.0"), owned("mask"), owned("128.0.0.0"), owned("0.0.0.0"), owned("metric"), owned("5"), owned("if"), owned(dev)],
            ],
            vec![
                vec![owned("route"), owned("delete"), owned("0.0.0.0"), owned("mask"), owned("128.0.0.0")],
                vec![owned("route"), owned("delete"), owned("128.0.0.0"), owned("mask"), owned("128.0.0.0")],
            ],
        )
    } else {
        let mut m = owned("unsupported OS for TUN default routes: '");
        m.append(os);
        m.append("'");
        return Err(m);
    };
    let r = RoutePair { add_all, del_all };
    proof {
        let (add, del) = default_routes_spec(os@, dev@)->Ok_0;
        assert(commands_view(r.add_all@)[0] =~= add[0]);
        assert(commands_view(r.add_all@)[1] =~= add[1]);
        assert(commands_view(r.del_all@)[0] =~= del[0]);
        assert(commands_view(r.del_all@)[1] =~= del[1]);
        assert(commands_view(r.add_all@) =~= add);
        assert(commands_view(r.del_all@) =~= del);
    }
    Ok(r)
}


/// The capture routes come in pairs: two additions naming the device and
/// two removals, which differ from the additions.
pub proof fn law_capture_routes_cover_both_halves(os: Seq<char>, dev: Seq<char>)
    requires
        default_routes_spec(os, dev) is Ok,
    ensures
        ({
            let (add, del) = default_routes_spec(os, dev)->Ok_0;
            &&& add.len() == 2 && del.len() == 2
            &&& add[0].last() == dev && add[1].last() == dev
            &&& add != del
        }),
{
    reveal_strlit("add");
    reveal_strlit("del");
    reveal_strlit("delete");
    reveal_strlit("linux");
    reveal_strlit("macos");
    reveal_strlit("windows");
    let (add, del) = default_routes_spec(os, dev)->Ok_0;
    assert("add"@[1] != "del"@[1]);
    assert("add"@.len() != "delete"@.len());
    if os == "linux"@ {
        assert(add[0][2] != del[0][2]);
    } else {
        assert(add[0][1] != del[0][1]);
    }
    assert(add[0] != del[0]);
}

// ---------------------------------------------------------------- packets

/// What a packet header read gives: protocol, addresses, ports (0 unless
/// TCP or UDP with the ports present) and the IP header length.
#[derive(Debug, Clone, Copy, PartialEq, Eq, Structural)]
pub struct PacketMeta {
    pub protocol: u8,
    pub src_ip: IpAddress,
    pub dst_ip: IpAddress,
    pub src_port: u16,
    pub dst_port: u16,
    pub header_len: usize,
}

pub open spec fn be16(hi: u8, lo: u8) -> u16 {
    (hi as nat * 256 + lo as nat) as u16
}

pub open spec fn v6_at(p: Seq<u8>, o: int) -> IpAddress {
    IpAddress::V6(
        be16(p[o], p[o + 1]),
        be16(p[o + 2], p[o + 3]),
        be16(p[o + 4], p[o + 5]),
        be16(p[o + 6], p[o + 7]),
        be16(p[o + 8], p[o + 9]),
        be16(p[o + 10], p[o + 11]),
        be16(p[o + 12], p[o + 13]),
        be16(p[o + 14], p[o + 15]),
    )
}

/// The header an IPv4 or IPv6 packet carries: IPv4 needs 20 bytes and
/// its IHL (in 32-bit words) of bytes, IPv6 needs 40; ports are read
/// right after the header for TCP (6) and UDP (17) when present.
pub open spec fn packet_meta(p: Seq<u8>) -> Option<PacketMeta> {
    if p.len() == 0 {
        None
    } else if p[0] / 16 == 4 {
        let ihl = ((p[0] % 16) * 4) as int;
        if p.len() < 20 || p.len() < ihl {
            None
        } else {
            let proto = p[9];
            let ports = (proto == 6 || proto == 17) && p.len() >= ihl + 4;
            Some(
                PacketMeta {
                    protocol: proto,
                    src_ip: IpAddress::V4(p[12], p[13], p[14], p[15]),
                    dst_ip: IpAddress::V4(p[16], p[17], p[18], p[19]),
                    src_port: if ports { be16(p[ihl], p[ihl + 1]) } else { 0 },
                    dst_port: if ports { be16(p[ihl + 2], p[ihl + 3]) } else { 0 },
                    header_len: ihl as usize,
                },
            )
        }
    } else if p[0] / 16 == 6 {
        if p.len() < 40 {
            None
        } else {
            let proto = p[6];
            let ports = (proto == 6 || proto == 17) && p.len() >= 44;
            Some(
                PacketMeta {
                    protocol: proto,
                    src_ip: v6_at(p, 8),
                    dst_ip: v6_at(p, 24),
                    src_port: if ports { be16(p[40], p[41]) } else { 0 },
                    dst_port: if ports { be16(p[42], p[43]) } else { 0 },
                    header_len: 40,
                },
            )
        }
    } else {
        None
    }
}

/// An IPv4 TCP or UDP header with its ports present gives the addresses
/// at bytes 12 and 16 and the ports that follow the IP header,
/// big-endian: source first, then destination.
pub proof fn law_v4_transport_ports(p: Seq<u8>)
    requires
        p.len() >= 20,
        p[0] / 16 == 4,
        p[9] == 6 || p[9] == 17,
        p.len() >= (p[0] % 16) * 4 + 4,
    ensures
        ({
            let ihl = ((p[0] % 16) * 4) as int;
            &&& packet_meta(p) is Some
            &&& packet_meta(p)->0.protocol == p[9]
            &&& packet_meta(p)->0.src_ip == IpAddress::V4(p[12], p[13], p[14], p[15])
            &&& packet_meta(p)->0.dst_ip == IpAddress::V4(p[16], p[17], p[18], p[19])
            &&& packet_meta(p)->0.header_len == ihl
            &&& packet_meta(p)->0.src_port == be16(p[ihl], p[ihl + 1])
            &&& packet_meta(p)->0.dst_port == be16(p[ihl + 2], p[ihl + 3])
        }),
{
}

/// An IPv6 TCP or UDP header with its ports present gives the addresses
/// at bytes 8 and 24 and the ports in the four bytes after the fixed
/// 40-byte header.
pub proof fn law_v6_transport_ports(p: Seq<u8>)
    requires
        p.len() >= 44,
        p[0] / 16 == 6,
        p[6] == 6 || p[6] == 17,
    ensures
        packet_meta(p) is Some,
        packet_meta(p)->0.protocol == p[6],
        packet_meta(p)->0.src_ip == v6_at(p, 8),
        packet_meta(p)->0.dst_ip == v6_at(p, 24),
        packet_meta(p)->0.header_len == 40,
        packet_meta(p)->0.src_port == be16(p[40], p[41]),
        packet_meta(p)->0.dst_port == be16(p[42], p[43]),
{
}

/// UDP is read like TCP: a packet and the same packet with its protocol
/// byte switched from 17 to 6 carry the same addresses and ports (for
/// IPv4 with an IHL of at least 5, so the ports never overlap that byte).
pub proof fn law_udp_reads_like_tcp(p: Seq<u8>)
    requires
        p.len() > 0,
        (p[0] / 16 == 4 && p[0] % 16 >= 5 && p.len() >= 20 && p[9] == 17) || (p[0] / 16 == 6
            && p.len() >= 40 && p[6] == 17),
    ensures
        ({
            let at = if p[0] / 16 == 4 { 9int } else { 6int };
            let q = p.update(at, 6u8);
            &&& packet_meta(q) is Some <==> packet_meta(p) is Some
            &&& packet_meta(p) is Some ==> packet_meta(q) == Some(
                PacketMeta { protocol: 6, ..packet_meta(p)->0 },
            )
        }),
{
    let at = if p[0] / 16 == 4 { 9int } else { 6int };
    let q = p.update(at, 6u8);
    assert(forall|i: int| 0 <= i < p.len() && i != at ==> q[i] == p[i]);
    assert(q[0] == p[0]);
    if p[0] / 16 == 4 {
        let ihl = ((p[0] % 16) * 4) as int;
        assert(20 <= ihl <= 60);
        if p.len() >= ihl + 4 {
            assert(q[ihl] == p[ihl] && q[ihl + 1] == p[ihl + 1]);
            assert(q[ihl + 2] == p[ihl + 2] && q[ihl + 3] == p[ihl + 3]);
        }
        assert(q[12] == p[12] && q[13] == p[13] && q[14] == p[14] && q[15] == p[15]);
        assert(q[16] == p[16] && q[17] == p[17] && q[18] == p[18] && q[19] == p[19]);
    } else {
        assert(v6_at(q, 8) == v6_at(p, 8));
        assert(v6_at(q, 24) == v6_at(p, 24));
        if p.len() >= 44 {
            assert(q[40] == p[40] && q[41] == p[41] && q[42] == p[42] && q[43] == p[43]);
        }
    }
}

fn read_be16(p: &[u8], o: usize) -> (r: u16)
    requires
        o + 1 < p.len(),
    ensures
        r == be16(p@[o as int], p@[o + 1]),
{
    (p[o] as u16) * 256 + (p[o + 1] as u16)
}

fn read_v6(p: &[u8], o: usize) -> (r: IpAddress)
    requires
        o + 16 <= p.len(),
    ensures
        r == v6_at(p@, o as int),
{
    IpAddress::V6(
        read_be16(p, o),
        read_be16(p, o + 2),
        read_be16(p, o + 4),
        read_be16(p, o + 6),
        read_be16(p, o + 8),
        read_be16(p, o + 10),
        read_be16(p, o + 12),
        read_be16(p, o + 14),
    )
}

/// Parse an IPv4 or IPv6 packet header.
pub fn parse_ip_packet_header(packet: &[u8]) -> (r: Option<PacketMeta>)
    ensures
        r == packet_meta(packet@),
        r matches Some(m) ==> m.header_len <= packet@.len(),
{
    if packet.len() == 0 {
        return None;
    }
    let version = packet[0] / 16;
    if version == 4 {
        if packet.len() < 20 {
            return None;
        }
        let ihl: usize = ((packet[0] % 16) * 4) as usize;
        if packet.len() < ihl {
            return None;
        }
        let protocol = packet[9];
        let ports = (protocol == 6 || protocol == 17) && packet.len() >= ihl + 4;
        let (src_port, dst_port) = if ports {
            (read_be16(packet, ihl), read_be16(packet, ihl + 2))
        } else {
            (0, 0)
        };
        Some(
            PacketMeta {
                protocol,
                src_ip: IpAddress::V4(packet[12], packet[13], packet[14], packet[15]),
                dst_ip: IpAddress::V4(packet[16], packet[17], packet[18], packet[19]),
                src_port,
                dst_port,
                header_len: ihl,
            },
        )
    } else if version == 6 {
        if packet.len() < 40 {
            return None;
        }
        let protocol = packet[6];
        let ports = (protocol == 6 || protocol == 17) && packet.len() >= 44;
        let (src_port, dst_port) = if ports {
            (read_be16(packet, 40), read_be16(packet, 42))
        } else {
            (0, 0)
        };
        Some(
            PacketMeta {
                protocol,
                src_ip: read_v6(packet, 8),
                dst_ip: read_v6(packet, 24),
                src_port,
                dst_port,
                header_len: 40,
            },
        )
    } else {
        None
    }
}

// ------------------------------------------------------------- elevation

/// An argument with backslashes and double quotes escaped for an
/// AppleScript string.
pub open spec fn escape_quoted(s: Seq<char>) -> Seq<char>
    decreases s.len(),
{
    if s.len() == 0 {
        Seq::<char>::empty()
    } else {
        escape_quoted(s.drop_last()) + if s.last() == '\\' {
            seq!['\\', '\\']
        } else if s.last() == '"' {
            seq!['\\', '"']
        } else {
            seq![s.last()]
        }
    }
}

/// One argument of the AppleScript shell line: escaped, and wrapped in
/// escaped quotes when it holds a space or a double quote.
pub open spec fn script_arg(a: Seq<char>) -> Seq<char> {
    if a.contains(' ') || a.contains('"') {
        "\\\""@ + escape_quoted(a) + "\\\""@
    } else {
        escape_quoted(a)
    }
}

/// `argv` wrapped in the OS elevation prompt: `pkexec` on Linux, an
/// administrator AppleScript on macOS; Windows and others have no
/// argv-level elevation, and an empty argv has nothing to elevate.
pub open spec fn elevate_spec(os: Seq<char>, argv: Seq<Seq<char>>) -> Result<Seq<Seq<char>>, Seq<char>> {
    if argv.len() == 0 {
        Err("nothing to elevate"@)
    } else if os == "linux"@ {
        Ok(seq!["pkexec"@] + argv)
    } else if os == "macos"@ {
        Ok(
            seq![
                "osascript"@,
                "-e"@,
                "do shell script \""@ + join(argv.map_values(|a: Seq<char>| script_arg(a)), " "@)
                    + "\" with administrator privileges"@,
            ],
        )
    } else {
        Err(
            "no argv-level elevation on '"@ + os
                + "': run the app elevated (Windows: installer service / Run as administrator)"@,
        )
    }
}

fn escape_arg(a: &String) -> (r: String)
    ensures
        r@ == script_arg(a@),
{
    let v = chars_of(a.as_str());
    let mut out: Vec<char> = Vec::new();
    let mut i: usize = 0;
    while i < v.len()
        invariant
            i <= v.len(),
            out@ == escape_quoted(v@.take(i as int)),
        decreases v.len() - i,
    {
        let c = v[i];
        proof {
            assert(v@.take(i + 1).drop_last() =~= v@.take(i as int));
        }
        let ghost before = out@;
        if c == '\\' {
            out.push('\\');
            out.push('\\');
        } else if c == '"' {
            out.push('\\');
            out.push('"');
        } else {
            out.push(c);
        }
        proof {
            assert(out@ =~= escape_quoted(v@.take(i + 1)));
        }
        i = i + 1;
    }
    assert(v@.take(v@.len() as int) =~= v@);
    let escaped = string_of(&out);
    if crate::text::contains_char(&v, ' ') || crate::text::contains_char(&v, '"') {
        let mut s = owned("\\\"");
        s.append(escaped.as_str());
        s.append("\\\"");
        s
    } else {
        escaped
    }
}

/// Wrap `argv` in an OS elevation prompt (pure builder; the caller runs it).
pub fn elevate_argv_for(os: &str, argv: Vec<String>) -> (r: Result<Vec<String>, String>)
    ensures
        argv_result_view(r) == elevate_spec(os@, strings_view(argv@)),
{
    if argv.len() == 0 {
        return Err(owned("nothing to elevate"));
    }
    let o = chars_of(os);
    if eq_str(&o, "linux") {
        let mut elevated: Vec<String> = vec![owned("pkexec")];
        let mut rest = argv;
        let ghost r0 = rest@;
        elevated.append(&mut rest);
        assert(strings_view(elevated@) =~= seq!["pkexec"@] + strings_view(r0));
        Ok(elevated)
    } else if eq_str(&o, "macos") {
        let mut quoted: Vec<String> = Vec::new();
        let mut i: usize = 0;
        while i < argv.len()
            invariant
                i <= argv@.len(),
                strings_view(quoted@) == strings_view(argv@).map_values(|a: Seq<char>| script_arg(a)).take(
                    i as int,
                ),
            decreases argv.len() - i,
        {
            let ghost before = quoted@;
            quoted.push(escape_arg(&argv[i]));
            proof {
                assert(strings_view(quoted@) =~= strings_view(before).push(script_arg(argv@[i as int]@)));
                assert(strings_view(argv@).map_values(|a: Seq<char>| script_arg(a)).take(i + 1)
                    =~= strings_view(argv@).map_values(|a: Seq<char>| script_arg(a)).take(i as int).push(
                    script_arg(argv@[i as int]@),
                ));
            }
            i = i + 1;
        }
        assert(strings_view(argv@).map_values(|a: Seq<char>| script_arg(a)).take(argv@.len() as int)
            =~= strings_view(argv@).map_values(|a: Seq<char>| script_arg(a)));
        let script = join_strings(&quoted, " ");
        let mut line = owned("do shell script \"");
        line.append(script.as_str());
        line.append("\" with administrator privileges");
        let v = vec![owned("osascript"), owned("-e"), line];
        assert(strings_view(v@) =~= elevate_spec(os@, strings_view(argv@))->Ok_0);
        Ok(v)
    } else {
        let mut m = owned("no argv-level elevation on '");
        m.append(os);
        m.append("': run the app elevated (Windows: installer service / Run as administrator)");
        Err(m)
    }
}

// ------------------------------------------------------------------ guard

/// Owner of a TUN session and of the route removals that undo it. Unless
/// disarmed (normal shutdown already restored everything), tearing it
/// down stops the session and hands back the removals to run.
pub struct TunGuard {
    handle: Option<Box<dyn TunHandle>>,
    del_cmds: Vec<Vec<String>>,
    disarmed: bool,
    stopped: Ghost<nat>,
}

impl TunGuard {
    pub closed spec fn armed(&self) -> bool {
        !self.disarmed
    }

    pub closed spec fn removals(&self) -> Seq<Seq<Seq<char>>> {
        commands_view(self.del_cmds@)
    }

    /// The guard still holds its session handle (it was not stopped).
    pub closed spec fn holds_session(&self) -> bool {
        self.handle is Some
    }

    /// How many times the guard has called the session's `stop()`.
    pub closed spec fn stops(&self) -> nat {
        self.stopped@
    }

    pub fn new(handle: Box<dyn TunHandle>, del_cmds: Vec<Vec<String>>) -> (r: TunGuard)
        ensures
            r.armed(),
            r.removals() == commands_view(del_cmds@),
            r.holds_session(),
            r.stops() == 0,
    {
        TunGuard { handle: Some(handle), del_cmds, disarmed: false, stopped: Ghost(0) }
    }

    pub fn is_armed(&self) -> (r: bool)
        ensures
            r == self.armed(),
    {
        !self.disarmed
    }

    /// Normal shutdown already restored everything: skip the teardown.
    /// The session is left as it is.
    pub fn disarm(&mut self)
        ensures
            !final(self).armed(),
            final(self).removals() == old(self).removals(),
            final(self).holds_session() == old(self).holds_session(),
            final(self).stops() == old(self).stops(),
    {
        self.disarmed = true;
    }

    /// Stop the session and hand back the route removals to run, once;
    /// a disarmed guard does nothing: it stops nothing, keeps its handle
    /// and hands back nothing.
    pub fn teardown(&mut self) -> (r: Vec<Vec<String>>)
        ensures
            commands_view(r@) == (if old(self).armed() {
                old(self).removals()
            } else {
                Seq::<Seq<Seq<char>>>::empty()
            }),
            !final(self).armed(),
            old(self).armed() ==> final(self).stops() == old(self).stops() + (if old(self).holds_session() {
                1nat
            } else {
                0nat
            }) && !final(self).holds_session(),
            !old(self).armed() ==> final(self).stops() == old(self).stops() && final(self).holds_session()
                == old(self).holds_session() && final(self).removals() == old(self).removals(),
    {
        if self.disarmed {
            let r: Vec<Vec<String>> = Vec::new();
            assert(commands_view(r@) =~= Seq::<Seq<Seq<char>>>::empty());
            return r;
        }
        if let Some(mut handle) = self.handle.take() {
            handle.stop();
            proof {
                self.stopped@ = self.stopped@ + 1;
            }
        }
        self.disarmed = true;
        let mut cmds: Vec<Vec<String>> = Vec::new();
        std::mem::swap(&mut cmds, &mut self.del_cmds);
        cmds
    }
}

} // verus!
