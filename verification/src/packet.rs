//! Bounds-checked access to the headers of one packet.
//!
//! A packet is a byte slice. Every header is reached through [`view_at`],
//! which hands out a sub-slice only after checking that it lies inside the
//! packet; no offset is ever used unchecked.

use vstd::prelude::*;
use vstd::slice::slice_subrange;
use crate::layout::{
    eth_hdr_len, ipv4_hdr_len, proto_tcp, proto_udp, tcp_hdr_len, udp_hdr_len, DST_ADDR_AT,
    DST_PORT_AT, ETHER_TYPE_AT, ETH_HDR_LEN, IPV4_HDR_LEN, MIN_IHL, PROTO_AT, PROTO_TCP,
    PROTO_UDP, SRC_ADDR_AT, SRC_PORT_AT, TCP_HDR_LEN, UDP_HDR_LEN, VIHL_AT,
};

verus! {

/// Why a header could not be read.
#[derive(Clone, Copy, Debug, PartialEq, Eq, Structural)]
pub enum FilterError {
    /// The packet ends before the header does, or the IPv4 header declares a
    /// length below its minimum.
    Truncated,
    /// A port was asked of a packet that is neither TCP nor UDP.
    UnsupportedProtocol,
}

/// The fields of an IPv4 header that the filter reads.
#[derive(Clone, Copy, Debug, PartialEq, Eq, Structural)]
pub struct Ipv4Fields {
    /// Declared header length, in 4-byte words.
    pub ihl: u8,
    /// Upper-layer protocol number.
    pub protocol: u8,
    /// Source address, host order.
    pub source: u32,
    /// Destination address, host order.
    pub dest: u32,
}

/// `size` bytes from `offset` on lie inside a packet of `len` bytes.
pub open spec fn readable(len: nat, offset: int, size: int) -> bool {
    0 <= offset && 0 <= size && offset + size <= len
}

/// The big-endian 16-bit number at `at`.
pub open spec fn be16(b: Seq<u8>, at: int) -> u16 {
    (b[at] as int * 256 + b[at + 1] as int) as u16
}

/// The big-endian 32-bit number at `at`.
pub open spec fn be32(b: Seq<u8>, at: int) -> u32 {
    (b[at] as int * 16777216 + b[at + 1] as int * 65536 + b[at + 2] as int * 256 + b[at + 3] as int) as u32
}

/// The Ethernet header is readable.
pub open spec fn has_eth(p: Seq<u8>) -> bool {
    readable(p.len(), 0, ETH_HDR_LEN as int)
}

/// The fixed part of the IPv4 header, right behind the Ethernet header, is readable.
pub open spec fn has_ipv4(p: Seq<u8>) -> bool {
    readable(p.len(), ETH_HDR_LEN as int, IPV4_HDR_LEN as int)
}

/// The ether-type of a frame, host order.
pub open spec fn spec_ether_type(p: Seq<u8>) -> u16 {
    be16(p, ETHER_TYPE_AT as int)
}

/// The IPv4 fields of a frame.
pub open spec fn spec_ipv4_fields(p: Seq<u8>) -> Ipv4Fields {
    Ipv4Fields {
        ihl: p[ETH_HDR_LEN + VIHL_AT] % 16,
        protocol: p[ETH_HDR_LEN + PROTO_AT],
        source: be32(p, ETH_HDR_LEN + SRC_ADDR_AT),
        dest: be32(p, ETH_HDR_LEN + DST_ADDR_AT),
    }
}

/// The protocol carries ports: it is TCP or UDP.
pub open spec fn has_ports(protocol: u8) -> bool {
    protocol == PROTO_TCP || protocol == PROTO_UDP
}

/// Where the transport header starts, for an IPv4 header of `ihl` words.
pub open spec fn transport_offset(ihl: u8) -> int {
    ETH_HDR_LEN + ihl * 4
}

/// Size of the transport header of a protocol that carries ports.
pub open spec fn transport_len(protocol: u8) -> int {
    if protocol == PROTO_TCP {
        TCP_HDR_LEN as int
    } else {
        UDP_HDR_LEN as int
    }
}

/// The transport header can be read: the IPv4 header declares at least its
/// minimum length, and the transport header lies inside the packet.
pub open spec fn has_transport(p: Seq<u8>, ihl: u8, protocol: u8) -> bool {
    ihl >= MIN_IHL && readable(p.len(), transport_offset(ihl), transport_len(protocol))
}

/// The port at `field_at` within the transport header.
pub open spec fn spec_port(p: Seq<u8>, ihl: u8, protocol: u8, field_at: int) -> Result<
    u16,
    FilterError,
> {
    if !has_ports(protocol) {
        Err(FilterError::UnsupportedProtocol)
    } else if !has_transport(p, ihl, protocol) {
        Err(FilterError::Truncated)
    } else {
        Ok(be16(p, transport_offset(ihl) + field_at))
    }
}

/// A read-only view of `size` bytes at `offset`, handed out only where all of
/// them lie inside the packet; `Truncated` otherwise. The sum of offset and
/// size is never formed before it is known to fit.
pub fn view_at<'a>(packet: &'a [u8], offset: usize, size: usize) -> (r: Result<
    &'a [u8],
    FilterError,
>)
    ensures
        r is Ok <==> readable(packet@.len(), offset as int, size as int),
        match r {
            Ok(v) => v@ == packet@.subrange(offset as int, offset + size),
            Err(e) => e == FilterError::Truncated,
        },
{
    let len: usize = packet.len();
    if offset > len || size > len - offset {
        return Err(FilterError::Truncated);
    }
    Ok(slice_subrange(packet, offset, offset + size))
}

fn read_be16(v: &[u8], at: usize) -> (r: u16)
    requires
        at + 2 <= v@.len(),
    ensures
        r == be16(v@, at as int),
{
    let hi: u16 = v[at] as u16;
    let lo: u16 = v[at + 1] as u16;
    hi * 256 + lo
}

fn read_be32(v: &[u8], at: usize) -> (r: u32)
    requires
        at + 4 <= v@.len(),
    ensures
        r == be32(v@, at as int),
{
    let b0: u32 = v[at] as u32;
    let b1: u32 = v[at + 1] as u32;
    let b2: u32 = v[at + 2] as u32;
    let b3: u32 = v[at + 3] as u32;
    b0 * 16777216 + b1 * 65536 + b2 * 256 + b3
}

/// Reads the ether-type from the Ethernet header at the start of the packet.
pub fn ether_type(packet: &[u8]) -> (r: Result<u16, FilterError>)
    ensures
        r == (if has_eth(packet@) {
            Ok::<u16, FilterError>(spec_ether_type(packet@))
        } else {
            Err::<u16, FilterError>(FilterError::Truncated)
        }),
{
    match view_at(packet, 0, eth_hdr_len()) {
        Ok(eth) => Ok(read_be16(eth, ETHER_TYPE_AT)),
        Err(e) => Err(e),
    }
}

/// Reads the IPv4 header that follows the Ethernet header.
pub fn ipv4_fields(packet: &[u8]) -> (r: Result<Ipv4Fields, FilterError>)
    ensures
        r == (if has_ipv4(packet@) {
            Ok::<Ipv4Fields, FilterError>(spec_ipv4_fields(packet@))
        } else {
            Err::<Ipv4Fields, FilterError>(FilterError::Truncated)
        }),
{
    match view_at(packet, eth_hdr_len(), ipv4_hdr_len()) {
        Ok(ip) => {
            let fields = Ipv4Fields {
                ihl: ip[VIHL_AT] % 16,
                protocol: ip[PROTO_AT],
                source: read_be32(ip, SRC_ADDR_AT),
                dest: read_be32(ip, DST_ADDR_AT),
            };
            Ok(fields)
        },
        Err(e) => Err(e),
    }
}

/// Whether the protocol is TCP or UDP.
pub fn proto_carries_ports(protocol: u8) -> (r: bool)
    ensures
        r == has_ports(protocol),
{
    protocol == proto_tcp() || protocol == proto_udp()
}

/// Reads the port at `field_at` of the transport header.
fn port_at(packet: &[u8], ihl: u8, protocol: u8, field_at: usize) -> (r: Result<u16, FilterError>)
    requires
        field_at == SRC_PORT_AT || field_at == DST_PORT_AT,
    ensures
        r == spec_port(packet@, ihl, protocol, field_at as int),
{
    let size: usize = if protocol == proto_tcp() {
        tcp_hdr_len()
    } else if protocol == proto_udp() {
        udp_hdr_len()
    } else {
        return Err(FilterError::UnsupportedProtocol);
    };
    if ihl < MIN_IHL {
        return Err(FilterError::Truncated);
    }
    let words: usize = ihl as usize;
    let offset: usize = eth_hdr_len() + words * 4;
    match view_at(packet, offset, size) {
        Ok(transport) => Ok(read_be16(transport, field_at)),
        Err(e) => Err(e),
    }
}

/// The source port of a TCP or UDP packet whose IPv4 header declares `ihl`
/// words. `UnsupportedProtocol` for any other protocol; `Truncated` where
/// `ihl` is below the minimum or the transport header does not fit.
pub fn get_source_port(packet: &[u8], ihl: u8, protocol: u8) -> (r: Result<u16, FilterError>)
    ensures
        r == spec_port(packet@, ihl, protocol, SRC_PORT_AT as int),
{
    port_at(packet, ihl, protocol, SRC_PORT_AT)
}

/// The destination port of a TCP or UDP packet whose IPv4 header declares
/// `ihl` words. `UnsupportedProtocol` for any other protocol; `Truncated`
/// where `ihl` is below the minimum or the transport header does not fit.
pub fn get_dest_port(packet: &[u8], ihl: u8, protocol: u8) -> (r: Result<u16, FilterError>)
    ensures
        r == spec_port(packet@, ihl, protocol, DST_PORT_AT as int),
{
    port_at(packet, ihl, protocol, DST_PORT_AT)
}

} // verus!
