//! Header sizes and protocol numbers, as the `network_types` crate defines
//! them, and the offsets of the fields that the filter reads.

use vstd::prelude::*;

verus! {

/// Bytes in an Ethernet header.
pub const ETH_HDR_LEN: usize = 14;

/// Bytes in an IPv4 header without options.
pub const IPV4_HDR_LEN: usize = 20;

/// Bytes in a TCP header without options.
pub const TCP_HDR_LEN: usize = 20;

/// Bytes in a UDP header.
pub const UDP_HDR_LEN: usize = 8;

/// The ether-type of IPv4, in host order.
pub const ETHER_TYPE_IPV4: u16 = 0x0800;

/// The IPv4 protocol number of TCP.
pub const PROTO_TCP: u8 = 6;

/// The IPv4 protocol number of UDP.
pub const PROTO_UDP: u8 = 17;

/// Smallest header length, in 4-byte words, that an IPv4 header may declare.
pub const MIN_IHL: u8 = 5;

/// Offset of the ether-type within the Ethernet header.
pub const ETHER_TYPE_AT: usize = 12;

/// Offset, within the IPv4 header, of the byte that holds version and header length.
pub const VIHL_AT: usize = 0;

/// Offset of the protocol number within the IPv4 header.
pub const PROTO_AT: usize = 9;

/// Offset of the source address within the IPv4 header.
pub const SRC_ADDR_AT: usize = 12;

/// Offset of the destination address within the IPv4 header.
pub const DST_ADDR_AT: usize = 16;

/// Offset of the source port within a TCP or UDP header.
pub const SRC_PORT_AT: usize = 0;

/// Offset of the destination port within a TCP or UDP header.
pub const DST_PORT_AT: usize = 2;

/// `EthHdr::LEN` of network_types: the size of its Ethernet header struct,
/// two 6-byte addresses and a 16-bit type, which is 14 bytes.
#[verifier::external_body]
pub(crate) fn eth_hdr_len() -> (n: usize)
    ensures
        n == ETH_HDR_LEN,
{
    network_types::eth::EthHdr::LEN
}

/// `Ipv4Hdr::LEN` of network_types: the size of its IPv4 header struct, the
/// fixed part of the header, which is 20 bytes.
#[verifier::external_body]
pub(crate) fn ipv4_hdr_len() -> (n: usize)
    ensures
        n == IPV4_HDR_LEN,
{
    network_types::ip::Ipv4Hdr::LEN
}

/// `TcpHdr::LEN` of network_types: the size of its TCP header struct, the
/// fixed part of the header, which is 20 bytes.
#[verifier::external_body]
pub(crate) fn tcp_hdr_len() -> (n: usize)
    ensures
        n == TCP_HDR_LEN,
{
    network_types::tcp::TcpHdr::LEN
}

/// `UdpHdr::LEN` of network_types: the size of its UDP header struct, four
/// 16-bit fields, which is 8 bytes.
#[verifier::external_body]
pub(crate) fn udp_hdr_len() -> (n: usize)
    ensures
        n == UDP_HDR_LEN,
{
    network_types::udp::UdpHdr::LEN
}

/// `EtherType::Ipv4` of network_types. The crate keeps the number in network
/// byte order, as it lies in a frame: `0x0800` turned by `to_be`. Turned back
/// to host order it is 0x0800 on every machine.
#[verifier::external_body]
pub(crate) fn ether_type_ipv4() -> (t: u16)
    ensures
        t == ETHER_TYPE_IPV4,
{
    u16::from_be(u16::from(network_types::eth::EtherType::Ipv4))
}

/// `IpProto::Tcp` of network_types as a number: 6.
#[verifier::external_body]
pub(crate) fn proto_tcp() -> (p: u8)
    ensures
        p == PROTO_TCP,
{
    u8::from(network_types::ip::IpProto::Tcp)
}

/// `IpProto::Udp` of network_types as a number: 17.
#[verifier::external_body]
pub(crate) fn proto_udp() -> (p: u8)
    ensures
        p == PROTO_UDP,
{
    u8::from(network_types::ip::IpProto::Udp)
}

} // verus!
