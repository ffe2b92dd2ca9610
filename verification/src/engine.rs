//! The verdict engine: one packet and the two blocklists in, one verdict out.
//!
//! Address rules come before port rules, and the source before the
//! destination; the first rule that matches decides. Nothing is kept between
//! packets.

use vstd::prelude::*;
use crate::addr_table::{addr_present, AddrBlocklist};
use crate::layout::{ether_type_ipv4, DST_PORT_AT, ETHER_TYPE_IPV4, SRC_PORT_AT};
use crate::packet::{
    ether_type, get_dest_port, get_source_port, has_eth, has_ipv4, has_ports,
    ipv4_fields, proto_carries_ports, spec_ether_type, spec_ipv4_fields, spec_port, FilterError,
};
use crate::port_table::{port_present, PortBlocklist};
use crate::table::Marker;
use crate::verdict::{action_code, Decision, DropReason, Verdict};

verus! {

/// The port rules, for a packet whose addresses are not blocked.
pub open spec fn spec_decide_ports(
    p: Seq<u8>,
    ihl: u8,
    protocol: u8,
    ports: Seq<(u16, Marker)>,
) -> Result<Decision, FilterError> {
    if !has_ports(protocol) {
        Ok(Decision::Pass)
    } else {
        match spec_port(p, ihl, protocol, SRC_PORT_AT as int) {
            Err(e) => Err(e),
            Ok(source) => match spec_port(p, ihl, protocol, DST_PORT_AT as int) {
                Err(e) => Err(e),
                Ok(dest) => if port_present(ports, source) {
                    Ok(Decision::Drop(DropReason::SourcePort(source)))
                } else if port_present(ports, dest) {
                    Ok(Decision::Drop(DropReason::DestPort(dest)))
                } else {
                    Ok(Decision::Pass)
                },
            },
        }
    }
}

/// What the filter decides for the packet `p` against the entries `ips` and
/// `ports` of the two blocklists.
pub open spec fn spec_decide(
    p: Seq<u8>,
    ips: Seq<(u32, Marker)>,
    ports: Seq<(u16, Marker)>,
) -> Result<Decision, FilterError> {
    if !has_eth(p) {
        Err(FilterError::Truncated)
    } else if spec_ether_type(p) != ETHER_TYPE_IPV4 {
        Ok(Decision::Pass)
    } else if !has_ipv4(p) {
        Err(FilterError::Truncated)
    } else {
        let ip = spec_ipv4_fields(p);
        if addr_present(ips, ip.source) {
            Ok(Decision::Drop(DropReason::SourceAddr(ip.source)))
        } else if addr_present(ips, ip.dest) {
            Ok(Decision::Drop(DropReason::DestAddr(ip.dest)))
        } else {
            spec_decide_ports(p, ip.ihl, ip.protocol, ports)
        }
    }
}

/// The verdict that stands for a decision or a failure to read the packet.
pub open spec fn verdict_of(d: Result<Decision, FilterError>) -> Verdict {
    match d {
        Ok(Decision::Pass) => Verdict::Pass,
        Ok(Decision::Drop(_)) => Verdict::Drop,
        Err(_) => Verdict::Aborted,
    }
}

/// The verdict for the packet `p` against the two blocklists.
pub open spec fn spec_classify(
    p: Seq<u8>,
    ips: Seq<(u32, Marker)>,
    ports: Seq<(u16, Marker)>,
) -> Verdict {
    verdict_of(spec_decide(p, ips, ports))
}

/// Parses the packet and applies the rules. `Ok` holds the decision, and for
/// a drop the rule that matched with the blocked key; `Err` says that a
/// header the rules needed could not be read.
pub fn try_aya_minifirewall(
    packet: &[u8],
    blocked_ips: &AddrBlocklist,
    blocked_ports: &PortBlocklist,
) -> (r: Result<Decision, FilterError>)
    ensures
        r == spec_decide(packet@, blocked_ips@, blocked_ports@),
{
    let ether: u16 = match ether_type(packet) {
        Ok(t) => t,
        Err(e) => {
            return Err(e);
        },
    };
    if ether != ether_type_ipv4() {
        return Ok(Decision::Pass);
    }
    let ip = match ipv4_fields(packet) {
        Ok(f) => f,
        Err(e) => {
            return Err(e);
        },
    };
    if blocked_ips.get(ip.source).is_some() {
        return Ok(Decision::Drop(DropReason::SourceAddr(ip.source)));
    }
    if blocked_ips.get(ip.dest).is_some() {
        return Ok(Decision::Drop(DropReason::DestAddr(ip.dest)));
    }
    if proto_carries_ports(ip.protocol) {
        let source_port: u16 = match get_source_port(packet, ip.ihl, ip.protocol) {
            Ok(port) => port,
            Err(e) => {
                return Err(e);
            },
        };
        let dest_port: u16 = match get_dest_port(packet, ip.ihl, ip.protocol) {
            Ok(port) => port,
            Err(e) => {
                return Err(e);
            },
        };
        if blocked_ports.get(source_port).is_some() {
            return Ok(Decision::Drop(DropReason::SourcePort(source_port)));
        }
        if blocked_ports.get(dest_port).is_some() {
            return Ok(Decision::Drop(DropReason::DestPort(dest_port)));
        }
    }
    Ok(Decision::Pass)
}

/// Turns a decision, or the failure to reach one, into the verdict.
pub fn verdict_for(decision: Result<Decision, FilterError>) -> (v: Verdict)
    ensures
        v == verdict_of(decision),
{
    match decision {
        Ok(Decision::Pass) => Verdict::Pass,
        Ok(Decision::Drop(_)) => Verdict::Drop,
        Err(_) => Verdict::Aborted,
    }
}

/// The verdict for one packet: `Pass`, `Drop`, or `Aborted` where a header
/// that the rules needed could not be read.
pub fn classify(packet: &[u8], blocked_ips: &AddrBlocklist, blocked_ports: &PortBlocklist) -> (v:
    Verdict)
    ensures
        v == spec_classify(packet@, blocked_ips@, blocked_ports@),
{
    verdict_for(try_aya_minifirewall(packet, blocked_ips, blocked_ports))
}

/// The filter's entry point: the numeric action code for one packet.
pub fn aya_minifirewall(
    packet: &[u8],
    blocked_ips: &AddrBlocklist,
    blocked_ports: &PortBlocklist,
) -> (code: u32)
    ensures
        code == action_code(spec_classify(packet@, blocked_ips@, blocked_ports@)),
{
    classify(packet, blocked_ips, blocked_ports).code()
}

} // verus!
