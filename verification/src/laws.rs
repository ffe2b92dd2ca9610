//! What holds of every verdict, stated over the engine's model and proved.

use vstd::prelude::*;
use crate::addr_table::addr_present;
use crate::engine::{spec_classify, spec_decide};
use crate::layout::{DST_PORT_AT, ETHER_TYPE_IPV4, SRC_PORT_AT};
use crate::packet::{
    has_eth, has_ipv4, has_ports, has_transport, spec_ether_type, spec_ipv4_fields, spec_port,
    FilterError,
};
use crate::port_table::port_present;
use crate::table::Marker;
use crate::verdict::{Decision, DropReason, Verdict};

verus! {

/// The frame is IPv4 and its IPv4 header can be read.
pub open spec fn is_ipv4_packet(p: Seq<u8>) -> bool {
    has_eth(p) && spec_ether_type(p) == ETHER_TYPE_IPV4 && has_ipv4(p)
}

/// Neither address of an IPv4 packet is blocked.
pub open spec fn addresses_clear(p: Seq<u8>, ips: Seq<(u32, Marker)>) -> bool {
    !addr_present(ips, spec_ipv4_fields(p).source) && !addr_present(ips, spec_ipv4_fields(p).dest)
}

/// The packet ends before a header that the rules need: the Ethernet header;
/// for an IPv4 frame its IPv4 header; for TCP or UDP with unblocked
/// addresses the transport header, which an IPv4 header length below the
/// minimum also puts out of reach.
pub open spec fn cut_short(p: Seq<u8>, ips: Seq<(u32, Marker)>) -> bool {
    ||| !has_eth(p)
    ||| spec_ether_type(p) == ETHER_TYPE_IPV4 && !has_ipv4(p)
    ||| is_ipv4_packet(p) && addresses_clear(p, ips) && has_ports(spec_ipv4_fields(p).protocol)
        && !has_transport(p, spec_ipv4_fields(p).ihl, spec_ipv4_fields(p).protocol)
}

/// A frame that is not IPv4 passes, whatever the blocklists hold.
pub proof fn lemma_non_ipv4_passes(p: Seq<u8>, ips: Seq<(u32, Marker)>, ports: Seq<(u16, Marker)>)
    requires
        has_eth(p),
        spec_ether_type(p) != ETHER_TYPE_IPV4,
    ensures
        spec_classify(p, ips, ports) == Verdict::Pass,
{
}

/// An IPv4 packet with a blocked source or destination address is dropped,
/// and the source is looked at first: where it is blocked the drop names it,
/// otherwise the drop names the destination.
pub proof fn lemma_blocked_address_drops(
    p: Seq<u8>,
    ips: Seq<(u32, Marker)>,
    ports: Seq<(u16, Marker)>,
)
    requires
        is_ipv4_packet(p),
        addr_present(ips, spec_ipv4_fields(p).source) || addr_present(ips, spec_ipv4_fields(p).dest),
    ensures
        spec_classify(p, ips, ports) == Verdict::Drop,
        addr_present(ips, spec_ipv4_fields(p).source) ==> spec_decide(p, ips, ports) == Ok::<
            Decision,
            FilterError,
        >(Decision::Drop(DropReason::SourceAddr(spec_ipv4_fields(p).source))),
        !addr_present(ips, spec_ipv4_fields(p).source) ==> spec_decide(p, ips, ports) == Ok::<
            Decision,
            FilterError,
        >(Decision::Drop(DropReason::DestAddr(spec_ipv4_fields(p).dest))),
{
}

/// A TCP or UDP packet with unblocked addresses and a blocked source or
/// destination port is dropped, the source port being looked at first.
pub proof fn lemma_blocked_port_drops(
    p: Seq<u8>,
    ips: Seq<(u32, Marker)>,
    ports: Seq<(u16, Marker)>,
)
    requires
        is_ipv4_packet(p),
        addresses_clear(p, ips),
        has_ports(spec_ipv4_fields(p).protocol),
        has_transport(p, spec_ipv4_fields(p).ihl, spec_ipv4_fields(p).protocol),
        port_present(
            ports,
            spec_port(p, spec_ipv4_fields(p).ihl, spec_ipv4_fields(p).protocol, SRC_PORT_AT as int)->Ok_0,
        ) || port_present(
            ports,
            spec_port(p, spec_ipv4_fields(p).ihl, spec_ipv4_fields(p).protocol, DST_PORT_AT as int)->Ok_0,
        ),
    ensures
        spec_classify(p, ips, ports) == Verdict::Drop,
        ({
            let ip = spec_ipv4_fields(p);
            let source = spec_port(p, ip.ihl, ip.protocol, SRC_PORT_AT as int)->Ok_0;
            let dest = spec_port(p, ip.ihl, ip.protocol, DST_PORT_AT as int)->Ok_0;
            spec_decide(p, ips, ports) == Ok::<Decision, FilterError>(
                Decision::Drop(
                    if port_present(ports, source) {
                        DropReason::SourcePort(source)
                    } else {
                        DropReason::DestPort(dest)
                    },
                ),
            )
        }),
{
}

/// An IPv4 packet of a protocol other than TCP and UDP, with unblocked
/// addresses, passes: the port blocklist has no say.
pub proof fn lemma_other_protocol_passes(
    p: Seq<u8>,
    ips: Seq<(u32, Marker)>,
    ports: Seq<(u16, Marker)>,
)
    requires
        is_ipv4_packet(p),
        addresses_clear(p, ips),
        !has_ports(spec_ipv4_fields(p).protocol),
    ensures
        spec_classify(p, ips, ports) == Verdict::Pass,
{
}

/// The verdict is `Aborted` exactly for the packets that end before a header
/// the rules need; such a packet is never passed and never dropped. The only
/// failure that classification reports is `Truncated`: a port is never asked
/// of a protocol that has none.
pub proof fn lemma_aborted_iff_cut_short(
    p: Seq<u8>,
    ips: Seq<(u32, Marker)>,
    ports: Seq<(u16, Marker)>,
)
    ensures
        spec_classify(p, ips, ports) == Verdict::Aborted <==> cut_short(p, ips),
        spec_decide(p, ips, ports) is Err <==> cut_short(p, ips),
        spec_decide(p, ips, ports) is Err ==> spec_decide(p, ips, ports) == Err::<
            Decision,
            FilterError,
        >(FilterError::Truncated),
{
}

/// The verdict is a function of the packet's bytes and of which keys the
/// blocklists hold, and of nothing else: two table states that block the
/// same addresses and the same ports give the same decision for the same
/// packet, whatever their markers and the order of their entries. So
/// classifying a packet again against an unchanged table gives the same
/// verdict.
pub proof fn lemma_decision_depends_on_presence_only(
    p: Seq<u8>,
    ips1: Seq<(u32, Marker)>,
    ports1: Seq<(u16, Marker)>,
    ips2: Seq<(u32, Marker)>,
    ports2: Seq<(u16, Marker)>,
)
    requires
        forall|k: u32| addr_present(ips1, k) == addr_present(ips2, k),
        forall|k: u16| port_present(ports1, k) == port_present(ports2, k),
    ensures
        spec_decide(p, ips1, ports1) == spec_decide(p, ips2, ports2),
        spec_classify(p, ips1, ports1) == spec_classify(p, ips2, ports2),
{
}

} // verus!
