use aya_minifirewall::packet::{ether_type, get_dest_port, get_source_port, ipv4_fields, view_at};
use aya_minifirewall::{
    aya_minifirewall, block_ip, block_port, classify, try_aya_minifirewall, AddrBlocklist,
    Decision, DropReason, FilterError, Ipv4Fields, PortBlocklist, Verdict,
};

const TCP: u8 = 6;
const UDP: u8 = 17;
const PING: u8 = 1;

fn frame(ether: [u8; 2]) -> Vec<u8> {
    let mut p = vec![0x02, 0, 0, 0, 0, 0x01, 0x02, 0, 0, 0, 0, 0x02];
    p.extend_from_slice(&ether);
    p
}

fn ipv4(src: [u8; 4], dst: [u8; 4], proto: u8, ihl: u8) -> Vec<u8> {
    let mut p = frame([0x08, 0x00]);
    p.push(0x40 | ihl);
    p.extend_from_slice(&[0, 0, 40, 0, 1, 0, 0, 64, proto, 0xAB, 0xCD]);
    p.extend_from_slice(&src);
    p.extend_from_slice(&dst);
    let mut word: u8 = 5;
    while word < ihl {
        p.extend_from_slice(&[1, 1, 1, 1]);
        word += 1;
    }
    p
}

fn transport(mut p: Vec<u8>, sport: u16, dport: u16, len: usize) -> Vec<u8> {
    p.extend_from_slice(&sport.to_be_bytes());
    p.extend_from_slice(&dport.to_be_bytes());
    p.resize(p.len() + len - 4, 0x55);
    p
}

fn tcp(src: [u8; 4], dst: [u8; 4], sport: u16, dport: u16) -> Vec<u8> {
    transport(ipv4(src, dst, TCP, 5), sport, dport, 20)
}

fn udp(src: [u8; 4], dst: [u8; 4], sport: u16, dport: u16) -> Vec<u8> {
    transport(ipv4(src, dst, UDP, 5), sport, dport, 8)
}

fn tables(ips: &[u32], ports: &[u16]) -> (AddrBlocklist, PortBlocklist) {
    let mut a = AddrBlocklist::new();
    let mut p = PortBlocklist::new();
    for ip in ips {
        assert!(block_ip(&mut a, *ip).is_ok());
    }
    for port in ports {
        assert!(block_port(&mut p, *port).is_ok());
    }
    (a, p)
}

#[test]
fn tcp_to_blocked_destination_port_is_dropped() {
    let (ips, ports) = tables(&[], &[80]);
    let pkt = tcp([10, 0, 0, 5], [10, 0, 0, 9], 40000, 80);
    assert_eq!(
        try_aya_minifirewall(&pkt, &ips, &ports),
        Ok(Decision::Drop(DropReason::DestPort(80)))
    );
    assert_eq!(classify(&pkt, &ips, &ports), Verdict::Drop);
    assert_eq!(aya_minifirewall(&pkt, &ips, &ports), 1);
}

#[test]
fn udp_from_blocked_source_address_is_dropped_before_ports() {
    let (ips, ports) = tables(&[0xC0A8_0164], &[53]);
    let pkt = udp([192, 168, 1, 100], [10, 0, 0, 9], 53, 53);
    assert_eq!(
        try_aya_minifirewall(&pkt, &ips, &ports),
        Ok(Decision::Drop(DropReason::SourceAddr(0xC0A8_0164)))
    );
    // The ports are never read: the same packet cut off behind the IPv4
    // header is dropped for the same reason.
    let cut = &pkt[..34];
    assert_eq!(
        try_aya_minifirewall(cut, &ips, &ports),
        Ok(Decision::Drop(DropReason::SourceAddr(0xC0A8_0164)))
    );
    assert_eq!(classify(cut, &ips, &ports), Verdict::Drop);
}

#[test]
fn header_length_beyond_captured_bytes_aborts() {
    let (ips, ports) = tables(&[], &[80]);
    let mut pkt = tcp([10, 0, 0, 5], [10, 0, 0, 9], 40000, 80);
    pkt[14] = 0x4F;
    assert_eq!(pkt.len(), 54);
    assert_eq!(try_aya_minifirewall(&pkt, &ips, &ports), Err(FilterError::Truncated));
    assert_eq!(classify(&pkt, &ips, &ports), Verdict::Aborted);
    assert_eq!(aya_minifirewall(&pkt, &ips, &ports), 0);
}

#[test]
fn arp_frame_passes() {
    let (ips, ports) = tables(&[0, 0x0101_0101], &[0, 0x5555]);
    let mut pkt = frame([0x08, 0x06]);
    pkt.extend_from_slice(&[0u8; 28]);
    assert_eq!(try_aya_minifirewall(&pkt, &ips, &ports), Ok(Decision::Pass));
    assert_eq!(classify(&pkt, &ips, &ports), Verdict::Pass);
    assert_eq!(aya_minifirewall(&pkt, &ips, &ports), 2);
}

#[test]
fn ping_with_unblocked_addresses_passes() {
    let (ips, ports) = tables(&[0x0A00_0001], &[0x0800, 0]);
    let mut pkt = ipv4([10, 0, 0, 5], [10, 0, 0, 9], PING, 5);
    pkt.extend_from_slice(&[8, 0, 0, 0, 0, 1, 0, 1]);
    assert_eq!(try_aya_minifirewall(&pkt, &ips, &ports), Ok(Decision::Pass));
    assert_eq!(aya_minifirewall(&pkt, &ips, &ports), 2);
}

#[test]
fn non_ipv4_frame_passes_whatever_is_blocked() {
    let (ips, ports) = tables(&[0, 0x5555_5555], &[0, 0x5555]);
    // IPv6 ether-type, and nothing behind the Ethernet header.
    let pkt = frame([0x86, 0xDD]);
    assert_eq!(pkt.len(), 14);
    assert_eq!(classify(&pkt, &ips, &ports), Verdict::Pass);
    // The ether-type is read big-endian: 0x0008 is not IPv4.
    let swapped = frame([0x00, 0x08]);
    assert_eq!(classify(&swapped, &ips, &ports), Verdict::Pass);
}

#[test]
fn source_address_is_checked_before_destination() {
    let (ips, ports) = tables(&[0x0A00_0009, 0x0A00_0005], &[]);
    let pkt = tcp([10, 0, 0, 5], [10, 0, 0, 9], 1, 2);
    assert_eq!(
        try_aya_minifirewall(&pkt, &ips, &ports),
        Ok(Decision::Drop(DropReason::SourceAddr(0x0A00_0005)))
    );
    let (only_dst, _) = tables(&[0x0A00_0009], &[]);
    assert_eq!(
        try_aya_minifirewall(&pkt, &only_dst, &ports),
        Ok(Decision::Drop(DropReason::DestAddr(0x0A00_0009)))
    );
}

#[test]
fn addresses_are_checked_before_ports() {
    let (ips, ports) = tables(&[0x0A00_0009], &[1, 2]);
    let pkt = udp([10, 0, 0, 5], [10, 0, 0, 9], 1, 2);
    assert_eq!(
        try_aya_minifirewall(&pkt, &ips, &ports),
        Ok(Decision::Drop(DropReason::DestAddr(0x0A00_0009)))
    );
}

#[test]
fn source_port_is_checked_before_destination_port() {
    let (ips, ports) = tables(&[], &[2, 1]);
    let pkt = udp([10, 0, 0, 5], [10, 0, 0, 9], 1, 2);
    assert_eq!(
        try_aya_minifirewall(&pkt, &ips, &ports),
        Ok(Decision::Drop(DropReason::SourcePort(1)))
    );
    let (_, only_dst) = tables(&[], &[2]);
    assert_eq!(
        try_aya_minifirewall(&pkt, &ips, &only_dst),
        Ok(Decision::Drop(DropReason::DestPort(2)))
    );
    let pkt_tcp = tcp([10, 0, 0, 5], [10, 0, 0, 9], 0x1F90, 443);
    let (_, p8080) = tables(&[], &[8080]);
    assert_eq!(
        try_aya_minifirewall(&pkt_tcp, &ips, &p8080),
        Ok(Decision::Drop(DropReason::SourcePort(8080)))
    );
}

#[test]
fn unblocked_tcp_and_udp_pass() {
    let (ips, ports) = tables(&[0x0A00_0001], &[22]);
    let t = tcp([10, 0, 0, 5], [10, 0, 0, 9], 40000, 80);
    let u = udp([10, 0, 0, 5], [10, 0, 0, 9], 40000, 53);
    assert_eq!(classify(&t, &ips, &ports), Verdict::Pass);
    assert_eq!(classify(&u, &ips, &ports), Verdict::Pass);
}

#[test]
fn other_protocol_never_consults_ports() {
    let (ips, ports) = tables(&[], &[7, 9]);
    // The bytes where ports would lie hold blocked numbers.
    let pkt = transport(ipv4([10, 0, 0, 5], [10, 0, 0, 9], PING, 5), 7, 9, 8);
    assert_eq!(classify(&pkt, &ips, &ports), Verdict::Pass);
    // Nothing behind the IPv4 header is needed, nor a sound header length.
    let mut bare = ipv4([10, 0, 0, 5], [10, 0, 0, 9], 47, 5);
    bare[14] = 0x41;
    assert_eq!(bare.len(), 34);
    assert_eq!(classify(&bare, &ips, &ports), Verdict::Pass);
}

#[test]
fn truncated_packets_abort() {
    let (ips, ports) = tables(&[0x0A00_0005], &[80]);
    let t = tcp([10, 0, 0, 6], [10, 0, 0, 9], 80, 80);
    let u = udp([10, 0, 0, 6], [10, 0, 0, 9], 80, 80);
    assert_eq!(classify(&[], &ips, &ports), Verdict::Aborted);
    assert_eq!(classify(&t[..13], &ips, &ports), Verdict::Aborted);
    assert_eq!(classify(&t[..14], &ips, &ports), Verdict::Aborted);
    assert_eq!(classify(&t[..33], &ips, &ports), Verdict::Aborted);
    assert_eq!(classify(&t[..34], &ips, &ports), Verdict::Aborted);
    assert_eq!(classify(&t[..53], &ips, &ports), Verdict::Aborted);
    assert_eq!(classify(&t[..54], &ips, &ports), Verdict::Drop);
    assert_eq!(classify(&u[..41], &ips, &ports), Verdict::Aborted);
    assert_eq!(classify(&u[..42], &ips, &ports), Verdict::Drop);
    assert_eq!(try_aya_minifirewall(&t[..53], &ips, &ports), Err(FilterError::Truncated));
    assert_eq!(aya_minifirewall(&t[..53], &ips, &ports), 0);
}

#[test]
fn header_length_below_minimum_aborts_for_tcp_and_udp() {
    let (ips, ports) = tables(&[], &[]);
    let mut t = tcp([10, 0, 0, 6], [10, 0, 0, 9], 1, 2);
    t[14] = 0x44;
    assert_eq!(try_aya_minifirewall(&t, &ips, &ports), Err(FilterError::Truncated));
    t[14] = 0x40;
    assert_eq!(classify(&t, &ips, &ports), Verdict::Aborted);
    let mut u = udp([10, 0, 0, 6], [10, 0, 0, 9], 1, 2);
    u[14] = 0x43;
    u.extend_from_slice(&[0u8; 64]);
    assert_eq!(classify(&u, &ips, &ports), Verdict::Aborted);
}

#[test]
fn ports_are_found_behind_ipv4_options() {
    let (ips, ports) = tables(&[], &[443]);
    let pkt = transport(ipv4([10, 0, 0, 5], [10, 0, 0, 9], TCP, 7), 1000, 443, 20);
    assert_eq!(pkt.len(), 14 + 28 + 20);
    assert_eq!(get_source_port(&pkt, 7, TCP), Ok(1000));
    assert_eq!(get_dest_port(&pkt, 7, TCP), Ok(443));
    assert_eq!(
        try_aya_minifirewall(&pkt, &ips, &ports),
        Ok(Decision::Drop(DropReason::DestPort(443)))
    );
    assert_eq!(classify(&pkt[..61], &ips, &ports), Verdict::Aborted);
    // The version nibble is not part of the header length.
    let mut high = pkt.clone();
    high[14] = 0xF7;
    assert_eq!(classify(&high, &ips, &ports), Verdict::Drop);
}

#[test]
fn classification_is_repeatable() {
    let (ips, ports) = tables(&[0x0A00_0005], &[80]);
    let packets = vec![
        tcp([10, 0, 0, 5], [10, 0, 0, 9], 1, 2),
        tcp([10, 0, 0, 6], [10, 0, 0, 9], 1, 80),
        udp([10, 0, 0, 6], [10, 0, 0, 9], 1, 2),
        frame([0x08, 0x06]),
        vec![1, 2, 3],
    ];
    for pkt in &packets {
        let first = try_aya_minifirewall(pkt, &ips, &ports);
        for _ in 0..3 {
            assert_eq!(try_aya_minifirewall(pkt, &ips, &ports), first);
            assert_eq!(classify(pkt, &ips, &ports), classify(pkt, &ips, &ports));
        }
    }
}

#[test]
fn verdict_ignores_markers_and_entry_order() {
    let mut ips_a = AddrBlocklist::new();
    let mut ips_b = AddrBlocklist::new();
    ips_a.insert(0x0A00_0005, 1).unwrap();
    ips_a.insert(0x0A00_0009, 2).unwrap();
    ips_b.insert(0x0A00_0009, 77).unwrap();
    ips_b.insert(0x0A00_0005, 0).unwrap();
    let mut ports_a = PortBlocklist::new();
    let mut ports_b = PortBlocklist::new();
    ports_a.insert(80, 1).unwrap();
    ports_a.insert(53, 1).unwrap();
    ports_b.insert(53, 9).unwrap();
    ports_b.insert(80, 0).unwrap();
    let packets = vec![
        tcp([10, 0, 0, 5], [10, 0, 0, 9], 1, 2),
        tcp([10, 0, 0, 6], [10, 0, 0, 9], 1, 80),
        udp([10, 0, 0, 6], [10, 0, 0, 7], 53, 80),
        udp([10, 0, 0, 6], [10, 0, 0, 7], 54, 81),
    ];
    for pkt in &packets {
        assert_eq!(
            try_aya_minifirewall(pkt, &ips_a, &ports_a),
            try_aya_minifirewall(pkt, &ips_b, &ports_b)
        );
    }
}

#[test]
fn view_at_checks_bounds_without_wrapping() {
    let pkt: Vec<u8> = (0u8..40).collect();
    assert_eq!(view_at(&pkt, 14, 20), Ok(&pkt[14..34]));
    assert_eq!(view_at(&pkt, 0, 40), Ok(&pkt[..]));
    assert_eq!(view_at(&pkt, 40, 0), Ok(&pkt[40..]));
    assert_eq!(view_at(&pkt, 21, 20), Err(FilterError::Truncated));
    assert_eq!(view_at(&pkt, 41, 0), Err(FilterError::Truncated));
    assert_eq!(view_at(&pkt, usize::MAX, 2), Err(FilterError::Truncated));
    assert_eq!(view_at(&pkt, 2, usize::MAX), Err(FilterError::Truncated));
    assert_eq!(view_at(&pkt, usize::MAX, usize::MAX), Err(FilterError::Truncated));
}

#[test]
fn header_fields_are_read_big_endian() {
    let pkt = tcp([10, 0, 0, 5], [192, 168, 1, 100], 0x1234, 80);
    assert_eq!(ether_type(&pkt), Ok(0x0800));
    assert_eq!(ether_type(&pkt[..13]), Err(FilterError::Truncated));
    assert_eq!(
        ipv4_fields(&pkt),
        Ok(Ipv4Fields { ihl: 5, protocol: 6, source: 167_772_165, dest: 3_232_235_876 })
    );
    assert_eq!(ipv4_fields(&pkt[..33]), Err(FilterError::Truncated));
    assert_eq!(get_source_port(&pkt, 5, TCP), Ok(4660));
    assert_eq!(get_dest_port(&pkt, 5, TCP), Ok(80));
    let all = tcp([255, 255, 255, 255], [255, 255, 255, 254], 0xFFFF, 0xFF00);
    let f = ipv4_fields(&all).unwrap();
    assert_eq!(f.source, u32::MAX);
    assert_eq!(f.dest, u32::MAX - 1);
    assert_eq!(get_source_port(&all, 5, TCP), Ok(u16::MAX));
    assert_eq!(get_dest_port(&all, 5, TCP), Ok(0xFF00));
}

#[test]
fn port_of_other_protocol_is_unsupported() {
    let pkt = transport(ipv4([10, 0, 0, 5], [10, 0, 0, 9], PING, 5), 7, 9, 20);
    assert_eq!(get_source_port(&pkt, 5, PING), Err(FilterError::UnsupportedProtocol));
    assert_eq!(get_dest_port(&pkt, 5, 0), Err(FilterError::UnsupportedProtocol));
    assert_eq!(get_dest_port(&pkt, 4, PING), Err(FilterError::UnsupportedProtocol));
    assert_eq!(get_source_port(&pkt, 4, TCP), Err(FilterError::Truncated));
    assert_eq!(get_source_port(&pkt, 15, UDP), Err(FilterError::Truncated));
    assert_eq!(get_source_port(&pkt, 5, UDP), Ok(7));
    assert_eq!(get_dest_port(&pkt, 5, TCP), Ok(9));
}

#[test]
fn transport_header_sizes_differ_by_protocol() {
    // 14 + 20 + 8 bytes: enough for UDP, too short for TCP.
    let u = udp([10, 0, 0, 5], [10, 0, 0, 9], 5, 6);
    assert_eq!(u.len(), 42);
    assert_eq!(get_source_port(&u, 5, UDP), Ok(5));
    assert_eq!(get_source_port(&u, 5, TCP), Err(FilterError::Truncated));
    let t = tcp([10, 0, 0, 5], [10, 0, 0, 9], 5, 6);
    assert_eq!(get_dest_port(&t[..54], 5, TCP), Ok(6));
    assert_eq!(get_dest_port(&t[..53], 5, TCP), Err(FilterError::Truncated));
    assert_eq!(get_dest_port(&u[..41], 5, UDP), Err(FilterError::Truncated));
}

#[test]
fn action_codes_are_those_of_the_hook() {
    assert_eq!(Verdict::Aborted.code(), 0);
    assert_eq!(Verdict::Drop.code(), 1);
    assert_eq!(Verdict::Pass.code(), 2);
    assert_eq!(Verdict::Aborted.code(), aya_ebpf::bindings::xdp_action::XDP_ABORTED);
    assert_eq!(Verdict::Drop.code(), aya_ebpf::bindings::xdp_action::XDP_DROP);
    assert_eq!(Verdict::Pass.code(), aya_ebpf::bindings::xdp_action::XDP_PASS);
}

#[test]
fn layout_matches_the_header_types() {
    assert_eq!(network_types::eth::EthHdr::LEN, aya_minifirewall::layout::ETH_HDR_LEN);
    assert_eq!(network_types::ip::Ipv4Hdr::LEN, aya_minifirewall::layout::IPV4_HDR_LEN);
    assert_eq!(network_types::tcp::TcpHdr::LEN, aya_minifirewall::layout::TCP_HDR_LEN);
    assert_eq!(network_types::udp::UdpHdr::LEN, aya_minifirewall::layout::UDP_HDR_LEN);
    assert_eq!(
        u8::from(network_types::ip::IpProto::Tcp),
        aya_minifirewall::layout::PROTO_TCP
    );
    assert_eq!(
        u8::from(network_types::ip::IpProto::Udp),
        aya_minifirewall::layout::PROTO_UDP
    );
    assert_eq!(
        u16::from(network_types::eth::EtherType::Ipv4).to_ne_bytes(),
        aya_minifirewall::layout::ETHER_TYPE_IPV4.to_be_bytes()
    );
}

#[test]
fn verdict_for_each_decision() {
    assert_eq!(aya_minifirewall::verdict_for(Ok(Decision::Pass)), Verdict::Pass);
    assert_eq!(
        aya_minifirewall::verdict_for(Ok(Decision::Drop(DropReason::SourceAddr(1)))),
        Verdict::Drop
    );
    assert_eq!(
        aya_minifirewall::verdict_for(Ok(Decision::Drop(DropReason::DestPort(1)))),
        Verdict::Drop
    );
    assert_eq!(aya_minifirewall::verdict_for(Err(FilterError::Truncated)), Verdict::Aborted);
    assert_eq!(
        aya_minifirewall::verdict_for(Err(FilterError::UnsupportedProtocol)),
        Verdict::Aborted
    );
}
