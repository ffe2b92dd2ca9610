//! The control plane's operations on the two blocklists.

use vstd::prelude::*;
use crate::addr_table::AddrBlocklist;
use crate::port_table::PortBlocklist;
use crate::table::{Marker, TableFull, CAPACITY};

verus! {

/// The marker that the control plane stores with every key it blocks.
pub const BLOCKED: Marker = 1;

/// The keys of both blocklists, each oldest first.
pub struct Rules {
    pub ips: Vec<u32>,
    pub ports: Vec<u16>,
}

/// Blocks the address `ip` (host order). Fails, changing nothing, only where
/// the address is new and the table is full.
pub fn block_ip(blocked_ips: &mut AddrBlocklist, ip: u32) -> (r: Result<(), TableFull>)
    requires
        old(blocked_ips).wf(),
    ensures
        final(blocked_ips).wf(),
        r is Err <==> !old(blocked_ips).blocks(ip) && old(blocked_ips)@.len() >= CAPACITY,
        r is Err ==> final(blocked_ips)@ == old(blocked_ips)@,
        r is Ok && old(blocked_ips).blocks(ip) ==> exists|i: int|
            0 <= i < old(blocked_ips)@.len() && (#[trigger] old(blocked_ips)@[i]).0 == ip
                && final(blocked_ips)@ == old(blocked_ips)@.update(i, (ip, BLOCKED)),
        r is Ok && !old(blocked_ips).blocks(ip) ==> final(blocked_ips)@ == old(blocked_ips)@.push(
            (ip, BLOCKED),
        ),
        r is Ok ==> final(blocked_ips).blocks(ip),
        forall|k: u32| k != ip ==> final(blocked_ips).blocks(k) == old(blocked_ips).blocks(k),
{
    blocked_ips.insert(ip, BLOCKED)
}

/// Unblocks the address `ip`; returns whether it was blocked.
pub fn unblock_ip(blocked_ips: &mut AddrBlocklist, ip: u32) -> (was_blocked: bool)
    requires
        old(blocked_ips).wf(),
    ensures
        final(blocked_ips).wf(),
        was_blocked == old(blocked_ips).blocks(ip),
        !was_blocked ==> final(blocked_ips)@ == old(blocked_ips)@,
        was_blocked ==> exists|i: int|
            0 <= i < old(blocked_ips)@.len() && (#[trigger] old(blocked_ips)@[i]).0 == ip
                && final(blocked_ips)@ == old(blocked_ips)@.remove(i),
        !final(blocked_ips).blocks(ip),
        forall|k: u32| k != ip ==> final(blocked_ips).blocks(k) == old(blocked_ips).blocks(k),
{
    blocked_ips.remove(ip).is_some()
}

/// Blocks `port`. Fails, changing nothing, only where the port is new and the
/// table is full.
pub fn block_port(blocked_ports: &mut PortBlocklist, port: u16) -> (r: Result<(), TableFull>)
    requires
        old(blocked_ports).wf(),
    ensures
        final(blocked_ports).wf(),
        r is Err <==> !old(blocked_ports).blocks(port) && old(blocked_ports)@.len()
            >= CAPACITY,
        r is Err ==> final(blocked_ports)@ == old(blocked_ports)@,
        r is Ok && old(blocked_ports).blocks(port) ==> exists|i: int|
            0 <= i < old(blocked_ports)@.len() && (#[trigger] old(blocked_ports)@[i]).0 == port
                && final(blocked_ports)@ == old(blocked_ports)@.update(i, (port, BLOCKED)),
        r is Ok && !old(blocked_ports).blocks(port) ==> final(blocked_ports)@ == old(
            blocked_ports,
        )@.push((port, BLOCKED)),
        r is Ok ==> final(blocked_ports).blocks(port),
        forall|k: u16| k != port ==> final(blocked_ports).blocks(k) == old(blocked_ports).blocks(k),
{
    blocked_ports.insert(port, BLOCKED)
}

/// Unblocks `port`; returns whether it was blocked.
pub fn unblock_port(blocked_ports: &mut PortBlocklist, port: u16) -> (was_blocked: bool)
    requires
        old(blocked_ports).wf(),
    ensures
        final(blocked_ports).wf(),
        was_blocked == old(blocked_ports).blocks(port),
        !was_blocked ==> final(blocked_ports)@ == old(blocked_ports)@,
        was_blocked ==> exists|i: int|
            0 <= i < old(blocked_ports)@.len() && (#[trigger] old(blocked_ports)@[i]).0 == port
                && final(blocked_ports)@ == old(blocked_ports)@.remove(i),
        !final(blocked_ports).blocks(port),
        forall|k: u16| k != port ==> final(blocked_ports).blocks(k) == old(blocked_ports).blocks(k),
{
    blocked_ports.remove(port).is_some()
}

/// Lists the blocked addresses and the blocked ports, each in the order in
/// which they were added.
pub fn list_rules(blocked_ips: &AddrBlocklist, blocked_ports: &PortBlocklist) -> (rules: Rules)
    ensures
        rules.ips@.len() == blocked_ips@.len(),
        forall|i: int| 0 <= i < blocked_ips@.len() ==> rules.ips@[i] == (#[trigger] blocked_ips@[i]).0,
        rules.ports@.len() == blocked_ports@.len(),
        forall|i: int|
            0 <= i < blocked_ports@.len() ==> rules.ports@[i] == (#[trigger] blocked_ports@[i]).0,
        blocked_ips.wf() ==> rules.ips@.no_duplicates(),
        blocked_ports.wf() ==> rules.ports@.no_duplicates(),
{
    Rules { ips: blocked_ips.keys(), ports: blocked_ports.keys() }
}

} // verus!
