//! The outcome of classifying one packet.

use vstd::prelude::*;

verus! {

/// What the filter decides for one packet.
#[derive(Clone, Copy, Debug, PartialEq, Eq, Structural)]
pub enum Verdict {
    /// The packet is let through.
    Pass,
    /// The packet was classified and rejected by policy.
    Drop,
    /// The packet could not be safely classified.
    Aborted,
}

/// The rule that made the filter drop a packet, with the blocked key.
#[derive(Clone, Copy, Debug, PartialEq, Eq, Structural)]
pub enum DropReason {
    /// The source address is blocked.
    SourceAddr(u32),
    /// The destination address is blocked.
    DestAddr(u32),
    /// The source port is blocked.
    SourcePort(u16),
    /// The destination port is blocked.
    DestPort(u16),
}

/// What policy says of a packet whose headers could be read.
#[derive(Clone, Copy, Debug, PartialEq, Eq, Structural)]
pub enum Decision {
    /// No rule matched.
    Pass,
    /// The first rule that matched.
    Drop(DropReason),
}

/// Numeric action code that the ingress hook takes for each outcome.
pub open spec fn action_code(v: Verdict) -> u32 {
    match v {
        Verdict::Aborted => 0,
        Verdict::Drop => 1,
        Verdict::Pass => 2,
    }
}

/// The hook's code for "aborted": the constant `XDP_ABORTED` of aya_ebpf's
/// bindings, which the kernel's interface fixes at 0.
#[verifier::external_body]
fn xdp_aborted() -> (code: u32)
    ensures
        code == 0,
{
    aya_ebpf::bindings::xdp_action::XDP_ABORTED
}

/// The hook's code for "drop": the constant `XDP_DROP` of aya_ebpf's bindings,
/// which the kernel's interface fixes at 1.
#[verifier::external_body]
fn xdp_drop() -> (code: u32)
    ensures
        code == 1,
{
    aya_ebpf::bindings::xdp_action::XDP_DROP
}

/// The hook's code for "pass": the constant `XDP_PASS` of aya_ebpf's bindings,
/// which the kernel's interface fixes at 2.
#[verifier::external_body]
fn xdp_pass() -> (code: u32)
    ensures
        code == 2,
{
    aya_ebpf::bindings::xdp_action::XDP_PASS
}

impl Verdict {
    /// The numeric action code handed back to the ingress hook.
    pub fn code(self) -> (code: u32)
        ensures
            code == action_code(self),
    {
        match self {
            Verdict::Aborted => xdp_aborted(),
            Verdict::Drop => xdp_drop(),
            Verdict::Pass => xdp_pass(),
        }
    }
}

} // verus!
