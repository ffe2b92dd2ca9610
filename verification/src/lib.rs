//! Per-packet ingress filter: header parsing with explicit bounds checks and a
//! blocklist decision over IPv4 addresses and TCP/UDP ports.

pub mod addr_table;
pub mod control;
pub mod engine;
pub mod laws;
pub mod layout;
pub mod packet;
pub mod port_table;
pub mod table;
pub mod verdict;

pub use addr_table::AddrBlocklist;
pub use control::{block_ip, block_port, list_rules, unblock_ip, unblock_port, Rules};
pub use engine::{aya_minifirewall, classify, try_aya_minifirewall, verdict_for};
pub use packet::{FilterError, Ipv4Fields};
pub use port_table::PortBlocklist;
pub use table::{Marker, TableFull, CAPACITY};
pub use verdict::{Decision, DropReason, Verdict};
