//! The network: ports, addresses, sockets and drivers.

pub mod dhcp;
pub mod dns;
pub mod icmp;
pub mod ipv4;
pub mod net_law;
pub mod port;
pub mod raw;
pub mod rtl8152;
pub mod rtl8169;
pub mod socket;
