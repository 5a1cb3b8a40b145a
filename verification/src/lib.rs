//! An IPv6 Neighbor Discovery proxy core: the per-prefix proxy state
//! machine that turns Neighbor Solicitations into verified Neighbor
//! Advertisements, the monitors' frame decisions and kernel filters, the
//! longest-prefix-match routing fabric, the address-translation
//! arithmetic (NPTv6 of RFC 6296, netmap), and the neighbor-presence
//! cache. Everything here is plain data in and plain data out; sockets,
//! channels, clocks and the configuration file live with the program
//! around the library.

pub mod address;
pub mod bpf;
pub mod conf;
pub mod interfaces;
pub mod na_monitor;
pub mod nd_proxy;
pub mod neighbors;
pub mod ns_monitor;
pub mod packets;
pub mod routing;
pub mod types;
