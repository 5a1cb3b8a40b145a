//! Shared enums of the proxy: message kinds, socket options, proxy modes,
//! address mangling methods, and the error taxonomy.

use vstd::prelude::*;

verus! {

/// The two Neighbor Discovery message kinds this proxy builds.
#[derive(Debug, Clone, Copy, PartialEq, Eq, Structural)]
pub enum NDTypes {
    NeighborAdv,
    NeighborSol,
}

/// Socket options whose failure is surfaced as `Error::SocketOpt`.
#[derive(Debug, Clone, Copy, PartialEq, Eq, Structural)]
pub enum SocketOptTypes {
    AllMulti,
    AttachBPF,
    BindToIface,
    SetMultiHop,
    SetUniHop,
}

/// How a proxy answers a Neighbor Solicitation: immediately (`Static`) or
/// only after a downstream host confirmed its presence (`Forward`).
#[derive(Debug, Clone, Copy, PartialEq, Eq, Structural)]
pub enum Proxy {
    Static,
    Forward,
}

/// How the solicited target address is rewritten before probing downstream.
#[derive(Debug, Clone, Copy, PartialEq, Eq, Structural)]
pub enum AddressMangling {
    Nochange,
    Netmap,
    Npt,
}

/// Error taxonomy of the proxy tasks.
#[derive(Debug, Clone, Copy, PartialEq, Eq, Structural)]
pub enum Error {
    /// An IPv6 prefix string could not be parsed.
    IPNet,
    /// The configuration file is malformed or misses a required field.
    Config,
    /// A channel send failed because the receiving proxy is gone.
    Mpsc,
    /// All channel senders closed: the upstream monitors exited.
    MpscRecvNone,
    /// A send or receive failed at the syscall boundary, with the OS errno.
    Io(i32),
    /// Setting a socket option failed.
    SocketOpt(SocketOptTypes),
    /// Framing a Neighbor Advertisement or Solicitation failed.
    PacketGeneration(NDTypes),
}

} // verus!
