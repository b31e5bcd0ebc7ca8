use vstd::prelude::*;

verus! {

/// A transport address: an IP address of either family and a port.
/// IPv4 addresses are held as their 32-bit value, IPv6 ones as 128 bits.
#[derive(Clone, Copy, Debug, PartialEq, Eq, Structural)]
pub enum SockAddr {
    V4 { ip: u32, port: u16 },
    V6 { ip: u128, port: u16, flowinfo: u32, scope_id: u32 },
}

impl SockAddr {
    pub open spec fn spec_is_v6(self) -> bool {
        self is V6
    }

    pub fn is_v6(&self) -> (r: bool)
        ensures
            r == self.spec_is_v6(),
    {
        match self {
            SockAddr::V4 { .. } => false,
            SockAddr::V6 { .. } => true,
        }
    }
}

/// Why one exchange with one name server failed.
#[derive(Clone, Copy, Debug, PartialEq, Eq, Structural)]
pub enum ExchangeError {
    /// Binding, sending or receiving failed, or every attempt timed out.
    Transport,
    /// The reply did not parse, reported a failure, held no answers, or held
    /// an answer of the wrong shape.
    Protocol,
}

/// Why a resolution failed.
#[derive(Clone, Debug)]
pub enum ResolveError {
    /// The input or a name-server address is malformed.
    Format,
    /// No name server is configured for a query that needs one.
    NoNameServers,
    /// The single exchange of a TXT query failed.
    Exchange(ExchangeError),
    /// Every name server was tried; the failures met on the way, in order.
    Exhausted(Vec<ExchangeError>),
    /// No candidate address could be connected to.
    Unreachable,
}

} // verus!
