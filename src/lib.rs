//! Resolution of a host name or literal address into transport addresses:
//! the DNS message codec, the retry-bounded exchange, the resolver's
//! classification and per-server fallback, and the reachable-address choice.
//! Sockets and threads stay with the caller; every decision is made here.

pub mod addr;
pub mod codec;
pub mod exchange;
pub mod resolver;
pub mod chooser;
