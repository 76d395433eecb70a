//! Discovery of live hosts on an IPv4 or IPv6 network range.
//!
//! The library holds the decisions of a scan: which addresses a network
//! range holds, which of them answered, and what is reported for each live
//! host. The probes themselves (ICMP echo, TCP connect, reverse DNS) are run
//! by the caller, who hands their outcomes back as plain values.
pub mod address;
pub mod cli;
pub mod ports;
pub mod host;
pub mod discovery;
