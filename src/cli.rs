//! The scan's configuration as given on the command line.
use crate::discovery::ScanConfig;
use crate::ports::{default_port_list, default_ports, distinct_ports, is_port_set_of};
use vstd::prelude::*;

verus! {

/// Time allowed to each probe when none is given, in milliseconds.
pub const DEFAULT_TIMEOUT_MS: u64 = 1000;

/// The options of one run: the network to scan in CIDR notation, the probe
/// timeout in milliseconds, and the ports to probe if not the default ones.
#[derive(Clone, Debug)]
pub struct Cli {
    pub network: String,
    pub timeout: u64,
    pub ports: Option<Vec<u16>>,
}

impl Cli {
    /// The configured ports, each once and in the order first given, or
    /// the default well-known ports.
    pub fn get_ports(&self) -> (r: Vec<u16>)
        ensures
            match self.ports {
                Some(p) => is_port_set_of(r@, p@),
                None => r@ == default_port_list(),
            },
    {
        match &self.ports {
            Some(p) => distinct_ports(p),
            None => default_ports(),
        }
    }

    /// What each probe of a scan run with these options is given.
    pub fn scan_config(&self) -> (r: ScanConfig)
        ensures
            r.timeout_ms == self.timeout,
            match self.ports {
                Some(p) => is_port_set_of(r.ports@, p@),
                None => r.ports@ == default_port_list(),
            },
    {
        ScanConfig { timeout_ms: self.timeout, ports: self.get_ports() }
    }
}

/// The options of a run from what was given on the command line, with the
/// default timeout where none was given.
pub fn load_config(network: String, timeout: Option<u64>, ports: Option<Vec<u16>>) -> (r: Cli)
    ensures
        r.network == network,
        r.timeout == match timeout {
            Some(t) => t,
            None => DEFAULT_TIMEOUT_MS,
        },
        r.ports == ports,
{
    let timeout = match timeout {
        Some(t) => t,
        None => DEFAULT_TIMEOUT_MS,
    };
    Cli { network, timeout, ports }
}

} // verus!
