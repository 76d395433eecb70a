//! The record reported for one live host.
use crate::address::IpAddress;
use crate::ports::{answered_ports, lists_answers, strictly_ascending};
use vstd::prelude::*;
use vstd::string::StringExecFns;

verus! {

/// What was learnt of one live host.
///
/// `latency_us` is the round trip of one echo request in microseconds, or
/// `None` where the measurement failed; `hostname` is `None` where the
/// reverse lookup failed.
#[derive(Clone, Debug)]
pub struct HostInfo {
    pub address: IpAddress,
    pub hostname: Option<String>,
    pub latency_us: Option<u64>,
    pub open_ports: Vec<u16>,
}

/// The mathematical content of a [`HostInfo`].
pub struct HostView {
    pub address: IpAddress,
    pub hostname: Option<Seq<char>>,
    pub latency_us: Option<u64>,
    pub open_ports: Seq<u16>,
}

/// The characters of a hostname, if there is one.
pub open spec fn name_view(h: Option<String>) -> Option<Seq<char>> {
    match h {
        Some(s) => Some(s@),
        None => None,
    }
}

/// The decimal digit `d`, for `d < 10`.
pub open spec fn digit_char(d: nat) -> char {
    (('0' as u32) + d) as char
}

/// `n` written in decimal, without leading zeros.
pub open spec fn decimal(n: nat) -> Seq<char>
    decreases n,
{
    if n < 10 {
        seq![digit_char(n)]
    } else {
        decimal(n / 10).push(digit_char(n % 10))
    }
}

/// The ports of `s` in decimal, separated by a comma and a space.
pub open spec fn joined_ports(s: Seq<u16>) -> Seq<char>
    decreases s.len(),
{
    if s.len() <= 1 {
        if s.len() == 0 {
            seq![]
        } else {
            decimal(s[0] as nat)
        }
    } else {
        joined_ports(s.drop_last()) + ", "@ + decimal(s.last() as nat)
    }
}

/// The open-port column of a report: the ports joined, or `None`.
pub open spec fn ports_text(s: Seq<u16>) -> Seq<char> {
    if s.len() == 0 {
        "None"@
    } else {
        joined_ports(s)
    }
}

/// The one-character text of the digit `d`.
fn digit_str(d: u16) -> (r: &'static str)
    requires
        d < 10,
    ensures
        r@ == seq![digit_char(d as nat)],
{
    proof {
        reveal_strlit("0");
        reveal_strlit("1");
        reveal_strlit("2");
        reveal_strlit("3");
        reveal_strlit("4");
        reveal_strlit("5");
        reveal_strlit("6");
        reveal_strlit("7");
        reveal_strlit("8");
        reveal_strlit("9");
    }
    let r = match d {
        0 => "0",
        1 => "1",
        2 => "2",
        3 => "3",
        4 => "4",
        5 => "5",
        6 => "6",
        7 => "7",
        8 => "8",
        _ => "9",
    };
    assert(r@ =~= seq![digit_char(d as nat)]);
    r
}

/// Appends `n` in decimal to `s`.
fn append_decimal(s: &mut String, n: u16)
    ensures
        final(s)@ == old(s)@ + decimal(n as nat),
    decreases n,
{
    if n >= 10 {
        append_decimal(s, n / 10);
    }
    s.append(digit_str(n % 10));
    assert(final(s)@ =~= old(s)@ + decimal(n as nat));
}

impl View for HostInfo {
    type V = HostView;

    open spec fn view(&self) -> HostView {
        HostView {
            address: self.address,
            hostname: name_view(self.hostname),
            latency_us: self.latency_us,
            open_ports: self.open_ports@,
        }
    }
}

impl HostInfo {
    /// The open ports are ascending and duplicate-free.
    pub open spec fn wf(&self) -> bool {
        strictly_ascending(self.open_ports@)
    }

    /// Assembles the record of a host from the outcomes of its probes:
    /// the reverse lookup, the latency measurement, and the ports whose
    /// probe answered, in any order. Only ports among those probed count.
    pub fn new(
        address: IpAddress,
        hostname: Option<String>,
        latency_us: Option<u64>,
        probed: &Vec<u16>,
        responded: &Vec<u16>,
    ) -> (r: HostInfo)
        ensures
            r.wf(),
            r.address == address,
            r.hostname == hostname,
            r.latency_us == latency_us,
            lists_answers(r.open_ports@, probed@, responded@),
    {
        let ports = answered_ports(probed, responded);
        HostInfo { address, hostname, latency_us, open_ports: ports }
    }

    /// The record of a host none of whose probes has answered yet: no
    /// name, no latency, no open port.
    pub fn unprofiled(address: IpAddress) -> (r: HostInfo)
        ensures
            r.wf(),
            r.address == address,
            r.hostname.is_none(),
            r.latency_us.is_none(),
            r.open_ports@.len() == 0,
    {
        HostInfo { address, hostname: None, latency_us: None, open_ports: Vec::new() }
    }

    /// The open ports in decimal, ascending, separated by `, `; `None`
    /// where no port answered.
    pub fn ports_label(&self) -> (r: String)
        ensures
            r@ == ports_text(self.open_ports@),
    {
        proof {
            reveal_strlit("None");
            reveal_strlit(", ");
        }
        if self.open_ports.len() == 0 {
            return "None".to_owned();
        }
        let mut r = String::new();
        append_decimal(&mut r, self.open_ports[0]);
        assert(self.open_ports@.take(1).drop_last() =~= seq![]);
        assert(r@ =~= joined_ports(self.open_ports@.take(1)));
        let mut i: usize = 1;
        while i < self.open_ports.len()
            invariant
                1 <= i <= self.open_ports.len(),
                r@ == joined_ports(self.open_ports@.take(i as int)),
            decreases self.open_ports.len() - i,
        {
            r.append(", ");
            append_decimal(&mut r, self.open_ports[i]);
            assert(self.open_ports@.take(i + 1).drop_last() =~= self.open_ports@.take(i as int));
            i = i + 1;
            assert(r@ =~= joined_ports(self.open_ports@.take(i as int)));
        }
        assert(self.open_ports@.take(i as int) =~= self.open_ports@);
        r
    }

    /// The hostname, or `Unknown` where the lookup failed.
    pub fn hostname_label(&self) -> (r: String)
        ensures
            r@ == match self.hostname {
                Some(h) => h@,
                None => "Unknown"@,
            },
    {
        match &self.hostname {
            Some(h) => h.clone(),
            None => "Unknown".to_owned(),
        }
    }
}

} // verus!
