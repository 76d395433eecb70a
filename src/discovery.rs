//! The two phases of a scan.
//!
//! A [`Sweep`] lists the candidate addresses of a range and collects one
//! liveness outcome per address. Once every echo probe has finished, it turns
//! into a [`Profiling`], which holds one slot per live host and collects the
//! outcome of that host's lookups. Each outcome is recorded at the index of
//! its address, so the order in which concurrent probes finish has no
//! bearing on what is reported.
use crate::address::{cidr_of, lemma_addresses_distinct, read_cidr, IpAddress, NetworkRange};
use crate::host::{name_view, HostInfo};
use crate::ports::{lemma_strictly_ascending_unique, lists_answers};
use vstd::prelude::*;

verus! {

/// Why a scan could not start.
#[derive(Clone, Copy, Debug, PartialEq, Eq, Structural)]
pub enum DiscoverError {
    /// The network specification is not CIDR notation for IPv4 or IPv6.
    InvalidRange,
    /// The range holds more addresses than fit in memory.
    RangeTooLarge,
}

/// What every probe of a scan is given.
#[derive(Clone, Debug)]
pub struct ScanConfig {
    /// Time allowed to each probe, in milliseconds.
    pub timeout_ms: u64,
    /// The ports probed on each live host.
    pub ports: Vec<u16>,
}

/// The candidates whose liveness probe answered, in candidate order.
pub open spec fn live_of(candidates: Seq<IpAddress>, reachable: Seq<bool>) -> Seq<IpAddress>
    decreases candidates.len(),
{
    if candidates.len() == 0 {
        seq![]
    } else {
        let n = candidates.len() - 1;
        let rest = live_of(candidates.take(n), reachable);
        if reachable[n] {
            rest.push(candidates[n])
        } else {
            rest
        }
    }
}

/// Every live address is a candidate whose probe answered.
proof fn lemma_live_of_answered(candidates: Seq<IpAddress>, reachable: Seq<bool>, a: IpAddress)
    requires
        live_of(candidates, reachable).contains(a),
    ensures
        exists|i: int| 0 <= i < candidates.len() && candidates[i] == a && reachable[i],
    decreases candidates.len(),
{
    let n = candidates.len() - 1;
    let rest = live_of(candidates.take(n), reachable);
    if reachable[n] && a == candidates[n] {
        assert(candidates[n] == a);
    } else {
        if reachable[n] {
            let j = choose|j: int| 0 <= j < rest.push(candidates[n]).len() && rest.push(candidates[n])[j] == a;
            assert(rest[j] == a);
        }
        assert(rest.contains(a));
        lemma_live_of_answered(candidates.take(n), reachable, a);
        let i = choose|i: int| 0 <= i < n && candidates.take(n)[i] == a && reachable[i];
        assert(candidates[i] == a);
    }
}

/// An address whose liveness probe never answered is not live, and so is
/// never profiled nor reported.
pub proof fn lemma_unreachable_never_live(candidates: Seq<IpAddress>, reachable: Seq<bool>, a: IpAddress)
    requires
        reachable.len() == candidates.len(),
        forall|i: int| 0 <= i < candidates.len() && candidates[i] == a ==> !reachable[i],
    ensures
        !live_of(candidates, reachable).contains(a),
{
    if live_of(candidates, reachable).contains(a) {
        lemma_live_of_answered(candidates, reachable, a);
    }
}

/// Where no candidate is listed twice, no live address is listed twice.
pub proof fn lemma_live_of_distinct(candidates: Seq<IpAddress>, reachable: Seq<bool>)
    requires
        forall|i: int, j: int|
            0 <= i < j < candidates.len() ==> candidates[i] != candidates[j],
    ensures
        forall|i: int, j: int|
            0 <= i < j < live_of(candidates, reachable).len() ==> live_of(candidates, reachable)[i]
                != live_of(candidates, reachable)[j],
    decreases candidates.len(),
{
    if candidates.len() > 0 {
        let n = candidates.len() - 1;
        let t = candidates.take(n);
        lemma_live_of_distinct(t, reachable);
        let rest = live_of(t, reachable);
        if reachable[n] {
            if rest.contains(candidates[n]) {
                lemma_live_of_answered(t, reachable, candidates[n]);
                let i = choose|i: int| 0 <= i < t.len() && t[i] == candidates[n] && reachable[i];
                assert(candidates[i] == candidates[n]);
            }
            let all = rest.push(candidates[n]);
            assert forall|i: int, j: int| 0 <= i < j < all.len() implies all[i] != all[j] by {
                if j == rest.len() {
                    assert(rest.contains(rest[i]));
                }
            }
        }
    }
}

/// A scan reports each address at most once.
pub proof fn lemma_reported_once(n: NetworkRange, sweep: Sweep, p: Profiling)
    requires
        n.wf(),
        sweep.wf(),
        sweep.candidates@ == n.addresses(),
        p.wf(),
        p.live@ == live_of(sweep.candidates@, sweep.reachable@),
    ensures
        forall|i: int, j: int|
            0 <= i < j < p.hosts.len() ==> p.hosts@[i].address != p.hosts@[j].address,
{
    lemma_addresses_distinct(n);
    lemma_live_of_distinct(sweep.candidates@, sweep.reachable@);
    assert forall|i: int, j: int| 0 <= i < j < p.hosts.len() implies p.hosts@[i].address
        != p.hosts@[j].address by {
        assert(p.hosts@[i].address == p.live@[i]);
        assert(p.hosts@[j].address == p.live@[j]);
    }
}

/// No host of a profiling that follows a sweep has an address whose echo
/// probe never answered in that sweep.
pub proof fn lemma_unreachable_never_reported(sweep: Sweep, p: Profiling, a: IpAddress)
    requires
        sweep.wf(),
        p.wf(),
        p.live@ == live_of(sweep.candidates@, sweep.reachable@),
        forall|i: int|
            0 <= i < sweep.candidates.len() && sweep.candidates@[i] == a ==> !sweep.reachable@[i],
    ensures
        forall|j: int| 0 <= j < p.hosts.len() ==> (#[trigger] p.hosts@[j]).address != a,
{
    lemma_unreachable_never_live(sweep.candidates@, sweep.reachable@, a);
    assert forall|j: int| 0 <= j < p.hosts.len() implies (#[trigger] p.hosts@[j]).address != a by {
        assert(p.hosts@[j].address == p.live@[j]);
        if p.live@[j] == a {
            assert(p.live@.contains(a));
        }
    }
}

/// Phase one: the candidate addresses and what their echo probes gave.
pub struct Sweep {
    pub config: ScanConfig,
    pub candidates: Vec<IpAddress>,
    /// `reachable[i]` is the outcome recorded for `candidates[i]`.
    pub reachable: Vec<bool>,
}

impl Sweep {
    pub open spec fn wf(&self) -> bool {
        self.reachable.len() == self.candidates.len()
    }

    /// Starts a scan of the range written in CIDR notation. Nothing is
    /// probed before this succeeds.
    pub fn new(cidr: &str, config: ScanConfig) -> (r: Result<Sweep, DiscoverError>)
        ensures
            match cidr_of(cidr@) {
                None => r == Err::<Sweep, DiscoverError>(DiscoverError::InvalidRange),
                Some(n) => Sweep::started(n, config, r),
            },
    {
        match read_cidr(cidr) {
            Some(n) => Sweep::for_range(n, config),
            None => Err(DiscoverError::InvalidRange),
        }
    }

    /// `r` is the start of a scan of `n`: every address of the range, none
    /// of them answered yet; or `RangeTooLarge` where the addresses do not
    /// fit in memory.
    pub open spec fn started(n: NetworkRange, config: ScanConfig, r: Result<Sweep, DiscoverError>) -> bool {
        if n.size() > usize::MAX {
            r == Err::<Sweep, DiscoverError>(DiscoverError::RangeTooLarge)
        } else {
            &&& r is Ok
            &&& r->Ok_0.wf()
            &&& r->Ok_0.config == config
            &&& r->Ok_0.candidates@ == n.addresses()
            &&& forall|i: int| 0 <= i < n.size() ==> !(#[trigger] r->Ok_0.reachable@[i])
        }
    }

    /// Starts a scan of a parsed range.
    pub fn for_range(n: NetworkRange, config: ScanConfig) -> (r: Result<Sweep, DiscoverError>)
        requires
            n.wf(),
        ensures
            Sweep::started(n, config, r),
    {
        let size = match n.address_count() {
            Some(c) => c,
            None => {
                return Err(DiscoverError::RangeTooLarge);
            },
        };
        let candidates = n.enumerate_addresses();
        let mut reachable: Vec<bool> = Vec::new();
        let mut i: usize = 0;
        while i < size
            invariant
                i <= size,
                reachable.len() == i,
                forall|j: int| 0 <= j < i ==> !(#[trigger] reachable@[j]),
            decreases size - i,
        {
            reachable.push(false);
            i = i + 1;
        }
        Ok(Sweep { config, candidates, reachable })
    }

    /// Records the outcome of the echo probe of `candidates[index]`.
    pub fn record_liveness(&mut self, index: usize, reachable: bool)
        requires
            old(self).wf(),
            index < old(self).candidates.len(),
        ensures
            final(self).wf(),
            final(self).config == old(self).config,
            final(self).candidates == old(self).candidates,
            final(self).reachable@ == old(self).reachable@.update(index as int, reachable),
    {
        self.reachable.set(index, reachable);
    }

    /// The addresses whose echo probe answered, in candidate order.
    pub fn live_hosts(&self) -> (r: Vec<IpAddress>)
        requires
            self.wf(),
        ensures
            r@ == live_of(self.candidates@, self.reachable@),
    {
        let mut out: Vec<IpAddress> = Vec::new();
        let mut i: usize = 0;
        while i < self.candidates.len()
            invariant
                self.wf(),
                i <= self.candidates.len(),
                out@ == live_of(self.candidates@.take(i as int), self.reachable@),
            decreases self.candidates.len() - i,
        {
            assert(self.candidates@.take(i + 1).take(i as int) =~= self.candidates@.take(i as int));
            if self.reachable[i] {
                out.push(self.candidates[i]);
            }
            i = i + 1;
        }
        assert(self.candidates@.take(i as int) =~= self.candidates@);
        out
    }

    /// Ends phase one: every live host gets a slot, not yet profiled.
    pub fn finish(self) -> (r: Profiling)
        requires
            self.wf(),
        ensures
            r.wf(),
            r.config == self.config,
            r.live@ == live_of(self.candidates@, self.reachable@),
            forall|i: int| 0 <= i < r.live.len() ==> !(#[trigger] r.done@[i]),
    {
        let live = self.live_hosts();
        let mut hosts: Vec<HostInfo> = Vec::new();
        let mut done: Vec<bool> = Vec::new();
        let mut i: usize = 0;
        while i < live.len()
            invariant
                i <= live.len(),
                hosts.len() == i,
                done.len() == i,
                forall|j: int| 0 <= j < i ==> (#[trigger] hosts@[j]).address == live@[j] && hosts@[j].wf(),
                forall|j: int| 0 <= j < i ==> !(#[trigger] done@[j]),
            decreases live.len() - i,
        {
            hosts.push(HostInfo::unprofiled(live[i]));
            done.push(false);
            i = i + 1;
        }
        Profiling { config: self.config, live, hosts, done }
    }
}

/// Phase two: one slot per live host, filled as its profile completes.
pub struct Profiling {
    pub config: ScanConfig,
    pub live: Vec<IpAddress>,
    /// `hosts[i]` is the record of `live[i]`.
    pub hosts: Vec<HostInfo>,
    /// `done[i]` tells whether the probes of `live[i]` have been recorded.
    pub done: Vec<bool>,
}

impl Profiling {
    pub open spec fn wf(&self) -> bool {
        &&& self.hosts.len() == self.live.len()
        &&& self.done.len() == self.live.len()
        &&& forall|i: int|
            0 <= i < self.live.len() ==> (#[trigger] self.hosts@[i]).address == self.live@[i]
                && self.hosts@[i].wf()
    }

    /// Whether every live host has been profiled.
    pub open spec fn complete(&self) -> bool {
        forall|i: int| 0 <= i < self.done.len() ==> #[trigger] self.done@[i]
    }

    /// Records the outcome of the probes of `live[index]`: the reverse
    /// lookup, the latency measurement, and the ports that answered, in any
    /// order; a port outside the configured ones is not counted. A failed
    /// probe degrades its own field only.
    pub fn record_profile(
        &mut self,
        index: usize,
        hostname: Option<String>,
        latency_us: Option<u64>,
        responded: &Vec<u16>,
    )
        requires
            old(self).wf(),
            index < old(self).live.len(),
        ensures
            final(self).wf(),
            final(self).config == old(self).config,
            final(self).live == old(self).live,
            final(self).done@ == old(self).done@.update(index as int, true),
            forall|j: int|
                0 <= j < old(self).live.len() && j != index ==> final(self).hosts@[j]
                    == old(self).hosts@[j],
            final(self).hosts@[index as int].address == old(self).live@[index as int],
            final(self).hosts@[index as int].hostname == hostname,
            final(self).hosts@[index as int].latency_us == latency_us,
            lists_answers(
                final(self).hosts@[index as int].open_ports@,
                old(self).config.ports@,
                responded@,
            ),
    {
        let info = HostInfo::new(self.live[index], hostname, latency_us, &self.config.ports, responded);
        self.hosts.set(index, info);
        self.done.set(index, true);
    }

    /// Whether every live host has been profiled.
    pub fn is_complete(&self) -> (r: bool)
        requires
            self.wf(),
        ensures
            r == self.complete(),
    {
        let mut i: usize = 0;
        while i < self.done.len()
            invariant
                i <= self.done.len(),
                forall|j: int| 0 <= j < i ==> #[trigger] self.done@[j],
            decreases self.done.len() - i,
        {
            if !self.done[i] {
                return false;
            }
            i = i + 1;
        }
        true
    }

    /// The discovered hosts, one per live address in candidate order, once
    /// every live host has been profiled; `None` before that, so that no
    /// partial result is handed out.
    pub fn report(self) -> (r: Option<Vec<HostInfo>>)
        requires
            self.wf(),
        ensures
            r is Some <==> self.complete(),
            r matches Some(v) ==> v@ == self.hosts@,
    {
        if self.is_complete() {
            Some(self.hosts)
        } else {
            None
        }
    }
}

/// Liveness outcomes recorded at two different indices give the same sweep
/// in either order.
pub proof fn lemma_liveness_records_commute(
    reachable: Seq<bool>,
    i: int,
    a: bool,
    j: int,
    b: bool,
)
    requires
        0 <= i < reachable.len(),
        0 <= j < reachable.len(),
        i != j,
    ensures
        reachable.update(i, a).update(j, b) == reachable.update(j, b).update(i, a),
{
    assert(reachable.update(i, a).update(j, b) =~= reachable.update(j, b).update(i, a));
}

/// Two scans of the same live hosts whose probes gave, host by host, the
/// same name, the same latency and the same answering ports (in whatever
/// order they answered) report the same hosts, field for field.
pub proof fn lemma_same_outcomes_same_report(a: Profiling, b: Profiling)
    requires
        a.wf(),
        b.wf(),
        a.live@ == b.live@,
        forall|i: int|
            0 <= i < a.live.len() ==> name_view((#[trigger] a.hosts@[i]).hostname) == name_view(
                b.hosts@[i].hostname,
            ) && a.hosts@[i].latency_us == b.hosts@[i].latency_us && (forall|p: u16|
                a.hosts@[i].open_ports@.contains(p) <==> b.hosts@[i].open_ports@.contains(p)),
    ensures
        a.hosts@.map_values(|h: HostInfo| h@) == b.hosts@.map_values(|h: HostInfo| h@),
{
    assert forall|i: int| 0 <= i < a.live.len() implies (#[trigger] a.hosts@[i])@ == b.hosts@[i]@ by {
        lemma_strictly_ascending_unique(a.hosts@[i].open_ports@, b.hosts@[i].open_ports@);
    }
    assert(a.hosts@.map_values(|h: HostInfo| h@) =~= b.hosts@.map_values(|h: HostInfo| h@));
}

} // verus!
