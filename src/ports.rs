//! Port sets and the list of ports that a host answered on.
use vstd::prelude::*;

verus! {

/// The ports probed when none are configured.
pub open spec fn default_port_list() -> Seq<u16> {
    seq![21, 22, 23, 25, 53, 80, 110, 143, 443, 445, 3306, 3389, 5432, 5900, 8080, 8443]
}

/// Each element is smaller than the next: ascending with no duplicates.
pub open spec fn strictly_ascending(s: Seq<u16>) -> bool {
    forall|i: int, j: int| 0 <= i < j < s.len() ==> s[i] < s[j]
}

/// `r` lists the ports of `of` once each, in ascending order.
pub open spec fn is_sorted_listing(r: Seq<u16>, of: Seq<u16>) -> bool {
    &&& strictly_ascending(r)
    &&& forall|p: u16| r.contains(p) <==> of.contains(p)
}

/// No port occurs twice.
pub open spec fn no_repeats(s: Seq<u16>) -> bool {
    forall|i: int, j: int| 0 <= i < j < s.len() ==> s[i] != s[j]
}

/// `r` holds the ports of `p` once each, and is `p` itself where `p` has no
/// repeated port.
pub open spec fn is_port_set_of(r: Seq<u16>, p: Seq<u16>) -> bool {
    &&& no_repeats(r)
    &&& forall|q: u16| r.contains(q) <==> p.contains(q)
    &&& no_repeats(p) ==> r == p
}

/// `r` lists, ascending and once each, the ports that answered among those
/// that were probed.
pub open spec fn lists_answers(r: Seq<u16>, probed: Seq<u16>, responded: Seq<u16>) -> bool {
    &&& strictly_ascending(r)
    &&& forall|p: u16| r.contains(p) <==> (responded.contains(p) && probed.contains(p))
}

/// Whether `p` occurs in `v`.
pub fn contains_port(v: &Vec<u16>, p: u16) -> (r: bool)
    ensures
        r == v@.contains(p),
{
    let mut i: usize = 0;
    while i < v.len()
        invariant
            i <= v.len(),
            forall|j: int| 0 <= j < i ==> v@[j] != p,
        decreases v.len() - i,
    {
        if v[i] == p {
            return true;
        }
        i = i + 1;
    }
    false
}

/// The ports of `p` in their order, each kept at its first occurrence only.
pub fn distinct_ports(p: &Vec<u16>) -> (r: Vec<u16>)
    ensures
        no_repeats(r@),
        forall|q: u16| r@.contains(q) <==> p@.contains(q),
        no_repeats(p@) ==> r@ == p@,
{
    let mut r: Vec<u16> = Vec::new();
    let mut k: usize = 0;
    while k < p.len()
        invariant
            k <= p.len(),
            no_repeats(r@),
            forall|q: u16| r@.contains(q) <==> p@.take(k as int).contains(q),
            no_repeats(p@) ==> r@ == p@.take(k as int),
        decreases p.len() - k,
    {
        let x = p[k];
        let ghost prev = p@.take(k as int);
        let ghost next = p@.take(k + 1);
        let ghost before = r@;
        assert(next =~= prev.push(x));
        if !contains_port(&r, x) {
            r.push(x);
            assert forall|i: int, j: int| 0 <= i < j < r@.len() implies r@[i] != r@[j] by {
                if j == r@.len() - 1 {
                    assert(before[i] == r@[i]);
                    assert(before.contains(r@[i]));
                }
            }
            assert forall|q: u16| r@.contains(q) <==> next.contains(q) by {
                if r@.contains(q) {
                    let j = choose|j: int| 0 <= j < r@.len() && r@[j] == q;
                    if j < before.len() {
                        assert(before[j] == q);
                        assert(before.contains(q));
                        assert(prev.contains(q));
                        let l = choose|l: int| 0 <= l < prev.len() && prev[l] == q;
                        assert(next[l] == q);
                    } else {
                        assert(next[k as int] == q);
                    }
                }
                if next.contains(q) {
                    let j = choose|j: int| 0 <= j < next.len() && next[j] == q;
                    if j < k {
                        assert(prev[j] == q);
                        assert(before.contains(q));
                        let l = choose|l: int| 0 <= l < before.len() && before[l] == q;
                        assert(r@[l] == q);
                    } else {
                        assert(r@[before.len() as int] == q);
                    }
                }
            }
        } else {
            assert(before.contains(x));
            assert(prev.contains(x));
            let ghost l = choose|l: int| 0 <= l < prev.len() && prev[l] == x;
            assert(no_repeats(p@) ==> p@[l] != p@[k as int]);
            assert forall|q: u16| r@.contains(q) <==> next.contains(q) by {
                if next.contains(q) {
                    let j = choose|j: int| 0 <= j < next.len() && next[j] == q;
                    if j < k {
                        assert(prev[j] == q);
                    }
                }
                if prev.contains(q) {
                    let j = choose|j: int| 0 <= j < prev.len() && prev[j] == q;
                    assert(next[j] == q);
                }
            }
        }
        k = k + 1;
    }
    assert(p@.take(k as int) =~= p@);
    r
}

/// The ports that answered among those probed, ascending and once each,
/// whatever order the answers came in.
pub fn answered_ports(probed: &Vec<u16>, responded: &Vec<u16>) -> (r: Vec<u16>)
    ensures
        lists_answers(r@, probed@, responded@),
{
    let mut kept: Vec<u16> = Vec::new();
    let mut k: usize = 0;
    while k < responded.len()
        invariant
            k <= responded.len(),
            forall|q: u16|
                kept@.contains(q) <==> (responded@.take(k as int).contains(q) && probed@.contains(q)),
        decreases responded.len() - k,
    {
        let x = responded[k];
        let ghost prev = responded@.take(k as int);
        let ghost next = responded@.take(k + 1);
        let ghost before = kept@;
        assert(next =~= prev.push(x));
        assert forall|q: u16| next.contains(q) <==> (prev.contains(q) || q == x) by {
            if next.contains(q) {
                let j = choose|j: int| 0 <= j < next.len() && next[j] == q;
                if j < k {
                    assert(prev[j] == q);
                }
            }
            if prev.contains(q) {
                let j = choose|j: int| 0 <= j < prev.len() && prev[j] == q;
                assert(next[j] == q);
            }
            assert(next[k as int] == x);
        }
        if contains_port(probed, x) {
            kept.push(x);
            assert forall|q: u16| kept@.contains(q) <==> (before.contains(q) || q == x) by {
                if kept@.contains(q) {
                    let j = choose|j: int| 0 <= j < kept@.len() && kept@[j] == q;
                    if j < before.len() {
                        assert(before[j] == q);
                    }
                }
                if before.contains(q) {
                    let j = choose|j: int| 0 <= j < before.len() && before[j] == q;
                    assert(kept@[j] == q);
                }
                assert(kept@[before.len() as int] == x);
            }
        }
        assert forall|q: u16| kept@.contains(q) <==> (next.contains(q) && probed@.contains(q)) by {
            assert(before.contains(q) <==> (prev.contains(q) && probed@.contains(q)));
        }
        k = k + 1;
    }
    assert(responded@.take(k as int) =~= responded@);
    open_ports(&kept)
}

/// The well-known ports probed by default.
pub fn default_ports() -> (r: Vec<u16>)
    ensures
        r@ == default_port_list(),
{
    let r = vec![21, 22, 23, 25, 53, 80, 110, 143, 443, 445, 3306, 3389, 5432, 5900, 8080, 8443];
    assert(r@ =~= default_port_list());
    r
}

/// The ports that answered, sorted ascending and without duplicates,
/// whatever order the answers came in.
pub fn open_ports(responded: &Vec<u16>) -> (r: Vec<u16>)
    ensures
        is_sorted_listing(r@, responded@),
{
    let mut out: Vec<u16> = Vec::new();
    let mut k: usize = 0;
    while k < responded.len()
        invariant
            k <= responded.len(),
            strictly_ascending(out@),
            forall|p: u16| out@.contains(p) <==> responded@.subrange(0, k as int).contains(p),
        decreases responded.len() - k,
    {
        let p = responded[k];
        let mut i: usize = 0;
        while i < out.len() && out[i] < p
            invariant
                i <= out.len(),
                forall|j: int| 0 <= j < i ==> out@[j] < p,
            decreases out.len() - i,
        {
            i = i + 1;
        }
        let ghost before = out@;
        if i < out.len() && out[i] == p {
            assert(out@[i as int] == p);
            assert forall|q: u16| out@.contains(q) <==> (before.contains(q) || q == p) by {
                if q == p {
                    assert(before.contains(p));
                }
            }
        } else {
            out.insert(i, p);
            assert(out@[i as int] == p);
            assert forall|a: int, b: int| 0 <= a < b < out@.len() implies out@[a] < out@[b] by {
                if b < i {
                } else if b == i {
                } else if a < i {
                    assert(before[a] < p);
                    assert(out@[b] == before[b - 1]);
                    assert(before[i as int] > p);
                } else if a == i {
                    assert(before[i as int] > p);
                    assert(out@[b] == before[b - 1]);
                } else {
                }
            }
            assert forall|q: u16| out@.contains(q) <==> (before.contains(q) || q == p) by {
                if out@.contains(q) {
                    let j = choose|j: int| 0 <= j < out@.len() && out@[j] == q;
                    if j < i {
                        assert(before[j] == q);
                    } else if j > i {
                        assert(before[j - 1] == q);
                    }
                }
                if before.contains(q) {
                    let j = choose|j: int| 0 <= j < before.len() && before[j] == q;
                    if j < i {
                        assert(out@[j] == q);
                    } else {
                        assert(out@[j + 1] == q);
                    }
                }
            }
        }
        proof {
            let prev = responded@.subrange(0, k as int);
            let next = responded@.subrange(0, k + 1);
            assert(next =~= prev.push(p));
            assert forall|q: u16| next.contains(q) <==> (prev.contains(q) || q == p) by {
                if next.contains(q) {
                    let j = choose|j: int| 0 <= j < next.len() && next[j] == q;
                    if j < k {
                        assert(prev[j] == q);
                    }
                }
                if prev.contains(q) {
                    let j = choose|j: int| 0 <= j < prev.len() && prev[j] == q;
                    assert(next[j] == q);
                }
                assert(next[k as int] == p);
            }
            assert forall|q: u16| out@.contains(q) <==> next.contains(q) by {
                assert(before.contains(q) <==> prev.contains(q));
            }
        }
        k = k + 1;
    }
    assert(responded@.subrange(0, k as int) =~= responded@);
    out
}

/// Two ascending, duplicate-free sequences that hold the same ports are
/// equal.
pub proof fn lemma_strictly_ascending_unique(x: Seq<u16>, y: Seq<u16>)
    requires
        strictly_ascending(x),
        strictly_ascending(y),
        forall|p: u16| x.contains(p) <==> y.contains(p),
    ensures
        x == y,
    decreases x.len(),
{
    if x.len() == 0 {
        if y.len() > 0 {
            assert(y.contains(y[0]));
        }
        assert(x =~= y);
    } else {
        assert(x.contains(x[0]));
        assert(y.len() > 0);
        assert(y.contains(y[0]));
        let jx = choose|j: int| 0 <= j < y.len() && y[j] == x[0];
        let jy = choose|j: int| 0 <= j < x.len() && x[j] == y[0];
        assert(x[0] == y[0]) by {
            if jx > 0 {
                assert(y[0] < y[jx]);
            }
            if jy > 0 {
                assert(x[0] < x[jy]);
            }
        }
        let xt = x.drop_first();
        let yt = y.drop_first();
        assert forall|p: u16| xt.contains(p) <==> yt.contains(p) by {
            if xt.contains(p) {
                let j = choose|j: int| 0 <= j < xt.len() && xt[j] == p;
                assert(x[j + 1] == p && x[0] < p);
                assert(x.contains(p));
                let l = choose|l: int| 0 <= l < y.len() && y[l] == p;
                assert(l != 0);
                assert(yt[l - 1] == p);
            }
            if yt.contains(p) {
                let j = choose|j: int| 0 <= j < yt.len() && yt[j] == p;
                assert(y[j + 1] == p && y[0] < p);
                assert(y.contains(p));
                let l = choose|l: int| 0 <= l < x.len() && x[l] == p;
                assert(l != 0);
                assert(xt[l - 1] == p);
            }
        }
        lemma_strictly_ascending_unique(xt, yt);
        assert(x =~= seq![x[0]] + xt);
        assert(y =~= seq![y[0]] + yt);
    }
}

/// The open-port list does not depend on the order in which the probes
/// answered, nor on an answer counted twice: two runs whose answering ports
/// are the same give the same list.
pub proof fn lemma_open_ports_order_independent(a: Seq<u16>, b: Seq<u16>, ra: Seq<u16>, rb: Seq<u16>)
    requires
        forall|p: u16| a.contains(p) <==> b.contains(p),
        is_sorted_listing(ra, a),
        is_sorted_listing(rb, b),
    ensures
        ra == rb,
{
    lemma_strictly_ascending_unique(ra, rb);
}

} // verus!
