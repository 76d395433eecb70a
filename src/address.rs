//! Addresses, network ranges in CIDR notation, and their enumeration.
use vstd::arithmetic::power2::{
    lemma_pow2_adds, lemma_pow2_pos, lemma_pow2_strictly_increases, lemma_pow2_unfold, pow2,
};
use vstd::bits::{lemma_u32_low_bits_mask_is_mod, low_bits_mask};
use vstd::prelude::*;

verus! {

/// One IPv4 or IPv6 address, held as its numeric value.
#[derive(Clone, Copy, Debug, PartialEq, Eq, Structural)]
pub enum IpAddress {
    V4(u32),
    V6(u128),
}

impl IpAddress {
    /// Number of bits in an address of this family.
    pub open spec fn width(self) -> nat {
        match self {
            IpAddress::V4(_) => 32,
            IpAddress::V6(_) => 128,
        }
    }

    /// The address as a number.
    pub open spec fn value(self) -> nat {
        match self {
            IpAddress::V4(v) => v as nat,
            IpAddress::V6(v) => v as nat,
        }
    }

    /// The address of the same family as `self` whose value is `v`.
    pub open spec fn with_value(self, v: nat) -> IpAddress {
        match self {
            IpAddress::V4(_) => IpAddress::V4(v as u32),
            IpAddress::V6(_) => IpAddress::V6(v as u128),
        }
    }
}

/// A network range: a base address and a prefix length.
#[derive(Clone, Copy, Debug, PartialEq, Eq, Structural)]
pub struct NetworkRange {
    pub address: IpAddress,
    pub prefix: u8,
}

impl NetworkRange {
    /// The prefix length is valid for the address family.
    pub open spec fn wf(self) -> bool {
        self.prefix <= self.address.width()
    }

    /// Number of bits left to the host part.
    pub open spec fn host_bits(self) -> nat {
        (self.address.width() - self.prefix) as nat
    }

    /// Number of addresses in the range, network and broadcast included.
    pub open spec fn size(self) -> nat {
        pow2(self.host_bits())
    }

    /// Value of the lowest address of the range (the network address).
    pub open spec fn first(self) -> nat {
        (self.address.value() - self.address.value() % self.size()) as nat
    }

    /// The addresses of the range, from the network address upwards.
    pub open spec fn addresses(self) -> Seq<IpAddress> {
        Seq::new(self.size(), |i: int| self.address.with_value((self.first() + i) as nat))
    }

    /// Whether `a` lies in the range.
    pub open spec fn contains(self, a: IpAddress) -> bool {
        &&& a.width() == self.address.width()
        &&& self.first() <= a.value() < self.first() + self.size()
    }
}

impl NetworkRange {
    /// Number of addresses in the range, or `None` where that number does
    /// not fit in a `usize`.
    pub fn address_count(&self) -> (r: Option<usize>)
        requires
            self.wf(),
        ensures
            match r {
                Some(c) => c == self.size(),
                None => self.size() > usize::MAX,
            },
    {
        let bits: u8 = match self.address {
            IpAddress::V4(_) => 32u8 - self.prefix,
            IpAddress::V6(_) => 128u8 - self.prefix,
        };
        let mut count: usize = 1;
        let mut k: u8 = 0;
        proof {
            vstd::arithmetic::power2::lemma2_to64();
        }
        while k < bits
            invariant
                k <= bits,
                bits == self.host_bits(),
                count == pow2(k as nat),
            decreases bits - k,
        {
            proof {
                lemma_pow2_unfold((k + 1) as nat);
                if k + 1 < bits {
                    lemma_pow2_strictly_increases((k + 1) as nat, bits as nat);
                }
            }
            match count.checked_mul(2) {
                Some(c) => {
                    count = c;
                },
                None => {
                    return None;
                },
            }
            k = k + 1;
        }
        Some(count)
    }

    /// Every address of the range, in ascending order, network and broadcast
    /// address included.
    pub fn enumerate_addresses(&self) -> (r: Vec<IpAddress>)
        requires
            self.wf(),
            self.size() <= usize::MAX,
        ensures
            r@ == self.addresses(),
    {
        let size = match self.address_count() {
            Some(c) => c,
            None => {
                return Vec::new();
            },
        };
        let value: u128 = match self.address {
            IpAddress::V4(v) => v as u128,
            IpAddress::V6(v) => v,
        };
        proof {
            lemma_value_bound(self.address);
            lemma_block_fits(self.address.value(), self.host_bits(), self.address.width());
            lemma_pow2_pos(self.host_bits());
            vstd::arithmetic::power2::lemma2_to64();
            vstd::arithmetic::power2::lemma2_to64_rest();
            lemma_pow2_adds(64, 64);
            if self.address.width() == 32 {
                lemma_pow2_strictly_increases(32, 128);
            }
        }
        let first: u128 = value - value % (size as u128);
        assert(first == self.first());
        let mut out: Vec<IpAddress> = Vec::new();
        let mut i: usize = 0;
        while i < size
            invariant
                i <= size,
                size == self.size(),
                first == self.first(),
                first + size <= pow2(128),
                pow2(128) == 0x1_0000_0000_0000_0000nat * 0x1_0000_0000_0000_0000nat,
                out@ == self.addresses().subrange(0, i as int),
            decreases size - i,
        {
            let v: u128 = first + i as u128;
            let a = match self.address {
                IpAddress::V4(_) => IpAddress::V4(v as u32),
                IpAddress::V6(_) => IpAddress::V6(v),
            };
            out.push(a);
            i = i + 1;
            assert(out@ =~= self.addresses().subrange(0, i as int));
        }
        assert(out@ =~= self.addresses());
        out
    }
}

/// The network range that ipnetwork reads from the text `s`, if it reads one.
pub uninterp spec fn cidr_of(s: Seq<char>) -> Option<NetworkRange>;

/// Relies on `<ipnetwork::IpNetwork as FromStr>::from_str`: reads CIDR text
/// (an address, optionally `/` and a prefix length or netmask), trying IPv4
/// before IPv6; `Ipv4Network::new` and `Ipv6Network::new` refuse a prefix
/// longer than 32 or 128 bits.
#[verifier::external_body]
pub(crate) fn read_cidr(s: &str) -> (r: Option<NetworkRange>)
    ensures
        r == cidr_of(s@),
        r matches Some(n) ==> n.wf(),
{
    match s.parse::<ipnetwork::IpNetwork>() {
        Ok(ipnetwork::IpNetwork::V4(n)) => Some(
            NetworkRange { address: IpAddress::V4(u32::from(n.ip())), prefix: n.prefix() },
        ),
        Ok(ipnetwork::IpNetwork::V6(n)) => Some(
            NetworkRange { address: IpAddress::V6(u128::from(n.ip())), prefix: n.prefix() },
        ),
        Err(_) => None,
    }
}

/// Every value of an address of width `w` is below `2^w`.
proof fn lemma_value_bound(a: IpAddress)
    ensures
        a.value() < pow2(a.width()),
{
    vstd::arithmetic::power2::lemma2_to64();
    vstd::arithmetic::power2::lemma2_to64_rest();
    match a {
        IpAddress::V4(v) => {
            assert(pow2(32) == 0x1_0000_0000nat);
        },
        IpAddress::V6(v) => {
            lemma_pow2_adds(64, 64);
            assert(pow2(128) == 0x1_0000_0000_0000_0000nat * 0x1_0000_0000_0000_0000nat);
        },
    }
}

/// The block of `2^e` values around `v` stays below `2^w`.
proof fn lemma_block_fits(v: nat, e: nat, w: nat)
    requires
        e <= w,
        v < pow2(w),
    ensures
        v - v % pow2(e) + pow2(e) <= pow2(w),
        v % pow2(e) <= v,
{
    let s = pow2(e) as int;
    let m = pow2((w - e) as nat) as int;
    lemma_pow2_pos(e);
    lemma_pow2_adds(e, (w - e) as nat);
    assert(pow2(w) == s * m);
    let q = v as int / s;
    let r = v as int % s;
    assert(v == s * q + r && 0 <= r < s) by {
        vstd::arithmetic::div_mod::lemma_fundamental_div_mod(v as int, s);
    }
    assert(q < m) by (nonlinear_arith)
        requires
            v == s * q + r,
            0 <= r,
            v < s * m,
            s > 0,
    ;
    assert(s * q + s <= s * m) by (nonlinear_arith)
        requires
            q + 1 <= m,
            s > 0,
    ;
}

/// The enumeration of a range has `2^(width - prefix)` addresses, all
/// distinct, all in the range, from the network address to the broadcast
/// address.
pub proof fn lemma_addresses_distinct(n: NetworkRange)
    requires
        n.wf(),
    ensures
        n.addresses().len() == pow2((n.address.width() - n.prefix) as nat),
        forall|i: int| 0 <= i < n.addresses().len() ==> n.contains(#[trigger] n.addresses()[i]),
        forall|i: int| 0 <= i < n.addresses().len() ==> (#[trigger] n.addresses()[i]).value() == n.first() + i,
        forall|i: int, j: int|
            0 <= i < j < n.addresses().len() ==> n.addresses()[i] != n.addresses()[j],
{
    lemma_value_bound(n.address);
    lemma_block_fits(n.address.value(), n.host_bits(), n.address.width());
    assert forall|i: int| 0 <= i < n.addresses().len() implies (#[trigger] n.addresses()[i]).value()
        == n.first() + i by {
        lemma_value_bound(n.address);
        vstd::arithmetic::power2::lemma2_to64();
        vstd::arithmetic::power2::lemma2_to64_rest();
        lemma_pow2_adds(64, 64);
    }
}

/// The host bits of an IPv4 range of prefix length `prefix`: its lowest
/// `32 - prefix` bits. The network mask is their complement.
pub open spec fn v4_host_mask(prefix: u8) -> u32 {
    low_bits_mask((32 - prefix) as nat) as u32
}

/// An IPv4 range of prefix length `P` holds `2^(32 - P)` addresses, from its
/// network address (the base with every host bit cleared) to its broadcast
/// address (the base with every host bit set).
pub proof fn lemma_v4_block(n: NetworkRange, base: u32)
    requires
        n.wf(),
        n.address == IpAddress::V4(base),
    ensures
        n.addresses().len() == pow2((32 - n.prefix) as nat),
        n.addresses()[0] == IpAddress::V4(base & !v4_host_mask(n.prefix)),
        n.addresses().last() == IpAddress::V4(base | v4_host_mask(n.prefix)),
{
    let k = (32 - n.prefix) as nat;
    let hm = v4_host_mask(n.prefix);
    lemma_addresses_distinct(n);
    lemma_pow2_pos(k);
    vstd::arithmetic::power2::lemma2_to64();
    if k < 32 {
        lemma_u32_low_bits_mask_is_mod(base, k);
        lemma_pow2_strictly_increases(k, 32);
        assert(pow2(k) < 0x1_0000_0000nat);
        assert((pow2(k) as u32) as nat == pow2(k));
        assert(base & hm == base & (low_bits_mask(k) as u32));
        let m = pow2(k) as u32;
        assert(base & hm == base % m);
        assert(m as nat == pow2(k));
        assert((base & hm) as nat == base as nat % pow2(k));
    } else {
        assert(hm == 0xffff_ffffu32);
        assert(base & 0xffff_ffffu32 == base) by (bit_vector);
        assert(k == 32);
        assert(pow2(32) == 0x1_0000_0000nat);
        vstd::arithmetic::div_mod::lemma_small_mod(base as nat, pow2(k));
        assert((base & hm) as nat == base as nat % pow2(k));
    }
    assert((base & !hm) == vstd::prelude::sub(base, base & hm) && (base & hm) <= base) by (bit_vector);
    assert((base | hm) == vstd::prelude::add(base & !hm, hm) && (base & !hm) <= vstd::prelude::sub(0xffff_ffffu32, hm))
        by (bit_vector);
    assert(n.first() == (base & !hm) as nat);
    assert(hm as nat == pow2(k) - 1);
}

} // verus!
