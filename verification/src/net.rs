//! Network prefixes (CIDR notation) and sets of them, the value a feed
//! parses to and a firewall set object is filled from.

use vstd::prelude::*;
use crate::text::{append_dec, dec};

verus! {

/// An IPv4 or IPv6 address plus prefix length, held as plain values.
/// Equality is by (version, address, prefix-length).
#[derive(Clone, Copy, Debug, PartialEq, Eq, Structural)]
#[allow(inconsistent_fields)]
pub enum NetworkPrefix {
    V4 { addr: u32, prefix: u8 },
    V6 { addr: u128, prefix: u8 },
}

impl NetworkPrefix {
    pub open spec fn is_v4(self) -> bool {
        self is V4
    }
}

/// What ipnetwork's CIDR parser makes of a piece of text: `None` where it is
/// not a valid network prefix, otherwise the prefix it denotes. The result
/// depends on the text alone.
pub uninterp spec fn parsed_network(s: Seq<char>) -> Option<NetworkPrefix>;

/// The error ipnetwork reports for malformed CIDR text.
#[verifier::external_type_specification]
#[verifier::external_body]
pub struct ExIpNetworkError(ipnetwork::IpNetworkError);

/// Relies on ipnetwork's `FromStr` for `IpNetwork`: a deterministic parse of
/// CIDR text, whose variant, address and prefix length are read out as plain
/// values.
#[verifier::external_body]
pub(crate) fn parse_network(s: &str) -> (r: Result<NetworkPrefix, ipnetwork::IpNetworkError>)
    ensures
        r is Ok <==> parsed_network(s@) is Some,
        r is Ok ==> r->Ok_0 == parsed_network(s@)->Some_0,
{
    s.parse::<ipnetwork::IpNetwork>().map(
        |n|
            match n {
                ipnetwork::IpNetwork::V4(v4) => NetworkPrefix::V4 {
                    addr: u32::from(v4.ip()),
                    prefix: v4.prefix(),
                },
                ipnetwork::IpNetwork::V6(v6) => NetworkPrefix::V6 {
                    addr: u128::from(v6.ip()),
                    prefix: v6.prefix(),
                },
            },
    )
}

/// The CIDR text of an IPv4 prefix: dotted decimal quad, a slash, and the
/// prefix length.
pub open spec fn ipv4_text(addr: u32, prefix: u8) -> Seq<char> {
    dec(((addr as nat) / 0x1000000) % 256) + "."@ + dec(((addr as nat) / 0x10000) % 256) + "."@
        + dec(((addr as nat) / 0x100) % 256) + "."@ + dec((addr as nat) % 256) + "/"@ + dec(
        prefix as nat,
    )
}

/// Append the CIDR text of an IPv4 prefix.
pub fn append_ipv4(out: &mut String, addr: u32, prefix: u8)
    ensures
        final(out)@ == old(out)@ + ipv4_text(addr, prefix),
{
    let o1: u32 = (addr / 0x1000000) % 256;
    let o2: u32 = (addr / 0x10000) % 256;
    let o3: u32 = (addr / 0x100) % 256;
    let o4: u32 = addr % 256;
    append_dec(out, o1 as u64);
    out.append(".");
    append_dec(out, o2 as u64);
    out.append(".");
    append_dec(out, o3 as u64);
    out.append(".");
    append_dec(out, o4 as u64);
    out.append("/");
    append_dec(out, prefix as u64);
    proof {
        assert(out@ =~= old(out)@ + ipv4_text(addr, prefix));
    }
}

/// A set of network prefixes: uniqueness by value, unordered membership.
/// The insertion order is kept only so a set-management script lists its
/// members deterministically.
pub struct NetworkSet {
    items: Vec<NetworkPrefix>,
}

impl View for NetworkSet {
    type V = Set<NetworkPrefix>;

    /// The membership of the set.
    closed spec fn view(&self) -> Set<NetworkPrefix> {
        self.items@.to_set()
    }
}

impl NetworkSet {
    /// The prefixes in insertion order.
    pub closed spec fn prefixes(&self) -> Seq<NetworkPrefix> {
        self.items@
    }

    /// Well-formed: no prefix occurs twice.
    pub open spec fn wf(&self) -> bool {
        forall|i: int, j: int|
            0 <= i < j < self.prefixes().len() ==> self.prefixes()[i] != self.prefixes()[j]
    }

    pub fn new() -> (r: Self)
        ensures
            r@ == Set::<NetworkPrefix>::empty(),
            r.prefixes() == Seq::<NetworkPrefix>::empty(),
            r.wf(),
    {
        let r = NetworkSet { items: Vec::new() };
        proof {
            assert(r@ =~= Set::<NetworkPrefix>::empty());
        }
        r
    }

    pub fn len(&self) -> (r: usize)
        ensures
            r == self.prefixes().len(),
    {
        self.items.len()
    }

    pub fn is_empty(&self) -> (r: bool)
        ensures
            r == (self.prefixes().len() == 0),
            r == self@.is_empty(),
    {
        proof {
            if self.prefixes().len() == 0 {
                assert(self@ =~= Set::<NetworkPrefix>::empty());
            } else {
                assert(self@.contains(self.prefixes()[0]));
            }
        }
        self.items.len() == 0
    }

    pub fn get(&self, i: usize) -> (r: &NetworkPrefix)
        requires
            i < self.prefixes().len(),
        ensures
            *r == self.prefixes()[i as int],
    {
        &self.items[i]
    }

    pub fn contains(&self, p: &NetworkPrefix) -> (r: bool)
        ensures
            r == self@.contains(*p),
    {
        let n = self.items.len();
        let mut i: usize = 0;
        while i < n
            invariant
                i <= n,
                n == self.items@.len(),
                forall|k: int| 0 <= k < i ==> self.items@[k] != *p,
            decreases n - i,
        {
            if self.items[i] == *p {
                return true;
            }
            i = i + 1;
        }
        false
    }

    /// Add a prefix; a duplicate silently collapses.
    pub fn insert(&mut self, p: NetworkPrefix)
        requires
            old(self).wf(),
        ensures
            final(self).wf(),
            final(self)@ == old(self)@.insert(p),
            final(self).prefixes() == if old(self)@.contains(p) {
                old(self).prefixes()
            } else {
                old(self).prefixes().push(p)
            },
    {
        if !self.contains(&p) {
            self.items.push(p);
            proof {
                let s0 = old(self).items@;
                let s1 = self.items@;
                assert forall|a: NetworkPrefix| #[trigger] s1.contains(a) implies s0.contains(a)
                    || a == p by {
                    let i = choose|i: int| 0 <= i < s1.len() && s1[i] == a;
                    if i < s0.len() {
                        assert(s0[i] == a);
                    }
                }
                assert forall|a: NetworkPrefix| s0.contains(a) implies #[trigger] s1.contains(
                    a,
                ) by {
                    let i = choose|i: int| 0 <= i < s0.len() && s0[i] == a;
                    assert(s1[i] == a);
                }
                assert(s1[s0.len() as int] == p);
                assert(s1.contains(p));
                assert(self@ =~= old(self)@.insert(p));
                assert forall|i: int, j: int|
                    0 <= i < j < s1.len() implies s1[i] != s1[j] by {
                    if j < s0.len() {
                        assert(old(self).prefixes()[i] != old(self).prefixes()[j]);
                    } else {
                        assert(s1[i] == s0[i]);
                        assert(!s0.contains(p));
                        assert(s0[i] != p);
                    }
                }
            }
        } else {
            proof {
                assert(self@ =~= old(self)@.insert(p));
            }
        }
    }
}

} // verus!
