//! Addresses of sockets, as plain bytes.
use vstd::prelude::*;

verus! {

/// An IP address: the four bytes of an IPv4 address or the sixteen of an
/// IPv6 address, in the order in which they travel.
#[derive(Debug, Clone, Copy, PartialEq, Eq)]
pub enum IpAddr {
    V4([u8; 4]),
    V6([u8; 16]),
}

/// An IP address and a port.
#[derive(Debug, Clone, Copy, PartialEq, Eq)]
pub struct SocketAddr {
    pub ip: IpAddr,
    pub port: u16,
}

impl IpAddr {
    /// The bytes of the address.
    pub open spec fn octets(self) -> Seq<u8> {
        match self {
            IpAddr::V4(a) => a@,
            IpAddr::V6(a) => a@,
        }
    }

    /// Whether every byte of the address is zero.
    pub open spec fn is_unspecified_spec(self) -> bool {
        is_zero(self.octets())
    }

    pub fn is_unspecified(&self) -> (r: bool)
        ensures
            r == self.is_unspecified_spec(),
    {
        match self {
            IpAddr::V4(a) => {
                let bytes = a.as_slice();
                assert(bytes@ == self.octets());
                let r = all_zero(bytes);
                assert(r == self.is_unspecified_spec());
                r
            },
            IpAddr::V6(a) => {
                let bytes = a.as_slice();
                assert(bytes@ == self.octets());
                let r = all_zero(bytes);
                assert(r == self.is_unspecified_spec());
                r
            },
        }
    }
}

impl SocketAddr {
    pub fn new(ip: IpAddr, port: u16) -> (r: Self)
        ensures
            r == (SocketAddr { ip, port }),
    {
        SocketAddr { ip, port }
    }
}

/// Whether every byte is zero.
pub fn all_zero(bytes: &[u8]) -> (r: bool)
    ensures
        r == is_zero(bytes@),
{
    let mut i: usize = 0;
    while i < bytes.len()
        invariant
            i <= bytes.len(),
            forall|j: int| 0 <= j < i ==> bytes@[j] == 0u8,
        decreases bytes.len() - i,
    {
        if bytes[i] != 0 {
            return false;
        }
        i += 1;
    }
    true
}

/// The IPv4 address whose bytes are `b`.
pub open spec fn ipv4_of(b: Seq<u8>) -> [u8; 4] {
    choose|a: [u8; 4]| a@ == b
}

/// The IPv6 address whose bytes are `b`.
pub open spec fn ipv6_of(b: Seq<u8>) -> [u8; 16] {
    choose|a: [u8; 16]| a@ == b
}

/// An address is the address of its bytes.
pub proof fn lemma_ipv4_of(a: [u8; 4])
    ensures
        ipv4_of(a@) == a,
{
    let c = ipv4_of(a@);
    assert(c@ == a@);
    assert(c =~= a);
}

/// An address is the address of its bytes.
pub proof fn lemma_ipv6_of(a: [u8; 16])
    ensures
        ipv6_of(a@) == a,
{
    let c = ipv6_of(a@);
    assert(c@ == a@);
    assert(c =~= a);
}

/// Whether every byte of `b` is zero.
pub open spec fn is_zero(b: Seq<u8>) -> bool {
    forall|i: int| 0 <= i < b.len() ==> b[i] == 0u8
}

} // verus!
