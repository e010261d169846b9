//! Address lookup: selecting usable addresses from the host's interface
//! list, and parsing lookup-service response bodies.
//!
//! The process around the library enumerates the host's interfaces and
//! hands the `(interface name, address)` pairs in; everything decided about
//! them — which interface, which family, which ranges are excluded — is
//! verified here.  For IPv6, link-local addresses are excluded and finding
//! nothing is an error; for IPv4, private, loopback and link-local ranges
//! are skipped when scanning for a usable egress address.

use vstd::prelude::*;

use crate::addr::{Ipv4Address, Ipv6Address, parse_ipv4, parse_ipv6, spec_parse_ipv4,
    spec_parse_ipv6};
use crate::error::NetworkError;
use crate::text::{spec_trim, trim_bytes};
use vstd::slice::slice_to_vec;

verus! {

/// One interface address, as plain values.
#[derive(Debug, Clone, Copy, PartialEq, Eq, Structural)]
pub enum InterfaceAddress {
    V4(Ipv4Address),
    V6(Ipv6Address),
}

impl Ipv4Address {
    /// Whether the address is in a private range: `10/8`, `172.16/12` or
    /// `192.168/16`.
    pub open spec fn spec_is_private(self) -> bool {
        self.o0 == 10 || (self.o0 == 172 && 16 <= self.o1 < 32) || (self.o0 == 192 && self.o1
            == 168)
    }

    /// Whether the address is a loopback address (`127/8`).
    pub open spec fn spec_is_loopback(self) -> bool {
        self.o0 == 127
    }

    /// Whether the address is link-local (`169.254/16`).
    pub open spec fn spec_is_link_local(self) -> bool {
        self.o0 == 169 && self.o1 == 254
    }

    /// Whether the address is in a private range.
    pub fn is_private(&self) -> (r: bool)
        ensures
            r == self.spec_is_private(),
    {
        self.o0 == 10 || (self.o0 == 172 && 16 <= self.o1 && self.o1 < 32) || (self.o0 == 192
            && self.o1 == 168)
    }

    /// Whether the address is a loopback address.
    pub fn is_loopback(&self) -> (r: bool)
        ensures
            r == self.spec_is_loopback(),
    {
        self.o0 == 127
    }

    /// Whether the address is link-local.
    pub fn is_link_local(&self) -> (r: bool)
        ensures
            r == self.spec_is_link_local(),
    {
        self.o0 == 169 && self.o1 == 254
    }
}

/// Whether an entry is a non-link-local IPv6 address of the named
/// interface.
pub open spec fn spec_v6_entry(e: (String, InterfaceAddress), iface: Seq<char>) -> bool {
    e.0@ == iface && (e.1 matches InterfaceAddress::V6(a) && !a.spec_is_link_local())
}

/// The qualifying IPv6 addresses of the named interface, in enumeration
/// order.
pub open spec fn spec_v6_candidates(
    entries: Seq<(String, InterfaceAddress)>,
    iface: Seq<char>,
) -> Seq<Ipv6Address>
    decreases entries.len(),
{
    if entries.len() == 0 {
        Seq::<Ipv6Address>::empty()
    } else {
        let rest = spec_v6_candidates(entries.drop_first(), iface);
        if spec_v6_entry(entries[0], iface) {
            seq![entries[0].1->V6_0] + rest
        } else {
            rest
        }
    }
}

/// Whether an entry is a usable public IPv4 address of the named
/// interface: not private, not loopback, not link-local.
pub open spec fn spec_v4_entry(e: (String, InterfaceAddress), iface: Seq<char>) -> bool {
    e.0@ == iface && (e.1 matches InterfaceAddress::V4(a) && !a.spec_is_private()
        && !a.spec_is_loopback() && !a.spec_is_link_local())
}

/// The first usable IPv4 address of the named interface, if any.
pub open spec fn spec_first_v4(
    entries: Seq<(String, InterfaceAddress)>,
    iface: Seq<char>,
) -> Option<Ipv4Address>
    decreases entries.len(),
{
    if entries.len() == 0 {
        None
    } else if spec_v4_entry(entries[0], iface) {
        Some(entries[0].1->V4_0)
    } else {
        spec_first_v4(entries.drop_first(), iface)
    }
}

/// Lists a named interface's non-link-local IPv6 addresses.
pub struct LocalIpv6Lookup {
    /// The configured interface name.
    pub interface: String,
}

impl LocalIpv6Lookup {
    /// Builds a lookup bound to an interface name.
    pub fn new(interface: String) -> (r: LocalIpv6Lookup)
        ensures
            r.interface == interface,
    {
        LocalIpv6Lookup { interface }
    }

    /// Selects the interface's qualifying addresses from the enumerated
    /// pairs, in enumeration order; an empty selection is the
    /// address-not-found error.
    pub fn lookup(&self, entries: &Vec<(String, InterfaceAddress)>) -> (r: Result<
        Vec<Ipv6Address>,
        NetworkError,
    >)
        ensures
            match r {
                Ok(v) => v@ == spec_v6_candidates(entries@, self.interface@) && v@.len() > 0,
                Err(e) => e == NetworkError::Ipv6NotFound && spec_v6_candidates(
                    entries@,
                    self.interface@,
                ).len() == 0,
            },
    {
        let ghost es = entries@;
        let mut out: Vec<Ipv6Address> = Vec::new();
        let mut i: usize = 0;
        proof {
            assert(es.skip(0) =~= es);
        }
        while i < entries.len()
            invariant
                i <= es.len(),
                es == entries@,
                spec_v6_candidates(es, self.interface@) =~= out@ + spec_v6_candidates(
                    es.skip(i as int),
                    self.interface@,
                ),
            decreases es.len() - i,
        {
            proof {
                assert(es.skip(i as int)[0] == es[i as int]);
                assert(es.skip(i as int).drop_first() =~= es.skip(i as int + 1));
            }
            let entry = &entries[i];
            if entry.0 == self.interface {
                match &entry.1 {
                    InterfaceAddress::V6(a) => {
                        if !a.is_link_local() {
                            out.push(*a);
                        }
                    },
                    InterfaceAddress::V4(_) => {},
                }
            }
            i = i + 1;
        }
        proof {
            assert(es.skip(es.len() as int) =~= Seq::<(String, InterfaceAddress)>::empty());
        }
        if out.len() == 0 {
            Err(NetworkError::Ipv6NotFound)
        } else {
            Ok(out)
        }
    }
}

/// Scans a named interface for a usable public IPv4 egress address.
pub struct LocalIpv4Lookup {
    /// The configured interface name.
    pub interface: String,
}

impl LocalIpv4Lookup {
    /// Builds a lookup bound to an interface name.
    pub fn new(interface: String) -> (r: LocalIpv4Lookup)
        ensures
            r.interface == interface,
    {
        LocalIpv4Lookup { interface }
    }

    /// Returns the first usable address of the interface among the
    /// enumerated pairs, skipping private, loopback and link-local ranges;
    /// none is the address-not-found error.
    pub fn lookup(&self, entries: &Vec<(String, InterfaceAddress)>) -> (r: Result<
        Ipv4Address,
        NetworkError,
    >)
        ensures
            match r {
                Ok(a) => spec_first_v4(entries@, self.interface@) == Some(a),
                Err(e) => e == NetworkError::Ipv4NotFound && spec_first_v4(
                    entries@,
                    self.interface@,
                ) is None,
            },
    {
        let ghost es = entries@;
        let mut i: usize = 0;
        proof {
            assert(es.skip(0) =~= es);
        }
        while i < entries.len()
            invariant
                i <= es.len(),
                es == entries@,
                spec_first_v4(es, self.interface@) == spec_first_v4(
                    es.skip(i as int),
                    self.interface@,
                ),
            decreases es.len() - i,
        {
            proof {
                assert(es.skip(i as int)[0] == es[i as int]);
                assert(es.skip(i as int).drop_first() =~= es.skip(i as int + 1));
            }
            let entry = &entries[i];
            if entry.0 == self.interface {
                match &entry.1 {
                    InterfaceAddress::V4(a) => {
                        if !a.is_private() && !a.is_loopback() && !a.is_link_local() {
                            return Ok(*a);
                        }
                    },
                    InterfaceAddress::V6(_) => {},
                }
            }
            i = i + 1;
        }
        proof {
            assert(es.skip(es.len() as int) =~= Seq::<(String, InterfaceAddress)>::empty());
        }
        Err(NetworkError::Ipv4NotFound)
    }
}

/// Parses a lookup service's plain-text response body: the body, trimmed,
/// is the address and nothing else.
#[derive(Debug, Clone, Copy, Default)]
pub struct PlainTextIpParser;

impl PlainTextIpParser {
    /// Parses a trimmed body as an IPv4 address; a body that does not
    /// parse is rejected with the raw body in the error.
    pub fn parse_v4(&self, body: &[u8]) -> (r: Result<Ipv4Address, NetworkError>)
        ensures
            match spec_parse_ipv4(spec_trim(body@)) {
                Some(a) => r == Ok::<Ipv4Address, NetworkError>(a),
                None => r matches Err(NetworkError::IPv4ParseError(raw)) && raw@ == body@,
            },
    {
        let trimmed = trim_bytes(body);
        match parse_ipv4(trimmed) {
            Some(a) => Ok(a),
            None => Err(NetworkError::IPv4ParseError(slice_to_vec(body))),
        }
    }

    /// Parses a trimmed body as an IPv6 address; a body that does not
    /// parse is rejected with the raw body in the error.
    pub fn parse_v6(&self, body: &[u8]) -> (r: Result<Ipv6Address, NetworkError>)
        ensures
            match spec_parse_ipv6(spec_trim(body@)) {
                Some(a) => r == Ok::<Ipv6Address, NetworkError>(a),
                None => r matches Err(NetworkError::IPv6ParseError(raw)) && raw@ == body@,
            },
    {
        let trimmed = trim_bytes(body);
        match parse_ipv6(trimmed) {
            Some(a) => Ok(a),
            None => Err(NetworkError::IPv6ParseError(slice_to_vec(body))),
        }
    }
}

} // verus!
