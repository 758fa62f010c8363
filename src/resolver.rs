//! Turning the user's target into an IPv4 address: which kind of host it
//! names, and which resolved address is used.
use vstd::prelude::*;

use crate::error::ScanError;

verus! {

/// What a target text names.
#[derive(Debug)]
pub enum HostKind {
    /// A DNS name, as the URL host parser normalised it.
    Domain(String),
    /// An IPv4 address.
    Ipv4(u32),
    /// An IPv6 address.
    Ipv6,
}

/// The host that the URL host parser reads in a text, if it reads one.
pub uninterp spec fn host_of(s: Seq<char>) -> Option<HostKind>;

/// Relies on url::Host::parse: the text's host (a domain, an IPv4 or an
/// IPv6 address), or an error when the text is no host. IPv4 addresses are
/// handed over as their 32-bit value.
#[verifier::external_body]
fn parse_host(s: &str) -> (r: Result<HostKind, url::ParseError>)
    ensures
        match r {
            Ok(h) => host_of(s@) == Some(h),
            Err(_) => host_of(s@) is None,
        },
{
    match url::Host::parse(s) {
        Ok(url::Host::Domain(d)) => Ok(HostKind::Domain(d)),
        Ok(url::Host::Ipv4(a)) => Ok(HostKind::Ipv4(u32::from(a))),
        Ok(url::Host::Ipv6(_)) => Ok(HostKind::Ipv6),
        Err(e) => Err(e),
    }
}

/// What the target names, when it is a domain to resolve or an IPv4
/// address; an IPv6 address is refused.
pub fn classify_target(target: &str) -> (r: Result<HostKind, ScanError>)
    ensures
        host_of(target@) is None ==> (r matches Err(ScanError::HostParseFailed(_))),
        host_of(target@) matches Some(HostKind::Ipv6) ==> (r matches Err(ScanError::OnlyIpv4TargetSupported)),
        host_of(target@) matches Some(HostKind::Ipv4(a)) ==> (r matches Ok(HostKind::Ipv4(b)) && a == b),
        host_of(target@) matches Some(HostKind::Domain(d)) ==> (r matches Ok(HostKind::Domain(e)) && d == e),
{
    match parse_host(target) {
        Ok(HostKind::Ipv6) => Err(ScanError::OnlyIpv4TargetSupported),
        Ok(h) => Ok(h),
        Err(e) => Err(ScanError::HostParseFailed(e)),
    }
}

/// The first IPv4 address among what resolving `target` gave (`None`
/// stands for an address of another family).
pub fn first_ipv4(target: &str, found: &Vec<Option<u32>>) -> (r: Result<u32, ScanError>)
    ensures
        (forall|i: int| 0 <= i < found@.len() ==> found@[i] is None) ==> (r matches Err(
            ScanError::DomainLookupFailed(t),
        ) && t@ == target@),
        r matches Ok(a) ==> exists|k: int|
            0 <= k < found@.len() && found@[k] == Some(a) && forall|i: int|
                0 <= i < k ==> #[trigger] found@[i] is None,
        (exists|i: int| 0 <= i < found@.len() && found@[i] is Some) ==> r is Ok,
{
    let mut i: usize = 0;
    while i < found.len()
        invariant
            i <= found@.len(),
            forall|j: int| 0 <= j < i ==> #[trigger] found@[j] is None,
        decreases found@.len() - i,
    {
        if let Some(a) = found[i] {
            return Ok(a);
        }
        i = i + 1;
    }
    Err(ScanError::DomainLookupFailed(target.to_owned()))
}

} // verus!
