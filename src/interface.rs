//! The network interface the SYN scanner sends from.
use vstd::prelude::*;

use crate::error::ScanError;

verus! {

/// pnet's network interface, carried through to open channels on it.
#[verifier::external_type_specification]
#[verifier::external_body]
pub struct ExNetworkInterface(pnet::datalink::NetworkInterface);

/// An interface as found on the machine, with what the choice reads of it.
pub struct NicCandidate {
    pub up: bool,
    pub loopback: bool,
    pub mac: Option<[u8; 6]>,
    /// Its IPv4 addresses, in the order listed.
    pub ipv4s: Vec<u32>,
    pub raw: pnet::datalink::NetworkInterface,
}

/// The interface chosen: its MAC address, its first IPv4 address, and the
/// interface itself for opening channels.
pub struct Board {
    mac: [u8; 6],
    ip: u32,
    raw: pnet::datalink::NetworkInterface,
}

/// Whether an interface may carry the scan: up, not loopback, with an
/// IPv4 address.
pub open spec fn usable(c: NicCandidate) -> bool {
    c.up && !c.loopback && c.ipv4s@.len() > 0
}

/// The index of the first usable interface, if any.
pub open spec fn first_usable(cs: Seq<NicCandidate>) -> Option<int>
    decreases cs.len(),
{
    if cs.len() == 0 {
        None
    } else if usable(cs[0]) {
        Some(0)
    } else {
        match first_usable(cs.drop_first()) {
            Some(i) => Some(i + 1),
            None => None,
        }
    }
}

proof fn lemma_first_usable(cs: Seq<NicCandidate>)
    ensures
        first_usable(cs) matches Some(i) ==> 0 <= i < cs.len() && usable(cs[i]),
    decreases cs.len(),
{
    if cs.len() > 0 && !usable(cs[0]) {
        lemma_first_usable(cs.drop_first());
    }
}

impl Board {
    /// The MAC address of the interface.
    pub closed spec fn mac_spec(&self) -> [u8; 6] {
        self.mac
    }

    /// The IPv4 address the scan sends from.
    pub closed spec fn ip_spec(&self) -> u32 {
        self.ip
    }

    fn new(mac: [u8; 6], ip: u32, raw: pnet::datalink::NetworkInterface) -> (r: Board)
        ensures
            r.mac_spec() == mac,
            r.ip_spec() == ip,
    {
        Board { mac, ip, raw }
    }

    pub fn mac(&self) -> (r: [u8; 6])
        ensures
            r == self.mac_spec(),
    {
        self.mac
    }

    pub fn ip(&self) -> (r: u32)
        ensures
            r == self.ip_spec(),
    {
        self.ip
    }

    pub fn raw(&self) -> &pnet::datalink::NetworkInterface {
        &self.raw
    }

    /// Chooses the interface to scan from: the first that is up, not
    /// loopback and has an IPv4 address. It must have a MAC address; its
    /// first IPv4 address is used.
    pub fn select(cands: Vec<NicCandidate>) -> (r: Result<Board, ScanError>)
        ensures
            first_usable(cands@) is None ==> (r matches Err(ScanError::MissingDefaultInterface)),
            first_usable(cands@) matches Some(i) ==> {
                let c = cands@[i];
                &&& c.mac is None ==> (r matches Err(ScanError::MissingMacAddr))
                &&& c.mac is Some ==> (r matches Ok(b) && Some(b.mac_spec()) == c.mac && b.ip_spec()
                    == c.ipv4s@[0])
            },
    {
        proof {
            lemma_first_usable(cands@);
        }
        let found = Board::find_usable(&cands);
        match found {
            None => Err(ScanError::MissingDefaultInterface),
            Some(i) => {
                let mac = cands[i].mac;
                match mac {
                    None => Err(ScanError::MissingMacAddr),
                    Some(m) => {
                        assert(first_usable(cands@) == Some(i as int));
                        assert(usable(cands@[i as int]));
                        let ip = cands[i].ipv4s[0];
                        let mut owned = cands;
                        let c = owned.swap_remove(i);
                        Ok(Board::new(m, ip, c.raw))
                    },
                }
            },
        }
    }

    fn find_usable(cands: &Vec<NicCandidate>) -> (r: Option<usize>)
        ensures
            r matches Some(k) ==> first_usable(cands@) == Some(k as int),
            r is None ==> first_usable(cands@) is None,
    {
        let ghost all = cands@;
        proof {
            lemma_first_usable(all);
        }
        let mut k: usize = 0;
        assert(all.skip(0) =~= all);
        while k < cands.len()
            invariant
                k <= all.len(),
                all == cands@,
                first_usable(all) == match first_usable(all.skip(k as int)) {
                    Some(i) => Some(i + k),
                    None => None,
                },
            decreases all.len() - k,
        {
            if cands[k].up && !cands[k].loopback && cands[k].ipv4s.len() > 0 {
                assert(all.skip(k as int)[0] == cands@[k as int]);
                return Some(k);
            }
            assert(all.skip(k as int).drop_first() =~= all.skip(k + 1));
            k = k + 1;
        }
        None
    }
}

} // verus!
