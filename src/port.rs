//! The catalog of well-known ports scanned when no ports are given.
use vstd::prelude::*;

verus! {

/// The transport protocol a well-known port is used with.
#[derive(Debug, Clone, Copy, PartialEq, Eq, Structural)]
pub enum Protocol {
    Tcp,
    Udp,
    Both,
}

/// One entry of the catalog.
#[derive(Debug, Clone, Copy, PartialEq, Eq, Structural)]
pub struct CommonPortEntry {
    pub port: u16,
    pub protocol: Protocol,
}

/// The catalog, in ascending port order.
pub open spec fn common_ports_spec() -> Seq<CommonPortEntry> {
    seq![
        CommonPortEntry { port: 7, protocol: Protocol::Both },
        CommonPortEntry { port: 20, protocol: Protocol::Tcp },
        CommonPortEntry { port: 21, protocol: Protocol::Tcp },
        CommonPortEntry { port: 22, protocol: Protocol::Tcp },
        CommonPortEntry { port: 23, protocol: Protocol::Tcp },
        CommonPortEntry { port: 25, protocol: Protocol::Tcp },
        CommonPortEntry { port: 53, protocol: Protocol::Both },
        CommonPortEntry { port: 67, protocol: Protocol::Udp },
        CommonPortEntry { port: 68, protocol: Protocol::Udp },
        CommonPortEntry { port: 69, protocol: Protocol::Udp },
        CommonPortEntry { port: 80, protocol: Protocol::Tcp },
        CommonPortEntry { port: 88, protocol: Protocol::Both },
        CommonPortEntry { port: 110, protocol: Protocol::Tcp },
        CommonPortEntry { port: 111, protocol: Protocol::Both },
        CommonPortEntry { port: 123, protocol: Protocol::Udp },
        CommonPortEntry { port: 135, protocol: Protocol::Tcp },
        CommonPortEntry { port: 137, protocol: Protocol::Udp },
        CommonPortEntry { port: 138, protocol: Protocol::Udp },
        CommonPortEntry { port: 139, protocol: Protocol::Tcp },
        CommonPortEntry { port: 143, protocol: Protocol::Tcp },
        CommonPortEntry { port: 161, protocol: Protocol::Udp },
        CommonPortEntry { port: 162, protocol: Protocol::Udp },
        CommonPortEntry { port: 179, protocol: Protocol::Tcp },
        CommonPortEntry { port: 389, protocol: Protocol::Both },
        CommonPortEntry { port: 443, protocol: Protocol::Tcp },
        CommonPortEntry { port: 445, protocol: Protocol::Tcp },
        CommonPortEntry { port: 465, protocol: Protocol::Tcp },
        CommonPortEntry { port: 500, protocol: Protocol::Udp },
        CommonPortEntry { port: 514, protocol: Protocol::Udp },
        CommonPortEntry { port: 515, protocol: Protocol::Tcp },
        CommonPortEntry { port: 587, protocol: Protocol::Tcp },
        CommonPortEntry { port: 631, protocol: Protocol::Both },
        CommonPortEntry { port: 636, protocol: Protocol::Tcp },
        CommonPortEntry { port: 873, protocol: Protocol::Tcp },
        CommonPortEntry { port: 993, protocol: Protocol::Tcp },
        CommonPortEntry { port: 995, protocol: Protocol::Tcp },
        CommonPortEntry { port: 1080, protocol: Protocol::Tcp },
        CommonPortEntry { port: 1194, protocol: Protocol::Both },
        CommonPortEntry { port: 1433, protocol: Protocol::Tcp },
        CommonPortEntry { port: 1521, protocol: Protocol::Tcp },
        CommonPortEntry { port: 1723, protocol: Protocol::Tcp },
        CommonPortEntry { port: 1900, protocol: Protocol::Udp },
        CommonPortEntry { port: 2049, protocol: Protocol::Both },
        CommonPortEntry { port: 3306, protocol: Protocol::Tcp },
        CommonPortEntry { port: 3389, protocol: Protocol::Tcp },
        CommonPortEntry { port: 4500, protocol: Protocol::Udp },
        CommonPortEntry { port: 5060, protocol: Protocol::Both },
        CommonPortEntry { port: 5353, protocol: Protocol::Udp },
        CommonPortEntry { port: 5432, protocol: Protocol::Tcp },
        CommonPortEntry { port: 5900, protocol: Protocol::Tcp },
        CommonPortEntry { port: 6379, protocol: Protocol::Tcp },
        CommonPortEntry { port: 8080, protocol: Protocol::Tcp },
        CommonPortEntry { port: 8443, protocol: Protocol::Tcp },
        CommonPortEntry { port: 9200, protocol: Protocol::Tcp },
        CommonPortEntry { port: 27017, protocol: Protocol::Tcp },
    ]
}

/// The catalog of well-known ports.
pub fn common_ports() -> (r: Vec<CommonPortEntry>)
    ensures
        r@ == common_ports_spec(),
{
    vec![
        CommonPortEntry { port: 7, protocol: Protocol::Both },
        CommonPortEntry { port: 20, protocol: Protocol::Tcp },
        CommonPortEntry { port: 21, protocol: Protocol::Tcp },
        CommonPortEntry { port: 22, protocol: Protocol::Tcp },
        CommonPortEntry { port: 23, protocol: Protocol::Tcp },
        CommonPortEntry { port: 25, protocol: Protocol::Tcp },
        CommonPortEntry { port: 53, protocol: Protocol::Both },
        CommonPortEntry { port: 67, protocol: Protocol::Udp },
        CommonPortEntry { port: 68, protocol: Protocol::Udp },
        CommonPortEntry { port: 69, protocol: Protocol::Udp },
        CommonPortEntry { port: 80, protocol: Protocol::Tcp },
        CommonPortEntry { port: 88, protocol: Protocol::Both },
        CommonPortEntry { port: 110, protocol: Protocol::Tcp },
        CommonPortEntry { port: 111, protocol: Protocol::Both },
        CommonPortEntry { port: 123, protocol: Protocol::Udp },
        CommonPortEntry { port: 135, protocol: Protocol::Tcp },
        CommonPortEntry { port: 137, protocol: Protocol::Udp },
        CommonPortEntry { port: 138, protocol: Protocol::Udp },
        CommonPortEntry { port: 139, protocol: Protocol::Tcp },
        CommonPortEntry { port: 143, protocol: Protocol::Tcp },
        CommonPortEntry { port: 161, protocol: Protocol::Udp },
        CommonPortEntry { port: 162, protocol: Protocol::Udp },
        CommonPortEntry { port: 179, protocol: Protocol::Tcp },
        CommonPortEntry { port: 389, protocol: Protocol::Both },
        CommonPortEntry { port: 443, protocol: Protocol::Tcp },
        CommonPortEntry { port: 445, protocol: Protocol::Tcp },
        CommonPortEntry { port: 465, protocol: Protocol::Tcp },
        CommonPortEntry { port: 500, protocol: Protocol::Udp },
        CommonPortEntry { port: 514, protocol: Protocol::Udp },
        CommonPortEntry { port: 515, protocol: Protocol::Tcp },
        CommonPortEntry { port: 587, protocol: Protocol::Tcp },
        CommonPortEntry { port: 631, protocol: Protocol::Both },
        CommonPortEntry { port: 636, protocol: Protocol::Tcp },
        CommonPortEntry { port: 873, protocol: Protocol::Tcp },
        CommonPortEntry { port: 993, protocol: Protocol::Tcp },
        CommonPortEntry { port: 995, protocol: Protocol::Tcp },
        CommonPortEntry { port: 1080, protocol: Protocol::Tcp },
        CommonPortEntry { port: 1194, protocol: Protocol::Both },
        CommonPortEntry { port: 1433, protocol: Protocol::Tcp },
        CommonPortEntry { port: 1521, protocol: Protocol::Tcp },
        CommonPortEntry { port: 1723, protocol: Protocol::Tcp },
        CommonPortEntry { port: 1900, protocol: Protocol::Udp },
        CommonPortEntry { port: 2049, protocol: Protocol::Both },
        CommonPortEntry { port: 3306, protocol: Protocol::Tcp },
        CommonPortEntry { port: 3389, protocol: Protocol::Tcp },
        CommonPortEntry { port: 4500, protocol: Protocol::Udp },
        CommonPortEntry { port: 5060, protocol: Protocol::Both },
        CommonPortEntry { port: 5353, protocol: Protocol::Udp },
        CommonPortEntry { port: 5432, protocol: Protocol::Tcp },
        CommonPortEntry { port: 5900, protocol: Protocol::Tcp },
        CommonPortEntry { port: 6379, protocol: Protocol::Tcp },
        CommonPortEntry { port: 8080, protocol: Protocol::Tcp },
        CommonPortEntry { port: 8443, protocol: Protocol::Tcp },
        CommonPortEntry { port: 9200, protocol: Protocol::Tcp },
        CommonPortEntry { port: 27017, protocol: Protocol::Tcp },
    ]
}

/// The catalog lists each port once, in ascending order, and never port 0.
pub proof fn lemma_common_ports_ascending()
    ensures
        forall|i: int, j: int|
            0 <= i < j < common_ports_spec().len() ==> common_ports_spec()[i].port
                < common_ports_spec()[j].port,
        forall|i: int| 0 <= i < common_ports_spec().len() ==> common_ports_spec()[i].port > 0,
{
    let s = common_ports_spec();
    assert forall|i: int| 0 <= i < s.len() - 1 implies #[trigger] s[i].port < s[i + 1].port by {}
    assert forall|i: int, j: int| 0 <= i < j < s.len() implies s[i].port < s[j].port by {
        lemma_ascending_from_adjacent(s, i, j);
    }
}

proof fn lemma_ascending_from_adjacent(s: Seq<CommonPortEntry>, i: int, j: int)
    requires
        0 <= i < j < s.len(),
        forall|k: int| 0 <= k < s.len() - 1 ==> #[trigger] s[k].port < s[k + 1].port,
    ensures
        s[i].port < s[j].port,
    decreases j - i,
{
    if j > i + 1 {
        lemma_ascending_from_adjacent(s, i, j - 1);
        assert(s[j - 1].port < s[j].port);
    } else {
        assert(s[i].port < s[i + 1].port);
    }
}

} // verus!
