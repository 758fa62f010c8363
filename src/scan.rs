//! Port states, scan techniques, and the port sweep: which probe each port
//! gets and which results are reported.
use vstd::prelude::*;

use crate::port::{common_ports, common_ports_spec, lemma_common_ports_ascending, CommonPortEntry, Protocol};

verus! {

/// What a probe learned about a port. `_Closed` is never reported.
#[derive(Debug, Clone, Copy, PartialEq, Eq, Structural)]
pub enum PortState {
    Open,
    Filtered,
    Unknown,
    _Closed,
}

impl PortState {
    /// The name of a reported state.
    pub fn label(&self) -> (r: &'static str)
        requires
            !(*self is _Closed),
        ensures
            *self is Open ==> r@ == "open"@,
            *self is Filtered ==> r@ == "filtered"@,
            *self is Unknown ==> r@ == "unknown"@,
    {
        match self {
            PortState::Open => "open",
            PortState::Filtered => "filtered",
            _ => "unknown",
        }
    }
}

/// The technique a port was scanned with.
#[derive(Debug, Clone, Copy, PartialEq, Eq, Structural)]
pub enum ScanType {
    Tcp,
    Syn,
    Udp,
}

impl ScanType {
    /// The name of the technique in a report.
    pub fn label(&self) -> (r: &'static str)
        ensures
            *self is Tcp ==> r@ == "TCP scan"@,
            *self is Syn ==> r@ == "TCP SYN scan"@,
            *self is Udp ==> r@ == "UDP scan"@,
    {
        match self {
            ScanType::Tcp => "TCP scan",
            ScanType::Syn => "TCP SYN scan",
            ScanType::Udp => "UDP scan",
        }
    }
}

/// A scan technique chosen by the user.
#[derive(Debug, Clone, Copy, PartialEq, Eq, Structural)]
pub struct Technique {
    pub kind: ScanType,
}

impl Technique {
    fn new(kind: ScanType) -> (r: Technique)
        ensures
            r.kind == kind,
    {
        Technique { kind }
    }

    /// The technique named `"tcp"` (a full connect) or `"syn"` (half-open).
    pub fn from(raw: &str) -> (r: Technique)
        requires
            raw@ == "tcp"@ || raw@ == "syn"@,
        ensures
            raw@ == "tcp"@ ==> r.kind == ScanType::Tcp,
            raw@ == "syn"@ ==> r.kind == ScanType::Syn,
    {
        proof {
            reveal_strlit("tcp");
            reveal_strlit("syn");
        }
        if raw.unicode_len() == 3 && raw.get_char(0) == 't' {
            Technique::new(ScanType::Tcp)
        } else {
            Technique::new(ScanType::Syn)
        }
    }
}

/// The connect scan. It needs no privileges: a kernel connect with a
/// timeout, done by the caller.
pub struct TcpScan;

impl TcpScan {
    /// The state a connect attempt gives: open when it connected, closed
    /// on any failure.
    pub fn state(connected: bool) -> (r: PortState)
        ensures
            r == (if connected {
                PortState::Open
            } else {
                PortState::_Closed
            }),
    {
        if connected {
            PortState::Open
        } else {
            PortState::_Closed
        }
    }
}

/// The UDP technique: declared, not implemented; no port is ever probed with it.
pub struct UdpScan;

/// The ports to scan: the catalog of well-known ports, or the user's list.
pub enum PortsToScan {
    All,
    Selected(Vec<u16>),
}

/// One reported port.
#[derive(Debug, Clone, Copy, PartialEq, Eq, Structural)]
pub struct PortResult {
    pub port: u16,
    pub state: PortState,
    pub kind: ScanType,
}

impl PortResult {
    pub fn new(port: u16, state: PortState, kind: ScanType) -> (r: PortResult)
        ensures
            r == (PortResult { port, state, kind }),
    {
        PortResult { port, state, kind }
    }
}

/// The outcome of a sweep: how long it took, and the reported ports.
pub struct ScanResult {
    pub elapsed: std::time::Duration,
    pub ports: Vec<PortResult>,
}

impl ScanResult {
    pub fn new(elapsed: std::time::Duration, ports: Vec<PortResult>) -> (r: ScanResult)
        ensures
            r.elapsed == elapsed,
            r.ports@ == ports@,
    {
        ScanResult { elapsed, ports }
    }
}

/// One probe of the sweep: a port and the technique it is scanned with.
#[derive(Debug, Clone, Copy, PartialEq, Eq, Structural)]
pub struct PortProbe {
    pub port: u16,
    pub kind: ScanType,
}

/// Whether a technique serves a catalog entry: an entry for both protocols
/// takes any technique, a TCP entry a connect or SYN scan, a UDP entry a UDP scan.
pub open spec fn applies(kind: ScanType, protocol: Protocol) -> bool {
    match protocol {
        Protocol::Both => true,
        Protocol::Tcp => kind is Tcp || kind is Syn,
        Protocol::Udp => kind is Udp,
    }
}

/// The first technique, in the user's order, that serves `protocol`.
pub open spec fn first_applicable(kinds: Seq<ScanType>, protocol: Protocol) -> Option<ScanType>
    decreases kinds.len(),
{
    if kinds.len() == 0 {
        None
    } else if applies(kinds[0], protocol) {
        Some(kinds[0])
    } else {
        first_applicable(kinds.drop_first(), protocol)
    }
}

/// The probes for catalog entries: each entry that some technique serves,
/// with the first such technique.
pub open spec fn plan_catalog(entries: Seq<CommonPortEntry>, kinds: Seq<ScanType>) -> Seq<PortProbe>
    decreases entries.len(),
{
    if entries.len() == 0 {
        seq![]
    } else {
        let rest = plan_catalog(entries.drop_last(), kinds);
        match first_applicable(kinds, entries.last().protocol) {
            Some(k) => rest.push(PortProbe { port: entries.last().port, kind: k }),
            None => rest,
        }
    }
}

/// The probes for a user's list: each port, in order, with the first
/// technique; a port listed again is skipped.
pub open spec fn plan_selected(ports: Seq<u16>, kinds: Seq<ScanType>) -> Seq<PortProbe>
    decreases ports.len(),
{
    if kinds.len() == 0 || ports.len() == 0 {
        seq![]
    } else {
        let rest = plan_selected(ports.drop_last(), kinds);
        if ports.drop_last().contains(ports.last()) {
            rest
        } else {
            rest.push(PortProbe { port: ports.last(), kind: kinds[0] })
        }
    }
}

/// The techniques' kinds, in order.
pub open spec fn kinds_of(ts: Seq<Technique>) -> Seq<ScanType> {
    ts.map_values(|t: Technique| t.kind)
}

/// The ports of a sequence of probes.
pub open spec fn probe_ports(ps: Seq<PortProbe>) -> Seq<u16> {
    ps.map_values(|p: PortProbe| p.port)
}

/// The ports of a sequence of results.
pub open spec fn result_ports(rs: Seq<PortResult>) -> Seq<u16> {
    rs.map_values(|r: PortResult| r.port)
}

/// No value occurs twice.
pub open spec fn no_duplicates(s: Seq<u16>) -> bool {
    forall|i: int, j: int| 0 <= i < j < s.len() ==> s[i] != s[j]
}

/// What is reported of probes that gave `states`: each probe whose state
/// is not closed, as a result, in probe order.
pub open spec fn report(probes: Seq<PortProbe>, states: Seq<PortState>) -> Seq<PortResult>
    decreases probes.len(),
{
    if probes.len() == 0 {
        seq![]
    } else {
        let n = probes.len() - 1;
        let rest = report(probes.drop_last(), states.take(n));
        if states[n] is _Closed {
            rest
        } else {
            rest.push(PortResult { port: probes[n].port, state: states[n], kind: probes[n].kind })
        }
    }
}

/// A sweep of one target over a set of ports with the user's techniques.
pub struct Scanner {
    pub ip: u32,
    pub ports: PortsToScan,
    pub techniques: Vec<Technique>,
}

impl Scanner {
    /// The probes of the sweep.
    pub open spec fn plan_spec(&self) -> Seq<PortProbe> {
        match self.ports {
            PortsToScan::All => plan_catalog(common_ports_spec(), kinds_of(self.techniques@)),
            PortsToScan::Selected(ps) => plan_selected(ps@, kinds_of(self.techniques@)),
        }
    }

    pub fn new(ip: u32, ports: PortsToScan, techniques: Vec<Technique>) -> (r: Scanner)
        ensures
            r.ip == ip,
            r.ports == ports,
            r.techniques@ == techniques@,
    {
        Scanner { ip, ports, techniques }
    }

    fn first_applicable(&self, protocol: Protocol) -> (r: Option<ScanType>)
        ensures
            r == first_applicable(kinds_of(self.techniques@), protocol),
    {
        let ghost kinds = kinds_of(self.techniques@);
        assert(kinds.skip(0) =~= kinds);
        let mut i: usize = 0;
        while i < self.techniques.len()
            invariant
                i <= self.techniques@.len(),
                kinds == kinds_of(self.techniques@),
                first_applicable(kinds.skip(i as int), protocol) == first_applicable(kinds, protocol),
            decreases self.techniques@.len() - i,
        {
            let kind = self.techniques[i].kind;
            assert(kinds.skip(i as int)[0] == kind);
            let fits = match protocol {
                Protocol::Both => true,
                Protocol::Tcp => match kind {
                    ScanType::Udp => false,
                    _ => true,
                },
                Protocol::Udp => match kind {
                    ScanType::Udp => true,
                    _ => false,
                },
            };
            if fits {
                return Some(kind);
            }
            assert(kinds.skip(i as int).drop_first() =~= kinds.skip(i + 1));
            i = i + 1;
        }
        assert(kinds.skip(i as int).len() == 0);
        None
    }

    /// The probes of the sweep. For the catalog, each entry that a technique
    /// serves, with the first technique that does; for a user's list, each
    /// port with the first technique. No other technique is ever tried.
    pub fn plan(&self) -> (r: Vec<PortProbe>)
        ensures
            r@ == self.plan_spec(),
    {
        let ghost kinds = kinds_of(self.techniques@);
        let mut r: Vec<PortProbe> = Vec::new();
        match &self.ports {
            PortsToScan::All => {
                let entries = common_ports();
                let mut i: usize = 0;
                while i < entries.len()
                    invariant
                        i <= entries@.len(),
                        entries@ == common_ports_spec(),
                        kinds == kinds_of(self.techniques@),
                        r@ == plan_catalog(entries@.take(i as int), kinds),
                    decreases entries@.len() - i,
                {
                    let e = entries[i];
                    assert(entries@.take(i + 1).drop_last() =~= entries@.take(i as int));
                    if let Some(k) = self.first_applicable(e.protocol) {
                        r.push(PortProbe { port: e.port, kind: k });
                    }
                    i = i + 1;
                }
                assert(entries@.take(i as int) =~= entries@);
            },
            PortsToScan::Selected(ports) => {
                if self.techniques.len() > 0 {
                    let kind = self.techniques[0].kind;
                    let mut i: usize = 0;
                    while i < ports.len()
                        invariant
                            i <= ports@.len(),
                            kinds == kinds_of(self.techniques@),
                            kind == kinds[0],
                            kinds.len() > 0,
                            r@ == plan_selected(ports@.take(i as int), kinds),
                        decreases ports@.len() - i,
                    {
                        assert(ports@.take(i + 1).drop_last() =~= ports@.take(i as int));
                        assert(ports@.take(i + 1).last() == ports@[i as int]);
                        if !Scanner::listed_before(ports, i) {
                            r.push(PortProbe { port: ports[i], kind });
                        }
                        i = i + 1;
                    }
                    assert(ports@.take(i as int) =~= ports@);
                }
            },
        }
        r
    }

    /// Whether the port at `i` is also listed before `i`.
    fn listed_before(ports: &Vec<u16>, i: usize) -> (r: bool)
        requires
            i < ports@.len(),
        ensures
            r == ports@.take(i as int).contains(ports@[i as int]),
    {
        let mut j: usize = 0;
        while j < i
            invariant
                j <= i < ports@.len(),
                forall|k: int| 0 <= k < j ==> ports@[k] != ports@[i as int],
            decreases i - j,
        {
            if ports[j] == ports[i] {
                assert(ports@.take(i as int)[j as int] == ports@[i as int]);
                return true;
            }
            j = j + 1;
        }
        assert(!ports@.take(i as int).contains(ports@[i as int]));
        false
    }

    /// The result a probe gives: none when the port is closed.
    fn scan_port(probe: PortProbe, state: PortState) -> (r: Option<PortResult>)
        ensures
            r == (if state is _Closed {
                None
            } else {
                Some(PortResult { port: probe.port, state, kind: probe.kind })
            }),
    {
        if let PortState::_Closed = state {
            None
        } else {
            Some(PortResult::new(probe.port, state, probe.kind))
        }
    }

    /// The outcome of a sweep whose probes gave `states`, one per probe,
    /// measured at `elapsed`: closed ports are left out. Probes without a
    /// state (and states without a probe) are left out too.
    pub fn collect(probes: &Vec<PortProbe>, states: &Vec<PortState>, elapsed: std::time::Duration) -> (r: ScanResult)
        ensures
            r.elapsed == elapsed,
            r.ports@ == report(
                probes@.take(paired(probes@.len(), states@.len())),
                states@.take(paired(probes@.len(), states@.len())),
            ),
            probes@.len() == states@.len() ==> r.ports@ == report(probes@, states@),
            forall|i: int| 0 <= i < r.ports@.len() ==> !(#[trigger] r.ports@[i].state is _Closed),
    {
        let ghost m = paired(probes@.len(), states@.len());
        let mut out: Vec<PortResult> = Vec::new();
        let mut i: usize = 0;
        while i < probes.len() && i < states.len()
            invariant
                i <= m,
                m == paired(probes@.len(), states@.len()),
                out@ == report(probes@.take(i as int), states@.take(i as int)),
            decreases probes@.len() - i,
        {
            assert(probes@.take(i + 1).drop_last() =~= probes@.take(i as int));
            assert(states@.take(i + 1).take(i as int) =~= states@.take(i as int));
            if let Some(pr) = Scanner::scan_port(probes[i], states[i]) {
                out.push(pr);
            }
            i = i + 1;
        }
        assert(i == m);
        proof {
            if probes@.len() == states@.len() {
                assert(probes@.take(m) =~= probes@);
                assert(states@.take(m) =~= states@);
            }
            lemma_reported_never_closed(probes@.take(m), states@.take(m));
        }
        ScanResult::new(elapsed, out)
    }
}

/// How many probes have a state: the shorter of the two lengths.
pub open spec fn paired(probes: nat, states: nat) -> int {
    if probes <= states {
        probes as int
    } else {
        states as int
    }
}

/// No reported port is closed, whatever states the probes gave.
pub proof fn lemma_reported_never_closed(probes: Seq<PortProbe>, states: Seq<PortState>)
    ensures
        forall|i: int|
            0 <= i < report(probes, states).len() ==> !(#[trigger] report(probes, states)[i].state is _Closed),
    decreases probes.len(),
{
    if probes.len() > 0 {
        let n = probes.len() - 1;
        lemma_reported_never_closed(probes.drop_last(), states.take(n));
    }
}


/// Each reported port comes from a probe of that port.
pub proof fn lemma_report_from_probes(probes: Seq<PortProbe>, states: Seq<PortState>)
    ensures
        forall|j: int|
            0 <= j < report(probes, states).len() ==> exists|i: int|
                0 <= i < probes.len() && #[trigger] report(probes, states)[j].port == probes[i].port,
    decreases probes.len(),
{
    if probes.len() > 0 {
        let n = probes.len() - 1;
        let pre = probes.drop_last();
        lemma_report_from_probes(pre, states.take(n));
        let r = report(probes, states);
        assert forall|j: int| 0 <= j < r.len() implies exists|i: int|
            0 <= i < probes.len() && #[trigger] r[j].port == probes[i].port by {
            if j < report(pre, states.take(n)).len() {
                let i = choose|i: int| 0 <= i < pre.len() && report(pre, states.take(n))[j].port == pre[i].port;
                assert(r[j].port == probes[i].port);
            } else {
                assert(r[j].port == probes[n].port);
            }
        }
    }
}

/// Probes of distinct ports give results of distinct ports.
pub proof fn lemma_report_distinct(probes: Seq<PortProbe>, states: Seq<PortState>)
    requires
        no_duplicates(probe_ports(probes)),
    ensures
        no_duplicates(result_ports(report(probes, states))),
    decreases probes.len(),
{
    if probes.len() > 0 {
        let n = probes.len() - 1;
        let pre = probes.drop_last();
        assert(probe_ports(pre) =~= probe_ports(probes).drop_last());
        lemma_report_distinct(pre, states.take(n));
        lemma_report_from_probes(pre, states.take(n));
        let rest = report(pre, states.take(n));
        let r = report(probes, states);
        assert forall|a: int, b: int| 0 <= a < b < r.len() implies result_ports(r)[a] != result_ports(r)[b] by {
            if b < rest.len() {
                assert(result_ports(rest)[a] != result_ports(rest)[b]);
            } else {
                let i = choose|i: int| 0 <= i < pre.len() && #[trigger] rest[a].port == pre[i].port;
                assert(probe_ports(probes)[i] != probe_ports(probes)[n]);
            }
        }
    }
}

/// Each probe planned for catalog entries is for some entry's port, with the
/// first technique that serves that entry.
pub proof fn lemma_plan_catalog_entries(entries: Seq<CommonPortEntry>, kinds: Seq<ScanType>)
    ensures
        forall|j: int|
            0 <= j < plan_catalog(entries, kinds).len() ==> exists|k: int|
                0 <= k < entries.len() && #[trigger] plan_catalog(entries, kinds)[j].port == entries[k].port
                    && first_applicable(kinds, entries[k].protocol) == Some(plan_catalog(entries, kinds)[j].kind),
    decreases entries.len(),
{
    if entries.len() > 0 {
        let pre = entries.drop_last();
        lemma_plan_catalog_entries(pre, kinds);
        let p = plan_catalog(entries, kinds);
        let rest = plan_catalog(pre, kinds);
        assert forall|j: int| 0 <= j < p.len() implies exists|k: int|
            0 <= k < entries.len() && #[trigger] p[j].port == entries[k].port
                && first_applicable(kinds, entries[k].protocol) == Some(p[j].kind) by {
            if j < rest.len() {
                let k = choose|k: int|
                    0 <= k < pre.len() && #[trigger] rest[j].port == pre[k].port
                        && first_applicable(kinds, pre[k].protocol) == Some(rest[j].kind);
                assert(p[j].port == entries[k].port);
            } else {
                assert(p[j].port == entries[entries.len() - 1].port);
            }
        }
    }
}

/// Probes planned over entries in ascending port order are in ascending port order.
proof fn lemma_plan_catalog_ascending(entries: Seq<CommonPortEntry>, kinds: Seq<ScanType>)
    requires
        forall|i: int, j: int| 0 <= i < j < entries.len() ==> entries[i].port < entries[j].port,
    ensures
        no_duplicates(probe_ports(plan_catalog(entries, kinds))),
        forall|j: int|
            0 <= j < plan_catalog(entries, kinds).len() ==> exists|k: int|
                0 <= k < entries.len() && #[trigger] plan_catalog(entries, kinds)[j].port == entries[k].port,
    decreases entries.len(),
{
    lemma_plan_catalog_entries(entries, kinds);
    if entries.len() > 0 {
        let pre = entries.drop_last();
        lemma_plan_catalog_ascending(pre, kinds);
        let p = plan_catalog(entries, kinds);
        let rest = plan_catalog(pre, kinds);
        assert forall|a: int, b: int| 0 <= a < b < p.len() implies probe_ports(p)[a] != probe_ports(p)[b] by {
            if b < rest.len() {
                assert(probe_ports(rest)[a] != probe_ports(rest)[b]);
            } else {
                let k = choose|k: int| 0 <= k < pre.len() && #[trigger] rest[a].port == pre[k].port;
                assert(entries[k].port < entries[entries.len() - 1].port);
            }
        }
    }
}

/// A user's list is planned with each listed port once, and only those,
/// each with the first technique.
pub proof fn lemma_plan_selected(ports: Seq<u16>, kinds: Seq<ScanType>)
    ensures
        no_duplicates(probe_ports(plan_selected(ports, kinds))),
        forall|j: int|
            0 <= j < plan_selected(ports, kinds).len() ==> ports.contains(
                #[trigger] plan_selected(ports, kinds)[j].port,
            ),
        forall|j: int|
            0 <= j < plan_selected(ports, kinds).len() ==> #[trigger] plan_selected(ports, kinds)[j].kind
                == kinds[0],
        kinds.len() > 0 ==> forall|i: int|
            0 <= i < ports.len() ==> probe_ports(plan_selected(ports, kinds)).contains(
                #[trigger] ports[i],
            ),
    decreases ports.len(),
{
    if kinds.len() > 0 && ports.len() > 0 {
        let pre = ports.drop_last();
        lemma_plan_selected(pre, kinds);
        let rest = plan_selected(pre, kinds);
        let p = plan_selected(ports, kinds);
        assert forall|j: int| 0 <= j < p.len() implies ports.contains(#[trigger] p[j].port) && p[j].kind
            == kinds[0] by {
            if j < rest.len() {
                assert(pre.contains(rest[j].port));
                let k = choose|k: int| 0 <= k < pre.len() && pre[k] == rest[j].port;
                assert(ports[k] == p[j].port);
            } else {
                assert(ports[ports.len() - 1] == p[j].port);
            }
        }
        if !pre.contains(ports.last()) {
            assert forall|a: int, b: int| 0 <= a < b < p.len() implies probe_ports(p)[a] != probe_ports(
                p,
            )[b] by {
                if b < rest.len() {
                    assert(probe_ports(rest)[a] != probe_ports(rest)[b]);
                } else {
                    assert(pre.contains(rest[a].port));
                }
            }
        } else {
            assert(probe_ports(p) =~= probe_ports(rest));
        }
        assert forall|i: int| 0 <= i < ports.len() implies probe_ports(p).contains(#[trigger] ports[i]) by {
            if i < pre.len() {
                assert(pre[i] == ports[i]);
                assert(probe_ports(rest).contains(pre[i]));
                let j = choose|j: int| 0 <= j < probe_ports(rest).len() && probe_ports(rest)[j] == pre[i];
                assert(probe_ports(p)[j] == ports[i]);
            } else if pre.contains(ports.last()) {
                let k = choose|k: int| 0 <= k < pre.len() && pre[k] == ports.last();
                assert(probe_ports(rest).contains(pre[k]));
                let j = choose|j: int| 0 <= j < probe_ports(rest).len() && probe_ports(rest)[j] == pre[k];
                assert(probe_ports(p)[j] == ports[i]);
            } else {
                assert(probe_ports(p)[p.len() - 1] == ports[i]);
            }
        }
    } else {
        assert(plan_selected(ports, kinds).len() == 0);
    }
}

/// Each port is probed once, with the first technique in the user's order
/// that serves it (for a user's list, the first technique, and every listed
/// port): when that technique answers, no other technique is tried on the port.
pub proof fn lemma_first_technique_only(sc: Scanner)
    ensures
        no_duplicates(probe_ports(sc.plan_spec())),
        forall|j: int|
            0 <= j < sc.plan_spec().len() ==> match sc.ports {
                PortsToScan::All => exists|k: int|
                    0 <= k < common_ports_spec().len() && #[trigger] sc.plan_spec()[j].port
                        == common_ports_spec()[k].port && first_applicable(
                        kinds_of(sc.techniques@),
                        common_ports_spec()[k].protocol,
                    ) == Some(sc.plan_spec()[j].kind),
                PortsToScan::Selected(ps) => sc.plan_spec()[j].kind == kinds_of(sc.techniques@)[0],
            },
        sc.ports matches PortsToScan::Selected(ps) ==> (sc.techniques@.len() > 0 ==> forall|i: int|
            0 <= i < ps@.len() ==> probe_ports(sc.plan_spec()).contains(#[trigger] ps@[i])),
{
    let kinds = kinds_of(sc.techniques@);
    match sc.ports {
        PortsToScan::All => {
            lemma_common_ports_ascending();
            lemma_plan_catalog_ascending(common_ports_spec(), kinds);
            lemma_plan_catalog_entries(common_ports_spec(), kinds);
        },
        PortsToScan::Selected(ps) => {
            lemma_plan_selected(ps@, kinds);
        },
    }
}

/// A sweep reports each port at most once, whatever its probes return.
pub proof fn lemma_one_result_per_port(sc: Scanner, states: Seq<PortState>)
    ensures
        no_duplicates(result_ports(report(sc.plan_spec(), states))),
{
    lemma_first_technique_only(sc);
    lemma_report_distinct(sc.plan_spec(), states);
}

} // verus!
