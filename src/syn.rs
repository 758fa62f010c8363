//! The SYN half-open probe: the frame it sends, how replies are told apart
//! and classified, and the send/receive/retry state machine that drives it.
use vstd::prelude::*;

use crate::packet::{
    build, ipv4_header, ipv4_header_blank, pseudo_header, put_u16, syn_frame, syn_segment,
    syn_segment_blank, syn_segment_bytes, ETHERTYPE_IPV4, PROTO_ICMP, PROTO_TCP, TCP_SYN,
};
use crate::scan::PortState;
use crate::wire::{
    be16_at, be32_at, checksum_of, checksum_verifies, lemma_checksum_fill_verifies,
    lemma_fold_carries_bounds,
};

verus! {

/// How many times a SYN is sent before a silent port is called filtered.
pub const SEND_ATTEMPTS: u8 = 3;

/// How long, in milliseconds, replies to one SYN are awaited.
pub const OVERALL_WAIT_PER_ATTEMPT_MS: u64 = 4000;

/// SYN and ACK together: the answer of an open port.
pub const SYN_ACK: u8 = 0x12;

/// ICMP type Destination Unreachable.
pub const ICMP_DEST_UNREACHABLE: u8 = 3;

/// The TCP flags byte of a reply.
pub struct TcpKnownFlags(pub u8);

impl TcpKnownFlags {
    /// Whether exactly SYN and ACK are set.
    pub fn syn_ack(&self) -> (r: bool)
        ensures
            r == (self.0 == SYN_ACK),
    {
        self.0 == SYN_ACK
    }
}

/// The ICMP Destination Unreachable codes that mean a filter answered:
/// host, protocol and port unreachable, and the three "administratively
/// prohibited" codes.
pub open spec fn is_filter_code(code: u8) -> bool {
    code == 1 || code == 2 || code == 3 || code == 9 || code == 10 || code == 13
}

/// The two ends of one probe.
#[derive(Debug, Clone, Copy, PartialEq, Eq, Structural)]
pub struct Endpoints {
    pub source_ip: u32,
    pub source_port: u16,
    pub target_ip: u32,
    pub target_port: u16,
}

/// The bytes of the IPv4 packet in an Ethernet frame.
pub open spec fn ip_part(f: Seq<u8>) -> Seq<u8> {
    f.subrange(14, f.len() as int)
}

/// Where the IPv4 payload starts: after the header and its options (at
/// least 20 bytes in).
pub open spec fn ip_payload_start(ip: Seq<u8>) -> int {
    let hl = (ip[0] % 16) * 4;
    if hl > 20 {
        hl as int
    } else {
        20
    }
}

/// The IPv4 payload: from its start up to the total length, cut at the end
/// of the bytes at hand.
pub open spec fn ip_payload(ip: Seq<u8>) -> Seq<u8> {
    let hl = (ip[0] % 16) * 4;
    let total = be16_at(ip, 2);
    let start = ip_payload_start(ip);
    let plen: int = if total > hl {
        total - hl
    } else {
        0
    };
    let end = if start + plen < ip.len() {
        start + plen
    } else {
        ip.len() as int
    };
    if ip.len() <= start {
        seq![]
    } else {
        ip.subrange(start, end)
    }
}

/// Whether a frame is an answer to the probe: IPv4, sent from the target
/// to us, and for TCP, from the target port to our source port. A frame too
/// short to hold the fields read is no answer.
pub open spec fn answers_probe(e: Endpoints, f: Seq<u8>) -> bool {
    &&& f.len() >= 34
    &&& be16_at(f, 12) == ETHERTYPE_IPV4
    &&& be32_at(ip_part(f), 16) == e.source_ip
    &&& be32_at(ip_part(f), 12) == e.target_ip
    &&& ip_part(f)[9] == PROTO_TCP ==> {
        let t = ip_payload(ip_part(f));
        &&& t.len() >= 20
        &&& be16_at(t, 0) == e.target_port
        &&& be16_at(t, 2) == e.source_port
    }
    &&& ip_part(f)[9] == PROTO_ICMP ==> ip_payload(ip_part(f)).len() >= 4
}

/// What an answer says of the port: SYN|ACK means open; any other TCP
/// answer means closed; an ICMP Destination Unreachable with a filter code
/// means filtered; anything else closed.
pub open spec fn answer_state(f: Seq<u8>) -> PortState {
    let ip = ip_part(f);
    let p = ip_payload(ip);
    if ip[9] == PROTO_TCP {
        if p[13] == SYN_ACK {
            PortState::Open
        } else {
            PortState::_Closed
        }
    } else if ip[9] == PROTO_ICMP && p[0] == ICMP_DEST_UNREACHABLE && is_filter_code(p[1]) {
        PortState::Filtered
    } else {
        PortState::_Closed
    }
}

/// The state a received frame settles, if it answers the probe.
pub open spec fn reply_state(e: Endpoints, f: Seq<u8>) -> Option<PortState> {
    if answers_probe(e, f) {
        Some(answer_state(f))
    } else {
        None
    }
}

fn be16_in(s: &[u8], i: usize) -> (r: u16)
    requires
        i + 1 < s@.len(),
    ensures
        r as nat == be16_at(s@, i as int),
{
    s[i] as u16 * 256 + s[i + 1] as u16
}

fn be32_in(s: &[u8], i: usize) -> (r: u32)
    requires
        i + 3 < s@.len(),
    ensures
        r as nat == be32_at(s@, i as int),
{
    let n = s.len();
    assert(i + 3 < n);
    let hi = be16_in(s, i);
    let lo = be16_in(s, i + 2);
    hi as u32 * 65536 + lo as u32
}

/// Classifies a received frame for the probe `e`: `None` when the frame is
/// not an answer to it, else the state it gives the port.
pub fn classify(e: &Endpoints, f: &[u8]) -> (r: Option<PortState>)
    ensures
        r == reply_state(*e, f@),
{
    if f.len() < 34 {
        return None;
    }
    if be16_in(f, 12) != ETHERTYPE_IPV4 {
        return None;
    }
    assert(be32_at(ip_part(f@), 16) == be32_at(f@, 30));
    assert(be32_at(ip_part(f@), 12) == be32_at(f@, 26));
    if be32_in(f, 30) != e.source_ip || be32_in(f, 26) != e.target_ip {
        return None;
    }
    let n = f.len();
    let ihl = f[14] % 16;
    let hl: usize = ihl as usize * 4;
    let start: usize = 14 + if hl > 20 {
        hl
    } else {
        20
    };
    let total = be16_in(f, 16) as usize;
    let plen: usize = if total > hl {
        total - hl
    } else {
        0
    };
    let end: usize = if start + plen < n {
        start + plen
    } else {
        n
    };
    let proto = f[23];
    let ghost ip = ip_part(f@);
    let ghost p = ip_payload(ip);
    assert(ip[0] == f@[14]);
    assert(be16_at(ip, 2) == be16_at(f@, 16));
    assert(ip[9] == proto);
    let plen_here: usize = if n <= start {
        0
    } else {
        end - start
    };
    assert(p.len() == plen_here);
    assert(forall|k: int| 0 <= k < p.len() ==> p[k] == f@[start + k]);
    if proto == PROTO_TCP {
        if plen_here < 20 {
            return None;
        }
        assert(be16_at(p, 0) == be16_at(f@, start as int));
        assert(be16_at(p, 2) == be16_at(f@, start + 2));
        if be16_in(f, start) != e.target_port || be16_in(f, start + 2) != e.source_port {
            return None;
        }
        let flags = TcpKnownFlags(f[start + 13]);
        if flags.syn_ack() {
            Some(PortState::Open)
        } else {
            Some(PortState::_Closed)
        }
    } else if proto == PROTO_ICMP {
        if plen_here < 4 {
            return None;
        }
        let kind = f[start];
        let code = f[start + 1];
        if kind == ICMP_DEST_UNREACHABLE && (code == 1 || code == 2 || code == 3 || code == 9
            || code == 10 || code == 13) {
            Some(PortState::Filtered)
        } else {
            Some(PortState::_Closed)
        }
    } else {
        Some(PortState::_Closed)
    }
}


/// What the channel reported back to the probe.
pub enum Event {
    /// The SYN went out.
    Sent,
    /// Sending the SYN timed out.
    SendTimedOut,
    /// A frame came in.
    Received(Vec<u8>),
    /// No frame came in before the read timeout; the field is the
    /// milliseconds since the last SYN went out.
    Idle(u64),
}

/// What the probe asks of the channel next.
#[derive(Debug, Clone, Copy, PartialEq, Eq, Structural)]
pub enum Action {
    /// Send the SYN frame and restart the clock.
    Send,
    /// Wait for the next frame.
    Receive,
    /// The probe is over with this state.
    Finish(PortState),
}

/// After a read timeout: keep reading
/// while the attempt's time lasts, then send again while attempts remain,
/// else give the port up as filtered. Returns the sends made and the action.
pub open spec fn wait_step(sends: nat, elapsed: u64) -> (nat, Action) {
    if elapsed <= OVERALL_WAIT_PER_ATTEMPT_MS {
        (sends, Action::Receive)
    } else if sends < SEND_ATTEMPTS {
        (sends + 1, Action::Send)
    } else {
        (sends, Action::Finish(PortState::Filtered))
    }
}

/// One transition of a probe with `sends` SYNs sent.
pub open spec fn step(e: Endpoints, sends: nat, ev: Event) -> (nat, Action) {
    match ev {
        Event::Sent => (sends, Action::Receive),
        Event::SendTimedOut => (sends, Action::Finish(PortState::Unknown)),
        Event::Received(f) => match reply_state(e, f@) {
            Some(s) => (sends, Action::Finish(s)),
            None => (sends, Action::Receive),
        },
        Event::Idle(elapsed) => wait_step(sends, elapsed),
    }
}

/// Whether an event is a read timeout after the attempt's wait ran out.
pub open spec fn is_expiry(ev: Event) -> bool {
    ev matches Event::Idle(t) && t > OVERALL_WAIT_PER_ATTEMPT_MS
}

/// How many attempts' waits ran out in a run of the probe, up to the event
/// that finishes it.
pub open spec fn expired_waits(e: Endpoints, sends: nat, evs: Seq<Event>) -> nat
    decreases evs.len(),
{
    if evs.len() == 0 {
        0
    } else {
        let (n, a) = step(e, sends, evs[0]);
        let x: nat = if is_expiry(evs[0]) {
            1
        } else {
            0
        };
        match a {
            Action::Finish(_) => x,
            _ => x + expired_waits(e, n, evs.drop_first()),
        }
    }
}

/// Runs a probe with `sends` SYNs sent over the events `evs`, up to the
/// first that finishes it. Returns the SYNs sent and the state it finished
/// with, if it did.
pub open spec fn run(e: Endpoints, sends: nat, evs: Seq<Event>) -> (nat, Option<PortState>)
    decreases evs.len(),
{
    if evs.len() == 0 {
        (sends, None)
    } else {
        let (n, a) = step(e, sends, evs[0]);
        match a {
            Action::Finish(s) => (n, Some(s)),
            _ => run(e, n, evs.drop_first()),
        }
    }
}

/// Whether an event carries no answer from anywhere: the SYN went out, or
/// the read timed out.
pub open spec fn is_silence(ev: Event) -> bool {
    ev is Sent || ev is Idle
}

/// A frame that does not answer the probe (not IPv4, not from the target
/// to us, or TCP between other ports) is dropped: the probe keeps reading,
/// with the same SYNs sent.
pub proof fn lemma_unrelated_frame_ignored(e: Endpoints, sends: nat, f: Vec<u8>)
    requires
        !answers_probe(e, f@),
    ensures
        step(e, sends, Event::Received(f)) == (sends, Action::Receive),
{
}

/// Such a frame leaves no trace: inserting it anywhere among the events
/// changes neither the SYNs sent nor the state the probe ends with.
pub proof fn lemma_unrelated_frame_leaves_no_trace(
    e: Endpoints,
    sends: nat,
    evs: Seq<Event>,
    k: int,
    g: Vec<u8>,
)
    requires
        !answers_probe(e, g@),
        0 <= k <= evs.len(),
    ensures
        run(e, sends, evs.insert(k, Event::Received(g))) == run(e, sends, evs),
    decreases k,
{
    let with = evs.insert(k, Event::Received(g));
    if k == 0 {
        assert(with[0] == Event::Received(g));
        assert(with.drop_first() =~= evs);
    } else {
        assert(with[0] == evs[0]);
        let (n, a) = step(e, sends, evs[0]);
        if !(a is Finish) {
            lemma_unrelated_frame_leaves_no_trace(e, n, evs.drop_first(), k - 1, g);
            assert(with.drop_first() =~= evs.drop_first().insert(k - 1, Event::Received(g)));
        }
    }
}

/// A probe that hears nothing and ends filtered has waited out every
/// attempt: from `sends` SYNs sent, the waits of `SEND_ATTEMPTS - sends + 1`
/// attempts ran out, each a read timeout more than
/// `OVERALL_WAIT_PER_ATTEMPT_MS` after the SYN before it. From a fresh
/// probe that is three full waits.
pub proof fn lemma_silent_probe_waits_every_attempt(e: Endpoints, sends: nat, evs: Seq<Event>)
    requires
        1 <= sends <= SEND_ATTEMPTS,
        forall|i: int| 0 <= i < evs.len() ==> is_silence(#[trigger] evs[i]),
        run(e, sends, evs).1 == Some(PortState::Filtered),
    ensures
        expired_waits(e, sends, evs) == SEND_ATTEMPTS - sends + 1,
    decreases evs.len(),
{
    assert(is_silence(evs[0]));
    let (n, a) = step(e, sends, evs[0]);
    if !(a is Finish) {
        assert forall|i: int| 0 <= i < evs.drop_first().len() implies is_silence(
            #[trigger] evs.drop_first()[i],
        ) by {
            assert(evs.drop_first()[i] == evs[i + 1]);
        }
        lemma_silent_probe_waits_every_attempt(e, n, evs.drop_first());
    }
}

/// Whatever comes back, a probe never sends more than `SEND_ATTEMPTS`
/// SYNs; without any answer it can only end as filtered, and it does end as
/// filtered once the wait for the last SYN has run out.
pub proof fn lemma_retry_budget(e: Endpoints, sends: nat, evs: Seq<Event>)
    requires
        1 <= sends <= SEND_ATTEMPTS,
    ensures
        forall|t: u64|
            t > OVERALL_WAIT_PER_ATTEMPT_MS ==> #[trigger] step(e, SEND_ATTEMPTS as nat, Event::Idle(t)) == (
                SEND_ATTEMPTS as nat,
                Action::Finish(PortState::Filtered),
            ),
        sends <= run(e, sends, evs).0 <= SEND_ATTEMPTS,
        (forall|i: int| 0 <= i < evs.len() ==> is_silence(#[trigger] evs[i])) ==> (run(
            e,
            sends,
            evs,
        ).1 matches Some(s) ==> s == PortState::Filtered),
    decreases evs.len(),
{
    if evs.len() > 0 {
        let (n, a) = step(e, sends, evs[0]);
        if !(a is Finish) {
            lemma_retry_budget(e, n, evs.drop_first());
            if forall|i: int| 0 <= i < evs.len() ==> is_silence(#[trigger] evs[i]) {
                assert forall|i: int| 0 <= i < evs.drop_first().len() implies is_silence(
                    #[trigger] evs.drop_first()[i],
                ) by {
                    assert(evs.drop_first()[i] == evs[i + 1]);
                }
            }
        } else {
            if forall|i: int| 0 <= i < evs.len() ==> is_silence(#[trigger] evs[i]) {
                assert(is_silence(evs[0]));
            }
        }
    }
}

/// Every SYN frame is well formed: IPv4 in Ethernet, a 20-byte IPv4 header
/// with Don't Fragment whose checksum verifies, a total length of 60 (the
/// header and a 40-byte segment), and a segment with data offset 10 and
/// flags SYN whose checksum over the pseudo-header verifies.
pub proof fn lemma_syn_frame_well_formed(
    local_mac: Seq<u8>,
    gateway_mac: Seq<u8>,
    src: u32,
    dest: u32,
    src_port: u16,
    dest_port: u16,
    ident: u16,
)
    requires
        local_mac.len() == 6,
        gateway_mac.len() == 6,
    ensures
        ({
            let f = syn_frame(local_mac, gateway_mac, src, dest, src_port, dest_port, ident);
            &&& f.len() == 74
            &&& be16_at(f, 12) == ETHERTYPE_IPV4
            &&& f[14] == 0x45
            &&& be16_at(f, 16) == 60
            &&& f[20] == 0x40
            &&& f[23] == PROTO_TCP
            &&& checksum_verifies(f.subrange(14, 34))
            &&& f[46] / 16 == 10
            &&& f[47] == TCP_SYN
            &&& checksum_verifies(pseudo_header(src, dest, PROTO_TCP, 40) + f.subrange(34, 74))
        }),
{
    let seg = syn_segment(src, dest, src_port, dest_port);
    let blank = syn_segment_blank(src_port, dest_port);
    let covered = pseudo_header(src, dest, PROTO_TCP, 40) + blank;
    assert(blank.len() == 40);
    lemma_fold_carries_bounds(crate::wire::word_sum(covered, 14));
    let tc = checksum_of(covered, 14);
    lemma_checksum_fill_verifies(covered, 14, tc as u16);
    assert(put_u16(covered, 28, tc) =~= pseudo_header(src, dest, PROTO_TCP, 40) + seg);
    let hb = ipv4_header_blank(src, dest, PROTO_TCP, 60, ident);
    lemma_fold_carries_bounds(crate::wire::word_sum(hb, 5));
    let hc = checksum_of(hb, 5);
    lemma_checksum_fill_verifies(hb, 5, hc as u16);
    let f = syn_frame(local_mac, gateway_mac, src, dest, src_port, dest_port, ident);
    assert(f.subrange(14, 34) =~= ipv4_header(src, dest, PROTO_TCP, 60, ident));
    assert(f.subrange(34, 74) =~= seg);
}


/// Relies on rand::random::<u16>: a value drawn from the thread's random
/// generator; nothing is known of which.
#[verifier::external_body]
fn random_u16() -> (r: u16) {
    rand::random::<u16>()
}

/// One SYN probe of one port: its ends, the frame it sends, the SYNs sent
/// so far, and the state it finished with, once it has.
pub struct SynScan {
    pub ends: Endpoints,
    pub frame: Vec<u8>,
    pub sends: u8,
    pub outcome: Option<PortState>,
}

impl SynScan {
    /// Never more than `SEND_ATTEMPTS` sends.
    pub open spec fn wf(&self) -> bool {
        1 <= self.sends <= SEND_ATTEMPTS
    }

    /// A probe from `source_ip:source_port` to `target_ip:target_port`
    /// whose frame carries IPv4 identification `ident`. The first SYN counts
    /// as sent: the caller sends `frame` before anything else.
    pub fn with_source(
        local_mac: [u8; 6],
        gateway_mac: [u8; 6],
        source_ip: u32,
        target_ip: u32,
        target_port: u16,
        source_port: u16,
        ident: u16,
    ) -> (r: SynScan)
        ensures
            r.ends == (Endpoints { source_ip, source_port, target_ip, target_port }),
            r.frame@ == syn_frame(
                local_mac@,
                gateway_mac@,
                source_ip,
                target_ip,
                source_port,
                target_port,
                ident,
            ),
            r.sends == 1,
            r.outcome is None,
            r.wf(),
    {
        let segment = syn_segment_bytes(source_ip, target_ip, source_port, target_port);
        let frame = build(
            local_mac,
            gateway_mac,
            source_ip,
            target_ip,
            PROTO_TCP,
            segment.as_slice(),
            ident,
        );
        SynScan {
            ends: Endpoints { source_ip, source_port, target_ip, target_port },
            frame,
            sends: 1,
            outcome: None,
        }
    }

    /// A probe of `target_ip:target_port` from a random source port, with
    /// a random IPv4 identification.
    pub fn new(
        local_mac: [u8; 6],
        gateway_mac: [u8; 6],
        source_ip: u32,
        target_ip: u32,
        target_port: u16,
    ) -> (r: SynScan)
        ensures
            r.ends.source_ip == source_ip,
            r.ends.target_ip == target_ip,
            r.ends.target_port == target_port,
            exists|ident: u16|
                r.frame@ == syn_frame(
                    local_mac@,
                    gateway_mac@,
                    source_ip,
                    target_ip,
                    r.ends.source_port,
                    target_port,
                    ident,
                ),
            r.sends == 1,
            r.outcome is None,
            r.wf(),
    {
        let source_port = random_u16();
        let ident = random_u16();
        let r = SynScan::with_source(
            local_mac,
            gateway_mac,
            source_ip,
            target_ip,
            target_port,
            source_port,
            ident,
        );
        assert(r.frame@ == syn_frame(
            local_mac@,
            gateway_mac@,
            source_ip,
            target_ip,
            r.ends.source_port,
            target_port,
            ident,
        ));
        r
    }

    /// The frame to send.
    pub fn frame(&self) -> (r: &[u8])
        ensures
            r@ == self.frame@,
    {
        self.frame.as_slice()
    }

    fn after_wait(&mut self, elapsed: u64) -> (r: Action)
        requires
            old(self).wf(),
            old(self).outcome is None,
        ensures
            (final(self).sends as nat, r) == wait_step(old(self).sends as nat, elapsed),
            final(self).ends == old(self).ends,
            final(self).frame == old(self).frame,
            final(self).outcome == old(self).outcome,
            final(self).wf(),
    {
        if elapsed <= OVERALL_WAIT_PER_ATTEMPT_MS {
            Action::Receive
        } else if self.sends < SEND_ATTEMPTS {
            self.sends = self.sends + 1;
            Action::Send
        } else {
            Action::Finish(PortState::Filtered)
        }
    }

    /// Takes in what the channel reported and says what to do next. Once
    /// the probe has finished it keeps answering with its state.
    pub fn step(&mut self, ev: Event) -> (r: Action)
        requires
            old(self).wf(),
        ensures
            final(self).wf(),
            final(self).ends == old(self).ends,
            final(self).frame == old(self).frame,
            match old(self).outcome {
                Some(s) => r == Action::Finish(s) && final(self).sends == old(self).sends
                    && final(self).outcome == old(self).outcome,
                None => {
                    &&& (final(self).sends as nat, r) == step(old(self).ends, old(self).sends as nat, ev)
                    &&& final(self).outcome == match r {
                        Action::Finish(s) => Some(s),
                        _ => None,
                    }
                },
            },
    {
        if let Some(s) = self.outcome {
            return Action::Finish(s);
        }
        let r = match ev {
            Event::Sent => Action::Receive,
            Event::SendTimedOut => Action::Finish(PortState::Unknown),
            Event::Received(f) => match classify(&self.ends, f.as_slice()) {
                Some(s) => Action::Finish(s),
                None => Action::Receive,
            },
            Event::Idle(elapsed) => self.after_wait(elapsed),
        };
        if let Action::Finish(s) = r {
            self.outcome = Some(s);
        }
        r
    }
}

} // verus!
