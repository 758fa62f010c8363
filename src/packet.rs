//! Construction of the frames the scanner sends: an Ethernet II header, an
//! IPv4 header without options, and a TCP SYN segment.
use vstd::prelude::*;

use crate::wire::{checksum_of, internet_checksum, ipv4_octets, u16_bytes};

verus! {

/// EtherType of an IPv4 payload.
pub const ETHERTYPE_IPV4: u16 = 0x0800;

/// IPv4 protocol number of TCP.
pub const PROTO_TCP: u8 = 6;

/// IPv4 protocol number of ICMP.
pub const PROTO_ICMP: u8 = 1;

/// Length of an IPv4 header without options.
pub const IPV4_HDR_LEN: usize = 20;

/// Time to live of every frame sent.
pub const IPV4_TTL: u8 = 64;

/// Length of the SYN segment: a 20-byte header and 20 bytes of options.
pub const TCP_SYN_LEN: usize = 40;

/// The TCP SYN flag.
pub const TCP_SYN: u8 = 0x02;

/// The IPv4 header with its checksum field still zero: version 4, five
/// words long, Don't Fragment, no fragment offset, TTL 64.
pub open spec fn ipv4_header_blank(src: u32, dest: u32, proto: u8, total_len: u16, ident: u16) -> Seq<
    u8,
> {
    seq![0x45u8, 0u8] + u16_bytes(total_len) + u16_bytes(ident) + seq![
        0x40u8,
        0u8,
        IPV4_TTL,
        proto,
        0u8,
        0u8,
    ] + ipv4_octets(src) + ipv4_octets(dest)
}

/// Stores `c` big-endian at `s[i]`, `s[i + 1]`.
pub open spec fn put_u16(s: Seq<u8>, i: int, c: int) -> Seq<u8> {
    s.update(i, (c / 256) as u8).update(i + 1, (c % 256) as u8)
}

/// The IPv4 header with its checksum (word 5) filled in.
pub open spec fn ipv4_header(src: u32, dest: u32, proto: u8, total_len: u16, ident: u16) -> Seq<u8> {
    let h = ipv4_header_blank(src, dest, proto, total_len, ident);
    put_u16(h, 10, checksum_of(h, 5))
}

/// The Ethernet frame that carries `payload` from `src` to `dest`, sent from
/// `local_mac` to the gateway at `gateway_mac`.
pub open spec fn frame(
    local_mac: Seq<u8>,
    gateway_mac: Seq<u8>,
    src: u32,
    dest: u32,
    proto: u8,
    payload: Seq<u8>,
    ident: u16,
) -> Seq<u8> {
    gateway_mac + local_mac + u16_bytes(ETHERTYPE_IPV4) + ipv4_header(
        src,
        dest,
        proto,
        (IPV4_HDR_LEN + payload.len()) as u16,
        ident,
    ) + payload
}

/// The SYN options: MSS 1460, SACK permitted, two NOPs, window scale 7,
/// zero padding up to 20 bytes.
pub open spec fn syn_options() -> Seq<u8> {
    seq![2u8, 4u8, 5u8, 180u8, 4u8, 2u8, 1u8, 1u8, 3u8, 3u8, 7u8] + Seq::new(9, |i: int| 0u8)
}

/// The SYN segment with its checksum still zero: sequence and
/// acknowledgement numbers zero, data offset 10 words, flags SYN, window
/// 0xFFFF, urgent pointer zero.
pub open spec fn syn_segment_blank(src_port: u16, dest_port: u16) -> Seq<u8> {
    u16_bytes(src_port) + u16_bytes(dest_port) + Seq::new(8, |i: int| 0u8) + seq![
        0xA0u8,
        TCP_SYN,
        0xFFu8,
        0xFFu8,
        0u8,
        0u8,
        0u8,
        0u8,
    ] + syn_options()
}

/// The pseudo-header over which a TCP checksum is also computed.
pub open spec fn pseudo_header(src: u32, dest: u32, proto: u8, len: u16) -> Seq<u8> {
    ipv4_octets(src) + ipv4_octets(dest) + seq![0u8, proto] + u16_bytes(len)
}

/// The TCP checksum of `segment` (its word 8 left out) sent from `src` to `dest`.
pub open spec fn tcp_checksum(src: u32, dest: u32, segment: Seq<u8>) -> int {
    checksum_of(pseudo_header(src, dest, PROTO_TCP, segment.len() as u16) + segment, 14)
}

/// The SYN segment with its checksum filled in.
pub open spec fn syn_segment(src: u32, dest: u32, src_port: u16, dest_port: u16) -> Seq<u8> {
    let s = syn_segment_blank(src_port, dest_port);
    put_u16(s, 16, tcp_checksum(src, dest, s))
}

/// The whole frame of a SYN probe.
pub open spec fn syn_frame(
    local_mac: Seq<u8>,
    gateway_mac: Seq<u8>,
    src: u32,
    dest: u32,
    src_port: u16,
    dest_port: u16,
    ident: u16,
) -> Seq<u8> {
    frame(
        local_mac,
        gateway_mac,
        src,
        dest,
        PROTO_TCP,
        syn_segment(src, dest, src_port, dest_port),
        ident,
    )
}

/// Relies on pnet::util::ipv4_checksum with no extra data: it adds the
/// pseudo-header's words (the two addresses, the protocol number, the
/// segment length) to the segment's big-endian words, skipping word
/// `skipword` of the segment, folds the carries back in and returns the
/// complement.
#[verifier::external_body]
fn tcp_ipv4_checksum(segment: &[u8], skipword: usize, src: u32, dest: u32) -> (r: u16)
    requires
        segment@.len() % 2 == 0,
        segment@.len() <= 65534,
    ensures
        r as int == checksum_of(
            pseudo_header(src, dest, PROTO_TCP, segment@.len() as u16) + segment@,
            skipword + 6,
        ),
{
    pnet::util::ipv4_checksum(
        segment,
        skipword,
        &[],
        &pnet::util::core_net::Ipv4Addr::from(src),
        &pnet::util::core_net::Ipv4Addr::from(dest),
        pnet::packet::ip::IpNextHeaderProtocols::Tcp,
    )
}

fn push_u16(v: &mut Vec<u8>, x: u16)
    ensures
        final(v)@ == old(v)@ + u16_bytes(x),
{
    v.push((x / 256) as u8);
    v.push((x % 256) as u8);
    assert(final(v)@ =~= old(v)@ + u16_bytes(x));
}

fn push_ipv4(v: &mut Vec<u8>, a: u32)
    ensures
        final(v)@ == old(v)@ + ipv4_octets(a),
{
    v.push((a / 16777216) as u8);
    v.push(((a / 65536) % 256) as u8);
    v.push(((a / 256) % 256) as u8);
    v.push((a % 256) as u8);
    assert(final(v)@ =~= old(v)@ + ipv4_octets(a));
}

fn push_all(v: &mut Vec<u8>, data: &[u8])
    ensures
        final(v)@ == old(v)@ + data@,
{
    let ghost start = v@;
    let mut i: usize = 0;
    while i < data.len()
        invariant
            i <= data@.len(),
            v@ == start + data@.subrange(0, i as int),
        decreases data.len() - i,
    {
        v.push(data[i]);
        i = i + 1;
        assert(v@ =~= start + data@.subrange(0, i as int));
    }
    assert(data@.subrange(0, i as int) =~= data@);
}

fn put_u16_at(v: &mut Vec<u8>, i: usize, c: u16)
    requires
        i + 1 < old(v)@.len(),
    ensures
        final(v)@ == put_u16(old(v)@, i as int, c as int),
{
    let n = v.len();
    assert(i + 1 < n);
    let j = i + 1;
    v.set(i, (c / 256) as u8);
    v.set(j, (c % 256) as u8);
}

/// The IPv4 header for a payload of `payload_len` bytes, checksum filled in.
pub fn ipv4_header_bytes(src: u32, dest: u32, proto: u8, payload_len: usize, ident: u16) -> (r: Vec<
    u8,
>)
    requires
        IPV4_HDR_LEN + payload_len <= u16::MAX,
    ensures
        r@ == ipv4_header(src, dest, proto, (IPV4_HDR_LEN + payload_len) as u16, ident),
{
    let total = (IPV4_HDR_LEN + payload_len) as u16;
    let mut h: Vec<u8> = vec![0x45, 0];
    push_u16(&mut h, total);
    push_u16(&mut h, ident);
    h.push(0x40);
    h.push(0);
    h.push(IPV4_TTL);
    h.push(proto);
    h.push(0);
    h.push(0);
    push_ipv4(&mut h, src);
    push_ipv4(&mut h, dest);
    assert(h@ =~= ipv4_header_blank(src, dest, proto, total, ident));
    let c = internet_checksum(h.as_slice(), 5);
    put_u16_at(&mut h, 10, c);
    h
}

/// Wraps `payload` in an IPv4 header and an Ethernet header addressed to
/// the gateway. The IPv4 identification is `ident`.
pub fn build(
    local_mac: [u8; 6],
    gateway_mac: [u8; 6],
    src: u32,
    dest: u32,
    proto: u8,
    payload: &[u8],
    ident: u16,
) -> (r: Vec<u8>)
    requires
        IPV4_HDR_LEN + payload@.len() <= u16::MAX,
    ensures
        r@ == frame(local_mac@, gateway_mac@, src, dest, proto, payload@, ident),
{
    let mut f: Vec<u8> = Vec::new();
    push_all(&mut f, &gateway_mac);
    push_all(&mut f, &local_mac);
    push_u16(&mut f, ETHERTYPE_IPV4);
    let h = ipv4_header_bytes(src, dest, proto, payload.len(), ident);
    push_all(&mut f, h.as_slice());
    push_all(&mut f, payload);
    assert(f@ =~= frame(local_mac@, gateway_mac@, src, dest, proto, payload@, ident));
    f
}

/// The SYN segment from `src:src_port` to `dest:dest_port`, checksum filled in.
pub fn syn_segment_bytes(src: u32, dest: u32, src_port: u16, dest_port: u16) -> (r: Vec<u8>)
    ensures
        r@ == syn_segment(src, dest, src_port, dest_port),
        r@.len() == TCP_SYN_LEN,
{
    let mut s: Vec<u8> = Vec::new();
    push_u16(&mut s, src_port);
    push_u16(&mut s, dest_port);
    let mut i: usize = 0;
    while i < 8
        invariant
            i <= 8,
            s@ == u16_bytes(src_port) + u16_bytes(dest_port) + Seq::new(i as nat, |j: int| 0u8),
        decreases 8 - i,
    {
        s.push(0);
        i = i + 1;
        assert(s@ =~= u16_bytes(src_port) + u16_bytes(dest_port) + Seq::new(i as nat, |j: int| 0u8));
    }
    let tail: Vec<u8> = vec![
        0xA0, TCP_SYN, 0xFF, 0xFF, 0, 0, 0, 0,
        2, 4, 5, 180, 4, 2, 1, 1, 3, 3, 7, 0, 0, 0, 0, 0, 0, 0, 0, 0,
    ];
    push_all(&mut s, tail.as_slice());
    assert(s@ =~= syn_segment_blank(src_port, dest_port));
    let c = tcp_ipv4_checksum(s.as_slice(), 8, src, dest);
    put_u16_at(&mut s, 16, c);
    s
}

} // verus!
