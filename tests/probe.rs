use pscan::scan::PortState;
use pscan::syn::{classify, Action, Endpoints, Event, SynScan, TcpKnownFlags, SEND_ATTEMPTS};

const LOCAL_MAC: [u8; 6] = [0x02, 0, 0, 0, 0, 0x01];
const GATEWAY_MAC: [u8; 6] = [0x02, 0, 0, 0, 0, 0xfe];
const OUR_IP: u32 = 0xc0a8_000a; // 192.168.0.10
const TARGET_IP: u32 = 0x0a00_0005; // 10.0.0.5
const OUR_PORT: u16 = 40000;

fn probe(port: u16) -> SynScan {
    SynScan::with_source(LOCAL_MAC, GATEWAY_MAC, OUR_IP, TARGET_IP, port, OUR_PORT, 7)
}

fn ip_frame(src: u32, dst: u32, proto: u8, payload: &[u8]) -> Vec<u8> {
    let mut f = Vec::new();
    f.extend_from_slice(&LOCAL_MAC);
    f.extend_from_slice(&GATEWAY_MAC);
    f.extend_from_slice(&[0x08, 0x00]);
    let total = (20 + payload.len()) as u16;
    f.extend_from_slice(&[0x45, 0, (total >> 8) as u8, total as u8, 0, 1, 0x40, 0, 64, proto, 0, 0]);
    f.extend_from_slice(&src.to_be_bytes());
    f.extend_from_slice(&dst.to_be_bytes());
    f.extend_from_slice(payload);
    f
}

fn tcp_reply(src: u32, dst: u32, sport: u16, dport: u16, flags: u8) -> Vec<u8> {
    let mut t = vec![0u8; 20];
    t[0..2].copy_from_slice(&sport.to_be_bytes());
    t[2..4].copy_from_slice(&dport.to_be_bytes());
    t[12] = 0x50;
    t[13] = flags;
    ip_frame(src, dst, 6, &t)
}

fn icmp_unreachable(src: u32, dst: u32, code: u8) -> Vec<u8> {
    let mut p = vec![3u8, code, 0, 0, 0, 0, 0, 0];
    p.extend_from_slice(&[0x45, 0, 0, 40]);
    ip_frame(src, dst, 1, &p)
}

fn ends(port: u16) -> Endpoints {
    Endpoints { source_ip: OUR_IP, source_port: OUR_PORT, target_ip: TARGET_IP, target_port: port }
}

#[test]
fn open_via_syn_ack() {
    let mut p = probe(22);
    assert_eq!(p.step(Event::Sent), Action::Receive);
    let reply = tcp_reply(TARGET_IP, OUR_IP, 22, OUR_PORT, 0x12);
    assert_eq!(p.step(Event::Received(reply)), Action::Finish(PortState::Open));
    assert_eq!(p.outcome, Some(PortState::Open));
}

#[test]
fn closed_via_rst_ack() {
    let mut p = probe(22);
    assert_eq!(p.step(Event::Sent), Action::Receive);
    let reply = tcp_reply(TARGET_IP, OUR_IP, 22, OUR_PORT, 0x14);
    assert_eq!(p.step(Event::Received(reply)), Action::Finish(PortState::_Closed));
}

#[test]
fn other_tcp_flags_mean_closed() {
    let reply = tcp_reply(TARGET_IP, OUR_IP, 22, OUR_PORT, 0x12 | 0x40);
    assert_eq!(classify(&ends(22), &reply), Some(PortState::_Closed));
    let reply = tcp_reply(TARGET_IP, OUR_IP, 22, OUR_PORT, 0x04);
    assert_eq!(classify(&ends(22), &reply), Some(PortState::_Closed));
}

#[test]
fn filtered_via_icmp() {
    let mut p = probe(22);
    assert_eq!(p.step(Event::Sent), Action::Receive);
    let reply = icmp_unreachable(TARGET_IP, OUR_IP, 3);
    assert_eq!(p.step(Event::Received(reply)), Action::Finish(PortState::Filtered));
}

#[test]
fn icmp_filter_codes() {
    for code in [1u8, 2, 3, 9, 10, 13] {
        let reply = icmp_unreachable(TARGET_IP, OUR_IP, code);
        assert_eq!(classify(&ends(22), &reply), Some(PortState::Filtered));
    }
    for code in [0u8, 4, 11] {
        let reply = icmp_unreachable(TARGET_IP, OUR_IP, code);
        assert_eq!(classify(&ends(22), &reply), Some(PortState::_Closed));
    }
    let mut echo = icmp_unreachable(TARGET_IP, OUR_IP, 3);
    echo[34] = 0;
    assert_eq!(classify(&ends(22), &echo), Some(PortState::_Closed));
}

#[test]
fn filtered_via_silence() {
    let mut p = probe(22);
    let mut sends = 1;
    let mut waited: u64 = 0;
    let mut action = p.step(Event::Sent);
    let result = loop {
        match action {
            Action::Receive => {
                assert_eq!(p.step(Event::Idle(1500)), Action::Receive);
                assert_eq!(p.step(Event::Idle(4000)), Action::Receive);
                waited += 4001;
                action = p.step(Event::Idle(4001));
            }
            Action::Send => {
                sends += 1;
                action = p.step(Event::Sent);
            }
            Action::Finish(s) => break s,
        }
    };
    assert_eq!(result, PortState::Filtered);
    assert_eq!(sends, 3);
    assert_eq!(sends, SEND_ATTEMPTS as usize);
    assert!(waited >= 12000);
    assert_eq!(p.step(Event::Idle(1)), Action::Finish(PortState::Filtered));
}

#[test]
fn send_timeout_is_unknown() {
    let mut p = probe(80);
    assert_eq!(p.step(Event::SendTimedOut), Action::Finish(PortState::Unknown));
}

#[test]
fn stray_frame_ignored() {
    let mut p = probe(22);
    assert_eq!(p.step(Event::Sent), Action::Receive);
    let stray = tcp_reply(0x0a00_0009, OUR_IP, 22, OUR_PORT, 0x12);
    assert_eq!(p.step(Event::Received(stray)), Action::Receive);
    assert_eq!(p.sends, 1);
    assert_eq!(p.outcome, None);
    let reply = tcp_reply(TARGET_IP, OUR_IP, 22, OUR_PORT, 0x12);
    assert_eq!(p.step(Event::Received(reply)), Action::Finish(PortState::Open));
}

#[test]
fn unrelated_frames_do_not_answer() {
    let e = ends(22);
    let mut not_ipv4 = tcp_reply(TARGET_IP, OUR_IP, 22, OUR_PORT, 0x12);
    not_ipv4[12] = 0x86;
    not_ipv4[13] = 0xdd;
    assert_eq!(classify(&e, &not_ipv4), None);
    assert_eq!(classify(&e, &tcp_reply(TARGET_IP, 0x0a00_0001, 22, OUR_PORT, 0x12)), None);
    assert_eq!(classify(&e, &tcp_reply(TARGET_IP, OUR_IP, 23, OUR_PORT, 0x12)), None);
    assert_eq!(classify(&e, &tcp_reply(TARGET_IP, OUR_IP, 22, OUR_PORT + 1, 0x12)), None);
    assert_eq!(classify(&e, &[0u8; 10]), None);
    let mut p = probe(22);
    p.step(Event::Sent);
    assert_eq!(p.step(Event::Idle(4050)), Action::Send);
    p.step(Event::Sent);
    for stray in [not_ipv4, tcp_reply(0x0a00_0009, OUR_IP, 22, OUR_PORT, 0x12), tcp_reply(TARGET_IP, OUR_IP, 23, OUR_PORT, 0x12)] {
        assert_eq!(p.step(Event::Received(stray)), Action::Receive);
        assert_eq!(p.sends, 2);
        assert_eq!(p.outcome, None);
    }
    let reply = tcp_reply(TARGET_IP, OUR_IP, 22, OUR_PORT, 0x12);
    assert_eq!(p.step(Event::Received(reply)), Action::Finish(PortState::Open));
    assert_eq!(p.sends, 2);
}

#[test]
fn stray_frame_causes_no_resend() {
    let mut p = probe(22);
    p.step(Event::Sent);
    let stray = tcp_reply(0x0a00_0009, OUR_IP, 22, OUR_PORT, 0x12);
    assert_eq!(p.step(Event::Received(stray)), Action::Receive);
    let reply = tcp_reply(TARGET_IP, OUR_IP, 22, OUR_PORT, 0x12);
    assert_eq!(p.step(Event::Received(reply)), Action::Finish(PortState::Open));
    assert_eq!(p.sends, 1);
}

#[test]
fn syn_ack_flags() {
    assert!(TcpKnownFlags(0x12).syn_ack());
    assert!(!TcpKnownFlags(0x14).syn_ack());
    assert!(!TcpKnownFlags(0x02).syn_ack());
}

#[test]
fn random_probe_keeps_target() {
    let p = SynScan::new(LOCAL_MAC, GATEWAY_MAC, OUR_IP, TARGET_IP, 443);
    assert_eq!(p.ends.target_port, 443);
    assert_eq!(p.ends.target_ip, TARGET_IP);
    assert_eq!(p.frame().len(), 74);
    assert_eq!(&p.frame()[34..36], &p.ends.source_port.to_be_bytes());
    assert_eq!(&p.frame()[36..38], &443u16.to_be_bytes());
}
