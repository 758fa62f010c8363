use pnet::datalink::NetworkInterface;
use pscan::args::{check_privileges, parse_port, parse_ports};
use pscan::error::ScanError;
use pscan::logger;
use pscan::interface::{Board, NicCandidate};
use pscan::resolver::{classify_target, first_ipv4, HostKind};
use pscan::scan::{ScanType, Technique};

#[test]
fn ports_parse() {
    assert!(matches!(parse_port("80"), Ok(80)));
    assert!(matches!(parse_port("+443"), Ok(443)));
    assert!(matches!(parse_port("0"), Ok(0)));
    assert!(matches!(parse_port("65535"), Ok(65535)));
    assert!(matches!(parse_port("65536"), Err(ScanError::InvalidPort(ref s)) if s == "65536"));
    assert!(matches!(parse_port("http"), Err(ScanError::InvalidPort(ref s)) if s == "http"));
    assert!(matches!(parse_port(""), Err(ScanError::InvalidPort(_))));
    assert!(matches!(parse_port("-1"), Err(ScanError::InvalidPort(_))));
}

#[test]
fn port_list_stops_at_first_bad() {
    let ok = parse_ports(&vec!["22".to_string(), "80".to_string()]);
    assert!(matches!(ok, Ok(ref v) if v == &vec![22, 80]));
    let bad = parse_ports(&vec!["22".to_string(), "x".to_string(), "y".to_string()]);
    assert!(matches!(bad, Err(ScanError::InvalidPort(ref s)) if s == "x"));
    let bad = parse_ports(&vec!["22".to_string(), "abc".to_string()]);
    assert!(matches!(bad, Err(ScanError::InvalidPort(ref s)) if s == "abc"));
    let bad = parse_ports(&vec!["70000".to_string()]);
    assert!(matches!(bad, Err(ScanError::InvalidPort(ref s)) if s == "70000"));
}

#[test]
fn syn_needs_superuser() {
    let syn = vec![Technique::from("tcp"), Technique::from("syn")];
    let tcp = vec![Technique { kind: ScanType::Tcp }];
    assert!(matches!(check_privileges(&syn, false), Err(ScanError::NormalUserRequired)));
    assert!(check_privileges(&syn, true).is_ok());
    assert!(check_privileges(&tcp, false).is_ok());
}

#[test]
fn targets_classified() {
    assert!(matches!(classify_target("127.0.0.1"), Ok(HostKind::Ipv4(0x7f00_0001))));
    assert!(matches!(classify_target("Example.COM"), Ok(HostKind::Domain(ref d)) if d == "example.com"));
    assert!(matches!(classify_target("[::1]"), Err(ScanError::OnlyIpv4TargetSupported)));
    assert!(matches!(classify_target("a b"), Err(ScanError::HostParseFailed(_))));
}

#[test]
fn first_resolved_ipv4() {
    assert!(matches!(first_ipv4("h", &vec![None, Some(5), Some(6)]), Ok(5)));
    assert!(matches!(first_ipv4("h", &vec![None]), Err(ScanError::DomainLookupFailed(ref s)) if s == "h"));
    assert!(matches!(first_ipv4("h", &vec![]), Err(ScanError::DomainLookupFailed(_))));
}

fn nic(name: &str) -> NetworkInterface {
    NetworkInterface {
        name: name.to_string(),
        description: String::new(),
        index: 1,
        mac: None,
        ips: Vec::new(),
        flags: 0,
    }
}

fn cand(up: bool, loopback: bool, mac: Option<[u8; 6]>, ipv4s: Vec<u32>, name: &str) -> NicCandidate {
    NicCandidate { up, loopback, mac, ipv4s, raw: nic(name) }
}

#[test]
fn interface_selection() {
    let r = Board::select(vec![
        cand(true, true, Some([1; 6]), vec![0x7f00_0001], "lo"),
        cand(false, false, Some([2; 6]), vec![1], "down"),
        cand(true, false, Some([3; 6]), vec![0x0a00_0002, 0x0a00_0003], "eth0"),
    ]);
    let b = r.ok().unwrap();
    assert_eq!(b.mac(), [3; 6]);
    assert_eq!(b.ip(), 0x0a00_0002);
    assert_eq!(b.raw().name, "eth0");
    assert!(matches!(Board::select(vec![]), Err(ScanError::MissingDefaultInterface)));
    assert!(matches!(
        Board::select(vec![cand(true, false, None, vec![1], "eth0")]),
        Err(ScanError::MissingMacAddr)
    ));
}

#[test]
fn ipv6_only_interface_is_passed_over() {
    let b = Board::select(vec![
        cand(true, false, Some([4; 6]), vec![], "v6only"),
        cand(true, false, Some([5; 6]), vec![0x0a00_0007], "eth1"),
    ])
    .ok()
    .unwrap();
    assert_eq!(b.raw().name, "eth1");
    assert_eq!(b.mac(), [5; 6]);
    assert_eq!(b.ip(), 0x0a00_0007);
    assert!(matches!(
        Board::select(vec![cand(true, false, Some([3; 6]), vec![], "v6only")]),
        Err(ScanError::MissingDefaultInterface)
    ));
}

#[test]
fn debug_level_enabled_once_installed() {
    assert!(logger::init(Ok(())));
    assert_eq!(log::max_level(), log::LevelFilter::Debug);
}
