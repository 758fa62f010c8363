use std::time::Duration;

use pscan::port::{common_ports, Protocol};
use pscan::report::render_ports;
use pscan::scan::{
    PortProbe, PortResult, PortState, PortsToScan, ScanResult, ScanType, Scanner, TcpScan,
    Technique,
};

fn techniques(kinds: &[ScanType]) -> Vec<Technique> {
    kinds.iter().map(|&kind| Technique { kind }).collect()
}

#[test]
fn catalog_is_ascending_without_zero() {
    let c = common_ports();
    assert!(!c.is_empty());
    assert!(c.windows(2).all(|w| w[0].port < w[1].port));
    assert!(c.iter().all(|e| e.port != 0));
    assert!(c.iter().any(|e| e.port == 22 && e.protocol == Protocol::Tcp));
    assert!(c.iter().any(|e| e.port == 53 && e.protocol == Protocol::Both));
}

#[test]
fn selected_ports_get_first_technique_only() {
    let sc = Scanner::new(1, PortsToScan::Selected(vec![22, 80, 443]), techniques(&[ScanType::Syn, ScanType::Tcp]));
    let plan = sc.plan();
    assert_eq!(
        plan,
        vec![
            PortProbe { port: 22, kind: ScanType::Syn },
            PortProbe { port: 80, kind: ScanType::Syn },
            PortProbe { port: 443, kind: ScanType::Syn },
        ]
    );
}

#[test]
fn catalog_plan_follows_protocols() {
    let sc = Scanner::new(1, PortsToScan::All, techniques(&[ScanType::Tcp, ScanType::Syn]));
    let plan = sc.plan();
    let catalog = common_ports();
    let served: Vec<u16> = catalog.iter().filter(|e| e.protocol != Protocol::Udp).map(|e| e.port).collect();
    assert_eq!(plan.iter().map(|p| p.port).collect::<Vec<_>>(), served);
    assert!(plan.iter().all(|p| p.kind == ScanType::Tcp));

    let sc = Scanner::new(1, PortsToScan::All, techniques(&[ScanType::Udp, ScanType::Syn]));
    let plan = sc.plan();
    for p in &plan {
        let e = catalog.iter().find(|e| e.port == p.port).unwrap();
        match e.protocol {
            Protocol::Tcp => assert_eq!(p.kind, ScanType::Syn),
            _ => assert_eq!(p.kind, ScanType::Udp),
        }
    }
    assert_eq!(plan.len(), catalog.len());
}

#[test]
fn no_technique_no_probe() {
    let sc = Scanner::new(1, PortsToScan::Selected(vec![22]), Vec::new());
    assert!(sc.plan().is_empty());
}

#[test]
fn closed_results_are_dropped() {
    let probes = vec![
        PortProbe { port: 22, kind: ScanType::Syn },
        PortProbe { port: 23, kind: ScanType::Syn },
        PortProbe { port: 80, kind: ScanType::Tcp },
        PortProbe { port: 81, kind: ScanType::Tcp },
    ];
    let states = vec![PortState::Open, PortState::_Closed, PortState::Filtered, PortState::Unknown];
    let r: ScanResult = Scanner::collect(&probes, &states, Duration::from_millis(1234));
    assert_eq!(r.elapsed, Duration::from_millis(1234));
    assert_eq!(
        r.ports,
        vec![
            PortResult::new(22, PortState::Open, ScanType::Syn),
            PortResult::new(80, PortState::Filtered, ScanType::Tcp),
            PortResult::new(81, PortState::Unknown, ScanType::Tcp),
        ]
    );
    assert!(r.ports.iter().all(|p| p.state != PortState::_Closed));
}

#[test]
fn closed_rst_ack_leaves_empty_report() {
    let probes = vec![PortProbe { port: 22, kind: ScanType::Syn }];
    let r = Scanner::collect(&probes, &vec![PortState::_Closed], Duration::ZERO);
    assert!(r.ports.is_empty());
}

#[test]
fn one_result_per_port() {
    let sc = Scanner::new(1, PortsToScan::All, techniques(&[ScanType::Syn]));
    let plan = sc.plan();
    let states: Vec<PortState> = plan.iter().map(|_| PortState::Open).collect();
    let r = Scanner::collect(&plan, &states, Duration::ZERO);
    let mut ports: Vec<u16> = r.ports.iter().map(|p| p.port).collect();
    let n = ports.len();
    ports.dedup();
    assert_eq!(ports.len(), n);
}

#[test]
fn tcp_connect_states() {
    assert_eq!(TcpScan::state(true), PortState::Open);
    assert_eq!(TcpScan::state(false), PortState::_Closed);
    let probes = vec![
        PortProbe { port: 34567, kind: ScanType::Tcp },
        PortProbe { port: 34568, kind: ScanType::Tcp },
    ];
    let states = vec![TcpScan::state(true), TcpScan::state(false)];
    let r = Scanner::collect(&probes, &states, Duration::ZERO);
    assert_eq!(r.ports, vec![PortResult::new(34567, PortState::Open, ScanType::Tcp)]);
}

#[test]
fn labels() {
    assert_eq!(PortState::Open.label(), "open");
    assert_eq!(PortState::Filtered.label(), "filtered");
    assert_eq!(PortState::Unknown.label(), "unknown");
    assert_eq!(ScanType::Tcp.label(), "TCP scan");
    assert_eq!(ScanType::Syn.label(), "TCP SYN scan");
    assert_eq!(ScanType::Udp.label(), "UDP scan");
}

#[test]
fn technique_from_name() {
    assert_eq!(Technique::from("tcp").kind, ScanType::Tcp);
    assert_eq!(Technique::from("syn").kind, ScanType::Syn);
}

#[test]
fn report_table() {
    assert_eq!(render_ports(&vec![]), "Didn't find any open port.\n");
    let ports = vec![
        PortResult::new(22, PortState::Open, ScanType::Syn),
        PortResult::new(8080, PortState::Filtered, ScanType::Tcp),
        PortResult::new(7, PortState::Unknown, ScanType::Tcp),
    ];
    assert_eq!(
        render_ports(&ports),
        "Port    State      Scan Method\n\
         22      open       TCP SYN scan\n\
         8080    filtered   TCP scan\n\
         7       unknown    TCP scan\n"
    );
}

#[test]
fn unpaired_probes_are_left_out() {
    let probes = vec![
        PortProbe { port: 22, kind: ScanType::Syn },
        PortProbe { port: 80, kind: ScanType::Syn },
    ];
    let r = Scanner::collect(&probes, &vec![PortState::Filtered], Duration::ZERO);
    assert_eq!(r.ports, vec![PortResult::new(22, PortState::Filtered, ScanType::Syn)]);
}

#[test]
fn repeated_port_is_probed_once() {
    let sc = Scanner::new(1, PortsToScan::Selected(vec![22, 80, 22, 443, 80]), techniques(&[ScanType::Tcp, ScanType::Syn]));
    let plan = sc.plan();
    assert_eq!(
        plan,
        vec![
            PortProbe { port: 22, kind: ScanType::Tcp },
            PortProbe { port: 80, kind: ScanType::Tcp },
            PortProbe { port: 443, kind: ScanType::Tcp },
        ]
    );
    let states = vec![PortState::Open; plan.len()];
    let r = Scanner::collect(&plan, &states, Duration::ZERO);
    assert_eq!(r.ports.iter().filter(|p| p.port == 22).count(), 1);
    assert_eq!(r.ports.len(), 3);
}
