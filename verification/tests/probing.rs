use mtr::address::Ipv4Address;
use mtr::double::Double;
use mtr::event::NetworkEvent;
use mtr::prober::{
    ActiveNetworkProber, ProberAction, GATHER_WINDOW_NS, MAXIMUM_ROUTE_HOPS, PAUSE_NS, ROUND_NS,
};

const PROCESS: u32 = 0x0003_1234;

fn to_ms(ns: u64) -> Double {
    Double { bits: (ns as f64 / 1.0e6).to_bits() }
}

fn header() -> Vec<u8> {
    let mut header = vec![0u8; 20];
    header[0] = 0x45;
    header[9] = 1;
    header
}

fn reply_to(packet: [u8; 8]) -> Vec<u8> {
    let mut reply = header();
    reply.extend_from_slice(&[0, 0, 0, 0]);
    reply.extend_from_slice(&packet[4..]);
    reply
}

fn notice_about(packet: [u8; 8]) -> Vec<u8> {
    let mut notice = header();
    notice.extend_from_slice(&[11, 0, 0, 0, 0, 0, 0, 0]);
    notice.extend_from_slice(&header());
    notice.extend_from_slice(&packet);
    notice
}

fn router() -> Option<Ipv4Address> {
    Some(Ipv4Address::new(10, 0, 0, 1))
}

/// Sends the probes of a round at one moment.
fn send_round(prober: &mut ActiveNetworkProber, now_ns: u64) -> Vec<(u8, [u8; 8])> {
    let mut probes = vec![];
    loop {
        match prober.poll(now_ns, false, false) {
            ProberAction::Send { ttl, packet } => {
                prober.probe_sent(now_ns);
                probes.push((ttl, packet));
            }
            ProberAction::Receive => return probes,
            other => panic!("{:?}", other),
        }
    }
}

fn lost_ttls(action: ProberAction) -> Vec<u8> {
    let mut ttls = vec![];
    match action {
        ProberAction::Report { events } => {
            for event in events {
                match event {
                    NetworkEvent::EchoProbeResult {
                        ttl,
                        latency_ms: None,
                        reached_target: false,
                    } => ttls.push(ttl),
                    other => panic!("{:?}", other),
                }
            }
        }
        other => panic!("{:?}", other),
    }
    ttls.sort();
    ttls
}

#[test]
fn a_round_probes_every_hop_in_order() {
    let mut prober = ActiveNetworkProber::new(PROCESS);
    let probes = send_round(&mut prober, 0);
    assert_eq!(probes.len(), usize::from(MAXIMUM_ROUTE_HOPS));
    for (i, (ttl, packet)) in probes.iter().enumerate() {
        assert_eq!(usize::from(*ttl), i + 1);
        let expected = ActiveNetworkProber::build_echo_request(i as u16 + 1, 0x1234);
        assert_eq!(*packet, expected);
    }
}

#[test]
fn a_reply_and_a_notice_are_reported() {
    let mut prober = ActiveNetworkProber::new(PROCESS);
    let probes = send_round(&mut prober, 1_000);
    let target = Ipv4Address::new(39, 156, 66, 10);
    assert_eq!(
        prober.handle_datagram(router(), &notice_about(probes[2].1), 2_501_000, &to_ms),
        vec![
            NetworkEvent::RouteHopDiscovered { ttl: 3, ip_address: router().unwrap() },
            NetworkEvent::EchoProbeResult {
                ttl: 3,
                latency_ms: Some(to_ms(2_500_000)),
                reached_target: false,
            },
        ]
    );
    assert!(matches!(prober.poll(3_000_000, false, false), ProberAction::Receive));
    assert_eq!(
        prober.handle_datagram(Some(target), &reply_to(probes[6].1), 4_001_000, &to_ms),
        vec![
            NetworkEvent::RouteHopDiscovered { ttl: 7, ip_address: target },
            NetworkEvent::EchoProbeResult {
                ttl: 7,
                latency_ms: Some(Double { bits: 4.0f64.to_bits() }),
                reached_target: true,
            },
        ]
    );
}

#[test]
fn every_probe_gets_one_result() {
    let mut prober = ActiveNetworkProber::new(PROCESS);
    let probes = send_round(&mut prober, 0);
    let notice = notice_about(probes[0].1);
    assert_eq!(prober.handle_datagram(router(), &notice, 10, &to_ms).len(), 2);
    assert_eq!(prober.handle_datagram(router(), &notice, 20, &to_ms).len(), 0);
    let lost = lost_ttls(prober.poll(GATHER_WINDOW_NS, false, false));
    assert_eq!(lost, (2..=MAXIMUM_ROUTE_HOPS).collect::<Vec<u8>>());
    assert_eq!(prober.handle_datagram(router(), &notice_about(probes[1].1), 30, &to_ms), vec![]);
}

#[test]
fn a_reply_from_the_target_ends_the_wait_and_the_route() {
    let mut prober = ActiveNetworkProber::new(PROCESS);
    let probes = send_round(&mut prober, 0);
    prober.handle_datagram(router(), &reply_to(probes[3].1), 5, &to_ms);
    assert_eq!(prober.handle_datagram(router(), &reply_to(probes[1].1), 6, &to_ms), vec![]);
    let lost = lost_ttls(prober.poll(10, false, false));
    assert_eq!(lost.len(), 29);
    assert!(!lost.contains(&4));
    assert!(matches!(
        prober.poll(10, false, false),
        ProberAction::Sleep { ns } if ns == ROUND_NS - 10
    ));
    let next = send_round(&mut prober, ROUND_NS);
    assert_eq!(next.len(), 4);
    assert_eq!(next[0].1, ActiveNetworkProber::build_echo_request(31, 0x1234));
    prober.handle_datagram(router(), &reply_to(next[3].1), ROUND_NS + 5, &to_ms);
    assert_eq!(lost_ttls(prober.poll(ROUND_NS + 6, false, false)), vec![1, 2, 3]);
    assert!(matches!(prober.poll(ROUND_NS + 6, false, false), ProberAction::Sleep { .. }));
    assert_eq!(send_round(&mut prober, 2 * ROUND_NS).len(), 4);
}

#[test]
fn packets_of_others_are_ignored() {
    let mut prober = ActiveNetworkProber::new(PROCESS);
    let probes = send_round(&mut prober, 0);
    let foreign = ActiveNetworkProber::build_echo_request(1, 0x1235);
    let unsent = ActiveNetworkProber::build_echo_request(31, 0x1234);
    assert_eq!(prober.handle_datagram(router(), &reply_to(foreign), 5, &to_ms), vec![]);
    assert_eq!(prober.handle_datagram(router(), &reply_to(unsent), 5, &to_ms), vec![]);
    assert_eq!(prober.handle_datagram(router(), &[], 5, &to_ms), vec![]);
    assert_eq!(prober.handle_datagram(None, &reply_to(probes[0].1), 5, &to_ms), vec![]);
    assert_eq!(lost_ttls(prober.poll(GATHER_WINDOW_NS, false, false)).len(), 30);
}

#[test]
fn a_probe_that_did_not_go_out_has_no_result() {
    let mut prober = ActiveNetworkProber::new(PROCESS);
    for ttl in 1..=MAXIMUM_ROUTE_HOPS {
        assert!(matches!(prober.poll(0, false, false), ProberAction::Send { .. }));
        if ttl % 2 == 0 {
            prober.probe_sent(0);
        }
    }
    let lost = lost_ttls(prober.poll(GATHER_WINDOW_NS, false, false));
    assert_eq!(lost, (1..=15).map(|half| half * 2).collect::<Vec<u8>>());
}

#[test]
fn the_window_closes_on_time() {
    let mut prober = ActiveNetworkProber::new(PROCESS);
    send_round(&mut prober, 50);
    assert!(matches!(
        prober.poll(50 + GATHER_WINDOW_NS - 1, false, false),
        ProberAction::Receive
    ));
    assert_eq!(lost_ttls(prober.poll(50 + GATHER_WINDOW_NS, false, false)).len(), 30);
}

#[test]
fn a_long_round_is_followed_at_once() {
    let mut prober = ActiveNetworkProber::new(PROCESS);
    send_round(&mut prober, 0);
    assert_eq!(lost_ttls(prober.poll(ROUND_NS, false, false)).len(), 30);
    assert!(matches!(
        prober.poll(ROUND_NS, false, false),
        ProberAction::Send { ttl: 1, .. }
    ));
}

#[test]
fn a_pause_holds_between_rounds() {
    let mut prober = ActiveNetworkProber::new(PROCESS);
    assert!(matches!(prober.poll(0, false, true), ProberAction::Sleep { ns: PAUSE_NS }));
    assert!(matches!(prober.poll(1, false, true), ProberAction::Sleep { ns: PAUSE_NS }));
    assert!(matches!(prober.poll(2, false, false), ProberAction::Send { ttl: 1, .. }));
    assert!(matches!(prober.poll(3, false, true), ProberAction::Send { ttl: 2, .. }));
}

#[test]
fn an_exit_is_prompt() {
    let mut idle = ActiveNetworkProber::new(PROCESS);
    assert!(matches!(idle.poll(0, true, true), ProberAction::Stop));

    let mut sending = ActiveNetworkProber::new(PROCESS);
    sending.poll(0, false, false);
    sending.probe_sent(0);
    sending.poll(0, false, false);
    sending.probe_sent(0);
    assert_eq!(lost_ttls(sending.poll(1, true, false)), vec![1, 2]);
    assert!(matches!(sending.poll(1, true, false), ProberAction::Sleep { .. }));
    assert!(matches!(sending.poll(ROUND_NS, true, false), ProberAction::Stop));

    let mut gathering = ActiveNetworkProber::new(PROCESS);
    send_round(&mut gathering, 0);
    assert_eq!(lost_ttls(gathering.poll(1, true, false)).len(), 30);
}

#[test]
fn sequence_numbers_wrap_around() {
    let mut prober = ActiveNetworkProber::new(PROCESS);
    let mut now_ns = 0;
    let mut sent: u32 = 0;
    while sent < 0x1_0000 {
        let probes = send_round(&mut prober, now_ns);
        for (_, packet) in probes {
            sent += 1;
            let number = u16::from_be_bytes([packet[6], packet[7]]);
            assert_eq!(u32::from(number), sent % 0x1_0000);
        }
        prober.poll(now_ns + ROUND_NS, false, false);
        now_ns += ROUND_NS;
    }
}

#[test]
fn a_pause_or_a_packet_does_not_cut_a_round() {
    let mut prober = ActiveNetworkProber::new(PROCESS);
    let mut first = [0u8; 8];
    for expected in 1..=MAXIMUM_ROUTE_HOPS {
        match prober.poll(u64::from(expected), false, expected > 1) {
            ProberAction::Send { ttl, packet } => {
                assert_eq!(ttl, expected);
                if ttl == 1 {
                    first = packet;
                }
            }
            other => panic!("{:?}", other),
        }
        prober.probe_sent(u64::from(expected));
        assert_eq!(prober.handle_datagram(router(), &reply_to(first), 50, &to_ms), vec![]);
    }
    assert!(matches!(prober.poll(60, false, true), ProberAction::Receive));
}
