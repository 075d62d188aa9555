use mtr::address::Ipv4Address;
use mtr::application::MtrApplication;
use mtr::double::Double;
use mtr::event::{DnsResolvedEvent, NetworkEvent};

fn double(value: f64) -> Double {
    Double { bits: value.to_bits() }
}

fn value(double: Double) -> f64 {
    f64::from_bits(double.bits)
}

fn update(mean: Double, m2: Double, latency: Double, count: u32) -> (Double, Double) {
    let delta = value(latency) - value(mean);
    let new_mean = value(mean) + delta / f64::from(count);
    (double(new_mean), double(value(m2) + delta * (value(latency) - new_mean)))
}

fn application() -> MtrApplication {
    MtrApplication::new(String::from("baidu.com"), Ipv4Address::new(39, 156, 66, 10), false)
}

fn router(last: u8) -> Ipv4Address {
    Ipv4Address::new(10, 0, 0, last)
}

fn found(ttl: u8, ip_address: Ipv4Address) -> NetworkEvent {
    NetworkEvent::RouteHopDiscovered { ttl, ip_address }
}

fn answer(ttl: u8, latency: f64) -> NetworkEvent {
    NetworkEvent::EchoProbeResult { ttl, latency_ms: Some(double(latency)), reached_target: false }
}

fn loss(ttl: u8) -> NetworkEvent {
    NetworkEvent::EchoProbeResult { ttl, latency_ms: None, reached_target: false }
}

fn arrival(ttl: u8) -> NetworkEvent {
    NetworkEvent::EchoProbeResult { ttl, latency_ms: Some(double(9.0)), reached_target: true }
}

fn named(ip_address: Ipv4Address, name: &str) -> DnsResolvedEvent {
    DnsResolvedEvent { original_ip: ip_address, resolved_hostname: String::from(name) }
}

fn ttls(application: &MtrApplication) -> Vec<u8> {
    application.hops().iter().map(|hop| hop.ttl).collect()
}

#[test]
fn a_session_starts_without_hops() {
    let application = application();
    assert_eq!(application.target_hostname(), "baidu.com");
    assert_eq!(application.target_ip(), Ipv4Address::new(39, 156, 66, 10));
    assert!(!application.is_paused());
    assert_eq!(application.hops().len(), 0);
    assert_eq!(application.known_hostname(router(1)), None);
}

#[test]
fn pausing_twice_resumes() {
    let mut application = application();
    application.toggle_pause();
    assert!(application.is_paused());
    application.toggle_pause();
    assert!(!application.is_paused());
    assert!(MtrApplication::new(String::new(), router(1), true).is_paused());
}

#[test]
fn hops_stand_in_order_whenever_they_answer() {
    let mut application = application();
    let events = vec![loss(5), answer(2, 1.0), found(9, router(9)), loss(1), answer(5, 3.0)];
    application.dispatch_incoming_events(events, vec![], &update);
    assert_eq!(ttls(&application), vec![1, 2, 5, 9]);
}

#[test]
fn a_hop_counts_its_own_events_only() {
    let mut application = application();
    let events = vec![
        answer(1, 2.0),
        loss(2),
        found(1, router(1)),
        answer(1, 4.0),
        found(1, router(7)),
        answer(2, 8.0),
        loss(1),
    ];
    application.dispatch_incoming_events(events, vec![], &update);
    let first = application.hops()[0];
    assert_eq!((first.packets_sent, first.packets_received), (3, 2));
    assert_eq!(first.ip_address, Some(router(1)));
    assert_eq!(first.average_latency_ms(), Some(double(3.0)));
    assert_eq!(first.last_latency_ms, Some(double(4.0)));
    let second = application.hops()[1];
    assert_eq!((second.packets_sent, second.packets_received), (2, 1));
    assert_eq!(second.ip_address, None);
}

#[test]
fn hops_beyond_the_target_are_dropped() {
    let mut application = application();
    let events = vec![loss(1), loss(2), loss(3), arrival(3), loss(4), loss(30)];
    application.dispatch_incoming_events(events, vec![], &update);
    assert_eq!(ttls(&application), vec![1, 2, 3]);
    application.dispatch_incoming_events(vec![loss(7)], vec![], &update);
    assert_eq!(ttls(&application), vec![1, 2, 3]);
}

#[test]
fn the_nearest_arrival_counts() {
    let mut application = application();
    let events = vec![loss(1), loss(2), loss(3), arrival(6), arrival(2), arrival(4)];
    application.dispatch_incoming_events(events, vec![], &update);
    assert_eq!(ttls(&application), vec![1, 2]);
}

#[test]
fn events_of_different_hops_commute() {
    let mut one = application();
    let mut other = application();
    one.dispatch_incoming_events(vec![answer(1, 2.0), arrival(4)], vec![], &update);
    one.dispatch_incoming_events(vec![found(1, router(1)), found(4, router(1))], vec![], &update);
    other.dispatch_incoming_events(vec![arrival(4), answer(1, 2.0)], vec![], &update);
    other.dispatch_incoming_events(vec![found(4, router(1)), found(1, router(1))], vec![], &update);
    assert_eq!(format!("{:?}", one.hops()), format!("{:?}", other.hops()));
    assert_eq!(ttls(&one), vec![1, 4]);
}

#[test]
fn an_address_is_looked_up_once() {
    let mut application = application();
    let events = vec![
        found(1, router(1)),
        found(2, router(2)),
        found(1, router(1)),
        answer(1, 1.0),
        found(3, router(2)),
    ];
    let lookups = application.dispatch_incoming_events(events, vec![], &update);
    assert_eq!(lookups, vec![router(1), router(2)]);
    let pending =
        application.dispatch_incoming_events(vec![found(1, router(1))], vec![], &update);
    assert_eq!(pending, vec![]);
    let answers = vec![named(router(1), "gateway.lan")];
    application.dispatch_incoming_events(vec![], answers, &update);
    assert_eq!(application.known_hostname(router(1)), Some(&String::from("gateway.lan")));
    let known = application.dispatch_incoming_events(vec![found(4, router(1))], vec![], &update);
    assert_eq!(known, vec![]);
}

#[test]
fn one_event_says_what_to_look_up() {
    let mut application = application();
    assert_eq!(application.handle_network_event(answer(1, 1.0), &update), None);
    assert_eq!(application.handle_network_event(found(1, router(1)), &update), Some(router(1)));
    assert_eq!(application.handle_network_event(found(1, router(1)), &update), None);
    application.handle_dns_event(named(router(1), "a.lan"));
    assert_eq!(application.handle_network_event(found(1, router(1)), &update), None);
}

#[test]
fn the_last_answer_names_an_address() {
    let mut application = application();
    let answers = vec![
        named(router(1), "old.lan"),
        named(router(2), "other.lan"),
        named(router(1), "new.lan"),
    ];
    application.dispatch_incoming_events(vec![], answers, &update);
    assert_eq!(application.known_hostname(router(1)), Some(&String::from("new.lan")));
    assert_eq!(application.known_hostname(router(2)), Some(&String::from("other.lan")));
    assert_eq!(application.known_hostname(router(3)), None);
}

#[test]
fn a_restart_keeps_hops_addresses_and_names() {
    let mut application = application();
    let events = vec![found(1, router(1)), answer(1, 2.0), loss(2), arrival(2)];
    let answers = vec![named(router(1), "gateway.lan")];
    application.dispatch_incoming_events(events, answers, &update);
    application.reset_all_statistics();
    assert_eq!(ttls(&application), vec![1, 2]);
    for hop in application.hops() {
        assert_eq!((hop.packets_sent, hop.packets_received), (0, 0));
        assert_eq!(hop.last_latency_ms, None);
    }
    assert_eq!(application.hops()[0].ip_address, Some(router(1)));
    assert_eq!(application.known_hostname(router(1)), Some(&String::from("gateway.lan")));
    application.dispatch_incoming_events(vec![loss(8)], vec![], &update);
    assert_eq!(ttls(&application), vec![1, 2, 8]);
}

#[test]
fn a_missing_hop_takes_its_place() {
    let mut application = application();
    application.dispatch_incoming_events(vec![loss(2), answer(9, 1.0)], vec![], &update);
    let created = application.get_or_create_hop(5);
    assert_eq!((created.ttl, created.ip_address, created.packets_sent), (5, None, 0));
    assert_eq!(ttls(&application), vec![2, 5, 9]);
    for ttl in [0, 255, 1, 9] {
        assert_eq!(application.get_or_create_hop(ttl).ttl, ttl);
    }
    assert_eq!(ttls(&application), vec![0, 1, 2, 5, 9, 255]);
    assert_eq!(application.get_or_create_hop(9).packets_received, 1);
    application.get_or_create_hop(2).record_probe_result(Some(double(3.0)), &update);
    assert_eq!(application.hops()[2].packets_sent, 2);
}

#[test]
fn every_address_is_named_or_being_looked_up() {
    let mut application = application();
    let steps = vec![
        (vec![found(1, router(1)), found(2, router(2))], vec![]),
        (vec![found(3, router(1))], vec![named(router(1), "a.lan")]),
        (vec![arrival(2)], vec![named(router(9), "stray.lan")]),
        (vec![found(1, router(9)), found(2, router(3))], vec![named(router(2), "b.lan")]),
    ];
    let mut pending: Vec<Ipv4Address> = vec![];
    for (events, answers) in steps {
        let answered: Vec<Ipv4Address> = answers.iter().map(|event| event.original_ip).collect();
        pending.extend(application.dispatch_incoming_events(events, answers, &update));
        pending.retain(|ip_address| !answered.contains(ip_address));
        for ip_address in &pending {
            assert_eq!(application.known_hostname(*ip_address), None);
        }
        for hop in application.hops() {
            if let Some(ip_address) = hop.ip_address {
                let is_named = application.known_hostname(ip_address).is_some();
                assert!(is_named != pending.contains(&ip_address));
            }
        }
    }
    assert_eq!(pending, vec![router(3)]);
}
