use mtr::address::Ipv4Address;
use mtr::double::Double;
use mtr::event::NetworkEvent;
use mtr::prober::{PAUSE_NS, ROUND_NS};
use mtr::windows_prober::{
    WindowsAction, WindowsEchoReply, WindowsProbeOutcome, WindowsProbeTask, WindowsProber,
    IP_SUCCESS_STATUS, IP_TTL_EXPIRED_TRANSIT_STATUS, PROBE_TIMEOUT_MS, REST_STEP_NS,
};

fn target() -> Ipv4Address {
    Ipv4Address::new(39, 156, 66, 10)
}

fn task(ttl: u8) -> WindowsProbeTask {
    WindowsProbeTask { ttl, target_ipv4: target(), probe_timeout_ms: PROBE_TIMEOUT_MS }
}

fn latency() -> Double {
    Double { bits: 12.0f64.to_bits() }
}

fn reply(address: Ipv4Address, status_code: u32) -> WindowsProbeOutcome {
    WindowsProbeOutcome::Reply {
        reply: WindowsEchoReply { address, latency_ms: latency(), status_code },
    }
}

fn lost(ttl: u8) -> NetworkEvent {
    NetworkEvent::EchoProbeResult { ttl, latency_ms: None, reached_target: false }
}

fn answered(ttl: u8, reached_target: bool) -> NetworkEvent {
    NetworkEvent::EchoProbeResult { ttl, latency_ms: Some(latency()), reached_target }
}

#[test]
fn a_windows_round_gives_every_hop_a_task_and_rests() {
    let mut prober = WindowsProber::new(target());
    for ttl in 1..=30u8 {
        assert_eq!(
            prober.poll(5, false, false, 30),
            WindowsAction::Dispatch { worker: usize::from(ttl) - 1, task: task(ttl) }
        );
    }
    assert_eq!(prober.poll(5, false, false, 30), WindowsAction::Sleep { ns: REST_STEP_NS });
    assert_eq!(
        prober.poll(4 + ROUND_NS, false, false, 30),
        WindowsAction::Sleep { ns: REST_STEP_NS }
    );
    assert_eq!(
        prober.poll(5 + ROUND_NS, false, false, 30),
        WindowsAction::Dispatch { worker: 0, task: task(1) }
    );
}

#[test]
fn a_windows_round_keeps_the_limit_it_began_with() {
    let mut prober = WindowsProber::new(target());
    assert_eq!(
        prober.poll(0, false, false, 3),
        WindowsAction::Dispatch { worker: 0, task: task(1) }
    );
    assert_eq!(
        prober.poll(0, false, false, 1),
        WindowsAction::Dispatch { worker: 1, task: task(2) }
    );
    assert_eq!(
        prober.poll(0, false, false, 1),
        WindowsAction::Dispatch { worker: 2, task: task(3) }
    );
    assert_eq!(prober.poll(0, false, false, 1), WindowsAction::Sleep { ns: REST_STEP_NS });
}

#[test]
fn a_windows_prober_pauses_and_stops() {
    let mut prober = WindowsProber::new(target());
    assert_eq!(prober.poll(0, false, true, 30), WindowsAction::Sleep { ns: PAUSE_NS });
    prober.poll(0, false, false, 1);
    assert_eq!(prober.poll(0, false, false, 1), WindowsAction::Sleep { ns: REST_STEP_NS });
    assert_eq!(prober.poll(1, false, true, 1), WindowsAction::Sleep { ns: PAUSE_NS });
    assert_eq!(
        prober.poll(2, false, false, 1),
        WindowsAction::Dispatch { worker: 0, task: task(1) }
    );
    assert_eq!(prober.poll(3, true, false, 1), WindowsAction::Stop);
}

#[test]
fn a_task_without_a_handle_reports_nothing() {
    let report = WindowsProber::report_probe(task(4), WindowsProbeOutcome::NoHandle);
    assert_eq!(report.events, vec![]);
    assert_eq!(report.reached_ttl, None);
}

#[test]
fn a_task_without_a_reply_is_lost() {
    let report = WindowsProber::report_probe(task(4), WindowsProbeOutcome::NoReply);
    assert_eq!(report.events, vec![lost(4)]);
    assert_eq!(report.reached_ttl, None);
}

#[test]
fn replies_are_told_apart_by_status_and_address() {
    let router = Ipv4Address::new(10, 0, 0, 1);
    let nobody = Ipv4Address::new(0, 0, 0, 0);
    let found = |ip_address| NetworkEvent::RouteHopDiscovered { ttl: 4, ip_address };

    let arrival = WindowsProber::report_probe(task(4), reply(target(), IP_SUCCESS_STATUS));
    assert_eq!(arrival.events, vec![found(target()), answered(4, true)]);
    assert_eq!(arrival.reached_ttl, Some(4));

    let other = WindowsProber::report_probe(task(4), reply(router, IP_SUCCESS_STATUS));
    assert_eq!(other.events, vec![found(router), answered(4, false)]);
    assert_eq!(other.reached_ttl, None);

    let transit = reply(target(), IP_TTL_EXPIRED_TRANSIT_STATUS);
    let transit = WindowsProber::report_probe(task(4), transit);
    assert_eq!(transit.events, vec![found(target()), answered(4, false)]);
    assert_eq!(transit.reached_ttl, None);

    let failed = WindowsProber::report_probe(task(4), reply(router, 11010));
    assert_eq!(failed.events, vec![found(router), lost(4)]);
    assert_eq!(failed.reached_ttl, None);

    let anonymous = reply(nobody, IP_TTL_EXPIRED_TRANSIT_STATUS);
    let anonymous = WindowsProber::report_probe(task(4), anonymous);
    assert_eq!(anonymous.events, vec![answered(4, false)]);
}

#[test]
fn a_pause_does_not_cut_a_windows_round() {
    let mut prober = WindowsProber::new(target());
    for ttl in 1..=4u8 {
        assert_eq!(
            prober.poll(0, false, ttl > 1, if ttl == 1 { 4 } else { 2 }),
            WindowsAction::Dispatch { worker: usize::from(ttl) - 1, task: task(ttl) }
        );
    }
    assert_eq!(prober.poll(0, false, true, 2), WindowsAction::Sleep { ns: PAUSE_NS });
}
