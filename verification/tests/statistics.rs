use mtr::address::Ipv4Address;
use mtr::double::Double;
use mtr::hop::HopStatistic;

fn double(value: f64) -> Double {
    Double { bits: value.to_bits() }
}

fn value(double: Double) -> f64 {
    f64::from_bits(double.bits)
}

fn update(mean: Double, m2: Double, latency: Double, count: u32) -> (Double, Double) {
    let delta = value(latency) - value(mean);
    let new_mean = value(mean) + delta / f64::from(count);
    (double(new_mean), double(value(m2) + delta * (value(latency) - new_mean)))
}

fn percentage(lost: u32, sent: u32) -> Double {
    double(f64::from(lost) / f64::from(sent) * 100.0)
}

fn deviation(m2: Double, freedom: u32) -> Double {
    double((value(m2) / f64::from(freedom)).sqrt())
}

fn recorded(results: &[Option<f64>]) -> HopStatistic {
    let mut hop = HopStatistic::new(4, Some(Ipv4Address::new(10, 0, 0, 1)));
    for result in results {
        hop.record_probe_result(result.map(double), &update);
    }
    hop
}

#[test]
fn a_new_hop_has_no_results() {
    let hop = HopStatistic::new(9, None);
    assert_eq!(hop.ttl, 9);
    assert_eq!(hop.ip_address, None);
    assert_eq!(hop.packets_sent, 0);
    assert_eq!(hop.packets_received, 0);
    assert_eq!(hop.last_latency_ms, None);
    assert_eq!(hop.best_latency_ms, None);
    assert_eq!(hop.worst_latency_ms, None);
    assert_eq!(hop.average_latency_ms(), None);
    assert_eq!(hop.standard_deviation(&deviation), None);
    assert_eq!(hop.packet_loss_percentage(&percentage), double(0.0));
}

#[test]
fn counters_and_latencies_follow_the_results() {
    let hop = recorded(&[Some(4.0), None, Some(2.0), Some(9.0), None]);
    assert_eq!(hop.ttl, 4);
    assert_eq!(hop.ip_address, Some(Ipv4Address::new(10, 0, 0, 1)));
    assert_eq!(hop.packets_sent, 5);
    assert_eq!(hop.packets_received, 3);
    assert_eq!(hop.last_latency_ms, Some(double(9.0)));
    assert_eq!(hop.best_latency_ms, Some(double(2.0)));
    assert_eq!(hop.worst_latency_ms, Some(double(9.0)));
    assert_eq!(hop.average_latency_ms(), Some(double(5.0)));
}

#[test]
fn loss_is_the_share_of_unanswered_probes() {
    assert_eq!(
        recorded(&[None, Some(1.0), None, Some(1.0)]).packet_loss_percentage(&percentage),
        double(50.0)
    );
    assert_eq!(recorded(&[None]).packet_loss_percentage(&percentage), double(100.0));
    assert_eq!(recorded(&[Some(3.0)]).packet_loss_percentage(&percentage), double(0.0));
}

#[test]
fn loss_is_none_where_answers_outnumber_probes() {
    let mut hop = recorded(&[Some(1.0), Some(1.0)]);
    hop.packets_sent = 1;
    assert_eq!(hop.packet_loss_percentage(&percentage), double(0.0));
}

#[test]
fn deviation_is_that_of_a_sample() {
    assert_eq!(recorded(&[Some(3.0)]).standard_deviation(&deviation), None);
    assert_eq!(
        recorded(&[Some(2.0), Some(4.0), Some(6.0)]).standard_deviation(&deviation),
        Some(double(2.0))
    );
    assert_eq!(
        recorded(&[Some(7.0), None, Some(7.0)]).standard_deviation(&deviation),
        Some(double(0.0))
    );
}

#[test]
fn a_reset_keeps_place_and_address() {
    let mut hop = recorded(&[Some(4.0), None, Some(2.0)]);
    hop.reset_statistics();
    assert_eq!(hop.ttl, 4);
    assert_eq!(hop.ip_address, Some(Ipv4Address::new(10, 0, 0, 1)));
    assert_eq!((hop.packets_sent, hop.packets_received), (0, 0));
    assert_eq!((hop.last_latency_ms, hop.best_latency_ms, hop.worst_latency_ms), (None, None, None));
    assert_eq!((hop.mean_latency_ms, hop.m2_latency_ms), (double(0.0), double(0.0)));
}

#[test]
fn full_counters_stay_full() {
    let mut hop = recorded(&[]);
    hop.packets_sent = u32::MAX;
    hop.packets_received = u32::MAX;
    hop.record_probe_result(Some(double(1.0)), &update);
    assert_eq!((hop.packets_sent, hop.packets_received), (u32::MAX, u32::MAX));
    hop.record_probe_result(None, &update);
    assert_eq!((hop.packets_sent, hop.packets_received), (u32::MAX, u32::MAX));
}

#[test]
fn answers_never_outnumber_probes() {
    let mut hop = recorded(&[]);
    for i in 0..50 {
        let result = if i % 3 == 0 { None } else { Some(double(f64::from(i))) };
        hop.record_probe_result(result, &update);
        assert!(hop.packets_received <= hop.packets_sent);
    }
    assert_eq!((hop.packets_sent, hop.packets_received), (50, 33));
}

#[test]
fn loss_lies_between_zero_and_one_hundred() {
    for sent in 0..12 {
        for received in 0..14 {
            let mut hop = recorded(&[]);
            hop.packets_sent = sent;
            hop.packets_received = received;
            let loss = value(hop.packet_loss_percentage(&percentage));
            assert!(0.0 <= loss && loss <= 100.0);
            assert_eq!(loss == 0.0, sent == 0 || received >= sent);
            assert_eq!(loss == 100.0, sent > 0 && received == 0);
        }
    }
    assert_eq!(double(100.0).bits, mtr::hop_laws::HUNDRED_BITS);
}

#[test]
fn loss_moves_with_the_results() {
    for sent in [0, 1, 2, 3, 50, 99_999, u32::MAX - 1] {
        for received in [0, 1, 2, 3, 49, 50, 70_000, u32::MAX - 1] {
            if received <= sent {
                let mut before = recorded(&[]);
                before.packets_sent = sent;
                before.packets_received = received;
                let mut answered = before;
                answered.record_probe_result(Some(double(1.0)), &update);
                let mut lost = before;
                lost.record_probe_result(None, &update);
                let loss = value(before.packet_loss_percentage(&percentage));
                assert!(value(answered.packet_loss_percentage(&percentage)) <= loss);
                assert!(value(lost.packet_loss_percentage(&percentage)) >= loss);
            }
        }
    }
}

#[test]
fn the_average_lies_between_best_and_worst() {
    let runs: [&[f64]; 4] = [
        &[0.1, 0.2, 0.3, 0.7, 0.1],
        &[5.0e-324, 0.0, 5.0e-324, 1.0e300],
        &[1.0e308, 1.5e308, 1.0e308],
        &[33.3, 33.4, 12.125, 800.0, 0.001],
    ];
    for run in runs {
        let mut hop = recorded(&[]);
        for latency in run {
            hop.record_probe_result(Some(double(*latency)), &update);
            let average = value(hop.average_latency_ms().unwrap());
            assert!(value(hop.best_latency_ms.unwrap()) <= average);
            assert!(average <= value(hop.worst_latency_ms.unwrap()));
            if let Some(spread) = hop.standard_deviation(&deviation) {
                assert!(value(spread) >= 0.0);
            }
        }
    }
}

#[test]
fn equal_latencies_are_their_average() {
    for latency in [0.0, 0.1, 1.0 / 3.0, 123.456, 1.0e300] {
        let hop = recorded(&[Some(latency), None, Some(latency), Some(latency)]);
        assert_eq!(hop.average_latency_ms(), Some(double(latency)));
        assert_eq!(hop.standard_deviation(&deviation), Some(double(0.0)));
    }
}
