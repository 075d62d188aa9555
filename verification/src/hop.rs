use vstd::prelude::*;

use crate::address::Ipv4Address;
use crate::double::Double;

verus! {

/// The statistics of one hop on the route.
#[derive(Debug, Clone, Copy)]
pub struct HopStatistic {
    pub ttl: u8,
    pub ip_address: Option<Ipv4Address>,
    pub packets_sent: u32,
    pub packets_received: u32,
    pub last_latency_ms: Option<Double>,
    pub best_latency_ms: Option<Double>,
    pub worst_latency_ms: Option<Double>,
    pub mean_latency_ms: Double,
    pub m2_latency_ms: Double,
}

/// Whether a function can advance the running mean and the running sum of
/// squared deviations: it takes both, a latency and the number of latencies with
/// that one, it can be called on any values, and it has one result on each.
pub open spec fn is_moment_update<F: Fn(Double, Double, Double, u32) -> (Double, Double)>(
    update: F,
) -> bool {
    &&& forall|mean: Double, m2: Double, latency: Double, count: u32| #[trigger]
        call_requires(update, (mean, m2, latency, count))
    &&& forall|
        mean: Double,
        m2: Double,
        latency: Double,
        count: u32,
        r: (Double, Double),
        s: (Double, Double),
    | #[trigger]
        call_ensures(update, (mean, m2, latency, count), r) && #[trigger] call_ensures(
            update,
            (mean, m2, latency, count),
            s,
        ) ==> r == s
}

/// The mean and the sum of squared deviations after one more latency.
pub open spec fn updated_moments<F: Fn(Double, Double, Double, u32) -> (Double, Double)>(
    update: F,
    mean: Double,
    m2: Double,
    latency: Double,
    count: u32,
) -> (Double, Double) {
    choose|r: (Double, Double)| call_ensures(update, (mean, m2, latency, count), r)
}

/// One more, as far as the counter goes.
pub open spec fn count_up(count: u32) -> u32 {
    if count < u32::MAX {
        (count + 1) as u32
    } else {
        count
    }
}

impl HopStatistic {
    /// The statistics of a hop that was not probed yet.
    pub open spec fn fresh(ttl: u8, ip_address: Option<Ipv4Address>) -> HopStatistic {
        HopStatistic {
            ttl,
            ip_address,
            packets_sent: 0,
            packets_received: 0,
            last_latency_ms: None,
            best_latency_ms: None,
            worst_latency_ms: None,
            mean_latency_ms: Double { bits: 0 },
            m2_latency_ms: Double { bits: 0 },
        }
    }

    /// The statistics after one more probe result.
    pub open spec fn recorded<F: Fn(Double, Double, Double, u32) -> (Double, Double)>(
        self,
        update: F,
        latency_ms: Option<Double>,
    ) -> HopStatistic {
        match latency_ms {
            None => HopStatistic { packets_sent: count_up(self.packets_sent), ..self },
            Some(latency) => {
                let received = count_up(self.packets_received);
                let moments = updated_moments(
                    update,
                    self.mean_latency_ms,
                    self.m2_latency_ms,
                    latency,
                    received,
                );
                HopStatistic {
                    ttl: self.ttl,
                    ip_address: self.ip_address,
                    packets_sent: count_up(self.packets_sent),
                    packets_received: received,
                    last_latency_ms: Some(latency),
                    best_latency_ms: match self.best_latency_ms {
                        Some(best) => Some(best.smaller(latency)),
                        None => Some(latency),
                    },
                    worst_latency_ms: match self.worst_latency_ms {
                        Some(worst) => Some(worst.larger(latency)),
                        None => Some(latency),
                    },
                    mean_latency_ms: moments.0,
                    m2_latency_ms: moments.1,
                }
            },
        }
    }

    /// Whether recording a result takes its moments from a call of `update`.
    pub open spec fn moments_are_called<F: Fn(Double, Double, Double, u32) -> (Double, Double)>(
        self,
        update: F,
        latency_ms: Option<Double>,
    ) -> bool {
        latency_ms matches Some(latency) ==> call_ensures(
            update,
            (
                self.mean_latency_ms,
                self.m2_latency_ms,
                latency,
                count_up(self.packets_received),
            ),
            (
                self.recorded(update, latency_ms).mean_latency_ms,
                self.recorded(update, latency_ms).m2_latency_ms,
            ),
        )
    }

    /// The probes that were sent and not answered.
    pub open spec fn lost(self) -> int {
        if self.packets_received <= self.packets_sent {
            self.packets_sent - self.packets_received
        } else {
            0
        }
    }

    /// Whether a value is the share of lost probes in percent: zero before the
    /// first probe, and otherwise what `percentage` makes of the lost and the sent
    /// probes.
    pub open spec fn is_loss<P: Fn(u32, u32) -> Double>(self, percentage: P, value: Double) -> bool {
        if self.packets_sent == 0 {
            value == (Double { bits: 0 })
        } else {
            call_ensures(percentage, (self.lost() as u32, self.packets_sent), value)
        }
    }

    /// The mean latency, once there is one.
    pub open spec fn average(self) -> Option<Double> {
        if self.packets_received == 0 {
            None
        } else {
            Some(self.mean_latency_ms)
        }
    }

    /// Whether a value is the standard deviation: what `deviation` makes of the
    /// sum of squared deviations and the number of latencies less one.
    pub open spec fn is_deviation<D: Fn(Double, u32) -> Double>(
        self,
        deviation: D,
        value: Double,
    ) -> bool {
        call_ensures(
            deviation,
            (self.m2_latency_ms, (self.packets_received - 1) as u32),
            value,
        )
    }

    /// Makes the statistics of a hop that was not probed yet.
    pub fn new(ttl: u8, ip_address: Option<Ipv4Address>) -> (hop: HopStatistic)
        ensures
            hop == HopStatistic::fresh(ttl, ip_address),
    {
        HopStatistic {
            ttl,
            ip_address,
            packets_sent: 0,
            packets_received: 0,
            last_latency_ms: None,
            best_latency_ms: None,
            worst_latency_ms: None,
            mean_latency_ms: Double::zero(),
            m2_latency_ms: Double::zero(),
        }
    }

    /// Forgets all results; the hop keeps its place and address.
    pub fn reset_statistics(&mut self)
        ensures
            *final(self) == HopStatistic::fresh(old(self).ttl, old(self).ip_address),
    {
        self.packets_sent = 0;
        self.packets_received = 0;
        self.last_latency_ms = None;
        self.best_latency_ms = None;
        self.worst_latency_ms = None;
        self.mean_latency_ms = Double::zero();
        self.m2_latency_ms = Double::zero();
    }

    /// The share of lost probes in percent.
    pub fn packet_loss_percentage<P: Fn(u32, u32) -> Double>(&self, percentage: &P) -> (loss: Double)
        requires
            forall|lost: u32, sent: u32| #[trigger] call_requires(*percentage, (lost, sent)),
        ensures
            self.is_loss(*percentage, loss),
    {
        if self.packets_sent == 0 {
            return Double::zero();
        }
        let lost_packets: u32 = self.packets_sent.saturating_sub(self.packets_received);
        percentage(lost_packets, self.packets_sent)
    }

    /// The mean latency, once there is one.
    pub fn average_latency_ms(&self) -> (average: Option<Double>)
        ensures
            average == self.average(),
    {
        if self.packets_received == 0 {
            return None;
        }
        Some(self.mean_latency_ms)
    }

    /// The standard deviation of the latencies, once there are two.
    pub fn standard_deviation<D: Fn(Double, u32) -> Double>(&self, deviation: &D) -> (value: Option<
        Double,
    >)
        requires
            forall|m2: Double, freedom: u32| #[trigger] call_requires(*deviation, (m2, freedom)),
        ensures
            value is Some <==> self.packets_received >= 2,
            value matches Some(v) ==> self.is_deviation(*deviation, v),
    {
        if self.packets_received < 2 {
            return None;
        }
        Some(deviation(self.m2_latency_ms, self.packets_received - 1))
    }

    /// Takes in the result of one probe: its latency, or none if it was lost.
    pub fn record_probe_result<F: Fn(Double, Double, Double, u32) -> (Double, Double)>(
        &mut self,
        latency_ms: Option<Double>,
        update: &F,
    )
        requires
            is_moment_update(*update),
        ensures
            *final(self) == old(self).recorded(*update, latency_ms),
            old(self).moments_are_called(*update, latency_ms),
            latency_ms matches Some(latency) ==> call_ensures(
                *update,
                (
                    old(self).mean_latency_ms,
                    old(self).m2_latency_ms,
                    latency,
                    final(self).packets_received,
                ),
                (final(self).mean_latency_ms, final(self).m2_latency_ms),
            ),
    {
        self.packets_sent = self.packets_sent.saturating_add(1);
        if let Some(latency) = latency_ms {
            self.packets_received = self.packets_received.saturating_add(1);
            self.last_latency_ms = Some(latency);
            self.best_latency_ms = Some(
                match self.best_latency_ms {
                    Some(best) => best.min(latency),
                    None => latency,
                },
            );
            self.worst_latency_ms = Some(
                match self.worst_latency_ms {
                    Some(worst) => worst.max(latency),
                    None => latency,
                },
            );
            let (mean, m2): (Double, Double) = update(
                self.mean_latency_ms,
                self.m2_latency_ms,
                latency,
                self.packets_received,
            );
            self.mean_latency_ms = mean;
            self.m2_latency_ms = m2;
        }
    }
}

/// The statistics after a run of probe results.
pub open spec fn recorded_all<F: Fn(Double, Double, Double, u32) -> (Double, Double)>(
    hop: HopStatistic,
    update: F,
    results: Seq<Option<Double>>,
) -> HopStatistic
    decreases results.len(),
{
    if results.len() == 0 {
        hop
    } else {
        recorded_all(hop, update, results.drop_last()).recorded(update, results.last())
    }
}

/// Whether the moments of a run of probe results come from calls of `update`.
pub open spec fn all_moments_are_called<F: Fn(Double, Double, Double, u32) -> (Double, Double)>(
    hop: HopStatistic,
    update: F,
    results: Seq<Option<Double>>,
) -> bool
    decreases results.len(),
{
    results.len() > 0 ==> {
        &&& all_moments_are_called(hop, update, results.drop_last())
        &&& recorded_all(hop, update, results.drop_last()).moments_are_called(
            update,
            results.last(),
        )
    }
}

} // verus!
