use vstd::prelude::*;

use crate::address::Ipv4Address;
use crate::double::{Double, INFINITY_BITS};
use crate::hop::{all_moments_are_called, count_up, recorded_all, HopStatistic};

verus! {

/// The latencies among probe results.
pub open spec fn latencies(results: Seq<Option<Double>>) -> Seq<Double>
    decreases results.len(),
{
    if results.len() == 0 {
        Seq::empty()
    } else {
        match results.last() {
            Some(latency) => latencies(results.drop_last()).push(latency),
            None => latencies(results.drop_last()),
        }
    }
}

/// Whether a value is among the given ones and none of them is smaller.
pub open spec fn is_least(value: Double, values: Seq<Double>) -> bool {
    &&& values.contains(value)
    &&& forall|i: int| 0 <= i < values.len() ==> value.rank() <= (#[trigger] values[i]).rank()
}

/// Whether a value is among the given ones and none of them is larger.
pub open spec fn is_greatest(value: Double, values: Seq<Double>) -> bool {
    &&& values.contains(value)
    &&& forall|i: int| 0 <= i < values.len() ==> value.rank() >= (#[trigger] values[i]).rank()
}

/// The counters and the latencies of a hop tell what the probe results were:
/// how many there are, how many of them are latencies, which latency came last,
/// and the least and the greatest of them.
pub proof fn law_statistics_follow_results<F: Fn(Double, Double, Double, u32) -> (Double, Double)>(
    ttl: u8,
    ip_address: Option<Ipv4Address>,
    update: F,
    results: Seq<Option<Double>>,
)
    requires
        results.len() <= u32::MAX,
        forall|i: int| 0 <= i < latencies(results).len() ==> !(#[trigger] latencies(
            results,
        )[i]).not_a_number(),
    ensures
        ({
            let hop = recorded_all(HopStatistic::fresh(ttl, ip_address), update, results);
            let known = latencies(results);
            &&& hop.ttl == ttl
            &&& hop.ip_address == ip_address
            &&& hop.packets_sent == results.len()
            &&& hop.packets_received == known.len() <= results.len()
            &&& known.len() == 0 ==> hop.last_latency_ms is None && hop.best_latency_ms is None
                && hop.worst_latency_ms is None
            &&& known.len() > 0 ==> hop.last_latency_ms == Some(known.last())
            &&& known.len() > 0 ==> (hop.best_latency_ms matches Some(best) && is_least(
                best,
                known,
            ))
            &&& known.len() > 0 ==> (hop.worst_latency_ms matches Some(worst) && is_greatest(
                worst,
                known,
            ))
        }),
    decreases results.len(),
{
    if results.len() > 0 {
        let before = results.drop_last();
        assert forall|i: int| 0 <= i < latencies(before).len() implies !(#[trigger] latencies(
            before,
        )[i]).not_a_number() by {
            assert(latencies(results)[i] == latencies(before)[i]);
        }
        law_statistics_follow_results(ttl, ip_address, update, before);
        let hop = recorded_all(HopStatistic::fresh(ttl, ip_address), update, before);
        let known = latencies(before);
        if let Some(latency) = results.last() {
            let all = latencies(results);
            assert(all == known.push(latency));
            assert(all[known.len() as int] == latency);
            assert(!latency.not_a_number());
            if known.len() > 0 {
                let best = hop.best_latency_ms->0;
                let worst = hop.worst_latency_ms->0;
                let i = choose|i: int| 0 <= i < known.len() && known[i] == best;
                let j = choose|j: int| 0 <= j < known.len() && known[j] == worst;
                assert(all[i] == best && all[j] == worst);
                assert(!known[i].not_a_number() && !known[j].not_a_number());
                assert forall|k: int| 0 <= k < all.len() implies best.smaller(latency).rank()
                    <= (#[trigger] all[k]).rank() && worst.larger(latency).rank()
                    >= all[k].rank() by {
                    if k < known.len() {
                        assert(all[k] == known[k]);
                    }
                }
            }
        }
    }
}

/// Recording keeps the answered probes no more than the sent ones, whatever
/// came before and however long the counters have been full.
pub proof fn law_received_never_exceeds_sent<
    F: Fn(Double, Double, Double, u32) -> (Double, Double),
>(hop: HopStatistic, update: F, latency_ms: Option<Double>)
    requires
        hop.packets_received <= hop.packets_sent,
    ensures
        hop.recorded(update, latency_ms).packets_received <= hop.recorded(
            update,
            latency_ms,
        ).packets_sent,
{
}

/// The bit pattern of one hundred.
pub const HUNDRED_BITS: u64 = 0x4059_0000_0000_0000;

/// The lost probes are part of the sent ones: none of them when there are as many
/// answers as probes, and all of them when there is no answer.
pub proof fn law_lost_probes_are_part_of_the_sent(hop: HopStatistic)
    ensures
        0 <= hop.lost() <= hop.packets_sent,
        hop.lost() == 0 <==> hop.packets_received >= hop.packets_sent,
        hop.packets_sent > 0 ==> (hop.lost() == hop.packets_sent <==> hop.packets_received == 0),
{
}

/// An answered probe never raises the share of lost probes, and a lost one never
/// lowers it. The shares are compared by cross multiplication.
pub proof fn law_lost_share_moves_with_results<
    F: Fn(Double, Double, Double, u32) -> (Double, Double),
>(hop: HopStatistic, update: F, latency: Double)
    requires
        hop.packets_received <= hop.packets_sent < u32::MAX,
    ensures
        ({
            let answered = hop.recorded(update, Some(latency));
            let lost = hop.recorded(update, None);
            &&& answered.lost() * hop.packets_sent <= hop.lost() * answered.packets_sent
            &&& lost.lost() * hop.packets_sent >= hop.lost() * lost.packets_sent
        }),
{
    let sent = hop.packets_sent as int;
    let gap = hop.lost();
    assert(gap * sent <= gap * (sent + 1)) by (nonlinear_arith)
        requires
            0 <= gap,
    ;
    assert((gap + 1) * sent >= gap * (sent + 1)) by (nonlinear_arith)
        requires
            gap <= sent,
    ;
}

/// Whether a function makes percentages of lost and sent probes: numbers from
/// zero to one hundred, at either end only where none or all are lost, and no
/// smaller where the share is no smaller.
pub open spec fn is_percentage<P: Fn(u32, u32) -> Double>(percentage: P) -> bool {
    &&& forall|lost: u32, sent: u32, value: Double| #[trigger]
        call_ensures(percentage, (lost, sent), value) && 0 < sent && lost <= sent ==> {
            &&& !value.not_a_number()
            &&& 0 <= value.rank() <= HUNDRED_BITS
            &&& value.rank() == 0 <==> lost == 0
            &&& value.rank() == HUNDRED_BITS <==> lost == sent
        }
    &&& forall|a: u32, b: u32, c: u32, d: u32, v: Double, w: Double| #[trigger]
        call_ensures(percentage, (a, b), v) && #[trigger] call_ensures(percentage, (c, d), w) && 0
            < b && 0 < d && a <= b && c <= d && a * d <= c * b ==> v.rank() <= w.rank()
}

/// The loss is a number from zero to one hundred. It is zero exactly where nothing
/// was sent or everything answered, and one hundred exactly where probes were sent
/// and none answered.
pub proof fn law_loss_is_a_percentage<P: Fn(u32, u32) -> Double>(
    hop: HopStatistic,
    percentage: P,
    loss: Double,
)
    requires
        is_percentage(percentage),
        hop.is_loss(percentage, loss),
    ensures
        !loss.not_a_number(),
        0 <= loss.rank() <= HUNDRED_BITS,
        loss.rank() == 0 <==> hop.packets_sent == 0 || hop.packets_received >= hop.packets_sent,
        loss.rank() == HUNDRED_BITS <==> hop.packets_sent > 0 && hop.packets_received == 0,
{
    law_lost_probes_are_part_of_the_sent(hop);
}

/// An answered probe never raises the loss, and a lost one never lowers it.
pub proof fn law_loss_moves_with_results<
    F: Fn(Double, Double, Double, u32) -> (Double, Double),
    P: Fn(u32, u32) -> Double,
>(
    hop: HopStatistic,
    update: F,
    latency: Double,
    percentage: P,
    before: Double,
    answered: Double,
    lost: Double,
)
    requires
        hop.packets_received <= hop.packets_sent < u32::MAX,
        is_percentage(percentage),
        hop.is_loss(percentage, before),
        hop.recorded(update, Some(latency)).is_loss(percentage, answered),
        hop.recorded(update, None).is_loss(percentage, lost),
    ensures
        answered.rank() <= before.rank() <= lost.rank(),
{
    law_lost_share_moves_with_results(hop, update, latency);
    law_loss_is_a_percentage(hop, percentage, before);
    law_loss_is_a_percentage(hop.recorded(update, Some(latency)), percentage, answered);
    law_loss_is_a_percentage(hop.recorded(update, None), percentage, lost);
}

/// Whether a function keeps a running mean and a running sum of squared
/// deviations, on latencies that are finite and not negative: the first latency is
/// the mean, a later one draws the mean towards itself and not past, the sum is a
/// number and not negative, and a latency that equals the mean adds nothing to it.
pub open spec fn is_running_average<F: Fn(Double, Double, Double, u32) -> (Double, Double)>(
    update: F,
) -> bool {
    forall|mean: Double, m2: Double, latency: Double, count: u32, r: (Double, Double)| #[trigger]
        call_ensures(update, (mean, m2, latency, count), r) && mean.bits < INFINITY_BITS
            && latency.bits < INFINITY_BITS && m2.bits <= INFINITY_BITS ==> {
            &&& count == 1 && mean.bits == 0 ==> {
                &&& r.0 == latency
                &&& r.1.bits <= INFINITY_BITS
                &&& m2.bits == 0 ==> r.1.bits == 0
            }
            &&& count >= 2 ==> {
                &&& r.1.bits <= INFINITY_BITS
                &&& mean.bits <= r.0.bits <= latency.bits || latency.bits <= r.0.bits <= mean.bits
                &&& mean == latency && m2.bits == 0 ==> r.1.bits == 0
            }
        }
}

/// Whether all values are the same.
pub open spec fn all_equal(values: Seq<Double>) -> bool {
    forall|i: int| 0 <= i < values.len() ==> #[trigger] values[i] == values[0]
}

/// Whether latencies are finite and not negative.
pub open spec fn are_times(values: Seq<Double>) -> bool {
    forall|i: int| 0 <= i < values.len() ==> (#[trigger] values[i]).bits < INFINITY_BITS
}

/// There is an average as soon as there is a latency, and it lies between the
/// best and the worst. The average of equal latencies is that latency, and their
/// squared deviations add up to nothing.
pub proof fn law_average_lies_between_best_and_worst<
    F: Fn(Double, Double, Double, u32) -> (Double, Double),
>(ttl: u8, ip_address: Option<Ipv4Address>, update: F, results: Seq<Option<Double>>)
    requires
        results.len() <= u32::MAX,
        is_running_average(update),
        all_moments_are_called(HopStatistic::fresh(ttl, ip_address), update, results),
        are_times(latencies(results)),
    ensures
        ({
            let hop = recorded_all(HopStatistic::fresh(ttl, ip_address), update, results);
            let known = latencies(results);
            &&& hop.average() is None <==> known.len() == 0
            &&& hop.average() matches Some(average) ==> {
                &&& average.bits < INFINITY_BITS
                &&& hop.best_latency_ms matches Some(best) && best.rank() <= average.rank()
                &&& hop.worst_latency_ms matches Some(worst) && average.rank() <= worst.rank()
                &&& all_equal(known) ==> average == known[0]
            }
            &&& hop.m2_latency_ms.bits <= INFINITY_BITS
            &&& all_equal(known) ==> hop.m2_latency_ms.bits == 0
        }),
{
    assert forall|i: int| 0 <= i < latencies(results).len() implies !(#[trigger] latencies(
        results,
    )[i]).not_a_number() by {}
    law_statistics_follow_results(ttl, ip_address, update, results);
    lemma_moments_follow_results(ttl, ip_address, update, results);
}

/// The mean and the sum of squared deviations after a run of results.
proof fn lemma_moments_follow_results<F: Fn(Double, Double, Double, u32) -> (Double, Double)>(
    ttl: u8,
    ip_address: Option<Ipv4Address>,
    update: F,
    results: Seq<Option<Double>>,
)
    requires
        results.len() <= u32::MAX,
        is_running_average(update),
        all_moments_are_called(HopStatistic::fresh(ttl, ip_address), update, results),
        are_times(latencies(results)),
    ensures
        ({
            let hop = recorded_all(HopStatistic::fresh(ttl, ip_address), update, results);
            let known = latencies(results);
            &&& hop.packets_received == known.len() <= results.len()
            &&& hop.mean_latency_ms.bits < INFINITY_BITS
            &&& hop.m2_latency_ms.bits <= INFINITY_BITS
            &&& known.len() == 0 ==> hop.mean_latency_ms.bits == 0 && hop.m2_latency_ms.bits == 0
                && hop.best_latency_ms is None && hop.worst_latency_ms is None
            &&& known.len() > 0 ==> {
                &&& hop.best_latency_ms matches Some(best) && best.bits
                    <= hop.mean_latency_ms.bits
                &&& hop.worst_latency_ms matches Some(worst) && hop.mean_latency_ms.bits
                    <= worst.bits < INFINITY_BITS
            }
            &&& known.len() > 0 && all_equal(known) ==> hop.mean_latency_ms == known[0]
                && hop.m2_latency_ms.bits == 0
        }),
    decreases results.len(),
{
    if results.len() > 0 {
        let before = results.drop_last();
        let known = latencies(before);
        let all = latencies(results);
        assert forall|i: int| 0 <= i < known.len() implies (#[trigger] known[i]).bits
            < INFINITY_BITS by {
            assert(all[i] == known[i]);
        }
        lemma_moments_follow_results(ttl, ip_address, update, before);
        let hop = recorded_all(HopStatistic::fresh(ttl, ip_address), update, before);
        if let Some(latency) = results.last() {
            assert(all == known.push(latency));
            assert(all[known.len() as int] == latency);
            assert(count_up(hop.packets_received) == known.len() + 1);
            if known.len() > 0 && all_equal(all) {
                assert(all[0] == known[0]);
                assert forall|i: int| 0 <= i < known.len() implies #[trigger] known[i]
                    == known[0] by {
                    assert(all[i] == known[i]);
                }
            }
        }
    }
}

/// Whether a function makes a standard deviation of a sum of squared deviations:
/// a number that is not negative, and zero of nothing.
pub open spec fn is_spread<D: Fn(Double, u32) -> Double>(deviation: D) -> bool {
    forall|m2: Double, freedom: u32, value: Double| #[trigger]
        call_ensures(deviation, (m2, freedom), value) && m2.bits <= INFINITY_BITS && freedom >= 1
            ==> {
            &&& value.bits <= INFINITY_BITS
            &&& m2.bits == 0 ==> value.bits == 0
        }
}

/// The standard deviation is a number and not negative, and zero where all
/// latencies are equal.
pub proof fn law_deviation_is_not_negative<
    F: Fn(Double, Double, Double, u32) -> (Double, Double),
    D: Fn(Double, u32) -> Double,
>(
    ttl: u8,
    ip_address: Option<Ipv4Address>,
    update: F,
    results: Seq<Option<Double>>,
    deviation: D,
    value: Double,
)
    requires
        results.len() <= u32::MAX,
        is_running_average(update),
        all_moments_are_called(HopStatistic::fresh(ttl, ip_address), update, results),
        are_times(latencies(results)),
        latencies(results).len() >= 2,
        is_spread(deviation),
        recorded_all(HopStatistic::fresh(ttl, ip_address), update, results).is_deviation(
            deviation,
            value,
        ),
    ensures
        !value.not_a_number(),
        value.rank() >= 0,
        all_equal(latencies(results)) ==> value.bits == 0,
{
    law_average_lies_between_best_and_worst(ttl, ip_address, update, results);
    lemma_moments_follow_results(ttl, ip_address, update, results);
}

/// Whether pairs of a mean and a sum of squared deviations are those that calls of
/// `update` give for latencies one after the other: it starts at zero, and the
/// n-th latency goes into the n-th call together with the number n.
pub open spec fn is_moment_trail<F: Fn(Double, Double, Double, u32) -> (Double, Double)>(
    update: F,
    values: Seq<Double>,
    trail: Seq<(Double, Double)>,
) -> bool {
    &&& trail.len() == values.len() + 1
    &&& trail[0] == (Double { bits: 0 }, Double { bits: 0 })
    &&& forall|i: int|
        0 <= i < values.len() ==> call_ensures(
            update,
            (trail[i].0, trail[i].1, #[trigger] values[i], (i + 1) as u32),
            trail[i + 1],
        )
}

/// The mean and the sum of squared deviations of a hop are what calls of `update`
/// make of its latencies one after the other, the n-th with the number n.
pub proof fn law_moments_take_each_latency_with_its_number<
    F: Fn(Double, Double, Double, u32) -> (Double, Double),
>(ttl: u8, ip_address: Option<Ipv4Address>, update: F, results: Seq<Option<Double>>)
    requires
        results.len() <= u32::MAX,
        all_moments_are_called(HopStatistic::fresh(ttl, ip_address), update, results),
    ensures
        ({
            let hop = recorded_all(HopStatistic::fresh(ttl, ip_address), update, results);
            &&& exists|trail: Seq<(Double, Double)>| #[trigger]
                is_moment_trail(update, latencies(results), trail) && trail.last() == (
                    hop.mean_latency_ms,
                    hop.m2_latency_ms,
                )
            &&& hop.average() == if latencies(results).len() == 0 {
                None
            } else {
                Some(hop.mean_latency_ms)
            }
        }),
    decreases results.len(),
{
    let start = HopStatistic::fresh(ttl, ip_address);
    lemma_counts_follow_results(start, update, results);
    if results.len() == 0 {
        assert(is_moment_trail(
            update,
            latencies(results),
            seq![(Double { bits: 0 }, Double { bits: 0 })],
        ));
    } else {
        let before = results.drop_last();
        law_moments_take_each_latency_with_its_number(ttl, ip_address, update, before);
        lemma_counts_follow_results(start, update, before);
        let hop = recorded_all(start, update, before);
        let after = recorded_all(start, update, results);
        let known = latencies(before);
        let trail = choose|trail: Seq<(Double, Double)>| #[trigger]
            is_moment_trail(update, known, trail) && trail.last() == (
                hop.mean_latency_ms,
                hop.m2_latency_ms,
            );
        if let Some(latency) = results.last() {
            let all = latencies(results);
            let longer = trail.push((after.mean_latency_ms, after.m2_latency_ms));
            assert(all == known.push(latency));
            assert forall|i: int| 0 <= i < all.len() implies call_ensures(
                update,
                (longer[i].0, longer[i].1, #[trigger] all[i], (i + 1) as u32),
                longer[i + 1],
            ) by {
                if i < known.len() {
                    assert(all[i] == known[i]);
                    assert(longer[i] == trail[i] && longer[i + 1] == trail[i + 1]);
                } else {
                    assert(longer[i] == trail.last());
                    assert(count_up(hop.packets_received) == (i + 1) as u32);
                }
            }
            assert(is_moment_trail(update, all, longer));
        }
    }
}

/// How the counters of a hop move over a run of results, while they are not full.
proof fn lemma_counts_follow_results<F: Fn(Double, Double, Double, u32) -> (Double, Double)>(
    hop: HopStatistic,
    update: F,
    results: Seq<Option<Double>>,
)
    requires
        hop.packets_received + results.len() <= u32::MAX,
        hop.packets_sent + results.len() <= u32::MAX,
    ensures
        latencies(results).len() <= results.len(),
        recorded_all(hop, update, results).packets_sent == hop.packets_sent + results.len(),
        recorded_all(hop, update, results).packets_received == hop.packets_received + latencies(
            results,
        ).len(),
    decreases results.len(),
{
    if results.len() > 0 {
        lemma_counts_follow_results(hop, update, results.drop_last());
    }
}

/// The standard deviation is what `deviation` makes of the sum of squared
/// deviations and the number of latencies less one.
pub proof fn law_deviation_divides_by_the_latencies_less_one<
    F: Fn(Double, Double, Double, u32) -> (Double, Double),
    D: Fn(Double, u32) -> Double,
>(
    ttl: u8,
    ip_address: Option<Ipv4Address>,
    update: F,
    results: Seq<Option<Double>>,
    deviation: D,
    value: Double,
)
    requires
        results.len() <= u32::MAX,
        latencies(results).len() >= 2,
        recorded_all(HopStatistic::fresh(ttl, ip_address), update, results).is_deviation(
            deviation,
            value,
        ),
    ensures
        call_ensures(
            deviation,
            (
                recorded_all(
                    HopStatistic::fresh(ttl, ip_address),
                    update,
                    results,
                ).m2_latency_ms,
                (latencies(results).len() - 1) as u32,
            ),
            value,
        ),
{
    lemma_counts_follow_results(HopStatistic::fresh(ttl, ip_address), update, results);
}

/// The loss is what `percentage` makes of the number of results that are no
/// latencies and the number of all results; of no results it is zero.
pub proof fn law_loss_counts_the_results<
    F: Fn(Double, Double, Double, u32) -> (Double, Double),
    P: Fn(u32, u32) -> Double,
>(
    ttl: u8,
    ip_address: Option<Ipv4Address>,
    update: F,
    results: Seq<Option<Double>>,
    percentage: P,
    loss: Double,
)
    requires
        results.len() <= u32::MAX,
        recorded_all(HopStatistic::fresh(ttl, ip_address), update, results).is_loss(
            percentage,
            loss,
        ),
    ensures
        results.len() == 0 ==> loss.bits == 0,
        results.len() > 0 ==> call_ensures(
            percentage,
            ((results.len() - latencies(results).len()) as u32, results.len() as u32),
            loss,
        ),
{
    lemma_counts_follow_results(HopStatistic::fresh(ttl, ip_address), update, results);
}

/// One result moves the statistics of any hop by one step: it counts as a probe,
/// and a latency also as an answer, each as long as its counter is not full. A
/// latency is the last one from then on, and no worse than the best and no better
/// than the worst; without one, nothing but the number of probes changes.
pub proof fn law_one_result_is_one_step<F: Fn(Double, Double, Double, u32) -> (Double, Double)>(
    hop: HopStatistic,
    update: F,
    result: Option<Double>,
)
    ensures
        ({
            let after = hop.recorded(update, result);
            &&& after.ttl == hop.ttl && after.ip_address == hop.ip_address
            &&& after.packets_sent == if hop.packets_sent == u32::MAX {
                u32::MAX as int
            } else {
                hop.packets_sent + 1
            }
            &&& result is None ==> after == HopStatistic {
                packets_sent: after.packets_sent,
                ..hop
            }
            &&& result matches Some(latency) ==> {
                &&& after.packets_received == if hop.packets_received == u32::MAX {
                    u32::MAX as int
                } else {
                    hop.packets_received + 1
                }
                &&& after.last_latency_ms == Some(latency)
                &&& hop.best_latency_ms is None ==> after.best_latency_ms == Some(latency)
                &&& hop.worst_latency_ms is None ==> after.worst_latency_ms == Some(latency)
                &&& hop.best_latency_ms matches Some(best) ==> {
                    let least = after.best_latency_ms;
                    &&& least == Some(best) || least == Some(latency)
                    &&& best.not_a_number() ==> least == Some(latency)
                    &&& !best.not_a_number() && latency.not_a_number() ==> least == Some(best)
                    &&& !best.not_a_number() && !latency.not_a_number() ==> least->0.rank()
                        <= best.rank() && least->0.rank() <= latency.rank()
                }
                &&& hop.worst_latency_ms matches Some(worst) ==> {
                    let greatest = after.worst_latency_ms;
                    &&& greatest == Some(worst) || greatest == Some(latency)
                    &&& worst.not_a_number() ==> greatest == Some(latency)
                    &&& !worst.not_a_number() && latency.not_a_number() ==> greatest == Some(worst)
                    &&& !worst.not_a_number() && !latency.not_a_number() ==> greatest->0.rank()
                        >= worst.rank() && greatest->0.rank() >= latency.rank()
                }
            }
        }),
{
}

} // verus!
