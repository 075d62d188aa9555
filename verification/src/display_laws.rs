use vstd::prelude::*;

use crate::address::Ipv4Address;
use crate::application::MtrApplication;
use crate::clock::CivilTime;
use crate::display::{shows_hop, shows_value, GuideLine, HeaderLine, StatisticCell, StatisticsRow};
use crate::double::Double;
use crate::hop::{all_moments_are_called, recorded_all, HopStatistic};
use crate::hop_laws::{
    is_greatest, is_least, is_moment_trail, latencies,
    law_deviation_divides_by_the_latencies_less_one, law_loss_counts_the_results,
    law_moments_take_each_latency_with_its_number, law_statistics_follow_results,
};
use crate::route::{lemma_by_ttl, stands_at};
use crate::text::{decimal, law_decimal_stands_for_its_number, number_of};

verus! {

/// The row of a hop with an address tells what its probe results were: how many
/// there are, which share of them is lost, the last latency, the average, the
/// least, the greatest, and the deviation. Where there is nothing to tell there is
/// a dash.
pub proof fn law_row_shows_the_results<
    F: Fn(Double, Double, Double, u32) -> (Double, Double),
    P: Fn(u32, u32) -> Double,
    D: Fn(Double, u32) -> Double,
>(
    row: StatisticsRow,
    ttl: u8,
    ip_address: Ipv4Address,
    update: F,
    results: Seq<Option<Double>>,
    names: Map<u32, String>,
    percentage: P,
    deviation: D,
)
    requires
        results.len() <= u32::MAX,
        all_moments_are_called(HopStatistic::fresh(ttl, Some(ip_address)), update, results),
        forall|i: int|
            0 <= i < latencies(results).len() ==> !(#[trigger] latencies(
                results,
            )[i]).not_a_number(),
        shows_hop(
            row,
            recorded_all(HopStatistic::fresh(ttl, Some(ip_address)), update, results),
            names,
            percentage,
            deviation,
        ),
    ensures
        ({
            let known = latencies(results);
            &&& row.sent == (StatisticCell::Count { count: results.len() as u32 })
            &&& row.loss matches StatisticCell::Percentage { value } && if results.len() == 0 {
                value.bits == 0
            } else {
                call_ensures(
                    percentage,
                    ((results.len() - known.len()) as u32, results.len() as u32),
                    value,
                )
            }
            &&& known.len() == 0 ==> row.last is Dash && row.average is Dash && row.best is Dash
                && row.worst is Dash
            &&& known.len() > 0 ==> {
                &&& row.last == (StatisticCell::Milliseconds { value: known.last() })
                &&& row.best matches StatisticCell::Milliseconds { value } && is_least(value, known)
                &&& row.worst matches StatisticCell::Milliseconds { value } && is_greatest(
                    value,
                    known,
                )
            }
            &&& known.len() < 2 ==> row.deviation is Dash
            &&& exists|trail: Seq<(Double, Double)>| #[trigger]
                is_moment_trail(update, known, trail) && (known.len() > 0 ==> row.average == (
                StatisticCell::Milliseconds { value: trail.last().0 })) && (known.len() >= 2 ==> (
                row.deviation matches StatisticCell::Milliseconds { value } && call_ensures(
                    deviation,
                    (trail.last().1, (known.len() - 1) as u32),
                    value,
                )))
        }),
{
    let address = Some(ip_address);
    law_statistics_follow_results(ttl, address, update, results);
    law_moments_take_each_latency_with_its_number(ttl, address, update, results);
    law_loss_counts_the_results(
        ttl,
        address,
        update,
        results,
        percentage,
        row.loss->Percentage_value,
    );
    if latencies(results).len() >= 2 {
        law_deviation_divides_by_the_latencies_less_one(
            ttl,
            address,
            update,
            results,
            deviation,
            row.deviation->Milliseconds_value,
        );
    }
}

/// A row starts with the time to live and names the hop: by question marks while
/// it has no address, and then there are only dashes; by its address; and by its
/// name in brackets as well, if it has one that is not the address itself.
pub proof fn law_row_names_the_hop<P: Fn(u32, u32) -> Double, D: Fn(Double, u32) -> Double>(
    row: StatisticsRow,
    hop: HopStatistic,
    names: Map<u32, String>,
    percentage: P,
    deviation: D,
)
    requires
        shows_hop(row, hop, names, percentage, deviation),
    ensures
        ({
            let number = decimal(hop.ttl as nat) + ". "@;
            match hop.ip_address {
                None => {
                    &&& row.host@ == number + "???"@
                    &&& row.loss is Dash && row.sent is Dash && row.last is Dash
                    &&& row.average is Dash && row.best is Dash && row.worst is Dash
                    &&& row.deviation is Dash
                },
                Some(address) => {
                    let text = address.dotted();
                    let name = names[address.bits]@;
                    &&& !names.contains_key(address.bits) ==> row.host@ == number + text
                    &&& names.contains_key(address.bits) && name == text ==> row.host@ == number
                        + text
                    &&& names.contains_key(address.bits) && name != text ==> row.host@ == number + (
                    text + " ("@ + name + ")"@)
                },
            }
        }),
{
}

/// The table shows every known hop in one row and nothing else, with the smallest
/// time to live on top.
pub proof fn law_table_shows_every_hop<P: Fn(u32, u32) -> Double, D: Fn(Double, u32) -> Double>(
    application: MtrApplication,
    rows: Seq<StatisticsRow>,
    percentage: P,
    deviation: D,
)
    requires
        application.inv(),
        application.is_table(rows, percentage, deviation),
    ensures
        ({
            let hops = application.ordered_hops();
            let route = application.route();
            &&& rows.len() == hops.len()
            &&& forall|i: int, j: int|
                0 <= i < j < rows.len() ==> (#[trigger] hops[i]).ttl < (#[trigger] hops[j]).ttl
            &&& forall|i: int|
                0 <= i < rows.len() ==> {
                    &&& route.hops.contains_key((#[trigger] hops[i]).ttl)
                    &&& hops[i] == route.hops[hops[i].ttl]
                    &&& shows_hop(
                        rows[i],
                        route.hops[hops[i].ttl],
                        route.names,
                        percentage,
                        deviation,
                    )
                }
            &&& forall|ttl: u8| #[trigger]
                route.hops.contains_key(ttl) ==> exists|i: int|
                    0 <= i < rows.len() && (#[trigger] hops[i]).ttl == ttl
        }),
{
    let hops = application.ordered_hops();
    let route = application.route();
    lemma_by_ttl(hops);
    assert forall|ttl: u8| #[trigger] route.hops.contains_key(ttl) implies exists|i: int|
        0 <= i < rows.len() && (#[trigger] hops[i]).ttl == ttl by {
        let at = choose|at: int| stands_at(hops, ttl, at);
        assert(hops[at].ttl == ttl);
    }
}

/// The header names the target as the user gave it and by its address, and tells
/// the time.
pub proof fn law_header_names_the_target(
    application: MtrApplication,
    line: HeaderLine,
    now: CivilTime,
)
    requires
        application.is_header(line, now),
    ensures
        line.title@ == " My Traceroute (mtr) to "@ + application.hostname() + " ("@
            + application.target().dotted() + ")"@,
        line.time@ == now.timestamp(),
{
}

/// The guide tells of a pause, and stands out, exactly while probing is paused;
/// that it is paused is all that the two texts differ in.
pub proof fn law_guide_tells_of_a_pause(application: MtrApplication, line: GuideLine)
    requires
        application.is_guide(line),
    ensures
        line.highlighted <==> application.paused(),
        application.paused() ==> line.text@ == " Keys: [p] pause/resume"@ + " [PAUSED]"@
            + "   [r] restart statistics   [q] quit"@,
        !application.paused() ==> line.text@ == " Keys: [p] pause/resume"@
            + "   [r] restart statistics   [q] quit"@,
{
}

/// A count is shown by the digits that stand for it, a percentage by its number
/// and a percent sign, a time by its number alone, and nothing by a dash.
pub proof fn law_cell_shows_its_value<F: Fn(Double) -> String>(
    cell: StatisticCell,
    one_decimal: F,
    text: String,
)
    requires
        shows_value(cell, one_decimal, text),
    ensures
        cell is Dash ==> text@ == "-"@,
        cell matches StatisticCell::Count { count } ==> number_of(text@) == count,
        cell matches StatisticCell::Percentage { value } ==> exists|number: String| #[trigger]
            call_ensures(one_decimal, (value,), number) && text@ == number@ + "%"@,
        cell matches StatisticCell::Milliseconds { value } ==> call_ensures(
            one_decimal,
            (value,),
            text,
        ),
{
    if let StatisticCell::Count { count } = cell {
        law_decimal_stands_for_its_number(count as nat);
    }
}

} // verus!
