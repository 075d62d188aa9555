use vstd::prelude::*;

use crate::address::Ipv4Address;
use crate::double::Double;
use crate::event::{DnsResolvedEvent, NetworkEvent};
use crate::hop::{all_moments_are_called, recorded_all, HopStatistic};
use crate::hop_laws::{
    is_greatest, is_least, is_moment_trail, latencies,
    law_moments_take_each_latency_with_its_number, law_statistics_follow_results,
};
use crate::route::{hop_or_fresh, RouteView};

verus! {

/// The time to live that an event speaks of.
pub open spec fn event_ttl(event: NetworkEvent) -> u8 {
    match event {
        NetworkEvent::RouteHopDiscovered { ttl, .. } => ttl,
        NetworkEvent::EchoProbeResult { ttl, .. } => ttl,
    }
}

/// Whether an event says that a probe with the given time to live got to the
/// target.
pub open spec fn reaches_target(event: NetworkEvent, at: u8) -> bool {
    event matches NetworkEvent::EchoProbeResult { ttl, reached_target, .. } && reached_target && ttl
        == at
}

/// The probe results for one time to live, in order.
pub open spec fn results_for(events: Seq<NetworkEvent>, at: u8) -> Seq<Option<Double>>
    decreases events.len(),
{
    if events.len() == 0 {
        Seq::empty()
    } else {
        match events.last() {
            NetworkEvent::EchoProbeResult { ttl, latency_ms, .. } if ttl == at => results_for(
                events.drop_last(),
                at,
            ).push(latency_ms),
            _ => results_for(events.drop_last(), at),
        }
    }
}

/// The addresses that were discovered for one time to live, in order.
pub open spec fn discoveries_for(events: Seq<NetworkEvent>, at: u8) -> Seq<Ipv4Address>
    decreases events.len(),
{
    if events.len() == 0 {
        Seq::empty()
    } else {
        match events.last() {
            NetworkEvent::RouteHopDiscovered { ttl, ip_address } if ttl == at => discoveries_for(
                events.drop_last(),
                at,
            ).push(ip_address),
            _ => discoveries_for(events.drop_last(), at),
        }
    }
}

/// The statistics of a hop are those of the results of its own probes, and its
/// address is the first that was discovered for it. No other event plays a part.
pub proof fn law_hop_follows_its_own_events<
    F: Fn(Double, Double, Double, u32) -> (Double, Double),
>(route: RouteView, update: F, events: Seq<NetworkEvent>, at: u8)
    ensures
        ({
            let before = hop_or_fresh(route.hops, at);
            let found = discoveries_for(events, at);
            hop_or_fresh(route.after_events(update, events).hops, at) == HopStatistic {
                ip_address: if before.ip_address is Some || found.len() == 0 {
                    before.ip_address
                } else {
                    Some(found[0])
                },
                ..recorded_all(before, update, results_for(events, at))
            }
        }),
    decreases events.len(),
{
    if events.len() > 0 {
        law_hop_follows_its_own_events(route, update, events.drop_last(), at);
        let before = hop_or_fresh(route.hops, at);
        let results = results_for(events.drop_last(), at);
        lemma_recorded_all_keeps_place(before, update, results);
        if let NetworkEvent::EchoProbeResult { ttl, latency_ms, .. } = events.last() {
            if ttl == at {
                assert(results_for(events, at).drop_last() =~= results);
            }
        }
    }
}

/// Recording results changes neither the place nor the address of a hop.
proof fn lemma_recorded_all_keeps_place<F: Fn(Double, Double, Double, u32) -> (Double, Double)>(
    hop: HopStatistic,
    update: F,
    results: Seq<Option<Double>>,
)
    ensures
        recorded_all(hop, update, results).ttl == hop.ttl,
        recorded_all(hop, update, results).ip_address == hop.ip_address,
    decreases results.len(),
{
    if results.len() > 0 {
        lemma_recorded_all_keeps_place(hop, update, results.drop_last());
    }
}

/// Events keep the hops under their own time to live, with no more answers than
/// probes.
pub proof fn law_route_stays_sound<F: Fn(Double, Double, Double, u32) -> (Double, Double)>(
    route: RouteView,
    update: F,
    events: Seq<NetworkEvent>,
)
    requires
        route.is_sound(),
    ensures
        route.after_events(update, events).is_sound(),
    decreases events.len(),
{
    if events.len() > 0 {
        law_route_stays_sound(route, update, events.drop_last());
    }
}

/// Nothing that happens to a route loses track of an address: none is both named
/// and being looked up, and the address of every hop is one or the other.
pub proof fn law_addresses_stay_tracked<F: Fn(Double, Double, Double, u32) -> (Double, Double)>(
    route: RouteView,
    update: F,
    events: Seq<NetworkEvent>,
    answers: Seq<DnsResolvedEvent>,
)
    requires
        route.is_tracked(),
    ensures
        RouteView::unknown().is_tracked(),
        route.after_events(update, events).is_tracked(),
        route.after_names(answers).is_tracked(),
        route.pruned().is_tracked(),
        route.restarted().is_tracked(),
    decreases events.len(), answers.len(),
{
    if events.len() > 0 {
        law_addresses_stay_tracked(route, update, events.drop_last(), answers);
    } else if answers.len() > 0 {
        law_addresses_stay_tracked(route, update, events, answers.drop_last());
    }
}

/// The time to live that reaches the target is the least of the one known before
/// and those whose probes got there since; it never grows.
pub proof fn law_target_is_nearest<F: Fn(Double, Double, Double, u32) -> (Double, Double)>(
    route: RouteView,
    update: F,
    events: Seq<NetworkEvent>,
)
    ensures
        ({
            let after = route.after_events(update, events).final_ttl;
            &&& after is None <==> route.final_ttl is None && forall|i: int, at: u8|
                0 <= i < events.len() ==> !#[trigger] reaches_target(events[i], at)
            &&& after matches Some(last) ==> {
                &&& route.final_ttl matches Some(known) ==> last <= known
                &&& forall|i: int, at: u8|
                    0 <= i < events.len() && #[trigger] reaches_target(events[i], at) ==> last <= at
                &&& route.final_ttl == Some(last) || exists|i: int|
                    0 <= i < events.len() && #[trigger] reaches_target(events[i], last)
            }
        }),
    decreases events.len(),
{
    if events.len() > 0 {
        let earlier = events.drop_last();
        law_target_is_nearest(route, update, earlier);
        let before = route.after_events(update, earlier).final_ttl;
        let after = route.after_events(update, events).final_ttl;
        let end = events.len() - 1;
        assert(events[end] == events.last());
        assert forall|i: int, at: u8|
            0 <= i < events.len() && #[trigger] reaches_target(events[i], at) implies (after matches Some(
            last,
        ) && last <= at) by {
            if i < end {
                assert(reaches_target(earlier[i], at));
            }
        }
        if let Some(last) = after {
            if before == Some(last) {
                if route.final_ttl != Some(last) {
                    let i = choose|i: int|
                        0 <= i < earlier.len() && #[trigger] reaches_target(earlier[i], last);
                    assert(reaches_target(events[i], last));
                }
            } else {
                assert(reaches_target(events[end], last));
            }
        }
        if after is None {
            assert forall|i: int, at: u8| 0 <= i < events.len() implies !#[trigger] reaches_target(
                events[i],
                at,
            ) by {
                if i < end {
                    assert(!reaches_target(earlier[i], at));
                }
            }
        }
    }
}

/// Once the target was reached, exactly the hops up to it are left, as they were.
pub proof fn law_no_hop_beyond_target(route: RouteView)
    ensures
        route.pruned().final_ttl == route.final_ttl,
        route.final_ttl is None ==> route.pruned() == route,
        route.final_ttl matches Some(last) ==> forall|ttl: u8|
            #![trigger route.pruned().hops.contains_key(ttl)]
            (route.pruned().hops.contains_key(ttl) <==> route.hops.contains_key(ttl) && ttl <= last)
                && (route.pruned().hops.contains_key(ttl) ==> route.pruned().hops[ttl]
                == route.hops[ttl]),
        route.pruned().pruned() == route.pruned(),
{
    assert(route.pruned().pruned().hops =~= route.pruned().hops);
}

/// Events for different times to live can be taken in in either order.
pub proof fn law_events_of_different_hops_commute<
    F: Fn(Double, Double, Double, u32) -> (Double, Double),
>(route: RouteView, update: F, a: NetworkEvent, b: NetworkEvent)
    requires
        event_ttl(a) != event_ttl(b),
    ensures
        route.after_event(update, a).after_event(update, b) == route.after_event(
            update,
            b,
        ).after_event(update, a),
{
    let one = route.after_event(update, a).after_event(update, b);
    let other = route.after_event(update, b).after_event(update, a);
    assert(one.hops =~= other.hops);
    assert(one.pending =~= other.pending);
}

/// Whether an event tells of a router with the given address.
pub open spec fn discovers(event: NetworkEvent, address: Ipv4Address) -> bool {
    event matches NetworkEvent::RouteHopDiscovered { ip_address, .. } && ip_address == address
}

/// A discovered address is looked up once: if its name is neither known nor
/// being looked up, and never again while either holds. Nothing else is looked
/// up.
pub proof fn law_lookups_are_unique<F: Fn(Double, Double, Double, u32) -> (Double, Double)>(
    route: RouteView,
    update: F,
    events: Seq<NetworkEvent>,
)
    ensures
        route.all_lookups(update, events).no_duplicates(),
        forall|address: Ipv4Address| #[trigger]
            route.all_lookups(update, events).contains(address) <==> route.is_unresolved(address)
                && exists|i: int| 0 <= i < events.len() && #[trigger] discovers(events[i], address),
        forall|address: Ipv4Address| #[trigger]
            route.after_events(update, events).is_unresolved(address) <==> route.is_unresolved(
                address,
            ) && !route.all_lookups(update, events).contains(address),
        route.after_events(update, events).names == route.names,
    decreases events.len(),
{
    if events.len() > 0 {
        let earlier = events.drop_last();
        law_lookups_are_unique(route, update, earlier);
        let asked = route.all_lookups(update, earlier);
        let between = route.after_events(update, earlier);
        let more = between.lookups(events.last());
        let all = route.all_lookups(update, events);
        let end = events.len() - 1;
        assert(all == asked + more);
        assert(events[end] == events.last());
        assert forall|address: Ipv4Address| all.contains(address) == (asked.contains(address)
            || more.contains(address)) by {
            if asked.contains(address) {
                let i = asked.index_of(address);
                assert(all[i] == address);
            }
            if more.contains(address) {
                let i = more.index_of(address);
                assert(all[asked.len() + i] == address);
            }
        }
        if let NetworkEvent::RouteHopDiscovered { ip_address, .. } = events.last() {
            if between.is_unresolved(ip_address) {
                assert(more[0] == ip_address);
                assert(!asked.contains(ip_address));
            }
        }
        assert forall|address: Ipv4Address| #[trigger] all.contains(address) <==> (
        route.is_unresolved(address) && exists|i: int|
            0 <= i < events.len() && #[trigger] discovers(events[i], address)) by {
            if exists|i: int| 0 <= i < earlier.len() && #[trigger] discovers(earlier[i], address) {
                let i = choose|i: int|
                    0 <= i < earlier.len() && #[trigger] discovers(earlier[i], address);
                assert(discovers(events[i], address));
            }
            if exists|i: int| 0 <= i < events.len() && #[trigger] discovers(events[i], address) {
                let i = choose|i: int|
                    0 <= i < events.len() && #[trigger] discovers(events[i], address);
                if i < end {
                    assert(discovers(earlier[i], address));
                }
            }
            if more.contains(address) {
                assert(discovers(events[end], address));
            }
        }
        assert forall|address: Ipv4Address| #[trigger]
            route.after_events(update, events).is_unresolved(address) <==> (route.is_unresolved(
            address,
        ) && !all.contains(address)) by {
            assert(between.is_unresolved(address) <==> route.is_unresolved(address)
                && !asked.contains(address));
        }
    }
}

/// Whether the last answer for an address stands at a place.
pub open spec fn is_last_answer(events: Seq<DnsResolvedEvent>, bits: u32, at: int) -> bool {
    &&& 0 <= at < events.len()
    &&& events[at].original_ip.bits == bits
    &&& forall|i: int| at < i < events.len() ==> (#[trigger] events[i]).original_ip.bits != bits
}

/// An answer of the name resolver ends the lookup and makes the name known; the
/// last answer for an address counts, and no other address is affected.
pub proof fn law_answers_end_lookups(route: RouteView, events: Seq<DnsResolvedEvent>, bits: u32)
    ensures
        ({
            let after = route.after_names(events);
            let answered = exists|i: int|
                0 <= i < events.len() && (#[trigger] events[i]).original_ip.bits == bits;
            &&& after.hops == route.hops && after.final_ttl == route.final_ttl
            &&& answered ==> !after.pending.contains(bits) && after.names.contains_key(bits)
            &&& !answered ==> after.pending.contains(bits) == route.pending.contains(bits)
            &&& !answered ==> after.names.contains_key(bits) == route.names.contains_key(bits)
                && after.names[bits] == route.names[bits]
            &&& forall|i: int|
                is_last_answer(events, bits, i) ==> after.names[bits]
                    == #[trigger] events[i].resolved_hostname
        }),
    decreases events.len(),
{
    if events.len() > 0 {
        let earlier = events.drop_last();
        law_answers_end_lookups(route, earlier, bits);
        let end = events.len() - 1;
        assert(events[end] == events.last());
        if exists|i: int|
            0 <= i < events.len() && (#[trigger] events[i]).original_ip.bits == bits {
            let i = choose|i: int|
                0 <= i < events.len() && (#[trigger] events[i]).original_ip.bits == bits;
            if i < end {
                assert(earlier[i].original_ip.bits == bits);
            }
        }
        if exists|i: int|
            0 <= i < earlier.len() && (#[trigger] earlier[i]).original_ip.bits == bits {
            let i = choose|i: int|
                0 <= i < earlier.len() && (#[trigger] earlier[i]).original_ip.bits == bits;
            assert(events[i].original_ip.bits == bits);
        }
        assert forall|i: int| is_last_answer(events, bits, i) implies route.after_names(
            events,
        ).names[bits] == #[trigger] events[i].resolved_hostname by {
            if i < end {
                assert(events[end].original_ip.bits != bits);
                assert forall|j: int| i < j < earlier.len() implies (
                #[trigger] earlier[j]).original_ip.bits != bits by {
                    assert(events[j].original_ip.bits != bits);
                }
                assert(is_last_answer(earlier, bits, i));
                assert(earlier[i].resolved_hostname == events[i].resolved_hostname);
            }
        }
    }
}

/// Whether a hop has no results.
pub open spec fn is_unprobed(hop: HopStatistic) -> bool {
    &&& hop.packets_sent == 0 && hop.packets_received == 0
    &&& hop.last_latency_ms is None && hop.best_latency_ms is None && hop.worst_latency_ms is None
    &&& hop.mean_latency_ms.bits == 0 && hop.m2_latency_ms.bits == 0
}

/// A restart forgets every count and latency and that the target was reached,
/// and keeps every hop, address, name and lookup. Doing it twice does no more.
pub proof fn law_restart_keeps_the_route(route: RouteView)
    ensures
        route.restarted().final_ttl is None,
        route.restarted().pending == route.pending,
        route.restarted().names == route.names,
        route.restarted().hops.dom() == route.hops.dom(),
        forall|ttl: u8| #[trigger]
            route.hops.contains_key(ttl) ==> route.restarted().hops[ttl] == HopStatistic::fresh(
                route.hops[ttl].ttl,
                route.hops[ttl].ip_address,
            ),
        forall|ttl: u8| #[trigger]
            route.hops.contains_key(ttl) ==> {
                let hop = route.restarted().hops[ttl];
                &&& is_unprobed(hop)
                &&& hop.ttl == route.hops[ttl].ttl
                &&& hop.ip_address == route.hops[ttl].ip_address
            },
        route.restarted().restarted() == route.restarted(),
{
    assert(route.restarted().hops.dom() =~= route.hops.dom());
    assert(route.restarted().restarted().hops =~= route.restarted().hops);
}

/// An address is unresolved exactly if its name is neither known nor being looked
/// up.
pub proof fn law_unresolved_means_unknown_and_unasked(route: RouteView, address: Ipv4Address)
    ensures
        route.is_unresolved(address) <==> !route.pending.contains(address.bits)
            && !route.names.contains_key(address.bits),
{
}

/// The addresses to look up come in the order of the events that ask for them:
/// more events only add to the end.
pub proof fn law_lookups_come_in_order<F: Fn(Double, Double, Double, u32) -> (Double, Double)>(
    route: RouteView,
    update: F,
    events: Seq<NetworkEvent>,
    more: Seq<NetworkEvent>,
)
    ensures
        route.all_lookups(update, events).is_prefix_of(route.all_lookups(update, events + more)),
    decreases more.len(),
{
    if more.len() > 0 {
        law_lookups_come_in_order(route, update, events, more.drop_last());
        assert((events + more).drop_last() =~= events + more.drop_last());
    } else {
        assert(events + more =~= events);
    }
}

/// The hops that are known are those that were known before and those that an
/// event tells of.
pub proof fn law_hops_are_those_that_events_tell_of<
    F: Fn(Double, Double, Double, u32) -> (Double, Double),
>(route: RouteView, update: F, events: Seq<NetworkEvent>, ttl: u8)
    ensures
        route.after_events(update, events).hops.contains_key(ttl) <==> route.hops.contains_key(ttl)
            || exists|i: int| 0 <= i < events.len() && event_ttl(#[trigger] events[i]) == ttl,
    decreases events.len(),
{
    if events.len() > 0 {
        let earlier = events.drop_last();
        law_hops_are_those_that_events_tell_of(route, update, earlier, ttl);
        let end = events.len() - 1;
        assert(events[end] == events.last());
        if exists|i: int| 0 <= i < earlier.len() && event_ttl(#[trigger] earlier[i]) == ttl {
            let i = choose|i: int|
                0 <= i < earlier.len() && event_ttl(#[trigger] earlier[i]) == ttl;
            assert(event_ttl(events[i]) == ttl);
        }
        if exists|i: int| 0 <= i < events.len() && event_ttl(#[trigger] events[i]) == ttl {
            let i = choose|i: int| 0 <= i < events.len() && event_ttl(#[trigger] events[i]) == ttl;
            if i < end {
                assert(event_ttl(earlier[i]) == ttl);
            }
        }
    }
}

/// The moments of a hop come from calls of `update` where those of the route do.
proof fn lemma_hop_moments_are_called<F: Fn(Double, Double, Double, u32) -> (Double, Double)>(
    route: RouteView,
    update: F,
    events: Seq<NetworkEvent>,
    at: u8,
)
    requires
        route.all_moments_are_called(update, events),
    ensures
        all_moments_are_called(hop_or_fresh(route.hops, at), update, results_for(events, at)),
        results_for(events, at).len() <= events.len(),
    decreases events.len(),
{
    if events.len() > 0 {
        let earlier = events.drop_last();
        lemma_hop_moments_are_called(route, update, earlier, at);
        law_hop_follows_its_own_events(route, update, earlier, at);
        if let NetworkEvent::EchoProbeResult { ttl, latency_ms, .. } = events.last() {
            if ttl == at {
                assert(results_for(events, at).drop_last() =~= results_for(earlier, at));
                assert(hop_or_fresh(
                    route.after_events(update, earlier).hops,
                    at,
                ).moments_are_called(update, latency_ms));
            }
        }
    }
}

/// What is known of a hop that had no results is what events told of it: as many
/// probes as there are results, as many answers as there are latencies, the last,
/// the least and the greatest latency, and the moments that `update` makes of them
/// one after the other. Its address is the one that it had, or else the first that
/// was discovered.
pub proof fn law_hop_shows_what_was_observed<
    F: Fn(Double, Double, Double, u32) -> (Double, Double),
>(route: RouteView, update: F, events: Seq<NetworkEvent>, at: u8)
    requires
        events.len() <= u32::MAX,
        route.hops.contains_key(at) ==> route.hops[at].ttl == at && is_unprobed(route.hops[at]),
        route.all_moments_are_called(update, events),
        route.after_events(update, events).hops.contains_key(at),
        forall|i: int|
            0 <= i < latencies(results_for(events, at)).len() ==> !(#[trigger] latencies(
                results_for(events, at),
            )[i]).not_a_number(),
    ensures
        ({
            let hop = route.after_events(update, events).hops[at];
            let results = results_for(events, at);
            let known = latencies(results);
            let found = discoveries_for(events, at);
            &&& hop.ttl == at
            &&& hop.ip_address == if route.hops.contains_key(at) && route.hops[at].ip_address is Some {
                route.hops[at].ip_address
            } else if found.len() > 0 {
                Some(found[0])
            } else {
                None
            }
            &&& hop.packets_sent == results.len()
            &&& hop.packets_received == known.len()
            &&& known.len() == 0 ==> hop.last_latency_ms is None && hop.best_latency_ms is None
                && hop.worst_latency_ms is None
            &&& known.len() > 0 ==> {
                &&& hop.last_latency_ms == Some(known.last())
                &&& hop.best_latency_ms matches Some(best) && is_least(best, known)
                &&& hop.worst_latency_ms matches Some(worst) && is_greatest(worst, known)
            }
            &&& exists|trail: Seq<(Double, Double)>| #[trigger]
                is_moment_trail(update, known, trail) && trail.last() == (
                    hop.mean_latency_ms,
                    hop.m2_latency_ms,
                )
        }),
{
    let before = hop_or_fresh(route.hops, at);
    assert(before == HopStatistic::fresh(at, before.ip_address));
    lemma_hop_moments_are_called(route, update, events, at);
    law_hop_follows_its_own_events(route, update, events, at);
    law_statistics_follow_results(at, before.ip_address, update, results_for(events, at));
    law_moments_take_each_latency_with_its_number(
        at,
        before.ip_address,
        update,
        results_for(events, at),
    );
}

/// Taking in events and answers together leaves every hop as the events alone do,
/// up to the time to live that reaches the target, and no hop beyond. A name is
/// known if it was or was answered, and the last answer for an address counts; a
/// lookup is under way if it was or the events started it, and it was not answered.
pub proof fn law_dispatch_takes_in_everything<
    F: Fn(Double, Double, Double, u32) -> (Double, Double),
>(
    route: RouteView,
    update: F,
    events: Seq<NetworkEvent>,
    answers: Seq<DnsResolvedEvent>,
    ttl: u8,
    bits: u32,
)
    ensures
        ({
            let after = route.dispatched(update, events, answers);
            let probed = route.after_events(update, events);
            let answered = exists|i: int|
                0 <= i < answers.len() && (#[trigger] answers[i]).original_ip.bits == bits;
            &&& after.final_ttl == probed.final_ttl
            &&& after.hops.contains_key(ttl) <==> probed.hops.contains_key(ttl) && (
            probed.final_ttl matches Some(last) ==> ttl <= last)
            &&& after.hops.contains_key(ttl) ==> after.hops[ttl] == probed.hops[ttl]
            &&& after.names.contains_key(bits) <==> route.names.contains_key(bits) || answered
            &&& !answered && route.names.contains_key(bits) ==> after.names[bits]
                == route.names[bits]
            &&& forall|i: int|
                is_last_answer(answers, bits, i) ==> after.names[bits]
                    == #[trigger] answers[i].resolved_hostname
            &&& after.pending.contains(bits) <==> !answered && probed.pending.contains(bits)
        }),
{
    law_answers_end_lookups(route.after_events(update, events), answers, bits);
    law_lookups_are_unique(route, update, events);
}

} // verus!
