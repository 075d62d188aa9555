use vstd::prelude::*;

use crate::address::Ipv4Address;
use crate::double::Double;
use crate::event::{DnsResolvedEvent, NetworkEvent};
use crate::hop::HopStatistic;

verus! {

/// What is known of the route to a target: the statistics of its hops by time
/// to live, the time to live that reaches the target, the addresses whose names
/// are being looked up, and the names that were found.
pub struct RouteView {
    pub hops: Map<u8, HopStatistic>,
    pub final_ttl: Option<u8>,
    pub pending: Set<u32>,
    pub names: Map<u32, String>,
}

/// Whether hops stand in the order of their time to live, each once.
pub open spec fn in_ttl_order(hops: Seq<HopStatistic>) -> bool {
    forall|i: int, j: int| 0 <= i < j < hops.len() ==> (#[trigger] hops[i]).ttl < (#[trigger] hops[j]).ttl
}

/// Whether a hop with the given time to live stands at a place.
pub open spec fn stands_at(hops: Seq<HopStatistic>, ttl: u8, at: int) -> bool {
    0 <= at < hops.len() && hops[at].ttl == ttl
}

/// Whether a list has a hop with the given time to live.
pub open spec fn has_hop(hops: Seq<HopStatistic>, ttl: u8) -> bool {
    exists|at: int| stands_at(hops, ttl, at)
}

/// A list of hops, by time to live.
pub open spec fn by_ttl(hops: Seq<HopStatistic>) -> Map<u8, HopStatistic> {
    Map::new(
        |ttl: u8| has_hop(hops, ttl),
        |ttl: u8| hops[choose|at: int| stands_at(hops, ttl, at)],
    )
}

/// The hop with the given time to live, or a new one.
pub open spec fn hop_or_fresh(hops: Map<u8, HopStatistic>, ttl: u8) -> HopStatistic {
    if hops.contains_key(ttl) {
        hops[ttl]
    } else {
        HopStatistic::fresh(ttl, None)
    }
}

/// The hop, with an address if it had none.
pub open spec fn with_address(hop: HopStatistic, ip_address: Ipv4Address) -> HopStatistic {
    match hop.ip_address {
        Some(_) => hop,
        None => HopStatistic { ip_address: Some(ip_address), ..hop },
    }
}

impl RouteView {
    /// A route of which nothing is known.
    pub open spec fn unknown() -> RouteView {
        RouteView {
            hops: Map::empty(),
            final_ttl: None,
            pending: Set::empty(),
            names: Map::empty(),
        }
    }

    /// Whether every hop stands under its own time to live and has no more
    /// answers than probes.
    pub open spec fn is_sound(self) -> bool {
        forall|ttl: u8| #[trigger]
            self.hops.contains_key(ttl) ==> self.hops[ttl].ttl == ttl
                && self.hops[ttl].packets_received <= self.hops[ttl].packets_sent
    }

    /// Whether the name of an address is neither known nor being looked up.
    pub open spec fn is_unresolved(self, ip_address: Ipv4Address) -> bool {
        !self.pending.contains(ip_address.bits) && !self.names.contains_key(ip_address.bits)
    }

    /// Whether no address is both named and being looked up, and the address of
    /// every hop is one or the other.
    pub open spec fn is_tracked(self) -> bool {
        &&& forall|bits: u32| #[trigger]
            self.pending.contains(bits) ==> !self.names.contains_key(bits)
        &&& forall|ttl: u8| #[trigger]
            self.hops.contains_key(ttl) ==> (self.hops[ttl].ip_address matches Some(ip_address)
                ==> !self.is_unresolved(ip_address))
    }

    /// The addresses to look up because of an event.
    pub open spec fn lookups(self, event: NetworkEvent) -> Seq<Ipv4Address> {
        match event {
            NetworkEvent::RouteHopDiscovered { ttl, ip_address } => if self.is_unresolved(
                ip_address,
            ) {
                seq![ip_address]
            } else {
                Seq::empty()
            },
            NetworkEvent::EchoProbeResult { .. } => Seq::empty(),
        }
    }

    /// The route after an event of the probing engine.
    ///
    /// A discovery gives the hop its address, if it had none, and starts a
    /// lookup of an unresolved one. A probe result counts for its hop, and one
    /// from the target lowers the time to live that reaches it.
    pub open spec fn after_event<F: Fn(Double, Double, Double, u32) -> (Double, Double)>(
        self,
        update: F,
        event: NetworkEvent,
    ) -> RouteView {
        match event {
            NetworkEvent::RouteHopDiscovered { ttl, ip_address } => RouteView {
                hops: self.hops.insert(
                    ttl,
                    with_address(hop_or_fresh(self.hops, ttl), ip_address),
                ),
                pending: if self.is_unresolved(ip_address) {
                    self.pending.insert(ip_address.bits)
                } else {
                    self.pending
                },
                ..self
            },
            NetworkEvent::EchoProbeResult { ttl, latency_ms, reached_target } => RouteView {
                hops: self.hops.insert(
                    ttl,
                    hop_or_fresh(self.hops, ttl).recorded(update, latency_ms),
                ),
                final_ttl: if reached_target && (self.final_ttl matches Some(known) ==> ttl
                    < known) {
                    Some(ttl)
                } else {
                    self.final_ttl
                },
                ..self
            },
        }
    }

    /// Whether the event's moments come from a call of `update`.
    pub open spec fn moments_are_called<F: Fn(Double, Double, Double, u32) -> (Double, Double)>(
        self,
        update: F,
        event: NetworkEvent,
    ) -> bool {
        event matches NetworkEvent::EchoProbeResult { ttl, latency_ms, .. } ==> hop_or_fresh(
            self.hops,
            ttl,
        ).moments_are_called(update, latency_ms)
    }

    /// The route after events of the probing engine, in order.
    pub open spec fn after_events<F: Fn(Double, Double, Double, u32) -> (Double, Double)>(
        self,
        update: F,
        events: Seq<NetworkEvent>,
    ) -> RouteView
        decreases events.len(),
    {
        if events.len() == 0 {
            self
        } else {
            self.after_events(update, events.drop_last()).after_event(update, events.last())
        }
    }

    /// Whether the moments of all events come from calls of `update`.
    pub open spec fn all_moments_are_called<
        F: Fn(Double, Double, Double, u32) -> (Double, Double),
    >(self, update: F, events: Seq<NetworkEvent>) -> bool
        decreases events.len(),
    {
        events.len() > 0 ==> {
            &&& self.all_moments_are_called(update, events.drop_last())
            &&& self.after_events(update, events.drop_last()).moments_are_called(
                update,
                events.last(),
            )
        }
    }

    /// The addresses to look up because of events, in order.
    pub open spec fn all_lookups<F: Fn(Double, Double, Double, u32) -> (Double, Double)>(
        self,
        update: F,
        events: Seq<NetworkEvent>,
    ) -> Seq<Ipv4Address>
        decreases events.len(),
    {
        if events.len() == 0 {
            Seq::empty()
        } else {
            self.all_lookups(update, events.drop_last()) + self.after_events(
                update,
                events.drop_last(),
            ).lookups(events.last())
        }
    }

    /// The route after an answer of the name resolver.
    pub open spec fn after_name(self, event: DnsResolvedEvent) -> RouteView {
        RouteView {
            pending: self.pending.remove(event.original_ip.bits),
            names: self.names.insert(event.original_ip.bits, event.resolved_hostname),
            ..self
        }
    }

    /// The route after answers of the name resolver, in order.
    pub open spec fn after_names(self, events: Seq<DnsResolvedEvent>) -> RouteView
        decreases events.len(),
    {
        if events.len() == 0 {
            self
        } else {
            self.after_names(events.drop_last()).after_name(events.last())
        }
    }

    /// The route without the hops beyond the target.
    pub open spec fn pruned(self) -> RouteView {
        match self.final_ttl {
            Some(last) => RouteView {
                hops: self.hops.restrict(Set::new(|ttl: u8| ttl <= last)),
                ..self
            },
            None => self,
        }
    }

    /// The route after events of the probing engine and answers of the name
    /// resolver were taken in together.
    pub open spec fn dispatched<F: Fn(Double, Double, Double, u32) -> (Double, Double)>(
        self,
        update: F,
        events: Seq<NetworkEvent>,
        answers: Seq<DnsResolvedEvent>,
    ) -> RouteView {
        self.after_events(update, events).after_names(answers).pruned()
    }

    /// The route with all statistics forgotten; hops, addresses and names stay.
    pub open spec fn restarted(self) -> RouteView {
        RouteView {
            hops: self.hops.map_values(
                |hop: HopStatistic| HopStatistic::fresh(hop.ttl, hop.ip_address),
            ),
            final_ttl: None,
            ..self
        }
    }
}

/// The hops of an ordered list are found under their time to live.
pub proof fn lemma_by_ttl(hops: Seq<HopStatistic>)
    requires
        in_ttl_order(hops),
    ensures
        forall|at: int|
            0 <= at < hops.len() ==> by_ttl(hops).contains_key((#[trigger] hops[at]).ttl) && by_ttl(
                hops,
            )[hops[at].ttl] == hops[at],
        forall|ttl: u8|
            by_ttl(hops).contains_key(ttl) ==> exists|at: int| stands_at(hops, ttl, at),
{
    assert forall|at: int| 0 <= at < hops.len() implies by_ttl(hops).contains_key(
        (#[trigger] hops[at]).ttl,
    ) && by_ttl(hops)[hops[at].ttl] == hops[at] by {
        assert(stands_at(hops, hops[at].ttl, at));
        let found = choose|i: int| stands_at(hops, hops[at].ttl, i);
        if found < at {
            assert(hops[found].ttl < hops[at].ttl);
        } else if at < found {
            assert(hops[at].ttl < hops[found].ttl);
        }
    }
}

/// Whether a list of hops is another one with a hop put in its place: it stands
/// in order and holds that hop, and otherwise the times to live and the hops of
/// the other list.
pub open spec fn is_placed(
    before: Seq<HopStatistic>,
    after: Seq<HopStatistic>,
    hop: HopStatistic,
) -> bool {
    &&& in_ttl_order(after)
    &&& after.contains(hop)
    &&& forall|ttl: u8| #[trigger] has_hop(after, ttl) <==> has_hop(before, ttl) || ttl == hop.ttl
    &&& by_ttl(after) == by_ttl(before).insert(hop.ttl, hop)
}

/// An ordered list stays ordered when a hop replaces the one with its time to
/// live.
pub proof fn lemma_hop_updated(hops: Seq<HopStatistic>, at: int, hop: HopStatistic)
    requires
        in_ttl_order(hops),
        stands_at(hops, hop.ttl, at),
    ensures
        is_placed(hops, hops.update(at, hop), hop),
{
    let after = hops.update(at, hop);
    assert(in_ttl_order(after));
    assert(after[at] == hop);
    assert forall|i: int| 0 <= i < hops.len() && (#[trigger] hops[i]).ttl != hop.ttl implies after[i]
        == hops[i] by {}
    lemma_hop_placed(hops, after, at, hop, |i: int| i, |j: int| j);
}

/// An ordered list stays ordered when a hop is put between those with a smaller
/// and those with a larger time to live.
pub proof fn lemma_hop_inserted(hops: Seq<HopStatistic>, at: int, hop: HopStatistic)
    requires
        in_ttl_order(hops),
        0 <= at <= hops.len(),
        forall|i: int| 0 <= i < at ==> (#[trigger] hops[i]).ttl < hop.ttl,
        at < hops.len() ==> hop.ttl < hops[at].ttl,
    ensures
        is_placed(hops, hops.insert(at, hop), hop),
{
    let after = hops.insert(at, hop);
    assert forall|i: int, j: int| 0 <= i < j < after.len() implies (#[trigger] after[i]).ttl < (
    #[trigger] after[j]).ttl by {
        if at < i {
            assert(hops[i - 1].ttl < hops[j - 1].ttl);
        } else if at == i {
            assert(hops[at].ttl <= hops[j - 1].ttl);
        }
    }
    lemma_hop_placed(
        hops,
        after,
        at,
        hop,
        |i: int|
            if i < at {
                i
            } else {
                i + 1
            },
        |j: int|
            if j < at {
                j
            } else {
                j - 1
            },
    );
}

/// A list that holds a hop and, moved from `origin` to `place`, the hops of
/// another list with other times to live.
proof fn lemma_hop_placed(
    before: Seq<HopStatistic>,
    after: Seq<HopStatistic>,
    at: int,
    hop: HopStatistic,
    place: spec_fn(int) -> int,
    origin: spec_fn(int) -> int,
)
    requires
        in_ttl_order(before),
        in_ttl_order(after),
        0 <= at < after.len(),
        after[at] == hop,
        forall|i: int|
            0 <= i < before.len() && (#[trigger] before[i]).ttl != hop.ttl ==> 0 <= place(i)
                < after.len() && after[place(i)] == before[i],
        forall|j: int|
            0 <= j < after.len() && j != at ==> 0 <= origin(j) < before.len() && before[origin(j)]
                == #[trigger] after[j],
    ensures
        is_placed(before, after, hop),
{
    lemma_by_ttl(before);
    lemma_by_ttl(after);
    let expected = by_ttl(before).insert(hop.ttl, hop);
    assert forall|ttl: u8| by_ttl(after).contains_key(ttl) == expected.contains_key(ttl) by {
        if by_ttl(after).contains_key(ttl) {
            let j = choose|j: int| stands_at(after, ttl, j);
            if j != at {
                assert(before[origin(j)] == after[j]);
                assert(by_ttl(before).contains_key(before[origin(j)].ttl));
            }
        }
        if expected.contains_key(ttl) {
            if ttl == hop.ttl {
                assert(by_ttl(after).contains_key(after[at].ttl));
            } else {
                let i = choose|i: int| stands_at(before, ttl, i);
                assert(before[i].ttl != hop.ttl);
                assert(by_ttl(after).contains_key(after[place(i)].ttl));
            }
        }
    }
    assert forall|ttl: u8| by_ttl(after).contains_key(ttl) implies by_ttl(after)[ttl]
        == expected[ttl] by {
        let j = choose|j: int| stands_at(after, ttl, j);
        assert(by_ttl(after)[after[j].ttl] == after[j]);
        assert(by_ttl(after)[after[at].ttl] == after[at]);
        if j != at {
            assert(before[origin(j)] == after[j]);
            assert(by_ttl(before)[before[origin(j)].ttl] == before[origin(j)]);
            if at < j {
                assert(after[at].ttl < after[j].ttl);
            } else {
                assert(after[j].ttl < after[at].ttl);
            }
        }
    }
    assert(by_ttl(after) =~= expected);
    assert forall|ttl: u8| #[trigger] has_hop(after, ttl) <==> has_hop(before, ttl) || ttl
        == hop.ttl by {
        assert(by_ttl(after).contains_key(ttl) == has_hop(after, ttl));
        assert(by_ttl(before).contains_key(ttl) == has_hop(before, ttl));
    }
}

/// Cutting an ordered list where the time to live passes a limit keeps the hops
/// up to the limit.
pub proof fn lemma_hops_truncated(hops: Seq<HopStatistic>, kept: int, last: u8)
    requires
        in_ttl_order(hops),
        0 <= kept <= hops.len(),
        forall|i: int| 0 <= i < kept ==> (#[trigger] hops[i]).ttl <= last,
        kept < hops.len() ==> last < hops[kept].ttl,
    ensures
        in_ttl_order(hops.take(kept)),
        by_ttl(hops.take(kept)) == by_ttl(hops).restrict(Set::new(|ttl: u8| ttl <= last)),
{
    let after = hops.take(kept);
    let expected = by_ttl(hops).restrict(Set::new(|ttl: u8| ttl <= last));
    lemma_by_ttl(hops);
    lemma_by_ttl(after);
    assert forall|ttl: u8| by_ttl(after).contains_key(ttl) == expected.contains_key(ttl) by {
        if by_ttl(after).contains_key(ttl) {
            let i = choose|i: int| stands_at(after, ttl, i);
            assert(hops[i] == after[i]);
        }
        if expected.contains_key(ttl) {
            let i = choose|i: int| stands_at(hops, ttl, i);
            if i >= kept {
                assert(hops[kept].ttl <= hops[i].ttl);
            }
            assert(after[i] == hops[i]);
        }
    }
    assert forall|ttl: u8| by_ttl(after).contains_key(ttl) implies by_ttl(after)[ttl]
        == expected[ttl] by {
        let i = choose|i: int| stands_at(after, ttl, i);
        assert(hops[i] == after[i]);
        assert(by_ttl(hops)[hops[i].ttl] == hops[i]);
        assert(by_ttl(after)[after[i].ttl] == after[i]);
    }
    assert(by_ttl(after) =~= expected);
}

/// Restarting the hops of an ordered list one by one restarts them all.
pub proof fn lemma_hops_restarted(before: Seq<HopStatistic>, after: Seq<HopStatistic>)
    requires
        in_ttl_order(before),
        before.len() == after.len(),
        forall|i: int|
            0 <= i < before.len() ==> #[trigger] after[i] == HopStatistic::fresh(
                before[i].ttl,
                before[i].ip_address,
            ),
    ensures
        in_ttl_order(after),
        by_ttl(after) == by_ttl(before).map_values(
            |hop: HopStatistic| HopStatistic::fresh(hop.ttl, hop.ip_address),
        ),
{
    let expected = by_ttl(before).map_values(
        |hop: HopStatistic| HopStatistic::fresh(hop.ttl, hop.ip_address),
    );
    assert forall|i: int, j: int| 0 <= i < j < after.len() implies (#[trigger] after[i]).ttl < (
    #[trigger] after[j]).ttl by {
        assert(before[i].ttl < before[j].ttl);
    }
    lemma_by_ttl(before);
    lemma_by_ttl(after);
    assert forall|ttl: u8| by_ttl(after).contains_key(ttl) == expected.contains_key(ttl) by {
        if by_ttl(after).contains_key(ttl) {
            let i = choose|i: int| stands_at(after, ttl, i);
            assert(stands_at(before, ttl, i));
        }
        if expected.contains_key(ttl) {
            let i = choose|i: int| stands_at(before, ttl, i);
            assert(after[i].ttl == ttl);
        }
    }
    assert forall|ttl: u8| by_ttl(after).contains_key(ttl) implies by_ttl(after)[ttl]
        == expected[ttl] by {
        let i = choose|i: int| stands_at(after, ttl, i);
        assert(by_ttl(before)[before[i].ttl] == before[i]);
        assert(by_ttl(after)[after[i].ttl] == after[i]);
    }
    assert(by_ttl(after) =~= expected);
}

/// The route and the lookups after one event more.
pub proof fn lemma_one_more_event<F: Fn(Double, Double, Double, u32) -> (Double, Double)>(
    route: RouteView,
    update: F,
    events: Seq<NetworkEvent>,
    i: int,
)
    requires
        0 <= i < events.len(),
    ensures
        route.after_events(update, events.take(i + 1)) == route.after_events(
            update,
            events.take(i),
        ).after_event(update, events[i]),
        route.all_lookups(update, events.take(i + 1)) == route.all_lookups(update, events.take(i))
            + route.after_events(update, events.take(i)).lookups(events[i]),
        route.all_moments_are_called(update, events.take(i + 1)) <==> (
        route.all_moments_are_called(update, events.take(i)) && route.after_events(
            update,
            events.take(i),
        ).moments_are_called(update, events[i])),
{
    assert(events.take(i + 1).drop_last() =~= events.take(i));
}

} // verus!
