use std::collections::{HashMap, HashSet};

use vstd::prelude::*;

use crate::address::Ipv4Address;
use crate::double::Double;
use crate::event::{DnsResolvedEvent, NetworkEvent};
use crate::hop::{is_moment_update, HopStatistic};
use crate::route::{
    by_ttl, hop_or_fresh, in_ttl_order, is_placed, lemma_by_ttl, lemma_hop_inserted,
    lemma_hop_updated, lemma_hops_restarted, lemma_hops_truncated, lemma_one_more_event, stands_at,
    RouteView,
};

verus! {

/// The state of the tool: the target, what is known of the route to it, and
/// whether probing is paused.
pub struct MtrApplication {
    target_hostname: String,
    target_ip: Ipv4Address,
    route_hops: Vec<HopStatistic>,
    final_destination_ttl: Option<u8>,
    ip_to_hostname_cache: HashMap<u32, String>,
    in_flight_dns_queries: HashSet<u32>,
    is_paused: bool,
}

impl MtrApplication {
    /// The name that the user gave for the target.
    pub closed spec fn hostname(&self) -> Seq<char> {
        self.target_hostname@
    }

    /// The address of the target.
    pub closed spec fn target(&self) -> Ipv4Address {
        self.target_ip
    }

    /// Whether probing is paused.
    pub closed spec fn paused(&self) -> bool {
        self.is_paused
    }

    /// The hops, in the order of their time to live.
    pub closed spec fn ordered_hops(&self) -> Seq<HopStatistic> {
        self.route_hops@
    }

    /// What is known of the route.
    pub closed spec fn route(&self) -> RouteView {
        RouteView {
            hops: by_ttl(self.route_hops@),
            final_ttl: self.final_destination_ttl,
            pending: self.in_flight_dns_queries@,
            names: self.ip_to_hostname_cache@,
        }
    }

    /// The hops stand in order, none of them has more answers than probes, and
    /// their addresses are named or being looked up.
    pub open spec fn inv(&self) -> bool {
        &&& in_ttl_order(self.ordered_hops())
        &&& self.route().hops == by_ttl(self.ordered_hops())
        &&& self.route().is_sound()
        &&& self.route().is_tracked()
    }

    /// Whether everything but the route is as in another state.
    pub open spec fn same_session(&self, other: &MtrApplication) -> bool {
        &&& self.hostname() == other.hostname()
        &&& self.target() == other.target()
        &&& self.paused() == other.paused()
    }

    /// Starts with a route of which nothing is known.
    pub fn new(target_hostname: String, target_ip: Ipv4Address, is_paused: bool) -> (application:
        MtrApplication)
        ensures
            application.inv(),
            application.hostname() == target_hostname@,
            application.target() == target_ip,
            application.paused() == is_paused,
            application.route() == RouteView::unknown(),
    {
        let application = MtrApplication {
            target_hostname,
            target_ip,
            route_hops: Vec::new(),
            final_destination_ttl: None,
            ip_to_hostname_cache: HashMap::new(),
            in_flight_dns_queries: HashSet::new(),
            is_paused,
        };
        proof {
            assert(by_ttl(application.route_hops@) =~= Map::empty());
        }
        application
    }

    /// The name that the user gave for the target.
    pub fn target_hostname(&self) -> (name: &str)
        ensures
            name@ == self.hostname(),
    {
        self.target_hostname.as_str()
    }

    /// The address of the target.
    pub fn target_ip(&self) -> (ip_address: Ipv4Address)
        ensures
            ip_address == self.target(),
    {
        self.target_ip
    }

    /// Tells whether probing is paused.
    pub fn is_paused(&self) -> (paused: bool)
        ensures
            paused == self.paused(),
    {
        self.is_paused
    }

    /// The hops, in the order of their time to live.
    pub fn hops(&self) -> (hops: &[HopStatistic])
        ensures
            hops@ == self.ordered_hops(),
    {
        self.route_hops.as_slice()
    }

    /// The name that was found for an address.
    pub fn known_hostname(&self, ip_address: Ipv4Address) -> (name: Option<&String>)
        ensures
            name == (if self.route().names.contains_key(ip_address.bits) {
                Some(&self.route().names[ip_address.bits])
            } else {
                None
            }),
    {
        self.ip_to_hostname_cache.get(&ip_address.bits)
    }

    /// Pauses probing, or resumes it.
    pub fn toggle_pause(&mut self)
        ensures
            final(self).paused() == !old(self).paused(),
            final(self).hostname() == old(self).hostname(),
            final(self).target() == old(self).target(),
            final(self).ordered_hops() == old(self).ordered_hops(),
            final(self).route() == old(self).route(),
    {
        self.is_paused = !self.is_paused;
    }

    /// Finds the hop with the given time to live; where there is none, a new
    /// one takes its place in the order. The list stays valid if what the caller
    /// makes of the hop is.
    pub fn get_or_create_hop(&mut self, ttl: u8) -> (hop: &mut HopStatistic)
        requires
            old(self).inv(),
        ensures
            hop.ttl == ttl,
            *hop == hop_or_fresh(old(self).route().hops, ttl),
            final(self).same_session(old(self)),
            final(self).route() == (RouteView {
                hops: final(self).route().hops,
                ..old(self).route()
            }),
            final(hop).ttl == ttl ==> {
                &&& is_placed(
                    old(self).ordered_hops(),
                    final(self).ordered_hops(),
                    *final(hop),
                )
                &&& final(self).route().hops == old(self).route().hops.insert(ttl, *final(hop))
            },
            final(hop).ttl == ttl && final(hop).packets_received <= final(hop).packets_sent && (
            final(hop).ip_address matches Some(ip_address) ==> !old(self).route().is_unresolved(
                ip_address,
            )) ==> final(self).inv(),
    {
        let mut at: usize = 0;
        while at < self.route_hops.len() && self.route_hops[at].ttl < ttl
            invariant
                at <= self.route_hops@.len(),
                forall|i: int| 0 <= i < at ==> (#[trigger] self.route_hops@[i]).ttl < ttl,
                *self == *old(self),
            decreases self.route_hops@.len() - at,
        {
            at = at + 1;
        }
        let ghost before = self.route_hops@;
        proof {
            lemma_by_ttl(before);
        }
        if at == self.route_hops.len() || self.route_hops[at].ttl != ttl {
            self.route_hops.insert(at, HopStatistic::new(ttl, None));
            proof {
                assert forall|i: int| !stands_at(before, ttl, i) by {
                    if 0 <= i < before.len() && at < i {
                        assert(before[at as int].ttl < before[i].ttl);
                    }
                }
                assert forall|hop: HopStatistic| hop.ttl == ttl implies is_placed(
                    before,
                    #[trigger] self.route_hops@.update(at as int, hop),
                    hop,
                ) by {
                    lemma_hop_inserted(before, at as int, hop);
                    assert(self.route_hops@.update(at as int, hop) =~= before.insert(
                        at as int,
                        hop,
                    ));
                }
            }
        } else {
            proof {
                assert forall|hop: HopStatistic| hop.ttl == ttl implies is_placed(
                    before,
                    #[trigger] self.route_hops@.update(at as int, hop),
                    hop,
                ) by {
                    lemma_hop_updated(before, at as int, hop);
                }
            }
        }
        &mut self.route_hops[at]
    }

    /// Takes in one event of the probing engine and says which address to look
    /// up because of it.
    pub fn handle_network_event<F: Fn(Double, Double, Double, u32) -> (Double, Double)>(
        &mut self,
        event: NetworkEvent,
        update: &F,
    ) -> (lookup: Option<Ipv4Address>)
        requires
            old(self).inv(),
            is_moment_update(*update),
        ensures
            final(self).inv(),
            final(self).same_session(old(self)),
            final(self).route() == old(self).route().after_event(*update, event),
            old(self).route().moments_are_called(*update, event),
            lookup == (match event {
                NetworkEvent::RouteHopDiscovered { ip_address, .. } if old(
                    self,
                ).route().is_unresolved(ip_address) => Some(ip_address),
                _ => None,
            }),
    {
        match event {
            NetworkEvent::RouteHopDiscovered { ttl, ip_address } => {
                let mut lookup: Option<Ipv4Address> = None;
                if !self.in_flight_dns_queries.contains(&ip_address.bits)
                    && !self.ip_to_hostname_cache.contains_key(&ip_address.bits) {
                    self.in_flight_dns_queries.insert(ip_address.bits);
                    lookup = Some(ip_address);
                }
                let hop = self.get_or_create_hop(ttl);
                if hop.ip_address.is_none() {
                    hop.ip_address = Some(ip_address);
                }
                lookup
            },
            NetworkEvent::EchoProbeResult { ttl, latency_ms, reached_target } => {
                let is_nearer: bool = match self.final_destination_ttl {
                    Some(known) => ttl < known,
                    None => true,
                };
                if reached_target && is_nearer {
                    self.final_destination_ttl = Some(ttl);
                }
                let hop = self.get_or_create_hop(ttl);
                hop.record_probe_result(latency_ms, update);
                None
            },
        }
    }

    /// Takes in one answer of the name resolver.
    pub fn handle_dns_event(&mut self, event: DnsResolvedEvent)
        requires
            old(self).inv(),
        ensures
            final(self).inv(),
            final(self).same_session(old(self)),
            final(self).ordered_hops() == old(self).ordered_hops(),
            final(self).route() == old(self).route().after_name(event),
    {
        self.in_flight_dns_queries.remove(&event.original_ip.bits);
        self.ip_to_hostname_cache.insert(event.original_ip.bits, event.resolved_hostname);
    }

    /// Drops the hops beyond the target.
    fn prune_hops(&mut self)
        requires
            old(self).inv(),
        ensures
            final(self).inv(),
            final(self).same_session(old(self)),
            final(self).route() == old(self).route().pruned(),
    {
        if let Some(last) = self.final_destination_ttl {
            let mut kept: usize = 0;
            while kept < self.route_hops.len() && self.route_hops[kept].ttl <= last
                invariant
                    kept <= self.route_hops@.len(),
                    forall|i: int| 0 <= i < kept ==> (#[trigger] self.route_hops@[i]).ttl <= last,
                    *self == *old(self),
                decreases self.route_hops@.len() - kept,
            {
                kept = kept + 1;
            }
            let ghost before = self.route_hops@;
            self.route_hops.truncate(kept);
            proof {
                lemma_hops_truncated(before, kept as int, last);
            }
        }
    }

    /// Takes in the events of the probing engine and says which addresses to look
    /// up.
    fn dispatch_network_events<F: Fn(Double, Double, Double, u32) -> (Double, Double)>(
        &mut self,
        network_events: &Vec<NetworkEvent>,
        update: &F,
    ) -> (lookups: Vec<Ipv4Address>)
        requires
            old(self).inv(),
            is_moment_update(*update),
        ensures
            final(self).inv(),
            final(self).same_session(old(self)),
            final(self).route() == old(self).route().after_events(*update, network_events@),
            old(self).route().all_moments_are_called(*update, network_events@),
            lookups@ == old(self).route().all_lookups(*update, network_events@),
    {
        let ghost start = self.route();
        let mut lookups: Vec<Ipv4Address> = Vec::new();
        let mut i: usize = 0;
        while i < network_events.len()
            invariant
                i <= network_events@.len(),
                self.inv(),
                self.same_session(old(self)),
                is_moment_update(*update),
                self.route() == start.after_events(*update, network_events@.take(i as int)),
                lookups@ == start.all_lookups(*update, network_events@.take(i as int)),
                start.all_moments_are_called(*update, network_events@.take(i as int)),
            decreases network_events@.len() - i,
        {
            proof {
                lemma_one_more_event(start, *update, network_events@, i as int);
            }
            if let Some(ip_address) = self.handle_network_event(network_events[i], update) {
                lookups.push(ip_address);
            }
            i = i + 1;
        }
        proof {
            assert(network_events@.take(i as int) =~= network_events@);
        }
        lookups
    }

    /// Takes in the events of the probing engine, then the answers of the name
    /// resolver, and drops the hops beyond the target. Says which addresses to
    /// look up.
    pub fn dispatch_incoming_events<F: Fn(Double, Double, Double, u32) -> (Double, Double)>(
        &mut self,
        network_events: Vec<NetworkEvent>,
        dns_events: Vec<DnsResolvedEvent>,
        update: &F,
    ) -> (lookups: Vec<Ipv4Address>)
        requires
            old(self).inv(),
            is_moment_update(*update),
        ensures
            final(self).inv(),
            final(self).same_session(old(self)),
            final(self).route() == old(self).route().dispatched(
                *update,
                network_events@,
                dns_events@,
            ),
            final(self).route() == old(self).route().after_events(
                *update,
                network_events@,
            ).after_names(dns_events@).pruned(),
            old(self).route().all_moments_are_called(*update, network_events@),
            lookups@ == old(self).route().all_lookups(*update, network_events@),
    {
        let lookups: Vec<Ipv4Address> = self.dispatch_network_events(&network_events, update);
        let ghost probed = self.route();
        for event in answers: dns_events
            invariant
                self.inv(),
                self.same_session(old(self)),
                answers.seq() == dns_events@,
                self.route() == probed.after_names(dns_events@.take(answers.index())),
        {
            proof {
                assert(dns_events@.take(answers.index() + 1).drop_last() =~= dns_events@.take(
                    answers.index(),
                ));
            }
            self.handle_dns_event(event);
        }
        proof {
            assert(dns_events@.take(dns_events@.len() as int) =~= dns_events@);
        }
        self.prune_hops();
        lookups
    }

    /// Forgets the statistics of all hops and that the target was reached.
    pub fn reset_all_statistics(&mut self)
        requires
            old(self).inv(),
        ensures
            final(self).inv(),
            final(self).same_session(old(self)),
            final(self).route() == old(self).route().restarted(),
    {
        let ghost before = self.route_hops@;
        let mut i: usize = 0;
        while i < self.route_hops.len()
            invariant
                i <= self.route_hops@.len(),
                self.route_hops@.len() == before.len(),
                self.same_session(old(self)),
                self.final_destination_ttl == old(self).final_destination_ttl,
                self.in_flight_dns_queries == old(self).in_flight_dns_queries,
                self.ip_to_hostname_cache == old(self).ip_to_hostname_cache,
                forall|k: int|
                    0 <= k < i ==> #[trigger] self.route_hops@[k] == HopStatistic::fresh(
                        before[k].ttl,
                        before[k].ip_address,
                    ),
                forall|k: int| i <= k < before.len() ==> #[trigger] self.route_hops@[k] == before[k],
            decreases before.len() - i,
        {
            self.route_hops[i].reset_statistics();
            i = i + 1;
        }
        self.final_destination_ttl = None;
        proof {
            lemma_hops_restarted(before, self.route_hops@);
        }
    }
}

} // verus!
