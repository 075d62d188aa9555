use std::collections::HashMap;

use vstd::prelude::*;

use crate::address::Ipv4Address;
use crate::double::Double;
use crate::event::NetworkEvent;
use crate::packet::{echo_request, probe_metadata, IcmpResponseType};

verus! {

/// The longest route that is probed.
pub const MAXIMUM_ROUTE_HOPS: u8 = 30;

/// How long a round of probes takes at least, in nanoseconds.
pub const ROUND_NS: u64 = 1_000_000_000;

/// How long after its start a round waits for responses, in nanoseconds.
pub const GATHER_WINDOW_NS: u64 = 800_000_000;

/// How long to wait before looking again whether probing goes on, in
/// nanoseconds.
pub const PAUSE_NS: u64 = 100_000_000;

/// Where a prober stands in its round.
#[derive(Clone, Copy, Debug, PartialEq, Eq, Structural)]
pub enum ProberPhase {
    /// Between two rounds.
    Idle,
    /// Sending a probe for each time to live.
    Sending,
    /// Waiting for responses.
    Gathering,
    /// Done waiting: the probes that are left count as lost.
    Draining,
    /// All results are reported; the round may have time left.
    Settling,
}

/// What a prober asks its driver to do.
#[derive(Debug)]
pub enum ProberAction {
    /// End probing.
    Stop,
    /// Wait before the next poll.
    Sleep { ns: u64 },
    /// Send a packet with a time to live.
    Send { ttl: u8, packet: [u8; 8] },
    /// Wait a moment for a packet.
    Receive,
    /// Pass on events.
    Report { events: Vec<NetworkEvent> },
}

/// An action without its contents.
pub enum Directive {
    Stop,
    Sleep(int),
    Send,
    Receive,
    Report,
}

/// The state of a prober.
pub struct ProberView {
    pub process_identifier: u16,
    /// The sequence number of the latest probe.
    pub sequence_number: u16,
    /// The largest time to live that is worth probing.
    pub max_ttl: u8,
    pub phase: ProberPhase,
    pub round_start_ns: u64,
    /// The time to live of the latest probe in the round.
    pub last_ttl: u8,
    /// The probes that wait for a response: their time to live and the moment
    /// of sending, by sequence number.
    pub in_flight: Map<u16, (u8, u64)>,
}

/// The time from one moment to another, or none if the second is earlier.
pub open spec fn time_between(from_ns: u64, to_ns: u64) -> int {
    if from_ns <= to_ns {
        to_ns - from_ns
    } else {
        0
    }
}

/// The sequence number that comes a number of steps after another.
pub open spec fn sequence_after(sequence_number: u16, steps: int) -> int {
    (sequence_number + steps) % 0x1_0000
}

/// The result of a lost probe.
pub open spec fn lost_probe(ttl: u8) -> NetworkEvent {
    NetworkEvent::EchoProbeResult { ttl, latency_ms: None, reached_target: false }
}

/// Whether events report the given probes as lost, each once, in any order.
pub open spec fn reports_lost(events: Seq<NetworkEvent>, probes: Map<u16, (u8, u64)>) -> bool {
    exists|order: Seq<u16>| #[trigger] reports_lost_in_order(events, probes, order)
}

/// Whether events report the given probes as lost in the given order.
pub open spec fn reports_lost_in_order(
    events: Seq<NetworkEvent>,
    probes: Map<u16, (u8, u64)>,
    order: Seq<u16>,
) -> bool {
    &&& order.no_duplicates()
    &&& order.to_set() == probes.dom()
    &&& events == order.map_values(|sequence_number: u16| lost_probe(probes[sequence_number].0))
}

/// A probe that a packet answers.
pub struct AnsweredProbe {
    pub sequence_number: u16,
    pub ttl: u8,
    pub elapsed_ns: u64,
    pub reached_target: bool,
}

impl AnsweredProbe {
    /// The events that report an answer: who gave it, and the probe's result.
    pub open spec fn reported(self, ip_address: Ipv4Address, latency: Double) -> Seq<NetworkEvent> {
        seq![
            NetworkEvent::RouteHopDiscovered { ttl: self.ttl, ip_address },
            NetworkEvent::EchoProbeResult {
                ttl: self.ttl,
                latency_ms: Some(latency),
                reached_target: self.reached_target,
            },
        ]
    }
}

impl ProberView {
    /// Probes in flight are those of this round: the one with the latest
    /// sequence number has the latest time to live, and both count down together.
    pub open spec fn inv(self) -> bool {
        &&& 1 <= self.max_ttl <= MAXIMUM_ROUTE_HOPS
        &&& self.last_ttl <= MAXIMUM_ROUTE_HOPS
        &&& self.phase is Sending ==> self.last_ttl <= self.max_ttl
        &&& self.phase is Idle || self.phase is Settling ==> self.in_flight == Map::<
            u16,
            (u8, u64),
        >::empty()
        &&& forall|number: u16| #[trigger]
            self.in_flight.contains_key(number) ==> {
                let ttl = self.in_flight[number].0;
                1 <= ttl <= self.last_ttl && self.sequence_number == sequence_after(
                    number,
                    self.last_ttl - ttl,
                )
            }
    }

    /// The state of a prober that has not probed yet, for the process with the
    /// given number.
    pub open spec fn started(process_id: u32) -> ProberView {
        ProberView {
            process_identifier: (process_id % 0x1_0000) as u16,
            sequence_number: 0,
            max_ttl: MAXIMUM_ROUTE_HOPS,
            phase: ProberPhase::Idle,
            round_start_ns: 0,
            last_ttl: 0,
            in_flight: Map::empty(),
        }
    }

    /// Whether the next round may begin.
    pub open spec fn at_rest(self, now_ns: u64) -> bool {
        self.phase is Idle || (self.phase is Settling && time_between(self.round_start_ns, now_ns)
            >= ROUND_NS)
    }

    /// Whether a probe is left to send in this round.
    pub open spec fn has_more_to_send(self) -> bool {
        self.phase is Sending && self.last_ttl < self.max_ttl
    }

    /// Whether responses may still come in this round.
    pub open spec fn may_gather(self, now_ns: u64) -> bool {
        (self.phase is Sending || self.phase is Gathering) && time_between(
            self.round_start_ns,
            now_ns,
        ) < GATHER_WINDOW_NS
    }

    /// The state at the start of a round.
    pub open spec fn begun(self, now_ns: u64) -> ProberView {
        ProberView {
            phase: ProberPhase::Sending,
            round_start_ns: now_ns,
            last_ttl: 0,
            ..self
        }
    }

    /// The state after a probe was handed out.
    pub open spec fn advanced(self) -> ProberView {
        ProberView {
            sequence_number: sequence_after(self.sequence_number, 1) as u16,
            last_ttl: (self.last_ttl + 1) as u8,
            ..self
        }
    }

    /// What a poll does within a round: probes first, then responses, and at
    /// the end the probes that got none. A stop cuts the first two short.
    pub open spec fn probed(self, now_ns: u64, should_exit: bool) -> (ProberView, Directive) {
        if self.has_more_to_send() && !should_exit {
            (self.advanced(), Directive::Send)
        } else if self.may_gather(now_ns) && !should_exit {
            (ProberView { phase: ProberPhase::Gathering, ..self }, Directive::Receive)
        } else {
            (
                ProberView { phase: ProberPhase::Settling, in_flight: Map::empty(), ..self },
                Directive::Report,
            )
        }
    }

    /// What a poll does: a round that settles takes up its time, a stop or a
    /// pause holds before the next round, and otherwise probing goes on.
    pub open spec fn polled(self, now_ns: u64, should_exit: bool, is_paused: bool) -> (
        ProberView,
        Directive,
    ) {
        let idle = ProberView { phase: ProberPhase::Idle, ..self };
        if self.at_rest(now_ns) {
            if should_exit {
                (idle, Directive::Stop)
            } else if is_paused {
                (idle, Directive::Sleep(PAUSE_NS as int))
            } else {
                self.begun(now_ns).probed(now_ns, should_exit)
            }
        } else if self.phase is Settling {
            (idle, Directive::Sleep(ROUND_NS - time_between(self.round_start_ns, now_ns)))
        } else {
            self.probed(now_ns, should_exit)
        }
    }

    /// The state after the latest probe went out.
    pub open spec fn sent(self, now_ns: u64) -> ProberView {
        if self.phase is Sending && self.last_ttl > 0 {
            ProberView {
                in_flight: self.in_flight.insert(self.sequence_number, (self.last_ttl, now_ns)),
                ..self
            }
        } else {
            self
        }
    }

    /// The probe that a received packet answers, if it answers one of ours.
    pub open spec fn answered(self, packet: Seq<u8>, now_ns: u64) -> Option<AnsweredProbe> {
        match probe_metadata(packet) {
            Some(metadata) if self.phase is Gathering && metadata.process_identifier
                == self.process_identifier && self.in_flight.contains_key(
                metadata.sequence_number,
            ) => {
                let (ttl, sent_ns) = self.in_flight[metadata.sequence_number];
                Some(
                    AnsweredProbe {
                        sequence_number: metadata.sequence_number,
                        ttl,
                        elapsed_ns: time_between(sent_ns, now_ns) as u64,
                        reached_target: metadata.response_type is EchoReply,
                    },
                )
            },
            _ => None,
        }
    }

    /// The state after a received packet. An echo reply ends the wait and makes
    /// larger times to live not worth probing.
    pub open spec fn received(self, source: Option<Ipv4Address>, packet: Seq<u8>, now_ns: u64) -> ProberView {
        match self.answered(packet, now_ns) {
            Some(probe) if source is Some => ProberView {
                in_flight: self.in_flight.remove(probe.sequence_number),
                max_ttl: if probe.reached_target && probe.ttl < self.max_ttl {
                    probe.ttl
                } else {
                    self.max_ttl
                },
                phase: if probe.reached_target {
                    ProberPhase::Draining
                } else {
                    self.phase
                },
                ..self
            },
            _ => self,
        }
    }
}

/// Whether an action is the one that a poll decides on.
pub open spec fn carries_out(
    action: ProberAction,
    directive: Directive,
    before: ProberView,
    after: ProberView,
) -> bool {
    match directive {
        Directive::Stop => action is Stop,
        Directive::Sleep(time_ns) => action matches ProberAction::Sleep { ns } && ns == time_ns,
        Directive::Send => action matches ProberAction::Send { ttl, packet } && ttl
            == after.last_ttl && packet@ == echo_request(
            after.sequence_number,
            after.process_identifier,
        ),
        Directive::Receive => action is Receive,
        Directive::Report => action matches ProberAction::Report { events } && reports_lost(
            events@,
            before.in_flight,
        ),
    }
}

/// Whether events are what a received packet tells.
pub open spec fn tells<F: Fn(u64) -> Double>(
    prober: ProberView,
    source: Option<Ipv4Address>,
    packet: Seq<u8>,
    now_ns: u64,
    to_ms: F,
    events: Seq<NetworkEvent>,
) -> bool {
    match (source, prober.answered(packet, now_ns)) {
        (Some(ip_address), Some(probe)) => exists|latency: Double| #[trigger]
            call_ensures(to_ms, (probe.elapsed_ns,), latency) && events == probe.reported(
                ip_address,
                latency,
            ),
        _ => events == Seq::<NetworkEvent>::empty(),
    }
}

/// The engine that probes the route with raw echo requests: it decides what to
/// send and when to wait, and matches the responses with the probes.
pub struct ActiveNetworkProber {
    process_identifier: u16,
    sequence_number: u16,
    dynamic_max_ttl: u8,
    phase: ProberPhase,
    round_start_ns: u64,
    last_ttl: u8,
    in_flight_probes: HashMap<u16, (u8, u64)>,
}

impl View for ActiveNetworkProber {
    type V = ProberView;

    closed spec fn view(&self) -> ProberView {
        ProberView {
            process_identifier: self.process_identifier,
            sequence_number: self.sequence_number,
            max_ttl: self.dynamic_max_ttl,
            phase: self.phase,
            round_start_ns: self.round_start_ns,
            last_ttl: self.last_ttl,
            in_flight: self.in_flight_probes@,
        }
    }
}

/// The time from one moment to another, or none if the second is earlier.
fn elapsed_between(from_ns: u64, to_ns: u64) -> (elapsed_ns: u64)
    ensures
        elapsed_ns == time_between(from_ns, to_ns),
{
    to_ns.saturating_sub(from_ns)
}

impl ActiveNetworkProber {
    /// Starts a prober for the process with the given number, of which the
    /// probes carry the low 16 bits.
    pub fn new(process_id: u32) -> (prober: ActiveNetworkProber)
        ensures
            prober@.inv(),
            prober@ == ProberView::started(process_id),
            prober@ == (ProberView {
                process_identifier: (process_id % 0x1_0000) as u16,
                sequence_number: 0,
                max_ttl: MAXIMUM_ROUTE_HOPS,
                phase: ProberPhase::Idle,
                round_start_ns: 0,
                last_ttl: 0,
                in_flight: Map::empty(),
            }),
    {
        ActiveNetworkProber {
            process_identifier: (process_id % 0x1_0000) as u16,
            sequence_number: 0,
            dynamic_max_ttl: MAXIMUM_ROUTE_HOPS,
            phase: ProberPhase::Idle,
            round_start_ns: 0,
            last_ttl: 0,
            in_flight_probes: HashMap::new(),
        }
    }

    /// Says what to do next.
    pub fn poll(&mut self, now_ns: u64, should_exit: bool, is_paused: bool) -> (action: ProberAction)
        requires
            old(self)@.inv(),
        ensures
            final(self)@.inv(),
            final(self)@ == old(self)@.polled(now_ns, should_exit, is_paused).0,
            carries_out(
                action,
                old(self)@.polled(now_ns, should_exit, is_paused).1,
                old(self)@,
                final(self)@,
            ),
            match old(self)@.polled(now_ns, should_exit, is_paused).1 {
                Directive::Stop => action is Stop,
                Directive::Sleep(time_ns) => action matches ProberAction::Sleep { ns } && ns
                    == time_ns,
                Directive::Send => action matches ProberAction::Send { ttl, packet } && ttl
                    == final(self)@.last_ttl && packet@ == echo_request(
                    final(self)@.sequence_number,
                    final(self)@.process_identifier,
                ),
                Directive::Receive => action is Receive,
                Directive::Report => action matches ProberAction::Report { events } && reports_lost(
                    events@,
                    old(self)@.in_flight,
                ),
            },
    {
        if self.phase == ProberPhase::Settling {
            self.phase = ProberPhase::Idle;
            let elapsed_ns: u64 = elapsed_between(self.round_start_ns, now_ns);
            if elapsed_ns < ROUND_NS {
                return ProberAction::Sleep { ns: ROUND_NS - elapsed_ns };
            }
        }
        if self.phase == ProberPhase::Idle {
            if should_exit {
                return ProberAction::Stop;
            }
            if is_paused {
                return ProberAction::Sleep { ns: PAUSE_NS };
            }
            self.phase = ProberPhase::Sending;
            self.round_start_ns = now_ns;
            self.last_ttl = 0;
        }
        if self.phase == ProberPhase::Sending {
            if self.last_ttl < self.dynamic_max_ttl && !should_exit {
                self.sequence_number = self.sequence_number.wrapping_add(1);
                self.last_ttl = self.last_ttl + 1;
                let packet: [u8; 8] = Self::build_echo_request(
                    self.sequence_number,
                    self.process_identifier,
                );
                return ProberAction::Send { ttl: self.last_ttl, packet };
            }
            self.phase = ProberPhase::Gathering;
        }
        if self.phase == ProberPhase::Gathering && !should_exit && elapsed_between(
            self.round_start_ns,
            now_ns,
        ) < GATHER_WINDOW_NS {
            return ProberAction::Receive;
        }
        let events: Vec<NetworkEvent> = self.lost_probes();
        self.in_flight_probes.clear();
        self.phase = ProberPhase::Settling;
        ProberAction::Report { events }
    }

    /// Takes in that the packet of the latest send action went out.
    pub fn probe_sent(&mut self, now_ns: u64)
        requires
            old(self)@.inv(),
        ensures
            final(self)@.inv(),
            final(self)@ == old(self)@.sent(now_ns),
    {
        if self.phase == ProberPhase::Sending && self.last_ttl > 0 {
            self.in_flight_probes.insert(self.sequence_number, (self.last_ttl, now_ns));
        }
    }

    /// Takes in a received packet, with the IPv4 address it came from, and says
    /// what it tells: nothing, unless it answers a probe in flight; then, who
    /// answered, and after which time, as `to_ms` converts nanoseconds.
    pub fn handle_datagram<F: Fn(u64) -> Double>(
        &mut self,
        source: Option<Ipv4Address>,
        packet_data: &[u8],
        now_ns: u64,
        to_ms: &F,
    ) -> (events: Vec<NetworkEvent>)
        requires
            old(self)@.inv(),
            forall|ns: u64| #[trigger] call_requires(*to_ms, (ns,)),
        ensures
            final(self)@.inv(),
            final(self)@ == old(self)@.received(source, packet_data@, now_ns),
            tells(old(self)@, source, packet_data@, now_ns, *to_ms, events@),
            match (source, old(self)@.answered(packet_data@, now_ns)) {
                (Some(ip_address), Some(probe)) => exists|latency: Double| #[trigger]
                    call_ensures(*to_ms, (probe.elapsed_ns,), latency) && events@
                        == probe.reported(ip_address, latency),
                _ => events@ == Seq::<NetworkEvent>::empty(),
            },
    {
        let mut events: Vec<NetworkEvent> = Vec::new();
        if self.phase != ProberPhase::Gathering {
            return events;
        }
        let ip_address: Ipv4Address = match source {
            Some(ip_address) => ip_address,
            None => return events,
        };
        if let Some(metadata) = Self::extract_probe_metadata(packet_data) {
            if metadata.process_identifier != self.process_identifier {
                return events;
            }
            let removed: Option<(u8, u64)> = self.in_flight_probes.remove(
                &metadata.sequence_number,
            );
            proof {
                let before = old(self)@.in_flight;
                assert(self.in_flight_probes@ =~= before.remove(metadata.sequence_number));
                assert(removed is Some <==> before.contains_key(metadata.sequence_number));
                assert(removed is Some ==> before[metadata.sequence_number] == removed->0);
                assert(removed is None ==> self.in_flight_probes@ =~= before);
            }
            if let Some((ttl, sent_ns)) = removed {
                let elapsed_ns: u64 = elapsed_between(sent_ns, now_ns);
                let latency: Double = to_ms(elapsed_ns);
                let reached_target: bool = metadata.response_type == IcmpResponseType::EchoReply;
                events.push(NetworkEvent::RouteHopDiscovered { ttl, ip_address });
                events.push(
                    NetworkEvent::EchoProbeResult {
                        ttl,
                        latency_ms: Some(latency),
                        reached_target,
                    },
                );
                proof {
                    let probe = old(self)@.answered(packet_data@, now_ns)->0;
                    assert(call_ensures(*to_ms, (probe.elapsed_ns,), latency));
                    assert(events@ =~= probe.reported(ip_address, latency));
                }
                if reached_target {
                    if ttl < self.dynamic_max_ttl {
                        self.dynamic_max_ttl = ttl;
                    }
                    self.phase = ProberPhase::Draining;
                }
            }
        }
        events
    }

    /// The results of the probes in flight, as lost.
    fn lost_probes(&self) -> (events: Vec<NetworkEvent>)
        ensures
            reports_lost(events@, self@.in_flight),
    {
        let mut events: Vec<NetworkEvent> = Vec::new();
        let ghost probes = self.in_flight_probes@;
        let ghost mut order: Seq<u16> = Seq::empty();
        for number in numbers: self.in_flight_probes.keys()
            invariant
                probes == self.in_flight_probes@,
                numbers.seq().unref().to_set() == probes.dom(),
                numbers.seq().no_duplicates(),
                order == numbers.seq().unref().take(numbers.index()),
                numbers.index() == numbers.seq().len() ==> order == numbers.seq().unref(),
                events@ == order.map_values(|number: u16| lost_probe(probes[number].0)),
        {
            proof {
                assert(numbers.seq().unref()[numbers.index()] == *number);
                assert(probes.dom().contains(*number));
            }
            if let Some((ttl, _)) = self.in_flight_probes.get(number) {
                events.push(
                    NetworkEvent::EchoProbeResult {
                        ttl: *ttl,
                        latency_ms: None,
                        reached_target: false,
                    },
                );
            }
            proof {
                order = order.push(*number);
            }
        }
        proof {
            assert(reports_lost_in_order(events@, probes, order));
        }
        events
    }
}

} // verus!
