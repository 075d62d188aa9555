use vstd::prelude::*;

use crate::address::Ipv4Address;
use crate::double::Double;
use crate::event::NetworkEvent;
use crate::packet::{
    echo_request, is_ip_header, law_echo_reply_is_matched, law_echo_reply_is_read_from_its_place,
    law_request_carries_its_fields, law_time_exceeded_is_matched,
    law_time_exceeded_is_read_from_its_place,
};
use crate::prober::{
    carries_out, reports_lost, reports_lost_in_order, tells, AnsweredProbe, Directive,
    ProberAction, ProberPhase, ProberView,
};

verus! {

/// What can happen to a prober.
pub enum ProberStep {
    Poll { now_ns: u64, should_exit: bool, is_paused: bool },
    Sent { now_ns: u64 },
    Datagram { source: Option<Ipv4Address>, packet: Seq<u8>, now_ns: u64 },
}

/// The state after a step.
pub open spec fn stepped(prober: ProberView, step: ProberStep) -> ProberView {
    match step {
        ProberStep::Poll { now_ns, should_exit, is_paused } => prober.polled(
            now_ns,
            should_exit,
            is_paused,
        ).0,
        ProberStep::Sent { now_ns } => prober.sent(now_ns),
        ProberStep::Datagram { source, packet, now_ns } => prober.received(source, packet, now_ns),
    }
}

/// The state after steps, in order.
pub open spec fn run(prober: ProberView, steps: Seq<ProberStep>) -> ProberView
    decreases steps.len(),
{
    if steps.len() == 0 {
        prober
    } else {
        stepped(run(prober, steps.drop_last()), steps.last())
    }
}

/// Whether a probe with the given time to live waits for a response.
pub open spec fn waits(prober: ProberView, ttl: u8) -> bool {
    exists|number: u16| #[trigger]
        prober.in_flight.contains_key(number) && prober.in_flight[number].0 == ttl
}

/// Whether a step says for the first time that the probe with the given time to
/// live went out.
pub open spec fn step_sends(prober: ProberView, step: ProberStep, ttl: u8) -> bool {
    &&& step is Sent
    &&& prober.phase is Sending
    &&& prober.last_ttl == ttl > 0
    &&& !prober.in_flight.contains_key(prober.sequence_number)
}

/// Whether a step reports a result of the probe with the given time to live: its
/// answer, or that it is lost.
pub open spec fn step_reports(prober: ProberView, step: ProberStep, ttl: u8) -> bool {
    match step {
        ProberStep::Poll { now_ns, should_exit, is_paused } => prober.polled(
            now_ns,
            should_exit,
            is_paused,
        ).1 is Report && waits(prober, ttl),
        ProberStep::Sent { .. } => false,
        ProberStep::Datagram { source, packet, now_ns } => source is Some && (prober.answered(
            packet,
            now_ns,
        ) matches Some(probe) && probe.ttl == ttl),
    }
}

/// How many probes with the given time to live steps record.
pub open spec fn probes_sent(prober: ProberView, steps: Seq<ProberStep>, ttl: u8) -> nat
    decreases steps.len(),
{
    if steps.len() == 0 {
        0
    } else {
        probes_sent(prober, steps.drop_last(), ttl) + if step_sends(
            run(prober, steps.drop_last()),
            steps.last(),
            ttl,
        ) {
            1nat
        } else {
            0nat
        }
    }
}

/// How many results for the given time to live steps report.
pub open spec fn results_reported(prober: ProberView, steps: Seq<ProberStep>, ttl: u8) -> nat
    decreases steps.len(),
{
    if steps.len() == 0 {
        0
    } else {
        results_reported(prober, steps.drop_last(), ttl) + if step_reports(
            run(prober, steps.drop_last()),
            steps.last(),
            ttl,
        ) {
            1nat
        } else {
            0nat
        }
    }
}

/// One if a probe with the given time to live waits for a response, else zero.
pub open spec fn waiting(prober: ProberView, ttl: u8) -> nat {
    if waits(prober, ttl) {
        1
    } else {
        0
    }
}

/// Probes in flight have different times to live, and the sequence number of the
/// next probe is not among theirs.
pub proof fn law_probes_are_told_apart(prober: ProberView, a: u16, b: u16)
    requires
        prober.inv(),
        prober.in_flight.contains_key(a),
    ensures
        prober.in_flight.contains_key(b) && prober.in_flight[a].0 == prober.in_flight[b].0 ==> a
            == b,
        prober.advanced().sequence_number != a,
{
}

/// Whatever happens, a prober's state stays valid, and the largest time to live
/// that it probes never grows.
pub proof fn law_range_only_shrinks(prober: ProberView, steps: Seq<ProberStep>)
    requires
        prober.inv(),
    ensures
        run(prober, steps).inv(),
        run(prober, steps).max_ttl <= prober.max_ttl,
    decreases steps.len(),
{
    if steps.len() > 0 {
        law_range_only_shrinks(prober, steps.drop_last());
        lemma_step_keeps_inv(run(prober, steps.drop_last()), steps.last());
    }
}

/// A step keeps the state valid and does not widen the range.
proof fn lemma_step_keeps_inv(prober: ProberView, step: ProberStep)
    requires
        prober.inv(),
    ensures
        stepped(prober, step).inv(),
        stepped(prober, step).max_ttl <= prober.max_ttl,
{
    let after = stepped(prober, step);
    match step {
        ProberStep::Poll { now_ns, should_exit, is_paused } => {
            let decision = prober.polled(now_ns, should_exit, is_paused);
            if !(decision.1 is Report) {
                assert(after.in_flight == prober.in_flight);
            }
        },
        ProberStep::Sent { now_ns } => {},
        ProberStep::Datagram { source, packet, now_ns } => {
            assert forall|number: u16| #[trigger] after.in_flight.contains_key(number) implies {
                &&& prober.in_flight.contains_key(number)
                &&& prober.in_flight[number] == after.in_flight[number]
            } by {}
        },
    }
}

/// Once the target answered a probe, no later probe has a larger time to live
/// than that one.
pub proof fn law_no_probe_beyond_target(
    prober: ProberView,
    source: Ipv4Address,
    packet: Seq<u8>,
    answered_ns: u64,
    steps: Seq<ProberStep>,
    now_ns: u64,
    should_exit: bool,
    is_paused: bool,
)
    requires
        prober.inv(),
        prober.answered(packet, answered_ns) matches Some(probe) && probe.reached_target,
    ensures
        ({
            let reached_ttl = prober.answered(packet, answered_ns)->0.ttl;
            let later = run(prober.received(Some(source), packet, answered_ns), steps);
            let (next, directive) = later.polled(now_ns, should_exit, is_paused);
            &&& later.max_ttl <= reached_ttl
            &&& directive is Send ==> next.last_ttl <= reached_ttl
        }),
{
    let answer = ProberStep::Datagram { source: Some(source), packet, now_ns: answered_ns };
    let after = stepped(prober, answer);
    lemma_step_keeps_inv(prober, answer);
    law_range_only_shrinks(after, steps);
    lemma_step_keeps_inv(
        run(after, steps),
        ProberStep::Poll { now_ns, should_exit, is_paused },
    );
}

/// Every probe that went out gets one result, its answer or its loss: at any
/// time, the results and the probes that still wait add up to the probes sent.
pub proof fn law_every_probe_gets_one_result(
    prober: ProberView,
    steps: Seq<ProberStep>,
    ttl: u8,
)
    requires
        prober.inv(),
    ensures
        waiting(prober, ttl) + probes_sent(prober, steps, ttl) == results_reported(
            prober,
            steps,
            ttl,
        ) + waiting(run(prober, steps), ttl),
    decreases steps.len(),
{
    if steps.len() > 0 {
        let earlier = steps.drop_last();
        law_every_probe_gets_one_result(prober, earlier, ttl);
        law_range_only_shrinks(prober, earlier);
        lemma_step_balances(run(prober, earlier), steps.last(), ttl);
    }
}

/// A step that sends makes a probe wait, and a step that reports ends a wait.
proof fn lemma_step_balances(prober: ProberView, step: ProberStep, ttl: u8)
    requires
        prober.inv(),
    ensures
        step_sends(prober, step, ttl) ==> !waits(prober, ttl) && waits(stepped(prober, step), ttl),
        step_reports(prober, step, ttl) ==> waits(prober, ttl) && !waits(
            stepped(prober, step),
            ttl,
        ),
        !step_sends(prober, step, ttl) && !step_reports(prober, step, ttl) ==> (waits(prober, ttl)
            <==> waits(stepped(prober, step), ttl)),
{
    let after = stepped(prober, step);
    match step {
        ProberStep::Poll { now_ns, should_exit, is_paused } => {
            let decision = prober.polled(now_ns, should_exit, is_paused);
            if decision.1 is Report {
                assert(after.in_flight =~= Map::empty());
            } else {
                assert(after.in_flight == prober.in_flight);
            }
        },
        ProberStep::Sent { now_ns } => {
            let latest = prober.sequence_number;
            if prober.phase is Sending && prober.last_ttl > 0 {
                assert(after.in_flight.contains_key(latest) && after.in_flight[latest].0
                    == prober.last_ttl);
                assert forall|number: u16| number != latest implies (after.in_flight.contains_key(
                    number,
                ) <==> #[trigger] prober.in_flight.contains_key(number)) by {}
                assert(prober.in_flight.contains_key(latest) ==> prober.in_flight[latest].0
                    == prober.last_ttl);
                if waits(prober, ttl) {
                    let number = choose|number: u16| #[trigger]
                        prober.in_flight.contains_key(number) && prober.in_flight[number].0 == ttl;
                    assert(after.in_flight.contains_key(number));
                }
            }
        },
        ProberStep::Datagram { source, packet, now_ns } => {
            if let Some(probe) = prober.answered(packet, now_ns) {
                if source is Some {
                    let gone = probe.sequence_number;
                    assert(prober.in_flight.contains_key(gone));
                    if waits(prober, ttl) && ttl != probe.ttl {
                        let number = choose|number: u16| #[trigger]
                            prober.in_flight.contains_key(number) && prober.in_flight[number].0
                                == ttl;
                        assert(after.in_flight.contains_key(number));
                    }
                    if waits(after, ttl) {
                        let number = choose|number: u16| #[trigger]
                            after.in_flight.contains_key(number) && after.in_flight[number].0
                                == ttl;
                        assert(prober.in_flight.contains_key(number));
                        law_probes_are_told_apart(prober, gone, number);
                    }
                }
            }
        },
    }
}

/// A pause holds before the next round: no probe starts one.
pub proof fn law_pause_starts_no_round(prober: ProberView, now_ns: u64, should_exit: bool)
    requires
        prober.at_rest(now_ns),
    ensures
        prober.polled(now_ns, should_exit, true).1 is Stop || prober.polled(
            now_ns,
            should_exit,
            true,
        ).1 is Sleep,
        prober.polled(now_ns, should_exit, true).0.at_rest(now_ns),
{
}

/// Once the driver is to exit, nothing is sent or received any more, and the
/// third poll at the latest says to stop; a prober at rest stops at once.
pub proof fn law_exit_is_prompt(
    prober: ProberView,
    first_ns: u64,
    second_ns: u64,
    third_ns: u64,
    is_paused: bool,
)
    ensures
        ({
            let one = prober.polled(first_ns, true, is_paused);
            let two = one.0.polled(second_ns, true, is_paused);
            let three = two.0.polled(third_ns, true, is_paused);
            &&& !(one.1 is Send) && !(one.1 is Receive)
            &&& !(two.1 is Send) && !(two.1 is Receive)
            &&& three.1 is Stop
            &&& prober.at_rest(first_ns) ==> one.1 is Stop
        }),
{
}

/// While responses are gathered, an echo reply to a probe in flight is taken as
/// the answer of that probe, from the target.
pub proof fn law_echo_reply_answers_its_probe(
    prober: ProberView,
    header: Seq<u8>,
    reply: Seq<u8>,
    number: u16,
    now_ns: u64,
)
    requires
        prober.phase is Gathering,
        prober.in_flight.contains_key(number),
        is_ip_header(header),
        reply.len() >= 8,
        reply[0] == 0,
        reply[1] == 0,
        reply.subrange(4, 8) == echo_request(number, prober.process_identifier).subrange(4, 8),
    ensures
        prober.answered(header + reply, now_ns) matches Some(probe) && probe.sequence_number
            == number && probe.ttl == prober.in_flight[number].0 && probe.reached_target,
{
    law_echo_reply_is_matched(header, reply, number, prober.process_identifier);
}

/// While responses are gathered, a time-exceeded message that quotes a probe in
/// flight is taken as the answer of that probe, from a router on the way.
pub proof fn law_time_exceeded_answers_its_probe(
    prober: ProberView,
    header: Seq<u8>,
    notice: Seq<u8>,
    quoted_header: Seq<u8>,
    rest: Seq<u8>,
    number: u16,
    now_ns: u64,
)
    requires
        prober.phase is Gathering,
        prober.in_flight.contains_key(number),
        is_ip_header(header),
        notice.len() == 8,
        notice[0] == 11,
        notice[1] == 0,
        is_ip_header(quoted_header),
        quoted_header[9] == 1,
    ensures
        prober.answered(
            header + notice + quoted_header + echo_request(number, prober.process_identifier) + rest,
            now_ns,
        ) matches Some(probe) && probe.sequence_number == number && probe.ttl
            == prober.in_flight[number].0 && !probe.reached_target,
{
    law_time_exceeded_is_matched(
        header,
        notice,
        quoted_header,
        rest,
        number,
        prober.process_identifier,
    );
}

/// A report of lost probes names each time to live that waits for a response
/// once, and nothing else.
pub proof fn law_lost_probes_are_named_once(prober: ProberView, events: Seq<NetworkEvent>)
    requires
        prober.inv(),
        reports_lost(events, prober.in_flight),
    ensures
        events.no_duplicates(),
        forall|event: NetworkEvent| #[trigger]
            events.contains(event) <==> exists|ttl: u8| #[trigger]
                waits(prober, ttl) && event == (NetworkEvent::EchoProbeResult {
                    ttl,
                    latency_ms: None,
                    reached_target: false,
                }),
{
    let probes = prober.in_flight;
    let order = choose|order: Seq<u16>| #[trigger] reports_lost_in_order(events, probes, order);
    assert forall|i: int| 0 <= i < order.len() implies probes.contains_key(#[trigger] order[i]) by {
        assert(order.to_set().contains(order[i]));
    }
    assert forall|i: int, j: int|
        0 <= i < events.len() && 0 <= j < events.len() && i != j implies events[i] != events[j] by {
        assert(order[i] != order[j]);
        law_probes_are_told_apart(prober, order[i], order[j]);
    }
    assert forall|event: NetworkEvent| #[trigger] events.contains(event) <==> (exists|ttl: u8|
        #[trigger]
        waits(prober, ttl) && event == (NetworkEvent::EchoProbeResult { ttl, latency_ms: None, reached_target: false })) by {
        if events.contains(event) {
            let i = events.index_of(event);
            assert(probes.contains_key(order[i]));
            assert(waits(prober, probes[order[i]].0));
        }
        if exists|ttl: u8| #[trigger] waits(prober, ttl) && event == (NetworkEvent::EchoProbeResult { ttl, latency_ms: None, reached_target: false }) {
            let ttl = choose|ttl: u8| #[trigger] waits(prober, ttl) && event == (NetworkEvent::EchoProbeResult { ttl, latency_ms: None, reached_target: false });
            let number = choose|number: u16| #[trigger]
                probes.contains_key(number) && probes[number].0 == ttl;
            assert(order.to_set().contains(number));
            let i = order.index_of(number);
            assert(events[i] == event);
        }
    }
}

/// Whether a step does not tell the prober to exit.
pub open spec fn goes_on(step: ProberStep) -> bool {
    step matches ProberStep::Poll { should_exit, .. } ==> !should_exit
}

/// How many of the steps are polls.
pub open spec fn polls_in(steps: Seq<ProberStep>) -> nat
    decreases steps.len(),
{
    if steps.len() == 0 {
        0
    } else {
        polls_in(steps.drop_last()) + if steps.last() is Poll {
            1nat
        } else {
            0nat
        }
    }
}

/// A round that has begun sends a probe for every time to live from one to the
/// largest, in order, with consecutive sequence numbers, and no more: every poll
/// hands out one probe until all are out. Neither a pause nor a packet in the
/// middle of the round changes that.
#[verifier::spinoff_prover]
#[verifier::rlimit(60)]
pub proof fn law_round_covers_every_hop(prober: ProberView, steps: Seq<ProberStep>)
    requires
        prober.inv(),
        steps.len() > 0,
        steps[0] matches ProberStep::Poll { now_ns, is_paused, .. } && !is_paused
            && prober.at_rest(now_ns),
        forall|i: int| 0 <= i < steps.len() ==> goes_on(#[trigger] steps[i]),
        polls_in(steps) <= prober.max_ttl,
    ensures
        run(prober, steps).phase is Sending,
        run(prober, steps).last_ttl == polls_in(steps),
        run(prober, steps).sequence_number == (prober.sequence_number + polls_in(steps)) % 0x1_0000,
        run(prober, steps).round_start_ns == steps[0]->Poll_now_ns,
        run(prober, steps).max_ttl == prober.max_ttl,
        polls_in(steps) >= 1,
        run(prober, steps).inv(),
        steps.last() matches ProberStep::Poll { now_ns, should_exit, is_paused } ==> run(
            prober,
            steps.drop_last(),
        ).polled(now_ns, should_exit, is_paused).1 is Send,
        polls_in(steps) == prober.max_ttl ==> forall|
            now_ns: u64,
            should_exit: bool,
            is_paused: bool,
        | !(#[trigger] run(prober, steps).polled(now_ns, should_exit, is_paused).1 is Send),
    decreases steps.len(),
{
    let earlier = steps.drop_last();
    let before = run(prober, earlier);
    let polls = polls_in(earlier);
    assert(steps[steps.len() - 1] == steps.last());
    assert(run(prober, steps) == stepped(before, steps.last()));
    if earlier.len() > 0 {
        assert forall|i: int| 0 <= i < earlier.len() implies goes_on(#[trigger] earlier[i]) by {
            assert(earlier[i] == steps[i]);
        }
        law_round_covers_every_hop(prober, earlier);
        assert(((prober.sequence_number + polls) % 0x1_0000 + 1) % 0x1_0000 == (
        prober.sequence_number + polls + 1) % 0x1_0000);
    } else {
        assert(before == prober && polls == 0);
    }
    lemma_round_goes_on(before, steps.last());
}

/// A step in a round, or the poll that begins one, hands out the next probe if it
/// is a poll, and otherwise leaves the round where it is; no probe is handed out
/// beyond the largest time to live.
proof fn lemma_round_goes_on(prober: ProberView, step: ProberStep)
    requires
        prober.inv(),
        goes_on(step),
        prober.phase is Sending || (step matches ProberStep::Poll { now_ns, is_paused, .. }
            && !is_paused && prober.at_rest(now_ns)),
        step is Poll && prober.phase is Sending ==> prober.last_ttl < prober.max_ttl,
    ensures
        ({
            let after = stepped(prober, step);
            let begins = !(prober.phase is Sending);
            &&& after.inv()
            &&& after.phase is Sending
            &&& after.max_ttl == prober.max_ttl
            &&& step matches ProberStep::Poll { now_ns, should_exit, is_paused } ==> {
                &&& after.last_ttl == if begins {
                    1
                } else {
                    prober.last_ttl + 1
                }
                &&& after.sequence_number == (prober.sequence_number + 1) % 0x1_0000
                &&& after.round_start_ns == if begins {
                    now_ns
                } else {
                    prober.round_start_ns
                }
                &&& prober.polled(now_ns, should_exit, is_paused).1 is Send
            }
            &&& !(step is Poll) ==> {
                &&& after.last_ttl == prober.last_ttl
                &&& after.sequence_number == prober.sequence_number
                &&& after.round_start_ns == prober.round_start_ns
            }
            &&& after.last_ttl == after.max_ttl ==> forall|
                now_ns: u64,
                should_exit: bool,
                is_paused: bool,
            | !(#[trigger] after.polled(now_ns, should_exit, is_paused).1 is Send)
        }),
{
    lemma_step_keeps_inv(prober, step);
}

/// A prober starts between two rounds, with the low 16 bits of its process number,
/// all thirty hops ahead of it and nothing in flight.
pub proof fn law_prober_starts_with_all_hops(process_id: u32)
    ensures
        ({
            let prober = ProberView::started(process_id);
            &&& prober.process_identifier == process_id % 0x1_0000
            &&& prober.max_ttl == 30
            &&& prober.sequence_number == 0
            &&& prober.phase is Idle
            &&& forall|number: u16| !#[trigger] prober.in_flight.contains_key(number)
        }),
{
}

/// A poll follows the clock. A round waits for responses until 800 milliseconds
/// after its start, and what is left of its second is slept; a pause is looked at
/// again after 100 milliseconds. What is left to send comes first, the next time to
/// live with the next sequence number; when told to exit, no wait and no probe is
/// left. Time that seems to run backwards counts as none.
pub proof fn law_poll_follows_the_clock(
    prober: ProberView,
    now_ns: u64,
    should_exit: bool,
    is_paused: bool,
)
    requires
        prober.inv(),
    ensures
        ({
            let (next, directive) = prober.polled(now_ns, should_exit, is_paused);
            let elapsed = if now_ns < prober.round_start_ns {
                0
            } else {
                now_ns - prober.round_start_ns
            };
            let rests = prober.phase is Idle || (prober.phase is Settling && elapsed
                >= 1_000_000_000);
            let sends = prober.phase is Sending && prober.last_ttl < prober.max_ttl
                && !should_exit;
            let awaits = (prober.phase is Gathering || (prober.phase is Sending && prober.last_ttl
                == prober.max_ttl)) && !should_exit && elapsed < 800_000_000;
            &&& directive is Stop <==> rests && should_exit
            &&& directive is Send <==> sends || (rests && !should_exit && !is_paused)
            &&& directive is Receive <==> awaits
            &&& directive is Report <==> !(prober.phase is Idle) && !(prober.phase is Settling)
                && !sends && !awaits
            &&& directive matches Directive::Sleep(time) ==> time == if rests {
                100_000_000
            } else {
                1_000_000_000 - elapsed
            }
            &&& directive is Stop || directive is Sleep ==> next == ProberView {
                phase: ProberPhase::Idle,
                ..prober
            }
            &&& directive is Send ==> next == ProberView {
                phase: ProberPhase::Sending,
                round_start_ns: if rests {
                    now_ns
                } else {
                    prober.round_start_ns
                },
                last_ttl: if rests {
                    1
                } else {
                    (prober.last_ttl + 1) as u8
                },
                sequence_number: ((prober.sequence_number + 1) % 0x1_0000) as u16,
                ..prober
            }
            &&& directive is Receive ==> next == ProberView {
                phase: ProberPhase::Gathering,
                ..prober
            }
            &&& directive is Report ==> next == ProberView {
                phase: ProberPhase::Settling,
                in_flight: Map::empty(),
                ..prober
            }
        }),
{
}

/// Whether a packet carries an echo reply: the type and the code behind its header
/// are zero.
pub open spec fn carries_echo_reply(packet: Seq<u8>) -> bool {
    let start = 4 * (packet[0] % 16);
    start >= 20 && packet.len() >= start + 8 && packet[start] == 0 && packet[start + 1] == 0
}

/// What a packet is taken to answer is a probe in flight, with the identifier of
/// this process and the sequence number that the packet carries, where an echo
/// reply carries them in itself and a time-exceeded message in the packet that it
/// quotes. The target was reached exactly if the packet is an echo reply. Nothing
/// is answered while no responses are gathered.
pub proof fn law_answer_is_taken_from_the_packet(prober: ProberView, packet: Seq<u8>, now_ns: u64)
    ensures
        ({
            let start = 4 * (packet[0] % 16);
            let fields = if carries_echo_reply(packet) {
                start
            } else {
                start + 8 + 4 * (packet[start + 8] % 16)
            };
            let is_notice = start >= 20 && packet.len() >= start + 28 && packet[start] == 11
                && packet[start + 1] == 0 && packet[start + 17] == 1 && fields >= start + 28
                && packet.len() >= fields + 8;
            let number = (packet[fields + 6] * 256 + packet[fields + 7]) as u16;
            &&& prober.answered(packet, now_ns) is Some <==> prober.phase is Gathering && (
            carries_echo_reply(packet) || is_notice) && packet[fields + 4] * 256 + packet[fields
                + 5] == prober.process_identifier && prober.in_flight.contains_key(number)
            &&& prober.answered(packet, now_ns) matches Some(probe) ==> {
                &&& probe.sequence_number == number
                &&& probe.ttl == prober.in_flight[number].0
                &&& probe.reached_target <==> carries_echo_reply(packet)
            }
        }),
{
    law_echo_reply_is_read_from_its_place(packet);
    law_time_exceeded_is_read_from_its_place(packet);
}

/// A packet that answers a probe takes that probe out of flight and no other, and
/// one that does not changes nothing. Only an echo reply ends the wait.
pub proof fn law_answer_ends_one_flight(
    prober: ProberView,
    source: Option<Ipv4Address>,
    packet: Seq<u8>,
    now_ns: u64,
)
    ensures
        ({
            let after = prober.received(source, packet, now_ns);
            &&& source is None || prober.answered(packet, now_ns) is None ==> after == prober
            &&& prober.answered(packet, now_ns) matches Some(probe) ==> (source is Some ==> {
                &&& forall|number: u16| #[trigger]
                    after.in_flight.contains_key(number) <==> prober.in_flight.contains_key(number)
                        && number != probe.sequence_number
                &&& forall|number: u16| #[trigger]
                    after.in_flight.contains_key(number) ==> after.in_flight[number]
                        == prober.in_flight[number]
                &&& carries_echo_reply(packet) ==> after.phase is Draining
                &&& !carries_echo_reply(packet) ==> after.phase == prober.phase
                &&& after == ProberView {
                    in_flight: after.in_flight,
                    phase: after.phase,
                    max_ttl: after.max_ttl,
                    ..prober
                }
            })
        }),
{
    law_answer_is_taken_from_the_packet(prober, packet, now_ns);
}

/// An answer is reported as two events of the hop: who gave it, and the result
/// with its latency and whether the target was reached.
pub proof fn law_answer_is_reported_for_its_hop(
    probe: AnsweredProbe,
    source: Ipv4Address,
    latency: Double,
)
    ensures
        ({
            let events = probe.reported(source, latency);
            &&& events.len() == 2
            &&& events[0] matches NetworkEvent::RouteHopDiscovered { ttl, ip_address } && ttl
                == probe.ttl && ip_address == source
            &&& events[1] matches NetworkEvent::EchoProbeResult {
                ttl,
                latency_ms,
                reached_target,
            } && ttl == probe.ttl && latency_ms == Some(latency) && reached_target
                == probe.reached_target
        }),
{
}

/// Telling that the latest probe of a round went out puts it in flight, with its
/// time to live and the moment, and leaves the others as they are.
pub proof fn law_sent_probe_is_in_flight(prober: ProberView, now_ns: u64)
    ensures
        ({
            let after = prober.sent(now_ns);
            &&& !(prober.phase is Sending) || prober.last_ttl == 0 ==> after == prober
            &&& prober.phase is Sending && prober.last_ttl > 0 ==> after == ProberView {
                in_flight: prober.in_flight.insert(
                    prober.sequence_number,
                    (prober.last_ttl, now_ns),
                ),
                ..prober
            }
        }),
{
}

/// Whether no step tells again that the probe with the given number went out.
pub open spec fn is_not_told_again(
    prober: ProberView,
    steps: Seq<ProberStep>,
    number: u16,
) -> bool
    decreases steps.len(),
{
    steps.len() > 0 ==> {
        &&& is_not_told_again(prober, steps.drop_last(), number)
        &&& steps.last() is Sent ==> run(prober, steps.drop_last()).sequence_number != number
    }
}

/// The latency of a probe is the time from when it went out to when its answer
/// came, whatever happens in between; and the answer counts for the hop that the
/// probe was sent to.
pub proof fn law_latency_is_the_time_in_flight(
    prober: ProberView,
    sent_ns: u64,
    steps: Seq<ProberStep>,
    packet: Seq<u8>,
    answered_ns: u64,
)
    requires
        prober.phase is Sending,
        prober.last_ttl > 0,
        is_not_told_again(prober.sent(sent_ns), steps, prober.sequence_number),
        sent_ns <= answered_ns,
    ensures
        run(prober.sent(sent_ns), steps).answered(packet, answered_ns) matches Some(probe) ==> (
        probe.sequence_number == prober.sequence_number ==> {
            &&& probe.elapsed_ns == answered_ns - sent_ns
            &&& probe.ttl == prober.last_ttl
        }),
{
    lemma_flight_is_kept(prober.sent(sent_ns), steps, prober.sequence_number);
}

/// As long as nothing tells of a probe again, it stays in flight as it is, or
/// leaves.
proof fn lemma_flight_is_kept(prober: ProberView, steps: Seq<ProberStep>, number: u16)
    requires
        prober.in_flight.contains_key(number),
        is_not_told_again(prober, steps, number),
    ensures
        run(prober, steps).in_flight.contains_key(number) ==> run(prober, steps).in_flight[number]
            == prober.in_flight[number],
    decreases steps.len(),
{
    if steps.len() > 0 {
        let earlier = steps.drop_last();
        lemma_flight_is_kept(prober, earlier, number);
        let before = run(prober, earlier);
        let after = run(prober, steps);
        match steps.last() {
            ProberStep::Poll { now_ns, should_exit, is_paused } => {
                assert(after.in_flight == before.in_flight || after.in_flight == Map::<
                    u16,
                    (u8, u64),
                >::empty());
            },
            ProberStep::Sent { now_ns } => {},
            ProberStep::Datagram { source, packet, now_ns } => {},
        }
    }
}

/// An answer that comes before its probe went out, as a clock that runs backwards
/// may show, took no time.
pub proof fn law_latency_is_never_negative(
    prober: ProberView,
    packet: Seq<u8>,
    now_ns: u64,
)
    ensures
        prober.answered(packet, now_ns) matches Some(probe) ==> {
            let sent_ns = prober.in_flight[probe.sequence_number].1;
            probe.elapsed_ns == if sent_ns <= now_ns {
                now_ns - sent_ns
            } else {
                0
            }
        },
{
}

/// Whether a step brings an echo reply that answers the probe with the given time
/// to live.
pub open spec fn step_reaches(prober: ProberView, step: ProberStep, ttl: u8) -> bool {
    step matches ProberStep::Datagram { source, packet, now_ns } && source is Some
        && carries_echo_reply(packet) && (prober.answered(packet, now_ns) matches Some(probe)
        && probe.ttl == ttl)
}

/// Whether one of the steps brings an echo reply that answers a probe with the
/// given time to live.
pub open spec fn steps_reach(prober: ProberView, steps: Seq<ProberStep>, ttl: u8) -> bool
    decreases steps.len(),
{
    steps.len() > 0 && (steps_reach(prober, steps.drop_last(), ttl) || step_reaches(
        run(prober, steps.drop_last()),
        steps.last(),
        ttl,
    ))
}

/// The largest time to live that is probed is the least of the one at the start
/// and those whose probes an echo reply answered since. Nothing else lowers it, an
/// answer from a router on the way least of all, and nothing raises it.
pub proof fn law_only_echo_replies_shorten_the_route(prober: ProberView, steps: Seq<ProberStep>)
    ensures
        run(prober, steps).max_ttl <= prober.max_ttl,
        forall|ttl: u8| #[trigger]
            steps_reach(prober, steps, ttl) ==> run(prober, steps).max_ttl <= ttl,
        run(prober, steps).max_ttl == prober.max_ttl || steps_reach(
            prober,
            steps,
            run(prober, steps).max_ttl,
        ),
    decreases steps.len(),
{
    if steps.len() > 0 {
        let earlier = steps.drop_last();
        law_only_echo_replies_shorten_the_route(prober, earlier);
        let before = run(prober, earlier);
        if let ProberStep::Datagram { source, packet, now_ns } = steps.last() {
            law_answer_is_taken_from_the_packet(before, packet, now_ns);
        }
        assert forall|ttl: u8| #[trigger] steps_reach(prober, steps, ttl) implies run(
            prober,
            steps,
        ).max_ttl <= ttl by {
            assert(steps_reach(prober, earlier, ttl) || step_reaches(before, steps.last(), ttl));
        }
        assert(steps_reach(prober, earlier, before.max_ttl) ==> steps_reach(
            prober,
            steps,
            before.max_ttl,
        ));
    }
}

/// Nothing that happens changes the identifier of a prober.
pub proof fn law_identifier_stays(prober: ProberView, steps: Seq<ProberStep>)
    ensures
        run(prober, steps).process_identifier == prober.process_identifier,
    decreases steps.len(),
{
    if steps.len() > 0 {
        law_identifier_stays(prober, steps.drop_last());
    }
}

/// A poll that sends hands out an echo request with the time to live that it moved
/// on to, which carries the identifier of the prober and the new sequence number.
/// A poll that sleeps, receives, stops or reports says so; a report names each
/// time to live that waits for a response once, as lost, and nothing else.
pub proof fn law_action_does_what_the_poll_decides(
    prober: ProberView,
    now_ns: u64,
    should_exit: bool,
    is_paused: bool,
    action: ProberAction,
)
    requires
        prober.inv(),
        carries_out(
            action,
            prober.polled(now_ns, should_exit, is_paused).1,
            prober,
            prober.polled(now_ns, should_exit, is_paused).0,
        ),
    ensures
        ({
            let (next, directive) = prober.polled(now_ns, should_exit, is_paused);
            &&& action is Send <==> directive is Send
            &&& action is Stop <==> directive is Stop
            &&& action is Sleep <==> directive is Sleep
            &&& action is Receive <==> directive is Receive
            &&& action is Report <==> directive is Report
            &&& action matches ProberAction::Sleep { ns } ==> directive == Directive::Sleep(
                ns as int,
            )
            &&& action matches ProberAction::Send { ttl, packet } ==> {
                &&& ttl == next.last_ttl
                &&& packet@.len() == 8 && packet@[0] == 8 && packet@[1] == 0
                &&& packet@[4] * 256 + packet@[5] == prober.process_identifier
                &&& packet@[6] * 256 + packet@[7] == (prober.sequence_number + 1) % 0x1_0000
            }
            &&& action matches ProberAction::Report { events } ==> {
                &&& events@.no_duplicates()
                &&& forall|event: NetworkEvent| #[trigger]
                    events@.contains(event) <==> exists|ttl: u8| #[trigger]
                        waits(prober, ttl) && event == (NetworkEvent::EchoProbeResult {
                            ttl,
                            latency_ms: None,
                            reached_target: false,
                        })
            }
        }),
{
    let (next, directive) = prober.polled(now_ns, should_exit, is_paused);
    law_poll_follows_the_clock(prober, now_ns, should_exit, is_paused);
    law_request_carries_its_fields(next.sequence_number, next.process_identifier);
    if let ProberAction::Report { events } = action {
        law_lost_probes_are_named_once(prober, events@);
    }
}

/// A packet that answers a probe tells who sent it and the result of the probe:
/// the time since it went out, as `to_ms` converts it, and whether the packet is an
/// echo reply. A packet without a source, or one that answers none, tells nothing.
pub proof fn law_packet_tells_of_its_probe<F: Fn(u64) -> Double>(
    prober: ProberView,
    source: Option<Ipv4Address>,
    packet: Seq<u8>,
    now_ns: u64,
    to_ms: F,
    events: Seq<NetworkEvent>,
)
    requires
        tells(prober, source, packet, now_ns, to_ms, events),
    ensures
        source is None || prober.answered(packet, now_ns) is None ==> events.len() == 0,
        prober.answered(packet, now_ns) matches Some(probe) ==> (source matches Some(sender) ==> {
            let (hop, sent_ns) = prober.in_flight[probe.sequence_number];
            &&& events.len() == 2
            &&& events[0] == (NetworkEvent::RouteHopDiscovered { ttl: hop, ip_address: sender })
            &&& events[1] matches NetworkEvent::EchoProbeResult {
                ttl,
                latency_ms,
                reached_target,
            } && ttl == hop && reached_target == carries_echo_reply(packet) && (
            latency_ms matches Some(latency) && (sent_ns <= now_ns ==> call_ensures(
                to_ms,
                ((now_ns - sent_ns) as u64,),
                latency,
            )))
        }),
{
    law_answer_is_taken_from_the_packet(prober, packet, now_ns);
    law_latency_is_never_negative(prober, packet, now_ns);
    if prober.answered(packet, now_ns) is Some && source is Some {
        let probe = prober.answered(packet, now_ns)->0;
        let latency = choose|latency: Double| #[trigger]
            call_ensures(to_ms, (probe.elapsed_ns,), latency) && events == probe.reported(
                source->0,
                latency,
            );
        law_answer_is_reported_for_its_hop(probe, source->0, latency);
    }
}

} // verus!
