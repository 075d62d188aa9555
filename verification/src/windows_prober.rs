use vstd::prelude::*;

use crate::address::Ipv4Address;
use crate::double::Double;
use crate::event::NetworkEvent;
use crate::prober::{lost_probe, time_between, MAXIMUM_ROUTE_HOPS, PAUSE_NS, ROUND_NS};

verus! {

/// How long a worker waits for a reply, in milliseconds.
pub const PROBE_TIMEOUT_MS: u32 = 800;

/// How often a resting prober looks whether it is to go on, in nanoseconds.
pub const REST_STEP_NS: u64 = 50_000_000;

/// The status of a reply from the destination.
pub const IP_SUCCESS_STATUS: u32 = 0;

/// The status of a reply from a router that dropped the probe.
pub const IP_TTL_EXPIRED_TRANSIT_STATUS: u32 = 11013;

/// What a worker is to probe.
#[derive(Clone, Copy, Debug, PartialEq, Eq, Structural)]
pub struct WindowsProbeTask {
    pub ttl: u8,
    pub target_ipv4: Ipv4Address,
    pub probe_timeout_ms: u32,
}

/// What the system says of an echo that was answered.
#[derive(Clone, Copy, Debug, PartialEq, Eq, Structural)]
pub struct WindowsEchoReply {
    pub address: Ipv4Address,
    pub latency_ms: Double,
    pub status_code: u32,
}

/// How a task of a worker ended.
#[derive(Clone, Copy, Debug, PartialEq, Eq, Structural)]
pub enum WindowsProbeOutcome {
    /// The system gave no handle to probe with.
    NoHandle,
    /// No reply came in time.
    NoReply,
    /// A reply came.
    Reply { reply: WindowsEchoReply },
}

/// What a worker passes on.
#[derive(Debug)]
pub struct WindowsProbeReport {
    pub events: Vec<NetworkEvent>,
    /// The time to live beyond which probing is in vain, if the task shows one.
    pub reached_ttl: Option<u8>,
}

/// Where a prober stands in its round.
#[derive(Clone, Copy, Debug, PartialEq, Eq, Structural)]
pub enum WindowsPhase {
    /// Between two rounds.
    Idle,
    /// Handing out tasks up to a limit; the latest one is given.
    Sending { last_ttl: u8, limit: u8 },
    /// Waiting for the next round.
    Resting { since_ns: u64 },
}

/// What a prober asks its driver to do.
#[derive(Clone, Copy, Debug, PartialEq, Eq, Structural)]
pub enum WindowsAction {
    /// End probing.
    Stop,
    /// Wait before the next poll.
    Sleep { ns: u64 },
    /// Hand a task to a worker.
    Dispatch { worker: usize, task: WindowsProbeTask },
}

impl WindowsEchoReply {
    /// Whether the reply answers the probe, from the destination or on the way.
    pub open spec fn answers(self) -> bool {
        self.status_code == IP_SUCCESS_STATUS || self.status_code == IP_TTL_EXPIRED_TRANSIT_STATUS
    }

    /// Whether the reply comes from the given target.
    pub open spec fn comes_from(self, target: Ipv4Address) -> bool {
        self.status_code == IP_SUCCESS_STATUS && self.address == target
    }
}

/// The events of a task: who replied, if the reply names someone, and the
/// result. A task without a handle gives none.
pub open spec fn task_events(task: WindowsProbeTask, outcome: WindowsProbeOutcome) -> Seq<
    NetworkEvent,
> {
    match outcome {
        WindowsProbeOutcome::NoHandle => Seq::empty(),
        WindowsProbeOutcome::NoReply => seq![lost_probe(task.ttl)],
        WindowsProbeOutcome::Reply { reply } => {
            let result = if reply.answers() {
                NetworkEvent::EchoProbeResult {
                    ttl: task.ttl,
                    latency_ms: Some(reply.latency_ms),
                    reached_target: reply.comes_from(task.target_ipv4),
                }
            } else {
                lost_probe(task.ttl)
            };
            if reply.address.bits != 0 {
                seq![
                    NetworkEvent::RouteHopDiscovered { ttl: task.ttl, ip_address: reply.address },
                    result,
                ]
            } else {
                seq![result]
            }
        },
    }
}

/// The time to live beyond which probing is in vain, if the end of a task shows
/// one.
pub open spec fn task_reaches(task: WindowsProbeTask, outcome: WindowsProbeOutcome) -> Option<u8> {
    match outcome {
        WindowsProbeOutcome::Reply { reply } if reply.comes_from(task.target_ipv4) => Some(task.ttl),
        _ => None,
    }
}

/// The task for a time to live, which goes to the worker of that hop.
pub open spec fn dispatch_of(target: Ipv4Address, ttl: u8) -> WindowsAction {
    WindowsAction::Dispatch {
        worker: (ttl - 1) as usize,
        task: WindowsProbeTask {
            ttl,
            target_ipv4: target,
            probe_timeout_ms: PROBE_TIMEOUT_MS,
        },
    }
}

/// What a poll does between rounds: a stop or a pause holds, and otherwise the
/// first task of a round goes out.
pub open spec fn idle_poll(
    target: Ipv4Address,
    should_exit: bool,
    is_paused: bool,
    limit: u8,
) -> (WindowsPhase, WindowsAction) {
    if should_exit {
        (WindowsPhase::Idle, WindowsAction::Stop)
    } else if is_paused {
        (WindowsPhase::Idle, WindowsAction::Sleep { ns: PAUSE_NS })
    } else {
        (WindowsPhase::Sending { last_ttl: 1, limit }, dispatch_of(target, 1))
    }
}

/// What a poll does while the prober rests: unless it is to stop or to pause,
/// it rests until the time of a round is over.
pub open spec fn resting_poll(
    target: Ipv4Address,
    since_ns: u64,
    now_ns: u64,
    should_exit: bool,
    is_paused: bool,
    limit: u8,
) -> (WindowsPhase, WindowsAction) {
    if time_between(since_ns, now_ns) < ROUND_NS && !should_exit && !is_paused {
        (WindowsPhase::Resting { since_ns }, WindowsAction::Sleep { ns: REST_STEP_NS })
    } else {
        idle_poll(target, should_exit, is_paused, limit)
    }
}

/// What a poll does.
pub open spec fn windows_poll(
    target: Ipv4Address,
    phase: WindowsPhase,
    now_ns: u64,
    should_exit: bool,
    is_paused: bool,
    limit: u8,
) -> (WindowsPhase, WindowsAction) {
    match phase {
        WindowsPhase::Idle => idle_poll(target, should_exit, is_paused, limit),
        WindowsPhase::Resting { since_ns } => resting_poll(
            target,
            since_ns,
            now_ns,
            should_exit,
            is_paused,
            limit,
        ),
        WindowsPhase::Sending { last_ttl, limit: round_limit } => if last_ttl < round_limit
            && !should_exit {
            (
                WindowsPhase::Sending { last_ttl: (last_ttl + 1) as u8, limit: round_limit },
                dispatch_of(target, (last_ttl + 1) as u8),
            )
        } else {
            resting_poll(target, now_ns, now_ns, should_exit, is_paused, limit)
        },
    }
}

/// Whether a round keeps to the longest route.
pub open spec fn windows_phase_inv(phase: WindowsPhase) -> bool {
    phase matches WindowsPhase::Sending { last_ttl, limit } ==> last_ttl <= limit
        <= MAXIMUM_ROUTE_HOPS
}

/// Makes the task for a time to live.
fn dispatch(target: Ipv4Address, ttl: u8) -> (action: WindowsAction)
    requires
        ttl >= 1,
    ensures
        action == dispatch_of(target, ttl),
{
    WindowsAction::Dispatch {
        worker: (ttl - 1) as usize,
        task: WindowsProbeTask {
            ttl,
            target_ipv4: target,
            probe_timeout_ms: PROBE_TIMEOUT_MS,
        },
    }
}

/// The engine that probes the route through the system's echo service, with one
/// worker for each hop.
pub struct WindowsProber {
    target_ipv4: Ipv4Address,
    phase: WindowsPhase,
}

impl WindowsProber {
    /// The address that is probed.
    pub closed spec fn target(&self) -> Ipv4Address {
        self.target_ipv4
    }

    /// Where the prober stands.
    pub closed spec fn phase(&self) -> WindowsPhase {
        self.phase
    }

    /// Starts between two rounds.
    pub fn new(target_ipv4: Ipv4Address) -> (prober: WindowsProber)
        ensures
            prober.target() == target_ipv4,
            prober.phase() == WindowsPhase::Idle,
            windows_phase_inv(prober.phase()),
    {
        WindowsProber { target_ipv4, phase: WindowsPhase::Idle }
    }

    /// Says what to do next; `limit` is the largest time to live that is worth
    /// probing, as far as the workers know.
    pub fn poll(&mut self, now_ns: u64, should_exit: bool, is_paused: bool, limit: u8) -> (action:
        WindowsAction)
        requires
            windows_phase_inv(old(self).phase()),
            1 <= limit <= MAXIMUM_ROUTE_HOPS,
        ensures
            windows_phase_inv(final(self).phase()),
            final(self).target() == old(self).target(),
            (final(self).phase(), action) == windows_poll(
                old(self).target(),
                old(self).phase(),
                now_ns,
                should_exit,
                is_paused,
                limit,
            ),
            action matches WindowsAction::Dispatch { worker, task } ==> {
                &&& worker == task.ttl - 1
                &&& worker < MAXIMUM_ROUTE_HOPS
                &&& task.target_ipv4 == old(self).target()
                &&& task.probe_timeout_ms == PROBE_TIMEOUT_MS
            },
    {
        if let WindowsPhase::Sending { last_ttl, limit: round_limit } = self.phase {
            if last_ttl < round_limit && !should_exit {
                let ttl: u8 = last_ttl + 1;
                self.phase = WindowsPhase::Sending { last_ttl: ttl, limit: round_limit };
                return dispatch(self.target_ipv4, ttl);
            }
            self.phase = WindowsPhase::Resting { since_ns: now_ns };
        }
        if let WindowsPhase::Resting { since_ns } = self.phase {
            if now_ns.saturating_sub(since_ns) < ROUND_NS && !should_exit && !is_paused {
                return WindowsAction::Sleep { ns: REST_STEP_NS };
            }
            self.phase = WindowsPhase::Idle;
        }
        if should_exit {
            return WindowsAction::Stop;
        }
        if is_paused {
            return WindowsAction::Sleep { ns: PAUSE_NS };
        }
        self.phase = WindowsPhase::Sending { last_ttl: 1, limit };
        dispatch(self.target_ipv4, 1)
    }

    /// Says what the end of a task tells: who replied, the result, and whether
    /// the target was reached.
    pub fn report_probe(task: WindowsProbeTask, outcome: WindowsProbeOutcome) -> (report:
        WindowsProbeReport)
        ensures
            report.events@ == task_events(task, outcome),
            report.reached_ttl == task_reaches(task, outcome),
            report.reached_ttl == (match outcome {
                WindowsProbeOutcome::Reply { reply } if reply.comes_from(task.target_ipv4) => Some(
                    task.ttl,
                ),
                _ => None,
            }),
    {
        let mut events: Vec<NetworkEvent> = Vec::new();
        let lost: NetworkEvent = NetworkEvent::EchoProbeResult {
            ttl: task.ttl,
            latency_ms: None,
            reached_target: false,
        };
        match outcome {
            WindowsProbeOutcome::NoHandle => WindowsProbeReport { events, reached_ttl: None },
            WindowsProbeOutcome::NoReply => {
                events.push(lost);
                WindowsProbeReport { events, reached_ttl: None }
            },
            WindowsProbeOutcome::Reply { reply } => {
                if reply.address.bits != 0 {
                    events.push(
                        NetworkEvent::RouteHopDiscovered {
                            ttl: task.ttl,
                            ip_address: reply.address,
                        },
                    );
                }
                let is_success: bool = reply.status_code == IP_SUCCESS_STATUS;
                let is_transit: bool = reply.status_code == IP_TTL_EXPIRED_TRANSIT_STATUS;
                let reached_target: bool = is_success && reply.address == task.target_ipv4;
                if is_success || is_transit {
                    events.push(
                        NetworkEvent::EchoProbeResult {
                            ttl: task.ttl,
                            latency_ms: Some(reply.latency_ms),
                            reached_target,
                        },
                    );
                } else {
                    events.push(lost);
                }
                let reached_ttl: Option<u8> = if reached_target {
                    Some(task.ttl)
                } else {
                    None
                };
                WindowsProbeReport { events, reached_ttl }
            },
        }
    }
}

/// Whether the next round may begin.
pub open spec fn windows_at_rest(phase: WindowsPhase, now_ns: u64) -> bool {
    match phase {
        WindowsPhase::Idle => true,
        WindowsPhase::Resting { since_ns } => time_between(since_ns, now_ns) >= ROUND_NS,
        WindowsPhase::Sending { .. } => false,
    }
}

/// What a poll finds that does not tell the prober to exit.
pub struct WindowsMoment {
    pub now_ns: u64,
    pub is_paused: bool,
    pub limit: u8,
}

/// What polls do that do not tell the prober to exit, one for each moment.
pub open spec fn polls_that_go_on(
    target: Ipv4Address,
    phase: WindowsPhase,
    moments: Seq<WindowsMoment>,
) -> (WindowsPhase, WindowsAction)
    decreases moments.len(),
{
    let moment = moments.last();
    windows_poll(
        target,
        if moments.len() <= 1 {
            phase
        } else {
            polls_that_go_on(target, phase, moments.drop_last()).0
        },
        moment.now_ns,
        false,
        moment.is_paused,
        moment.limit,
    )
}

/// A round that has begun hands out a task for every time to live from one to the
/// limit that it began with, in order and each to the worker of its hop; after
/// that it rests, or waits if it is paused. Neither a pause nor another limit in
/// the middle of the round changes that.
pub proof fn law_windows_round_covers_every_hop(
    target: Ipv4Address,
    phase: WindowsPhase,
    moments: Seq<WindowsMoment>,
)
    requires
        moments.len() >= 1,
        1 <= moments[0].limit <= MAXIMUM_ROUTE_HOPS,
        moments.len() <= moments[0].limit + 1,
        windows_at_rest(phase, moments[0].now_ns),
        !moments[0].is_paused,
    ensures
        moments.len() <= moments[0].limit ==> polls_that_go_on(target, phase, moments) == (
            WindowsPhase::Sending { last_ttl: moments.len() as u8, limit: moments[0].limit },
            dispatch_of(target, moments.len() as u8),
        ),
        moments.len() == moments[0].limit + 1 ==> polls_that_go_on(target, phase, moments) == (
        if moments.last().is_paused {
            (WindowsPhase::Idle, WindowsAction::Sleep { ns: PAUSE_NS })
        } else {
            (
                WindowsPhase::Resting { since_ns: moments.last().now_ns },
                WindowsAction::Sleep { ns: REST_STEP_NS },
            )
        }),
    decreases moments.len(),
{
    if moments.len() > 1 {
        law_windows_round_covers_every_hop(target, phase, moments.drop_last());
    }
}

/// Once the driver is to exit, the next poll says to stop; a pause ends a rest
/// and starts no round.
pub proof fn law_windows_exit_and_pause(
    target: Ipv4Address,
    phase: WindowsPhase,
    now_ns: u64,
    is_paused: bool,
    limit: u8,
)
    ensures
        windows_poll(target, phase, now_ns, true, is_paused, limit) == (
            WindowsPhase::Idle,
            WindowsAction::Stop,
        ),
        !(phase is Sending) ==> windows_poll(target, phase, now_ns, false, true, limit) == (
            WindowsPhase::Idle,
            WindowsAction::Sleep { ns: PAUSE_NS },
        ),
{
}

/// A task names its time to live and the target, allows 800 milliseconds, and goes
/// to the worker of its hop: the first worker has the first hop.
pub proof fn law_task_goes_to_its_own_worker(target: Ipv4Address, ttl: u8)
    requires
        ttl >= 1,
    ensures
        dispatch_of(target, ttl) matches WindowsAction::Dispatch { worker, task } && worker + 1
            == ttl && task.ttl == ttl && task.target_ipv4 == target && task.probe_timeout_ms == 800,
{
}

/// A poll follows the clock: a prober rests for a second after its round, in steps
/// of 50 milliseconds, and looks at a pause again after 100 milliseconds. A pause
/// or a stop ends the rest; a round under way hands out the next task first.
pub proof fn law_windows_poll_follows_the_clock(
    target: Ipv4Address,
    phase: WindowsPhase,
    now_ns: u64,
    is_paused: bool,
    limit: u8,
)
    requires
        windows_phase_inv(phase),
    ensures
        ({
            let (next, action) = windows_poll(target, phase, now_ns, false, is_paused, limit);
            let begins = (
                WindowsPhase::Sending { last_ttl: 1, limit },
                dispatch_of(target, 1),
            );
            let rests = |since_ns: u64|
                (
                    WindowsPhase::Resting { since_ns },
                    WindowsAction::Sleep { ns: 50_000_000 },
                );
            let pauses = (WindowsPhase::Idle, WindowsAction::Sleep { ns: 100_000_000 });
            match phase {
                WindowsPhase::Idle => (next, action) == if is_paused {
                    pauses
                } else {
                    begins
                },
                WindowsPhase::Resting { since_ns } => (next, action) == if is_paused {
                    pauses
                } else if now_ns < since_ns + 1_000_000_000 {
                    rests(since_ns)
                } else {
                    begins
                },
                WindowsPhase::Sending { last_ttl, limit: round_limit } => (next, action) == if last_ttl
                    < round_limit {
                    (
                        WindowsPhase::Sending {
                            last_ttl: (last_ttl + 1) as u8,
                            limit: round_limit,
                        },
                        dispatch_of(target, (last_ttl + 1) as u8),
                    )
                } else if is_paused {
                    pauses
                } else {
                    rests(now_ns)
                },
            }
        }),
{
}

/// The end of a task is told by its events. A reply with the status 0, or 11013
/// from a router on the way, answers the probe with its latency; any other reply,
/// or none, loses it. Who replied is told first, unless nobody is named. The target
/// was reached if it replied with the status 0. Without a handle there is nothing
/// to tell.
pub proof fn law_task_tells_its_outcome(task: WindowsProbeTask, outcome: WindowsProbeOutcome)
    ensures
        ({
            let events = task_events(task, outcome);
            &&& outcome is NoHandle ==> events.len() == 0
            &&& outcome is NoReply ==> events.len() == 1
            &&& outcome matches WindowsProbeOutcome::Reply { reply } ==> {
                &&& events.len() == if reply.address.bits == 0 {
                    1int
                } else {
                    2int
                }
                &&& reply.address.bits != 0 ==> events[0] == (NetworkEvent::RouteHopDiscovered {
                    ttl: task.ttl,
                    ip_address: reply.address,
                })
                &&& reply.status_code == 0 || reply.status_code == 11013 ==> (
                events.last() matches NetworkEvent::EchoProbeResult {
                    ttl,
                    latency_ms,
                    reached_target,
                } && ttl == task.ttl && latency_ms == Some(reply.latency_ms) && (reached_target
                    <==> reply.status_code == 0 && reply.address.bits == task.target_ipv4.bits))
                &&& reply.comes_from(task.target_ipv4) <==> reply.status_code == 0
                    && reply.address.bits == task.target_ipv4.bits
            }
            &&& outcome is NoReply || (outcome matches WindowsProbeOutcome::Reply { reply }
                && reply.status_code != 0 && reply.status_code != 11013) ==> (
            events.last() matches NetworkEvent::EchoProbeResult { ttl, latency_ms, reached_target }
                && ttl == task.ttl && latency_ms is None && !reached_target)
        }),
{
}

/// A task shows the end of the route exactly if the target itself replied with the
/// status 0, and then at the time to live of the task: just when its result says
/// that the target was reached.
pub proof fn law_task_reaches_with_the_target_alone(
    task: WindowsProbeTask,
    outcome: WindowsProbeOutcome,
)
    ensures
        task_reaches(task, outcome) is Some <==> (outcome matches WindowsProbeOutcome::Reply { reply }
            && reply.status_code == 0 && reply.address.bits == task.target_ipv4.bits),
        task_reaches(task, outcome) matches Some(ttl) ==> ttl == task.ttl,
        task_reaches(task, outcome) is Some <==> exists|i: int|
            0 <= i < task_events(task, outcome).len() && (#[trigger] task_events(
                task,
                outcome,
            )[i] matches NetworkEvent::EchoProbeResult { reached_target, .. } && reached_target),
{
    let events = task_events(task, outcome);
    if task_reaches(task, outcome) is Some {
        assert(events[events.len() - 1] is EchoProbeResult);
    }
}

} // verus!
