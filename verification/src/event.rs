use vstd::prelude::*;

use crate::address::Ipv4Address;
use crate::double::Double;

verus! {

/// What the probing engine reports.
#[derive(Clone, Copy, Debug, PartialEq, Eq, Structural)]
pub enum NetworkEvent {
    /// A router answered a probe that was sent with the given time to live.
    RouteHopDiscovered { ttl: u8, ip_address: Ipv4Address },
    /// A probe was answered, after the given latency, or is lost.
    EchoProbeResult { ttl: u8, latency_ms: Option<Double>, reached_target: bool },
}

/// What the name resolver reports.
#[derive(Debug)]
pub struct DnsResolvedEvent {
    pub original_ip: Ipv4Address,
    pub resolved_hostname: String,
}

} // verus!
