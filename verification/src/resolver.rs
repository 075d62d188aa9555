use vstd::prelude::*;

use crate::address::{law_dotted_is_injective, Ipv4Address};
use crate::event::DnsResolvedEvent;

verus! {

/// An address that the system's resolver gave for a host.
#[derive(Clone, Copy, Debug, PartialEq, Eq, Structural)]
pub enum HostAddress {
    V4 { ip_address: Ipv4Address },
    V6,
}

/// What it takes to find the address of a target.
#[derive(Debug)]
pub enum TargetLookup {
    /// Nothing: the target is an address.
    Literal { ip_address: Ipv4Address },
    /// A question to the system's resolver.
    Query { socket_address: String },
}

/// The answer to a lookup that failed.
pub open spec fn lookup_failed_message(host: Seq<char>, error: Seq<char>) -> Seq<char> {
    "无法解析主机 '"@ + host + "': "@ + error
}

/// The answer to a lookup that gave no IPv4 address.
pub open spec fn no_ipv4_message(host: Seq<char>) -> Seq<char> {
    "DNS 解析成功，但未找到与主机 '"@ + host + "' 匹配的 IPv4 地址"@
}

/// Whether an address is the first IPv4 address in a list.
pub open spec fn is_first_ipv4(addresses: Seq<HostAddress>, ip_address: Ipv4Address) -> bool {
    exists|at: int| #[trigger] is_first_ipv4_at(addresses, ip_address, at)
}

/// Whether an IPv4 address stands at a place and none before it.
pub open spec fn is_first_ipv4_at(
    addresses: Seq<HostAddress>,
    ip_address: Ipv4Address,
    at: int,
) -> bool {
    &&& 0 <= at < addresses.len()
    &&& addresses[at] == (HostAddress::V4 { ip_address })
    &&& forall|i: int| 0 <= i < at ==> #[trigger] addresses[i] is V6
}

/// Whether an event reports the name that was found for an address, or the address
/// itself where none was.
pub open spec fn is_resolution(
    event: DnsResolvedEvent,
    ip_address: Ipv4Address,
    looked_up: Option<String>,
) -> bool {
    &&& event.original_ip == ip_address
    &&& match looked_up {
        Some(name) => event.resolved_hostname == name,
        None => event.resolved_hostname@ == ip_address.dotted(),
    }
}

/// Whether a result is what the name of a target and the answer of the system's
/// resolver give.
pub open spec fn is_target(
    host: Seq<char>,
    answer: Result<Vec<HostAddress>, String>,
    result: Result<Ipv4Address, String>,
) -> bool {
    &&& forall|address: Ipv4Address|
        host == #[trigger] address.dotted() ==> result == Ok::<Ipv4Address, String>(address)
    &&& (forall|address: Ipv4Address| host != #[trigger] address.dotted()) ==> match (
        answer,
        result,
    ) {
        (Ok(addresses), Ok(ip_address)) => is_first_ipv4(addresses@, ip_address),
        (Ok(addresses), Err(message)) => {
            &&& forall|i: int| 0 <= i < addresses@.len() ==> #[trigger] addresses@[i] is V6
            &&& message@ == no_ipv4_message(host)
        },
        (Err(error), Err(message)) => message@ == lookup_failed_message(host, error@),
        (Err(_), Ok(_)) => false,
    }
}

/// Whether a lookup is the way to find the address of a target.
pub open spec fn is_plan(host: Seq<char>, lookup: TargetLookup) -> bool {
    match lookup {
        TargetLookup::Literal { ip_address } => host == ip_address.dotted(),
        TargetLookup::Query { socket_address } => socket_address@ == host + ":0"@ && forall|
            address: Ipv4Address,
        | host != #[trigger] address.dotted(),
    }
}

/// Explains that a lookup failed.
fn lookup_failed_text(host: &str, error: &str) -> (text: String)
    ensures
        text@ == lookup_failed_message(host@, error@),
{
    let mut text = String::new();
    text.append("无法解析主机 '");
    text.append(host);
    text.append("': ");
    text.append(error);
    text
}

/// Explains that a lookup gave no IPv4 address.
fn no_ipv4_text(host: &str) -> (text: String)
    ensures
        text@ == no_ipv4_message(host@),
{
    let mut text = String::new();
    text.append("DNS 解析成功，但未找到与主机 '");
    text.append(host);
    text.append("' 匹配的 IPv4 地址");
    text
}

/// The decisions of name resolution, in both directions.
pub struct BackgroundDnsResolver;

impl BackgroundDnsResolver {
    /// Says what to report of an address: the name that was found for it, or
    /// the address itself.
    pub fn resolution_event(ip_address: Ipv4Address, looked_up: Option<String>) -> (event:
        DnsResolvedEvent)
        ensures
            is_resolution(event, ip_address, looked_up),
            event.original_ip == ip_address,
            looked_up matches Some(name) ==> event.resolved_hostname == name,
            looked_up is None ==> event.resolved_hostname@ == ip_address.dotted(),
    {
        let resolved_hostname: String = match looked_up {
            Some(name) => name,
            None => ip_address.to_text(),
        };
        DnsResolvedEvent { original_ip: ip_address, resolved_hostname }
    }

    /// Says how to find the address of a target: an address in dotted notation
    /// stands for itself, anything else is asked for with port zero.
    pub fn plan_target_lookup(host: &str) -> (lookup: TargetLookup)
        ensures
            is_plan(host@, lookup),
            forall|address: Ipv4Address|
                (lookup matches TargetLookup::Literal { ip_address } && ip_address == address)
                    <==> host@ == #[trigger] address.dotted(),
            lookup matches TargetLookup::Query { socket_address } ==> socket_address@ == host@
                + ":0"@,
    {
        match Ipv4Address::parse(host) {
            Some(ip_address) => TargetLookup::Literal { ip_address },
            None => {
                let mut socket_address = String::new();
                socket_address.append(host);
                socket_address.append(":0");
                TargetLookup::Query { socket_address }
            },
        }
    }

    /// The address of a target: the one that it spells, or else the first IPv4
    /// address that the system's resolver gave, or else an explanation.
    pub fn resolve_target_host(host: &str, answer: Result<Vec<HostAddress>, String>) -> (result:
        Result<Ipv4Address, String>)
        ensures
            is_target(host@, answer, result),
            forall|address: Ipv4Address|
                host@ == #[trigger] address.dotted() ==> result == Ok::<Ipv4Address, String>(
                    address,
                ),
            (forall|address: Ipv4Address| host@ != #[trigger] address.dotted()) ==> match answer {
                Ok(addresses) => match result {
                    Ok(ip_address) => is_first_ipv4(addresses@, ip_address),
                    Err(message) => {
                        &&& forall|i: int|
                            0 <= i < addresses@.len() ==> #[trigger] addresses@[i] is V6
                        &&& message@ == no_ipv4_message(host@)
                    },
                },
                Err(error) => result matches Err(message) && message@ == lookup_failed_message(
                    host@,
                    error@,
                ),
            },
    {
        if let Some(ip_address) = Ipv4Address::parse(host) {
            proof {
                assert(host@ == ip_address.dotted());
            }
            return Ok(ip_address);
        }
        match answer {
            Ok(addresses) => {
                let mut i: usize = 0;
                while i < addresses.len()
                    invariant
                        i <= addresses@.len(),
                        forall|k: int| 0 <= k < i ==> #[trigger] addresses@[k] is V6,
                        forall|address: Ipv4Address| host@ != #[trigger] address.dotted(),
                        answer == Ok::<Vec<HostAddress>, String>(addresses),
                    decreases addresses@.len() - i,
                {
                    if let HostAddress::V4 { ip_address } = addresses[i] {
                        proof {
                            assert(is_first_ipv4_at(addresses@, ip_address, i as int));
                        }
                        return Ok(ip_address);
                    }
                    i = i + 1;
                }
                Err(no_ipv4_text(host))
            },
            Err(error) => Err(lookup_failed_text(host, error.as_str())),
        }
    }
}

/// The first IPv4 address of a list is its head, if that is one, and otherwise the
/// first of the rest; an empty list has none.
pub proof fn law_first_ipv4_address_is_found_in_order(
    head: HostAddress,
    rest: Seq<HostAddress>,
    address: Ipv4Address,
)
    ensures
        !is_first_ipv4(Seq::empty(), address),
        head matches HostAddress::V4 { ip_address } ==> (is_first_ipv4(seq![head] + rest, address)
            <==> ip_address == address),
        head is V6 ==> (is_first_ipv4(seq![head] + rest, address) <==> is_first_ipv4(rest, address)),
{
    let all = seq![head] + rest;
    assert(all[0] == head);
    if head is V4 {
        if is_first_ipv4(all, address) {
            let at = choose|at: int| #[trigger] is_first_ipv4_at(all, address, at);
            assert(at == 0);
        }
        if head == (HostAddress::V4 { ip_address: address }) {
            assert(is_first_ipv4_at(all, address, 0));
        }
    } else {
        if is_first_ipv4(all, address) {
            let at = choose|at: int| #[trigger] is_first_ipv4_at(all, address, at);
            assert forall|i: int| 0 <= i < at - 1 implies #[trigger] rest[i] is V6 by {
                assert(all[i + 1] is V6);
            }
            assert(all[at] == rest[at - 1]);
            assert(is_first_ipv4_at(rest, address, at - 1));
        }
        if is_first_ipv4(rest, address) {
            let at = choose|at: int| #[trigger] is_first_ipv4_at(rest, address, at);
            assert forall|i: int| 0 <= i < at + 1 implies #[trigger] all[i] is V6 by {
                if i > 0 {
                    assert(rest[i - 1] is V6);
                }
            }
            assert(all[at + 1] == rest[at]);
            assert(is_first_ipv4_at(all, address, at + 1));
        }
    }
}

/// An explanation quotes the host as it was given, and the error of the system's
/// resolver at its end; different hosts or errors are explained differently.
pub proof fn law_explanations_quote_the_host(
    host: Seq<char>,
    error: Seq<char>,
    other_host: Seq<char>,
    other_error: Seq<char>,
)
    ensures
        lookup_failed_message(host, error) == "无法解析主机 '"@ + host + "': "@ + error,
        no_ipv4_message(host) == "DNS 解析成功，但未找到与主机 '"@ + host
            + "' 匹配的 IPv4 地址"@,
        lookup_failed_message(host, error) == lookup_failed_message(host, other_error) ==> error
            == other_error,
        lookup_failed_message(host, error) == lookup_failed_message(other_host, error) ==> host
            == other_host,
        no_ipv4_message(host) == no_ipv4_message(other_host) ==> host == other_host,
{
    let (start, middle, end) = ("无法解析主机 '"@, "': "@, "' 匹配的 IPv4 地址"@);
    let opening = "DNS 解析成功，但未找到与主机 '"@;
    if lookup_failed_message(host, error) == lookup_failed_message(host, other_error) {
        let head = start + host + middle;
        let (one, two) = (head + error, head + other_error);
        assert(error =~= one.subrange(head.len() as int, one.len() as int));
        assert(other_error =~= two.subrange(head.len() as int, two.len() as int));
    }
    if lookup_failed_message(host, error) == lookup_failed_message(other_host, error) {
        let (one, two) = (start + host + middle + error, start + other_host + middle + error);
        assert(one.len() == two.len());
        assert(host =~= one.subrange(start.len() as int, (start + host).len() as int));
        assert(other_host =~= two.subrange(start.len() as int, (start + other_host).len() as int));
    }
    if no_ipv4_message(host) == no_ipv4_message(other_host) {
        let (one, two) = (opening + host + end, opening + other_host + end);
        assert(one.len() == two.len());
        assert(host =~= one.subrange(opening.len() as int, (opening + host).len() as int));
        assert(other_host =~= two.subrange(
            opening.len() as int,
            (opening + other_host).len() as int,
        ));
    }
}

/// A lookup always gives an answer for the address that was asked for: its name,
/// or its dotted notation.
pub proof fn law_every_lookup_is_answered(
    event: DnsResolvedEvent,
    ip_address: Ipv4Address,
    looked_up: Option<String>,
)
    requires
        is_resolution(event, ip_address, looked_up),
    ensures
        event.original_ip.bits == ip_address.bits,
        event.resolved_hostname@ == match looked_up {
            Some(name) => name@,
            None => ip_address.dotted(),
        },
{
}

/// A target that is an address is that address, whatever the resolver says. Any
/// other target is found exactly if the resolver gave an IPv4 address, and then it
/// is one that the resolver gave, with none before it.
pub proof fn law_target_is_an_address_that_was_given(
    host: Seq<char>,
    answer: Result<Vec<HostAddress>, String>,
    result: Result<Ipv4Address, String>,
    literal: Ipv4Address,
)
    requires
        is_target(host, answer, result),
    ensures
        host == literal.dotted() ==> (result matches Ok(address) && address.bits == literal.bits),
        (forall|a: Ipv4Address| host != #[trigger] a.dotted()) ==> {
            &&& result is Ok <==> (answer matches Ok(addresses) && exists|i: int|
                0 <= i < addresses@.len() && #[trigger] addresses@[i] is V4)
            &&& result matches Ok(address) ==> (answer matches Ok(addresses) && exists|i: int|
                0 <= i < addresses@.len() && #[trigger] addresses@[i] == (HostAddress::V4 {
                    ip_address: address,
                }) && forall|j: int| 0 <= j < i ==> !(#[trigger] addresses@[j] is V4))
            &&& result matches Err(message) ==> message@ == match answer {
                Ok(_) => "DNS 解析成功，但未找到与主机 '"@ + host + "' 匹配的 IPv4 地址"@,
                Err(error) => "无法解析主机 '"@ + host + "': "@ + error@,
            }
        },
{
    if forall|a: Ipv4Address| host != #[trigger] a.dotted() {
        if let (Ok(addresses), Ok(address)) = (answer, result) {
            let at = choose|at: int| #[trigger] is_first_ipv4_at(addresses@, address, at);
            assert(addresses@[at] == (HostAddress::V4 { ip_address: address }));
        }
    }
}

/// The resolver is asked for a target exactly if it is no address in dotted
/// notation, and then for the name as it was given, with port zero; an address is
/// taken as it is.
pub proof fn law_resolver_is_asked_for_names_alone(
    host: Seq<char>,
    lookup: TargetLookup,
    address: Ipv4Address,
)
    requires
        is_plan(host, lookup),
    ensures
        host == address.dotted() ==> (lookup matches TargetLookup::Literal { ip_address }
            && ip_address.bits == address.bits),
        (forall|a: Ipv4Address| host != #[trigger] a.dotted()) ==> (
        lookup matches TargetLookup::Query { socket_address } && socket_address@ == host + ":0"@),
{
    if let TargetLookup::Literal { ip_address } = lookup {
        if host == address.dotted() {
            law_dotted_is_injective(ip_address, address);
        }
    }
}

} // verus!
