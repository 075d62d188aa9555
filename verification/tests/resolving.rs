use mtr::address::Ipv4Address;
use mtr::resolver::{BackgroundDnsResolver, HostAddress, TargetLookup};

fn v4(last: u8) -> HostAddress {
    HostAddress::V4 { ip_address: Ipv4Address::new(10, 0, 0, last) }
}

#[test]
fn a_found_name_is_reported() {
    let address = Ipv4Address::new(10, 0, 0, 1);
    let event = BackgroundDnsResolver::resolution_event(address, Some(String::from("a.lan")));
    assert_eq!(event.original_ip, address);
    assert_eq!(event.resolved_hostname, "a.lan");
}

#[test]
fn an_address_without_a_name_is_its_own() {
    let address = Ipv4Address::new(10, 0, 0, 1);
    let event = BackgroundDnsResolver::resolution_event(address, None);
    assert_eq!(event.original_ip, address);
    assert_eq!(event.resolved_hostname, "10.0.0.1");
}

#[test]
fn an_address_needs_no_lookup() {
    match BackgroundDnsResolver::plan_target_lookup("39.156.66.10") {
        TargetLookup::Literal { ip_address } => {
            assert_eq!(ip_address, Ipv4Address::new(39, 156, 66, 10))
        }
        other => panic!("{:?}", other),
    }
}

#[test]
fn a_name_is_asked_for_with_port_zero() {
    for host in ["baidu.com", "", "1.2.3", "256.1.1.1", "::1"] {
        match BackgroundDnsResolver::plan_target_lookup(host) {
            TargetLookup::Query { socket_address } => {
                assert_eq!(socket_address, format!("{}:0", host))
            }
            other => panic!("{:?}", other),
        }
    }
}

#[test]
fn the_first_ipv4_address_counts() {
    let answer = Ok(vec![HostAddress::V6, v4(3), HostAddress::V6, v4(4)]);
    assert_eq!(
        BackgroundDnsResolver::resolve_target_host("baidu.com", answer),
        Ok(Ipv4Address::new(10, 0, 0, 3))
    );
}

#[test]
fn an_address_stands_for_itself_whatever_the_answer() {
    let address = Ipv4Address::new(39, 156, 66, 10);
    for answer in [Ok(vec![v4(1)]), Ok(vec![]), Err(String::from("timeout"))] {
        assert_eq!(BackgroundDnsResolver::resolve_target_host("39.156.66.10", answer), Ok(address));
    }
}

#[test]
fn a_host_without_ipv4_is_refused() {
    for answer in [vec![], vec![HostAddress::V6, HostAddress::V6]] {
        assert_eq!(
            BackgroundDnsResolver::resolve_target_host("six.example", Ok(answer)),
            Err(String::from("DNS 解析成功，但未找到与主机 'six.example' 匹配的 IPv4 地址"))
        );
    }
}

#[test]
fn a_failed_lookup_is_explained() {
    assert_eq!(
        BackgroundDnsResolver::resolve_target_host("nowhere", Err(String::from("no such name"))),
        Err(String::from("无法解析主机 'nowhere': no such name"))
    );
}
