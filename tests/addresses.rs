use service_plan::error::PlanError;
use service_plan::free_ips::{select_network, FreeIps, IpPools};

fn pool(cidr: &str, taken: &[&str]) -> FreeIps {
    FreeIps::new(cidr, taken.iter().map(|t| t.to_string()).collect()).unwrap()
}

#[test]
fn hands_out_hosts_in_ascending_order_without_repeats() {
    let mut p = pool("10.0.0.0/29", &[]);
    let mut seen = Vec::new();
    while let Some(ip) = p.get_ip() {
        assert!(!seen.contains(&ip));
        seen.push(ip);
    }
    assert_eq!(
        seen,
        vec!["10.0.0.1", "10.0.0.2", "10.0.0.3", "10.0.0.4", "10.0.0.5", "10.0.0.6"]
    );
}

#[test]
fn skips_taken_addresses() {
    let mut p = pool("10.0.0.0/29", &["10.0.0.1", "10.0.0.3"]);
    assert_eq!(p.get_ip().as_deref(), Some("10.0.0.2"));
    assert_eq!(p.get_ip().as_deref(), Some("10.0.0.4"));
}

#[test]
fn single_host_is_handed_out_once() {
    let mut p = pool("10.0.0.5/32", &[]);
    assert_eq!(p.get_ip().as_deref(), Some("10.0.0.5"));
    assert_eq!(p.get_ip(), None);
}

#[test]
fn loopback_and_multicast_are_never_handed_out() {
    assert_eq!(pool("127.0.0.0/30", &[]).get_ip(), None);
    assert_eq!(pool("224.0.0.0/30", &[]).get_ip(), None);
    assert_eq!(pool("0.0.0.0/32", &[]).get_ip(), None);
}

#[test]
fn ipv6_skips_zero_group_addresses() {
    let mut p = pool("fd00::/126", &[]);
    assert_eq!(p.get_ip().as_deref(), Some("fd00::1"));
    assert_eq!(p.get_ip().as_deref(), Some("fd00::2"));
}

#[test]
fn invalid_cidr_is_refused() {
    match FreeIps::new("not-a-network", Vec::new()) {
        Err(PlanError::InvalidCidr(t)) => assert_eq!(t, "not-a-network"),
        other => panic!("unexpected {:?}", other),
    }
}

#[test]
fn pools_are_kept_per_network() {
    let mut pools = IpPools::new();
    assert!(!pools.has_pool("net"));
    assert_eq!(pools.get_ip("net"), Err(PlanError::UnknownNetwork("net".to_string())));
    pools.add_pool("net".to_string(), pool("10.0.0.5/32", &[]));
    pools.add_pool("net".to_string(), pool("10.1.0.0/24", &[]));
    pools.add_pool("other".to_string(), pool("10.2.0.0/24", &[]));
    assert!(pools.has_pool("net"));
    assert_eq!(pools.get_ip("net"), Ok("10.0.0.5".to_string()));
    assert_eq!(pools.get_ip("other"), Ok("10.2.0.1".to_string()));
    assert_eq!(pools.get_ip("net"), Err(PlanError::NoFreeIp("net".to_string())));
    assert_eq!(pools.get_ip("other"), Ok("10.2.0.2".to_string()));
}

#[test]
fn discovery_takes_first_lookup_with_exactly_one_match() {
    let strings = |v: &[&str]| v.iter().map(|s| s.to_string()).collect::<Vec<_>>();
    let found = select_network(
        "net",
        &vec![strings(&[]), strings(&["10.0.0.0/24", "10.1.0.0/24"]), strings(&["10.2.0.0/24"])],
    );
    assert_eq!(found, Ok("10.2.0.0/24".to_string()));
    let first = select_network("net", &vec![strings(&["10.0.0.0/24"]), strings(&["10.2.0.0/24"])]);
    assert_eq!(first, Ok("10.0.0.0/24".to_string()));
    let none = select_network("net", &vec![strings(&[]), strings(&["a", "b"])]);
    assert_eq!(none, Err(PlanError::NetworkNotFound("net".to_string())));
}
