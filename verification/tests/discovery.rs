use ai_gateway::discovery::{
    default_capacity, AppProtocol, BackendTargetRef, HealthStatus, Identity, IpAddress, IpFamily, LoadBalancer,
    LoadBalancerHealthPolicy, LoadBalancerMode, Locality, NamespacedHostname, NetworkAddress, PolicyTargetRef,
    ProtoError, Service, WaypointIdentity, Workload,
};
use std::collections::HashMap;

#[test]
fn namespaced_hostname_parses_at_the_first_slash() {
    let nh = NamespacedHostname::parse("default/reviews.svc/v1").unwrap();
    assert_eq!(nh.namespace, "default");
    assert_eq!(nh.hostname, "reviews.svc/v1");
    assert_eq!(nh.display(), "default/reviews.svc/v1");
    assert_eq!(
        NamespacedHostname::parse("no-slash"),
        Err(ProtoError::NamespacedHostnameParse("no-slash".into()))
    );
    assert_eq!(
        nh.as_policy_target_ref(),
        PolicyTargetRef::Backend(BackendTargetRef::Service { hostname: "reviews.svc/v1", namespace: "default", port: None })
    );
}

#[test]
fn waypoint_identity_matches_its_hostnames() {
    let waypoint = WaypointIdentity { gateway: "waypoint".into(), namespace: "ns1".into() };
    assert_eq!(waypoint.hostname(), "waypoint.ns1.svc.cluster.local");
    let host = |namespace: &str, hostname: &str| NamespacedHostname { namespace: namespace.into(), hostname: hostname.into() };
    assert!(waypoint.matches_hostname(&host("ns1", "waypoint.ns1.svc.cluster.local")));
    assert!(waypoint.matches_hostname(&host("ns1", "waypoint.ns1.svc.example.org")));
    assert!(!waypoint.matches_hostname(&host("ns1", "waypoint.ns1.")));
    assert!(!waypoint.matches_hostname(&host("ns1", "waypoint.ns1")));
    assert!(!waypoint.matches_hostname(&host("ns2", "waypoint.ns1.svc.cluster.local")));
    assert!(!waypoint.matches_hostname(&host("ns1", "other.ns1.svc.cluster.local")));
    let addr = NetworkAddress { network: "net".into(), address: IpAddress::V4([10, 0, 0, 1]) };
    assert!(waypoint.matches_address(&addr, |_| Some(("waypoint".to_owned(), "ns1".to_owned()))));
    assert!(!waypoint.matches_address(&addr, |_| Some(("waypoint".to_owned(), "ns2".to_owned()))));
    assert!(!waypoint.matches_address(&addr, |_| None));
}

#[test]
fn spiffe_identities_print_and_parse() {
    let id = Identity::from_parts("cluster.local".into(), "default".into(), "reviews".into());
    assert_eq!(id.to_strng(), "spiffe://cluster.local/ns/default/sa/reviews");
    assert_eq!(id.trust_domain(), "cluster.local");
    assert_eq!(Identity::parse("spiffe://cluster.local/ns/default/sa/reviews"), Ok(id));
    let bad = Identity::parse("spiffe://cluster.local/namespace/default/sa/reviews").unwrap_err();
    assert_eq!(bad.message, "invalid spiffe: spiffe://cluster.local/namespace/default/sa/reviews");
    assert!(Identity::parse("spiffe://td/ns/a/sa/b/extra").is_err());
    assert!(Identity::parse("http://td/ns/a/sa/b").is_err());
    assert!(Identity::parse("spiffe://td/ns/a/sa").is_err());
    assert!(Identity::parse("spiffe://td/ns/a/xa/b").is_err());
}

#[test]
fn locality_parses_up_to_three_parts() {
    let l = Locality::parse("us-east/zone-a/rack/7");
    assert_eq!((l.region.as_str(), l.zone.as_str(), l.subzone.as_str()), ("us-east", "zone-a", "rack/7"));
    let l = Locality::parse("us-east");
    assert_eq!((l.region.as_str(), l.zone.as_str(), l.subzone.as_str()), ("us-east", "", ""));
    let l = Locality::parse("us-east/zone-a");
    assert_eq!((l.region.as_str(), l.zone.as_str(), l.subzone.as_str()), ("us-east", "zone-a", ""));
}

#[test]
fn workload_defaults_and_identity() {
    assert_eq!(default_capacity(), 1);
    let mut workload = Workload::default();
    assert_eq!(workload.capacity, 1);
    assert_eq!(workload.status, HealthStatus::Healthy);
    workload.trust_domain = "td".into();
    workload.namespace = "ns".into();
    workload.service_account = "sa".into();
    assert_eq!(workload.identity().to_strng(), "spiffe://td/ns/ns/sa/sa");
}

fn service(load_balancer: Option<LoadBalancer>) -> Service {
    let mut app_protocols = HashMap::new();
    app_protocols.insert(80, AppProtocol::Http11);
    app_protocols.insert(81, AppProtocol::Grpc);
    app_protocols.insert(443, AppProtocol::Tls);
    Service {
        name: "reviews".into(),
        namespace: "default".into(),
        hostname: "reviews.default.svc.cluster.local".into(),
        vips: vec![],
        ports: HashMap::new(),
        app_protocols,
        endpoints: vec![],
        subject_alt_names: vec![],
        waypoint: None,
        load_balancer,
        ip_families: None,
        ingress_use_waypoint: false,
    }
}

#[test]
fn service_ports_and_endpoint_inclusion() {
    let s = service(None);
    assert!(s.port_is_http1(80) && !s.port_is_http2(80));
    assert!(s.port_is_http2(81));
    assert!(s.port_is_tls(443) && s.port_is_tcp(443));
    assert!(!s.port_is_tcp(9000) && !s.port_is_http1(9000));
    assert_eq!(s.namespaced_hostname().display(), "default/reviews.default.svc.cluster.local");
    assert!(s.should_include_endpoint(HealthStatus::Healthy));
    assert!(!s.should_include_endpoint(HealthStatus::Unhealthy));
    let lenient = service(Some(LoadBalancer {
        routing_preferences: vec![],
        mode: LoadBalancerMode::Standard,
        health_policy: LoadBalancerHealthPolicy::AllowAll,
    }));
    assert!(lenient.should_include_endpoint(HealthStatus::Unhealthy));
}

#[test]
fn ip_families() {
    let v4 = IpAddress::V4([127, 0, 0, 1]);
    let v6 = IpAddress::V6([0; 16]);
    assert!(IpFamily::Dual.accepts_ip(v4) && IpFamily::Dual.accepts_ip(v6));
    assert!(IpFamily::IPv4.accepts_ip(v4) && !IpFamily::IPv4.accepts_ip(v6));
    assert!(IpFamily::IPv6.accepts_ip(v6) && !IpFamily::IPv6.accepts_ip(v4));
}

#[test]
fn text_forms_parse_through_from_str() {
    let id: Identity = "spiffe://td/ns/a/sa/b".parse().unwrap();
    assert_eq!(id.to_strng(), "spiffe://td/ns/a/sa/b");
    let nh: NamespacedHostname = "ns/host".parse().unwrap();
    assert_eq!((nh.namespace.as_str(), nh.hostname.as_str()), ("ns", "host"));
    assert!("nohost".parse::<NamespacedHostname>().is_err());
}
