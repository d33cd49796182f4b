use l4lb::balancer::LoadBalancer;
use l4lb::config::BackendConfig;
use l4lb::config::BackendTlsConfig;
use l4lb::config::RateLimitConfig;
use l4lb::networking::acl::AccessControl;
use l4lb::networking::addr::IpAddr;
use l4lb::networking::proxy::accept_connection;
use l4lb::networking::proxy::backend_host;
use l4lb::networking::proxy::Verdict;
use l4lb::traffic::limiter::RateLimiter;
use l4lb::networking::proxy::proxy_connection;
use l4lb::networking::proxy::traffic_report;
use l4lb::networking::proxy::ProxyConfig;
use l4lb::networking::proxy::TlsDial;
use l4lb::networking::proxy::TrafficReport;
use l4lb::networking::proxy_protocol::create_v2_header;
use l4lb::networking::proxy_protocol::SocketAddr;
use l4lb::traffic::bandwidth::StreamStep;
use l4lb::traffic::limiter::SimpleLimiter;

fn config() -> ProxyConfig {
    ProxyConfig {
        client_read_limiter: None,
        client_write_limiter: None,
        backend_read_limiter: None,
        backend_write_limiter: None,
        backend_tls: None,
        proxy_protocol: false,
        client_addr: SocketAddr::V4 { ip: [192, 168, 1, 1], port: 12345 },
        local_addr: SocketAddr::V4 { ip: [10, 0, 0, 1], port: 80 },
    }
}

#[test]
fn plain_connection_has_nothing_to_prepare() {
    let mut plan = proxy_connection("10.0.0.9:443", config());
    assert!(plan.proxy_header.is_none());
    assert!(plan.backend_tls.is_none());
    assert_eq!(plan.client.poll_read(9, 0), StreamStep::Transfer { max: 9 });
    assert_eq!(plan.backend.poll_write(9, 0), StreamStep::Transfer { max: 9 });
}

#[test]
fn proxy_header_names_client_and_listener() {
    let mut c = config();
    c.proxy_protocol = true;
    let expected = create_v2_header(c.client_addr, c.local_addr);
    let plan = proxy_connection("10.0.0.9:443", c);
    assert_eq!(plan.proxy_header, Some(expected));
}

#[test]
fn backend_tls_is_dialled_only_when_switched_on() {
    let mut c = config();
    c.backend_tls = Some(BackendTlsConfig { enabled: false, ignore_verify: true });
    assert_eq!(proxy_connection("db.internal:5432", c).backend_tls, None);
    let mut c = config();
    c.backend_tls = Some(BackendTlsConfig { enabled: true, ignore_verify: true });
    assert_eq!(
        proxy_connection("db.internal:5432", c).backend_tls,
        Some(TlsDial { ignore_verify: true, server_name: "db.internal".to_string() })
    );
    let mut c = config();
    c.backend_tls = Some(BackendTlsConfig { enabled: true, ignore_verify: false });
    assert_eq!(
        proxy_connection("[2001:db8::1]:443", c).backend_tls,
        Some(TlsDial { ignore_verify: false, server_name: "2001:db8::1".to_string() })
    );
}

#[test]
fn each_side_gets_its_own_buckets() {
    let mut c = config();
    c.client_read_limiter = Some(SimpleLimiter::new(1000, 1, 0));
    c.client_write_limiter = Some(SimpleLimiter::new(1000, 2, 0));
    c.backend_read_limiter = Some(SimpleLimiter::new(1000, 3, 0));
    c.backend_write_limiter = Some(SimpleLimiter::new(1000, 4, 0));
    let plan = proxy_connection("10.0.0.9:443", c);
    assert_eq!(plan.client.read_limiter().unwrap().burst_size(), 1);
    assert_eq!(plan.client.write_limiter().unwrap().burst_size(), 2);
    assert_eq!(plan.backend.read_limiter().unwrap().burst_size(), 3);
    assert_eq!(plan.backend.write_limiter().unwrap().burst_size(), 4);
}

#[test]
fn traffic_is_counted_on_both_sides() {
    assert_eq!(
        traffic_report(5, 7),
        TrafficReport { client_in: 5, backend_out: 5, backend_in: 7, client_out: 7 }
    );
}

#[test]
fn connection_passes_rules_limiter_and_selection_in_turn() {
    let acl = AccessControl::new(None, Some(vec!["10.0.0.66".to_string()]));
    let mut limiter = RateLimiter::new(RateLimitConfig {
        enabled: true,
        requests_per_second: 1,
        burst: 2,
    });
    let mut lb = LoadBalancer::new(
        "rule".to_string(),
        vec![BackendConfig::Simple("a:1".to_string()), BackendConfig::Simple("b:1".to_string())],
        Some(1),
    );
    let banned = IpAddr::V4(0x0a00_0042);
    let client = IpAddr::V4(0x0a00_0001);
    let other = IpAddr::V4(0x0a00_0002);

    // A client that is kept out costs nothing, as often as it tries.
    for _ in 0..5 {
        assert!(matches!(
            accept_connection(&acl, &mut limiter, &mut lb, banned, 0),
            Verdict::Denied
        ));
    }

    let first = accept_connection(&acl, &mut limiter, &mut lb, client, 0);
    let guard = match first {
        Verdict::Proxied { backend_addr, guard } => {
            assert_eq!(backend_addr, "a:1");
            assert_eq!(guard.backend_addr(), "a:1");
            guard
        }
        _ => panic!("the first connection goes to the first backend"),
    };
    assert_eq!(lb.active_connections(&guard), 1);
    let second = accept_connection(&acl, &mut limiter, &mut lb, client, 0);
    assert!(matches!(second, Verdict::Proxied { .. }));
    // The burst of two is used up; the cursor stays where it is.
    assert!(matches!(
        accept_connection(&acl, &mut limiter, &mut lb, client, 0),
        Verdict::Limited
    ));
    // Another client is let in, but both backends are full.
    assert!(matches!(
        accept_connection(&acl, &mut limiter, &mut lb, other, 0),
        Verdict::Unavailable
    ));
    lb.release(guard);
    match accept_connection(&acl, &mut limiter, &mut lb, other, 0) {
        Verdict::Proxied { backend_addr, .. } => assert_eq!(backend_addr, "a:1"),
        _ => panic!("the freed backend takes the connection"),
    }
}

#[test]
fn host_is_what_stands_before_the_last_colon() {
    assert_eq!(backend_host("10.0.0.1:80"), "10.0.0.1");
    assert_eq!(backend_host("backend.example:8443"), "backend.example");
    assert_eq!(backend_host("[::1]:443"), "::1");
    assert_eq!(backend_host("localhost"), "localhost");
    assert_eq!(backend_host("[fe80::1]"), "[fe80:");
    assert_eq!(backend_host(":80"), "");
    assert_eq!(backend_host(""), "");
    assert_eq!(backend_host("[]:1"), "");
    assert_eq!(backend_host("b\u{00fc}cher.example:1"), "b\u{00fc}cher.example");
}

#[test]
fn guard_of_another_balancer_is_ignored() {
    let mut ours = LoadBalancer::new(
        "ours".to_string(),
        vec![BackendConfig::Simple("a:1".to_string())],
        None,
    );
    let mut theirs = LoadBalancer::new(
        "theirs".to_string(),
        vec![BackendConfig::Simple("a:1".to_string())],
        None,
    );
    let (_, our_guard) = ours.next_backend().unwrap();
    let (_, their_guard) = theirs.next_backend().unwrap();
    assert_eq!(ours.active_connections(&their_guard), 0);
    ours.release(their_guard);
    assert_eq!(ours.active_connections(&our_guard), 1);
    assert_eq!(ours.backend(0).unwrap().active_connections, 1);
    ours.release(our_guard);
    assert_eq!(ours.backend(0).unwrap().active_connections, 0);
}
