use l4lb::balancer::HealthChange;
use l4lb::balancer::LoadBalancer;
use l4lb::config::BackendConfig;

fn simple(addrs: &[&str]) -> Vec<BackendConfig> {
    addrs.iter().map(|a| BackendConfig::Simple(a.to_string())).collect()
}

fn lb(addrs: &[&str], cap: Option<usize>) -> LoadBalancer {
    LoadBalancer::new("rule".to_string(), simple(addrs), cap)
}

fn active(lb: &LoadBalancer, place: usize) -> usize {
    lb.backend(place).unwrap().active_connections
}

#[test]
fn round_robin_visits_backends_in_order() {
    let mut lb = lb(&["A:1", "B:2", "C:3"], None);
    let mut seen = Vec::new();
    for _ in 0..9 {
        let (addr, guard) = lb.next_backend().unwrap();
        assert_eq!(guard.backend_addr(), &addr);
        assert_eq!(lb.active_connections(&guard), 1);
        for place in 0..3 {
            assert!(active(&lb, place) <= 1);
        }
        lb.release(guard);
        seen.push(addr);
    }
    assert_eq!(seen, vec!["A:1", "B:2", "C:3", "A:1", "B:2", "C:3", "A:1", "B:2", "C:3"]);
    for place in 0..3 {
        assert_eq!(active(&lb, place), 0);
    }
}

#[test]
fn unhealthy_backend_is_skipped() {
    let mut lb = lb(&["A:1", "B:2", "C:3"], None);
    assert_eq!(lb.set_backend_health("B:2", false), HealthChange::BecameUnhealthy);
    let mut seen = Vec::new();
    for _ in 0..6 {
        let (addr, guard) = lb.next_backend().unwrap();
        lb.release(guard);
        seen.push(addr);
    }
    // The cursor moves on by one with each call, and a scan that starts at
    // the unhealthy backend goes on to the one behind it.
    assert_eq!(seen, vec!["A:1", "C:3", "C:3", "A:1", "C:3", "C:3"]);
    assert!(seen.iter().all(|addr| addr != "B:2"));
}

#[test]
fn health_reports_say_what_changed() {
    let mut lb = lb(&["A:1"], None);
    assert_eq!(lb.set_backend_health("A:1", true), HealthChange::Unchanged);
    assert_eq!(lb.set_backend_health("A:1", false), HealthChange::BecameUnhealthy);
    assert!(!lb.backend(0).unwrap().healthy);
    assert_eq!(lb.set_backend_health("A:1", false), HealthChange::Unchanged);
    assert_eq!(lb.set_backend_health("A:1", true), HealthChange::BecameHealthy);
    assert!(lb.backend(0).unwrap().healthy);
    assert_eq!(lb.set_backend_health("Z:9", false), HealthChange::Unknown);
}

#[test]
fn cap_is_enforced() {
    let mut lb = lb(&["A", "B"], Some(1));
    let (first, g1) = lb.next_backend().unwrap();
    let (second, g2) = lb.next_backend().unwrap();
    let mut both = vec![first.clone(), second];
    both.sort();
    assert_eq!(both, vec!["A", "B"]);
    assert!(lb.next_backend().is_none());
    lb.release(g1);
    let (third, g3) = lb.next_backend().unwrap();
    assert_eq!(third, first);
    assert!(lb.next_backend().is_none());
    lb.release(g2);
    lb.release(g3);
    assert_eq!(active(&lb, 0), 0);
    assert_eq!(active(&lb, 1), 0);
}

#[test]
fn all_filtered_returns_none() {
    let mut lb = LoadBalancer::new(
        "rule".to_string(),
        vec![
            BackendConfig::Detailed { addr: "A".to_string(), drain: true },
            BackendConfig::Simple("B".to_string()),
        ],
        None,
    );
    lb.set_backend_health("B", false);
    assert!(lb.next_backend().is_none());
    assert!(lb.next_backend().is_none());
    lb.set_backend_health("B", true);
    let (addr, _guard) = lb.next_backend().unwrap();
    assert_eq!(addr, "B");
}

#[test]
fn empty_balancer_returns_none() {
    let mut lb = lb(&[], None);
    assert_eq!(lb.len(), 0);
    assert!(lb.next_backend().is_none());
    assert!(lb.backend(0).is_none());
}

#[test]
fn draining_backend_is_skipped() {
    let mut lb = LoadBalancer::new(
        "rule".to_string(),
        vec![
            BackendConfig::Detailed { addr: "A".to_string(), drain: true },
            BackendConfig::Detailed { addr: "B".to_string(), drain: false },
        ],
        None,
    );
    for _ in 0..4 {
        let (addr, guard) = lb.next_backend().unwrap();
        assert_eq!(addr, "B");
        lb.release(guard);
    }
}

#[test]
fn hot_reload_keeps_counters_of_kept_backends() {
    let mut lb = lb(&["A", "B"], None);
    let mut on_a = Vec::new();
    let mut on_b = Vec::new();
    for _ in 0..100 {
        let (addr, guard) = lb.next_backend().unwrap();
        if addr == "A" {
            on_a.push(guard);
        } else {
            on_b.push(guard);
        }
    }
    assert_eq!(on_a.len(), 50);
    assert_eq!(on_b.len(), 50);
    assert_eq!(active(&lb, 0), 50);
    assert_eq!(active(&lb, 1), 50);

    lb.update_backends(simple(&["B", "C"]));
    assert_eq!(lb.len(), 2);
    assert_eq!(lb.backend(0).unwrap().addr, "B");
    assert_eq!(lb.backend(1).unwrap().addr, "C");
    assert_eq!(active(&lb, 0), 50);
    assert_eq!(active(&lb, 1), 0);

    for guard in on_a {
        lb.release(guard);
    }
    assert_eq!(active(&lb, 0), 50);
    assert_eq!(active(&lb, 1), 0);
    for guard in on_b {
        lb.release(guard);
    }
    assert_eq!(active(&lb, 0), 0);
    assert_eq!(active(&lb, 1), 0);
}

#[test]
fn reload_keeps_health_and_takes_drain_from_config() {
    let mut lb = lb(&["A", "B"], None);
    lb.set_backend_health("A", false);
    lb.update_backends(vec![
        BackendConfig::Detailed { addr: "A".to_string(), drain: false },
        BackendConfig::Detailed { addr: "B".to_string(), drain: true },
        BackendConfig::Simple("C".to_string()),
    ]);
    let a = lb.backend(0).unwrap();
    assert!(!a.healthy);
    assert!(!a.drain);
    let b = lb.backend(1).unwrap();
    assert!(b.healthy);
    assert!(b.drain);
    let c = lb.backend(2).unwrap();
    assert!(c.healthy);
    assert!(!c.drain);
    assert_eq!(c.active_connections, 0);
    assert_eq!(c.rule_name, "rule");
    let (addr, _guard) = lb.next_backend().unwrap();
    assert_eq!(addr, "C");
}

#[test]
fn backend_that_comes_back_starts_anew() {
    let mut lb = lb(&["A"], None);
    let (_, old_guard) = lb.next_backend().unwrap();
    lb.update_backends(simple(&["B"]));
    lb.update_backends(simple(&["A"]));
    assert_eq!(active(&lb, 0), 0);
    let (_, new_guard) = lb.next_backend().unwrap();
    assert_eq!(active(&lb, 0), 1);
    lb.release(old_guard);
    assert_eq!(active(&lb, 0), 1);
    lb.release(new_guard);
    assert_eq!(active(&lb, 0), 0);
}

#[test]
fn counters_follow_guards() {
    let mut lb = lb(&["A", "B", "C"], None);
    let mut guards = Vec::new();
    for _ in 0..7 {
        guards.push(lb.next_backend().unwrap().1);
    }
    assert_eq!((active(&lb, 0), active(&lb, 1), active(&lb, 2)), (3, 2, 2));
    let third = guards.remove(2);
    assert_eq!(third.backend_addr().as_str(), "C");
    lb.release(third);
    assert_eq!((active(&lb, 0), active(&lb, 1), active(&lb, 2)), (3, 2, 1));
    while let Some(guard) = guards.pop() {
        lb.release(guard);
    }
    assert_eq!((active(&lb, 0), active(&lb, 1), active(&lb, 2)), (0, 0, 0));
}

#[test]
fn places_of_backends_that_left_are_given_out_again() {
    let mut lb = lb(&["A"], None);
    assert_eq!(lb.places(), 1);
    for round in 0..20 {
        let addr = format!("B{}", round);
        lb.update_backends(simple(&[addr.as_str()]));
        assert_eq!(lb.backend(0).unwrap().addr, addr);
        assert_eq!(lb.backend(0).unwrap().active_connections, 0);
        assert!(lb.backend(0).unwrap().healthy);
        // The backend that just left still has its place; the one before it
        // has given it up.
        assert_eq!(lb.places(), 2);
    }
}

#[test]
fn place_is_kept_while_a_guard_is_held() {
    let mut lb = lb(&["A"], None);
    let (_, guard) = lb.next_backend().unwrap();
    lb.update_backends(simple(&["B"]));
    lb.update_backends(simple(&["C"]));
    lb.update_backends(simple(&["D"]));
    // A keeps its place for the guard; B, C and D share two.
    assert_eq!(lb.places(), 3);
    assert_eq!(lb.active_connections(&guard), 1);
    lb.release(guard);
    lb.update_backends(simple(&["E"]));
    lb.update_backends(simple(&["F", "G"]));
    assert_eq!(lb.places(), 3);
    assert_eq!(lb.backend(0).unwrap().addr, "F");
    assert_eq!(lb.backend(1).unwrap().addr, "G");
    assert_eq!(lb.backend(0).unwrap().active_connections, 0);
    assert_eq!(lb.backend(1).unwrap().active_connections, 0);
}

#[test]
fn unhealthy_place_given_out_again_starts_healthy() {
    let mut lb = lb(&["A"], None);
    lb.set_backend_health("A", false);
    lb.update_backends(simple(&["B"]));
    lb.update_backends(simple(&["C"]));
    assert_eq!(lb.places(), 2);
    assert!(lb.backend(0).unwrap().healthy);
    assert_eq!(lb.next_backend().unwrap().0, "C");
}
