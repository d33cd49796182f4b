use l4lb::config::BackendBandwidthConfig;
use l4lb::config::BandwidthLimitConfig;
use l4lb::config::ClientBandwidthConfig;
use l4lb::config::RateLimitConfig;
use l4lb::networking::addr::IpAddr;
use l4lb::traffic::limiter::BandwidthManager;
use l4lb::traffic::limiter::RateLimiter;
use l4lb::traffic::limiter::Readiness;
use l4lb::traffic::limiter::SimpleLimiter;

const SECOND: u64 = 1_000_000_000;

#[test]
fn new_bucket_is_full() {
    let l = SimpleLimiter::new(10, 5, 1000);
    assert_eq!(l.rate_per_sec(), 10);
    assert_eq!(l.burst_size(), 5);
    assert_eq!(l.available_nanos(), 5 * SECOND);
    assert_eq!(l.last_update(), 1000);
}

#[test]
fn check_takes_tokens_only_when_there_are_enough() {
    let mut l = SimpleLimiter::new(10, 5, 0);
    assert!(l.check_n(3, 0).is_ok());
    assert_eq!(l.available_nanos(), 2 * SECOND);
    assert!(l.check_n(3, 0).is_err());
    assert_eq!(l.available_nanos(), 2 * SECOND);
    assert!(l.check_n(2, 0).is_ok());
    assert_eq!(l.available_nanos(), 0);
    assert!(l.check_n(0, 0).is_ok());
    assert!(l.check_n(1, 0).is_err());
}

#[test]
fn refill_is_continuous_and_capped() {
    let mut l = SimpleLimiter::new(10, 5, 0);
    assert!(l.check_n(5, 0).is_ok());
    // 10 tokens per second for 150 ms: one token and a half.
    l.refill(150_000_000);
    assert_eq!(l.available_nanos(), 1_500_000_000);
    assert_eq!(l.last_update(), 150_000_000);
    // One nanosecond earns ten billionths.
    l.refill(150_000_001);
    assert_eq!(l.available_nanos(), 1_500_000_010);
    // A long pause fills the bucket and no more.
    l.refill(100 * SECOND);
    assert_eq!(l.available_nanos(), 5 * SECOND);
    assert_eq!(l.last_update(), 100 * SECOND);
}

#[test]
fn clock_that_stands_or_runs_back_earns_nothing() {
    let mut l = SimpleLimiter::new(10, 5, 1000);
    assert!(l.check_n(5, 1000).is_ok());
    l.refill(1000);
    assert_eq!(l.available_nanos(), 0);
    assert_eq!(l.last_update(), 1000);
    l.refill(10);
    assert_eq!(l.available_nanos(), 0);
    assert_eq!(l.last_update(), 1000);
}

#[test]
fn bucket_without_rate_never_refills() {
    let mut l = SimpleLimiter::new(0, 2, 0);
    assert!(l.check_n(2, 0).is_ok());
    assert!(l.check_n(1, 50 * SECOND).is_err());
    assert_eq!(l.last_update(), 0);
}

#[test]
fn wait_is_the_deficit_over_the_rate_rounded_up() {
    let mut l = SimpleLimiter::new(1_000_000, 65536, 0);
    assert_eq!(l.until_n_ready(65536, 0), Readiness::Ready);
    // 16384 tokens at a million per second.
    assert_eq!(l.until_n_ready(16384, 0), Readiness::RetryAfter(16_384_000));
    assert_eq!(l.until_n_ready(16384, 16_383_999), Readiness::RetryAfter(1));
    assert_eq!(l.until_n_ready(16384, 16_384_000), Readiness::Ready);
    assert_eq!(l.available_nanos(), 0);

    let mut slow = SimpleLimiter::new(3, 1, 0);
    assert_eq!(slow.until_n_ready(1, 0), Readiness::Ready);
    // A third of a second, rounded up to the nanosecond.
    assert_eq!(slow.until_n_ready(1, 0), Readiness::RetryAfter(333_333_334));
    assert_eq!(slow.until_n_ready(1, 333_333_334), Readiness::Ready);
}

#[test]
fn waiting_as_told_is_enough() {
    let mut l = SimpleLimiter::new(7, 3, 0);
    let mut now = 0u64;
    let mut granted = 0;
    for _ in 0..50 {
        match l.until_n_ready(2, now) {
            Readiness::Ready => granted += 1,
            Readiness::RetryAfter(nanos) => {
                now += nanos;
                assert_eq!(l.until_n_ready(2, now), Readiness::Ready);
                granted += 1;
            }
        }
    }
    assert_eq!(granted, 50);
    // 100 tokens, of which 3 were there: 97 earned at 7 per second.
    assert!(now >= 97 * SECOND / 7);
}

#[test]
fn a_window_grants_at_most_what_was_held_and_earned() {
    let mut l = SimpleLimiter::new(1000, 100, 0);
    let mut granted = 0u64;
    let mut now = 0;
    // One tenth of a second: time to earn one burst.
    while now <= SECOND / 10 {
        if l.check_n(10, now).is_ok() {
            granted += 10;
        }
        now += 1_000_000;
    }
    assert!(granted <= 200);
    assert_eq!(granted, 200);
}

#[test]
fn request_limiter_off_allows_everything() {
    let mut rl = RateLimiter::new(RateLimitConfig {
        enabled: false,
        requests_per_second: 0,
        burst: 0,
    });
    for _ in 0..100 {
        assert!(rl.check(IpAddr::V4(1), 0));
    }
}

#[test]
fn request_limiter_admits_the_burst() {
    let mut rl = RateLimiter::new(RateLimitConfig {
        enabled: true,
        requests_per_second: 5,
        burst: 3,
    });
    let ip = IpAddr::V4(0x0a00_0001);
    let admitted = (0..10).filter(|_| rl.check(ip, 77)).count();
    assert_eq!(admitted, 3);
    // Another client has a bucket of its own.
    assert!(rl.check(IpAddr::V4(0x0a00_0002), 77));
    // An IPv6 address with the same number is another client too.
    assert!(rl.check(IpAddr::V6(0x0a00_0001), 77));
    // A fifth of a second later one more request fits.
    assert!(rl.check(ip, 77 + SECOND / 5));
    assert!(!rl.check(ip, 77 + SECOND / 5));
}

#[test]
fn request_limiter_with_a_burst_of_zero_admits_nobody() {
    let mut rl = RateLimiter::new(RateLimitConfig {
        enabled: true,
        requests_per_second: 5,
        burst: 0,
    });
    let ip = IpAddr::V4(0x0a00_0001);
    assert!(!rl.check(ip, 0));
    assert!(!rl.check(ip, 0));
    // A bucket that holds nothing stays empty, whatever it earns.
    assert!(!rl.check(ip, 100 * SECOND));
}

#[test]
fn request_limiter_without_rate_admits_the_burst_once() {
    let mut rl = RateLimiter::new(RateLimitConfig {
        enabled: true,
        requests_per_second: 0,
        burst: 2,
    });
    let ip = IpAddr::V6(1);
    assert!(rl.check(ip, 0));
    assert!(rl.check(ip, 0));
    assert!(!rl.check(ip, 0));
    assert!(!rl.check(ip, 1000 * SECOND));
}

fn shaping(enabled: bool) -> BandwidthLimitConfig {
    BandwidthLimitConfig {
        enabled,
        client: Some(ClientBandwidthConfig { upload_per_sec: 1_000_000, download_per_sec: 10 }),
        backend: Some(BackendBandwidthConfig { upload_per_sec: 2048, download_per_sec: 4096 }),
    }
}

#[test]
fn bandwidth_manager_off_has_no_limits() {
    let mut m = BandwidthManager::new(shaping(false));
    assert!(m.get_client_upload_limiter(IpAddr::V4(1), 0).is_none());
    assert!(m.get_client_download_limiter(IpAddr::V4(1), 0).is_none());
    assert!(m.get_backend_upload_limiter("b".to_string(), 0).is_none());
    assert!(m.get_backend_download_limiter("b".to_string(), 0).is_none());
}

#[test]
fn bandwidth_manager_without_section_has_no_limits() {
    let mut m = BandwidthManager::new(BandwidthLimitConfig {
        enabled: true,
        client: None,
        backend: Some(BackendBandwidthConfig { upload_per_sec: 1, download_per_sec: 1 }),
    });
    assert!(m.get_client_upload_limiter(IpAddr::V4(1), 0).is_none());
    assert!(m.get_client_download_limiter(IpAddr::V4(1), 0).is_none());
    assert!(m.get_backend_upload_limiter("b".to_string(), 0).is_some());
}

#[test]
fn bandwidth_buckets_are_made_on_first_use() {
    let mut m = BandwidthManager::new(shaping(true));
    let ip = IpAddr::V4(7);
    let up = m.get_client_upload_limiter(ip, 5).unwrap();
    assert_eq!(up.rate_per_sec(), 1_000_000);
    assert_eq!(up.burst_size(), 65536);
    assert_eq!(up.available_nanos(), 65536 * SECOND);
    assert_eq!(up.last_update(), 5);
    // Each bucket has the rate that is configured for its kind of flow.
    let down = m.get_client_download_limiter(ip, 5).unwrap();
    assert_eq!(down.rate_per_sec(), 10);
    assert_eq!(down.burst_size(), 65536);
    assert_eq!(m.get_backend_upload_limiter("b".to_string(), 5).unwrap().rate_per_sec(), 2048);
    assert_eq!(m.get_backend_download_limiter("b".to_string(), 5).unwrap().rate_per_sec(), 4096);
}

#[test]
fn bandwidth_buckets_are_found_as_they_were_put_back() {
    let mut m = BandwidthManager::new(shaping(true));
    let ip = IpAddr::V4(7);
    let mut up = m.get_client_upload_limiter(ip, 0).unwrap();
    assert!(up.check_n(65536, 0).is_ok());
    // Not put back yet: the map still holds the full bucket.
    assert_eq!(m.get_client_upload_limiter(ip, 0).unwrap().available_nanos(), 65536 * SECOND);
    m.put_client_upload_limiter(ip, up);
    assert_eq!(m.get_client_upload_limiter(ip, 9).unwrap().available_nanos(), 0);
    // The other maps and the other keys are untouched.
    assert_eq!(m.get_client_download_limiter(ip, 0).unwrap().available_nanos(), 65536 * SECOND);
    assert_eq!(
        m.get_client_upload_limiter(IpAddr::V4(8), 0).unwrap().available_nanos(),
        65536 * SECOND
    );

    let mut b = m.get_backend_download_limiter("k".to_string(), 0).unwrap();
    assert!(b.check_n(1, 0).is_ok());
    m.put_backend_download_limiter("k".to_string(), b);
    assert_eq!(
        m.get_backend_download_limiter("k".to_string(), 0).unwrap().available_nanos(),
        65535 * SECOND
    );
    assert_eq!(
        m.get_backend_download_limiter("other".to_string(), 0).unwrap().available_nanos(),
        65536 * SECOND
    );
    let mut u = m.get_backend_upload_limiter("k".to_string(), 0).unwrap();
    assert!(u.check_n(2, 0).is_ok());
    m.put_backend_upload_limiter("k".to_string(), u);
    assert_eq!(
        m.get_backend_upload_limiter("k".to_string(), 0).unwrap().available_nanos(),
        65534 * SECOND
    );
    let mut d = m.get_client_download_limiter(ip, 0).unwrap();
    assert!(d.check_n(3, 0).is_ok());
    m.put_client_download_limiter(ip, d);
    assert_eq!(m.get_client_download_limiter(ip, 0).unwrap().available_nanos(), 65533 * SECOND);
}

#[test]
fn asking_for_more_than_the_burst_is_never_met() {
    let mut l = SimpleLimiter::new(1000, 5, 0);
    let mut now = 0u64;
    for _ in 0..5 {
        match l.until_n_ready(6, now) {
            Readiness::Ready => panic!("the bucket never holds six tokens"),
            Readiness::RetryAfter(nanos) => now += nanos,
        }
        assert!(l.available_nanos() <= 5 * SECOND);
    }
    assert_eq!(l.until_n_ready(5, now), Readiness::Ready);
}
