use yoakore::config::{ModelKind, ModelProvider};
use yoakore::semaphore::{
    admission, endpoint_key, Admission, Semaphore, SemaphoreError, TokenBucket, WaitPlan, UNITS_PER_TOKEN,
};

fn make_provider(name: &str, url: &str, rpm: u32) -> ModelProvider {
    let mut p = ModelProvider::new(ModelKind::Chat, name, url, "key", "model").expect("random id");
    p.requests_per_minute = rpm;
    p
}

#[test]
fn test_basic_rate_limit() {
    let mut sem = Semaphore::new();
    let p = make_provider("openai", "https://api.openai.com/v1", 2);
    sem.configure(&p);

    assert!(sem.check(&p).is_ok());
    assert!(sem.check(&p).is_ok());
    assert!(sem.check(&p).is_err());
}

#[test]
fn test_zero_rpm_means_unlimited() {
    let mut sem = Semaphore::new();
    let p = make_provider("openai", "https://api.openai.com/v1", 0);
    sem.configure(&p);

    for _ in 0..1000 {
        assert!(sem.check(&p).is_ok());
    }
}

#[test]
fn test_same_endpoint_shares_bucket() {
    let mut sem = Semaphore::new();
    let mut p1 = make_provider("openai", "https://api.openai.com/v1", 2);
    p1.id = "id-1".into();
    let mut p2 = make_provider("openai", "https://api.openai.com/v1", 2);
    p2.id = "id-2".into();

    sem.configure(&p1);

    assert!(sem.check(&p1).is_ok());
    assert!(sem.check(&p2).is_ok());
    assert!(sem.check(&p1).is_err());
}

#[test]
fn test_different_endpoints_separate_buckets() {
    let mut sem = Semaphore::new();
    let p1 = make_provider("openai", "https://api.openai.com/v1", 1);
    let p2 = make_provider("openai", "https://api.openai.com/v2", 1);

    sem.configure(&p1);
    sem.configure(&p2);

    assert!(sem.check(&p1).is_ok());
    assert!(sem.check(&p2).is_ok());
}

#[test]
fn test_not_configured() {
    let mut sem = Semaphore::new();
    let p = make_provider("unknown", "http://x", 1);
    assert!(matches!(sem.check(&p), Err(SemaphoreError::NotConfigured)));
}

#[test]
fn test_is_available_unlimited() {
    let mut sem = Semaphore::new();
    let p = make_provider("test", "http://x", 0);
    sem.configure(&p);
    assert!(sem.is_available(&p));
}

#[test]
fn test_configure_all_skips_zero_rpm() {
    let mut sem = Semaphore::new();
    let p1 = make_provider("a", "http://a", 0);
    let p2 = make_provider("b", "http://b", 1);

    sem.configure_all(&vec![p1.clone(), p2.clone()]);

    for _ in 0..100 {
        assert!(sem.check(&p1).is_ok());
    }
    assert!(sem.check(&p2).is_ok());
    assert!(sem.check(&p2).is_err());
}

#[test]
fn burst_at_one_instant_allows_exactly_rpm() {
    let mut sem = Semaphore::new();
    let p = make_provider("x", "http://x", 3);
    sem.configure_at(&p, 1_000);
    for _ in 0..3 {
        assert_eq!(sem.check_at(&p, 1_000), Ok(()));
    }
    // The bucket is empty; a token comes back after 60e9 / 3 nanoseconds.
    assert_eq!(sem.check_at(&p, 1_000), Err(SemaphoreError::Limited { retry_after_nanos: 20_000_000_000 }));
}

#[test]
fn refill_after_time_passes() {
    let mut sem = Semaphore::new();
    let p = make_provider("x", "http://x", 1);
    sem.configure_at(&p, 0);
    assert_eq!(sem.check_at(&p, 0), Ok(()));
    assert!(sem.check_at(&p, 30_000_000_000).is_err());
    // Half a token came back at 30 s; the other half takes 30 s more.
    assert!(!sem.is_available_at(&p, 59_999_999_999));
    assert!(sem.is_available_at(&p, 60_000_000_000));
    assert_eq!(sem.check_at(&p, 60_000_000_000), Ok(()));
}

#[test]
fn configure_keeps_existing_bucket() {
    let mut sem = Semaphore::new();
    let p = make_provider("x", "http://x", 1);
    sem.configure_at(&p, 0);
    assert_eq!(sem.check_at(&p, 0), Ok(()));
    // Configuring again, even as unlimited, leaves the empty bucket in place.
    let mut q = p.clone();
    q.requests_per_minute = 0;
    sem.configure_at(&q, 0);
    assert!(sem.check_at(&p, 0).is_err());
}

#[test]
fn wait_plan_reports_without_refill() {
    let mut sem = Semaphore::new();
    let p = make_provider("x", "http://x", 2);
    let u = make_provider("u", "http://u", 0);
    let n = make_provider("n", "http://n", 2);
    sem.configure_at(&p, 0);
    sem.configure_at(&u, 0);
    assert!(matches!(sem.wait_plan(&p), WaitPlan::Sleep(0)));
    assert!(matches!(sem.wait_plan(&u), WaitPlan::Unlimited));
    assert!(matches!(sem.wait_plan(&n), WaitPlan::NotConfigured));
    assert!(sem.check_at(&p, 0).is_ok());
    assert!(sem.check_at(&p, 0).is_ok());
    assert!(matches!(sem.wait_plan(&p), WaitPlan::Sleep(30_000_000_000)));
}

#[test]
fn admission_decisions() {
    assert_eq!(admission(Ok(())), Admission::Proceed);
    assert_eq!(admission(Err(SemaphoreError::NotConfigured)), Admission::ConfigureAndRetry);
    assert_eq!(
        admission(Err(SemaphoreError::Limited { retry_after_nanos: 5 })),
        Admission::Reject { retry_after_nanos: 5 }
    );
}

#[test]
fn token_bucket_arithmetic() {
    let mut b = TokenBucket::new(60, 0);
    assert!(b.has_token());
    for _ in 0..60 {
        assert!(b.try_consume(0));
    }
    assert!(!b.try_consume(0));
    assert_eq!(b.time_until_available(), 1_000_000_000);
    assert!(b.try_consume(1_000_000_000));
    assert_eq!(UNITS_PER_TOKEN, 60_000_000_000);
}

#[test]
fn endpoint_key_format() {
    let p = make_provider("openai", "https://api.openai.com/v1", 2);
    assert_eq!(endpoint_key(&p), "chat|openai|https://api.openai.com/v1");
}
