use tiphia_core::error::AppError;
use tiphia_core::rate_limit::{
    client_key, comment_key, comment_meta, login_key, shared_counter_key, shared_counter_verdict,
    ClientHeaders, RateLimitTable,
};

fn no_headers() -> ClientHeaders {
    ClientHeaders { forwarded_for: None, real_ip: None, user_agent: None }
}

#[test]
fn client_key_prefers_first_forwarded_ip() {
    let mut headers = no_headers();
    headers.forwarded_for = Some(b"1.1.1.1, 2.2.2.2".to_vec());
    assert_eq!(client_key(&headers), "1.1.1.1");
}

#[test]
fn client_key_falls_back_to_unknown() {
    assert_eq!(client_key(&no_headers()), "unknown");
}

#[test]
fn client_key_uses_real_ip_then_user_agent() {
    let mut headers = no_headers();
    headers.real_ip = Some(b" 3.3.3.3 ".to_vec());
    headers.user_agent = Some(b"curl/8".to_vec());
    assert_eq!(client_key(&headers), "3.3.3.3");
    headers.real_ip = None;
    assert_eq!(client_key(&headers), "curl/8");
}

#[test]
fn client_key_does_not_fall_through_an_unreadable_header() {
    let mut headers = no_headers();
    headers.forwarded_for = Some(vec![0xff, b'1']);
    headers.real_ip = Some(b"4.4.4.4".to_vec());
    assert_eq!(client_key(&headers), "unknown");
    headers.forwarded_for = Some(b" , 5.5.5.5".to_vec());
    assert_eq!(client_key(&headers), "unknown");
}

#[test]
fn limiter_keys_have_their_scope() {
    let mut headers = no_headers();
    headers.forwarded_for = Some(b"1.1.1.1".to_vec());
    assert_eq!(login_key(&headers), "login:1.1.1.1");
    assert_eq!(comment_key(&headers), "comment:1.1.1.1");
    assert_eq!(shared_counter_key("login:x"), "tiphia:rate-limit:login:x");
}

#[test]
fn comment_meta_reads_address_and_agent() {
    let mut headers = no_headers();
    headers.forwarded_for = Some(b"9.9.9.9, 8.8.8.8".to_vec());
    headers.user_agent = Some(b"Mozilla/5.0 (X11)".to_vec());
    let meta = comment_meta(&headers);
    assert_eq!(meta.client_ip.as_deref(), Some("9.9.9.9"));
    assert_eq!(meta.user_agent.as_deref(), Some("Mozilla/5.0 (X11)"));
    let meta = comment_meta(&no_headers());
    assert_eq!(meta.client_ip, None);
    assert_eq!(meta.user_agent, None);
}

#[test]
fn memory_limiter_blocks_after_limit() {
    let mut limiter = RateLimitTable::new();
    let window = 60_000_000_000u128;
    assert!(limiter.check("k".to_owned(), 1, window).is_ok());
    assert!(limiter.check("k".to_owned(), 1, window).is_err());
}

#[test]
fn memory_limiter_window_resets() {
    let mut limiter = RateLimitTable::new();
    assert!(limiter.check_at("k".to_owned(), 2, 100, 0).is_ok());
    assert!(limiter.check_at("k".to_owned(), 2, 100, 10).is_ok());
    assert!(matches!(limiter.check_at("k".to_owned(), 2, 100, 99), Err(AppError::RateLimited)));
    assert!(limiter.check_at("other".to_owned(), 2, 100, 99).is_ok());
    assert!(limiter.check_at("k".to_owned(), 2, 100, 100).is_ok());
}

#[test]
fn zero_limit_turns_limiting_off() {
    let mut limiter = RateLimitTable::new();
    for _ in 0..5 {
        assert!(limiter.check_request("k".to_owned(), 0, 1_000).is_ok());
    }
    assert!(limiter.check_request("k".to_owned(), 1, 60_000_000_000).is_ok());
    assert!(limiter.check_request("k".to_owned(), 1, 60_000_000_000).is_err());
}

#[test]
fn shared_counter_sets_expiry_on_first_request() {
    let (expire, verdict) = shared_counter_verdict(1, 5);
    assert!(expire);
    assert!(verdict.is_ok());
    let (expire, verdict) = shared_counter_verdict(6, 5);
    assert!(!expire);
    assert!(matches!(verdict, Err(AppError::RateLimited)));
}
