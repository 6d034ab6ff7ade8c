use gradelib::bulk::{all_failed, client_error_message};
use gradelib::client::{
    backoff_secs, ideal_concurrency, permits_to_add, rate_limit_wait,
    update_rate_info_from_headers, ETagCache, RateLimitInfo, RetryFailure, RetryLoop, RetryStep,
};
use gradelib::pagination::Pagination;
use gradelib::pull_requests::{pull_request_from_parts, PullRequestBasic, PullRequestDetail};
use gradelib::types::PullRequestInfo;

#[test]
fn rate_limit_wait_past_reset() {
    let now = 1_000_000u64;
    let mut info = RateLimitInfo::default_at(now);
    assert_eq!(info.limit, 5000);
    assert_eq!(info.reset_time, now + 3600);
    assert_eq!(info.resource, "core");
    assert_eq!(rate_limit_wait(&info, now), None);
    let reset = (now + 2).to_string();
    assert!(update_rate_info_from_headers(&mut info, Some("5000"), Some("0"), Some(&reset), None, now));
    assert_eq!(info.remaining, 0);
    assert_eq!(info.reset_time, now + 2);
    assert_eq!(info.last_updated, now);
    let w = rate_limit_wait(&info, now).unwrap();
    assert!(w >= 2);
    assert_eq!(w, 3);
    assert_eq!(rate_limit_wait(&info, now + 2), None);
    assert_eq!(ideal_concurrency(info.remaining, 10), 1);
}

#[test]
fn rate_headers_need_all_three_numbers() {
    let mut info = RateLimitInfo::default_at(7);
    assert!(!update_rate_info_from_headers(&mut info, Some("60"), None, Some("9"), Some("search"), 8));
    assert!(!update_rate_info_from_headers(&mut info, Some("60"), Some("x"), Some("9"), None, 8));
    assert_eq!(info.remaining, 5000);
    assert_eq!(info.last_updated, 7);
    assert!(update_rate_info_from_headers(&mut info, Some("60"), Some("59"), Some("9"), Some("search"), 8));
    assert_eq!(info.limit, 60);
    assert_eq!(info.remaining, 59);
    assert_eq!(info.resource, "search");
}

#[test]
fn adapt_concurrency_levels() {
    assert_eq!(ideal_concurrency(5, 16), 1);
    assert_eq!(ideal_concurrency(50, 16), 4);
    assert_eq!(ideal_concurrency(500, 16), 8);
    assert_eq!(ideal_concurrency(5000, 16), 16);
    assert_eq!(permits_to_add(5, 16, 0), 1);
    assert_eq!(permits_to_add(5, 16, 3), 0);
    assert_eq!(permits_to_add(5000, 16, 3), 13);
}

#[test]
fn retry_decisions() {
    let mut l = RetryLoop::new(3);
    assert!(l.can_attempt());
    assert_eq!(l.after_response(429, Some(Some("5")), None), RetryStep::Wait(5));
    assert_eq!(l.attempts, 1);
    assert_eq!(l.after_response(403, None, Some("0")), RetryStep::Wait(2));
    assert_eq!(l.attempts, 2);
    assert_eq!(l.after_response(403, None, Some("12")), RetryStep::Deliver);
    assert_eq!(l.after_response(304, None, None), RetryStep::Deliver);
    assert_eq!(l.after_response(200, Some(Some("5")), None), RetryStep::Deliver);
    assert_eq!(l.after_response(429, None, Some("0")), RetryStep::Deliver);
    assert_eq!(l.after_response(429, Some(None), None), RetryStep::Wait(60));
    assert!(!l.can_attempt());
    assert_eq!(l.failure(), RetryFailure::RateLimited);
    let mut t = RetryLoop::new(2);
    assert_eq!(t.after_transport_error(), 2);
    assert_eq!(t.after_transport_error(), 4);
    assert!(!t.can_attempt());
    assert_eq!(t.failure(), RetryFailure::Transport);
    assert_eq!(backoff_secs(0), 1);
    assert_eq!(backoff_secs(63), 1u64 << 63);
    assert_eq!(backoff_secs(64), u64::MAX);
}

#[test]
fn etag_cache_keeps_latest() {
    let mut c = ETagCache::new();
    assert_eq!(c.get_etag("u"), None);
    c.update_etag("u", "e1");
    c.update_etag("v", "e2");
    c.update_etag("u", "e3");
    assert_eq!(c.get_etag("u"), Some("e3"));
    assert_eq!(c.get_etag("v"), Some("e2"));
}

#[test]
fn pagination_cap_of_three_full_pages() {
    let mut p = Pagination::new(Some(3));
    let mut requests = 0;
    let mut records = 0;
    while let Some(_page) = p.next_page() {
        requests += 1;
        records += 100;
        p.on_page(100);
    }
    assert_eq!(requests, 3);
    assert_eq!(records, 300);
}

#[test]
fn pagination_stops_on_short_or_empty_page() {
    let mut p = Pagination::new(None);
    assert_eq!(p.next_page(), Some(1));
    p.on_page(100);
    assert_eq!(p.next_page(), Some(2));
    p.on_not_modified();
    assert_eq!(p.next_page(), Some(3));
    p.on_page(99);
    assert_eq!(p.next_page(), None);
    let mut q = Pagination::new(Some(5));
    q.on_page(0);
    assert_eq!(q.next_page(), None);
    assert_eq!(Pagination::new(Some(0)).next_page(), None);
    let mut r = Pagination::new(Some(1));
    r.on_not_modified();
    assert_eq!(r.next_page(), None);
}

fn basic() -> PullRequestBasic {
    PullRequestBasic {
        id: 9,
        number: 4,
        title: "t".to_string(),
        state: "closed".to_string(),
        created_at: "c".to_string(),
        updated_at: "u".to_string(),
        closed_at: Some("x".to_string()),
        merged_at: Some("m".to_string()),
        user_login: "l".to_string(),
        user_id: 2,
        body: None,
        draft: false,
        labels: vec!["bug".to_string()],
    }
}

#[test]
fn pull_request_parts() {
    let p: PullRequestInfo = pull_request_from_parts(basic(), None);
    assert_eq!(p.id, 9);
    assert_eq!(p.comments, 0);
    assert!(p.merged);
    assert_eq!(p.merged_by, None);
    assert_eq!(p.labels, vec!["bug".to_string()]);
    let d = PullRequestDetail {
        mergeable: Some(true),
        merged: false,
        merged_by: Some("z".to_string()),
        comments: 1,
        commits: 2,
        additions: 3,
        deletions: 4,
        changed_files: 5,
    };
    let q = pull_request_from_parts(basic(), Some(d));
    assert!(!q.merged);
    assert_eq!(q.changed_files, 5);
    assert_eq!(q.merged_by.as_deref(), Some("z"));
    assert_eq!(q.mergeable, Some(true));
}

#[test]
fn init_failure_maps_every_url() {
    let msg = client_error_message("no tls");
    assert_eq!(msg, "Failed to create GitHub client: no tls");
    let urls = vec!["a".to_string(), "b".to_string()];
    let r = all_failed::<u8>(&urls, &msg);
    assert_eq!(r.len(), 2);
    assert_eq!(r[1].0, "b");
    assert_eq!(r[1].1, Err(msg.clone()));
}
