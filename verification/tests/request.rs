use aistore::error::{AiStoreError, TransportError};
use aistore::http::{HttpResponse, Method};
use aistore::request::{
    BackoffFactor, ClientExt, Decision, HttpClient, HttpRequestBuilder, RequestBody,
    RequestPolicy, SendState,
};
use aistore::client::{S3Client, S3Config};
use aistore::path::ObjectLocation;
use aistore::time::Timestamp;
use aistore::types::{GetOptions, PutPayload};
use std::time::Duration;

fn client() -> HttpClient {
    HttpClient { timeout: None, connect_timeout: None, default_headers: vec![], https_only: true }
}

fn request(url: &str) -> HttpRequestBuilder {
    client().get_with_retry(url)
}

fn policy(max_retries: u32, max_redirects: u32) -> RequestPolicy {
    RequestPolicy {
        max_retries,
        max_redirects,
        initial_retry_delay: Duration::from_millis(100),
        backoff_factor: BackoffFactor { numerator: 2, denominator: 1 },
        max_retry_delay: Duration::from_secs(10),
    }
}

fn timeout() -> TransportError {
    TransportError { timeout: true, connect: false, request: false, message: "timed out".to_string() }
}

fn redirect(to: &str) -> Result<HttpResponse, TransportError> {
    Ok(HttpResponse::new(307).with_header("location", to))
}

#[test]
fn the_default_policy() {
    let p = RequestPolicy::default();
    assert_eq!(p.max_retries, 3);
    assert_eq!(p.max_redirects, 10);
    assert_eq!(p.initial_retry_delay, Duration::from_millis(100));
    assert_eq!(p.backoff_factor, BackoffFactor { numerator: 2, denominator: 1 });
    assert_eq!(p.max_retry_delay, Duration::from_secs(10));
}

#[test]
fn a_new_request_is_bare() {
    let r = HttpRequestBuilder::new(client(), Method::Post, "http://h/b");
    assert_eq!(r.method, Method::Post);
    assert_eq!(r.url, "http://h/b");
    assert!(r.body.is_none());
    assert!(r.headers.is_empty());
    assert!(r.query_params.is_empty());
    assert_eq!(r.policy.max_retries, 3);
}

#[test]
fn each_method_has_its_starter() {
    let c = client();
    assert_eq!(c.get_with_retry("u").method, Method::Get);
    assert_eq!(c.put_with_retry("u").method, Method::Put);
    assert_eq!(c.post_with_retry("u").method, Method::Post);
    assert_eq!(c.delete_with_retry("u").method, Method::Delete);
    assert_eq!(c.head_with_retry("u").method, Method::Head);
    assert_eq!(c.head_with_retry("http://h/x").url, "http://h/x");
}

#[test]
fn the_builder_gathers_in_order() {
    let r = request("u")
        .header("a", "1")
        .header("b", "2")
        .query("q", "x")
        .query_params(vec![("r".to_string(), "y".to_string()), ("s".to_string(), "z".to_string())])
        .body(RequestBody::Text("hello".to_string()))
        .policy(policy(7, 8));
    assert_eq!(r.headers, vec![("a".to_string(), "1".to_string()), ("b".to_string(), "2".to_string())]);
    assert_eq!(
        r.query_params,
        vec![
            ("q".to_string(), "x".to_string()),
            ("r".to_string(), "y".to_string()),
            ("s".to_string(), "z".to_string())
        ]
    );
    assert!(matches!(r.body, Some(RequestBody::Text(ref t)) if t == "hello"));
    assert_eq!(r.policy.max_retries, 7);
    assert_eq!(r.policy.max_redirects, 8);
}

#[test]
fn bodies_as_bytes() {
    assert_eq!(RequestBody::Bytes(vec![1, 2, 3]).to_bytes(), vec![1, 2, 3]);
    assert_eq!(RequestBody::Text("hé".to_string()).to_bytes(), "hé".as_bytes().to_vec());
    let payload = PutPayload { chunks: vec![vec![1, 2], vec![], vec![3]] };
    assert_eq!(RequestBody::Payload(payload).to_bytes(), vec![1, 2, 3]);
}

#[test]
fn retryable_statuses() {
    for status in [408u16, 429, 500, 502, 503, 504] {
        assert!(HttpRequestBuilder::is_retryable_status(status), "{}", status);
    }
    for status in [200u16, 204, 301, 400, 401, 403, 404, 409, 412, 501, 505] {
        assert!(!HttpRequestBuilder::is_retryable_status(status), "{}", status);
    }
}

#[test]
fn retryable_errors() {
    let flags = |timeout, connect, request| AiStoreError::Request {
        source: TransportError { timeout, connect, request, message: String::new() },
    };
    assert!(HttpRequestBuilder::is_retryable_error(&flags(true, false, false)));
    assert!(HttpRequestBuilder::is_retryable_error(&flags(false, true, false)));
    assert!(HttpRequestBuilder::is_retryable_error(&flags(false, false, true)));
    assert!(!HttpRequestBuilder::is_retryable_error(&flags(false, false, false)));
    assert!(!HttpRequestBuilder::is_retryable_error(&AiStoreError::Http {
        status: 503,
        message: String::new()
    }));
}

#[test]
fn the_delay_doubles_up_to_the_cap() {
    let p = RequestPolicy::default();
    let mut delay = p.initial_retry_delay;
    let mut seen = vec![];
    for _ in 0..9 {
        seen.push(delay.as_millis());
        delay = p.next_retry_delay(delay);
    }
    assert_eq!(seen, vec![100, 200, 400, 800, 1600, 3200, 6400, 10000, 10000]);
}

#[test]
fn a_fractional_factor_rounds_down_to_nanoseconds() {
    let p = RequestPolicy {
        backoff_factor: BackoffFactor { numerator: 3, denominator: 2 },
        ..policy(3, 3)
    };
    assert_eq!(p.next_retry_delay(Duration::from_millis(100)), Duration::from_millis(150));
    assert_eq!(p.next_retry_delay(Duration::from_nanos(1)), Duration::from_nanos(1));
    assert_eq!(p.next_retry_delay(Duration::from_nanos(3)), Duration::from_nanos(4));
    assert_eq!(p.next_retry_delay(Duration::from_secs(9)), Duration::from_secs(10));
}

#[test]
fn a_shrinking_factor_and_a_zero_denominator() {
    let half = RequestPolicy {
        backoff_factor: BackoffFactor { numerator: 1, denominator: 2 },
        ..policy(3, 3)
    };
    assert_eq!(half.next_retry_delay(Duration::from_millis(100)), Duration::from_millis(50));
    let unbounded = RequestPolicy {
        backoff_factor: BackoffFactor { numerator: 1, denominator: 0 },
        ..policy(3, 3)
    };
    assert_eq!(unbounded.next_retry_delay(Duration::from_millis(100)), Duration::from_secs(10));
    let zero = RequestPolicy {
        backoff_factor: BackoffFactor { numerator: 0, denominator: 1 },
        ..policy(3, 3)
    };
    assert_eq!(zero.next_retry_delay(Duration::from_millis(100)), Duration::from_nanos(0));
}

#[test]
fn the_longest_durations_do_not_overflow() {
    let p = RequestPolicy {
        max_retries: 1,
        max_redirects: 1,
        initial_retry_delay: Duration::MAX,
        backoff_factor: BackoffFactor { numerator: u32::MAX, denominator: 1 },
        max_retry_delay: Duration::MAX,
    };
    assert_eq!(p.next_retry_delay(Duration::MAX), Duration::MAX);
    let request = request("u").policy(p);
    assert_eq!(request.next_retry_delay(Duration::from_secs(1)), Duration::from_secs(u32::MAX as u64));
}

#[test]
fn retryable_statuses_are_tried_max_retries_plus_one_times() {
    for max_retries in [0u32, 1, 3, 5] {
        let script: Vec<Result<HttpResponse, TransportError>> =
            (0..20).map(|i| Ok(HttpResponse::new(503).with_body(&format!("attempt {}", i)))).collect();
        let report = request("u").policy(policy(max_retries, 10)).send(script);
        assert_eq!(report.attempts, max_retries as usize + 1);
        match report.result {
            Some(Ok(response)) => {
                assert_eq!(response.status, 503);
                assert_eq!(response.body, format!("attempt {}", max_retries));
            }
            other => panic!("unexpected {:?}", other),
        }
        assert_eq!(report.waits.len(), max_retries as usize);
    }
}

#[test]
fn transient_failures_are_tried_max_retries_plus_one_times() {
    let script: Vec<Result<HttpResponse, TransportError>> = (0..10).map(|_| Err(timeout())).collect();
    let report = request("u").policy(policy(3, 10)).send(script);
    assert_eq!(report.attempts, 4);
    assert!(matches!(
        report.result,
        Some(Err(AiStoreError::Request { ref source })) if source.message == "timed out"
    ));
}

#[test]
fn the_waits_follow_the_backoff() {
    let script: Vec<Result<HttpResponse, TransportError>> =
        (0..10).map(|_| Ok(HttpResponse::new(500))).collect();
    let report = request("u").policy(policy(5, 10)).send(script);
    assert_eq!(
        report.waits,
        vec![
            Duration::from_millis(100),
            Duration::from_millis(200),
            Duration::from_millis(400),
            Duration::from_millis(800),
            Duration::from_millis(1600)
        ]
    );
}

#[test]
fn a_retry_that_succeeds_is_invisible() {
    let script = vec![Err(timeout()), Ok(HttpResponse::new(502)), Ok(HttpResponse::new(200).with_body("ok"))];
    let report = request("u").send(script);
    assert_eq!(report.attempts, 3);
    assert!(matches!(report.result, Some(Ok(ref r)) if r.status == 200 && r.body == "ok"));
    assert_eq!(report.waits, vec![Duration::from_millis(100), Duration::from_millis(200)]);
}

#[test]
fn a_failure_that_is_not_transient_ends_at_once() {
    let broken =
        TransportError { timeout: false, connect: false, request: false, message: "builder".to_string() };
    let report = request("u").send(vec![Err(broken), Ok(HttpResponse::new(200))]);
    assert_eq!(report.attempts, 1);
    assert!(matches!(report.result, Some(Err(AiStoreError::Request { .. }))));
    assert!(report.waits.is_empty());
}

#[test]
fn statuses_that_are_not_retryable_are_delivered_as_they_are() {
    for status in [200u16, 204, 400, 404, 412] {
        let report = request("u").send(vec![Ok(HttpResponse::new(status)), Ok(HttpResponse::new(200))]);
        assert_eq!(report.attempts, 1);
        assert!(matches!(report.result, Some(Ok(ref r)) if r.status == status));
    }
}

#[test]
fn a_chain_of_exactly_max_redirects_succeeds() {
    let mut script = vec![];
    for i in 0..4 {
        script.push(redirect(&format!("http://h/{}", i)));
    }
    script.push(Ok(HttpResponse::new(200).with_body("there")));
    let report = request("http://h/start").policy(policy(3, 4)).send(script);
    assert_eq!(report.attempts, 5);
    assert_eq!(report.url, "http://h/3");
    assert!(matches!(report.result, Some(Ok(ref r)) if r.body == "there"));
    assert!(report.waits.is_empty());
}

#[test]
fn a_chain_of_max_redirects_plus_one_is_too_long() {
    let mut script = vec![];
    for i in 0..5 {
        script.push(redirect(&format!("http://h/{}", i)));
    }
    script.push(Ok(HttpResponse::new(200)));
    let report = request("http://h/start").policy(policy(3, 4)).send(script);
    assert_eq!(report.attempts, 5);
    assert!(matches!(report.result, Some(Err(AiStoreError::TooManyRedirects { limit: 4 }))));
}

#[test]
fn no_redirect_is_followed_when_none_is_allowed() {
    let report = request("u").policy(policy(3, 0)).send(vec![redirect("v")]);
    assert_eq!(report.attempts, 1);
    assert!(matches!(report.result, Some(Err(AiStoreError::TooManyRedirects { limit: 0 }))));
    assert_eq!(report.url, "u");
}

#[test]
fn a_redirect_without_a_target_fails() {
    let report = request("u").send(vec![Ok(HttpResponse::new(302))]);
    assert_eq!(report.attempts, 1);
    assert!(matches!(
        report.result,
        Some(Err(AiStoreError::RedirectWithoutLocation { status: 302 }))
    ));
    let report = request("u").send(vec![Ok(HttpResponse::new(301).with_opaque_header("Location"))]);
    assert!(matches!(
        report.result,
        Some(Err(AiStoreError::RedirectWithoutLocation { status: 301 }))
    ));
}

#[test]
fn redirects_and_retries_count_apart() {
    let script = vec![
        redirect("a"),
        Ok(HttpResponse::new(503)),
        redirect("b"),
        Err(timeout()),
        Ok(HttpResponse::new(200)),
    ];
    let report = request("u").policy(policy(2, 2)).send(script);
    assert_eq!(report.attempts, 5);
    assert_eq!(report.url, "b");
    assert!(matches!(report.result, Some(Ok(ref r)) if r.status == 200));
    assert_eq!(report.waits, vec![Duration::from_millis(100), Duration::from_millis(200)]);
}

#[test]
fn an_exchange_that_breaks_off_has_no_result() {
    let report = request("u").send(vec![]);
    assert_eq!(report.attempts, 0);
    assert!(report.result.is_none());
    let report = request("u").send(vec![Ok(HttpResponse::new(503)), redirect("v")]);
    assert_eq!(report.attempts, 2);
    assert!(report.result.is_none());
    assert_eq!(report.url, "v");
}

#[test]
fn the_steps_can_be_taken_one_by_one() {
    let p = policy(1, 1);
    let mut state = SendState::new(&p, "http://h/a");
    assert_eq!(state.url, "http://h/a");
    let redirected = HttpResponse::new(308).with_header("Location", "http://h/b");
    assert!(matches!(state.on_response(&p, &redirected), Decision::Redirect));
    assert_eq!(state.url, "http://h/b");
    assert_eq!(state.redirects, 1);
    match state.on_error(&p, &timeout()) {
        Decision::Retry { wait } => assert_eq!(wait, Duration::from_millis(100)),
        other => panic!("unexpected {:?}", other),
    }
    assert_eq!(state.retries, 1);
    assert_eq!(state.retry_delay, Duration::from_millis(200));
    assert!(matches!(state.on_response(&p, &HttpResponse::new(500)), Decision::Deliver));
    assert!(matches!(
        state.on_response(&p, &redirected),
        Decision::Fail(AiStoreError::TooManyRedirects { limit: 1 })
    ));
    assert!(matches!(state.on_error(&p, &timeout()), Decision::Fail(AiStoreError::Request { .. })));
}

#[test]
fn redirecting_statuses() {
    for status in [300u16, 301, 302, 303, 305, 307, 308, 399] {
        assert!(HttpRequestBuilder::is_redirecting_status(status), "{}", status);
    }
    for status in [200u16, 299, 304, 400, 412, 500] {
        assert!(!HttpRequestBuilder::is_redirecting_status(status), "{}", status);
    }
}

#[test]
fn a_304_is_delivered_not_followed() {
    let report = request("u").send(vec![Ok(HttpResponse::new(304)), Ok(HttpResponse::new(200))]);
    assert_eq!(report.attempts, 1);
    assert!(matches!(report.result, Some(Ok(ref r)) if r.status == 304));
    assert_eq!(report.url, "u");
    assert!(report.waits.is_empty());

    let with_target = HttpResponse::new(304).with_header("location", "http://h/other");
    let report = request("u").send(vec![Ok(with_target), Ok(HttpResponse::new(200))]);
    assert_eq!(report.attempts, 1);
    assert!(matches!(report.result, Some(Ok(ref r)) if r.status == 304));
    assert_eq!(report.url, "u");

    let report = request("u").policy(policy(0, 0)).send(vec![Ok(HttpResponse::new(304))]);
    assert!(matches!(report.result, Some(Ok(ref r)) if r.status == 304));
}

#[test]
fn a_304_is_delivered_after_redirections_and_retries() {
    let script = vec![redirect("v"), Ok(HttpResponse::new(503)), Ok(HttpResponse::new(304))];
    let report = request("u").policy(policy(1, 1)).send(script);
    assert_eq!(report.attempts, 3);
    assert_eq!(report.url, "v");
    assert!(matches!(report.result, Some(Ok(ref r)) if r.status == 304));
}

#[test]
fn a_304_step_by_step() {
    let p = policy(3, 3);
    let mut state = SendState::new(&p, "http://h/a");
    assert!(matches!(state.on_response(&p, &HttpResponse::new(304)), Decision::Deliver));
    assert_eq!(state.url, "http://h/a");
    assert_eq!(state.redirects, 0);
    assert_eq!(state.retries, 0);
    assert!(matches!(state.on_response(&p, &HttpResponse::new(412)), Decision::Deliver));
}

#[test]
fn a_conditional_get_from_request_to_result() {
    let client = S3Client::new(S3Config { url: "http://h/s3/b".to_string() }, client());
    let location = ObjectLocation::parse("a/b").unwrap();
    let mut options = GetOptions::new();
    options.if_none_match = Some("\"tag\"".to_string());
    let now = Timestamp::new(1_700_000_000, 0);

    let get = client.get_object(&location, &options).unwrap();
    assert_eq!(get.headers, vec![("if-none-match".to_string(), "\"tag\"".to_string())]);
    let report = get.send(vec![Ok(HttpResponse::new(304))]);
    let answer = report.result.unwrap().unwrap();
    match S3Client::get_object_result(&location, options.head, &answer, now) {
        Err(AiStoreError::NotModified { path }) => assert_eq!(path.as_str(), "a/b"),
        other => panic!("unexpected {:?}", other),
    }

    let get = client.get_object(&location, &options).unwrap();
    let report = get.send(vec![Ok(HttpResponse::new(412))]);
    let answer = report.result.unwrap().unwrap();
    assert!(matches!(
        S3Client::get_object_result(&location, options.head, &answer, now),
        Err(AiStoreError::PreconditionFailed { .. })
    ));
}
