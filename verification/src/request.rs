//! One logical HTTP operation: the request as a value, and the rules by
//! which it is sent again after a redirection or a transient failure.
//!
//! Nothing here touches the network. [`SendState::on_response`] and
//! [`SendState::on_error`] say, after each attempt, what is to happen next;
//! whoever owns the transport performs it. [`HttpRequestBuilder::send`]
//! runs the same rules over a recorded exchange.

use crate::error::{is_redirection, AiStoreError, ErrorView, TransportError, TransportErrorView};
use crate::http::{header_text, HttpResponse, Method, ResponseView};
use crate::text::copy_text;
use crate::time::{duration_nanos, duration_of};
use crate::types::{concat_bytes, copy_bytes, PutPayload};
use std::time::Duration;
use vstd::prelude::*;
use vstd::string::StrSliceExecFns;

verus! {

// ---------------------------------------------------------------------
// Policy
// ---------------------------------------------------------------------

/// The factor by which the delay grows from one retry to the next, as the
/// fraction `numerator / denominator`. A zero denominator stands for a
/// factor without bound: the delay jumps to its cap at once.
#[derive(Clone, Copy, Debug, PartialEq, Eq, Structural)]
pub struct BackoffFactor {
    pub numerator: u32,
    pub denominator: u32,
}

/// How often a request is sent again, and how long it waits in between.
#[derive(Clone, Copy, Debug)]
pub struct RequestPolicy {
    /// How many times a transient failure is answered by another attempt.
    pub max_retries: u32,
    /// How many redirections are followed.
    pub max_redirects: u32,
    /// The wait before the first retry.
    pub initial_retry_delay: Duration,
    /// The growth of the wait from each retry to the next.
    pub backoff_factor: BackoffFactor,
    /// The longest wait between two retries.
    pub max_retry_delay: Duration,
}

/// `delay * numerator / denominator`, rounded down. The denominator is not zero.
pub open spec fn scaled(delay: nat, factor: BackoffFactor) -> nat {
    ((delay * factor.numerator) / (factor.denominator as int)) as nat
}

/// The wait that follows a wait of `delay`: `delay` times the factor, but
/// no more than `cap`.
pub open spec fn next_delay(delay: nat, factor: BackoffFactor, cap: nat) -> nat {
    if factor.denominator == 0 {
        cap
    } else if scaled(delay, factor) < cap {
        scaled(delay, factor)
    } else {
        cap
    }
}

/// `delay` scaled by the factor `n` times over, with no cap.
pub open spec fn grown(delay: nat, factor: BackoffFactor, n: nat) -> nat
    decreases n,
{
    if n == 0 {
        delay
    } else {
        scaled(grown(delay, factor, (n - 1) as nat), factor)
    }
}

/// `base` to the power `n`.
pub open spec fn power(base: nat, n: nat) -> nat
    decreases n,
{
    if n == 0 {
        1
    } else {
        base * power(base, (n - 1) as nat)
    }
}

impl RequestPolicy {
    /// The first wait in nanoseconds.
    pub open spec fn initial_nanos(&self) -> nat {
        duration_nanos(self.initial_retry_delay)
    }

    /// The longest wait in nanoseconds.
    pub open spec fn cap_nanos(&self) -> nat {
        duration_nanos(self.max_retry_delay)
    }

    /// The wait, in nanoseconds, that is due once `n` retries have been made.
    pub open spec fn delay_after(&self, n: nat) -> nat
        decreases n,
    {
        if n == 0 {
            self.initial_nanos()
        } else {
            next_delay(self.delay_after((n - 1) as nat), self.backoff_factor, self.cap_nanos())
        }
    }

    /// The wait that follows a wait of `current`.
    pub fn next_retry_delay(&self, current: Duration) -> (next: Duration)
        ensures
            duration_nanos(next) == next_delay(
                duration_nanos(current),
                self.backoff_factor,
                self.cap_nanos(),
            ),
    {
        let cap: u128 = self.max_retry_delay.as_nanos();
        if self.backoff_factor.denominator == 0 {
            return self.max_retry_delay;
        }
        let delay: u128 = current.as_nanos();
        let numerator: u128 = self.backoff_factor.numerator as u128;
        let denominator: u128 = self.backoff_factor.denominator as u128;
        assert(delay * numerator <= u128::MAX) by (nonlinear_arith)
            requires
                delay < 0x1_0000_0000_0000_0000 * 1_000_000_000,
                numerator < 0x1_0000_0000,
        ;
        let product: u128 = delay * numerator;
        let grown: u128 = product / denominator;
        if grown < cap {
            duration_of(grown)
        } else {
            self.max_retry_delay
        }
    }
}

impl Default for RequestPolicy {
    /// Three retries, ten redirections, a first wait of 100 ms that doubles
    /// each time, and no wait above ten seconds.
    fn default() -> (policy: RequestPolicy)
        ensures
            is_default_policy(policy),
    {
        RequestPolicy {
            max_retries: 3,
            max_redirects: 10,
            initial_retry_delay: Duration::new(0, 100_000_000),
            backoff_factor: BackoffFactor { numerator: 2, denominator: 1 },
            max_retry_delay: Duration::new(10, 0),
        }
    }
}

proof fn lemma_scaled_monotonic(a: nat, b: nat, factor: BackoffFactor)
    requires
        a <= b,
        factor.denominator > 0,
    ensures
        scaled(a, factor) <= scaled(b, factor),
{
    let n = factor.numerator as int;
    let d = factor.denominator as int;
    assert(a * n <= b * n) by (nonlinear_arith)
        requires
            a <= b,
            0 <= n,
    ;
    vstd::arithmetic::div_mod::lemma_div_is_ordered(a * n, b * n, d);
}

proof fn lemma_scaled_grows(a: nat, factor: BackoffFactor)
    requires
        factor.denominator > 0,
        factor.numerator >= factor.denominator,
    ensures
        scaled(a, factor) >= a,
{
    let n = factor.numerator as int;
    let d = factor.denominator as int;
    assert(a * d <= a * n) by (nonlinear_arith)
        requires
            d <= n,
            0 <= a,
    ;
    vstd::arithmetic::div_mod::lemma_div_is_ordered(a * d, a * n, d);
    vstd::arithmetic::div_mod::lemma_div_multiples_vanish(a as int, d);
    assert(a * d == d * a) by (nonlinear_arith);
}

proof fn lemma_scaled_shrinks(a: nat, factor: BackoffFactor)
    requires
        factor.denominator > 0,
        factor.numerator <= factor.denominator,
    ensures
        scaled(a, factor) <= a,
{
    let n = factor.numerator as int;
    let d = factor.denominator as int;
    assert(a * n <= a * d) by (nonlinear_arith)
        requires
            n <= d,
            0 <= a,
    ;
    vstd::arithmetic::div_mod::lemma_div_is_ordered(a * n, a * d, d);
    vstd::arithmetic::div_mod::lemma_div_multiples_vanish(a as int, d);
    assert(a * d == d * a) by (nonlinear_arith);
}

proof fn lemma_grown_shrinks(delay: nat, factor: BackoffFactor, n: nat)
    requires
        factor.denominator > 0,
        factor.numerator <= factor.denominator,
    ensures
        grown(delay, factor, n) <= delay,
    decreases n,
{
    if n > 0 {
        lemma_grown_shrinks(delay, factor, (n - 1) as nat);
        lemma_scaled_shrinks(grown(delay, factor, (n - 1) as nat), factor);
    }
}

/// Under any factor, whole or not: the wait after `n` retries is the first
/// wait scaled `n` times over, each time rounded down to whole
/// nanoseconds, and cut down to the cap. This holds where the first wait
/// is itself within the cap.
pub proof fn lemma_backoff_delay(policy: RequestPolicy, n: nat)
    requires
        policy.backoff_factor.denominator > 0,
        policy.initial_nanos() <= policy.cap_nanos(),
    ensures
        policy.delay_after(n) == if grown(policy.initial_nanos(), policy.backoff_factor, n)
            < policy.cap_nanos() {
            grown(policy.initial_nanos(), policy.backoff_factor, n)
        } else {
            policy.cap_nanos()
        },
    decreases n,
{
    if n > 0 {
        let f = policy.backoff_factor;
        let cap = policy.cap_nanos();
        let m = (n - 1) as nat;
        let g = grown(policy.initial_nanos(), f, m);
        lemma_backoff_delay(policy, m);
        if g >= cap {
            if f.numerator <= f.denominator {
                lemma_grown_shrinks(policy.initial_nanos(), f, m);
            } else {
                lemma_scaled_grows(cap, f);
                lemma_scaled_monotonic(cap, g, f);
            }
        }
    }
}

/// With a whole factor nothing is rounded: the first wait scaled `n` times
/// over is `initial * factor^n`.
pub proof fn lemma_grown_whole_factor(delay: nat, factor: BackoffFactor, n: nat)
    requires
        factor.denominator == 1,
    ensures
        grown(delay, factor, n) == delay * power(factor.numerator as nat, n),
    decreases n,
{
    let b = factor.numerator as nat;
    if n > 0 {
        let m = (n - 1) as nat;
        lemma_grown_whole_factor(delay, factor, m);
        let p = power(b, m);
        assert((delay * p) * b == delay * (b * p)) by (nonlinear_arith);
    } else {
        assert(power(b, 0) == 1);
    }
}

/// The smaller of two numbers.
pub open spec fn least(a: nat, b: nat) -> nat {
    if a < b {
        a
    } else {
        b
    }
}

/// The backoff formula: under a policy with a whole factor, whose first
/// wait is within the cap, the wait after `n` retries is
/// `min(initial * factor^n, cap)`.
pub proof fn lemma_backoff_formula(policy: RequestPolicy, n: nat)
    requires
        policy.backoff_factor.denominator == 1,
        policy.initial_nanos() <= policy.cap_nanos(),
    ensures
        policy.delay_after(n) == least(
            policy.initial_nanos() * power(policy.backoff_factor.numerator as nat, n),
            policy.cap_nanos(),
        ),
{
    lemma_backoff_delay(policy, n);
    lemma_grown_whole_factor(policy.initial_nanos(), policy.backoff_factor, n);
}

// ---------------------------------------------------------------------
// The request as a value
// ---------------------------------------------------------------------

/// A list of pairs of strings as a mathematical value.
pub open spec fn pairs_view(pairs: Seq<(String, String)>) -> Seq<(Seq<char>, Seq<char>)> {
    pairs.map_values(|p: (String, String)| (p.0@, p.1@))
}

/// A copy of a list of pairs of strings.
pub fn copy_pairs(pairs: &Vec<(String, String)>) -> (out: Vec<(String, String)>)
    ensures
        pairs_view(out@) == pairs_view(pairs@),
{
    let mut out: Vec<(String, String)> = Vec::new();
    let mut i: usize = 0;
    while i < pairs.len()
        invariant
            i <= pairs.len(),
            out@.len() == i,
            forall|k: int|
                0 <= k < i ==> out@[k].0@ == pairs@[k].0@ && out@[k].1@ == pairs@[k].1@,
        decreases pairs.len() - i,
    {
        out.push((copy_text(pairs[i].0.as_str()), copy_text(pairs[i].1.as_str())));
        i += 1;
    }
    out
}

/// What a request carries: raw bytes, a payload in chunks, or text.
#[derive(Debug)]
pub enum RequestBody {
    Bytes(Vec<u8>),
    Payload(PutPayload),
    Text(String),
}

/// [`RequestBody`] as a mathematical value.
pub enum BodyView {
    Bytes(Seq<u8>),
    Payload(Seq<Seq<u8>>),
    Text(Seq<char>),
}

/// The bytes that go over the wire for a body: the bytes themselves, the
/// chunks one after the other, or the text in UTF-8.
pub open spec fn body_bytes(body: BodyView) -> Seq<u8> {
    match body {
        BodyView::Bytes(b) => b,
        BodyView::Payload(chunks) => concat_bytes(chunks),
        BodyView::Text(t) => vstd::utf8::encode_utf8(t),
    }
}

impl View for RequestBody {
    type V = BodyView;

    open spec fn view(&self) -> BodyView {
        match self {
            RequestBody::Bytes(b) => BodyView::Bytes(b@),
            RequestBody::Payload(p) => BodyView::Payload(p@),
            RequestBody::Text(t) => BodyView::Text(t@),
        }
    }
}

impl RequestBody {
    /// The bytes that go over the wire for this body.
    pub fn to_bytes(&self) -> (bytes: Vec<u8>)
        ensures
            bytes@ == body_bytes(self@),
    {
        match self {
            RequestBody::Bytes(b) => copy_bytes(b),
            RequestBody::Payload(p) => p.to_bytes(),
            RequestBody::Text(t) => t.as_str().as_bytes_vec(),
        }
    }
}

/// The settings of the HTTP client that carries the requests.
#[derive(Debug)]
pub struct HttpClient {
    /// The time allowed for a whole request.
    pub timeout: Option<Duration>,
    /// The time allowed for setting up the connection.
    pub connect_timeout: Option<Duration>,
    /// Headers that go with every request.
    pub default_headers: Vec<(String, String)>,
    /// Refuse plain HTTP.
    pub https_only: bool,
}

/// [`HttpClient`] as a mathematical value.
pub struct ClientView {
    pub timeout: Option<Duration>,
    pub connect_timeout: Option<Duration>,
    pub default_headers: Seq<(Seq<char>, Seq<char>)>,
    pub https_only: bool,
}

impl View for HttpClient {
    type V = ClientView;

    open spec fn view(&self) -> ClientView {
        ClientView {
            timeout: self.timeout,
            connect_timeout: self.connect_timeout,
            default_headers: pairs_view(self.default_headers@),
            https_only: self.https_only,
        }
    }
}

impl HttpClient {
    /// A copy of these settings.
    pub fn duplicate(&self) -> (copy: HttpClient)
        ensures
            copy@ == self@,
    {
        HttpClient {
            timeout: self.timeout,
            connect_timeout: self.connect_timeout,
            default_headers: copy_pairs(&self.default_headers),
            https_only: self.https_only,
        }
    }
}

/// A request in the making: where it goes, what it carries, and the policy
/// under which it is sent.
#[derive(Debug)]
pub struct HttpRequestBuilder {
    pub client: HttpClient,
    pub method: Method,
    pub url: String,
    pub body: Option<RequestBody>,
    pub headers: Vec<(String, String)>,
    pub query_params: Vec<(String, String)>,
    pub policy: RequestPolicy,
}

/// [`HttpRequestBuilder`] as a mathematical value.
pub struct RequestView {
    pub client: ClientView,
    pub method: Method,
    pub url: Seq<char>,
    pub body: Option<BodyView>,
    pub headers: Seq<(Seq<char>, Seq<char>)>,
    pub query_params: Seq<(Seq<char>, Seq<char>)>,
    pub policy: RequestPolicy,
}

/// What the body of a request is, as a mathematical value.
pub open spec fn body_view(body: Option<RequestBody>) -> Option<BodyView> {
    match body {
        Some(b) => Some(b@),
        None => None,
    }
}

impl View for HttpRequestBuilder {
    type V = RequestView;

    open spec fn view(&self) -> RequestView {
        RequestView {
            client: self.client@,
            method: self.method,
            url: self.url@,
            body: body_view(self.body),
            headers: pairs_view(self.headers@),
            query_params: pairs_view(self.query_params@),
            policy: self.policy,
        }
    }
}

/// Whether `policy` is the default one.
pub open spec fn is_default_policy(policy: RequestPolicy) -> bool {
    &&& policy.max_retries == 3
    &&& policy.max_redirects == 10
    &&& policy.initial_nanos() == 100_000_000
    &&& policy.backoff_factor == (BackoffFactor { numerator: 2, denominator: 1 })
    &&& policy.cap_nanos() == 10_000_000_000
}

/// Whether `request` is the request of the given parts, made for `client`
/// and sent under the default policy.
pub open spec fn is_request(
    request: RequestView,
    client: ClientView,
    method: Method,
    url: Seq<char>,
    headers: Seq<(Seq<char>, Seq<char>)>,
    query_params: Seq<(Seq<char>, Seq<char>)>,
    body: Option<BodyView>,
) -> bool {
    &&& request.client == client
    &&& request.method == method
    &&& request.url == url
    &&& request.headers == headers
    &&& request.query_params == query_params
    &&& request.body == body
    &&& is_default_policy(request.policy)
}

impl HttpRequestBuilder {
    /// A request of the given method to `url`, with no body, header or
    /// query parameter, under the default policy.
    pub fn new(client: HttpClient, method: Method, url: &str) -> (request: HttpRequestBuilder)
        ensures
            is_fresh_request(request@, client@, method, url@),
    {
        let request = HttpRequestBuilder {
            client,
            method,
            url: copy_text(url),
            body: None,
            headers: Vec::new(),
            query_params: Vec::new(),
            policy: RequestPolicy::default(),
        };
        assert(request@.headers =~= Seq::<(Seq<char>, Seq<char>)>::empty());
        request
    }

    /// Sets the body.
    pub fn body(self, body: RequestBody) -> (request: HttpRequestBuilder)
        ensures
            request@ == (RequestView { body: Some(body@), ..self@ }),
    {
        let mut request = self;
        request.body = Some(body);
        request
    }

    /// Adds a header after those already there.
    pub fn header(self, name: &str, value: &str) -> (request: HttpRequestBuilder)
        ensures
            request@ == (RequestView { headers: self@.headers.push((name@, value@)), ..self@ }),
    {
        let mut request = self;
        let ghost before = request@.headers;
        request.headers.push((copy_text(name), copy_text(value)));
        assert(request@.headers =~= before.push((name@, value@)));
        request
    }

    /// Adds a query parameter after those already there.
    pub fn query(self, name: &str, value: &str) -> (request: HttpRequestBuilder)
        ensures
            request@ == (RequestView {
                query_params: self@.query_params.push((name@, value@)),
                ..self@
            }),
    {
        let mut request = self;
        let ghost before = request@.query_params;
        request.query_params.push((copy_text(name), copy_text(value)));
        assert(request@.query_params =~= before.push((name@, value@)));
        request
    }

    /// Adds several query parameters, in their order, after those already there.
    pub fn query_params(self, params: Vec<(String, String)>) -> (request: HttpRequestBuilder)
        ensures
            request@ == (RequestView {
                query_params: self@.query_params + pairs_view(params@),
                ..self@
            }),
    {
        let mut request = self;
        let mut params = params;
        let ghost before = request@.query_params;
        let ghost added = pairs_view(params@);
        request.query_params.append(&mut params);
        assert(request@.query_params =~= before + added);
        request
    }

    /// Sets the policy.
    pub fn policy(self, policy: RequestPolicy) -> (request: HttpRequestBuilder)
        ensures
            request@ == (RequestView { policy, ..self@ }),
    {
        let mut request = self;
        request.policy = policy;
        request
    }
}

/// Starting a request of each method from the client that will carry it.
pub trait ClientExt {
    fn get_with_retry(&self, url: &str) -> HttpRequestBuilder;

    fn put_with_retry(&self, url: &str) -> HttpRequestBuilder;

    fn post_with_retry(&self, url: &str) -> HttpRequestBuilder;

    fn delete_with_retry(&self, url: &str) -> HttpRequestBuilder;

    fn head_with_retry(&self, url: &str) -> HttpRequestBuilder;
}

/// A request that [`HttpRequestBuilder::new`] has just made for `client`.
pub open spec fn is_fresh_request(
    request: RequestView,
    client: ClientView,
    method: Method,
    url: Seq<char>,
) -> bool {
    is_request(request, client, method, url, Seq::empty(), Seq::empty(), None)
}

impl ClientExt for HttpClient {
    fn get_with_retry(&self, url: &str) -> (request: HttpRequestBuilder)
        ensures
            is_fresh_request(request@, self@, Method::Get, url@),
    {
        HttpRequestBuilder::new(self.duplicate(), Method::Get, url)
    }

    fn put_with_retry(&self, url: &str) -> (request: HttpRequestBuilder)
        ensures
            is_fresh_request(request@, self@, Method::Put, url@),
    {
        HttpRequestBuilder::new(self.duplicate(), Method::Put, url)
    }

    fn post_with_retry(&self, url: &str) -> (request: HttpRequestBuilder)
        ensures
            is_fresh_request(request@, self@, Method::Post, url@),
    {
        HttpRequestBuilder::new(self.duplicate(), Method::Post, url)
    }

    fn delete_with_retry(&self, url: &str) -> (request: HttpRequestBuilder)
        ensures
            is_fresh_request(request@, self@, Method::Delete, url@),
    {
        HttpRequestBuilder::new(self.duplicate(), Method::Delete, url)
    }

    fn head_with_retry(&self, url: &str) -> (request: HttpRequestBuilder)
        ensures
            is_fresh_request(request@, self@, Method::Head, url@),
    {
        HttpRequestBuilder::new(self.duplicate(), Method::Head, url)
    }
}

// ---------------------------------------------------------------------
// Redirections and retries
// ---------------------------------------------------------------------

/// Whether a response with this status sends the request elsewhere: any
/// status of the 3xx class but 304, which answers a condition of the
/// request and is for the caller to read.
pub open spec fn redirecting_status(status: u16) -> bool {
    is_redirection(status) && status != 304
}

/// Whether a response with this status is worth another attempt.
pub open spec fn retryable_status(status: u16) -> bool {
    status == 408 || status == 429 || status == 500 || status == 502 || status == 503 || status
        == 504
}

/// Whether a failure of the transport is transient.
pub open spec fn retryable_transport(error: TransportErrorView) -> bool {
    error.timeout || error.connect || error.request
}

/// Whether an error is a transient failure of the transport.
pub open spec fn retryable_error(error: ErrorView) -> bool {
    match error {
        ErrorView::Request { source } => retryable_transport(source),
        _ => false,
    }
}

/// Where one logical operation stands between two attempts.
#[derive(Debug)]
pub struct SendState {
    /// Where the next attempt goes.
    pub url: String,
    /// How many redirections have been followed.
    pub redirects: u32,
    /// How many retries have been made.
    pub retries: u32,
    /// The wait before the next retry.
    pub retry_delay: Duration,
}

/// [`SendState`] as a mathematical value, the wait in nanoseconds.
pub struct SendStateView {
    pub url: Seq<char>,
    pub redirects: u32,
    pub retries: u32,
    pub retry_delay: nat,
}

impl View for SendState {
    type V = SendStateView;

    open spec fn view(&self) -> SendStateView {
        SendStateView {
            url: self.url@,
            redirects: self.redirects,
            retries: self.retries,
            retry_delay: duration_nanos(self.retry_delay),
        }
    }
}

/// How one attempt ended, as far as the rules look at it.
pub enum AttemptView {
    /// A response arrived, with this status and, if it has one that is
    /// text, this `Location` header.
    Response { status: u16, location: Option<Seq<char>> },
    /// No response arrived.
    Failed { error: TransportErrorView },
}

/// What is to happen after an attempt.
#[derive(Debug)]
pub enum Decision {
    /// The operation ends: the response just received is its result.
    Deliver,
    /// The operation ends with this error.
    Fail(AiStoreError),
    /// Send again at once, to the new target that the state now holds.
    Redirect,
    /// Wait this long, then send again.
    Retry { wait: Duration },
}

/// [`Decision`] as a mathematical value, the wait in nanoseconds.
pub enum DecisionView {
    Deliver,
    Fail(ErrorView),
    Redirect,
    Retry { wait: nat },
}

impl View for Decision {
    type V = DecisionView;

    open spec fn view(&self) -> DecisionView {
        match self {
            Decision::Deliver => DecisionView::Deliver,
            Decision::Fail(e) => DecisionView::Fail(e@),
            Decision::Redirect => DecisionView::Redirect,
            Decision::Retry { wait } => DecisionView::Retry { wait: duration_nanos(*wait) },
        }
    }
}

/// The attempt that ended with the response `r`.
pub open spec fn attempt_of_response(r: ResponseView) -> AttemptView {
    AttemptView::Response { status: r.status, location: header_text(r.headers, "location"@) }
}

/// The state before the first attempt of a request to `url`.
pub open spec fn initial_state(policy: RequestPolicy, url: Seq<char>) -> SendStateView {
    SendStateView { url, redirects: 0, retries: 0, retry_delay: policy.initial_nanos() }
}

/// One more retry: the wait that was due is served, and the next one grows.
pub open spec fn retry_step(policy: RequestPolicy, s: SendStateView) -> (
    SendStateView,
    DecisionView,
) {
    (
        SendStateView {
            retries: (s.retries + 1) as u32,
            retry_delay: next_delay(s.retry_delay, policy.backoff_factor, policy.cap_nanos()),
            ..s
        },
        DecisionView::Retry { wait: s.retry_delay },
    )
}

/// The rules of the executor: the state after an attempt, and what is to
/// happen next.
///
/// A redirection is followed while the limit allows and the response names
/// a target; it fails for good otherwise. A retryable status or a transient
/// failure of the transport is retried while the budget lasts. Everything
/// else ends the operation: a response is delivered as it is, a 304 among
/// them, and a failure of the transport is reported.
pub open spec fn step(policy: RequestPolicy, s: SendStateView, a: AttemptView) -> (
    SendStateView,
    DecisionView,
) {
    match a {
        AttemptView::Response { status, location } => {
            if redirecting_status(status) {
                if s.redirects >= policy.max_redirects {
                    (
                        s,
                        DecisionView::Fail(
                            ErrorView::TooManyRedirects { limit: policy.max_redirects },
                        ),
                    )
                } else {
                    match location {
                        Some(target) => (
                            SendStateView {
                                url: target,
                                redirects: (s.redirects + 1) as u32,
                                ..s
                            },
                            DecisionView::Redirect,
                        ),
                        None => (
                            s,
                            DecisionView::Fail(ErrorView::RedirectWithoutLocation { status }),
                        ),
                    }
                }
            } else if retryable_status(status) && s.retries < policy.max_retries {
                retry_step(policy, s)
            } else {
                (s, DecisionView::Deliver)
            }
        },
        AttemptView::Failed { error } => {
            if retryable_transport(error) && s.retries < policy.max_retries {
                retry_step(policy, s)
            } else {
                (s, DecisionView::Fail(ErrorView::Request { source: error }))
            }
        },
    }
}

impl SendState {
    /// The state before the first attempt.
    pub fn new(policy: &RequestPolicy, url: &str) -> (state: SendState)
        ensures
            state@ == initial_state(*policy, url@),
    {
        SendState {
            url: copy_text(url),
            redirects: 0,
            retries: 0,
            retry_delay: policy.initial_retry_delay,
        }
    }

    fn retry(&mut self, policy: &RequestPolicy) -> (decision: Decision)
        requires
            old(self).retries < policy.max_retries,
        ensures
            (final(self)@, decision@) == retry_step(*policy, old(self)@),
    {
        let wait = self.retry_delay;
        self.retries = self.retries + 1;
        self.retry_delay = policy.next_retry_delay(wait);
        Decision::Retry { wait }
    }

    /// Takes note of a response and says what is to happen next.
    pub fn on_response(&mut self, policy: &RequestPolicy, response: &HttpResponse) -> (decision:
        Decision)
        ensures
            (final(self)@, decision@) == step(*policy, old(self)@, attempt_of_response(response@)),
    {
        let status = response.status;
        if HttpRequestBuilder::is_redirecting_status(status) {
            if self.redirects >= policy.max_redirects {
                return Decision::Fail(AiStoreError::TooManyRedirects { limit: policy.max_redirects });
            }
            match response.header_text("location") {
                Some(target) => {
                    self.url = copy_text(target);
                    self.redirects = self.redirects + 1;
                    Decision::Redirect
                },
                None => Decision::Fail(AiStoreError::RedirectWithoutLocation { status }),
            }
        } else if HttpRequestBuilder::is_retryable_status(status) && self.retries
            < policy.max_retries {
            self.retry(policy)
        } else {
            Decision::Deliver
        }
    }

    /// Takes note of a failure of the transport and says what is to happen next.
    pub fn on_error(&mut self, policy: &RequestPolicy, error: &TransportError) -> (decision:
        Decision)
        ensures
            (final(self)@, decision@) == step(
                *policy,
                old(self)@,
                AttemptView::Failed { error: error@ },
            ),
    {
        if (error.timeout || error.connect || error.request) && self.retries < policy.max_retries {
            self.retry(policy)
        } else {
            Decision::Fail(AiStoreError::Request { source: error.duplicate() })
        }
    }
}

impl HttpRequestBuilder {
    /// Whether a response with this status sends the request elsewhere.
    pub fn is_redirecting_status(status: u16) -> (redirecting: bool)
        ensures
            redirecting == redirecting_status(status),
    {
        300 <= status && status <= 399 && status != 304
    }

    /// Whether a response with this status is worth another attempt.
    pub fn is_retryable_status(status: u16) -> (retryable: bool)
        ensures
            retryable == retryable_status(status),
    {
        status == 408 || status == 429 || status == 500 || status == 502 || status == 503
            || status == 504
    }

    /// Whether an error is a transient failure of the transport.
    pub fn is_retryable_error(error: &AiStoreError) -> (retryable: bool)
        ensures
            retryable == retryable_error(error@),
    {
        match error {
            AiStoreError::Request { source } => source.timeout || source.connect || source.request,
            _ => false,
        }
    }

    /// The wait that follows a wait of `current` under this request's policy.
    pub fn next_retry_delay(&self, current: Duration) -> (next: Duration)
        ensures
            duration_nanos(next) == next_delay(
                duration_nanos(current),
                self.policy.backoff_factor,
                self.policy.cap_nanos(),
            ),
    {
        self.policy.next_retry_delay(current)
    }

    /// The state before the first attempt of this request.
    pub fn begin(&self) -> (state: SendState)
        ensures
            state@ == initial_state(self.policy, self.url@),
    {
        SendState::new(&self.policy, self.url.as_str())
    }
}

// ---------------------------------------------------------------------
// A whole operation
// ---------------------------------------------------------------------

/// How an operation went: how many attempts were made, the waits between
/// them in nanoseconds, the state it ended in, and the decision that ended
/// it (`None` where the exchange broke off before the operation was over).
pub struct RunView {
    pub attempts: nat,
    pub waits: Seq<nat>,
    pub state: SendStateView,
    pub end: Option<DecisionView>,
}

/// `rest`, with `attempts` more attempts and the `waits` before it.
pub open spec fn after(attempts: nat, waits: Seq<nat>, rest: RunView) -> RunView {
    RunView { attempts: attempts + rest.attempts, waits: waits + rest.waits, ..rest }
}

/// The operation that starts in state `s` when the attempts end as
/// `script` tells, one entry for each attempt.
pub open spec fn run(policy: RequestPolicy, s: SendStateView, script: Seq<AttemptView>) -> RunView
    decreases script.len(),
{
    if script.len() == 0 {
        RunView { attempts: 0, waits: Seq::empty(), state: s, end: None }
    } else {
        let (next, decision) = step(policy, s, script[0]);
        match decision {
            DecisionView::Redirect => after(1, Seq::empty(), run(policy, next, script.skip(1))),
            DecisionView::Retry { wait } => after(1, seq![wait], run(policy, next, script.skip(1))),
            _ => RunView { attempts: 1, waits: Seq::empty(), state: next, end: Some(decision) },
        }
    }
}

/// How an attempt ended, as the rules see it.
pub open spec fn attempt_of(outcome: Result<HttpResponse, TransportError>) -> AttemptView {
    match outcome {
        Ok(response) => attempt_of_response(response@),
        Err(error) => AttemptView::Failed { error: error@ },
    }
}

/// A recorded exchange as the rules see it.
pub open spec fn script_view(script: Seq<Result<HttpResponse, TransportError>>) -> Seq<
    AttemptView,
> {
    script.map_values(|o: Result<HttpResponse, TransportError>| attempt_of(o))
}

/// The lengths of some waits in nanoseconds.
pub open spec fn waits_view(waits: Seq<Duration>) -> Seq<nat> {
    waits.map_values(|d: Duration| duration_nanos(d))
}

/// What [`HttpRequestBuilder::send`] found.
#[derive(Debug)]
pub struct SendReport {
    /// How many attempts were made.
    pub attempts: usize,
    /// The waits between the attempts, in order.
    pub waits: Vec<Duration>,
    /// Where the last attempt went.
    pub url: String,
    /// The result of the operation; `None` where the recorded exchange
    /// broke off before the operation was over.
    pub result: Option<Result<HttpResponse, AiStoreError>>,
}

impl SendReport {
    /// Whether this report tells of the operation `r` over `script`.
    pub open spec fn tells(&self, r: RunView, script: Seq<Result<HttpResponse, TransportError>>)
        -> bool {
        &&& self.attempts == r.attempts
        &&& waits_view(self.waits@) == r.waits
        &&& self.url@ == r.state.url
        &&& match self.result {
            None => r.end is None,
            Some(Ok(response)) => {
                &&& r.end == Some(DecisionView::Deliver)
                &&& 0 < r.attempts <= script.len()
                &&& script[r.attempts - 1] is Ok
                &&& response@ == script[r.attempts - 1]->Ok_0@
            },
            Some(Err(error)) => r.end == Some(DecisionView::Fail(error@)),
        }
    }
}

impl HttpRequestBuilder {
    /// Carries the operation out against a recorded exchange: `script[i]`
    /// is how the attempt number `i` ends. The report says what
    /// [`run`] says of the operation, and hands out the response that was
    /// delivered.
    pub fn send(self, script: Vec<Result<HttpResponse, TransportError>>) -> (report: SendReport)
        ensures
            report.tells(
                run(self.policy, initial_state(self.policy, self.url@), script_view(script@)),
                script@,
            ),
    {
        let policy = self.policy;
        let mut pending = script;
        let ghost recorded = pending@;
        let ghost sv = script_view(recorded);
        let ghost start = initial_state(policy, self.url@);
        let mut state = self.begin();
        let mut waits: Vec<Duration> = Vec::new();
        let mut i: usize = 0;
        assert(sv.skip(0) =~= sv);
        while i < pending.len()
            invariant
                i <= pending.len(),
                pending@ == recorded,
                recorded == script@,
                sv == script_view(recorded),
                policy == self.policy,
                start == initial_state(self.policy, self.url@),
                run(policy, start, sv) == after(
                    i as nat,
                    waits_view(waits@),
                    run(policy, state@, sv.skip(i as int)),
                ),
            decreases pending.len() - i,
        {
            let ghost slept = waits_view(waits@);
            assert(sv.skip(i as int).skip(1) =~= sv.skip(i + 1));
            let decision = match &pending[i] {
                Ok(response) => state.on_response(&policy, response),
                Err(error) => state.on_error(&policy, error),
            };
            match decision {
                Decision::Redirect => {},
                Decision::Retry { wait } => {
                    waits.push(wait);
                    proof {
                        let tail = run(policy, state@, sv.skip(i + 1));
                        assert(waits_view(waits@) =~= slept.push(duration_nanos(wait)));
                        assert(slept + (seq![duration_nanos(wait)] + tail.waits) =~= slept.push(
                            duration_nanos(wait),
                        ) + tail.waits);
                    }
                },
                Decision::Deliver => {
                    let outcome = pending.swap_remove(i);
                    let result = match outcome {
                        Ok(response) => Some(Ok(response)),
                        Err(error) => Some(Err(AiStoreError::Request { source: error })),
                    };
                    return SendReport { attempts: i + 1, waits, url: state.url, result };
                },
                Decision::Fail(error) => {
                    return SendReport {
                        attempts: i + 1,
                        waits,
                        url: state.url,
                        result: Some(Err(error)),
                    };
                },
            }
            i += 1;
        }
        SendReport { attempts: i, waits, url: state.url, result: None }
    }
}

// ---------------------------------------------------------------------
// Laws of the executor
// ---------------------------------------------------------------------

/// An attempt that is retried while the budget lasts: a response with a
/// retryable status, or a transient failure of the transport.
pub open spec fn is_transient(a: AttemptView) -> bool {
    match a {
        AttemptView::Response { status, location } => retryable_status(status),
        AttemptView::Failed { error } => retryable_transport(error),
    }
}

/// How an operation ends on a transient attempt once the budget is spent:
/// the response is delivered, the failure is reported.
pub open spec fn end_of_transient(a: AttemptView) -> DecisionView {
    match a {
        AttemptView::Response { status, location } => DecisionView::Deliver,
        AttemptView::Failed { error } => DecisionView::Fail(ErrorView::Request { source: error }),
    }
}

/// A response that redirects and names its target.
pub open spec fn is_followed_redirect(a: AttemptView) -> bool {
    a matches AttemptView::Response { status, location } && redirecting_status(status)
        && location is Some
}

/// The target that a redirection names.
pub open spec fn target_of(a: AttemptView) -> Seq<char> {
    match a {
        AttemptView::Response { status, location: Some(target) } => target,
        _ => Seq::empty(),
    }
}

/// A response that redirects, with a target or without.
pub open spec fn is_redirect(a: AttemptView) -> bool {
    a matches AttemptView::Response { status, location } && redirecting_status(status)
}

/// A response that ends the operation wherever it comes: neither a
/// redirection nor a retryable status.
pub open spec fn is_final_response(a: AttemptView) -> bool {
    a matches AttemptView::Response { status, location } && !redirecting_status(status)
        && !retryable_status(status)
}

proof fn lemma_transient_from(policy: RequestPolicy, s: SendStateView, script: Seq<AttemptView>)
    requires
        s.retries <= policy.max_retries,
        script.len() > policy.max_retries - s.retries,
        forall|i: int| 0 <= i <= policy.max_retries - s.retries ==> is_transient(#[trigger] script[i]),
        s.retry_delay == policy.delay_after(s.retries as nat),
    ensures
        ({
            let r = run(policy, s, script);
            let left = policy.max_retries - s.retries;
            &&& r.attempts == left + 1
            &&& r.end == Some(end_of_transient(script[left]))
            &&& r.waits.len() == left
            &&& forall|k: int|
                0 <= k < left ==> #[trigger] r.waits[k] == policy.delay_after((s.retries + k) as nat)
            &&& r.state.retries == policy.max_retries
            &&& r.state.url == s.url
            &&& r.state.redirects == s.redirects
        }),
    decreases policy.max_retries - s.retries,
{
    if s.retries < policy.max_retries {
        // The first attempt is retried; the rest of the budget is spent on
        // the rest of the script.
        lemma_transient_from(policy, step(policy, s, script[0]).0, script.skip(1));
    }
}

/// Where every attempt meets a retryable status or a transient failure, the
/// executor makes exactly `max_retries + 1` attempts and ends on the last
/// of them: its response is delivered, or its failure is reported. The wait
/// before retry number `k + 1` is the policy's delay after `k` retries.
pub proof fn lemma_retry_budget(policy: RequestPolicy, url: Seq<char>, script: Seq<AttemptView>)
    requires
        script.len() > policy.max_retries,
        forall|i: int| 0 <= i <= policy.max_retries ==> is_transient(#[trigger] script[i]),
    ensures
        ({
            let r = run(policy, initial_state(policy, url), script);
            &&& r.attempts == policy.max_retries + 1
            &&& r.end == Some(end_of_transient(script[policy.max_retries as int]))
            &&& r.waits.len() == policy.max_retries
            &&& forall|k: int|
                0 <= k < policy.max_retries ==> #[trigger] r.waits[k] == policy.delay_after(k as nat)
        }),
{
    lemma_transient_from(policy, initial_state(policy, url), script);
}

proof fn lemma_redirects_from(policy: RequestPolicy, s: SendStateView, script: Seq<AttemptView>)
    requires
        s.redirects <= policy.max_redirects,
        script.len() > policy.max_redirects - s.redirects,
        forall|i: int|
            0 <= i < policy.max_redirects - s.redirects ==> is_followed_redirect(
                #[trigger] script[i],
            ),
    ensures
        ({
            let r = run(policy, s, script);
            let left = policy.max_redirects - s.redirects;
            &&& is_redirect(script[left]) || is_final_response(script[left]) ==> r.attempts
                == left + 1 && r.waits.len() == 0
            &&& is_redirect(script[left]) ==> r.end == Some(
                DecisionView::Fail(ErrorView::TooManyRedirects { limit: policy.max_redirects }),
            )
            &&& is_final_response(script[left]) ==> r.end == Some(DecisionView::Deliver)
            &&& is_final_response(script[left]) ==> r.state.url == if left > 0 {
                target_of(script[left - 1])
            } else {
                s.url
            }
        }),
    decreases policy.max_redirects - s.redirects,
{
    if s.redirects < policy.max_redirects {
        // The first redirection is followed; the rest of the chain is the
        // rest of the script.
        lemma_redirects_from(policy, step(policy, s, script[0]).0, script.skip(1));
    }
}

/// A chain of exactly `max_redirects` redirections is followed to its end:
/// the response after it is delivered, from the target that the last
/// redirection named. One redirection more, and the operation fails with
/// `TooManyRedirects` on the attempt number `max_redirects + 1`. Either
/// way no wait is made: redirections are followed at once.
pub proof fn lemma_redirect_limit(policy: RequestPolicy, url: Seq<char>, script: Seq<AttemptView>)
    requires
        script.len() > policy.max_redirects,
        forall|i: int|
            0 <= i < policy.max_redirects ==> is_followed_redirect(#[trigger] script[i]),
    ensures
        ({
            let r = run(policy, initial_state(policy, url), script);
            let last = script[policy.max_redirects as int];
            &&& is_redirect(last) || is_final_response(last) ==> r.attempts
                == policy.max_redirects + 1 && r.waits.len() == 0
            &&& is_redirect(last) ==> r.end == Some(
                DecisionView::Fail(ErrorView::TooManyRedirects { limit: policy.max_redirects }),
            )
            &&& is_final_response(last) ==> r.end == Some(DecisionView::Deliver)
            &&& is_final_response(last) ==> r.state.url == if policy.max_redirects > 0 {
                target_of(script[policy.max_redirects - 1])
            } else {
                url
            }
        }),
{
    lemma_redirects_from(policy, initial_state(policy, url), script);
}

/// A response that ends the operation wherever it comes is delivered on
/// the attempt that meets it: the operation that starts with it makes one
/// attempt, waits for nothing and leaves the state as it was.
pub proof fn lemma_final_response_is_delivered(
    policy: RequestPolicy,
    s: SendStateView,
    script: Seq<AttemptView>,
)
    requires
        script.len() > 0,
        is_final_response(script[0]),
    ensures
        run(policy, s, script) == (RunView {
            attempts: 1,
            waits: Seq::empty(),
            state: s,
            end: Some(DecisionView::Deliver),
        }),
{
}

/// A 304 is no redirection to the executor: with a `Location` or without,
/// under any policy and in any state, it is delivered for the caller to
/// read. So is a 412.
pub proof fn lemma_condition_answers_are_delivered(
    policy: RequestPolicy,
    s: SendStateView,
    status: u16,
    location: Option<Seq<char>>,
)
    requires
        status == 304 || status == 412,
    ensures
        is_final_response(AttemptView::Response { status, location }),
        step(policy, s, AttemptView::Response { status, location }) == (s, DecisionView::Deliver),
        run(policy, s, seq![AttemptView::Response { status, location }]).end == Some(
            DecisionView::Deliver,
        ),
{
    lemma_final_response_is_delivered(policy, s, seq![AttemptView::Response { status, location }]);
}

proof fn lemma_bounded_from(policy: RequestPolicy, s: SendStateView, script: Seq<AttemptView>)
    requires
        s.retries <= policy.max_retries,
        s.redirects <= policy.max_redirects,
        script.len() > (policy.max_retries - s.retries) + (policy.max_redirects - s.redirects),
    ensures
        run(policy, s, script).end is Some,
        run(policy, s, script).attempts <= (policy.max_retries - s.retries) + (policy.max_redirects
            - s.redirects) + 1,
        run(policy, s, script).waits.len() <= policy.max_retries - s.retries,
    decreases script.len(),
{
    let (next, decision) = step(policy, s, script[0]);
    match decision {
        DecisionView::Redirect => {
            lemma_bounded_from(policy, next, script.skip(1));
        },
        DecisionView::Retry { wait } => {
            lemma_bounded_from(policy, next, script.skip(1));
        },
        _ => {},
    }
}

/// One logical operation is bounded by the counters of its policy: however
/// the attempts end, it is over after at most
/// `max_retries + max_redirects + 1` of them, and has waited at most
/// `max_retries` times.
pub proof fn lemma_operation_is_bounded(
    policy: RequestPolicy,
    url: Seq<char>,
    script: Seq<AttemptView>,
)
    requires
        script.len() > policy.max_retries + policy.max_redirects,
    ensures
        run(policy, initial_state(policy, url), script).end is Some,
        run(policy, initial_state(policy, url), script).attempts <= policy.max_retries
            + policy.max_redirects + 1,
        run(policy, initial_state(policy, url), script).waits.len() <= policy.max_retries,
{
    lemma_bounded_from(policy, initial_state(policy, url), script);
}

/// The two counters are apart: following a redirection touches neither the
/// retries nor the wait, and a retry touches neither the redirections nor
/// the target.
pub proof fn lemma_counters_are_apart(policy: RequestPolicy, s: SendStateView, a: AttemptView)
    ensures
        ({
            let (next, decision) = step(policy, s, a);
            &&& decision is Redirect ==> next.retries == s.retries && next.retry_delay
                == s.retry_delay && next.redirects == s.redirects + 1
            &&& decision is Retry ==> next.redirects == s.redirects && next.url == s.url
                && next.retries == s.retries + 1
            &&& decision is Deliver || decision is Fail ==> next == s
        }),
{
}

/// Between two attempts the wait that is due is the policy's delay after
/// the retries made so far. Every step of the executor keeps it so.
pub proof fn lemma_step_keeps_delay(policy: RequestPolicy, s: SendStateView, a: AttemptView)
    requires
        s.retry_delay == policy.delay_after(s.retries as nat),
        s.retries <= policy.max_retries,
        s.redirects <= policy.max_redirects,
    ensures
        ({
            let (next, decision) = step(policy, s, a);
            &&& next.retry_delay == policy.delay_after(next.retries as nat)
            &&& next.retries <= policy.max_retries
            &&& next.redirects <= policy.max_redirects
            &&& decision matches DecisionView::Retry { wait } ==> wait == policy.delay_after(
                s.retries as nat,
            ) && next.retries == s.retries + 1
        }),
{
}

} // verus!
