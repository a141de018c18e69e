//! Setting a store up: where it is, which bucket, and how to reach it.

use crate::client::{S3Client, S3ClientView, S3Config};
use crate::request::{ClientView, HttpClient};
use crate::text::{copy_text, join};
use crate::AiStore;
use crate::StoreView;
use std::time::Duration;
use vstd::prelude::*;

verus! {

/// Collects the settings of a store, then builds it.
#[derive(Debug)]
pub struct AiStoreBuilder {
    endpoint: Option<String>,
    bucket_name: Option<String>,
    auth_jwt_token: Option<String>,
    allow_http: bool,
    timeout: Option<Duration>,
    connect_timeout: Option<Duration>,
    s3_api_via_root: bool,
}

/// [`AiStoreBuilder`] as a mathematical value.
pub struct BuilderView {
    pub endpoint: Option<Seq<char>>,
    pub bucket_name: Option<Seq<char>>,
    pub auth_jwt_token: Option<Seq<char>>,
    pub allow_http: bool,
    pub timeout: Option<Duration>,
    pub connect_timeout: Option<Duration>,
    pub s3_api_via_root: bool,
}

/// Why a store could not be built.
#[derive(Debug)]
pub enum BuilderError {
    MissingBucketName,
    MissingEndpoint,
    /// The token cannot stand in a header.
    InvalidAuthToken { message: String },
    /// The HTTP client could not be made.
    HttpClient { message: String },
}

/// [`BuilderError`] as a mathematical value.
pub enum BuilderErrorView {
    MissingBucketName,
    MissingEndpoint,
    InvalidAuthToken { message: Seq<char> },
    HttpClient { message: Seq<char> },
}

impl View for BuilderError {
    type V = BuilderErrorView;

    open spec fn view(&self) -> BuilderErrorView {
        match self {
            BuilderError::MissingBucketName => BuilderErrorView::MissingBucketName,
            BuilderError::MissingEndpoint => BuilderErrorView::MissingEndpoint,
            BuilderError::InvalidAuthToken { message } => BuilderErrorView::InvalidAuthToken {
                message: message@,
            },
            BuilderError::HttpClient { message } => BuilderErrorView::HttpClient {
                message: message@,
            },
        }
    }
}

/// The sentence that describes an error of the builder.
pub open spec fn builder_error_text(e: BuilderErrorView) -> Seq<char> {
    match e {
        BuilderErrorView::MissingBucketName => "Missing bucket name"@,
        BuilderErrorView::MissingEndpoint => "Missing endpoint"@,
        BuilderErrorView::InvalidAuthToken { message } => "Invalid auth token: "@ + message,
        BuilderErrorView::HttpClient { message } => "Failed to build HTTP client: "@ + message,
    }
}

impl BuilderError {
    /// The sentence that describes this error.
    pub fn to_string(&self) -> (out: String)
        ensures
            out@ == builder_error_text(self@),
    {
        match self {
            BuilderError::MissingBucketName => copy_text("Missing bucket name"),
            BuilderError::MissingEndpoint => copy_text("Missing endpoint"),
            BuilderError::InvalidAuthToken { message } => join(
                "Invalid auth token: ",
                message.as_str(),
            ),
            BuilderError::HttpClient { message } => join(
                "Failed to build HTTP client: ",
                message.as_str(),
            ),
        }
    }
}

/// Whether `c` may stand in the value of a header: no control character
/// but the tab.
pub open spec fn header_char_allowed(c: char) -> bool {
    (c as u32 >= 32 && c as u32 != 127) || c == '\t'
}

/// Whether `value` may be the value of a header.
pub open spec fn header_value_allowed(value: Seq<char>) -> bool {
    forall|i: int| 0 <= i < value.len() ==> header_char_allowed(#[trigger] value[i])
}

/// Calls `reqwest::header::HeaderValue::from_str` and returns the message
/// of its error, if it refuses `value`. It refuses a value that holds a
/// byte below 32 other than the tab, or the byte 127; its error always
/// reads the same.
#[verifier::external_body]
fn header_value_error(value: &str) -> (error: Option<String>)
    ensures
        error is None <==> header_value_allowed(value@),
        error matches Some(message) ==> message@ == "failed to parse header value"@,
{
    match reqwest::header::HeaderValue::from_str(value) {
        Ok(_) => None,
        Err(e) => Some(e.to_string()),
    }
}

/// The URL of a bucket: directly under the endpoint, or under `/s3`.
pub open spec fn bucket_url_of(endpoint: Seq<char>, bucket: Seq<char>, via_root: bool) -> Seq<
    char,
> {
    if via_root {
        endpoint + "/"@ + bucket
    } else {
        endpoint + "/s3/"@ + bucket
    }
}

/// The headers that go with every request: the bearer token, if there is one.
pub open spec fn default_headers_of(token: Option<Seq<char>>) -> Seq<(Seq<char>, Seq<char>)> {
    match token {
        Some(jwt) => seq![("authorization"@, "Bearer "@ + jwt)],
        None => Seq::empty(),
    }
}

/// What building gives: the bucket is asked for first, then the endpoint,
/// then the token is checked.
pub open spec fn build_of(b: BuilderView) -> Result<StoreView, BuilderErrorView> {
    if b.bucket_name is None {
        Err(BuilderErrorView::MissingBucketName)
    } else if b.endpoint is None {
        Err(BuilderErrorView::MissingEndpoint)
    } else if b.auth_jwt_token is Some && !header_value_allowed(
        "Bearer "@ + b.auth_jwt_token->0,
    ) {
        Err(BuilderErrorView::InvalidAuthToken { message: "failed to parse header value"@ })
    } else {
        Ok(
            StoreView {
                bucket_name: b.bucket_name->0,
                client: S3ClientView {
                    url: bucket_url_of(b.endpoint->0, b.bucket_name->0, b.s3_api_via_root),
                    client: ClientView {
                        timeout: b.timeout,
                        connect_timeout: b.connect_timeout,
                        default_headers: default_headers_of(b.auth_jwt_token),
                        https_only: !b.allow_http,
                    },
                },
            },
        )
    }
}

impl View for AiStoreBuilder {
    type V = BuilderView;

    closed spec fn view(&self) -> BuilderView {
        BuilderView {
            endpoint: self.endpoint.deep_view(),
            bucket_name: self.bucket_name.deep_view(),
            auth_jwt_token: self.auth_jwt_token.deep_view(),
            allow_http: self.allow_http,
            timeout: self.timeout,
            connect_timeout: self.connect_timeout,
            s3_api_via_root: self.s3_api_via_root,
        }
    }
}

impl Default for AiStoreBuilder {
    fn default() -> (builder: AiStoreBuilder)
        ensures
            builder@ == (BuilderView {
                endpoint: None,
                bucket_name: None,
                auth_jwt_token: None,
                allow_http: false,
                timeout: None,
                connect_timeout: None,
                s3_api_via_root: false,
            }),
    {
        AiStoreBuilder {
            endpoint: None,
            bucket_name: None,
            auth_jwt_token: None,
            allow_http: false,
            timeout: None,
            connect_timeout: None,
            s3_api_via_root: false,
        }
    }
}

impl AiStoreBuilder {
    /// A builder with nothing set: HTTPS only, the API under `/s3`.
    pub fn new() -> (builder: AiStoreBuilder)
        ensures
            builder@ == (BuilderView {
                endpoint: None,
                bucket_name: None,
                auth_jwt_token: None,
                allow_http: false,
                timeout: None,
                connect_timeout: None,
                s3_api_via_root: false,
            }),
    {
        AiStoreBuilder::default()
    }

    /// Sets the endpoint, such as `https://aistore.example.com`.
    pub fn with_endpoint(self, endpoint: &str) -> (builder: AiStoreBuilder)
        ensures
            builder@ == (BuilderView { endpoint: Some(endpoint@), ..self@ }),
    {
        let mut builder = self;
        builder.endpoint = Some(copy_text(endpoint));
        builder
    }

    /// Sets the bucket.
    pub fn with_bucket_name(self, bucket_name: &str) -> (builder: AiStoreBuilder)
        ensures
            builder@ == (BuilderView { bucket_name: Some(bucket_name@), ..self@ }),
    {
        let mut builder = self;
        builder.bucket_name = Some(copy_text(bucket_name));
        builder
    }

    /// Sets the JWT that authenticates every request.
    pub fn with_auth_jwt_token(self, auth_jwt_token: &str) -> (builder: AiStoreBuilder)
        ensures
            builder@ == (BuilderView { auth_jwt_token: Some(auth_jwt_token@), ..self@ }),
    {
        let mut builder = self;
        builder.auth_jwt_token = Some(copy_text(auth_jwt_token));
        builder
    }

    /// Allows plain HTTP, or not.
    pub fn with_allow_http(self, allow_http: bool) -> (builder: AiStoreBuilder)
        ensures
            builder@ == (BuilderView { allow_http, ..self@ }),
    {
        let mut builder = self;
        builder.allow_http = allow_http;
        builder
    }

    /// Sets the time allowed for a whole request.
    pub fn with_timeout(self, timeout: Duration) -> (builder: AiStoreBuilder)
        ensures
            builder@ == (BuilderView { timeout: Some(timeout), ..self@ }),
    {
        let mut builder = self;
        builder.timeout = Some(timeout);
        builder
    }

    /// Sets the time allowed for setting up a connection.
    pub fn with_connect_timeout(self, timeout: Duration) -> (builder: AiStoreBuilder)
        ensures
            builder@ == (BuilderView { connect_timeout: Some(timeout), ..self@ }),
    {
        let mut builder = self;
        builder.connect_timeout = Some(timeout);
        builder
    }

    /// Says where the S3 API is served: at `{endpoint}/{bucket}` when
    /// `true`, at `{endpoint}/s3/{bucket}` when `false`.
    pub fn with_s3_api_via_root(self, s3_api_via_root: bool) -> (builder: AiStoreBuilder)
        ensures
            builder@ == (BuilderView { s3_api_via_root, ..self@ }),
    {
        let mut builder = self;
        builder.s3_api_via_root = s3_api_via_root;
        builder
    }

    /// Builds the store.
    pub fn build(self) -> (out: Result<AiStore, BuilderError>)
        ensures
            match out {
                Ok(store) => build_of(self@) == Ok::<StoreView, BuilderErrorView>(store@),
                Err(error) => build_of(self@) == Err::<StoreView, BuilderErrorView>(error@),
            },
    {
        let bucket = match self.bucket_name {
            Some(bucket) => bucket,
            None => {
                return Err(BuilderError::MissingBucketName);
            },
        };
        let endpoint = match self.endpoint {
            Some(endpoint) => endpoint,
            None => {
                return Err(BuilderError::MissingEndpoint);
            },
        };
        let url = if self.s3_api_via_root {
            let head = join(endpoint.as_str(), "/");
            join(head.as_str(), bucket.as_str())
        } else {
            let head = join(endpoint.as_str(), "/s3/");
            join(head.as_str(), bucket.as_str())
        };
        let mut default_headers: Vec<(String, String)> = Vec::new();
        if let Some(jwt) = &self.auth_jwt_token {
            let value = join("Bearer ", jwt.as_str());
            if let Some(message) = header_value_error(value.as_str()) {
                return Err(BuilderError::InvalidAuthToken { message });
            }
            default_headers.push((copy_text("authorization"), value));
        }
        let client = HttpClient {
            timeout: self.timeout,
            connect_timeout: self.connect_timeout,
            default_headers,
            https_only: !self.allow_http,
        };
        assert(client@.default_headers =~= default_headers_of(self@.auth_jwt_token));
        Ok(AiStore::new(S3Client::new(S3Config { url }, client), bucket))
    }
}

} // verus!
