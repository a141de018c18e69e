use aistore::builder::{AiStoreBuilder, BuilderError};

#[test]
fn build_without_bucket_fails() {
    let result = AiStoreBuilder::new().with_endpoint("http://localhost:8080").build();
    assert!(matches!(result, Err(BuilderError::MissingBucketName)));
}

#[test]
fn build_without_endpoint_fails() {
    let result = AiStoreBuilder::new().with_bucket_name("data").build();
    assert!(matches!(result, Err(BuilderError::MissingEndpoint)));
}

#[test]
fn build_routes_under_s3_by_default() {
    let store = AiStoreBuilder::new()
        .with_endpoint("http://localhost:8080")
        .with_bucket_name("data")
        .build()
        .unwrap();
    assert_eq!(store.client().bucket_url(), "http://localhost:8080/s3/data");
    assert_eq!(store.bucket_name(), "data");
    assert_eq!(store.to_string(), "AiStore(data)");
}

#[test]
fn build_routes_at_root_when_asked() {
    let store = AiStoreBuilder::new()
        .with_endpoint("http://localhost:8080")
        .with_bucket_name("data")
        .with_s3_api_via_root(true)
        .build()
        .unwrap();
    assert_eq!(store.client().bucket_url(), "http://localhost:8080/data");
}

#[test]
fn build_rejects_token_with_control_character() {
    let result = AiStoreBuilder::new()
        .with_endpoint("http://localhost:8080")
        .with_bucket_name("data")
        .with_auth_jwt_token("abc\ndef")
        .build();
    match result {
        Err(BuilderError::InvalidAuthToken { message }) => {
            assert_eq!(message, "failed to parse header value");
        }
        _ => panic!("the token should have been refused"),
    }
}

#[test]
fn build_sends_the_token_as_bearer() {
    let store = AiStoreBuilder::new()
        .with_endpoint("http://localhost:8080")
        .with_bucket_name("data")
        .with_auth_jwt_token("abc.def")
        .with_allow_http(true)
        .build()
        .unwrap();
    let client = store.client().http_client();
    assert_eq!(
        client.default_headers,
        vec![("authorization".to_string(), "Bearer abc.def".to_string())]
    );
    assert!(!client.https_only);
}

#[test]
fn builder_errors_describe_themselves() {
    assert_eq!(BuilderError::MissingBucketName.to_string(), "Missing bucket name");
    assert_eq!(BuilderError::MissingEndpoint.to_string(), "Missing endpoint");
    assert_eq!(
        BuilderError::InvalidAuthToken { message: "bad".to_string() }.to_string(),
        "Invalid auth token: bad"
    );
    assert_eq!(
        BuilderError::HttpClient { message: "no tls".to_string() }.to_string(),
        "Failed to build HTTP client: no tls"
    );
}
