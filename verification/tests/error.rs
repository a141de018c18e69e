use aistore::error::{AiStoreError, StoreError, TransportError};
use aistore::path::ObjectLocation;

#[test]
fn statuses_map_to_their_errors() {
    assert!(matches!(
        AiStoreError::handle_error_response(404, "gone".to_string()),
        AiStoreError::NotFound { message } if message == "gone"
    ));
    assert!(matches!(
        AiStoreError::handle_error_response(403, "no".to_string()),
        AiStoreError::Forbidden { message } if message == "no"
    ));
    assert!(matches!(
        AiStoreError::handle_error_response(401, "who".to_string()),
        AiStoreError::Unauthorized { message } if message == "who"
    ));
    assert!(matches!(
        AiStoreError::handle_error_response(409, "there".to_string()),
        AiStoreError::AlreadyExists { message } if message == "there"
    ));
}

#[test]
fn other_statuses_keep_status_and_body() {
    for status in [400u16, 402, 405, 408, 410, 500, 503, 304, 412, 100, 302] {
        match AiStoreError::handle_error_response(status, "body".to_string()) {
            AiStoreError::Http { status: s, message } => {
                assert_eq!(s, status);
                assert_eq!(message, "body");
            }
            other => panic!("unexpected error {:?}", other),
        }
    }
}

#[test]
fn errors_describe_themselves() {
    let path = ObjectLocation::parse("a/b").unwrap();
    assert_eq!(
        AiStoreError::NotFound { message: "x".to_string() }.to_string(),
        "Object not found: x"
    );
    assert_eq!(
        AiStoreError::Forbidden { message: "x".to_string() }.to_string(),
        "Access forbidden: x"
    );
    assert_eq!(
        AiStoreError::Unauthorized { message: "x".to_string() }.to_string(),
        "Unauthorized: x"
    );
    assert_eq!(
        AiStoreError::AlreadyExists { message: "x".to_string() }.to_string(),
        "Object already exists: x"
    );
    assert_eq!(
        AiStoreError::Http { status: 502, message: "bad".to_string() }.to_string(),
        "HTTP error 502: bad"
    );
    assert_eq!(
        AiStoreError::InvalidResponse { message: "x".to_string() }.to_string(),
        "Invalid response: x"
    );
    assert_eq!(
        AiStoreError::NotModified { path: path.duplicate() }.to_string(),
        "Not modified: a/b"
    );
    assert_eq!(
        AiStoreError::PreconditionFailed { path }.to_string(),
        "Precondition failed: a/b"
    );
    assert_eq!(
        AiStoreError::Configuration { message: "x".to_string() }.to_string(),
        "Configuration error: x"
    );
    assert_eq!(
        AiStoreError::TooManyRedirects { limit: 10 }.to_string(),
        "Too many redirects (max: 10)"
    );
    assert_eq!(
        AiStoreError::RedirectWithoutLocation { status: 307 }.to_string(),
        "307 redirect without Location header"
    );
    let source = TransportError {
        timeout: true,
        connect: false,
        request: false,
        message: "timed out".to_string(),
    };
    assert_eq!(AiStoreError::Request { source }.to_string(), "Request error: timed out");
}

#[test]
fn known_kinds_keep_their_kind_for_generic_callers() {
    match StoreError::from_error(AiStoreError::NotFound { message: "k".to_string() }) {
        StoreError::NotFound { path, source } => {
            assert_eq!(path, "k");
            assert!(matches!(source, AiStoreError::NotFound { .. }));
        }
        other => panic!("unexpected {:?}", other),
    }
    match StoreError::from_error(AiStoreError::AlreadyExists { message: "k".to_string() }) {
        StoreError::AlreadyExists { path, .. } => assert_eq!(path, "k"),
        other => panic!("unexpected {:?}", other),
    }
    let location = ObjectLocation::parse("a/b").unwrap();
    match StoreError::from_error(AiStoreError::NotModified { path: location.duplicate() }) {
        StoreError::NotModified { path, .. } => assert_eq!(path, "a/b"),
        other => panic!("unexpected {:?}", other),
    }
    match StoreError::from_error(AiStoreError::PreconditionFailed { path: location }) {
        StoreError::Precondition { path, .. } => assert_eq!(path, "a/b"),
        other => panic!("unexpected {:?}", other),
    }
}

#[test]
fn all_other_kinds_are_generic() {
    let others = vec![
        AiStoreError::Forbidden { message: "x".to_string() },
        AiStoreError::Unauthorized { message: "x".to_string() },
        AiStoreError::Http { status: 500, message: "x".to_string() },
        AiStoreError::InvalidResponse { message: "x".to_string() },
        AiStoreError::Configuration { message: "x".to_string() },
        AiStoreError::TooManyRedirects { limit: 1 },
        AiStoreError::RedirectWithoutLocation { status: 301 },
    ];
    for error in others {
        match StoreError::from_error(error) {
            StoreError::Generic { store, .. } => assert_eq!(store, "aistore"),
            other => panic!("unexpected {:?}", other),
        }
    }
}
