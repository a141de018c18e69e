use aistore::client::{S3Client, S3Config};
use aistore::error::AiStoreError;
use aistore::http::{HttpResponse, Method};
use aistore::path::ObjectLocation;
use aistore::request::{HttpClient, RequestBody};
use aistore::time::Timestamp;
use aistore::types::{GetOptions, GetRange, PutPayload};

fn client() -> S3Client {
    S3Client::new(
        S3Config { url: "http://h/s3/b".to_string() },
        HttpClient { timeout: None, connect_timeout: None, default_headers: vec![], https_only: false },
    )
}

fn at(key: &str) -> ObjectLocation {
    ObjectLocation::parse(key).unwrap()
}

fn pair(a: &str, b: &str) -> (String, String) {
    (a.to_string(), b.to_string())
}

const NOW: Timestamp = Timestamp { seconds: 1_700_000_000, nanos: 5 };

#[test]
fn urls() {
    let c = client();
    assert_eq!(c.bucket_url(), "http://h/s3/b");
    assert_eq!(c.object_url(&at("a/b.txt")), "http://h/s3/b/a/b.txt");
    assert_eq!(c.object_url(&at("")), "http://h/s3/b/");
    assert_eq!(c.duplicate().bucket_url(), "http://h/s3/b");
}

#[test]
fn put_sends_the_payload_with_its_length() {
    let payload = PutPayload { chunks: vec![vec![1, 2, 3], vec![4, 5]] };
    assert_eq!(payload.content_length(), 5);
    let r = client().put_object(&at("k"), payload);
    assert_eq!(r.method, Method::Put);
    assert_eq!(r.url, "http://h/s3/b/k");
    assert_eq!(r.headers, vec![pair("content-length", "5")]);
    assert!(r.query_params.is_empty());
    match r.body {
        Some(RequestBody::Payload(p)) => assert_eq!(p.to_bytes(), vec![1, 2, 3, 4, 5]),
        other => panic!("unexpected {:?}", other),
    }
    let empty = client().put_object(&at("k"), PutPayload::from_bytes(vec![]));
    assert_eq!(empty.headers, vec![pair("content-length", "0")]);
}

#[test]
fn put_result_reads_tag_and_version() {
    let response = HttpResponse::new(200).with_header("ETag", "\"abc\"").with_header("x-ais-version", "7");
    let result = S3Client::put_object_result(&response).unwrap();
    assert_eq!(result.e_tag, Some("abc".to_string()));
    assert_eq!(result.version, Some("7".to_string()));
    let bare = S3Client::put_object_result(&HttpResponse::new(201)).unwrap();
    assert_eq!(bare.e_tag, None);
    assert_eq!(bare.version, None);
}

#[test]
fn put_result_reports_failure() {
    let response = HttpResponse::new(403).with_body("denied");
    assert!(matches!(
        S3Client::put_object_result(&response),
        Err(AiStoreError::Forbidden { message }) if message == "denied"
    ));
    assert!(matches!(
        S3Client::put_object_result(&HttpResponse::new(199)),
        Err(AiStoreError::Http { status: 199, .. })
    ));
    assert!(matches!(
        S3Client::put_object_result(&HttpResponse::new(300)),
        Err(AiStoreError::Http { status: 300, .. })
    ));
    assert!(S3Client::put_object_result(&HttpResponse::new(299)).is_ok());
}

#[test]
fn range_headers() {
    assert_eq!(S3Client::range_header_value(&GetRange::Bounded { start: 0, end: 10 }), "bytes=0-9");
    assert_eq!(S3Client::range_header_value(&GetRange::Bounded { start: 5, end: 6 }), "bytes=5-5");
    assert_eq!(S3Client::range_header_value(&GetRange::Bounded { start: 0, end: 0 }), "bytes=0-0");
    assert_eq!(S3Client::range_header_value(&GetRange::Offset(100)), "bytes=100-");
    assert_eq!(S3Client::range_header_value(&GetRange::Suffix(25)), "bytes=-25");
    assert_eq!(
        S3Client::range_header_value(&GetRange::Bounded { start: 1, end: u64::MAX }),
        "bytes=1-18446744073709551614"
    );
}

#[test]
fn a_plain_get() {
    let r = client().get_object(&at("k"), &GetOptions::new()).unwrap();
    assert_eq!(r.method, Method::Get);
    assert_eq!(r.url, "http://h/s3/b/k");
    assert!(r.headers.is_empty());
    assert!(r.body.is_none());
}

#[test]
fn a_get_with_everything() {
    let options = GetOptions {
        if_match: Some("\"a\"".to_string()),
        if_none_match: Some("\"b\"".to_string()),
        if_modified_since: Some(Timestamp::new(1424301369, 0)),
        if_unmodified_since: Some(Timestamp::new(0, 0)),
        range: Some(GetRange::Bounded { start: 0, end: 10 }),
        head: true,
    };
    let r = client().get_object(&at("k"), &options).unwrap();
    assert_eq!(r.method, Method::Head);
    assert_eq!(
        r.headers,
        vec![
            pair("range", "bytes=0-9"),
            pair("if-match", "\"a\""),
            pair("if-none-match", "\"b\""),
            pair("if-modified-since", "Wed, 18 Feb 2015 23:16:09 GMT"),
            pair("if-unmodified-since", "Thu, 01 Jan 1970 00:00:00 GMT"),
        ]
    );
}

#[test]
fn a_get_with_a_date_beyond_the_calendar_is_refused() {
    let mut options = GetOptions::new();
    options.if_unmodified_since = Some(Timestamp::new(i64::MAX, 0));
    assert!(matches!(
        client().get_object(&at("k"), &options),
        Err(AiStoreError::Configuration { message }) if message == "Date out of range"
    ));
}

#[test]
fn content_ranges() {
    assert_eq!(S3Client::parse_content_range("bytes 0-9/100"), Some(0..10));
    assert_eq!(S3Client::parse_content_range("bytes 5-5/6"), Some(5..6));
    assert_eq!(S3Client::parse_content_range("bytes 0-9"), Some(0..10));
    assert_eq!(S3Client::parse_content_range("bytes 0-9/*"), Some(0..10));
    assert_eq!(S3Client::parse_content_range("bytes 7-3/100"), Some(7..4));
    assert_eq!(S3Client::parse_content_range("bytes +1-+2/3"), Some(1..3));
}

#[test]
fn what_is_no_content_range() {
    for text in [
        "",
        "bytes",
        "bytes ",
        "bytes 0-9 /100",
        "bytes  0-9/100",
        " bytes 0-9/100",
        "items 0-9/100",
        "Bytes 0-9/100",
        "bytes 0/100",
        "bytes 0-9-10/100",
        "bytes -9/100",
        "bytes 0-/100",
        "bytes a-9/100",
        "bytes 0-9x/100",
        "bytes */100",
        "bytes 0-18446744073709551615/1",
        "bytes 0-18446744073709551616/1",
    ] {
        assert_eq!(S3Client::parse_content_range(text), None, "{:?}", text);
    }
    assert_eq!(
        S3Client::parse_content_range("bytes 0-18446744073709551614/1"),
        Some(0..u64::MAX)
    );
    assert_eq!(S3Client::parse_content_range("bytes 0-9/1-2"), Some(0..10));
}

#[test]
fn metadata_from_headers() {
    let response = HttpResponse::new(200)
        .with_header("Content-Length", "1234")
        .with_header("Last-Modified", "Wed, 18 Feb 2015 23:16:09 GMT")
        .with_header("ETag", "\"abc\"")
        .with_header("x-ais-version", "3");
    let meta = S3Client::extract_object_meta(&at("a/b"), &response, NOW).unwrap();
    assert_eq!(meta.location.as_str(), "a/b");
    assert_eq!(meta.size, 1234);
    assert_eq!(meta.last_modified, Timestamp::new(1424301369, 0));
    assert_eq!(meta.e_tag, Some("abc".to_string()));
    assert_eq!(meta.version, Some("3".to_string()));
}

#[test]
fn metadata_defaults() {
    let meta = S3Client::extract_object_meta(&at("k"), &HttpResponse::new(200), NOW).unwrap();
    assert_eq!(meta.size, 0);
    assert_eq!(meta.last_modified, NOW);
    assert_eq!(meta.e_tag, None);
    assert_eq!(meta.version, None);
    let odd = HttpResponse::new(200)
        .with_header("content-length", "many")
        .with_header("last-modified", "recently")
        .with_opaque_header("etag");
    let meta = S3Client::extract_object_meta(&at("k"), &odd, NOW).unwrap();
    assert_eq!(meta.size, 0);
    assert_eq!(meta.last_modified, NOW);
    assert_eq!(meta.e_tag, None);
}

#[test]
fn a_get_without_content_range_serves_the_whole_object() {
    let response = HttpResponse::new(200).with_header("content-length", "100");
    let result = S3Client::get_object_result(&at("k"), false, &response, NOW).unwrap();
    assert_eq!(result.range, 0..100);
    assert_eq!(result.meta.size, 100);
    assert!(result.has_body);
}

#[test]
fn a_get_with_content_range_serves_that_range() {
    let response = HttpResponse::new(206)
        .with_header("content-length", "10")
        .with_header("content-range", "bytes 20-29/100");
    let result = S3Client::get_object_result(&at("k"), false, &response, NOW).unwrap();
    assert_eq!(result.range, 20..30);
    assert_eq!(result.meta.size, 10);
    let broken = HttpResponse::new(206)
        .with_header("content-length", "10")
        .with_header("content-range", "the first ten");
    let result = S3Client::get_object_result(&at("k"), true, &broken, NOW).unwrap();
    assert_eq!(result.range, 0..10);
    assert!(!result.has_body);
}

#[test]
fn a_conditional_get_not_modified() {
    let response = HttpResponse::new(304).with_body("ignored");
    match S3Client::get_object_result(&at("a/b"), false, &response, NOW) {
        Err(AiStoreError::NotModified { path }) => assert_eq!(path.as_str(), "a/b"),
        other => panic!("unexpected {:?}", other),
    }
}

#[test]
fn a_conditional_get_precondition_failed() {
    match S3Client::get_object_result(&at("a/b"), false, &HttpResponse::new(412), NOW) {
        Err(AiStoreError::PreconditionFailed { path }) => assert_eq!(path.as_str(), "a/b"),
        other => panic!("unexpected {:?}", other),
    }
}

#[test]
fn a_get_that_fails() {
    assert!(matches!(
        S3Client::get_object_result(&at("k"), false, &HttpResponse::new(404).with_body("none"), NOW),
        Err(AiStoreError::NotFound { message }) if message == "none"
    ));
    assert!(matches!(
        S3Client::get_object_result(&at("k"), false, &HttpResponse::new(500), NOW),
        Err(AiStoreError::Http { status: 500, .. })
    ));
}

#[test]
fn head() {
    let r = client().head_object(&at("k"));
    assert_eq!(r.method, Method::Head);
    assert_eq!(r.url, "http://h/s3/b/k");
    let response = HttpResponse::new(200).with_header("content-length", "5");
    assert_eq!(S3Client::head_object_result(&at("k"), &response, NOW).unwrap().size, 5);
    assert!(matches!(
        S3Client::head_object_result(&at("k"), &HttpResponse::new(404), NOW),
        Err(AiStoreError::NotFound { .. })
    ));
    assert!(matches!(
        S3Client::head_object_result(&at("k"), &HttpResponse::new(304), NOW),
        Err(AiStoreError::Http { status: 304, .. })
    ));
}

#[test]
fn delete_and_copy() {
    let r = client().delete_object(&at("k"));
    assert_eq!(r.method, Method::Delete);
    assert_eq!(r.url, "http://h/s3/b/k");
    let r = client().copy_object(&at("from/x"), &at("to/y"));
    assert_eq!(r.method, Method::Put);
    assert_eq!(r.url, "http://h/s3/b/to/y");
    assert_eq!(r.headers, vec![pair("x-amz-copy-source", "http://h/s3/b/from/x")]);
    assert!(r.body.is_none());
    assert!(S3Client::expect_success(&HttpResponse::new(204)).is_ok());
    assert!(matches!(
        S3Client::expect_success(&HttpResponse::new(409).with_body("x")),
        Err(AiStoreError::AlreadyExists { .. })
    ));
}

#[test]
fn list_queries() {
    let r = client().list_objects(None, None, None);
    assert_eq!(r.method, Method::Get);
    assert_eq!(r.url, "http://h/s3/b");
    assert_eq!(r.query_params, vec![pair("list-type", "2")]);
    let r = client().list_objects(Some("a/"), Some("tok"), Some(1000));
    assert_eq!(
        r.query_params,
        vec![
            pair("list-type", "2"),
            pair("prefix", "a/"),
            pair("continuation-token", "tok"),
            pair("max-keys", "1000"),
        ]
    );
    let r = client().list_objects(None, Some("tok"), None);
    assert_eq!(r.query_params, vec![pair("list-type", "2"), pair("continuation-token", "tok")]);
}

#[test]
fn list_results() {
    let body = "<ListBucketResult><Contents><Key>a</Key><Size>3</Size></Contents>\
                <IsTruncated>false</IsTruncated></ListBucketResult>";
    let page = S3Client::list_objects_result(&HttpResponse::new(200).with_body(body)).unwrap();
    assert_eq!(page.contents.len(), 1);
    assert_eq!(page.contents[0].key, "a");
    assert_eq!(page.contents[0].size, 3);
    assert_eq!(page.is_truncated, Some(false));
    match S3Client::list_objects_result(&HttpResponse::new(200).with_body("<a><b></a>")) {
        Err(AiStoreError::InvalidResponse { message }) => {
            assert!(message.starts_with("Failed to parse ListObjectsV2 response: "), "{}", message);
        }
        other => panic!("unexpected {:?}", other),
    }
    assert!(matches!(
        S3Client::list_objects_result(&HttpResponse::new(401).with_body(body)),
        Err(AiStoreError::Unauthorized { .. })
    ));
}

#[test]
fn initiate() {
    let r = client().initiate_multipart_upload(&at("k"));
    assert_eq!(r.method, Method::Post);
    assert_eq!(r.url, "http://h/s3/b/k?uploads");
    let by_header = HttpResponse::new(200)
        .with_header("X-Ais-Upload-Id", "u-1")
        .with_body("<InitiateMultipartUploadResult><UploadId>u-2</UploadId></InitiateMultipartUploadResult>");
    assert_eq!(S3Client::initiate_multipart_upload_result(&by_header).unwrap(), "u-1");
    let by_body = HttpResponse::new(200)
        .with_body("<InitiateMultipartUploadResult><Bucket>b</Bucket><UploadId>u-2</UploadId></InitiateMultipartUploadResult>");
    assert_eq!(S3Client::initiate_multipart_upload_result(&by_body).unwrap(), "u-2");
}

#[test]
fn initiate_failures() {
    let opaque = HttpResponse::new(200).with_opaque_header("x-ais-upload-id").with_body(
        "<InitiateMultipartUploadResult><UploadId>u-2</UploadId></InitiateMultipartUploadResult>",
    );
    assert!(matches!(
        S3Client::initiate_multipart_upload_result(&opaque),
        Err(AiStoreError::InvalidResponse { message }) if message == "Invalid upload ID header"
    ));
    match S3Client::initiate_multipart_upload_result(&HttpResponse::new(200).with_body("<r></r>")) {
        Err(AiStoreError::InvalidResponse { message }) => assert_eq!(
            message,
            "Failed to parse InitiateMultipartUpload response: missing field `UploadId`"
        ),
        other => panic!("unexpected {:?}", other),
    }
    assert!(matches!(
        S3Client::initiate_multipart_upload_result(&HttpResponse::new(200)),
        Err(AiStoreError::InvalidResponse { .. })
    ));
    assert!(matches!(
        S3Client::initiate_multipart_upload_result(&HttpResponse::new(500).with_header("x-ais-upload-id", "u")),
        Err(AiStoreError::Http { status: 500, .. })
    ));
}

#[test]
fn upload_part() {
    let r = client().upload_part(&at("k"), "u-1", 3, vec![9, 8]);
    assert_eq!(r.method, Method::Put);
    assert_eq!(r.url, "http://h/s3/b/k?partNumber=3&uploadId=u-1");
    assert!(matches!(r.body, Some(RequestBody::Bytes(ref b)) if b == &vec![9u8, 8]));
    assert_eq!(
        S3Client::upload_part_result(&HttpResponse::new(200).with_header("etag", "\"third\"")).unwrap(),
        "third"
    );
    assert!(matches!(
        S3Client::upload_part_result(&HttpResponse::new(200)),
        Err(AiStoreError::InvalidResponse { message }) if message == "No ETag in part upload response"
    ));
    assert!(matches!(
        S3Client::upload_part_result(&HttpResponse::new(503).with_header("etag", "x")),
        Err(AiStoreError::Http { status: 503, .. })
    ));
}

#[test]
fn complete_and_abort() {
    let parts = vec![(1, "a".to_string()), (2, "b".to_string())];
    let r = client().complete_multipart_upload(&at("k"), "u-1", parts);
    assert_eq!(r.method, Method::Post);
    assert_eq!(r.url, "http://h/s3/b/k?uploadId=u-1");
    assert_eq!(r.headers, vec![pair("content-type", "application/xml")]);
    match r.body {
        Some(RequestBody::Text(xml)) => assert_eq!(
            xml,
            "<CompleteMultipartUpload><Part><PartNumber>1</PartNumber><ETag>a</ETag></Part>\
             <Part><PartNumber>2</PartNumber><ETag>b</ETag></Part></CompleteMultipartUpload>"
        ),
        other => panic!("unexpected {:?}", other),
    }
    let done = HttpResponse::new(200).with_header("etag", "\"whole\"");
    assert_eq!(
        S3Client::complete_multipart_upload_result(&done).unwrap().e_tag,
        Some("whole".to_string())
    );
    let r = client().abort_multipart_upload(&at("k"), "u-1");
    assert_eq!(r.method, Method::Delete);
    assert_eq!(r.url, "http://h/s3/b/k?uploadId=u-1");
}

#[test]
fn metadata_with_a_given_time() {
    let response = HttpResponse::new(200)
        .with_header("content-length", "9")
        .with_header("last-modified", "not looked at");
    let meta = S3Client::object_meta_with(&at("k"), &response, Some(Timestamp::new(3, 4)), NOW);
    assert_eq!(meta.last_modified, Timestamp::new(3, 4));
    assert_eq!(meta.size, 9);
    let meta = S3Client::object_meta_with(&at("k"), &response, None, NOW);
    assert_eq!(meta.last_modified, NOW);
}

#[test]
fn a_get_with_given_dates() {
    let mut options = GetOptions::new();
    options.if_modified_since = Some(Timestamp::new(i64::MAX, 0));
    let r = client().get_object_with(&at("k"), &options, Some("then"), None);
    assert_eq!(r.headers, vec![pair("if-modified-since", "then")]);
    let r = client().get_object_with(&at("k"), &GetOptions::new(), None, Some("later"));
    assert_eq!(r.headers, vec![pair("if-unmodified-since", "later")]);
    assert_eq!(r.method, Method::Get);
}
