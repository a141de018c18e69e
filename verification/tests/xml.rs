use aistore::time::Timestamp;
use aistore::xml::{
    from_xml, outline, read_tokens, read_truth, to_xml, Closing, CompleteMultipartUploadRequest,
    InitiateMultipartUploadResult, ListBucketResult, ListingDraft, XmlToken,
};

#[test]
fn the_request_keeps_the_parts_in_their_order() {
    let request =
        CompleteMultipartUploadRequest::new(vec![(2, "b".to_string()), (1, "a".to_string())]);
    assert_eq!(request.parts.len(), 2);
    assert_eq!(request.parts[0].part_number, 2);
    assert_eq!(request.parts[0].e_tag, "b");
    assert_eq!(request.parts[1].part_number, 1);
    assert_eq!(request.parts[1].e_tag, "a");
    assert!(CompleteMultipartUploadRequest::new(vec![]).parts.is_empty());
}

#[test]
fn the_request_as_xml() {
    let request =
        CompleteMultipartUploadRequest::new(vec![(2, "b".to_string()), (1, "a".to_string())]);
    assert_eq!(
        to_xml(&request),
        "<CompleteMultipartUpload>\
         <Part><PartNumber>2</PartNumber><ETag>b</ETag></Part>\
         <Part><PartNumber>1</PartNumber><ETag>a</ETag></Part>\
         </CompleteMultipartUpload>"
    );
}

#[test]
fn a_request_without_parts_is_an_empty_tag() {
    assert_eq!(to_xml(&CompleteMultipartUploadRequest::new(vec![])), "<CompleteMultipartUpload/>");
    assert_eq!(
        to_xml(&CompleteMultipartUploadRequest::new(vec![(7, String::new())])),
        "<CompleteMultipartUpload><Part><PartNumber>7</PartNumber><ETag/></Part></CompleteMultipartUpload>"
    );
}

#[test]
fn tags_are_escaped() {
    let request = CompleteMultipartUploadRequest::new(vec![(1, "\"a<b>&c'\"".to_string())]);
    assert_eq!(
        to_xml(&request),
        "<CompleteMultipartUpload><Part><PartNumber>1</PartNumber>\
         <ETag>\"a&lt;b&gt;&amp;c'\"</ETag></Part></CompleteMultipartUpload>"
    );
}

#[test]
fn round_trip_of_keys_and_tags() {
    let parts = vec![(2u32, "b".to_string()), (1u32, "a".to_string())];
    let written = to_xml(&CompleteMultipartUploadRequest::new(parts.clone()));
    assert!(written.contains("<PartNumber>2</PartNumber><ETag>b</ETag>"));
    let listing = "<?xml version=\"1.0\" encoding=\"UTF-8\"?>\n\
        <ListBucketResult xmlns=\"http://s3.amazonaws.com/doc/2006-03-01/\">\n\
          <Contents><Key>2</Key><ETag>b</ETag></Contents>\n\
          <Contents><Key>1</Key><ETag>a</ETag></Contents>\n\
        </ListBucketResult>";
    let page = from_xml(listing).unwrap();
    let read: Vec<(u32, String)> = page
        .contents
        .iter()
        .map(|c| (c.key.parse::<u32>().unwrap(), c.e_tag.clone().unwrap()))
        .collect();
    assert_eq!(read, parts);
}

#[test]
fn what_was_escaped_reads_back() {
    let tag = "a<b>&c";
    let written = to_xml(&CompleteMultipartUploadRequest::new(vec![(1, tag.to_string())]));
    let tokens = read_tokens(&written);
    let texts: Vec<&str> = tokens
        .iter()
        .filter_map(|t| match t {
            XmlToken::Text(text) => Some(text.as_str()),
            _ => None,
        })
        .collect();
    assert_eq!(texts, vec!["1", tag]);
}

#[test]
fn a_full_listing() {
    let xml = "<ListBucketResult>\
        <Name>bucket</Name>\
        <Prefix>a/</Prefix>\
        <KeyCount>2</KeyCount>\
        <MaxKeys>1000</MaxKeys>\
        <IsTruncated>true</IsTruncated>\
        <NextContinuationToken>tok&amp;1</NextContinuationToken>\
        <Contents>\
          <Key>a/one.txt</Key>\
          <LastModified>2015-02-18T23:16:09.000Z</LastModified>\
          <ETag>&quot;e1&quot;</ETag>\
          <Size>11</Size>\
          <StorageClass>STANDARD</StorageClass>\
        </Contents>\
        <Contents>\
          <Key>a/two.txt</Key>\
          <Size>22</Size>\
        </Contents>\
        <CommonPrefixes><Prefix>a/dir/</Prefix></CommonPrefixes>\
        </ListBucketResult>";
    let page = from_xml(xml).unwrap();
    assert_eq!(page.is_truncated, Some(true));
    assert_eq!(page.next_continuation_token, Some("tok&1".to_string()));
    assert_eq!(page.contents.len(), 2);
    assert_eq!(page.contents[0].key, "a/one.txt");
    assert_eq!(page.contents[0].size, 11);
    assert_eq!(page.contents[0].last_modified, Some(Timestamp::new(1424301369, 0)));
    assert_eq!(page.contents[0].e_tag, Some("\"e1\"".to_string()));
    assert_eq!(page.contents[1].key, "a/two.txt");
    assert_eq!(page.contents[1].size, 22);
    assert_eq!(page.contents[1].last_modified, None);
    assert_eq!(page.contents[1].e_tag, None);
    assert_eq!(page.common_prefixes.len(), 1);
    assert_eq!(page.common_prefixes[0].prefix, "a/dir/");
}

#[test]
fn an_empty_listing() {
    for xml in ["<ListBucketResult></ListBucketResult>", "<ListBucketResult/>", "<Any/>"] {
        let page = from_xml(xml).unwrap();
        assert!(page.contents.is_empty());
        assert!(page.common_prefixes.is_empty());
        assert_eq!(page.next_continuation_token, None);
        assert_eq!(page.is_truncated, None);
    }
}

#[test]
fn an_empty_token_is_no_token() {
    let page = from_xml(
        "<ListBucketResult><IsTruncated>true</IsTruncated><NextContinuationToken/></ListBucketResult>",
    )
    .unwrap();
    assert_eq!(page.is_truncated, Some(true));
    assert_eq!(page.next_continuation_token, None);
}

#[test]
fn an_empty_key_is_a_key() {
    let page = from_xml("<r><Contents><Key/></Contents></r>").unwrap();
    assert_eq!(page.contents.len(), 1);
    assert_eq!(page.contents[0].key, "");
    assert_eq!(page.contents[0].size, 0);
}

#[test]
fn listings_that_are_refused() {
    let cases = [
        ("", "missing root element"),
        ("plain text", "missing root element"),
        ("<r><Contents><Size>1</Size></Contents></r>", "missing field `Key`"),
        ("<r><CommonPrefixes/></r>", "missing field `Prefix`"),
        ("<r><Contents><Key>a</Key><Size>big</Size></Contents></r>", "invalid value of `Size`"),
        ("<r><Contents><Key>a</Key><Size/></Contents></r>", "invalid value of `Size`"),
        (
            "<r><Contents><Key>a</Key><LastModified>soon</LastModified></Contents></r>",
            "invalid value of `LastModified`",
        ),
        ("<r><IsTruncated>maybe</IsTruncated></r>", "invalid value of `IsTruncated`"),
        ("<r><Contents>", "unclosed element"),
    ];
    for (xml, message) in cases {
        match from_xml(xml) {
            Err(found) => assert_eq!(found, message, "{:?}", xml),
            Ok(page) => panic!("{:?} was read as {:?}", xml, page),
        }
    }
}

#[test]
fn broken_documents_are_refused() {
    for xml in ["<r><a></b></r>", "<r></r></r>", "<r>&bogus;</r>", "<r", "<r><Key>a</Contents></r>"] {
        assert!(from_xml(xml).is_err(), "{:?}", xml);
    }
}

#[test]
fn the_first_failure_is_reported() {
    let xml = "<r><Contents><Size>x</Size></Contents><IsTruncated>maybe</IsTruncated></r>";
    assert_eq!(from_xml(xml).unwrap_err(), "invalid value of `Size`");
}

#[test]
fn tokens_of_a_document() {
    let tokens = read_tokens("<?xml version=\"1.0\"?><a x=\"1\"> <b>t &lt; u</b><!-- c --><c/> </a>");
    let shown: Vec<String> = tokens.iter().map(|t| format!("{:?}", t)).collect();
    assert_eq!(
        shown,
        vec![
            "Skip",
            "Open(\"a\")",
            "Open(\"b\")",
            "Text(\"t < u\")",
            "Close(\"b\")",
            "Skip",
            "Open(\"c\")",
            "Close(\"c\")",
            "Close(\"a\")",
            "End",
        ]
    );
}

#[test]
fn tokens_end_with_the_first_failure() {
    let tokens = read_tokens("<a></b><c/>");
    assert!(matches!(tokens[0], XmlToken::Open(ref n) if n == "a"));
    assert!(matches!(tokens.last(), Some(XmlToken::Malformed(_))));
    assert_eq!(tokens.len(), 2);
    let tokens = read_tokens("");
    assert_eq!(tokens.len(), 1);
    assert!(matches!(tokens[0], XmlToken::End));
}

#[test]
fn the_outline_of_a_document() {
    let tokens = read_tokens("<a><b>x</b><c><d>y</d>z</c></a>");
    let closings = outline(&tokens).unwrap();
    let shown: Vec<(String, String)> =
        closings.iter().map(|c| (c.path.join("/"), c.text.clone())).collect();
    assert_eq!(
        shown,
        vec![
            ("a/b".to_string(), "x".to_string()),
            ("a/c/d".to_string(), "y".to_string()),
            ("a/c".to_string(), "z".to_string()),
            ("a".to_string(), "".to_string()),
        ]
    );
}

#[test]
fn the_outline_checks_the_tags_itself() {
    let tokens = vec![
        XmlToken::Open("a".to_string()),
        XmlToken::Close("b".to_string()),
        XmlToken::End,
    ];
    assert_eq!(outline(&tokens).unwrap_err(), "unexpected end tag");
    let tokens = vec![XmlToken::Close("a".to_string()), XmlToken::End];
    assert_eq!(outline(&tokens).unwrap_err(), "unexpected end tag");
    let tokens = vec![XmlToken::Open("a".to_string()), XmlToken::End];
    assert_eq!(outline(&tokens).unwrap_err(), "unclosed element");
    let tokens = vec![XmlToken::Open("a".to_string()), XmlToken::Close("a".to_string())];
    assert_eq!(outline(&tokens).unwrap_err(), "unexpected end of document");
    let tokens = vec![XmlToken::Malformed("bad".to_string()), XmlToken::End];
    assert_eq!(outline(&tokens).unwrap_err(), "bad");
    let tokens = vec![
        XmlToken::Open("a".to_string()),
        XmlToken::Text("x".to_string()),
        XmlToken::Skip,
        XmlToken::Text("y".to_string()),
        XmlToken::Close("a".to_string()),
        XmlToken::End,
        XmlToken::Open("ignored".to_string()),
    ];
    let closings = outline(&tokens).unwrap();
    assert_eq!(closings.len(), 1);
    assert_eq!(closings[0].text, "xy");
}

#[test]
fn the_upload_id() {
    let xml = "<InitiateMultipartUploadResult><Bucket>b</Bucket><Key>k</Key>\
               <UploadId>abc-123</UploadId></InitiateMultipartUploadResult>";
    assert_eq!(InitiateMultipartUploadResult::from_xml(xml).unwrap().upload_id, "abc-123");
    assert_eq!(
        InitiateMultipartUploadResult::from_xml("<r><x><UploadId>deep</UploadId></x></r>").unwrap_err(),
        "missing field `UploadId`"
    );
    assert_eq!(
        InitiateMultipartUploadResult::from_xml("<r><UploadId>1</UploadId><UploadId>2</UploadId></r>")
            .unwrap()
            .upload_id,
        "2"
    );
    assert!(InitiateMultipartUploadResult::from_xml("<r><UploadId>1</r>").is_err());
}

#[test]
fn a_listing_from_its_outline() {
    let tokens = read_tokens("<r><Contents><Key>k</Key></Contents></r>");
    let closings = outline(&tokens).unwrap();
    let page = ListBucketResult::from_outline(&closings).unwrap();
    assert_eq!(page.contents[0].key, "k");
    assert_eq!(ListBucketResult::from_outline(&vec![]).unwrap_err(), "missing root element");
}

#[test]
fn cdata_counts_as_text() {
    let page = from_xml("<r><Contents><Key><![CDATA[a<b]]></Key></Contents></r>").unwrap();
    assert_eq!(page.contents[0].key, "a<b");
}

#[test]
fn a_draft_takes_the_elements_one_by_one() {
    let closing = |path: &[&str], text: &str| Closing {
        path: path.iter().map(|p| p.to_string()).collect(),
        text: text.to_string(),
    };
    let mut draft = ListingDraft::new();
    let date = closing(&["r", "Contents", "LastModified"], "whatever the text");
    assert!(ListingDraft::is_date_field(&date));
    assert!(!ListingDraft::is_date_field(&closing(&["r", "Contents", "Key"], "k")));
    assert!(!ListingDraft::is_date_field(&closing(&["r", "LastModified"], "k")));
    draft.step(&closing(&["r", "Contents", "Key"], "k"), None);
    draft.step(&date, Some(Timestamp::new(5, 6)));
    draft.step(&closing(&["r", "Contents"], ""), None);
    draft.step(&closing(&["r"], ""), Some(Timestamp::new(9, 9)));
    let page = draft.finish().unwrap();
    assert_eq!(page.contents.len(), 1);
    assert_eq!(page.contents[0].last_modified, Some(Timestamp::new(5, 6)));

    let mut failing = ListingDraft::new();
    failing.step(&date, None);
    failing.step(&closing(&["r", "Contents", "Key"], "k"), None);
    failing.step(&closing(&["r", "Contents"], ""), None);
    failing.step(&closing(&["r"], ""), None);
    assert_eq!(failing.finish().unwrap_err(), "invalid value of `LastModified`");
    assert_eq!(ListingDraft::new().finish().unwrap_err(), "missing root element");
}

#[test]
fn truth_values() {
    assert_eq!(read_truth("true"), Some(true));
    assert_eq!(read_truth("1"), Some(true));
    assert_eq!(read_truth("false"), Some(false));
    assert_eq!(read_truth("0"), Some(false));
    for text in ["", "TRUE", "True", "yes", "no", "2", "01", " true", "t", "f"] {
        assert_eq!(read_truth(text), None, "{:?}", text);
    }
}

#[test]
fn is_truncated_takes_one_and_zero() {
    let page = from_xml("<r><IsTruncated>1</IsTruncated></r>").unwrap();
    assert_eq!(page.is_truncated, Some(true));
    let page = from_xml("<r><IsTruncated>0</IsTruncated></r>").unwrap();
    assert_eq!(page.is_truncated, Some(false));
    let page = from_xml("<r><IsTruncated> true </IsTruncated></r>").unwrap();
    assert_eq!(page.is_truncated, Some(true));
    assert!(from_xml("<r><IsTruncated>TRUE</IsTruncated></r>").is_err());
    assert!(from_xml("<r><IsTruncated/></r>").is_err());
}
