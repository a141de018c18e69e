use aistore::builder::AiStoreBuilder;
use aistore::path::ObjectLocation;
use aistore::text::parse_u64;
use aistore::xml::{to_xml, CompleteMultipartUploadRequest};

/// Every string over `alphabet` of at most `longest` characters.
fn strings(alphabet: &[char], longest: usize) -> Vec<String> {
    let mut all = vec![String::new()];
    let mut last = vec![String::new()];
    for _ in 0..longest {
        let mut next = vec![];
        for s in &last {
            for c in alphabet {
                let mut t = s.clone();
                t.push(*c);
                next.push(t);
            }
        }
        all.extend(next.iter().cloned());
        last = next;
    }
    all
}

/// The rules of keys, written out: one slash less at either end, then
/// either nothing, or segments that are not empty, not `.` or `..`, and
/// free of control characters.
fn key_by_the_rules(raw: &str) -> Option<String> {
    let head = raw.strip_prefix('/').unwrap_or(raw);
    if head.is_empty() {
        return Some(String::new());
    }
    let body = head.strip_suffix('/').unwrap_or(head);
    for segment in body.split('/') {
        if segment.is_empty() || segment == "." || segment == ".." {
            return None;
        }
        if segment.chars().any(|c| (c as u32) < 32 || c as u32 == 127) {
            return None;
        }
    }
    Some(body.to_string())
}

#[test]
fn keys_follow_the_rules_on_all_short_strings() {
    for raw in strings(&['a', '/', '.', '\n', '\u{7f}', 'é'], 6) {
        let parsed = ObjectLocation::parse(&raw).map(|l| l.as_str().to_string());
        assert_eq!(parsed, key_by_the_rules(&raw), "{:?}", raw);
    }
}

#[test]
fn a_key_reads_as_itself() {
    for raw in strings(&['a', '/', '.', ' '], 6) {
        if let Some(location) = ObjectLocation::parse(&raw) {
            let again = ObjectLocation::parse(location.as_str()).unwrap();
            assert_eq!(again.as_str(), location.as_str(), "{:?}", raw);
        }
    }
}

#[test]
fn header_values_follow_the_rules_on_all_characters() {
    for code in 0u32..0x300 {
        let c = char::from_u32(code).unwrap();
        let allowed = (code >= 32 && code != 127) || c == '\t';
        let built = AiStoreBuilder::new()
            .with_endpoint("e")
            .with_bucket_name("b")
            .with_auth_jwt_token(&format!("a{}b", c))
            .build();
        assert_eq!(built.is_ok(), allowed, "{:?}", c);
    }
}

#[test]
fn escaping_follows_the_rules_on_all_short_strings() {
    for tag in strings(&['a', '<', '>', '&', '"', '\'', ' ', 'é'], 4) {
        let mut expected = String::new();
        for c in tag.chars() {
            match c {
                '<' => expected.push_str("&lt;"),
                '>' => expected.push_str("&gt;"),
                '&' => expected.push_str("&amp;"),
                other => expected.push(other),
            }
        }
        let element = if expected.is_empty() {
            "<ETag/>".to_string()
        } else {
            format!("<ETag>{}</ETag>", expected)
        };
        let written = to_xml(&CompleteMultipartUploadRequest::new(vec![(1, tag.clone())]));
        assert_eq!(
            written,
            format!(
                "<CompleteMultipartUpload><Part><PartNumber>1</PartNumber>{}</Part></CompleteMultipartUpload>",
                element
            ),
            "{:?}",
            tag
        );
    }
}

#[test]
fn numbers_are_read_as_std_reads_them_on_all_short_strings() {
    for text in strings(&['0', '1', '9', '+', '-', ' ', 'a'], 5) {
        assert_eq!(parse_u64(&text), text.parse::<u64>().ok(), "{:?}", text);
    }
    for text in [
        "18446744073709551614",
        "18446744073709551615",
        "18446744073709551616",
        "18446744073709551625",
        "28446744073709551615",
        "+18446744073709551615",
        "000000000000000000000000000018446744073709551615",
        "184467440737095516150",
    ] {
        assert_eq!(parse_u64(text), text.parse::<u64>().ok(), "{:?}", text);
    }
}
