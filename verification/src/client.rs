//! The operations of the S3 protocol, each as a pair: the request that
//! asks for it, and the reading of the response that answers it.

use crate::error::{error_of_status, is_success, AiStoreError, ErrorView};
use crate::http::{header_text, HttpResponse, Method, ResponseView};
use crate::path::ObjectLocation;
use crate::request::{
    attempt_of_response, initial_state, is_request, lemma_condition_answers_are_delivered, run,
    BodyView, ClientExt, ClientView, DecisionView, HttpClient, HttpRequestBuilder, RequestBody,
    RequestPolicy,
};
use crate::text::{
    chars_of, copy_text, decimal, decimal_text, find_from, join, next_index, parse_u64,
    parse_u64_range, parsed_u64, same_chars, trim_both, trim_matches,
};
use crate::time::{http_date, rfc2822_instant, Timestamp};
use crate::types::{
    total_len, GetOptions, GetOptionsView, GetRange, GetResult, GetResultView, ObjectMeta,
    ObjectMetaView, PutPayload, PutResult, PutResultView,
};
use crate::xml::{
    complete_xml, from_xml, listing_in, parts_view, to_xml, upload_id_in,
    CompleteMultipartUploadRequest, InitiateMultipartUploadResult, ListBucketResult, ListingView,
};
use std::ops::Range;
use vstd::prelude::*;

verus! {

/// A result with both sides as mathematical values.
pub open spec fn result_view<T: View, E: View>(r: Result<T, E>) -> Result<T::V, E::V> {
    match r {
        Ok(t) => Ok(t@),
        Err(e) => Err(e@),
    }
}

/// Where the bucket is.
#[derive(Debug)]
pub struct S3Config {
    /// The URL of the bucket, without a slash at its end.
    pub url: String,
}

/// The protocol client: the bucket and the HTTP client that reaches it.
#[derive(Debug)]
pub struct S3Client {
    config: S3Config,
    client: HttpClient,
}

/// [`S3Client`] as a mathematical value.
pub struct S3ClientView {
    pub url: Seq<char>,
    pub client: ClientView,
}

impl View for S3Client {
    type V = S3ClientView;

    closed spec fn view(&self) -> S3ClientView {
        S3ClientView { url: self.config.url@, client: self.client@ }
    }
}

// ---------------------------------------------------------------------
// What the requests say
// ---------------------------------------------------------------------

/// The URL of the object at `path` in the bucket at `url`.
pub open spec fn object_url_of(url: Seq<char>, path: Seq<char>) -> Seq<char> {
    url + "/"@ + path
}

/// The value of the `Range` header for a range: `bytes=start-last` with
/// the last byte counted in, `bytes=start-` or `bytes=-length`.
pub open spec fn range_header(range: GetRange) -> Seq<char> {
    match range {
        GetRange::Bounded { start, end } => "bytes="@ + decimal(start as nat) + "-"@ + decimal(
            if end == 0 {
                0nat
            } else {
                (end - 1) as nat
            },
        ),
        GetRange::Offset(offset) => "bytes="@ + decimal(offset as nat) + "-"@,
        GetRange::Suffix(length) => "bytes=-"@ + decimal(length as nat),
    }
}

/// The header `name: value`, if there is a value.
pub open spec fn optional_header(name: Seq<char>, value: Option<Seq<char>>) -> Seq<
    (Seq<char>, Seq<char>),
> {
    match value {
        Some(v) => seq![(name, v)],
        None => Seq::empty(),
    }
}

/// The HTTP date of an instant, if there is an instant.
pub open spec fn optional_date(instant: Option<Timestamp>) -> Option<Option<Seq<char>>> {
    match instant {
        Some(t) => Some(http_date(t.seconds as int, t.nanos as int)),
        None => None,
    }
}

/// Whether the dates of the conditions can be written as HTTP dates.
pub open spec fn dates_expressible(options: GetOptionsView) -> bool {
    &&& optional_date(options.if_modified_since) != Some(None::<Seq<char>>)
    &&& optional_date(options.if_unmodified_since) != Some(None::<Seq<char>>)
}

/// The date of a condition as the text of its header.
pub open spec fn date_text(instant: Option<Timestamp>) -> Option<Seq<char>> {
    match optional_date(instant) {
        Some(Some(text)) => Some(text),
        _ => None,
    }
}

/// The headers of a get, in the order in which they are set, given the
/// dates of its conditions as they stand in the headers.
pub open spec fn get_headers_with(
    options: GetOptionsView,
    modified_since: Option<Seq<char>>,
    unmodified_since: Option<Seq<char>>,
) -> Seq<(Seq<char>, Seq<char>)> {
    optional_header(
        "range"@,
        match options.range {
            Some(range) => Some(range_header(range)),
            None => None,
        },
    ) + optional_header("if-match"@, options.if_match) + optional_header(
        "if-none-match"@,
        options.if_none_match,
    ) + optional_header("if-modified-since"@, modified_since) + optional_header(
        "if-unmodified-since"@,
        unmodified_since,
    )
}

/// The headers of a get, in the order in which they are set.
pub open spec fn get_headers(options: GetOptionsView) -> Seq<(Seq<char>, Seq<char>)> {
    get_headers_with(
        options,
        date_text(options.if_modified_since),
        date_text(options.if_unmodified_since),
    )
}

// ---------------------------------------------------------------------
// What the responses say
// ---------------------------------------------------------------------

/// An entity tag without the quotes around it.
pub open spec fn unquoted(tag: Seq<char>) -> Seq<char> {
    trim_both(tag, '"')
}

/// The entity tag that the headers tell, unquoted.
pub open spec fn e_tag_of(headers: Seq<(Seq<char>, Option<Seq<char>>)>) -> Option<Seq<char>> {
    match header_text(headers, "etag"@) {
        Some(tag) => Some(unquoted(tag)),
        None => None,
    }
}

/// What a write returned, from the headers of its response.
pub open spec fn put_result_of(r: ResponseView) -> Result<PutResultView, ErrorView> {
    if is_success(r.status) {
        Ok(PutResultView { e_tag: e_tag_of(r.headers), version: header_text(r.headers, "x-ais-version"@) })
    } else {
        Err(error_of_status(r.status, r.body))
    }
}

/// `()` for a status in 2xx, the error of the status otherwise.
pub open spec fn done_or_error(r: ResponseView) -> Result<(), ErrorView> {
    if is_success(r.status) {
        Ok(())
    } else {
        Err(error_of_status(r.status, r.body))
    }
}

/// The metadata that the headers of a response tell of the object at
/// `location`, given the instant that its `Last-Modified` header denotes,
/// if it has one that denotes any. The size is the `Content-Length`, zero
/// where that is absent or no number; the time is `now` where the
/// `Last-Modified` denotes none.
pub open spec fn object_meta_with(
    location: Seq<char>,
    headers: Seq<(Seq<char>, Option<Seq<char>>)>,
    last_modified: Option<Timestamp>,
    now: Timestamp,
) -> ObjectMetaView {
    ObjectMetaView {
        location,
        last_modified: match last_modified {
            Some(instant) => instant,
            None => now,
        },
        size: match header_text(headers, "content-length"@) {
            Some(text) => match parsed_u64(text) {
                Some(size) => size,
                None => 0,
            },
            None => 0,
        },
        e_tag: e_tag_of(headers),
        version: header_text(headers, "x-ais-version"@),
    }
}

/// The instant that the `Last-Modified` header denotes, if there is such a
/// header and it is a date.
pub open spec fn last_modified_of(headers: Seq<(Seq<char>, Option<Seq<char>>)>) -> Option<
    Timestamp,
> {
    match header_text(headers, "last-modified"@) {
        Some(text) => rfc2822_instant(text),
        None => None,
    }
}

/// The metadata that the headers of a response tell of the object at
/// `location`; `now` stands in for a `Last-Modified` that is absent or no
/// date.
pub open spec fn object_meta_of(
    location: Seq<char>,
    headers: Seq<(Seq<char>, Option<Seq<char>>)>,
    now: Timestamp,
) -> ObjectMetaView {
    object_meta_with(location, headers, last_modified_of(headers), now)
}

/// The range of bytes that a `Content-Range` header of the form
/// `bytes first-last/total` tells, the end not counted in. The header must
/// hold exactly one space, with `bytes` before it; between the space and
/// the first `/` exactly one `-`; and a number on either side of that,
/// the second below the largest 64-bit number.
pub open spec fn content_range_of(text: Seq<char>) -> Option<Range<u64>> {
    let space = next_index(text, ' ', 0);
    let slash = next_index(text, '/', space + 1);
    let dash = next_index(text, '-', space + 1);
    let first = parsed_u64(text.subrange(space + 1, dash));
    let last = parsed_u64(text.subrange(dash + 1, slash));
    if space < text.len() && next_index(text, ' ', space + 1) == text.len() && text.take(space)
        == "bytes"@ && dash < slash && next_index(text, '-', dash + 1) >= slash && first is Some
        && last is Some && last->0 < u64::MAX {
        Some(Range { start: first->0, end: (last->0 + 1) as u64 })
    } else {
        None
    }
}

/// The range that a response serves: what its `Content-Range` tells, or
/// all `size` bytes where it tells nothing.
pub open spec fn served_range(headers: Seq<(Seq<char>, Option<Seq<char>>)>, size: u64) -> Range<
    u64,
> {
    match header_text(headers, "content-range"@) {
        Some(text) => match content_range_of(text) {
            Some(range) => range,
            None => Range { start: 0, end: size },
        },
        None => Range { start: 0, end: size },
    }
}

/// What a get returned. 304 and 412 answer the conditions of the request;
/// any other status outside 2xx is the error of that status.
pub open spec fn get_result_of(
    location: Seq<char>,
    head: bool,
    r: ResponseView,
    now: Timestamp,
) -> Result<GetResultView, ErrorView> {
    if r.status == 304 {
        Err(ErrorView::NotModified { path: location })
    } else if r.status == 412 {
        Err(ErrorView::PreconditionFailed { path: location })
    } else if !is_success(r.status) {
        Err(error_of_status(r.status, r.body))
    } else {
        let meta = object_meta_of(location, r.headers, now);
        Ok(GetResultView { meta, range: served_range(r.headers, meta.size), has_body: !head })
    }
}

/// What a head returned.
pub open spec fn head_result_of(location: Seq<char>, r: ResponseView, now: Timestamp) -> Result<
    ObjectMetaView,
    ErrorView,
> {
    if is_success(r.status) {
        Ok(object_meta_of(location, r.headers, now))
    } else {
        Err(error_of_status(r.status, r.body))
    }
}

/// What the upload of a part returned: the entity tag of the part, which
/// the response must tell.
pub open spec fn upload_part_result_of(r: ResponseView) -> Result<Seq<char>, ErrorView> {
    if !is_success(r.status) {
        Err(error_of_status(r.status, r.body))
    } else {
        match e_tag_of(r.headers) {
            Some(tag) => Ok(tag),
            None => Err(ErrorView::InvalidResponse { message: "No ETag in part upload response"@ }),
        }
    }
}

/// The query of a listing: always `list-type=2`, then the prefix, the
/// continuation token and the page size, each if it is given.
pub open spec fn list_query(
    prefix: Option<Seq<char>>,
    continuation_token: Option<Seq<char>>,
    max_keys: Option<u32>,
) -> Seq<(Seq<char>, Seq<char>)> {
    seq![("list-type"@, "2"@)] + optional_header("prefix"@, prefix) + optional_header(
        "continuation-token"@,
        continuation_token,
    ) + optional_header(
        "max-keys"@,
        match max_keys {
            Some(n) => Some(decimal(n as nat)),
            None => None,
        },
    )
}

/// What a listing returned: the page that the body holds.
pub open spec fn list_result_of(r: ResponseView) -> Result<ListingView, ErrorView> {
    if !is_success(r.status) {
        Err(error_of_status(r.status, r.body))
    } else {
        match listing_in(r.body) {
            Ok(listing) => Ok(listing),
            Err(message) => Err(
                ErrorView::InvalidResponse {
                    message: "Failed to parse ListObjectsV2 response: "@ + message,
                },
            ),
        }
    }
}

/// What the start of an upload returned: the upload id, from the header
/// `x-ais-upload-id` where the response has one, from the body otherwise.
pub open spec fn initiate_result_of(r: ResponseView) -> Result<Seq<char>, ErrorView> {
    if !is_success(r.status) {
        Err(error_of_status(r.status, r.body))
    } else {
        match crate::http::find_header(r.headers, "x-ais-upload-id"@) {
            Some(Some(id)) => Ok(id),
            Some(None) => Err(ErrorView::InvalidResponse { message: "Invalid upload ID header"@ }),
            None => match upload_id_in(r.body) {
                Ok(id) => Ok(id),
                Err(message) => Err(
                    ErrorView::InvalidResponse {
                        message: "Failed to parse InitiateMultipartUpload response: "@ + message,
                    },
                ),
            },
        }
    }
}

/// The URL that uploads part `part_number` of the upload `upload_id`.
pub open spec fn part_url_of(
    url: Seq<char>,
    path: Seq<char>,
    part_number: u32,
    upload_id: Seq<char>,
) -> Seq<char> {
    object_url_of(url, path) + "?partNumber="@ + decimal(part_number as nat) + "&uploadId="@
        + upload_id
}

/// The URL that completes or aborts the upload `upload_id`.
pub open spec fn upload_url_of(url: Seq<char>, path: Seq<char>, upload_id: Seq<char>) -> Seq<
    char,
> {
    object_url_of(url, path) + "?uploadId="@ + upload_id
}

/// A get whose response succeeds and tells no `Content-Range` serves the
/// whole object: the range from zero to the `Content-Length`, whatever
/// range the request asked for.
pub proof fn lemma_range_falls_back(
    location: Seq<char>,
    head: bool,
    r: ResponseView,
    now: Timestamp,
)
    requires
        is_success(r.status),
        header_text(r.headers, "content-range"@) is None,
    ensures
        get_result_of(location, head, r, now) is Ok,
        get_result_of(location, head, r, now)->Ok_0.range == (Range {
            start: 0,
            end: object_meta_of(location, r.headers, now).size,
        }),
{
}

/// A conditional get that is answered by 304 yields `NotModified` with the
/// location that was asked for, and one answered by 412 yields
/// `PreconditionFailed`, whatever else the response holds.
pub proof fn lemma_conditional_get(location: Seq<char>, head: bool, r: ResponseView, now: Timestamp)
    ensures
        r.status == 304 ==> get_result_of(location, head, r, now) == Err::<
            GetResultView,
            ErrorView,
        >(ErrorView::NotModified { path: location }),
        r.status == 412 ==> get_result_of(location, head, r, now) == Err::<
            GetResultView,
            ErrorView,
        >(ErrorView::PreconditionFailed { path: location }),
{
}

/// A conditional get, taken from the request to the result: where the one
/// answer of the exchange is a 304, the executor delivers it, whatever the
/// policy, and the get reads it as `NotModified` with the location that
/// was asked for; where it is a 412, as `PreconditionFailed`.
pub proof fn lemma_conditional_get_is_answered(
    policy: RequestPolicy,
    url: Seq<char>,
    location: Seq<char>,
    head: bool,
    r: ResponseView,
    now: Timestamp,
)
    requires
        r.status == 304 || r.status == 412,
    ensures
        run(policy, initial_state(policy, url), seq![attempt_of_response(r)]).end == Some(
            DecisionView::Deliver,
        ),
        r.status == 304 ==> get_result_of(location, head, r, now) == Err::<
            GetResultView,
            ErrorView,
        >(ErrorView::NotModified { path: location }),
        r.status == 412 ==> get_result_of(location, head, r, now) == Err::<
            GetResultView,
            ErrorView,
        >(ErrorView::PreconditionFailed { path: location }),
{
    lemma_condition_answers_are_delivered(
        policy,
        initial_state(policy, url),
        r.status,
        header_text(r.headers, "location"@),
    );
}

fn failure(response: &HttpResponse) -> (error: AiStoreError)
    ensures
        error@ == error_of_status(response@.status, response@.body),
{
    AiStoreError::handle_error_response(response.status, copy_text(response.body.as_str()))
}

fn succeeded(response: &HttpResponse) -> (yes: bool)
    ensures
        yes == is_success(response@.status),
{
    200 <= response.status && response.status <= 299
}

fn owned(text: Option<&str>) -> (out: Option<String>)
    ensures
        out.deep_view() == match text {
            Some(t) => Some(t@),
            None => None,
        },
{
    match text {
        Some(t) => Some(copy_text(t)),
        None => None,
    }
}

fn e_tag(response: &HttpResponse) -> (tag: Option<String>)
    ensures
        tag.deep_view() == e_tag_of(response@.headers),
{
    match response.header_text("etag") {
        Some(t) => Some(trim_matches(t, '"')),
        None => None,
    }
}

impl S3Client {
    pub fn new(config: S3Config, client: HttpClient) -> (out: S3Client)
        ensures
            out@ == (S3ClientView { url: config.url@, client: client@ }),
    {
        S3Client { config, client }
    }

    /// A copy of this client.
    pub fn duplicate(&self) -> (copy: S3Client)
        ensures
            copy@ == self@,
    {
        S3Client {
            config: S3Config { url: copy_text(self.config.url.as_str()) },
            client: self.client.duplicate(),
        }
    }

    /// The settings of the HTTP client.
    pub fn http_client(&self) -> (client: &HttpClient)
        ensures
            client@ == self@.client,
    {
        &self.client
    }

    /// The URL of the object at `path`.
    pub fn object_url(&self, path: &ObjectLocation) -> (url: String)
        ensures
            url@ == object_url_of(self@.url, path@),
    {
        let head = join(self.config.url.as_str(), "/");
        join(head.as_str(), path.as_str())
    }

    /// The URL of the bucket.
    pub fn bucket_url(&self) -> (url: &str)
        ensures
            url@ == self@.url,
    {
        self.config.url.as_str()
    }

    // -- put ----------------------------------------------------------

    /// The request that stores `payload` at `path`.
    pub fn put_object(&self, path: &ObjectLocation, payload: PutPayload) -> (request:
        HttpRequestBuilder)
        ensures
            is_request(
                request@,
                self@.client,
                Method::Put,
                object_url_of(self@.url, path@),
                seq![("content-length"@, decimal(total_len(payload@)))],
                Seq::empty(),
                Some(BodyView::Payload(payload@)),
            ),
    {
        let url = self.object_url(path);
        let length = decimal_text(payload.content_length());
        self.client.put_with_retry(url.as_str()).header(
            "content-length",
            length.as_str(),
        ).body(RequestBody::Payload(payload))
    }

    /// Reads the response to a put.
    pub fn put_object_result(response: &HttpResponse) -> (out: Result<PutResult, AiStoreError>)
        ensures
            result_view(out) == put_result_of(response@),
    {
        if !succeeded(response) {
            return Err(failure(response));
        }
        Ok(PutResult { e_tag: e_tag(response), version: owned(response.header_text("x-ais-version")) })
    }

    // -- get and head ---------------------------------------------------

    /// The value of the `Range` header for `range`.
    pub fn range_header_value(range: &GetRange) -> (value: String)
        ensures
            value@ == range_header(*range),
    {
        match range {
            GetRange::Bounded { start, end } => {
                let last: u64 = if *end == 0 {
                    0
                } else {
                    *end - 1
                };
                let a = join("bytes=", decimal_text(*start as u128).as_str());
                let b = join(a.as_str(), "-");
                join(b.as_str(), decimal_text(last as u128).as_str())
            },
            GetRange::Offset(offset) => {
                let a = join("bytes=", decimal_text(*offset as u128).as_str());
                join(a.as_str(), "-")
            },
            GetRange::Suffix(length) => join("bytes=-", decimal_text(*length as u128).as_str()),
        }
    }

    /// The request that gets the object at `path` under `options`: a HEAD
    /// where only the metadata is asked for, and a header for the range and
    /// for each condition that is set. The dates of the conditions are
    /// given as they stand in the headers.
    pub fn get_object_with(
        &self,
        path: &ObjectLocation,
        options: &GetOptions,
        modified_since: Option<&str>,
        unmodified_since: Option<&str>,
    ) -> (request: HttpRequestBuilder)
        ensures
            is_request(
                request@,
                self@.client,
                if options.head {
                    Method::Head
                } else {
                    Method::Get
                },
                object_url_of(self@.url, path@),
                get_headers_with(
                    options@,
                    match modified_since {
                        Some(t) => Some(t@),
                        None => None,
                    },
                    match unmodified_since {
                        Some(t) => Some(t@),
                        None => None,
                    },
                ),
                Seq::empty(),
                None,
            ),
    {
        let url = self.object_url(path);
        let mut request = if options.head {
            self.client.head_with_retry(url.as_str())
        } else {
            self.client.get_with_retry(url.as_str())
        };
        if let Some(range) = &options.range {
            let value = S3Client::range_header_value(range);
            request = request.header("range", value.as_str());
        }
        let ghost h1 = request@.headers;
        if let Some(tag) = &options.if_match {
            request = request.header("if-match", tag.as_str());
        }
        let ghost h2 = request@.headers;
        assert(h2 =~= h1 + optional_header("if-match"@, options@.if_match));
        if let Some(tag) = &options.if_none_match {
            request = request.header("if-none-match", tag.as_str());
        }
        let ghost h3 = request@.headers;
        assert(h3 =~= h2 + optional_header("if-none-match"@, options@.if_none_match));
        if let Some(date) = modified_since {
            request = request.header("if-modified-since", date);
        }
        let ghost h4 = request@.headers;
        assert(h4 =~= h3 + optional_header(
            "if-modified-since"@,
            match modified_since {
                Some(t) => Some(t@),
                None => None,
            },
        ));
        if let Some(date) = unmodified_since {
            request = request.header("if-unmodified-since", date);
        }
        assert(request@.headers =~= h4 + optional_header(
            "if-unmodified-since"@,
            match unmodified_since {
                Some(t) => Some(t@),
                None => None,
            },
        ));
        request
    }

    /// The request that gets the object at `path` under `options`. A
    /// condition whose date the calendar cannot express is refused.
    pub fn get_object(&self, path: &ObjectLocation, options: &GetOptions) -> (out: Result<
        HttpRequestBuilder,
        AiStoreError,
    >)
        ensures
            match out {
                Ok(request) => dates_expressible(options@) && is_request(
                    request@,
                    self@.client,
                    if options.head {
                        Method::Head
                    } else {
                        Method::Get
                    },
                    object_url_of(self@.url, path@),
                    get_headers(options@),
                    Seq::empty(),
                    None,
                ),
                Err(error) => !dates_expressible(options@) && error@ == (ErrorView::Configuration {
                    message: "Date out of range"@,
                }),
            },
    {
        let modified_since = match &options.if_modified_since {
            Some(instant) => match instant.to_http_date() {
                Some(date) => Some(date),
                None => {
                    return Err(
                        AiStoreError::Configuration { message: copy_text("Date out of range") },
                    );
                },
            },
            None => None,
        };
        let unmodified_since = match &options.if_unmodified_since {
            Some(instant) => match instant.to_http_date() {
                Some(date) => Some(date),
                None => {
                    return Err(
                        AiStoreError::Configuration { message: copy_text("Date out of range") },
                    );
                },
            },
            None => None,
        };
        Ok(
            self.get_object_with(
                path,
                options,
                match &modified_since {
                    Some(date) => Some(date.as_str()),
                    None => None,
                },
                match &unmodified_since {
                    Some(date) => Some(date.as_str()),
                    None => None,
                },
            ),
        )
    }

    /// Reads a `Content-Range` header.
    pub fn parse_content_range(text: &str) -> (range: Option<Range<u64>>)
        ensures
            range == content_range_of(text@),
    {
        let v = chars_of(text);
        let n = v.len();
        let space = find_from(&v, ' ', 0);
        if space >= n {
            return None;
        }
        if find_from(&v, ' ', space + 1) != n {
            return None;
        }
        let unit = chars_of("bytes");
        let mut head: Vec<char> = Vec::new();
        let mut i: usize = 0;
        while i < space
            invariant
                i <= space <= v.len(),
                head@ == v@.take(i as int),
            decreases space - i,
        {
            head.push(v[i]);
            i += 1;
        }
        if !same_chars(&head, &unit) {
            return None;
        }
        let slash = find_from(&v, '/', space + 1);
        let dash = find_from(&v, '-', space + 1);
        if dash >= slash {
            return None;
        }
        if find_from(&v, '-', dash + 1) < slash {
            return None;
        }
        let first = parse_u64_range(&v, space + 1, dash);
        let last = parse_u64_range(&v, dash + 1, slash);
        match (first, last) {
            (Some(start), Some(last)) => {
                if last < u64::MAX {
                    Some(Range { start, end: last + 1 })
                } else {
                    None
                }
            },
            _ => None,
        }
    }

    /// The metadata that the headers of `response` tell of the object at
    /// `path`, given the instant that its `Last-Modified` header denotes,
    /// if it has one that denotes any; `now` stands in where it does not.
    pub fn object_meta_with(
        path: &ObjectLocation,
        response: &HttpResponse,
        last_modified: Option<Timestamp>,
        now: Timestamp,
    ) -> (meta: ObjectMeta)
        ensures
            meta@ == object_meta_with(path@, response@.headers, last_modified, now),
    {
        let size: u64 = match response.header_text("content-length") {
            Some(text) => match parse_u64(text) {
                Some(size) => size,
                None => 0,
            },
            None => 0,
        };
        ObjectMeta {
            location: path.duplicate(),
            last_modified: match last_modified {
                Some(instant) => instant,
                None => now,
            },
            size,
            e_tag: e_tag(response),
            version: owned(response.header_text("x-ais-version")),
        }
    }

    /// The metadata that the headers of `response` tell of the object at
    /// `path`; `now` stands in for a `Last-Modified` that is absent or no
    /// date.
    pub fn extract_object_meta(path: &ObjectLocation, response: &HttpResponse, now: Timestamp) -> (out:
        Result<ObjectMeta, AiStoreError>)
        ensures
            result_view(out) == Ok::<ObjectMetaView, ErrorView>(
                object_meta_of(path@, response@.headers, now),
            ),
    {
        let last_modified = match response.header_text("last-modified") {
            Some(text) => Timestamp::from_rfc2822(text),
            None => None,
        };
        Ok(S3Client::object_meta_with(path, response, last_modified, now))
    }

    /// Reads the response to a get that was made with `head` set or not.
    pub fn get_object_result(
        path: &ObjectLocation,
        head: bool,
        response: &HttpResponse,
        now: Timestamp,
    ) -> (out: Result<GetResult, AiStoreError>)
        ensures
            result_view(out) == get_result_of(path@, head, response@, now),
    {
        if response.status == 304 {
            return Err(AiStoreError::NotModified { path: path.duplicate() });
        }
        if response.status == 412 {
            return Err(AiStoreError::PreconditionFailed { path: path.duplicate() });
        }
        if !succeeded(response) {
            return Err(failure(response));
        }
        let meta = match S3Client::extract_object_meta(path, response, now) {
            Ok(meta) => meta,
            Err(error) => {
                return Err(error);
            },
        };
        let whole = Range { start: 0, end: meta.size };
        let range = match response.header_text("content-range") {
            Some(text) => match S3Client::parse_content_range(text) {
                Some(range) => range,
                None => whole,
            },
            None => whole,
        };
        Ok(GetResult { meta, range, has_body: !head })
    }

    /// The request for the metadata of the object at `path`.
    pub fn head_object(&self, path: &ObjectLocation) -> (request: HttpRequestBuilder)
        ensures
            is_request(
                request@,
                self@.client,
                Method::Head,
                object_url_of(self@.url, path@),
                Seq::empty(),
                Seq::empty(),
                None,
            ),
    {
        let url = self.object_url(path);
        self.client.head_with_retry(url.as_str())
    }

    /// Reads the response to a head.
    pub fn head_object_result(path: &ObjectLocation, response: &HttpResponse, now: Timestamp) -> (out:
        Result<ObjectMeta, AiStoreError>)
        ensures
            result_view(out) == head_result_of(path@, response@, now),
    {
        if !succeeded(response) {
            return Err(failure(response));
        }
        S3Client::extract_object_meta(path, response, now)
    }

    // -- delete and copy ------------------------------------------------

    /// The request that deletes the object at `path`.
    pub fn delete_object(&self, path: &ObjectLocation) -> (request: HttpRequestBuilder)
        ensures
            is_request(
                request@,
                self@.client,
                Method::Delete,
                object_url_of(self@.url, path@),
                Seq::empty(),
                Seq::empty(),
                None,
            ),
    {
        let url = self.object_url(path);
        self.client.delete_with_retry(url.as_str())
    }

    /// Reads a response that has nothing to tell but success or failure:
    /// the answer to a delete, a copy, or the abort of an upload.
    pub fn expect_success(response: &HttpResponse) -> (out: Result<(), AiStoreError>)
        ensures
            match out {
                Ok(_) => done_or_error(response@) == Ok::<(), ErrorView>(()),
                Err(error) => done_or_error(response@) == Err::<(), ErrorView>(error@),
            },
    {
        if !succeeded(response) {
            return Err(failure(response));
        }
        Ok(())
    }

    /// The request that copies the object at `from` to `to`: a PUT to the
    /// destination that names the source in a header.
    pub fn copy_object(&self, from: &ObjectLocation, to: &ObjectLocation) -> (request:
        HttpRequestBuilder)
        ensures
            is_request(
                request@,
                self@.client,
                Method::Put,
                object_url_of(self@.url, to@),
                seq![("x-amz-copy-source"@, object_url_of(self@.url, from@))],
                Seq::empty(),
                None,
            ),
    {
        let url = self.object_url(to);
        let source = self.object_url(from);
        self.client.put_with_retry(url.as_str()).header(
            "x-amz-copy-source",
            source.as_str(),
        )
    }

    // -- list -----------------------------------------------------------

    /// The request for one page of the listing.
    pub fn list_objects(
        &self,
        prefix: Option<&str>,
        continuation_token: Option<&str>,
        max_keys: Option<u32>,
    ) -> (request: HttpRequestBuilder)
        ensures
            is_request(
                request@,
                self@.client,
                Method::Get,
                self@.url,
                Seq::empty(),
                list_query(
                    match prefix {
                        Some(p) => Some(p@),
                        None => None,
                    },
                    match continuation_token {
                        Some(t) => Some(t@),
                        None => None,
                    },
                    max_keys,
                ),
                None,
            ),
    {
        let mut query_params: Vec<(String, String)> = Vec::new();
        query_params.push((copy_text("list-type"), copy_text("2")));
        let ghost q0 = crate::request::pairs_view(query_params@);
        assert(q0 =~= seq![("list-type"@, "2"@)]);
        if let Some(prefix) = prefix {
            query_params.push((copy_text("prefix"), copy_text(prefix)));
        }
        let ghost q1 = crate::request::pairs_view(query_params@);
        assert(q1 =~= q0 + optional_header(
            "prefix"@,
            match prefix {
                Some(p) => Some(p@),
                None => None,
            },
        ));
        if let Some(token) = continuation_token {
            query_params.push((copy_text("continuation-token"), copy_text(token)));
        }
        let ghost q2 = crate::request::pairs_view(query_params@);
        assert(q2 =~= q1 + optional_header(
            "continuation-token"@,
            match continuation_token {
                Some(t) => Some(t@),
                None => None,
            },
        ));
        if let Some(max) = max_keys {
            query_params.push((copy_text("max-keys"), decimal_text(max as u128)));
        }
        let ghost q3 = crate::request::pairs_view(query_params@);
        assert(q3 =~= q2 + optional_header(
            "max-keys"@,
            match max_keys {
                Some(n) => Some(decimal(n as nat)),
                None => None,
            },
        ));
        self.client.get_with_retry(self.bucket_url()).query_params(query_params)
    }

    /// Reads the response to a listing.
    pub fn list_objects_result(response: &HttpResponse) -> (out: Result<
        ListBucketResult,
        AiStoreError,
    >)
        ensures
            result_view(out) == list_result_of(response@),
    {
        if !succeeded(response) {
            return Err(failure(response));
        }
        match from_xml(response.body.as_str()) {
            Ok(listing) => Ok(listing),
            Err(message) => Err(
                AiStoreError::InvalidResponse {
                    message: join("Failed to parse ListObjectsV2 response: ", message.as_str()),
                },
            ),
        }
    }

    // -- multipart ------------------------------------------------------

    /// The request that starts a multipart upload to `path`.
    pub fn initiate_multipart_upload(&self, path: &ObjectLocation) -> (request:
        HttpRequestBuilder)
        ensures
            is_request(
                request@,
                self@.client,
                Method::Post,
                object_url_of(self@.url, path@) + "?uploads"@,
                Seq::empty(),
                Seq::empty(),
                None,
            ),
    {
        let url = join(self.object_url(path).as_str(), "?uploads");
        self.client.post_with_retry(url.as_str())
    }

    /// Reads the response to the start of an upload and returns the upload id.
    pub fn initiate_multipart_upload_result(response: &HttpResponse) -> (out: Result<
        String,
        AiStoreError,
    >)
        ensures
            match out {
                Ok(id) => initiate_result_of(response@) == Ok::<Seq<char>, ErrorView>(id@),
                Err(error) => initiate_result_of(response@) == Err::<Seq<char>, ErrorView>(error@),
            },
    {
        if !succeeded(response) {
            return Err(failure(response));
        }
        if let Some(header) = response.header("x-ais-upload-id") {
            return match &header.value {
                Some(id) => Ok(copy_text(id.as_str())),
                None => Err(
                    AiStoreError::InvalidResponse { message: copy_text("Invalid upload ID header") },
                ),
            };
        }
        match InitiateMultipartUploadResult::from_xml(response.body.as_str()) {
            Ok(found) => Ok(found.upload_id),
            Err(message) => Err(
                AiStoreError::InvalidResponse {
                    message: join(
                        "Failed to parse InitiateMultipartUpload response: ",
                        message.as_str(),
                    ),
                },
            ),
        }
    }

    /// The request that uploads `data` as part `part_number` of an upload.
    pub fn upload_part(
        &self,
        path: &ObjectLocation,
        upload_id: &str,
        part_number: u32,
        data: Vec<u8>,
    ) -> (request: HttpRequestBuilder)
        ensures
            is_request(
                request@,
                self@.client,
                Method::Put,
                part_url_of(self@.url, path@, part_number, upload_id@),
                Seq::empty(),
                Seq::empty(),
                Some(BodyView::Bytes(data@)),
            ),
    {
        let a = join(self.object_url(path).as_str(), "?partNumber=");
        let b = join(a.as_str(), decimal_text(part_number as u128).as_str());
        let c = join(b.as_str(), "&uploadId=");
        let url = join(c.as_str(), upload_id);
        self.client.put_with_retry(url.as_str()).body(RequestBody::Bytes(data))
    }

    /// Reads the response to the upload of a part and returns the entity
    /// tag of the part.
    pub fn upload_part_result(response: &HttpResponse) -> (out: Result<String, AiStoreError>)
        ensures
            match out {
                Ok(tag) => upload_part_result_of(response@) == Ok::<Seq<char>, ErrorView>(tag@),
                Err(error) => upload_part_result_of(response@) == Err::<Seq<char>, ErrorView>(
                    error@,
                ),
            },
    {
        if !succeeded(response) {
            return Err(failure(response));
        }
        match e_tag(response) {
            Some(tag) => Ok(tag),
            None => Err(
                AiStoreError::InvalidResponse {
                    message: copy_text("No ETag in part upload response"),
                },
            ),
        }
    }

    /// The request that completes an upload from `parts`, in the order given.
    pub fn complete_multipart_upload(
        &self,
        path: &ObjectLocation,
        upload_id: &str,
        parts: Vec<(u32, String)>,
    ) -> (request: HttpRequestBuilder)
        ensures
            is_request(
                request@,
                self@.client,
                Method::Post,
                upload_url_of(self@.url, path@, upload_id@),
                seq![("content-type"@, "application/xml"@)],
                Seq::empty(),
                Some(BodyView::Text(complete_xml(parts_view(parts@)))),
            ),
    {
        let a = join(self.object_url(path).as_str(), "?uploadId=");
        let url = join(a.as_str(), upload_id);
        let xml = to_xml(&CompleteMultipartUploadRequest::new(parts));
        self.client.post_with_retry(url.as_str()).header(
            "content-type",
            "application/xml",
        ).body(RequestBody::Text(xml))
    }

    /// Reads the response to the completion of an upload.
    pub fn complete_multipart_upload_result(response: &HttpResponse) -> (out: Result<
        PutResult,
        AiStoreError,
    >)
        ensures
            result_view(out) == put_result_of(response@),
    {
        S3Client::put_object_result(response)
    }

    /// The request that aborts an upload.
    pub fn abort_multipart_upload(&self, path: &ObjectLocation, upload_id: &str) -> (request:
        HttpRequestBuilder)
        ensures
            is_request(
                request@,
                self@.client,
                Method::Delete,
                upload_url_of(self@.url, path@, upload_id@),
                Seq::empty(),
                Seq::empty(),
                None,
            ),
    {
        let a = join(self.object_url(path).as_str(), "?uploadId=");
        let url = join(a.as_str(), upload_id);
        self.client.delete_with_retry(url.as_str())
    }
}

} // verus!
