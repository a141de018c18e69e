//! The XML payloads of the protocol: the listing of a bucket, the answer to
//! the start of a multipart upload, and the request that completes one.
//!
//! Writing is done here, with `quick_xml` escaping the text. Reading goes
//! through `quick_xml`'s pull reader, which cuts the document into tokens;
//! what the tokens mean is decided here.

use crate::text::{
    copy_text, decimal, decimal_text, join, parse_u64, parsed_u64, same_text,
};
use crate::time::{parse_rfc3339, rfc3339_instant, Timestamp};
use quick_xml::events::Event;
use vstd::prelude::*;
use vstd::string::StringExecFns;

verus! {

// ---------------------------------------------------------------------
// The payloads
// ---------------------------------------------------------------------

/// One object of a listing.
#[derive(Debug)]
pub struct ListContents {
    pub key: String,
    pub size: u64,
    pub last_modified: Option<Timestamp>,
    pub e_tag: Option<String>,
}

/// [`ListContents`] as a mathematical value.
pub struct ContentsView {
    pub key: Seq<char>,
    pub size: u64,
    pub last_modified: Option<Timestamp>,
    pub e_tag: Option<Seq<char>>,
}

impl View for ListContents {
    type V = ContentsView;

    open spec fn view(&self) -> ContentsView {
        ContentsView {
            key: self.key@,
            size: self.size,
            last_modified: self.last_modified,
            e_tag: self.e_tag.deep_view(),
        }
    }
}

impl DeepView for ListContents {
    type V = ContentsView;

    open spec fn deep_view(&self) -> ContentsView {
        self@
    }
}

/// One common prefix of a listing.
#[derive(Debug)]
pub struct ListPrefix {
    pub prefix: String,
}

impl View for ListPrefix {
    type V = Seq<char>;

    open spec fn view(&self) -> Seq<char> {
        self.prefix@
    }
}

impl DeepView for ListPrefix {
    type V = Seq<char>;

    open spec fn deep_view(&self) -> Seq<char> {
        self@
    }
}

/// One page of a listing.
#[derive(Debug)]
pub struct ListBucketResult {
    pub contents: Vec<ListContents>,
    pub common_prefixes: Vec<ListPrefix>,
    pub next_continuation_token: Option<String>,
    pub is_truncated: Option<bool>,
}

/// [`ListBucketResult`] as a mathematical value.
pub struct ListingView {
    pub contents: Seq<ContentsView>,
    pub common_prefixes: Seq<Seq<char>>,
    pub next_continuation_token: Option<Seq<char>>,
    pub is_truncated: Option<bool>,
}

impl View for ListBucketResult {
    type V = ListingView;

    open spec fn view(&self) -> ListingView {
        ListingView {
            contents: self.contents.deep_view(),
            common_prefixes: self.common_prefixes.deep_view(),
            next_continuation_token: self.next_continuation_token.deep_view(),
            is_truncated: self.is_truncated,
        }
    }
}

/// The answer to the start of a multipart upload.
#[derive(Debug)]
pub struct InitiateMultipartUploadResult {
    pub upload_id: String,
}

impl View for InitiateMultipartUploadResult {
    type V = Seq<char>;

    open spec fn view(&self) -> Seq<char> {
        self.upload_id@
    }
}

/// One part in the request that completes an upload.
#[derive(Debug)]
pub struct CompletedPart {
    pub part_number: u32,
    pub e_tag: String,
}

/// A part as a mathematical value: its number and its entity tag.
pub type PartView = (u32, Seq<char>);

impl View for CompletedPart {
    type V = PartView;

    open spec fn view(&self) -> PartView {
        (self.part_number, self.e_tag@)
    }
}

impl DeepView for CompletedPart {
    type V = PartView;

    open spec fn deep_view(&self) -> PartView {
        self@
    }
}

/// The request that completes a multipart upload.
#[derive(Debug)]
pub struct CompleteMultipartUploadRequest {
    pub parts: Vec<CompletedPart>,
}

impl View for CompleteMultipartUploadRequest {
    type V = Seq<PartView>;

    open spec fn view(&self) -> Seq<PartView> {
        self.parts.deep_view()
    }
}

/// A list of numbered entity tags as a mathematical value.
pub open spec fn parts_view(parts: Seq<(u32, String)>) -> Seq<PartView> {
    parts.map_values(|p: (u32, String)| (p.0, p.1@))
}

impl CompleteMultipartUploadRequest {
    /// The request that lists `parts`, in the order given.
    pub fn new(parts: Vec<(u32, String)>) -> (request: CompleteMultipartUploadRequest)
        ensures
            request@ == parts_view(parts@),
    {
        let mut out: Vec<CompletedPart> = Vec::new();
        let mut i: usize = 0;
        while i < parts.len()
            invariant
                i <= parts.len(),
                out@.len() == i,
                forall|k: int| 0 <= k < i ==> out@[k]@ == (parts@[k].0, parts@[k].1@),
            decreases parts.len() - i,
        {
            out.push(
                CompletedPart { part_number: parts[i].0, e_tag: copy_text(parts[i].1.as_str()) },
            );
            i += 1;
        }
        CompleteMultipartUploadRequest { parts: out }
    }
}

// ---------------------------------------------------------------------
// Writing
// ---------------------------------------------------------------------

/// What stands for `c` in the text of an element.
pub open spec fn escaped_char(c: char) -> Seq<char> {
    if c == '<' {
        "&lt;"@
    } else if c == '>' {
        "&gt;"@
    } else if c == '&' {
        "&amp;"@
    } else {
        seq![c]
    }
}

/// `text` as it stands in an element: `<`, `>` and `&` are replaced by
/// their entities, everything else stays.
pub open spec fn escaped(text: Seq<char>) -> Seq<char>
    decreases text.len(),
{
    if text.len() == 0 {
        Seq::empty()
    } else {
        escaped(text.drop_last()) + escaped_char(text.last())
    }
}

/// The element `name` around `content`; an element without content is
/// written as an empty tag.
pub open spec fn element(name: Seq<char>, content: Seq<char>) -> Seq<char> {
    if content.len() == 0 {
        "<"@ + name + "/>"@
    } else {
        "<"@ + name + ">"@ + content + "</"@ + name + ">"@
    }
}

/// One part as XML.
pub open spec fn part_xml(part: PartView) -> Seq<char> {
    element(
        "Part"@,
        element("PartNumber"@, decimal(part.0 as nat)) + element("ETag"@, escaped(part.1)),
    )
}

/// The parts as XML, one after the other.
pub open spec fn parts_xml(parts: Seq<PartView>) -> Seq<char>
    decreases parts.len(),
{
    if parts.len() == 0 {
        Seq::empty()
    } else {
        parts_xml(parts.drop_last()) + part_xml(parts.last())
    }
}

/// The request that completes an upload as XML.
pub open spec fn complete_xml(parts: Seq<PartView>) -> Seq<char> {
    element("CompleteMultipartUpload"@, parts_xml(parts))
}

/// Calls `quick_xml::escape::partial_escape`, which replaces `<`, `>` and
/// `&` by `&lt;`, `&gt;` and `&amp;` and leaves every other character.
#[verifier::external_body]
fn escape_text(text: &str) -> (out: String)
    ensures
        out@ == escaped(text@),
{
    quick_xml::escape::partial_escape(text).into_owned()
}

fn write_element(name: &str, content: &str) -> (out: String)
    ensures
        out@ == element(name@, content@),
{
    if content.is_empty() {
        let a = join("<", name);
        join(a.as_str(), "/>")
    } else {
        let a = join("<", name);
        let b = join(a.as_str(), ">");
        let c = join(b.as_str(), content);
        let d = join(c.as_str(), "</");
        let e = join(d.as_str(), name);
        join(e.as_str(), ">")
    }
}

/// Writes the request that completes an upload.
pub fn to_xml(value: &CompleteMultipartUploadRequest) -> (xml: String)
    ensures
        xml@ == complete_xml(value@),
{
    let mut body = String::new();
    let mut i: usize = 0;
    while i < value.parts.len()
        invariant
            i <= value.parts.len(),
            body@ == parts_xml(value@.take(i as int)),
        decreases value.parts.len() - i,
    {
        let part = &value.parts[i];
        let number = write_element("PartNumber", decimal_text(part.part_number as u128).as_str());
        let tag = write_element("ETag", escape_text(part.e_tag.as_str()).as_str());
        let inner = join(number.as_str(), tag.as_str());
        let written = write_element("Part", inner.as_str());
        assert(value@.take(i + 1).drop_last() =~= value@.take(i as int));
        body.append(written.as_str());
        i += 1;
    }
    assert(value@.take(value.parts.len() as int) =~= value@);
    write_element("CompleteMultipartUpload", body.as_str())
}

// ---------------------------------------------------------------------
// Tokens
// ---------------------------------------------------------------------

/// One piece of a document, as the reader hands it out.
#[derive(Debug)]
pub enum XmlToken {
    /// A start tag, with the name of its element.
    Open(String),
    /// An end tag, with the name of its element.
    Close(String),
    /// Character data, with its entities resolved, or the content of a
    /// CDATA section.
    Text(String),
    /// Something without meaning for the payloads: a comment, a
    /// declaration, a processing instruction.
    Skip,
    /// The end of the document.
    End,
    /// The document is broken here; the message says how.
    Malformed(String),
}

/// [`XmlToken`] as a mathematical value.
pub enum TokenView {
    Open(Seq<char>),
    Close(Seq<char>),
    Text(Seq<char>),
    Skip,
    End,
    Malformed(Seq<char>),
}

impl View for XmlToken {
    type V = TokenView;

    open spec fn view(&self) -> TokenView {
        match self {
            XmlToken::Open(name) => TokenView::Open(name@),
            XmlToken::Close(name) => TokenView::Close(name@),
            XmlToken::Text(text) => TokenView::Text(text@),
            XmlToken::Skip => TokenView::Skip,
            XmlToken::End => TokenView::End,
            XmlToken::Malformed(message) => TokenView::Malformed(message@),
        }
    }
}

impl DeepView for XmlToken {
    type V = TokenView;

    open spec fn deep_view(&self) -> TokenView {
        self@
    }
}

/// Whether nothing follows this token.
pub open spec fn is_last_token(token: TokenView) -> bool {
    token is End || token is Malformed
}

/// `quick_xml`'s pull reader. Nothing of its inside is known here.
#[verifier::external_type_specification]
#[verifier::external_body]
#[verifier::reject_recursive_types(R)]
pub struct ExReader<R>(quick_xml::Reader<R>);

/// The tokens that a reader has yet to hand out, up to and with the first
/// `End` or `Malformed`.
pub uninterp spec fn pending_tokens(reader: quick_xml::Reader<&[u8]>) -> Seq<TokenView>;

/// The tokens of the document `text`, up to and with the first `End` or
/// `Malformed`.
pub uninterp spec fn xml_tokens(text: Seq<char>) -> Seq<TokenView>;

/// Calls `quick_xml::Reader::from_str` and sets the reader to trim white
/// space around character data and to report an empty tag as a start tag
/// followed by an end tag. The tokens that the reader will hand out are a
/// function of the text alone; the contract gives them their name.
#[verifier::external_body]
fn open_reader(text: &str) -> (reader: quick_xml::Reader<&[u8]>)
    ensures
        pending_tokens(reader) == xml_tokens(text@),
{
    let mut reader = quick_xml::Reader::from_str(text);
    reader.config_mut().trim_text(true);
    reader.config_mut().expand_empty_elements = true;
    reader
}

/// Calls `quick_xml::Reader::read_event` and turns the event into a token:
/// a start or end tag keeps its name, character data its unescaped text, a
/// CDATA section its content, the end of input is `End`, an error of the
/// reader or of unescaping is `Malformed` with the error's message, and
/// every other event is `Skip`.
/// The token is the first of those pending. Unless it is `End` or
/// `Malformed`, the reader then has the rest pending: every event uses up
/// some of the input, so the pending tokens are finitely many.
#[verifier::external_body]
fn next_token(reader: &mut quick_xml::Reader<&[u8]>) -> (token: XmlToken)
    ensures
        pending_tokens(*old(reader)).len() > 0,
        token@ == pending_tokens(*old(reader))[0],
        is_last_token(token@) ==> pending_tokens(*old(reader)).len() == 1,
        !is_last_token(token@) ==> pending_tokens(*final(reader)) == pending_tokens(
            *old(reader),
        ).skip(1),
{
    match reader.read_event() {
        Ok(Event::Start(e)) => XmlToken::Open(String::from_utf8_lossy(e.name().as_ref()).into_owned()),
        Ok(Event::End(e)) => XmlToken::Close(String::from_utf8_lossy(e.name().as_ref()).into_owned()),
        Ok(Event::Text(e)) => match e.unescape() {
            Ok(text) => XmlToken::Text(text.into_owned()),
            Err(error) => XmlToken::Malformed(error.to_string()),
        },
        Ok(Event::CData(e)) => XmlToken::Text(String::from_utf8_lossy(&e).into_owned()),
        Ok(Event::Eof) => XmlToken::End,
        Ok(_) => XmlToken::Skip,
        Err(error) => XmlToken::Malformed(error.to_string()),
    }
}

/// Cuts a document into its tokens.
pub fn read_tokens(text: &str) -> (tokens: Vec<XmlToken>)
    ensures
        tokens.deep_view() == xml_tokens(text@),
{
    let mut reader = open_reader(text);
    let mut tokens: Vec<XmlToken> = Vec::new();
    loop
        invariant
            tokens.deep_view() + pending_tokens(reader) == xml_tokens(text@),
        decreases pending_tokens(reader).len(),
    {
        let token = next_token(&mut reader);
        tokens.push(token);
        if matches!(tokens[tokens.len() - 1], XmlToken::End | XmlToken::Malformed(_)) {
            return tokens;
        }
    }
}

// ---------------------------------------------------------------------
// Elements
// ---------------------------------------------------------------------

/// The end of one element: the names of the elements around it, from the
/// root down to the element itself, and the character data that stood
/// right before its end tag.
#[derive(Debug)]
pub struct Closing {
    pub path: Vec<String>,
    pub text: String,
}

/// [`Closing`] as a mathematical value.
pub struct ClosingView {
    pub path: Seq<Seq<char>>,
    pub text: Seq<char>,
}

impl View for Closing {
    type V = ClosingView;

    open spec fn view(&self) -> ClosingView {
        ClosingView { path: self.path.deep_view(), text: self.text@ }
    }
}

impl DeepView for Closing {
    type V = ClosingView;

    open spec fn deep_view(&self) -> ClosingView {
        self@
    }
}

/// Where the scan of a document stands: the elements that are open, the
/// character data since the last tag, the elements that have ended, and
/// how the scan ended if it has.
pub struct ScanView {
    pub path: Seq<Seq<char>>,
    pub text: Seq<char>,
    pub closings: Seq<ClosingView>,
    pub end: Option<Result<(), Seq<char>>>,
}

/// The scan before the first token.
pub open spec fn scan_start() -> ScanView {
    ScanView { path: Seq::empty(), text: Seq::empty(), closings: Seq::empty(), end: None }
}

/// The scan after one more token. A start tag opens its element and an end
/// tag must close the innermost open one; character data gathers until the
/// next tag; the document must end with no element open.
pub open spec fn scan_step(s: ScanView, token: TokenView) -> ScanView {
    if s.end is Some {
        s
    } else {
        match token {
            TokenView::Open(name) => ScanView { path: s.path.push(name), text: Seq::empty(), ..s },
            TokenView::Text(text) => ScanView { text: s.text + text, ..s },
            TokenView::Close(name) => {
                if s.path.len() > 0 && s.path.last() == name {
                    ScanView {
                        path: s.path.drop_last(),
                        text: Seq::empty(),
                        closings: s.closings.push(ClosingView { path: s.path, text: s.text }),
                        ..s
                    }
                } else {
                    ScanView { end: Some(Err("unexpected end tag"@)), ..s }
                }
            },
            TokenView::Skip => s,
            TokenView::End => {
                if s.path.len() == 0 {
                    ScanView { end: Some(Ok(())), ..s }
                } else {
                    ScanView { end: Some(Err("unclosed element"@)), ..s }
                }
            },
            TokenView::Malformed(message) => ScanView { end: Some(Err(message)), ..s },
        }
    }
}

/// The scan after all of `tokens`.
pub open spec fn scan(tokens: Seq<TokenView>) -> ScanView
    decreases tokens.len(),
{
    if tokens.len() == 0 {
        scan_start()
    } else {
        scan_step(scan(tokens.drop_last()), tokens.last())
    }
}

/// The elements of a document in the order in which they end, or why the
/// tokens are no document.
pub open spec fn outline_of(tokens: Seq<TokenView>) -> Result<Seq<ClosingView>, Seq<char>> {
    match scan(tokens).end {
        Some(Ok(_)) => Ok(scan(tokens).closings),
        Some(Err(message)) => Err(message),
        None => Err("unexpected end of document"@),
    }
}

fn copy_names(names: &Vec<String>) -> (out: Vec<String>)
    ensures
        out.deep_view() == names.deep_view(),
{
    let mut out: Vec<String> = Vec::new();
    let mut i: usize = 0;
    while i < names.len()
        invariant
            i <= names.len(),
            out@.len() == i,
            forall|k: int| 0 <= k < i ==> out@[k]@ == names@[k]@,
        decreases names.len() - i,
    {
        out.push(copy_text(names[i].as_str()));
        i += 1;
    }
    out
}

/// Scans the tokens of a document.
pub fn outline(tokens: &Vec<XmlToken>) -> (out: Result<Vec<Closing>, String>)
    ensures
        match out {
            Ok(closings) => outline_of(tokens.deep_view()) == Ok::<Seq<ClosingView>, Seq<char>>(
                closings.deep_view(),
            ),
            Err(message) => outline_of(tokens.deep_view()) == Err::<Seq<ClosingView>, Seq<char>>(
                message@,
            ),
        },
{
    let mut path: Vec<String> = Vec::new();
    let mut text = String::new();
    let mut closings: Vec<Closing> = Vec::new();
    let ghost all = tokens.deep_view();
    let mut i: usize = 0;
    assert(path.deep_view() =~= Seq::<Seq<char>>::empty());
    assert(closings.deep_view() =~= Seq::<ClosingView>::empty());
    while i < tokens.len()
        invariant
            i <= tokens.len(),
            all == tokens.deep_view(),
            scan(all.take(i as int)) == (ScanView {
                path: path.deep_view(),
                text: text@,
                closings: closings.deep_view(),
                end: None,
            }),
        decreases tokens.len() - i,
    {
        let ghost before = scan(all.take(i as int));
        assert(all.take(i + 1).drop_last() =~= all.take(i as int));
        match &tokens[i] {
            XmlToken::Open(name) => {
                path.push(copy_text(name.as_str()));
                text = String::new();
                assert(path.deep_view() =~= before.path.push(name@));
            },
            XmlToken::Text(more) => {
                text.append(more.as_str());
            },
            XmlToken::Close(name) => {
                if path.len() > 0 && same_text(path[path.len() - 1].as_str(), name.as_str()) {
                    closings.push(Closing { path: copy_names(&path), text });
                    text = String::new();
                    path.pop();
                    assert(path.deep_view() =~= before.path.drop_last());
                    assert(closings.deep_view() =~= before.closings.push(
                        ClosingView { path: before.path, text: before.text },
                    ));
                } else {
                    proof {
                        lemma_scan_ended(all, i + 1);
                    }
                    return Err(copy_text("unexpected end tag"));
                }
            },
            XmlToken::Skip => {},
            XmlToken::End => {
                proof {
                    lemma_scan_ended(all, i + 1);
                }
                if path.len() == 0 {
                    return Ok(closings);
                } else {
                    return Err(copy_text("unclosed element"));
                }
            },
            XmlToken::Malformed(message) => {
                proof {
                    lemma_scan_ended(all, i + 1);
                }
                return Err(copy_text(message.as_str()));
            },
        }
        i += 1;
    }
    assert(all.take(tokens.len() as int) =~= all);
    Err(copy_text("unexpected end of document"))
}

/// Once a scan has ended, more tokens change nothing.
proof fn lemma_scan_ended(tokens: Seq<TokenView>, n: int)
    requires
        0 <= n <= tokens.len(),
        scan(tokens.take(n)).end is Some,
    ensures
        scan(tokens) == scan(tokens.take(n)),
    decreases tokens.len() - n,
{
    if n < tokens.len() {
        assert(tokens.take(n + 1).drop_last() =~= tokens.take(n));
        lemma_scan_ended(tokens, n + 1);
    } else {
        assert(tokens.take(n) =~= tokens);
    }
}

// ---------------------------------------------------------------------
// Reading a listing
// ---------------------------------------------------------------------

/// A listing in the making: the page so far, the fields of the object and
/// of the prefix that are being read, whether the root has ended, and what
/// went wrong, if anything did.
pub struct DraftView {
    pub listing: ListingView,
    pub key: Option<Seq<char>>,
    pub size: u64,
    pub last_modified: Option<Timestamp>,
    pub e_tag: Option<Seq<char>>,
    pub prefix: Option<Seq<char>>,
    pub rooted: bool,
    pub error: Option<Seq<char>>,
}

/// The draft before the first element.
pub open spec fn draft_start() -> DraftView {
    DraftView {
        listing: ListingView {
            contents: Seq::empty(),
            common_prefixes: Seq::empty(),
            next_continuation_token: None,
            is_truncated: None,
        },
        key: None,
        size: 0,
        last_modified: None,
        e_tag: None,
        prefix: None,
        rooted: false,
        error: None,
    }
}

/// `d`, failed with `message`.
pub open spec fn draft_failed(d: DraftView, message: Seq<char>) -> DraftView {
    DraftView { error: Some(message), ..d }
}

/// What `text` says as a truth value of XML Schema: `true` or `1`, `false`
/// or `0`, and nothing else.
pub open spec fn truth_of(text: Seq<char>) -> Option<bool> {
    if text == "true"@ || text == "1"@ {
        Some(true)
    } else if text == "false"@ || text == "0"@ {
        Some(false)
    } else {
        None
    }
}

/// The draft after a child of the root has ended.
pub open spec fn draft_after_child(d: DraftView, name: Seq<char>, text: Seq<char>) -> DraftView {
    if name == "Contents"@ {
        match d.key {
            Some(key) => DraftView {
                listing: ListingView {
                    contents: d.listing.contents.push(
                        ContentsView {
                            key,
                            size: d.size,
                            last_modified: d.last_modified,
                            e_tag: d.e_tag,
                        },
                    ),
                    ..d.listing
                },
                key: None,
                size: 0,
                last_modified: None,
                e_tag: None,
                ..d
            },
            None => draft_failed(d, "missing field `Key`"@),
        }
    } else if name == "CommonPrefixes"@ {
        match d.prefix {
            Some(prefix) => DraftView {
                listing: ListingView {
                    common_prefixes: d.listing.common_prefixes.push(prefix),
                    ..d.listing
                },
                prefix: None,
                ..d
            },
            None => draft_failed(d, "missing field `Prefix`"@),
        }
    } else if name == "NextContinuationToken"@ {
        DraftView {
            listing: ListingView {
                next_continuation_token: if text.len() == 0 {
                    None
                } else {
                    Some(text)
                },
                ..d.listing
            },
            ..d
        }
    } else if name == "IsTruncated"@ {
        match truth_of(text) {
            Some(truth) => DraftView {
                listing: ListingView { is_truncated: Some(truth), ..d.listing },
                ..d
            },
            None => draft_failed(d, "invalid value of `IsTruncated`"@),
        }
    } else {
        d
    }
}

/// The draft after a field of an object has ended; `instant` is the
/// instant that the text of the field denotes as a date, if it denotes one.
pub open spec fn draft_after_field(
    d: DraftView,
    name: Seq<char>,
    text: Seq<char>,
    instant: Option<Timestamp>,
) -> DraftView {
    if name == "Key"@ {
        DraftView { key: Some(text), ..d }
    } else if name == "Size"@ {
        match parsed_u64(text) {
            Some(size) => DraftView { size, ..d },
            None => draft_failed(d, "invalid value of `Size`"@),
        }
    } else if name == "LastModified"@ {
        match instant {
            Some(instant) => DraftView { last_modified: Some(instant), ..d },
            None => draft_failed(d, "invalid value of `LastModified`"@),
        }
    } else if name == "ETag"@ {
        DraftView { e_tag: Some(text), ..d }
    } else {
        d
    }
}

/// The draft after one more element has ended; `instant` is the instant
/// that the text of the element denotes as a date, if it denotes one. The
/// name of the root is not looked at, and elements that the listing does
/// not know are passed over. After a failure nothing changes any more.
pub open spec fn draft_step(d: DraftView, c: ClosingView, instant: Option<Timestamp>) -> DraftView {
    if d.error is Some {
        d
    } else if c.path.len() == 1 {
        DraftView { rooted: true, ..d }
    } else if c.path.len() == 2 {
        draft_after_child(d, c.path[1], c.text)
    } else if c.path.len() == 3 && c.path[1] == "Contents"@ {
        draft_after_field(d, c.path[2], c.text, instant)
    } else if c.path.len() == 3 && c.path[1] == "CommonPrefixes"@ && c.path[2] == "Prefix"@ {
        DraftView { prefix: Some(c.text), ..d }
    } else {
        d
    }
}

/// The draft after all of `closings`.
pub open spec fn draft_of(closings: Seq<ClosingView>) -> DraftView
    decreases closings.len(),
{
    if closings.len() == 0 {
        draft_start()
    } else {
        draft_step(
            draft_of(closings.drop_last()),
            closings.last(),
            rfc3339_instant(closings.last().text),
        )
    }
}

/// The listing that a draft has come to, or why it has come to none.
pub open spec fn draft_result(d: DraftView) -> Result<ListingView, Seq<char>> {
    match d.error {
        Some(message) => Err(message),
        None => if d.rooted {
            Ok(d.listing)
        } else {
            Err("missing root element"@)
        },
    }
}

/// The listing that the elements of a document make up, or why they make
/// up none.
pub open spec fn listing_of(closings: Seq<ClosingView>) -> Result<ListingView, Seq<char>> {
    draft_result(draft_of(closings))
}

/// The listing that the document `text` holds.
pub open spec fn listing_in(text: Seq<char>) -> Result<ListingView, Seq<char>> {
    match outline_of(xml_tokens(text)) {
        Ok(closings) => listing_of(closings),
        Err(message) => Err(message),
    }
}

/// Reads a truth value of XML Schema.
pub fn read_truth(text: &str) -> (truth: Option<bool>)
    ensures
        truth == truth_of(text@),
{
    if same_text(text, "true") || same_text(text, "1") {
        Some(true)
    } else if same_text(text, "false") || same_text(text, "0") {
        Some(false)
    } else {
        None
    }
}

/// A listing in the making: it takes the elements of a document one by
/// one, in the order in which they end.
#[derive(Debug)]
pub struct ListingDraft {
    listing: ListBucketResult,
    key: Option<String>,
    size: u64,
    last_modified: Option<Timestamp>,
    e_tag: Option<String>,
    prefix: Option<String>,
    rooted: bool,
    error: Option<String>,
}

impl View for ListingDraft {
    type V = DraftView;

    closed spec fn view(&self) -> DraftView {
        DraftView {
            listing: self.listing@,
            key: self.key.deep_view(),
            size: self.size,
            last_modified: self.last_modified,
            e_tag: self.e_tag.deep_view(),
            prefix: self.prefix.deep_view(),
            rooted: self.rooted,
            error: self.error.deep_view(),
        }
    }
}

/// Whether an element is the `LastModified` of an object.
pub open spec fn is_date_field(c: ClosingView) -> bool {
    c.path.len() == 3 && c.path[1] == "Contents"@ && c.path[2] == "LastModified"@
}

impl ListingDraft {
    /// The draft before the first element.
    pub fn new() -> (draft: ListingDraft)
        ensures
            draft@ == draft_start(),
    {
        let draft = ListingDraft {
            listing: ListBucketResult {
                contents: Vec::new(),
                common_prefixes: Vec::new(),
                next_continuation_token: None,
                is_truncated: None,
            },
            key: None,
            size: 0,
            last_modified: None,
            e_tag: None,
            prefix: None,
            rooted: false,
            error: None,
        };
        assert(draft@.listing.contents =~= Seq::<ContentsView>::empty());
        assert(draft@.listing.common_prefixes =~= Seq::<Seq<char>>::empty());
        draft
    }

    fn after_child(&mut self, name: &str, text: &str)
        requires
            old(self)@.error is None,
        ensures
            final(self)@ == draft_after_child(old(self)@, name@, text@),
    {
        if same_text(name, "Contents") {
            match self.key.take() {
                Some(key) => {
                    let ghost before = self.listing@.contents;
                    let entry = ListContents {
                        key,
                        size: self.size,
                        last_modified: self.last_modified,
                        e_tag: self.e_tag.take(),
                    };
                    let ghost added = entry@;
                    self.listing.contents.push(entry);
                    assert(self.listing@.contents =~= before.push(added));
                    self.size = 0;
                    self.last_modified = None;
                },
                None => {
                    self.error = Some(copy_text("missing field `Key`"));
                },
            }
        } else if same_text(name, "CommonPrefixes") {
            match self.prefix.take() {
                Some(prefix) => {
                    let ghost before = self.listing@.common_prefixes;
                    let ghost added = prefix@;
                    self.listing.common_prefixes.push(ListPrefix { prefix });
                    assert(self.listing@.common_prefixes =~= before.push(added));
                },
                None => {
                    self.error = Some(copy_text("missing field `Prefix`"));
                },
            }
        } else if same_text(name, "NextContinuationToken") {
            if text.is_empty() {
                self.listing.next_continuation_token = None;
            } else {
                self.listing.next_continuation_token = Some(copy_text(text));
            }
        } else if same_text(name, "IsTruncated") {
            match read_truth(text) {
                Some(truth) => {
                    self.listing.is_truncated = Some(truth);
                },
                None => {
                    self.error = Some(copy_text("invalid value of `IsTruncated`"));
                },
            }
        }
    }

    fn after_field(&mut self, name: &str, text: &str, instant: Option<Timestamp>)
        requires
            old(self)@.error is None,
        ensures
            final(self)@ == draft_after_field(old(self)@, name@, text@, instant),
    {
        if same_text(name, "Key") {
            self.key = Some(copy_text(text));
        } else if same_text(name, "Size") {
            match parse_u64(text) {
                Some(size) => {
                    self.size = size;
                },
                None => {
                    self.error = Some(copy_text("invalid value of `Size`"));
                },
            }
        } else if same_text(name, "LastModified") {
            match instant {
                Some(instant) => {
                    self.last_modified = Some(instant);
                },
                None => {
                    self.error = Some(copy_text("invalid value of `LastModified`"));
                },
            }
        } else if same_text(name, "ETag") {
            self.e_tag = Some(copy_text(text));
        }
    }

    /// Whether `closing` is the `LastModified` of an object, the one
    /// element whose text is read as a date.
    pub fn is_date_field(closing: &Closing) -> (yes: bool)
        ensures
            yes == is_date_field(closing@),
    {
        closing.path.len() == 3 && same_text(closing.path[1].as_str(), "Contents") && same_text(
            closing.path[2].as_str(),
            "LastModified",
        )
    }

    /// Takes one more element; `instant` is the instant that its text
    /// denotes as a date, if it denotes one.
    pub fn step(&mut self, closing: &Closing, instant: Option<Timestamp>)
        ensures
            final(self)@ == draft_step(old(self)@, closing@, instant),
    {
        if self.error.is_some() {
            return ;
        }
        let depth = closing.path.len();
        let text = closing.text.as_str();
        if depth == 1 {
            self.rooted = true;
        } else if depth == 2 {
            self.after_child(closing.path[1].as_str(), text);
        } else if depth == 3 && same_text(closing.path[1].as_str(), "Contents") {
            self.after_field(closing.path[2].as_str(), text, instant);
        } else if depth == 3 && same_text(closing.path[1].as_str(), "CommonPrefixes") && same_text(
            closing.path[2].as_str(),
            "Prefix",
        ) {
            self.prefix = Some(copy_text(text));
        }
    }

    /// The listing that the draft has come to.
    pub fn finish(self) -> (out: Result<ListBucketResult, String>)
        ensures
            match out {
                Ok(listing) => draft_result(self@) == Ok::<ListingView, Seq<char>>(listing@),
                Err(message) => draft_result(self@) == Err::<ListingView, Seq<char>>(message@),
            },
    {
        match self.error {
            Some(message) => Err(message),
            None => if self.rooted {
                Ok(self.listing)
            } else {
                Err(copy_text("missing root element"))
            },
        }
    }
}

impl ListBucketResult {
    /// The listing that the elements of a document make up.
    pub fn from_outline(closings: &Vec<Closing>) -> (out: Result<ListBucketResult, String>)
        ensures
            match out {
                Ok(listing) => listing_of(closings.deep_view()) == Ok::<ListingView, Seq<char>>(
                    listing@,
                ),
                Err(message) => listing_of(closings.deep_view()) == Err::<ListingView, Seq<char>>(
                    message@,
                ),
            },
    {
        let mut draft = ListingDraft::new();
        let ghost all = closings.deep_view();
        let mut i: usize = 0;
        while i < closings.len()
            invariant
                i <= closings.len(),
                all == closings.deep_view(),
                draft@ == draft_of(all.take(i as int)),
            decreases closings.len() - i,
        {
            assert(all.take(i + 1).drop_last() =~= all.take(i as int));
            let closing = &closings[i];
            // Only the text of a `LastModified` is read as a date; for
            // every other element the instant makes no difference.
            let instant = if ListingDraft::is_date_field(closing) {
                parse_rfc3339(closing.text.as_str())
            } else {
                None
            };
            draft.step(closing, instant);
            i += 1;
        }
        assert(all.take(closings.len() as int) =~= all);
        draft.finish()
    }
}

/// Reads a listing from the XML text of a response.
pub fn from_xml(xml: &str) -> (out: Result<ListBucketResult, String>)
    ensures
        match out {
            Ok(listing) => listing_in(xml@) == Ok::<ListingView, Seq<char>>(listing@),
            Err(message) => listing_in(xml@) == Err::<ListingView, Seq<char>>(message@),
        },
{
    let tokens = read_tokens(xml);
    match outline(&tokens) {
        Ok(closings) => ListBucketResult::from_outline(&closings),
        Err(message) => Err(message),
    }
}

// ---------------------------------------------------------------------
// Reading the start of an upload
// ---------------------------------------------------------------------

/// The text of the last `UploadId` directly under the root.
pub open spec fn upload_id_of(closings: Seq<ClosingView>) -> Option<Seq<char>>
    decreases closings.len(),
{
    if closings.len() == 0 {
        None
    } else if closings.last().path.len() == 2 && closings.last().path[1] == "UploadId"@ {
        Some(closings.last().text)
    } else {
        upload_id_of(closings.drop_last())
    }
}

/// The answer to the start of an upload that the document `text` holds.
pub open spec fn upload_id_in(text: Seq<char>) -> Result<Seq<char>, Seq<char>> {
    match outline_of(xml_tokens(text)) {
        Ok(closings) => match upload_id_of(closings) {
            Some(id) => Ok(id),
            None => Err("missing field `UploadId`"@),
        },
        Err(message) => Err(message),
    }
}

impl InitiateMultipartUploadResult {
    /// The answer to the start of an upload that the elements of a
    /// document make up.
    pub fn from_outline(closings: &Vec<Closing>) -> (out: Option<InitiateMultipartUploadResult>)
        ensures
            match out {
                Some(found) => upload_id_of(closings.deep_view()) == Some(found@),
                None => upload_id_of(closings.deep_view()) is None,
            },
    {
        let ghost all = closings.deep_view();
        let mut i: usize = closings.len();
        assert(all.take(i as int) =~= all);
        while i > 0
            invariant
                i <= closings.len(),
                all == closings.deep_view(),
                upload_id_of(all) == upload_id_of(all.take(i as int)),
            decreases i,
        {
            let closing = &closings[i - 1];
            assert(all.take(i as int).drop_last() =~= all.take(i - 1));
            if closing.path.len() == 2 && same_text(closing.path[1].as_str(), "UploadId") {
                return Some(
                    InitiateMultipartUploadResult { upload_id: copy_text(closing.text.as_str()) },
                );
            }
            i -= 1;
        }
        None
    }

    /// Reads the answer to the start of an upload from the XML text of a
    /// response.
    pub fn from_xml(xml: &str) -> (out: Result<InitiateMultipartUploadResult, String>)
        ensures
            match out {
                Ok(found) => upload_id_in(xml@) == Ok::<Seq<char>, Seq<char>>(found@),
                Err(message) => upload_id_in(xml@) == Err::<Seq<char>, Seq<char>>(message@),
            },
    {
        let tokens = read_tokens(xml);
        match outline(&tokens) {
            Ok(closings) => match InitiateMultipartUploadResult::from_outline(&closings) {
                Some(found) => Ok(found),
                None => Err(copy_text("missing field `UploadId`")),
            },
            Err(message) => Err(message),
        }
    }
}

} // verus!
