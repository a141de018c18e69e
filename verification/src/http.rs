//! Requests and responses as plain values.
//!
//! The transport hands every response over as a status, a list of headers
//! and the text of the body. A header whose value is not visible ASCII has
//! no text: it is present, but nothing can be read from it.

use crate::text::{copy_optional_text, copy_text, eq_ignore_ascii_case, same_text_ignore_ascii_case};
use vstd::prelude::*;

verus! {

/// The HTTP methods that the protocol uses.
#[derive(Clone, Copy, Debug, PartialEq, Eq, Structural)]
pub enum Method {
    Get,
    Put,
    Post,
    Delete,
    Head,
}

/// One header of a response. `value` is `None` where the header is there
/// but its value is not text.
#[derive(Debug)]
pub struct ResponseHeader {
    pub name: String,
    pub value: Option<String>,
}

/// A response: its status, its headers in the order received, and the text
/// of its body (empty where the body is streamed or could not be read).
#[derive(Debug)]
pub struct HttpResponse {
    pub status: u16,
    pub headers: Vec<ResponseHeader>,
    pub body: String,
}

/// A header as a mathematical value: its name and, if it has one, its text.
pub type HeaderView = (Seq<char>, Option<Seq<char>>);

/// [`HttpResponse`] as a mathematical value.
pub struct ResponseView {
    pub status: u16,
    pub headers: Seq<HeaderView>,
    pub body: Seq<char>,
}

impl View for ResponseHeader {
    type V = HeaderView;

    open spec fn view(&self) -> HeaderView {
        (self.name@, self.value.deep_view())
    }
}

impl View for HttpResponse {
    type V = ResponseView;

    open spec fn view(&self) -> ResponseView {
        ResponseView {
            status: self.status,
            headers: self.headers@.map_values(|h: ResponseHeader| h@),
            body: self.body@,
        }
    }
}

/// The index of the first header at or after `from` whose name is `name`
/// up to the case of ASCII letters, or the number of headers if there is none.
pub open spec fn header_index(headers: Seq<HeaderView>, name: Seq<char>, from: int) -> int
    decreases headers.len() - from,
{
    if from >= headers.len() {
        headers.len() as int
    } else if eq_ignore_ascii_case(headers[from].0, name) {
        from
    } else {
        header_index(headers, name, from + 1)
    }
}

/// The first header called `name`: `None` where there is none, `Some(None)`
/// where its value is not text, else `Some(Some(text))`.
pub open spec fn find_header(headers: Seq<HeaderView>, name: Seq<char>) -> Option<
    Option<Seq<char>>,
> {
    let i = header_index(headers, name, 0);
    if i < headers.len() {
        Some(headers[i].1)
    } else {
        None
    }
}

/// The text of the first header called `name`, if that header is there and
/// is text.
pub open spec fn header_text(headers: Seq<HeaderView>, name: Seq<char>) -> Option<Seq<char>> {
    match find_header(headers, name) {
        Some(Some(text)) => Some(text),
        _ => None,
    }
}

proof fn lemma_header_index_found(headers: Seq<HeaderView>, name: Seq<char>, from: int, at: int)
    requires
        0 <= from <= at <= headers.len(),
        at < headers.len() ==> eq_ignore_ascii_case(headers[at].0, name),
        forall|i: int| from <= i < at ==> !eq_ignore_ascii_case(#[trigger] headers[i].0, name),
    ensures
        header_index(headers, name, from) == at,
    decreases at - from,
{
    if from < at {
        lemma_header_index_found(headers, name, from + 1, at);
    }
}

impl HttpResponse {
    /// A response with the given status, no header and an empty body.
    pub fn new(status: u16) -> (response: HttpResponse)
        ensures
            response@ == (ResponseView {
                status,
                headers: Seq::<HeaderView>::empty(),
                body: Seq::<char>::empty(),
            }),
    {
        let response = HttpResponse { status, headers: Vec::new(), body: String::new() };
        assert(response@.headers =~= Seq::<HeaderView>::empty());
        response
    }

    /// The response with one more header, whose value is the text `value`.
    pub fn with_header(self, name: &str, value: &str) -> (response: HttpResponse)
        ensures
            response@ == (ResponseView {
                headers: self@.headers.push((name@, Some(value@))),
                ..self@
            }),
    {
        let mut response = self;
        let ghost before = response@;
        response.headers.push(ResponseHeader { name: copy_text(name), value: Some(copy_text(value)) });
        assert(response@.headers =~= before.headers.push((name@, Some(value@))));
        response
    }

    /// The response with one more header, whose value is not text.
    pub fn with_opaque_header(self, name: &str) -> (response: HttpResponse)
        ensures
            response@ == (ResponseView {
                headers: self@.headers.push((name@, None)),
                ..self@
            }),
    {
        let mut response = self;
        let ghost before = response@;
        response.headers.push(ResponseHeader { name: copy_text(name), value: None });
        assert(response@.headers =~= before.headers.push((name@, None)));
        response
    }

    /// The response with `body` as the text of its body.
    pub fn with_body(self, body: &str) -> (response: HttpResponse)
        ensures
            response@ == (ResponseView { body: body@, ..self@ }),
    {
        let mut response = self;
        response.body = copy_text(body);
        response
    }

    /// Looks a header up by name, without regard to the case of ASCII
    /// letters. Of several headers with that name the first counts.
    pub fn header(&self, name: &str) -> (found: Option<&ResponseHeader>)
        ensures
            match found {
                Some(h) => find_header(self@.headers, name@) == Some(h@.1),
                None => find_header(self@.headers, name@) is None,
            },
    {
        let mut i: usize = 0;
        while i < self.headers.len()
            invariant
                i <= self.headers.len(),
                forall|k: int|
                    0 <= k < i ==> !eq_ignore_ascii_case(#[trigger] self@.headers[k].0, name@),
            decreases self.headers.len() - i,
        {
            if same_text_ignore_ascii_case(self.headers[i].name.as_str(), name) {
                proof {
                    lemma_header_index_found(self@.headers, name@, 0, i as int);
                }
                return Some(&self.headers[i]);
            }
            i += 1;
        }
        proof {
            lemma_header_index_found(self@.headers, name@, 0, i as int);
        }
        None
    }

    /// The text of the header called `name`, if it is there and is text.
    pub fn header_text(&self, name: &str) -> (text: Option<&str>)
        ensures
            match text {
                Some(t) => header_text(self@.headers, name@) == Some(t@),
                None => header_text(self@.headers, name@) is None,
            },
    {
        match self.header(name) {
            Some(h) => match &h.value {
                Some(t) => Some(t.as_str()),
                None => None,
            },
            None => None,
        }
    }

    /// A copy of this response.
    pub fn duplicate(&self) -> (copy: HttpResponse)
        ensures
            copy@ == self@,
    {
        let mut headers: Vec<ResponseHeader> = Vec::new();
        let mut i: usize = 0;
        while i < self.headers.len()
            invariant
                i <= self.headers.len(),
                headers@.len() == i,
                forall|k: int| 0 <= k < i ==> headers@[k]@ == self.headers@[k]@,
            decreases self.headers.len() - i,
        {
            let h = &self.headers[i];
            headers.push(
                ResponseHeader {
                    name: copy_text(h.name.as_str()),
                    value: copy_optional_text(&h.value),
                },
            );
            i += 1;
        }
        let copy = HttpResponse { status: self.status, headers, body: copy_text(self.body.as_str()) };
        assert(copy@.headers =~= self@.headers);
        copy
    }
}

} // verus!
