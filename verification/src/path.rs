//! Object keys.
//!
//! A location is the key of an object inside the bucket: segments joined by
//! `/`, with no slash at either end. Which strings are keys is decided by
//! `object_store::path::Path::parse`; [`key_of`] states its rules.

use crate::text::copy_text;
use vstd::prelude::*;

verus! {

/// `s` without one leading `/`.
pub open spec fn strip_leading_slash(s: Seq<char>) -> Seq<char> {
    if s.len() > 0 && s[0] == '/' {
        s.skip(1)
    } else {
        s
    }
}

/// `s` without one trailing `/`.
pub open spec fn strip_trailing_slash(s: Seq<char>) -> Seq<char> {
    if s.len() > 0 && s.last() == '/' {
        s.drop_last()
    } else {
        s
    }
}

/// Whether `c` is an ASCII control character.
pub open spec fn is_ascii_control(c: char) -> bool {
    (c as u32) < 32 || c as u32 == 127
}

/// Whether a segment of `k` starts at `i`: at the start of the key or
/// right after a slash.
pub open spec fn segment_starts(k: Seq<char>, i: int) -> bool {
    0 <= i <= k.len() && (i == 0 || k[i - 1] == '/')
}

/// Whether a segment of `k` ends at `j`: at the end of the key or right
/// before a slash.
pub open spec fn segment_ends(k: Seq<char>, j: int) -> bool {
    0 <= j <= k.len() && (j == k.len() || k[j] == '/')
}

/// Whether the characters `k[i..j]` form one whole segment of `k`.
pub open spec fn is_segment(k: Seq<char>, i: int, j: int) -> bool {
    &&& segment_starts(k, i)
    &&& segment_ends(k, j)
    &&& i <= j
    &&& forall|m: int| i <= m < j ==> k[m] != '/'
}

/// Whether the segment `k[i..j]` may stand in a key: it is not empty, is
/// neither `.` nor `..`, and holds no control character.
pub open spec fn segment_allowed(k: Seq<char>, i: int, j: int) -> bool {
    &&& i < j
    &&& !(j - i == 1 && k[i] == '.')
    &&& !(j - i == 2 && k[i] == '.' && k[i + 1] == '.')
    &&& forall|m: int| i <= m < j ==> !is_ascii_control(#[trigger] k[m])
}

/// Whether every segment of `k` may stand in a key.
pub open spec fn segments_allowed(k: Seq<char>) -> bool {
    forall|i: int, j: int| #[trigger] is_segment(k, i, j) ==> segment_allowed(k, i, j)
}

/// The key that `raw` denotes, if it denotes one: one leading slash is
/// dropped; what is left is either empty (the root) or, after one trailing
/// slash is dropped too, a sequence of allowed segments.
pub open spec fn key_of(raw: Seq<char>) -> Option<Seq<char>> {
    let head = strip_leading_slash(raw);
    let body = strip_trailing_slash(head);
    if head.len() == 0 {
        Some(head)
    } else if segments_allowed(body) {
        Some(body)
    } else {
        None
    }
}

/// Calls `object_store::path::Path::parse` and, where it accepts `raw`,
/// returns the text of the path. As in the crate's source: it strips one
/// leading and one trailing `/`, accepts the empty rest, and otherwise
/// rejects an empty segment, a segment `.` or `..`, and any ASCII control
/// character.
#[verifier::external_body]
pub(crate) fn parse_key(raw: &str) -> (key: Option<String>)
    ensures
        key.deep_view() == key_of(raw@),
{
    match object_store::path::Path::parse(raw) {
        Ok(p) => Some(String::from(p)),
        Err(_) => None,
    }
}

/// A key stays what it is when it is read as a key again.
pub proof fn lemma_key_is_canonical(raw: Seq<char>)
    requires
        key_of(raw) is Some,
    ensures
        key_of(key_of(raw)->0) == key_of(raw),
{
    let head = strip_leading_slash(raw);
    let key = key_of(raw)->0;
    if head.len() > 0 {
        // A key that starts or ends with a slash, or is empty, has an
        // empty segment at that end.
        assert(key.len() > 0 && key[0] != '/') by {
            if key.len() == 0 || key[0] == '/' {
                assert(is_segment(key, 0, 0));
            }
        }
        assert(key.last() != '/') by {
            if key.last() == '/' {
                assert(is_segment(key, key.len() as int, key.len() as int));
            }
        }
    }
}

/// The key of one object in the bucket.
#[derive(Debug)]
pub struct ObjectLocation {
    key: String,
}

impl View for ObjectLocation {
    type V = Seq<char>;

    closed spec fn view(&self) -> Seq<char> {
        self.key@
    }
}

impl ObjectLocation {
    /// What is true of every location: its text is a key, in the form in
    /// which keys are kept.
    #[verifier::type_invariant]
    spec fn is_key(&self) -> bool {
        key_of(self.key@) == Some(self.key@)
    }

    /// Reads `raw` as a key.
    pub fn parse(raw: &str) -> (location: Option<ObjectLocation>)
        ensures
            location.deep_view() == key_of(raw@),
    {
        match parse_key(raw) {
            Some(key) => {
                proof {
                    lemma_key_is_canonical(raw@);
                }
                Some(ObjectLocation { key })
            },
            None => None,
        }
    }

    /// The key as text. It reads as a key, and as this one.
    pub fn as_str(&self) -> (key: &str)
        ensures
            key@ == self@,
            key_of(key@) == Some(key@),
    {
        proof {
            use_type_invariant(self);
        }
        self.key.as_str()
    }

    /// A copy of this location.
    pub fn duplicate(&self) -> (copy: ObjectLocation)
        ensures
            copy@ == self@,
    {
        proof {
            use_type_invariant(self);
        }
        ObjectLocation { key: copy_text(self.key.as_str()) }
    }
}

impl DeepView for ObjectLocation {
    type V = Seq<char>;

    open spec fn deep_view(&self) -> Seq<char> {
        self@
    }
}

} // verus!
