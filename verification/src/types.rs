//! The values that the operations of the store take and return.

use crate::path::ObjectLocation;
use crate::text::copy_optional_text;
use crate::time::Timestamp;
use std::ops::Range;
use vstd::prelude::*;

verus! {

/// The bytes of the chunks, one after the other.
pub open spec fn concat_bytes(chunks: Seq<Seq<u8>>) -> Seq<u8>
    decreases chunks.len(),
{
    if chunks.len() == 0 {
        Seq::empty()
    } else {
        concat_bytes(chunks.drop_last()) + chunks.last()
    }
}

/// The number of bytes in all the chunks together.
pub open spec fn total_len(chunks: Seq<Seq<u8>>) -> nat
    decreases chunks.len(),
{
    if chunks.len() == 0 {
        0
    } else {
        total_len(chunks.drop_last()) + chunks.last().len()
    }
}

/// The concatenation has as many bytes as the chunks together.
pub proof fn lemma_concat_len(chunks: Seq<Seq<u8>>)
    ensures
        concat_bytes(chunks).len() == total_len(chunks),
    decreases chunks.len(),
{
    if chunks.len() > 0 {
        lemma_concat_len(chunks.drop_last());
    }
}

/// A copy of `bytes`.
pub fn copy_bytes(bytes: &Vec<u8>) -> (out: Vec<u8>)
    ensures
        out@ == bytes@,
{
    let mut out: Vec<u8> = Vec::new();
    let mut i: usize = 0;
    while i < bytes.len()
        invariant
            i <= bytes.len(),
            out@ == bytes@.take(i as int),
        decreases bytes.len() - i,
    {
        out.push(bytes[i]);
        i += 1;
    }
    out
}

/// What is to be stored: a sequence of chunks of bytes.
#[derive(Debug)]
pub struct PutPayload {
    pub chunks: Vec<Vec<u8>>,
}

impl View for PutPayload {
    type V = Seq<Seq<u8>>;

    open spec fn view(&self) -> Seq<Seq<u8>> {
        self.chunks@.map_values(|chunk: Vec<u8>| chunk@)
    }
}

impl PutPayload {
    /// The payload of one chunk.
    pub fn from_bytes(bytes: Vec<u8>) -> (payload: PutPayload)
        ensures
            payload@ == seq![bytes@],
    {
        let mut chunks: Vec<Vec<u8>> = Vec::new();
        chunks.push(bytes);
        PutPayload { chunks }
    }

    /// The number of bytes of the payload.
    pub fn content_length(&self) -> (n: u128)
        ensures
            n == total_len(self@),
    {
        let mut n: u128 = 0;
        let mut i: usize = 0;
        while i < self.chunks.len()
            invariant
                i <= self.chunks.len(),
                n == total_len(self@.take(i as int)),
                n <= i * 0xffff_ffff_ffff_ffff,
            decreases self.chunks.len() - i,
        {
            let len = self.chunks[i].len();
            assert(self@.take(i + 1).drop_last() =~= self@.take(i as int));
            n = n + len as u128;
            i += 1;
        }
        assert(self@.take(self.chunks.len() as int) =~= self@);
        n
    }

    /// All the bytes of the payload in one buffer.
    pub fn to_bytes(&self) -> (bytes: Vec<u8>)
        ensures
            bytes@ == concat_bytes(self@),
    {
        let mut bytes: Vec<u8> = Vec::new();
        let mut i: usize = 0;
        while i < self.chunks.len()
            invariant
                i <= self.chunks.len(),
                bytes@ == concat_bytes(self@.take(i as int)),
            decreases self.chunks.len() - i,
        {
            let chunk = &self.chunks[i];
            let ghost before = bytes@;
            let mut k: usize = 0;
            while k < chunk.len()
                invariant
                    k <= chunk.len(),
                    bytes@ == before + chunk@.take(k as int),
                decreases chunk.len() - k,
            {
                bytes.push(chunk[k]);
                k += 1;
            }
            assert(self@.take(i + 1).drop_last() =~= self@.take(i as int));
            i += 1;
        }
        assert(self@.take(self.chunks.len() as int) =~= self@);
        bytes
    }
}

/// What a write returns: the entity tag and the version of what was stored,
/// as far as the backend told them.
#[derive(Debug)]
pub struct PutResult {
    pub e_tag: Option<String>,
    pub version: Option<String>,
}

/// [`PutResult`] as a mathematical value.
pub struct PutResultView {
    pub e_tag: Option<Seq<char>>,
    pub version: Option<Seq<char>>,
}

impl View for PutResult {
    type V = PutResultView;

    open spec fn view(&self) -> PutResultView {
        PutResultView { e_tag: self.e_tag.deep_view(), version: self.version.deep_view() }
    }
}

/// What is known of a stored object.
#[derive(Debug)]
pub struct ObjectMeta {
    pub location: ObjectLocation,
    pub last_modified: Timestamp,
    pub size: u64,
    /// The entity tag, without the quotes that HTTP puts around it.
    pub e_tag: Option<String>,
    pub version: Option<String>,
}

/// [`ObjectMeta`] as a mathematical value.
pub struct ObjectMetaView {
    pub location: Seq<char>,
    pub last_modified: Timestamp,
    pub size: u64,
    pub e_tag: Option<Seq<char>>,
    pub version: Option<Seq<char>>,
}

impl View for ObjectMeta {
    type V = ObjectMetaView;

    open spec fn view(&self) -> ObjectMetaView {
        ObjectMetaView {
            location: self.location@,
            last_modified: self.last_modified,
            size: self.size,
            e_tag: self.e_tag.deep_view(),
            version: self.version.deep_view(),
        }
    }
}

impl DeepView for ObjectMeta {
    type V = ObjectMetaView;

    open spec fn deep_view(&self) -> ObjectMetaView {
        self@
    }
}

impl ObjectMeta {
    /// A copy of this record.
    pub fn duplicate(&self) -> (copy: ObjectMeta)
        ensures
            copy@ == self@,
    {
        ObjectMeta {
            location: self.location.duplicate(),
            last_modified: self.last_modified,
            size: self.size,
            e_tag: copy_optional_text(&self.e_tag),
            version: copy_optional_text(&self.version),
        }
    }
}

/// The part of an object that a get asks for.
#[derive(Clone, Copy, Debug, PartialEq, Eq, Structural)]
pub enum GetRange {
    /// The bytes from `start` up to, and without, `end`.
    Bounded { start: u64, end: u64 },
    /// All bytes from this offset on.
    Offset(u64),
    /// The last so many bytes.
    Suffix(u64),
}

/// The conditions and the range of a get.
#[derive(Debug)]
pub struct GetOptions {
    pub if_match: Option<String>,
    pub if_none_match: Option<String>,
    pub if_modified_since: Option<Timestamp>,
    pub if_unmodified_since: Option<Timestamp>,
    pub range: Option<GetRange>,
    /// Ask for the metadata only.
    pub head: bool,
}

/// [`GetOptions`] as a mathematical value.
pub struct GetOptionsView {
    pub if_match: Option<Seq<char>>,
    pub if_none_match: Option<Seq<char>>,
    pub if_modified_since: Option<Timestamp>,
    pub if_unmodified_since: Option<Timestamp>,
    pub range: Option<GetRange>,
    pub head: bool,
}

impl View for GetOptions {
    type V = GetOptionsView;

    open spec fn view(&self) -> GetOptionsView {
        GetOptionsView {
            if_match: self.if_match.deep_view(),
            if_none_match: self.if_none_match.deep_view(),
            if_modified_since: self.if_modified_since,
            if_unmodified_since: self.if_unmodified_since,
            range: self.range,
            head: self.head,
        }
    }
}

impl GetOptions {
    /// A plain get: no condition, the whole object, with its body.
    pub fn new() -> (options: GetOptions)
        ensures
            options@ == (GetOptionsView {
                if_match: None,
                if_none_match: None,
                if_modified_since: None,
                if_unmodified_since: None,
                range: None,
                head: false,
            }),
    {
        GetOptions {
            if_match: None,
            if_none_match: None,
            if_modified_since: None,
            if_unmodified_since: None,
            range: None,
            head: false,
        }
    }
}

/// What a get returns besides the bytes: the metadata, the range of bytes
/// that the response serves, and whether a body comes with it.
#[derive(Debug)]
pub struct GetResult {
    pub meta: ObjectMeta,
    pub range: Range<u64>,
    /// `false` for a head: the payload is an empty stream.
    pub has_body: bool,
}

/// [`GetResult`] as a mathematical value.
pub struct GetResultView {
    pub meta: ObjectMetaView,
    pub range: Range<u64>,
    pub has_body: bool,
}

impl View for GetResult {
    type V = GetResultView;

    open spec fn view(&self) -> GetResultView {
        GetResultView { meta: self.meta@, range: self.range, has_body: self.has_body }
    }
}

/// A listing grouped by the delimiter: the objects directly under the
/// prefix, and the prefixes under which the others lie.
#[derive(Debug)]
pub struct ListResult {
    pub objects: Vec<ObjectMeta>,
    pub common_prefixes: Vec<ObjectLocation>,
}

/// [`ListResult`] as a mathematical value.
pub struct ListResultView {
    pub objects: Seq<ObjectMetaView>,
    pub common_prefixes: Seq<Seq<char>>,
}

impl View for ListResult {
    type V = ListResultView;

    open spec fn view(&self) -> ListResultView {
        ListResultView {
            objects: self.objects.deep_view(),
            common_prefixes: self.common_prefixes.deep_view(),
        }
    }
}

} // verus!
