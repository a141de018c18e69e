//! A multipart upload in progress.
//!
//! The session hands out the part numbers and keeps the entity tags of the
//! parts that were stored. A number is handed out before the bytes travel
//! and the tag is recorded after, so uploads may overlap and end in any
//! order; the session itself is touched only for these two short steps.
//!
//! A session is open until its completion or its abort begins, and never
//! opens again:
//!
//! ```text
//! Open -> Completing -> Completed
//! Open -> Aborting   -> Aborted
//! ```

use crate::client::{
    done_or_error, part_url_of, put_result_of, result_view, upload_url_of, S3Client, S3ClientView,
};
use crate::error::AiStoreError;
use crate::http::{HttpResponse, Method};
use crate::path::ObjectLocation;
use crate::request::{is_request, BodyView, HttpRequestBuilder};
use crate::text::copy_text;
use crate::types::{concat_bytes, PutPayload, PutResult};
use crate::xml::{complete_xml, parts_view, PartView};
use vstd::prelude::*;

verus! {

// ---------------------------------------------------------------------
// Order of the parts
// ---------------------------------------------------------------------

/// Whether the numbers of the parts never fall from one part to the next.
pub open spec fn is_ascending(parts: Seq<PartView>) -> bool {
    forall|i: int, j: int| 0 <= i < j < parts.len() ==> parts[i].0 <= parts[j].0
}

/// Whether no two parts have the same number.
pub open spec fn distinct_numbers(parts: Seq<PartView>) -> bool {
    forall|i: int, j: int| 0 <= i < j < parts.len() ==> parts[i].0 != parts[j].0
}

/// `sorted` with `part` put in behind the last part whose number is not
/// above its own.
pub open spec fn insert_part(sorted: Seq<PartView>, part: PartView) -> Seq<PartView>
    decreases sorted.len(),
{
    if sorted.len() == 0 {
        seq![part]
    } else if sorted.last().0 <= part.0 {
        sorted.push(part)
    } else {
        insert_part(sorted.drop_last(), part).push(sorted.last())
    }
}

/// The parts in ascending order of their numbers; parts with the same
/// number keep their order.
pub open spec fn ascending(parts: Seq<PartView>) -> Seq<PartView>
    decreases parts.len(),
{
    if parts.len() == 0 {
        Seq::empty()
    } else {
        insert_part(ascending(parts.drop_last()), parts.last())
    }
}

proof fn lemma_insert_at(sorted: Seq<PartView>, part: PartView, at: int)
    requires
        0 <= at <= sorted.len(),
        forall|k: int| at <= k < sorted.len() ==> sorted[k].0 > part.0,
        at > 0 ==> sorted[at - 1].0 <= part.0,
    ensures
        insert_part(sorted, part) == sorted.insert(at, part),
    decreases sorted.len(),
{
    if sorted.len() > 0 && sorted.last().0 > part.0 {
        lemma_insert_at(sorted.drop_last(), part, at);
    }
}

proof fn lemma_insert_part(sorted: Seq<PartView>, part: PartView)
    ensures
        insert_part(sorted, part).len() == sorted.len() + 1,
        insert_part(sorted, part).to_multiset() == sorted.to_multiset().insert(part),
        is_ascending(sorted) ==> is_ascending(insert_part(sorted, part)),
        forall|i: int|
            0 <= i < insert_part(sorted, part).len() ==> #[trigger] insert_part(sorted, part)[i]
                == part || exists|k: int|
                0 <= k < sorted.len() && sorted[k] == insert_part(sorted, part)[i],
    decreases sorted.len(),
{
    broadcast use vstd::seq_lib::group_to_multiset_ensures;

    if sorted.len() > 0 && sorted.last().0 > part.0 {
        let front = sorted.drop_last();
        lemma_insert_part(front, part);
        assert(sorted =~= front.push(sorted.last()));
    }
}

/// Whatever the order in which the parts were recorded, their ascending
/// order is sorted by part number and holds every recorded part exactly as
/// often as it was recorded: nothing is lost, added or doubled.
pub proof fn lemma_ascending(parts: Seq<PartView>)
    ensures
        is_ascending(ascending(parts)),
        ascending(parts).len() == parts.len(),
        ascending(parts).to_multiset() == parts.to_multiset(),
    decreases parts.len(),
{
    broadcast use vstd::seq_lib::group_to_multiset_ensures;

    if parts.len() > 0 {
        let front = parts.drop_last();
        lemma_ascending(front);
        lemma_insert_part(ascending(front), parts.last());
        assert(parts =~= front.push(parts.last()));
    }
}

/// Parts whose numbers are all different come out of the ordering with
/// strictly rising numbers.
pub proof fn lemma_ascending_strict(parts: Seq<PartView>)
    requires
        distinct_numbers(parts),
    ensures
        forall|i: int, j: int|
            0 <= i < j < ascending(parts).len() ==> ascending(parts)[i].0 < ascending(parts)[j].0,
{
    broadcast use vstd::seq_lib::group_to_multiset_ensures;

    lemma_ascending(parts);
    let out = ascending(parts);
    assert forall|i: int, j: int| 0 <= i < j < out.len() implies out[i].0 < out[j].0 by {
        lemma_numbers_stay_distinct(parts, out, i, j);
    }
}

proof fn lemma_numbers_stay_distinct(parts: Seq<PartView>, out: Seq<PartView>, i: int, j: int)
    requires
        distinct_numbers(parts),
        out.to_multiset() == parts.to_multiset(),
        0 <= i < j < out.len(),
    ensures
        out[i].0 != out[j].0,
{
    broadcast use vstd::seq_lib::group_to_multiset_ensures;

    let a = out[i];
    let b = out[j];
    if a.0 == b.0 {
        // Both stand in `parts` too. Were they two parts of `parts`, they
        // would differ in their numbers; so they are one part of `parts`,
        // which `out` then holds more often than `parts` does.
        assert(out.to_multiset().count(a) > 0);
        assert(out.to_multiset().count(b) > 0);
        let x = choose|x: int| 0 <= x < parts.len() && parts[x] == a;
        let y = choose|y: int| 0 <= y < parts.len() && parts[y] == b;
        if x == y {
            lemma_count_twice(out, i, j);
            lemma_count_once(parts, x);
        }
    }
}

proof fn lemma_count_twice(s: Seq<PartView>, i: int, j: int)
    requires
        0 <= i < j < s.len(),
        s[i] == s[j],
    ensures
        s.to_multiset().count(s[i]) >= 2,
    decreases s.len(),
{
    broadcast use vstd::seq_lib::group_to_multiset_ensures;

    let front = s.drop_last();
    assert(s =~= front.push(s.last()));
    if j < s.len() - 1 {
        lemma_count_twice(front, i, j);
    }
}

proof fn lemma_count_once(s: Seq<PartView>, x: int)
    requires
        distinct_numbers(s),
        0 <= x < s.len(),
    ensures
        s.to_multiset().count(s[x]) == 1,
    decreases s.len(),
{
    broadcast use vstd::seq_lib::group_to_multiset_ensures;

    let front = s.drop_last();
    assert(s =~= front.push(s.last()));
    if x < s.len() - 1 {
        lemma_count_once(front, x);
    }
}

/// The parts in ascending order of their numbers.
pub fn sort_parts(parts: &Vec<(u32, String)>) -> (out: Vec<(u32, String)>)
    ensures
        parts_view(out@) == ascending(parts_view(parts@)),
{
    let mut out: Vec<(u32, String)> = Vec::new();
    let ghost all = parts_view(parts@);
    let mut i: usize = 0;
    while i < parts.len()
        invariant
            i <= parts.len(),
            all == parts_view(parts@),
            out@.len() == i,
            parts_view(out@) == ascending(all.take(i as int)),
        decreases parts.len() - i,
    {
        let number = parts[i].0;
        let tag = copy_text(parts[i].1.as_str());
        let ghost part = (number, tag@);
        let ghost before = parts_view(out@);
        let mut at: usize = out.len();
        while at > 0 && out[at - 1].0 > number
            invariant
                at <= out.len(),
                before == parts_view(out@),
                forall|k: int| at <= k < out.len() ==> before[k].0 > number,
            decreases at,
        {
            at -= 1;
        }
        out.insert(at, (number, tag));
        proof {
            lemma_insert_at(before, part, at as int);
            assert(all.take(i + 1).drop_last() =~= all.take(i as int));
        }
        i += 1;
    }
    assert(all.take(parts.len() as int) =~= all);
    out
}

// ---------------------------------------------------------------------
// The session
// ---------------------------------------------------------------------

/// How far a session has come.
#[derive(Clone, Copy, Debug, PartialEq, Eq, Structural)]
pub enum UploadPhase {
    /// Parts are taken.
    Open,
    /// The completion was asked for; the backend has not confirmed it.
    Completing,
    /// The backend has confirmed the completion.
    Completed,
    /// The abort was asked for; the backend has not confirmed it.
    Aborting,
    /// The backend has confirmed the abort.
    Aborted,
}

/// A multipart upload between its start and its completion or abort.
#[derive(Debug)]
pub struct AiStoreMultipartUpload {
    client: S3Client,
    location: ObjectLocation,
    upload_id: String,
    state: MultipartState,
}

#[derive(Debug)]
struct MultipartState {
    phase: UploadPhase,
    /// The parts that were stored, in the order in which they were recorded.
    parts: Vec<(u32, String)>,
    /// The numbers that were handed out and are neither recorded nor given up.
    pending: Vec<u32>,
    next_part_number: u32,
}

/// [`AiStoreMultipartUpload`] as a mathematical value.
pub struct UploadView {
    pub client: S3ClientView,
    pub location: Seq<char>,
    pub upload_id: Seq<char>,
    pub phase: UploadPhase,
    /// The parts that were stored, in the order in which they were recorded.
    pub parts: Seq<PartView>,
    /// The numbers that were handed out and are neither recorded nor given up.
    pub pending: Set<u32>,
    /// The number that the next part gets.
    pub next_part_number: u32,
}

/// What can happen to a session.
pub enum SessionEvent {
    /// A part asks for its number.
    Assign,
    /// A part was stored under this entity tag.
    Record { part_number: u32, e_tag: Seq<char> },
    /// The upload of a part was given up.
    Abandon { part_number: u32 },
    /// The completion is asked for.
    Complete,
    /// The backend has confirmed the completion.
    Completed,
    /// The abort is asked for.
    Abort,
    /// The backend has confirmed the abort.
    Aborted,
}

/// The session after an event, and the number that the event handed out,
/// if it handed one out.
///
/// While the session is open, numbers are handed out in turn, from the
/// next one up, until they are used up, and a tag is recorded for a number
/// that is pending, which the number then no longer is. The completion
/// begins from an open session and the abort likewise; either may be
/// asked for again until the backend has confirmed it. An event that does
/// not fit the phase changes nothing.
pub open spec fn session_step(s: UploadView, event: SessionEvent) -> (UploadView, Option<u32>) {
    match event {
        SessionEvent::Assign => {
            if s.phase == UploadPhase::Open && s.next_part_number < u32::MAX {
                (
                    UploadView {
                        pending: s.pending.insert(s.next_part_number),
                        next_part_number: (s.next_part_number + 1) as u32,
                        ..s
                    },
                    Some(s.next_part_number),
                )
            } else {
                (s, None)
            }
        },
        SessionEvent::Record { part_number, e_tag } => {
            if s.phase == UploadPhase::Open && s.pending.contains(part_number) {
                (
                    UploadView {
                        parts: s.parts.push((part_number, e_tag)),
                        pending: s.pending.remove(part_number),
                        ..s
                    },
                    None,
                )
            } else {
                (s, None)
            }
        },
        SessionEvent::Abandon { part_number } => (
            UploadView { pending: s.pending.remove(part_number), ..s },
            None,
        ),
        SessionEvent::Complete => {
            if s.phase == UploadPhase::Open || s.phase == UploadPhase::Completing {
                (UploadView { phase: UploadPhase::Completing, ..s }, None)
            } else {
                (s, None)
            }
        },
        SessionEvent::Completed => {
            if s.phase == UploadPhase::Completing {
                (UploadView { phase: UploadPhase::Completed, ..s }, None)
            } else {
                (s, None)
            }
        },
        SessionEvent::Abort => {
            if s.phase == UploadPhase::Open || s.phase == UploadPhase::Aborting {
                (UploadView { phase: UploadPhase::Aborting, ..s }, None)
            } else {
                (s, None)
            }
        },
        SessionEvent::Aborted => {
            if s.phase == UploadPhase::Aborting {
                (UploadView { phase: UploadPhase::Aborted, ..s }, None)
            } else {
                (s, None)
            }
        },
    }
}

/// The session after a run of events, and the numbers that were handed out
/// on the way, in the order in which they were handed out.
pub open spec fn session_run(s: UploadView, events: Seq<SessionEvent>) -> (UploadView, Seq<u32>)
    decreases events.len(),
{
    if events.len() == 0 {
        (s, Seq::empty())
    } else {
        let (before, numbers) = session_run(s, events.drop_last());
        let (after, number) = session_step(before, events.last());
        (
            after,
            match number {
                Some(n) => numbers.push(n),
                None => numbers,
            },
        )
    }
}

/// What holds of a session at all times: part numbers start at one; every
/// number that is recorded or pending was handed out; no number is
/// recorded twice, and none is both recorded and pending.
pub open spec fn session_invariant(s: UploadView) -> bool {
    &&& s.next_part_number >= 1
    &&& s.pending.finite()
    &&& forall|n: u32| s.pending.contains(n) ==> 1 <= n < s.next_part_number
    &&& forall|i: int| 0 <= i < s.parts.len() ==> 1 <= (#[trigger] s.parts[i]).0 < s.next_part_number
    &&& forall|i: int| 0 <= i < s.parts.len() ==> !s.pending.contains((#[trigger] s.parts[i]).0)
    &&& distinct_numbers(s.parts)
}

/// Whether a session has just been started: open, nothing recorded,
/// nothing pending, and one as the next number.
pub open spec fn is_fresh_session(s: UploadView) -> bool {
    &&& s.phase == UploadPhase::Open
    &&& s.parts.len() == 0
    &&& s.pending == Set::<u32>::empty()
    &&& s.next_part_number == 1
}

/// Every event keeps the invariant of the session.
pub proof fn lemma_step_keeps_invariant(s: UploadView, event: SessionEvent)
    requires
        session_invariant(s),
    ensures
        session_invariant(session_step(s, event).0),
{
}

/// In whatever order parts ask for numbers, are recorded or are given up:
/// a fresh session hands out the numbers 1, 2, 3 and so on, each once and
/// none left out, and its invariant holds after every event.
pub proof fn lemma_numbers_in_turn(s: UploadView, events: Seq<SessionEvent>)
    requires
        is_fresh_session(s),
    ensures
        ({
            let (after, numbers) = session_run(s, events);
            &&& session_invariant(after)
            &&& after.next_part_number == numbers.len() + 1
            &&& forall|k: int| 0 <= k < numbers.len() ==> #[trigger] numbers[k] == k + 1
        }),
    decreases events.len(),
{
    if events.len() > 0 {
        lemma_numbers_in_turn(s, events.drop_last());
    }
}

/// A session never opens again: whatever happens to a session that is not
/// open, it is not open afterwards, and its parts are what they were.
pub proof fn lemma_never_reopens(s: UploadView, events: Seq<SessionEvent>)
    requires
        s.phase != UploadPhase::Open,
    ensures
        session_run(s, events).0.phase != UploadPhase::Open,
        session_run(s, events).0.parts == s.parts,
        session_run(s, events).1.len() == 0,
        s.phase == UploadPhase::Completed ==> session_run(s, events).0.phase
            == UploadPhase::Completed,
        s.phase == UploadPhase::Aborted ==> session_run(s, events).0.phase == UploadPhase::Aborted,
    decreases events.len(),
{
    if events.len() > 0 {
        lemma_never_reopens(s, events.drop_last());
    }
}

impl View for AiStoreMultipartUpload {
    type V = UploadView;

    closed spec fn view(&self) -> UploadView {
        UploadView {
            client: self.client@,
            location: self.location@,
            upload_id: self.upload_id@,
            phase: self.state.phase,
            parts: parts_view(self.state.parts@),
            pending: self.state.pending@.to_set(),
            next_part_number: self.state.next_part_number,
        }
    }
}

proof fn lemma_remove_from_set(s: Seq<u32>, at: int)
    requires
        s.no_duplicates(),
        0 <= at < s.len(),
    ensures
        s.remove(at).no_duplicates(),
        s.remove(at).to_set() == s.to_set().remove(s[at]),
{
    let r = s.remove(at);
    assert forall|x: u32| r.to_set().contains(x) <==> s.to_set().remove(s[at]).contains(x) by {
        if s.to_set().remove(s[at]).contains(x) {
            // What stands at `a` in `s` stands in `r` too, one place
            // earlier if it stood behind `at`.
            let a = choose|a: int| 0 <= a < s.len() && s[a] == x;
            let i = if a < at {
                a
            } else {
                a - 1
            };
            assert(r[i] == x);
        }
    }
}

proof fn lemma_push_to_set(s: Seq<u32>, n: u32)
    requires
        s.no_duplicates(),
        !s.contains(n),
    ensures
        s.push(n).no_duplicates(),
        s.push(n).to_set() == s.to_set().insert(n),
{
    let r = s.push(n);
    assert forall|x: u32| r.to_set().contains(x) <==> s.to_set().insert(n).contains(x) by {
        if s.contains(x) {
            let i = choose|i: int| 0 <= i < s.len() && s[i] == x;
            assert(r[i] == x);
        }
        assert(r[s.len() as int] == n);
    }
}

impl AiStoreMultipartUpload {
    /// Whether the session is in order: its invariant holds, and the list
    /// of pending numbers names none twice.
    pub closed spec fn wf(&self) -> bool {
        &&& session_invariant(self@)
        &&& self.state.pending@.no_duplicates()
    }

    /// A session that is in order meets the invariant of sessions.
    pub proof fn lemma_wf(&self)
        requires
            self.wf(),
        ensures
            session_invariant(self@),
    {
    }

    /// The session of the upload `upload_id` to `location`.
    pub fn new(client: S3Client, location: ObjectLocation, upload_id: String) -> (session:
        AiStoreMultipartUpload)
        ensures
            session.wf(),
            is_fresh_session(session@),
            session@.client == client@,
            session@.location == location@,
            session@.upload_id == upload_id@,
    {
        let session = AiStoreMultipartUpload {
            client,
            location,
            upload_id,
            state: MultipartState {
                phase: UploadPhase::Open,
                parts: Vec::new(),
                pending: Vec::new(),
                next_part_number: 1,
            },
        };
        assert(session@.pending =~= Set::<u32>::empty());
        session
    }

    /// The id of the upload.
    pub fn upload_id(&self) -> (id: &str)
        ensures
            id@ == self@.upload_id,
    {
        self.upload_id.as_str()
    }

    /// Where the object will be.
    pub fn location(&self) -> (location: &ObjectLocation)
        ensures
            location@ == self@.location,
    {
        &self.location
    }

    /// How far the session has come.
    pub fn phase(&self) -> (phase: UploadPhase)
        ensures
            phase == self@.phase,
    {
        self.state.phase
    }

    /// The number that the next part gets.
    pub fn next_part_number(&self) -> (n: u32)
        ensures
            n == self@.next_part_number,
    {
        self.state.next_part_number
    }

    /// The parts that were stored, in the order in which they were recorded.
    pub fn parts(&self) -> (parts: Vec<(u32, String)>)
        ensures
            parts_view(parts@) == self@.parts,
    {
        let mut out: Vec<(u32, String)> = Vec::new();
        let mut i: usize = 0;
        while i < self.state.parts.len()
            invariant
                i <= self.state.parts.len(),
                out@.len() == i,
                forall|k: int|
                    0 <= k < i ==> out@[k].0 == self.state.parts@[k].0 && out@[k].1@
                        == self.state.parts@[k].1@,
            decreases self.state.parts.len() - i,
        {
            out.push((self.state.parts[i].0, copy_text(self.state.parts[i].1.as_str())));
            i += 1;
        }
        out
    }

    /// Hands out the number of the next part and returns it with the
    /// request that uploads `data` under it. `None`, with the session as it
    /// was, where the session is no longer open or the numbers are used up.
    pub fn put_part(&mut self, data: &PutPayload) -> (out: Option<(u32, HttpRequestBuilder)>)
        requires
            old(self).wf(),
        ensures
            final(self).wf(),
            final(self)@ == session_step(old(self)@, SessionEvent::Assign).0,
            match out {
                Some((number, request)) => {
                    &&& session_step(old(self)@, SessionEvent::Assign).1 == Some(number)
                    &&& is_request(
                        request@,
                        old(self)@.client.client,
                        Method::Put,
                        part_url_of(
                            old(self)@.client.url,
                            old(self)@.location,
                            number,
                            old(self)@.upload_id,
                        ),
                        Seq::empty(),
                        Seq::empty(),
                        Some(BodyView::Bytes(concat_bytes(data@))),
                    )
                },
                None => session_step(old(self)@, SessionEvent::Assign).1 is None,
            },
    {
        let number = self.state.next_part_number;
        if !matches!(self.state.phase, UploadPhase::Open) || number == u32::MAX {
            return None;
        }
        let ghost before = self.state.pending@;
        self.state.next_part_number = number + 1;
        self.state.pending.push(number);
        proof {
            assert(!before.contains(number)) by {
                if before.contains(number) {
                    assert(before.to_set().contains(number));
                }
            }
            lemma_push_to_set(before, number);
        }
        let request = self.client.upload_part(
            &self.location,
            self.upload_id.as_str(),
            number,
            data.to_bytes(),
        );
        Some((number, request))
    }

    fn pending_index(&self, part_number: u32) -> (at: Option<usize>)
        ensures
            match at {
                Some(i) => i < self.state.pending@.len() && self.state.pending@[i as int]
                    == part_number,
                None => !self@.pending.contains(part_number),
            },
    {
        let mut i: usize = 0;
        while i < self.state.pending.len()
            invariant
                i <= self.state.pending.len(),
                forall|k: int| 0 <= k < i ==> self.state.pending@[k] != part_number,
            decreases self.state.pending.len() - i,
        {
            if self.state.pending[i] == part_number {
                return Some(i);
            }
            i += 1;
        }
        proof {
            if self.state.pending@.contains(part_number) {
                let k = choose|k: int|
                    0 <= k < self.state.pending@.len() && self.state.pending@[k] == part_number;
            }
        }
        None
    }

    /// Records that the part `part_number` was stored under `e_tag`.
    /// Returns whether it was recorded: the session must be open and the
    /// number pending.
    pub fn record_part(&mut self, part_number: u32, e_tag: String) -> (recorded: bool)
        requires
            old(self).wf(),
        ensures
            final(self).wf(),
            recorded == (old(self)@.phase == UploadPhase::Open && old(self)@.pending.contains(
                part_number,
            )),
            final(self)@ == session_step(
                old(self)@,
                SessionEvent::Record { part_number, e_tag: e_tag@ },
            ).0,
    {
        if !matches!(self.state.phase, UploadPhase::Open) {
            return false;
        }
        match self.pending_index(part_number) {
            Some(at) => {
                let ghost pending = self.state.pending@;
                let ghost parts = parts_view(self.state.parts@);
                let ghost tag = e_tag@;
                self.state.pending.remove(at);
                self.state.parts.push((part_number, e_tag));
                proof {
                    lemma_remove_from_set(pending, at as int);
                    assert(parts_view(self.state.parts@) =~= parts.push((part_number, tag)));
                    lemma_step_keeps_invariant(
                        old(self)@,
                        SessionEvent::Record { part_number, e_tag: tag },
                    );
                }
                true
            },
            None => false,
        }
    }

    /// Gives the part `part_number` up: its upload failed, and no tag will
    /// be recorded for it. Returns whether the number was pending.
    pub fn abandon_part(&mut self, part_number: u32) -> (pending: bool)
        requires
            old(self).wf(),
        ensures
            final(self).wf(),
            pending == old(self)@.pending.contains(part_number),
            final(self)@ == session_step(
                old(self)@,
                SessionEvent::Abandon { part_number },
            ).0,
    {
        match self.pending_index(part_number) {
            Some(at) => {
                let ghost pending = self.state.pending@;
                self.state.pending.remove(at);
                proof {
                    lemma_remove_from_set(pending, at as int);
                }
                true
            },
            None => {
                assert(self@.pending.remove(part_number) =~= self@.pending);
                false
            },
        }
    }

    /// Begins the completion, or takes it up again, and returns its
    /// request: it lists the recorded parts in ascending order of their
    /// numbers, in whatever order they were recorded. `None`, with the
    /// session as it was, once the upload is completed or its abort has
    /// begun.
    pub fn complete(&mut self) -> (out: Option<HttpRequestBuilder>)
        requires
            old(self).wf(),
        ensures
            final(self).wf(),
            final(self)@ == session_step(old(self)@, SessionEvent::Complete).0,
            match out {
                Some(request) => {
                    &&& final(self)@.phase == UploadPhase::Completing
                    &&& is_request(
                        request@,
                        old(self)@.client.client,
                        Method::Post,
                        upload_url_of(
                            old(self)@.client.url,
                            old(self)@.location,
                            old(self)@.upload_id,
                        ),
                        seq![("content-type"@, "application/xml"@)],
                        Seq::empty(),
                        Some(BodyView::Text(complete_xml(ascending(old(self)@.parts)))),
                    )
                },
                None => final(self)@.phase != UploadPhase::Completing,
            },
    {
        match self.state.phase {
            UploadPhase::Open | UploadPhase::Completing => {
                self.state.phase = UploadPhase::Completing;
                let parts = sort_parts(&self.state.parts);
                Some(
                    self.client.complete_multipart_upload(
                        &self.location,
                        self.upload_id.as_str(),
                        parts,
                    ),
                )
            },
            _ => None,
        }
    }

    /// Reads the response to the completion. Where it tells success, the
    /// upload is completed.
    pub fn completed(&mut self, response: &HttpResponse) -> (out: Result<PutResult, AiStoreError>)
        requires
            old(self).wf(),
        ensures
            final(self).wf(),
            result_view(out) == put_result_of(response@),
            final(self)@ == if out is Ok {
                session_step(old(self)@, SessionEvent::Completed).0
            } else {
                old(self)@
            },
    {
        let out = S3Client::complete_multipart_upload_result(response);
        if out.is_ok() && matches!(self.state.phase, UploadPhase::Completing) {
            self.state.phase = UploadPhase::Completed;
        }
        out
    }

    /// Begins the abort, or takes it up again, and returns its request.
    /// Parts may still be pending. `None`, with the session as it was,
    /// once the upload is aborted or its completion has begun.
    pub fn abort(&mut self) -> (out: Option<HttpRequestBuilder>)
        requires
            old(self).wf(),
        ensures
            final(self).wf(),
            final(self)@ == session_step(old(self)@, SessionEvent::Abort).0,
            match out {
                Some(request) => {
                    &&& final(self)@.phase == UploadPhase::Aborting
                    &&& is_request(
                        request@,
                        old(self)@.client.client,
                        Method::Delete,
                        upload_url_of(
                            old(self)@.client.url,
                            old(self)@.location,
                            old(self)@.upload_id,
                        ),
                        Seq::empty(),
                        Seq::empty(),
                        None,
                    )
                },
                None => final(self)@.phase != UploadPhase::Aborting,
            },
    {
        match self.state.phase {
            UploadPhase::Open | UploadPhase::Aborting => {
                self.state.phase = UploadPhase::Aborting;
                Some(self.client.abort_multipart_upload(&self.location, self.upload_id.as_str()))
            },
            _ => None,
        }
    }

    /// Reads the response to the abort. Where it tells success, the
    /// upload is aborted.
    pub fn aborted(&mut self, response: &HttpResponse) -> (out: Result<(), AiStoreError>)
        requires
            old(self).wf(),
        ensures
            final(self).wf(),
            match out {
                Ok(_) => done_or_error(response@) == Ok::<(), crate::error::ErrorView>(()),
                Err(error) => done_or_error(response@) == Err::<(), crate::error::ErrorView>(
                    error@,
                ),
            },
            final(self)@ == if out is Ok {
                session_step(old(self)@, SessionEvent::Aborted).0
            } else {
                old(self)@
            },
    {
        let out = S3Client::expect_success(response);
        if out.is_ok() && matches!(self.state.phase, UploadPhase::Aborting) {
            self.state.phase = UploadPhase::Aborted;
        }
        out
    }
}

} // verus!
