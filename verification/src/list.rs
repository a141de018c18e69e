//! Listings: the page-driven sequence of objects, and the grouping of keys
//! into objects and common prefixes.
//!
//! Neither fetches anything. Each says which page it wants next, and takes
//! the page when it has come.

use crate::client::unquoted;
use crate::error::{AiStoreError, ErrorView};
use crate::path::{key_of, ObjectLocation};
use crate::text::{
    chars_of, copy_optional_text, copy_text, find_from, has_prefix_at, join, next_index,
    same_text, skip_run, skip_run_back, string_of_range, trim_end, trim_matches, trim_start,
};
use crate::time::Timestamp;
use crate::types::{ListResult, ListResultView, ObjectMeta, ObjectMetaView};
use crate::xml::{ContentsView, ListBucketResult, ListContents, ListingView};
use vstd::prelude::*;

verus! {

/// How many keys a page is asked to hold.
pub const PAGE_SIZE: u32 = 1000;

/// Whether a page is the last one: it does not say that it was cut short,
/// or it names no token to go on with.
pub open spec fn is_last_page(page: ListingView) -> bool {
    page.is_truncated != Some(true) || page.next_continuation_token is None
}

/// The record of one entry of a page, if its key is the key of an object.
/// An entry without a time gets `now`, and the entity tag loses the quotes
/// around it.
pub open spec fn meta_of(entry: ContentsView, now: Timestamp) -> Option<ObjectMetaView> {
    match key_of(entry.key) {
        Some(location) => Some(
            ObjectMetaView {
                location,
                last_modified: match entry.last_modified {
                    Some(t) => t,
                    None => now,
                },
                size: entry.size,
                e_tag: match entry.e_tag {
                    Some(tag) => Some(unquoted(tag)),
                    None => None,
                },
                version: None,
            },
        ),
        None => None,
    }
}

/// The records of the entries of a page, in their order, without the
/// entries whose key is no key of an object.
pub open spec fn metas_of(entries: Seq<ContentsView>, now: Timestamp) -> Seq<ObjectMetaView>
    decreases entries.len(),
{
    if entries.len() == 0 {
        Seq::empty()
    } else {
        match meta_of(entries.last(), now) {
            Some(meta) => metas_of(entries.drop_last(), now).push(meta),
            None => metas_of(entries.drop_last(), now),
        }
    }
}

/// The record of one entry of a page.
pub fn entry_meta(entry: &ListContents, now: Timestamp) -> (out: Option<ObjectMeta>)
    ensures
        out.deep_view() == meta_of(entry@, now),
{
    match ObjectLocation::parse(entry.key.as_str()) {
        Some(location) => Some(
            ObjectMeta {
                location,
                last_modified: match entry.last_modified {
                    Some(t) => t,
                    None => now,
                },
                size: entry.size,
                e_tag: match &entry.e_tag {
                    Some(tag) => Some(trim_matches(tag.as_str(), '"')),
                    None => None,
                },
                version: None,
            },
        ),
        None => None,
    }
}

/// The records of the entries of a page.
pub fn page_metas(entries: &Vec<ListContents>, now: Timestamp) -> (out: Vec<ObjectMeta>)
    ensures
        out.deep_view() == metas_of(entries.deep_view(), now),
{
    let mut out: Vec<ObjectMeta> = Vec::new();
    let ghost all = entries.deep_view();
    let mut i: usize = 0;
    while i < entries.len()
        invariant
            i <= entries.len(),
            all == entries.deep_view(),
            out.deep_view() == metas_of(all.take(i as int), now),
        decreases entries.len() - i,
    {
        assert(all.take(i + 1).drop_last() =~= all.take(i as int));
        if let Some(meta) = entry_meta(&entries[i], now) {
            out.push(meta);
        }
        i += 1;
    }
    assert(all.take(entries.len() as int) =~= all);
    out
}

// ---------------------------------------------------------------------
// The sequence of objects
// ---------------------------------------------------------------------

/// Where a listing stands: what it lists, where the next page starts,
/// whether the last page has come, and the records that have come and are
/// not yet handed out.
#[derive(Debug)]
pub struct ListState {
    prefix: Option<String>,
    continuation_token: Option<String>,
    done: bool,
    /// The records to hand out, the next one last.
    buffer: Vec<ObjectMeta>,
}

/// [`ListState`] as a mathematical value; the buffer in the order in which
/// it is handed out.
pub struct ListStateView {
    pub prefix: Option<Seq<char>>,
    pub continuation_token: Option<Seq<char>>,
    pub done: bool,
    pub buffer: Seq<ObjectMetaView>,
}

/// What a listing does next.
#[derive(Debug)]
pub enum ListAction {
    /// It hands out this record.
    Yield(ObjectMeta),
    /// It needs the page that this query asks for.
    Fetch { prefix: Option<String>, continuation_token: Option<String>, max_keys: u32 },
    /// It is over.
    End,
}

/// [`ListAction`] as a mathematical value.
pub enum ListActionView {
    Yield(ObjectMetaView),
    Fetch { prefix: Option<Seq<char>>, continuation_token: Option<Seq<char>>, max_keys: u32 },
    End,
}

impl View for ListAction {
    type V = ListActionView;

    open spec fn view(&self) -> ListActionView {
        match self {
            ListAction::Yield(meta) => ListActionView::Yield(meta@),
            ListAction::Fetch { prefix, continuation_token, max_keys } => ListActionView::Fetch {
                prefix: prefix.deep_view(),
                continuation_token: continuation_token.deep_view(),
                max_keys: *max_keys,
            },
            ListAction::End => ListActionView::End,
        }
    }
}

/// The listing of `prefix` before its first page.
pub open spec fn list_start(prefix: Option<Seq<char>>) -> ListStateView {
    ListStateView { prefix, continuation_token: None, done: false, buffer: Seq::empty() }
}

/// What a listing does next, and the state it is in then: it hands out
/// what it holds, record by record; when it holds nothing it asks for the
/// next page, unless the last page has come: then it is over.
pub open spec fn list_next(s: ListStateView) -> (ListStateView, ListActionView) {
    if s.buffer.len() > 0 {
        (ListStateView { buffer: s.buffer.skip(1), ..s }, ListActionView::Yield(s.buffer[0]))
    } else if s.done {
        (s, ListActionView::End)
    } else {
        (
            s,
            ListActionView::Fetch {
                prefix: s.prefix,
                continuation_token: s.continuation_token,
                max_keys: PAGE_SIZE,
            },
        )
    }
}

/// The listing after a page has come, or has failed to come. A page adds
/// its records, and either is the last or says where the next one starts.
/// A failure ends the listing; the error is handed out once.
pub open spec fn list_after_page(
    s: ListStateView,
    page: Result<ListingView, ErrorView>,
    now: Timestamp,
) -> (ListStateView, Option<ErrorView>) {
    match page {
        Ok(listing) => (
            ListStateView {
                continuation_token: if is_last_page(listing) {
                    s.continuation_token
                } else {
                    listing.next_continuation_token
                },
                done: is_last_page(listing),
                buffer: s.buffer + metas_of(listing.contents, now),
                ..s
            },
            None,
        ),
        Err(error) => (ListStateView { done: true, ..s }, Some(error)),
    }
}

impl View for ListState {
    type V = ListStateView;

    closed spec fn view(&self) -> ListStateView {
        ListStateView {
            prefix: self.prefix.deep_view(),
            continuation_token: self.continuation_token.deep_view(),
            done: self.done,
            buffer: self.buffer.deep_view().reverse(),
        }
    }
}

impl ListState {
    /// The listing of the objects under `prefix`, or of all objects.
    pub fn new(prefix: Option<&ObjectLocation>) -> (state: ListState)
        ensures
            state@ == list_start(
                match prefix {
                    Some(p) => Some(p@),
                    None => None,
                },
            ),
    {
        ListState {
            prefix: match prefix {
                Some(p) => Some(copy_text(p.as_str())),
                None => None,
            },
            continuation_token: None,
            done: false,
            buffer: Vec::new(),
        }
    }

    /// Says what the listing does next, and does it.
    pub fn next(&mut self) -> (action: ListAction)
        ensures
            (final(self)@, action@) == list_next(old(self)@),
    {
        let ghost before = self.buffer.deep_view();
        match self.buffer.pop() {
            Some(meta) => {
                assert(self.buffer.deep_view() =~= before.drop_last());
                assert(before.drop_last().reverse() =~= before.reverse().skip(1));
                ListAction::Yield(meta)
            },
            None => {
                if self.done {
                    ListAction::End
                } else {
                    ListAction::Fetch {
                        prefix: copy_optional_text(&self.prefix),
                        continuation_token: copy_optional_text(&self.continuation_token),
                        max_keys: PAGE_SIZE,
                    }
                }
            },
        }
    }

    /// Takes a page that has come, or the error with which it failed to
    /// come. Returns the error that the listing hands out, if any.
    pub fn on_page(&mut self, page: Result<ListBucketResult, AiStoreError>, now: Timestamp) -> (out:
        Option<AiStoreError>)
        ensures
            (final(self)@, out.deep_view()) == list_after_page(
                old(self)@,
                crate::client::result_view(page),
                now,
            ),
    {
        match page {
            Ok(listing) => {
                let truncated = match listing.is_truncated {
                    Some(t) => t,
                    None => false,
                };
                if !truncated || listing.next_continuation_token.is_none() {
                    self.done = true;
                } else {
                    self.done = false;
                    self.continuation_token = listing.next_continuation_token;
                }
                let mut fresh = page_metas(&listing.contents, now);
                let ghost added = fresh.deep_view();
                let ghost held = self.buffer.deep_view();
                // The buffer hands out from its end: the new records go
                // in front of what is held, last record first.
                let mut merged: Vec<ObjectMeta> = Vec::new();
                while fresh.len() > 0
                    invariant
                        fresh.deep_view() + merged.deep_view().reverse() == added,
                    decreases fresh.len(),
                {
                    let meta = fresh.pop().unwrap();
                    merged.push(meta);
                }
                let ghost m = merged.deep_view();
                merged.append(&mut self.buffer);
                assert(merged.deep_view() =~= m + held);
                assert((m + held).reverse() =~= held.reverse() + m.reverse());
                self.buffer = merged;
                None
            },
            Err(error) => {
                self.done = true;
                Some(error)
            },
        }
    }
}

impl DeepView for AiStoreError {
    type V = ErrorView;

    open spec fn deep_view(&self) -> ErrorView {
        self@
    }
}

/// Once the last page has come, no page is asked for again: the listing
/// hands out what it holds and is over.
pub proof fn lemma_done_never_fetches(s: ListStateView)
    requires
        s.done,
    ensures
        !(list_next(s).1 is Fetch),
        list_next(s).0.done,
        list_next(s).0.buffer.len() == 0 ==> list_next(list_next(s).0).1 is End,
{
}

/// A page that says it was cut short but names no token to go on with is
/// the last page all the same.
pub proof fn lemma_page_without_token_is_last(
    s: ListStateView,
    page: ListingView,
    now: Timestamp,
)
    requires
        page.next_continuation_token is None,
    ensures
        list_after_page(s, Ok(page), now).0.done,
        !(list_next(list_after_page(s, Ok(page), now).0).1 is Fetch),
{
}

/// A page that fails to come ends a listing that was waiting for it: the
/// error is handed out, and the listing is over.
pub proof fn lemma_failed_page_ends(s: ListStateView, error: ErrorView, now: Timestamp)
    requires
        list_next(s).1 is Fetch,
    ensures
        list_after_page(s, Err(error), now).1 == Some(error),
        list_next(list_after_page(s, Err(error), now).0).1 is End,
{
}

// ---------------------------------------------------------------------
// Grouping by the delimiter
// ---------------------------------------------------------------------

/// Where a key falls in a listing grouped by `/`.
#[derive(Debug)]
pub enum Grouped {
    /// Not under the prefix at all.
    Outside,
    /// Directly under the prefix: an object of the listing.
    Object,
    /// Further down: it lies under this common prefix.
    Under(String),
}

/// [`Grouped`] as a mathematical value.
pub enum GroupedView {
    Outside,
    Object,
    Under(Seq<char>),
}

impl View for Grouped {
    type V = GroupedView;

    open spec fn view(&self) -> GroupedView {
        match self {
            Grouped::Outside => GroupedView::Outside,
            Grouped::Object => GroupedView::Object,
            Grouped::Under(prefix) => GroupedView::Under(prefix@),
        }
    }
}

/// What is left of `key` below `prefix`: the key itself under the empty
/// prefix; otherwise the key without the prefix and without the slashes
/// that follow it; nothing where the key does not start with the prefix.
pub open spec fn relative_key(prefix: Seq<char>, key: Seq<char>) -> Option<Seq<char>> {
    if prefix.len() == 0 {
        Some(key)
    } else if prefix.is_prefix_of(key) {
        Some(trim_start(key.skip(prefix.len() as int), '/'))
    } else {
        None
    }
}

/// The common prefix of the keys whose first segment below `prefix` is
/// `segment`.
pub open spec fn common_prefix_of(prefix: Seq<char>, segment: Seq<char>) -> Seq<char> {
    if prefix.len() == 0 {
        segment + "/"@
    } else {
        trim_end(prefix, '/') + "/"@ + segment + "/"@
    }
}

/// Where `key` falls in the listing of `prefix`: a key with a slash in
/// what is left of it below the prefix lies under the common prefix of its
/// first segment; a key without is an object of the listing.
pub open spec fn group_of(prefix: Seq<char>, key: Seq<char>) -> GroupedView {
    match relative_key(prefix, key) {
        None => GroupedView::Outside,
        Some(rest) => {
            let slash = next_index(rest, '/', 0);
            if slash < rest.len() {
                GroupedView::Under(common_prefix_of(prefix, rest.take(slash)))
            } else {
                GroupedView::Object
            }
        },
    }
}

/// Says where `key` falls in the listing of `prefix`.
pub fn group_key(prefix: &str, key: &str) -> (out: Grouped)
    ensures
        out@ == group_of(prefix@, key@),
{
    let p = chars_of(prefix);
    let k = chars_of(key);
    let start: usize = if p.len() == 0 {
        0
    } else {
        if !has_prefix_at(&k, 0, &p) {
            return Grouped::Outside;
        }
        skip_run(&k, '/', p.len())
    };
    let ghost rest = k@.skip(start as int);
    assert(relative_key(prefix@, key@) == Some(rest));
    let slash = find_from(&k, '/', start);
    proof {
        lemma_next_index_skip(k@, '/', start as int);
    }
    if slash >= k.len() {
        return Grouped::Object;
    }
    let segment = string_of_range(&k, start, slash);
    assert(rest.take(slash - start) =~= k@.subrange(start as int, slash as int));
    let tail = join(segment.as_str(), "/");
    if p.len() == 0 {
        Grouped::Under(tail)
    } else {
        let end = skip_run_back(&p, '/', 0, p.len());
        assert(p@.subrange(0, p.len() as int) =~= p@);
        let head = join(string_of_range(&p, 0, end).as_str(), "/");
        let out = join(head.as_str(), tail.as_str());
        assert(out@ =~= trim_end(p@, '/') + "/"@ + segment@ + "/"@);
        Grouped::Under(out)
    }
}

/// Searching a tail of `s` finds what searching `s` from there finds.
pub proof fn lemma_next_index_skip(s: Seq<char>, c: char, from: int)
    requires
        0 <= from <= s.len(),
    ensures
        next_index(s.skip(from), c, 0) == next_index(s, c, from) - from,
{
    crate::text::lemma_next_index(s, c, from);
    crate::text::lemma_next_index_unique(s.skip(from), c, 0, next_index(s, c, from) - from);
}

/// `list` with `item` at its end, unless it holds `item` already.
pub open spec fn push_unique(list: Seq<Seq<char>>, item: Seq<char>) -> Seq<Seq<char>> {
    if list.contains(item) {
        list
    } else {
        list.push(item)
    }
}

/// A grouped listing in the making.
#[derive(Debug)]
pub struct DelimitedListing {
    prefix: String,
    objects: Vec<ObjectMeta>,
    /// The common prefixes found so far, each once, in the order in which
    /// they were first met.
    common_prefixes: Vec<String>,
    continuation_token: Option<String>,
    done: bool,
    /// The error with which a page failed to come, if one did.
    failed: Option<AiStoreError>,
}

/// [`DelimitedListing`] as a mathematical value.
pub struct GroupingView {
    pub prefix: Seq<char>,
    pub objects: Seq<ObjectMetaView>,
    pub common_prefixes: Seq<Seq<char>>,
    pub continuation_token: Option<Seq<char>>,
    pub done: bool,
    /// The error with which a page failed to come, if one did.
    pub failed: Option<ErrorView>,
}

/// The grouping after one more entry of a page.
pub open spec fn grouping_after_entry(g: GroupingView, entry: ContentsView, now: Timestamp)
    -> GroupingView {
    match group_of(g.prefix, entry.key) {
        GroupedView::Outside => g,
        GroupedView::Under(prefix) => GroupingView {
            common_prefixes: push_unique(g.common_prefixes, prefix),
            ..g
        },
        GroupedView::Object => match meta_of(entry, now) {
            Some(meta) => GroupingView { objects: g.objects.push(meta), ..g },
            None => g,
        },
    }
}

/// The grouping after the entries of a page, taken in their order.
pub open spec fn grouping_after_entries(
    g: GroupingView,
    entries: Seq<ContentsView>,
    now: Timestamp,
) -> GroupingView
    decreases entries.len(),
{
    if entries.len() == 0 {
        g
    } else {
        grouping_after_entry(
            grouping_after_entries(g, entries.drop_last(), now),
            entries.last(),
            now,
        )
    }
}

/// The grouping after a page that has come: its entries are sorted in,
/// and the page either is the last or says where the next one starts.
pub open spec fn grouping_after_listing(g: GroupingView, page: ListingView, now: Timestamp)
    -> GroupingView {
    let sorted = grouping_after_entries(g, page.contents, now);
    GroupingView {
        continuation_token: if is_last_page(page) {
            g.continuation_token
        } else {
            page.next_continuation_token
        },
        done: is_last_page(page),
        ..sorted
    }
}

/// The grouping after a page has come, or has failed to come. A page that
/// has come is sorted in. A page that fails ends the grouping with its
/// error: no page is asked for any more, and the error is all that the
/// grouping gives. A grouping that has failed takes nothing more.
pub open spec fn grouping_after_page(
    g: GroupingView,
    page: Result<ListingView, ErrorView>,
    now: Timestamp,
) -> GroupingView {
    if g.failed is Some {
        g
    } else {
        match page {
            Ok(listing) => grouping_after_listing(g, listing, now),
            Err(error) => GroupingView { done: true, failed: Some(error), ..g },
        }
    }
}

/// The grouping that asks for page after page, as long as it is not over,
/// and finds `pages[i]` behind its request number `i`; with it, how many
/// pages it asked for.
pub open spec fn grouping_run(
    g: GroupingView,
    pages: Seq<Result<ListingView, ErrorView>>,
    now: Timestamp,
) -> (GroupingView, nat)
    decreases pages.len(),
{
    if g.done || pages.len() == 0 {
        (g, 0)
    } else {
        let (end, asked) = grouping_run(grouping_after_page(g, pages[0], now), pages.skip(1), now);
        (end, asked + 1)
    }
}

/// The common prefixes as locations, without those that are none.
pub open spec fn locations_of(prefixes: Seq<Seq<char>>) -> Seq<Seq<char>>
    decreases prefixes.len(),
{
    if prefixes.len() == 0 {
        Seq::empty()
    } else {
        match key_of(prefixes.last()) {
            Some(location) => locations_of(prefixes.drop_last()).push(location),
            None => locations_of(prefixes.drop_last()),
        }
    }
}

/// The result of a grouping: the error of the page that failed to come,
/// if one did, and nothing beside it; else the objects and the common
/// prefixes that the pages held.
pub open spec fn list_result_of(g: GroupingView) -> Result<ListResultView, ErrorView> {
    match g.failed {
        Some(error) => Err(error),
        None => Ok(
            ListResultView { objects: g.objects, common_prefixes: locations_of(g.common_prefixes) },
        ),
    }
}

/// A recorded run of pages as mathematical values.
pub open spec fn pages_view(pages: Seq<Result<ListBucketResult, AiStoreError>>) -> Seq<
    Result<ListingView, ErrorView>,
> {
    pages.map_values(|p: Result<ListBucketResult, AiStoreError>| crate::client::result_view(p))
}

impl View for DelimitedListing {
    type V = GroupingView;

    closed spec fn view(&self) -> GroupingView {
        GroupingView {
            prefix: self.prefix@,
            objects: self.objects.deep_view(),
            common_prefixes: self.common_prefixes.deep_view(),
            continuation_token: self.continuation_token.deep_view(),
            done: self.done,
            failed: self.failed.deep_view(),
        }
    }
}

/// Sorting entries in changes neither what is listed nor where the next
/// page starts.
pub proof fn lemma_entries_keep_cursor(g: GroupingView, entries: Seq<ContentsView>, now: Timestamp)
    ensures
        grouping_after_entries(g, entries, now).prefix == g.prefix,
        grouping_after_entries(g, entries, now).continuation_token == g.continuation_token,
        grouping_after_entries(g, entries, now).done == g.done,
        grouping_after_entries(g, entries, now).failed == g.failed,
    decreases entries.len(),
{
    if entries.len() > 0 {
        lemma_entries_keep_cursor(g, entries.drop_last(), now);
    }
}

/// Sorting an entry in never makes a common prefix occur twice.
pub proof fn lemma_grouping_keeps_unique(g: GroupingView, entry: ContentsView, now: Timestamp)
    requires
        g.common_prefixes.no_duplicates(),
    ensures
        grouping_after_entry(g, entry, now).common_prefixes.no_duplicates(),
        g.common_prefixes.is_prefix_of(grouping_after_entry(g, entry, now).common_prefixes),
{
}

/// A page that fails to come ends the grouping: it is over, so no page is
/// asked for any more; its result is the error handed in and no listing;
/// and whatever comes after changes nothing of that.
pub proof fn lemma_failed_page_ends_grouping(
    g: GroupingView,
    error: ErrorView,
    later: Result<ListingView, ErrorView>,
    now: Timestamp,
)
    requires
        g.failed is None,
    ensures
        grouping_after_page(g, Err(error), now).done,
        list_result_of(grouping_after_page(g, Err(error), now)) == Err::<
            ListResultView,
            ErrorView,
        >(error),
        grouping_after_page(grouping_after_page(g, Err(error), now), later, now)
            == grouping_after_page(g, Err(error), now),
{
}

/// Where the pages come one after the other, each saying where the next
/// one starts, and the fetch of page number `k` fails: the grouping asks
/// for `k + 1` pages and for none after the one that failed, and its
/// result is that error, with nothing of what the pages before it held.
pub proof fn lemma_failed_fetch_ends_listing(
    g: GroupingView,
    pages: Seq<Result<ListingView, ErrorView>>,
    k: int,
    now: Timestamp,
)
    requires
        !g.done,
        g.failed is None,
        0 <= k < pages.len(),
        forall|i: int| 0 <= i < k ==> (#[trigger] pages[i]) is Ok && !is_last_page(pages[i]->Ok_0),
        pages[k] is Err,
    ensures
        grouping_run(g, pages, now).1 == k + 1,
        grouping_run(g, pages, now).0.done,
        list_result_of(grouping_run(g, pages, now).0) == Err::<ListResultView, ErrorView>(
            pages[k]->Err_0,
        ),
    decreases k,
{
    let next = grouping_after_page(g, pages[0], now);
    if k > 0 {
        lemma_entries_keep_cursor(g, pages[0]->Ok_0.contents, now);
        lemma_failed_fetch_ends_listing(next, pages.skip(1), k - 1, now);
    } else {
        // The page that failed ends the grouping; it asks for no other.
        assert(grouping_run(next, pages.skip(1), now) == (next, 0nat));
    }
}

impl DelimitedListing {
    /// The grouped listing of the keys under `prefix`, or of all keys.
    pub fn new(prefix: Option<&ObjectLocation>) -> (listing: DelimitedListing)
        ensures
            listing@ == (GroupingView {
                prefix: match prefix {
                    Some(p) => p@,
                    None => Seq::empty(),
                },
                objects: Seq::empty(),
                common_prefixes: Seq::empty(),
                continuation_token: None,
                done: false,
                failed: None,
            }),
    {
        let listing = DelimitedListing {
            prefix: match prefix {
                Some(p) => copy_text(p.as_str()),
                None => String::new(),
            },
            objects: Vec::new(),
            common_prefixes: Vec::new(),
            continuation_token: None,
            done: false,
            failed: None,
        };
        assert(listing@.objects =~= Seq::<ObjectMetaView>::empty());
        assert(listing@.common_prefixes =~= Seq::<Seq<char>>::empty());
        listing
    }

    /// The query of the page that the grouping needs next: the prefix, the
    /// token at which the page starts, and its size. `None` once the last
    /// page has come, or a page has failed to come.
    pub fn next_fetch(&self) -> (query: Option<(String, Option<String>, u32)>)
        ensures
            match query {
                Some((prefix, token, max_keys)) => !self@.done && prefix@ == self@.prefix
                    && token.deep_view() == self@.continuation_token && max_keys == PAGE_SIZE,
                None => self@.done,
            },
    {
        if self.done {
            None
        } else {
            Some(
                (
                    copy_text(self.prefix.as_str()),
                    copy_optional_text(&self.continuation_token),
                    PAGE_SIZE,
                ),
            )
        }
    }

    /// The common prefixes found so far, each once, in the order in which
    /// they were first met.
    pub fn common_prefixes(&self) -> (prefixes: &Vec<String>)
        ensures
            prefixes.deep_view() == self@.common_prefixes,
    {
        &self.common_prefixes
    }

    fn holds_prefix(&self, prefix: &str) -> (held: bool)
        ensures
            held == self@.common_prefixes.contains(prefix@),
    {
        let mut i: usize = 0;
        while i < self.common_prefixes.len()
            invariant
                i <= self.common_prefixes.len(),
                forall|k: int| 0 <= k < i ==> self@.common_prefixes[k] != prefix@,
            decreases self.common_prefixes.len() - i,
        {
            if same_text(self.common_prefixes[i].as_str(), prefix) {
                assert(self@.common_prefixes[i as int] == prefix@);
                return true;
            }
            i += 1;
        }
        false
    }

    fn add_entry(&mut self, entry: &ListContents, now: Timestamp)
        ensures
            final(self)@ == grouping_after_entry(old(self)@, entry@, now),
    {
        match group_key(self.prefix.as_str(), entry.key.as_str()) {
            Grouped::Outside => {},
            Grouped::Under(prefix) => {
                if !self.holds_prefix(prefix.as_str()) {
                    let ghost before = self.common_prefixes.deep_view();
                    let ghost added = prefix@;
                    self.common_prefixes.push(prefix);
                    assert(self.common_prefixes.deep_view() =~= before.push(added));
                }
            },
            Grouped::Object => {
                if let Some(meta) = entry_meta(entry, now) {
                    let ghost before = self.objects.deep_view();
                    let ghost added = meta@;
                    self.objects.push(meta);
                    assert(self.objects.deep_view() =~= before.push(added));
                }
            },
        }
    }

    fn add_listing(&mut self, page: ListBucketResult, now: Timestamp)
        ensures
            final(self)@ == grouping_after_listing(old(self)@, page@, now),
    {
        let ghost all = page@.contents;
        let ghost start = self@;
        let mut i: usize = 0;
        while i < page.contents.len()
            invariant
                i <= page.contents.len(),
                all == page.contents.deep_view(),
                start == old(self)@,
                self@ == grouping_after_entries(start, all.take(i as int), now),
            decreases page.contents.len() - i,
        {
            assert(all.take(i + 1).drop_last() =~= all.take(i as int));
            self.add_entry(&page.contents[i], now);
            i += 1;
        }
        proof {
            assert(all.take(page.contents.len() as int) =~= all);
            lemma_entries_keep_cursor(start, all, now);
        }
        let truncated = match page.is_truncated {
            Some(t) => t,
            None => false,
        };
        if !truncated || page.next_continuation_token.is_none() {
            self.done = true;
        } else {
            self.done = false;
            self.continuation_token = page.next_continuation_token;
        }
    }

    /// Takes a page that has come, and sorts its entries into the
    /// grouping, or the error with which it failed to come, which ends the
    /// grouping.
    pub fn on_page(&mut self, page: Result<ListBucketResult, AiStoreError>, now: Timestamp)
        ensures
            final(self)@ == grouping_after_page(
                old(self)@,
                crate::client::result_view(page),
                now,
            ),
    {
        if self.failed.is_some() {
            return ;
        }
        match page {
            Ok(listing) => {
                self.add_listing(listing, now);
            },
            Err(error) => {
                self.done = true;
                self.failed = Some(error);
            },
        }
    }

    /// The result of the grouping: the error of the page that failed to
    /// come, if one did; else the objects in the order in which they came,
    /// and the common prefixes as locations, in the order in which they
    /// were first met.
    pub fn finish(self) -> (result: Result<ListResult, AiStoreError>)
        ensures
            crate::client::result_view(result) == list_result_of(self@),
    {
        if let Some(error) = self.failed {
            return Err(error);
        }
        let mut locations: Vec<ObjectLocation> = Vec::new();
        let ghost all = self.common_prefixes.deep_view();
        let mut i: usize = 0;
        while i < self.common_prefixes.len()
            invariant
                i <= self.common_prefixes.len(),
                all == self.common_prefixes.deep_view(),
                locations.deep_view() == locations_of(all.take(i as int)),
            decreases self.common_prefixes.len() - i,
        {
            assert(all.take(i + 1).drop_last() =~= all.take(i as int));
            if let Some(location) = ObjectLocation::parse(self.common_prefixes[i].as_str()) {
                locations.push(location);
            }
            i += 1;
        }
        assert(all.take(self.common_prefixes.len() as int) =~= all);
        Ok(ListResult { objects: self.objects, common_prefixes: locations })
    }

    /// Carries the grouping out against recorded pages: `pages[i]` is what
    /// the request number `i` finds. Returns how many pages were asked
    /// for, and the result; `None` where the pages ran out before the
    /// grouping was over.
    pub fn replay(self, pages: Vec<Result<ListBucketResult, AiStoreError>>, now: Timestamp) -> (out:
        (usize, Option<Result<ListResult, AiStoreError>>))
        ensures
            out.0 == grouping_run(self@, pages_view(pages@), now).1,
            match out.1 {
                Some(result) => grouping_run(self@, pages_view(pages@), now).0.done
                    && crate::client::result_view(result) == list_result_of(
                    grouping_run(self@, pages_view(pages@), now).0,
                ),
                None => !grouping_run(self@, pages_view(pages@), now).0.done,
            },
    {
        let mut listing = self;
        let mut pending = pages;
        let mut asked: usize = 0;
        let ghost all = pages_view(pages@);
        while !listing.done && pending.len() > 0
            invariant
                grouping_run(self@, all, now).0 == grouping_run(
                    listing@,
                    pages_view(pending@),
                    now,
                ).0,
                grouping_run(self@, all, now).1 == grouping_run(
                    listing@,
                    pages_view(pending@),
                    now,
                ).1 + asked,
                asked + pending.len() == pages.len(),
                all == pages_view(pages@),
            decreases pending.len(),
        {
            let ghost before = pages_view(pending@);
            let page = pending.remove(0);
            assert(pages_view(pending@) =~= before.skip(1));
            listing.on_page(page, now);
            asked += 1;
        }
        if listing.done {
            (asked, Some(listing.finish()))
        } else {
            (asked, None)
        }
    }
}

} // verus!
