//! Client-side protocol logic for an S3-compatible object store.
//!
//! The crate turns the operations of a generic object store into the
//! requests of the S3 protocol and reads the responses back, and it holds
//! the rules by which a request is sent again after a redirection or a
//! transient failure. It performs no I/O: requests and responses are plain
//! values, and whoever owns the transport carries them.

use crate::client::{initiate_result_of, object_url_of, S3Client, S3ClientView};
use crate::error::{store_error_of, ErrorView, StoreError, StoreErrorView};
use crate::http::{HttpResponse, Method};
use crate::list::{list_start, DelimitedListing, GroupingView, ListState};
use crate::multipart::{is_fresh_session, AiStoreMultipartUpload};
use crate::path::ObjectLocation;
use crate::request::{is_request, HttpRequestBuilder};
use crate::types::{ObjectMeta, ObjectMetaView};
use vstd::prelude::*;

pub mod builder;
pub mod client;
pub mod error;
pub mod http;
pub mod list;
pub mod multipart;
pub mod path;
pub mod request;
pub mod text;
pub mod time;
pub mod types;
pub mod xml;

pub use builder::{AiStoreBuilder, BuilderError};
pub use error::AiStoreError;

verus! {

/// One bucket of the store, and the client that speaks to it.
#[derive(Debug)]
pub struct AiStore {
    client: S3Client,
    bucket_name: String,
}

/// [`AiStore`] as a mathematical value.
pub struct StoreView {
    pub client: S3ClientView,
    pub bucket_name: Seq<char>,
}

impl View for AiStore {
    type V = StoreView;

    closed spec fn view(&self) -> StoreView {
        StoreView { client: self.client@, bucket_name: self.bucket_name@ }
    }
}

/// What becomes of a copy that must not overwrite, once the head of the
/// destination has answered: the copy goes on only where the destination
/// was not found. Where it exists the copy is refused; any other failure
/// of the head is passed on.
pub open spec fn copy_verdict_of(to: Seq<char>, head: Result<ObjectMetaView, ErrorView>) -> Result<
    (),
    StoreErrorView,
> {
    match head {
        Ok(_) => Err(
            StoreErrorView::AlreadyExists {
                path: to,
                source: ErrorView::AlreadyExists { message: "Object already exists: "@ + to },
            },
        ),
        Err(ErrorView::NotFound { message }) => Ok(()),
        Err(error) => Err(store_error_of(error)),
    }
}

impl AiStore {
    /// The store of the bucket `bucket_name`, reached through `client`.
    pub fn new(client: S3Client, bucket_name: String) -> (store: AiStore)
        ensures
            store@ == (StoreView { client: client@, bucket_name: bucket_name@ }),
    {
        AiStore { client, bucket_name }
    }

    /// The protocol client of this store.
    pub fn client(&self) -> (client: &S3Client)
        ensures
            client@ == self@.client,
    {
        &self.client
    }

    /// The name of the bucket.
    pub fn bucket_name(&self) -> (name: &str)
        ensures
            name@ == self@.bucket_name,
    {
        self.bucket_name.as_str()
    }

    /// The store in words: `AiStore(bucket)`.
    pub fn to_string(&self) -> (out: String)
        ensures
            out@ == "AiStore("@ + self@.bucket_name + ")"@,
    {
        let head = text::join("AiStore(", self.bucket_name.as_str());
        text::join(head.as_str(), ")")
    }

    /// The listing of the objects under `prefix`, before its first page.
    pub fn list(&self, prefix: Option<&ObjectLocation>) -> (state: ListState)
        ensures
            state@ == list_start(
                match prefix {
                    Some(p) => Some(p@),
                    None => None,
                },
            ),
    {
        ListState::new(prefix)
    }

    /// The grouped listing of the keys under `prefix`, before its first page.
    pub fn list_with_delimiter(&self, prefix: Option<&ObjectLocation>) -> (listing:
        DelimitedListing)
        ensures
            listing@ == (GroupingView {
                prefix: match prefix {
                    Some(p) => p@,
                    None => Seq::empty(),
                },
                objects: Seq::empty(),
                common_prefixes: Seq::empty(),
                continuation_token: None,
                done: false,
                failed: None,
            }),
    {
        DelimitedListing::new(prefix)
    }

    /// Reads the response to the start of a multipart upload to `location`
    /// and opens the session of the upload.
    pub fn put_multipart_opts(&self, location: &ObjectLocation, response: &HttpResponse) -> (out:
        Result<AiStoreMultipartUpload, StoreError>)
        ensures
            match out {
                Ok(session) => {
                    &&& initiate_result_of(response@) == Ok::<Seq<char>, ErrorView>(
                        session@.upload_id,
                    )
                    &&& session.wf()
                    &&& is_fresh_session(session@)
                    &&& session@.client == self@.client
                    &&& session@.location == location@
                },
                Err(error) => exists|cause: ErrorView|
                    initiate_result_of(response@) == Err::<Seq<char>, ErrorView>(cause) && error@
                        == store_error_of(cause),
            },
    {
        match S3Client::initiate_multipart_upload_result(response) {
            Ok(upload_id) => Ok(
                AiStoreMultipartUpload::new(
                    self.client.duplicate(),
                    location.duplicate(),
                    upload_id,
                ),
            ),
            Err(error) => Err(StoreError::from_error(error)),
        }
    }

    /// Decides a copy that must not overwrite, given what the head of the
    /// destination answered, and returns the request of the copy where it
    /// goes on. The check and the copy are two requests: a writer that
    /// comes in between is not noticed.
    pub fn copy_if_not_exists(
        &self,
        from: &ObjectLocation,
        to: &ObjectLocation,
        head: Result<ObjectMeta, AiStoreError>,
    ) -> (out: Result<HttpRequestBuilder, StoreError>)
        ensures
            match out {
                Ok(request) => {
                    &&& copy_verdict_of(to@, client::result_view(head)) == Ok::<(), StoreErrorView>(())
                    &&& is_request(
                        request@,
                        self@.client.client,
                        Method::Put,
                        object_url_of(self@.client.url, to@),
                        seq![("x-amz-copy-source"@, object_url_of(self@.client.url, from@))],
                        Seq::empty(),
                        None,
                    )
                },
                Err(error) => copy_verdict_of(to@, client::result_view(head)) == Err::<
                    (),
                    StoreErrorView,
                >(error@),
            },
    {
        match head {
            Ok(_) => {
                let message = text::join("Object already exists: ", to.as_str());
                Err(
                    StoreError::AlreadyExists {
                        path: text::copy_text(to.as_str()),
                        source: AiStoreError::AlreadyExists { message },
                    },
                )
            },
            Err(AiStoreError::NotFound { message }) => Ok(self.client.copy_object(from, to)),
            Err(error) => Err(StoreError::from_error(error)),
        }
    }
}

} // verus!
