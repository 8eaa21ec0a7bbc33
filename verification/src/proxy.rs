//! The proxy itself: the stores it works with, and the question that opens most
//! of its operations.

use crate::dto::{CreateBucketInput, StoreCall};
use crate::error::{S3Error, S3ErrorCode};
use crate::models::{DirectoryFailure, LocateObjectRequest, LocateObjectResponse, LocateReply};
use crate::text::{after_colon, contains, first_colon, joined, occurs};
use vstd::prelude::*;

verus! {

/// A proxy over one object store per region.
#[derive(PartialEq, Eq)]
pub struct SkyProxy {
    /// The regions with a store, each written as its provider, a colon and the
    /// provider's name of the region. The text of a region is the tag by which the
    /// directory names its store.
    pub regions: Vec<String>,
    /// The region that the proxy's clients are in.
    pub client_from_region: String,
}

/// Asks the directory for an object on behalf of clients in a region.
pub open spec fn locate_request(
    bucket: String,
    key: String,
    client_from_region: String,
) -> LocateObjectRequest {
    LocateObjectRequest { bucket, key, client_from_region }
}

/// The directory could not tell whether there is such an object.
pub open spec fn locate_failed(reply: LocateReply) -> bool {
    reply matches Err(failure) && failure != DirectoryFailure::Status(404)
}

/// The copy that the directory named, if it named one.
pub open spec fn found(reply: LocateReply) -> Option<LocateObjectResponse> {
    match reply {
        Ok(locator) => Some(locator),
        Err(_) => None,
    }
}

/// The error of an operation whose object the directory could not look up.
pub open spec fn is_locate_error(error: S3Error) -> bool {
    error.says(S3ErrorCode::InternalError, "locate_object failed"@)
}

/// The bucket that the proxy keeps in the store of a region.
pub open spec fn skystore_bucket(region: Seq<char>) -> Seq<char> {
    "skystore-"@ + after_colon(region)
}

/// Tells whether a region names its provider, as the proxy needs it.
pub fn names_provider(region: &str) -> (valid: bool)
    ensures
        valid == region@.contains(':'),
{
    first_colon(region).is_some()
}

/// The base path of the directory service.
pub fn directory_base_path() -> (path: String)
    ensures
        path@ == "http://localhost:3000"@,
{
    "http://localhost:3000".to_string()
}

/// The endpoint of the stores.
pub fn store_endpoint() -> (endpoint: String)
    ensures
        endpoint@ == "http://localhost:8014"@,
{
    "http://localhost:8014".to_string()
}

/// Tells whether a store's failure to create a bucket at startup can be ignored:
/// it can if the bucket is there already.
pub fn bucket_exists_already(failure: &str) -> (ignorable: bool)
    ensures
        ignorable == occurs(failure@, "BucketAlreadyExists"@),
{
    contains(failure, "BucketAlreadyExists")
}

/// What the directory's reply to a [`LocateObjectRequest`] means.
pub fn located(reply: LocateReply) -> (result: Result<Option<LocateObjectResponse>, S3Error>)
    ensures
        match result {
            Ok(locator) => !locate_failed(reply) && locator == found(reply),
            Err(error) => locate_failed(reply) && is_locate_error(error),
        },
        reply matches Ok(locator) ==> result == Ok::<Option<LocateObjectResponse>, S3Error>(
            Some(locator),
        ),
        reply == Err::<LocateObjectResponse, DirectoryFailure>(DirectoryFailure::Status(404))
            ==> result == Ok::<Option<LocateObjectResponse>, S3Error>(None),
{
    match reply {
        Ok(locator) => Ok(Some(locator)),
        Err(DirectoryFailure::Status(404)) => Ok(None),
        Err(_) => Err(S3Error::with_message(S3ErrorCode::InternalError, "locate_object failed")),
    }
}

impl SkyProxy {
    /// Every region names its provider.
    pub open spec fn valid(&self) -> bool {
        forall|i: int| 0 <= i < self.regions@.len() ==> (#[trigger] self.regions@[i])@.contains(':')
    }

    /// `index` is the position of the last region with the given tag, if there is one.
    pub open spec fn is_store_index(&self, tag: Seq<char>, index: Option<usize>) -> bool {
        match index {
            Some(i) => {
                &&& i < self.regions@.len()
                &&& self.regions@[i as int]@ == tag
                &&& forall|j: int|
                    i < j < self.regions@.len() ==> (#[trigger] self.regions@[j])@ != tag
            },
            None => forall|j: int|
                0 <= j < self.regions@.len() ==> (#[trigger] self.regions@[j])@ != tag,
        }
    }

    /// `call` asks the store of the region to create the proxy's bucket.
    pub open spec fn is_startup_call(region: String, call: StoreCall<CreateBucketInput>) -> bool {
        &&& call.tag == region
        &&& call.request.bucket@ == skystore_bucket(region@)
        &&& call.request.location == Some(region)
    }

    /// A proxy over the stores of the given regions.
    pub fn new(regions: Vec<String>, client_from_region: String) -> (proxy: Self)
        requires
            forall|i: int| 0 <= i < regions@.len() ==> (#[trigger] regions@[i])@.contains(':'),
        ensures
            proxy == (SkyProxy { regions, client_from_region }),
            proxy.valid(),
    {
        SkyProxy { regions, client_from_region }
    }

    /// The buckets to create before the proxy can serve, one in the store of each
    /// region.
    pub fn startup_calls(&self) -> (calls: Vec<StoreCall<CreateBucketInput>>)
        requires
            self.valid(),
        ensures
            calls@.len() == self.regions@.len(),
            forall|i: int|
                0 <= i < calls@.len() ==> Self::is_startup_call(
                    self.regions@[i],
                    #[trigger] calls@[i],
                ),
    {
        let mut calls: Vec<StoreCall<CreateBucketInput>> = Vec::new();
        let mut i: usize = 0;
        while i < self.regions.len()
            invariant
                self.valid(),
                i <= self.regions@.len(),
                calls@.len() == i,
                forall|j: int|
                    0 <= j < i ==> Self::is_startup_call(self.regions@[j], #[trigger] calls@[j]),
            decreases self.regions@.len() - i,
        {
            let region: &String = &self.regions[i];
            let bucket: String = match first_colon(region.as_str()) {
                Some(colon) => {
                    let len: usize = region.as_str().unicode_len();
                    joined("skystore-", region.as_str().substring_char(colon + 1, len))
                },
                None => String::new(),
            };
            calls.push(
                StoreCall {
                    tag: region.clone(),
                    request: CreateBucketInput { bucket, location: Some(region.clone()) },
                },
            );
            i += 1;
        }
        calls
    }

    /// The position of the region with the given tag; the last one, should a region
    /// be listed more than once.
    pub fn store_index(&self, tag: &String) -> (index: Option<usize>)
        ensures
            self.is_store_index(tag@, index),
    {
        let mut i: usize = self.regions.len();
        while i > 0
            invariant
                i <= self.regions@.len(),
                forall|j: int| i <= j < self.regions@.len() ==> self.regions@[j]@ != tag@,
            decreases i,
        {
            i -= 1;
            if self.regions[i] == *tag {
                return Some(i);
            }
        }
        None
    }

    /// Asks the directory for an object.
    pub fn locate_object(&self, bucket: &String, key: &String) -> (request: LocateObjectRequest)
        ensures
            request == locate_request(*bucket, *key, self.client_from_region),
            request.bucket == *bucket,
            request.key == *key,
            request.client_from_region == self.client_from_region,
    {
        LocateObjectRequest {
            bucket: bucket.clone(),
            key: key.clone(),
            client_from_region: self.client_from_region.clone(),
        }
    }
}

} // verus!
