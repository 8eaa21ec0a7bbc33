//! Creating, deleting and listing buckets.

use crate::dto::{Bucket, CreateBucketInput, DeleteBucketInput, ListBucketsOutput, StoreCall};
use crate::error::{S3Error, S3ErrorCode};
use crate::models::{
    BucketResponse, CreateBucketIsCompleted, CreateBucketRequest, DeleteBucketIsCompleted,
    DeleteBucketRequest, DirectoryFailure, LocateBucketResponse,
};
use crate::proxy::SkyProxy;
use crate::text::{joined, starts_with};
use crate::timestamp::{
    current_time, is_date_text, parse_timestamp, rfc3339_reading, timestamp_to_string, Timestamp,
};
use vstd::prelude::*;

verus! {

/// What is left to do for one of the places of a new bucket.
#[derive(Debug, PartialEq, Eq)]
pub enum BucketWork {
    /// The bucket exists since startup: only the directory has to hear of it.
    Report(NewBucket),
    /// The store has to create the bucket first.
    Create(PendingBucket),
}

/// A place where a bucket is still to be created.
#[derive(Debug, PartialEq, Eq)]
pub struct PendingBucket {
    pub locator: LocateBucketResponse,
}

/// A place where a bucket exists, and of which the directory has to hear.
#[derive(Debug, PartialEq, Eq)]
pub struct NewBucket {
    pub locator: LocateBucketResponse,
}

/// A bucket deletion that waits for the directory to name the bucket's places.
#[derive(Debug, PartialEq, Eq)]
pub struct BucketDeletion {
    pub bucket: String,
}

/// A place where a bucket is still to be deleted.
#[derive(Debug, PartialEq, Eq)]
pub struct DoomedBucket {
    pub bucket: String,
    pub locator: LocateBucketResponse,
}

/// What to do once one of the tasks of an operation has been joined.
#[derive(Debug, PartialEq, Eq)]
pub enum JoinStep {
    /// Join the next task.
    Wait,
    /// Answer the client.
    Answer(Result<(), S3Error>),
}

/// The bucket is one of those that the proxy creates at startup.
pub open spec fn exists_since_startup(bucket: Seq<char>) -> bool {
    "skystore-"@.is_prefix_of(bucket)
}

/// What is left to do for a place of a new bucket.
pub open spec fn bucket_work(locator: LocateBucketResponse) -> BucketWork {
    if exists_since_startup(locator.bucket@) {
        BucketWork::Report(NewBucket { locator })
    } else {
        BucketWork::Create(PendingBucket { locator })
    }
}

/// How an operation goes on when joining a task gave `outcome`: a failed task ends
/// it with the failure's text behind `context`; it succeeds when no task is left.
pub open spec fn join_step(
    outcome: Option<Result<(), String>>,
    context: Seq<char>,
    step: JoinStep,
) -> bool {
    match outcome {
        None => step matches JoinStep::Answer(Ok(_)),
        Some(Ok(_)) => step is Wait,
        Some(Err(failure)) => step matches JoinStep::Answer(Err(error)) && error.says(
            S3ErrorCode::InternalError,
            context + failure@,
        ),
    }
}

/// Every creation date in a listing can be read.
pub open spec fn dates_readable(listing: Seq<BucketResponse>) -> bool {
    forall|i: int|
        0 <= i < listing.len() ==> rfc3339_reading((#[trigger] listing[i]).creation_date@) is Some
}

/// What a client sees of a bucket that was created at the given time.
pub open spec fn bucket_entry(listed: BucketResponse, created: Timestamp) -> Bucket {
    Bucket { creation_date: Some(created), name: Some(listed.bucket) }
}

/// What a client sees of a listing: one entry per bucket, in the listing's order.
pub open spec fn bucket_entries(listing: Seq<BucketResponse>) -> Seq<Bucket> {
    listing.map_values(
        |listed: BucketResponse|
            bucket_entry(listed, rfc3339_reading(listed.creation_date@)->Some_0),
    )
}

/// The answer to a task that was joined.
fn joined_task(outcome: Option<Result<(), String>>, context: &str) -> (step: JoinStep)
    ensures
        join_step(outcome, context@, step),
{
    match outcome {
        None => JoinStep::Answer(Ok(())),
        Some(Ok(_)) => JoinStep::Wait,
        Some(Err(failure)) => JoinStep::Answer(
            Err(
                S3Error::with_message(
                    S3ErrorCode::InternalError,
                    joined(context, failure.as_str()).as_str(),
                ),
            ),
        ),
    }
}

/// The work that the places of a new bucket need, in the directory's order.
pub fn create_bucket_located(locators: Vec<LocateBucketResponse>) -> (work: Vec<BucketWork>)
    ensures
        work@ == locators@.map_values(|locator: LocateBucketResponse| bucket_work(locator)),
{
    let ghost places = locators@;
    let mut work: Vec<BucketWork> = Vec::new();
    for locator in it: locators
        invariant
            it.seq() == places,
            work@.len() == it.index(),
            forall|j: int| 0 <= j < it.index() ==> #[trigger] work@[j] == bucket_work(places[j]),
    {
        if starts_with(locator.bucket.as_str(), "skystore-") {
            work.push(BucketWork::Report(NewBucket { locator }));
        } else {
            work.push(BucketWork::Create(PendingBucket { locator }));
        }
    }
    proof {
        assert(work@ =~= places.map_values(|locator: LocateBucketResponse| bucket_work(locator)));
    }
    work
}

/// The next step of a bucket's creation, once joining a task gave `outcome`.
pub fn create_bucket_joined(outcome: Option<Result<(), String>>) -> (step: JoinStep)
    ensures
        join_step(outcome, "Error creating bucket: "@, step),
{
    joined_task(outcome, "Error creating bucket: ")
}

/// The next step of a bucket's deletion, once joining a task gave `outcome`.
pub fn delete_bucket_joined(outcome: Option<Result<(), String>>) -> (step: JoinStep)
    ensures
        join_step(outcome, "Error deleting bucket: "@, step),
{
    joined_task(outcome, "Error deleting bucket: ")
}

/// The client's view of one listed bucket.
pub fn listed_bucket(listed: BucketResponse, created: Timestamp) -> (bucket: Bucket)
    ensures
        bucket == bucket_entry(listed, created),
{
    Bucket { creation_date: Some(created), name: Some(listed.bucket) }
}

/// The answer to a client that asked for the buckets, from the directory's reply.
pub fn list_buckets_replied(reply: Result<Vec<BucketResponse>, DirectoryFailure>) -> (answer:
    Result<ListBucketsOutput, S3Error>)
    requires
        reply matches Ok(listing) ==> dates_readable(listing@),
    ensures
        match reply {
            Ok(listing) => answer matches Ok(output) && output.buckets matches Some(buckets)
                && buckets@ == bucket_entries(listing@),
            Err(_) => answer matches Err(error) && error.says(
                S3ErrorCode::InternalError,
                "list_buckets failed"@,
            ),
        },
{
    match reply {
        Ok(listing) => {
            let ghost listed = listing@;
            let mut buckets: Vec<Bucket> = Vec::new();
            for bucket in it: listing
                invariant
                    it.seq() == listed,
                    dates_readable(listed),
                    buckets@.len() == it.index(),
                    forall|j: int|
                        0 <= j < it.index() ==> #[trigger] buckets@[j] == bucket_entry(
                            listed[j],
                            rfc3339_reading(listed[j].creation_date@)->Some_0,
                        ),
            {
                if let Some(created) = parse_timestamp(bucket.creation_date.as_str()) {
                    buckets.push(listed_bucket(bucket, created));
                }
            }
            proof {
                assert(buckets@ =~= bucket_entries(listed));
            }
            Ok(ListBucketsOutput { buckets: Some(buckets) })
        },
        Err(_) => Err(S3Error::with_message(S3ErrorCode::InternalError, "list_buckets failed")),
    }
}

/// The answer to a client that asked for the buckets; `None` if the directory's
/// reply holds a creation date that cannot be read.
pub fn list_buckets_checked(reply: Result<Vec<BucketResponse>, DirectoryFailure>) -> (answer:
    Option<Result<ListBucketsOutput, S3Error>>)
    ensures
        match reply {
            Ok(listing) => {
                &&& answer is Some == dates_readable(listing@)
                &&& answer matches Some(given) ==> (given matches Ok(output)
                    && output.buckets matches Some(buckets) && buckets@ == bucket_entries(
                    listing@,
                ))
            },
            Err(_) => answer matches Some(Err(error)) && error.says(
                S3ErrorCode::InternalError,
                "list_buckets failed"@,
            ),
        },
{
    if let Ok(listing) = &reply {
        let mut i: usize = 0;
        while i < listing.len()
            invariant
                i <= listing@.len(),
                reply == Ok::<Vec<BucketResponse>, DirectoryFailure>(*listing),
                forall|j: int|
                    0 <= j < i ==> rfc3339_reading((#[trigger] listing@[j]).creation_date@) is Some,
            decreases listing@.len() - i,
        {
            if parse_timestamp(listing[i].creation_date.as_str()).is_none() {
                return None;
            }
            i += 1;
        }
    }
    Some(list_buckets_replied(reply))
}

impl PendingBucket {
    /// Asks the store to create the bucket.
    pub fn call(&self) -> (call: StoreCall<CreateBucketInput>)
        ensures
            call == (StoreCall {
                tag: self.locator.tag,
                request: CreateBucketInput { bucket: self.locator.bucket, location: None },
            }),
    {
        StoreCall {
            tag: self.locator.tag.clone(),
            request: CreateBucketInput { bucket: self.locator.bucket.clone(), location: None },
        }
    }

    /// The store has created the bucket.
    pub fn created(self) -> (bucket: NewBucket)
        ensures
            bucket.locator == self.locator,
    {
        NewBucket { locator: self.locator }
    }
}

impl NewBucket {
    /// Tells the directory that the bucket exists since the given time.
    pub fn report_at(self, now: Timestamp) -> (report: CreateBucketIsCompleted)
        requires
            now.valid(),
        ensures
            report.id == self.locator.id,
            is_date_text(report.creation_date@, now),
    {
        CreateBucketIsCompleted { id: self.locator.id, creation_date: timestamp_to_string(now) }
    }

    /// Tells the directory that the bucket exists since now.
    pub fn report_now(self) -> (report: CreateBucketIsCompleted)
        ensures
            report.id == self.locator.id,
            exists|now: Timestamp|
                now.valid() && now.offset_seconds == 0 && #[trigger] is_date_text(
                    report.creation_date@,
                    now,
                ),
    {
        let now: Timestamp = current_time();
        self.report_at(now)
    }
}

impl BucketDeletion {
    /// The places where the bucket is to be deleted, in the directory's order.
    pub fn located(self, locators: Vec<LocateBucketResponse>) -> (places: Vec<DoomedBucket>)
        ensures
            places@ == locators@.map_values(
                |locator: LocateBucketResponse| DoomedBucket { bucket: self.bucket, locator },
            ),
    {
        let ghost named = locators@;
        let mut places: Vec<DoomedBucket> = Vec::new();
        for locator in it: locators
            invariant
                it.seq() == named,
                places@.len() == it.index(),
                forall|j: int|
                    0 <= j < it.index() ==> #[trigger] places@[j] == (DoomedBucket {
                        bucket: self.bucket,
                        locator: named[j],
                    }),
        {
            places.push(DoomedBucket { bucket: self.bucket.clone(), locator });
        }
        proof {
            assert(places@ =~= named.map_values(
                |locator: LocateBucketResponse| DoomedBucket { bucket: self.bucket, locator },
            ));
        }
        places
    }
}

impl DoomedBucket {
    /// Asks the store to delete the bucket of the name that the client sent.
    pub fn call(&self) -> (call: StoreCall<DeleteBucketInput>)
        ensures
            call == (StoreCall {
                tag: self.locator.tag,
                request: DeleteBucketInput { bucket: self.bucket },
            }),
    {
        StoreCall {
            tag: self.locator.tag.clone(),
            request: DeleteBucketInput { bucket: self.bucket.clone() },
        }
    }

    /// The store has deleted the bucket: tells the directory.
    pub fn deleted(self) -> (report: DeleteBucketIsCompleted)
        ensures
            report.id == self.locator.id,
    {
        DeleteBucketIsCompleted { id: self.locator.id }
    }
}

impl SkyProxy {
    /// Announces a new bucket to the directory.
    pub fn create_bucket(&self, bucket: &String) -> (request: CreateBucketRequest)
        ensures
            request == (CreateBucketRequest {
                bucket: *bucket,
                client_from_region: self.client_from_region,
                warmup_regions: None,
            }),
    {
        CreateBucketRequest {
            bucket: bucket.clone(),
            client_from_region: self.client_from_region.clone(),
            warmup_regions: None,
        }
    }

    /// Announces the deletion of a bucket to the directory.
    pub fn delete_bucket(&self, bucket: &String) -> (opened: (BucketDeletion, DeleteBucketRequest))
        ensures
            opened.0 == (BucketDeletion { bucket: *bucket }),
            opened.1 == (DeleteBucketRequest { bucket: *bucket }),
    {
        (BucketDeletion { bucket: bucket.clone() }, DeleteBucketRequest { bucket: bucket.clone() })
    }
}

} // verus!
