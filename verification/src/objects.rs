//! Reading, writing and copying objects.

use crate::dto::{
    CopyObjectInput, CopyObjectOutput, CopySource, HeadObjectOutput, ObjectPlace, PutObjectOutput,
    StoreCall,
};
use crate::error::{S3Error, S3ErrorCode};
use crate::models::{
    LocateObjectRequest, LocateObjectResponse, LocateReply, PatchUploadIsCompleted,
    StartUploadRequest, StartUploadResponse,
};
use crate::proxy::{found, is_locate_error, locate_failed, locate_request, located, SkyProxy};
use crate::timestamp::{
    is_date_text, parse_timestamp, rfc3339_reading, timestamp_to_string, Timestamp,
};
use vstd::prelude::*;

verus! {

/// A length as the directory stores it: negative lengths wrap around to 2^63 and
/// above.
pub open spec fn unsigned_size(length: i64) -> int {
    if length >= 0 {
        length as int
    } else {
        length + 0x1_0000_0000_0000_0000
    }
}

/// The request to the store that holds the copy, naming the copy's place.
pub open spec fn call_at(locator: LocateObjectResponse) -> StoreCall<ObjectPlace> {
    StoreCall {
        tag: locator.tag,
        request: ObjectPlace { bucket: locator.bucket, key: locator.key },
    }
}

/// `step` sends a client's request to the copy that the directory named; without a
/// copy it is the error with the given message.
pub open spec fn routes(
    reply: LocateReply,
    missing: Seq<char>,
    step: Result<StoreCall<ObjectPlace>, S3Error>,
) -> bool {
    match step {
        Ok(call) => found(reply) matches Some(locator) && call == call_at(locator),
        Err(error) => if locate_failed(reply) {
            is_locate_error(error)
        } else {
            found(reply) is None && error.says(S3ErrorCode::NoSuchKey, missing)
        },
    }
}

/// The report that a store's copy is complete.
pub open spec fn is_completion(
    report: PatchUploadIsCompleted,
    id: i32,
    e_tag: String,
    head: HeadObjectOutput,
) -> bool {
    &&& report.id == id
    &&& report.etag == e_tag
    &&& report.size == unsigned_size(head.content_length)
    &&& is_date_text(report.last_modified@, head.last_modified)
}

/// An uploaded copy that a store has under the given e-tag.
pub open spec fn stored_copy(locator: LocateObjectResponse, e_tag: String) -> StoredCopy {
    StoredCopy { id: locator.id, e_tag }
}

/// The e-tag that the directory hears of an uploaded copy: the one that the store
/// measures, or the one of the upload if the store measures none.
pub open spec fn reported_e_tag(stored: StoredCopy, head_e_tag: Option<String>) -> String {
    match head_e_tag {
        Some(e_tag) => e_tag,
        None => stored.e_tag,
    }
}

/// A copy that a store has made under the given e-tag.
pub open spec fn made_copy(locator: LocateObjectResponse, e_tag: String) -> MadeCopy {
    MadeCopy { id: locator.id, e_tag }
}

/// The request that makes a copy.
pub open spec fn copy_call(task: CopyTask) -> StoreCall<CopyObjectInput> {
    StoreCall {
        tag: task.locator.tag,
        request: CopyObjectInput {
            src_bucket: task.src_bucket,
            src_key: task.src_key,
            bucket: task.locator.bucket,
            key: task.locator.key,
        },
    }
}

/// The e-tags once joining a task gave `outcome`, and whether to join another: only
/// a task that is done adds its e-tag, and only after one is another joined.
pub open spec fn after_join(
    e_tags: Seq<String>,
    outcome: Option<Result<String, String>>,
) -> (Seq<String>, bool) {
    match outcome {
        Some(Ok(e_tag)) => (e_tags.push(e_tag), true),
        _ => (e_tags, false),
    }
}

/// The e-tags of the tasks that were joined before the first failure, in the order
/// of joining.
pub open spec fn joined_before_failure(outcomes: Seq<Result<String, String>>) -> Seq<String>
    decreases outcomes.len(),
{
    if outcomes.len() == 0 {
        Seq::empty()
    } else {
        match outcomes[0] {
            Ok(e_tag) => seq![e_tag] + joined_before_failure(outcomes.drop_first()),
            Err(_) => Seq::empty(),
        }
    }
}

/// The last element, if there is one.
pub open spec fn last_of(e_tags: Seq<String>) -> Option<String> {
    if e_tags.len() == 0 {
        None
    } else {
        Some(e_tags.last())
    }
}

/// An upload that waits for the directory to say whether the object exists.
#[derive(Debug, PartialEq, Eq)]
pub struct PutLocating {
    pub bucket: String,
    pub key: String,
    pub client_from_region: String,
}

/// An upload that waits for the directory to name the places of the copies.
#[derive(Debug, PartialEq, Eq)]
pub struct PutStarting {}

/// How an upload goes on once the directory has looked the object up.
#[derive(Debug, PartialEq, Eq)]
pub enum PutStep {
    Answer(Result<PutObjectOutput, S3Error>),
    Start(PutStarting, StartUploadRequest),
}

/// A copy that the client's data has to be written to.
#[derive(Debug, PartialEq, Eq)]
pub struct UploadTask {
    pub locator: LocateObjectResponse,
}

/// An uploaded copy that a store has, and that has to be measured and reported.
#[derive(Debug, PartialEq, Eq)]
pub struct StoredCopy {
    pub id: i32,
    /// The e-tag in the store's answer to the upload.
    pub e_tag: String,
}

/// A copy that a store has made from another object, and that has to be measured and
/// reported.
#[derive(Debug, PartialEq, Eq)]
pub struct MadeCopy {
    pub id: i32,
    /// The e-tag in the store's answer to the request for the copy.
    pub e_tag: String,
}

/// A copy of which the directory is being told.
#[derive(Debug, PartialEq, Eq)]
pub struct ReportedCopy {
    pub e_tag: String,
}

/// The e-tags of the tasks joined so far.
#[derive(Debug, PartialEq, Eq)]
pub struct JoinedUploads {
    pub e_tags: Vec<String>,
}

/// A copy operation that waits for the directory to look its source up.
#[derive(Debug, PartialEq, Eq)]
pub struct CopyLocatingSource {
    pub src_bucket: String,
    pub src_key: String,
    pub bucket: String,
    pub key: String,
    pub client_from_region: String,
}

/// A copy operation that waits for the directory to look its destination up.
#[derive(Debug, PartialEq, Eq)]
pub struct CopyLocatingDestination {
    pub src_bucket: String,
    pub src_key: String,
    pub src_exists: bool,
    pub bucket: String,
    pub key: String,
    pub client_from_region: String,
}

/// A copy operation that waits for the directory to name the places of the copies.
#[derive(Debug, PartialEq, Eq)]
pub struct CopyStarting {}

/// How a copy operation goes on once the directory has looked both objects up.
#[derive(Debug, PartialEq, Eq)]
pub enum CopyStep {
    Answer(Result<CopyObjectOutput, S3Error>),
    Start(CopyStarting, StartUploadRequest),
}

/// A copy that a store has to make from an object that it has.
#[derive(Debug, PartialEq, Eq)]
pub struct CopyTask {
    pub locator: LocateObjectResponse,
    pub src_bucket: String,
    pub src_key: String,
}

/// The tasks of an upload: one per copy, in the directory's order.
pub open spec fn upload_tasks(locators: Seq<LocateObjectResponse>) -> Seq<UploadTask> {
    locators.map_values(|locator: LocateObjectResponse| UploadTask { locator })
}

/// How many copies the directory wants of an object and has named the source for.
pub open spec fn copy_count(response: StartUploadResponse) -> nat {
    let named = if response.copy_src_buckets@.len() < response.copy_src_keys@.len() {
        response.copy_src_buckets@.len()
    } else {
        response.copy_src_keys@.len()
    };
    if response.locators@.len() < named {
        response.locators@.len()
    } else {
        named
    }
}

/// The tasks of a copy operation: the copies and their sources, paired up in the
/// directory's order as far as both go.
pub open spec fn copy_tasks(response: StartUploadResponse) -> Seq<CopyTask> {
    Seq::new(
        copy_count(response),
        |i: int|
            CopyTask {
                locator: response.locators@[i],
                src_bucket: response.copy_src_buckets@[i],
                src_key: response.copy_src_keys@[i],
            },
    )
}

/// The directory's date of a copy can be read.
pub open spec fn date_readable(locator: LocateObjectResponse) -> bool {
    locator.last_modified matches Some(date) && rfc3339_reading(date@) is Some
}

/// A length as the directory stores it.
fn to_unsigned_size(length: i64) -> (size: u64)
    ensures
        size == unsigned_size(length),
{
    proof {
        assert(length >= 0 ==> (length as u64) == length) by (bit_vector);
        assert(length < 0 ==> (length as u64) == length + 0x1_0000_0000_0000_0000) by (bit_vector);
    }
    #[verifier::truncate]
    (length as u64)
}

/// The request to the store that holds the copy.
fn to_call_at(locator: &LocateObjectResponse) -> (call: StoreCall<ObjectPlace>)
    ensures
        call == call_at(*locator),
{
    StoreCall {
        tag: locator.tag.clone(),
        request: ObjectPlace { bucket: locator.bucket.clone(), key: locator.key.clone() },
    }
}

/// Where a client's request goes, from the directory's reply.
fn to_route(reply: LocateReply, missing: &str) -> (step: Result<StoreCall<ObjectPlace>, S3Error>)
    ensures
        routes(reply, missing@, step),
        reply matches Ok(locator) ==> (step matches Ok(call) && call.tag == locator.tag
            && call.request.bucket == locator.bucket && call.request.key == locator.key),
{
    match located(reply) {
        Ok(Some(locator)) => Ok(to_call_at(&locator)),
        Ok(None) => Err(S3Error::with_message(S3ErrorCode::NoSuchKey, missing)),
        Err(error) => Err(error),
    }
}

/// The report that a store's copy is complete.
pub fn completion(id: i32, e_tag: &String, head: HeadObjectOutput) -> (report:
    PatchUploadIsCompleted)
    requires
        head.last_modified.valid(),
    ensures
        is_completion(report, id, *e_tag, head),
{
    PatchUploadIsCompleted {
        id,
        size: to_unsigned_size(head.content_length),
        etag: e_tag.clone(),
        last_modified: timestamp_to_string(head.last_modified),
    }
}

/// Where to measure an object for a client, from the directory's reply.
pub fn head_object_located(reply: LocateReply) -> (step: Result<StoreCall<ObjectPlace>, S3Error>)
    ensures
        routes(reply, "No such key"@, step),
        reply matches Ok(locator) ==> (step matches Ok(call) && call.tag == locator.tag
            && call.request.bucket == locator.bucket && call.request.key == locator.key),
{
    to_route(reply, "No such key")
}

/// The answer to a client that asked for an object's measurements: the store's
/// response as it is, or an error.
pub fn head_object_replied<R, E>(reply: Result<R, E>) -> (answer: Result<R, S3Error>)
    ensures
        match reply {
            Ok(response) => answer == Ok::<R, S3Error>(response),
            Err(_) => answer matches Err(error) && error.says(
                S3ErrorCode::InternalError,
                "head_object failed"@,
            ),
        },
{
    match reply {
        Ok(response) => Ok(response),
        Err(_) => Err(S3Error::with_message(S3ErrorCode::InternalError, "head_object failed")),
    }
}

/// Where to read an object for a client, from the directory's reply. The store's
/// own answer is the client's.
pub fn get_object_located(reply: LocateReply) -> (step: Result<StoreCall<ObjectPlace>, S3Error>)
    ensures
        routes(reply, "Object not found"@, step),
        reply matches Ok(locator) ==> (step matches Ok(call) && call.tag == locator.tag
            && call.request.bucket == locator.bucket && call.request.key == locator.key),
{
    to_route(reply, "Object not found")
}

/// The answer to a client whose copy exists already, with the given date.
pub fn existing_copy(locator: LocateObjectResponse, modified: Timestamp) -> (output:
    CopyObjectOutput)
    ensures
        output == (CopyObjectOutput { e_tag: locator.etag, last_modified: Some(modified) }),
{
    CopyObjectOutput { e_tag: locator.etag, last_modified: Some(modified) }
}

impl PutLocating {
    /// The request that starts the upload.
    pub open spec fn start_request(&self) -> StartUploadRequest {
        StartUploadRequest {
            bucket: self.bucket,
            key: self.key,
            client_from_region: self.client_from_region,
            is_multipart: false,
            copy_src_bucket: None,
            copy_src_key: None,
        }
    }

    /// `step` is how the upload goes on. An object that exists is not written again.
    pub open spec fn goes_on(&self, reply: LocateReply, step: PutStep) -> bool {
        match step {
            PutStep::Answer(Ok(output)) => found(reply) matches Some(locator) && output.e_tag
                == locator.etag,
            PutStep::Answer(Err(error)) => locate_failed(reply) && is_locate_error(error),
            PutStep::Start(_, request) => !locate_failed(reply) && found(reply) is None && request
                == self.start_request(),
        }
    }

    /// How the upload goes on, from the directory's reply.
    pub fn located(self, reply: LocateReply) -> (step: PutStep)
        ensures
            self.goes_on(reply, step),
            reply matches Ok(locator) ==> (step matches PutStep::Answer(Ok(output))
                && output.e_tag == locator.etag),
    {
        match located(reply) {
            Ok(Some(locator)) => PutStep::Answer(Ok(PutObjectOutput { e_tag: locator.etag })),
            Ok(None) => PutStep::Start(
                PutStarting {  },
                StartUploadRequest {
                    bucket: self.bucket,
                    key: self.key,
                    client_from_region: self.client_from_region,
                    is_multipart: false,
                    copy_src_bucket: None,
                    copy_src_key: None,
                },
            ),
            Err(error) => PutStep::Answer(Err(error)),
        }
    }
}

impl PutStarting {
    /// The tasks that write the copies.
    pub fn started(self, response: StartUploadResponse) -> (started: (
        JoinedUploads,
        Vec<UploadTask>,
    ))
        ensures
            started.0.e_tags@ == Seq::<String>::empty(),
            started.1@ == upload_tasks(response.locators@),
            started.1@.len() == response.locators@.len(),
    {
        let ghost locators = response.locators@;
        let mut tasks: Vec<UploadTask> = Vec::new();
        for locator in it: response.locators
            invariant
                it.seq() == locators,
                tasks@.len() == it.index(),
                forall|j: int|
                    0 <= j < it.index() ==> #[trigger] tasks@[j] == (UploadTask {
                        locator: locators[j],
                    }),
        {
            tasks.push(UploadTask { locator });
        }
        proof {
            assert(tasks@ =~= upload_tasks(locators));
        }
        (JoinedUploads { e_tags: Vec::new() }, tasks)
    }
}

impl UploadTask {
    /// Writes the client's data to the copy's place.
    pub fn call(&self) -> (call: StoreCall<ObjectPlace>)
        ensures
            call == call_at(self.locator),
    {
        to_call_at(&self.locator)
    }

    /// The store has the copy and gave it an e-tag: measures it.
    pub fn stored(self, e_tag: String) -> (next: (StoredCopy, StoreCall<ObjectPlace>))
        ensures
            next.0 == stored_copy(self.locator, e_tag),
            next.1 == call_at(self.locator),
    {
        (StoredCopy { id: self.locator.id, e_tag }, to_call_at(&self.locator))
    }
}

impl StoredCopy {
    /// The store has measured the copy: tells the directory. The size, the e-tag and the
    /// date are those that the store measures; a store that measures no e-tag is taken at
    /// the one that it gave when it took the data. This is the one that the client hears
    /// of in any case.
    pub fn measured(self, head: HeadObjectOutput, head_e_tag: Option<String>) -> (next: (
        ReportedCopy,
        PatchUploadIsCompleted,
    ))
        requires
            head.last_modified.valid(),
        ensures
            next.0.e_tag == self.e_tag,
            is_completion(next.1, self.id, reported_e_tag(self, head_e_tag), head),
    {
        let report: PatchUploadIsCompleted = match &head_e_tag {
            Some(e_tag) => completion(self.id, e_tag, head),
            None => completion(self.id, &self.e_tag, head),
        };
        (ReportedCopy { e_tag: self.e_tag }, report)
    }
}

impl MadeCopy {
    /// The store has measured the copy: tells the directory, with the e-tag that the
    /// store gave when it made the copy.
    pub fn measured(self, head: HeadObjectOutput) -> (next: (ReportedCopy, PatchUploadIsCompleted))
        requires
            head.last_modified.valid(),
        ensures
            next.0.e_tag == self.e_tag,
            is_completion(next.1, self.id, self.e_tag, head),
    {
        let report: PatchUploadIsCompleted = completion(self.id, &self.e_tag, head);
        (ReportedCopy { e_tag: self.e_tag }, report)
    }
}

impl ReportedCopy {
    /// The directory knows of the copy: the task is done, and this is its e-tag.
    pub fn reported(self) -> (e_tag: String)
        ensures
            e_tag == self.e_tag,
    {
        self.e_tag
    }
}

impl JoinedUploads {
    /// Takes what joining a task gave: the e-tag of a task that is done, the text of
    /// a failure, or nothing if no task is left. Tells whether to join another.
    pub fn joined(&mut self, outcome: Option<Result<String, String>>) -> (go_on: bool)
        ensures
            (final(self).e_tags@, go_on) == after_join(old(self).e_tags@, outcome),
    {
        match outcome {
            Some(Ok(e_tag)) => {
                self.e_tags.push(e_tag);
                true
            },
            _ => false,
        }
    }

    /// The answer to the client of an upload.
    pub fn put_answer(self) -> (output: PutObjectOutput)
        ensures
            output.e_tag == last_of(self.e_tags@),
    {
        let mut e_tags: Vec<String> = self.e_tags;
        PutObjectOutput { e_tag: e_tags.pop() }
    }

    /// The answer to the client of a copy operation.
    pub fn copy_answer(self) -> (output: CopyObjectOutput)
        ensures
            output.e_tag == last_of(self.e_tags@),
            output.last_modified is None,
    {
        let mut e_tags: Vec<String> = self.e_tags;
        CopyObjectOutput { e_tag: e_tags.pop(), last_modified: None }
    }
}

impl CopyLocatingSource {
    /// How the operation goes on, from the directory's reply for the source: it
    /// looks up the destination, whether or not the source exists.
    pub fn source_located(self, reply: LocateReply) -> (step: Result<
        (CopyLocatingDestination, LocateObjectRequest),
        S3Error,
    >)
        ensures
            match step {
                Ok((state, request)) => {
                    &&& !locate_failed(reply)
                    &&& state == (CopyLocatingDestination {
                        src_bucket: self.src_bucket,
                        src_key: self.src_key,
                        src_exists: found(reply) is Some,
                        bucket: self.bucket,
                        key: self.key,
                        client_from_region: self.client_from_region,
                    })
                    &&& request == locate_request(self.bucket, self.key, self.client_from_region)
                },
                Err(error) => locate_failed(reply) && is_locate_error(error),
            },
    {
        match located(reply) {
            Ok(locator) => {
                let request: LocateObjectRequest = LocateObjectRequest {
                    bucket: self.bucket.clone(),
                    key: self.key.clone(),
                    client_from_region: self.client_from_region.clone(),
                };
                Ok(
                    (
                        CopyLocatingDestination {
                            src_bucket: self.src_bucket,
                            src_key: self.src_key,
                            src_exists: locator.is_some(),
                            bucket: self.bucket,
                            key: self.key,
                            client_from_region: self.client_from_region,
                        },
                        request,
                    ),
                )
            },
            Err(error) => Err(error),
        }
    }
}

impl CopyLocatingDestination {
    /// The request that starts the copy.
    pub open spec fn start_request(&self) -> StartUploadRequest {
        StartUploadRequest {
            bucket: self.bucket,
            key: self.key,
            client_from_region: self.client_from_region,
            is_multipart: false,
            copy_src_bucket: Some(self.src_bucket),
            copy_src_key: Some(self.src_key),
        }
    }

    /// The reply says that the copy exists already: its date is about to be read.
    pub open spec fn needs_date(&self, reply: LocateReply) -> bool {
        self.src_exists && found(reply) is Some
    }

    /// `step` is how the operation goes on. A source that does not exist is an error;
    /// a destination that exists is not written again.
    pub open spec fn goes_on(&self, reply: LocateReply, step: CopyStep) -> bool {
        match step {
            CopyStep::Answer(Err(error)) => if locate_failed(reply) {
                is_locate_error(error)
            } else {
                !self.src_exists && error.says(S3ErrorCode::NoSuchKey, "Source object not found"@)
            },
            CopyStep::Answer(Ok(output)) => self.src_exists && (found(reply) matches Some(locator)
                && output.e_tag == locator.etag && output.last_modified == rfc3339_reading(
                locator.last_modified->Some_0@,
            )),
            CopyStep::Start(_, request) => !locate_failed(reply) && self.src_exists && found(reply)
                is None && request == self.start_request(),
        }
    }

    /// How the operation goes on, from the directory's reply for the destination.
    pub fn destination_located(self, reply: LocateReply) -> (step: CopyStep)
        requires
            self.needs_date(reply) ==> date_readable(found(reply)->Some_0),
        ensures
            self.goes_on(reply, step),
    {
        match located(reply) {
            Err(error) => CopyStep::Answer(Err(error)),
            Ok(destination) => {
                if !self.src_exists {
                    return CopyStep::Answer(
                        Err(
                            S3Error::with_message(
                                S3ErrorCode::NoSuchKey,
                                "Source object not found",
                            ),
                        ),
                    );
                }
                match destination {
                    Some(locator) => {
                        let date: Option<Timestamp> = match &locator.last_modified {
                            Some(text) => parse_timestamp(text.as_str()),
                            None => None,
                        };
                        CopyStep::Answer(Ok(existing_copy(locator, date.unwrap())))
                    },
                    None => CopyStep::Start(
                        CopyStarting {  },
                        StartUploadRequest {
                            bucket: self.bucket,
                            key: self.key,
                            client_from_region: self.client_from_region,
                            is_multipart: false,
                            copy_src_bucket: Some(self.src_bucket),
                            copy_src_key: Some(self.src_key),
                        },
                    ),
                }
            },
        }
    }

    /// How the operation goes on; `None` if the copy exists already and the
    /// directory's date of it is missing or cannot be read.
    pub fn destination_checked(self, reply: LocateReply) -> (step: Option<CopyStep>)
        ensures
            step is None == (self.needs_date(reply) && !date_readable(found(reply)->Some_0)),
            step matches Some(taken) ==> self.goes_on(reply, taken),
    {
        if self.src_exists {
            if let Ok(locator) = &reply {
                let readable: bool = match &locator.last_modified {
                    Some(text) => parse_timestamp(text.as_str()).is_some(),
                    None => false,
                };
                if !readable {
                    return None;
                }
            }
        }
        Some(self.destination_located(reply))
    }
}

impl CopyStarting {
    /// The tasks that make the copies.
    pub fn started(self, response: StartUploadResponse) -> (started: (
        JoinedUploads,
        Vec<CopyTask>,
    ))
        ensures
            started.0.e_tags@ == Seq::<String>::empty(),
            started.1@ == copy_tasks(response),
            response.copy_src_buckets@.len() == response.locators@.len()
                && response.copy_src_keys@.len() == response.locators@.len() ==> started.1@.len()
                == response.locators@.len(),
    {
        let src_buckets: &Vec<String> = &response.copy_src_buckets;
        let src_keys: &Vec<String> = &response.copy_src_keys;
        let ghost locators = response.locators@;
        let mut tasks: Vec<CopyTask> = Vec::new();
        for locator in it: response.locators
            invariant
                it.seq() == locators,
                response.locators@ == locators,
                *src_buckets == response.copy_src_buckets,
                *src_keys == response.copy_src_keys,
                tasks@.len() == if it.index() < copy_count(response) {
                    it.index() as int
                } else {
                    copy_count(response) as int
                },
                forall|j: int|
                    0 <= j < tasks@.len() ==> #[trigger] tasks@[j] == copy_tasks(response)[j],
        {
            let i: usize = tasks.len();
            if i < src_buckets.len() && i < src_keys.len() {
                tasks.push(
                    CopyTask {
                        locator,
                        src_bucket: src_buckets[i].clone(),
                        src_key: src_keys[i].clone(),
                    },
                );
            }
        }
        proof {
            assert(tasks@ =~= copy_tasks(response));
        }
        (JoinedUploads { e_tags: Vec::new() }, tasks)
    }
}

impl CopyTask {
    /// Makes the copy.
    pub fn call(&self) -> (call: StoreCall<CopyObjectInput>)
        ensures
            call == copy_call(*self),
    {
        StoreCall {
            tag: self.locator.tag.clone(),
            request: CopyObjectInput {
                src_bucket: self.src_bucket.clone(),
                src_key: self.src_key.clone(),
                bucket: self.locator.bucket.clone(),
                key: self.locator.key.clone(),
            },
        }
    }

    /// The store has the copy and gave it an e-tag: measures it.
    pub fn stored(self, e_tag: String) -> (next: (MadeCopy, StoreCall<ObjectPlace>))
        ensures
            next.0 == made_copy(self.locator, e_tag),
            next.1 == call_at(self.locator),
    {
        (MadeCopy { id: self.locator.id, e_tag }, to_call_at(&self.locator))
    }
}

impl SkyProxy {
    /// Asks the directory for an object that a client wants measured.
    pub fn head_object(&self, bucket: &String, key: &String) -> (request: LocateObjectRequest)
        ensures
            request == locate_request(*bucket, *key, self.client_from_region),
    {
        self.locate_object(bucket, key)
    }

    /// Asks the directory for an object that a client wants to read.
    pub fn get_object(&self, bucket: &String, key: &String) -> (request: LocateObjectRequest)
        ensures
            request == locate_request(*bucket, *key, self.client_from_region),
    {
        self.locate_object(bucket, key)
    }

    /// Asks the directory for an object that a client wants to write.
    pub fn put_object(&self, bucket: &String, key: &String) -> (opened: (
        PutLocating,
        LocateObjectRequest,
    ))
        ensures
            opened.0 == (PutLocating {
                bucket: *bucket,
                key: *key,
                client_from_region: self.client_from_region,
            }),
            opened.1 == locate_request(*bucket, *key, self.client_from_region),
    {
        (
            PutLocating {
                bucket: bucket.clone(),
                key: key.clone(),
                client_from_region: self.client_from_region.clone(),
            },
            self.locate_object(bucket, key),
        )
    }

    /// Asks the directory for the source of a copy.
    pub fn copy_object(&self, source: &CopySource, bucket: &String, key: &String) -> (opened: (
        CopyLocatingSource,
        LocateObjectRequest,
    ))
        requires
            source is Bucket,
        ensures
            opened.0 == (CopyLocatingSource {
                src_bucket: source->Bucket_bucket,
                src_key: source->Bucket_key,
                bucket: *bucket,
                key: *key,
                client_from_region: self.client_from_region,
            }),
            opened.1 == locate_request(
                source->Bucket_bucket,
                source->Bucket_key,
                self.client_from_region,
            ),
    {
        let ObjectPlace { bucket: src_bucket, key: src_key } = source.place();
        let request: LocateObjectRequest = self.locate_object(&src_bucket, &src_key);
        (
            CopyLocatingSource {
                src_bucket,
                src_key,
                bucket: bucket.clone(),
                key: key.clone(),
                client_from_region: self.client_from_region.clone(),
            },
            request,
        )
    }
}

} // verus!
