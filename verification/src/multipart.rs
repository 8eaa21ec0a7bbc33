//! Multipart uploads: starting one, filling it part by part, completing it.

use crate::dto::{
    CompleteMultipartUploadInput, CompleteMultipartUploadOutput, CompletedPart, CopySource,
    CreateMultipartUploadOutput, HeadObjectOutput, ObjectPlace, PartPlace, StoreCall,
    UploadPartCopyInput, UploadPartOutput,
};
use crate::error::{S3Error, S3ErrorCode};
use crate::models::{
    ContinueUploadRequest, ContinueUploadResponse, HeadObjectRequest, HeadObjectResponse,
    ListPartsRequest, LocateObjectRequest, LocateObjectResponse, LocateReply, LogicalPartResponse,
    PatchUploadIsCompleted, PatchUploadMultipartUploadId, PatchUploadMultipartUploadPart,
    StartUploadRequest, StartUploadResponse,
};
use crate::objects::{completion, is_completion};
use crate::parts::{
    completed_parts, go_with, is_stable_sort, numbers_of, ordered_parts, part_numbers,
    parts_go_with,
};
use crate::proxy::{found, is_locate_error, locate_failed, locate_request, located, SkyProxy};
use std::collections::HashSet;
use vstd::prelude::*;

verus! {

/// The start of a multipart upload that waits for the directory to say whether the
/// object exists.
#[derive(Debug, PartialEq, Eq)]
pub struct MultipartLocating {
    pub bucket: String,
    pub key: String,
    pub client_from_region: String,
}

/// The start of a multipart upload that waits for the directory to name the places
/// of the copies.
#[derive(Debug, PartialEq, Eq)]
pub struct MultipartStarting {
    pub bucket: String,
    pub key: String,
}

/// How the start of a multipart upload goes on once the directory has looked the
/// object up.
#[derive(Debug, PartialEq, Eq)]
pub enum MultipartStep {
    Refuse(S3Error),
    Start(MultipartStarting, StartUploadRequest),
}

/// The copies in whose stores the upload is still to be started.
#[derive(Debug, PartialEq, Eq)]
pub struct StartingUploads {
    pub bucket: String,
    pub key: String,
    /// The id by which the client knows the upload.
    pub upload_id: String,
    pub pending: Vec<LocateObjectResponse>,
}

/// A store has been asked to start the upload.
#[derive(Debug, PartialEq, Eq)]
pub struct StartingUpload {
    pub id: i32,
    pub rest: StartingUploads,
}

/// What is next when a multipart upload is being started.
#[derive(Debug, PartialEq, Eq)]
pub enum StartingStep {
    /// Ask a store to start the upload.
    Create(StartingUpload, StoreCall<ObjectPlace>),
    /// Answer the client.
    Answer(CreateMultipartUploadOutput),
}

/// A part, sent by a client, that waits for the directory to name the copies.
#[derive(Debug, PartialEq, Eq)]
pub struct PartContinuing {
    pub part: PartUploading,
}

/// A part that is on its way to the copies.
#[derive(Debug, PartialEq, Eq)]
pub struct PartUploading {
    pub bucket: String,
    pub key: String,
    pub upload_id: String,
    pub part_number: i32,
}

/// A part that has to be sent to one of the copies.
#[derive(Debug, PartialEq, Eq)]
pub struct PartTask {
    pub locator: ContinueUploadResponse,
    pub part_number: i32,
    pub size: u64,
}

/// A part, to be copied from an object, that waits for the directory to look the
/// object up.
#[derive(Debug, PartialEq, Eq)]
pub struct PartCopyLocating {
    pub src_bucket: String,
    pub src_key: String,
    pub part: PartUploading,
    pub client_from_region: String,
}

/// A part, to be copied from an object of the given size, that waits for the
/// directory to name the copies.
#[derive(Debug, PartialEq, Eq)]
pub struct PartCopyContinuing {
    pub part: PartUploading,
    pub size: u64,
}

/// A part that the store of one of the copies has to copy.
#[derive(Debug, PartialEq, Eq)]
pub struct PartCopyTask {
    pub locator: ContinueUploadResponse,
    pub part_number: i32,
    pub size: u64,
}

/// The completion of a multipart upload that waits for the directory to name the
/// copies.
#[derive(Debug, PartialEq, Eq)]
pub struct CompletionContinuing {
    pub bucket: String,
    pub key: String,
}

/// The copies that are still to be completed.
#[derive(Debug, PartialEq, Eq)]
pub struct CompletingUploads {
    pub bucket: String,
    pub key: String,
    /// The numbers of the parts that the client lists.
    pub numbers: HashSet<i32>,
    pub pending: Vec<ContinueUploadResponse>,
}

/// A store has been asked to complete a copy.
#[derive(Debug, PartialEq, Eq)]
pub struct CompletingUpload {
    pub id: i32,
    pub place: StoreCall<ObjectPlace>,
    pub rest: CompletingUploads,
}

/// A store has been asked to measure a completed copy.
#[derive(Debug, PartialEq, Eq)]
pub struct MeasuringUpload {
    pub id: i32,
    pub e_tag: String,
    pub rest: CompletingUploads,
}

/// The directory has been asked for the e-tag of a completed upload.
#[derive(Debug, PartialEq, Eq)]
pub struct CompletedUpload {
    pub bucket: String,
    pub key: String,
}

/// What is next when a multipart upload is being completed.
#[derive(Debug, PartialEq, Eq)]
pub enum CompletingStep {
    /// Ask a store to complete its copy.
    Complete(CompletingUpload, StoreCall<CompleteMultipartUploadInput>),
    /// Every copy is complete: ask the directory for the e-tag.
    Head(CompletedUpload, HeadObjectRequest),
}

/// The tasks that send a part to the copies, in the directory's order.
pub open spec fn part_tasks(
    locators: Seq<ContinueUploadResponse>,
    part_number: i32,
    size: u64,
) -> Seq<PartTask> {
    locators.map_values(|locator: ContinueUploadResponse| PartTask { locator, part_number, size })
}

/// The tasks that copy a part to the copies, in the directory's order.
pub open spec fn part_copy_tasks(
    locators: Seq<ContinueUploadResponse>,
    part_number: i32,
    size: u64,
) -> Seq<PartCopyTask> {
    locators.map_values(
        |locator: ContinueUploadResponse| PartCopyTask { locator, part_number, size },
    )
}

/// The request that sends a part to a copy.
pub open spec fn part_call(task: PartTask) -> StoreCall<PartPlace> {
    StoreCall {
        tag: task.locator.tag,
        request: PartPlace {
            bucket: task.locator.bucket,
            key: task.locator.key,
            upload_id: task.locator.multipart_upload_id,
        },
    }
}

/// The request that copies a part to a copy.
pub open spec fn part_copy_call(task: PartCopyTask) -> StoreCall<UploadPartCopyInput> {
    StoreCall {
        tag: task.locator.tag,
        request: UploadPartCopyInput {
            bucket: task.locator.bucket,
            key: task.locator.key,
            upload_id: task.locator.multipart_upload_id,
            part_number: task.part_number,
            src_bucket: task.locator.copy_src_bucket->Some_0,
            src_key: task.locator.copy_src_key->Some_0,
        },
    }
}

/// The request to the store of a copy, naming the copy's place.
pub open spec fn upload_place(locator: ContinueUploadResponse) -> StoreCall<ObjectPlace> {
    StoreCall {
        tag: locator.tag,
        request: ObjectPlace { bucket: locator.bucket, key: locator.key },
    }
}

/// The directory names the parts of a copy, and they go with the client's.
pub open spec fn can_complete(locator: ContinueUploadResponse, numbers: Set<i32>) -> bool {
    locator.parts matches Some(parts) && go_with(parts@, numbers)
}

/// The request that completes a copy from its parts.
pub open spec fn is_completing_call(
    call: StoreCall<CompleteMultipartUploadInput>,
    locator: ContinueUploadResponse,
) -> bool {
    &&& call.tag == locator.tag
    &&& call.request.bucket == locator.bucket
    &&& call.request.key == locator.key
    &&& call.request.upload_id == locator.multipart_upload_id
    &&& is_stable_sort(call.request.parts@, completed_parts(locator.parts->Some_0@))
}

/// The answer to a client that sent a part, or had one copied, from the directory's
/// list of the parts with that number.
pub fn part_answer(parts: Vec<LogicalPartResponse>) -> (output: UploadPartOutput)
    requires
        parts@.len() == 1,
    ensures
        output.e_tag == Some(parts@[0].etag),
{
    UploadPartOutput { e_tag: Some(parts[0].etag.clone()) }
}

impl MultipartLocating {
    /// The request that starts the upload.
    pub open spec fn start_request(&self) -> StartUploadRequest {
        StartUploadRequest {
            bucket: self.bucket,
            key: self.key,
            client_from_region: self.client_from_region,
            is_multipart: true,
            copy_src_bucket: None,
            copy_src_key: None,
        }
    }

    /// How the start of the upload goes on, from the directory's reply. An object
    /// that exists is not overwritten.
    pub fn located(self, reply: LocateReply) -> (step: MultipartStep)
        ensures
            match step {
                MultipartStep::Refuse(error) => if locate_failed(reply) {
                    is_locate_error(error)
                } else {
                    found(reply) is Some && error.says(
                        S3ErrorCode::InternalError,
                        "Object already exists. TODO for multipart upload overwite."@,
                    )
                },
                MultipartStep::Start(state, request) => {
                    &&& !locate_failed(reply) && found(reply) is None
                    &&& state == (MultipartStarting { bucket: self.bucket, key: self.key })
                    &&& request == self.start_request()
                },
            },
    {
        match located(reply) {
            Ok(Some(_)) => MultipartStep::Refuse(
                S3Error::with_message(
                    S3ErrorCode::InternalError,
                    "Object already exists. TODO for multipart upload overwite.",
                ),
            ),
            Ok(None) => {
                let request: StartUploadRequest = StartUploadRequest {
                    bucket: self.bucket.clone(),
                    key: self.key.clone(),
                    client_from_region: self.client_from_region,
                    is_multipart: true,
                    copy_src_bucket: None,
                    copy_src_key: None,
                };
                MultipartStep::Start(
                    MultipartStarting { bucket: self.bucket, key: self.key },
                    request,
                )
            },
            Err(error) => MultipartStep::Refuse(error),
        }
    }
}

impl MultipartStarting {
    /// The directory has named the places of the copies and the upload's id.
    pub fn started(self, response: StartUploadResponse) -> (state: StartingUploads)
        requires
            response.multipart_upload_id is Some,
        ensures
            state == (StartingUploads {
                bucket: self.bucket,
                key: self.key,
                upload_id: response.multipart_upload_id->Some_0,
                pending: response.locators,
            }),
    {
        StartingUploads {
            bucket: self.bucket,
            key: self.key,
            upload_id: response.multipart_upload_id.unwrap(),
            pending: response.locators,
        }
    }
}

impl StartingUploads {
    /// `step` is what is next: the first pending copy, or the answer if there is none.
    pub open spec fn goes_on(&self, step: StartingStep) -> bool {
        match step {
            StartingStep::Create(state, call) => {
                &&& self.pending@.len() > 0
                &&& state.id == self.pending@[0].id
                &&& state.rest.bucket == self.bucket
                &&& state.rest.key == self.key
                &&& state.rest.upload_id == self.upload_id
                &&& state.rest.pending@ == self.pending@.drop_first()
                &&& call == crate::objects::call_at(self.pending@[0])
            },
            StartingStep::Answer(output) => {
                &&& self.pending@.len() == 0
                &&& output == (CreateMultipartUploadOutput {
                    bucket: Some(self.bucket),
                    key: Some(self.key),
                    upload_id: Some(self.upload_id),
                })
            },
        }
    }

    /// What is next.
    pub fn next(self) -> (step: StartingStep)
        ensures
            self.goes_on(step),
    {
        let mut pending: Vec<LocateObjectResponse> = self.pending;
        if pending.len() == 0 {
            return StartingStep::Answer(
                CreateMultipartUploadOutput {
                    bucket: Some(self.bucket),
                    key: Some(self.key),
                    upload_id: Some(self.upload_id),
                },
            );
        }
        let locator: LocateObjectResponse = pending.remove(0);
        proof {
            assert(pending@ =~= self.pending@.drop_first());
        }
        StartingStep::Create(
            StartingUpload {
                id: locator.id,
                rest: StartingUploads {
                    bucket: self.bucket,
                    key: self.key,
                    upload_id: self.upload_id,
                    pending,
                },
            },
            StoreCall {
                tag: locator.tag,
                request: ObjectPlace { bucket: locator.bucket, key: locator.key },
            },
        )
    }
}

impl StartingUpload {
    /// The store has started the upload under an id of its own: tells the directory.
    pub fn created(self, upload_id: String) -> (next: (
        StartingUploads,
        PatchUploadMultipartUploadId,
    ))
        ensures
            next.0 == self.rest,
            next.1 == (PatchUploadMultipartUploadId {
                id: self.id,
                multipart_upload_id: upload_id,
            }),
    {
        (self.rest, PatchUploadMultipartUploadId { id: self.id, multipart_upload_id: upload_id })
    }
}

impl PartContinuing {
    /// The tasks that send the part, whose length the client has given.
    pub fn continued(self, locators: Vec<ContinueUploadResponse>, length: usize) -> (next: (
        PartUploading,
        Vec<PartTask>,
    ))
        ensures
            next.0 == self.part,
            next.1@ == part_tasks(locators@, self.part.part_number, length as u64),
    {
        let ghost named = locators@;
        let part_number: i32 = self.part.part_number;
        let size: u64 = length as u64;
        let mut tasks: Vec<PartTask> = Vec::new();
        for locator in it: locators
            invariant
                it.seq() == named,
                tasks@.len() == it.index(),
                forall|j: int|
                    0 <= j < it.index() ==> #[trigger] tasks@[j] == (PartTask {
                        locator: named[j],
                        part_number,
                        size,
                    }),
        {
            tasks.push(PartTask { locator, part_number, size });
        }
        proof {
            assert(tasks@ =~= part_tasks(named, part_number, size));
        }
        (self.part, tasks)
    }
}

impl PartTask {
    /// Sends the client's part to the copy.
    pub fn call(&self) -> (call: StoreCall<PartPlace>)
        ensures
            call == part_call(*self),
    {
        StoreCall {
            tag: self.locator.tag.clone(),
            request: PartPlace {
                bucket: self.locator.bucket.clone(),
                key: self.locator.key.clone(),
                upload_id: self.locator.multipart_upload_id.clone(),
            },
        }
    }

    /// The store has the part and gave it an e-tag: tells the directory.
    pub fn stored(self, e_tag: String) -> (report: PatchUploadMultipartUploadPart)
        ensures
            report == (PatchUploadMultipartUploadPart {
                id: self.locator.id,
                part_number: self.part_number,
                etag: e_tag,
                size: self.size,
            }),
    {
        PatchUploadMultipartUploadPart {
            id: self.locator.id,
            part_number: self.part_number,
            etag: e_tag,
            size: self.size,
        }
    }
}

impl PartUploading {
    /// Takes what joining a task gave: the end of a task, the text of a failure, or
    /// nothing if no task is left. Tells whether to join another: a task that failed is
    /// passed over.
    pub fn joined(&self, outcome: Option<Result<(), String>>) -> (go_on: bool)
        ensures
            go_on == (outcome is Some),
    {
        match outcome {
            Some(_) => true,
            None => false,
        }
    }

    /// Every task has been joined, whatever came of it: asks the directory for the
    /// part.
    pub fn all_joined(self) -> (request: ListPartsRequest)
        ensures
            request == (ListPartsRequest {
                bucket: self.bucket,
                key: self.key,
                upload_id: self.upload_id,
                part_number: Some(self.part_number),
            }),
    {
        ListPartsRequest {
            bucket: self.bucket,
            key: self.key,
            upload_id: self.upload_id,
            part_number: Some(self.part_number),
        }
    }
}

impl PartCopyLocating {
    /// The request that asks for the copies of the upload and for the source in
    /// their stores.
    pub open spec fn continue_request(&self) -> ContinueUploadRequest {
        ContinueUploadRequest {
            bucket: self.part.bucket,
            key: self.part.key,
            multipart_upload_id: self.part.upload_id,
            client_from_region: self.client_from_region,
            do_list_parts: Some(false),
            copy_src_bucket: Some(self.src_bucket),
            copy_src_key: Some(self.src_key),
        }
    }

    /// How the copy of the part goes on, from the directory's reply for its source.
    pub fn located(self, reply: LocateReply) -> (step: Result<
        (PartCopyContinuing, ContinueUploadRequest),
        S3Error,
    >)
        requires
            !locate_failed(reply),
            found(reply) matches Some(locator) ==> locator.size is Some,
        ensures
            match step {
                Ok((state, request)) => {
                    &&& found(reply) matches Some(locator) && state.size == locator.size->Some_0
                    &&& state.part == self.part
                    &&& request == self.continue_request()
                },
                Err(error) => found(reply) is None && error.says(
                    S3ErrorCode::NoSuchKey,
                    "Source object not found"@,
                ),
            },
    {
        match located(reply) {
            Ok(Some(locator)) => {
                let request: ContinueUploadRequest = ContinueUploadRequest {
                    bucket: self.part.bucket.clone(),
                    key: self.part.key.clone(),
                    multipart_upload_id: self.part.upload_id.clone(),
                    client_from_region: self.client_from_region,
                    do_list_parts: Some(false),
                    copy_src_bucket: Some(self.src_bucket),
                    copy_src_key: Some(self.src_key),
                };
                Ok((PartCopyContinuing { part: self.part, size: locator.size.unwrap() }, request))
            },
            Ok(None) => Err(
                S3Error::with_message(S3ErrorCode::NoSuchKey, "Source object not found"),
            ),
            Err(error) => Err(error),
        }
    }
}

impl PartCopyContinuing {
    /// The tasks that copy the part.
    pub fn continued(self, locators: Vec<ContinueUploadResponse>) -> (next: (
        PartUploading,
        Vec<PartCopyTask>,
    ))
        ensures
            next.0 == self.part,
            next.1@ == part_copy_tasks(locators@, self.part.part_number, self.size),
    {
        let ghost named = locators@;
        let part_number: i32 = self.part.part_number;
        let size: u64 = self.size;
        let mut tasks: Vec<PartCopyTask> = Vec::new();
        for locator in it: locators
            invariant
                it.seq() == named,
                tasks@.len() == it.index(),
                forall|j: int|
                    0 <= j < it.index() ==> #[trigger] tasks@[j] == (PartCopyTask {
                        locator: named[j],
                        part_number,
                        size,
                    }),
        {
            tasks.push(PartCopyTask { locator, part_number, size });
        }
        proof {
            assert(tasks@ =~= part_copy_tasks(named, part_number, size));
        }
        (self.part, tasks)
    }
}

impl PartCopyTask {
    /// The directory has named the source in the store of the copy.
    pub open spec fn has_source(&self) -> bool {
        self.locator.copy_src_bucket is Some && self.locator.copy_src_key is Some
    }

    /// Copies the part.
    pub fn call(&self) -> (call: StoreCall<UploadPartCopyInput>)
        requires
            self.has_source(),
        ensures
            call == part_copy_call(*self),
    {
        StoreCall {
            tag: self.locator.tag.clone(),
            request: UploadPartCopyInput {
                bucket: self.locator.bucket.clone(),
                key: self.locator.key.clone(),
                upload_id: self.locator.multipart_upload_id.clone(),
                part_number: self.part_number,
                src_bucket: self.locator.copy_src_bucket.as_ref().unwrap().clone(),
                src_key: self.locator.copy_src_key.as_ref().unwrap().clone(),
            },
        }
    }

    /// The store has the part and gave it an e-tag: tells the directory. A part has
    /// no size of its own to ask for, so the source's is reported.
    pub fn stored(self, e_tag: String) -> (report: PatchUploadMultipartUploadPart)
        ensures
            report == (PatchUploadMultipartUploadPart {
                id: self.locator.id,
                part_number: self.part_number,
                etag: e_tag,
                size: self.size,
            }),
    {
        PatchUploadMultipartUploadPart {
            id: self.locator.id,
            part_number: self.part_number,
            etag: e_tag,
            size: self.size,
        }
    }
}

impl CompletionContinuing {
    /// The directory has named the copies; the client lists the parts.
    pub fn continued(
        self,
        parts: &Vec<CompletedPart>,
        locators: Vec<ContinueUploadResponse>,
    ) -> (state: CompletingUploads)
        ensures
            state.bucket == self.bucket,
            state.key == self.key,
            state.numbers@ == numbers_of(parts@),
            state.pending == locators,
    {
        CompletingUploads {
            bucket: self.bucket,
            key: self.key,
            numbers: part_numbers(parts),
            pending: locators,
        }
    }
}

impl CompletingUploads {
    /// The first pending copy, if there is one, has parts that go with the client's.
    pub open spec fn ready(&self) -> bool {
        self.pending@.len() > 0 ==> can_complete(self.pending@[0], self.numbers@)
    }

    /// `rest` is what is left once the first pending copy has been completed.
    pub open spec fn leaves(&self, rest: CompletingUploads) -> bool {
        &&& rest.bucket == self.bucket
        &&& rest.key == self.key
        &&& rest.numbers == self.numbers
        &&& rest.pending@ == self.pending@.drop_first()
    }

    /// `step` is what is next: the first pending copy, or the question for the e-tag if
    /// there is none.
    pub open spec fn goes_on(&self, step: CompletingStep) -> bool {
        match step {
            CompletingStep::Complete(state, call) => {
                &&& self.pending@.len() > 0
                &&& state.id == self.pending@[0].id
                &&& state.place == upload_place(self.pending@[0])
                &&& self.leaves(state.rest)
                &&& is_completing_call(call, self.pending@[0])
            },
            CompletingStep::Head(state, request) => {
                &&& self.pending@.len() == 0
                &&& state == (CompletedUpload { bucket: self.bucket, key: self.key })
                &&& request == (HeadObjectRequest { bucket: self.bucket, key: self.key })
            },
        }
    }

    /// Tells whether the first pending copy, if there is one, can be completed.
    pub fn is_ready(&self) -> (ready: bool)
        ensures
            ready == self.ready(),
    {
        if self.pending.len() == 0 {
            return true;
        }
        match &self.pending[0].parts {
            Some(parts) => parts_go_with(parts, &self.numbers),
            None => false,
        }
    }

    /// What is next.
    pub fn next(self) -> (step: CompletingStep)
        requires
            self.ready(),
        ensures
            self.goes_on(step),
    {
        let mut pending: Vec<ContinueUploadResponse> = self.pending;
        if pending.len() == 0 {
            let request: HeadObjectRequest = HeadObjectRequest {
                bucket: self.bucket.clone(),
                key: self.key.clone(),
            };
            return CompletingStep::Head(
                CompletedUpload { bucket: self.bucket, key: self.key },
                request,
            );
        }
        let locator: ContinueUploadResponse = pending.remove(0);
        proof {
            assert(pending@ =~= self.pending@.drop_first());
        }
        let place: StoreCall<ObjectPlace> = StoreCall {
            tag: locator.tag.clone(),
            request: ObjectPlace { bucket: locator.bucket.clone(), key: locator.key.clone() },
        };
        let call: StoreCall<CompleteMultipartUploadInput> = StoreCall {
            tag: locator.tag,
            request: CompleteMultipartUploadInput {
                bucket: locator.bucket,
                key: locator.key,
                upload_id: locator.multipart_upload_id,
                parts: ordered_parts(locator.parts.unwrap()),
            },
        };
        CompletingStep::Complete(
            CompletingUpload {
                id: locator.id,
                place,
                rest: CompletingUploads {
                    bucket: self.bucket,
                    key: self.key,
                    numbers: self.numbers,
                    pending,
                },
            },
            call,
        )
    }
}

impl CompletingUpload {
    /// The store has completed the copy and gave it an e-tag: measures it.
    pub fn completed(self, e_tag: String) -> (next: (MeasuringUpload, StoreCall<ObjectPlace>))
        ensures
            next.0 == (MeasuringUpload { id: self.id, e_tag, rest: self.rest }),
            next.1 == self.place,
    {
        (MeasuringUpload { id: self.id, e_tag, rest: self.rest }, self.place)
    }
}

impl MeasuringUpload {
    /// The store has measured the copy: tells the directory.
    pub fn measured(self, head: HeadObjectOutput) -> (next: (
        CompletingUploads,
        PatchUploadIsCompleted,
    ))
        requires
            head.last_modified.valid(),
        ensures
            next.0 == self.rest,
            is_completion(next.1, self.id, self.e_tag, head),
    {
        let report: PatchUploadIsCompleted = completion(self.id, &self.e_tag, head);
        (self.rest, report)
    }
}

impl CompletedUpload {
    /// The answer to the client, from what the directory says of the object.
    pub fn answer(self, head: HeadObjectResponse) -> (output: CompleteMultipartUploadOutput)
        ensures
            output == (CompleteMultipartUploadOutput {
                bucket: Some(self.bucket),
                key: Some(self.key),
                e_tag: Some(head.etag),
            }),
    {
        CompleteMultipartUploadOutput {
            bucket: Some(self.bucket),
            key: Some(self.key),
            e_tag: Some(head.etag),
        }
    }
}

impl SkyProxy {
    /// The request that asks for the copies of an unfinished upload.
    pub open spec fn continue_request(
        &self,
        bucket: String,
        key: String,
        upload_id: String,
        list_parts: bool,
    ) -> ContinueUploadRequest {
        ContinueUploadRequest {
            bucket,
            key,
            multipart_upload_id: upload_id,
            client_from_region: self.client_from_region,
            do_list_parts: Some(list_parts),
            copy_src_bucket: None,
            copy_src_key: None,
        }
    }

    /// Asks the directory for an object that a client wants to upload in parts.
    pub fn create_multipart_upload(&self, bucket: &String, key: &String) -> (opened: (
        MultipartLocating,
        LocateObjectRequest,
    ))
        ensures
            opened.0 == (MultipartLocating {
                bucket: *bucket,
                key: *key,
                client_from_region: self.client_from_region,
            }),
            opened.1 == locate_request(*bucket, *key, self.client_from_region),
    {
        (
            MultipartLocating {
                bucket: bucket.clone(),
                key: key.clone(),
                client_from_region: self.client_from_region.clone(),
            },
            self.locate_object(bucket, key),
        )
    }

    /// Asks the directory for the copies that a client's part has to go to.
    pub fn upload_part(
        &self,
        bucket: &String,
        key: &String,
        upload_id: &String,
        part_number: i32,
    ) -> (opened: (PartContinuing, ContinueUploadRequest))
        ensures
            opened.0.part == (PartUploading {
                bucket: *bucket,
                key: *key,
                upload_id: *upload_id,
                part_number,
            }),
            opened.1 == self.continue_request(*bucket, *key, *upload_id, false),
            opened.1.bucket == *bucket,
            opened.1.key == *key,
            opened.1.multipart_upload_id == *upload_id,
            opened.1.client_from_region == self.client_from_region,
            opened.1.do_list_parts == Some(false),
    {
        (
            PartContinuing {
                part: PartUploading {
                    bucket: bucket.clone(),
                    key: key.clone(),
                    upload_id: upload_id.clone(),
                    part_number,
                },
            },
            ContinueUploadRequest {
                bucket: bucket.clone(),
                key: key.clone(),
                multipart_upload_id: upload_id.clone(),
                client_from_region: self.client_from_region.clone(),
                do_list_parts: Some(false),
                copy_src_bucket: None,
                copy_src_key: None,
            },
        )
    }

    /// Asks the directory for the object that a part is to be copied from.
    pub fn upload_part_copy(
        &self,
        source: &CopySource,
        bucket: &String,
        key: &String,
        upload_id: &String,
        part_number: i32,
    ) -> (opened: (PartCopyLocating, LocateObjectRequest))
        requires
            source is Bucket,
        ensures
            opened.0 == (PartCopyLocating {
                src_bucket: source->Bucket_bucket,
                src_key: source->Bucket_key,
                part: PartUploading {
                    bucket: *bucket,
                    key: *key,
                    upload_id: *upload_id,
                    part_number,
                },
                client_from_region: self.client_from_region,
            }),
            opened.1 == locate_request(
                source->Bucket_bucket,
                source->Bucket_key,
                self.client_from_region,
            ),
    {
        let ObjectPlace { bucket: src_bucket, key: src_key } = source.place();
        let request: LocateObjectRequest = self.locate_object(&src_bucket, &src_key);
        (
            PartCopyLocating {
                src_bucket,
                src_key,
                part: PartUploading {
                    bucket: bucket.clone(),
                    key: key.clone(),
                    upload_id: upload_id.clone(),
                    part_number,
                },
                client_from_region: self.client_from_region.clone(),
            },
            request,
        )
    }

    /// Asks the directory for the copies of an upload that a client wants completed,
    /// and for their parts.
    pub fn complete_multipart_upload(
        &self,
        bucket: &String,
        key: &String,
        upload_id: &String,
    ) -> (opened: (CompletionContinuing, ContinueUploadRequest))
        ensures
            opened.0 == (CompletionContinuing { bucket: *bucket, key: *key }),
            opened.1 == self.continue_request(*bucket, *key, *upload_id, true),
            opened.1.bucket == *bucket,
            opened.1.key == *key,
            opened.1.multipart_upload_id == *upload_id,
            opened.1.client_from_region == self.client_from_region,
            opened.1.do_list_parts == Some(true),
    {
        (
            CompletionContinuing { bucket: bucket.clone(), key: key.clone() },
            ContinueUploadRequest {
                bucket: bucket.clone(),
                key: key.clone(),
                multipart_upload_id: upload_id.clone(),
                client_from_region: self.client_from_region.clone(),
                do_list_parts: Some(true),
                copy_src_bucket: None,
                copy_src_key: None,
            },
        )
    }
}

} // verus!
