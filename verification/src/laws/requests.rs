//! What the directory and the stores are asked of an upload in parts.

use crate::dto::{CompleteMultipartUploadInput, CompletedPart, StoreCall};
use crate::laws::assembly::numbers_are_those_of_parts;
use crate::models::{
    ContinueUploadPart, ContinueUploadRequest, ContinueUploadResponse, StartUploadRequest,
};
use crate::multipart::{
    can_complete, is_completing_call, part_call, part_copy_call, part_copy_tasks, part_tasks,
    upload_place, CompletingUploads, MultipartLocating, PartCopyLocating, PartCopyTask, PartTask,
};
use crate::objects::{CopyLocatingDestination, PutLocating};
use crate::parts::{completed_part, completed_parts, is_stable_sort, numbered, numbers_of};
use crate::proxy::SkyProxy;
use vstd::prelude::*;

verus! {

/// An unfinished upload as a directory keeps it: the bucket, the key and the upload's id.
pub type KnownUpload = (Seq<char>, Seq<char>, Seq<char>);

/// The upload that a directory starts for a request, under an id of its choice.
pub open spec fn started_upload(request: StartUploadRequest, upload_id: Seq<char>) -> KnownUpload {
    (request.bucket@, request.key@, upload_id)
}

/// The upload that a directory looks up for a request.
pub open spec fn continued_upload(request: ContinueUploadRequest) -> KnownUpload {
    (request.bucket@, request.key@, request.multipart_upload_id@)
}

/// A request to start an upload names the object that the client named: its bucket as the
/// bucket, its key as the key, whether it comes in parts, and what it is copied from.
pub proof fn start_names_the_clients_object(
    put: PutLocating,
    copy: CopyLocatingDestination,
    multipart: MultipartLocating,
)
    ensures
        put.start_request().bucket == put.bucket,
        put.start_request().key == put.key,
        put.start_request().client_from_region == put.client_from_region,
        !put.start_request().is_multipart,
        put.start_request().copy_src_bucket is None,
        put.start_request().copy_src_key is None,
        copy.start_request().bucket == copy.bucket,
        copy.start_request().key == copy.key,
        copy.start_request().client_from_region == copy.client_from_region,
        !copy.start_request().is_multipart,
        copy.start_request().copy_src_bucket == Some(copy.src_bucket),
        copy.start_request().copy_src_key == Some(copy.src_key),
        multipart.start_request().bucket == multipart.bucket,
        multipart.start_request().key == multipart.key,
        multipart.start_request().client_from_region == multipart.client_from_region,
        multipart.start_request().is_multipart,
        multipart.start_request().copy_src_bucket is None,
        multipart.start_request().copy_src_key is None,
{
}

/// A request to continue an upload names the upload that the client named: its bucket as
/// the bucket, its key as the key and its id as the id. It asks for the parts as told,
/// and it names no source.
pub proof fn continuing_names_the_clients_upload(
    proxy: SkyProxy,
    bucket: String,
    key: String,
    upload_id: String,
    list_parts: bool,
)
    ensures
        proxy.continue_request(bucket, key, upload_id, list_parts).bucket == bucket,
        proxy.continue_request(bucket, key, upload_id, list_parts).key == key,
        proxy.continue_request(bucket, key, upload_id, list_parts).multipart_upload_id
            == upload_id,
        proxy.continue_request(bucket, key, upload_id, list_parts).client_from_region
            == proxy.client_from_region,
        proxy.continue_request(bucket, key, upload_id, list_parts).do_list_parts == Some(
            list_parts,
        ),
        proxy.continue_request(bucket, key, upload_id, list_parts).copy_src_bucket is None,
        proxy.continue_request(bucket, key, upload_id, list_parts).copy_src_key is None,
{
}

/// A request to continue an upload with a copied part names the upload that the client
/// named and the object to copy from.
pub proof fn continuing_with_a_copy_names_both(state: PartCopyLocating)
    ensures
        state.continue_request().bucket == state.part.bucket,
        state.continue_request().key == state.part.key,
        state.continue_request().multipart_upload_id == state.part.upload_id,
        state.continue_request().client_from_region == state.client_from_region,
        state.continue_request().do_list_parts == Some(false),
        state.continue_request().copy_src_bucket == Some(state.src_bucket),
        state.continue_request().copy_src_key == Some(state.src_key),
{
}

/// A directory that looks uploads up by bucket, key and id finds the upload that it
/// started: a client that starts an upload and then sends, copies or completes parts under
/// the id that it was given asks for that upload, and for no upload of another object.
pub proof fn continued_upload_is_the_started_one(
    proxy: SkyProxy,
    bucket: String,
    key: String,
    start: MultipartLocating,
    upload_id: String,
    list_parts: bool,
    copying: PartCopyLocating,
)
    requires
        start.bucket == bucket,
        start.key == key,
        copying.part.bucket == bucket,
        copying.part.key == key,
        copying.part.upload_id == upload_id,
    ensures
        started_upload(start.start_request(), upload_id@) == (bucket@, key@, upload_id@),
        continued_upload(proxy.continue_request(bucket, key, upload_id, list_parts))
            == started_upload(start.start_request(), upload_id@),
        continued_upload(copying.continue_request()) == started_upload(
            start.start_request(),
            upload_id@,
        ),
        forall|other_bucket: String, other_key: String, other_id: String|
            continued_upload(
                #[trigger] proxy.continue_request(other_bucket, other_key, other_id, list_parts),
            ) == started_upload(start.start_request(), upload_id@) ==> other_bucket@ == bucket@
                && other_key@ == key@ && other_id@ == upload_id@,
{
}

/// A part is sent to every copy that the directory names, and each time to the store's own
/// upload at the copy's place, under the client's number and with the client's length.
pub proof fn part_is_sent_to_every_named_copy(
    locators: Seq<ContinueUploadResponse>,
    part_number: i32,
    size: u64,
)
    ensures
        part_tasks(locators, part_number, size).len() == locators.len(),
        forall|i: int|
            0 <= i < locators.len() ==> {
                let task: PartTask = #[trigger] part_tasks(locators, part_number, size)[i];
                let call = part_call(task);
                &&& task.locator == locators[i]
                &&& task.part_number == part_number
                &&& task.size == size
                &&& call.tag == locators[i].tag
                &&& call.request.bucket == locators[i].bucket
                &&& call.request.key == locators[i].key
                &&& call.request.upload_id == locators[i].multipart_upload_id
            },
{
}

/// A part is copied in every copy that the directory names, each time from the object that
/// the directory names in that store, into the store's own upload at the copy's place,
/// under the client's number and with the size of the source; it can be copied exactly if
/// the directory names both the bucket and the key of the object.
pub proof fn part_is_copied_in_every_named_copy(
    locators: Seq<ContinueUploadResponse>,
    part_number: i32,
    size: u64,
)
    ensures
        part_copy_tasks(locators, part_number, size).len() == locators.len(),
        forall|i: int|
            0 <= i < locators.len() ==> {
                let task: PartCopyTask = #[trigger] part_copy_tasks(
                    locators,
                    part_number,
                    size,
                )[i];
                let call = part_copy_call(task);
                &&& task.locator == locators[i]
                &&& task.part_number == part_number
                &&& task.size == size
                &&& task.has_source() == (locators[i].copy_src_bucket is Some
                    && locators[i].copy_src_key is Some)
                &&& call.tag == locators[i].tag
                &&& call.request.bucket == locators[i].bucket
                &&& call.request.key == locators[i].key
                &&& call.request.upload_id == locators[i].multipart_upload_id
                &&& call.request.part_number == part_number
                &&& locators[i].copy_src_bucket matches Some(bucket) ==> call.request.src_bucket
                    == bucket
                &&& locators[i].copy_src_key matches Some(key) ==> call.request.src_key == key
            },
{
}

/// A copy is completed in the store that has it, at its own place and under the store's
/// own id of the upload, and it is measured at the same place.
pub proof fn completion_names_the_stores_upload(
    call: StoreCall<CompleteMultipartUploadInput>,
    locator: ContinueUploadResponse,
)
    requires
        is_completing_call(call, locator),
    ensures
        call.tag == locator.tag,
        call.request.bucket == locator.bucket,
        call.request.key == locator.key,
        call.request.upload_id == locator.multipart_upload_id,
        upload_place(locator).tag == locator.tag,
        upload_place(locator).request.bucket == locator.bucket,
        upload_place(locator).request.key == locator.key,
{
}

/// A completion lists the parts in ascending order of their numbers, and of each number
/// the parts that the store has, in the store's order, each with the store's e-tag.
pub proof fn completion_keeps_the_stores_parts(
    call: StoreCall<CompleteMultipartUploadInput>,
    locator: ContinueUploadResponse,
    number: i32,
)
    requires
        locator.parts is Some,
        is_completing_call(call, locator),
    ensures
        forall|i: int, j: int|
            0 <= i < j < call.request.parts@.len() ==> (
            #[trigger] call.request.parts@[i]).part_number <= (
            #[trigger] call.request.parts@[j]).part_number,
        call.request.parts@.filter(|part: CompletedPart| part.part_number == number)
            == locator.parts->Some_0@.map_values(
            |part: ContinueUploadPart|
                CompletedPart { part_number: part.part_number, e_tag: Some(part.etag) },
        ).filter(|part: CompletedPart| part.part_number == number),
        forall|part: ContinueUploadPart| #[trigger]
            completed_part(part).part_number == part.part_number && completed_part(part).e_tag
                == Some(part.etag),
{
    let stored = locator.parts->Some_0@;
    let written = stored.map_values(
        |part: ContinueUploadPart|
            CompletedPart { part_number: part.part_number, e_tag: Some(part.etag) },
    );
    assert(completed_parts(stored) =~= written);
    assert(is_stable_sort(call.request.parts@, written));
    assert(numbered(call.request.parts@, number) == numbered(
        written,
        number,
    ));
}

/// A copy can be completed exactly if the directory names its parts, there are as many of
/// them as the client lists numbers, and each has one of the client's numbers; a number is
/// the client's exactly if some part of the list has it.
pub proof fn copy_is_completed_exactly_if_its_parts_fit(
    state: CompletingUploads,
    locator: ContinueUploadResponse,
    client: Seq<CompletedPart>,
    number: i32,
)
    ensures
        can_complete(locator, numbers_of(client)) == (locator.parts matches Some(parts)
            && parts@.len() == numbers_of(client).len() && forall|i: int|
            0 <= i < parts@.len() ==> numbers_of(client).contains(
                (#[trigger] parts@[i]).part_number,
            )),
        numbers_of(client).contains(number) == (exists|i: int|
            0 <= i < client.len() && (#[trigger] client[i]).part_number == number),
        state.pending@.len() == 0 ==> state.ready(),
        state.pending@.len() > 0 && state.pending@[0] == locator && state.numbers@ == numbers_of(
            client,
        ) ==> state.ready() == can_complete(locator, numbers_of(client)),
{
    numbers_are_those_of_parts(client, number);
}

} // verus!
