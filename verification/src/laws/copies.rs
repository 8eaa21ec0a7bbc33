//! The copies that an upload or a copy operation makes, and what is told of them.

use crate::dto::{CopyObjectInput, HeadObjectOutput, ObjectPlace, StoreCall};
use crate::laws::storage::{
    after_copies, after_writes, copies_spread_data, copy_calls, place_of, reordered_contains,
    source_of, target_of, upload_calls, writes_reach_their_places, Contents,
};
use crate::models::{LocateObjectResponse, PatchUploadIsCompleted, StartUploadResponse};
use crate::objects::{
    copy_call, copy_count, copy_tasks, is_completion, made_copy, reported_e_tag, stored_copy,
    unsigned_size, upload_tasks, StoredCopy,
};
use crate::timestamp::{date_time_text, is_date_text, rfc3339_reading, Timestamp};
use vstd::prelude::*;

verus! {

/// An upload has a task for every copy that the directory names, and no other.
pub proof fn upload_has_a_task_for_every_copy(locators: Seq<LocateObjectResponse>)
    ensures
        upload_tasks(locators).len() == locators.len(),
        forall|i: int|
            0 <= i < locators.len() ==> (#[trigger] upload_tasks(locators)[i]).locator
                == locators[i],
{
}

/// An upload reaches every store: once its tasks have written the data, in whatever order,
/// the place of every copy that the directory named holds the data.
pub proof fn upload_reaches_every_named_copy(
    contents: Contents,
    locators: Seq<LocateObjectResponse>,
    calls: Seq<StoreCall<ObjectPlace>>,
    data: Seq<u8>,
)
    requires
        calls.to_multiset() == upload_calls(upload_tasks(locators)).to_multiset(),
    ensures
        forall|i: int|
            0 <= i < locators.len() ==> after_writes(contents, calls, data).contains_key(
                ((#[trigger] locators[i]).tag@, locators[i].bucket@, locators[i].key@),
            ) && after_writes(contents, calls, data)[(
                locators[i].tag@,
                locators[i].bucket@,
                locators[i].key@,
            )] == data,
{
    let planned = upload_calls(upload_tasks(locators));
    assert forall|i: int| 0 <= i < locators.len() implies after_writes(
        contents,
        calls,
        data,
    ).contains_key(((#[trigger] locators[i]).tag@, locators[i].bucket@, locators[i].key@))
        && after_writes(contents, calls, data)[(
        locators[i].tag@,
        locators[i].bucket@,
        locators[i].key@,
    )] == data by {
        reordered_contains(calls, planned, i);
        let j = choose|j: int| 0 <= j < calls.len() && calls[j] == planned[i];
        let place = (locators[i].tag@, locators[i].bucket@, locators[i].key@);
        assert(planned[i].tag == locators[i].tag);
        assert(place_of(calls[j]) == place);
        writes_reach_their_places(contents, calls, data, place);
    }
}

/// A copy operation has a task for every copy for which the directory names a source:
/// the copy, the bucket and the key at the same position belong together. Where there are
/// as many source buckets and source keys as copies, every copy has its task.
pub proof fn copy_has_a_task_for_every_copy(response: StartUploadResponse)
    ensures
        copy_count(response) == copy_tasks(response).len(),
        response.copy_src_buckets@.len() == response.locators@.len()
            && response.copy_src_keys@.len() == response.locators@.len() ==> copy_tasks(
            response,
        ).len() == response.locators@.len(),
        copy_tasks(response).len() <= response.locators@.len(),
        copy_tasks(response).len() <= response.copy_src_buckets@.len(),
        copy_tasks(response).len() <= response.copy_src_keys@.len(),
        copy_tasks(response).len() == response.locators@.len() || copy_tasks(response).len()
            == response.copy_src_buckets@.len() || copy_tasks(response).len()
            == response.copy_src_keys@.len(),
        forall|i: int|
            0 <= i < copy_tasks(response).len() ==> {
                let task = #[trigger] copy_tasks(response)[i];
                let call = copy_call(task);
                &&& task.locator == response.locators@[i]
                &&& task.src_bucket == response.copy_src_buckets@[i]
                &&& task.src_key == response.copy_src_keys@[i]
                &&& call.tag == response.locators@[i].tag
                &&& call.request.src_bucket == response.copy_src_buckets@[i]
                &&& call.request.src_key == response.copy_src_keys@[i]
                &&& call.request.bucket == response.locators@[i].bucket
                &&& call.request.key == response.locators@[i].key
            },
{
}

/// A copy operation reaches every store: once its tasks have run, in whatever order, in
/// stores that had the data in the source that the directory named for each copy, the
/// place of every copy that the directory named holds the data.
pub proof fn copy_reaches_every_named_copy(
    contents: Contents,
    response: StartUploadResponse,
    calls: Seq<StoreCall<CopyObjectInput>>,
    data: Seq<u8>,
)
    requires
        response.copy_src_buckets@.len() == response.locators@.len(),
        response.copy_src_keys@.len() == response.locators@.len(),
        calls.to_multiset() == copy_calls(copy_tasks(response)).to_multiset(),
        forall|i: int|
            0 <= i < response.locators@.len() ==> contents.contains_key(
                (
                    (#[trigger] response.locators@[i]).tag@,
                    response.copy_src_buckets@[i]@,
                    response.copy_src_keys@[i]@,
                ),
            ) && contents[(
                response.locators@[i].tag@,
                response.copy_src_buckets@[i]@,
                response.copy_src_keys@[i]@,
            )] == data,
    ensures
        forall|i: int|
            0 <= i < response.locators@.len() ==> after_copies(contents, calls).contains_key(
                (
                    (#[trigger] response.locators@[i]).tag@,
                    response.locators@[i].bucket@,
                    response.locators@[i].key@,
                ),
            ) && after_copies(contents, calls)[(
                response.locators@[i].tag@,
                response.locators@[i].bucket@,
                response.locators@[i].key@,
            )] == data,
{
    let locators = response.locators@;
    let tasks = copy_tasks(response);
    let planned = copy_calls(tasks);
    copy_has_a_task_for_every_copy(response);
    assert forall|k: int| 0 <= k < calls.len() implies contents.contains_key(
        source_of(#[trigger] calls[k]),
    ) && contents[source_of(calls[k])] == data by {
        reordered_contains(planned, calls, k);
        let m = choose|m: int| 0 <= m < planned.len() && planned[m] == calls[k];
        assert(planned[m] == copy_call(tasks[m]));
        assert(locators[m].tag == calls[k].tag);
    }
    assert forall|i: int| 0 <= i < locators.len() implies after_copies(
        contents,
        calls,
    ).contains_key(((#[trigger] locators[i]).tag@, locators[i].bucket@, locators[i].key@))
        && after_copies(contents, calls)[(
        locators[i].tag@,
        locators[i].bucket@,
        locators[i].key@,
    )] == data by {
        let place = (locators[i].tag@, locators[i].bucket@, locators[i].key@);
        assert(planned[i] == copy_call(tasks[i]));
        reordered_contains(calls, planned, i);
        let j = choose|j: int| 0 <= j < calls.len() && calls[j] == planned[i];
        assert(target_of(calls[j]) == place);
        copies_spread_data(contents, calls, data, place);
    }
}

/// A length is kept as the number of 64 bits without a sign that has the same bits.
pub proof fn kept_length_has_the_same_bits(length: i64)
    ensures
        0 <= unsigned_size(length) <= u64::MAX,
        (unsigned_size(length) - length) % 0x1_0000_0000_0000_0000 == 0,
        length >= 0 ==> unsigned_size(length) == length,
{
}

/// The report on a copy has the id and the e-tag that it was made for, the length that
/// the store measured and the text of the date that the store measured, and two reports
/// on the same measurement of the same copy say the same.
pub proof fn report_tells_what_was_measured(
    report: PatchUploadIsCompleted,
    id: i32,
    e_tag: String,
    head: HeadObjectOutput,
)
    requires
        is_completion(report, id, e_tag, head),
    ensures
        report.id == id,
        report.etag == e_tag,
        (report.size - head.content_length) % 0x1_0000_0000_0000_0000 == 0,
        head.content_length >= 0 ==> report.size == head.content_length,
        report.last_modified@ == date_time_text(head.last_modified),
{
    kept_length_has_the_same_bits(head.content_length);
}

/// A copy that a store has is reported under the id by which the directory knows it. Of an
/// upload the directory hears of the e-tag that the store measures, if it measures one;
/// the client hears of the e-tag that the store gave.
pub proof fn copies_keep_their_ids_and_e_tags(
    locator: LocateObjectResponse,
    e_tag: String,
    stored: StoredCopy,
    head_e_tag: Option<String>,
)
    ensures
        stored_copy(locator, e_tag).id == locator.id,
        stored_copy(locator, e_tag).e_tag == e_tag,
        made_copy(locator, e_tag).id == locator.id,
        made_copy(locator, e_tag).e_tag == e_tag,
        head_e_tag matches Some(measured) ==> reported_e_tag(stored, head_e_tag) == measured,
        head_e_tag is None ==> reported_e_tag(stored, head_e_tag) == stored.e_tag,
{
}

/// A date that is written can be read again, from the year zero on: what is read is at
/// UTC, not later than what was written, earlier by less than a millisecond, and a whole
/// number of milliseconds.
pub proof fn written_date_is_read_to_the_millisecond(text: Seq<char>, timestamp: Timestamp)
    requires
        is_date_text(text, timestamp),
    ensures
        text == date_time_text(timestamp),
        timestamp.wall_nanos >= -62_167_219_200_000_000_000i128 ==> {
            &&& rfc3339_reading(text) matches Some(read)
            &&& read.offset_seconds == 0
            &&& read.wall_nanos <= timestamp.wall_nanos
            &&& timestamp.wall_nanos - read.wall_nanos < 1_000_000
            &&& (read.wall_nanos as int) % 1_000_000 == 0
        },
{
    let nanos = timestamp.wall_nanos as int;
    if timestamp.wall_nanos >= -62_167_219_200_000_000_000i128 {
        assert(nanos - nanos % 1_000_000 <= nanos);
        assert((nanos - nanos % 1_000_000) % 1_000_000 == 0);
        assert(timestamp.in_millis().wall_nanos == nanos - nanos % 1_000_000);
    }
}

/// A timestamp is valid exactly if its year has at most four digits and its offset is less
/// than 26 hours.
pub proof fn valid_timestamps_fill_the_calendar(timestamp: Timestamp)
    ensures
        timestamp.valid() == (-377_705_116_800_000_000_000i128 <= timestamp.wall_nanos
            <= 253_402_300_799_999_999_999i128 && -93_600 < timestamp.offset_seconds < 93_600),
{
}

} // verus!
