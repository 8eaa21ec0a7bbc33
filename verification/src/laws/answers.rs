//! What a client hears of an operation, for whatever came of its tasks.

use crate::buckets::{bucket_work, join_step, JoinStep};
use crate::dto::{CreateBucketInput, HeadObjectOutput, Object, StoreCall};
use crate::error::S3ErrorCode;
use crate::listing::{are_object_entries, is_object_entry, signed_size};
use crate::models::{
    LocateBucketResponse, LocateObjectResponse, ObjectResponse, PatchUploadIsCompleted,
};
use crate::objects::{
    after_join, call_at, is_completion, joined_before_failure, last_of, reported_e_tag,
    stored_copy, unsigned_size, upload_tasks,
};
use crate::proxy::SkyProxy;
use crate::timestamp::{is_date_text, Timestamp, YEAR_ZERO_WALL_NANOS};
use vstd::prelude::*;

verus! {

/// The e-tags that an upload has gathered when it stops joining its tasks, which end
/// with these outcomes in the order of joining.
pub open spec fn gathered(e_tags: Seq<String>, outcomes: Seq<Result<String, String>>) -> Seq<String>
    decreases outcomes.len(),
{
    if outcomes.len() == 0 {
        after_join(e_tags, None).0
    } else {
        let (after, go_on) = after_join(e_tags, Some(outcomes[0]));
        if go_on {
            gathered(after, outcomes.drop_first())
        } else {
            after
        }
    }
}

/// What joining gives at the given turn: the outcome of a task, or nothing once all
/// have been joined.
pub open spec fn joined_at(outcomes: Seq<Result<(), String>>, turn: int) -> Option<
    Result<(), String>,
> {
    if turn < outcomes.len() {
        Some(outcomes[turn])
    } else {
        None
    }
}

/// The steps of a bucket operation that joins tasks with these outcomes: it waits
/// until it answers.
pub open spec fn is_join_run(
    outcomes: Seq<Result<(), String>>,
    context: Seq<char>,
    steps: Seq<JoinStep>,
) -> bool {
    &&& steps.len() > 0
    &&& forall|i: int|
        0 <= i < steps.len() ==> join_step(joined_at(outcomes, i), context, #[trigger] steps[i])
    &&& forall|i: int| 0 <= i < steps.len() - 1 ==> #[trigger] steps[i] is Wait
    &&& steps.last() is Answer
}

/// What was gathered before is kept in front.
proof fn gathered_keeps_prefix(e_tags: Seq<String>, outcomes: Seq<Result<String, String>>)
    ensures
        gathered(e_tags, outcomes) == e_tags + joined_before_failure(outcomes),
    decreases outcomes.len(),
{
    if outcomes.len() > 0 {
        if let Ok(e_tag) = outcomes[0] {
            gathered_keeps_prefix(e_tags.push(e_tag), outcomes.drop_first());
            assert(e_tags.push(e_tag) + joined_before_failure(outcomes.drop_first()) =~= e_tags + (
            seq![e_tag] + joined_before_failure(outcomes.drop_first())));
        }
    }
    assert(joined_before_failure(outcomes).len() == 0 ==> e_tags + joined_before_failure(outcomes)
        =~= e_tags);
}

/// The e-tags before the first failure, one by one.
proof fn joined_in_order(outcomes: Seq<Result<String, String>>)
    ensures
        joined_before_failure(outcomes).len() <= outcomes.len(),
        forall|i: int|
            0 <= i < joined_before_failure(outcomes).len() ==> outcomes[i] == Ok::<String, String>(
                #[trigger] joined_before_failure(outcomes)[i],
            ),
        joined_before_failure(outcomes).len() < outcomes.len() ==> outcomes[joined_before_failure(
            outcomes,
        ).len() as int] is Err,
    decreases outcomes.len(),
{
    if outcomes.len() > 0 && outcomes[0] is Ok {
        let rest = outcomes.drop_first();
        let joined = joined_before_failure(outcomes);
        joined_in_order(rest);
        assert forall|i: int| 0 <= i < joined.len() implies outcomes[i] == Ok::<String, String>(
            #[trigger] joined[i],
        ) by {
            if i > 0 {
                assert(joined[i] == joined_before_failure(rest)[i - 1]);
                assert(outcomes[i] == rest[i - 1]);
            }
        }
    }
}

/// An upload or a copy answers with the e-tag of the last task that was joined before
/// the first failure: it names one exactly if the first task that ended did not
/// fail, and if no task failed it is the e-tag of the last one.
pub proof fn answer_names_last_copy(outcomes: Seq<Result<String, String>>)
    ensures
        gathered(Seq::empty(), outcomes) == joined_before_failure(outcomes),
        last_of(joined_before_failure(outcomes)) is Some == (outcomes.len() > 0 && outcomes[0]
            is Ok),
        last_of(joined_before_failure(outcomes)) matches Some(e_tag) ==> exists|i: int|
            0 <= i < outcomes.len() && #[trigger] outcomes[i] == Ok::<String, String>(e_tag) && (
            forall|j: int| 0 <= j <= i ==> #[trigger] outcomes[j] is Ok) && (i + 1 < outcomes.len()
                ==> outcomes[i + 1] is Err),
{
    gathered_keeps_prefix(Seq::empty(), outcomes);
    joined_in_order(outcomes);
    let joined = joined_before_failure(outcomes);
    assert(Seq::<String>::empty() + joined =~= joined);
    if joined.len() > 0 {
        let i = joined.len() - 1;
        assert(outcomes[i] == Ok::<String, String>(joined[i]));
        assert forall|j: int| 0 <= j <= i implies #[trigger] outcomes[j] is Ok by {
            assert(outcomes[j] == Ok::<String, String>(joined[j]));
        }
        assert(outcomes[0] is Ok);
    }
}

/// A bucket operation succeeds exactly if every one of its tasks does; else it fails
/// with the first failure that was joined.
pub proof fn bucket_operation_needs_every_task(
    outcomes: Seq<Result<(), String>>,
    context: Seq<char>,
    steps: Seq<JoinStep>,
)
    requires
        is_join_run(outcomes, context, steps),
    ensures
        match steps.last() {
            JoinStep::Answer(Ok(_)) => steps.len() == outcomes.len() + 1 && forall|i: int|
                0 <= i < outcomes.len() ==> #[trigger] outcomes[i] is Ok,
            JoinStep::Answer(Err(error)) => {
                &&& steps.len() <= outcomes.len()
                &&& forall|i: int| 0 <= i < steps.len() - 1 ==> #[trigger] outcomes[i] is Ok
                &&& outcomes[steps.len() - 1] matches Err(failure) && error.says(
                    S3ErrorCode::InternalError,
                    context + failure@,
                )
            },
            JoinStep::Wait => false,
        },
{
    let end = steps.len() - 1;
    assert(join_step(joined_at(outcomes, end), context, steps[end]));
    assert forall|i: int| 0 <= i < end implies i < outcomes.len() && #[trigger] outcomes[i]
        is Ok by {
        assert(steps[i] is Wait);
        assert(join_step(joined_at(outcomes, i), context, steps[i]));
    }
    if end > outcomes.len() {
        let at = outcomes.len() as int;
        assert(steps[at] is Wait);
        assert(join_step(joined_at(outcomes, at), context, steps[at]));
    }
}

/// The turns of the joining of a part's tasks: whether to join another after each, from
/// the first to the one that ends it.
pub open spec fn is_part_joining(outcomes: Seq<Result<(), String>>, turns: Seq<bool>) -> bool {
    &&& turns.len() > 0
    &&& forall|i: int|
        0 <= i < turns.len() ==> #[trigger] turns[i] == (joined_at(outcomes, i) is Some)
    &&& forall|i: int| 0 <= i < turns.len() - 1 ==> #[trigger] turns[i]
    &&& !turns.last()
}

/// A part that is sent or copied waits for every one of its tasks, whatever comes of
/// them: a failed task does not end the joining.
pub proof fn part_waits_for_every_task(outcomes: Seq<Result<(), String>>, turns: Seq<bool>)
    requires
        is_part_joining(outcomes, turns),
    ensures
        turns.len() == outcomes.len() + 1,
{
    let end = turns.len() - 1;
    assert(!turns[end]);
    if end > outcomes.len() {
        assert(turns[outcomes.len() as int]);
    }
}

/// No length is lost on the way through the directory.
pub proof fn sizes_round_trip(length: i64)
    ensures
        0 <= unsigned_size(length) <= u64::MAX,
        signed_size(unsigned_size(length) as u64) == length,
{
}

/// A listing shows the length that the store measured: if the directory lists a copy
/// with the size that was reported to it, the client sees the measured length.
pub proof fn listing_shows_measured_length(
    report: PatchUploadIsCompleted,
    id: i32,
    e_tag: String,
    head: HeadObjectOutput,
    listed: ObjectResponse,
    modified: Timestamp,
    entry: Object,
)
    requires
        is_completion(report, id, e_tag, head),
        listed.size == report.size,
        is_object_entry(entry, listed, modified),
    ensures
        entry.size == head.content_length,
{
    sizes_round_trip(head.content_length);
}

/// A listing shows the date that the store measured, cut to the millisecond and read
/// at UTC: if the directory lists a copy with the date that was reported to it, this
/// is what the client sees, for dates from the year zero on.
pub proof fn listing_shows_measured_date(
    report: PatchUploadIsCompleted,
    id: i32,
    e_tag: String,
    head: HeadObjectOutput,
    listed: ObjectResponse,
    entries: Seq<Object>,
    listing: Seq<ObjectResponse>,
    i: int,
)
    requires
        is_completion(report, id, e_tag, head),
        head.last_modified.wall_nanos >= YEAR_ZERO_WALL_NANOS,
        listed.last_modified@ == report.last_modified@,
        are_object_entries(entries, listing),
        0 <= i < listing.len(),
        listing[i] == listed,
    ensures
        entries[i].last_modified == Some(head.last_modified.in_millis()),
{
}

/// An upload tells the directory of the copy that it wrote: the data is written to and
/// measured at the place of one copy, and the report has the id of that copy and the
/// length, the e-tag and the date that the store measured, whatever e-tag the store gave
/// when it took the data; that one is reported only if the store measured none.
pub proof fn report_is_of_the_written_copy(
    locators: Seq<LocateObjectResponse>,
    i: int,
    e_tag: String,
    head: HeadObjectOutput,
    head_e_tag: Option<String>,
    report: PatchUploadIsCompleted,
)
    requires
        0 <= i < locators.len(),
        is_completion(
            report,
            stored_copy(upload_tasks(locators)[i].locator, e_tag).id,
            reported_e_tag(stored_copy(upload_tasks(locators)[i].locator, e_tag), head_e_tag),
            head,
        ),
    ensures
        upload_tasks(locators).len() == locators.len(),
        call_at(upload_tasks(locators)[i].locator) == call_at(locators[i]),
        report.id == locators[i].id,
        signed_size(report.size) == head.content_length,
        head_e_tag matches Some(measured) ==> report.etag == measured,
        head_e_tag is None ==> report.etag == e_tag,
        is_date_text(report.last_modified@, head.last_modified),
{
    sizes_round_trip(head.content_length);
}

/// Every region has a store: what is asked at startup, and what the directory asks by
/// the tag of a region, goes to a store.
pub proof fn every_region_has_a_store(
    proxy: SkyProxy,
    i: int,
    call: StoreCall<CreateBucketInput>,
    index: Option<usize>,
)
    requires
        0 <= i < proxy.regions@.len(),
        SkyProxy::is_startup_call(proxy.regions@[i], call),
        proxy.is_store_index(call.tag@, index),
    ensures
        index is Some,
        proxy.regions@[index->Some_0 as int]@ == proxy.regions@[i]@,
{
}

/// The buckets that the proxy creates at startup are never created a second time.
pub proof fn startup_buckets_are_only_reported(
    region: String,
    call: StoreCall<CreateBucketInput>,
    locator: LocateBucketResponse,
)
    requires
        SkyProxy::is_startup_call(region, call),
        locator.bucket@ == call.request.bucket@,
    ensures
        bucket_work(locator) is Report,
{
    assert("skystore-"@.is_prefix_of(call.request.bucket@));
}

} // verus!
