//! What the stores hold once they have done what the proxy asked of them.

use crate::deletion::{deletion_tasks, DeletionTask};
use crate::dto::{CopyObjectInput, ObjectPlace, StoreCall};
use crate::error::S3Error;
use crate::models::{KeyLocators, LocateReply, StartUploadResponse};
use crate::objects::{
    call_at, copy_call, copy_tasks, routes, upload_tasks, CopyTask, PutLocating, PutStep,
    UploadTask,
};
use crate::proxy::{found, locate_failed};
use vstd::prelude::*;

verus! {

/// A place in one of the stores: the store's tag, the bucket and the key.
pub type Place = (Seq<char>, Seq<char>, Seq<char>);

/// What the stores hold.
pub type Contents = Map<Place, Seq<u8>>;

/// The place that a request names.
pub open spec fn place_of(call: StoreCall<ObjectPlace>) -> Place {
    (call.tag@, call.request.bucket@, call.request.key@)
}

/// The place that a copy is read from.
pub open spec fn source_of(call: StoreCall<CopyObjectInput>) -> Place {
    (call.tag@, call.request.src_bucket@, call.request.src_key@)
}

/// The place that a copy is written to.
pub open spec fn target_of(call: StoreCall<CopyObjectInput>) -> Place {
    (call.tag@, call.request.bucket@, call.request.key@)
}

/// What the stores hold once the data was written to the place of each call, one
/// call after the other.
pub open spec fn after_writes(
    contents: Contents,
    calls: Seq<StoreCall<ObjectPlace>>,
    data: Seq<u8>,
) -> Contents
    decreases calls.len(),
{
    if calls.len() == 0 {
        contents
    } else {
        after_writes(contents, calls.drop_last(), data).insert(place_of(calls.last()), data)
    }
}

/// What the stores hold once the copies were made, one call after the other.
pub open spec fn after_copies(contents: Contents, calls: Seq<StoreCall<CopyObjectInput>>) -> Contents
    decreases calls.len(),
{
    if calls.len() == 0 {
        contents
    } else {
        let before = after_copies(contents, calls.drop_last());
        before.insert(target_of(calls.last()), before[source_of(calls.last())])
    }
}

/// What the stores hold once the object at the place of each call was deleted, one
/// call after the other.
pub open spec fn after_deletes(contents: Contents, calls: Seq<StoreCall<ObjectPlace>>) -> Contents
    decreases calls.len(),
{
    if calls.len() == 0 {
        contents
    } else {
        after_deletes(contents, calls.drop_last()).remove(place_of(calls.last()))
    }
}

/// The calls that the tasks of an upload make.
pub open spec fn upload_calls(tasks: Seq<UploadTask>) -> Seq<StoreCall<ObjectPlace>> {
    tasks.map_values(|task: UploadTask| call_at(task.locator))
}

/// The calls that the tasks of a copy operation make.
pub open spec fn copy_calls(tasks: Seq<CopyTask>) -> Seq<StoreCall<CopyObjectInput>> {
    tasks.map_values(|task: CopyTask| copy_call(task))
}

/// The calls that the tasks of a deletion make.
pub open spec fn deletion_calls(tasks: Seq<DeletionTask>) -> Seq<StoreCall<ObjectPlace>> {
    tasks.map_values(|task: DeletionTask| call_at(task.locator))
}

/// Some call names the place.
pub open spec fn names(calls: Seq<StoreCall<ObjectPlace>>, place: Place) -> bool {
    exists|i: int| 0 <= i < calls.len() && place_of(#[trigger] calls[i]) == place
}

/// Some copy is written to the place.
pub open spec fn writes(calls: Seq<StoreCall<CopyObjectInput>>, place: Place) -> bool {
    exists|i: int| 0 <= i < calls.len() && target_of(#[trigger] calls[i]) == place
}

/// What was planned is done, in whatever order.
pub(crate) proof fn reordered_contains<T>(calls: Seq<T>, planned: Seq<T>, i: int)
    requires
        calls.to_multiset() == planned.to_multiset(),
        0 <= i < planned.len(),
    ensures
        calls.contains(planned[i]),
{
    assert(planned.contains(planned[i]));
    vstd::seq_lib::to_multiset_contains(planned, planned[i]);
    vstd::seq_lib::to_multiset_contains(calls, planned[i]);
}

/// Writing the same data to some places leaves it in these places, and every other
/// place as it was.
pub proof fn writes_reach_their_places(
    contents: Contents,
    calls: Seq<StoreCall<ObjectPlace>>,
    data: Seq<u8>,
    place: Place,
)
    ensures
        names(calls, place) ==> after_writes(contents, calls, data).contains_key(place)
            && after_writes(contents, calls, data)[place] == data,
        !names(calls, place) ==> (after_writes(contents, calls, data).contains_key(place)
            == contents.contains_key(place) && after_writes(contents, calls, data)[place]
            == contents[place]),
    decreases calls.len(),
{
    if calls.len() > 0 {
        let fewer = calls.drop_last();
        writes_reach_their_places(contents, fewer, data, place);
        if names(fewer, place) {
            let i = choose|i: int| 0 <= i < fewer.len() && place_of(fewer[i]) == place;
            assert(place_of(calls[i]) == place);
        }
        if names(calls, place) && place_of(calls.last()) != place {
            let i = choose|i: int| 0 <= i < calls.len() && place_of(calls[i]) == place;
            assert(place_of(fewer[i]) == place);
        }
        if place_of(calls.last()) == place {
            assert(place_of(calls[calls.len() - 1]) == place);
        }
    }
}

/// Deleting the objects at some places leaves nothing in these places, and every
/// other place as it was.
pub proof fn deletes_clear_their_places(
    contents: Contents,
    calls: Seq<StoreCall<ObjectPlace>>,
    place: Place,
)
    ensures
        names(calls, place) ==> !after_deletes(contents, calls).contains_key(place),
        !names(calls, place) ==> (after_deletes(contents, calls).contains_key(place)
            == contents.contains_key(place) && after_deletes(contents, calls)[place]
            == contents[place]),
    decreases calls.len(),
{
    if calls.len() > 0 {
        let fewer = calls.drop_last();
        deletes_clear_their_places(contents, fewer, place);
        if names(fewer, place) {
            let i = choose|i: int| 0 <= i < fewer.len() && place_of(fewer[i]) == place;
            assert(place_of(calls[i]) == place);
        }
        if names(calls, place) && place_of(calls.last()) != place {
            let i = choose|i: int| 0 <= i < calls.len() && place_of(calls[i]) == place;
            assert(place_of(fewer[i]) == place);
        }
        if place_of(calls.last()) == place {
            assert(place_of(calls[calls.len() - 1]) == place);
        }
    }
}

/// Copies whose sources all hold the same data leave that data in their targets and
/// in their sources, and every other place as it was.
pub(crate) proof fn copies_spread_data(
    contents: Contents,
    calls: Seq<StoreCall<CopyObjectInput>>,
    data: Seq<u8>,
    place: Place,
)
    requires
        forall|i: int|
            0 <= i < calls.len() ==> contents.contains_key(source_of(#[trigger] calls[i]))
                && contents[source_of(calls[i])] == data,
    ensures
        writes(calls, place) ==> after_copies(contents, calls).contains_key(place) && after_copies(
            contents,
            calls,
        )[place] == data,
        !writes(calls, place) ==> (after_copies(contents, calls).contains_key(place)
            == contents.contains_key(place) && after_copies(contents, calls)[place]
            == contents[place]),
    decreases calls.len(),
{
    if calls.len() > 0 {
        let fewer = calls.drop_last();
        assert forall|i: int| 0 <= i < fewer.len() implies contents.contains_key(
            source_of(#[trigger] fewer[i]),
        ) && contents[source_of(fewer[i])] == data by {
            assert(fewer[i] == calls[i]);
        }
        copies_spread_data(contents, fewer, data, place);
        copies_spread_data(contents, fewer, data, source_of(calls.last()));
        assert(calls[calls.len() - 1] == calls.last());
        if writes(fewer, place) {
            let i = choose|i: int| 0 <= i < fewer.len() && target_of(fewer[i]) == place;
            assert(target_of(calls[i]) == place);
        }
        if writes(calls, place) && target_of(calls.last()) != place {
            let i = choose|i: int| 0 <= i < calls.len() && target_of(calls[i]) == place;
            assert(target_of(fewer[i]) == place);
        }
    }
}

/// A client reads what a client wrote: once the tasks of an upload have written the
/// data, in whatever order, and the directory names one of the places of the upload,
/// the request of a client that reads or measures the object goes to a place that
/// holds the data.
pub proof fn read_gives_what_was_put(
    contents: Contents,
    response: StartUploadResponse,
    calls: Seq<StoreCall<ObjectPlace>>,
    data: Seq<u8>,
    reply: LocateReply,
    missing: Seq<char>,
    step: Result<StoreCall<ObjectPlace>, S3Error>,
)
    requires
        calls.to_multiset() == upload_calls(upload_tasks(response.locators@)).to_multiset(),
        found(reply) matches Some(locator) && exists|i: int|
            0 <= i < response.locators@.len() && place_of(
                call_at(#[trigger] response.locators@[i]),
            ) == place_of(call_at(locator)),
        routes(reply, missing, step),
    ensures
        step matches Ok(call) && after_writes(contents, calls, data).contains_key(place_of(call))
            && after_writes(contents, calls, data)[place_of(call)] == data,
{
    let locator = found(reply)->Some_0;
    let planned = upload_calls(upload_tasks(response.locators@));
    let i = choose|i: int|
        0 <= i < response.locators@.len() && place_of(call_at(#[trigger] response.locators@[i]))
            == place_of(call_at(locator));
    assert(planned[i] == call_at(response.locators@[i]));
    reordered_contains(calls, planned, i);
    let j = choose|j: int| 0 <= j < calls.len() && calls[j] == planned[i];
    assert(place_of(calls[j]) == place_of(call_at(locator)));
    writes_reach_their_places(contents, calls, data, place_of(call_at(locator)));
}

/// An upload as it happened: how it went on from the directory's reply, the places that
/// the directory named if it was asked for them, and the calls that wrote the data.
pub struct Put {
    pub locating: PutLocating,
    pub reply: LocateReply,
    pub step: PutStep,
    pub response: StartUploadResponse,
    pub calls: Seq<StoreCall<ObjectPlace>>,
    pub data: Seq<u8>,
}

impl Put {
    /// The upload kept to its steps: it wrote to the places that the directory named, in
    /// whatever order, or nowhere if it was answered at once.
    pub open spec fn happened(&self) -> bool {
        &&& self.locating.goes_on(self.reply, self.step)
        &&& match self.step {
            PutStep::Answer(_) => self.calls.len() == 0,
            PutStep::Start(_, _) => self.calls.to_multiset() == upload_calls(
                upload_tasks(self.response.locators@),
            ).to_multiset(),
        }
    }

    /// The directory did not say that there is no such object: it named a copy, or it
    /// could not tell.
    pub open spec fn not_missing(&self) -> bool {
        found(self.reply) is Some || locate_failed(self.reply)
    }
}

/// What the stores hold after some uploads, one after the other.
pub open spec fn after_puts(contents: Contents, puts: Seq<Put>) -> Contents
    decreases puts.len(),
{
    if puts.len() == 0 {
        contents
    } else {
        after_writes(after_puts(contents, puts.drop_last()), puts.last().calls, puts.last().data)
    }
}

/// Uploads of an object that the directory does not report missing leave the stores as
/// they were.
pub proof fn later_puts_write_nothing(contents: Contents, puts: Seq<Put>)
    requires
        forall|i: int|
            0 <= i < puts.len() ==> (#[trigger] puts[i]).happened() && puts[i].not_missing(),
    ensures
        forall|i: int| 0 <= i < puts.len() ==> (#[trigger] puts[i]).step is Answer,
        after_puts(contents, puts) == contents,
    decreases puts.len(),
{
    if puts.len() > 0 {
        let sooner = puts.drop_last();
        assert forall|i: int| 0 <= i < sooner.len() implies (#[trigger] sooner[i]).happened()
            && sooner[i].not_missing() by {
            assert(sooner[i] == puts[i]);
        }
        later_puts_write_nothing(contents, sooner);
        assert forall|i: int| 0 <= i < puts.len() implies (#[trigger] puts[i]).step is Answer by {
            if i < sooner.len() {
                assert(sooner[i] == puts[i]);
            }
        }
        assert(puts[puts.len() - 1].happened());
    }
}

/// The first upload stays: once an upload of an object that did not exist has written
/// its data, any number of further uploads, none of which the directory answers with
/// the word that there is no such object, change nothing, and the request of a client
/// that reads or measures the object goes to a place that holds the data of the first
/// upload. Each further upload that finds the object is answered with the directory's
/// e-tag of it.
pub proof fn read_gives_what_was_put_first(
    contents: Contents,
    first: Put,
    later: Seq<Put>,
    reply: LocateReply,
    missing: Seq<char>,
    step: Result<StoreCall<ObjectPlace>, S3Error>,
)
    requires
        first.happened(),
        first.step is Start,
        forall|i: int|
            0 <= i < later.len() ==> (#[trigger] later[i]).happened() && later[i].not_missing(),
        found(reply) matches Some(locator) && exists|i: int|
            0 <= i < first.response.locators@.len() && place_of(
                call_at(#[trigger] first.response.locators@[i]),
            ) == place_of(call_at(locator)),
        routes(reply, missing, step),
    ensures
        step matches Ok(call) && after_puts(
            after_writes(contents, first.calls, first.data),
            later,
        ).contains_key(place_of(call)) && after_puts(
            after_writes(contents, first.calls, first.data),
            later,
        )[place_of(call)] == first.data,
        forall|i: int|
            0 <= i < later.len() && found((#[trigger] later[i]).reply) is Some ==> (
            later[i].step matches PutStep::Answer(Ok(output)) && output.e_tag == found(
                later[i].reply,
            )->Some_0.etag),
{
    read_gives_what_was_put(
        contents,
        first.response,
        first.calls,
        first.data,
        reply,
        missing,
        step,
    );
    later_puts_write_nothing(after_writes(contents, first.calls, first.data), later);
}

/// A client reads what a client copied: once the tasks of a copy operation have run,
/// in whatever order, in stores that had the data in each of the sources, and the
/// directory names one of the places that were copied to, the request of a client
/// that reads or measures the copy goes to a place that holds the data.
pub proof fn read_gives_what_was_copied(
    contents: Contents,
    response: StartUploadResponse,
    calls: Seq<StoreCall<CopyObjectInput>>,
    data: Seq<u8>,
    reply: LocateReply,
    missing: Seq<char>,
    step: Result<StoreCall<ObjectPlace>, S3Error>,
)
    requires
        calls.to_multiset() == copy_calls(copy_tasks(response)).to_multiset(),
        forall|i: int|
            0 <= i < copy_tasks(response).len() ==> contents.contains_key(
                source_of(copy_call(#[trigger] copy_tasks(response)[i])),
            ) && contents[source_of(copy_call(copy_tasks(response)[i]))] == data,
        found(reply) matches Some(locator) && exists|i: int|
            0 <= i < copy_tasks(response).len() && target_of(
                copy_call(#[trigger] copy_tasks(response)[i]),
            ) == place_of(call_at(locator)),
        routes(reply, missing, step),
    ensures
        step matches Ok(call) && after_copies(contents, calls).contains_key(place_of(call))
            && after_copies(contents, calls)[place_of(call)] == data,
{
    let locator = found(reply)->Some_0;
    let tasks = copy_tasks(response);
    let planned = copy_calls(tasks);
    let i = choose|i: int|
        0 <= i < tasks.len() && target_of(copy_call(#[trigger] tasks[i])) == place_of(
            call_at(locator),
        );
    assert(planned[i] == copy_call(tasks[i]));
    reordered_contains(calls, planned, i);
    let j = choose|j: int| 0 <= j < calls.len() && calls[j] == planned[i];
    assert(target_of(calls[j]) == place_of(call_at(locator)));
    assert forall|k: int| 0 <= k < calls.len() implies contents.contains_key(
        source_of(#[trigger] calls[k]),
    ) && contents[source_of(calls[k])] == data by {
        reordered_contains(planned, calls, k);
        let m = choose|m: int| 0 <= m < planned.len() && planned[m] == calls[k];
        assert(planned[m] == copy_call(tasks[m]));
    }
    copies_spread_data(contents, calls, data, place_of(call_at(locator)));
}

/// Every copy of a key is among the tasks of the deletion.
pub(crate) proof fn tasks_cover_keys(keyed: Seq<KeyLocators>, k: int, i: int) -> (at: int)
    requires
        0 <= k < keyed.len(),
        0 <= i < keyed[k].locators@.len(),
    ensures
        0 <= at < deletion_tasks(keyed).len(),
        deletion_tasks(keyed)[at] == (DeletionTask {
            key: keyed[k].key,
            locator: keyed[k].locators@[i],
        }),
    decreases keyed.len(),
{
    let fewer = deletion_tasks(keyed.drop_last());
    if k == keyed.len() - 1 {
        assert(deletion_tasks(keyed)[fewer.len() + i] == crate::deletion::key_tasks(
            keyed.last(),
        )[i]);
        fewer.len() + i
    } else {
        let at = tasks_cover_keys(keyed.drop_last(), k, i);
        assert(deletion_tasks(keyed)[at] == fewer[at]);
        at
    }
}

/// Deletion leaves no copy behind: once the tasks of a deletion have run, in whatever
/// order, none of the places that the directory named for a key holds an object; and
/// places that it did not name are as they were.
pub proof fn deletion_removes_every_copy(
    contents: Contents,
    keyed: Seq<KeyLocators>,
    calls: Seq<StoreCall<ObjectPlace>>,
)
    requires
        calls.to_multiset() == deletion_calls(deletion_tasks(keyed)).to_multiset(),
    ensures
        forall|k: int, i: int|
            0 <= k < keyed.len() && 0 <= i < keyed[k].locators@.len() ==> !after_deletes(
                contents,
                calls,
            ).contains_key(place_of(call_at(#[trigger] keyed[k].locators@[i]))),
        forall|place: Place|
            !names(deletion_calls(deletion_tasks(keyed)), place) ==> (
            #[trigger] after_deletes(contents, calls).contains_key(place) == contents.contains_key(
                place,
            ) && after_deletes(contents, calls)[place] == contents[place]),
{
    let planned = deletion_calls(deletion_tasks(keyed));
    assert forall|k: int, i: int|
        0 <= k < keyed.len() && 0 <= i < keyed[k].locators@.len() implies !after_deletes(
        contents,
        calls,
    ).contains_key(place_of(call_at(#[trigger] keyed[k].locators@[i]))) by {
        let locator = keyed[k].locators@[i];
        let at = tasks_cover_keys(keyed, k, i);
        assert(planned[at] == call_at(locator));
        reordered_contains(calls, planned, at);
        let j = choose|j: int| 0 <= j < calls.len() && calls[j] == planned[at];
        assert(place_of(calls[j]) == place_of(call_at(locator)));
        deletes_clear_their_places(contents, calls, place_of(call_at(locator)));
    }
    assert forall|place: Place| !names(planned, place) implies (
    #[trigger] after_deletes(contents, calls).contains_key(place) == contents.contains_key(place)
        && after_deletes(contents, calls)[place] == contents[place]) by {
        if names(calls, place) {
            let j = choose|j: int| 0 <= j < calls.len() && place_of(calls[j]) == place;
            reordered_contains(planned, calls, j);
            let m = choose|m: int| 0 <= m < planned.len() && planned[m] == calls[j];
            assert(place_of(planned[m]) == place);
        }
        deletes_clear_their_places(contents, calls, place);
    }
}

} // verus!
