//! What a completed multipart upload holds.

use crate::dto::{
    CompleteMultipartUploadInput, CompletedPart, ObjectPlace, PartPlace, StoreCall,
    UploadPartCopyInput,
};
use crate::error::S3Error;
use crate::laws::runs::{completion_visits_every_copy, is_completing_run};
use crate::laws::storage::{place_of, reordered_contains, Contents, Place};
use crate::models::{ContinueUploadPart, ContinueUploadResponse, LocateReply};
use crate::multipart::{
    can_complete, is_completing_call, part_call, part_copy_call, part_copy_tasks, part_tasks,
    upload_place, CompletingStep, CompletingUploads, PartCopyTask, PartTask,
};
use crate::objects::{call_at, routes};
use crate::parts::{
    ascending, completed_part, completed_parts, is_stable_sort, numbered, numbers_of,
};
use crate::proxy::found;
use vstd::prelude::*;

verus! {

/// No two of a store's parts have the same number.
pub open spec fn distinct_numbers(parts: Seq<ContinueUploadPart>) -> bool {
    forall|i: int, j: int|
        0 <= i < j < parts.len() ==> (#[trigger] parts[i]).part_number != (
        #[trigger] parts[j]).part_number
}

/// The parts ascend by number, and no number comes twice.
pub open spec fn strictly_ascending(parts: Seq<CompletedPart>) -> bool {
    forall|i: int, j: int|
        0 <= i < j < parts.len() ==> (#[trigger] parts[i]).part_number < (
        #[trigger] parts[j]).part_number
}

/// What a store joins from the listed parts, if a part of number `n` holds `data[n]`.
pub open spec fn assembled(parts: Seq<CompletedPart>, data: Map<i32, Seq<u8>>) -> Seq<u8>
    decreases parts.len(),
{
    if parts.len() == 0 {
        Seq::empty()
    } else {
        assembled(parts.drop_last(), data) + data[parts.last().part_number]
    }
}

/// The place that a completed upload is written to.
pub open spec fn completed_place(call: StoreCall<CompleteMultipartUploadInput>) -> Place {
    (call.tag@, call.request.bucket@, call.request.key@)
}

/// A part of an unfinished upload: the upload's place, the store's id of it, and the
/// number of the part.
pub type PartSlot = (Place, Seq<char>, i32);

/// The parts that the stores hold.
pub type Parts = Map<PartSlot, Seq<u8>>;

/// What the parts of an unfinished upload hold, by their numbers.
pub open spec fn held_parts(parts: Parts, place: Place, upload_id: Seq<char>) -> Map<
    i32,
    Seq<u8>,
> {
    Map::new(
        |number: i32| parts.contains_key((place, upload_id, number)),
        |number: i32| parts[(place, upload_id, number)],
    )
}

/// What the stores hold once the uploads were completed, one call after the other, each
/// from the parts that its store holds under the upload's id.
pub open spec fn after_completions(
    contents: Contents,
    parts: Parts,
    calls: Seq<StoreCall<CompleteMultipartUploadInput>>,
) -> Contents
    decreases calls.len(),
{
    if calls.len() == 0 {
        contents
    } else {
        let place = completed_place(calls.last());
        after_completions(contents, parts, calls.drop_last()).insert(
            place,
            assembled(
                calls.last().request.parts@,
                held_parts(parts, place, calls.last().request.upload_id@),
            ),
        )
    }
}

/// The part of one of the copies of an upload.
pub open spec fn slot_at(locator: ContinueUploadResponse, part_number: i32) -> PartSlot {
    (place_of(upload_place(locator)), locator.multipart_upload_id@, part_number)
}

/// The part that a client's request with the given number fills.
pub open spec fn filled_slot(call: StoreCall<PartPlace>, part_number: i32) -> PartSlot {
    (
        (call.tag@, call.request.bucket@, call.request.key@),
        call.request.upload_id@,
        part_number,
    )
}

/// The part that a request to copy a part fills.
pub open spec fn copied_slot(call: StoreCall<UploadPartCopyInput>) -> PartSlot {
    (
        (call.tag@, call.request.bucket@, call.request.key@),
        call.request.upload_id@,
        call.request.part_number,
    )
}

/// The object that a request to copy a part reads.
pub open spec fn part_source(call: StoreCall<UploadPartCopyInput>) -> Place {
    (call.tag@, call.request.src_bucket@, call.request.src_key@)
}

/// The parts that the stores hold once the client's data was sent as the part of the
/// given number, one call after the other.
pub open spec fn after_part_writes(
    parts: Parts,
    calls: Seq<StoreCall<PartPlace>>,
    part_number: i32,
    data: Seq<u8>,
) -> Parts
    decreases calls.len(),
{
    if calls.len() == 0 {
        parts
    } else {
        after_part_writes(parts, calls.drop_last(), part_number, data).insert(
            filled_slot(calls.last(), part_number),
            data,
        )
    }
}

/// The parts that the stores hold once parts were copied from their objects, one call
/// after the other.
pub open spec fn after_part_copies(
    parts: Parts,
    contents: Contents,
    calls: Seq<StoreCall<UploadPartCopyInput>>,
) -> Parts
    decreases calls.len(),
{
    if calls.len() == 0 {
        parts
    } else {
        after_part_copies(parts, contents, calls.drop_last()).insert(
            copied_slot(calls.last()),
            contents[part_source(calls.last())],
        )
    }
}

/// The calls that the tasks of a part make.
pub open spec fn part_calls(tasks: Seq<PartTask>) -> Seq<StoreCall<PartPlace>> {
    tasks.map_values(|task: PartTask| part_call(task))
}

/// The calls that the tasks of a copied part make.
pub open spec fn part_copy_calls(tasks: Seq<PartCopyTask>) -> Seq<StoreCall<UploadPartCopyInput>> {
    tasks.map_values(|task: PartCopyTask| part_copy_call(task))
}

/// The calls of a part leave the data in the slots that they fill.
proof fn part_writes_fill_slots(
    parts: Parts,
    calls: Seq<StoreCall<PartPlace>>,
    part_number: i32,
    data: Seq<u8>,
    j: int,
)
    requires
        0 <= j < calls.len(),
    ensures
        after_part_writes(parts, calls, part_number, data).contains_key(
            filled_slot(calls[j], part_number),
        ),
        after_part_writes(parts, calls, part_number, data)[filled_slot(calls[j], part_number)]
            == data,
    decreases calls.len(),
{
    if j < calls.len() - 1 {
        assert(calls.drop_last()[j] == calls[j]);
        part_writes_fill_slots(parts, calls.drop_last(), part_number, data, j);
    }
}

/// Sending a part leaves the parts with other numbers as they were.
proof fn part_writes_keep_other_numbers(
    parts: Parts,
    calls: Seq<StoreCall<PartPlace>>,
    part_number: i32,
    data: Seq<u8>,
    slot: PartSlot,
)
    requires
        slot.2 != part_number,
    ensures
        after_part_writes(parts, calls, part_number, data).contains_key(slot)
            == parts.contains_key(slot),
        after_part_writes(parts, calls, part_number, data)[slot] == parts[slot],
    decreases calls.len(),
{
    if calls.len() > 0 {
        part_writes_keep_other_numbers(parts, calls.drop_last(), part_number, data, slot);
    }
}

/// A part reaches every copy: once the tasks of a client's part have sent the data, in
/// whatever order, every copy of the upload has the data as the part of that number,
/// and the parts with other numbers are as they were.
pub proof fn part_reaches_every_copy(
    parts: Parts,
    locators: Seq<ContinueUploadResponse>,
    part_number: i32,
    size: u64,
    calls: Seq<StoreCall<PartPlace>>,
    data: Seq<u8>,
)
    requires
        calls.to_multiset() == part_calls(part_tasks(locators, part_number, size)).to_multiset(),
    ensures
        forall|i: int|
            0 <= i < locators.len() ==> after_part_writes(
                parts,
                calls,
                part_number,
                data,
            ).contains_key(slot_at(#[trigger] locators[i], part_number)) && after_part_writes(
                parts,
                calls,
                part_number,
                data,
            )[slot_at(locators[i], part_number)] == data,
        forall|slot: PartSlot|
            slot.2 != part_number ==> #[trigger] after_part_writes(
                parts,
                calls,
                part_number,
                data,
            ).contains_key(slot) == parts.contains_key(slot) && after_part_writes(
                parts,
                calls,
                part_number,
                data,
            )[slot] == parts[slot],
{
    let planned = part_calls(part_tasks(locators, part_number, size));
    assert forall|i: int| 0 <= i < locators.len() implies after_part_writes(
        parts,
        calls,
        part_number,
        data,
    ).contains_key(slot_at(#[trigger] locators[i], part_number)) && after_part_writes(
        parts,
        calls,
        part_number,
        data,
    )[slot_at(locators[i], part_number)] == data by {
        assert(filled_slot(planned[i], part_number) == slot_at(locators[i], part_number));
        reordered_contains(calls, planned, i);
        let j = choose|j: int| 0 <= j < calls.len() && calls[j] == planned[i];
        part_writes_fill_slots(parts, calls, part_number, data, j);
    }
    assert forall|slot: PartSlot| slot.2 != part_number implies #[trigger] after_part_writes(
        parts,
        calls,
        part_number,
        data,
    ).contains_key(slot) == parts.contains_key(slot) && after_part_writes(
        parts,
        calls,
        part_number,
        data,
    )[slot] == parts[slot] by {
        part_writes_keep_other_numbers(parts, calls, part_number, data, slot);
    }
}

/// Calls that copy a part from objects with the same data leave the data in the slots
/// that they fill.
proof fn part_copies_fill_slots(
    parts: Parts,
    contents: Contents,
    calls: Seq<StoreCall<UploadPartCopyInput>>,
    data: Seq<u8>,
    j: int,
)
    requires
        0 <= j < calls.len(),
        forall|k: int|
            0 <= k < calls.len() ==> contents[part_source(#[trigger] calls[k])] == data,
    ensures
        after_part_copies(parts, contents, calls).contains_key(copied_slot(calls[j])),
        after_part_copies(parts, contents, calls)[copied_slot(calls[j])] == data,
    decreases calls.len(),
{
    let fewer = calls.drop_last();
    assert(contents[part_source(calls[calls.len() - 1])] == data);
    if j < calls.len() - 1 {
        assert forall|k: int| 0 <= k < fewer.len() implies contents[part_source(
            #[trigger] fewer[k],
        )] == data by {
            assert(fewer[k] == calls[k]);
        }
        assert(fewer[j] == calls[j]);
        part_copies_fill_slots(parts, contents, fewer, data, j);
    }
}

/// Copying a part leaves the parts with other numbers as they were.
proof fn part_copies_keep_other_numbers(
    parts: Parts,
    contents: Contents,
    calls: Seq<StoreCall<UploadPartCopyInput>>,
    slot: PartSlot,
)
    requires
        forall|k: int|
            0 <= k < calls.len() ==> (#[trigger] calls[k]).request.part_number != slot.2,
    ensures
        after_part_copies(parts, contents, calls).contains_key(slot) == parts.contains_key(slot),
        after_part_copies(parts, contents, calls)[slot] == parts[slot],
    decreases calls.len(),
{
    if calls.len() > 0 {
        let fewer = calls.drop_last();
        assert forall|k: int| 0 <= k < fewer.len() implies (
        #[trigger] fewer[k]).request.part_number != slot.2 by {
            assert(fewer[k] == calls[k]);
        }
        assert(calls[calls.len() - 1].request.part_number != slot.2);
        part_copies_keep_other_numbers(parts, contents, fewer, slot);
    }
}

/// A copied part reaches every copy: once the tasks of a copied part have run, in
/// whatever order, in stores that had the data in the object to copy from, every copy
/// of the upload has the data as the part of that number, and the parts with other
/// numbers are as they were.
pub proof fn copied_part_reaches_every_copy(
    parts: Parts,
    contents: Contents,
    locators: Seq<ContinueUploadResponse>,
    part_number: i32,
    size: u64,
    calls: Seq<StoreCall<UploadPartCopyInput>>,
    data: Seq<u8>,
)
    requires
        calls.to_multiset() == part_copy_calls(
            part_copy_tasks(locators, part_number, size),
        ).to_multiset(),
        forall|i: int|
            0 <= i < locators.len() ==> (#[trigger] part_copy_tasks(
                locators,
                part_number,
                size,
            )[i]).has_source() && contents[part_source(
                part_copy_call(part_copy_tasks(locators, part_number, size)[i]),
            )] == data,
    ensures
        forall|i: int|
            0 <= i < locators.len() ==> after_part_copies(parts, contents, calls).contains_key(
                slot_at(#[trigger] locators[i], part_number),
            ) && after_part_copies(parts, contents, calls)[slot_at(locators[i], part_number)]
                == data,
        forall|slot: PartSlot|
            slot.2 != part_number ==> #[trigger] after_part_copies(
                parts,
                contents,
                calls,
            ).contains_key(slot) == parts.contains_key(slot) && after_part_copies(
                parts,
                contents,
                calls,
            )[slot] == parts[slot],
{
    let tasks = part_copy_tasks(locators, part_number, size);
    let planned = part_copy_calls(tasks);
    assert forall|k: int| 0 <= k < calls.len() implies (#[trigger] calls[k]).request.part_number
        == part_number by {
        reordered_contains(planned, calls, k);
        let m = choose|m: int| 0 <= m < planned.len() && planned[m] == calls[k];
        assert(planned[m] == part_copy_call(tasks[m]));
    }
    assert forall|slot: PartSlot| slot.2 != part_number implies #[trigger] after_part_copies(
        parts,
        contents,
        calls,
    ).contains_key(slot) == parts.contains_key(slot) && after_part_copies(
        parts,
        contents,
        calls,
    )[slot] == parts[slot] by {
        part_copies_keep_other_numbers(parts, contents, calls, slot);
    }
    assert forall|k: int| 0 <= k < calls.len() implies contents[part_source(#[trigger] calls[k])]
        == data by {
        reordered_contains(planned, calls, k);
        let m = choose|m: int| 0 <= m < planned.len() && planned[m] == calls[k];
        assert(planned[m] == part_copy_call(tasks[m]));
    }
    assert forall|i: int| 0 <= i < locators.len() implies after_part_copies(
        parts,
        contents,
        calls,
    ).contains_key(slot_at(#[trigger] locators[i], part_number)) && after_part_copies(
        parts,
        contents,
        calls,
    )[slot_at(locators[i], part_number)] == data by {
        assert(planned[i] == part_copy_call(tasks[i]));
        assert(copied_slot(planned[i]) == slot_at(locators[i], part_number));
        reordered_contains(calls, planned, i);
        let j = choose|j: int| 0 <= j < calls.len() && calls[j] == planned[i];
        part_copies_fill_slots(parts, contents, calls, data, j);
    }
}

/// A number is among those of the parts exactly if some part has it.
pub(crate) proof fn numbers_are_those_of_parts(parts: Seq<CompletedPart>, number: i32)
    ensures
        numbers_of(parts).contains(number) == (exists|i: int|
            0 <= i < parts.len() && (#[trigger] parts[i]).part_number == number),
{
    let all = parts.map_values(|part: CompletedPart| part.part_number);
    if numbers_of(parts).contains(number) {
        let i = choose|i: int| 0 <= i < all.len() && all[i] == number;
        assert(parts[i].part_number == number);
    }
    if exists|i: int| 0 <= i < parts.len() && (#[trigger] parts[i]).part_number == number {
        let i = choose|i: int| 0 <= i < parts.len() && (#[trigger] parts[i]).part_number == number;
        assert(all[i] == number);
    }
}

/// The parts with a number are among the parts.
proof fn numbered_parts_are_parts(parts: Seq<CompletedPart>, number: i32, k: int)
    requires
        0 <= k < numbered(parts, number).len(),
    ensures
        parts.contains(numbered(parts, number)[k]),
        numbered(parts, number)[k].part_number == number,
    decreases parts.len(),
{
    reveal(Seq::filter);
    let fewer = parts.drop_last();
    let named = numbered(parts, number)[k];
    if k < numbered(fewer, number).len() {
        numbered_parts_are_parts(fewer, number, k);
        assert(named == numbered(fewer, number)[k]);
        let i = choose|i: int| 0 <= i < fewer.len() && fewer[i] == named;
        assert(parts[i] == named);
    } else {
        assert(parts[parts.len() - 1] == named);
    }
}

/// A part is among those with its number.
proof fn parts_are_numbered(parts: Seq<CompletedPart>, i: int)
    requires
        0 <= i < parts.len(),
    ensures
        numbered(parts, parts[i].part_number).contains(parts[i]),
{
    let number = parts[i].part_number;
    parts.lemma_filter_contains(|part: CompletedPart| part.part_number == number, i);
}

/// Two parts with the same number are two parts with that number.
proof fn pairs_are_counted(parts: Seq<CompletedPart>, i: int, j: int)
    requires
        0 <= i < j < parts.len(),
        parts[i].part_number == parts[j].part_number,
    ensures
        numbered(parts, parts[i].part_number).len() >= 2,
    decreases parts.len(),
{
    reveal(Seq::filter);
    let fewer = parts.drop_last();
    if j == parts.len() - 1 {
        parts_are_numbered(fewer, i);
        assert(fewer[i] == parts[i]);
        assert(numbered(fewer, parts[i].part_number).len() >= 1);
    } else {
        pairs_are_counted(fewer, i, j);
        assert(fewer[i] == parts[i]);
    }
}

/// Of parts with different numbers at most one has a given number.
proof fn distinct_numbers_count_once(parts: Seq<CompletedPart>, number: i32)
    requires
        forall|i: int, j: int|
            0 <= i < j < parts.len() ==> (#[trigger] parts[i]).part_number != (
            #[trigger] parts[j]).part_number,
    ensures
        numbered(parts, number).len() <= 1,
    decreases parts.len(),
{
    reveal(Seq::filter);
    if parts.len() > 0 {
        let fewer = parts.drop_last();
        distinct_numbers_count_once(fewer, number);
        if parts.last().part_number == number && numbered(fewer, number).len() > 0 {
            numbered_parts_are_parts(fewer, number, 0);
            let i = choose|i: int|
                0 <= i < fewer.len() && fewer[i] == numbered(fewer, number)[0];
            assert(parts[i].part_number != parts[parts.len() - 1].part_number);
        }
    }
}

/// A stable sort holds the parts that it was given.
proof fn sorted_parts_are_the_parts(
    sorted: Seq<CompletedPart>,
    parts: Seq<CompletedPart>,
    i: int,
)
    requires
        forall|number: i32| #[trigger] numbered(sorted, number) == numbered(parts, number),
        0 <= i < sorted.len(),
    ensures
        parts.contains(sorted[i]),
{
    let number = sorted[i].part_number;
    parts_are_numbered(sorted, i);
    assert(numbered(sorted, number) == numbered(parts, number));
    let k = choose|k: int|
        0 <= k < numbered(parts, number).len() && numbered(parts, number)[k] == sorted[i];
    numbered_parts_are_parts(parts, number, k);
}

/// Sorting parts with different numbers leaves no two of the same number.
proof fn sorting_keeps_numbers_distinct(sorted: Seq<CompletedPart>, parts: Seq<CompletedPart>)
    requires
        is_stable_sort(sorted, parts),
        forall|i: int, j: int|
            0 <= i < j < parts.len() ==> (#[trigger] parts[i]).part_number != (
            #[trigger] parts[j]).part_number,
    ensures
        strictly_ascending(sorted),
{
    assert forall|i: int, j: int| 0 <= i < j < sorted.len() implies (
    #[trigger] sorted[i]).part_number < (#[trigger] sorted[j]).part_number by {
        assert(ascending(sorted));
        if sorted[i].part_number == sorted[j].part_number {
            let number = sorted[i].part_number;
            pairs_are_counted(sorted, i, j);
            distinct_numbers_count_once(parts, number);
            assert(numbered(sorted, number) == numbered(parts, number));
        }
    }
}

/// Parts with as many different numbers as there are numbers to choose from have all
/// of them.
proof fn all_numbers_are_taken(parts: Seq<CompletedPart>, numbers: Set<i32>)
    requires
        numbers.finite(),
        parts.len() == numbers.len(),
        forall|i: int| 0 <= i < parts.len() ==> numbers.contains((#[trigger] parts[i]).part_number),
        forall|i: int, j: int|
            0 <= i < j < parts.len() ==> (#[trigger] parts[i]).part_number != (
            #[trigger] parts[j]).part_number,
    ensures
        numbers_of(parts) == numbers,
{
    let all = parts.map_values(|part: CompletedPart| part.part_number);
    assert(all.no_duplicates()) by {
        assert forall|i: int, j: int|
            0 <= i < all.len() && 0 <= j < all.len() && i != j implies all[i] != all[j] by {
            if i < j {
                assert(parts[i].part_number != parts[j].part_number);
            } else {
                assert(parts[j].part_number != parts[i].part_number);
            }
        }
    }
    all.unique_seq_to_set();
    vstd::seq_lib::seq_to_set_is_finite(all);
    assert(all.to_set().subset_of(numbers)) by {
        assert forall|number: i32| all.to_set().contains(number) implies numbers.contains(
            number,
        ) by {
            let i = choose|i: int| 0 <= i < all.len() && all[i] == number;
            assert(parts[i].part_number == number);
        }
    }
    vstd::set_lib::lemma_subset_equality(all.to_set(), numbers);
}

/// The completion of a copy lists exactly the client's parts: if the store has no two
/// parts of the same number, the numbers that are listed are the client's, each once
/// and in ascending order, and every listed part is one that the store has.
pub proof fn completion_lists_the_clients_parts(
    client: Seq<CompletedPart>,
    locator: ContinueUploadResponse,
    call: StoreCall<CompleteMultipartUploadInput>,
)
    requires
        can_complete(locator, numbers_of(client)),
        distinct_numbers(locator.parts->Some_0@),
        is_completing_call(call, locator),
    ensures
        strictly_ascending(call.request.parts@),
        numbers_of(call.request.parts@) == numbers_of(client),
        forall|i: int|
            0 <= i < call.request.parts@.len() ==> exists|j: int|
                0 <= j < locator.parts->Some_0@.len() && #[trigger] call.request.parts@[i]
                    == completed_part(#[trigger] locator.parts->Some_0@[j]),
{
    let stored = locator.parts->Some_0@;
    let given = completed_parts(stored);
    let listed = call.request.parts@;
    assert forall|i: int, j: int| 0 <= i < j < given.len() implies (
    #[trigger] given[i]).part_number != (#[trigger] given[j]).part_number by {
        assert(stored[i].part_number != stored[j].part_number);
    }
    sorting_keeps_numbers_distinct(listed, given);
    assert forall|i: int| 0 <= i < given.len() implies numbers_of(client).contains(
        (#[trigger] given[i]).part_number,
    ) by {
        assert(numbers_of(client).contains(stored[i].part_number));
    }
    vstd::seq_lib::seq_to_set_is_finite(
        client.map_values(|part: CompletedPart| part.part_number),
    );
    all_numbers_are_taken(given, numbers_of(client));
    assert forall|number: i32| #[trigger]
        numbers_of(listed).contains(number) == numbers_of(given).contains(number) by {
        numbers_are_those_of_parts(listed, number);
        numbers_are_those_of_parts(given, number);
        if numbers_of(listed).contains(number) {
            let i = choose|i: int|
                0 <= i < listed.len() && (#[trigger] listed[i]).part_number == number;
            sorted_parts_are_the_parts(listed, given, i);
            let j = choose|j: int| 0 <= j < given.len() && given[j] == listed[i];
            assert(given[j].part_number == number);
        }
        if numbers_of(given).contains(number) {
            let i = choose|i: int|
                0 <= i < given.len() && (#[trigger] given[i]).part_number == number;
            sorted_parts_are_the_parts(given, listed, i);
            let j = choose|j: int| 0 <= j < listed.len() && listed[j] == given[i];
            assert(listed[j].part_number == number);
        }
    }
    assert(numbers_of(listed) =~= numbers_of(given));
    assert forall|i: int| 0 <= i < listed.len() implies exists|j: int|
        0 <= j < stored.len() && #[trigger] listed[i] == completed_part(
            #[trigger] stored[j],
        ) by {
        sorted_parts_are_the_parts(listed, given, i);
        let j = choose|j: int| 0 <= j < given.len() && given[j] == listed[i];
        assert(listed[i] == completed_part(stored[j]));
    }
}

/// The last part is the last of those with its number; the parts with another number
/// are the same without it.
proof fn last_part_is_last_of_its_number(parts: Seq<CompletedPart>, number: i32)
    requires
        parts.len() > 0,
    ensures
        number == parts.last().part_number ==> numbered(parts, number) == numbered(
            parts.drop_last(),
            number,
        ).push(parts.last()),
        number != parts.last().part_number ==> numbered(parts, number) == numbered(
            parts.drop_last(),
            number,
        ),
{
    reveal(Seq::filter);
}

/// There is but one way to sort parts and keep the order of those with the same number.
proof fn stable_sort_is_unique(left: Seq<CompletedPart>, right: Seq<CompletedPart>)
    requires
        ascending(left),
        ascending(right),
        forall|number: i32| #[trigger] numbered(left, number) == numbered(right, number),
    ensures
        left == right,
    decreases left.len(),
{
    if left.len() == 0 {
        if right.len() > 0 {
            sorted_parts_are_the_parts(right, left, 0);
        }
        assert(left =~= right);
    } else {
        sorted_parts_are_the_parts(left, right, left.len() - 1);
        let j = choose|j: int| 0 <= j < right.len() && right[j] == left[left.len() - 1];
        let top = right.len() - 1;
        sorted_parts_are_the_parts(right, left, top);
        let i = choose|i: int| 0 <= i < left.len() && left[i] == right[top];
        assert(right[j].part_number <= right[top].part_number);
        assert(left[i].part_number <= left[left.len() - 1].part_number);
        let high = left.last().part_number;
        assert(right.last().part_number == high);
        let below_left = left.drop_last();
        let below_right = right.drop_last();
        last_part_is_last_of_its_number(left, high);
        last_part_is_last_of_its_number(right, high);
        assert(numbered(left, high) == numbered(right, high));
        assert(numbered(left, high).last() == left.last());
        assert(numbered(right, high).last() == right.last());
        assert forall|number: i32| #[trigger]
            numbered(below_left, number) == numbered(below_right, number) by {
            assert(numbered(left, number) == numbered(right, number));
            last_part_is_last_of_its_number(left, number);
            last_part_is_last_of_its_number(right, number);
            if number == high {
                assert(numbered(below_left, number) =~= numbered(left, number).drop_last());
                assert(numbered(below_right, number) =~= numbered(right, number).drop_last());
            }
        }
        stable_sort_is_unique(below_left, below_right);
        assert(left =~= below_left.push(left.last()));
        assert(right =~= below_right.push(right.last()));
    }
}

/// Two requests complete the same upload at the same place from the same parts in the
/// same order.
pub open spec fn completes_alike(
    left: StoreCall<CompleteMultipartUploadInput>,
    right: StoreCall<CompleteMultipartUploadInput>,
) -> bool {
    &&& left.tag == right.tag
    &&& left.request.bucket == right.request.bucket
    &&& left.request.key == right.request.key
    &&& left.request.upload_id == right.request.upload_id
    &&& left.request.parts@ == right.request.parts@
}

/// A completion depends on nothing of the client's list but the set of the numbers in
/// it: whatever the order of two lists of the same numbers, how often they name a number
/// and which e-tags they give, the same copies can be completed, and they are completed
/// by the same requests in the same order.
pub proof fn completion_depends_on_the_numbers_alone(
    left_client: Seq<CompletedPart>,
    right_client: Seq<CompletedPart>,
    left: CompletingUploads,
    right: CompletingUploads,
    left_steps: Seq<CompletingStep>,
    right_steps: Seq<CompletingStep>,
)
    requires
        numbers_of(left_client) == numbers_of(right_client),
        left.numbers@ == numbers_of(left_client),
        right.numbers@ == numbers_of(right_client),
        left.bucket == right.bucket,
        left.key == right.key,
        left.pending@ == right.pending@,
    ensures
        left.ready() == right.ready(),
        forall|i: int|
            0 <= i < left.pending@.len() ==> can_complete(
                #[trigger] left.pending@[i],
                left.numbers@,
            ) == can_complete(right.pending@[i], right.numbers@),
        is_completing_run(left, left_steps) && is_completing_run(right, right_steps) ==> {
            &&& left_steps.len() == right_steps.len()
            &&& forall|i: int|
                0 <= i < left.pending@.len() ==> completes_alike(
                    (#[trigger] left_steps[i])->Complete_1,
                    right_steps[i]->Complete_1,
                )
            &&& left_steps.last() == right_steps.last()
        },
{
    if is_completing_run(left, left_steps) && is_completing_run(right, right_steps) {
        completion_visits_every_copy(left, left_steps);
        completion_visits_every_copy(right, right_steps);
        assert forall|i: int| 0 <= i < left.pending@.len() implies completes_alike(
            (#[trigger] left_steps[i])->Complete_1,
            right_steps[i]->Complete_1,
        ) by {
            let one = left_steps[i]->Complete_1;
            let other = right_steps[i]->Complete_1;
            let given = completed_parts(left.pending@[i].parts->Some_0@);
            assert(right_steps[i] is Complete);
            assert(is_completing_call(one, left.pending@[i]));
            assert(is_completing_call(other, right.pending@[i]));
            assert forall|number: i32| #[trigger]
                numbered(one.request.parts@, number) == numbered(other.request.parts@, number) by {
                assert(numbered(one.request.parts@, number) == numbered(given, number));
                assert(numbered(other.request.parts@, number) == numbered(given, number));
            }
            stable_sort_is_unique(one.request.parts@, other.request.parts@);
        }
    }
}

/// Strictly ascending parts with the same numbers assemble to the same data.
proof fn same_numbers_assemble_alike(
    left: Seq<CompletedPart>,
    right: Seq<CompletedPart>,
    data: Map<i32, Seq<u8>>,
)
    requires
        strictly_ascending(left),
        strictly_ascending(right),
        numbers_of(left) == numbers_of(right),
    ensures
        assembled(left, data) == assembled(right, data),
    decreases left.len(),
{
    if left.len() == 0 {
        if right.len() > 0 {
            numbers_are_those_of_parts(right, right[0].part_number);
            numbers_are_those_of_parts(left, right[0].part_number);
        }
    } else {
        let high = left.last().part_number;
        assert(left[left.len() - 1].part_number == high);
        numbers_are_those_of_parts(left, high);
        numbers_are_those_of_parts(right, high);
        let top = right.last().part_number;
        assert(right[right.len() - 1].part_number == top);
        numbers_are_those_of_parts(left, top);
        numbers_are_those_of_parts(right, top);
        assert(high == top);
        let below_left = left.drop_last();
        let below_right = right.drop_last();
        assert forall|number: i32| #[trigger]
            numbers_of(below_left).contains(number) == numbers_of(below_right).contains(number) by {
            numbers_are_those_of_parts(left, number);
            numbers_are_those_of_parts(right, number);
            numbers_are_those_of_parts(below_left, number);
            numbers_are_those_of_parts(below_right, number);
            if numbers_of(below_left).contains(number) {
                let i = choose|i: int|
                    0 <= i < below_left.len() && (#[trigger] below_left[i]).part_number == number;
                assert(left[i].part_number == number);
                assert(number < high);
                let j = choose|j: int|
                    0 <= j < right.len() && (#[trigger] right[j]).part_number == number;
                assert(below_right[j].part_number == number);
            }
            if numbers_of(below_right).contains(number) {
                let i = choose|i: int|
                    0 <= i < below_right.len() && (#[trigger] below_right[i]).part_number == number;
                assert(right[i].part_number == number);
                assert(number < high);
                let j = choose|j: int|
                    0 <= j < left.len() && (#[trigger] left[j]).part_number == number;
                assert(below_left[j].part_number == number);
            }
        }
        assert(numbers_of(below_left) =~= numbers_of(below_right));
        same_numbers_assemble_alike(below_left, below_right, data);
    }
}

/// Parts of which every listed one holds the same data assemble to the same data.
proof fn same_data_assembles_alike(
    listed: Seq<CompletedPart>,
    left: Map<i32, Seq<u8>>,
    right: Map<i32, Seq<u8>>,
)
    requires
        forall|i: int|
            0 <= i < listed.len() ==> left[(#[trigger] listed[i]).part_number]
                == right[listed[i].part_number],
    ensures
        assembled(listed, left) == assembled(listed, right),
    decreases listed.len(),
{
    if listed.len() > 0 {
        let fewer = listed.drop_last();
        assert forall|i: int| 0 <= i < fewer.len() implies left[(#[trigger] fewer[i]).part_number]
            == right[fewer[i].part_number] by {
            assert(fewer[i] == listed[i]);
        }
        assert(left[listed[listed.len() - 1].part_number] == right[listed[listed.len()
            - 1].part_number]);
        same_data_assembles_alike(fewer, left, right);
    }
}

/// The copies of an upload are completed from fitting parts, and each store holds the
/// client's parts: the part of number `n` holds `data[n]`.
pub open spec fn completes_copies(
    client: Seq<CompletedPart>,
    locators: Seq<ContinueUploadResponse>,
    calls: Seq<StoreCall<CompleteMultipartUploadInput>>,
    parts: Parts,
    data: Map<i32, Seq<u8>>,
) -> bool {
    &&& calls.len() == locators.len()
    &&& forall|i: int|
        0 <= i < locators.len() ==> can_complete(#[trigger] locators[i], numbers_of(client))
            && distinct_numbers(locators[i].parts->Some_0@) && is_completing_call(
            calls[i],
            locators[i],
        )
    &&& forall|i: int, number: i32|
        0 <= i < locators.len() && numbers_of(client).contains(number) ==> parts.contains_key(
            #[trigger] slot_at(locators[i], number),
        ) && parts[slot_at(locators[i], number)] == data[number]
}

/// A client reads the parts that the stores hold, one behind the other: once the copies
/// of an upload have been completed, whose stores hold the same data as the parts that
/// the client lists and no two parts of the same number, and the directory names the
/// place of one of the copies, the request of a client that reads or measures the object
/// goes to a place that holds the data of the parts that the client listed, each once and
/// in the order of their numbers: `ordered` is the client's list put in that order.
pub proof fn read_gives_what_was_assembled(
    contents: Contents,
    parts: Parts,
    client: Seq<CompletedPart>,
    ordered: Seq<CompletedPart>,
    locators: Seq<ContinueUploadResponse>,
    calls: Seq<StoreCall<CompleteMultipartUploadInput>>,
    data: Map<i32, Seq<u8>>,
    reply: LocateReply,
    missing: Seq<char>,
    step: Result<StoreCall<ObjectPlace>, S3Error>,
)
    requires
        strictly_ascending(ordered),
        numbers_of(ordered) == numbers_of(client),
        completes_copies(client, locators, calls, parts, data),
        found(reply) matches Some(locator) && exists|i: int|
            0 <= i < locators.len() && place_of(upload_place(#[trigger] locators[i])) == place_of(
                call_at(locator),
            ),
        routes(reply, missing, step),
    ensures
        step matches Ok(call) && after_completions(contents, parts, calls).contains_key(
            place_of(call),
        ) && after_completions(contents, parts, calls)[place_of(call)] == assembled(ordered, data),
{
    let locator = found(reply)->Some_0;
    let i = choose|i: int|
        0 <= i < locators.len() && place_of(upload_place(#[trigger] locators[i])) == place_of(
            call_at(locator),
        );
    completions_reach_their_places(contents, parts, client, ordered, locators, calls, data, i);
}

/// Completing the copies leaves the client's parts in the place of each of them.
proof fn completions_reach_their_places(
    contents: Contents,
    parts: Parts,
    client: Seq<CompletedPart>,
    ordered: Seq<CompletedPart>,
    locators: Seq<ContinueUploadResponse>,
    calls: Seq<StoreCall<CompleteMultipartUploadInput>>,
    data: Map<i32, Seq<u8>>,
    i: int,
)
    requires
        strictly_ascending(ordered),
        numbers_of(ordered) == numbers_of(client),
        completes_copies(client, locators, calls, parts, data),
        0 <= i < locators.len(),
    ensures
        after_completions(contents, parts, calls).contains_key(
            place_of(upload_place(locators[i])),
        ),
        after_completions(contents, parts, calls)[place_of(upload_place(locators[i]))]
            == assembled(ordered, data),
    decreases calls.len(),
{
    let last = calls.len() - 1;
    let place = place_of(upload_place(locators[i]));
    let listed = calls[last].request.parts@;
    let held = held_parts(
        parts,
        completed_place(calls[last]),
        calls[last].request.upload_id@,
    );
    completion_lists_the_clients_parts(client, locators[last], calls[last]);
    assert(completed_place(calls[last]) == place_of(upload_place(locators[last])));
    assert forall|k: int| 0 <= k < listed.len() implies held[(#[trigger] listed[k]).part_number]
        == data[listed[k].part_number] by {
        let number = listed[k].part_number;
        numbers_are_those_of_parts(listed, number);
        assert(parts.contains_key(slot_at(locators[last], number)));
    }
    same_data_assembles_alike(listed, held, data);
    same_numbers_assemble_alike(listed, ordered, data);
    if completed_place(calls[last]) != place {
        let fewer = locators.drop_last();
        let sooner = calls.drop_last();
        assert forall|k: int| 0 <= k < fewer.len() implies can_complete(
            #[trigger] fewer[k],
            numbers_of(client),
        ) && distinct_numbers(fewer[k].parts->Some_0@) && is_completing_call(
            sooner[k],
            fewer[k],
        ) by {
            assert(fewer[k] == locators[k]);
            assert(sooner[k] == calls[k]);
        }
        assert forall|k: int, number: i32|
            0 <= k < fewer.len() && numbers_of(client).contains(number) implies parts.contains_key(
            #[trigger] slot_at(fewer[k], number),
        ) && parts[slot_at(fewer[k], number)] == data[number] by {
            assert(fewer[k] == locators[k]);
            assert(parts.contains_key(slot_at(locators[k], number)));
        }
        assert(fewer[i] == locators[i]);
        completions_reach_their_places(contents, parts, client, ordered, fewer, sooner, data, i);
    }
}

/// How a part of an upload was filled: with data that a client sent, or with data that
/// the stores copied from objects that they held.
pub enum Filling {
    Sent { calls: Seq<StoreCall<PartPlace>> },
    Copied { copies: Seq<StoreCall<UploadPartCopyInput>>, contents: Contents },
}

/// A part of an upload as it was filled in the copies that the directory named.
pub struct FilledPart {
    pub locators: Seq<ContinueUploadResponse>,
    pub part_number: i32,
    pub size: u64,
    pub data: Seq<u8>,
    pub filling: Filling,
}

impl FilledPart {
    /// The tasks of the part have run, in whatever order; where they copied the part, the
    /// stores had the data in the objects to copy from.
    pub open spec fn happened(&self) -> bool {
        match self.filling {
            Filling::Sent { calls } => calls.to_multiset() == part_calls(
                part_tasks(self.locators, self.part_number, self.size),
            ).to_multiset(),
            Filling::Copied { copies, contents } => {
                let tasks = part_copy_tasks(self.locators, self.part_number, self.size);
                &&& copies.to_multiset() == part_copy_calls(tasks).to_multiset()
                &&& forall|i: int|
                    0 <= i < self.locators.len() ==> (#[trigger] tasks[i]).has_source()
                        && contents[part_source(part_copy_call(tasks[i]))] == self.data
            },
        }
    }

    /// The parts that the stores hold once the part is filled.
    pub open spec fn applied(&self, parts: Parts) -> Parts {
        match self.filling {
            Filling::Sent { calls } => after_part_writes(
                parts,
                calls,
                self.part_number,
                self.data,
            ),
            Filling::Copied { copies, contents } => after_part_copies(parts, contents, copies),
        }
    }

    /// The copies include every one of the given copies of the upload.
    pub open spec fn covers(&self, locators: Seq<ContinueUploadResponse>) -> bool {
        forall|i: int|
            0 <= i < locators.len() ==> exists|j: int|
                0 <= j < self.locators.len() && slot_at(
                    #[trigger] self.locators[j],
                    self.part_number,
                ) == slot_at(#[trigger] locators[i], self.part_number)
    }
}

/// The parts that the stores hold once parts were filled, one after the other.
pub open spec fn after_fillings(parts: Parts, fillings: Seq<FilledPart>) -> Parts
    decreases fillings.len(),
{
    if fillings.len() == 0 {
        parts
    } else {
        fillings.last().applied(after_fillings(parts, fillings.drop_last()))
    }
}

/// What the parts were filled with, by their numbers; a part that was filled more than
/// once counts as it was filled last.
pub open spec fn filled_with(fillings: Seq<FilledPart>) -> Map<i32, Seq<u8>>
    decreases fillings.len(),
{
    if fillings.len() == 0 {
        Map::empty()
    } else {
        filled_with(fillings.drop_last()).insert(
            fillings.last().part_number,
            fillings.last().data,
        )
    }
}

/// Filling a part fills it in every copy, and leaves the parts with other numbers as
/// they were.
proof fn filling_reaches_every_copy(
    parts: Parts,
    filled: FilledPart,
    locators: Seq<ContinueUploadResponse>,
)
    requires
        filled.happened(),
        filled.covers(locators),
    ensures
        forall|i: int|
            0 <= i < locators.len() ==> filled.applied(parts).contains_key(
                slot_at(#[trigger] locators[i], filled.part_number),
            ) && filled.applied(parts)[slot_at(locators[i], filled.part_number)] == filled.data,
        forall|slot: PartSlot|
            slot.2 != filled.part_number ==> #[trigger] filled.applied(parts).contains_key(slot)
                == parts.contains_key(slot) && filled.applied(parts)[slot] == parts[slot],
{
    match filled.filling {
        Filling::Sent { calls } => {
            part_reaches_every_copy(
                parts,
                filled.locators,
                filled.part_number,
                filled.size,
                calls,
                filled.data,
            );
        },
        Filling::Copied { copies, contents } => {
            copied_part_reaches_every_copy(
                parts,
                contents,
                filled.locators,
                filled.part_number,
                filled.size,
                copies,
                filled.data,
            );
        },
    }
    assert forall|i: int| 0 <= i < locators.len() implies filled.applied(parts).contains_key(
        slot_at(#[trigger] locators[i], filled.part_number),
    ) && filled.applied(parts)[slot_at(locators[i], filled.part_number)] == filled.data by {
        let j = choose|j: int|
            0 <= j < filled.locators.len() && slot_at(
                #[trigger] filled.locators[j],
                filled.part_number,
            ) == slot_at(locators[i], filled.part_number);
        assert(filled.applied(parts).contains_key(
            slot_at(filled.locators[j], filled.part_number),
        ));
    }
}

/// Every copy of an upload holds what its parts were filled with: after any mix of sent
/// and copied parts, in whatever order, and with parts that were filled again.
pub proof fn fillings_reach_every_copy(
    parts: Parts,
    fillings: Seq<FilledPart>,
    locators: Seq<ContinueUploadResponse>,
)
    requires
        forall|k: int|
            0 <= k < fillings.len() ==> (#[trigger] fillings[k]).happened() && fillings[k].covers(
                locators,
            ),
    ensures
        forall|i: int, number: i32|
            0 <= i < locators.len() && filled_with(fillings).contains_key(number)
                ==> after_fillings(parts, fillings).contains_key(
                #[trigger] slot_at(locators[i], number),
            ) && after_fillings(parts, fillings)[slot_at(locators[i], number)] == filled_with(
                fillings,
            )[number],
    decreases fillings.len(),
{
    if fillings.len() > 0 {
        let sooner = fillings.drop_last();
        let last = fillings.last();
        let before = after_fillings(parts, sooner);
        assert forall|k: int| 0 <= k < sooner.len() implies (#[trigger] sooner[k]).happened()
            && sooner[k].covers(locators) by {
            assert(sooner[k] == fillings[k]);
        }
        assert(fillings[fillings.len() - 1] == last);
        fillings_reach_every_copy(parts, sooner, locators);
        filling_reaches_every_copy(before, last, locators);
        assert forall|i: int, number: i32|
            0 <= i < locators.len() && filled_with(fillings).contains_key(
                number,
            ) implies after_fillings(parts, fillings).contains_key(
            #[trigger] slot_at(locators[i], number),
        ) && after_fillings(parts, fillings)[slot_at(locators[i], number)] == filled_with(
            fillings,
        )[number] by {
            if number != last.part_number {
                assert(before.contains_key(slot_at(locators[i], number)));
                assert(last.applied(before).contains_key(slot_at(locators[i], number)));
            }
        }
    }
}

/// A client reads the parts that it uploaded: once the parts of an upload have been
/// filled in every copy, sent or copied, and the copies have been completed from parts
/// that the client lists and of which no store has two with the same number, and the
/// directory names the place of one of the copies, the request of a client that reads or
/// measures the object goes to a place that holds what the listed parts were filled
/// with, each once and in the order of their numbers.
pub proof fn read_gives_the_uploaded_parts(
    contents: Contents,
    parts: Parts,
    fillings: Seq<FilledPart>,
    client: Seq<CompletedPart>,
    ordered: Seq<CompletedPart>,
    locators: Seq<ContinueUploadResponse>,
    calls: Seq<StoreCall<CompleteMultipartUploadInput>>,
    reply: LocateReply,
    missing: Seq<char>,
    step: Result<StoreCall<ObjectPlace>, S3Error>,
)
    requires
        forall|k: int|
            0 <= k < fillings.len() ==> (#[trigger] fillings[k]).happened() && fillings[k].covers(
                locators,
            ),
        forall|number: i32| #[trigger]
            numbers_of(client).contains(number) ==> filled_with(fillings).contains_key(number),
        strictly_ascending(ordered),
        numbers_of(ordered) == numbers_of(client),
        calls.len() == locators.len(),
        forall|i: int|
            0 <= i < locators.len() ==> can_complete(#[trigger] locators[i], numbers_of(client))
                && distinct_numbers(locators[i].parts->Some_0@) && is_completing_call(
                calls[i],
                locators[i],
            ),
        found(reply) matches Some(locator) && exists|i: int|
            0 <= i < locators.len() && place_of(upload_place(#[trigger] locators[i])) == place_of(
                call_at(locator),
            ),
        routes(reply, missing, step),
    ensures
        step matches Ok(call) && after_completions(
            contents,
            after_fillings(parts, fillings),
            calls,
        ).contains_key(place_of(call)) && after_completions(
            contents,
            after_fillings(parts, fillings),
            calls,
        )[place_of(call)] == assembled(ordered, filled_with(fillings)),
{
    fillings_reach_every_copy(parts, fillings, locators);
    read_gives_what_was_assembled(
        contents,
        after_fillings(parts, fillings),
        client,
        ordered,
        locators,
        calls,
        filled_with(fillings),
        reply,
        missing,
        step,
    );
}

} // verus!
