//! What a deletion tells the directory and the client, for whatever came of its
//! tasks and in whatever order.

use crate::deletion::{
    answers_for, any_failed, complaint, complaints, completed, deleted_ids, deleted_keys,
    deletion_tasks, failed_keys, is_deleted_entry, is_failed_entry, is_outcome, key_tasks,
    names_deleted, position, position_bounds, recorded, reports_ids, DeletionOutcome,
    DeletionTask, Group,
};
use crate::dto::DeleteObjectsOutput;
use crate::laws::storage::{reordered_contains, tasks_cover_keys};
use crate::models::{DeleteObjectsIsCompleted, KeyLocators};
use vstd::prelude::*;

verus! {

/// The groups of a deletion whose tasks were joined with these outcomes.
pub open spec fn grouped(outcomes: Seq<DeletionOutcome>) -> Seq<Group>
    decreases outcomes.len(),
{
    if outcomes.len() == 0 {
        Seq::empty()
    } else {
        recorded(grouped(outcomes.drop_last()), outcomes.last().key@, outcomes.last().result)
    }
}

/// What came of the tasks for one key, in the order of joining.
pub open spec fn results_for(outcomes: Seq<DeletionOutcome>, key: Seq<char>) -> Seq<
    Result<i32, String>,
>
    decreases outcomes.len(),
{
    if outcomes.len() == 0 {
        Seq::empty()
    } else {
        let results = results_for(outcomes.drop_last(), key);
        if outcomes.last().key@ == key {
            results.push(outcomes.last().result)
        } else {
            results
        }
    }
}

/// No key has two groups.
pub open spec fn distinct_keys(groups: Seq<Group>) -> bool {
    forall|i: int, j: int|
        0 <= i < j < groups.len() ==> (#[trigger] groups[i]).0 != (#[trigger] groups[j]).0
}

/// Some group is that of the key.
pub open spec fn has_group(groups: Seq<Group>, key: Seq<char>) -> bool {
    exists|i: int| 0 <= i < groups.len() && (#[trigger] groups[i]).0 == key
}

/// How often an id was reported by a task.
pub open spec fn times_deleted(outcomes: Seq<DeletionOutcome>, id: i32) -> nat
    decreases outcomes.len(),
{
    if outcomes.len() == 0 {
        0
    } else {
        times_deleted(outcomes.drop_last(), id) + if outcomes.last().result
            == Ok::<i32, String>(id) {
            1nat
        } else {
            0nat
        }
    }
}

/// How often an id stands in a list.
pub open spec fn times_listed(ids: Seq<i32>, id: i32) -> nat
    decreases ids.len(),
{
    if ids.len() == 0 {
        0
    } else {
        times_listed(ids.drop_last(), id) + if ids.last() == id {
            1nat
        } else {
            0nat
        }
    }
}

/// How often an id stands in the reports to the directory.
pub open spec fn times_reported(reports: Seq<Seq<i32>>, id: i32) -> nat
    decreases reports.len(),
{
    if reports.len() == 0 {
        0
    } else {
        times_reported(reports.drop_last(), id) + times_listed(reports.last(), id)
    }
}

/// The results of a deletion are kept key by key: no key has two groups, a key has a
/// group exactly if one of its tasks was joined, and its group holds what came of its
/// tasks in the order of joining.
pub proof fn groups_keep_every_outcome(outcomes: Seq<DeletionOutcome>)
    ensures
        distinct_keys(grouped(outcomes)),
        forall|i: int|
            0 <= i < grouped(outcomes).len() ==> (#[trigger] grouped(outcomes)[i]).1
                == results_for(outcomes, grouped(outcomes)[i].0),
        forall|key: Seq<char>| #[trigger]
            has_group(grouped(outcomes), key) == (results_for(outcomes, key).len() > 0),
    decreases outcomes.len(),
{
    let groups = grouped(outcomes);
    if outcomes.len() > 0 {
        let fewer = outcomes.drop_last();
        let before = grouped(fewer);
        let key = outcomes.last().key@;
        let result = outcomes.last().result;
        groups_keep_every_outcome(fewer);
        position_bounds(before, key);
        let at = position(before, key);
        assert(has_group(before, key) == (results_for(fewer, key).len() > 0));
        if at < before.len() {
            assert(before[at].0 == key);
            assert(groups =~= before.update(at, (key, before[at].1.push(result))));
            assert forall|i: int, j: int| 0 <= i < j < groups.len() implies (
            #[trigger] groups[i]).0 != (#[trigger] groups[j]).0 by {
                assert(before[i].0 != before[j].0);
            }
            assert forall|i: int| 0 <= i < groups.len() implies (#[trigger] groups[i]).1
                == results_for(outcomes, groups[i].0) by {
                if i != at {
                    assert(before[i].0 != before[at].0);
                }
            }
        } else {
            assert(groups =~= before.push((key, seq![result])));
            if has_group(before, key) {
                let i = choose|i: int| 0 <= i < before.len() && (#[trigger] before[i]).0 == key;
                assert(false);
            }
            assert(results_for(outcomes, key) =~= seq![result]);
        }
        assert forall|k: Seq<char>| #[trigger]
            has_group(groups, k) == (results_for(outcomes, k).len() > 0) by {
            assert(has_group(before, k) == (results_for(fewer, k).len() > 0));
            if has_group(before, k) {
                let i = choose|i: int| 0 <= i < before.len() && (#[trigger] before[i]).0 == k;
                assert(groups[i].0 == k);
            }
            if k == key {
                assert(groups[at].0 == k);
            }
            if has_group(groups, k) && k != key {
                let i = choose|i: int| 0 <= i < groups.len() && (#[trigger] groups[i]).0 == k;
                assert(before[i].0 == k);
            }
        }
    } else {
        assert forall|k: Seq<char>| #[trigger]
            has_group(groups, k) == (results_for(outcomes, k).len() > 0) by {}
    }
}

/// A key is listed as deleted exactly if it has a group without a failure.
proof fn deleted_keys_are_groups(groups: Seq<Group>, key: Seq<char>)
    ensures
        deleted_keys(groups).contains(key) == (exists|i: int|
            0 <= i < groups.len() && (#[trigger] groups[i]).0 == key && !any_failed(groups[i].1)),
        distinct_keys(groups) ==> deleted_keys(groups).no_duplicates(),
    decreases groups.len(),
{
    if groups.len() > 0 {
        let fewer = groups.drop_last();
        let last = groups.last();
        deleted_keys_are_groups(fewer, key);
        deleted_keys_are_groups(fewer, last.0);
        assert(groups[groups.len() - 1] == last);
        if deleted_keys(fewer).contains(key) {
            let i = choose|i: int|
                0 <= i < fewer.len() && (#[trigger] fewer[i]).0 == key && !any_failed(fewer[i].1);
            assert(groups[i] == fewer[i]);
            let j = choose|j: int|
                0 <= j < deleted_keys(fewer).len() && deleted_keys(fewer)[j] == key;
            assert(deleted_keys(groups)[j] == key);
        }
        if !any_failed(last.1) && last.0 == key {
            assert(deleted_keys(groups)[deleted_keys(fewer).len() as int] == key);
        }
        if exists|i: int|
            0 <= i < groups.len() && (#[trigger] groups[i]).0 == key && !any_failed(groups[i].1) {
            let i = choose|i: int|
                0 <= i < groups.len() && (#[trigger] groups[i]).0 == key && !any_failed(
                    groups[i].1,
                );
            if i < groups.len() - 1 {
                assert(fewer[i] == groups[i]);
            }
        }
        if deleted_keys(groups).contains(key) && !deleted_keys(fewer).contains(key) {
            let j = choose|j: int|
                0 <= j < deleted_keys(groups).len() && deleted_keys(groups)[j] == key;
            if j < deleted_keys(fewer).len() {
                assert(deleted_keys(fewer)[j] == key);
            }
        }
        if distinct_keys(groups) {
            assert forall|i: int, j: int| 0 <= i < j < fewer.len() implies (
            #[trigger] fewer[i]).0 != (#[trigger] fewer[j]).0 by {
                assert(groups[i].0 != groups[j].0);
            }
            if deleted_keys(fewer).contains(last.0) {
                let i = choose|i: int|
                    0 <= i < fewer.len() && (#[trigger] fewer[i]).0 == last.0 && !any_failed(
                        fewer[i].1,
                    );
                assert(groups[i].0 != groups[groups.len() - 1].0);
            }
        }
    }
}

/// A key is listed as failed exactly if it has a group with a failure.
proof fn failed_keys_are_groups(groups: Seq<Group>, key: Seq<char>)
    ensures
        (exists|j: int| 0 <= j < failed_keys(groups).len() && (#[trigger] failed_keys(groups)[j]).0
            == key) == (exists|i: int|
            0 <= i < groups.len() && (#[trigger] groups[i]).0 == key && any_failed(groups[i].1)),
        distinct_keys(groups) ==> forall|i: int, j: int|
            0 <= i < j < failed_keys(groups).len() ==> (#[trigger] failed_keys(groups)[i]).0 != (
            #[trigger] failed_keys(groups)[j]).0,
    decreases groups.len(),
{
    if groups.len() > 0 {
        let fewer = groups.drop_last();
        let last = groups.last();
        let failed = failed_keys(groups);
        let before = failed_keys(fewer);
        failed_keys_are_groups(fewer, key);
        failed_keys_are_groups(fewer, last.0);
        assert(groups[groups.len() - 1] == last);
        if exists|j: int| 0 <= j < before.len() && (#[trigger] before[j]).0 == key {
            let j = choose|j: int| 0 <= j < before.len() && (#[trigger] before[j]).0 == key;
            assert(failed[j].0 == key);
            let i = choose|i: int|
                0 <= i < fewer.len() && (#[trigger] fewer[i]).0 == key && any_failed(fewer[i].1);
            assert(groups[i] == fewer[i]);
        } else {
            if exists|j: int| 0 <= j < failed.len() && (#[trigger] failed[j]).0 == key {
                let j = choose|j: int| 0 <= j < failed.len() && (#[trigger] failed[j]).0 == key;
                if j < before.len() {
                    assert(before[j].0 == key);
                }
            }
        }
        if any_failed(last.1) && last.0 == key {
            assert(failed[before.len() as int].0 == key);
        }
        if exists|i: int|
            0 <= i < groups.len() && (#[trigger] groups[i]).0 == key && any_failed(groups[i].1) {
            let i = choose|i: int|
                0 <= i < groups.len() && (#[trigger] groups[i]).0 == key && any_failed(groups[i].1);
            if i < groups.len() - 1 {
                assert(fewer[i] == groups[i]);
            }
        }
        if distinct_keys(groups) {
            assert forall|i: int, j: int| 0 <= i < j < fewer.len() implies (
            #[trigger] fewer[i]).0 != (#[trigger] fewer[j]).0 by {
                assert(groups[i].0 != groups[j].0);
            }
            assert forall|i: int, j: int| 0 <= i < j < failed.len() implies (
            #[trigger] failed[i]).0 != (#[trigger] failed[j]).0 by {
                if j < before.len() {
                    assert(before[i].0 != before[j].0);
                } else if failed[i].0 == last.0 {
                    assert(before[i].0 == last.0);
                    let k = choose|k: int|
                        0 <= k < fewer.len() && (#[trigger] fewer[k]).0 == last.0 && any_failed(
                            fewer[k].1,
                        );
                    assert(groups[k].0 != groups[groups.len() - 1].0);
                }
            }
        }
    }
}

/// Every key is answered for, and once: it is listed as deleted exactly if its tasks
/// were joined and none failed, and as failed exactly if one failed; no key is listed
/// twice.
pub proof fn every_key_is_answered_once(outcomes: Seq<DeletionOutcome>, key: Seq<char>)
    ensures
        deleted_keys(grouped(outcomes)).contains(key) == (results_for(outcomes, key).len() > 0
            && !any_failed(results_for(outcomes, key))),
        (exists|j: int|
            0 <= j < failed_keys(grouped(outcomes)).len() && (
            #[trigger] failed_keys(grouped(outcomes))[j]).0 == key) == any_failed(
            results_for(outcomes, key),
        ),
        deleted_keys(grouped(outcomes)).no_duplicates(),
        forall|i: int, j: int|
            0 <= i < j < failed_keys(grouped(outcomes)).len() ==> (
            #[trigger] failed_keys(grouped(outcomes))[i]).0 != (
            #[trigger] failed_keys(grouped(outcomes))[j]).0,
{
    let groups = grouped(outcomes);
    groups_keep_every_outcome(outcomes);
    deleted_keys_are_groups(groups, key);
    failed_keys_are_groups(groups, key);
    assert(has_group(groups, key) == (results_for(outcomes, key).len() > 0));
    if has_group(groups, key) {
        let i = choose|i: int| 0 <= i < groups.len() && (#[trigger] groups[i]).0 == key;
        assert(groups[i].1 == results_for(outcomes, key));
    }
}

/// The answer to the deletion of one object: it is said to be deleted exactly if at
/// least one of its copies was tried and every one that was tried was deleted.
pub proof fn single_deletion_needs_every_copy(
    outcomes: Seq<DeletionOutcome>,
    output: DeleteObjectsOutput,
    key: Seq<char>,
)
    requires
        answers_for(output, grouped(outcomes)),
    ensures
        names_deleted(output, key) == (results_for(outcomes, key).len() > 0 && !any_failed(
            results_for(outcomes, key),
        )),
{
    let keys = deleted_keys(grouped(outcomes));
    let entries = output.deleted->Some_0@;
    every_key_is_answered_once(outcomes, key);
    if keys.contains(key) {
        let i = choose|i: int| 0 <= i < keys.len() && keys[i] == key;
        assert(is_deleted_entry(entries[i], keys[i]));
    }
    if names_deleted(output, key) {
        let i = choose|i: int|
            0 <= i < entries.len() && ((#[trigger] entries[i]).key matches Some(named) && named@
                == key);
        assert(is_deleted_entry(entries[i], keys[i]));
        assert(keys[i] == key);
    }
}

/// A key has results exactly if it has outcomes, and failures exactly if one of its
/// outcomes is one.
proof fn results_are_those_of_outcomes(outcomes: Seq<DeletionOutcome>, key: Seq<char>)
    ensures
        (results_for(outcomes, key).len() > 0) == (exists|i: int|
            0 <= i < outcomes.len() && (#[trigger] outcomes[i]).key@ == key),
        any_failed(results_for(outcomes, key)) == (exists|i: int|
            0 <= i < outcomes.len() && (#[trigger] outcomes[i]).key@ == key
                && outcomes[i].result is Err),
    decreases outcomes.len(),
{
    if outcomes.len() > 0 {
        let fewer = outcomes.drop_last();
        let before = results_for(fewer, key);
        let after = results_for(outcomes, key);
        let last = outcomes.len() - 1;
        results_are_those_of_outcomes(fewer, key);
        assert(forall|i: int| 0 <= i < fewer.len() ==> fewer[i] == outcomes[i]);
        if before.len() > 0 {
            let i = choose|i: int| 0 <= i < fewer.len() && (#[trigger] fewer[i]).key@ == key;
            assert(outcomes[i].key@ == key);
        }
        if any_failed(before) {
            let i = choose|i: int|
                0 <= i < fewer.len() && (#[trigger] fewer[i]).key@ == key && fewer[i].result is Err;
            assert(outcomes[i].key@ == key);
            let k = choose|k: int| 0 <= k < before.len() && #[trigger] before[k] is Err;
            assert(after[k] is Err);
        }
        if outcomes[last].key@ == key {
            assert(after.last() == outcomes[last].result);
            assert(after[after.len() - 1] == outcomes[last].result);
        }
        if any_failed(after) {
            let k = choose|k: int| 0 <= k < after.len() && #[trigger] after[k] is Err;
            if k < before.len() {
                assert(before[k] is Err);
            } else {
                assert(outcomes[last].key@ == key && outcomes[last].result is Err);
            }
        }
        if exists|i: int|
            0 <= i < outcomes.len() && (#[trigger] outcomes[i]).key@ == key && outcomes[i].result
                is Err {
            let i = choose|i: int|
                0 <= i < outcomes.len() && (#[trigger] outcomes[i]).key@ == key
                    && outcomes[i].result is Err;
            if i < last {
                assert(fewer[i].key@ == key);
            }
        }
        if exists|i: int| 0 <= i < outcomes.len() && (#[trigger] outcomes[i]).key@ == key {
            let i = choose|i: int| 0 <= i < outcomes.len() && (#[trigger] outcomes[i]).key@ == key;
            if i < last {
                assert(fewer[i].key@ == key);
            }
        }
    }
}

/// An object is said to be deleted exactly if the directory named copies of it and
/// every one of them was deleted, in whatever order the tasks were joined: `deleted[i]`
/// tells whether the copy of the task `i` was deleted, `planned[i]` is what came of
/// the task.
pub proof fn object_is_deleted_with_all_its_copies(
    keyed: Seq<KeyLocators>,
    deleted: Seq<bool>,
    planned: Seq<DeletionOutcome>,
    outcomes: Seq<DeletionOutcome>,
    output: DeleteObjectsOutput,
    key: Seq<char>,
)
    requires
        deleted.len() == deletion_tasks(keyed).len(),
        planned.len() == deletion_tasks(keyed).len(),
        forall|i: int|
            0 <= i < planned.len() ==> is_outcome(
                deletion_tasks(keyed)[i],
                deleted[i],
                #[trigger] planned[i],
            ),
        outcomes.to_multiset() == planned.to_multiset(),
        answers_for(output, grouped(outcomes)),
    ensures
        names_deleted(output, key) == ((exists|i: int|
            0 <= i < deletion_tasks(keyed).len() && (#[trigger] deletion_tasks(keyed)[i]).key@
                == key) && (forall|i: int|
            0 <= i < deletion_tasks(keyed).len() && (#[trigger] deletion_tasks(keyed)[i]).key@
                == key ==> deleted[i])),
{
    let tasks = deletion_tasks(keyed);
    single_deletion_needs_every_copy(outcomes, output, key);
    results_are_those_of_outcomes(outcomes, key);
    assert forall|i: int| 0 <= i < tasks.len() && (#[trigger] tasks[i]).key@ == key implies (exists|
        j: int,
    |
        0 <= j < outcomes.len() && (#[trigger] outcomes[j]).key@ == key && (outcomes[j].result
            is Err == !deleted[i])) by {
        assert(is_outcome(tasks[i], deleted[i], planned[i]));
        reordered_contains(outcomes, planned, i);
        let j = choose|j: int| 0 <= j < outcomes.len() && outcomes[j] == planned[i];
        assert(outcomes[j].key@ == key);
    }
    assert forall|j: int| 0 <= j < outcomes.len() && (#[trigger] outcomes[j]).key@ == key implies (
    exists|i: int|
        0 <= i < tasks.len() && (#[trigger] tasks[i]).key@ == key && (outcomes[j].result is Err
            == !deleted[i])) by {
        reordered_contains(planned, outcomes, j);
        let i = choose|i: int| 0 <= i < planned.len() && planned[i] == outcomes[j];
        assert(is_outcome(tasks[i], deleted[i], planned[i]));
        assert(tasks[i].key@ == key);
    }
}

/// The ids of a key's deleted copies, one more result being added.
proof fn ids_after_push(results: Seq<Result<i32, String>>, result: Result<i32, String>, id: i32)
    ensures
        times_listed(deleted_ids(results.push(result)), id) == times_listed(
            deleted_ids(results),
            id,
        ) + if result == Ok::<i32, String>(id) {
            1nat
        } else {
            0nat
        },
{
    assert(results.push(result).drop_last() =~= results);
    if let Ok(other) = result {
        let ids = deleted_ids(results);
        assert(ids.push(other).drop_last() =~= ids);
    }
}

/// The reports of some groups, group by group.
proof fn reports_by_group(groups: Seq<Group>, group: Group, id: i32)
    ensures
        times_reported(completed(groups.push(group)), id) == times_reported(completed(groups), id)
            + times_listed(deleted_ids(group.1), id),
{
    assert(groups.push(group).drop_last() =~= groups);
    let ids = deleted_ids(group.1);
    if ids.len() > 0 {
        assert(completed(groups).push(ids).drop_last() =~= completed(groups));
    }
}

/// The reports once a result was added to one of the groups.
proof fn reports_after_update(groups: Seq<Group>, at: int, result: Result<i32, String>, id: i32)
    requires
        0 <= at < groups.len(),
    ensures
        times_reported(
            completed(groups.update(at, (groups[at].0, groups[at].1.push(result)))),
            id,
        ) == times_reported(completed(groups), id) + if result == Ok::<i32, String>(id) {
            1nat
        } else {
            0nat
        },
    decreases groups.len(),
{
    let fewer = groups.drop_last();
    let last = groups.last();
    let changed = (groups[at].0, groups[at].1.push(result));
    assert(groups =~= fewer.push(last));
    reports_by_group(fewer, last, id);
    ids_after_push(groups[at].1, result, id);
    if at == groups.len() - 1 {
        assert(groups.update(at, changed) =~= fewer.push(changed));
        reports_by_group(fewer, changed, id);
    } else {
        reports_after_update(fewer, at, result, id);
        assert(groups.update(at, changed) =~= fewer.update(at, changed).push(last));
        reports_by_group(fewer.update(at, changed), last, id);
    }
}

/// The directory hears of every deleted copy, and of no other: an id stands in the
/// reports as often as a task reported it.
pub proof fn every_deleted_copy_is_reported(outcomes: Seq<DeletionOutcome>, id: i32)
    ensures
        times_reported(completed(grouped(outcomes)), id) == times_deleted(outcomes, id),
    decreases outcomes.len(),
{
    if outcomes.len() > 0 {
        let fewer = outcomes.drop_last();
        let before = grouped(fewer);
        let key = outcomes.last().key@;
        let result = outcomes.last().result;
        every_deleted_copy_is_reported(fewer, id);
        position_bounds(before, key);
        let at = position(before, key);
        if at < before.len() {
            reports_after_update(before, at, result, id);
        } else {
            reports_by_group(before, (key, seq![result]), id);
            ids_after_push(Seq::empty(), result, id);
            assert(Seq::<Result<i32, String>>::empty().push(result) =~= seq![result]);
        }
    }
}

/// No report to the directory is empty.
pub proof fn no_report_is_empty(groups: Seq<Group>)
    ensures
        forall|i: int| 0 <= i < completed(groups).len() ==> (#[trigger] completed(groups)[i]).len()
            > 0,
    decreases groups.len(),
{
    if groups.len() > 0 {
        let fewer = groups.drop_last();
        no_report_is_empty(fewer);
        assert forall|i: int| 0 <= i < completed(groups).len() implies (
        #[trigger] completed(groups)[i]).len() > 0 by {
            if i < completed(fewer).len() {
                assert(completed(groups)[i] == completed(fewer)[i]);
            }
        }
    }
}

/// How often an id stands in the reports that are sent to the directory.
pub open spec fn times_sent(reports: Seq<DeleteObjectsIsCompleted>, id: i32) -> nat
    decreases reports.len(),
{
    if reports.len() == 0 {
        0
    } else {
        times_sent(reports.drop_last(), id) + times_listed(reports.last().ids@, id)
    }
}

/// The ids of the deleted copies of one key, in the order of joining.
pub open spec fn ids_for(outcomes: Seq<DeletionOutcome>, key: Seq<char>) -> Seq<i32>
    decreases outcomes.len(),
{
    if outcomes.len() == 0 {
        Seq::empty()
    } else {
        let ids = ids_for(outcomes.drop_last(), key);
        match outcomes.last().result {
            Ok(id) => if outcomes.last().key@ == key {
                ids.push(id)
            } else {
                ids
            },
            Err(_) => ids,
        }
    }
}

/// What the failed tasks of one key complain about, one text behind the other, in the
/// order of joining.
pub open spec fn texts_for(outcomes: Seq<DeletionOutcome>, key: Seq<char>) -> Seq<char>
    decreases outcomes.len(),
{
    if outcomes.len() == 0 {
        Seq::empty()
    } else {
        let texts = texts_for(outcomes.drop_last(), key);
        match outcomes.last().result {
            Ok(_) => texts,
            Err(text) => if outcomes.last().key@ == key {
                texts + text@
            } else {
                texts
            },
        }
    }
}

/// How many copies the directory names for all keys together.
pub open spec fn named_copies(keyed: Seq<KeyLocators>) -> nat
    decreases keyed.len(),
{
    if keyed.len() == 0 {
        0
    } else {
        named_copies(keyed.drop_last()) + keyed.last().locators@.len()
    }
}

/// Reports with the same ids hold an id as often.
proof fn sent_reports_hold_the_ids(
    reports: Seq<DeleteObjectsIsCompleted>,
    ids: Seq<Seq<i32>>,
    id: i32,
)
    requires
        reports.len() == ids.len(),
        forall|i: int| 0 <= i < reports.len() ==> (#[trigger] reports[i]).ids@ == ids[i],
    ensures
        times_sent(reports, id) == times_reported(ids, id),
    decreases reports.len(),
{
    if reports.len() > 0 {
        let sooner = reports.drop_last();
        let fewer = ids.drop_last();
        assert forall|i: int| 0 <= i < sooner.len() implies (#[trigger] sooner[i]).ids@
            == fewer[i] by {
            assert(sooner[i] == reports[i]);
        }
        assert(reports[reports.len() - 1].ids@ == ids[ids.len() - 1]);
        sent_reports_hold_the_ids(sooner, fewer, id);
    }
}

/// The ids and the complaints of a key are those of its results.
proof fn results_hold_ids_and_texts(outcomes: Seq<DeletionOutcome>, key: Seq<char>)
    ensures
        deleted_ids(results_for(outcomes, key)) == ids_for(outcomes, key),
        complaints(results_for(outcomes, key)) == texts_for(outcomes, key),
    decreases outcomes.len(),
{
    if outcomes.len() > 0 {
        let fewer = outcomes.drop_last();
        let before = results_for(fewer, key);
        results_hold_ids_and_texts(fewer, key);
        if outcomes.last().key@ == key {
            assert(before.push(outcomes.last().result).drop_last() =~= before);
        }
    }
}

/// Every group with a deleted copy has a report, and every report is that of a group.
proof fn reports_are_those_of_groups(groups: Seq<Group>)
    ensures
        completed(groups).len() <= groups.len(),
        forall|g: int|
            0 <= g < groups.len() && deleted_ids((#[trigger] groups[g]).1).len() > 0
                ==> completed(groups).contains(deleted_ids(groups[g].1)),
        forall|r: int|
            0 <= r < completed(groups).len() ==> exists|g: int|
                0 <= g < groups.len() && #[trigger] completed(groups)[r] == deleted_ids(
                    (#[trigger] groups[g]).1,
                ),
    decreases groups.len(),
{
    if groups.len() > 0 {
        let fewer = groups.drop_last();
        let before = completed(fewer);
        let after = completed(groups);
        reports_are_those_of_groups(fewer);
        assert forall|g: int|
            0 <= g < groups.len() && deleted_ids((#[trigger] groups[g]).1).len()
                > 0 implies after.contains(deleted_ids(groups[g].1)) by {
            if g < fewer.len() {
                assert(fewer[g] == groups[g]);
                let r = choose|r: int|
                    0 <= r < before.len() && before[r] == deleted_ids(groups[g].1);
                assert(after[r] == before[r]);
            } else {
                assert(after[after.len() - 1] == deleted_ids(groups[g].1));
            }
        }
        assert forall|r: int| 0 <= r < after.len() implies exists|g: int|
            0 <= g < groups.len() && #[trigger] after[r] == deleted_ids(
                (#[trigger] groups[g]).1,
            ) by {
            if r < before.len() {
                assert(after[r] == before[r]);
                let g = choose|g: int|
                    0 <= g < fewer.len() && before[r] == deleted_ids((#[trigger] fewer[g]).1);
                assert(groups[g] == fewer[g]);
            } else {
                assert(groups[groups.len() - 1] == groups.last());
            }
        }
    }
}

/// The directory hears of every deleted copy, and of no other: an id stands in the reports
/// that are sent as often as a joined task deleted the copy with this id. No report is
/// empty, and the copies of a key that were deleted are reported together, in the order of
/// joining.
pub proof fn directory_hears_of_every_deleted_copy(
    outcomes: Seq<DeletionOutcome>,
    reports: Seq<DeleteObjectsIsCompleted>,
    id: i32,
    key: Seq<char>,
)
    requires
        reports_ids(reports, completed(grouped(outcomes))),
    ensures
        times_sent(reports, id) == times_deleted(outcomes, id),
        forall|r: int| 0 <= r < reports.len() ==> (#[trigger] reports[r]).ids@.len() > 0,
        ids_for(outcomes, key).len() > 0 ==> exists|r: int|
            0 <= r < reports.len() && (#[trigger] reports[r]).ids@ == ids_for(outcomes, key),
        forall|r: int|
            0 <= r < reports.len() ==> exists|of: Seq<char>|
                (#[trigger] reports[r]).ids@ == #[trigger] ids_for(outcomes, of),
{
    let groups = grouped(outcomes);
    let ids = completed(groups);
    sent_reports_hold_the_ids(reports, ids, id);
    every_deleted_copy_is_reported(outcomes, id);
    no_report_is_empty(groups);
    groups_keep_every_outcome(outcomes);
    reports_are_those_of_groups(groups);
    results_hold_ids_and_texts(outcomes, key);
    assert forall|r: int| 0 <= r < reports.len() implies (#[trigger] reports[r]).ids@.len()
        > 0 by {
        assert(ids[r].len() > 0);
    }
    assert forall|r: int| 0 <= r < reports.len() implies exists|of: Seq<char>|
        (#[trigger] reports[r]).ids@ == #[trigger] ids_for(outcomes, of) by {
        let g = choose|g: int|
            0 <= g < groups.len() && ids[r] == deleted_ids((#[trigger] groups[g]).1);
        results_hold_ids_and_texts(outcomes, groups[g].0);
        assert(reports[r].ids@ == ids_for(outcomes, groups[g].0));
    }
    if ids_for(outcomes, key).len() > 0 {
        assert(results_for(outcomes, key).len() > 0);
        assert(has_group(groups, key));
        let g = choose|g: int| 0 <= g < groups.len() && (#[trigger] groups[g]).0 == key;
        assert(groups[g].1 == results_for(outcomes, key));
        assert(ids.contains(ids_for(outcomes, key)));
        let r = choose|r: int| 0 <= r < ids.len() && ids[r] == ids_for(outcomes, key);
        assert(reports[r].ids@ == ids_for(outcomes, key));
    }
}

/// A deletion has one task for every copy of every key that the directory names, for the
/// key that it is named for, and no other task.
pub proof fn deletion_has_a_task_for_every_copy(keyed: Seq<KeyLocators>)
    ensures
        deletion_tasks(keyed).len() == named_copies(keyed),
        forall|k: int, i: int|
            0 <= k < keyed.len() && 0 <= i < keyed[k].locators@.len() ==> exists|at: int|
                0 <= at < deletion_tasks(keyed).len() && (
                #[trigger] deletion_tasks(keyed)[at]).key == keyed[k].key && deletion_tasks(
                    keyed,
                )[at].locator == #[trigger] keyed[k].locators@[i],
        forall|at: int|
            0 <= at < deletion_tasks(keyed).len() ==> exists|k: int, i: int|
                0 <= k < keyed.len() && 0 <= i < keyed[k].locators@.len() && (
                #[trigger] deletion_tasks(keyed)[at]).key == keyed[k].key && deletion_tasks(
                    keyed,
                )[at].locator == #[trigger] keyed[k].locators@[i],
    decreases keyed.len(),
{
    assert forall|k: int, i: int|
        0 <= k < keyed.len() && 0 <= i < keyed[k].locators@.len() implies exists|at: int|
        0 <= at < deletion_tasks(keyed).len() && (#[trigger] deletion_tasks(keyed)[at]).key
            == keyed[k].key && deletion_tasks(keyed)[at].locator
            == #[trigger] keyed[k].locators@[i] by {
        let at = tasks_cover_keys(keyed, k, i);
        assert(deletion_tasks(keyed)[at].key == keyed[k].key);
    }
    if keyed.len() > 0 {
        let fewer = keyed.drop_last();
        let before = deletion_tasks(fewer);
        deletion_has_a_task_for_every_copy(fewer);
        assert forall|at: int| 0 <= at < deletion_tasks(keyed).len() implies exists|k: int, i: int|
            0 <= k < keyed.len() && 0 <= i < keyed[k].locators@.len() && (
            #[trigger] deletion_tasks(keyed)[at]).key == keyed[k].key && deletion_tasks(
                keyed,
            )[at].locator == #[trigger] keyed[k].locators@[i] by {
            if at < before.len() {
                assert(deletion_tasks(keyed)[at] == before[at]);
                let (k, i) = choose|k: int, i: int|
                    0 <= k < fewer.len() && 0 <= i < fewer[k].locators@.len() && before[at].key
                        == fewer[k].key && before[at].locator
                        == #[trigger] fewer[k].locators@[i];
                assert(keyed[k] == fewer[k]);
                assert(deletion_tasks(keyed)[at].locator == keyed[k].locators@[i]);
            } else {
                let k = keyed.len() - 1;
                let i = at - before.len();
                assert(deletion_tasks(keyed)[at] == key_tasks(keyed.last())[i]);
                assert(deletion_tasks(keyed)[at].locator == keyed[k].locators@[i]);
            }
        }
    }
}

/// A task whose copy was deleted ends with the id of that copy, any other with a complaint
/// that names the key; both for the key of the task.
pub proof fn outcome_tells_of_its_task(
    task: DeletionTask,
    deleted: bool,
    outcome: DeletionOutcome,
)
    requires
        is_outcome(task, deleted, outcome),
    ensures
        outcome.key == task.key,
        deleted ==> outcome.result == Ok::<i32, String>(task.locator.id),
        !deleted ==> (outcome.result matches Err(text) && text@
            == "Failed to delete object with key: "@ + task.key@),
        complaint(task.key@) == "Failed to delete object with key: "@ + task.key@,
{
}

/// A failed key stands with the complaints of its group.
proof fn failed_keys_have_their_complaints(groups: Seq<Group>)
    ensures
        forall|j: int|
            0 <= j < failed_keys(groups).len() ==> exists|g: int|
                0 <= g < groups.len() && (#[trigger] failed_keys(groups)[j]).0 == (
                #[trigger] groups[g]).0 && failed_keys(groups)[j].1 == complaints(groups[g].1),
        (failed_keys(groups).len() > 0) == (exists|g: int|
            0 <= g < groups.len() && any_failed((#[trigger] groups[g]).1)),
    decreases groups.len(),
{
    if groups.len() > 0 {
        let fewer = groups.drop_last();
        let before = failed_keys(fewer);
        let after = failed_keys(groups);
        failed_keys_have_their_complaints(fewer);
        assert(groups[groups.len() - 1] == groups.last());
        assert forall|j: int| 0 <= j < after.len() implies exists|g: int|
            0 <= g < groups.len() && (#[trigger] after[j]).0 == (#[trigger] groups[g]).0
                && after[j].1 == complaints(groups[g].1) by {
            if j < before.len() {
                assert(after[j] == before[j]);
                let g = choose|g: int|
                    0 <= g < fewer.len() && before[j].0 == (#[trigger] fewer[g]).0 && before[j].1
                        == complaints(fewer[g].1);
                assert(groups[g] == fewer[g]);
            }
        }
        if before.len() > 0 {
            let g = choose|g: int| 0 <= g < fewer.len() && any_failed((#[trigger] fewer[g]).1);
            assert(groups[g] == fewer[g]);
        }
        if exists|g: int| 0 <= g < groups.len() && any_failed((#[trigger] groups[g]).1) {
            let g = choose|g: int| 0 <= g < groups.len() && any_failed((#[trigger] groups[g]).1);
            if g < fewer.len() {
                assert(fewer[g] == groups[g]);
            }
        }
    }
}

/// The answer to a deletion speaks for every key: a key stands among the deleted ones
/// exactly if tasks for it were joined and none of them failed, and among the errors
/// exactly if one failed, there with everything that its failed tasks complain about. No
/// key stands twice, nothing is a delete marker, and there is a list of errors exactly if
/// some task failed.
pub proof fn answer_speaks_for_every_key(
    outcomes: Seq<DeletionOutcome>,
    output: DeleteObjectsOutput,
    key: Seq<char>,
)
    requires
        answers_for(output, grouped(outcomes)),
    ensures
        output.deleted is Some,
        (exists|i: int|
            0 <= i < output.deleted->Some_0@.len() && ((
            #[trigger] output.deleted->Some_0@[i]).key matches Some(named) && named@ == key)) == ((
        exists|j: int| 0 <= j < outcomes.len() && (#[trigger] outcomes[j]).key@ == key) && (
        forall|j: int|
            0 <= j < outcomes.len() && (#[trigger] outcomes[j]).key@ == key ==> outcomes[j].result
                is Ok)),
        forall|i: int|
            0 <= i < output.deleted->Some_0@.len() ==> (#[trigger] output.deleted->Some_0@[i]).key
                is Some && !output.deleted->Some_0@[i].delete_marker,
        forall|i: int, j: int|
            0 <= i < j < output.deleted->Some_0@.len() ==> (
            #[trigger] output.deleted->Some_0@[i]).key->Some_0@ != (
            #[trigger] output.deleted->Some_0@[j]).key->Some_0@,
        output.errors is Some == (exists|j: int|
            0 <= j < outcomes.len() && (#[trigger] outcomes[j]).result is Err),
        output.errors matches Some(errors) ==> {
            &&& (exists|i: int|
                0 <= i < errors@.len() && ((#[trigger] errors@[i]).key matches Some(named)
                    && named@ == key)) == (exists|j: int|
                0 <= j < outcomes.len() && (#[trigger] outcomes[j]).key@ == key
                    && outcomes[j].result is Err)
            &&& forall|i: int|
                0 <= i < errors@.len() ==> (#[trigger] errors@[i]).key is Some && errors@[i].code
                    is Some && errors@[i].code->Some_0@ == "InternalError"@ && errors@[i].message
                    is Some && errors@[i].message->Some_0@ == texts_for(
                    outcomes,
                    errors@[i].key->Some_0@,
                )
            &&& forall|i: int, j: int|
                0 <= i < j < errors@.len() ==> (#[trigger] errors@[i]).key->Some_0@ != (
                #[trigger] errors@[j]).key->Some_0@
        },
{
    let groups = grouped(outcomes);
    let deleted = output.deleted->Some_0@;
    let keys = deleted_keys(groups);
    let failed = failed_keys(groups);
    every_key_is_answered_once(outcomes, key);
    results_are_those_of_outcomes(outcomes, key);
    groups_keep_every_outcome(outcomes);
    failed_keys_have_their_complaints(groups);
    assert forall|i: int| 0 <= i < deleted.len() implies (#[trigger] deleted[i]).key is Some
        && !deleted[i].delete_marker && deleted[i].key->Some_0@ == keys[i] by {
        assert(is_deleted_entry(deleted[i], keys[i]));
    }
    if keys.contains(key) {
        let i = choose|i: int| 0 <= i < keys.len() && keys[i] == key;
        assert(deleted[i].key->Some_0@ == key);
    }
    if exists|i: int|
        0 <= i < deleted.len() && ((#[trigger] deleted[i]).key matches Some(named) && named@
            == key) {
        let i = choose|i: int|
            0 <= i < deleted.len() && ((#[trigger] deleted[i]).key matches Some(named) && named@
                == key);
        assert(keys[i] == key);
    }
    if exists|j: int| 0 <= j < outcomes.len() && (#[trigger] outcomes[j]).result is Err {
        let j = choose|j: int| 0 <= j < outcomes.len() && (#[trigger] outcomes[j]).result is Err;
        let of = outcomes[j].key@;
        results_are_those_of_outcomes(outcomes, of);
        assert(has_group(groups, of) == (results_for(outcomes, of).len() > 0));
        let g = choose|g: int| 0 <= g < groups.len() && (#[trigger] groups[g]).0 == of;
        assert(any_failed(groups[g].1));
    }
    if failed.len() > 0 {
        let g = choose|g: int| 0 <= g < groups.len() && any_failed((#[trigger] groups[g]).1);
        results_are_those_of_outcomes(outcomes, groups[g].0);
    }
    if let Some(errors) = output.errors {
        let errors = errors@;
        assert forall|i: int| 0 <= i < errors.len() implies (#[trigger] errors[i]).key is Some
            && errors[i].code is Some && errors[i].code->Some_0@ == "InternalError"@
            && errors[i].message is Some && errors[i].message->Some_0@ == texts_for(
            outcomes,
            errors[i].key->Some_0@,
        ) && errors[i].key->Some_0@ == failed[i].0 by {
            assert(is_failed_entry(errors[i], failed[i]));
            let g = choose|g: int|
                0 <= g < groups.len() && failed[i].0 == (#[trigger] groups[g]).0 && failed[i].1
                    == complaints(groups[g].1);
            results_hold_ids_and_texts(outcomes, groups[g].0);
        }
        if exists|i: int|
            0 <= i < errors.len() && ((#[trigger] errors[i]).key matches Some(named) && named@
                == key) {
            let i = choose|i: int|
                0 <= i < errors.len() && ((#[trigger] errors[i]).key matches Some(named) && named@
                    == key);
            assert(failed[i].0 == key);
        }
        if exists|j: int| 0 <= j < failed.len() && (#[trigger] failed[j]).0 == key {
            let j = choose|j: int| 0 <= j < failed.len() && (#[trigger] failed[j]).0 == key;
            assert(errors[j].key->Some_0@ == key);
        }
        assert forall|i: int, j: int| 0 <= i < j < errors.len() implies (
        #[trigger] errors[i]).key->Some_0@ != (#[trigger] errors[j]).key->Some_0@ by {
            assert(failed[i].0 != failed[j].0);
        }
    }
}

/// An answer to a deletion names a key as deleted exactly if one of its entries has that
/// key.
pub proof fn key_is_named_by_an_entry(output: DeleteObjectsOutput, key: Seq<char>)
    ensures
        output.deleted is None ==> !names_deleted(output, key),
        output.deleted matches Some(entries) ==> names_deleted(output, key) == (exists|i: int|
            0 <= i < entries@.len() && ((#[trigger] entries@[i]).key matches Some(named) && named@
                == key)),
{
}

} // verus!
