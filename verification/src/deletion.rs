//! Deleting objects: every copy of every key, and an answer for each key.

use crate::dto::{
    DeleteError, DeleteObjectOutput, DeleteObjectsOutput, DeletedObject, ObjectIdentifier,
    ObjectPlace, StoreCall,
};
use crate::error::{displayed_error, S3Error, S3ErrorCode};
use crate::models::{
    DeleteObjectsIsCompleted, DeleteObjectsRequest, KeyLocators, LocateObjectResponse,
};
use crate::objects::call_at;
use crate::proxy::SkyProxy;
use crate::text::{copied, joined};
use vstd::prelude::*;

verus! {

/// A deletion that waits for the directory to name the copies.
#[derive(Debug, PartialEq, Eq)]
pub struct DeletionStarting {}

/// A copy of the object with the given key that a store has to delete.
#[derive(Debug, PartialEq, Eq)]
pub struct DeletionTask {
    pub key: String,
    pub locator: LocateObjectResponse,
}

/// What came of a [`DeletionTask`]: the id of the deleted copy, or a complaint.
#[derive(Debug, PartialEq, Eq)]
pub struct DeletionOutcome {
    pub key: String,
    pub result: Result<i32, String>,
}

/// What came of the tasks for one key.
#[derive(Debug, PartialEq, Eq)]
pub struct KeyResults {
    pub key: String,
    pub results: Vec<Result<i32, String>>,
}

/// What came of the tasks joined so far, key by key.
#[derive(Debug, PartialEq, Eq)]
pub struct JoinedDeletions {
    pub groups: Vec<KeyResults>,
}

/// What to do once a task has been joined.
#[derive(Debug, PartialEq, Eq)]
pub enum DeletionStep {
    /// Join the next task.
    Wait,
    /// No task is left: close the books.
    Close,
    /// Answer the client with an error.
    Fail(S3Error),
}

/// The end of a deletion: what to tell the directory, one report after the other,
/// and the answer to the client.
#[derive(Debug, PartialEq, Eq)]
pub struct DeletionReport {
    pub completions: Vec<DeleteObjectsIsCompleted>,
    pub output: DeleteObjectsOutput,
}

/// The deletion of one object, as part of a deletion of several.
#[derive(Debug, PartialEq, Eq)]
pub struct SingleDeletion {
    pub key: String,
}

/// A key, and what came of its tasks.
pub type Group = (Seq<char>, Seq<Result<i32, String>>);

/// The tasks that delete the copies of one key.
pub open spec fn key_tasks(keyed: KeyLocators) -> Seq<DeletionTask> {
    keyed.locators@.map_values(
        |locator: LocateObjectResponse| DeletionTask { key: keyed.key, locator },
    )
}

/// The tasks that delete every copy of every key, in the directory's order.
pub open spec fn deletion_tasks(keyed: Seq<KeyLocators>) -> Seq<DeletionTask>
    decreases keyed.len(),
{
    if keyed.len() == 0 {
        Seq::empty()
    } else {
        deletion_tasks(keyed.drop_last()) + key_tasks(keyed.last())
    }
}

/// The complaint about a copy that was not deleted.
pub open spec fn complaint(key: Seq<char>) -> Seq<char> {
    "Failed to delete object with key: "@ + key
}

/// `outcome` is what came of a task whose copy was deleted, or was not.
pub open spec fn is_outcome(task: DeletionTask, deleted: bool, outcome: DeletionOutcome) -> bool {
    &&& outcome.key == task.key
    &&& match outcome.result {
        Ok(id) => deleted && id == task.locator.id,
        Err(text) => !deleted && text@ == complaint(task.key@),
    }
}

/// The position of the group of a key; the number of groups if the key has none.
pub open spec fn position(groups: Seq<Group>, key: Seq<char>) -> int
    decreases groups.len(),
{
    if groups.len() == 0 || groups[0].0 == key {
        0
    } else {
        1 + position(groups.drop_first(), key)
    }
}

/// The groups once a result has been added to the group of its key, or to a new
/// group behind the others.
pub open spec fn recorded(
    groups: Seq<Group>,
    key: Seq<char>,
    result: Result<i32, String>,
) -> Seq<Group> {
    let i = position(groups, key);
    if i < groups.len() {
        groups.update(i, (key, groups[i].1.push(result)))
    } else {
        groups.push((key, seq![result]))
    }
}

/// Some task failed.
pub open spec fn any_failed(results: Seq<Result<i32, String>>) -> bool {
    exists|i: int| 0 <= i < results.len() && #[trigger] results[i] is Err
}

/// The ids of the deleted copies, in the order of joining.
pub open spec fn deleted_ids(results: Seq<Result<i32, String>>) -> Seq<i32>
    decreases results.len(),
{
    if results.len() == 0 {
        Seq::empty()
    } else {
        let ids = deleted_ids(results.drop_last());
        match results.last() {
            Ok(id) => ids.push(id),
            Err(_) => ids,
        }
    }
}

/// The complaints, one behind the other, in the order of joining.
pub open spec fn complaints(results: Seq<Result<i32, String>>) -> Seq<char>
    decreases results.len(),
{
    if results.len() == 0 {
        Seq::empty()
    } else {
        let texts = complaints(results.drop_last());
        match results.last() {
            Ok(_) => texts,
            Err(text) => texts + text@,
        }
    }
}

/// The ids to report to the directory, key by key; keys with nothing to report are
/// passed over.
pub open spec fn completed(groups: Seq<Group>) -> Seq<Seq<i32>>
    decreases groups.len(),
{
    if groups.len() == 0 {
        Seq::empty()
    } else {
        let reports = completed(groups.drop_last());
        let ids = deleted_ids(groups.last().1);
        if ids.len() > 0 {
            reports.push(ids)
        } else {
            reports
        }
    }
}

/// The keys of which no task failed.
pub open spec fn deleted_keys(groups: Seq<Group>) -> Seq<Seq<char>>
    decreases groups.len(),
{
    if groups.len() == 0 {
        Seq::empty()
    } else {
        let keys = deleted_keys(groups.drop_last());
        if any_failed(groups.last().1) {
            keys
        } else {
            keys.push(groups.last().0)
        }
    }
}

/// The keys of which some task failed, each with its complaints.
pub open spec fn failed_keys(groups: Seq<Group>) -> Seq<(Seq<char>, Seq<char>)>
    decreases groups.len(),
{
    if groups.len() == 0 {
        Seq::empty()
    } else {
        let keys = failed_keys(groups.drop_last());
        if any_failed(groups.last().1) {
            keys.push((groups.last().0, complaints(groups.last().1)))
        } else {
            keys
        }
    }
}

/// The reports hold these ids.
pub open spec fn reports_ids(
    reports: Seq<DeleteObjectsIsCompleted>,
    ids: Seq<Seq<i32>>,
) -> bool {
    &&& reports.len() == ids.len()
    &&& forall|i: int| 0 <= i < ids.len() ==> (#[trigger] reports[i]).ids@ == ids[i]
}

/// The entry says that the object with this key was deleted.
pub open spec fn is_deleted_entry(entry: DeletedObject, key: Seq<char>) -> bool {
    &&& entry.key matches Some(named) && named@ == key
    &&& !entry.delete_marker
}

/// The entries say that the objects with these keys were deleted.
pub open spec fn shows_deleted(entries: Seq<DeletedObject>, keys: Seq<Seq<char>>) -> bool {
    &&& entries.len() == keys.len()
    &&& forall|i: int| 0 <= i < keys.len() ==> is_deleted_entry(#[trigger] entries[i], keys[i])
}

/// The entry says that the object with this key was not deleted, and why.
pub open spec fn is_failed_entry(entry: DeleteError, failed: (Seq<char>, Seq<char>)) -> bool {
    &&& entry.key matches Some(named) && named@ == failed.0
    &&& entry.code matches Some(code) && code@ == "InternalError"@
    &&& entry.message matches Some(message) && message@ == failed.1
}

/// The entries say that the objects with these keys were not deleted, and why.
pub open spec fn shows_failed(
    entries: Seq<DeleteError>,
    failed: Seq<(Seq<char>, Seq<char>)>,
) -> bool {
    &&& entries.len() == failed.len()
    &&& forall|i: int| 0 <= i < failed.len() ==> is_failed_entry(#[trigger] entries[i], failed[i])
}

/// The output answers for the groups. There is a list of errors only if there are
/// errors.
pub open spec fn answers_for(output: DeleteObjectsOutput, groups: Seq<Group>) -> bool {
    &&& output.deleted matches Some(entries) && shows_deleted(entries@, deleted_keys(groups))
    &&& match output.errors {
        Some(entries) => failed_keys(groups).len() > 0 && shows_failed(
            entries@,
            failed_keys(groups),
        ),
        None => failed_keys(groups).len() == 0,
    }
}

/// The output says that the object with this key was deleted.
pub open spec fn names_deleted(output: DeleteObjectsOutput, key: Seq<char>) -> bool {
    output.deleted matches Some(entries) && exists|i: int|
        0 <= i < entries@.len() && ((#[trigger] entries@[i]).key matches Some(named) && named@
            == key)
}

/// The position of a key is the first where the key stands, if it stands anywhere.
pub(crate) proof fn position_bounds(groups: Seq<Group>, key: Seq<char>)
    ensures
        0 <= position(groups, key) <= groups.len(),
        position(groups, key) < groups.len() ==> groups[position(groups, key)].0 == key,
        forall|j: int| 0 <= j < position(groups, key) ==> (#[trigger] groups[j]).0 != key,
    decreases groups.len(),
{
    if groups.len() > 0 && groups[0].0 != key {
        position_bounds(groups.drop_first(), key);
        assert forall|j: int| 0 <= j < position(groups, key) implies (#[trigger] groups[j]).0
            != key by {
            if j > 0 {
                assert(groups.drop_first()[j - 1] == groups[j]);
            }
        }
    }
}

/// A position where the key stands, and before which it does not, is the key's.
proof fn position_found(groups: Seq<Group>, key: Seq<char>, at: int)
    requires
        0 <= at <= groups.len(),
        at < groups.len() ==> groups[at].0 == key,
        forall|j: int| 0 <= j < at ==> (#[trigger] groups[j]).0 != key,
    ensures
        position(groups, key) == at,
{
    position_bounds(groups, key);
}

/// Splits the results of a key into the ids of deleted copies and the complaints.
fn split_results(results: &Vec<Result<i32, String>>) -> (split: (Vec<i32>, bool, String))
    ensures
        split.0@ == deleted_ids(results@),
        split.1 == any_failed(results@),
        split.2@ == complaints(results@),
{
    let mut ids: Vec<i32> = Vec::new();
    let mut failed: bool = false;
    let mut texts: String = String::new();
    let mut i: usize = 0;
    while i < results.len()
        invariant
            i <= results@.len(),
            ids@ == deleted_ids(results@.take(i as int)),
            failed == any_failed(results@.take(i as int)),
            texts@ == complaints(results@.take(i as int)),
        decreases results@.len() - i,
    {
        let ghost before = results@.take(i as int);
        let ghost after = results@.take(i + 1);
        proof {
            assert(after.drop_last() =~= before);
            assert(after.last() == results@[i as int]);
            if any_failed(before) {
                let j = choose|j: int| 0 <= j < before.len() && before[j] is Err;
                assert(after[j] is Err);
            }
            if any_failed(after) && !(results@[i as int] is Err) {
                let j = choose|j: int| 0 <= j < after.len() && after[j] is Err;
                assert(before[j] is Err);
            }
        }
        match &results[i] {
            Ok(id) => {
                ids.push(*id);
            },
            Err(text) => {
                proof {
                    assert(after[i as int] is Err);
                }
                failed = true;
                texts.append(text.as_str());
            },
        }
        i += 1;
    }
    proof {
        assert(results@.take(results@.len() as int) =~= results@);
    }
    (ids, failed, texts)
}

/// Tells whether the output says that the object with this key was deleted.
fn is_named_deleted(output: &DeleteObjectsOutput, key: &String) -> (named: bool)
    ensures
        named == names_deleted(*output, key@),
{
    match &output.deleted {
        Some(entries) => {
            let mut i: usize = 0;
            while i < entries.len()
                invariant
                    i <= entries@.len(),
                    output.deleted == Some(*entries),
                    forall|j: int|
                        0 <= j < i ==> !((#[trigger] entries@[j]).key matches Some(other) && other@
                            == key@),
                decreases entries@.len() - i,
            {
                if let Some(other) = &entries[i].key {
                    if *other == *key {
                        assert(entries@[i as int].key == Some(*other));
                        return true;
                    }
                }
                i += 1;
            }
            false
        },
        None => false,
    }
}

impl DeletionStarting {
    /// The tasks that delete the copies.
    pub fn started(self, keyed: Vec<KeyLocators>) -> (started: (
        JoinedDeletions,
        Vec<DeletionTask>,
    ))
        ensures
            started.0.view_groups() == Seq::<Group>::empty(),
            started.1@ == deletion_tasks(keyed@),
    {
        let ghost all = keyed@;
        let mut tasks: Vec<DeletionTask> = Vec::new();
        for one in keys: keyed
            invariant
                keys.seq() == all,
                tasks@ == deletion_tasks(all.take(keys.index() as int)),
        {
            let ghost done = tasks@;
            let ghost locators = one.locators@;
            let ghost whole = one;
            let key: String = one.key;
            for locator in places: one.locators
                invariant
                    places.seq() == locators,
                    key == whole.key,
                    locators == whole.locators@,
                    tasks@ == done + key_tasks(whole).take(places.index() as int),
            {
                proof {
                    assert(key_tasks(whole).take(places.index() + 1) =~= key_tasks(whole).take(
                        places.index() as int,
                    ).push(key_tasks(whole)[places.index() as int]));
                }
                tasks.push(DeletionTask { key: key.clone(), locator });
            }
            proof {
                assert(key_tasks(whole).take(locators.len() as int) =~= key_tasks(whole));
                let next = all.take(keys.index() + 1);
                assert(next.drop_last() =~= all.take(keys.index() as int));
                assert(next.last() == whole);
            }
        }
        proof {
            assert(all.take(all.len() as int) =~= all);
        }
        let joined: JoinedDeletions = JoinedDeletions { groups: Vec::new() };
        proof {
            assert(joined.view_groups() =~= Seq::<Group>::empty());
        }
        (joined, tasks)
    }
}

impl DeletionTask {
    /// Deletes the copy.
    pub fn call(&self) -> (call: StoreCall<ObjectPlace>)
        ensures
            call == call_at(self.locator),
    {
        StoreCall {
            tag: self.locator.tag.clone(),
            request: ObjectPlace {
                bucket: self.locator.bucket.clone(),
                key: self.locator.key.clone(),
            },
        }
    }

    /// What came of the task: the store has deleted the copy, or it has not.
    pub fn finished(self, deleted: bool) -> (outcome: DeletionOutcome)
        ensures
            is_outcome(self, deleted, outcome),
    {
        if deleted {
            DeletionOutcome { key: self.key, result: Ok(self.locator.id) }
        } else {
            let text: String = joined("Failed to delete object with key: ", self.key.as_str());
            DeletionOutcome { key: self.key, result: Err(text) }
        }
    }
}

impl JoinedDeletions {
    /// The groups, in the order in which their keys first came.
    pub open spec fn view_groups(&self) -> Seq<Group> {
        self.groups@.map_values(|group: KeyResults| (group.key@, group.results@))
    }

    /// Adds an outcome to the group of its key.
    fn record(&mut self, outcome: DeletionOutcome)
        ensures
            final(self).view_groups() == recorded(
                old(self).view_groups(),
                outcome.key@,
                outcome.result,
            ),
    {
        let ghost groups = self.view_groups();
        let mut i: usize = 0;
        while i < self.groups.len()
            invariant
                i <= self.groups@.len(),
                groups == self.view_groups(),
                groups == old(self).view_groups(),
                forall|j: int| 0 <= j < i ==> (#[trigger] groups[j]).0 != outcome.key@,
            decreases self.groups@.len() - i,
        {
            if self.groups[i].key == outcome.key {
                proof {
                    position_found(groups, outcome.key@, i as int);
                }
                self.groups[i].results.push(outcome.result);
                proof {
                    assert(self.view_groups() =~= recorded(groups, outcome.key@, outcome.result));
                }
                return;
            }
            assert(groups[i as int].0 == self.groups@[i as int].key@);
            i += 1;
        }
        proof {
            position_found(groups, outcome.key@, i as int);
        }
        let mut results: Vec<Result<i32, String>> = Vec::new();
        results.push(outcome.result);
        self.groups.push(KeyResults { key: outcome.key, results });
        proof {
            assert(results@ =~= seq![outcome.result]);
            assert(self.view_groups() =~= recorded(groups, outcome.key@, outcome.result));
        }
    }

    /// Takes what joining a task gave: an outcome, the text of a failure to join, or
    /// nothing if no task is left.
    pub fn joined(&mut self, outcome: Option<Result<DeletionOutcome, String>>) -> (step:
        DeletionStep)
        ensures
            match outcome {
                Some(Ok(given)) => step is Wait && final(self).view_groups() == recorded(
                    old(self).view_groups(),
                    given.key@,
                    given.result,
                ),
                Some(Err(failure)) => final(self).view_groups() == old(self).view_groups() && (
                step matches DeletionStep::Fail(error) && error.says(
                    S3ErrorCode::InternalError,
                    "Error deleting objects: "@ + failure@,
                )),
                None => step is Close && final(self).view_groups() == old(self).view_groups(),
            },
    {
        match outcome {
            Some(Ok(given)) => {
                self.record(given);
                DeletionStep::Wait
            },
            Some(Err(failure)) => DeletionStep::Fail(
                S3Error::with_message(
                    S3ErrorCode::InternalError,
                    joined("Error deleting objects: ", failure.as_str()).as_str(),
                ),
            ),
            None => DeletionStep::Close,
        }
    }

    /// What to tell the directory and the client once every task has been joined.
    pub fn close(self) -> (report: DeletionReport)
        ensures
            reports_ids(report.completions@, completed(self.view_groups())),
            answers_for(report.output, self.view_groups()),
    {
        let ghost groups = self.view_groups();
        let ghost given = self.groups@;
        let mut completions: Vec<DeleteObjectsIsCompleted> = Vec::new();
        let mut deleted: Vec<DeletedObject> = Vec::new();
        let mut errors: Vec<DeleteError> = Vec::new();
        for group in it: self.groups
            invariant
                it.seq() == given,
                groups == given.map_values(|group: KeyResults| (group.key@, group.results@)),
                reports_ids(completions@, completed(groups.take(it.index() as int))),
                shows_deleted(deleted@, deleted_keys(groups.take(it.index() as int))),
                shows_failed(errors@, failed_keys(groups.take(it.index() as int))),
        {
            proof {
                let next = groups.take(it.index() + 1);
                assert(next.drop_last() =~= groups.take(it.index() as int));
                assert(next.last() == (group.key@, group.results@));
            }
            let (ids, failed, texts): (Vec<i32>, bool, String) = split_results(&group.results);
            if ids.len() > 0 {
                completions.push(DeleteObjectsIsCompleted { ids });
            }
            if failed {
                errors.push(
                    DeleteError {
                        key: Some(group.key),
                        code: Some("InternalError".to_string()),
                        message: Some(texts),
                    },
                );
            } else {
                deleted.push(DeletedObject { key: Some(group.key), delete_marker: false });
            }
        }
        proof {
            assert(groups.take(groups.len() as int) =~= groups);
        }
        DeletionReport {
            completions,
            output: DeleteObjectsOutput {
                deleted: Some(deleted),
                errors: if errors.len() == 0 {
                    None
                } else {
                    Some(errors)
                },
            },
        }
    }
}

impl SingleDeletion {
    /// The answer to the client, from the answer to the deletion that the object was
    /// part of.
    pub fn answer(self, deletion: Result<DeleteObjectsOutput, S3Error>) -> (answer: Result<
        DeleteObjectOutput,
        S3Error,
    >)
        ensures
            match deletion {
                Ok(output) => match answer {
                    Ok(given) => names_deleted(output, self.key@) && !given.delete_marker,
                    Err(error) => !names_deleted(output, self.key@) && error.says(
                        S3ErrorCode::InternalError,
                        "Object not deleted successfully"@,
                    ),
                },
                Err(failure) => answer matches Err(error) && error.says(
                    S3ErrorCode::InternalError,
                    "Error deleting object: "@ + displayed_error(failure.code, failure.message@),
                ),
            },
    {
        match deletion {
            Ok(output) => {
                if is_named_deleted(&output, &self.key) {
                    return Ok(DeleteObjectOutput { delete_marker: false });
                }
                Err(
                    S3Error::with_message(
                        S3ErrorCode::InternalError,
                        "Object not deleted successfully",
                    ),
                )
            },
            Err(failure) => Err(
                S3Error::with_message(
                    S3ErrorCode::InternalError,
                    joined("Error deleting object: ", failure.to_text().as_str()).as_str(),
                ),
            ),
        }
    }
}

impl SkyProxy {
    /// Announces the deletion of objects to the directory.
    pub fn delete_objects(&self, bucket: &String, objects: &Vec<ObjectIdentifier>) -> (opened: (
        DeletionStarting,
        DeleteObjectsRequest,
    ))
        ensures
            opened.1.bucket == *bucket,
            opened.1.keys@ == objects@.map_values(|object: ObjectIdentifier| object.key),
    {
        let mut keys: Vec<String> = Vec::new();
        let mut i: usize = 0;
        while i < objects.len()
            invariant
                i <= objects@.len(),
                keys@.len() == i,
                forall|j: int| 0 <= j < i ==> #[trigger] keys@[j] == objects@[j].key,
            decreases objects@.len() - i,
        {
            keys.push(objects[i].key.clone());
            i += 1;
        }
        proof {
            assert(keys@ =~= objects@.map_values(|object: ObjectIdentifier| object.key));
        }
        (DeletionStarting {  }, DeleteObjectsRequest::new(bucket.clone(), keys))
    }

    /// Turns the deletion of one object into a deletion of several.
    pub fn delete_object(&self, key: &String, version_id: &Option<String>) -> (opened: (
        SingleDeletion,
        Vec<ObjectIdentifier>,
    ))
        ensures
            opened.0.key == *key,
            opened.1@ == seq![ObjectIdentifier { key: *key, version_id: *version_id }],
    {
        let mut objects: Vec<ObjectIdentifier> = Vec::new();
        objects.push(ObjectIdentifier { key: key.clone(), version_id: copied(version_id) });
        proof {
            assert(objects@ =~= seq![ObjectIdentifier { key: *key, version_id: *version_id }]);
        }
        (SingleDeletion { key: key.clone() }, objects)
    }
}

} // verus!
