//! Deletions: how the outcomes of the tasks are gathered and answered for.

use skyproxy::deletion::{DeletionOutcome, DeletionStep, JoinedDeletions, SingleDeletion};
use skyproxy::dto::{DeleteObjectsOutput, DeletedObject, ObjectIdentifier};
use skyproxy::error::{S3Error, S3ErrorCode};
use skyproxy::models::{DeleteObjectsRequest, KeyLocators, LocateObjectResponse};
use skyproxy::proxy::SkyProxy;

fn text(value: &str) -> String {
    value.to_string()
}

fn proxy() -> SkyProxy {
    SkyProxy::new(vec![text("aws:us-west-1")], text("aws:us-west-1"))
}

fn copy(id: i32, tag: &str) -> LocateObjectResponse {
    LocateObjectResponse {
        id,
        tag: text(tag),
        bucket: format!("bucket-{}", id),
        key: format!("key-{}", id),
        size: None,
        last_modified: None,
        etag: None,
    }
}

fn outcome(key: &str, result: Result<i32, &str>) -> DeletionOutcome {
    DeletionOutcome { key: text(key), result: result.map_err(text) }
}

fn closed(outcomes: Vec<DeletionOutcome>) -> (Vec<Vec<i32>>, DeleteObjectsOutput) {
    let mut joined = JoinedDeletions { groups: Vec::new() };
    for outcome in outcomes {
        assert_eq!(joined.joined(Some(Ok(outcome))), DeletionStep::Wait);
    }
    assert_eq!(joined.joined(None), DeletionStep::Close);
    let report = joined.close();
    (report.completions.into_iter().map(|done| done.ids).collect(), report.output)
}

fn keys(output: &DeleteObjectsOutput) -> Vec<String> {
    output
        .deleted
        .as_ref()
        .unwrap()
        .iter()
        .map(|entry| entry.key.clone().unwrap())
        .collect()
}

#[test]
fn request_holds_the_keys() {
    let objects = vec![
        ObjectIdentifier { key: text("x"), version_id: None },
        ObjectIdentifier { key: text("y"), version_id: Some(text("v")) },
    ];
    let (_, request) = proxy().delete_objects(&text("b"), &objects);
    assert_eq!(request, DeleteObjectsRequest::new(text("b"), vec![text("x"), text("y")]));
    assert_eq!(request.clone(), request);
}

#[test]
fn every_copy_of_every_key_has_a_task() {
    let (starting, _) = proxy().delete_objects(&text("b"), &Vec::new());
    let (_, tasks) = starting.started(vec![
        KeyLocators { key: text("x"), locators: vec![copy(1, "a:1"), copy(2, "b:2")] },
        KeyLocators { key: text("none"), locators: Vec::new() },
        KeyLocators { key: text("y"), locators: vec![copy(3, "a:1")] },
    ]);
    assert_eq!(tasks.len(), 3);
    let call = tasks[1].call();
    assert_eq!(call.tag, "b:2");
    assert_eq!(call.request.bucket, "bucket-2");
    assert_eq!(call.request.key, "key-2");
    let outcomes: Vec<DeletionOutcome> =
        tasks.into_iter().map(|task| task.finished(true)).collect();
    assert_eq!(outcomes[0], outcome("x", Ok(1)));
    assert_eq!(outcomes[1], outcome("x", Ok(2)));
    assert_eq!(outcomes[2], outcome("y", Ok(3)));
}

#[test]
fn undeleted_copy_is_complained_about() {
    let (starting, _) = proxy().delete_objects(&text("b"), &Vec::new());
    let (_, mut tasks) =
        starting.started(vec![KeyLocators { key: text("x"), locators: vec![copy(1, "a:1")] }]);
    assert_eq!(
        tasks.remove(0).finished(false),
        outcome("x", Err("Failed to delete object with key: x"))
    );
}

#[test]
fn keys_are_answered_for_once() {
    let (ids, output) = closed(vec![
        outcome("x", Ok(1)),
        outcome("y", Ok(2)),
        outcome("x", Ok(3)),
        outcome("z", Err("bad ")),
        outcome("y", Err("worse ")),
        outcome("z", Err("worst")),
        outcome("y", Ok(4)),
    ]);
    assert_eq!(ids, vec![vec![1, 3], vec![2, 4]]);
    assert_eq!(keys(&output), vec![text("x")]);
    assert!(output.deleted.as_ref().unwrap().iter().all(|entry| !entry.delete_marker));
    let errors = output.errors.unwrap();
    assert_eq!(errors.len(), 2);
    assert_eq!(errors[0].key, Some(text("y")));
    assert_eq!(errors[0].message, Some(text("worse ")));
    assert_eq!(errors[1].key, Some(text("z")));
    assert_eq!(errors[1].code, Some(text("InternalError")));
    assert_eq!(errors[1].message, Some(text("bad worst")));
}

#[test]
fn no_outcome_makes_an_empty_answer() {
    let (ids, output) = closed(Vec::new());
    assert!(ids.is_empty());
    assert!(keys(&output).is_empty());
    assert_eq!(output.errors, None);
}

#[test]
fn every_deleted_copy_is_reported_once() {
    let (ids, _) = closed(vec![
        outcome("x", Ok(1)),
        outcome("x", Err("bad")),
        outcome("y", Ok(2)),
        outcome("x", Ok(1)),
    ]);
    assert_eq!(ids, vec![vec![1, 1], vec![2]]);
}

#[test]
fn task_that_cannot_be_joined_ends_the_deletion() {
    let mut joined = JoinedDeletions { groups: Vec::new() };
    joined.joined(Some(Ok(outcome("x", Ok(1)))));
    match joined.joined(Some(Err(text("task 5 panicked")))) {
        DeletionStep::Fail(error) => {
            assert_eq!(error.code, S3ErrorCode::InternalError);
            assert_eq!(error.message, "Error deleting objects: task 5 panicked");
        }
        _ => panic!("a task failed"),
    }
    assert_eq!(joined.groups.len(), 1);
}

#[test]
fn single_deletion_hears_of_its_key() {
    let output = |key: &str| DeleteObjectsOutput {
        deleted: Some(vec![DeletedObject { key: Some(text(key)), delete_marker: false }]),
        errors: None,
    };
    let single = SingleDeletion { key: text("x") };
    assert!(!single.answer(Ok(output("x"))).unwrap().delete_marker);
    let single = SingleDeletion { key: text("x") };
    let error = single.answer(Ok(output("y"))).unwrap_err();
    assert_eq!(error.message, "Object not deleted successfully");
    let single = SingleDeletion { key: text("x") };
    let nothing = DeleteObjectsOutput { deleted: None, errors: None };
    assert!(single.answer(Ok(nothing)).is_err());
}

#[test]
fn single_deletion_quotes_the_failure() {
    let single = SingleDeletion { key: text("x") };
    let failure = S3Error::with_message(S3ErrorCode::InternalError, "no");
    let error = single.answer(Err(failure)).unwrap_err();
    assert_eq!(error.code, S3ErrorCode::InternalError);
    assert_eq!(
        error.message,
        "Error deleting object: S3Error { code: InternalError, message: \"no\", .. }"
    );
}
