//! Operations that visit the stores one after the other, from their first step to
//! their answer.

use crate::dto::CreateMultipartUploadOutput;
use crate::models::HeadObjectRequest;
use crate::multipart::{
    can_complete, is_completing_call, upload_place, CompletedUpload, CompletingStep,
    CompletingUploads, StartingStep, StartingUploads,
};
use crate::objects::call_at;
use vstd::prelude::*;

verus! {

/// The steps of the start of a multipart upload, up to the answer. A store that has
/// started the upload leaves the state that was waiting behind it.
pub open spec fn is_starting_run(state: StartingUploads, steps: Seq<StartingStep>) -> bool
    decreases steps.len(),
{
    steps.len() > 0 && state.goes_on(steps[0]) && match steps[0] {
        StartingStep::Create(started, _) => is_starting_run(started.rest, steps.drop_first()),
        StartingStep::Answer(_) => steps.len() == 1,
    }
}

/// The steps of the completion of a multipart upload, up to the question for the
/// e-tag. A copy that is completed and measured leaves the state that was waiting
/// behind it.
pub open spec fn is_completing_run(state: CompletingUploads, steps: Seq<CompletingStep>) -> bool
    decreases steps.len(),
{
    steps.len() > 0 && state.ready() && state.goes_on(steps[0]) && match steps[0] {
        CompletingStep::Complete(completing, _) => is_completing_run(
            completing.rest,
            steps.drop_first(),
        ),
        CompletingStep::Head(_, _) => steps.len() == 1,
    }
}

/// A multipart upload is started once in the store of every copy, in the directory's
/// order, and the client is then given the upload's id.
pub proof fn start_visits_every_copy(state: StartingUploads, steps: Seq<StartingStep>)
    requires
        is_starting_run(state, steps),
    ensures
        steps.len() == state.pending@.len() + 1,
        forall|i: int|
            0 <= i < state.pending@.len() ==> (#[trigger] steps[i] matches StartingStep::Create(
                started,
                call,
            ) && started.id == state.pending@[i].id && call == call_at(state.pending@[i])),
        steps.last() == StartingStep::Answer(
            CreateMultipartUploadOutput {
                bucket: Some(state.bucket),
                key: Some(state.key),
                upload_id: Some(state.upload_id),
            },
        ),
    decreases steps.len(),
{
    if let StartingStep::Create(started, _) = steps[0] {
        let later = steps.drop_first();
        start_visits_every_copy(started.rest, later);
        assert forall|i: int| 0 <= i < state.pending@.len() implies (
        #[trigger] steps[i] matches StartingStep::Create(at, call) && at.id == state.pending@[i].id
            && call == call_at(state.pending@[i])) by {
            if i > 0 {
                assert(later[i - 1] == steps[i]);
                assert(started.rest.pending@[i - 1] == state.pending@[i]);
            }
        }
        assert(steps.last() == later.last());
    }
}

/// A multipart upload is completed once in the store of every copy, in the
/// directory's order, each from parts that go with the client's; the directory is
/// then asked for the e-tag of the whole.
pub proof fn completion_visits_every_copy(state: CompletingUploads, steps: Seq<CompletingStep>)
    requires
        is_completing_run(state, steps),
    ensures
        steps.len() == state.pending@.len() + 1,
        forall|i: int|
            0 <= i < state.pending@.len() ==> (#[trigger] steps[i] matches CompletingStep::Complete(
                completing,
                call,
            ) && completing.id == state.pending@[i].id && completing.place == upload_place(
                state.pending@[i],
            ) && is_completing_call(call, state.pending@[i]) && can_complete(
                state.pending@[i],
                state.numbers@,
            )),
        steps.last() == CompletingStep::Head(
            CompletedUpload { bucket: state.bucket, key: state.key },
            HeadObjectRequest { bucket: state.bucket, key: state.key },
        ),
    decreases steps.len(),
{
    if let CompletingStep::Complete(completing, _) = steps[0] {
        let later = steps.drop_first();
        completion_visits_every_copy(completing.rest, later);
        assert forall|i: int| 0 <= i < state.pending@.len() implies (
        #[trigger] steps[i] matches CompletingStep::Complete(at, call) && at.id
            == state.pending@[i].id && at.place == upload_place(state.pending@[i])
            && is_completing_call(call, state.pending@[i]) && can_complete(
            state.pending@[i],
            state.numbers@,
        )) by {
            if i > 0 {
                assert(later[i - 1] == steps[i]);
                assert(completing.rest.pending@[i - 1] == state.pending@[i]);
            }
        }
        assert(steps.last() == later.last());
    }
}

} // verus!
