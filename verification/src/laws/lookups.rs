//! What becomes of a client's request once the directory has looked the object up.

use crate::dto::{ObjectPlace, StoreCall};
use crate::error::{S3Error, S3ErrorCode};
use crate::models::{DirectoryFailure, LocateObjectResponse, LocateReply};
use crate::objects::{
    call_at, date_readable, routes, CopyLocatingDestination, CopyStep, PutLocating, PutStep,
};
use crate::proxy::{found, is_locate_error, locate_failed, locate_request};
use crate::timestamp::rfc3339_reading;
use vstd::prelude::*;

verus! {

/// An error says one thing only: its own code and its own message.
pub proof fn error_says_its_code_and_message(
    error: S3Error,
    code: S3ErrorCode,
    message: Seq<char>,
)
    ensures
        error.says(code, message) ==> error.code == code && error.message@ == message,
        error.says(error.code, error.message@),
{
}

/// Two lookups are the same exactly if they ask for the same key of the same bucket on
/// behalf of clients in the same region, and a lookup asks for what the client named.
pub proof fn lookup_asks_for_the_object(
    bucket: String,
    key: String,
    region: String,
    other_bucket: String,
    other_key: String,
    other_region: String,
)
    ensures
        locate_request(bucket, key, region).bucket == bucket,
        locate_request(bucket, key, region).key == key,
        locate_request(bucket, key, region).client_from_region == region,
        locate_request(bucket, key, region) == locate_request(
            other_bucket,
            other_key,
            other_region,
        ) ==> bucket == other_bucket && key == other_key && region == other_region,
{
}

/// A copy that the directory names is found, whatever the directory says of its size, its
/// e-tag and its date; only the answer that there is no such object means that there is
/// none, and every other answer that names no copy is a failure.
pub proof fn named_copy_is_found(reply: LocateReply, error: S3Error)
    ensures
        reply matches Ok(locator) ==> found(reply) == Some(locator) && !locate_failed(reply),
        reply == Err::<LocateObjectResponse, DirectoryFailure>(DirectoryFailure::Status(404))
            ==> found(reply) is None && !locate_failed(reply),
        reply matches Err(failure) && failure != DirectoryFailure::Status(404) ==> found(reply)
            is None && locate_failed(reply),
        is_locate_error(error) ==> error.code == S3ErrorCode::InternalError && error.message@
            == "locate_object failed"@,
{
}

/// Whatever copy the directory names, a read or a measurement is sent to the store that
/// has it, and names its bucket and its key there; an object that does not exist is
/// answered with the given message, and nothing else is.
pub proof fn read_goes_to_the_named_copy(
    reply: LocateReply,
    missing: Seq<char>,
    step: Result<StoreCall<ObjectPlace>, S3Error>,
)
    requires
        routes(reply, missing, step),
    ensures
        match reply {
            Ok(locator) => step matches Ok(call) && call.tag == locator.tag && call.request.bucket
                == locator.bucket && call.request.key == locator.key,
            Err(DirectoryFailure::Status(404)) => step matches Err(error) && error.code
                == S3ErrorCode::NoSuchKey && error.message@ == missing,
            Err(_) => step matches Err(error) && error.code == S3ErrorCode::InternalError
                && error.message@ == "locate_object failed"@,
        },
{
}

/// A request for a copy goes to the store that has the copy, and two copies are asked
/// for alike exactly if they are in the same place.
pub proof fn request_names_the_place_of_the_copy(
    locator: LocateObjectResponse,
    other: LocateObjectResponse,
)
    ensures
        call_at(locator).tag == locator.tag,
        call_at(locator).request.bucket == locator.bucket,
        call_at(locator).request.key == locator.key,
        call_at(locator) == call_at(other) ==> locator.tag == other.tag && locator.bucket
            == other.bucket && locator.key == other.key,
{
}

/// An upload is answered with the directory's e-tag if the object exists, whatever else is
/// known of it; it is started, under the names that the client gave, exactly if there is
/// no such object.
pub proof fn upload_starts_exactly_if_the_object_is_missing(
    put: PutLocating,
    reply: LocateReply,
    step: PutStep,
)
    requires
        put.goes_on(reply, step),
    ensures
        match reply {
            Ok(locator) => step matches PutStep::Answer(Ok(output)) && output.e_tag
                == locator.etag,
            Err(DirectoryFailure::Status(404)) => {
                &&& step matches PutStep::Start(_, request)
                &&& request.bucket == put.bucket
                &&& request.key == put.key
                &&& request.client_from_region == put.client_from_region
                &&& !request.is_multipart
                &&& request.copy_src_bucket is None
                &&& request.copy_src_key is None
            },
            Err(_) => step matches PutStep::Answer(Err(error)) && error.code
                == S3ErrorCode::InternalError && error.message@ == "locate_object failed"@,
        },
{
}

/// A copy operation whose source exists is answered with the directory's e-tag and date if
/// the destination exists, and is started, under the names that the client gave, exactly
/// if it does not; without a source it is refused, unless the lookup of the destination
/// failed before.
pub proof fn copy_starts_exactly_if_the_destination_is_missing(
    state: CopyLocatingDestination,
    reply: LocateReply,
    step: CopyStep,
)
    requires
        state.goes_on(reply, step),
    ensures
        match reply {
            Ok(locator) => if state.src_exists {
                step matches CopyStep::Answer(Ok(output)) && output.e_tag == locator.etag
                    && output.last_modified == rfc3339_reading(locator.last_modified->Some_0@)
            } else {
                step matches CopyStep::Answer(Err(error)) && error.code == S3ErrorCode::NoSuchKey
                    && error.message@ == "Source object not found"@
            },
            Err(DirectoryFailure::Status(404)) => if state.src_exists {
                &&& step matches CopyStep::Start(_, request)
                &&& request.bucket == state.bucket
                &&& request.key == state.key
                &&& request.client_from_region == state.client_from_region
                &&& !request.is_multipart
                &&& request.copy_src_bucket == Some(state.src_bucket)
                &&& request.copy_src_key == Some(state.src_key)
            } else {
                step matches CopyStep::Answer(Err(error)) && error.code == S3ErrorCode::NoSuchKey
                    && error.message@ == "Source object not found"@
            },
            Err(_) => step matches CopyStep::Answer(Err(error)) && error.code
                == S3ErrorCode::InternalError && error.message@ == "locate_object failed"@,
        },
{
}

/// The date of a destination is needed exactly if both objects exist, and it serves
/// exactly if the directory gives one that can be read.
pub proof fn copy_needs_the_date_of_an_existing_destination(
    state: CopyLocatingDestination,
    reply: LocateReply,
    locator: LocateObjectResponse,
)
    ensures
        state.needs_date(reply) == (state.src_exists && reply is Ok),
        locator.last_modified is None ==> !date_readable(locator),
        locator.last_modified matches Some(date) ==> date_readable(locator) == (rfc3339_reading(
            date@,
        ) is Some),
{
}

} // verus!
