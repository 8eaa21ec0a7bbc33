//! Listing objects, unfinished uploads and parts.

use crate::dto::{
    ListMultipartUploadsOutput, ListObjectsOutput, ListObjectsV2Output, ListPartsOutput,
    MultipartUpload, Object, Part,
};
use crate::error::{S3Error, S3ErrorCode};
use crate::models::{
    DirectoryFailure, ListObjectRequest, ListPartsRequest, LogicalPartResponse, MultipartResponse,
    ObjectResponse,
};
use crate::proxy::SkyProxy;
use crate::text::copied;
use crate::timestamp::{parse_timestamp, rfc3339_reading, Timestamp};
use vstd::prelude::*;

verus! {

/// A size as S3 writes it: sizes of 2^63 and above wrap around to negative ones.
pub open spec fn signed_size(size: u64) -> int {
    if size < 0x8000_0000_0000_0000 {
        size as int
    } else {
        size - 0x1_0000_0000_0000_0000
    }
}

/// Every modification date in a listing can be read.
pub open spec fn dates_readable(listing: Seq<ObjectResponse>) -> bool {
    forall|i: int|
        0 <= i < listing.len() ==> rfc3339_reading((#[trigger] listing[i]).last_modified@) is Some
}

/// A client sees the listed object, last modified at the given time, as `entry`.
pub open spec fn is_object_entry(
    entry: Object,
    listed: ObjectResponse,
    modified: Timestamp,
) -> bool {
    &&& entry.key == Some(listed.key)
    &&& entry.size == signed_size(listed.size)
    &&& entry.last_modified == Some(modified)
}

/// The entries show the listing: one entry per object, in the listing's order.
pub open spec fn are_object_entries(entries: Seq<Object>, listing: Seq<ObjectResponse>) -> bool {
    &&& entries.len() == listing.len()
    &&& forall|i: int|
        0 <= i < listing.len() ==> is_object_entry(
            #[trigger] entries[i],
            listing[i],
            rfc3339_reading(listing[i].last_modified@)->Some_0,
        )
}

/// The error of a listing that the directory did not give.
pub open spec fn is_listing_error(error: S3Error) -> bool {
    error.says(S3ErrorCode::InternalError, "list_objects_v2 failed"@)
}

/// The output shows the listing and nothing else.
pub open spec fn shows_objects(output: ListObjectsV2Output, listing: Seq<ObjectResponse>) -> bool {
    &&& output.contents matches Some(entries) && are_object_entries(entries@, listing)
    &&& output.delimiter is None
    &&& output.encoding_type is None
    &&& output.name is None
    &&& output.prefix is None
    &&& output.max_keys is None
}

/// What a client sees of an unfinished upload.
pub open spec fn upload_entry(listed: MultipartResponse) -> MultipartUpload {
    MultipartUpload { key: Some(listed.key), upload_id: Some(listed.upload_id) }
}

/// A client sees the listed part as `entry`.
pub open spec fn is_part_entry(entry: Part, listed: LogicalPartResponse) -> bool {
    &&& entry.part_number == listed.part_number
    &&& entry.size == signed_size(listed.size)
    &&& entry.e_tag == Some(listed.etag)
}

/// A listing of unfinished uploads that waits for the directory.
#[derive(Debug, PartialEq, Eq)]
pub struct UploadsListing {
    pub bucket: String,
    pub prefix: Option<String>,
}

/// A listing of parts that waits for the directory.
#[derive(Debug, PartialEq, Eq)]
pub struct PartsListing {
    pub bucket: String,
    pub key: String,
    pub upload_id: String,
}

/// A size as S3 writes it.
fn to_signed_size(size: u64) -> (signed: i64)
    ensures
        signed == signed_size(size),
{
    proof {
        assert(size < 0x8000_0000_0000_0000 ==> (size as i64) == size) by (bit_vector);
        assert(size >= 0x8000_0000_0000_0000 ==> (size as i64) == size - 0x1_0000_0000_0000_0000)
            by (bit_vector);
    }
    #[verifier::truncate]
    (size as i64)
}

/// The client's view of one listed object.
pub fn listed_object(listed: ObjectResponse, modified: Timestamp) -> (entry: Object)
    ensures
        is_object_entry(entry, listed, modified),
{
    Object {
        key: Some(listed.key),
        size: to_signed_size(listed.size),
        last_modified: Some(modified),
    }
}

/// The answer to a client that asked for objects, from the directory's reply.
pub fn list_objects_v2_replied(reply: Result<Vec<ObjectResponse>, DirectoryFailure>) -> (answer:
    Result<ListObjectsV2Output, S3Error>)
    requires
        reply matches Ok(listing) ==> dates_readable(listing@),
    ensures
        match reply {
            Ok(listing) => answer matches Ok(output) && shows_objects(output, listing@),
            Err(_) => answer matches Err(error) && is_listing_error(error),
        },
        reply matches Ok(listing) ==> forall|i: int|
            0 <= i < listing@.len() ==> (#[trigger] answer->Ok_0.contents->Some_0@[i]).key == Some(
                listing@[i].key,
            ),
{
    match reply {
        Ok(listing) => {
            let ghost listed = listing@;
            let mut objects: Vec<Object> = Vec::new();
            for object in it: listing
                invariant
                    it.seq() == listed,
                    dates_readable(listed),
                    objects@.len() == it.index(),
                    forall|j: int|
                        0 <= j < it.index() ==> is_object_entry(
                            #[trigger] objects@[j],
                            listed[j],
                            rfc3339_reading(listed[j].last_modified@)->Some_0,
                        ),
            {
                if let Some(modified) = parse_timestamp(object.last_modified.as_str()) {
                    objects.push(listed_object(object, modified));
                }
            }
            Ok(
                ListObjectsV2Output {
                    contents: Some(objects),
                    delimiter: None,
                    encoding_type: None,
                    name: None,
                    prefix: None,
                    max_keys: None,
                },
            )
        },
        Err(_) => Err(S3Error::with_message(S3ErrorCode::InternalError, "list_objects_v2 failed")),
    }
}

/// The answer to a client that asked for objects; `None` if the directory's reply
/// holds a modification date that cannot be read.
pub fn list_objects_v2_checked(reply: Result<Vec<ObjectResponse>, DirectoryFailure>) -> (answer:
    Option<Result<ListObjectsV2Output, S3Error>>)
    ensures
        match reply {
            Ok(listing) => {
                &&& answer is Some == dates_readable(listing@)
                &&& answer matches Some(given) ==> (given matches Ok(output) && shows_objects(
                    output,
                    listing@,
                ))
            },
            Err(_) => answer matches Some(Err(error)) && is_listing_error(error),
        },
{
    if let Ok(listing) = &reply {
        let mut i: usize = 0;
        while i < listing.len()
            invariant
                i <= listing@.len(),
                reply == Ok::<Vec<ObjectResponse>, DirectoryFailure>(*listing),
                forall|j: int|
                    0 <= j < i ==> rfc3339_reading((#[trigger] listing@[j]).last_modified@) is Some,
            decreases listing@.len() - i,
        {
            if parse_timestamp(listing[i].last_modified.as_str()).is_none() {
                return None;
            }
            i += 1;
        }
    }
    Some(list_objects_v2_replied(reply))
}

/// The same listing in the older form.
pub fn list_objects_answer(listing: Result<ListObjectsV2Output, S3Error>) -> (answer: Result<
    ListObjectsOutput,
    S3Error,
>)
    ensures
        match listing {
            Ok(v2) => answer == Ok::<ListObjectsOutput, S3Error>(
                ListObjectsOutput {
                    contents: v2.contents,
                    delimiter: v2.delimiter,
                    encoding_type: v2.encoding_type,
                    name: v2.name,
                    prefix: v2.prefix,
                    max_keys: v2.max_keys,
                },
            ),
            Err(error) => answer == Err::<ListObjectsOutput, S3Error>(error),
        },
{
    match listing {
        Ok(v2) => Ok(
            ListObjectsOutput {
                contents: v2.contents,
                delimiter: v2.delimiter,
                encoding_type: v2.encoding_type,
                name: v2.name,
                prefix: v2.prefix,
                max_keys: v2.max_keys,
            },
        ),
        Err(error) => Err(error),
    }
}

impl UploadsListing {
    /// The answer to the client, from the directory's listing.
    pub fn listed(self, listing: Vec<MultipartResponse>) -> (output: ListMultipartUploadsOutput)
        ensures
            output.uploads matches Some(uploads) && uploads@ == listing@.map_values(
                |listed: MultipartResponse| upload_entry(listed),
            ),
            output.bucket == Some(self.bucket),
            output.prefix == self.prefix,
    {
        let ghost given = listing@;
        let mut uploads: Vec<MultipartUpload> = Vec::new();
        for upload in it: listing
            invariant
                it.seq() == given,
                uploads@.len() == it.index(),
                forall|j: int|
                    0 <= j < it.index() ==> #[trigger] uploads@[j] == upload_entry(given[j]),
        {
            uploads.push(
                MultipartUpload { key: Some(upload.key), upload_id: Some(upload.upload_id) },
            );
        }
        proof {
            assert(uploads@ =~= given.map_values(|listed: MultipartResponse| upload_entry(listed)));
        }
        ListMultipartUploadsOutput {
            uploads: Some(uploads),
            bucket: Some(self.bucket),
            prefix: self.prefix,
        }
    }
}

impl PartsListing {
    /// The answer to the client, from the directory's listing.
    pub fn listed(self, listing: Vec<LogicalPartResponse>) -> (output: ListPartsOutput)
        ensures
            output.parts matches Some(parts) && parts@.len() == listing@.len() && forall|i: int|
                0 <= i < listing@.len() ==> is_part_entry(#[trigger] parts@[i], listing@[i]),
            output.bucket == Some(self.bucket),
            output.key == Some(self.key),
            output.upload_id == Some(self.upload_id),
    {
        let ghost given = listing@;
        let mut parts: Vec<Part> = Vec::new();
        for part in it: listing
            invariant
                it.seq() == given,
                parts@.len() == it.index(),
                forall|j: int|
                    0 <= j < it.index() ==> is_part_entry(#[trigger] parts@[j], given[j]),
        {
            parts.push(
                Part {
                    part_number: part.part_number,
                    size: to_signed_size(part.size),
                    e_tag: Some(part.etag),
                },
            );
        }
        ListPartsOutput {
            parts: Some(parts),
            bucket: Some(self.bucket),
            key: Some(self.key),
            upload_id: Some(self.upload_id),
        }
    }
}

impl SkyProxy {
    /// Asks the directory for the objects under a prefix.
    pub fn list_objects_v2(&self, bucket: &String, prefix: &Option<String>) -> (request:
        ListObjectRequest)
        ensures
            request == (ListObjectRequest { bucket: *bucket, prefix: *prefix }),
    {
        ListObjectRequest { bucket: bucket.clone(), prefix: copied(prefix) }
    }

    /// Asks the directory for the objects under a prefix, for a client that wants
    /// the older form of the listing.
    pub fn list_objects(&self, bucket: &String, prefix: &Option<String>) -> (request:
        ListObjectRequest)
        ensures
            request == (ListObjectRequest { bucket: *bucket, prefix: *prefix }),
    {
        self.list_objects_v2(bucket, prefix)
    }

    /// Asks the directory for the unfinished uploads under a prefix.
    pub fn list_multipart_uploads(&self, bucket: &String, prefix: &Option<String>) -> (opened: (
        UploadsListing,
        ListObjectRequest,
    ))
        ensures
            opened.0 == (UploadsListing { bucket: *bucket, prefix: *prefix }),
            opened.1 == (ListObjectRequest { bucket: *bucket, prefix: *prefix }),
    {
        (
            UploadsListing { bucket: bucket.clone(), prefix: copied(prefix) },
            ListObjectRequest { bucket: bucket.clone(), prefix: copied(prefix) },
        )
    }

    /// Asks the directory for all parts of an unfinished upload.
    pub fn list_parts(&self, bucket: &String, key: &String, upload_id: &String) -> (opened: (
        PartsListing,
        ListPartsRequest,
    ))
        ensures
            opened.0 == (PartsListing { bucket: *bucket, key: *key, upload_id: *upload_id }),
            opened.1 == (ListPartsRequest {
                bucket: *bucket,
                key: *key,
                upload_id: *upload_id,
                part_number: None,
            }),
    {
        (
            PartsListing {
                bucket: bucket.clone(),
                key: key.clone(),
                upload_id: upload_id.clone(),
            },
            ListPartsRequest {
                bucket: bucket.clone(),
                key: key.clone(),
                upload_id: upload_id.clone(),
                part_number: None,
            },
        )
    }
}

} // verus!
