//! What the proxy says to the object stores, and what it answers to its clients.

use crate::timestamp::Timestamp;
use vstd::prelude::*;

verus! {

/// A request, and the region whose store it goes to.
#[derive(Debug, PartialEq, Eq)]
pub struct StoreCall<R> {
    pub tag: String,
    pub request: R,
}

/// A bucket to create, and the region to name in the request.
#[derive(Debug, PartialEq, Eq)]
pub struct CreateBucketInput {
    pub bucket: String,
    pub location: Option<String>,
}

/// A bucket to delete.
#[derive(Debug, PartialEq, Eq)]
pub struct DeleteBucketInput {
    pub bucket: String,
}

/// The place of an object in a store: what a request to write, read, measure or
/// delete the object names. The rest of such a request is the client's own.
#[derive(Debug, PartialEq, Eq)]
pub struct ObjectPlace {
    pub bucket: String,
    pub key: String,
}

/// A copy to make inside one store.
#[derive(Debug, PartialEq, Eq)]
pub struct CopyObjectInput {
    pub src_bucket: String,
    pub src_key: String,
    pub bucket: String,
    pub key: String,
}

/// Where a part goes. The rest of the request is the client's own.
#[derive(Debug, PartialEq, Eq)]
pub struct PartPlace {
    pub bucket: String,
    pub key: String,
    pub upload_id: String,
}

/// A part to copy inside one store.
#[derive(Debug, PartialEq, Eq)]
pub struct UploadPartCopyInput {
    pub bucket: String,
    pub key: String,
    pub upload_id: String,
    pub part_number: i32,
    pub src_bucket: String,
    pub src_key: String,
}

/// A part of a multipart upload that is being completed.
#[derive(Debug, PartialEq, Eq)]
pub struct CompletedPart {
    pub part_number: i32,
    pub e_tag: Option<String>,
}

/// A multipart upload to complete from the given parts.
#[derive(Debug, PartialEq, Eq)]
pub struct CompleteMultipartUploadInput {
    pub bucket: String,
    pub key: String,
    pub upload_id: String,
    pub parts: Vec<CompletedPart>,
}

/// A store's measurements of an object.
#[derive(Debug, Clone, Copy, PartialEq, Eq, Structural)]
pub struct HeadObjectOutput {
    pub content_length: i64,
    pub last_modified: Timestamp,
}

/// Where a client wants a copy to come from.
#[derive(Debug, PartialEq, Eq)]
pub enum CopySource {
    Bucket { bucket: String, key: String },
    AccessPoint,
}

impl CopySource {
    /// The object that a client names by its bucket and key. Access points are not
    /// supported.
    pub fn place(&self) -> (place: ObjectPlace)
        requires
            self is Bucket,
        ensures
            place == (ObjectPlace { bucket: self->Bucket_bucket, key: self->Bucket_key }),
    {
        match self {
            CopySource::Bucket { bucket, key } => ObjectPlace {
                bucket: bucket.clone(),
                key: key.clone(),
            },
            CopySource::AccessPoint => ObjectPlace { bucket: String::new(), key: String::new() },
        }
    }
}

/// A bucket as a client sees it.
#[derive(Debug, PartialEq, Eq)]
pub struct Bucket {
    pub creation_date: Option<Timestamp>,
    pub name: Option<String>,
}

/// The buckets of the proxy. An owner is never named.
#[derive(Debug, PartialEq, Eq)]
pub struct ListBucketsOutput {
    pub buckets: Option<Vec<Bucket>>,
}

/// An object as a client sees it.
#[derive(Debug, PartialEq, Eq)]
pub struct Object {
    pub key: Option<String>,
    pub size: i64,
    pub last_modified: Option<Timestamp>,
}

/// A listing of objects. What the proxy does not set is absent.
#[derive(Debug, PartialEq, Eq)]
pub struct ListObjectsV2Output {
    pub contents: Option<Vec<Object>>,
    pub delimiter: Option<String>,
    pub encoding_type: Option<String>,
    pub name: Option<String>,
    pub prefix: Option<String>,
    pub max_keys: Option<i32>,
}

/// A listing of objects in the older form.
#[derive(Debug, PartialEq, Eq)]
pub struct ListObjectsOutput {
    pub contents: Option<Vec<Object>>,
    pub delimiter: Option<String>,
    pub encoding_type: Option<String>,
    pub name: Option<String>,
    pub prefix: Option<String>,
    pub max_keys: Option<i32>,
}

/// The answer to an upload.
#[derive(Debug, PartialEq, Eq)]
pub struct PutObjectOutput {
    pub e_tag: Option<String>,
}

/// The answer to a copy.
#[derive(Debug, PartialEq, Eq)]
pub struct CopyObjectOutput {
    pub e_tag: Option<String>,
    pub last_modified: Option<Timestamp>,
}

/// An object that a client wants deleted.
#[derive(Debug, PartialEq, Eq)]
pub struct ObjectIdentifier {
    pub key: String,
    pub version_id: Option<String>,
}

/// An object that was deleted.
#[derive(Debug, PartialEq, Eq)]
pub struct DeletedObject {
    pub key: Option<String>,
    pub delete_marker: bool,
}

/// An object that was not deleted, and why.
#[derive(Debug, PartialEq, Eq)]
pub struct DeleteError {
    pub key: Option<String>,
    pub code: Option<String>,
    pub message: Option<String>,
}

/// The answer to a deletion of several objects.
#[derive(Debug, PartialEq, Eq)]
pub struct DeleteObjectsOutput {
    pub deleted: Option<Vec<DeletedObject>>,
    pub errors: Option<Vec<DeleteError>>,
}

/// The answer to a deletion of one object.
#[derive(Debug, Clone, Copy, PartialEq, Eq, Structural)]
pub struct DeleteObjectOutput {
    pub delete_marker: bool,
}

/// The answer to the start of a multipart upload.
#[derive(Debug, PartialEq, Eq)]
pub struct CreateMultipartUploadOutput {
    pub bucket: Option<String>,
    pub key: Option<String>,
    pub upload_id: Option<String>,
}

/// An unfinished multipart upload as a client sees it.
#[derive(Debug, PartialEq, Eq)]
pub struct MultipartUpload {
    pub key: Option<String>,
    pub upload_id: Option<String>,
}

/// The unfinished multipart uploads of a bucket.
#[derive(Debug, PartialEq, Eq)]
pub struct ListMultipartUploadsOutput {
    pub uploads: Option<Vec<MultipartUpload>>,
    pub bucket: Option<String>,
    pub prefix: Option<String>,
}

/// A part as a client sees it.
#[derive(Debug, PartialEq, Eq)]
pub struct Part {
    pub part_number: i32,
    pub size: i64,
    pub e_tag: Option<String>,
}

/// The parts of an unfinished multipart upload.
#[derive(Debug, PartialEq, Eq)]
pub struct ListPartsOutput {
    pub parts: Option<Vec<Part>>,
    pub bucket: Option<String>,
    pub key: Option<String>,
    pub upload_id: Option<String>,
}

/// The answer to an upload, or a copy, of one part.
#[derive(Debug, PartialEq, Eq)]
pub struct UploadPartOutput {
    pub e_tag: Option<String>,
}

/// The answer to the completion of a multipart upload.
#[derive(Debug, PartialEq, Eq)]
pub struct CompleteMultipartUploadOutput {
    pub bucket: Option<String>,
    pub key: Option<String>,
    pub e_tag: Option<String>,
}

} // verus!
