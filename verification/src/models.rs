//! What the proxy says to the directory service, and what the service replies.

use vstd::prelude::*;

verus! {

/// Asks where the nearest copy of an object lives.
#[derive(Debug, PartialEq, Eq)]
pub struct LocateObjectRequest {
    pub bucket: String,
    pub key: String,
    pub client_from_region: String,
}

/// A copy of an object: the store that holds it, its place there, and what the
/// directory knows of it.
#[derive(Debug, PartialEq, Eq)]
pub struct LocateObjectResponse {
    pub id: i32,
    /// The region whose store holds the copy.
    pub tag: String,
    pub bucket: String,
    pub key: String,
    pub size: Option<u64>,
    pub last_modified: Option<String>,
    pub etag: Option<String>,
}

/// Why the directory service gave no reply.
#[derive(Debug, Clone, Copy, PartialEq, Eq, Structural)]
pub enum DirectoryFailure {
    /// It answered with this HTTP status.
    Status(u16),
    /// It did not answer, or not intelligibly.
    NoAnswer,
}

/// The outcome of a [`LocateObjectRequest`].
pub type LocateReply = Result<LocateObjectResponse, DirectoryFailure>;

/// Announces a bucket that is about to be created.
#[derive(Debug, PartialEq, Eq)]
pub struct CreateBucketRequest {
    pub bucket: String,
    pub client_from_region: String,
    pub warmup_regions: Option<Vec<String>>,
}

/// Reports that a store has created a bucket.
#[derive(Debug, PartialEq, Eq)]
pub struct CreateBucketIsCompleted {
    pub id: i32,
    pub creation_date: String,
}

/// Announces a bucket that is about to be deleted.
#[derive(Debug, PartialEq, Eq)]
pub struct DeleteBucketRequest {
    pub bucket: String,
}

/// Reports that a store has deleted a bucket.
#[derive(Debug, PartialEq, Eq)]
pub struct DeleteBucketIsCompleted {
    pub id: i32,
}

/// A bucket in one of the stores.
#[derive(Debug, PartialEq, Eq)]
pub struct LocateBucketResponse {
    pub id: i32,
    /// The region whose store holds the bucket.
    pub tag: String,
    pub bucket: String,
}

/// A bucket as the directory lists it.
#[derive(Debug, PartialEq, Eq)]
pub struct BucketResponse {
    pub bucket: String,
    pub creation_date: String,
}

/// Asks for the objects, or the unfinished uploads, under a prefix.
#[derive(Debug, PartialEq, Eq)]
pub struct ListObjectRequest {
    pub bucket: String,
    pub prefix: Option<String>,
}

/// An object as the directory lists it.
#[derive(Debug, PartialEq, Eq)]
pub struct ObjectResponse {
    pub key: String,
    pub size: u64,
    pub last_modified: String,
}

/// Asks for the metadata of a finished object.
#[derive(Debug, PartialEq, Eq)]
pub struct HeadObjectRequest {
    pub bucket: String,
    pub key: String,
}

/// The metadata of a finished object.
#[derive(Debug, PartialEq, Eq)]
pub struct HeadObjectResponse {
    pub etag: String,
}

/// Announces an upload and asks where to put its copies.
#[derive(Debug, PartialEq, Eq)]
pub struct StartUploadRequest {
    pub bucket: String,
    pub key: String,
    pub client_from_region: String,
    pub is_multipart: bool,
    pub copy_src_bucket: Option<String>,
    pub copy_src_key: Option<String>,
}

/// Where to put the copies of an upload and, for a copy, where each of those
/// stores has the source.
#[derive(Debug, PartialEq, Eq)]
pub struct StartUploadResponse {
    pub multipart_upload_id: Option<String>,
    pub locators: Vec<LocateObjectResponse>,
    pub copy_src_buckets: Vec<String>,
    pub copy_src_keys: Vec<String>,
}

/// Reports that a store has a complete copy.
#[derive(Debug, PartialEq, Eq)]
pub struct PatchUploadIsCompleted {
    pub id: i32,
    pub size: u64,
    pub etag: String,
    pub last_modified: String,
}

/// Reports the id that a store gave to a multipart upload.
#[derive(Debug, PartialEq, Eq)]
pub struct PatchUploadMultipartUploadId {
    pub id: i32,
    pub multipart_upload_id: String,
}

/// Reports that a store has a part.
#[derive(Debug, PartialEq, Eq)]
pub struct PatchUploadMultipartUploadPart {
    pub id: i32,
    pub part_number: i32,
    pub etag: String,
    pub size: u64,
}

/// Asks where the copies of an unfinished multipart upload are.
#[derive(Debug, PartialEq, Eq)]
pub struct ContinueUploadRequest {
    pub bucket: String,
    pub key: String,
    pub multipart_upload_id: String,
    pub client_from_region: String,
    pub do_list_parts: Option<bool>,
    pub copy_src_bucket: Option<String>,
    pub copy_src_key: Option<String>,
}

/// A part that a store has.
#[derive(Debug, PartialEq, Eq)]
pub struct ContinueUploadPart {
    pub part_number: i32,
    pub etag: String,
}

/// One store's copy of an unfinished multipart upload.
#[derive(Debug, PartialEq, Eq)]
pub struct ContinueUploadResponse {
    pub id: i32,
    /// The region whose store holds the copy.
    pub tag: String,
    pub bucket: String,
    pub key: String,
    /// The store's own id of the upload.
    pub multipart_upload_id: String,
    pub parts: Option<Vec<ContinueUploadPart>>,
    pub copy_src_bucket: Option<String>,
    pub copy_src_key: Option<String>,
}

/// An unfinished multipart upload as the directory lists it.
#[derive(Debug, PartialEq, Eq)]
pub struct MultipartResponse {
    pub key: String,
    pub upload_id: String,
}

/// Asks for the parts of an unfinished multipart upload, or for one of them.
#[derive(Debug, PartialEq, Eq)]
pub struct ListPartsRequest {
    pub bucket: String,
    pub key: String,
    pub upload_id: String,
    pub part_number: Option<i32>,
}

/// A part as the directory lists it.
#[derive(Debug, PartialEq, Eq)]
pub struct LogicalPartResponse {
    pub part_number: i32,
    pub etag: String,
    pub size: u64,
}

/// Announces objects that are about to be deleted and asks where their copies are.
#[derive(Clone, Debug, PartialEq)]
pub struct DeleteObjectsRequest {
    pub bucket: String,
    pub keys: Vec<String>,
}

impl DeleteObjectsRequest {
    /// A request for the given keys of a bucket.
    pub fn new(bucket: String, keys: Vec<String>) -> (request: DeleteObjectsRequest)
        ensures
            request == (DeleteObjectsRequest { bucket, keys }),
    {
        DeleteObjectsRequest { bucket, keys }
    }
}

/// The copies of one object that is to be deleted.
#[derive(Debug, PartialEq, Eq)]
pub struct KeyLocators {
    pub key: String,
    pub locators: Vec<LocateObjectResponse>,
}

/// Reports copies that the stores have deleted.
#[derive(Debug, PartialEq, Eq)]
pub struct DeleteObjectsIsCompleted {
    pub ids: Vec<i32>,
}

} // verus!
