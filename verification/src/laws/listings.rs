//! What a client sees of what the directory lists.

use crate::buckets;
use crate::buckets::{bucket_entries, bucket_entry};
use crate::dto::{Bucket, ListObjectsV2Output, MultipartUpload, Object, Part};
use crate::error::{S3Error, S3ErrorCode};
use crate::listing;
use crate::listing::{
    are_object_entries, is_listing_error, is_object_entry, is_part_entry, shows_objects,
    signed_size, upload_entry,
};
use crate::models::{BucketResponse, LogicalPartResponse, MultipartResponse, ObjectResponse};
use crate::timestamp::{rfc3339_reading, Timestamp};
use vstd::prelude::*;

verus! {

/// A size is shown as the number of 64 bits with a sign that has the same bits: up to
/// 2^63 - 1 it is the size itself, and from there on it is off by 2^64.
pub proof fn shown_size_has_the_same_bits(size: u64)
    ensures
        i64::MIN <= signed_size(size) <= i64::MAX,
        (signed_size(size) - size) % 0x1_0000_0000_0000_0000 == 0,
        size <= i64::MAX ==> signed_size(size) == size,
{
}

/// A listing of objects shows every listed object at its own position, under its own key,
/// with its own size and its own date, and it shows nothing else.
pub proof fn every_object_is_shown_under_its_key(
    output: ListObjectsV2Output,
    listing: Seq<ObjectResponse>,
    i: int,
)
    requires
        shows_objects(output, listing),
        0 <= i < listing.len(),
    ensures
        output.contents matches Some(entries) && entries@.len() == listing.len() && entries@[i].key
            == Some(listing[i].key) && (entries@[i].size - listing[i].size)
            % 0x1_0000_0000_0000_0000 == 0 && entries@[i].last_modified == Some(
            rfc3339_reading(listing[i].last_modified@)->Some_0,
        ),
        listing[i].size <= i64::MAX ==> output.contents->Some_0@[i].size == listing[i].size,
        output.delimiter is None,
        output.encoding_type is None,
        output.name is None,
        output.prefix is None,
        output.max_keys is None,
{
    let entries = output.contents->Some_0@;
    assert(entries[i].key == Some(listing[i].key));
    shown_size_has_the_same_bits(listing[i].size);
}

/// A client sees a key exactly if the directory lists it, and as often: where two entries
/// show the same key, the directory lists it at both positions.
pub proof fn key_is_shown_exactly_if_it_is_listed(
    output: ListObjectsV2Output,
    listing: Seq<ObjectResponse>,
    key: String,
)
    requires
        shows_objects(output, listing),
    ensures
        output.contents is Some,
        output.contents->Some_0@.len() == listing.len(),
        (exists|i: int|
            0 <= i < output.contents->Some_0@.len() && (
            #[trigger] output.contents->Some_0@[i]).key == Some(key)) == (exists|i: int|
            0 <= i < listing.len() && (#[trigger] listing[i]).key == key),
        forall|i: int, j: int|
            0 <= i < listing.len() && 0 <= j < listing.len() && (
            #[trigger] output.contents->Some_0@[i]).key == (
            #[trigger] output.contents->Some_0@[j]).key ==> listing[i].key == listing[j].key,
{
    let entries = output.contents->Some_0@;
    assert(forall|i: int|
        0 <= i < listing.len() ==> (#[trigger] entries[i]).key == Some(listing[i].key));
    if exists|i: int| 0 <= i < listing.len() && (#[trigger] listing[i]).key == key {
        let i = choose|i: int| 0 <= i < listing.len() && (#[trigger] listing[i]).key == key;
        assert(entries[i].key == Some(key));
    }
    if exists|i: int| 0 <= i < entries.len() && (#[trigger] entries[i]).key == Some(key) {
        let i = choose|i: int| 0 <= i < entries.len() && (#[trigger] entries[i]).key == Some(key);
        assert(listing[i].key == key);
    }
}

/// Two listings that a client sees alike list the same keys at the same positions, and
/// every single entry says of the object what the directory says of it.
pub proof fn listings_seen_alike_list_the_same_keys(
    entries: Seq<Object>,
    one: Seq<ObjectResponse>,
    other: Seq<ObjectResponse>,
    entry: Object,
    listed: ObjectResponse,
    modified: Timestamp,
)
    requires
        are_object_entries(entries, one),
        are_object_entries(entries, other),
        is_object_entry(entry, listed, modified),
    ensures
        one.len() == other.len(),
        forall|i: int| 0 <= i < one.len() ==> (#[trigger] one[i]).key == other[i].key,
        forall|i: int| 0 <= i < one.len() ==> (#[trigger] one[i]).size == other[i].size,
        entry.key == Some(listed.key),
        (entry.size - listed.size) % 0x1_0000_0000_0000_0000 == 0,
        entry.last_modified == Some(modified),
{
    shown_size_has_the_same_bits(listed.size);
    assert forall|i: int| 0 <= i < one.len() implies (#[trigger] one[i]).key == other[i].key
        && one[i].size == other[i].size by {
        assert(entries[i].key == Some(one[i].key));
        assert(entries[i].key == Some(other[i].key));
        shown_size_has_the_same_bits(one[i].size);
        shown_size_has_the_same_bits(other[i].size);
    }
}

/// A listing can be shown exactly if every date in it can be read; a listing that the
/// directory did not give is answered with one error.
pub proof fn listing_is_shown_exactly_if_its_dates_can_be_read(
    objects: Seq<ObjectResponse>,
    named: Seq<BucketResponse>,
    error: S3Error,
)
    ensures
        listing::dates_readable(objects) == (forall|i: int|
            0 <= i < objects.len() ==> rfc3339_reading((#[trigger] objects[i]).last_modified@)
                is Some),
        buckets::dates_readable(named) == (forall|i: int|
            0 <= i < named.len() ==> rfc3339_reading((#[trigger] named[i]).creation_date@)
                is Some),
        is_listing_error(error) ==> error.code == S3ErrorCode::InternalError && error.message@
            == "list_objects_v2 failed"@,
{
}

/// A listing of buckets shows every listed bucket at its own position, under its own name
/// and with its own date.
pub proof fn every_bucket_is_shown_under_its_name(listing: Seq<BucketResponse>, i: int)
    requires
        0 <= i < listing.len(),
    ensures
        bucket_entries(listing).len() == listing.len(),
        bucket_entries(listing)[i].name == Some(listing[i].bucket),
        bucket_entries(listing)[i].creation_date == Some(
            rfc3339_reading(listing[i].creation_date@)->Some_0,
        ),
{
}

/// A single bucket is shown under its own name and with the date that was read.
pub proof fn bucket_is_shown_with_its_date(
    listed: BucketResponse,
    created: Timestamp,
    entry: Bucket,
)
    requires
        entry == bucket_entry(listed, created),
    ensures
        entry.name == Some(listed.bucket),
        entry.creation_date == Some(created),
{
}

/// A listing of unfinished uploads shows every listed upload at its own position, under
/// its own key and its own id.
pub proof fn every_upload_is_shown_under_its_key_and_id(
    uploads: Seq<MultipartUpload>,
    listing: Seq<MultipartResponse>,
    i: int,
)
    requires
        uploads == listing.map_values(|listed: MultipartResponse| upload_entry(listed)),
        0 <= i < listing.len(),
    ensures
        uploads.len() == listing.len(),
        uploads[i].key == Some(listing[i].key),
        uploads[i].upload_id == Some(listing[i].upload_id),
{
}

/// A listed part is shown under its own number, with its own size and its own e-tag.
pub proof fn every_part_is_shown_under_its_number(entry: Part, listed: LogicalPartResponse)
    requires
        is_part_entry(entry, listed),
    ensures
        entry.part_number == listed.part_number,
        (entry.size - listed.size) % 0x1_0000_0000_0000_0000 == 0,
        listed.size <= i64::MAX ==> entry.size == listed.size,
        entry.e_tag == Some(listed.etag),
{
    shown_size_has_the_same_bits(listed.size);
}

} // verus!
