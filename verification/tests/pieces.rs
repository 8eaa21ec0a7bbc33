//! The steps of the operations one by one, and their edge cases.

use skyproxy::buckets::{
    create_bucket_joined, create_bucket_located, list_buckets_checked, list_buckets_replied,
    listed_bucket, BucketWork, JoinStep, NewBucket,
};
use skyproxy::dto::{
    CompletedPart, CopySource, HeadObjectOutput, ObjectIdentifier, ObjectPlace,
};
use skyproxy::error::{S3Error, S3ErrorCode};
use skyproxy::listing::{
    list_objects_answer, list_objects_v2_checked, list_objects_v2_replied, listed_object,
};
use skyproxy::models::{
    BucketResponse, ContinueUploadPart, ContinueUploadResponse, DirectoryFailure,
    LocateBucketResponse, LocateObjectResponse, LogicalPartResponse, MultipartResponse,
    ObjectResponse, StartUploadResponse,
};
use skyproxy::multipart::{part_answer, CompletingStep, MultipartStep};
use skyproxy::objects::{
    completion, existing_copy, get_object_located, head_object_located, head_object_replied,
    CopyStep, JoinedUploads, PutStep,
};
use skyproxy::parts::{ordered_parts, part_numbers, parts_go_with};
use skyproxy::proxy::{
    bucket_exists_already, directory_base_path, located, names_provider, store_endpoint, SkyProxy,
};
use skyproxy::text::{contains, copied, first_colon, joined, starts_with};
use skyproxy::timestamp::{current_time, parse_timestamp, timestamp_to_string, Timestamp};

fn text(value: &str) -> String {
    value.to_string()
}

fn utc(wall_nanos: i128) -> Timestamp {
    Timestamp { wall_nanos, offset_seconds: 0 }
}

fn locator(id: i32, tag: &str) -> LocateObjectResponse {
    LocateObjectResponse {
        id,
        tag: text(tag),
        bucket: format!("bucket-{}", id),
        key: format!("key-{}", id),
        size: Some(10),
        last_modified: Some(text("2020-01-01T00:00:00Z")),
        etag: Some(format!("etag-{}", id)),
    }
}

fn proxy() -> SkyProxy {
    SkyProxy::new(vec![text("aws:us-west-1"), text("gcp:us-west1")], text("aws:us-west-1"))
}

fn says<T>(answer: Result<T, S3Error>, code: S3ErrorCode, message: &str) -> bool {
    match answer {
        Ok(_) => false,
        Err(error) => error.code == code && error.message == message,
    }
}

fn store_part(part_number: i32, etag: &str) -> ContinueUploadPart {
    ContinueUploadPart { part_number, etag: text(etag) }
}

fn client_part(part_number: i32) -> CompletedPart {
    CompletedPart { part_number, e_tag: None }
}

fn unfinished(id: i32, parts: Option<Vec<ContinueUploadPart>>) -> ContinueUploadResponse {
    ContinueUploadResponse {
        id,
        tag: text("gcp:us-west1"),
        bucket: text("store-bucket"),
        key: text("store-key"),
        multipart_upload_id: text("store-upload"),
        parts,
        copy_src_bucket: None,
        copy_src_key: None,
    }
}

#[test]
fn text_is_searched() {
    assert!(starts_with("skystore-a", "skystore-"));
    assert!(starts_with("abc", ""));
    assert!(!starts_with("sky", "skystore-"));
    assert!(!starts_with("my-skystore-a", "skystore-"));
    assert!(contains("abcabd", "abd"));
    assert!(contains("abc", ""));
    assert!(contains("abc", "abc"));
    assert!(!contains("ab", "abc"));
    assert!(!contains("abcabc", "cb"));
    assert_eq!(first_colon("aws:us:1"), Some(3));
    assert_eq!(first_colon("\u{e9}:x"), Some(1));
    assert_eq!(first_colon("aws"), None);
    assert_eq!(joined("left ", "right"), "left right");
    assert_eq!(copied(&Some(text("x"))), Some(text("x")));
    assert_eq!(copied(&None), None);
}

#[test]
fn date_is_read_and_written() {
    let stamp = parse_timestamp("1985-04-12T23:20:50.520Z").unwrap();
    assert_eq!(stamp, utc(482_196_050_520_000_000));
    assert_eq!(timestamp_to_string(stamp), "1985-04-12T23:20:50.520Z");
}

#[test]
fn date_keeps_its_offset_when_read() {
    let stamp = parse_timestamp("1996-12-19T16:39:57-08:00").unwrap();
    // 1996-12-19T16:39:57 on the clock of the offset.
    assert_eq!(
        stamp,
        Timestamp { wall_nanos: 851_013_597_000_000_000, offset_seconds: -28_800 }
    );
    assert_eq!(timestamp_to_string(stamp), "1996-12-19T16:39:57.000Z");
}

#[test]
fn date_is_cut_to_the_millisecond() {
    assert_eq!(timestamp_to_string(utc(1_999_999)), "1970-01-01T00:00:00.001Z");
    assert_eq!(timestamp_to_string(utc(-1)), "1969-12-31T23:59:59.999Z");
    for wall_nanos in [
        0,
        -1,
        1_234_567,
        -62_167_219_200_000_000_000,
        -62_167_219_199_999_999_999,
        253_402_300_799_999_999_999,
        951_782_400_000_000_000,
    ] {
        let millis: i128 = wall_nanos - i128::rem_euclid(wall_nanos, 1_000_000);
        for offset_seconds in [0, 93_599, -93_599, 3_600] {
            let stamp = Timestamp { wall_nanos, offset_seconds };
            assert!(stamp.is_valid());
            assert_eq!(parse_timestamp(&timestamp_to_string(stamp)), Some(utc(millis)));
        }
    }
}

#[test]
fn date_before_the_year_zero_is_written_but_not_read() {
    let written = timestamp_to_string(utc(-62_167_219_200_000_000_001));
    assert_eq!(written, "-0001-12-31T23:59:59.999Z");
    assert_eq!(parse_timestamp(&written), None);
    let earliest = utc(-377_705_116_800_000_000_000);
    assert!(earliest.is_valid());
    assert_eq!(timestamp_to_string(earliest), "-9999-01-01T00:00:00.000Z");
}

#[test]
fn range_of_dates_ends() {
    assert!(!utc(-377_705_116_800_000_000_001).is_valid());
    assert!(!utc(253_402_300_800_000_000_000).is_valid());
    assert!(!Timestamp { wall_nanos: 0, offset_seconds: 93_600 }.is_valid());
    assert!(!Timestamp { wall_nanos: 0, offset_seconds: -93_600 }.is_valid());
}

#[test]
fn text_that_is_no_date_is_not_read() {
    for wrong in ["", "yesterday", "1985-04-12", "1985-13-12T23:20:50Z", "1985-04-12T23:20:50"] {
        assert_eq!(parse_timestamp(wrong), None);
    }
}

#[test]
fn clock_is_at_utc() {
    let now = current_time();
    assert!(now.is_valid());
    assert_eq!(now.offset_seconds, 0);
    assert!(now.wall_nanos > 1_577_836_800_000_000_000);
}

#[test]
fn error_is_displayed() {
    let error = S3Error::with_message(S3ErrorCode::InternalError, "it \"broke\"");
    assert_eq!(
        error.to_text(),
        "S3Error { code: InternalError, message: \"it \\\"broke\\\"\", .. }"
    );
    let error = S3Error::with_message(S3ErrorCode::NoSuchKey, "gone");
    assert_eq!(error.to_text(), "S3Error { code: NoSuchKey, message: \"gone\", .. }");
}

#[test]
fn region_names_its_provider() {
    assert!(names_provider("aws:us-west-1"));
    assert!(names_provider(":"));
    assert!(!names_provider("us-west-1"));
}

#[test]
fn services_are_local() {
    assert_eq!(directory_base_path(), "http://localhost:3000");
    assert_eq!(store_endpoint(), "http://localhost:8014");
}

#[test]
fn startup_creates_a_bucket_per_region() {
    let proxy = SkyProxy::new(vec![text("aws:us-west-1"), text("x:a:b")], text("aws:us-west-1"));
    let calls = proxy.startup_calls();
    assert_eq!(calls.len(), 2);
    assert_eq!(calls[0].tag, "aws:us-west-1");
    assert_eq!(calls[0].request.bucket, "skystore-us-west-1");
    assert_eq!(calls[0].request.location, Some(text("aws:us-west-1")));
    assert_eq!(calls[1].request.bucket, "skystore-a:b");
    assert!(SkyProxy::new(Vec::new(), text("")).startup_calls().is_empty());
}

#[test]
fn only_an_existing_bucket_is_no_failure_at_startup() {
    assert!(bucket_exists_already("S3Error { code: BucketAlreadyExists, .. }"));
    assert!(!bucket_exists_already("S3Error { code: AccessDenied, .. }"));
}

#[test]
fn last_store_of_a_region_counts() {
    let proxy = SkyProxy::new(vec![text("a:1"), text("b:2"), text("a:1")], text("a:1"));
    assert_eq!(proxy.store_index(&text("a:1")), Some(2));
    assert_eq!(proxy.store_index(&text("b:2")), Some(1));
    assert_eq!(proxy.store_index(&text("c:3")), None);
}

#[test]
fn lookup_names_the_clients_region() {
    let request = proxy().locate_object(&text("b"), &text("k"));
    assert_eq!(request.bucket, "b");
    assert_eq!(request.key, "k");
    assert_eq!(request.client_from_region, "aws:us-west-1");
    assert_eq!(proxy().head_object(&text("b"), &text("k")), request);
    assert_eq!(proxy().get_object(&text("b"), &text("k")), request);
}

#[test]
fn not_found_is_no_failure_of_the_lookup() {
    assert_eq!(located(Ok(locator(1, "a:1"))), Ok(Some(locator(1, "a:1"))));
    assert_eq!(located(Err(DirectoryFailure::Status(404))), Ok(None));
    for failure in [
        DirectoryFailure::Status(500),
        DirectoryFailure::Status(403),
        DirectoryFailure::NoAnswer,
    ] {
        assert!(says(
            located(Err(failure)),
            S3ErrorCode::InternalError,
            "locate_object failed"
        ));
        assert!(says(
            head_object_located(Err(failure)),
            S3ErrorCode::InternalError,
            "locate_object failed"
        ));
        assert!(says(
            get_object_located(Err(failure)),
            S3ErrorCode::InternalError,
            "locate_object failed"
        ));
    }
}

#[test]
fn request_goes_to_the_named_copy() {
    let call = get_object_located(Ok(locator(4, "gcp:us-west1"))).unwrap();
    assert_eq!(call.tag, "gcp:us-west1");
    assert_eq!(call.request.bucket, "bucket-4");
    assert_eq!(call.request.key, "key-4");
    assert_eq!(head_object_located(Ok(locator(4, "gcp:us-west1"))), Ok(call));
}

#[test]
fn measurement_is_passed_on() {
    assert_eq!(head_object_replied::<i32, &str>(Ok(5)), Ok(5));
    assert!(says(
        head_object_replied::<i32, &str>(Err("no")),
        S3ErrorCode::InternalError,
        "head_object failed"
    ));
}

#[test]
fn upload_asks_for_places_of_a_new_object() {
    let (state, _) = proxy().put_object(&text("b"), &text("k"));
    match state.located(Err(DirectoryFailure::Status(404))) {
        PutStep::Start(_, request) => {
            assert_eq!(request.bucket, "b");
            assert_eq!(request.key, "k");
            assert_eq!(request.client_from_region, "aws:us-west-1");
            assert!(!request.is_multipart);
            assert_eq!(request.copy_src_bucket, None);
            assert_eq!(request.copy_src_key, None);
        }
        PutStep::Answer(_) => panic!("the object does not exist"),
    }
    let (state, _) = proxy().put_object(&text("b"), &text("k"));
    match state.located(Err(DirectoryFailure::NoAnswer)) {
        PutStep::Answer(answer) => {
            assert!(says(answer, S3ErrorCode::InternalError, "locate_object failed"))
        }
        PutStep::Start(_, _) => panic!("nothing is known of the object"),
    }
}

#[test]
fn copy_names_its_source() {
    let source = CopySource::Bucket { bucket: text("sb"), key: text("sk") };
    assert_eq!(source.place(), ObjectPlace { bucket: text("sb"), key: text("sk") });
    let (state, request) = proxy().copy_object(&source, &text("b"), &text("k"));
    assert_eq!((request.bucket, request.key), (text("sb"), text("sk")));
    let (state, request) = state.source_located(Ok(locator(1, "a:1"))).unwrap();
    assert_eq!((request.bucket, request.key), (text("b"), text("k")));
    match state.destination_located(Err(DirectoryFailure::Status(404))) {
        CopyStep::Start(_, request) => {
            assert_eq!((request.bucket, request.key), (text("b"), text("k")));
            assert!(!request.is_multipart);
            assert_eq!(request.copy_src_bucket, Some(text("sb")));
            assert_eq!(request.copy_src_key, Some(text("sk")));
        }
        CopyStep::Answer(_) => panic!("the copy does not exist"),
    }
}

#[test]
fn copy_fails_with_either_lookup() {
    let source = CopySource::Bucket { bucket: text("sb"), key: text("sk") };
    let (state, _) = proxy().copy_object(&source, &text("b"), &text("k"));
    assert!(says(
        state.source_located(Err(DirectoryFailure::NoAnswer)),
        S3ErrorCode::InternalError,
        "locate_object failed"
    ));
    // The lookup of the destination fails before the missing source is noticed.
    let (state, _) = proxy().copy_object(&source, &text("b"), &text("k"));
    let (state, _) = state.source_located(Err(DirectoryFailure::Status(404))).unwrap();
    match state.destination_checked(Err(DirectoryFailure::Status(500))) {
        Some(CopyStep::Answer(answer)) => {
            assert!(says(answer, S3ErrorCode::InternalError, "locate_object failed"))
        }
        _ => panic!("the lookup failed"),
    }
}

#[test]
fn existing_copy_needs_a_date() {
    let source = CopySource::Bucket { bucket: text("sb"), key: text("sk") };
    for date in [None, Some(text("soon"))] {
        let (state, _) = proxy().copy_object(&source, &text("b"), &text("k"));
        let (state, _) = state.source_located(Ok(locator(1, "a:1"))).unwrap();
        let mut destination = locator(2, "a:1");
        destination.last_modified = date;
        assert!(state.destination_checked(Ok(destination)).is_none());
    }
    let output = existing_copy(locator(2, "a:1"), utc(5));
    assert_eq!(output.e_tag, Some(text("etag-2")));
    assert_eq!(output.last_modified, Some(utc(5)));
}

#[test]
fn copies_are_paired_with_their_sources() {
    let source = CopySource::Bucket { bucket: text("sb"), key: text("sk") };
    let (state, _) = proxy().copy_object(&source, &text("b"), &text("k"));
    let (state, _) = state.source_located(Ok(locator(1, "a:1"))).unwrap();
    let starting = match state.destination_located(Err(DirectoryFailure::Status(404))) {
        CopyStep::Start(starting, _) => starting,
        CopyStep::Answer(_) => panic!("the copy does not exist"),
    };
    // There is no source for the third copy.
    let (_, tasks) = starting.started(StartUploadResponse {
        multipart_upload_id: None,
        locators: vec![locator(1, "a:1"), locator(2, "b:2"), locator(3, "c:3")],
        copy_src_buckets: vec![text("x"), text("y"), text("z")],
        copy_src_keys: vec![text("p"), text("q")],
    });
    assert_eq!(tasks.len(), 2);
    let call = tasks[1].call();
    assert_eq!(call.tag, "b:2");
    assert_eq!(call.request.src_bucket, "y");
    assert_eq!(call.request.src_key, "q");
    assert_eq!(call.request.bucket, "bucket-2");
    assert_eq!(call.request.key, "key-2");
}

#[test]
fn completion_reports_what_was_measured() {
    let head = HeadObjectOutput { content_length: 12, last_modified: utc(1_500_000_000) };
    let report = completion(9, &text("tag"), head);
    assert_eq!(report.id, 9);
    assert_eq!(report.etag, "tag");
    assert_eq!(report.size, 12);
    assert_eq!(report.last_modified, "1970-01-01T00:00:01.500Z");
}

#[test]
fn upload_without_a_measured_e_tag_reports_its_own() {
    let (state, _) = proxy().put_object(&text("b"), &text("k"));
    let starting = match state.located(Err(DirectoryFailure::Status(404))) {
        PutStep::Start(starting, _) => starting,
        PutStep::Answer(_) => panic!("the object does not exist"),
    };
    let (_, tasks) = starting.started(StartUploadResponse {
        multipart_upload_id: None,
        locators: vec![locator(1, "a:1"), locator(2, "b:2")],
        copy_src_buckets: Vec::new(),
        copy_src_keys: Vec::new(),
    });
    let head = HeadObjectOutput { content_length: 3, last_modified: utc(0) };
    let reports: Vec<(i32, String, String)> = tasks
        .into_iter()
        .zip([Some(text("measured")), None])
        .map(|(task, measured)| {
            let (stored, _) = task.stored(text("given"));
            let (reported, report) = stored.measured(head, measured);
            (report.id, report.etag, reported.reported())
        })
        .collect();
    assert_eq!(
        reports,
        vec![(1, text("measured"), text("given")), (2, text("given"), text("given"))]
    );
}

#[test]
fn lengths_wrap_around_and_back() {
    for length in [0, 1, -1, i64::MAX, i64::MIN] {
        let head = HeadObjectOutput { content_length: length, last_modified: utc(0) };
        let size = completion(1, &text(""), head).size;
        let listed =
            ObjectResponse { key: text("k"), size, last_modified: text("1970-01-01T00:00:00Z") };
        assert_eq!(listed_object(listed, utc(0)).size, length);
    }
    let head = HeadObjectOutput { content_length: -1, last_modified: utc(0) };
    assert_eq!(completion(1, &text(""), head).size, u64::MAX);
}

#[test]
fn last_joined_upload_names_the_e_tag() {
    let mut joined = JoinedUploads { e_tags: Vec::new() };
    assert!(joined.joined(Some(Ok(text("one")))));
    assert!(joined.joined(Some(Ok(text("two")))));
    assert!(!joined.joined(None));
    assert_eq!(joined.put_answer().e_tag, Some(text("two")));

    let mut joined = JoinedUploads { e_tags: Vec::new() };
    assert!(joined.joined(Some(Ok(text("one")))));
    assert!(!joined.joined(Some(Err(text("task 2 panicked")))));
    assert_eq!(joined.copy_answer().e_tag, Some(text("one")));

    let mut joined = JoinedUploads { e_tags: Vec::new() };
    assert!(!joined.joined(None));
    assert_eq!(joined.put_answer().e_tag, None);
}

#[test]
fn existing_bucket_is_only_reported() {
    let place = |bucket: &str| LocateBucketResponse { id: 3, tag: text("a:1"), bucket: text(bucket) };
    let work = create_bucket_located(vec![place("skystore-us-west-1"), place("my-skystore-x")]);
    assert!(matches!(work[0], BucketWork::Report(_)));
    match &work[1] {
        BucketWork::Create(pending) => {
            let call = pending.call();
            assert_eq!(call.tag, "a:1");
            assert_eq!(call.request.bucket, "my-skystore-x");
            assert_eq!(call.request.location, None);
        }
        BucketWork::Report(_) => panic!("the bucket does not exist"),
    }
    let report = NewBucket { locator: place("x") }.report_at(utc(0));
    assert_eq!(report.id, 3);
    assert_eq!(report.creation_date, "1970-01-01T00:00:00.000Z");
}

#[test]
fn bucket_requests_name_the_bucket() {
    let request = proxy().create_bucket(&text("b"));
    assert_eq!(request.bucket, "b");
    assert_eq!(request.client_from_region, "aws:us-west-1");
    assert_eq!(request.warmup_regions, None);
    let (deletion, request) = proxy().delete_bucket(&text("b"));
    assert_eq!(request.bucket, "b");
    let place = LocateBucketResponse { id: 3, tag: text("a:1"), bucket: text("other") };
    let mut places = deletion.located(vec![place]);
    assert_eq!(places[0].call().request.bucket, "b");
    assert_eq!(places.remove(0).deleted().id, 3);
}

#[test]
fn bucket_operation_waits_for_every_task() {
    assert_eq!(create_bucket_joined(Some(Ok(()))), JoinStep::Wait);
    assert_eq!(create_bucket_joined(None), JoinStep::Answer(Ok(())));
}

#[test]
fn bucket_listing_needs_readable_dates() {
    let listed = |date: &str| BucketResponse { bucket: text("b"), creation_date: text(date) };
    let output = list_buckets_replied(Ok(vec![listed("1970-01-01T00:00:01Z")])).unwrap();
    assert_eq!(
        output.buckets.unwrap(),
        vec![listed_bucket(listed("1970-01-01T00:00:01Z"), utc(1_000_000_000))]
    );
    let mixed = vec![listed("1970-01-01T00:00:01Z"), listed("soon")];
    assert!(list_buckets_checked(Ok(mixed)).is_none());
    let failed = list_buckets_checked(Err(DirectoryFailure::NoAnswer)).unwrap();
    assert!(says(failed, S3ErrorCode::InternalError, "list_buckets failed"));
}

#[test]
fn object_listing_needs_readable_dates() {
    let listed = |date: &str| ObjectResponse { key: text("k"), size: 3, last_modified: text(date) };
    let output = list_objects_v2_replied(Ok(vec![listed("1970-01-01T00:00:01Z")])).unwrap();
    let entry = &output.contents.unwrap()[0];
    assert_eq!(entry.key, Some(text("k")));
    assert_eq!(entry.size, 3);
    assert_eq!(entry.last_modified, Some(utc(1_000_000_000)));
    assert!(list_objects_v2_checked(Ok(vec![listed("soon")])).is_none());
    let failed = list_objects_v2_checked(Err(DirectoryFailure::Status(404))).unwrap();
    let failed = list_objects_answer(failed);
    assert!(says(failed, S3ErrorCode::InternalError, "list_objects_v2 failed"));
}

#[test]
fn listing_requests_name_the_prefix() {
    let request = proxy().list_objects_v2(&text("b"), &Some(text("p")));
    assert_eq!((request.bucket, request.prefix), (text("b"), Some(text("p"))));
    let request = proxy().list_objects(&text("b"), &None);
    assert_eq!((request.bucket, request.prefix), (text("b"), None));
}

#[test]
fn unfinished_uploads_are_listed() {
    let (listing, request) = proxy().list_multipart_uploads(&text("b"), &Some(text("p")));
    assert_eq!((request.bucket, request.prefix), (text("b"), Some(text("p"))));
    let output =
        listing.listed(vec![MultipartResponse { key: text("k"), upload_id: text("u") }]);
    assert_eq!(output.bucket, Some(text("b")));
    assert_eq!(output.prefix, Some(text("p")));
    let uploads = output.uploads.unwrap();
    assert_eq!(uploads.len(), 1);
    assert_eq!(uploads[0].key, Some(text("k")));
    assert_eq!(uploads[0].upload_id, Some(text("u")));
}

#[test]
fn parts_are_listed() {
    let (listing, request) = proxy().list_parts(&text("b"), &text("k"), &text("u"));
    assert_eq!(request.part_number, None);
    let part = LogicalPartResponse { part_number: 3, etag: text("e"), size: u64::MAX };
    let output = listing.listed(vec![part]);
    assert_eq!(output.bucket, Some(text("b")));
    assert_eq!(output.key, Some(text("k")));
    assert_eq!(output.upload_id, Some(text("u")));
    let parts = output.parts.unwrap();
    assert_eq!(parts[0].part_number, 3);
    assert_eq!(parts[0].size, -1);
    assert_eq!(parts[0].e_tag, Some(text("e")));
}

#[test]
fn sorting_keeps_the_order_of_equal_numbers() {
    let sorted = ordered_parts(vec![
        store_part(2, "a"),
        store_part(1, "b"),
        store_part(2, "c"),
        store_part(-5, "d"),
        store_part(1, "e"),
    ]);
    let order: Vec<(i32, String)> =
        sorted.into_iter().map(|part| (part.part_number, part.e_tag.unwrap())).collect();
    assert_eq!(
        order,
        vec![(-5, text("d")), (1, text("b")), (1, text("e")), (2, text("a")), (2, text("c"))]
    );
    assert!(ordered_parts(Vec::new()).is_empty());
}

#[test]
fn parts_have_to_go_with_the_clients() {
    let numbers = part_numbers(&vec![client_part(1), client_part(2), client_part(1)]);
    assert_eq!(numbers.len(), 2);
    assert!(parts_go_with(&vec![store_part(2, "a"), store_part(1, "b")], &numbers));
    assert!(!parts_go_with(&vec![store_part(2, "a")], &numbers));
    assert!(!parts_go_with(&vec![store_part(2, "a"), store_part(3, "b")], &numbers));
    // Only the count is compared, so a part that the store has twice stands in for
    // one that it lacks.
    assert!(parts_go_with(&vec![store_part(1, "a"), store_part(1, "b")], &numbers));
}

#[test]
fn completion_waits_for_fitting_parts() {
    let start = |locators: Vec<ContinueUploadResponse>| {
        let (state, request) =
            proxy().complete_multipart_upload(&text("b"), &text("k"), &text("u"));
        assert_eq!(request.do_list_parts, Some(true));
        assert_eq!(request.multipart_upload_id, "u");
        assert_eq!(request.client_from_region, "aws:us-west-1");
        state.continued(&vec![client_part(1), client_part(2)], locators)
    };
    assert!(!start(vec![unfinished(1, None)]).is_ready());
    assert!(!start(vec![unfinished(1, Some(vec![store_part(1, "a")]))]).is_ready());
    let state = start(vec![unfinished(1, Some(vec![store_part(2, "x"), store_part(1, "y")]))]);
    assert!(state.is_ready());
    match state.next() {
        CompletingStep::Complete(completing, call) => {
            assert_eq!(call.tag, "gcp:us-west1");
            assert_eq!(call.request.bucket, "store-bucket");
            assert_eq!(call.request.key, "store-key");
            assert_eq!(call.request.upload_id, "store-upload");
            assert_eq!(call.request.parts[0].e_tag, Some(text("y")));
            let (measuring, call) = completing.completed(text("whole"));
            assert_eq!(call.tag, "gcp:us-west1");
            assert_eq!(call.request.key, "store-key");
            let head = HeadObjectOutput { content_length: 8, last_modified: utc(0) };
            let (rest, report) = measuring.measured(head);
            assert_eq!((report.id, report.etag, report.size), (1, text("whole"), 8));
            assert!(matches!(rest.next(), CompletingStep::Head(_, _)));
        }
        CompletingStep::Head(_, _) => panic!("a copy is pending"),
    }
}

#[test]
fn only_the_numbers_of_the_clients_list_count() {
    let lists = [
        vec![client_part(1), client_part(2)],
        vec![client_part(2), client_part(1), client_part(2)],
        vec![
            CompletedPart { part_number: 2, e_tag: Some(text("p")) },
            CompletedPart { part_number: 1, e_tag: Some(text("q")) },
        ],
    ];
    for list in lists {
        let (state, _) = proxy().complete_multipart_upload(&text("b"), &text("k"), &text("u"));
        let stored = vec![store_part(2, "x"), store_part(1, "y")];
        let state = state.continued(&list, vec![unfinished(1, Some(stored))]);
        assert!(state.is_ready());
        match state.next() {
            CompletingStep::Complete(_, call) => {
                let parts: Vec<(i32, Option<String>)> = call
                    .request
                    .parts
                    .into_iter()
                    .map(|part| (part.part_number, part.e_tag))
                    .collect();
                assert_eq!(parts, vec![(1, Some(text("y"))), (2, Some(text("x")))]);
            }
            CompletingStep::Head(_, _) => panic!("a copy is pending"),
        }
    }
}

#[test]
fn multipart_upload_asks_for_places() {
    let (state, _) = proxy().create_multipart_upload(&text("b"), &text("k"));
    match state.located(Err(DirectoryFailure::Status(404))) {
        MultipartStep::Start(_, request) => {
            assert!(request.is_multipart);
            assert_eq!((request.bucket, request.key), (text("b"), text("k")));
            assert_eq!(request.copy_src_bucket, None);
        }
        MultipartStep::Refuse(_) => panic!("the object does not exist"),
    }
    let (state, _) = proxy().create_multipart_upload(&text("b"), &text("k"));
    match state.located(Err(DirectoryFailure::NoAnswer)) {
        MultipartStep::Refuse(error) => assert_eq!(error.message, "locate_object failed"),
        MultipartStep::Start(_, _) => panic!("nothing is known of the object"),
    }
}

#[test]
fn part_goes_to_the_stores_own_upload() {
    let (state, request) = proxy().upload_part(&text("b"), &text("k"), &text("u"), 4);
    assert_eq!(request.do_list_parts, Some(false));
    assert_eq!(request.copy_src_bucket, None);
    let (part, mut tasks) = state.continued(vec![unfinished(6, None)], 77);
    let call = tasks[0].call();
    assert_eq!(call.request.upload_id, "store-upload");
    assert_eq!(call.request.bucket, "store-bucket");
    let report = tasks.remove(0).stored(text("e"));
    assert_eq!((report.id, report.part_number, report.etag, report.size), (6, 4, text("e"), 77));
    assert!(part.joined(Some(Ok(()))));
    assert!(part.joined(Some(Err(text("task 4 panicked")))));
    assert!(!part.joined(None));
    let request = part.all_joined();
    assert_eq!(request.upload_id, "u");
    assert_eq!(request.part_number, Some(4));
    let listed = LogicalPartResponse { part_number: 4, etag: text("x"), size: 77 };
    assert_eq!(part_answer(vec![listed]).e_tag, Some(text("x")));
}

#[test]
fn copied_part_reports_the_size_of_its_source() {
    let source = CopySource::Bucket { bucket: text("sb"), key: text("sk") };
    let (state, _) =
        proxy().upload_part_copy(&source, &text("b"), &text("k"), &text("u"), 4);
    let mut from = locator(1, "a:1");
    from.size = Some(123);
    let (state, request) = state.located(Ok(from)).unwrap();
    assert_eq!(request.copy_src_bucket, Some(text("sb")));
    assert_eq!(request.copy_src_key, Some(text("sk")));
    assert_eq!(request.multipart_upload_id, "u");
    let mut at = unfinished(6, None);
    at.copy_src_bucket = Some(text("x"));
    at.copy_src_key = Some(text("y"));
    let (_, mut tasks) = state.continued(vec![at]);
    let call = tasks[0].call();
    assert_eq!((call.request.src_bucket, call.request.src_key), (text("x"), text("y")));
    assert_eq!(call.request.part_number, 4);
    assert_eq!(tasks.remove(0).stored(text("e")).size, 123);
}

#[test]
fn deletion_of_one_object_is_one_of_several() {
    let (single, objects) = proxy().delete_object(&text("k"), &Some(text("v")));
    assert_eq!(single.key, "k");
    let whole = ObjectIdentifier { key: text("k"), version_id: Some(text("v")) };
    assert_eq!(objects, vec![whole]);
}
