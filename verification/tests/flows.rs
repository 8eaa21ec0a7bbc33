//! Whole operations, played against a directory and stores that live in memory.

use skyproxy::buckets::{
    create_bucket_joined, create_bucket_located, delete_bucket_joined, list_buckets_checked,
    BucketWork, JoinStep,
};
use skyproxy::deletion::DeletionStep;
use skyproxy::dto::{
    CompleteMultipartUploadOutput, CompletedPart, CopyObjectOutput, CopySource,
    CreateMultipartUploadOutput, DeleteObjectOutput, DeleteObjectsOutput, HeadObjectOutput,
    ListBucketsOutput, ListMultipartUploadsOutput, ListObjectsOutput, ListObjectsV2Output,
    ListPartsOutput, ObjectIdentifier, ObjectPlace, PutObjectOutput, StoreCall, UploadPartOutput,
};
use skyproxy::error::{S3Error, S3ErrorCode};
use skyproxy::listing::{list_objects_answer, list_objects_v2_checked};
use skyproxy::models::{
    BucketResponse, ContinueUploadPart, ContinueUploadRequest, ContinueUploadResponse,
    CreateBucketRequest, DeleteObjectsRequest, DirectoryFailure, HeadObjectResponse, KeyLocators,
    ListObjectRequest, ListPartsRequest, LocateBucketResponse, LocateObjectRequest,
    LocateObjectResponse, LocateReply, LogicalPartResponse, MultipartResponse, ObjectResponse,
    PatchUploadIsCompleted, StartUploadRequest, StartUploadResponse,
};
use skyproxy::multipart::{
    part_answer, CompletingStep, MultipartStep, StartingStep,
};
use skyproxy::objects::{
    get_object_located, head_object_located, head_object_replied, CopyStep, PutStep,
};
use skyproxy::proxy::{bucket_exists_already, SkyProxy};
use skyproxy::timestamp::Timestamp;
use std::collections::{BTreeMap, HashMap, HashSet};
use std::rc::Rc;

type Chunk = Rc<Vec<u8>>;

/// An object store that lives in memory.
#[derive(Default)]
struct Store {
    buckets: HashSet<String>,
    objects: HashMap<(String, String), Vec<Chunk>>,
    /// The e-tags that measurements show. They are not those of the uploads' answers.
    e_tags: HashMap<(String, String), String>,
    uploads: HashMap<String, BTreeMap<i32, (String, Chunk)>>,
    /// The numbers of the parts that each completion listed, in its order.
    completions: Vec<Vec<i32>>,
    counter: u32,
}

impl Store {
    fn create_bucket(&mut self, bucket: &str) -> Result<(), String> {
        if self.buckets.insert(bucket.to_string()) {
            Ok(())
        } else {
            Err("S3Error { code: BucketAlreadyExists, .. }".to_string())
        }
    }

    fn put(&mut self, place: &ObjectPlace, chunks: Vec<Chunk>) -> String {
        self.counter += 1;
        let at = (place.bucket.clone(), place.key.clone());
        self.e_tags.insert(at.clone(), format!("seen-etag-{}", self.counter));
        self.objects.insert(at, chunks);
        format!("etag-{}", self.counter)
    }

    fn get(&self, place: &ObjectPlace) -> Option<Vec<Chunk>> {
        self.objects.get(&(place.bucket.clone(), place.key.clone())).cloned()
    }

    fn head(&self, place: &ObjectPlace) -> Option<HeadObjectOutput> {
        let length: usize = self.get(place)?.iter().map(|chunk| chunk.len()).sum();
        Some(HeadObjectOutput {
            content_length: length as i64,
            last_modified: Timestamp { wall_nanos: STORED_AT, offset_seconds: 0 },
        })
    }
}

/// 2023-11-14T22:13:20.123456789Z
const STORED_AT: i128 = 1_700_000_000_123_456_789;

/// A copy, or an unfinished copy, as the directory knows it.
struct Row {
    id: i32,
    bucket: String,
    key: String,
    tag: String,
    store_bucket: String,
    store_key: String,
    ready: Option<PatchUploadIsCompleted>,
    upload: Option<String>,
    store_upload: Option<String>,
    parts: BTreeMap<i32, (String, u64)>,
}

impl Row {
    fn locator(&self) -> LocateObjectResponse {
        LocateObjectResponse {
            id: self.id,
            tag: self.tag.clone(),
            bucket: self.store_bucket.clone(),
            key: self.store_key.clone(),
            size: self.ready.as_ref().map(|ready| ready.size),
            last_modified: self.ready.as_ref().map(|ready| ready.last_modified.clone()),
            etag: self.ready.as_ref().map(|ready| ready.etag.clone()),
        }
    }
}

/// A directory service that lives in memory.
#[derive(Default)]
struct Directory {
    rows: Vec<Row>,
    buckets: Vec<(i32, String, Option<String>)>,
    counter: i32,
}

/// Where the directory puts the copies: the tag of the store and its bucket.
const PLACES: [(&str, &str); 2] =
    [("aws:us-west-1", "skystore-us-west-1"), ("gcp:us-west1", "skystore-us-west1")];

impl Directory {
    fn fresh(&mut self) -> i32 {
        self.counter += 1;
        self.counter
    }

    fn locate(&self, request: LocateObjectRequest) -> LocateReply {
        let mut copies: Vec<&Row> = self
            .rows
            .iter()
            .filter(|row| row.bucket == request.bucket && row.key == request.key)
            .filter(|row| row.ready.is_some())
            .collect();
        copies.sort_by_key(|row| row.tag != request.client_from_region);
        copies.first().map(|row| row.locator()).ok_or(DirectoryFailure::Status(404))
    }

    fn start_upload(&mut self, request: StartUploadRequest) -> StartUploadResponse {
        let upload = request.is_multipart.then_some(format!("upload-{}", self.fresh()));
        let mut response = StartUploadResponse {
            multipart_upload_id: upload.clone(),
            locators: Vec::new(),
            copy_src_buckets: Vec::new(),
            copy_src_keys: Vec::new(),
        };
        for (tag, store_bucket) in PLACES {
            let row = Row {
                id: self.fresh(),
                bucket: request.bucket.clone(),
                key: request.key.clone(),
                tag: tag.to_string(),
                store_bucket: store_bucket.to_string(),
                store_key: format!("{}/{}", request.bucket, request.key),
                ready: None,
                upload: upload.clone(),
                store_upload: None,
                parts: BTreeMap::new(),
            };
            response.locators.push(row.locator());
            if let (Some(bucket), Some(key)) = (&request.copy_src_bucket, &request.copy_src_key) {
                response.copy_src_buckets.push(store_bucket.to_string());
                response.copy_src_keys.push(format!("{}/{}", bucket, key));
            }
            self.rows.push(row);
        }
        response
    }

    fn row(&mut self, id: i32) -> &mut Row {
        self.rows.iter_mut().find(|row| row.id == id).unwrap()
    }

    fn list_objects(&self, request: ListObjectRequest) -> Vec<ObjectResponse> {
        let mut listing: Vec<ObjectResponse> = Vec::new();
        for row in &self.rows {
            let wanted = request.prefix.as_deref().unwrap_or("");
            if let Some(ready) = &row.ready {
                let listed = listing.iter().any(|object| object.key == row.key);
                if row.bucket == request.bucket && row.key.starts_with(wanted) && !listed {
                    listing.push(ObjectResponse {
                        key: row.key.clone(),
                        size: ready.size,
                        last_modified: ready.last_modified.clone(),
                    });
                }
            }
        }
        listing
    }

    fn list_uploads(&self, request: ListObjectRequest) -> Vec<MultipartResponse> {
        let mut listing: Vec<MultipartResponse> = Vec::new();
        for row in &self.rows {
            let wanted = request.prefix.as_deref().unwrap_or("");
            if let (Some(upload), None) = (&row.upload, &row.ready) {
                let listed = listing.iter().any(|other| other.upload_id == *upload);
                if row.bucket == request.bucket && row.key.starts_with(wanted) && !listed {
                    listing.push(MultipartResponse {
                        key: row.key.clone(),
                        upload_id: upload.clone(),
                    });
                }
            }
        }
        listing
    }

    fn list_parts(&self, request: ListPartsRequest) -> Vec<LogicalPartResponse> {
        let row = self
            .rows
            .iter()
            .find(|row| {
                row.bucket == request.bucket
                    && row.key == request.key
                    && row.upload.as_ref() == Some(&request.upload_id)
            })
            .unwrap();
        row.parts
            .iter()
            .filter(|(number, _)| request.part_number.map_or(true, |wanted| wanted == **number))
            .map(|(number, (etag, size))| LogicalPartResponse {
                part_number: *number,
                etag: etag.clone(),
                size: *size,
            })
            .collect()
    }

    fn continue_upload(&self, request: ContinueUploadRequest) -> Vec<ContinueUploadResponse> {
        let mut found: Vec<ContinueUploadResponse> = Vec::new();
        for row in &self.rows {
            if row.upload.as_ref() == Some(&request.multipart_upload_id) {
                let source = match (&request.copy_src_bucket, &request.copy_src_key) {
                    (Some(bucket), Some(key)) => Some(format!("{}/{}", bucket, key)),
                    _ => None,
                };
                // The parts come in descending order.
                let parts = row.parts.iter().rev().map(|(number, (etag, _))| ContinueUploadPart {
                    part_number: *number,
                    etag: etag.clone(),
                });
                found.push(ContinueUploadResponse {
                    id: row.id,
                    tag: row.tag.clone(),
                    bucket: row.store_bucket.clone(),
                    key: row.store_key.clone(),
                    multipart_upload_id: row.store_upload.clone().unwrap(),
                    parts: (request.do_list_parts == Some(true)).then_some(parts.collect()),
                    copy_src_bucket: source.as_ref().map(|_| row.store_bucket.clone()),
                    copy_src_key: source,
                });
            }
        }
        found
    }

    fn start_create_bucket(&mut self, request: CreateBucketRequest) -> Vec<LocateBucketResponse> {
        let id = self.fresh();
        self.buckets.push((id, request.bucket.clone(), None));
        vec![
            LocateBucketResponse {
                id,
                tag: PLACES[0].0.to_string(),
                bucket: PLACES[0].1.to_string(),
            },
            LocateBucketResponse { id, tag: PLACES[1].0.to_string(), bucket: request.bucket },
        ]
    }

    fn start_delete(&self, request: DeleteObjectsRequest) -> Vec<KeyLocators> {
        request
            .keys
            .into_iter()
            .map(|key| KeyLocators {
                locators: self
                    .rows
                    .iter()
                    .filter(|row| row.bucket == request.bucket && row.key == key)
                    .map(|row| row.locator())
                    .collect(),
                key,
            })
            .collect()
    }
}

/// A proxy, its directory and its stores.
struct World {
    proxy: SkyProxy,
    directory: Directory,
    stores: Vec<Store>,
    /// The tags of the stores that refuse to delete, and in which tasks die.
    broken: HashSet<String>,
}

fn internal(message: &str) -> S3Error {
    S3Error { code: S3ErrorCode::InternalError, message: message.to_string() }
}

fn regions() -> Vec<String> {
    vec![
        "aws:us-west-1".to_string(),
        "aws:us-east-2".to_string(),
        "gcp:us-west1".to_string(),
        "aws:eu-central-1".to_string(),
    ]
}

impl World {
    fn new() -> World {
        let proxy = SkyProxy::new(regions(), "aws:us-west-1".to_string());
        let stores = regions().iter().map(|_| Store::default()).collect();
        let mut world =
            World { proxy, directory: Directory::default(), stores, broken: HashSet::new() };
        // A restart finds the buckets of the first start.
        for _ in 0..2 {
            for call in world.proxy.startup_calls() {
                let bucket = call.request.bucket.clone();
                if let Err(failure) = world.store(&call.tag).create_bucket(&bucket) {
                    assert!(bucket_exists_already(&failure));
                }
            }
        }
        world
    }

    fn store(&mut self, tag: &String) -> &mut Store {
        let index = self.proxy.store_index(tag).unwrap();
        &mut self.stores[index]
    }

    fn create_bucket(&mut self, bucket: &str) -> Result<(), S3Error> {
        let request = self.proxy.create_bucket(&bucket.to_string());
        let locators = self.directory.start_create_bucket(request);
        let mut outcomes: Vec<Result<(), String>> = Vec::new();
        for work in create_bucket_located(locators) {
            let report = match work {
                BucketWork::Report(new) => new.report_now(),
                BucketWork::Create(pending) => {
                    let call = pending.call();
                    if self.broken.contains(&call.tag) {
                        outcomes.push(Err("task 7 panicked".to_string()));
                        continue;
                    }
                    self.store(&call.tag).create_bucket(&call.request.bucket).unwrap();
                    outcomes.push(Ok(()));
                    pending.created().report_now()
                }
            };
            for known in self.directory.buckets.iter_mut() {
                if known.0 == report.id {
                    known.2 = Some(report.creation_date.clone());
                }
            }
        }
        let mut outcomes = outcomes.into_iter();
        loop {
            if let JoinStep::Answer(answer) = create_bucket_joined(outcomes.next()) {
                return answer;
            }
        }
    }

    fn delete_bucket(&mut self, bucket: &str) -> Result<(), S3Error> {
        let (deletion, request) = self.proxy.delete_bucket(&bucket.to_string());
        let known = self.directory.buckets.iter().find(|known| known.1 == request.bucket).unwrap();
        let locator = LocateBucketResponse {
            id: known.0,
            tag: PLACES[1].0.to_string(),
            bucket: "another-name".to_string(),
        };
        let mut outcomes: Vec<Result<(), String>> = Vec::new();
        for doomed in deletion.located(vec![locator]) {
            let call = doomed.call();
            if self.store(&call.tag).buckets.remove(&call.request.bucket) {
                let report = doomed.deleted();
                self.directory.buckets.retain(|known| known.0 != report.id);
                outcomes.push(Ok(()));
            } else {
                outcomes.push(Err("task 9 panicked".to_string()));
            }
        }
        let mut outcomes = outcomes.into_iter();
        loop {
            if let JoinStep::Answer(answer) = delete_bucket_joined(outcomes.next()) {
                return answer;
            }
        }
    }

    fn list_buckets(&mut self) -> Result<ListBucketsOutput, S3Error> {
        let listing = self
            .directory
            .buckets
            .iter()
            .filter_map(|(_, bucket, date)| {
                date.as_ref().map(|date| BucketResponse {
                    bucket: bucket.clone(),
                    creation_date: date.clone(),
                })
            })
            .collect();
        list_buckets_checked(Ok(listing)).unwrap()
    }

    fn list_objects_v2(
        &mut self,
        bucket: &str,
        prefix: Option<&str>,
    ) -> Result<ListObjectsV2Output, S3Error> {
        let prefix = prefix.map(|prefix| prefix.to_string());
        let request = self.proxy.list_objects_v2(&bucket.to_string(), &prefix);
        list_objects_v2_checked(Ok(self.directory.list_objects(request))).unwrap()
    }

    fn list_objects(&mut self, bucket: &str) -> Result<ListObjectsOutput, S3Error> {
        let request = self.proxy.list_objects(&bucket.to_string(), &None);
        let listing = list_objects_v2_checked(Ok(self.directory.list_objects(request))).unwrap();
        list_objects_answer(listing)
    }

    fn head_object(&mut self, bucket: &str, key: &str) -> Result<HeadObjectOutput, S3Error> {
        let request = self.proxy.head_object(&bucket.to_string(), &key.to_string());
        let call = head_object_located(self.directory.locate(request))?;
        let reply = self.store(&call.tag).head(&call.request).ok_or("no such object");
        head_object_replied(reply)
    }

    fn get_object(&mut self, bucket: &str, key: &str) -> Result<Vec<Chunk>, S3Error> {
        let request = self.proxy.get_object(&bucket.to_string(), &key.to_string());
        let call = get_object_located(self.directory.locate(request))?;
        Ok(self.store(&call.tag).get(&call.request).unwrap())
    }

    /// Measures the copy at a place: what a store says of it, and its e-tag.
    fn measure(&mut self, call: StoreCall<ObjectPlace>) -> (HeadObjectOutput, String) {
        let store = self.store(&call.tag);
        let head = store.head(&call.request).unwrap();
        let e_tag = store.e_tags[&(call.request.bucket, call.request.key)].clone();
        (head, e_tag)
    }

    fn complete_upload(&mut self, report: PatchUploadIsCompleted) {
        let id = report.id;
        self.directory.row(id).ready = Some(report);
    }

    fn put_object(
        &mut self,
        bucket: &str,
        key: &str,
        body: Vec<u8>,
    ) -> Result<PutObjectOutput, S3Error> {
        let (locating, request) = self.proxy.put_object(&bucket.to_string(), &key.to_string());
        let (starting, request) = match locating.located(self.directory.locate(request)) {
            PutStep::Answer(answer) => return answer,
            PutStep::Start(starting, request) => (starting, request),
        };
        let (mut joined, tasks) = starting.started(self.directory.start_upload(request));
        let body = Rc::new(body);
        let mut outcomes: Vec<Result<String, String>> = Vec::new();
        for task in tasks.into_iter().rev() {
            let call = task.call();
            if self.broken.contains(&call.tag) {
                outcomes.push(Err("task 3 panicked".to_string()));
                continue;
            }
            let e_tag = self.store(&call.tag).put(&call.request, vec![body.clone()]);
            let (stored, measuring) = task.stored(e_tag);
            let (head, head_e_tag) = self.measure(measuring);
            let (reported, report) = stored.measured(head, Some(head_e_tag));
            self.complete_upload(report);
            outcomes.push(Ok(reported.reported()));
        }
        let mut outcomes = outcomes.into_iter();
        while joined.joined(outcomes.next()) {}
        Ok(joined.put_answer())
    }

    fn copy_object(
        &mut self,
        source: (&str, &str),
        bucket: &str,
        key: &str,
    ) -> Result<CopyObjectOutput, S3Error> {
        let source =
            CopySource::Bucket { bucket: source.0.to_string(), key: source.1.to_string() };
        let (locating, request) =
            self.proxy.copy_object(&source, &bucket.to_string(), &key.to_string());
        let (locating, request) = locating.source_located(self.directory.locate(request))?;
        let reply = self.directory.locate(request);
        let (starting, request) = match locating.destination_checked(reply).unwrap() {
            CopyStep::Answer(answer) => return answer,
            CopyStep::Start(starting, request) => (starting, request),
        };
        let (mut joined, tasks) = starting.started(self.directory.start_upload(request));
        let mut outcomes: Vec<Result<String, String>> = Vec::new();
        for task in tasks {
            let call = task.call();
            let from = ObjectPlace { bucket: call.request.src_bucket, key: call.request.src_key };
            let to = ObjectPlace { bucket: call.request.bucket, key: call.request.key };
            let chunks = self.store(&call.tag).get(&from).unwrap();
            let e_tag = self.store(&call.tag).put(&to, chunks);
            let (made, measuring) = task.stored(e_tag);
            let (head, _) = self.measure(measuring);
            let (reported, report) = made.measured(head);
            self.complete_upload(report);
            outcomes.push(Ok(reported.reported()));
        }
        let mut outcomes = outcomes.into_iter();
        while joined.joined(outcomes.next()) {}
        Ok(joined.copy_answer())
    }

    fn delete_objects(
        &mut self,
        bucket: &str,
        objects: &Vec<ObjectIdentifier>,
    ) -> Result<DeleteObjectsOutput, S3Error> {
        let (starting, request) = self.proxy.delete_objects(&bucket.to_string(), objects);
        let (mut joined, tasks) = starting.started(self.directory.start_delete(request));
        let mut outcomes = Vec::new();
        for task in tasks.into_iter().rev() {
            let call = task.call();
            let deleted = !self.broken.contains(&call.tag);
            if deleted {
                let place = (call.request.bucket, call.request.key);
                self.store(&call.tag).objects.remove(&place);
            }
            outcomes.push(Ok(task.finished(deleted)));
        }
        let mut outcomes = outcomes.into_iter();
        loop {
            match joined.joined(outcomes.next()) {
                DeletionStep::Wait => {}
                DeletionStep::Close => break,
                DeletionStep::Fail(error) => return Err(error),
            }
        }
        let report = joined.close();
        for completion in report.completions {
            self.directory.rows.retain(|row| !completion.ids.contains(&row.id));
        }
        Ok(report.output)
    }

    fn delete_object(&mut self, bucket: &str, key: &str) -> Result<DeleteObjectOutput, S3Error> {
        let (single, objects) = self.proxy.delete_object(&key.to_string(), &None);
        let deletion = self.delete_objects(bucket, &objects);
        single.answer(deletion)
    }

    fn create_multipart_upload(
        &mut self,
        bucket: &str,
        key: &str,
    ) -> Result<CreateMultipartUploadOutput, S3Error> {
        let (locating, request) =
            self.proxy.create_multipart_upload(&bucket.to_string(), &key.to_string());
        let (starting, request) = match locating.located(self.directory.locate(request)) {
            MultipartStep::Refuse(error) => return Err(error),
            MultipartStep::Start(starting, request) => (starting, request),
        };
        let response = self.directory.start_upload(request);
        assert!(response.multipart_upload_id.is_some());
        let mut state = starting.started(response);
        loop {
            match state.next() {
                StartingStep::Create(starting, call) => {
                    let store = self.store(&call.tag);
                    store.counter += 1;
                    let id = format!("{}-own-{}", call.tag, store.counter);
                    store.uploads.insert(id.clone(), BTreeMap::new());
                    let (rest, report) = starting.created(id);
                    self.directory.row(report.id).store_upload = Some(report.multipart_upload_id);
                    state = rest;
                }
                StartingStep::Answer(output) => return Ok(output),
            }
        }
    }

    fn list_multipart_uploads(&mut self, bucket: &str, prefix: &str) -> ListMultipartUploadsOutput {
        let prefix = Some(prefix.to_string());
        let (listing, request) =
            self.proxy.list_multipart_uploads(&bucket.to_string(), &prefix);
        listing.listed(self.directory.list_uploads(request))
    }

    fn list_parts(&mut self, bucket: &str, key: &str, upload_id: &String) -> ListPartsOutput {
        let (listing, request) =
            self.proxy.list_parts(&bucket.to_string(), &key.to_string(), upload_id);
        listing.listed(self.directory.list_parts(request))
    }

    fn upload_part(
        &mut self,
        bucket: &str,
        key: &str,
        upload_id: &String,
        part_number: i32,
        body: Vec<u8>,
    ) -> UploadPartOutput {
        let (continuing, request) = self.proxy.upload_part(
            &bucket.to_string(),
            &key.to_string(),
            upload_id,
            part_number,
        );
        let locators = self.directory.continue_upload(request);
        let (part, tasks) = continuing.continued(locators, body.len());
        let body = Rc::new(body);
        for task in tasks {
            let call = task.call();
            let store = self.store(&call.tag);
            store.counter += 1;
            let e_tag = format!("part-{}", store.counter);
            let upload = store.uploads.get_mut(&call.request.upload_id).unwrap();
            upload.insert(part_number, (e_tag.clone(), body.clone()));
            let report = task.stored(e_tag);
            let row = self.directory.row(report.id);
            row.parts.insert(report.part_number, (report.etag, report.size));
        }
        let parts = self.directory.list_parts(part.all_joined());
        assert!(parts.len() == 1);
        part_answer(parts)
    }

    fn upload_part_copy(
        &mut self,
        source: (&str, &str),
        bucket: &str,
        key: &str,
        upload_id: &String,
        part_number: i32,
    ) -> Result<UploadPartOutput, S3Error> {
        let source =
            CopySource::Bucket { bucket: source.0.to_string(), key: source.1.to_string() };
        let (locating, request) = self.proxy.upload_part_copy(
            &source,
            &bucket.to_string(),
            &key.to_string(),
            upload_id,
            part_number,
        );
        let (continuing, request) = locating.located(self.directory.locate(request))?;
        let locators = self.directory.continue_upload(request);
        let (part, tasks) = continuing.continued(locators);
        for task in tasks {
            let call = task.call();
            let from = ObjectPlace { bucket: call.request.src_bucket, key: call.request.src_key };
            let store = self.store(&call.tag);
            let body = Rc::new(store.get(&from).unwrap().iter().fold(
                Vec::new(),
                |mut all: Vec<u8>, chunk| {
                    all.extend_from_slice(chunk);
                    all
                },
            ));
            store.counter += 1;
            let e_tag = format!("part-{}", store.counter);
            let upload = store.uploads.get_mut(&call.request.upload_id).unwrap();
            upload.insert(call.request.part_number, (e_tag.clone(), body));
            let report = task.stored(e_tag);
            let row = self.directory.row(report.id);
            row.parts.insert(report.part_number, (report.etag, report.size));
        }
        let parts = self.directory.list_parts(part.all_joined());
        assert!(parts.len() == 1);
        Ok(part_answer(parts))
    }

    fn complete_multipart_upload(
        &mut self,
        bucket: &str,
        key: &str,
        upload_id: &String,
        parts: &Vec<CompletedPart>,
    ) -> CompleteMultipartUploadOutput {
        let (continuing, request) = self.proxy.complete_multipart_upload(
            &bucket.to_string(),
            &key.to_string(),
            upload_id,
        );
        let locators = self.directory.continue_upload(request);
        let mut state = continuing.continued(parts, locators);
        loop {
            assert!(state.is_ready());
            match state.next() {
                CompletingStep::Complete(completing, call) => {
                    let store = self.store(&call.tag);
                    let upload = store.uploads.remove(&call.request.upload_id).unwrap();
                    let mut chunks: Vec<Chunk> = Vec::new();
                    for part in &call.request.parts {
                        let (e_tag, chunk) = &upload[&part.part_number];
                        assert_eq!(part.e_tag.as_ref(), Some(e_tag));
                        chunks.push(chunk.clone());
                    }
                    store
                        .completions
                        .push(call.request.parts.iter().map(|part| part.part_number).collect());
                    let place =
                        ObjectPlace { bucket: call.request.bucket, key: call.request.key };
                    let e_tag = store.put(&place, chunks);
                    let (measuring, call) = completing.completed(e_tag);
                    let head = self.store(&call.tag).head(&call.request).unwrap();
                    let (rest, report) = measuring.measured(head);
                    let id = report.id;
                    self.directory.row(id).ready = Some(report);
                    state = rest;
                }
                CompletingStep::Head(completed, request) => {
                    let row = self
                        .directory
                        .rows
                        .iter()
                        .find(|row| row.bucket == request.bucket && row.key == request.key)
                        .unwrap();
                    let etag = row.ready.as_ref().unwrap().etag.clone();
                    return completed.answer(HeadObjectResponse { etag });
                }
            }
        }
    }
}

fn concat(chunks: Vec<Chunk>) -> Vec<u8> {
    let mut all: Vec<u8> = Vec::new();
    for chunk in chunks {
        all.extend_from_slice(&chunk);
    }
    all
}

fn listed(e_tag: String, part_number: i32) -> CompletedPart {
    CompletedPart { e_tag: Some(e_tag), part_number }
}

#[test]
fn test_constructor() {
    let mut world = World::new();
    assert!(!world.stores.is_empty());
    for region in regions() {
        assert!(world.proxy.store_index(&region).is_some());
        let name = format!("skystore-{}", region.split_once(':').unwrap().1);
        assert!(world.store(&region).buckets.contains(&name));
    }
}

#[test]
fn test_list_objects() {
    let mut world = World::new();
    let bucket_name = "my-bucket-1";
    world.create_bucket(bucket_name).unwrap();

    let resp = world.list_objects_v2(bucket_name, None).unwrap();
    assert!(resp.contents.is_some());
}

#[test]
fn test_put_then_get() {
    let mut world = World::new();
    let bucket_name = "my-bucket-2";
    world.create_bucket(bucket_name).unwrap();

    {
        let body = "abcdefg".to_string().into_bytes();
        let resp = world.put_object(bucket_name, "my-key", body).unwrap();
        assert!(resp.e_tag.is_some());
    }

    {
        let resp = world.list_objects_v2(bucket_name, Some("my-key")).unwrap();
        assert!(resp.contents.is_some());
        assert!(resp.contents.unwrap().len() == 1);
    }

    {
        let body = concat(world.get_object(bucket_name, "my-key").unwrap());
        assert!(body == "abcdefg".to_string().into_bytes());
    }
}

#[test]
fn test_delete_objects() {
    let mut world = World::new();
    let bucket_name = "my-bucket-3";
    world.create_bucket(bucket_name).unwrap();

    for i in 0..3 {
        let body = format!("data-{}", i).into_bytes();
        world.put_object(bucket_name, &format!("my-key-{}", i), body).unwrap();
    }

    let objects = vec![
        ObjectIdentifier { key: "my-key-0".to_string(), version_id: None },
        ObjectIdentifier { key: "my-key-1".to_string(), version_id: None },
    ];
    world.delete_objects(bucket_name, &objects).unwrap();

    let list_resp = world.list_objects_v2(bucket_name, None).unwrap();
    assert!(list_resp.contents.unwrap().len() == 1);
}

#[test]
fn test_delete_object() {
    let mut world = World::new();
    let bucket_name = "my-bucket-4";
    world.create_bucket(bucket_name).unwrap();

    let body = "single-data".to_string().into_bytes();
    world.put_object(bucket_name, "my-single-key", body).unwrap();

    world.delete_object(bucket_name, "my-single-key").unwrap();

    let list_resp = world.list_objects_v2(bucket_name, None).unwrap();
    assert!(list_resp.contents.unwrap().is_empty());
}

#[test]
fn test_copy_object() {
    let mut world = World::new();
    let bucket_name = "my-bucket-5";
    world.create_bucket(bucket_name).unwrap();

    {
        let body = "abcdefg".to_string().into_bytes();
        let resp = world.put_object(bucket_name, "my-copy-key", body).unwrap();
        assert!(resp.e_tag.is_some());
    }

    {
        let resp = world
            .copy_object((bucket_name, "my-copy-key"), bucket_name, "my-copy-key-copy")
            .unwrap();
        assert!(resp.e_tag.is_some());
        assert!(resp.last_modified.is_none());
    }

    {
        let body = concat(world.get_object(bucket_name, "my-copy-key-copy").unwrap());
        assert!(body == "abcdefg".to_string().into_bytes());
    }
}

#[test]
fn test_multipart_flow() {
    let mut world = World::new();
    let bucket_name = "my-bucket-6";
    world.create_bucket(bucket_name).unwrap();

    let part_size = 10 * 1024 * 1024;

    let upload_id = {
        let resp = world.create_multipart_upload(bucket_name, "my-multipart-key").unwrap();
        assert!(resp.upload_id.is_some());
        resp.upload_id.unwrap()
    };

    {
        let resp = world.list_multipart_uploads(bucket_name, "my-multipart-key");
        assert!(resp.uploads.is_some());
        let uploads = resp.uploads.unwrap();
        assert!(!uploads.is_empty());
        let found_upload =
            uploads.iter().find(|upload| upload.upload_id == Some(upload_id.clone()));
        assert!(found_upload.is_some());
    }

    let etag1 = {
        let body: Vec<u8> = vec![0; part_size];
        let resp = world.upload_part(bucket_name, "my-multipart-key", &upload_id, 1, body);
        resp.e_tag.unwrap()
    };

    {
        let resp = world.list_parts(bucket_name, "my-multipart-key", &upload_id);
        assert!(resp.parts.is_some());
        let parts = resp.parts.unwrap();
        assert!(parts.len() == 1);
        assert!(parts[0].part_number == 1);
        assert_eq!(parts[0].size, part_size as i64);
    }

    let etag2 = {
        let body: Vec<u8> = vec![0; part_size];
        let resp = world.put_object(bucket_name, "my-copy-src-key", body).unwrap();
        assert!(resp.e_tag.is_some());

        let resp = world
            .upload_part_copy(
                (bucket_name, "my-copy-src-key"),
                bucket_name,
                "my-multipart-key",
                &upload_id,
                2,
            )
            .unwrap();
        assert!(resp.e_tag.is_some());
        resp.e_tag.unwrap()
    };

    {
        let parts = vec![listed(etag1, 1), listed(etag2, 2)];
        let resp = world.complete_multipart_upload(
            bucket_name,
            "my-multipart-key",
            &upload_id,
            &parts,
        );
        assert!(resp.e_tag.is_some());

        let body = concat(world.get_object(bucket_name, "my-multipart-key").unwrap());
        assert!(body.len() == part_size * 2);
        assert!(body[0] == 0);
    }
}

#[test]
fn test_multipart_many_parts() {
    let mut world = World::new();
    let bucket_name = "my-bucket-7";
    let key = "my-multipart-many-parts-key";
    world.create_bucket(bucket_name).unwrap();

    let upload_id = {
        let resp = world.create_multipart_upload(bucket_name, key).unwrap();
        assert!(resp.upload_id.is_some());
        resp.upload_id.unwrap()
    };

    let mut etags = Vec::new();
    for i in 1..=40 {
        let body: Vec<u8> = vec![0; 5 * 1024 * 1024];
        let resp = world.upload_part(bucket_name, key, &upload_id, i, body);
        etags.push(resp.e_tag.unwrap());
    }

    let parts: Vec<CompletedPart> = etags
        .iter()
        .enumerate()
        .map(|(i, etag)| listed(etag.clone(), i as i32 + 1))
        .collect();
    let resp = world.complete_multipart_upload(bucket_name, key, &upload_id, &parts);
    assert!(resp.e_tag.is_some());

    let body = concat(world.get_object(bucket_name, key).unwrap());
    assert!(body.len() == 40 * 5 * 1024 * 1024);
}

#[test]
fn every_copy_of_an_upload_is_written() {
    let mut world = World::new();
    world.put_object("b", "k", b"data".to_vec()).unwrap();
    for (tag, store_bucket) in PLACES {
        let place = ObjectPlace { bucket: store_bucket.to_string(), key: "b/k".to_string() };
        assert_eq!(concat(world.store(&tag.to_string()).get(&place).unwrap()), b"data");
    }
    let place =
        ObjectPlace { bucket: "skystore-us-east-2".to_string(), key: "b/k".to_string() };
    assert!(world.store(&"aws:us-east-2".to_string()).get(&place).is_none());
}

#[test]
fn upload_of_an_existing_object_writes_nothing() {
    let mut world = World::new();
    let first = world.put_object("b", "k", b"old".to_vec()).unwrap();
    let second = world.put_object("b", "k", b"new".to_vec()).unwrap();
    assert_eq!(first.e_tag, Some("etag-1".to_string()));
    assert_eq!(second.e_tag, Some("seen-etag-1".to_string()));
    assert_eq!(concat(world.get_object("b", "k").unwrap()), b"old");
    assert_eq!(world.directory.rows.len(), 2);
}

#[test]
fn first_upload_stays() {
    let mut world = World::new();
    world.put_object("b", "k", b"first".to_vec()).unwrap();
    for body in ["second", "third", ""] {
        let answer = world.put_object("b", "k", body.as_bytes().to_vec()).unwrap();
        assert_eq!(answer.e_tag, Some("seen-etag-1".to_string()));
        assert_eq!(concat(world.get_object("b", "k").unwrap()), b"first");
    }
    assert!(world.stores.iter().all(|store| store.counter <= 1));
}

#[test]
fn upload_reports_what_the_store_measures() {
    let mut world = World::new();
    let answer = world.put_object("b", "k", b"abcdefg".to_vec()).unwrap();
    assert_eq!(answer.e_tag, Some("etag-1".to_string()));
    for row in &world.directory.rows {
        let report = row.ready.as_ref().unwrap();
        assert_eq!(report.size, 7);
        assert_eq!(report.etag, "seen-etag-1");
        assert_eq!(report.last_modified, "2023-11-14T22:13:20.123Z");
    }
}

#[test]
fn copy_reports_the_e_tag_of_its_making() {
    let mut world = World::new();
    world.put_object("b", "from", b"abcdefg".to_vec()).unwrap();
    let answer = world.copy_object(("b", "from"), "b", "to").unwrap();
    assert_eq!(answer.e_tag, Some("etag-2".to_string()));
    for row in world.directory.rows.iter().filter(|row| row.key == "to") {
        assert_eq!(row.ready.as_ref().unwrap().etag, "etag-2");
    }
}

#[test]
fn failed_task_hides_the_tasks_behind_it() {
    let mut world = World::new();
    // The tasks end in the reverse of the directory's order.
    world.broken.insert("gcp:us-west1".to_string());
    assert_eq!(world.put_object("b", "first", b"x".to_vec()).unwrap().e_tag, None);
    world.broken.clear();
    world.broken.insert("aws:us-west-1".to_string());
    let answer = world.put_object("b", "second", b"x".to_vec()).unwrap();
    assert_eq!(answer.e_tag, Some("etag-1".to_string()));
}

#[test]
fn listing_shows_length_and_date_of_the_store() {
    let mut world = World::new();
    world.put_object("b", "k", b"abcdefg".to_vec()).unwrap();
    let listing = world.list_objects_v2("b", None).unwrap();
    let entry = &listing.contents.as_ref().unwrap()[0];
    assert_eq!(entry.key, Some("k".to_string()));
    assert_eq!(entry.size, 7);
    let shown = Timestamp { wall_nanos: 1_700_000_000_123_000_000, offset_seconds: 0 };
    assert_eq!(entry.last_modified, Some(shown));
    assert_eq!(listing.name, None);
    assert_eq!(listing.prefix, None);
    assert_eq!(listing.delimiter, None);
    assert_eq!(listing.encoding_type, None);
    assert_eq!(listing.max_keys, None);

    let older = world.list_objects("b").unwrap();
    assert_eq!(older.contents, listing.contents);
    assert_eq!(older.name, None);
    assert_eq!(older.max_keys, None);
}

#[test]
fn head_measures_the_copy() {
    let mut world = World::new();
    world.put_object("b", "k", b"abcdefg".to_vec()).unwrap();
    assert_eq!(world.head_object("b", "k").unwrap().content_length, 7);
    let missing = world.head_object("b", "other").unwrap_err();
    assert_eq!(missing.code, S3ErrorCode::NoSuchKey);
    assert_eq!(missing.message, "No such key");
    for store in world.stores.iter_mut() {
        store.objects.clear();
    }
    assert_eq!(world.head_object("b", "k"), Err(internal("head_object failed")));
}

#[test]
fn missing_object_cannot_be_read() {
    let mut world = World::new();
    let missing = world.get_object("b", "k").unwrap_err();
    assert_eq!(missing.code, S3ErrorCode::NoSuchKey);
    assert_eq!(missing.message, "Object not found");
}

#[test]
fn copy_needs_a_source() {
    let mut world = World::new();
    let missing = world.copy_object(("b", "from"), "b", "to").unwrap_err();
    assert_eq!(missing.code, S3ErrorCode::NoSuchKey);
    assert_eq!(missing.message, "Source object not found");
    // An existing destination does not help.
    world.put_object("b", "to", b"x".to_vec()).unwrap();
    assert!(world.copy_object(("b", "from"), "b", "to").is_err());
}

#[test]
fn copy_to_an_existing_object_writes_nothing() {
    let mut world = World::new();
    world.put_object("b", "from", b"new".to_vec()).unwrap();
    world.put_object("b", "to", b"old".to_vec()).unwrap();
    let answer = world.copy_object(("b", "from"), "b", "to").unwrap();
    assert_eq!(answer.e_tag, Some("seen-etag-2".to_string()));
    let shown = Timestamp { wall_nanos: 1_700_000_000_123_000_000, offset_seconds: 0 };
    assert_eq!(answer.last_modified, Some(shown));
    assert_eq!(concat(world.get_object("b", "to").unwrap()), b"old");
}

#[test]
fn deleted_object_has_no_copy_left() {
    let mut world = World::new();
    world.put_object("b", "k", b"x".to_vec()).unwrap();
    assert_eq!(world.delete_object("b", "k"), Ok(DeleteObjectOutput { delete_marker: false }));
    assert!(world.stores.iter().all(|store| store.objects.is_empty()));
    assert!(world.directory.rows.is_empty());
    assert!(world.get_object("b", "k").is_err());
    // There is nothing left to delete.
    assert_eq!(
        world.delete_object("b", "k"),
        Err(internal("Object not deleted successfully"))
    );
}

#[test]
fn object_with_an_undeletable_copy_is_not_deleted() {
    let mut world = World::new();
    world.put_object("b", "k", b"x".to_vec()).unwrap();
    world.broken.insert("gcp:us-west1".to_string());
    let objects = vec![ObjectIdentifier { key: "k".to_string(), version_id: None }];
    let output = world.delete_objects("b", &objects).unwrap();
    assert!(output.deleted.unwrap().is_empty());
    let errors = output.errors.unwrap();
    assert_eq!(errors.len(), 1);
    assert_eq!(errors[0].key, Some("k".to_string()));
    assert_eq!(errors[0].code, Some("InternalError".to_string()));
    assert_eq!(errors[0].message, Some("Failed to delete object with key: k".to_string()));
    // The directory has heard of the copy that is gone.
    assert_eq!(world.directory.rows.len(), 1);
    assert_eq!(world.directory.rows[0].tag, "gcp:us-west1");
    assert_eq!(
        world.delete_object("b", "k"),
        Err(internal("Object not deleted successfully"))
    );
}

#[test]
fn existing_object_is_not_uploaded_in_parts() {
    let mut world = World::new();
    world.put_object("b", "k", b"x".to_vec()).unwrap();
    assert_eq!(
        world.create_multipart_upload("b", "k"),
        Err(internal("Object already exists. TODO for multipart upload overwite."))
    );
}

#[test]
fn copies_are_assembled_in_the_order_of_the_numbers() {
    let mut world = World::new();
    let answer = world.create_multipart_upload("b", "k").unwrap();
    assert_eq!(answer.bucket, Some("b".to_string()));
    assert_eq!(answer.key, Some("k".to_string()));
    let upload_id = answer.upload_id.unwrap();
    let etag7 = world.upload_part("b", "k", &upload_id, 7, b"c".to_vec()).e_tag.unwrap();
    let etag2 = world.upload_part("b", "k", &upload_id, 2, b"a".to_vec()).e_tag.unwrap();
    let etag5 = world.upload_part("b", "k", &upload_id, 5, b"b".to_vec()).e_tag.unwrap();
    let parts = vec![listed(etag2, 2), listed(etag5, 5), listed(etag7, 7)];
    let answer = world.complete_multipart_upload("b", "k", &upload_id, &parts);
    assert_eq!(answer.bucket, Some("b".to_string()));
    assert_eq!(answer.key, Some("k".to_string()));
    assert_eq!(answer.e_tag, Some("etag-5".to_string()));
    for (tag, store_bucket) in PLACES {
        let place = ObjectPlace { bucket: store_bucket.to_string(), key: "b/k".to_string() };
        let store = world.store(&tag.to_string());
        assert_eq!(store.completions, vec![vec![2, 5, 7]]);
        assert_eq!(concat(store.get(&place).unwrap()), b"abc");
    }
    assert_eq!(concat(world.get_object("b", "k").unwrap()), b"abc");
}

#[test]
fn parts_are_sent_again_and_copied() {
    let mut world = World::new();
    world.put_object("b", "from", b"yy".to_vec()).unwrap();
    let upload_id = world.create_multipart_upload("b", "k").unwrap().upload_id.unwrap();
    world.upload_part("b", "k", &upload_id, 1, b"x".to_vec());
    let etag2 = world.upload_part_copy(("b", "from"), "b", "k", &upload_id, 2).unwrap().e_tag;
    let etag1 = world.upload_part("b", "k", &upload_id, 1, b"z".to_vec()).e_tag;
    let parts = vec![listed(etag2.unwrap(), 2), listed(etag1.unwrap(), 1)];
    world.complete_multipart_upload("b", "k", &upload_id, &parts);
    for (tag, store_bucket) in PLACES {
        let place = ObjectPlace { bucket: store_bucket.to_string(), key: "b/k".to_string() };
        assert_eq!(concat(world.store(&tag.to_string()).get(&place).unwrap()), b"zyy");
    }
    assert_eq!(concat(world.get_object("b", "k").unwrap()), b"zyy");
}

#[test]
fn part_cannot_be_copied_from_nothing() {
    let mut world = World::new();
    let upload_id = world.create_multipart_upload("b", "k").unwrap().upload_id.unwrap();
    let missing = world.upload_part_copy(("b", "from"), "b", "k", &upload_id, 1).unwrap_err();
    assert_eq!(missing.code, S3ErrorCode::NoSuchKey);
    assert_eq!(missing.message, "Source object not found");
}

#[test]
fn buckets_come_and_go() {
    let mut world = World::new();
    world.create_bucket("mine").unwrap();
    let store = world.store(&"gcp:us-west1".to_string());
    assert!(store.buckets.contains("mine"));
    let buckets = world.list_buckets().unwrap().buckets.unwrap();
    assert_eq!(buckets.len(), 1);
    assert_eq!(buckets[0].name, Some("mine".to_string()));
    // 2020-01-01T00:00:00Z
    assert!(buckets[0].creation_date.unwrap().wall_nanos > 1_577_836_800_000_000_000);
    world.delete_bucket("mine").unwrap();
    assert!(!world.store(&"gcp:us-west1".to_string()).buckets.contains("mine"));
    assert!(world.list_buckets().unwrap().buckets.unwrap().is_empty());
}

#[test]
fn failed_bucket_task_is_the_answer() {
    let mut world = World::new();
    world.broken.insert("gcp:us-west1".to_string());
    assert_eq!(
        world.create_bucket("mine"),
        Err(internal("Error creating bucket: task 7 panicked"))
    );
    world.broken.clear();
    world.create_bucket("other").unwrap();
    world.store(&"gcp:us-west1".to_string()).buckets.clear();
    assert_eq!(
        world.delete_bucket("other"),
        Err(internal("Error deleting bucket: task 9 panicked"))
    );
}
