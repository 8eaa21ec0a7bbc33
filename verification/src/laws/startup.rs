//! What the proxy does before it serves, and what becomes of new buckets.

use crate::buckets::{bucket_work, exists_since_startup, BucketWork};
use crate::dto::{CreateBucketInput, StoreCall};
use crate::models::LocateBucketResponse;
use crate::proxy::{skystore_bucket, SkyProxy};
use crate::text::{after_colon, occurs, occurs_at};
use vstd::prelude::*;

verus! {

/// What stands behind the first colon.
pub proof fn rest_follows_the_first_colon(before: Seq<char>, rest: Seq<char>)
    requires
        !before.contains(':'),
    ensures
        after_colon(before + seq![':'] + rest) == rest,
    decreases before.len(),
{
    let text = before + seq![':'] + rest;
    if before.len() == 0 {
        assert(text[0] == ':');
        assert(text.drop_first() =~= rest);
    } else {
        assert(before.contains(before[0]));
        assert(text[0] == before[0]);
        let fewer = before.drop_first();
        if fewer.contains(':') {
            let i = choose|i: int| 0 <= i < fewer.len() && fewer[i] == ':';
            assert(before[i + 1] == ':');
        }
        rest_follows_the_first_colon(fewer, rest);
        assert(text.drop_first() =~= fewer + seq![':'] + rest);
    }
}

/// A text occurs in another exactly if the other is the text with something in front of it
/// and something behind it.
pub proof fn text_occurs_between_what_surrounds_it(
    text: Seq<char>,
    needle: Seq<char>,
    before: Seq<char>,
    behind: Seq<char>,
)
    ensures
        occurs(before + needle + behind, needle),
        occurs(text, needle) ==> exists|front: Seq<char>, back: Seq<char>| #[trigger]
            (front + needle + back) == text,
{
    let whole = before + needle + behind;
    assert(whole.subrange(before.len() as int, (before.len() + needle.len()) as int) =~= needle);
    assert(occurs_at(whole, needle, before.len() as int));
    if occurs(text, needle) {
        let i = choose|i: int| #[trigger] occurs_at(text, needle, i);
        let front = text.subrange(0, i);
        let back = text.subrange(i + needle.len(), text.len() as int);
        assert(text.subrange(i, i + needle.len()) == needle);
        assert(front + needle + back =~= text) by {
            assert forall|j: int| 0 <= j < text.len() implies (front + needle + back)[j]
                == text[j] by {
                if i <= j < i + needle.len() {
                    assert(needle[j - i] == text.subrange(i, i + needle.len())[j - i]);
                }
            }
        }
    }
}

/// At startup the store of every region is asked for the bucket that is named after the
/// region, without its provider, and is told the whole name of the region; regions with
/// different names behind their providers get different buckets.
pub proof fn startup_bucket_is_named_after_its_region(
    region: String,
    provider: Seq<char>,
    name: Seq<char>,
    call: StoreCall<CreateBucketInput>,
    other_region: String,
    other_provider: Seq<char>,
    other_name: Seq<char>,
    other_call: StoreCall<CreateBucketInput>,
)
    requires
        !provider.contains(':'),
        region@ == provider + seq![':'] + name,
        SkyProxy::is_startup_call(region, call),
        !other_provider.contains(':'),
        other_region@ == other_provider + seq![':'] + other_name,
        SkyProxy::is_startup_call(other_region, other_call),
    ensures
        call.tag == region,
        call.request.location == Some(region),
        call.request.bucket@ == "skystore-"@ + name,
        skystore_bucket(region@) == "skystore-"@ + name,
        call.request.bucket@ == other_call.request.bucket@ ==> name == other_name,
{
    rest_follows_the_first_colon(provider, name);
    rest_follows_the_first_colon(other_provider, other_name);
    if call.request.bucket@ == other_call.request.bucket@ {
        let len = "skystore-"@.len() as int;
        assert(name =~= call.request.bucket@.skip(len));
        assert(other_name =~= other_call.request.bucket@.skip(len));
    }
}

/// The store of a tag is the last one that was listed for it, and a tag has a store
/// exactly if one of the regions is written like it.
pub proof fn tag_has_the_store_of_its_region(
    proxy: SkyProxy,
    tag: Seq<char>,
    index: Option<usize>,
)
    requires
        proxy.is_store_index(tag, index),
    ensures
        index is Some == (exists|i: int|
            0 <= i < proxy.regions@.len() && (#[trigger] proxy.regions@[i])@ == tag),
        index matches Some(i) ==> i < proxy.regions@.len() && proxy.regions@[i as int]@ == tag,
        index matches Some(i) ==> forall|j: int|
            0 <= j < proxy.regions@.len() && (#[trigger] proxy.regions@[j])@ == tag ==> j <= i,
{
    if let Some(i) = index {
        assert(proxy.regions@[i as int]@ == tag);
    }
}

/// A place of a new bucket is only reported if its name begins like those of the buckets
/// that the proxy creates at startup, and is created in any other case; either way the
/// work is for that place.
pub proof fn new_bucket_is_created_unless_it_is_the_proxys(
    locator: LocateBucketResponse,
    rest: Seq<char>,
)
    ensures
        locator.bucket@ == "skystore-"@ + rest ==> bucket_work(locator) is Report,
        bucket_work(locator) is Report ==> exists|end: Seq<char>|
            locator.bucket@ == #[trigger] ("skystore-"@ + end),
        match bucket_work(locator) {
            BucketWork::Report(new) => new.locator == locator,
            BucketWork::Create(pending) => pending.locator == locator,
        },
        exists_since_startup(locator.bucket@) == (bucket_work(locator) is Report),
{
    let prefix = "skystore-"@;
    if locator.bucket@ == prefix + rest {
        assert(locator.bucket@.subrange(0, prefix.len() as int) =~= prefix);
    }
    if bucket_work(locator) is Report {
        let end = locator.bucket@.skip(prefix.len() as int);
        assert(locator.bucket@ =~= prefix + end);
    }
}

} // verus!
