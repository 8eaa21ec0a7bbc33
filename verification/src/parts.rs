//! The parts of a multipart upload, put in the order in which a store joins them.

use crate::dto::CompletedPart;
use crate::models::ContinueUploadPart;
use std::collections::HashSet;
use vstd::prelude::*;

verus! {

/// The parts with a given number, in their order.
pub open spec fn numbered(parts: Seq<CompletedPart>, number: i32) -> Seq<CompletedPart> {
    parts.filter(|part: CompletedPart| part.part_number == number)
}

/// The parts ascend by number.
pub open spec fn ascending(parts: Seq<CompletedPart>) -> bool {
    forall|i: int, j: int|
        0 <= i < j < parts.len() ==> (#[trigger] parts[i]).part_number <= (
        #[trigger] parts[j]).part_number
}

/// `sorted` holds the given parts in ascending order; parts of the same number keep
/// the order in which they were given.
pub open spec fn is_stable_sort(sorted: Seq<CompletedPart>, parts: Seq<CompletedPart>) -> bool {
    &&& ascending(sorted)
    &&& forall|number: i32| #[trigger] numbered(sorted, number) == numbered(parts, number)
}

/// A part that a store has, as a completion names it.
pub open spec fn completed_part(part: ContinueUploadPart) -> CompletedPart {
    CompletedPart { part_number: part.part_number, e_tag: Some(part.etag) }
}

/// The parts that a store has, as a completion names them.
pub open spec fn completed_parts(parts: Seq<ContinueUploadPart>) -> Seq<CompletedPart> {
    parts.map_values(|part: ContinueUploadPart| completed_part(part))
}

/// The numbers of the parts that a client lists.
pub open spec fn numbers_of(parts: Seq<CompletedPart>) -> Set<i32> {
    parts.map_values(|part: CompletedPart| part.part_number).to_set()
}

/// A store's parts go with the client's part numbers: each has one of those numbers,
/// and there are as many parts as numbers.
pub open spec fn go_with(parts: Seq<ContinueUploadPart>, numbers: Set<i32>) -> bool {
    &&& parts.len() == numbers.len()
    &&& forall|i: int| 0 <= i < parts.len() ==> numbers.contains((#[trigger] parts[i]).part_number)
}

/// Inserting a part behind all parts with the same or a lower number.
proof fn insertion_keeps_order(
    sorted: Seq<CompletedPart>,
    before: Seq<CompletedPart>,
    part: CompletedPart,
    at: int,
)
    requires
        is_stable_sort(sorted, before),
        0 <= at <= sorted.len(),
        forall|j: int| 0 <= j < at ==> (#[trigger] sorted[j]).part_number <= part.part_number,
        forall|j: int| at <= j < sorted.len() ==> (#[trigger] sorted[j]).part_number
            > part.part_number,
    ensures
        is_stable_sort(sorted.insert(at, part), before.push(part)),
{
    let after = sorted.insert(at, part);
    let low = sorted.subrange(0, at);
    let high = sorted.subrange(at, sorted.len() as int);
    assert(sorted =~= low + high);
    assert(after =~= low.push(part) + high);
    assert forall|number: i32| #[trigger]
        numbered(after, number) == numbered(before.push(part), number) by {
        let has_number = |p: CompletedPart| p.part_number == number;
        assert(numbered(sorted, number) == numbered(before, number));
        before.lemma_filter_push(part, has_number);
        low.lemma_filter_push(part, has_number);
        Seq::filter_distributes_over_add(low, high, has_number);
        Seq::filter_distributes_over_add(low.push(part), high, has_number);
        if number == part.part_number {
            assert(high.all(|p: CompletedPart| !has_number(p)));
            high.lemma_all_neg_filter_empty(has_number);
            assert(low.push(part).filter(has_number) + high.filter(has_number) =~= (low.filter(
                has_number,
            ) + high.filter(has_number)).push(part));
        }
    }
}

/// The numbers of the parts that a client lists.
pub fn part_numbers(parts: &Vec<CompletedPart>) -> (numbers: HashSet<i32>)
    ensures
        numbers@ == numbers_of(parts@),
{
    let mut numbers: HashSet<i32> = HashSet::new();
    let ghost all = parts@.map_values(|part: CompletedPart| part.part_number);
    let mut i: usize = 0;
    proof {
        assert(all.take(0).to_set() =~= Set::<i32>::empty());
    }
    while i < parts.len()
        invariant
            i <= parts@.len(),
            all == parts@.map_values(|part: CompletedPart| part.part_number),
            numbers@ == all.take(i as int).to_set(),
        decreases parts@.len() - i,
    {
        proof {
            assert(all.take(i + 1) =~= all.take(i as int).push(all[i as int]));
            all.take(i as int).lemma_push_to_set_commute(all[i as int]);
        }
        numbers.insert(parts[i].part_number);
        i += 1;
    }
    proof {
        assert(all.take(all.len() as int) =~= all);
    }
    numbers
}

/// Tells whether a store's parts go with the client's part numbers.
pub fn parts_go_with(parts: &Vec<ContinueUploadPart>, numbers: &HashSet<i32>) -> (fit: bool)
    ensures
        fit == go_with(parts@, numbers@),
{
    if parts.len() != numbers.len() {
        return false;
    }
    let mut i: usize = 0;
    while i < parts.len()
        invariant
            i <= parts@.len(),
            parts@.len() == numbers@.len(),
            forall|j: int|
                0 <= j < i ==> numbers@.contains((#[trigger] parts@[j]).part_number),
        decreases parts@.len() - i,
    {
        if !numbers.contains(&parts[i].part_number) {
            return false;
        }
        i += 1;
    }
    true
}

/// A store's parts in the order in which the store has to join them.
pub fn ordered_parts(parts: Vec<ContinueUploadPart>) -> (ordered: Vec<CompletedPart>)
    ensures
        is_stable_sort(ordered@, completed_parts(parts@)),
{
    let ghost given = parts@;
    let mut ordered: Vec<CompletedPart> = Vec::new();
    proof {
        assert(completed_parts(given).take(0) =~= Seq::<CompletedPart>::empty());
    }
    for part in it: parts
        invariant
            it.seq() == given,
            is_stable_sort(ordered@, completed_parts(given).take(it.index() as int)),
    {
        let completed: CompletedPart = CompletedPart {
            part_number: part.part_number,
            e_tag: Some(part.etag),
        };
        let mut at: usize = ordered.len();
        while at > 0 && ordered[at - 1].part_number > completed.part_number
            invariant
                at <= ordered@.len(),
                forall|j: int|
                    at <= j < ordered@.len() ==> (#[trigger] ordered@[j]).part_number
                        > completed.part_number,
            decreases at,
        {
            at -= 1;
        }
        proof {
            let done = completed_parts(given).take(it.index() as int);
            assert(completed == completed_parts(given)[it.index() as int]);
            assert(completed_parts(given).take(it.index() + 1) =~= done.push(completed));
            assert forall|j: int| 0 <= j < at implies (#[trigger] ordered@[j]).part_number
                <= completed.part_number by {
                if j < at - 1 {
                    assert(ordered@[j].part_number <= ordered@[at - 1].part_number);
                }
            }
            insertion_keeps_order(ordered@, done, completed, at as int);
        }
        ordered.insert(at, completed);
    }
    proof {
        assert(completed_parts(given).take(given.len() as int) =~= completed_parts(given));
    }
    ordered
}

} // verus!
