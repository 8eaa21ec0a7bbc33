//! Searching and joining text.

use vstd::prelude::*;

verus! {

/// `needle` occurs in `text` at position `i`.
pub open spec fn occurs_at(text: Seq<char>, needle: Seq<char>, i: int) -> bool {
    &&& 0 <= i
    &&& i + needle.len() <= text.len()
    &&& text.subrange(i, i + needle.len()) == needle
}

/// `needle` occurs somewhere in `text`.
pub open spec fn occurs(text: Seq<char>, needle: Seq<char>) -> bool {
    exists|i: int| #[trigger] occurs_at(text, needle, i)
}

/// What follows the first colon of `text`; the empty text if it has none.
pub open spec fn after_colon(text: Seq<char>) -> Seq<char>
    decreases text.len(),
{
    if text.len() == 0 {
        text
    } else if text[0] == ':' {
        text.drop_first()
    } else {
        after_colon(text.drop_first())
    }
}

/// Tells whether `needle` stands in `text` at position `from`.
fn matches_at(text: &str, needle: &str, from: usize) -> (found: bool)
    requires
        from + needle@.len() <= text@.len(),
    ensures
        found == occurs_at(text@, needle@, from as int),
{
    let len: usize = text.unicode_len();
    let width: usize = needle.unicode_len();
    let mut k: usize = 0;
    while k < width
        invariant
            k <= width,
            width == needle@.len(),
            from + width <= len,
            len == text@.len(),
            forall|j: int| 0 <= j < k ==> text@[from + j] == needle@[j],
        decreases width - k,
    {
        if text.get_char(from + k) != needle.get_char(k) {
            proof {
                assert(text@.subrange(from as int, from + width)[k as int] != needle@[k as int]);
            }
            return false;
        }
        k += 1;
    }
    proof {
        assert(text@.subrange(from as int, from + width) =~= needle@);
    }
    true
}

/// Tells whether `text` starts with `prefix`.
pub fn starts_with(text: &str, prefix: &str) -> (found: bool)
    ensures
        found == prefix@.is_prefix_of(text@),
{
    let len: usize = text.unicode_len();
    let width: usize = prefix.unicode_len();
    if len < width {
        return false;
    }
    matches_at(text, prefix, 0)
}

/// Tells whether `needle` occurs anywhere in `text`.
pub fn contains(text: &str, needle: &str) -> (found: bool)
    ensures
        found == occurs(text@, needle@),
{
    let len: usize = text.unicode_len();
    let width: usize = needle.unicode_len();
    if len < width {
        return false;
    }
    let last: usize = len - width;
    let mut i: usize = 0;
    while i < last
        invariant
            i <= last,
            last + width == text@.len(),
            width == needle@.len(),
            forall|j: int| 0 <= j < i ==> !occurs_at(text@, needle@, j),
        decreases last - i,
    {
        if matches_at(text, needle, i) {
            return true;
        }
        i += 1;
    }
    let found: bool = matches_at(text, needle, last);
    proof {
        if occurs(text@, needle@) {
            let w = choose|w: int| occurs_at(text@, needle@, w);
            assert(w == last);
        }
    }
    found
}

/// The position of the first colon in `text`, if it has one.
pub fn first_colon(text: &str) -> (position: Option<usize>)
    ensures
        match position {
            Some(i) => {
                &&& i < text@.len()
                &&& text@[i as int] == ':'
                &&& forall|j: int| 0 <= j < i ==> text@[j] != ':'
                &&& after_colon(text@) == text@.subrange(i + 1, text@.len() as int)
            },
            None => !text@.contains(':'),
        },
{
    let len: usize = text.unicode_len();
    let mut i: usize = 0;
    proof {
        assert(text@.subrange(0, text@.len() as int) =~= text@);
    }
    while i < len
        invariant
            i <= len,
            len == text@.len(),
            forall|j: int| 0 <= j < i ==> text@[j] != ':',
            after_colon(text@) == after_colon(text@.subrange(i as int, len as int)),
        decreases len - i,
    {
        proof {
            assert(text@.subrange(i as int, len as int).drop_first() =~= text@.subrange(
                i + 1,
                len as int,
            ));
        }
        if text.get_char(i) == ':' {
            return Some(i);
        }
        i += 1;
    }
    None
}

/// `left` followed by `right`.
pub fn joined(left: &str, right: &str) -> (both: String)
    ensures
        both@ == left@ + right@,
{
    let mut both: String = left.to_string();
    both.append(right);
    both
}

/// A copy of an optional text.
pub fn copied(text: &Option<String>) -> (copy: Option<String>)
    ensures
        copy == *text,
{
    match text {
        Some(inner) => Some(inner.clone()),
        None => None,
    }
}

} // verus!
