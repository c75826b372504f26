//! Offset/limit pagination of search results.

use vstd::prelude::*;

verus! {

broadcast use vstd::std_specs::vec::group_vec_axioms;

/// Where a page starts: the offset, at least 0 and at most the length.
pub open spec fn page_start(len: int, offset: int) -> int {
    if offset <= 0 {
        0
    } else if offset >= len {
        len
    } else {
        offset
    }
}

/// Where a page ends: at most `max(limit, 1)` items after its start.
pub open spec fn page_end(len: int, offset: int, limit: int) -> int {
    let n = if limit < 1 { 1 } else { limit };
    if page_start(len, offset) + n >= len {
        len
    } else {
        page_start(len, offset) + n
    }
}

/// The page of `s` that skips `max(offset, 0)` items and holds at most
/// `max(limit, 1)` items.
pub open spec fn page<A>(s: Seq<A>, offset: int, limit: int) -> Seq<A> {
    s.subrange(page_start(s.len() as int, offset), page_end(s.len() as int, offset, limit))
}

/// Skips `max(offset, 0)` items and keeps at most `max(limit, 1)` of the rest.
pub fn paginate<T>(v: Vec<T>, offset: i64, limit: i64) -> (r: Vec<T>)
    ensures
        r@ == page(v@, offset as int, limit as int),
        r@.len() <= (if limit < 1 { 1 } else { limit as int }),
{
    let len = v.len();
    let start: usize = if offset <= 0 {
        0
    } else if offset as u128 >= len as u128 {
        len
    } else {
        offset as usize
    };
    assert(start == page_start(len as int, offset as int));
    let mut v = v;
    let mut rest = v.split_off(start);
    let n: u128 = if limit < 1 { 1 } else { limit as u128 };
    if (start as u128) + n < len as u128 {
        let keep: usize = (n as usize);
        rest.truncate(keep);
    }
    assert(rest@ =~= page(v@ + rest@, offset as int, limit as int));
    rest
}

} // verus!
