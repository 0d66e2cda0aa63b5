//! Page-number normalization, page counting, and the page-slice model
//! for the thread list.

use vstd::prelude::*;

use crate::model::Thread;

verus! {

/// The fixed number of threads shown on one list page.
pub const PAGE_SIZE: i64 = 10;

/// The page number actually used for a request: a missing or
/// non-positive page parameter is treated as page 1.
pub open spec fn normal_page(page: Option<i64>) -> i64 {
    match page {
        Some(p) => if p >= 1 {
            p
        } else {
            1
        },
        None => 1,
    }
}

/// Normalizes a requested page number: absent or non-positive means page 1.
pub fn normalize_page(page: Option<i64>) -> (p: i64)
    ensures
        p == normal_page(page),
        p >= 1,
{
    match page {
        Some(p) => if p >= 1 {
            p
        } else {
            1
        },
        None => 1,
    }
}

/// How many pages the board has: the ceiling of `total / size`, and 0
/// when there are no threads or the page size is not positive.
pub open spec fn spec_total_pages(total: int, size: int) -> int {
    if size <= 0 || total <= 0 {
        0
    } else {
        (total + size - 1) / size
    }
}

/// Computes the page count: `ceil(total / size)`, with a guard so that a
/// page size of zero yields zero pages rather than a division by zero.
pub fn total_pages(total: u64, size: u64) -> (r: u64)
    ensures
        r == spec_total_pages(total as int, size as int),
{
    if size == 0 || total == 0 {
        0
    } else {
        let q = total / size;
        let rem = total % size;
        proof {
            lemma_ceil_div(total as int, size as int);
            assert(rem != 0 ==> q + 1 <= u64::MAX) by (nonlinear_arith)
                requires
                    q == total / size,
                    rem == total % size,
                    size >= 1,
                    total <= u64::MAX,
            ;
        }
        if rem == 0 {
            q
        } else {
            q + 1
        }
    }
}

/// Ceiling division agrees with `quotient + (1 if remainder else 0)`.
proof fn lemma_ceil_div(total: int, size: int)
    requires
        total >= 1,
        size >= 1,
    ensures
        total % size == 0 ==> (total + size - 1) / size == total / size,
        total % size != 0 ==> (total + size - 1) / size == total / size + 1,
        total / size + (if total % size == 0 { 0int } else { 1int }) <= u64::MAX ==> (total + size - 1) / size <= u64::MAX,
{
    let q = total / size;
    let rem = total % size;
    assert(total == q * size + rem && 0 <= rem < size) by (nonlinear_arith)
        requires total >= 1 && size >= 1 && q == total / size && rem == total % size;
    if rem == 0 {
        assert((q * size + size - 1) / size == q) by (nonlinear_arith)
            requires size >= 1 && q >= 0;
    } else {
        assert((q * size + rem + size - 1) / size == q + 1) by (nonlinear_arith)
            requires size >= 1 && q >= 0 && 1 <= rem < size;
    }
}

/// The slice of the ordered thread list that one page shows: the entries
/// from offset `(page - 1) * size`, at most `size` of them. A page past
/// the end of the data, or a non-positive page size, yields no entries.
pub open spec fn page_slice(s: Seq<Thread>, page: int, size: int) -> Seq<Thread> {
    if page < 1 || size < 1 {
        Seq::empty()
    } else {
        let off = (page - 1) * size;
        if off >= s.len() {
            Seq::empty()
        } else {
            s.subrange(off, if off + size <= s.len() { off + size } else { s.len() as int })
        }
    }
}

/// Copies the requested page out of the ordered thread list.
pub fn take_page(v: &Vec<Thread>, page: i64, size: u64) -> (r: Vec<Thread>)
    requires
        page >= 1,
    ensures
        r@ == page_slice(v@, page as int, size as int),
{
    let mut r: Vec<Thread> = Vec::new();
    if size == 0 {
        return r;
    }
    let pm1: u128 = (page - 1) as u128;
    proof {
        assert(pm1 * (size as u128) < u128::MAX) by (nonlinear_arith)
            requires
                pm1 <= i64::MAX as u128,
                size as u128 <= u64::MAX as u128,
        ;
    }
    let off128: u128 = pm1 * (size as u128);
    if off128 >= v.len() as u128 {
        assert(((page - 1) as int) * (size as int) >= v@.len());
        return r;
    }
    let off: usize = off128 as usize;
    let hi128: u128 = off128 + size as u128;
    let hi: usize = if hi128 >= v.len() as u128 {
        v.len()
    } else {
        hi128 as usize
    };
    assert(off as int == ((page - 1) as int) * (size as int));
    assert(hi as int == if off as int + size as int <= v@.len() {
        off as int + size as int
    } else {
        v@.len() as int
    });
    let mut k: usize = off;
    while k < hi
        invariant
            off <= k <= hi <= v@.len(),
            r@ == v@.subrange(off as int, k as int),
        decreases hi - k,
    {
        r.push(v[k].clone());
        assert(v@.subrange(off as int, k + 1int) == v@.subrange(off as int, k as int).push(v@[k as int]));
        k = k + 1;
    }
    assert(r@ == page_slice(v@, page as int, size as int));
    r
}

} // verus!
