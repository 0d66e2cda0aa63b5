//! The recency ordering of the thread list: a specification-level
//! insertion sort, its laws, and a verified executable sort that
//! realizes it.

use vstd::prelude::*;

use crate::model::more_recent_eq;
use crate::model::more_recent_eq_exec;
use crate::model::Thread;

verus! {

/// A thread sequence is in display order: most recently active first,
/// ties broken by higher id first.
pub open spec fn sorted_recency(s: Seq<Thread>) -> bool {
    forall|i: int, j: int|
        0 <= i < j < s.len() ==> more_recent_eq(#[trigger] s[i], #[trigger] s[j])
}

/// `t` placed before the first entry of `s` that it is at least as
/// recent as; `s` is expected to be in display order already.
pub open spec fn insert_sorted(t: Thread, s: Seq<Thread>) -> Seq<Thread>
    decreases s.len(),
{
    if s.len() == 0 {
        seq![t]
    } else if more_recent_eq(t, s[0]) {
        seq![t] + s
    } else {
        seq![s[0]] + insert_sorted(t, s.drop_first())
    }
}

/// The display order of an arbitrary thread sequence: each entry
/// inserted in turn into the ordered rest.
pub open spec fn ordered_of(s: Seq<Thread>) -> Seq<Thread>
    decreases s.len(),
{
    if s.len() == 0 {
        Seq::empty()
    } else {
        insert_sorted(s[0], ordered_of(s.drop_first()))
    }
}

/// Inserting grows the sequence by one and keeps exactly the old entries
/// beside the new one.
pub proof fn lemma_insert_sorted_contains(t: Thread, s: Seq<Thread>)
    ensures
        insert_sorted(t, s).len() == s.len() + 1,
        forall|x: Thread| #[trigger] insert_sorted(t, s).contains(x) <==> (x == t || s.contains(x)),
    decreases s.len(),
{
    if s.len() == 0 {
        let out = insert_sorted(t, s);
        assert(out == seq![t]);
        assert forall|x: Thread| #[trigger] out.contains(x) <==> (x == t || s.contains(x)) by {
            if out.contains(x) {
                let k = choose|k: int| 0 <= k < out.len() && out[k] == x;
                assert(x == t);
            }
            if x == t {
                assert(out[0] == x);
                assert(out.contains(x));
            }
        }
    } else if more_recent_eq(t, s[0]) {
        let out = insert_sorted(t, s);
        assert(out == seq![t] + s);
        assert forall|x: Thread| #[trigger] out.contains(x) implies (x == t || s.contains(x)) by {
            let k = choose|k: int| 0 <= k < out.len() && out[k] == x;
            if k > 0 {
                assert(s[k - 1] == x);
                assert(s.contains(x));
            }
        }
        assert forall|x: Thread| (x == t || s.contains(x)) implies #[trigger] out.contains(x) by {
            if x == t {
                assert(out[0] == x);
                assert(out.contains(x));
            } else {
                let k = choose|k: int| 0 <= k < s.len() && s[k] == x;
                assert(out[k + 1] == x);
                assert(out.contains(x));
            }
        }
    } else {
        let s1 = s.drop_first();
        lemma_insert_sorted_contains(t, s1);
        let rest = insert_sorted(t, s1);
        let out = insert_sorted(t, s);
        assert(out == seq![s[0]] + rest);
        assert forall|x: Thread| #[trigger] out.contains(x) implies (x == t || s.contains(x)) by {
            let k = choose|k: int| 0 <= k < out.len() && out[k] == x;
            if k == 0 {
                assert(s[0] == x);
                assert(s.contains(x));
            } else {
                assert(out[k] == rest[k - 1]);
                assert(rest.contains(x));
                if x != t {
                    assert(s1.contains(x));
                    let m = choose|m: int| 0 <= m < s1.len() && s1[m] == x;
                    assert(s1[m] == s[m + 1]);
                    assert(s.contains(x));
                }
            }
        }
        assert forall|x: Thread| (x == t || s.contains(x)) implies #[trigger] out.contains(x) by {
            if x == t {
                assert(rest.contains(x));
                let m = choose|m: int| 0 <= m < rest.len() && rest[m] == x;
                assert(out[m + 1] == x);
                assert(out.contains(x));
            } else {
                let k = choose|k: int| 0 <= k < s.len() && s[k] == x;
                if k == 0 {
                    assert(out[0] == x);
                    assert(out.contains(x));
                } else {
                    assert(s1[k - 1] == x);
                    assert(s1.contains(x));
                    assert(rest.contains(x));
                    let m = choose|m: int| 0 <= m < rest.len() && rest[m] == x;
                    assert(out[m + 1] == x);
                    assert(out.contains(x));
                }
            }
        }
    }
}

/// Inserting into an ordered sequence keeps it ordered.
pub proof fn lemma_insert_sorted_sorted(t: Thread, s: Seq<Thread>)
    requires
        sorted_recency(s),
    ensures
        sorted_recency(insert_sorted(t, s)),
    decreases s.len(),
{
    if s.len() == 0 {
    } else if more_recent_eq(t, s[0]) {
        let out = insert_sorted(t, s);
        assert forall|i: int, j: int| 0 <= i < j < out.len() implies more_recent_eq(
            #[trigger] out[i],
            #[trigger] out[j],
        ) by {
            if i == 0 {
                assert(out[j] == s[j - 1]);
                if j > 1 {
                    assert(more_recent_eq(s[0], s[j - 1]));
                }
            } else {
                assert(out[i] == s[i - 1] && out[j] == s[j - 1]);
            }
        }
    } else {
        let s1 = s.drop_first();
        assert forall|i: int, j: int| 0 <= i < j < s1.len() implies more_recent_eq(
            #[trigger] s1[i],
            #[trigger] s1[j],
        ) by {
            assert(s1[i] == s[i + 1] && s1[j] == s[j + 1]);
        }
        lemma_insert_sorted_sorted(t, s1);
        lemma_insert_sorted_contains(t, s1);
        let rest = insert_sorted(t, s1);
        let out = insert_sorted(t, s);
        assert forall|i: int, j: int| 0 <= i < j < out.len() implies more_recent_eq(
            #[trigger] out[i],
            #[trigger] out[j],
        ) by {
            if i == 0 {
                assert(out[j] == rest[j - 1]);
                assert(rest.contains(rest[j - 1]));
                if rest[j - 1] == t {
                } else {
                    assert(s1.contains(rest[j - 1]));
                    let m = choose|m: int| 0 <= m < s1.len() && s1[m] == rest[j - 1];
                    assert(s1[m] == s[m + 1]);
                    assert(more_recent_eq(s[0], s[m + 1]));
                }
            } else {
                assert(out[i] == rest[i - 1] && out[j] == rest[j - 1]);
            }
        }
    }
}

/// The display order keeps the length and exactly the entries of the
/// stored thread list.
pub proof fn lemma_ordered_of_contains(s: Seq<Thread>)
    ensures
        ordered_of(s).len() == s.len(),
        forall|x: Thread| #[trigger] ordered_of(s).contains(x) <==> s.contains(x),
    decreases s.len(),
{
    if s.len() == 0 {
    } else {
        let s1 = s.drop_first();
        lemma_ordered_of_contains(s1);
        lemma_insert_sorted_contains(s[0], ordered_of(s1));
        let out = insert_sorted(s[0], ordered_of(s1));
        assert(ordered_of(s) == out);
        assert forall|x: Thread| #[trigger] ordered_of(s).contains(x) implies s.contains(x) by {
            assert(out.contains(x));
            if x == s[0] {
                assert(s.contains(x));
            } else {
                assert(ordered_of(s1).contains(x));
                assert(s1.contains(x));
                let m = choose|m: int| 0 <= m < s1.len() && s1[m] == x;
                assert(s1[m] == s[m + 1]);
                assert(s.contains(x));
            }
        }
        assert forall|x: Thread| s.contains(x) implies #[trigger] ordered_of(s).contains(x) by {
            let k = choose|k: int| 0 <= k < s.len() && s[k] == x;
            if k == 0 {
                assert(x == s[0]);
                assert(out.contains(x));
            } else {
                assert(s1[k - 1] == x);
                assert(s1.contains(x));
                assert(ordered_of(s1).contains(x));
                assert(out.contains(x));
            }
        }
    }
}

/// The display order of any thread sequence is in fact ordered.
pub proof fn lemma_ordered_of_sorted(s: Seq<Thread>)
    ensures
        sorted_recency(ordered_of(s)),
    decreases s.len(),
{
    if s.len() == 0 {
    } else {
        lemma_ordered_of_sorted(s.drop_first());
        lemma_insert_sorted_sorted(s[0], ordered_of(s.drop_first()));
    }
}

/// How many entries of `s` satisfy `p`.
pub open spec fn count_matching(s: Seq<Thread>, p: spec_fn(Thread) -> bool) -> int
    decreases s.len(),
{
    if s.len() == 0 {
        0
    } else {
        (if p(s[0]) {
            1int
        } else {
            0int
        }) + count_matching(s.drop_first(), p)
    }
}

/// A count is never negative.
pub proof fn lemma_count_nonneg(s: Seq<Thread>, p: spec_fn(Thread) -> bool)
    ensures
        count_matching(s, p) >= 0,
    decreases s.len(),
{
    if s.len() == 0 {
    } else {
        lemma_count_nonneg(s.drop_first(), p);
    }
}

/// Inserting one entry raises a count by exactly that entry's share.
pub proof fn lemma_count_insert(t: Thread, s: Seq<Thread>, p: spec_fn(Thread) -> bool)
    ensures
        count_matching(insert_sorted(t, s), p) == count_matching(s, p) + (if p(t) {
            1int
        } else {
            0int
        }),
    decreases s.len(),
{
    if s.len() == 0 {
        let out = insert_sorted(t, s);
        assert(out == seq![t]);
        assert(out[0] == t);
        assert(out.drop_first() =~= Seq::<Thread>::empty());
        assert(count_matching(out.drop_first(), p) == 0);
    } else if more_recent_eq(t, s[0]) {
        let out = insert_sorted(t, s);
        assert(out == seq![t] + s);
        assert(out[0] == t);
        assert(out.drop_first() =~= s);
        assert(count_matching(out, p) == (if p(t) {
            1int
        } else {
            0int
        }) + count_matching(s, p));
    } else {
        let rest = insert_sorted(t, s.drop_first());
        let out = insert_sorted(t, s);
        assert(out == seq![s[0]] + rest);
        assert(out[0] == s[0]);
        assert(out.drop_first() =~= rest);
        lemma_count_insert(t, s.drop_first(), p);
        assert(count_matching(out, p) == (if p(s[0]) {
            1int
        } else {
            0int
        }) + count_matching(rest, p));
        assert(count_matching(s, p) == (if p(s[0]) {
            1int
        } else {
            0int
        }) + count_matching(s.drop_first(), p));
    }
}

/// The display order keeps every count: it only permutes the entries.
pub proof fn lemma_count_ordered(s: Seq<Thread>, p: spec_fn(Thread) -> bool)
    ensures
        count_matching(ordered_of(s), p) == count_matching(s, p),
    decreases s.len(),
{
    if s.len() == 0 {
    } else {
        lemma_count_ordered(s.drop_first(), p);
        lemma_count_insert(s[0], ordered_of(s.drop_first()), p);
    }
}

/// When nothing from position `i` on satisfies `p`, at most `i` entries do.
pub proof fn lemma_count_bound_above(s: Seq<Thread>, p: spec_fn(Thread) -> bool, i: int)
    requires
        0 <= i <= s.len(),
        forall|j: int| i <= j < s.len() ==> !p(#[trigger] s[j]),
    ensures
        count_matching(s, p) <= i,
    decreases s.len(),
{
    if s.len() == 0 {
    } else if i == 0 {
        assert(!p(s[0]));
        assert forall|j: int| 0 <= j < s.drop_first().len() implies !p(
            #[trigger] s.drop_first()[j],
        ) by {
            assert(s.drop_first()[j] == s[j + 1]);
        }
        lemma_count_bound_above(s.drop_first(), p, 0);
    } else {
        assert forall|j: int| i - 1 <= j < s.drop_first().len() implies !p(
            #[trigger] s.drop_first()[j],
        ) by {
            assert(s.drop_first()[j] == s[j + 1]);
        }
        lemma_count_bound_above(s.drop_first(), p, i - 1);
    }
}

/// When everything before position `i` satisfies `p`, at least `i` entries do.
pub proof fn lemma_count_bound_below(s: Seq<Thread>, p: spec_fn(Thread) -> bool, i: int)
    requires
        0 <= i <= s.len(),
        forall|j: int| 0 <= j < i ==> p(#[trigger] s[j]),
    ensures
        count_matching(s, p) >= i,
    decreases s.len(),
{
    if i == 0 {
        lemma_count_nonneg(s, p);
    } else {
        assert(p(s[0]));
        assert forall|j: int| 0 <= j < i - 1 implies p(#[trigger] s.drop_first()[j]) by {
            assert(s.drop_first()[j] == s[j + 1]);
        }
        lemma_count_bound_below(s.drop_first(), p, i - 1);
    }
}

/// A count can only fall when, entry for entry, satisfying the new
/// predicate entails satisfying the old one.
pub proof fn lemma_count_le_pointwise(
    s1: Seq<Thread>,
    s2: Seq<Thread>,
    p1: spec_fn(Thread) -> bool,
    p2: spec_fn(Thread) -> bool,
)
    requires
        s1.len() == s2.len(),
        forall|j: int| 0 <= j < s2.len() ==> (p2(#[trigger] s2[j]) ==> p1(s1[j])),
    ensures
        count_matching(s2, p2) <= count_matching(s1, p1),
    decreases s1.len(),
{
    if s1.len() == 0 {
    } else {
        assert(p2(s2[0]) ==> p1(s1[0]));
        assert forall|j: int| 0 <= j < s2.drop_first().len() implies (p2(
            #[trigger] s2.drop_first()[j],
        ) ==> p1(s1.drop_first()[j])) by {
            assert(s2.drop_first()[j] == s2[j + 1]);
            assert(s1.drop_first()[j] == s1[j + 1]);
        }
        lemma_count_le_pointwise(s1.drop_first(), s2.drop_first(), p1, p2);
    }
}

/// As `lemma_count_le_pointwise`, but one position is excused: the new
/// count exceeds the old by at most one.
pub proof fn lemma_count_le_except(
    s1: Seq<Thread>,
    s2: Seq<Thread>,
    p1: spec_fn(Thread) -> bool,
    p2: spec_fn(Thread) -> bool,
    k: int,
)
    requires
        s1.len() == s2.len(),
        0 <= k < s1.len(),
        forall|j: int| 0 <= j < s2.len() && j != k ==> (p2(#[trigger] s2[j]) ==> p1(s1[j])),
    ensures
        count_matching(s2, p2) <= count_matching(s1, p1) + 1,
    decreases s1.len(),
{
    if k == 0 {
        assert forall|j: int| 0 <= j < s2.drop_first().len() implies (p2(
            #[trigger] s2.drop_first()[j],
        ) ==> p1(s1.drop_first()[j])) by {
            assert(s2.drop_first()[j] == s2[j + 1]);
            assert(s1.drop_first()[j] == s1[j + 1]);
        }
        lemma_count_le_pointwise(s1.drop_first(), s2.drop_first(), p1, p2);
    } else {
        assert(p2(s2[0]) ==> p1(s1[0]));
        assert forall|j: int|
            0 <= j < s2.drop_first().len() && j != k - 1 implies (p2(
            #[trigger] s2.drop_first()[j],
        ) ==> p1(s1.drop_first()[j])) by {
            assert(s2.drop_first()[j] == s2[j + 1]);
            assert(s1.drop_first()[j] == s1[j + 1]);
        }
        lemma_count_le_except(s1.drop_first(), s2.drop_first(), p1, p2, k - 1);
    }
}

/// Splitting an ordered sequence at the first entry that `t` is at least
/// as recent as gives exactly `insert_sorted`.
proof fn lemma_insert_sorted_split(t: Thread, s: Seq<Thread>, j: int)
    requires
        0 <= j <= s.len(),
        forall|k: int| 0 <= k < j ==> !more_recent_eq(t, #[trigger] s[k]),
        j < s.len() ==> more_recent_eq(t, s[j]),
    ensures
        insert_sorted(t, s) == s.subrange(0, j) + seq![t] + s.subrange(j, s.len() as int),
    decreases j,
{
    if s.len() == 0 {
        assert(insert_sorted(t, s) =~= s.subrange(0, j) + seq![t] + s.subrange(j, s.len() as int));
    } else if j == 0 {
        assert(more_recent_eq(t, s[0]));
        assert(insert_sorted(t, s) =~= s.subrange(0, 0) + seq![t] + s.subrange(0, s.len() as int));
    } else {
        assert(!more_recent_eq(t, s[0]));
        let s1 = s.drop_first();
        assert forall|k: int| 0 <= k < j - 1 implies !more_recent_eq(t, #[trigger] s1[k]) by {
            assert(s1[k] == s[k + 1]);
        }
        assert(j - 1 < s1.len() ==> more_recent_eq(t, s1[j - 1]));
        lemma_insert_sorted_split(t, s1, j - 1);
        assert(insert_sorted(t, s) =~= s.subrange(0, j) + seq![t] + s.subrange(j, s.len() as int));
    }
}

/// Inserts a thread into an ordered list at its display position.
fn insert_thread(r: &mut Vec<Thread>, t: Thread)
    ensures
        final(r)@ == insert_sorted(t, old(r)@),
{
    let ghost s = r@;
    let mut j: usize = 0;
    while j < r.len() && !more_recent_eq_exec(&t, &r[j])
        invariant
            0 <= j <= r@.len(),
            r@ == s,
            forall|k: int| 0 <= k < j ==> !more_recent_eq(t, #[trigger] s[k]),
        decreases r@.len() - j,
    {
        j = j + 1;
    }
    proof {
        lemma_insert_sorted_split(t, s, j as int);
    }
    r.insert(j, t);
    assert(r@ =~= s.subrange(0, j as int) + seq![t] + s.subrange(j as int, s.len() as int));
}

/// Returns the stored thread list in display order: most recently active
/// first, ties broken by higher id.
pub fn sorted_threads(v: &Vec<Thread>) -> (r: Vec<Thread>)
    ensures
        r@ == ordered_of(v@),
{
    let mut r: Vec<Thread> = Vec::new();
    let mut i: usize = v.len();
    while i > 0
        invariant
            0 <= i <= v@.len(),
            r@ == ordered_of(v@.subrange(i as int, v@.len() as int)),
        decreases i,
    {
        i = i - 1;
        insert_thread(&mut r, v[i].clone());
        proof {
            let tail = v@.subrange(i as int, v@.len() as int);
            assert(tail.drop_first() =~= v@.subrange(i + 1int, v@.len() as int));
            assert(tail[0] == v@[i as int]);
        }
    }
    proof {
        assert(v@.subrange(0, v@.len() as int) =~= v@);
    }
    r
}

} // verus!
