//! The board's global guarantees, stated and proved over the same spec
//! functions that the operations' contracts use.

use vstd::prelude::*;

use crate::board::create_reply_post;
use crate::board::replies_of;
use crate::board::Board;
use crate::errors::BoardError;
use crate::model::bumped;
use crate::model::more_recent_eq;
use crate::model::reply_ids_increasing;
use crate::model::strictly_more_recent;
use crate::model::Reply;
use crate::model::Thread;
use crate::ordering::count_matching;
use crate::ordering::lemma_count_bound_above;
use crate::ordering::lemma_count_bound_below;
use crate::ordering::lemma_count_le_except;
use crate::ordering::lemma_count_ordered;
use crate::ordering::lemma_ordered_of_contains;
use crate::ordering::lemma_ordered_of_sorted;
use crate::ordering::ordered_of;
use crate::ordering::sorted_recency;
use crate::pagination::page_slice;
use crate::pagination::spec_total_pages;

verus! {

/// However the board was built, the first page of the list is never
/// empty while threads exist, and its first entry is at least as
/// recently active as every thread on the board.
pub proof fn lemma_first_page_most_recent(threads: Seq<Thread>, size: int)
    requires
        threads.len() > 0,
        size >= 1,
    ensures
        page_slice(ordered_of(threads), 1, size).len() > 0,
        forall|i: int|
            0 <= i < threads.len() ==> more_recent_eq(
                page_slice(ordered_of(threads), 1, size)[0],
                #[trigger] threads[i],
            ),
{
    let ord = ordered_of(threads);
    lemma_ordered_of_contains(threads);
    lemma_ordered_of_sorted(threads);
    let slice = page_slice(ord, 1, size);
    assert(slice == ord.subrange(0, if size <= ord.len() { size } else { ord.len() as int }));
    assert(slice[0] == ord[0]);
    assert forall|i: int| 0 <= i < threads.len() implies more_recent_eq(
        page_slice(ordered_of(threads), 1, size)[0],
        #[trigger] threads[i],
    ) by {
        assert(threads.contains(threads[i]));
        assert(ord.contains(threads[i]));
        let j = choose|j: int| 0 <= j < ord.len() && ord[j] == threads[i];
        if j > 0 {
            assert(more_recent_eq(ord[0], ord[j]));
        }
    }
}

/// A successful reply advances its parent thread's activity timestamp
/// to at least the old value and at least the reply's own creation
/// time, and the parent thereafter sorts at least as early, relative to
/// any thread, as it did before. No other row moves.
pub proof fn lemma_reply_advances_activity(
    pre: Board,
    post: Board,
    parent_id: u64,
    message: String,
    now: i64,
    r: Result<Reply, BoardError>,
)
    requires
        create_reply_post(pre, post, parent_id, message, now, r),
        r is Ok,
    ensures
        exists|k: int|
            {
                &&& 0 <= k < pre.threads@.len()
                &&& (#[trigger] pre.threads@[k]).id == parent_id
                &&& post.threads@[k].last_updated >= pre.threads@[k].last_updated
                &&& post.threads@[k].last_updated >= now
                &&& forall|u: Thread|
                    more_recent_eq(pre.threads@[k], u) ==> #[trigger] more_recent_eq(
                        post.threads@[k],
                        u,
                    )
                &&& forall|i: int|
                    0 <= i < pre.threads@.len() && i != k ==> #[trigger] post.threads@[i]
                        == pre.threads@[i]
            },
{
    let k = choose|k: int|
        {
            &&& 0 <= k < pre.threads@.len()
            &&& (#[trigger] pre.threads@[k]).id == parent_id
            &&& post.threads@ == pre.threads@.update(k, bumped(pre.threads@[k], now))
        };
    assert(post.threads@[k] == bumped(pre.threads@[k], now));
}

/// After a successful reply, the parent thread's position in the full
/// display ordering is at least as early as it was before: wherever the
/// parent's id sits in the ordered list of the new board, that index is
/// no greater than its index in the ordered list of the old board.
pub proof fn lemma_reply_never_moves_parent_back(
    pre: Board,
    post: Board,
    parent_id: u64,
    message: String,
    now: i64,
    r: Result<Reply, BoardError>,
    i_pre: int,
    i_post: int,
)
    requires
        pre.wf(),
        create_reply_post(pre, post, parent_id, message, now, r),
        r is Ok,
        0 <= i_pre < ordered_of(pre.threads@).len(),
        0 <= i_post < ordered_of(post.threads@).len(),
        ordered_of(pre.threads@)[i_pre].id == parent_id,
        ordered_of(post.threads@)[i_post].id == parent_id,
    ensures
        i_post <= i_pre,
{
    let pre_s = pre.threads@;
    let post_s = post.threads@;
    let k = choose|k: int|
        {
            &&& 0 <= k < pre_s.len()
            &&& (#[trigger] pre_s[k]).id == parent_id
            &&& post_s == pre_s.update(k, bumped(pre_s[k], now))
        };
    let t_old = pre_s[k];
    let t_new = bumped(t_old, now);
    let ord_pre = ordered_of(pre_s);
    let ord_post = ordered_of(post_s);
    lemma_ordered_of_contains(pre_s);
    lemma_ordered_of_contains(post_s);
    lemma_ordered_of_sorted(pre_s);
    lemma_ordered_of_sorted(post_s);
    assert forall|j: int| 0 <= j < post_s.len() implies (#[trigger] post_s[j]).id
        == pre_s[j].id by {}
    // The entry at i_pre is the old parent row itself: pre's ids are
    // unique, so only position k of pre_s carries parent_id.
    assert(ord_pre.contains(ord_pre[i_pre]));
    assert(pre_s.contains(ord_pre[i_pre]));
    let m1 = choose|m: int| 0 <= m < pre_s.len() && pre_s[m] == ord_pre[i_pre];
    if m1 < k {
        assert(pre_s[m1].id < pre_s[k].id);
    } else if m1 > k {
        assert(pre_s[k].id < pre_s[m1].id);
    }
    assert(ord_pre[i_pre] == t_old);
    // Likewise the entry at i_post is the bumped parent row.
    assert(ord_post.contains(ord_post[i_post]));
    assert(post_s.contains(ord_post[i_post]));
    let m2 = choose|m: int| 0 <= m < post_s.len() && post_s[m] == ord_post[i_post];
    if m2 < k {
        assert(pre_s[m2].id < pre_s[k].id);
    } else if m2 > k {
        assert(pre_s[k].id < pre_s[m2].id);
    }
    assert(ord_post[i_post] == t_new);
    let strict_old = |y: Thread| strictly_more_recent(y, t_old);
    let weak_new = |y: Thread| more_recent_eq(y, t_new);
    // In the old ordering, everything from i_pre on is not strictly
    // before the parent, so at most i_pre entries are.
    assert forall|j: int| i_pre <= j < ord_pre.len() implies !strict_old(
        #[trigger] ord_pre[j],
    ) by {
        if j > i_pre {
            assert(more_recent_eq(ord_pre[i_pre], ord_pre[j]));
        }
    }
    lemma_count_bound_above(ord_pre, strict_old, i_pre);
    // In the new ordering, everything up to and including i_post is at
    // least as recent as the bumped parent, so more than i_post entries are.
    assert forall|j: int| 0 <= j < i_post + 1 implies weak_new(#[trigger] ord_post[j]) by {
        if j < i_post {
            assert(more_recent_eq(ord_post[j], ord_post[i_post]));
        }
    }
    lemma_count_bound_below(ord_post, weak_new, i_post + 1);
    lemma_count_ordered(pre_s, strict_old);
    lemma_count_ordered(post_s, weak_new);
    // Row for row (the parent aside), being at least as recent as the
    // bumped parent entails being strictly before the old parent.
    assert forall|j: int| 0 <= j < post_s.len() && j != k implies (weak_new(
        #[trigger] post_s[j],
    ) ==> strict_old(pre_s[j])) by {
        assert(post_s[j] == pre_s[j]);
        if j < k {
            assert(pre_s[j].id < pre_s[k].id);
        } else {
            assert(pre_s[k].id < pre_s[j].id);
        }
    }
    lemma_count_le_except(pre_s, post_s, strict_old, weak_new, k);
    assert(i_post + 1 <= count_matching(post_s, weak_new));
    assert(count_matching(post_s, weak_new) <= count_matching(pre_s, strict_old) + 1);
    assert(count_matching(pre_s, strict_old) <= i_pre);
}

/// `total_pages` is the exact ceiling of `total / size`: all threads fit
/// on that many pages, one page fewer would not hold them, and the count
/// is zero exactly when the board is empty.
pub proof fn lemma_total_pages_is_ceil(total: int, size: int)
    requires
        total >= 0,
        size >= 1,
    ensures
        spec_total_pages(total, size) * size >= total,
        total > 0 ==> (spec_total_pages(total, size) - 1) * size < total,
        spec_total_pages(total, size) == 0 <==> total == 0,
{
    if total > 0 {
        let q = (total + size - 1) / size;
        let rem = (total + size - 1) % size;
        assert(total + size - 1 == q * size + rem && 0 <= rem < size && q * size >= total && (q - 1)
            * size < total && q >= 1) by (nonlinear_arith)
            requires
                total >= 1,
                size >= 1,
                q == (total + size - 1) / size,
                rem == (total + size - 1) % size,
        ;
    }
}

/// A page past the data comes back empty, while `total_pages` still
/// reflects the true thread count — in particular it stays non-zero
/// whenever any thread exists.
pub proof fn lemma_page_beyond_data(threads: Seq<Thread>, page: int, size: int)
    requires
        size >= 1,
        page > spec_total_pages(threads.len() as int, size),
    ensures
        page_slice(ordered_of(threads), page, size).len() == 0,
        threads.len() > 0 ==> spec_total_pages(threads.len() as int, size) >= 1,
{
    let total = threads.len() as int;
    let tp = spec_total_pages(total, size);
    lemma_ordered_of_contains(threads);
    lemma_total_pages_is_ceil(total, size);
    assert((page - 1) * size >= tp * size) by (nonlinear_arith)
        requires
            page - 1 >= tp,
            size >= 1,
    ;
    assert((page - 1) * size >= total);
}

/// The replies shown for a thread are exactly rows of the stored reply
/// list that belong to it, kept in stored order.
pub proof fn lemma_replies_of_members(s: Seq<Reply>, parent_id: u64)
    ensures
        forall|i: int|
            0 <= i < replies_of(s, parent_id).len() ==> (#[trigger] replies_of(s, parent_id)[i]).parent_id
                == parent_id,
        forall|i: int|
            0 <= i < replies_of(s, parent_id).len() ==> s.contains(
                #[trigger] replies_of(s, parent_id)[i],
            ),
    decreases s.len(),
{
    if s.len() == 0 {
    } else {
        let s1 = s.drop_last();
        lemma_replies_of_members(s1, parent_id);
        let out = replies_of(s, parent_id);
        let rest = replies_of(s1, parent_id);
        assert forall|i: int| 0 <= i < out.len() implies s.contains(#[trigger] out[i])
            && out[i].parent_id == parent_id by {
            if s.last().parent_id == parent_id && i == out.len() - 1 {
                assert(out[i] == s.last());
                assert(s[s.len() - 1] == s.last());
                assert(s.contains(out[i]));
            } else {
                assert(out[i] == rest[i]);
                assert(s1.contains(rest[i]));
                let m = choose|m: int| 0 <= m < s1.len() && s1[m] == rest[i];
                assert(s1[m] == s[m]);
                assert(s.contains(out[i]));
            }
        }
    }
}

/// Viewing a thread never reorders its replies: when the stored reply
/// list is in creation (ascending id) order, so is the list shown for
/// any thread.
pub proof fn lemma_replies_in_order(s: Seq<Reply>, parent_id: u64)
    requires
        reply_ids_increasing(s),
    ensures
        reply_ids_increasing(replies_of(s, parent_id)),
    decreases s.len(),
{
    if s.len() == 0 {
    } else {
        let s1 = s.drop_last();
        assert forall|i: int, j: int| 0 <= i < j < s1.len() implies (#[trigger] s1[i]).id < (
        #[trigger] s1[j]).id by {
            assert(s1[i] == s[i] && s1[j] == s[j]);
        }
        lemma_replies_in_order(s1, parent_id);
        lemma_replies_of_members(s1, parent_id);
        let out = replies_of(s, parent_id);
        let rest = replies_of(s1, parent_id);
        assert forall|i: int, j: int| 0 <= i < j < out.len() implies (#[trigger] out[i]).id < (
        #[trigger] out[j]).id by {
            if s.last().parent_id == parent_id && j == out.len() - 1 {
                assert(out[i] == rest[i]);
                assert(s1.contains(rest[i]));
                let m = choose|m: int| 0 <= m < s1.len() && s1[m] == rest[i];
                assert(s[m] == s1[m]);
                assert(s[m].id < s[s.len() - 1].id);
                assert(out[j] == s.last());
            } else {
                assert(out[i] == rest[i] && out[j] == rest[j]);
            }
        }
    }
}

} // verus!
