//! The board itself: the two row collections, their invariant, and the
//! four operations the request handlers need — list a page of threads,
//! view one thread with its replies, create a thread, create a reply.
//!
//! Reply creation updates the reply row and the parent thread's activity
//! timestamp in one step, so a reply can never be observed without its
//! bump; a reply to a nonexistent thread is rejected outright.

use vstd::prelude::*;

use crate::adapter::HomepageView;
use crate::adapter::ThreadView;
use crate::errors::BoardError;
use crate::model::bumped;
use crate::model::reply_ids_increasing;
use crate::model::thread_ids_increasing;
use crate::model::Reply;
use crate::model::Thread;
use crate::ordering::ordered_of;
use crate::ordering::sorted_threads;
use crate::pagination::normal_page;
use crate::pagination::normalize_page;
use crate::pagination::page_slice;
use crate::pagination::spec_total_pages;
use crate::pagination::take_page;
use crate::pagination::total_pages;
use crate::pagination::PAGE_SIZE;

verus! {

/// The whole persistent state of the service: every thread and every
/// reply, plus the two id counters the store assigns from.
pub struct Board {
    pub threads: Vec<Thread>,
    pub replies: Vec<Reply>,
    pub next_thread_id: u64,
    pub next_reply_id: u64,
}

impl Board {
    /// Some thread on the board has this id.
    pub open spec fn has_thread(&self, id: u64) -> bool {
        exists|i: int|
            0 <= i < self.threads@.len() && (#[trigger] self.threads@[i]).id == id
    }

    /// The board's invariant: rows sit in creation order with strictly
    /// increasing ids, every id is positive and below its counter, and
    /// every reply's parent thread exists.
    pub open spec fn wf(&self) -> bool {
        &&& 1 <= self.next_thread_id
        &&& 1 <= self.next_reply_id
        &&& thread_ids_increasing(self.threads@)
        &&& reply_ids_increasing(self.replies@)
        &&& forall|i: int|
            0 <= i < self.threads@.len() ==> 1 <= (#[trigger] self.threads@[i]).id
                < self.next_thread_id
        &&& forall|i: int|
            0 <= i < self.replies@.len() ==> 1 <= (#[trigger] self.replies@[i]).id
                < self.next_reply_id
        &&& forall|i: int|
            0 <= i < self.replies@.len() ==> self.has_thread(
                (#[trigger] self.replies@[i]).parent_id,
            )
    }

    /// An empty board.
    pub fn new() -> (b: Board)
        ensures
            b.wf(),
            b.threads@.len() == 0,
            b.replies@.len() == 0,
            b.next_thread_id == 1,
            b.next_reply_id == 1,
    {
        Board { threads: Vec::new(), replies: Vec::new(), next_thread_id: 1, next_reply_id: 1 }
    }

    /// The position of the thread with this id, if any.
    pub(crate) fn find_thread(&self, id: u64) -> (r: Option<usize>)
        ensures
            match r {
                Some(k) => k < self.threads@.len() && self.threads@[k as int].id == id,
                None => !self.has_thread(id),
            },
    {
        let mut i: usize = 0;
        while i < self.threads.len()
            invariant
                0 <= i <= self.threads@.len(),
                forall|j: int| 0 <= j < i ==> (#[trigger] self.threads@[j]).id != id,
            decreases self.threads@.len() - i,
        {
            if self.threads[i].id == id {
                return Some(i);
            }
            i = i + 1;
        }
        None
    }

    /// Creates a thread with a fresh id and `now` as its first activity
    /// timestamp, and returns the created row. Fails only when the id
    /// space is exhausted.
    pub fn create_thread_at(&mut self, title: String, message: String, now: i64) -> (r: Result<
        Thread,
        BoardError,
    >)
        requires
            old(self).wf(),
        ensures
            final(self).wf(),
            create_thread_post(*old(self), *final(self), title, message, now, r),
    {
        if self.next_thread_id == u64::MAX {
            return Err(BoardError::StoreFailure);
        }
        let t = Thread { id: self.next_thread_id, title, message, last_updated: now };
        let out = t.clone();
        self.threads.push(t);
        self.next_thread_id = self.next_thread_id + 1;
        proof {
            assert forall|i: int, j: int| 0 <= i < j < self.threads@.len() implies (
            #[trigger] self.threads@[i]).id < (#[trigger] self.threads@[j]).id by {
                if j < self.threads@.len() - 1 {
                    assert(old(self).threads@[i].id < old(self).threads@[j].id);
                } else {
                    assert(old(self).threads@[i].id < old(self).next_thread_id);
                }
            }
            assert forall|i: int| 0 <= i < self.threads@.len() implies 1 <= (
            #[trigger] self.threads@[i]).id < self.next_thread_id by {
                if i < self.threads@.len() - 1 {
                    assert(1 <= old(self).threads@[i].id < old(self).next_thread_id);
                }
            }
            assert forall|i: int| 0 <= i < self.replies@.len() implies self.has_thread(
                (#[trigger] self.replies@[i]).parent_id,
            ) by {
                assert(old(self).has_thread(old(self).replies@[i].parent_id));
                let m = choose|m: int|
                    0 <= m < old(self).threads@.len() && (#[trigger] old(self).threads@[m]).id
                        == old(self).replies@[i].parent_id;
                assert((self.threads@[m]).id == self.replies@[i].parent_id);
            }
        }
        Ok(out)
    }

    /// Creates a reply under an existing thread and, in the same step,
    /// advances the parent thread's activity timestamp to `now` (or
    /// leaves it alone if it is already later). Returns the created row.
    /// A nonexistent parent is rejected as `InvalidParent` and writes
    /// nothing.
    pub fn create_reply_at(&mut self, parent_id: u64, message: String, now: i64) -> (r: Result<
        Reply,
        BoardError,
    >)
        requires
            old(self).wf(),
        ensures
            final(self).wf(),
            create_reply_post(*old(self), *final(self), parent_id, message, now, r),
            r is Ok <==> old(self).has_thread(parent_id) && old(self).next_reply_id < u64::MAX,
    {
        let k = match self.find_thread(parent_id) {
            None => {
                return Err(BoardError::InvalidParent);
            },
            Some(k) => k,
        };
        if self.next_reply_id == u64::MAX {
            return Err(BoardError::StoreFailure);
        }
        let rep = Reply { id: self.next_reply_id, parent_id, message };
        let out = rep.clone();
        self.replies.push(rep);
        self.next_reply_id = self.next_reply_id + 1;
        let t = self.threads[k].clone();
        let new_lu = if now >= t.last_updated {
            now
        } else {
            t.last_updated
        };
        let bumped_t = Thread { last_updated: new_lu, ..t };
        self.threads.set(k, bumped_t);
        proof {
            let pre = *old(self);
            let post = *self;
            assert(post.threads@[k as int] == bumped(pre.threads@[k as int], now));
            assert(post.threads@ == pre.threads@.update(k as int, bumped(pre.threads@[k as int], now)));
            assert forall|i: int| 0 <= i < post.threads@.len() implies (
            #[trigger] post.threads@[i]).id == pre.threads@[i].id by {}
            assert forall|i: int, j: int| 0 <= i < j < post.threads@.len() implies (
            #[trigger] post.threads@[i]).id < (#[trigger] post.threads@[j]).id by {
                assert(pre.threads@[i].id < pre.threads@[j].id);
            }
            assert forall|i: int, j: int| 0 <= i < j < post.replies@.len() implies (
            #[trigger] post.replies@[i]).id < (#[trigger] post.replies@[j]).id by {
                if j < post.replies@.len() - 1 {
                    assert(pre.replies@[i].id < pre.replies@[j].id);
                } else {
                    assert(pre.replies@[i].id < pre.next_reply_id);
                }
            }
            assert forall|i: int| 0 <= i < post.threads@.len() implies 1 <= (
            #[trigger] post.threads@[i]).id < post.next_thread_id by {
                assert(1 <= pre.threads@[i].id < pre.next_thread_id);
            }
            assert forall|i: int| 0 <= i < post.replies@.len() implies 1 <= (
            #[trigger] post.replies@[i]).id < post.next_reply_id by {
                if i < post.replies@.len() - 1 {
                    assert(1 <= pre.replies@[i].id < pre.next_reply_id);
                }
            }
            assert forall|idv: u64| pre.has_thread(idv) implies post.has_thread(idv) by {
                let i = choose|i: int|
                    0 <= i < pre.threads@.len() && (#[trigger] pre.threads@[i]).id == idv;
                assert((post.threads@[i]).id == idv);
            }
            assert forall|i: int| 0 <= i < post.replies@.len() implies post.has_thread(
                (#[trigger] post.replies@[i]).parent_id,
            ) by {
                if i < post.replies@.len() - 1 {
                    assert(pre.has_thread(pre.replies@[i].parent_id));
                } else {
                    assert(pre.has_thread(parent_id));
                }
            }
        }
        Ok(out)
    }

    /// The thread with this id and its replies in chronological
    /// (ascending id) order, or `NotFound` if no such thread exists.
    pub fn view_thread(&self, id: u64) -> (r: Result<ThreadView, BoardError>)
        ensures
            match r {
                Ok(v) => {
                    &&& self.has_thread(id)
                    &&& exists|k: int|
                        0 <= k < self.threads@.len() && (#[trigger] self.threads@[k]).id == id
                            && v.thread == self.threads@[k]
                    &&& v.replies@ == replies_of(self.replies@, id)
                },
                Err(e) => e == BoardError::NotFound && !self.has_thread(id),
            },
    {
        match self.find_thread(id) {
            None => Err(BoardError::NotFound),
            Some(k) => {
                let thread = self.threads[k].clone();
                let replies = collect_replies(&self.replies, id);
                let ghost kk = k as int;
                proof {
                    assert(0 <= kk < self.threads@.len() && (self.threads@[kk]).id == id
                        && thread == self.threads@[kk]);
                }
                Ok(ThreadView { thread, replies })
            },
        }
    }

    /// One page of the thread list in display order — most recently
    /// active first, ties broken by higher id — together with the page
    /// shown and the total page count. A pure read: any page number can
    /// be asked for, and one past the data simply comes back empty.
    pub fn list_page(&self, page: Option<i64>) -> (r: HomepageView)
        ensures
            r.threads@ == page_slice(
                ordered_of(self.threads@),
                normal_page(page) as int,
                PAGE_SIZE as int,
            ),
            r.current_page == normal_page(page),
            r.total_pages == spec_total_pages(self.threads@.len() as int, PAGE_SIZE as int),
    {
        let p = normalize_page(page);
        let sorted = sorted_threads(&self.threads);
        let slice = take_page(&sorted, p, PAGE_SIZE as u64);
        let tp = total_pages(self.threads.len() as u64, PAGE_SIZE as u64);
        HomepageView { threads: slice, current_page: p, total_pages: tp }
    }
}

/// What a successful or failed thread creation leaves behind: on `Ok`,
/// exactly one new thread row at the end with the next id and `now` as
/// its activity timestamp; on failure (only id exhaustion), nothing.
pub open spec fn create_thread_post(
    pre: Board,
    post: Board,
    title: String,
    message: String,
    now: i64,
    r: Result<Thread, BoardError>,
) -> bool {
    match r {
        Ok(t) => {
            &&& pre.next_thread_id < u64::MAX
            &&& t.id == pre.next_thread_id
            &&& t.title == title
            &&& t.message == message
            &&& t.last_updated == now
            &&& post.threads@ == pre.threads@.push(t)
            &&& post.replies@ == pre.replies@
            &&& post.next_thread_id == pre.next_thread_id + 1
            &&& post.next_reply_id == pre.next_reply_id
        },
        Err(e) => {
            &&& e == BoardError::StoreFailure
            &&& pre.next_thread_id == u64::MAX
            &&& post == pre
        },
    }
}

/// What a successful or failed reply creation leaves behind: on `Ok`,
/// exactly one new reply row at the end and the parent thread's activity
/// timestamp advanced to at least `now` and at least its old value, with
/// every other row untouched; on failure, nothing — in particular, a
/// reply to a nonexistent thread is `InvalidParent` and writes no row.
pub open spec fn create_reply_post(
    pre: Board,
    post: Board,
    parent_id: u64,
    message: String,
    now: i64,
    r: Result<Reply, BoardError>,
) -> bool {
    match r {
        Ok(rep) => {
            &&& pre.has_thread(parent_id)
            &&& pre.next_reply_id < u64::MAX
            &&& rep.id == pre.next_reply_id
            &&& rep.parent_id == parent_id
            &&& rep.message == message
            &&& post.replies@ == pre.replies@.push(rep)
            &&& post.next_reply_id == pre.next_reply_id + 1
            &&& post.next_thread_id == pre.next_thread_id
            &&& exists|k: int|
                {
                    &&& 0 <= k < pre.threads@.len()
                    &&& (#[trigger] pre.threads@[k]).id == parent_id
                    &&& post.threads@ == pre.threads@.update(k, bumped(pre.threads@[k], now))
                }
        },
        Err(e) => {
            &&& post == pre
            &&& (e == BoardError::InvalidParent <==> !pre.has_thread(parent_id))
            &&& (e == BoardError::StoreFailure ==> pre.next_reply_id == u64::MAX)
            &&& (e == BoardError::InvalidParent || e == BoardError::StoreFailure)
        },
    }
}

/// The replies that belong to one thread, in stored (creation) order.
pub open spec fn replies_of(s: Seq<Reply>, parent_id: u64) -> Seq<Reply>
    decreases s.len(),
{
    if s.len() == 0 {
        Seq::empty()
    } else {
        let rest = replies_of(s.drop_last(), parent_id);
        if s.last().parent_id == parent_id {
            rest.push(s.last())
        } else {
            rest
        }
    }
}

/// Copies the replies of one thread out of the stored reply list,
/// keeping their order.
pub fn collect_replies(v: &Vec<Reply>, parent_id: u64) -> (r: Vec<Reply>)
    ensures
        r@ == replies_of(v@, parent_id),
{
    let mut r: Vec<Reply> = Vec::new();
    let mut i: usize = 0;
    while i < v.len()
        invariant
            0 <= i <= v@.len(),
            r@ == replies_of(v@.subrange(0, i as int), parent_id),
        decreases v@.len() - i,
    {
        proof {
            let cur = v@.subrange(0, i + 1int);
            assert(cur.drop_last() =~= v@.subrange(0, i as int));
            assert(cur.last() == v@[i as int]);
        }
        if v[i].parent_id == parent_id {
            r.push(v[i].clone());
        }
        i = i + 1;
    }
    proof {
        assert(v@.subrange(0, v@.len() as int) =~= v@);
    }
    r
}

} // verus!
