//! Render-ready view models, and the decision logic of the request
//! handlers: everything a handler computes between its store calls,
//! stated over plain values so the surrounding I/O stays elsewhere.

use vstd::prelude::*;

use crate::errors::BoardError;
use crate::model::Reply;
use crate::model::Thread;
use crate::pagination::normal_page;
use crate::pagination::normalize_page;
use crate::pagination::spec_total_pages;
use crate::pagination::total_pages;
use crate::pagination::PAGE_SIZE;

verus! {

/// What the list page renders: one page of threads in display order,
/// the page being shown, and how many pages there are in all.
#[derive(Debug)]
pub struct HomepageView {
    pub threads: Vec<Thread>,
    pub current_page: i64,
    pub total_pages: u64,
}

/// What the thread page renders: the thread and its replies in
/// chronological (ascending id) order.
#[derive(Debug)]
pub struct ThreadView {
    pub thread: Thread,
    pub replies: Vec<Reply>,
}

/// Builds the list-page view model from an already-fetched page of
/// threads and the full thread count. A negative count (which a store
/// cannot actually report) counts as zero.
pub fn homepage_view(threads: Vec<Thread>, page: Option<i64>, total_threads: i64) -> (r:
    HomepageView)
    ensures
        r.threads@ == threads@,
        r.current_page == normal_page(page),
        r.total_pages == spec_total_pages(total_threads as int, PAGE_SIZE as int),
{
    let total: u64 = if total_threads >= 0 {
        total_threads as u64
    } else {
        0
    };
    let tp = total_pages(total, PAGE_SIZE as u64);
    HomepageView { threads, current_page: normalize_page(page), total_pages: tp }
}

/// Decides the thread page from the store's answers: a missing thread is
/// reported as `NotFound`, a found one is shown with its replies.
pub fn thread_outcome(found: Option<Thread>, replies: Vec<Reply>) -> (r: Result<
    ThreadView,
    BoardError,
>)
    ensures
        match found {
            Some(t) => r is Ok && r->Ok_0.thread == t && r->Ok_0.replies@ == replies@,
            None => r == Err::<ThreadView, BoardError>(BoardError::NotFound),
        },
{
    match found {
        Some(t) => Ok(ThreadView { thread: t, replies }),
        None => Err(BoardError::NotFound),
    }
}

/// How a real store answered the reply-row insert.
#[derive(Debug, Clone, Copy, PartialEq, Eq, Structural)]
pub enum InsertOutcome {
    /// The row was written.
    Inserted,
    /// The store rejected the row because its parent thread does not
    /// exist (a referential violation).
    ParentMissing,
    /// The store failed for any other reason.
    Failed,
}

/// Decides the outcome of the two-step reply creation against a real
/// store: a referential violation on the insert is the client-visible
/// `InvalidParent`, any other failed insert is a `StoreFailure`, and in
/// either case the timestamp bump is never attempted; a failed bump
/// after a successful insert leaves the reply in place and is surfaced
/// as `PartialFailure`.
pub fn reply_outcome(insert: InsertOutcome, update_ok: bool) -> (r: Result<(), BoardError>)
    ensures
        r == match insert {
            InsertOutcome::Inserted => if update_ok {
                Ok::<(), BoardError>(())
            } else {
                Err(BoardError::PartialFailure)
            },
            InsertOutcome::ParentMissing => Err(BoardError::InvalidParent),
            InsertOutcome::Failed => Err(BoardError::StoreFailure),
        },
{
    match insert {
        InsertOutcome::Inserted => if update_ok {
            Ok(())
        } else {
            Err(BoardError::PartialFailure)
        },
        InsertOutcome::ParentMissing => Err(BoardError::InvalidParent),
        InsertOutcome::Failed => Err(BoardError::StoreFailure),
    }
}

/// The row offset of a page, saturated at `i64::MAX`: any offset at or
/// past the end of the data selects nothing, so saturation never changes
/// which rows a store returns.
pub open spec fn spec_page_offset(page: Option<i64>, size: i64) -> i64 {
    if size < 1 {
        0
    } else if (normal_page(page) - 1) * size > i64::MAX {
        i64::MAX
    } else {
        ((normal_page(page) - 1) * size) as i64
    }
}

/// The `(offset, limit)` pair for the store query behind the list page.
pub fn query_window(page: Option<i64>) -> (r: (i64, i64))
    ensures
        r.0 == spec_page_offset(page, PAGE_SIZE),
        r.1 == PAGE_SIZE,
{
    let p = normalize_page(page);
    let off = if p - 1 > i64::MAX / PAGE_SIZE {
        i64::MAX
    } else {
        (p - 1) * PAGE_SIZE
    };
    (off, PAGE_SIZE)
}

} // verus!
