//! The two row types of the board — threads and replies — together with
//! the recency ordering used to list threads.

use vstd::prelude::*;

verus! {

/// A top-level discussion topic. `last_updated` is the Unix timestamp of
/// the thread's most recent activity: its creation, or its latest reply.
#[derive(Debug)]
pub struct Thread {
    pub id: u64,
    pub title: String,
    pub message: String,
    pub last_updated: i64,
}

/// A reply attached to exactly one thread. Reply ids are assigned in
/// creation order, so ascending id is chronological order.
#[derive(Debug)]
pub struct Reply {
    pub id: u64,
    pub parent_id: u64,
    pub message: String,
}

impl Clone for Thread {
    fn clone(&self) -> (res: Self)
        ensures
            res == *self,
    {
        Thread {
            id: self.id,
            title: self.title.clone(),
            message: self.message.clone(),
            last_updated: self.last_updated,
        }
    }
}

impl Clone for Reply {
    fn clone(&self) -> (res: Self)
        ensures
            res == *self,
    {
        Reply { id: self.id, parent_id: self.parent_id, message: self.message.clone() }
    }
}

/// The display order of the thread list: `a` comes no later than `b` when
/// `a` has been active more recently, with ties broken by higher id.
pub open spec fn more_recent_eq(a: Thread, b: Thread) -> bool {
    a.last_updated > b.last_updated || (a.last_updated == b.last_updated && a.id >= b.id)
}

/// `more_recent_eq`, decided executably.
pub fn more_recent_eq_exec(a: &Thread, b: &Thread) -> (r: bool)
    ensures
        r == more_recent_eq(*a, *b),
{
    a.last_updated > b.last_updated || (a.last_updated == b.last_updated && a.id >= b.id)
}

/// `a` comes strictly before `b` in the display order: more recently
/// active, or equally recent with a higher id. This holds exactly when
/// `more_recent_eq(b, a)` fails.
pub open spec fn strictly_more_recent(a: Thread, b: Thread) -> bool {
    a.last_updated > b.last_updated || (a.last_updated == b.last_updated && a.id > b.id)
}

/// A thread sequence is stored in creation order: ids strictly increase.
pub open spec fn thread_ids_increasing(s: Seq<Thread>) -> bool {
    forall|i: int, j: int|
        0 <= i < j < s.len() ==> #[trigger] s[i].id < #[trigger] s[j].id
}

/// A reply sequence is stored in creation order: ids strictly increase.
pub open spec fn reply_ids_increasing(s: Seq<Reply>) -> bool {
    forall|i: int, j: int|
        0 <= i < j < s.len() ==> #[trigger] s[i].id < #[trigger] s[j].id
}

/// The thread `t` after its activity is bumped at time `now`: the
/// timestamp advances to `now` unless it is already later.
pub open spec fn bumped(t: Thread, now: i64) -> Thread {
    Thread { last_updated: if now >= t.last_updated { now } else { t.last_updated }, ..t }
}

} // verus!
