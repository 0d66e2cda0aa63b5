//! The wall clock, and the board operations that stamp rows with it.
//!
//! The clock's reading is outside the model: nothing is promised of the
//! value, a read can fail (a system clock set before the Unix epoch),
//! and each operation here states what holds of the board whatever came
//! back — a failed read writes nothing and is surfaced as a store
//! failure.

use vstd::prelude::*;

use crate::board::create_reply_post;
use crate::board::create_thread_post;
use crate::board::Board;
use crate::errors::BoardError;
use crate::model::Reply;
use crate::model::Thread;

verus! {

/// Relies on std's `SystemTime::now` and `duration_since`: the current
/// wall-clock time as Unix seconds, or `None` when the clock reads
/// before the Unix epoch or past the representable range. Neither call
/// panics, and nothing is promised of the value.
#[verifier::external_body]
fn unix_now() -> Option<i64> {
    std::time::SystemTime::now()
        .duration_since(std::time::UNIX_EPOCH)
        .ok()
        .and_then(|d| i64::try_from(d.as_secs()).ok())
}

impl Board {
    /// Creates a thread stamped with the current wall-clock time. An
    /// unreadable clock writes nothing and is a `StoreFailure`, like any
    /// other failed insert.
    pub fn create_thread_now(&mut self, title: String, message: String) -> (r: Result<
        Thread,
        BoardError,
    >)
        requires
            old(self).wf(),
        ensures
            final(self).wf(),
            (exists|now: i64|
                #[trigger] create_thread_post(*old(self), *final(self), title, message, now, r))
                || (r == Err::<Thread, BoardError>(BoardError::StoreFailure) && *final(self)
                == *old(self)),
            r is Err ==> r == Err::<Thread, BoardError>(BoardError::StoreFailure) && *final(self)
                == *old(self),
    {
        let now = match unix_now() {
            None => {
                return Err(BoardError::StoreFailure);
            },
            Some(now) => now,
        };
        let r = self.create_thread_at(title, message, now);
        proof {
            assert(create_thread_post(*old(self), *self, title, message, now, r));
        }
        r
    }

    /// Creates a reply stamped with the current wall-clock time, bumping
    /// the parent thread's activity timestamp in the same step. A
    /// nonexistent parent is always `InvalidParent`; an unreadable clock
    /// writes nothing and is a `StoreFailure`.
    pub fn create_reply_now(&mut self, parent_id: u64, message: String) -> (r: Result<
        Reply,
        BoardError,
    >)
        requires
            old(self).wf(),
        ensures
            final(self).wf(),
            (exists|now: i64|
                #[trigger] create_reply_post(*old(self), *final(self), parent_id, message, now, r))
                || (r == Err::<Reply, BoardError>(BoardError::StoreFailure) && *final(self)
                == *old(self) && old(self).has_thread(parent_id)),
            r == Err::<Reply, BoardError>(BoardError::InvalidParent) <==> !old(self).has_thread(
                parent_id,
            ),
            r is Err ==> *final(self) == *old(self),
            r is Ok ==> old(self).has_thread(parent_id) && old(self).next_reply_id < u64::MAX,
    {
        if self.find_thread(parent_id).is_none() {
            let r = Err::<Reply, BoardError>(BoardError::InvalidParent);
            proof {
                assert(create_reply_post(*old(self), *self, parent_id, message, 0, r));
            }
            return r;
        }
        let now = match unix_now() {
            None => {
                return Err(BoardError::StoreFailure);
            },
            Some(now) => now,
        };
        let r = self.create_reply_at(parent_id, message, now);
        proof {
            assert(create_reply_post(*old(self), *self, parent_id, message, now, r));
        }
        r
    }
}

} // verus!
