//! A minimal discussion-board core: threads ordered by recent activity,
//! offset-based pagination, and reply creation that bumps the parent
//! thread's activity timestamp.

pub mod adapter;
pub mod board;
pub mod clock;
pub mod errors;
pub mod laws;
pub mod model;
pub mod ordering;
pub mod pagination;

pub use adapter::homepage_view;
pub use adapter::query_window;
pub use adapter::reply_outcome;
pub use adapter::thread_outcome;
pub use adapter::HomepageView;
pub use adapter::InsertOutcome;
pub use adapter::ThreadView;
pub use board::collect_replies;
pub use board::Board;
pub use errors::BoardError;
pub use model::Reply;
pub use model::Thread;
pub use pagination::normalize_page;
pub use pagination::total_pages;
pub use pagination::PAGE_SIZE;
