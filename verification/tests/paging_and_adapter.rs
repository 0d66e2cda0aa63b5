use thread_board::homepage_view;
use thread_board::normalize_page;
use thread_board::query_window;
use thread_board::reply_outcome;
use thread_board::thread_outcome;
use thread_board::total_pages;
use thread_board::Board;
use thread_board::BoardError;
use thread_board::InsertOutcome;
use thread_board::Reply;
use thread_board::Thread;
use thread_board::PAGE_SIZE;

fn board_of(count: u64) -> Board {
    let mut b = Board::new();
    for i in 0..count {
        let r = b.create_thread_at(format!("t{}", i + 1), "m".to_string(), (i + 1) as i64);
        assert!(r.is_ok());
    }
    b
}

#[test]
fn page_size_is_ten() {
    assert_eq!(PAGE_SIZE, 10);
}

#[test]
fn total_pages_is_the_ceiling_of_the_thread_count() {
    assert_eq!(total_pages(0, 10), 0);
    assert_eq!(total_pages(1, 10), 1);
    assert_eq!(total_pages(10, 10), 1);
    assert_eq!(total_pages(11, 10), 2);
    assert_eq!(total_pages(25, 10), 3);
    assert_eq!(total_pages(7, 0), 0);
}

#[test]
fn empty_board_lists_nothing_with_zero_pages() {
    let b = Board::new();
    let page = b.list_page(None);
    assert_eq!(page.threads.len(), 0);
    assert_eq!(page.total_pages, 0);
    assert_eq!(page.current_page, 1);
}

#[test]
fn twenty_five_threads_page_three_holds_the_five_least_recent() {
    // With page_size 10 and 25 threads, page 3 returns the 5 least
    // recently active threads and total_pages is 3.
    let b = board_of(25);
    let page = b.list_page(Some(3));
    assert_eq!(page.total_pages, 3);
    assert_eq!(page.current_page, 3);
    assert_eq!(page.threads.len(), 5);
    let ids: Vec<u64> = page.threads.iter().map(|t| t.id).collect();
    assert_eq!(ids, vec![5, 4, 3, 2, 1]);
}

#[test]
fn page_beyond_the_data_is_empty_but_counts_all_pages() {
    let b = board_of(3);
    let page = b.list_page(Some(9));
    assert_eq!(page.threads.len(), 0);
    assert_eq!(page.total_pages, 1);
    assert_eq!(page.current_page, 9);
}

#[test]
fn total_pages_is_independent_of_the_requested_page() {
    let b = board_of(25);
    let on_one = b.list_page(Some(1)).total_pages;
    let on_two = b.list_page(Some(2)).total_pages;
    let far_out = b.list_page(Some(1000)).total_pages;
    assert_eq!(on_one, 3);
    assert_eq!(on_two, 3);
    assert_eq!(far_out, 3);
}

#[test]
fn missing_or_non_positive_page_defaults_to_one() {
    assert_eq!(normalize_page(None), 1);
    assert_eq!(normalize_page(Some(0)), 1);
    assert_eq!(normalize_page(Some(-5)), 1);
    assert_eq!(normalize_page(Some(7)), 7);
}

#[test]
fn query_window_gives_offset_and_limit_for_the_store() {
    assert_eq!(query_window(None), (0, 10));
    assert_eq!(query_window(Some(1)), (0, 10));
    assert_eq!(query_window(Some(2)), (10, 10));
    assert_eq!(query_window(Some(-3)), (0, 10));
    assert_eq!(query_window(Some(i64::MAX)), (i64::MAX, 10));
}

#[test]
fn homepage_view_carries_threads_and_pagination_through() {
    let threads = vec![Thread {
        id: 4,
        title: "kept".to_string(),
        message: "as is".to_string(),
        last_updated: 9,
    }];
    let v = homepage_view(threads, Some(2), 25);
    assert_eq!(v.threads.len(), 1);
    assert_eq!(v.threads[0].title, "kept");
    assert_eq!(v.current_page, 2);
    assert_eq!(v.total_pages, 3);
    let w = homepage_view(Vec::new(), None, -4);
    assert_eq!(w.total_pages, 0);
    assert_eq!(w.current_page, 1);
}

#[test]
fn thread_outcome_maps_a_missing_thread_to_not_found() {
    let r = thread_outcome(None, Vec::new());
    assert_eq!(r.unwrap_err(), BoardError::NotFound);
    let t = Thread { id: 1, title: "t".to_string(), message: "m".to_string(), last_updated: 0 };
    let replies = vec![Reply { id: 1, parent_id: 1, message: "r".to_string() }];
    let view = thread_outcome(Some(t), replies).unwrap();
    assert_eq!(view.thread.id, 1);
    assert_eq!(view.replies.len(), 1);
    assert_eq!(view.replies[0].message, "r");
}

#[test]
fn reply_outcome_distinguishes_each_store_failure() {
    assert_eq!(
        reply_outcome(InsertOutcome::Failed, false).unwrap_err(),
        BoardError::StoreFailure
    );
    assert_eq!(
        reply_outcome(InsertOutcome::Failed, true).unwrap_err(),
        BoardError::StoreFailure
    );
    assert_eq!(
        reply_outcome(InsertOutcome::ParentMissing, false).unwrap_err(),
        BoardError::InvalidParent
    );
    assert_eq!(
        reply_outcome(InsertOutcome::Inserted, false).unwrap_err(),
        BoardError::PartialFailure
    );
    assert!(reply_outcome(InsertOutcome::Inserted, true).is_ok());
}
