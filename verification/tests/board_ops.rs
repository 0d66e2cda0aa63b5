use thread_board::Board;
use thread_board::BoardError;

fn board_with(titles_and_times: &[(&str, i64)]) -> Board {
    let mut b = Board::new();
    for (title, t) in titles_and_times {
        let r = b.create_thread_at(title.to_string(), format!("body of {}", title), *t);
        assert!(r.is_ok());
    }
    b
}

#[test]
fn create_thread_assigns_fresh_ids() {
    let mut b = Board::new();
    let t1 = b.create_thread_at("first".to_string(), "m1".to_string(), 100).unwrap();
    let t2 = b.create_thread_at("second".to_string(), "m2".to_string(), 200).unwrap();
    assert_eq!(t1.id, 1);
    assert_eq!(t2.id, 2);
    assert_eq!(t1.title, "first");
    assert_eq!(t1.message, "m1");
    assert_eq!(t1.last_updated, 100);
    assert_eq!(b.threads.len(), 2);
}

#[test]
fn first_page_shows_most_recently_active_first() {
    let b = board_with(&[("a", 10), ("b", 30), ("c", 20)]);
    let page = b.list_page(Some(1));
    assert_eq!(page.threads.len(), 3);
    assert_eq!(page.threads[0].title, "b");
    assert_eq!(page.threads[1].title, "c");
    assert_eq!(page.threads[2].title, "a");
}

#[test]
fn equal_activity_breaks_ties_by_higher_id() {
    let b = board_with(&[("older", 50), ("newer", 50)]);
    let page = b.list_page(None);
    assert_eq!(page.threads[0].title, "newer");
    assert_eq!(page.threads[0].id, 2);
    assert_eq!(page.threads[1].title, "older");
}

#[test]
fn reply_advances_parent_activity_and_ordering() {
    // Create thread "A" at t=1, thread "B" at t=2, reply to "A" at t=3:
    // the listing order becomes ["A", "B"].
    let mut b = board_with(&[("A", 1), ("B", 2)]);
    let before = b.threads[0].last_updated;
    let rep = b.create_reply_at(1, "bump".to_string(), 3).unwrap();
    assert_eq!(rep.parent_id, 1);
    assert!(b.threads[0].last_updated >= before);
    assert!(b.threads[0].last_updated >= 3);
    let page = b.list_page(None);
    assert_eq!(page.threads[0].title, "A");
    assert_eq!(page.threads[1].title, "B");
}

#[test]
fn reply_with_earlier_clock_never_moves_activity_backwards() {
    let mut b = board_with(&[("steady", 100)]);
    let r = b.create_reply_at(1, "late clock".to_string(), 40);
    assert!(r.is_ok());
    assert_eq!(b.threads[0].last_updated, 100);
}

#[test]
fn reply_to_missing_thread_is_invalid_parent_and_writes_nothing() {
    let mut b = board_with(&[("only", 5)]);
    let r = b.create_reply_at(42, "lost".to_string(), 6);
    assert_eq!(r.unwrap_err(), BoardError::InvalidParent);
    assert_eq!(b.replies.len(), 0);
    assert_eq!(b.threads[0].last_updated, 5);
}

#[test]
fn view_thread_returns_replies_in_ascending_id_order() {
    let mut b = board_with(&[("talk", 1), ("other", 2)]);
    b.create_reply_at(1, "one".to_string(), 3).unwrap();
    b.create_reply_at(2, "noise".to_string(), 4).unwrap();
    b.create_reply_at(1, "two".to_string(), 5).unwrap();
    b.create_reply_at(1, "three".to_string(), 6).unwrap();
    let view = b.view_thread(1).unwrap();
    assert_eq!(view.thread.title, "talk");
    assert_eq!(view.replies.len(), 3);
    assert!(view.replies[0].id < view.replies[1].id);
    assert!(view.replies[1].id < view.replies[2].id);
    assert_eq!(view.replies[0].message, "one");
    assert_eq!(view.replies[1].message, "two");
    assert_eq!(view.replies[2].message, "three");
}

#[test]
fn view_missing_thread_is_not_found() {
    let b = Board::new();
    let r = b.view_thread(7);
    assert_eq!(r.unwrap_err(), BoardError::NotFound);
}

#[test]
fn clock_stamped_operations_preserve_the_board_shape() {
    let mut b = Board::new();
    let t = b.create_thread_now("live".to_string(), "clock".to_string()).unwrap();
    assert_eq!(t.id, 1);
    let rep = b.create_reply_now(1, "ack".to_string()).unwrap();
    assert_eq!(rep.id, 1);
    assert_eq!(rep.parent_id, 1);
    assert!(b.threads[0].last_updated >= t.last_updated);
    let missing = b.create_reply_now(9, "void".to_string());
    assert_eq!(missing.unwrap_err(), BoardError::InvalidParent);
}

#[test]
fn error_descriptions_name_each_failure() {
    assert_eq!(BoardError::StoreFailure.describe(), "store failure");
    assert_eq!(BoardError::InvalidParent.describe(), "invalid parent thread");
    assert_eq!(BoardError::NotFound.describe(), "thread not found");
    assert_eq!(
        BoardError::PartialFailure.describe(),
        "reply created but thread timestamp not updated"
    );
}
