use eventp::errors::{errno_error, should_retry, EINTR};
use eventp::interest::{interest, EPOLLIN, EPOLLOUT};
use eventp::reactor::INVALID_FD;
use eventp::{Reactor, ReactorError};

#[test]
fn new_reactor_is_empty_and_idle() {
    let r = Reactor::new();
    assert!(!r.contains(0));
    assert!(!r.contains(5));
    assert!(!r.is_handling());
    assert_eq!(r.current_fd(), INVALID_FD);
}

#[test]
fn add_registers_fd_with_its_cookie() {
    let mut r = Reactor::new();
    let replaced = r.record_add(5, interest().read(), 0xdead);
    assert!(replaced.is_none());
    assert!(r.contains(5));
    assert_eq!(r.cookie_of(5), Some(0xdead));
    assert_eq!(r.interest_of(5).unwrap().bitflags(), EPOLLIN);
    assert!(!r.contains(6));
}

#[test]
fn add_replaces_a_previous_entry() {
    let mut r = Reactor::new();
    r.record_add(5, interest().read(), 1);
    let replaced = r.record_add(5, interest().write(), 2);
    assert_eq!(replaced, Some(1));
    assert_eq!(r.cookie_of(5), Some(2));
    assert_eq!(r.interest_of(5).unwrap().bitflags(), EPOLLOUT);
}

#[test]
fn modify_updates_interest_and_keeps_cookie() {
    let mut r = Reactor::new();
    r.record_add(5, interest().read(), 77);
    r.record_modify(5, interest().write());
    assert_eq!(r.interest_of(5).unwrap().bitflags(), EPOLLOUT);
    assert_eq!(r.cookie_of(5), Some(77));
}

#[test]
fn modify_twice_with_same_interest_is_idempotent() {
    let mut r = Reactor::new();
    r.record_add(5, interest().read(), 77);
    r.record_modify(5, interest().read_write());
    let interest_once = r.interest_of(5);
    let cookie_once = r.cookie_of(5);
    r.record_modify(5, interest().read_write());
    assert_eq!(r.interest_of(5), interest_once);
    assert_eq!(r.cookie_of(5), cookie_once);
}

#[test]
fn require_registered_refuses_an_unknown_fd() {
    let mut r = Reactor::new();
    assert_eq!(r.require_registered(9), Err(ReactorError::NotFound));
    r.record_add(9, interest().read(), 90);
    assert_eq!(r.require_registered(9), Ok(90));
}

#[test]
fn delete_outside_dispatch_removes_at_once() {
    let mut r = Reactor::new();
    r.record_add(5, interest().read(), 50);
    let removed = r.record_delete(5);
    assert_eq!(removed, Some(50));
    assert!(!r.contains(5));
}

#[test]
fn delete_of_an_unknown_fd_is_silent() {
    let mut r = Reactor::new();
    let removed = r.record_delete(5);
    assert_eq!(removed, None);
    assert!(!r.contains(5));
}

#[test]
fn begin_dispatch_enters_a_fresh_batch() {
    let mut r = Reactor::new();
    r.record_add(3, interest().read(), 30);
    r.begin_dispatch();
    assert!(r.is_handling());
    assert_eq!(r.current_fd(), INVALID_FD);
    assert!(!r.is_deferred(3));
    r.set_current(3);
    assert_eq!(r.current_fd(), 3);
    let dropped = r.end_dispatch();
    assert!(dropped.is_empty());
    assert!(!r.is_handling());
    assert!(r.contains(3));
}

#[test]
fn add_of_the_current_fd_is_rejected_as_self_replacement() {
    let mut r = Reactor::new();
    r.record_add(7, interest().read(), 70);
    r.begin_dispatch();
    r.set_current(7);
    assert_eq!(r.check_add(7), Err(ReactorError::SelfReplacement));
    assert!(r.check_add(8).is_ok());
    // The rejected add changed nothing.
    assert_eq!(r.cookie_of(7), Some(70));
    r.end_dispatch();
    // Outside dispatch the same add is allowed.
    assert!(r.check_add(7).is_ok());
}

#[test]
fn delete_during_dispatch_is_deferred_until_the_batch_ends() {
    let mut r = Reactor::new();
    r.record_add(3, interest().read(), 30);
    r.record_add(4, interest().read(), 40);
    r.begin_dispatch();
    r.set_current(3);
    let removed = r.record_delete(4);
    assert_eq!(removed, None);
    // Mid-batch the entry is still in the table, but marked.
    assert!(r.contains(4));
    assert!(r.is_deferred(4));
    assert!(!r.is_deferred(3));
    let dropped = r.end_dispatch();
    assert_eq!(dropped.len(), 1);
    assert_eq!(dropped[0].fd, 4);
    assert_eq!(dropped[0].cookie, 40);
    assert!(!r.contains(4));
    assert!(r.contains(3));
}

#[test]
fn self_delete_during_dispatch_drops_the_entry_once() {
    let mut r = Reactor::new();
    r.record_add(3, interest().read(), 30);
    r.begin_dispatch();
    r.set_current(3);
    assert_eq!(r.record_delete(3), None);
    let dropped = r.end_dispatch();
    assert_eq!(dropped.len(), 1);
    assert_eq!(dropped[0].cookie, 30);
    assert!(!r.contains(3));
}

#[test]
fn double_delete_during_dispatch_drops_the_entry_once() {
    let mut r = Reactor::new();
    r.record_add(3, interest().read(), 30);
    r.begin_dispatch();
    r.set_current(3);
    r.record_delete(3);
    r.record_delete(3);
    let dropped = r.end_dispatch();
    assert_eq!(dropped.len(), 1);
    assert_eq!(dropped[0].cookie, 30);
}

#[test]
fn self_modify_during_dispatch_takes_effect() {
    let mut r = Reactor::new();
    r.record_add(5, interest().read(), 50);
    r.begin_dispatch();
    r.set_current(5);
    r.record_modify(5, interest().write());
    r.end_dispatch();
    assert_eq!(r.interest_of(5).unwrap().bitflags(), EPOLLOUT);
    assert_eq!(r.cookie_of(5), Some(50));
}

#[test]
fn batch_deferral_keeps_a_later_handler_reachable() {
    // Three events on descriptors 1, 2, 3; the handler of 1 deletes 2. The
    // entry of 2 stays in the table for the rest of the batch, so its own
    // handler can still be resolved and can observe the mark.
    let mut r = Reactor::new();
    r.record_add(1, interest().read(), 10);
    r.record_add(2, interest().read(), 20);
    r.record_add(3, interest().read(), 30);
    r.begin_dispatch();
    r.set_current(1);
    r.record_delete(2);
    r.set_current(2);
    assert!(r.contains(2));
    assert!(r.is_deferred(2));
    r.set_current(3);
    let dropped = r.end_dispatch();
    assert_eq!(dropped.len(), 1);
    assert_eq!(dropped[0].fd, 2);
    assert_eq!(dropped[0].cookie, 20);
    assert!(r.contains(1));
    assert!(!r.contains(2));
    assert!(r.contains(3));
}

#[test]
fn additions_during_dispatch_land_in_the_table() {
    let mut r = Reactor::new();
    r.record_add(1, interest().read(), 10);
    r.begin_dispatch();
    r.set_current(1);
    assert!(r.check_add(9).is_ok());
    r.record_add(9, interest().read(), 90);
    assert!(r.contains(9));
    r.end_dispatch();
    assert!(r.contains(9));
}

#[test]
fn deferred_delete_of_an_unknown_fd_drops_nothing() {
    let mut r = Reactor::new();
    r.record_add(1, interest().read(), 10);
    r.begin_dispatch();
    r.set_current(1);
    r.record_delete(8);
    assert!(r.is_deferred(8));
    let dropped = r.end_dispatch();
    assert!(dropped.is_empty());
    assert!(r.contains(1));
}

#[test]
fn add_after_deferred_delete_is_removed_at_batch_end() {
    // A handler deletes a descriptor and a later handler registers the same
    // descriptor anew within the same batch: the deferred removal still runs
    // when the batch ends and takes the fresh entry with it.
    let mut r = Reactor::new();
    r.record_add(2, interest().read(), 20);
    r.begin_dispatch();
    r.set_current(1);
    r.record_delete(2);
    r.record_add(2, interest().write(), 21);
    assert!(r.contains(2));
    let dropped = r.end_dispatch();
    assert_eq!(dropped.len(), 1);
    assert_eq!(dropped[0].cookie, 21);
    assert!(!r.contains(2));
}

#[test]
fn errno_classification_marks_only_eintr_as_interrupted() {
    assert_eq!(errno_error(EINTR), ReactorError::Interrupted);
    assert_eq!(errno_error(9), ReactorError::Os(9));
    assert_eq!(errno_error(2), ReactorError::Os(2));
}

#[test]
fn only_an_interrupted_wait_is_retried() {
    assert!(should_retry(&ReactorError::Interrupted));
    assert!(!should_retry(&ReactorError::Os(9)));
    assert!(!should_retry(&ReactorError::NotFound));
    assert!(!should_retry(&ReactorError::SelfReplacement));
}
