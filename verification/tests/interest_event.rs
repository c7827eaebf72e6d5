use eventp::interest::{
    interest, EPOLLERR, EPOLLET, EPOLLEXCLUSIVE, EPOLLHUP, EPOLLIN, EPOLLONESHOT, EPOLLOUT,
    EPOLLPRI, EPOLLRDHUP, EPOLLWAKEUP,
};
use eventp::{Event, Interest};

#[test]
fn empty_interest_has_no_flags() {
    assert_eq!(interest().bitflags(), 0);
}

#[test]
fn new_keeps_the_raw_word() {
    let i = Interest::new(EPOLLIN | EPOLLET);
    assert_eq!(i.bitflags(), EPOLLIN | EPOLLET);
}

#[test]
fn builder_sets_each_flag() {
    assert_eq!(interest().read().bitflags(), EPOLLIN);
    assert_eq!(interest().write().bitflags(), EPOLLOUT);
    assert_eq!(interest().rdhup().bitflags(), EPOLLRDHUP);
    assert_eq!(interest().pri().bitflags(), EPOLLPRI);
    assert_eq!(interest().edge_triggered().bitflags(), EPOLLET);
    assert_eq!(interest().oneshot().bitflags(), EPOLLONESHOT);
    assert_eq!(interest().wakeup().bitflags(), EPOLLWAKEUP);
    assert_eq!(interest().exclusive().bitflags(), EPOLLEXCLUSIVE);
}

#[test]
fn builder_accumulates_by_or() {
    let i = interest().read().write().rdhup().edge_triggered();
    assert_eq!(i.bitflags(), EPOLLIN | EPOLLOUT | EPOLLRDHUP | EPOLLET);
}

#[test]
fn builder_is_order_insensitive() {
    let a = interest().read().oneshot().pri();
    let b = interest().pri().read().oneshot();
    assert_eq!(a.bitflags(), b.bitflags());
}

#[test]
fn adding_a_flag_twice_is_the_same_as_once() {
    assert_eq!(
        interest().read().read().bitflags(),
        interest().read().bitflags()
    );
}

#[test]
fn read_write_equals_read_then_write() {
    assert_eq!(
        interest().read_write().bitflags(),
        interest().read().write().bitflags()
    );
    assert_eq!(
        interest().pri().read_write().bitflags(),
        EPOLLPRI | EPOLLIN | EPOLLOUT
    );
}

#[test]
fn remove_clears_exactly_its_bit() {
    let i = interest().read().write().oneshot();
    assert_eq!(i.remove_write().bitflags(), EPOLLIN | EPOLLONESHOT);
    assert_eq!(i.remove_read().bitflags(), EPOLLOUT | EPOLLONESHOT);
    assert_eq!(i.remove_oneshot().bitflags(), EPOLLIN | EPOLLOUT);
    assert_eq!(i.remove_rdhup().bitflags(), i.bitflags());
    assert_eq!(i.remove_pri().bitflags(), i.bitflags());
    assert_eq!(i.remove_edge_triggered().bitflags(), i.bitflags());
    assert_eq!(i.remove_wakeup().bitflags(), i.bitflags());
    assert_eq!(i.remove_exclusive().bitflags(), i.bitflags());
}

#[test]
fn remove_each_flag_from_its_singleton() {
    assert_eq!(interest().read().remove_read().bitflags(), 0);
    assert_eq!(interest().write().remove_write().bitflags(), 0);
    assert_eq!(interest().rdhup().remove_rdhup().bitflags(), 0);
    assert_eq!(interest().pri().remove_pri().bitflags(), 0);
    assert_eq!(
        interest().edge_triggered().remove_edge_triggered().bitflags(),
        0
    );
    assert_eq!(interest().oneshot().remove_oneshot().bitflags(), 0);
    assert_eq!(interest().wakeup().remove_wakeup().bitflags(), 0);
    assert_eq!(interest().exclusive().remove_exclusive().bitflags(), 0);
}

#[test]
fn event_keeps_the_raw_word() {
    let ev = Event::new(EPOLLIN | EPOLLHUP);
    assert_eq!(ev.bitflags(), EPOLLIN | EPOLLHUP);
}

#[test]
fn event_predicates_read_their_bits() {
    let ev = Event::new(EPOLLIN | EPOLLHUP);
    assert!(ev.is_readable());
    assert!(!ev.is_writable());
    assert!(!ev.is_priority());
    assert!(!ev.is_error());
    assert!(ev.is_hangup());
    assert!(!ev.is_read_closed());

    let ev = Event::new(EPOLLOUT | EPOLLPRI | EPOLLRDHUP | EPOLLERR);
    assert!(!ev.is_readable());
    assert!(ev.is_writable());
    assert!(ev.is_priority());
    assert!(ev.is_error());
    assert!(!ev.is_hangup());
    assert!(ev.is_read_closed());
}

#[test]
fn empty_event_reports_nothing() {
    let ev = Event::new(0);
    assert!(!ev.is_readable());
    assert!(!ev.is_writable());
    assert!(!ev.is_priority());
    assert!(!ev.is_error());
    assert!(!ev.is_hangup());
    assert!(!ev.is_read_closed());
}

#[test]
fn hup_err_event_is_neither_readable_nor_writable() {
    let ev = Event::new(EPOLLHUP | EPOLLERR);
    assert!(!ev.is_readable());
    assert!(!ev.is_writable());
    assert!(ev.is_hangup());
    assert!(ev.is_error());
}
