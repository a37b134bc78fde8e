use kqueue_selector::error::Error;
use kqueue_selector::events::Events;
use kqueue_selector::poll_opt::PollOpt;
use kqueue_selector::ready::Ready;
use kqueue_selector::selector::Selector;
use kqueue_selector::sys::{
    cvt, Kevent, Timespec, EINTR, ENOENT, EPIPE, EVFILT_READ, EVFILT_WRITE, EV_ADD, EV_CLEAR,
    EV_DELETE, EV_ONESHOT, EV_RECEIPT,
};
use kqueue_selector::token::Token;
use std::time::Duration;

fn selector() -> Selector {
    Selector::new(0, Ok(3)).unwrap()
}

fn receipt(filter: i16, code: i64) -> Kevent {
    Kevent { ident: 7, filter, flags: 0x4000, fflags: 0, data: code, udata: 0 }
}

#[test]
fn error_numbers_are_those_of_the_platform() {
    assert_eq!(ENOENT, libc::ENOENT);
    assert_eq!(EINTR, libc::EINTR);
    assert_eq!(EPIPE, libc::EPIPE);
}

#[test]
fn system_call_failure_is_minus_one() {
    assert_eq!(cvt(-1, 24), Err(24));
    assert_eq!(cvt(0, 24), Ok(0));
    assert_eq!(cvt(5, 0), Ok(5));
    assert_eq!(cvt(-2, 9), Ok(-2));
}

#[test]
fn new_selector_gets_the_next_identifier() {
    let first = Selector::new(0, Ok(3)).unwrap();
    assert_eq!(first.id(), 1);
    assert_eq!(first.kq(), 3);
    let later = Selector::new(41, Ok(9)).unwrap();
    assert_eq!(later.id(), 42);
    assert_eq!(later.kq(), 9);
    assert_ne!(first.id(), later.id());
    assert_ne!(Selector::new(usize::MAX - 1, Ok(0)).unwrap().id(), 0);
}

#[test]
fn new_selector_reports_a_queue_that_could_not_be_opened() {
    let r = Selector::new(0, Err(24));
    assert!(matches!(r, Err(Error::Resource(24))));
    assert_eq!(Error::Resource(24).raw_os_error(), 24);
    assert!(!Error::Resource(24).is_not_found());
    assert!(!Error::Resource(24).is_interrupted());
}

#[test]
fn selector_prints_its_fields() {
    assert_eq!(format!("{:?}", selector()), "Selector { id: 1, kq: 3 }");
}

#[test]
fn does_not_register_rw() {
    let s = selector();
    let interests = Ready::readable();
    let changes = s.register(8, Token(1234), interests, PollOpt::edge() | PollOpt::oneshot());
    assert_eq!(changes[0].filter, EVFILT_READ);
    assert_eq!(changes[0].flags, EV_ADD | EV_CLEAR | EV_ONESHOT | EV_RECEIPT);
    assert_eq!(changes[0].udata, 1234);
    assert_eq!(changes[1].filter, EVFILT_WRITE);
    assert_eq!(changes[1].flags, EV_DELETE | EV_CLEAR | EV_ONESHOT | EV_RECEIPT);
    assert_eq!(changes[1].flags & EV_ADD, 0);
    assert_eq!(changes[1].udata, 1234);
    // The write filter was never there, so its removal finds no entry.
    let receipts = [receipt(EVFILT_READ, 0), receipt(EVFILT_WRITE, ENOENT as i64)];
    assert_eq!(Selector::check_register(interests, Ok(receipts)), Ok(()));
}

#[test]
fn register_builds_one_change_per_direction() {
    let s = selector();
    let both = Ready::readable() | Ready::writable();
    let changes = s.register(5, Token(9), both, PollOpt::level());
    assert_eq!(
        changes[0],
        Kevent { ident: 5, filter: -1, flags: 0x41, fflags: 0, data: 0, udata: 9 }
    );
    assert_eq!(
        changes[1],
        Kevent { ident: 5, filter: -2, flags: 0x41, fflags: 0, data: 0, udata: 9 }
    );
    let none = s.register(5, Token(9), Ready::empty(), PollOpt::level());
    assert_eq!(none[0].flags, 0x42);
    assert_eq!(none[1].flags, 0x42);
    let write_only = s.register(5, Token(9), Ready::writable(), PollOpt::empty());
    assert_eq!(write_only[0].flags, 0x42);
    assert_eq!(write_only[1].flags, 0x41);
    let with_hup = s.register(5, Token(9), Ready::readable() | Ready::hup(), PollOpt::empty());
    assert_eq!(with_hup[0].flags, 0x41);
    assert_eq!(with_hup[1].flags, 0x42);
}

#[test]
fn register_flags_follow_the_poll_options() {
    let s = selector();
    let r = Ready::readable();
    assert_eq!(s.register(1, Token(0), r, PollOpt::empty())[0].flags, 0x41);
    assert_eq!(s.register(1, Token(0), r, PollOpt::level())[0].flags, 0x41);
    assert_eq!(s.register(1, Token(0), r, PollOpt::edge())[0].flags, 0x61);
    assert_eq!(s.register(1, Token(0), r, PollOpt::oneshot())[0].flags, 0x51);
    assert_eq!(s.register(1, Token(0), r, PollOpt::edge() | PollOpt::oneshot())[0].flags, 0x71);
    assert_eq!(s.register(1, Token(0), r, PollOpt::level() | PollOpt::oneshot())[0].flags, 0x51);
    assert_eq!(s.register(1, Token(0), r, PollOpt::edge() | PollOpt::oneshot())[1].flags, 0x72);
    for opts in [PollOpt::empty(), PollOpt::edge(), PollOpt::level(), PollOpt::oneshot()] {
        for interests in [Ready::empty(), Ready::readable(), Ready::writable()] {
            for change in s.register(1, Token(0), interests, opts) {
                assert_ne!(change.flags & EV_RECEIPT, 0);
                assert_eq!(change.flags & EV_CLEAR != 0, opts.is_edge());
                assert_eq!(change.flags & EV_ONESHOT != 0, opts.is_oneshot());
                assert_ne!(change.flags & EV_ADD != 0, change.flags & EV_DELETE != 0);
            }
        }
    }
}

#[test]
fn register_widens_the_descriptor() {
    let s = selector();
    assert_eq!(s.register(0, Token(1), Ready::readable(), PollOpt::edge())[0].ident, 0);
    assert_eq!(
        s.register(i32::MAX, Token(1), Ready::readable(), PollOpt::edge())[1].ident,
        i32::MAX as usize
    );
    assert_eq!(s.register(-1, Token(1), Ready::readable(), PollOpt::edge())[0].ident, usize::MAX);
}

#[test]
fn register_carries_the_token() {
    let s = selector();
    let changes = s.register(4, Token(usize::MAX), Ready::writable(), PollOpt::edge());
    assert_eq!(changes[0].udata, usize::MAX);
    assert_eq!(changes[1].udata, usize::MAX);
}

#[test]
fn reregister_is_register() {
    let s = selector();
    let both = Ready::readable() | Ready::writable();
    for opts in [PollOpt::edge(), PollOpt::level(), PollOpt::edge() | PollOpt::oneshot()] {
        for interests in [Ready::empty(), Ready::readable(), Ready::writable(), both] {
            assert_eq!(
                s.reregister(6, Token(77), interests, opts),
                s.register(6, Token(77), interests, opts)
            );
        }
    }
}

#[test]
fn deregister_removes_both_directions() {
    let s = selector();
    let changes = s.deregister(11);
    assert_eq!(
        changes[0],
        Kevent { ident: 11, filter: -1, flags: 0x42, fflags: 0, data: 0, udata: 0 }
    );
    assert_eq!(
        changes[1],
        Kevent { ident: 11, filter: -2, flags: 0x42, fflags: 0, data: 0, udata: 0 }
    );
    assert_eq!(changes[0].flags, EV_DELETE | EV_RECEIPT);
}

#[test]
fn register_accepts_clean_receipts() {
    let receipts = [receipt(EVFILT_READ, 0), receipt(EVFILT_WRITE, 0)];
    let both = Ready::readable() | Ready::writable();
    assert_eq!(Selector::check_register(both, Ok(receipts)), Ok(()));
    assert_eq!(Selector::check_register(Ready::empty(), Ok(receipts)), Ok(()));
}

#[test]
fn register_passes_over_a_broken_pipe_on_the_write_direction() {
    let receipts = [receipt(EVFILT_READ, 0), receipt(EVFILT_WRITE, 32)];
    let both = Ready::readable() | Ready::writable();
    assert_eq!(Selector::check_register(Ready::writable(), Ok(receipts)), Ok(()));
    assert_eq!(Selector::check_register(both, Ok(receipts)), Ok(()));
    assert_eq!(Selector::check_register(Ready::readable(), Ok(receipts)), Ok(()));
    assert!(Selector::suppressed_on_register(EVFILT_WRITE, false, EPIPE));
    assert!(Selector::suppressed_on_register(EVFILT_WRITE, true, EPIPE));
}

#[test]
fn register_reports_a_broken_pipe_on_the_read_direction() {
    let receipts = [receipt(EVFILT_READ, 32), receipt(EVFILT_WRITE, 0)];
    let both = Ready::readable() | Ready::writable();
    assert_eq!(Selector::check_register(both, Ok(receipts)), Err(Error::Registration(32)));
    assert_eq!(
        Selector::check_register(Ready::writable(), Ok(receipts)),
        Err(Error::Registration(32))
    );
    assert!(!Selector::suppressed_on_register(EVFILT_READ, false, EPIPE));
    assert!(!Selector::suppressed_on_register(EVFILT_READ, true, EPIPE));
}

#[test]
fn register_passes_over_a_missing_entry_on_a_removed_direction() {
    let read_missing = [receipt(EVFILT_READ, 2), receipt(EVFILT_WRITE, 0)];
    let write_missing = [receipt(EVFILT_READ, 0), receipt(EVFILT_WRITE, 2)];
    let both_missing = [receipt(EVFILT_READ, 2), receipt(EVFILT_WRITE, 2)];
    assert_eq!(Selector::check_register(Ready::writable(), Ok(read_missing)), Ok(()));
    assert_eq!(Selector::check_register(Ready::readable(), Ok(write_missing)), Ok(()));
    assert_eq!(Selector::check_register(Ready::empty(), Ok(both_missing)), Ok(()));
    assert!(Selector::suppressed_on_register(EVFILT_READ, true, ENOENT));
    assert!(Selector::suppressed_on_register(EVFILT_WRITE, true, ENOENT));
}

#[test]
fn register_reports_a_missing_entry_on_a_wanted_direction() {
    let read_missing = [receipt(EVFILT_READ, 2), receipt(EVFILT_WRITE, 0)];
    let write_missing = [receipt(EVFILT_READ, 0), receipt(EVFILT_WRITE, 2)];
    assert_eq!(
        Selector::check_register(Ready::readable(), Ok(read_missing)),
        Err(Error::Registration(2))
    );
    assert_eq!(
        Selector::check_register(Ready::writable(), Ok(write_missing)),
        Err(Error::Registration(2))
    );
    assert!(Error::Registration(2).is_not_found());
    assert!(!Selector::suppressed_on_register(EVFILT_READ, false, ENOENT));
    assert!(!Selector::suppressed_on_register(EVFILT_WRITE, false, ENOENT));
}

#[test]
fn register_reports_any_other_error_with_its_number() {
    let both = Ready::readable() | Ready::writable();
    let bad_write = [receipt(EVFILT_READ, 0), receipt(EVFILT_WRITE, 9)];
    assert_eq!(Selector::check_register(both, Ok(bad_write)), Err(Error::Registration(9)));
    let bad_both = [receipt(EVFILT_READ, 9), receipt(EVFILT_WRITE, 22)];
    assert_eq!(Selector::check_register(both, Ok(bad_both)), Err(Error::Registration(9)));
    let pipe_then_bad = [receipt(EVFILT_WRITE, 32), receipt(EVFILT_WRITE, 22)];
    assert_eq!(Selector::check_register(both, Ok(pipe_then_bad)), Err(Error::Registration(22)));
    assert_eq!(Error::Registration(9).raw_os_error(), 9);
    assert!(!Error::Registration(9).is_not_found());
    for code in [1, 9, 12, 22] {
        for filter in [EVFILT_READ, EVFILT_WRITE] {
            assert!(!Selector::suppressed_on_register(filter, false, code));
            assert!(!Selector::suppressed_on_register(filter, true, code));
        }
    }
}

#[test]
fn register_reads_the_low_half_of_the_receipt_data() {
    let both = Ready::readable() | Ready::writable();
    let high: i64 = (1i64 << 32) + 32;
    let receipts = [receipt(EVFILT_READ, 0), receipt(EVFILT_WRITE, high)];
    assert_eq!(Selector::check_register(both, Ok(receipts)), Ok(()));
    let receipts = [receipt(EVFILT_READ, high), receipt(EVFILT_WRITE, 0)];
    assert_eq!(Selector::check_register(both, Ok(receipts)), Err(Error::Registration(32)));
}

#[test]
fn register_reports_a_failed_call() {
    assert_eq!(
        Selector::check_register(Ready::readable(), Err(9)),
        Err(Error::Registration(9))
    );
}

#[test]
fn deregister_of_an_unregistered_descriptor_is_not_found() {
    let receipts = [receipt(EVFILT_READ, 2), receipt(EVFILT_WRITE, 2)];
    let r = Selector::check_deregister(Ok(receipts));
    assert_eq!(r, Err(Error::Registration(ENOENT)));
    assert!(r.unwrap_err().is_not_found());
}

#[test]
fn deregister_twice_succeeds_then_is_not_found() {
    // What the kernel answers to the first and to the second removal of a
    // descriptor that was registered for reading only.
    let first = [receipt(EVFILT_READ, 0), receipt(EVFILT_WRITE, 2)];
    let second = [receipt(EVFILT_READ, 2), receipt(EVFILT_WRITE, 2)];
    assert_eq!(Selector::check_deregister(Ok(first)), Ok(()));
    assert_eq!(Selector::check_deregister(Ok(second)), Err(Error::Registration(2)));
}

#[test]
fn deregister_accepts_one_missing_direction() {
    let read_missing = [receipt(EVFILT_READ, 2), receipt(EVFILT_WRITE, 0)];
    let write_missing = [receipt(EVFILT_READ, 0), receipt(EVFILT_WRITE, 2)];
    let clean = [receipt(EVFILT_READ, 0), receipt(EVFILT_WRITE, 0)];
    assert_eq!(Selector::check_deregister(Ok(read_missing)), Ok(()));
    assert_eq!(Selector::check_deregister(Ok(write_missing)), Ok(()));
    assert_eq!(Selector::check_deregister(Ok(clean)), Ok(()));
}

#[test]
fn deregister_reports_any_other_error_with_its_number() {
    let bad_read = [receipt(EVFILT_READ, 9), receipt(EVFILT_WRITE, 0)];
    let bad_write = [receipt(EVFILT_READ, 0), receipt(EVFILT_WRITE, 9)];
    let missing_then_bad = [receipt(EVFILT_READ, 2), receipt(EVFILT_WRITE, 9)];
    let bad_both = [receipt(EVFILT_READ, 9), receipt(EVFILT_WRITE, 22)];
    let pipe = [receipt(EVFILT_READ, 0), receipt(EVFILT_WRITE, 32)];
    assert_eq!(Selector::check_deregister(Ok(bad_read)), Err(Error::Registration(9)));
    assert_eq!(Selector::check_deregister(Ok(bad_write)), Err(Error::Registration(9)));
    assert_eq!(Selector::check_deregister(Ok(missing_then_bad)), Err(Error::Registration(9)));
    assert_eq!(Selector::check_deregister(Ok(bad_both)), Err(Error::Registration(9)));
    assert_eq!(Selector::check_deregister(Ok(pipe)), Err(Error::Registration(32)));
}

#[test]
fn deregister_reports_a_failed_call() {
    assert_eq!(Selector::check_deregister(Err(9)), Err(Error::Registration(9)));
}

#[test]
fn wait_limit_is_clamped_to_what_the_kernel_can_hold() {
    assert_eq!(Selector::timespec(0, 0), Timespec { tv_sec: 0, tv_nsec: 0 });
    assert_eq!(Selector::timespec(5, 7), Timespec { tv_sec: 5, tv_nsec: 7 });
    assert_eq!(
        Selector::timespec(i64::MAX as u64, 999_999_999),
        Timespec { tv_sec: i64::MAX, tv_nsec: 999_999_999 }
    );
    assert_eq!(
        Selector::timespec(i64::MAX as u64 + 1, 1),
        Timespec { tv_sec: i64::MAX, tv_nsec: 1 }
    );
    assert_eq!(Selector::timespec(u64::MAX, 0), Timespec { tv_sec: i64::MAX, tv_nsec: 0 });
}

#[test]
fn wait_limit_of_a_timeout() {
    assert_eq!(Selector::wait_timeout(None), None);
    assert_eq!(
        Selector::wait_timeout(Some(Duration::from_secs(0))),
        Some(Timespec { tv_sec: 0, tv_nsec: 0 })
    );
    assert_eq!(
        Selector::wait_timeout(Some(Duration::new(5, 7))),
        Some(Timespec { tv_sec: 5, tv_nsec: 7 })
    );
    assert_eq!(
        Selector::wait_timeout(Some(Duration::from_millis(1500))),
        Some(Timespec { tv_sec: 1, tv_nsec: 500_000_000 })
    );
    assert_eq!(
        Selector::wait_timeout(Some(Duration::new(u64::MAX, 999_999_999))),
        Some(Timespec { tv_sec: i64::MAX, tv_nsec: 999_999_999 })
    );
}

#[test]
fn failed_wait_is_an_error_and_leaves_the_events() {
    let s = selector();
    let mut evts = Events::with_capacity(4);
    let event = Kevent { ident: 1, filter: EVFILT_READ, flags: 0, fflags: 0, data: 0, udata: 5 };
    let batch = vec![event];
    assert_eq!(s.select(&mut evts, Token(0), Ok(batch)), Ok(false));
    let before = evts.get(0);
    let r = s.select(&mut evts, Token(0), Err(EINTR));
    assert_eq!(r, Err(Error::Io(4)));
    assert!(r.unwrap_err().is_interrupted());
    assert_eq!(evts.len(), 1);
    assert_eq!(evts.get(0), before);
    assert_eq!(evts.raw_len(), 1);
    let r = s.select(&mut evts, Token(0), Err(9));
    assert_eq!(r, Err(Error::Io(9)));
    assert!(!r.unwrap_err().is_interrupted());
    assert_eq!(Error::Io(9).raw_os_error(), 9);
}
