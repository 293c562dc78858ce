use kaze::channel::{
    check_read, check_write, unknown_code_message, context_result, exists_result, wait_result, with_closed_handled,
    Error, IoKind, Mode, OpenOptions, KZ_AGAIN, KZ_BUSY, KZ_CLOSED, KZ_CREATE, KZ_EXCL, KZ_FAIL,
    KZ_INVALID, KZ_OK, KZ_RESET, KZ_TIMEOUT, KZ_TOOBIG,
};

#[test]
fn open_options_flags() {
    let o = OpenOptions::new();
    assert_eq!(o.open_flags(), 0o644);
    assert_eq!(o.bufsize(), 0);
    let o = OpenOptions::new().create(true, 4096);
    assert_eq!(o.open_flags(), KZ_CREATE | 0o644);
    assert_eq!(o.bufsize(), 4096);
    let o = OpenOptions::new().create_new(true, 10).perm(0o600).reset();
    assert_eq!(o.open_flags(), KZ_CREATE | KZ_EXCL | KZ_RESET | 0o600);
    let o = OpenOptions::new().create(false, 1);
    assert_eq!(o.open_flags(), 0o644);
}

#[test]
fn mode_bits() {
    assert!(!Mode::null().is_ready());
    let m = Mode::null().with_read(true);
    assert!(m.can_read() && !m.can_write() && m.is_ready());
    let m = m.with_write(true);
    assert!(m.can_read() && m.can_write());
    assert_eq!(m.as_raw(), Mode::both().as_raw());
    assert_eq!(Mode::read().with_write(false).as_raw(), Mode::read().as_raw());
    assert!(Mode::write().can_write());
    assert_eq!(Mode::from_raw(2).as_raw(), 2);
}

#[test]
fn mode_is_closed() {
    assert!(Mode::null().is_closed_in(2));
    assert!(!Mode::null().is_closed_in(0));
    assert!(Mode::read().is_closed_in(3));
    assert!(!Mode::both().is_closed_in(1));
    assert!(Mode::both().is_closed_in(3));
}

#[test]
fn errors_from_return_codes() {
    assert!(matches!(Error::from_retcode(KZ_OK), Error::NoError));
    assert!(matches!(Error::from_retcode(KZ_INVALID), Error::Invalid));
    assert!(matches!(Error::from_retcode(KZ_FAIL), Error::Fail(_)));
    assert!(matches!(Error::from_retcode(KZ_CLOSED), Error::Closed));
    assert!(matches!(Error::from_retcode(KZ_TOOBIG), Error::TooBig));
    assert!(matches!(Error::from_retcode(KZ_AGAIN), Error::Again));
    assert!(matches!(Error::from_retcode(KZ_BUSY), Error::Busy));
    assert!(matches!(Error::from_retcode(KZ_TIMEOUT), Error::Timeout));
    match Error::from_retcode(-42) {
        Error::Fail(e) => assert_eq!(e.to_string(), "Unknown error(-42)"),
        _ => panic!("expected Fail"),
    }
    assert!(Error::from_retcode(-42).fail_error().is_some());
    assert!(Error::from_retcode(KZ_BUSY).fail_error().is_none());
    assert!(Error::last_os_error().into_fail_error().is_some());
    assert!(matches!(Error::get_result(KZ_OK, 5), Ok(5)));
    assert!(matches!(Error::get_result(KZ_CLOSED, 5), Err(Error::Closed)));
}

#[test]
fn error_io_kinds() {
    assert!(Error::NoError.io_kind() == IoKind::Other);
    assert!(Error::Invalid.io_kind() == IoKind::InvalidInput);
    assert!(Error::Closed.io_kind() == IoKind::BrokenPipe);
    assert!(Error::TooBig.io_kind() == IoKind::OutOfMemory);
    assert!(Error::Again.io_kind() == IoKind::WouldBlock);
    assert!(Error::Busy.io_kind() == IoKind::ResourceBusy);
    assert!(Error::Timeout.io_kind() == IoKind::TimedOut);
}

#[test]
fn closed_is_handled() {
    assert!(with_closed_handled(Ok(())).is_ok());
    assert!(with_closed_handled(Err(Error::Closed)).is_ok());
    assert!(matches!(with_closed_handled(Err(Error::Busy)), Err(Error::Busy)));
}

#[test]
fn return_code_decisions() {
    assert_eq!(wait_result(3).ok().map(|m| m.as_raw()), Some(3));
    assert!(matches!(wait_result(KZ_TIMEOUT), Err(Error::Timeout)));
    assert!(context_result(KZ_OK).is_ok());
    assert!(context_result(KZ_AGAIN).is_ok());
    assert!(matches!(context_result(KZ_CLOSED), Err(Error::Closed)));
    assert!(matches!(check_read(false, false, 1, 10), Err(Error::Invalid)));
    assert!(matches!(check_read(true, true, 1, 10), Err(Error::Invalid)));
    assert!(matches!(check_read(true, false, 11, 10), Err(Error::TooBig)));
    assert!(check_read(true, false, 10, 10).is_ok());
    assert!(matches!(check_write(true, false, 10, 1), Err(Error::Invalid)));
    assert!(matches!(check_write(false, false, 10, 11), Err(Error::TooBig)));
    assert!(check_write(false, false, 10, 10).is_ok());
    assert!(exists_result(-1, 0, 0).is_err());
    assert_eq!(exists_result(0, 1, 2).unwrap(), None);
    assert_eq!(exists_result(1, 3, 4).unwrap(), Some((3, 4)));
}

#[test]
fn mode_debug_text() {
    assert_eq!(Mode::read().debug_text(), "Mode(READ)");
    assert_eq!(Mode::write().debug_text(), "Mode(WRITE)");
    assert_eq!(Mode::both().debug_text(), "Mode(BOTH)");
    assert_eq!(Mode::null().debug_text(), "Mode(0x0)");
    assert_eq!(Mode::from_raw(0x1f).debug_text(), "Mode(0x1f)");
    assert_eq!(Mode::from_raw(-1).debug_text(), "Mode(0xffffffff)");
}

#[test]
fn error_messages() {
    assert_eq!(Error::NoError.message(), "No error");
    assert_eq!(Error::Invalid.message(), "Invalid operation");
    assert_eq!(Error::Closed.message(), "Channel is closed");
    assert_eq!(Error::TooBig.message(), "Data is too big");
    assert_eq!(Error::Again.message(), "Try again");
    assert_eq!(Error::Busy.message(), "Resource is busy");
    assert_eq!(Error::Timeout.message(), "Operation timed out");
    assert_eq!(Error::Fail(std::io::Error::other("boom")).message(), "OS Error: boom");
}

#[test]
fn unknown_codes_carry_their_number() {
    assert_eq!(unknown_code_message(-99), "Unknown error(-99)");
    assert_eq!(unknown_code_message(0), "Unknown error(0)");
    assert_eq!(unknown_code_message(i32::MIN), "Unknown error(-2147483648)");
    assert_eq!(unknown_code_message(1234), "Unknown error(1234)");
    match Error::from_retcode(-99) {
        Error::Fail(e) => {
            assert_eq!(e.kind(), std::io::ErrorKind::Other);
            assert_eq!(e.to_string(), "Unknown error(-99)");
        }
        _ => panic!("expected Fail"),
    }
    assert_eq!(Error::from_retcode(-99).message(), "OS Error: Unknown error(-99)");
}
