use rusty_twinkle_tray::utils::error::{hresult_from_win32, Error};
use rusty_twinkle_tray::utils::single_instance::{
    acquire, AcquireAction, AcquireEvent, ERROR_ACCESS_DENIED, ERROR_ALREADY_EXISTS,
};

#[test]
fn starts_by_looking_for_a_running_instance() {
    assert_eq!(acquire(AcquireEvent::Start), AcquireAction::OpenExisting);
}

#[test]
fn running_instance_found_by_opening() {
    assert_eq!(acquire(AcquireEvent::Opened(42)), AcquireAction::AlreadyRunning { close: Some(42) });
}

#[test]
fn creates_when_nobody_holds_the_mutex() {
    // ERROR_FILE_NOT_FOUND: no such mutex
    assert_eq!(acquire(AcquireEvent::OpenFailed(hresult_from_win32(2))), AcquireAction::Create);
}

#[test]
fn running_instance_with_higher_rights() {
    let denied = hresult_from_win32(ERROR_ACCESS_DENIED);
    assert_eq!(acquire(AcquireEvent::OpenFailed(denied)), AcquireAction::AlreadyRunning { close: None });
    assert_eq!(acquire(AcquireEvent::CreateFailed(denied)), AcquireAction::AlreadyRunning { close: None });
}

#[test]
fn acquired_after_clean_creation() {
    match acquire(AcquireEvent::Created { handle: 7, last_error: 0 }) {
        AcquireAction::Acquired(lock) => assert_eq!(lock.handle(), 7),
        other => panic!("unexpected {other:?}"),
    }
    // another last error than ERROR_ALREADY_EXISTS does not stop it
    match acquire(AcquireEvent::Created { handle: 8, last_error: 5 }) {
        AcquireAction::Acquired(lock) => assert_eq!(lock.handle(), 8),
        other => panic!("unexpected {other:?}"),
    }
}

#[test]
fn lost_race_closes_the_handle() {
    assert_eq!(
        acquire(AcquireEvent::Created { handle: 9, last_error: ERROR_ALREADY_EXISTS }),
        AcquireAction::AlreadyRunning { close: Some(9) }
    );
}

#[test]
fn creation_failure_is_reported() {
    let code = hresult_from_win32(8);
    assert_eq!(acquire(AcquireEvent::CreateFailed(code)), AcquireAction::Failed(Error::Windows(code)));
}

#[test]
fn hresult_of_win32_codes() {
    assert_eq!(hresult_from_win32(0), 0);
    assert_eq!(hresult_from_win32(183), 0x8007_00B7u32 as i32);
    assert_eq!(hresult_from_win32(5), 0x8007_0005u32 as i32);
    // codes that are negative as i32 are HRESULTs already
    assert_eq!(hresult_from_win32(0x8000_4005), 0x8000_4005u32 as i32);
    // only the low 16 bits of a positive code are kept
    assert_eq!(hresult_from_win32(0x0001_00B7), 0x8007_00B7u32 as i32);
}
