//! Makes sure that only a single instance of the app is running.
//!
//! Without this every launch would add another tray icon and another set of
//! monitor threads fighting over the brightness.
//!
//! A running instance holds a session local named mutex. Acquiring the lock
//! goes step by step: the caller performs the system call that
//! [`acquire`] asks for and hands back what it reported, until [`acquire`]
//! answers with an outcome.

use vstd::prelude::*;
use crate::utils::error::{Error, hresult_from_win32, lemma_hresult_from_win32, spec_hresult_from_win32};

verus! {

/// `ERROR_ALREADY_EXISTS`: the named object existed before the call.
pub const ERROR_ALREADY_EXISTS: u32 = 183;

/// `ERROR_ACCESS_DENIED`: the caller lacks the rights the call asks for.
pub const ERROR_ACCESS_DENIED: u32 = 5;

/// Holds the single instance lock: the handle of the named mutex.
#[derive(Debug, Clone, Copy, PartialEq, Eq, Structural)]
pub struct SingleInstance {
    handle: isize,
}

impl SingleInstance {
    /// The handle of the named mutex.
    pub closed spec fn spec_handle(&self) -> isize {
        self.handle
    }

    /// The handle of the named mutex, to be closed when the lock is released.
    pub fn handle(&self) -> (handle: isize)
        ensures
            handle == self.spec_handle(),
    {
        self.handle
    }
}

/// What the last step reported.
#[derive(Debug, Clone, Copy, PartialEq, Eq, Structural)]
pub enum AcquireEvent {
    /// Nothing was done yet.
    Start,
    /// Opening the named mutex succeeded, with this handle: another instance
    /// holds it.
    Opened(isize),
    /// Opening the named mutex failed with this `HRESULT`.
    OpenFailed(i32),
    /// Creating the named mutex succeeded with this handle; `last_error` is
    /// the Win32 error code that the thread reported right after the call.
    Created { handle: isize, last_error: u32 },
    /// Creating the named mutex failed with this `HRESULT`.
    CreateFailed(i32),
}

/// What to do next.
#[derive(Debug, Clone, Copy, PartialEq, Eq, Structural)]
pub enum AcquireAction {
    /// Try to open the named mutex.
    OpenExisting,
    /// Create the named mutex, then read the thread's last error.
    Create,
    /// Another instance is running: close this handle, if there is one, and
    /// give up (no lock).
    AlreadyRunning { close: Option<isize> },
    /// This is the one and only instance.
    Acquired(SingleInstance),
    /// Acquiring the lock failed.
    Failed(Error),
}

/// The creation of the mutex reported that it existed already: the last
/// error is `ERROR_ALREADY_EXISTS`, compared as an `HRESULT`.
pub open spec fn reports_already_exists(last_error: u32) -> bool {
    last_error != 0 && spec_hresult_from_win32(last_error) == spec_hresult_from_win32(
        ERROR_ALREADY_EXISTS,
    )
}

/// A call was refused for want of access rights (`ERROR_ACCESS_DENIED` as
/// an `HRESULT`): the mutex exists, held by an instance that runs with
/// higher rights.
pub open spec fn is_access_denied(code: i32) -> bool {
    code == spec_hresult_from_win32(ERROR_ACCESS_DENIED)
}

/// The next step after `event`.
pub closed spec fn acquire_action(event: AcquireEvent) -> AcquireAction {
    match event {
        AcquireEvent::Start => AcquireAction::OpenExisting,
        AcquireEvent::Opened(handle) => AcquireAction::AlreadyRunning { close: Some(handle) },
        AcquireEvent::OpenFailed(code) => if is_access_denied(code) {
            AcquireAction::AlreadyRunning { close: None }
        } else {
            AcquireAction::Create
        },
        AcquireEvent::Created { handle, last_error } => if reports_already_exists(last_error) {
            AcquireAction::AlreadyRunning { close: Some(handle) }
        } else {
            AcquireAction::Acquired(SingleInstance { handle })
        },
        AcquireEvent::CreateFailed(code) => if is_access_denied(code) {
            AcquireAction::AlreadyRunning { close: None }
        } else {
            AcquireAction::Failed(Error::Windows(code))
        },
    }
}

/// Tries to become the one and only instance, one step at a time: given
/// what the last step reported, says what to do next.
///
/// Opening the mutex is the reliable way to detect an existing instance: it
/// fails when nobody holds it, and is refused when an instance with higher
/// rights holds it. When the creation reports that the mutex existed
/// already, or is refused for want of rights, this instance lost the race
/// against another one.
pub fn acquire(event: AcquireEvent) -> (action: AcquireAction)
    ensures
        action == acquire_action(event),
        match event {
            AcquireEvent::Start => action == AcquireAction::OpenExisting,
            AcquireEvent::Opened(handle) => action == AcquireAction::AlreadyRunning {
                close: Some(handle),
            },
            AcquireEvent::OpenFailed(code) => if is_access_denied(code) {
                action == AcquireAction::AlreadyRunning { close: None }
            } else {
                action == AcquireAction::Create
            },
            AcquireEvent::Created { handle, last_error } => if reports_already_exists(last_error) {
                action == AcquireAction::AlreadyRunning { close: Some(handle) }
            } else {
                action matches AcquireAction::Acquired(lock) && lock.spec_handle() == handle
            },
            AcquireEvent::CreateFailed(code) => if is_access_denied(code) {
                action == AcquireAction::AlreadyRunning { close: None }
            } else {
                action == AcquireAction::Failed(Error::Windows(code))
            },
        },
{
    let access_denied = hresult_from_win32(ERROR_ACCESS_DENIED);
    match event {
        AcquireEvent::Start => AcquireAction::OpenExisting,
        AcquireEvent::Opened(handle) => AcquireAction::AlreadyRunning { close: Some(handle) },
        AcquireEvent::OpenFailed(code) => {
            if code == access_denied {
                AcquireAction::AlreadyRunning { close: None }
            } else {
                AcquireAction::Create
            }
        },
        AcquireEvent::Created { handle, last_error } => {
            if last_error != 0 && hresult_from_win32(last_error) == hresult_from_win32(
                ERROR_ALREADY_EXISTS,
            ) {
                AcquireAction::AlreadyRunning { close: Some(handle) }
            } else {
                AcquireAction::Acquired(SingleInstance { handle })
            }
        },
        AcquireEvent::CreateFailed(code) => {
            if code == access_denied {
                AcquireAction::AlreadyRunning { close: None }
            } else {
                AcquireAction::Failed(Error::Windows(code))
            }
        },
    }
}

/// Only one instance runs at a time: when another instance holds the
/// mutex, whether it was found by opening it, by a creation that reports
/// that it existed, or by an open or a creation refused for want of rights,
/// the lock is never acquired and no error is reported.
pub proof fn lemma_second_instance_gives_up(event: AcquireEvent)
    requires
        ({
            ||| event is Opened
            ||| (event matches AcquireEvent::Created { last_error, .. } && reports_already_exists(
                last_error,
            ))
            ||| (event matches AcquireEvent::OpenFailed(code) && is_access_denied(code))
            ||| (event matches AcquireEvent::CreateFailed(code) && is_access_denied(code))
        }),
    ensures
        acquire_action(event) matches AcquireAction::AlreadyRunning { .. },
{
}

/// The lock is acquired only by the instance that created the mutex without
/// it existing before, and it then holds the handle it created.
pub proof fn lemma_acquired_only_by_creator(event: AcquireEvent)
    requires
        acquire_action(event) is Acquired,
    ensures
        event matches AcquireEvent::Created { handle, last_error } && !reports_already_exists(
            last_error,
        ) && (acquire_action(event) matches AcquireAction::Acquired(lock) && lock.spec_handle()
            == handle),
{
}

/// An instance that gives up is asked to close only a handle it obtained
/// itself, by opening or by creating the mutex.
pub proof fn lemma_already_running_closes_own_handle(event: AcquireEvent, handle: isize)
    requires
        acquire_action(event) == (AcquireAction::AlreadyRunning { close: Some(handle) }),
    ensures
        event == AcquireEvent::Opened(handle) || (event matches AcquireEvent::Created {
            handle: created,
            ..
        } && created == handle),
{
}

/// In terms of the Windows codes: a creation that reports error 183
/// (`ERROR_ALREADY_EXISTS`) gives up and closes its handle; one that reports
/// no error, or any other error below 0x10000, holds the lock; an open or a
/// creation refused with `0x80070005` (`E_ACCESSDENIED`) gives up with no
/// handle to close; an open that fails otherwise goes on to create.
pub proof fn lemma_acquire_codes(handle: isize, last_error: u32, code: i32)
    ensures
        acquire_action(AcquireEvent::Created { handle, last_error: 183 })
            == (AcquireAction::AlreadyRunning { close: Some(handle) }),
        (last_error == 0 || (last_error < 0x10000 && last_error != 183)) ==> (acquire_action(
            AcquireEvent::Created { handle, last_error },
        ) matches AcquireAction::Acquired(lock) && lock.spec_handle() == handle),
        code as u32 == 0x8007_0005 ==> acquire_action(AcquireEvent::OpenFailed(code))
            == (AcquireAction::AlreadyRunning { close: None }),
        code as u32 == 0x8007_0005 ==> acquire_action(AcquireEvent::CreateFailed(code))
            == (AcquireAction::AlreadyRunning { close: None }),
        code as u32 != 0x8007_0005 ==> acquire_action(AcquireEvent::OpenFailed(code))
            == AcquireAction::Create,
        code as u32 != 0x8007_0005 ==> acquire_action(AcquireEvent::CreateFailed(code))
            == AcquireAction::Failed(Error::Windows(code)),
{
    lemma_hresult_from_win32(183);
    lemma_hresult_from_win32(ERROR_ACCESS_DENIED);
    lemma_hresult_from_win32(last_error);
    assert(spec_hresult_from_win32(ERROR_ACCESS_DENIED) as u32 == 0x8007_0005);
    if 0 < last_error < 0x10000 && last_error != 183 {
        assert(spec_hresult_from_win32(last_error) != spec_hresult_from_win32(183)) by {
            assert((spec_hresult_from_win32(last_error) as u32) != (spec_hresult_from_win32(183) as u32));
        }
    }
    let e = spec_hresult_from_win32(ERROR_ACCESS_DENIED);
    assert((code as u32 == 0x8007_0005) <==> code == e) by (bit_vector)
        requires
            e as u32 == 0x8007_0005,
    ;
}

} // verus!
