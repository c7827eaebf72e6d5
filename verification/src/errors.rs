//! Errors surfaced by the reactor core, and the retry policy for the wait call.

use vstd::prelude::*;

verus! {

/// The `errno` value reported when a syscall is interrupted by a signal.
pub const EINTR: i32 = 4;

/// An error surfaced by the reactor.
#[derive(Clone, Copy, Debug, PartialEq, Eq, Structural)]
pub enum ReactorError {
    /// A syscall failed; carries the OS error code unchanged.
    Os(i32),
    /// `modify` was asked for a file descriptor that is not registered.
    NotFound,
    /// A handler tried to replace the subscriber whose event it is handling.
    SelfReplacement,
    /// The wait call was interrupted by a signal before any event arrived.
    Interrupted,
}

/// Classifies a failed syscall by its `errno`: an interruption by a signal
/// becomes [`ReactorError::Interrupted`], anything else keeps the code.
pub fn errno_error(errno: i32) -> (r: ReactorError)
    ensures
        r == if errno == EINTR {
            ReactorError::Interrupted
        } else {
            ReactorError::Os(errno)
        },
{
    if errno == EINTR {
        ReactorError::Interrupted
    } else {
        ReactorError::Os(errno)
    }
}

/// Law: a run-forever loop retries exactly the interrupted wait; every other
/// error ends the loop and is surfaced to the caller.
pub fn should_retry(e: &ReactorError) -> (r: bool)
    ensures
        r == (*e is Interrupted),
{
    match e {
        ReactorError::Interrupted => true,
        _ => false,
    }
}

} // verus!
