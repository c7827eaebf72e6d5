//! The verified core of a Linux `epoll` readiness reactor.
//!
//! The reactor owns a set of subscribers, each a file descriptor bound to an
//! interest mask and a handler, waits for readiness events and dispatches them
//! while letting a handler add, reconfigure or remove subscribers during
//! dispatch. This crate holds the parts of that engine that are pure state:
//!
//! - [`interest::Interest`] and [`event::Event`], the flag words asked of and
//!   reported by the kernel, with their builder algebra;
//! - [`reactor::Reactor`], the registration table and the re-entrancy state
//!   machine: the self-replacement check on `add`, the lookup rules of
//!   `modify`, and the deferral of removals until the current batch of events
//!   has been dispatched;
//! - [`errors::ReactorError`], the error classification, including which
//!   failures of the wait call are retried.
//!
//! The syscalls themselves (`epoll_create1`, `epoll_ctl`, `epoll_wait`) and
//! the one-word polymorphic subscriber handles that carry the kernel's
//! per-event cookie are the unverified shell around this core; every decision
//! the shell takes, it takes by calling into the functions here.

pub mod errors;
pub mod event;
pub mod interest;
pub mod reactor;
pub mod table;

pub use errors::ReactorError;
pub use event::Event;
pub use interest::{interest, Interest};
pub use reactor::Reactor;
pub use table::Entry;
