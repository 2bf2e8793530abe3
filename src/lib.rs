//! Pseudoterminal sessions behind small integer handles: the command that a
//! session runs, the poll-style output buffering of a session, its input log
//! and exit state, the handle registry, and the argument checks of the call
//! surface.

use vstd::prelude::*;

pub mod boundary;
pub mod command;
pub mod registry;
pub mod session;

verus! {

/// The status code of an operation that succeeded.
pub const SUCCESS: i32 = 0;

/// The status code of an invalid argument or a failure.
pub const ERROR: i32 = -1;

/// The status code of an operation on a session whose child has exited.
pub const CHILD_EXITED: i32 = -2;

/// How long, in milliseconds, a read waits after `Settle` for output that
/// raced the end of the stream.
pub const SETTLE_WINDOW_MS: u64 = 20;

} // verus!
