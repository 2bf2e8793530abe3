//! The checks and status codes of the call surface: which arguments are
//! accepted, and which code each outcome is reported with. Handles are
//! positive; zero and negative values are never issued.

use vstd::prelude::*;
use crate::command::{command_of_words, env_keys_unique, env_view, words_of_line, Command};
use crate::registry::MAX_HANDLE;
use crate::session::Poll;
use crate::{CHILD_EXITED, ERROR};

verus! {

/// The registry key of a handle, or `None` for a value never issued.
pub fn handle_key(handle: i32) -> (r: Option<u32>)
    ensures
        handle > 0 ==> r == Some(handle as u32),
        handle <= 0 ==> r is None,
{
    if handle > 0 {
        Some(handle as u32)
    } else {
        None
    }
}

/// The terminal size for `cols` columns and `rows` rows, or `None` unless
/// both are positive. Each is taken modulo 2^16, as a terminal size holds it.
pub fn pty_dims(cols: i32, rows: i32) -> (r: Option<(u16, u16)>)
    ensures
        cols > 0 && rows > 0 ==> r == Some((cols as u16, rows as u16)),
        !(cols > 0 && rows > 0) ==> r is None,
{
    if cols > 0 && rows > 0 {
        Some((cols as u16, rows as u16))
    } else {
        None
    }
}

/// The capacity of a read buffer of `len` bytes, or `None` unless positive.
pub fn read_capacity(len: i32) -> (r: Option<usize>)
    ensures
        len > 0 ==> r == Some(len as usize),
        len <= 0 ==> r is None,
{
    if len > 0 {
        Some(len as usize)
    } else {
        None
    }
}

/// The length of a write of `len` bytes, or `None` if negative.
pub fn write_length(len: i32) -> (r: Option<usize>)
    ensures
        len >= 0 ==> r == Some(len as usize),
        len < 0 ==> r is None,
{
    if len >= 0 {
        Some(len as usize)
    } else {
        None
    }
}

/// What a spawn needs before the terminal is opened: the command for
/// `cmdline` run in `cwd` with the variables `env`, and the terminal size;
/// `None` unless both dimensions are positive.
pub fn prepare_spawn(cmdline: &str, cwd: &str, cols: i32, rows: i32, env: Vec<(String, String)>) -> (r:
    Option<(Command, u16, u16)>)
    requires
        env_keys_unique(env_view(env@)),
    ensures
        !(cols > 0 && rows > 0) ==> r is None,
        cols > 0 && rows > 0 ==> (r matches Some((c, w, h)) && c@ == command_of_words(
            words_of_line(cmdline@),
            cwd@,
            env_view(env@),
        ) && c.wf() && w == cols as u16 && h == rows as u16),
{
    match pty_dims(cols, rows) {
        Some((w, h)) => Some((Command::from_cmdline(cmdline, cwd, env), w, h)),
        None => None,
    }
}

/// The code that a spawn returns: the handle it was stored under, or
/// `ERROR` where none was issued.
pub fn spawn_code(stored: Option<u32>) -> (r: i32)
    requires
        stored matches Some(h) ==> 1 <= h <= MAX_HANDLE,
    ensures
        stored matches Some(h) ==> r == h as i32 && r > 0,
        stored is None ==> r == ERROR,
{
    match stored {
        Some(h) => h as i32,
        None => ERROR,
    }
}

/// The code that a read returns for the answer of a poll: the number of
/// bytes handed out, `CHILD_EXITED` at the end, and 0 while the answer is
/// still to settle.
pub fn read_code(answer: &Poll) -> (r: i32)
    requires
        answer matches Poll::Bytes(b) ==> b@.len() <= i32::MAX,
    ensures
        answer matches Poll::Bytes(b) ==> r == b@.len(),
        answer is Settle ==> r == 0,
        answer is Exited ==> r == CHILD_EXITED,
{
    match answer {
        Poll::Bytes(b) => b.len() as i32,
        Poll::Settle => 0,
        Poll::Exited => CHILD_EXITED,
    }
}

/// The code of an operation on a handle: its own code when the handle
/// names a live session, `ERROR` when it names none.
pub fn lookup_code(found: Option<i32>) -> (r: i32)
    ensures
        found matches Some(c) ==> r == c,
        found is None ==> r == ERROR,
{
    match found {
        Some(c) => c,
        None => ERROR,
    }
}

} // verus!
