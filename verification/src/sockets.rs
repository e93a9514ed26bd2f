//! Decisions about socket files: which stale sockets may be removed, when a
//! path is refused, and the hidden name under which QEMU's socket is moved.

use vstd::prelude::*;
use vstd::string::StringExecFns;
use crate::registry::{SocketMove, SocketMoveView};
use crate::text::{concat, decimal, decimal_string};

verus! {

/// The kind of a refused file operation, as `std::io::ErrorKind` names it.
#[derive(Debug, PartialEq, Eq, Structural, Clone, Copy)]
pub enum IoFailureKind {
    AlreadyExists,
    InvalidInput,
}

/// A refused file operation.
#[derive(Debug)]
pub struct IoFailure {
    pub kind: IoFailureKind,
    pub message: String,
}

/// The text refusing a path that is not a Unix socket.
pub open spec fn not_socket_text(path: Seq<char>) -> Seq<char> {
    path + " exists and is not a Unix socket"@
}

/// What to do about a possibly stale socket at `path` before binding there,
/// given what inspecting the path found (`None` when it could not be
/// inspected, `Some(true)` for a Unix socket, `Some(false)` for anything
/// else): `Ok(true)` removes it, `Ok(false)` leaves the path alone, and any
/// other file is never overwritten.
pub fn stale_socket_action(path: &str, probe: Option<bool>) -> (r: Result<bool, IoFailure>)
    ensures
        probe is None ==> r == Ok::<bool, IoFailure>(false),
        probe == Some(true) ==> r == Ok::<bool, IoFailure>(true),
        probe == Some(false) ==> (r matches Err(f) && f.kind == IoFailureKind::AlreadyExists
            && f.message@ == not_socket_text(path@)),
{
    match probe {
        None => Ok(false),
        Some(true) => Ok(true),
        Some(false) => Err(
            IoFailure {
                kind: IoFailureKind::AlreadyExists,
                message: concat(path, " exists and is not a Unix socket"),
            },
        ),
    }
}

/// An existing path that must be a Unix socket is refused otherwise.
pub fn require_socket(path: &str, is_socket: bool) -> (r: Result<(), IoFailure>)
    ensures
        is_socket ==> r is Ok,
        !is_socket ==> (r matches Err(f) && f.kind == IoFailureKind::InvalidInput && f.message@
            == not_socket_text(path@)),
{
    if is_socket {
        Ok(())
    } else {
        Err(
            IoFailure {
                kind: IoFailureKind::InvalidInput,
                message: concat(path, " exists and is not a Unix socket"),
            },
        )
    }
}

/// Restoring a moved socket never overwrites a file that now occupies the
/// original path.
pub fn check_restore(socket_move: &SocketMove, original_exists: bool) -> (r: Result<(), IoFailure>)
    ensures
        !original_exists ==> r is Ok,
        original_exists ==> (r matches Err(f) && f.kind == IoFailureKind::AlreadyExists
            && f.message@ == socket_move@.original
            + " exists; refusing to overwrite it while restoring "@ + socket_move@.backend),
{
    if original_exists {
        let mut m = concat(
            socket_move.original.as_str(),
            " exists; refusing to overwrite it while restoring ",
        );
        m.append(socket_move.backend.as_str());
        return Err(IoFailure { kind: IoFailureKind::AlreadyExists, message: m });
    }
    Ok(())
}

/// After QEMU's socket was moved aside, a file that appears at the client
/// socket path is never overwritten.
pub fn check_moved_client_path(client_socket: &str, exists: bool) -> (r: Result<(), IoFailure>)
    ensures
        !exists ==> r is Ok,
        exists ==> (r matches Err(f) && f.kind == IoFailureKind::AlreadyExists && f.message@
            == client_socket@ + " appeared after QEMU socket was moved; refusing to overwrite it"@),
{
    if exists {
        return Err(
            IoFailure {
                kind: IoFailureKind::AlreadyExists,
                message: concat(
                    client_socket,
                    " appeared after QEMU socket was moved; refusing to overwrite it",
                ),
            },
        );
    }
    Ok(())
}

/// How many hidden names are tried when moving QEMU's socket aside.
pub const MOVE_ATTEMPTS: u32 = 100;

/// What to do with one candidate backend path while moving QEMU's socket.
#[derive(Debug, PartialEq, Eq, Structural, Clone, Copy)]
pub enum MoveStep {
    /// The candidate is free: rename the socket to it.
    Rename,
    /// The candidate is taken: try this attempt next.
    Next(u32),
    /// Every attempt is taken.
    GiveUp,
}

/// The step for `attempt`, given whether its candidate path exists: a free
/// candidate is used; a taken one moves on to the next attempt until
/// `MOVE_ATTEMPTS` attempts have been tried.
pub fn move_attempt_step(attempt: u32, candidate_exists: bool) -> (r: MoveStep)
    ensures
        !candidate_exists ==> r == MoveStep::Rename,
        candidate_exists && attempt + 1 < MOVE_ATTEMPTS ==> r == MoveStep::Next(
            (attempt + 1) as u32,
        ),
        candidate_exists && attempt + 1 >= MOVE_ATTEMPTS ==> r == MoveStep::GiveUp,
{
    if !candidate_exists {
        MoveStep::Rename
    } else if attempt < MOVE_ATTEMPTS - 1 {
        MoveStep::Next(attempt + 1)
    } else {
        MoveStep::GiveUp
    }
}

/// The hidden name, in the same directory, under which QEMU's socket
/// `file_name` is kept while the manager serves the original path.
pub open spec fn backend_socket_name(file_name: Seq<char>, pid: nat, attempt: nat) -> Seq<char> {
    seq!['.'] + file_name + ".qmp-uds-mon-manager."@ + decimal(pid) + seq!['.'] + decimal(attempt)
        + ".sock"@
}

/// Build the hidden backend name for one attempt.
pub fn backend_socket_file_name(file_name: &str, pid: u32, attempt: u32) -> (r: String)
    ensures
        r@ == backend_socket_name(file_name@, pid as nat, attempt as nat),
{
    let mut r = concat(".", file_name);
    r.append(".qmp-uds-mon-manager.");
    r.append(decimal_string(pid as usize).as_str());
    r.append(".");
    r.append(decimal_string(attempt as usize).as_str());
    r.append(".sock");
    proof {
        reveal_strlit(".");
    }
    r
}

/// The refusal of a socket path without a file name.
pub fn no_file_name(path: &str) -> (f: IoFailure)
    ensures
        f.kind == IoFailureKind::InvalidInput,
        f.message@ == path@ + " has no file name"@,
{
    IoFailure { kind: IoFailureKind::InvalidInput, message: concat(path, " has no file name") }
}

/// The failure when every hidden name is taken.
pub fn no_unused_backend_path(original: &str) -> (f: IoFailure)
    ensures
        f.kind == IoFailureKind::AlreadyExists,
        f.message@ == "could not generate unused backend socket path for "@ + original@,
{
    IoFailure {
        kind: IoFailureKind::AlreadyExists,
        message: concat("could not generate unused backend socket path for ", original),
    }
}

} // verus!
