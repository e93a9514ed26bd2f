use qmp_uds_mon_manager::registry::SocketMove;
use qmp_uds_mon_manager::sockets::{
    backend_socket_file_name, check_moved_client_path, check_restore, move_attempt_step, no_file_name, MoveStep,
    no_unused_backend_path, require_socket, stale_socket_action, IoFailureKind, MOVE_ATTEMPTS,
};

#[test]
fn stale_sockets_are_removed_and_other_files_kept() {
    assert_eq!(stale_socket_action("/tmp/x.sock", None).unwrap(), false);
    assert_eq!(stale_socket_action("/tmp/x.sock", Some(true)).unwrap(), true);
    let f = stale_socket_action("/tmp/x.sock", Some(false)).unwrap_err();
    assert_eq!(f.kind, IoFailureKind::AlreadyExists);
    assert_eq!(f.message, "/tmp/x.sock exists and is not a Unix socket");
}

#[test]
fn non_socket_paths_are_refused() {
    assert!(require_socket("/tmp/q.qmp", true).is_ok());
    let f = require_socket("/tmp/q.qmp", false).unwrap_err();
    assert_eq!(f.kind, IoFailureKind::InvalidInput);
    assert_eq!(f.message, "/tmp/q.qmp exists and is not a Unix socket");
}

#[test]
fn restore_never_overwrites() {
    let mv = SocketMove { original: "/tmp/q.qmp".into(), backend: "/tmp/.q.qmp.b.sock".into() };
    assert!(check_restore(&mv, false).is_ok());
    let f = check_restore(&mv, true).unwrap_err();
    assert_eq!(f.kind, IoFailureKind::AlreadyExists);
    assert_eq!(f.message, "/tmp/q.qmp exists; refusing to overwrite it while restoring /tmp/.q.qmp.b.sock");
}

#[test]
fn moved_client_path_must_stay_free() {
    assert!(check_moved_client_path("/tmp/q.qmp", false).is_ok());
    let f = check_moved_client_path("/tmp/q.qmp", true).unwrap_err();
    assert_eq!(f.message, "/tmp/q.qmp appeared after QEMU socket was moved; refusing to overwrite it");
}

#[test]
fn backend_name_matches_the_demo_log() {
    assert_eq!(
        backend_socket_file_name("qemu-vm0.qmp", 71429, 0),
        ".qemu-vm0.qmp.qmp-uds-mon-manager.71429.0.sock"
    );
    assert_eq!(backend_socket_file_name("q", 1, 99), ".q.qmp-uds-mon-manager.1.99.sock");
    assert_eq!(MOVE_ATTEMPTS, 100);
}

#[test]
fn move_failures_explain_themselves() {
    let f = no_file_name("/");
    assert_eq!(f.kind, IoFailureKind::InvalidInput);
    assert_eq!(f.message, "/ has no file name");
    let f = no_unused_backend_path("/tmp/q.qmp");
    assert_eq!(f.kind, IoFailureKind::AlreadyExists);
    assert_eq!(f.message, "could not generate unused backend socket path for /tmp/q.qmp");
}

#[test]
fn move_attempts_step_through_to_the_limit() {
    assert_eq!(move_attempt_step(0, false), MoveStep::Rename);
    assert_eq!(move_attempt_step(0, true), MoveStep::Next(1));
    assert_eq!(move_attempt_step(98, true), MoveStep::Next(99));
    assert_eq!(move_attempt_step(99, true), MoveStep::GiveUp);
    assert_eq!(move_attempt_step(99, false), MoveStep::Rename);
}
