use qmp_uds_mon_manager::json::Json;
use qmp_uds_mon_manager::manager::{
    check_registration, error_response, new_vm_record, passthrough_target, registration_reply_value,
    resolve_client_socket, take_vm, validate_qmp_command, AppError, RegisterVm,
};
use qmp_uds_mon_manager::qmp::QmpError;
use qmp_uds_mon_manager::registry::{SocketMove, VmRecord, VmRegistry};

fn body(qmp: &str, client: Option<&str>, mv: bool) -> RegisterVm {
    RegisterVm {
        qmp_socket: qmp.to_string(),
        client_socket: client.map(|c| c.to_string()),
        move_qmp_socket: mv,
    }
}

fn record(qmp: &str, client: &str) -> VmRecord {
    new_vm_record(&body(qmp, Some(client), false), client.to_string(), None)
}

fn bad_request(r: Result<String, AppError>) -> String {
    match r {
        Err(AppError::BadRequest(m)) => m,
        other => panic!("expected bad request, got {:?}", other),
    }
}

#[test]
fn moved_socket_defaults_client_to_qmp_socket() {
    let r = resolve_client_socket(&body("/tmp/qemu-vm1.qmp", None, true));
    assert_eq!(r.unwrap(), "/tmp/qemu-vm1.qmp");
}

#[test]
fn moved_socket_accepts_equal_client() {
    let r = resolve_client_socket(&body("/tmp/qemu-vm1.qmp", Some("/tmp/qemu-vm1.qmp"), true));
    assert_eq!(r.unwrap(), "/tmp/qemu-vm1.qmp");
}

#[test]
fn moved_socket_compares_paths_not_text() {
    let r = resolve_client_socket(&body("/tmp/qemu-vm1.qmp", Some("/tmp//qemu-vm1.qmp"), true));
    assert_eq!(r.unwrap(), "/tmp//qemu-vm1.qmp");
}

#[test]
fn moved_socket_refuses_other_client() {
    let m = bad_request(resolve_client_socket(&body("/tmp/a.qmp", Some("/tmp/b.qmp"), true)));
    assert_eq!(
        m,
        "client_socket must equal qmp_socket when move_qmp_socket is true; got /tmp/b.qmp and /tmp/a.qmp"
    );
}

#[test]
fn plain_registration_uses_client_socket() {
    let r = resolve_client_socket(&body("/tmp/a.qmp", Some("/tmp/b.qmp"), false));
    assert_eq!(r.unwrap(), "/tmp/b.qmp");
}

#[test]
fn plain_registration_needs_client_socket() {
    let m = bad_request(resolve_client_socket(&body("/tmp/a.qmp", None, false)));
    assert_eq!(m, "client_socket is required unless move_qmp_socket is true");
}

#[test]
fn blank_ids_are_refused() {
    let reg: VmRegistry<u32> = VmRegistry::new();
    let b = body("/tmp/a.qmp", Some("/tmp/b.qmp"), false);
    assert_eq!(bad_request(check_registration(&reg, "", &b)), "VM id must not be empty");
    assert_eq!(bad_request(check_registration(&reg, " \t\n\u{a0}", &b)), "VM id must not be empty");
    assert!(check_registration(&reg, " vm1 ", &b).is_ok());
}

#[test]
fn duplicate_registration_is_a_conflict() {
    let mut reg: VmRegistry<u32> = VmRegistry::new();
    reg.insert("vm1".into(), record("/tmp/a.qmp", "/tmp/b.qmp"), 1);
    match check_registration(&reg, "vm1", &body("/tmp/c.qmp", Some("/tmp/d.qmp"), false)) {
        Err(AppError::Conflict(m)) => assert_eq!(m, "VM 'vm1' already exists"),
        other => panic!("expected conflict, got {:?}", other),
    }
}

#[test]
fn same_paths_without_move_are_refused() {
    let reg: VmRegistry<u32> = VmRegistry::new();
    let m = bad_request(check_registration(&reg, "vm1", &body("/tmp/a.qmp", Some("/tmp/a.qmp"), false)));
    assert_eq!(m, "qmp_socket and client_socket must be different paths");
    let m = bad_request(check_registration(&reg, "vm1", &body("/tmp/a.qmp", Some("/tmp/./a.qmp"), false)));
    assert_eq!(m, "qmp_socket and client_socket must be different paths");
}

#[test]
fn registration_checks_resolution_before_conflict() {
    let mut reg: VmRegistry<u32> = VmRegistry::new();
    reg.insert("vm1".into(), record("/tmp/a.qmp", "/tmp/b.qmp"), 1);
    let m = bad_request(check_registration(&reg, "vm1", &body("/tmp/a.qmp", None, false)));
    assert_eq!(m, "client_socket is required unless move_qmp_socket is true");
}

#[test]
fn moved_registration_passes() {
    let reg: VmRegistry<u32> = VmRegistry::new();
    let r = check_registration(&reg, "vm1", &body("/tmp/qemu-vm1.qmp", None, true));
    assert_eq!(r.unwrap(), "/tmp/qemu-vm1.qmp");
}

#[test]
fn record_uses_moved_backend() {
    let b = body("/tmp/qemu-vm0.qmp", None, true);
    let mv = SocketMove {
        original: "/tmp/qemu-vm0.qmp".into(),
        backend: "/tmp/.qemu-vm0.qmp.qmp-uds-mon-manager.7.0.sock".into(),
    };
    let r = new_vm_record(&b, "/tmp/qemu-vm0.qmp".into(), Some(mv));
    assert_eq!(r.backend_qmp_socket, "/tmp/.qemu-vm0.qmp.qmp-uds-mon-manager.7.0.sock");
    assert_eq!(r.qmp_socket, "/tmp/qemu-vm0.qmp");
    let plain = record("/tmp/a.qmp", "/tmp/b.qmp");
    assert_eq!(plain.backend_qmp_socket, "/tmp/a.qmp");
    assert!(plain.socket_move.is_none());
}

#[test]
fn registry_lists_sorted_by_id() {
    let mut reg: VmRegistry<u32> = VmRegistry::new();
    reg.insert("vm2".into(), record("/q2", "/c2"), 2);
    reg.insert("vm10".into(), record("/q10", "/c10"), 10);
    reg.insert("a".into(), record("/qa", "/ca"), 0);
    reg.insert("vm1".into(), record("/q1", "/c1"), 1);
    let ids: Vec<String> = reg.list().into_iter().map(|i| i.id).collect();
    assert_eq!(ids, vec!["a", "vm1", "vm10", "vm2"]);
    let info = &reg.list()[1];
    assert_eq!(info.qmp_socket, "/q1");
    assert_eq!(info.client_socket, "/c1");
    assert!(!info.moved_qmp_socket);
}

#[test]
fn registry_orders_by_code_point() {
    let mut reg: VmRegistry<u32> = VmRegistry::new();
    reg.insert("\u{e9}".into(), record("/q", "/c"), 0);
    reg.insert("z".into(), record("/q", "/c"), 1);
    reg.insert("Z".into(), record("/q", "/c"), 2);
    let ids: Vec<String> = reg.list().into_iter().map(|i| i.id).collect();
    let mut sorted = ids.clone();
    sorted.sort();
    assert_eq!(ids, sorted);
}

#[test]
fn register_then_remove_gives_back_entry() {
    let mut reg: VmRegistry<u32> = VmRegistry::new();
    reg.insert("vm0".into(), record("/q0", "/c0"), 7);
    assert!(reg.insert("vm1".into(), record("/q1", "/c1"), 8).is_none());
    assert!(reg.contains("vm1"));
    assert_eq!(*reg.handle("vm1").unwrap(), 8);
    let (rec, h) = take_vm(&mut reg, "vm1").ok().unwrap();
    assert_eq!(h, 8);
    assert_eq!(rec.client_socket, "/c1");
    assert!(!reg.contains("vm1"));
    assert!(reg.contains("vm0"));
    assert_eq!(reg.list().len(), 1);
}

#[test]
fn insert_replaces_and_returns_previous() {
    let mut reg: VmRegistry<u32> = VmRegistry::new();
    reg.insert("vm".into(), record("/q", "/c"), 1);
    let prev = reg.insert("vm".into(), record("/q2", "/c2"), 2).unwrap();
    assert_eq!(prev.1, 1);
    assert_eq!(prev.0.qmp_socket, "/q");
    assert_eq!(*reg.handle("vm").unwrap(), 2);
    assert_eq!(reg.list().len(), 1);
}

#[test]
fn removing_unknown_vm_is_not_found() {
    let mut reg: VmRegistry<u32> = VmRegistry::new();
    match take_vm(&mut reg, "ghost") {
        Err(AppError::NotFound(m)) => assert_eq!(m, "VM 'ghost' does not exist"),
        _ => panic!("expected not found"),
    }
}

#[test]
fn passthrough_validates_then_finds_vm() {
    let mut reg: VmRegistry<u32> = VmRegistry::new();
    reg.insert("vm1".into(), record("/q", "/c"), 5);
    let cmd = Json::Object(vec![("execute".into(), Json::Str("query-status".into()))]);
    assert_eq!(*passthrough_target(&reg, "vm1", &cmd).ok().unwrap(), 5);
    match passthrough_target(&reg, "vm9", &cmd) {
        Err(AppError::NotFound(m)) => assert_eq!(m, "VM 'vm9' does not exist"),
        _ => panic!("expected not found"),
    }
    match passthrough_target(&reg, "vm9", &Json::Null) {
        Err(AppError::BadRequest(m)) => assert_eq!(m, "QMP command body must be a JSON object"),
        _ => panic!("expected bad request"),
    }
    assert!(validate_qmp_command(&cmd).is_ok());
}

#[test]
fn errors_map_to_http_statuses() {
    let msg = |e: &Json| match e.get("error") {
        Some(Json::Str(m)) => m.clone(),
        _ => panic!("no error member"),
    };
    let (st, b) = error_response(&AppError::BadRequest("bad".into()));
    assert_eq!((st, msg(&b)), (400, "bad".to_string()));
    let (st, b) = error_response(&AppError::Conflict("dup".into()));
    assert_eq!((st, msg(&b)), (409, "dup".to_string()));
    let (st, b) = error_response(&AppError::NotFound("gone".into()));
    assert_eq!((st, msg(&b)), (404, "gone".to_string()));
    let (st, b) = error_response(&AppError::Qmp(QmpError::Io("broken pipe".into())));
    assert_eq!((st, msg(&b)), (502, "QMP I/O error: broken pipe".to_string()));
    let (st, b) = error_response(&AppError::Qmp(QmpError::Json("eof".into())));
    assert_eq!((st, msg(&b)), (502, "QMP JSON error: eof".to_string()));
    let (st, b) = error_response(&AppError::Qmp(QmpError::Protocol("p".into())));
    assert_eq!((st, msg(&b)), (502, "p".to_string()));
    let (st, b) = error_response(&AppError::Qmp(QmpError::Disconnected));
    assert_eq!((st, msg(&b)), (502, "QMP worker disconnected".to_string()));
}

#[test]
fn registration_reply_reports_paths() {
    let b = body("/tmp/qemu-vm1.qmp", None, true);
    let r = registration_reply_value("vm1", &b, "/tmp/qemu-vm1.qmp");
    assert!(matches!(r.get("id"), Some(Json::Str(s)) if s == "vm1"));
    assert!(matches!(r.get("client_socket"), Some(Json::Str(s)) if s == "/tmp/qemu-vm1.qmp"));
    assert!(matches!(r.get("moved_qmp_socket"), Some(Json::Bool(true))));
}

#[test]
fn moved_socket_refuses_a_different_client() {
    let r = resolve_client_socket(&body("/tmp/qemu-vm1.qmp", Some("/tmp/vm1-managed.qmp"), true));
    assert_eq!(
        bad_request(r),
        "client_socket must equal qmp_socket when move_qmp_socket is true; got /tmp/vm1-managed.qmp and /tmp/qemu-vm1.qmp"
    );
}

#[test]
fn moved_socket_accepts_the_same_path_written_otherwise() {
    let r = resolve_client_socket(&body("/tmp/qemu-vm1.qmp", Some("/tmp//qemu-vm1.qmp/"), true));
    assert_eq!(r.unwrap(), "/tmp//qemu-vm1.qmp/");
}

#[test]
fn leading_current_directory_makes_a_different_path() {
    let reg: VmRegistry<u32> = VmRegistry::new();
    assert!(check_registration(&reg, "vm1", &body("a.qmp", Some("./a.qmp"), false)).is_ok());
    let m = bad_request(check_registration(&reg, "vm1", &body("a.qmp", Some("a.qmp/."), false)));
    assert_eq!(m, "qmp_socket and client_socket must be different paths");
}
