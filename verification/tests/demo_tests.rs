use qmp_uds_mon_manager::demo::{
    default_command_value, direct_config, RegistrationLog, format_vm_id, parallel_config, parallel_run_result,
    registration_body_value, render_template, vm_failure, DirectArgs, ParallelArgs, VmConfig,
};
use qmp_uds_mon_manager::json::Json;

fn args(count: usize, clients: usize, qmp: &str, client: &str) -> ParallelArgs {
    ParallelArgs {
        manager_socket: "/tmp/qmp-uds-mon-manager.sock".to_string(),
        vm_id_prefix: "vm".to_string(),
        qmp_socket_template: qmp.to_string(),
        client_socket_template: client.to_string(),
        move_qmp_socket: false,
        vm_count: count,
        clients_per_vm: clients,
        qmp_json: None,
    }
}

fn command_execute(c: &Json) -> Option<String> {
    c.get("execute").and_then(|v| v.as_str()).cloned()
}

#[test]
fn single_vm_id_is_the_prefix() {
    assert_eq!(format_vm_id("vm", 0, 1), "vm");
    assert_eq!(format_vm_id("vm", 7, 1), "vm");
}

#[test]
fn multi_vm_ids_are_numbered() {
    assert_eq!(format_vm_id("vm", 0, 4), "vm-0");
    assert_eq!(format_vm_id("vm", 3, 4), "vm-3");
    assert_eq!(format_vm_id("guest", 12, 20), "guest-12");
    assert_eq!(format_vm_id("", 105, 200), "-105");
}

#[test]
fn multi_vm_ids_are_distinct() {
    let ids: Vec<String> = (0..25).map(|i| format_vm_id("vm", i, 25)).collect();
    for i in 0..ids.len() {
        for j in 0..ids.len() {
            if i != j {
                assert_ne!(ids[i], ids[j]);
            }
        }
    }
}

#[test]
fn template_placeholder_is_replaced() {
    let r = render_template("/tmp/qemu-vm{i}.qmp", 2, 4, "qemu-qmp-socket-template");
    assert_eq!(r.unwrap(), "/tmp/qemu-vm2.qmp");
}

#[test]
fn every_placeholder_is_replaced() {
    let r = render_template("/run/{i}/vm{i}.sock", 10, 11, "client-socket-template");
    assert_eq!(r.unwrap(), "/run/10/vm10.sock");
}

#[test]
fn placeholder_inside_braces() {
    assert_eq!(render_template("a{{i}}b", 3, 5, "t").unwrap(), "a{3}b");
}

#[test]
fn single_vm_exact_path_is_kept() {
    let r = render_template("/tmp/qemu-vm1.qmp", 0, 1, "qemu-qmp-socket-template");
    assert_eq!(r.unwrap(), "/tmp/qemu-vm1.qmp");
}

#[test]
fn single_vm_placeholder_still_replaced() {
    assert_eq!(render_template("/tmp/vm{i}.qmp", 0, 1, "t").unwrap(), "/tmp/vm0.qmp");
}

#[test]
fn multi_vm_template_without_placeholder_is_refused() {
    let r = render_template("/tmp/qemu.qmp", 1, 2, "client-socket-template");
    assert_eq!(
        r.unwrap_err(),
        "client-socket-template must contain '{i}' when VM count is greater than one"
    );
}

#[test]
fn parallel_config_rejects_zero_vms() {
    let r = parallel_config(args(0, 3, "/q{i}", "/c{i}"));
    assert_eq!(r.err().unwrap(), "VM count must be greater than zero");
}

#[test]
fn parallel_config_rejects_zero_clients() {
    let r = parallel_config(args(2, 0, "/q{i}", "/c{i}"));
    assert_eq!(r.err().unwrap(), "clients-per-vm must be greater than zero");
}

#[test]
fn parallel_config_reports_bad_json() {
    let mut a = args(2, 1, "/q{i}", "/c{i}");
    a.qmp_json = Some("{".to_string());
    let r = parallel_config(a);
    let expected = serde_json::from_str::<serde_json::Value>("{").unwrap_err();
    assert_eq!(r.err().unwrap(), format!("invalid QMP JSON command: {}", expected));
}

#[test]
fn parallel_config_reports_qmp_template_first() {
    let r = parallel_config(args(2, 1, "/q", "/c"));
    assert_eq!(
        r.err().unwrap(),
        "qemu-qmp-socket-template must contain '{i}' when VM count is greater than one"
    );
}

#[test]
fn parallel_config_reports_client_template() {
    let r = parallel_config(args(2, 1, "/q{i}", "/c"));
    assert_eq!(
        r.err().unwrap(),
        "client-socket-template must contain '{i}' when VM count is greater than one"
    );
}

#[test]
fn parallel_config_builds_every_vm() {
    let mut a = args(3, 20, "/tmp/qemu-vm{i}.qmp", "/tmp/vm{i}-managed.qmp");
    a.move_qmp_socket = true;
    let cfg = parallel_config(a).ok().unwrap();
    assert_eq!(cfg.manager_socket, "/tmp/qmp-uds-mon-manager.sock");
    assert_eq!(cfg.clients_per_vm, 20);
    assert_eq!(cfg.vms.len(), 3);
    assert_eq!(cfg.vms[2].id, "vm-2");
    assert_eq!(cfg.vms[2].qmp_socket, "/tmp/qemu-vm2.qmp");
    assert_eq!(cfg.vms[2].client_socket, "/tmp/vm2-managed.qmp");
    assert!(cfg.vms[0].move_qmp_socket);
    assert_eq!(command_execute(&cfg.command).unwrap(), "query-status");
}

#[test]
fn parallel_config_keeps_given_command() {
    let mut a = args(1, 1, "/q", "/c");
    a.qmp_json = Some(r#"{"execute":"query-version"}"#.to_string());
    let cfg = parallel_config(a).ok().unwrap();
    assert_eq!(command_execute(&cfg.command).unwrap(), "query-version");
    assert_eq!(cfg.vms[0].id, "vm");
    assert_eq!(cfg.vms[0].qmp_socket, "/q");
}

#[test]
fn default_command_is_query_status() {
    assert_eq!(command_execute(&default_command_value()).unwrap(), "query-status");
}

#[test]
fn direct_config_checks_clients_then_timeout() {
    let r = direct_config(DirectArgs { qmp_socket: "/q".into(), clients: 0, timeout_ms: 0, qmp_json: None });
    assert_eq!(r.err().unwrap(), "clients must be greater than zero");
    let r = direct_config(DirectArgs { qmp_socket: "/q".into(), clients: 2, timeout_ms: 0, qmp_json: None });
    assert_eq!(r.err().unwrap(), "timeout-ms must be greater than zero");
    let r = direct_config(DirectArgs {
        qmp_socket: "/q".into(),
        clients: 2,
        timeout_ms: 5000,
        qmp_json: Some("bad".into()),
    });
    let expected = serde_json::from_str::<serde_json::Value>("bad").unwrap_err();
    assert_eq!(r.err().unwrap(), format!("invalid QMP JSON command: {}", expected));
}

#[test]
fn direct_config_keeps_options() {
    let cfg = direct_config(DirectArgs { qmp_socket: "/q".into(), clients: 20, timeout_ms: 5000, qmp_json: None })
        .ok()
        .unwrap();
    assert_eq!(cfg.qmp_socket, "/q");
    assert_eq!(cfg.clients, 20);
    assert_eq!(cfg.timeout_ms, 5000);
    assert_eq!(command_execute(&cfg.command).unwrap(), "query-status");
}

#[test]
fn registration_body_has_three_members() {
    let vm = VmConfig {
        id: "vm1".into(),
        qmp_socket: "/tmp/qemu-vm1.qmp".into(),
        client_socket: "/tmp/vm1-managed.qmp".into(),
        move_qmp_socket: false,
    };
    let body = registration_body_value(&vm);
    assert!(matches!(body.get("qmp_socket"), Some(Json::Str(s)) if s == "/tmp/qemu-vm1.qmp"));
    assert!(matches!(body.get("client_socket"), Some(Json::Str(s)) if s == "/tmp/vm1-managed.qmp"));
    assert!(matches!(body.get("move_qmp_socket"), Some(Json::Bool(false))));
    assert!(body.get("id").is_none());
}

#[test]
fn failure_lines_name_the_vm() {
    assert_eq!(vm_failure("vm-1", "connection refused"), "vm-1: connection refused");
}

#[test]
fn run_result_all_good() {
    assert!(parallel_run_result(&vec![], &vec![]).is_ok());
}

#[test]
fn run_result_registration_failures() {
    let r = parallel_run_result(&vec!["vm-0: a".to_string(), "vm-1: b".to_string()], &vec![]);
    assert_eq!(r.unwrap_err(), "failed to register one or more VMs: vm-0: a; vm-1: b");
}

#[test]
fn run_result_cleanup_failures() {
    let r = parallel_run_result(&vec![], &vec!["vm-0: c".to_string()]);
    assert_eq!(r.unwrap_err(), "failed to unregister one or more VMs: vm-0: c");
}

#[test]
fn run_result_both_failures() {
    let r = parallel_run_result(&vec!["vm-0: a".to_string()], &vec!["vm-1: c".to_string()]);
    assert_eq!(
        r.unwrap_err(),
        "failed to register one or more VMs: vm-0: a; failed to unregister one or more VMs: vm-1: c"
    );
}

#[test]
fn registration_log_records_and_reverses() {
    let mut log = RegistrationLog::new();
    log.record(0, "vm-0", Ok(()));
    log.record(1, "vm-1", Err("refused".to_string()));
    log.record(2, "vm-2", Ok(()));
    assert_eq!(log.registered, vec![0, 2]);
    assert_eq!(log.errors, vec!["vm-1: refused".to_string()]);
    assert_eq!(log.cleanup_order(), vec![2, 0]);
}

#[test]
fn rendered_paths_differ_by_index() {
    let paths: Vec<String> =
        (0..120).map(|i| render_template("/tmp/vm{i}.qmp", i, 120, "t").unwrap()).collect();
    for a in 0..paths.len() {
        for b in 0..paths.len() {
            if a != b {
                assert_ne!(paths[a], paths[b]);
            }
        }
    }
}
