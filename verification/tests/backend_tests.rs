use qmp_uds_mon_manager::backend::{accept_backend_message, backend_greeting_step};
use qmp_uds_mon_manager::json::Json;
use qmp_uds_mon_manager::qmp::{CollectStep, QmpError, ResponseCollector};

fn s(x: &str) -> Json {
    Json::Str(x.to_string())
}

fn n(x: &str) -> Json {
    Json::Number(x.to_string())
}

fn obj(members: Vec<(&str, Json)>) -> Json {
    Json::Object(members.into_iter().map(|(k, v)| (k.to_string(), v)).collect())
}

fn qemu_greeting() -> Json {
    obj(vec![(
        "QMP",
        obj(vec![
            (
                "version",
                obj(vec![
                    ("qemu", obj(vec![("micro", n("0")), ("minor", n("0")), ("major", n("11"))])),
                    ("package", s("")),
                ]),
            ),
            ("capabilities", Json::Array(vec![s("oob")])),
        ]),
    )])
}

#[test]
fn qemu_greeting_leads_to_capabilities_command() {
    let command = backend_greeting_step(&qemu_greeting()).ok().unwrap();
    assert!(matches!(command.get("execute"), Some(Json::Str(x)) if x == "qmp_capabilities"));
    assert!(matches!(command.get("arguments"), Some(Json::Object(m)) if m.is_empty()));
    assert!(command.get("id").is_none());
    assert!(matches!(&command, Json::Object(m) if m.len() == 2));
}

#[test]
fn non_greeting_is_a_json_error() {
    match backend_greeting_step(&obj(vec![("return", obj(vec![]))])) {
        Err(QmpError::Json(m)) => assert!(!m.is_empty()),
        other => panic!("unexpected {:?}", other),
    }
}

#[test]
fn backend_event_then_return() {
    let event = obj(vec![
        ("event", s("STOP")),
        ("timestamp", obj(vec![("seconds", n("1")), ("microseconds", n("2"))])),
    ]);
    let c = match accept_backend_message(ResponseCollector::new(), event) {
        CollectStep::Pending(c) => c,
        _ => panic!("a QMP event must keep waiting"),
    };
    match accept_backend_message(c, obj(vec![("return", obj(vec![]))])) {
        CollectStep::Complete(resp) => assert_eq!(resp.events.len(), 1),
        _ => panic!("a return must complete"),
    }
}

#[test]
fn backend_non_qmp_message_is_a_json_error() {
    match accept_backend_message(ResponseCollector::new(), obj(vec![("foo", n("1"))])) {
        CollectStep::Failed(QmpError::Json(m)) => assert!(!m.is_empty()),
        _ => panic!("qapi must refuse it"),
    }
}
