use qmp_uds_mon_manager::json::Json;
use qmp_uds_mon_manager::qmp::{
    check_backend_negotiation, check_capabilities_reply, check_greeting, client_result_value,
    client_session_step, is_qmp_capabilities, local_qmp_capabilities_response, reply_messages,
    socket_closed_error, validate_qmp_command_value, CollectStep, QmpError, QmpResponse,
    ResponseCollector, SessionStep,
};

fn s(x: &str) -> Json {
    Json::Str(x.to_string())
}

fn obj(members: Vec<(&str, Json)>) -> Json {
    Json::Object(members.into_iter().map(|(k, v)| (k.to_string(), v)).collect())
}

fn member_str(v: &Json, key: &str) -> Option<String> {
    v.get(key).and_then(|x| x.as_str()).cloned()
}

#[test]
fn command_must_be_an_object() {
    let r = validate_qmp_command_value(&Json::Array(vec![]));
    assert_eq!(r.unwrap_err(), "QMP command body must be a JSON object");
    let r = validate_qmp_command_value(&s("query-status"));
    assert_eq!(r.unwrap_err(), "QMP command body must be a JSON object");
}

#[test]
fn command_needs_execute_or_exec_oob() {
    let r = validate_qmp_command_value(&obj(vec![("arguments", obj(vec![]))]));
    assert_eq!(r.unwrap_err(), "QMP command body must contain 'execute' or 'exec-oob'");
    assert!(validate_qmp_command_value(&obj(vec![("execute", s("query-status"))])).is_ok());
    assert!(validate_qmp_command_value(&obj(vec![("exec-oob", s("migrate-pause"))])).is_ok());
}

#[test]
fn capabilities_command_is_recognised() {
    assert!(is_qmp_capabilities(&obj(vec![("execute", s("qmp_capabilities"))])));
    assert!(!is_qmp_capabilities(&obj(vec![("execute", s("query-status"))])));
    assert!(!is_qmp_capabilities(&obj(vec![("exec-oob", s("qmp_capabilities"))])));
    assert!(!is_qmp_capabilities(&obj(vec![("execute", Json::Number("1".into()))])));
    assert!(!is_qmp_capabilities(&s("qmp_capabilities")));
}

#[test]
fn capabilities_answer_without_id() {
    let r = local_qmp_capabilities_response(&obj(vec![("execute", s("qmp_capabilities"))]));
    assert!(matches!(r.get("return"), Some(Json::Object(m)) if m.is_empty()));
    assert!(r.get("id").is_none());
}

#[test]
fn capabilities_answer_keeps_id() {
    let cmd = obj(vec![("execute", s("qmp_capabilities")), ("id", obj(vec![("n", Json::Number("7".into()))]))]);
    let r = local_qmp_capabilities_response(&cmd);
    assert!(matches!(r.get("return"), Some(Json::Object(m)) if m.is_empty()));
    let id = r.get("id").unwrap();
    assert!(matches!(id.get("n"), Some(Json::Number(n)) if n == "7"));
}

#[test]
fn events_are_collected_before_reply() {
    let c = ResponseCollector::new();
    let c = match c.accept(obj(vec![("event", s("STOP"))])) {
        CollectStep::Pending(c) => c,
        _ => panic!("event must keep waiting"),
    };
    let c = match c.accept(obj(vec![("event", s("RESUME"))])) {
        CollectStep::Pending(c) => c,
        _ => panic!("event must keep waiting"),
    };
    match c.accept(obj(vec![("return", obj(vec![]))])) {
        CollectStep::Complete(resp) => {
            assert_eq!(resp.events.len(), 2);
            assert_eq!(member_str(&resp.events[0], "event").unwrap(), "STOP");
            assert_eq!(member_str(&resp.events[1], "event").unwrap(), "RESUME");
            assert!(resp.response.get("return").is_some());
        }
        _ => panic!("return must complete"),
    }
}

#[test]
fn error_reply_completes() {
    let c = ResponseCollector::new();
    match c.accept(obj(vec![("error", obj(vec![("class", s("GenericError"))]))])) {
        CollectStep::Complete(resp) => {
            assert!(resp.events.is_empty());
            assert!(resp.response.get("error").is_some());
        }
        _ => panic!("error must complete"),
    }
}

#[test]
fn unexpected_message_fails() {
    let c = ResponseCollector::new();
    match c.accept(obj(vec![("QMP", obj(vec![]))])) {
        CollectStep::Failed(QmpError::Protocol(m)) => {
            assert_eq!(m, "unexpected QMP message: {\"QMP\":{}}")
        }
        _ => panic!("must fail"),
    }
}

#[test]
fn closed_socket_ends_session_normally() {
    assert!(matches!(client_session_step(Err(socket_closed_error())), SessionStep::Finish(Ok(()))));
}

#[test]
fn read_errors_end_session_with_error() {
    match client_session_step(Err(QmpError::Json("expected value".into()))) {
        SessionStep::Finish(Err(QmpError::Json(m))) => assert_eq!(m, "expected value"),
        _ => panic!("must finish with the error"),
    }
    match client_session_step(Err(QmpError::Protocol("other".into()))) {
        SessionStep::Finish(Err(QmpError::Protocol(m))) => assert_eq!(m, "other"),
        _ => panic!("must finish with the error"),
    }
}

#[test]
fn malformed_client_command_ends_session() {
    match client_session_step(Ok(obj(vec![("arguments", obj(vec![]))]))) {
        SessionStep::Finish(Err(QmpError::Protocol(m))) => {
            assert_eq!(m, "QMP command body must contain 'execute' or 'exec-oob'")
        }
        _ => panic!("must end the session"),
    }
}

#[test]
fn client_handshake_is_answered_locally() {
    let cmd = obj(vec![("execute", s("qmp_capabilities")), ("id", s("a1"))]);
    match client_session_step(Ok(cmd)) {
        SessionStep::Reply(r) => {
            assert!(r.get("return").is_some());
            assert_eq!(member_str(&r, "id").unwrap(), "a1");
        }
        _ => panic!("handshake must be answered locally"),
    }
}

#[test]
fn other_commands_are_forwarded() {
    match client_session_step(Ok(obj(vec![("execute", s("query-status"))]))) {
        SessionStep::Forward(c) => assert_eq!(member_str(&c, "execute").unwrap(), "query-status"),
        _ => panic!("must forward"),
    }
}

#[test]
fn forwarded_reply_sends_events_then_answer() {
    let resp = QmpResponse {
        response: obj(vec![("return", obj(vec![]))]),
        events: vec![obj(vec![("event", s("A"))]), obj(vec![("event", s("B"))])],
    };
    let lines = reply_messages(Ok(resp)).ok().unwrap();
    assert_eq!(lines.len(), 3);
    assert_eq!(member_str(&lines[0], "event").unwrap(), "A");
    assert_eq!(member_str(&lines[1], "event").unwrap(), "B");
    assert!(lines[2].get("return").is_some());
    assert!(matches!(reply_messages(Err(QmpError::Disconnected)), Err(QmpError::Disconnected)));
}

#[test]
fn only_transport_failures_stop_the_worker() {
    assert!(QmpError::Io("broken pipe".into()).stops_worker());
    assert!(QmpError::Json("eof".into()).stops_worker());
    assert!(!QmpError::Protocol("x".into()).stops_worker());
    assert!(!QmpError::Disconnected.stops_worker());
}

#[test]
fn greeting_needs_qmp_member() {
    assert!(check_greeting(&obj(vec![("QMP", obj(vec![]))])).is_ok());
    assert_eq!(
        check_greeting(&obj(vec![("return", obj(vec![]))])).unwrap_err(),
        "expected QMP greeting, got {\"return\":{}}"
    );
}

#[test]
fn capabilities_reply_needs_return() {
    assert!(check_capabilities_reply(&obj(vec![("return", obj(vec![]))])).is_ok());
    assert_eq!(
        check_capabilities_reply(&obj(vec![("error", obj(vec![]))])).unwrap_err(),
        "qmp_capabilities failed: {\"error\":{}}"
    );
}

#[test]
fn backend_negotiation_needs_return() {
    assert!(check_backend_negotiation(&obj(vec![("return", obj(vec![]))])).is_ok());
    match check_backend_negotiation(&obj(vec![("error", obj(vec![]))])) {
        Err(QmpError::Protocol(m)) => {
            assert_eq!(m, "QMP capability negotiation failed: {\"error\":{}}")
        }
        _ => panic!("must fail"),
    }
}

#[test]
fn client_result_is_bare_answer_without_events() {
    let r = client_result_value(QmpResponse { response: obj(vec![("return", s("x"))]), events: vec![] });
    assert_eq!(member_str(&r, "return").unwrap(), "x");
}

#[test]
fn client_result_wraps_answer_with_events() {
    let r = client_result_value(QmpResponse {
        response: obj(vec![("return", s("x"))]),
        events: vec![obj(vec![("event", s("E"))])],
    });
    assert_eq!(member_str(r.get("response").unwrap(), "return").unwrap(), "x");
    assert!(matches!(r.get("events"), Some(Json::Array(v)) if v.len() == 1));
}

#[test]
fn json_get_finds_first_member_and_clone_copies() {
    let v = obj(vec![("a", s("1")), ("b", Json::Array(vec![Json::Null, Json::Bool(true)]))]);
    assert_eq!(member_str(&v, "a").unwrap(), "1");
    assert!(v.get("c").is_none());
    assert!(s("a").get("a").is_none());
    let c = v.deep_clone();
    assert!(matches!(c.get("b"), Some(Json::Array(items)) if items.len() == 2 && matches!(items[1], Json::Bool(true))));
}
