use qmp_uds_mon_manager::json::{json_line_text, render, Json};
use qmp_uds_mon_manager::qmp::{client_capabilities_command_value, json_line, QmpError};

fn obj(members: Vec<(&str, Json)>) -> Json {
    Json::Object(members.into_iter().map(|(k, v)| (k.to_string(), v)).collect())
}

#[test]
fn no_bytes_read_means_the_socket_closed() {
    match json_line(0, "") {
        Err(QmpError::Protocol(m)) => assert_eq!(m, "QMP socket closed"),
        other => panic!("expected a closed socket, got {:?}", other),
    }
}

#[test]
fn a_line_is_parsed_as_json() {
    let j = json_line(8, "{\"a\":1}\n").unwrap();
    assert!(matches!(j.get("a"), Some(Json::Number(n)) if n == "1"));
}

#[test]
fn a_bad_line_is_a_json_error() {
    let expected = serde_json::from_str::<serde_json::Value>("{x\n").unwrap_err().to_string();
    match json_line(3, "{x\n") {
        Err(QmpError::Json(m)) => assert_eq!(m, expected),
        other => panic!("expected a JSON error, got {:?}", other),
    }
}

#[test]
fn render_writes_compact_json() {
    let j = obj(vec![
        ("return", obj(vec![])),
        ("id", Json::Array(vec![Json::Number("7".into()), Json::Null, Json::Bool(true), Json::Str("x".into())])),
    ]);
    assert_eq!(render(&j), r#"{"id":[7,null,true,"x"],"return":{}}"#);
}

#[test]
fn a_json_line_ends_with_a_newline() {
    let j = obj(vec![("execute", Json::Str("query-status".into()))]);
    assert_eq!(json_line_text(&j), "{\"execute\":\"query-status\"}\n");
}

#[test]
fn the_client_handshake_is_qmp_capabilities() {
    assert_eq!(render(&client_capabilities_command_value()), r#"{"execute":"qmp_capabilities"}"#);
}
