//! QMP protocol decisions: command validation, the local answer to a
//! client's capability handshake, matching a backend response to the command
//! that caused it, and the per-client session step.

use vstd::prelude::*;
use crate::json::{json_parse, json_parse_error, json_text, parse_json_text, render_json, items_view, lemma_items_view, lemma_members_view, members_view, Json, JsonView};
use crate::text::concat;

verus! {

/// Errors that can occur while speaking to a QMP backend or client.
#[derive(Debug)]
pub enum QmpError {
    /// An I/O failure, with the text that describes it.
    Io(String),
    /// A JSON encoding or decoding failure, with the text that describes it.
    Json(String),
    /// A QMP protocol violation.
    Protocol(String),
    /// The VM's worker is gone.
    Disconnected,
}

/// The mathematical value of a [`QmpError`].
pub enum QmpErrorView {
    Io(Seq<char>),
    Json(Seq<char>),
    Protocol(Seq<char>),
    Disconnected,
}

impl View for QmpError {
    type V = QmpErrorView;

    open spec fn view(&self) -> QmpErrorView {
        match self {
            QmpError::Io(m) => QmpErrorView::Io(m@),
            QmpError::Json(m) => QmpErrorView::Json(m@),
            QmpError::Protocol(m) => QmpErrorView::Protocol(m@),
            QmpError::Disconnected => QmpErrorView::Disconnected,
        }
    }
}

/// The text of the error reported when a QMP peer closes its socket.
pub open spec fn socket_closed_text() -> Seq<char> {
    "QMP socket closed"@
}

/// The error reported when a QMP peer closes its socket.
pub fn socket_closed_error() -> (e: QmpError)
    ensures
        e@ == QmpErrorView::Protocol(socket_closed_text()),
{
    QmpError::Protocol("QMP socket closed".to_owned())
}

/// Read one JSON line from a QMP peer: no bytes read means the peer closed
/// its socket; otherwise the line must be a JSON text.
pub fn json_line(bytes_read: usize, line: &str) -> (r: Result<Json, QmpError>)
    ensures
        bytes_read == 0 ==> (r matches Err(e) && e@ == QmpErrorView::Protocol(socket_closed_text())),
        bytes_read > 0 ==> (r is Ok <==> json_parse(line@) is Some),
        bytes_read > 0 ==> (r matches Ok(j) ==> json_parse(line@) == Some(j@)),
        bytes_read > 0 ==> (r matches Err(e) ==> e@ == QmpErrorView::Json(json_parse_error(line@))),
{
    if bytes_read == 0 {
        return Err(socket_closed_error());
    }
    match parse_json_text(line) {
        Ok(j) => Ok(j),
        Err(m) => Err(QmpError::Json(m)),
    }
}

impl QmpError {
    /// Whether the backend worker stops after this error: only I/O and JSON
    /// failures mean the backend connection is no longer usable.
    pub fn stops_worker(&self) -> (r: bool)
        ensures
            r <==> (self@ is Io || self@ is Json),
    {
        match self {
            QmpError::Io(_) | QmpError::Json(_) => true,
            _ => false,
        }
    }
}

/// The final answer to one command, with the events that QEMU sent before it.
#[derive(Debug)]
pub struct QmpResponse {
    /// Final QMP response, usually containing either `return` or `error`.
    pub response: Json,
    /// Events observed before the command response arrived.
    pub events: Vec<Json>,
}

/// The text rejecting a command that is not a JSON object.
pub open spec fn not_object_text() -> Seq<char> {
    "QMP command body must be a JSON object"@
}

/// The text rejecting an object without `execute` or `exec-oob`.
pub open spec fn no_execute_text() -> Seq<char> {
    "QMP command body must contain 'execute' or 'exec-oob'"@
}

/// A value shaped like a QMP command: an object with `execute` or `exec-oob`.
pub open spec fn is_qmp_command(v: JsonView) -> bool {
    v.is_object() && (v.has("execute"@) || v.has("exec-oob"@))
}

/// Validate that a JSON value is shaped like a QMP command.
pub fn validate_qmp_command_value(command: &Json) -> (r: Result<(), String>)
    ensures
        r is Ok <==> is_qmp_command(command@),
        !command@.is_object() ==> (r matches Err(m) && m@ == not_object_text()),
        command@.is_object() && !is_qmp_command(command@) ==> (r matches Err(m) && m@
            == no_execute_text()),
{
    if !command.is_object() {
        return Err("QMP command body must be a JSON object".to_owned());
    }
    if command.get("execute").is_none() && command.get("exec-oob").is_none() {
        return Err("QMP command body must contain 'execute' or 'exec-oob'".to_owned());
    }
    Ok(())
}

/// The per-client capability handshake: `execute` is the string `qmp_capabilities`.
pub open spec fn is_capabilities_command(v: JsonView) -> bool {
    v.get("execute"@) == Some(JsonView::Str("qmp_capabilities"@))
}

/// Return whether a command is the per-client QMP capability handshake.
pub fn is_qmp_capabilities(command: &Json) -> (r: bool)
    ensures
        r == is_capabilities_command(command@),
{
    match command.get("execute") {
        Some(v) => match v.as_str() {
            Some(s) => {
                let expected = "qmp_capabilities".to_owned();
                *s == expected
            },
            None => false,
        },
        None => false,
    }
}

/// The local answer to a capability handshake: `{"return": {}}`, with the
/// command's `id` copied when it has one.
pub open spec fn capabilities_reply(command: JsonView) -> JsonView {
    let ret = ("return"@, JsonView::Object(Seq::empty()));
    match command.get("id"@) {
        Some(id) => JsonView::Object(seq![ret, ("id"@, id)]),
        None => JsonView::Object(seq![ret]),
    }
}

/// Build a local `qmp_capabilities` success response, preserving `id` if set.
pub fn local_qmp_capabilities_response(command: &Json) -> (r: Json)
    ensures
        r@ == capabilities_reply(command@),
        r@.get("return"@) == Some(JsonView::Object(Seq::empty())),
        command@.get("id"@) matches Some(id) ==> r@.get("id"@) == Some(id),
        command@.get("id"@) is None ==> r@.get("id"@) is None,
{
    let empty: Vec<(String, Json)> = Vec::new();
    let mut members: Vec<(String, Json)> = Vec::new();
    members.push(("return".to_owned(), Json::Object(empty)));
    match command.get("id") {
        Some(id) => {
            members.push(("id".to_owned(), id.deep_clone()));
        },
        None => {},
    }
    let r = Json::Object(members);
    proof {
        lemma_members_view(members@);
        lemma_members_view(Seq::<(String, Json)>::empty());
        assert(members_view(r->Object_0@) =~= capabilities_reply(command@)->Object_0);
        law_capabilities_reply_echoes_id(command@);
    }
    r
}

/// The local answer to a handshake succeeds with an empty `return`, and
/// carries the command's `id` exactly when the command has one, whatever
/// JSON value it is.
pub proof fn law_capabilities_reply_echoes_id(command: JsonView)
    ensures
        capabilities_reply(command).get("return"@) == Some(JsonView::Object(Seq::empty())),
        command.get("id"@) matches Some(id) ==> capabilities_reply(command).get("id"@) == Some(id),
        command.get("id"@) is None ==> capabilities_reply(command).get("id"@) is None,
{
    reveal_strlit("id");
    reveal_strlit("return");
    let m = capabilities_reply(command)->Object_0;
    assert(m[0].0 == "return"@);
    assert("return"@.len() == 6 && "id"@.len() == 2);
    assert(m[0].0 != "id"@);
    assert(m.drop_first().len() > 0 ==> m.drop_first()[0] == m[1]);
    reveal_with_fuel(crate::json::member, 3);
}


/// An asynchronous QMP event.
pub open spec fn is_event(m: JsonView) -> bool {
    m.has("event"@)
}

/// A command's final answer: it carries `return` or `error`.
pub open spec fn is_final_reply(m: JsonView) -> bool {
    m.has("return"@) || m.has("error"@)
}

/// What reading one more backend message does to a pending command.
pub enum CollectOutcome {
    /// Still waiting; these events have been seen so far.
    Pending(Seq<JsonView>),
    /// The command's answer, with the events seen before it.
    Complete(JsonView, Seq<JsonView>),
    /// A message that is neither an event nor an answer.
    Unexpected,
}

/// One step of waiting for a command's answer.
pub open spec fn collect_step(events: Seq<JsonView>, m: JsonView) -> CollectOutcome {
    if is_event(m) {
        CollectOutcome::Pending(events.push(m))
    } else if is_final_reply(m) {
        CollectOutcome::Complete(m, events)
    } else {
        CollectOutcome::Unexpected
    }
}

/// Waiting for a command's answer over a whole sequence of backend messages.
pub open spec fn collect_all(events: Seq<JsonView>, messages: Seq<JsonView>) -> CollectOutcome
    decreases messages.len(),
{
    if messages.len() == 0 {
        CollectOutcome::Pending(events)
    } else {
        match collect_step(events, messages[0]) {
            CollectOutcome::Pending(more) => collect_all(more, messages.drop_first()),
            other => other,
        }
    }
}

/// Events that QEMU sends while a command runs are handed back with that
/// command's answer, all of them and in the order they arrived; the answer is
/// the first message that is not an event.
pub proof fn lemma_events_precede_reply(events: Seq<JsonView>, reply: JsonView)
    requires
        forall|i: int| 0 <= i < events.len() ==> is_event(#[trigger] events[i]),
        !is_event(reply),
        is_final_reply(reply),
    ensures
        collect_all(Seq::empty(), events.push(reply)) == CollectOutcome::Complete(reply, events),
{
    lemma_collect_prefix(Seq::empty(), events, reply);
    assert(Seq::<JsonView>::empty() + events =~= events);
}

proof fn lemma_collect_prefix(seen: Seq<JsonView>, events: Seq<JsonView>, reply: JsonView)
    requires
        forall|i: int| 0 <= i < events.len() ==> is_event(#[trigger] events[i]),
        !is_event(reply),
        is_final_reply(reply),
    ensures
        collect_all(seen, events.push(reply)) == CollectOutcome::Complete(reply, seen + events),
    decreases events.len(),
{
    if events.len() == 0 {
        assert(events.push(reply).drop_first() =~= Seq::<JsonView>::empty());
        assert(seen + events =~= seen);
    } else {
        let rest = events.drop_first();
        assert(events.push(reply).drop_first() =~= rest.push(reply));
        assert(is_event(events[0]));
        assert forall|i: int| 0 <= i < rest.len() implies is_event(#[trigger] rest[i]) by {
            assert(rest[i] == events[i + 1]);
        }
        lemma_collect_prefix(seen.push(events[0]), rest, reply);
        assert(seen.push(events[0]) + rest =~= seen + events);
    }
}

/// Gathers the events that arrive while one command is pending.
pub struct ResponseCollector {
    events: Vec<Json>,
}

impl View for ResponseCollector {
    type V = Seq<JsonView>;

    closed spec fn view(&self) -> Seq<JsonView> {
        items_view(self.events@)
    }
}

/// The result of handing one backend message to a [`ResponseCollector`].
pub enum CollectStep {
    Pending(ResponseCollector),
    Complete(QmpResponse),
    Failed(QmpError),
}

impl ResponseCollector {
    /// A collector that has seen no events yet.
    pub fn new() -> (c: ResponseCollector)
        ensures
            c@ == Seq::<JsonView>::empty(),
    {
        let c = ResponseCollector { events: Vec::new() };
        proof {
            lemma_items_view(c.events@);
        }
        c
    }

    /// Accept one backend message: an event is kept, an answer completes the
    /// command, and anything else is a protocol error whose text quotes the
    /// message.
    pub fn accept(self, message: Json) -> (s: CollectStep)
        ensures
            match collect_step(self@, message@) {
                CollectOutcome::Pending(events) => s matches CollectStep::Pending(c) && c@
                    == events,
                CollectOutcome::Complete(reply, events) => s matches CollectStep::Complete(r)
                    && r.response@ == reply && items_view(r.events@) == events,
                CollectOutcome::Unexpected => s matches CollectStep::Failed(e) && e@
                    == QmpErrorView::Protocol("unexpected QMP message: "@ + json_text(message@)),
            },
    {
        let mut events = self.events;
        let ghost before = events@;
        proof {
            lemma_items_view(before);
        }
        if message.get("event").is_some() {
            events.push(message);
            proof {
                lemma_items_view(events@);
                assert(items_view(events@) =~= items_view(before).push(message@));
            }
            CollectStep::Pending(ResponseCollector { events })
        } else if message.get("return").is_some() || message.get("error").is_some() {
            CollectStep::Complete(QmpResponse { response: message, events })
        } else {
            let rendered = render_json(&message);
            CollectStep::Failed(
                QmpError::Protocol(concat("unexpected QMP message: ", rendered.as_str())),
            )
        }
    }
}

/// What the server does after reading from a front-side QMP client.
pub enum SessionStep {
    /// End the session with this outcome.
    Finish(Result<(), QmpError>),
    /// Answer the client directly with this message.
    Reply(Json),
    /// Queue this command for the backend.
    Forward(Json),
}

/// Decide what to do with one read from a front-side QMP client. A closed
/// socket ends the session normally; other read failures and malformed
/// commands end it with an error; the capability handshake is answered
/// locally; every other command goes to the backend queue.
pub fn client_session_step(read: Result<Json, QmpError>) -> (s: SessionStep)
    ensures
        read matches Err(e) ==> (if e@ == QmpErrorView::Protocol(socket_closed_text()) {
            s matches SessionStep::Finish(Ok(()))
        } else {
            s matches SessionStep::Finish(Err(e2)) && e2@ == e@
        }),
        read matches Ok(c) ==> (if !is_qmp_command(c@) {
            s matches SessionStep::Finish(Err(e)) && e@ == QmpErrorView::Protocol(
                if c@.is_object() { no_execute_text() } else { not_object_text() },
            )
        } else if is_capabilities_command(c@) {
            s matches SessionStep::Reply(r) && r@ == capabilities_reply(c@)
        } else {
            s matches SessionStep::Forward(f) && f@ == c@
        }),
{
    match read {
        Err(e) => {
            let closed = match &e {
                QmpError::Protocol(m) => {
                    let t = "QMP socket closed".to_owned();
                    *m == t
                },
                _ => false,
            };
            if closed {
                SessionStep::Finish(Ok(()))
            } else {
                SessionStep::Finish(Err(e))
            }
        },
        Ok(command) => {
            match validate_qmp_command_value(&command) {
                Err(m) => SessionStep::Finish(Err(QmpError::Protocol(m))),
                Ok(()) => {
                    if is_qmp_capabilities(&command) {
                        SessionStep::Reply(local_qmp_capabilities_response(&command))
                    } else {
                        SessionStep::Forward(command)
                    }
                },
            }
        },
    }
}

/// The messages sent back to a client for a forwarded command: the events
/// first, in order, then the answer.
pub fn reply_messages(result: Result<QmpResponse, QmpError>) -> (r: Result<Vec<Json>, QmpError>)
    ensures
        result matches Ok(resp) ==> (r matches Ok(lines) && items_view(lines@) == items_view(
            resp.events@,
        ).push(resp.response@)),
        result matches Err(e) ==> (r matches Err(e2) && e2@ == e@),
{
    match result {
        Ok(resp) => {
            let QmpResponse { response, events } = resp;
            let mut lines = events;
            let ghost before = lines@;
            lines.push(response);
            proof {
                lemma_items_view(before);
                lemma_items_view(lines@);
                assert(items_view(lines@) =~= items_view(before).push(response@));
            }
            Ok(lines)
        },
        Err(e) => Err(e),
    }
}


/// The handshake a client sends first: `{"execute": "qmp_capabilities"}`.
pub open spec fn client_capabilities_command() -> JsonView {
    JsonView::Object(seq![("execute"@, JsonView::Str("qmp_capabilities"@))])
}

/// Build the handshake a client sends first.
pub fn client_capabilities_command_value() -> (r: Json)
    ensures
        r@ == client_capabilities_command(),
{
    let mut members: Vec<(String, Json)> = Vec::new();
    members.push(("execute".to_owned(), Json::Str("qmp_capabilities".to_owned())));
    let r = Json::Object(members);
    proof {
        lemma_members_view(members@);
        assert(members_view(members@) =~= client_capabilities_command()->Object_0);
    }
    r
}

/// A QMP peer's greeting must carry a `QMP` member; otherwise the error
/// quotes the greeting.
pub fn check_greeting(greeting: &Json) -> (r: Result<(), String>)
    ensures
        greeting@.has("QMP"@) ==> r is Ok,
        !greeting@.has("QMP"@) ==> (r matches Err(m) && m@ == "expected QMP greeting, got "@
            + json_text(greeting@)),
{
    if greeting.get("QMP").is_none() {
        return Err(concat("expected QMP greeting, got ", render_json(greeting).as_str()));
    }
    Ok(())
}

/// A client's `qmp_capabilities` must be answered with a `return` member;
/// otherwise the error quotes the answer.
pub fn check_capabilities_reply(reply: &Json) -> (r: Result<(), String>)
    ensures
        reply@.has("return"@) ==> r is Ok,
        !reply@.has("return"@) ==> (r matches Err(m) && m@ == "qmp_capabilities failed: "@
            + json_text(reply@)),
{
    if reply.get("return").is_none() {
        return Err(concat("qmp_capabilities failed: ", render_json(reply).as_str()));
    }
    Ok(())
}

/// The backend's answer to the manager's own `qmp_capabilities` must carry a
/// `return` member; otherwise the error quotes it.
pub fn check_backend_negotiation(reply: &Json) -> (r: Result<(), QmpError>)
    ensures
        reply@.has("return"@) ==> r is Ok,
        !reply@.has("return"@) ==> (r matches Err(e) && e@ == QmpErrorView::Protocol(
            "QMP capability negotiation failed: "@ + json_text(reply@),
        )),
{
    if reply.get("return").is_none() {
        return Err(
            QmpError::Protocol(
                concat("QMP capability negotiation failed: ", render_json(reply).as_str()),
            ),
        );
    }
    Ok(())
}

/// What a demo client reports for a command: the answer alone when no event
/// preceded it, else `{"response": answer, "events": [events...]}`.
pub open spec fn client_result(response: JsonView, events: Seq<JsonView>) -> JsonView {
    if events.len() == 0 {
        response
    } else {
        JsonView::Object(seq![("response"@, response), ("events"@, JsonView::Array(events))])
    }
}

/// Package a command's answer the way the demo clients report it.
pub fn client_result_value(resp: QmpResponse) -> (r: Json)
    ensures
        r@ == client_result(resp.response@, items_view(resp.events@)),
{
    let QmpResponse { response, events } = resp;
    proof {
        lemma_items_view(events@);
    }
    if events.len() == 0 {
        return response;
    }
    let ghost ev = items_view(events@);
    let ghost rv = response@;
    let mut members: Vec<(String, Json)> = Vec::new();
    members.push(("response".to_owned(), response));
    members.push(("events".to_owned(), Json::Array(events)));
    let r = Json::Object(members);
    proof {
        lemma_members_view(members@);
        assert(members_view(members@) =~= seq![("response"@, rv), ("events"@, JsonView::Array(ev))]);
    }
    r
}

} // verus!
