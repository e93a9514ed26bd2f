//! Checks on what the QEMU backend sends, made with qapi's QMP types: its
//! greeting must be a QMP greeting and every later message a QMP event or
//! response. Also the capability command the manager sends after the
//! greeting.

use vstd::prelude::*;
use crate::json::{json_text, json_to_value, member, value_to_json, Json, JsonView};
use crate::qmp::{collect_step, CollectOutcome, CollectStep, QmpError, QmpErrorView, ResponseCollector};
use crate::json::items_view;

verus! {

/// Names whether qapi's `QmpMessageAny` (a QMP event or response) accepts a
/// message.
pub uninterp spec fn qapi_accepts_message(message: JsonView) -> bool;

/// Names the text of the error with which qapi refuses a message.
pub uninterp spec fn qapi_message_error(message: JsonView) -> Seq<char>;

/// Calls `serde_json::from_value::<qapi::qmp::QmpMessageAny>` on the message
/// as a `serde_json::Value`. Claimed: whether it succeeds, and the text of
/// its error, depend on the message alone, as `qapi_accepts_message` and
/// `qapi_message_error` name them.
#[verifier::external_body]
fn qapi_check_message(message: &Json) -> (r: Result<(), String>)
    ensures
        r is Ok <==> qapi_accepts_message(message@),
        r matches Err(m) ==> m@ == qapi_message_error(message@),
{
    let value = json_to_value(message).map_err(|e| e.to_string())?;
    serde_json::from_value::<qapi::qmp::QmpMessageAny>(value).map(|_| ()).map_err(|e| e.to_string())
}

/// Names whether qapi's `QapiCapabilities` (a QMP greeting) accepts a
/// message.
pub uninterp spec fn qapi_accepts_greeting(greeting: JsonView) -> bool;

/// Names the text of the error with which qapi refuses a greeting.
pub uninterp spec fn qapi_greeting_error(greeting: JsonView) -> Seq<char>;

/// Calls `serde_json::from_value::<qapi::qmp::QapiCapabilities>` on the
/// greeting as a `serde_json::Value`. Claimed: whether it succeeds, and the
/// text of its error, depend on the greeting alone, as
/// `qapi_accepts_greeting` and `qapi_greeting_error` name them.
#[verifier::external_body]
fn qapi_check_greeting(greeting: &Json) -> (r: Result<(), String>)
    ensures
        r is Ok <==> qapi_accepts_greeting(greeting@),
        r matches Err(m) ==> m@ == qapi_greeting_error(greeting@),
{
    let value = json_to_value(greeting).map_err(|e| e.to_string())?;
    serde_json::from_value::<qapi::qmp::QapiCapabilities>(value).map(|_| ()).map_err(|e| e.to_string())
}

/// The capability command: an object with exactly the members
/// `"execute": "qmp_capabilities"` and `"arguments": {}`.
pub open spec fn is_capabilities_command(v: JsonView) -> bool {
    match v {
        JsonView::Object(members) => members.len() == 2 && member(members, "execute"@) == Some(
            JsonView::Str("qmp_capabilities"@),
        ) && member(members, "arguments"@) == Some(JsonView::Object(Seq::empty())),
        _ => false,
    }
}

/// Serializes `qapi::Execute::<qmp_capabilities, u32>::with_command` with no
/// capability to enable, with `serde_json::to_value`. Claimed: when it
/// succeeds, the document is `{"execute": "qmp_capabilities", "arguments": {}}`
/// (qapi writes the command's name under `execute`, leaves out an absent
/// `id`, and leaves out the absent optional `enable`); the member order is
/// left unsaid. It succeeds: serializing this value into a
/// `serde_json::Value` has no failing case.
#[verifier::external_body]
fn qapi_capabilities_command() -> (r: Result<Json, String>)
    ensures
        r is Ok,
        r matches Ok(c) ==> is_capabilities_command(c@),
{
    let command = qapi::Execute::<qapi::qmp::qmp_capabilities, u32>::with_command(
        qapi::qmp::qmp_capabilities { enable: None },
    );
    serde_json::to_value(command).map(|v| value_to_json(&v)).map_err(|e| e.to_string())
}

/// Check the backend's greeting with qapi; when it is a QMP greeting, the
/// capability command to send next. A refused greeting is a JSON error with
/// qapi's text.
pub fn backend_greeting_step(greeting: &Json) -> (r: Result<Json, QmpError>)
    ensures
        !qapi_accepts_greeting(greeting@) ==> (r matches Err(e) && e@ == QmpErrorView::Json(
            qapi_greeting_error(greeting@),
        )),
        qapi_accepts_greeting(greeting@) ==> (r matches Ok(c) && is_capabilities_command(c@)),
{
    match qapi_check_greeting(greeting) {
        Err(m) => return Err(QmpError::Json(m)),
        Ok(()) => {},
    }
    match qapi_capabilities_command() {
        Ok(c) => Ok(c),
        Err(m) => Err(QmpError::Json(m)),
    }
}

/// Accept one message from the backend while a command is pending: a
/// message that qapi refuses is a JSON error; any other goes to the
/// collector.
pub fn accept_backend_message(c: ResponseCollector, message: Json) -> (s: CollectStep)
    ensures
        !qapi_accepts_message(message@) ==> (s matches CollectStep::Failed(e) && e@
            == QmpErrorView::Json(qapi_message_error(message@))),
        qapi_accepts_message(message@) ==> match collect_step(c@, message@) {
            CollectOutcome::Pending(events) => s matches CollectStep::Pending(n) && n@ == events,
            CollectOutcome::Complete(reply, events) => s matches CollectStep::Complete(r)
                && r.response@ == reply && items_view(r.events@) == events,
            CollectOutcome::Unexpected => s matches CollectStep::Failed(e) && e@
                == QmpErrorView::Protocol("unexpected QMP message: "@ + json_text(message@)),
        },
{
    match qapi_check_message(&message) {
        Err(m) => CollectStep::Failed(QmpError::Json(m)),
        Ok(()) => c.accept(message),
    }
}

} // verus!
