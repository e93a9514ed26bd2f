//! Decisions of the management API: who may register, what a registration
//! records, what removal and passthrough find, and how each error is
//! answered over HTTP.

use vstd::prelude::*;
use vstd::string::StringExecFns;
use crate::json::{lemma_members_view, members_view, Json, JsonView};
use crate::qmp::{validate_qmp_command_value, QmpError, QmpErrorView, is_qmp_command, no_execute_text, not_object_text};
use crate::registry::{info_of, SocketMove, SocketMoveView, VmRecord, VmRecordView, VmRegistry};
use crate::text::{all_white_space, concat, is_white_space};

verus! {

/// A path segment as a component: an empty segment (from a repeated or a
/// trailing separator) and `.` give none.
pub open spec fn segment_component(segment: Seq<char>) -> Seq<Seq<char>> {
    if segment.len() == 0 || segment == seq!['.'] {
        Seq::empty()
    } else {
        seq![segment]
    }
}

/// The components after the root or leading `.` of a Unix path: its
/// `/`-separated segments, `current` being the segment read so far, without
/// empty and `.` segments.
pub open spec fn segment_components(p: Seq<char>, current: Seq<char>) -> Seq<Seq<char>>
    decreases p.len(),
{
    if p.len() == 0 {
        segment_component(current)
    } else if p[0] == '/' {
        segment_component(current) + segment_components(p.drop_first(), Seq::empty())
    } else {
        segment_components(p.drop_first(), current.push(p[0]))
    }
}

/// The components of a Unix path as `Path::components` yields them, each by
/// its text: `/` for the root, `.` for a leading current-directory
/// component (a path that is `.` or starts with `./`), then the segments.
pub open spec fn path_components(p: Seq<char>) -> Seq<Seq<char>> {
    let lead = if p.len() > 0 && p[0] == '/' {
        seq![seq!['/']]
    } else if p == seq!['.'] || (p.len() >= 2 && p[0] == '.' && p[1] == '/') {
        seq![seq!['.']]
    } else {
        Seq::empty()
    };
    lead + segment_components(p, Seq::empty())
}

/// Two path texts name the same path: they have the same components.
pub open spec fn same_path(a: Seq<char>, b: Seq<char>) -> bool {
    path_components(a) == path_components(b)
}

/// Calls `<Path as PartialEq>::eq` on `Path::new(a)` and `Path::new(b)`.
/// Claimed, as std documents `Path::components` and path comparison: the
/// paths are equal exactly when their components are, where repeated
/// separators and a trailing separator are ignored and `.` is dropped except
/// at the start (`path_components`).
#[verifier::external_body]
fn paths_equal(a: &str, b: &str) -> (r: bool)
    ensures
        r == same_path(a@, b@),
{
    std::path::Path::new(a) == std::path::Path::new(b)
}

/// An error of the management API.
#[derive(Debug)]
pub enum AppError {
    BadRequest(String),
    Conflict(String),
    NotFound(String),
    Qmp(QmpError),
}

/// The mathematical value of an [`AppError`].
pub enum AppErrorView {
    BadRequest(Seq<char>),
    Conflict(Seq<char>),
    NotFound(Seq<char>),
    Qmp(QmpErrorView),
}

impl View for AppError {
    type V = AppErrorView;

    open spec fn view(&self) -> AppErrorView {
        match self {
            AppError::BadRequest(m) => AppErrorView::BadRequest(m@),
            AppError::Conflict(m) => AppErrorView::Conflict(m@),
            AppError::NotFound(m) => AppErrorView::NotFound(m@),
            AppError::Qmp(e) => AppErrorView::Qmp(e@),
        }
    }
}

/// A registration request.
pub struct RegisterVm {
    /// The real QEMU monitor socket this manager connects to.
    pub qmp_socket: String,
    /// The manager-owned socket QMP clients should connect to.
    ///
    /// When `move_qmp_socket` is true, this may be omitted and defaults to
    /// `qmp_socket`. If it is provided in that mode, it must equal `qmp_socket`.
    pub client_socket: Option<String>,
    /// Move `qmp_socket` aside and expose the manager at the original path.
    pub move_qmp_socket: bool,
}

/// The mathematical value of a [`RegisterVm`].
pub struct RegisterVmView {
    pub qmp_socket: Seq<char>,
    pub client_socket: Option<Seq<char>>,
    pub move_qmp_socket: bool,
}

impl View for RegisterVm {
    type V = RegisterVmView;

    open spec fn view(&self) -> RegisterVmView {
        RegisterVmView {
            qmp_socket: self.qmp_socket@,
            client_socket: match self.client_socket {
                Some(c) => Some(c@),
                None => None,
            },
            move_qmp_socket: self.move_qmp_socket,
        }
    }
}

/// The client-facing socket a registration asks for, or why it is refused.
pub open spec fn resolved_client_socket(body: RegisterVmView) -> Result<Seq<char>, Seq<char>> {
    match (body.move_qmp_socket, body.client_socket) {
        (true, None) => Ok(body.qmp_socket),
        (true, Some(c)) => if same_path(c, body.qmp_socket) {
            Ok(c)
        } else {
            Err(
                "client_socket must equal qmp_socket when move_qmp_socket is true; got "@ + c
                    + " and "@ + body.qmp_socket,
            )
        },
        (false, Some(c)) => Ok(c),
        (false, None) => Err("client_socket is required unless move_qmp_socket is true"@),
    }
}

/// Resolve the client-facing socket path from a registration request.
pub fn resolve_client_socket(body: &RegisterVm) -> (r: Result<String, AppError>)
    ensures
        match resolved_client_socket(body@) {
            Ok(c) => r matches Ok(s) && s@ == c,
            Err(m) => r matches Err(e) && e@ == AppErrorView::BadRequest(m),
        },
{
    match (body.move_qmp_socket, &body.client_socket) {
        (true, None) => Ok(body.qmp_socket.clone()),
        (true, Some(client_socket)) => {
            if paths_equal(client_socket.as_str(), body.qmp_socket.as_str()) {
                Ok(client_socket.clone())
            } else {
                let mut m = concat(
                    "client_socket must equal qmp_socket when move_qmp_socket is true; got ",
                    client_socket.as_str(),
                );
                m.append(" and ");
                m.append(body.qmp_socket.as_str());
                Err(AppError::BadRequest(m))
            }
        },
        (false, Some(client_socket)) => Ok(client_socket.clone()),
        (false, None) => Err(
            AppError::BadRequest(
                "client_socket is required unless move_qmp_socket is true".to_owned(),
            ),
        ),
    }
}

/// An id that `str::trim` empties: every character is white space.
pub open spec fn blank_id(id: Seq<char>) -> bool {
    forall|i: int| 0 <= i < id.len() ==> is_white_space(#[trigger] id[i])
}

/// The checks a registration passes before any socket is touched, in order:
/// a non-blank id, a resolvable client socket, an id not yet registered, and
/// two different paths unless the QEMU socket is to be moved.
pub open spec fn registration_check(registered: bool, id: Seq<char>, body: RegisterVmView) -> Result<
    Seq<char>,
    AppErrorView,
> {
    if blank_id(id) {
        Err(AppErrorView::BadRequest("VM id must not be empty"@))
    } else {
        match resolved_client_socket(body) {
            Err(m) => Err(AppErrorView::BadRequest(m)),
            Ok(client) => if registered {
                Err(AppErrorView::Conflict("VM '"@ + id + "' already exists"@))
            } else if !body.move_qmp_socket && same_path(body.qmp_socket, client) {
                Err(AppErrorView::BadRequest("qmp_socket and client_socket must be different paths"@))
            } else {
                Ok(client)
            },
        }
    }
}

/// Check a registration of VM `id` against the registry; on success, the
/// client-facing socket to serve.
pub fn check_registration<H>(registry: &VmRegistry<H>, id: &str, body: &RegisterVm) -> (r: Result<
    String,
    AppError,
>)
    ensures
        match registration_check(registry@.contains_key(id@), id@, body@) {
            Ok(c) => r matches Ok(s) && s@ == c,
            Err(e) => r matches Err(x) && x@ == e,
        },
        r is Ok ==> !registry@.contains_key(id@),
        registry@.contains_key(id@) && !blank_id(id@) && resolved_client_socket(body@) is Ok ==> (
        r matches Err(x) && x@ == AppErrorView::Conflict("VM '"@ + id@ + "' already exists"@)),
{
    if all_white_space(id) {
        return Err(AppError::BadRequest("VM id must not be empty".to_owned()));
    }
    let client_socket = match resolve_client_socket(body) {
        Ok(c) => c,
        Err(e) => return Err(e),
    };
    if registry.contains(id) {
        let mut m = concat("VM '", id);
        m.append("' already exists");
        return Err(AppError::Conflict(m));
    }
    if !body.move_qmp_socket && paths_equal(body.qmp_socket.as_str(), client_socket.as_str()) {
        return Err(
            AppError::BadRequest("qmp_socket and client_socket must be different paths".to_owned()),
        );
    }
    proof {
        law_registered_id_conflicts(id@, body@);
    }
    Ok(client_socket)
}

/// What the registry records of a registration: the backend connects to the
/// moved socket when there is one, else to `qmp_socket` itself.
pub open spec fn registered_record(
    body: RegisterVmView,
    client_socket: Seq<char>,
    socket_move: Option<SocketMoveView>,
) -> VmRecordView {
    VmRecordView {
        qmp_socket: body.qmp_socket,
        backend_qmp_socket: match socket_move {
            Some(m) => m.backend,
            None => body.qmp_socket,
        },
        client_socket,
        socket_move,
    }
}

/// The record of a registration.
pub fn new_vm_record(body: &RegisterVm, client_socket: String, socket_move: Option<SocketMove>) -> (r:
    VmRecord)
    ensures
        r@ == registered_record(
            body@,
            client_socket@,
            match socket_move {
                Some(m) => Some(m@),
                None => None,
            },
        ),
        r@.qmp_socket == body@.qmp_socket,
        r@.client_socket == client_socket@,
        r@.socket_move is Some <==> socket_move is Some,
        socket_move matches Some(m) ==> (r@.socket_move == Some(m@) && r@.backend_qmp_socket
            == m.backend@),
        socket_move is None ==> r@.backend_qmp_socket == body@.qmp_socket,
{
    let backend_qmp_socket = match &socket_move {
        Some(m) => m.backend.clone(),
        None => body.qmp_socket.clone(),
    };
    VmRecord {
        qmp_socket: body.qmp_socket.clone(),
        backend_qmp_socket,
        client_socket,
        socket_move,
    }
}

/// The answer to a successful registration.
pub open spec fn registration_reply(id: Seq<char>, body: RegisterVmView, client_socket: Seq<char>) -> JsonView {
    JsonView::Object(
        seq![
            ("id"@, JsonView::Str(id)),
            ("qmp_socket"@, JsonView::Str(body.qmp_socket)),
            ("client_socket"@, JsonView::Str(client_socket)),
            ("moved_qmp_socket"@, JsonView::Bool(body.move_qmp_socket)),
        ],
    )
}

/// Build the answer to a successful registration.
pub fn registration_reply_value(id: &str, body: &RegisterVm, client_socket: &str) -> (r: Json)
    ensures
        r@ == registration_reply(id@, body@, client_socket@),
        r@.get("id"@) == Some(JsonView::Str(id@)),
        r@.get("qmp_socket"@) == Some(JsonView::Str(body@.qmp_socket)),
        r@.get("client_socket"@) == Some(JsonView::Str(client_socket@)),
        r@.get("moved_qmp_socket"@) == Some(JsonView::Bool(body.move_qmp_socket)),
{
    let mut members: Vec<(String, Json)> = Vec::new();
    members.push(("id".to_owned(), Json::Str(id.to_owned())));
    members.push(("qmp_socket".to_owned(), Json::Str(body.qmp_socket.clone())));
    members.push(("client_socket".to_owned(), Json::Str(client_socket.to_owned())));
    members.push(("moved_qmp_socket".to_owned(), Json::Bool(body.move_qmp_socket)));
    let r = Json::Object(members);
    proof {
        lemma_members_view(members@);
        assert(members_view(members@) =~= registration_reply(id@, body@, client_socket@)->Object_0);
        law_registration_reply_members(id@, body@, client_socket@);
    }
    r
}

/// The text reporting that VM `id` is not registered.
pub open spec fn missing_vm_text(id: Seq<char>) -> Seq<char> {
    "VM '"@ + id + "' does not exist"@
}

fn missing_vm(id: &str) -> (e: AppError)
    ensures
        e@ == AppErrorView::NotFound(missing_vm_text(id@)),
{
    let mut m = concat("VM '", id);
    m.append("' does not exist");
    AppError::NotFound(m)
}

/// Unregister VM `id`, handing back its record and handle.
pub fn take_vm<H>(registry: &mut VmRegistry<H>, id: &str) -> (r: Result<(VmRecord, H), AppError>)
    ensures
        final(registry)@ == old(registry)@.remove(id@),
        old(registry)@.contains_key(id@) ==> (r matches Ok(found) && (found.0@, found.1) == old(
            registry,
        )@[id@]),
        !old(registry)@.contains_key(id@) ==> (r matches Err(e) && e@ == AppErrorView::NotFound(
            missing_vm_text(id@),
        )),
{
    match registry.remove(id) {
        Some(found) => Ok(found),
        None => Err(missing_vm(id)),
    }
}

/// Validate HTTP passthrough commands and map validation failures to HTTP.
pub fn validate_qmp_command(command: &Json) -> (r: Result<(), AppError>)
    ensures
        r is Ok <==> is_qmp_command(command@),
        !is_qmp_command(command@) ==> (r matches Err(e) && e@ == AppErrorView::BadRequest(
            if command@.is_object() { no_execute_text() } else { not_object_text() },
        )),
{
    match validate_qmp_command_value(command) {
        Ok(()) => Ok(()),
        Err(m) => Err(AppError::BadRequest(m)),
    }
}

/// Where a passthrough command for VM `id` goes: a malformed command is
/// refused first, then an unknown VM.
pub fn passthrough_target<'a, H>(registry: &'a VmRegistry<H>, id: &str, command: &Json) -> (r:
    Result<&'a H, AppError>)
    ensures
        !is_qmp_command(command@) ==> (r matches Err(e) && e@ == AppErrorView::BadRequest(
            if command@.is_object() { no_execute_text() } else { not_object_text() },
        )),
        is_qmp_command(command@) && !registry@.contains_key(id@) ==> (r matches Err(e) && e@
            == AppErrorView::NotFound(missing_vm_text(id@))),
        is_qmp_command(command@) && registry@.contains_key(id@) ==> (r matches Ok(h) && *h
            == registry@[id@].1),
{
    match validate_qmp_command(command) {
        Err(e) => return Err(e),
        Ok(()) => {},
    }
    match registry.handle(id) {
        Some(h) => Ok(h),
        None => Err(missing_vm(id)),
    }
}

/// The HTTP status and message that answer an error.
pub open spec fn error_status(e: AppErrorView) -> (u16, Seq<char>) {
    match e {
        AppErrorView::BadRequest(m) => (400, m),
        AppErrorView::Conflict(m) => (409, m),
        AppErrorView::NotFound(m) => (404, m),
        AppErrorView::Qmp(q) => (
            502,
            match q {
                QmpErrorView::Io(m) => "QMP I/O error: "@ + m,
                QmpErrorView::Json(m) => "QMP JSON error: "@ + m,
                QmpErrorView::Protocol(m) => m,
                QmpErrorView::Disconnected => "QMP worker disconnected"@,
            },
        ),
    }
}

/// The HTTP status of an error and its body `{"error": message}`.
pub fn error_response(e: &AppError) -> (r: (u16, Json))
    ensures
        r.0 == error_status(e@).0,
        r.1@ == JsonView::Object(seq![("error"@, JsonView::Str(error_status(e@).1))]),
{
    let (status, message) = match e {
        AppError::BadRequest(m) => (400u16, m.clone()),
        AppError::Conflict(m) => (409u16, m.clone()),
        AppError::NotFound(m) => (404u16, m.clone()),
        AppError::Qmp(q) => (
            502u16,
            match q {
                QmpError::Io(m) => concat("QMP I/O error: ", m.as_str()),
                QmpError::Json(m) => concat("QMP JSON error: ", m.as_str()),
                QmpError::Protocol(m) => m.clone(),
                QmpError::Disconnected => "QMP worker disconnected".to_owned(),
            },
        ),
    };
    let mut members: Vec<(String, Json)> = Vec::new();
    members.push(("error".to_owned(), Json::Str(message)));
    let body = Json::Object(members);
    proof {
        lemma_members_view(members@);
        assert(members_view(members@) =~= seq![("error"@, JsonView::Str(error_status(e@).1))]);
    }
    (status, body)
}

/// A registration never goes through for an id that is already registered:
/// whatever `move_qmp_socket` says, an id that is not blank and whose client
/// socket resolves is refused with a conflict naming it, and every accepted
/// registration is of an unregistered id.
pub proof fn law_registered_id_conflicts(id: Seq<char>, body: RegisterVmView)
    ensures
        !(registration_check(true, id, body) is Ok),
        !blank_id(id) && resolved_client_socket(body) is Ok ==> registration_check(true, id, body)
            == Err::<Seq<char>, AppErrorView>(AppErrorView::Conflict("VM '"@ + id + "' already exists"@)),
{
}

/// The answer to a registration names the VM, repeats the request's
/// `qmp_socket` (not the client socket), gives the client socket that will be
/// served, and says whether the QEMU socket is moved.
pub proof fn law_registration_reply_members(id: Seq<char>, body: RegisterVmView, client_socket: Seq<char>)
    ensures
        registration_reply(id, body, client_socket).get("id"@) == Some(JsonView::Str(id)),
        registration_reply(id, body, client_socket).get("qmp_socket"@) == Some(
            JsonView::Str(body.qmp_socket),
        ),
        registration_reply(id, body, client_socket).get("client_socket"@) == Some(
            JsonView::Str(client_socket),
        ),
        registration_reply(id, body, client_socket).get("moved_qmp_socket"@) == Some(
            JsonView::Bool(body.move_qmp_socket),
        ),
{
    reveal_strlit("id");
    reveal_strlit("qmp_socket");
    reveal_strlit("client_socket");
    reveal_strlit("moved_qmp_socket");
    let m = registration_reply(id, body, client_socket)->Object_0;
    assert(m[0].0 == "id"@ && m[1].0 == "qmp_socket"@ && m[2].0 == "client_socket"@);
    assert("id"@.len() == 2 && "qmp_socket"@.len() == 10 && "client_socket"@.len() == 13);
    assert("moved_qmp_socket"@.len() == 16);
    assert(m[0].0 != "qmp_socket"@);
    assert(m[0].0 != "client_socket"@);
    assert(m[0].0 != "moved_qmp_socket"@);
    assert(m[1].0 != "client_socket"@);
    assert(m[1].0 != "moved_qmp_socket"@);
    assert(m[2].0 != "moved_qmp_socket"@);
    assert(m.drop_first()[0] == m[1]);
    assert(m.drop_first().drop_first()[0] == m[2]);
    assert(m.drop_first().drop_first().drop_first()[0] == m[3]);
    reveal_with_fuel(crate::json::member, 5);
}

/// What the registry keeps of a registration, and what a listing then shows
/// of it: the request's `qmp_socket` (never the backend path a moved socket
/// went to), the client socket served, and the socket move exactly as it was
/// made, so that it is listed as moved and can be undone on removal.
pub proof fn law_record_and_listing_of_registration(
    id: Seq<char>,
    body: RegisterVmView,
    client_socket: Seq<char>,
    socket_move: Option<SocketMoveView>,
)
    ensures
        registered_record(body, client_socket, socket_move).socket_move == socket_move,
        registered_record(body, client_socket, socket_move).qmp_socket == body.qmp_socket,
        socket_move matches Some(m) ==> registered_record(body, client_socket, socket_move).backend_qmp_socket == m.backend,
        info_of(id, registered_record(body, client_socket, socket_move)).id == id,
        info_of(id, registered_record(body, client_socket, socket_move)).qmp_socket == body.qmp_socket,
        socket_move matches Some(m) ==> (m.backend != body.qmp_socket ==> info_of(
            id,
            registered_record(body, client_socket, socket_move),
        ).qmp_socket != m.backend),
        info_of(id, registered_record(body, client_socket, socket_move)).client_socket == client_socket,
        info_of(id, registered_record(body, client_socket, socket_move)).moved_qmp_socket == (socket_move is Some),
{
}

} // verus!
