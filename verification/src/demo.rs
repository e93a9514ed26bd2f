//! Configuration and reporting of the demo clients: VM ids and socket paths
//! for each demo VM, the command they send, and the run's final verdict.

use vstd::prelude::*;
use vstd::string::StringExecFns;
use crate::json::{json_parse, json_parse_error, lemma_members_view, members_view, parse_json_text, Json, JsonView};
use crate::text::{
    chars_of, concat, contains_chars, contains_seq, decimal, decimal_string, join, join_strings,
    lemma_decimal_injective, find_first, lemma_find_first, lemma_replace_at_first,
    lemma_replace_len_mono,
    replace_all, replace_chars, string_of, string_views,
};

verus! {

/// The placeholder that a socket template replaces by the VM index.
pub open spec fn placeholder() -> Seq<char> {
    seq!['{', 'i', '}']
}

/// The id of demo VM `index`: the prefix itself for a single VM, else
/// `<prefix>-<index>`.
pub open spec fn vm_id(prefix: Seq<char>, index: nat, vm_count: nat) -> Seq<char> {
    if vm_count == 1 {
        prefix
    } else {
        prefix + seq!['-'] + decimal(index)
    }
}

/// Build a VM id, preserving the exact prefix when only one VM is requested.
pub fn format_vm_id(prefix: &str, index: usize, vm_count: usize) -> (r: String)
    ensures
        r@ == vm_id(prefix@, index as nat, vm_count as nat),
{
    if vm_count == 1 {
        prefix.to_owned()
    } else {
        let mut r = concat(prefix, "-");
        r.append(decimal_string(index).as_str());
        proof {
            reveal_strlit("-");
        }
        r
    }
}

/// A socket template rendered for one VM: every `{i}` replaced by the index;
/// a template without `{i}` is taken as it is for a single VM and refused
/// otherwise.
pub open spec fn rendered_template(
    template: Seq<char>,
    index: nat,
    vm_count: nat,
    name: Seq<char>,
) -> Result<Seq<char>, Seq<char>> {
    if contains_seq(template, placeholder()) {
        Ok(replace_all(template, placeholder(), decimal(index)))
    } else if vm_count == 1 {
        Ok(template)
    } else {
        Err(name + " must contain '{i}' when VM count is greater than one"@)
    }
}

/// A template with `{i}` renders a different path for each VM index.
pub proof fn law_rendered_paths_distinct(
    template: Seq<char>,
    j: nat,
    k: nat,
    vm_count: nat,
    name: Seq<char>,
)
    requires
        contains_seq(template, placeholder()),
        j != k,
    ensures
        rendered_template(template, j, vm_count, name) != rendered_template(
            template,
            k,
            vm_count,
            name,
        ),
{
    let ph = placeholder();
    lemma_find_first(template, ph);
    let i = find_first(template, ph)->Some_0;
    let dj = decimal(j);
    let dk = decimal(k);
    lemma_replace_at_first(template, ph, dj, i);
    lemma_replace_at_first(template, ph, dk, i);
    let rest = template.skip(i + 3);
    let a = template.take(i) + dj + replace_all(rest, ph, dj);
    let b = template.take(i) + dk + replace_all(rest, ph, dk);
    if dj.len() == dk.len() {
        if dj == dk {
            lemma_decimal_injective(j, k);
        }
        if forall|m: int| 0 <= m < dj.len() ==> dj[m] == dk[m] {
            assert(dj =~= dk);
        }
        let m = choose|m: int| 0 <= m < dj.len() && dj[m] != dk[m];
        assert(a[i + m] == dj[m]);
        assert(b[i + m] == dk[m]);
    } else if dj.len() < dk.len() {
        lemma_replace_len_mono(rest, ph, dj, dk);
        assert(a.len() < b.len());
    } else {
        lemma_replace_len_mono(rest, ph, dk, dj);
        assert(b.len() < a.len());
    }
}

/// Render a socket template for one VM.
///
/// Templates for multi-VM runs must include `{i}`. A single-VM run may use an
/// exact path without a placeholder.
pub fn render_template(template: &str, index: usize, vm_count: usize, name: &str) -> (r: Result<
    String,
    String,
>)
    ensures
        match rendered_template(template@, index as nat, vm_count as nat, name@) {
            Ok(path) => r matches Ok(p) && p@ == path,
            Err(msg) => r matches Err(m) && m@ == msg,
        },
{
    let t = chars_of(template);
    let ph: Vec<char> = vec!['{', 'i', '}'];
    assert(ph@ == placeholder());
    if contains_chars(t.as_slice(), ph.as_slice()) {
        let idx = chars_of(decimal_string(index).as_str());
        let out = replace_chars(t.as_slice(), ph.as_slice(), idx.as_slice());
        return Ok(string_of(out.as_slice()));
    }
    if vm_count == 1 {
        return Ok(template.to_owned());
    }
    Err(concat(name, " must contain '{i}' when VM count is greater than one"))
}

/// Concrete socket paths for one demo VM.
pub struct VmConfig {
    pub id: String,
    pub qmp_socket: String,
    pub client_socket: String,
    pub move_qmp_socket: bool,
}

/// The mathematical value of a [`VmConfig`].
pub struct VmConfigView {
    pub id: Seq<char>,
    pub qmp_socket: Seq<char>,
    pub client_socket: Seq<char>,
    pub move_qmp_socket: bool,
}

impl View for VmConfig {
    type V = VmConfigView;

    open spec fn view(&self) -> VmConfigView {
        VmConfigView {
            id: self.id@,
            qmp_socket: self.qmp_socket@,
            client_socket: self.client_socket@,
            move_qmp_socket: self.move_qmp_socket,
        }
    }
}

/// The command the demos send when none is given: `{"execute":"query-status"}`.
pub open spec fn default_command() -> JsonView {
    JsonView::Object(seq![("execute"@, JsonView::Str("query-status"@))])
}

/// Build the default demo command.
pub fn default_command_value() -> (r: Json)
    ensures
        r@ == default_command(),
{
    let mut members: Vec<(String, Json)> = Vec::new();
    members.push(("execute".to_owned(), Json::Str("query-status".to_owned())));
    let r = Json::Object(members);
    proof {
        lemma_members_view(members@);
        assert(members_view(members@) =~= default_command()->Object_0);
    }
    r
}

/// The command a demo sends: the `--qmp-json` argument parsed as JSON, the
/// default when there is none, or the error text for an argument that does
/// not parse.
pub open spec fn chosen_command(qmp_json: Option<Seq<char>>) -> Result<JsonView, Seq<char>> {
    match qmp_json {
        None => Ok(default_command()),
        Some(raw) => match json_parse(raw) {
            Some(c) => Ok(c),
            None => Err("invalid QMP JSON command: "@ + json_parse_error(raw)),
        },
    }
}

/// The view of an optional text.
pub open spec fn opt_text(t: Option<String>) -> Option<Seq<char>> {
    match t {
        None => None,
        Some(s) => Some(s@),
    }
}

fn choose_command(qmp_json: &Option<String>) -> (r: Result<Json, String>)
    ensures
        match chosen_command(opt_text(*qmp_json)) {
            Ok(c) => r matches Ok(v) && v@ == c,
            Err(m) => r matches Err(e) && e@ == m,
        },
{
    match qmp_json {
        None => Ok(default_command_value()),
        Some(raw) => match parse_json_text(raw.as_str()) {
            Ok(c) => Ok(c),
            Err(e) => Err(concat("invalid QMP JSON command: ", e.as_str())),
        },
    }
}

/// Command-line options of the concurrent QMP client demo.
pub struct ParallelArgs {
    pub manager_socket: String,
    pub vm_id_prefix: String,
    pub qmp_socket_template: String,
    pub client_socket_template: String,
    pub move_qmp_socket: bool,
    pub vm_count: usize,
    pub clients_per_vm: usize,
    /// Raw QMP command JSON, if one is given.
    pub qmp_json: Option<String>,
}

/// Configuration of a concurrent QMP client demo run.
pub struct ParallelConfig {
    pub manager_socket: String,
    pub vms: Vec<VmConfig>,
    pub clients_per_vm: usize,
    pub command: Json,
}

/// The name under which the QEMU socket template is reported.
pub open spec fn qmp_template_name() -> Seq<char> {
    "qemu-qmp-socket-template"@
}

/// The name under which the client socket template is reported.
pub open spec fn client_template_name() -> Seq<char> {
    "client-socket-template"@
}

/// Demo VM `i` of a run: its id, both rendered socket paths, and whether
/// the QEMU socket is to be moved aside.
pub open spec fn demo_vm(args: ParallelArgs, i: nat) -> VmConfigView {
    VmConfigView {
        id: vm_id(args.vm_id_prefix@, i, args.vm_count as nat),
        qmp_socket: rendered_template(
            args.qmp_socket_template@,
            i,
            args.vm_count as nat,
            qmp_template_name(),
        )->Ok_0,
        client_socket: rendered_template(
            args.client_socket_template@,
            i,
            args.vm_count as nat,
            client_template_name(),
        )->Ok_0,
        move_qmp_socket: args.move_qmp_socket,
    }
}

/// Validate the demo's options and derive one configuration per VM.
#[verifier::loop_isolation(false)]
pub fn parallel_config(args: ParallelArgs) -> (r:
    Result<ParallelConfig, String>)
    ensures
        args.vm_count == 0 ==> (r matches Err(m) && m@ == "VM count must be greater than zero"@),
        args.vm_count > 0 && args.clients_per_vm == 0 ==> (r matches Err(m) && m@
            == "clients-per-vm must be greater than zero"@),
        args.vm_count > 0 && args.clients_per_vm > 0 ==> match chosen_command(
            opt_text(args.qmp_json),
        ) {
            Err(msg) => r matches Err(m) && m@ == msg,
            Ok(command) => {
                let qt = rendered_template(
                    args.qmp_socket_template@,
                    0,
                    args.vm_count as nat,
                    qmp_template_name(),
                );
                let ct = rendered_template(
                    args.client_socket_template@,
                    0,
                    args.vm_count as nat,
                    client_template_name(),
                );
                if qt is Err {
                    r matches Err(m) && m@ == qt->Err_0
                } else if ct is Err {
                    r matches Err(m) && m@ == ct->Err_0
                } else {
                    r matches Ok(cfg) && cfg.manager_socket@ == args.manager_socket@
                        && cfg.clients_per_vm == args.clients_per_vm && cfg.command@ == command
                        && cfg.vms@.len() == args.vm_count && forall|i: int|
                        0 <= i < args.vm_count ==> #[trigger] cfg.vms@[i]@ == demo_vm(
                            args,
                            i as nat,
                        )
                }
            },
        },
{
    if args.vm_count == 0 {
        return Err("VM count must be greater than zero".to_owned());
    }
    if args.clients_per_vm == 0 {
        return Err("clients-per-vm must be greater than zero".to_owned());
    }
    let command = match choose_command(&args.qmp_json) {
        Ok(c) => c,
        Err(e) => return Err(e),
    };
    let mut vms: Vec<VmConfig> = Vec::new();
    let mut index: usize = 0;
    while index < args.vm_count
        invariant
            index <= args.vm_count,
            args.vm_count > 0,
            vms@.len() == index,
            forall|i: int| 0 <= i < index ==> #[trigger] vms@[i]@ == demo_vm(args, i as nat),
            index > 0 ==> rendered_template(
                args.qmp_socket_template@,
                0,
                args.vm_count as nat,
                qmp_template_name(),
            ) is Ok && rendered_template(
                args.client_socket_template@,
                0,
                args.vm_count as nat,
                client_template_name(),
            ) is Ok,
        decreases args.vm_count - index,
    {
        let id = format_vm_id(args.vm_id_prefix.as_str(), index, args.vm_count);
        let qmp_socket = match render_template(
            args.qmp_socket_template.as_str(),
            index,
            args.vm_count,
            "qemu-qmp-socket-template",
        ) {
            Ok(p) => p,
            Err(e) => return Err(e),
        };
        let client_socket = match render_template(
            args.client_socket_template.as_str(),
            index,
            args.vm_count,
            "client-socket-template",
        ) {
            Ok(p) => p,
            Err(e) => return Err(e),
        };
        vms.push(VmConfig { id, qmp_socket, client_socket, move_qmp_socket: args.move_qmp_socket });
        index = index + 1;
    }
    Ok(ParallelConfig {
        manager_socket: args.manager_socket,
        vms,
        clients_per_vm: args.clients_per_vm,
        command,
    })
}


/// Command-line options of the direct QEMU client demo.
pub struct DirectArgs {
    pub qmp_socket: String,
    pub clients: usize,
    pub timeout_ms: u64,
    /// Raw QMP command JSON, if one is given.
    pub qmp_json: Option<String>,
}

/// Configuration of a direct QEMU client demo run.
pub struct DirectConfig {
    pub qmp_socket: String,
    pub clients: usize,
    /// Per-client timeout in milliseconds.
    pub timeout_ms: u64,
    pub command: Json,
}

/// Validate the direct demo's options.
pub fn direct_config(args: DirectArgs) -> (r: Result<
    DirectConfig,
    String,
>)
    ensures
        args.clients == 0 ==> (r matches Err(m) && m@ == "clients must be greater than zero"@),
        args.clients > 0 && args.timeout_ms == 0 ==> (r matches Err(m) && m@
            == "timeout-ms must be greater than zero"@),
        args.clients > 0 && args.timeout_ms > 0 ==> match chosen_command(
            opt_text(args.qmp_json),
        ) {
            Err(msg) => r matches Err(m) && m@ == msg,
            Ok(command) => r matches Ok(cfg) && cfg.qmp_socket@ == args.qmp_socket@ && cfg.clients
                == args.clients && cfg.timeout_ms == args.timeout_ms && cfg.command@ == command,
        },
{
    if args.clients == 0 {
        return Err("clients must be greater than zero".to_owned());
    }
    if args.timeout_ms == 0 {
        return Err("timeout-ms must be greater than zero".to_owned());
    }
    let command = match choose_command(&args.qmp_json) {
        Ok(c) => c,
        Err(e) => return Err(e),
    };
    Ok(DirectConfig {
        qmp_socket: args.qmp_socket,
        clients: args.clients,
        timeout_ms: args.timeout_ms,
        command,
    })
}

/// The registration request body for a demo VM.
pub open spec fn registration_body(vm: VmConfigView) -> JsonView {
    JsonView::Object(
        seq![
            ("qmp_socket"@, JsonView::Str(vm.qmp_socket)),
            ("client_socket"@, JsonView::Str(vm.client_socket)),
            ("move_qmp_socket"@, JsonView::Bool(vm.move_qmp_socket)),
        ],
    )
}

/// Build the registration request body for a demo VM.
pub fn registration_body_value(vm: &VmConfig) -> (r: Json)
    ensures
        r@ == registration_body(vm@),
{
    let mut members: Vec<(String, Json)> = Vec::new();
    members.push(("qmp_socket".to_owned(), Json::Str(vm.qmp_socket.clone())));
    members.push(("client_socket".to_owned(), Json::Str(vm.client_socket.clone())));
    members.push(("move_qmp_socket".to_owned(), Json::Bool(vm.move_qmp_socket)));
    let r = Json::Object(members);
    proof {
        lemma_members_view(members@);
        assert(members_view(members@) =~= registration_body(vm@)->Object_0);
    }
    r
}

/// One line of a failure report: `<vm id>: <error>`.
pub fn vm_failure(id: &str, error: &str) -> (r: String)
    ensures
        r@ == id@ + ": "@ + error@,
{
    let mut r = concat(id, ": ");
    r.append(error);
    r
}

/// The registrations of a demo run so far: the indices of the VMs that were
/// registered, in order, and the failure lines of those that were not.
pub struct RegistrationLog {
    pub registered: Vec<usize>,
    pub errors: Vec<String>,
}

impl RegistrationLog {
    /// A log of no registrations.
    pub fn new() -> (r: RegistrationLog)
        ensures
            r.registered@ == Seq::<usize>::empty(),
            r.errors@ == Seq::<String>::empty(),
    {
        RegistrationLog { registered: Vec::new(), errors: Vec::new() }
    }

    /// Record the outcome of registering VM `index` with id `id`.
    pub fn record(&mut self, index: usize, id: &str, outcome: Result<(), String>)
        ensures
            outcome is Ok ==> final(self).registered@ == old(self).registered@.push(index)
                && final(self).errors@ == old(self).errors@,
            outcome matches Err(e) ==> final(self).registered@ == old(self).registered@
                && final(self).errors@.len() == old(self).errors@.len() + 1
                && final(self).errors@.drop_last() == old(self).errors@
                && final(self).errors@.last()@ == id@ + ": "@ + e@,
    {
        match outcome {
            Ok(()) => self.registered.push(index),
            Err(e) => {
                let line = vm_failure(id, e.as_str());
                self.errors.push(line);
                assert(self.errors@.drop_last() =~= old(self).errors@);
            },
        }
    }

    /// The registered VMs in the order they are unregistered: last first.
    pub fn cleanup_order(&self) -> (r: Vec<usize>)
        ensures
            r@ == self.registered@.reverse(),
    {
        let mut r: Vec<usize> = Vec::new();
        let n = self.registered.len();
        let mut i: usize = n;
        while i > 0
            invariant
                i <= n,
                n == self.registered@.len(),
                r@ == self.registered@.subrange(i as int, n as int).reverse(),
            decreases i,
        {
            i = i - 1;
            r.push(self.registered[i]);
            assert(r@ =~= self.registered@.subrange(i as int, n as int).reverse());
        }
        assert(self.registered@.subrange(0, n as int) =~= self.registered@);
        r
    }
}

/// The text reporting failed registrations.
pub open spec fn register_failed_text(errors: Seq<Seq<char>>) -> Seq<char> {
    "failed to register one or more VMs: "@ + join(errors, "; "@)
}

/// The text reporting failed unregistrations.
pub open spec fn unregister_failed_text(errors: Seq<Seq<char>>) -> Seq<char> {
    "failed to unregister one or more VMs: "@ + join(errors, "; "@)
}

/// The verdict of a demo run: success when every VM was registered and
/// unregistered; otherwise the failures, registrations first.
pub open spec fn run_verdict(registration: Seq<Seq<char>>, cleanup: Seq<Seq<char>>) -> Result<(), Seq<char>> {
    if registration.len() == 0 && cleanup.len() == 0 {
        Ok(())
    } else if cleanup.len() == 0 {
        Err(register_failed_text(registration))
    } else if registration.len() == 0 {
        Err(unregister_failed_text(cleanup))
    } else {
        Err(register_failed_text(registration) + "; "@ + unregister_failed_text(cleanup))
    }
}

/// Combine the registration and cleanup failures of a demo run.
pub fn parallel_run_result(registration_errors: &Vec<String>, cleanup_errors: &Vec<String>) -> (r:
    Result<(), String>)
    ensures
        match run_verdict(string_views(registration_errors@), string_views(cleanup_errors@)) {
            Ok(()) => r is Ok,
            Err(msg) => r matches Err(m) && m@ == msg,
        },
{
    let reg_empty = registration_errors.len() == 0;
    let clean_empty = cleanup_errors.len() == 0;
    if reg_empty && clean_empty {
        return Ok(());
    }
    let reg = concat(
        "failed to register one or more VMs: ",
        join_strings(registration_errors, "; ").as_str(),
    );
    let clean = concat(
        "failed to unregister one or more VMs: ",
        join_strings(cleanup_errors, "; ").as_str(),
    );
    if clean_empty {
        return Err(reg);
    }
    if reg_empty {
        return Err(clean);
    }
    let mut both = concat(reg.as_str(), "; ");
    both.append(clean.as_str());
    Err(both)
}


/// In a multi-VM run, different indices give different VM ids, so the VMs of
/// one run never collide in the registry.
pub proof fn law_vm_ids_distinct(prefix: Seq<char>, i: nat, j: nat, vm_count: nat)
    requires
        vm_count > 1,
        i != j,
    ensures
        vm_id(prefix, i, vm_count) != vm_id(prefix, j, vm_count),
{
    let a = prefix + seq!['-'];
    if vm_id(prefix, i, vm_count) == vm_id(prefix, j, vm_count) {
        assert(vm_id(prefix, i, vm_count).skip(a.len() as int) =~= decimal(i));
        assert(vm_id(prefix, j, vm_count).skip(a.len() as int) =~= decimal(j));
        lemma_decimal_injective(i, j);
    }
}

} // verus!
