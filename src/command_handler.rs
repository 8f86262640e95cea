use vstd::prelude::*;

use crate::configuration::{first_keyed, get_setting, settings_map, Hosts, Preferences, SettingsMap};
use crate::connection_manager::{CachePolicy, ConnectorRequest, RequestType};
use crate::data::{CommandResult, Criticality, ErrorMessage, DisplayOptions, Host, ModuleSpecification, ResponseMessage, UIAction};
use crate::error::LkError;
use crate::host_manager::StateUpdateMessage;
use crate::modules::{
    CommandModule, combine_connector_messages, combined_messages, error_responses, falls_back, is_real_error, ok_responses,
    partition_results,
    strings_view,
};

verus! {

/// What the UI needs to know of a command of a host.
#[derive(Clone, Debug)]
pub struct CommandData {
    pub command_id: String,
    pub command_params: Vec<String>,
    pub display_options: DisplayOptions,
}

impl CommandData {
    pub fn new(command_id: String, display_options: DisplayOptions) -> (r: CommandData)
        ensures
            r.command_id == command_id,
            r.command_params@.len() == 0,
            r.display_options == display_options,
    {
        CommandData { command_id, command_params: Vec::new(), display_options }
    }
}

/// A command registered for a host, with the metadata it reported when it was added.
pub struct CommandSlot<C> {
    pub host_name: String,
    pub spec: ModuleSpecification,
    pub connector_spec: Option<ModuleSpecification>,
    pub display_options: DisplayOptions,
    pub module: C,
}

/// A command request in flight, with what its completion needs.
pub struct CommandInvocation<C> {
    pub host: Host,
    pub invocation_id: u64,
    pub module_spec: ModuleSpecification,
    pub display_options: DisplayOptions,
    pub module: C,
}

/// The result of dispatching a command: a failure to publish at once (invocation id 0), or a
/// request to send with the invocation that completes it.
pub enum Dispatch<C> {
    Rejected(StateUpdateMessage),
    Sent(ConnectorRequest, CommandInvocation<C>),
}

impl<C> Dispatch<C> {
    pub open spec fn spec_invocation_id(&self) -> u64 {
        match self {
            Dispatch::Rejected(_) => 0,
            Dispatch::Sent(_, inv) => inv.invocation_id,
        }
    }

    /// The invocation id the UI correlates results with; 0 for a rejected command.
    pub fn invocation_id(&self) -> (r: u64)
        ensures
            r == self.spec_invocation_id(),
    {
        match self {
            Dispatch::Rejected(_) => 0,
            Dispatch::Sent(_, inv) => inv.invocation_id,
        }
    }
}

/// The update that publishes `result` for the invocation's command.
pub open spec fn command_update<C>(
    inv: CommandInvocation<C>,
    result: CommandResult,
    errors: Option<Vec<ErrorMessage>>,
) -> StateUpdateMessage {
    StateUpdateMessage {
        host_name: inv.host.name,
        display_options: inv.display_options,
        module_spec: inv.module_spec,
        data_point: None,
        command_result: Some(result),
        errors,
        exit_thread: false,
    }
}

/// `request` sends the combined messages of the two forms over the slot's connector, for `host`.
pub open spec fn request_built<C>(
    request: ConnectorRequest,
    slot: CommandSlot<C>,
    host: Host,
    multi: Result<Vec<String>, LkError>,
    single: Result<String, LkError>,
    request_type: RequestType,
) -> bool {
    &&& strings_view(request.messages@) == combined_messages(multi, single)
    &&& request.request_type == request_type
    &&& request.cache_policy == CachePolicy::BypassCache
    &&& request.host.same_as(&host)
    &&& request.source_id@ == slot.spec.id@
    &&& same_connector(request.connector_spec, slot.connector_spec)
}

pub open spec fn same_connector(a: Option<ModuleSpecification>, b: Option<ModuleSpecification>) -> bool {
    match (a, b) {
        (Some(x), Some(y)) => x.same_as(&y),
        (None, None) => true,
        _ => false,
    }
}

/// How a dispatch follows from what the command's message forms returned.
pub open spec fn dispatch_from<C>(
    d: Dispatch<C>,
    slot: CommandSlot<C>,
    host: Host,
    multi: Result<Vec<String>, LkError>,
    single: Result<String, LkError>,
    request_type: RequestType,
) -> bool {
    &&& (d is Rejected <==> is_real_error(multi) || is_real_error(single))
    &&& (d matches Dispatch::Rejected(u) ==> (u.command_result matches Some(c) && c.message == (if is_real_error(multi) {
        multi->Err_0.message
    } else {
        single->Err_0.message
    })))
    &&& (d matches Dispatch::Sent(request, _) ==> request_built(request, slot, host, multi, single, request_type))
}

/// What the external text editor flow does after its download.
pub enum EditorStep<C> {
    /// Launch the editor on `local_path`, then send the upload request.
    Launch { local_path: String, upload: ConnectorRequest, invocation: CommandInvocation<C> },
    Failed(StateUpdateMessage),
}

/// `settings` are the `ssh` connector settings of the first host entry named `host_name`;
/// empty when there is no such entry or it configures no `ssh` connector.
pub open spec fn configured_ssh(hosts: Hosts, host_name: Seq<char>, settings: Seq<(String, String)>) -> bool {
    if exists|h: int, c: int|
        first_keyed(hosts.hosts@, host_name, h) && #[trigger] first_keyed(hosts.hosts@[h].1.connectors@, "ssh"@, c) {
        exists|h: int, c: int|
            first_keyed(hosts.hosts@, host_name, h) && #[trigger] first_keyed(hosts.hosts@[h].1.connectors@, "ssh"@, c)
                && settings == hosts.hosts@[h].1.connectors@[c].1.settings@
    } else {
        settings.len() == 0
    }
}

/// The host's address for ssh: its domain name when it has one, else its IP address.
pub open spec fn ssh_address(host: Host) -> Seq<char> {
    if host.fqdn@.len() > 0 {
        host.fqdn@
    } else {
        host.ip_address@
    }
}

/// `ssh -t -p <port> [-l <user>] <address>`, the port defaulting to 22.
pub open spec fn ssh_argv(settings: Seq<(String, String)>, address: Seq<char>) -> Seq<Seq<char>> {
    let map = settings_map(settings);
    let port = if map.contains_key("port"@) {
        map["port"@]
    } else {
        "22"@
    };
    let user = if map.contains_key("username"@) {
        seq!["-l"@, map["username"@]]
    } else {
        Seq::empty()
    };
    seq!["ssh"@, "-t"@, "-p"@, port] + user + seq![address]
}

/// The local command line that opens a shell on `host` over ssh, with the `ssh` connector
/// settings `settings`.
pub fn ssh_command(settings: &SettingsMap, host: &Host) -> (r: Vec<String>)
    ensures
        strings_view(r@) == ssh_argv(settings@, ssh_address(*host)),
{
    proof {
        reveal_strlit("ssh");
        reveal_strlit("-t");
        reveal_strlit("-p");
        reveal_strlit("22");
        reveal_strlit("-l");
    }
    let mut argv: Vec<String> = Vec::new();
    argv.push(String::from_str("ssh"));
    argv.push(String::from_str("-t"));
    argv.push(String::from_str("-p"));
    match get_setting(settings, "port") {
        Some(port) => argv.push(port.clone()),
        None => argv.push(String::from_str("22")),
    }
    match get_setting(settings, "username") {
        Some(user) => {
            argv.push(String::from_str("-l"));
            argv.push(user.clone());
        },
        None => {},
    }
    if host.fqdn.as_str().is_empty() {
        argv.push(host.ip_address.clone());
    } else {
        argv.push(host.fqdn.clone());
    }
    proof {
        let expected = ssh_argv(settings@, ssh_address(*host));
        assert(strings_view(argv@) =~= expected);
    }
    argv
}

/// Append `extra` to `argv`.
fn extend_strings(argv: &mut Vec<String>, extra: &Vec<String>)
    ensures
        strings_view(final(argv)@) == strings_view(old(argv)@) + strings_view(extra@),
{
    let ghost start = strings_view(argv@);
    let mut i: usize = 0;
    while i < extra.len()
        invariant
            i <= extra@.len(),
            strings_view(argv@) == start + strings_view(extra@.subrange(0, i as int)),
        decreases extra@.len() - i,
    {
        let ghost before = argv@;
        argv.push(extra[i].clone());
        assert(strings_view(argv@) =~= strings_view(before).push(extra@[i as int]@));
        assert(strings_view(extra@.subrange(0, i as int + 1)) =~= strings_view(
            extra@.subrange(0, i as int),
        ).push(extra@[i as int]@));
        assert(strings_view(argv@) =~= start + strings_view(extra@.subrange(0, i as int + 1)));
        i = i + 1;
    }
    assert(extra@.subrange(0, extra@.len() as int) =~= extra@);
}

/// The connector's errors of a request, each reported as an error.
pub fn connector_errors(errors: Vec<String>) -> (r: Vec<ErrorMessage>)
    ensures
        r@.len() == errors@.len(),
        forall|i: int|
            0 <= i < r@.len() ==> (#[trigger] r@[i]).criticality == Criticality::Error && r@[i].message == errors@[i],
{
    let mut out: Vec<ErrorMessage> = Vec::new();
    let mut rest = errors;
    let ghost given = rest@;
    while rest.len() > 0
        invariant
            out@.len() + rest@.len() == given.len(),
            rest@ == given.subrange(out@.len() as int, given.len() as int),
            forall|i: int|
                0 <= i < out@.len() ==> (#[trigger] out@[i]).criticality == Criticality::Error && out@[i].message == given[i],
        decreases rest@.len(),
    {
        let ghost n: int = out@.len() as int;
        let message = rest.remove(0);
        assert(message == given[n]);
        out.push(ErrorMessage { criticality: Criticality::Error, message });
        assert(rest@ =~= given.subrange(n + 1, given.len() as int));
    }
    out
}

impl<C: CommandModule + Clone> CommandInvocation<C> {
    /// Publish the command's processed result, stamped with the invocation and command ids;
    /// a processing error is published as an error result.
    pub fn finish(self, processed: Result<CommandResult, LkError>, errors: Vec<ErrorMessage>) -> (r: StateUpdateMessage)
        ensures
            processed matches Ok(c) ==> r == command_update(
                self,
                CommandResult { invocation_id: self.invocation_id, command_id: self.module_spec.id, ..c },
                Some(errors),
            ),
            processed matches Err(e) ==> r.host_name == self.host.name && r.module_spec == self.module_spec
                && !r.exit_thread && (r.command_result matches Some(c) && c.criticality == Criticality::Error
                && c.message == e.message && c.invocation_id == self.invocation_id) && r.errors == Some(errors),
    {
        let CommandInvocation { host, invocation_id, module_spec, display_options, module } = self;
        let result = match processed {
            Ok(c) => {
                let mut c = c;
                c.invocation_id = invocation_id;
                c.command_id = module_spec.id.clone();
                c
            },
            Err(e) => CommandResult::new_error(e.message).with_invocation_id(invocation_id),
        };
        StateUpdateMessage {
            host_name: host.name,
            display_options,
            module_spec,
            data_point: None,
            command_result: Some(result),
            errors: Some(errors),
            exit_thread: false,
        }
    }

    /// Process the connector's results with the command and publish the outcome. The
    /// responses go to the multi-response form, falling back to the first response when it
    /// signals "not implemented"; no responses at all is an error.
    pub fn complete(self, results: Vec<Result<ResponseMessage, String>>) -> (r: StateUpdateMessage)
        ensures
            r.host_name == self.host.name,
            r.module_spec == self.module_spec,
            r.command_result matches Some(c) && c.invocation_id == self.invocation_id,
            ok_responses(results@).len() == 0 ==> (r.command_result matches Some(c) && c.criticality
                == Criticality::Error && c.message@ == "No responses received for command"@ + ": "@
                + self.module_spec.id@),
            !r.exit_thread,
            r.errors matches Some(es) && es@.len() == error_responses(results@).len() && forall|i: int|
                0 <= i < es@.len() ==> (#[trigger] es@[i]).criticality == Criticality::Error && es@[i].message
                    == error_responses(results@)[i],
    {
        let (responses, errors) = partition_results(results);
        let errors = connector_errors(errors);
        let processed = if responses.len() > 0 {
            let multi = self.module.process_responses(&self.host, &responses);
            if falls_back(&multi) {
                self.module.process_response(&self.host, &responses[0])
            } else {
                multi
            }
        } else {
            Err(LkError::other_p("No responses received for command", self.module_spec.id.as_str()))
        };
        self.finish(processed, errors)
    }

    /// The update that reports a local program (the editor) that could not be started.
    pub fn launch_failed(self, error: &str) -> (r: StateUpdateMessage)
        ensures
            r.host_name == self.host.name,
            r.module_spec == self.module_spec,
            !r.exit_thread,
            r.command_result matches Some(c) && c.criticality == Criticality::Critical && c.invocation_id
                == self.invocation_id && c.message@ == "Couldn't start text editor: "@ + error@,
    {
        let CommandInvocation { host, invocation_id, module_spec, display_options, module } = self;
        let mut message = String::from_str("Couldn't start text editor: ");
        message.append(error);
        StateUpdateMessage {
            host_name: host.name,
            display_options,
            module_spec,
            data_point: None,
            command_result: Some(CommandResult::new_critical_error(message).with_invocation_id(invocation_id)),
            errors: None,
            exit_thread: false,
        }
    }

    /// Whether the downloaded file's contents, rather than its local path, go to the result.
    pub fn loads_contents(&self) -> (r: bool)
        ensures
            r == (self.display_options.action == UIAction::TextEditor),
    {
        self.display_options.action == UIAction::TextEditor
    }

    /// Publish a finished download as a hidden result: the local path, or the file's contents
    /// when the command edits text and `contents` holds them. A failed download is a critical
    /// error.
    pub fn complete_download(self, results: Vec<Result<ResponseMessage, String>>, contents: Option<String>) -> (r:
        StateUpdateMessage)
        ensures
            r.host_name == self.host.name,
            r.module_spec == self.module_spec,
            !r.exit_thread,
            r.command_result matches Some(c) && c.invocation_id == self.invocation_id && match (
                if results@.len() > 0 {
                    Some(results@[0])
                } else {
                    None
                }
            ) {
                Some(Ok(m)) => c.hidden && c.criticality == Criticality::Normal && c.message@ == (
                if self.display_options.action == UIAction::TextEditor && contents is Some {
                    contents->0@
                } else {
                    m.message@
                }),
                Some(Err(e)) => c.criticality == Criticality::Critical && !c.hidden && c.message@
                    == "Error downloading file: "@ + e@,
                None => c.criticality == Criticality::Critical && !c.hidden && c.message@
                    == "Error downloading file: no response"@,
            },
    {
        let load = self.loads_contents();
        let CommandInvocation { host, invocation_id, module_spec, display_options, module } = self;
        let mut rest = results;
        let result = if rest.len() > 0 {
            match rest.remove(0) {
                Ok(m) => {
                    let message = match contents {
                        Some(text) => if load {
                            text
                        } else {
                            m.message
                        },
                        None => m.message,
                    };
                    CommandResult::new_hidden(message).with_invocation_id(invocation_id)
                },
                Err(e) => {
                    let mut message = String::from_str("Error downloading file: ");
                    message.append(e.as_str());
                    CommandResult::new_critical_error(message).with_invocation_id(invocation_id)
                },
            }
        } else {
            CommandResult::new_critical_error(String::from_str("Error downloading file: no response"))
                .with_invocation_id(invocation_id)
        };
        StateUpdateMessage {
            host_name: host.name,
            display_options,
            module_spec,
            data_point: None,
            command_result: Some(result),
            errors: None,
            exit_thread: false,
        }
    }

    /// Publish a finished upload: an info result on success, a critical error otherwise.
    pub fn complete_upload(self, results: Vec<Result<ResponseMessage, String>>) -> (r: StateUpdateMessage)
        ensures
            r.host_name == self.host.name,
            r.module_spec == self.module_spec,
            !r.exit_thread,
            r.command_result matches Some(c) && c.invocation_id == self.invocation_id && (if results@.len()
                > 0 && results@[0] is Ok {
                c.criticality == Criticality::Info && c.message == results@[0]->Ok_0.message
            } else {
                c.criticality == Criticality::Critical
            }),
            results@.len() > 0 && results@[0] is Err ==> (r.command_result matches Some(c) && c.message@
                == "Error uploading file: "@ + results@[0]->Err_0@),
    {
        let CommandInvocation { host, invocation_id, module_spec, display_options, module } = self;
        let mut rest = results;
        let result = if rest.len() > 0 {
            match rest.remove(0) {
                Ok(m) => CommandResult::new_info(m.message).with_invocation_id(invocation_id),
                Err(e) => {
                    let mut message = String::from_str("Error uploading file: ");
                    message.append(e.as_str());
                    CommandResult::new_critical_error(message).with_invocation_id(invocation_id)
                },
            }
        } else {
            CommandResult::new_critical_error(String::from_str("Error uploading file: no response"))
                .with_invocation_id(invocation_id)
        };
        StateUpdateMessage {
            host_name: host.name,
            display_options,
            module_spec,
            data_point: None,
            command_result: Some(result),
            errors: None,
            exit_thread: false,
        }
    }

    /// The step of the external editor flow after its download: on success, launch the editor
    /// on the local copy and then upload it back; a failed download launches nothing.
    pub fn after_editor_download(self, results: Vec<Result<ResponseMessage, String>>, connector_spec: Option<
        ModuleSpecification,
    >) -> (r: EditorStep<C>)
        ensures
            (results@.len() > 0 && results@[0] is Ok) <==> r is Launch,
            r matches EditorStep::Launch { local_path, upload, invocation } ==> {
                &&& local_path == results@[0]->Ok_0.message
                &&& upload.request_type == RequestType::Upload
                &&& strings_view(upload.messages@) == seq![local_path@]
                &&& upload.cache_policy == CachePolicy::BypassCache
                &&& upload.connector_spec == connector_spec
                &&& upload.host.same_as(&self.host)
                &&& invocation.invocation_id == self.invocation_id
            },
            r matches EditorStep::Failed(u) ==> (u.command_result matches Some(c) && c.criticality
                == Criticality::Critical && c.message@ == (if results@.len() > 0 {
                "Error downloading file: "@ + results@[0]->Err_0@
            } else {
                "Error downloading file: no response"@
            })),
    {
        let mut rest = results;
        if rest.len() > 0 {
            match rest.remove(0) {
                Ok(m) => {
                    let local_path = m.message;
                    let mut messages = Vec::new();
                    messages.push(local_path.clone());
                    let upload = ConnectorRequest {
                        connector_spec,
                        source_id: self.module_spec.id.clone(),
                        host: self.host.duplicate(),
                        messages,
                        request_type: RequestType::Upload,
                        cache_policy: CachePolicy::BypassCache,
                    };
                    proof {
                        assert(strings_view(upload.messages@) =~= seq![local_path@]);
                    }
                    EditorStep::Launch { local_path, upload, invocation: self }
                },
                Err(e) => {
                    let mut failed = Vec::new();
                    failed.push(Err(e));
                    EditorStep::Failed(self.complete_download(failed, None))
                },
            }
        } else {
            EditorStep::Failed(self.complete_download(Vec::new(), None))
        }
    }
}

/// The commands of every host, the preferences and host configuration they run with, and the
/// counter that numbers executions.
pub struct CommandHandler<C> {
    pub commands: Vec<CommandSlot<C>>,
    pub preferences: Preferences,
    pub hosts_config: Hosts,
    /// The last invocation id given out; valid ids start from 1.
    pub invocation_id_counter: u64,
}

pub open spec fn has_command<C>(slots: Seq<CommandSlot<C>>, host_name: Seq<char>, id: Seq<char>) -> bool {
    exists|k: int|
        0 <= k < slots.len() && (#[trigger] slots[k]).host_name@ == host_name && slots[k].spec.id@ == id
}

/// Each of the first `n` given commands has a slot on its host.
#[verifier::opaque]
pub open spec fn hosts_covered<C>(slots: Seq<CommandSlot<C>>, given: Seq<(String, C)>, n: int) -> bool {
    forall|i: int|
        #![trigger given[i]]
        0 <= i < n ==> exists|k: int| #![trigger slots[k]] 0 <= k < slots.len() && slots[k].host_name@ == given[i].0@
}

/// Each slot holds one of the first `n` given commands, on its host.
#[verifier::opaque]
pub open spec fn slots_from<C>(slots: Seq<CommandSlot<C>>, given: Seq<(String, C)>, n: int) -> bool {
    forall|k: int|
        #![trigger slots[k]]
        0 <= k < slots.len() ==> exists|i: int|
            #![trigger given[i]]
            0 <= i < n && slots[k].host_name@ == given[i].0@ && slots[k].module == given[i].1
}

proof fn lemma_configure_added<C>(before: Seq<CommandSlot<C>>, after: Seq<CommandSlot<C>>, given: Seq<(String, C)>, taken: int)
    requires
        0 <= taken < given.len(),
        after == before.push(after.last()),
        after.last().host_name@ == given[taken].0@,
        after.last().module == given[taken].1,
        hosts_covered(before, given, taken),
        slots_from(before, given, taken),
    ensures
        hosts_covered(after, given, taken + 1),
        slots_from(after, given, taken + 1),
{
    reveal(hosts_covered);
    reveal(slots_from);
    let n = before.len() as int;
    assert forall|i: int| 0 <= i < taken + 1 implies exists|k: int|
        0 <= k < after.len() && (#[trigger] after[k]).host_name@ == (#[trigger] given[i]).0@ by {
        if i < taken {
            let k = choose|k: int| 0 <= k < before.len() && (#[trigger] before[k]).host_name@ == given[i].0@;
            assert(after[k] == before[k]);
        } else {
            assert(after[n].host_name@ == given[i].0@);
        }
    }
    assert forall|k: int| 0 <= k < after.len() implies exists|i: int|
        0 <= i < taken + 1 && (#[trigger] after[k]).host_name@ == (#[trigger] given[i]).0@ && after[k].module == given[i].1 by {
        if k < n {
            assert(after[k] == before[k]);
            let i = choose|i: int| 0 <= i < taken && (#[trigger] before[k]).host_name@ == (#[trigger] given[i]).0@
                && before[k].module == given[i].1;
        } else {
            assert(after[k].host_name@ == given[taken].0@);
        }
    }
}

proof fn lemma_configure_skipped<C>(slots: Seq<CommandSlot<C>>, given: Seq<(String, C)>, taken: int)
    requires
        0 <= taken < given.len(),
        exists|k: int| 0 <= k < slots.len() && (#[trigger] slots[k]).host_name@ == given[taken].0@,
        hosts_covered(slots, given, taken),
        slots_from(slots, given, taken),
    ensures
        hosts_covered(slots, given, taken + 1),
        slots_from(slots, given, taken + 1),
{
    reveal(hosts_covered);
    reveal(slots_from);
    let w = choose|k: int| 0 <= k < slots.len() && (#[trigger] slots[k]).host_name@ == given[taken].0@;
    assert(slots[w].host_name@ == given[taken].0@);
}

impl<C: CommandModule + Clone> CommandHandler<C> {
    pub open spec fn wf(&self) -> bool {
        forall|i: int, j: int|
            0 <= i < self.commands@.len() && 0 <= j < self.commands@.len() && i != j ==> !((
            #[trigger] self.commands@[i]).host_name@ == (#[trigger] self.commands@[j]).host_name@
                && self.commands@[i].spec.id@ == self.commands@[j].spec.id@)
    }

    pub fn new() -> (r: CommandHandler<C>)
        ensures
            r.wf(),
            r.commands@.len() == 0,
            r.invocation_id_counter == 0,
    {
        CommandHandler {
            commands: Vec::new(),
            preferences: Preferences::new(),
            hosts_config: Hosts::new(),
            invocation_id_counter: 0,
        }
    }

    pub fn find_command(&self, host_name: &String, id: &String) -> (r: Option<usize>)
        ensures
            r matches Some(k) ==> k < self.commands@.len() && self.commands@[k as int].host_name@
                == host_name@ && self.commands@[k as int].spec.id@ == id@,
            r is None ==> !has_command(self.commands@, host_name@, id@),
    {
        let mut k: usize = 0;
        while k < self.commands.len()
            invariant
                k <= self.commands@.len(),
                forall|j: int|
                    0 <= j < k ==> !((#[trigger] self.commands@[j]).host_name@ == host_name@
                        && self.commands@[j].spec.id@ == id@),
            decreases self.commands@.len() - k,
        {
            if self.commands[k].host_name == *host_name && self.commands[k].spec.id == *id {
                return Some(k);
            }
            k = k + 1;
        }
        None
    }

    /// Add a command to a host unless it already has one with the same id.
    pub fn add_command(&mut self, host_name: &String, command: C) -> (r: bool)
        requires
            old(self).wf(),
        ensures
            final(self).wf(),
            final(self).invocation_id_counter == old(self).invocation_id_counter,
            final(self).preferences == old(self).preferences,
            final(self).hosts_config == old(self).hosts_config,
            !r ==> final(self).commands == old(self).commands,
            r ==> final(self).commands@ == old(self).commands@.push(final(self).commands@.last())
                && final(self).commands@.last().host_name@ == host_name@ && !has_command(
                old(self).commands@,
                host_name@,
                final(self).commands@.last().spec.id@,
            ),
            exists|spec: ModuleSpecification|
                {
                    &&& (!r <==> has_command(old(self).commands@, host_name@, spec.id@))
                    &&& (r ==> final(self).commands@.last().spec == spec && final(self).commands@.last().module
                        == command)
                },
    {
        let spec = command.get_module_spec();
        if let Some(k) = self.find_command(host_name, &spec.id) {
            assert(has_command(old(self).commands@, host_name@, spec.id@));
            return false;
        }
        let ghost s = spec;
        let slot = CommandSlot {
            host_name: host_name.clone(),
            spec,
            connector_spec: command.get_connector_spec(),
            display_options: command.get_display_options(),
            module: command,
        };
        self.commands.push(slot);
        assert(self.commands@.last().spec == s);
        true
    }

    /// Replace the configuration and the commands; the invocation counter carries on.
    pub fn configure(&mut self, hosts_config: Hosts, preferences: Preferences, commands: Vec<(String, C)>)
        requires
            old(self).wf(),
        ensures
            final(self).wf(),
            final(self).invocation_id_counter == old(self).invocation_id_counter,
            final(self).hosts_config == hosts_config,
            final(self).preferences == preferences,
            final(self).commands@.len() <= commands@.len(),
            hosts_covered(final(self).commands@, commands@, commands@.len() as int),
            slots_from(final(self).commands@, commands@, commands@.len() as int),
    {
        self.commands = Vec::new();
        self.hosts_config = hosts_config;
        self.preferences = preferences;
        let ghost given = commands@;
        let mut rest = commands;
        let ghost mut taken: int = 0;
        proof {
            reveal(hosts_covered);
            reveal(slots_from);
        }
        while rest.len() > 0
            invariant
                self.wf(),
                self.invocation_id_counter == old(self).invocation_id_counter,
                self.hosts_config == hosts_config,
                self.preferences == preferences,
                0 <= taken <= given.len(),
                rest@ == given.subrange(taken, given.len() as int),
                self.commands@.len() <= taken,
                hosts_covered(self.commands@, given, taken),
                slots_from(self.commands@, given, taken),
            decreases rest@.len(),
        {
            let ghost before = self.commands@;
            let (host_name, command) = rest.remove(0);
            assert(host_name == given[taken].0 && command == given[taken].1);
            let added = self.add_command(&host_name, command);
            proof {
                if added {
                    lemma_configure_added(before, self.commands@, given, taken);
                } else {
                    let spec = choose|spec: ModuleSpecification| has_command(before, host_name@, spec.id@);
                    lemma_configure_skipped(before, given, taken);
                }
                taken = taken + 1;
            }
        }
        proof {
            assert(given.subrange(taken, given.len() as int).len() == 0);
        }
    }

    /// The commands of `host_name`, in the order they were added.
    pub fn get_commands_for_host(&self, host_name: &String) -> (r: Vec<CommandData>)
        ensures
            r@.len() <= self.commands@.len(),
            forall|i: int|
                0 <= i < r@.len() ==> has_command(self.commands@, host_name@, (#[trigger] r@[i]).command_id@),
            forall|k: int|
                0 <= k < self.commands@.len() && (#[trigger] self.commands@[k]).host_name@ == host_name@
                    ==> exists|i: int| 0 <= i < r@.len() && (#[trigger] r@[i]).command_id@ == self.commands@[k].spec.id@,
    {
        let mut out: Vec<CommandData> = Vec::new();
        let mut k: usize = 0;
        while k < self.commands.len()
            invariant
                k <= self.commands@.len(),
                out@.len() <= k,
                forall|i: int|
                    0 <= i < out@.len() ==> has_command(self.commands@, host_name@, (#[trigger] out@[i]).command_id@),
                forall|j: int|
                    0 <= j < k && (#[trigger] self.commands@[j]).host_name@ == host_name@ ==> exists|i: int|
                        0 <= i < out@.len() && (#[trigger] out@[i]).command_id@ == self.commands@[j].spec.id@,
            decreases self.commands@.len() - k,
        {
            let slot = &self.commands[k];
            if slot.host_name == *host_name {
                let ghost before = out@;
                out.push(CommandData::new(slot.spec.id.clone(), slot.display_options.clone()));
                proof {
                    let n = out@.len() - 1;
                    assert(out@[n].command_id@ == self.commands@[k as int].spec.id@);
                    assert(has_command(self.commands@, host_name@, out@[n].command_id@));
                    assert forall|i: int| 0 <= i < n implies #[trigger] out@[i] == before[i] by {}
                    assert forall|j: int|
                        0 <= j < k + 1 && (#[trigger] self.commands@[j]).host_name@ == host_name@ implies exists|i: int|
                        0 <= i < out@.len() && (#[trigger] out@[i]).command_id@ == self.commands@[j].spec.id@ by {
                        if j < k {
                            let i = choose|i: int|
                                0 <= i < before.len() && (#[trigger] before[i]).command_id@ == self.commands@[j].spec.id@;
                            assert(out@[i] == before[i]);
                        }
                    }
                }
            }
            k = k + 1;
        }
        out
    }

    pub fn get_command_for_host(&self, host_name: &String, command_id: &String) -> (r: Option<CommandData>)
        ensures
            r is Some <==> has_command(self.commands@, host_name@, command_id@),
            r matches Some(d) ==> d.command_id@ == command_id@,
    {
        match self.find_command(host_name, command_id) {
            Some(k) => Some(CommandData::new(self.commands[k].spec.id.clone(), self.commands[k].display_options.clone())),
            None => None,
        }
    }

    fn rejected(host: &Host, command_id: &String, display_options: DisplayOptions, error: LkError) -> (r:
        StateUpdateMessage)
        ensures
            r.host_name == host.name,
            r.module_spec.id@ == command_id@,
            r.command_result matches Some(c) && c.criticality == Criticality::Error && c.invocation_id == 0
                && c.message == error.message,
            !r.exit_thread,
            r.data_point is None,
    {
        StateUpdateMessage {
            host_name: host.name.clone(),
            display_options,
            module_spec: ModuleSpecification { id: command_id.clone(), version: String::new() },
            data_point: None,
            command_result: Some(CommandResult::new_error(error.message)),
            errors: None,
            exit_thread: false,
        }
    }

    /// Decide on what the command's two message forms returned: a real error of either form
    /// rejects the command with that error; otherwise the request carries the combined messages
    /// over the command's connector, for `host`, numbered `invocation_id`.
    pub fn build_dispatch(
        slot: &CommandSlot<C>,
        host: &Host,
        multi: Result<Vec<String>, LkError>,
        single: Result<String, LkError>,
        request_type: RequestType,
        invocation_id: u64,
    ) -> (r: Dispatch<C>)
        ensures
            r is Rejected <==> is_real_error(multi) || is_real_error(single),
            r matches Dispatch::Rejected(u) ==> {
                &&& u.host_name == host.name
                &&& u.module_spec.id@ == slot.spec.id@
                &&& u.command_result matches Some(c) && c.criticality == Criticality::Error && c.invocation_id == 0
                    && c.message == (if is_real_error(multi) {
                    multi->Err_0.message
                } else {
                    single->Err_0.message
                })
            },
            r matches Dispatch::Sent(request, inv) ==> request_built(request, *slot, *host, multi, single, request_type)
                && inv.invocation_id == invocation_id && inv.module_spec.same_as(&slot.spec) && inv.host.same_as(host),
    {
        let messages = match combine_connector_messages(multi, single) {
            Ok(messages) => messages,
            Err(e) => {
                return Dispatch::Rejected(Self::rejected(host, &slot.spec.id, slot.display_options.clone(), e));
            },
        };
        let request = ConnectorRequest {
            connector_spec: match &slot.connector_spec {
                Some(c) => Some(c.duplicate()),
                None => None,
            },
            source_id: slot.spec.id.clone(),
            host: host.duplicate(),
            messages,
            request_type,
            cache_policy: CachePolicy::BypassCache,
        };
        let invocation = CommandInvocation {
            host: host.duplicate(),
            invocation_id,
            module_spec: slot.spec.duplicate(),
            display_options: slot.display_options.clone(),
            module: slot.module.clone(),
        };
        Dispatch::Sent(request, invocation)
    }

    /// Build the request of command `command_id` of `host` with `parameters`, of the given type,
    /// numbered with the next invocation id. An unknown command, or a real error from building
    /// its messages, is rejected and takes no id.
    fn dispatch(&mut self, host: &Host, command_id: &String, parameters: &Vec<String>, request_type: RequestType) -> (r:
        Dispatch<C>)
        requires
            old(self).invocation_id_counter < u64::MAX,
        ensures
            final(self).commands == old(self).commands,
            final(self).preferences == old(self).preferences,
            final(self).hosts_config == old(self).hosts_config,
            !has_command(old(self).commands@, host.name@, command_id@) ==> r is Rejected,
            r is Rejected ==> final(self).invocation_id_counter == old(self).invocation_id_counter,
            r matches Dispatch::Sent(request, inv) ==> {
                &&& inv.invocation_id == old(self).invocation_id_counter + 1
                &&& final(self).invocation_id_counter == inv.invocation_id
                &&& request.request_type == request_type
                &&& request.cache_policy == CachePolicy::BypassCache
                &&& inv.module_spec.id@ == command_id@
            },
            r matches Dispatch::Rejected(u) ==> u.host_name == host.name && (u.command_result matches Some(
                c,
            ) && c.criticality == Criticality::Error),
            has_command(old(self).commands@, host.name@, command_id@) ==> exists|k: int, multi: Result<Vec<String>, LkError>, single: Result<String, LkError>|
                0 <= k < old(self).commands@.len() && old(self).commands@[k].host_name@ == host.name@
                    && old(self).commands@[k].spec.id@ == command_id@ && #[trigger] dispatch_from(
                    r,
                    old(self).commands@[k],
                    *host,
                    multi,
                    single,
                    request_type,
                ),
    {
        let k = match self.find_command(&host.name, command_id) {
            Some(k) => k,
            None => {
                let options = DisplayOptions::new(String::new(), command_id.clone());
                return Dispatch::Rejected(
                    Self::rejected(host, command_id, options, LkError::other("Command not found")),
                );
            },
        };
        let slot = &self.commands[k];
        let multi = slot.module.get_connector_messages(host, parameters);
        let single = slot.module.get_connector_message(host, parameters);
        let ghost m = multi;
        let ghost sg = single;
        let d = Self::build_dispatch(slot, host, multi, single, request_type, self.invocation_id_counter + 1);
        if let Dispatch::Sent(_, _) = &d {
            self.invocation_id_counter = self.invocation_id_counter + 1;
        }
        proof {
            assert(dispatch_from(d, self.commands@[k as int], *host, m, sg, request_type));
        }
        d
    }

    /// Run command `command_id` on `host`. Returns the request and its invocation, numbered
    /// with the next invocation id, or an error update and invocation id 0.
    pub fn execute(&mut self, host: &Host, command_id: &String, parameters: &Vec<String>) -> (r: Dispatch<C>)
        requires
            old(self).invocation_id_counter < u64::MAX,
        ensures
            final(self).commands == old(self).commands,
            !has_command(old(self).commands@, host.name@, command_id@) ==> r is Rejected,
            r.spec_invocation_id() == 0 <==> r is Rejected,
            r is Rejected ==> final(self).invocation_id_counter == old(self).invocation_id_counter,
            r matches Dispatch::Sent(request, inv) ==> {
                &&& inv.invocation_id == old(self).invocation_id_counter + 1
                &&& final(self).invocation_id_counter == inv.invocation_id
                &&& request.request_type == RequestType::Command
                &&& request.cache_policy == CachePolicy::BypassCache
            },
            has_command(old(self).commands@, host.name@, command_id@) ==> exists|k: int, multi: Result<Vec<String>, LkError>, single: Result<String, LkError>|
                0 <= k < old(self).commands@.len() && old(self).commands@[k].host_name@ == host.name@
                    && old(self).commands@[k].spec.id@ == command_id@ && #[trigger] dispatch_from(
                    r,
                    old(self).commands@[k],
                    *host,
                    multi,
                    single,
                    RequestType::Command,
                ),
    {
        self.dispatch(host, command_id, parameters, RequestType::Command)
    }

    /// Download `remote_file_path` with command `command_id` of `host`.
    pub fn download_file(&mut self, host: &Host, command_id: &String, remote_file_path: &String) -> (r: Dispatch<C>)
        requires
            old(self).invocation_id_counter < u64::MAX,
        ensures
            final(self).commands == old(self).commands,
            r.spec_invocation_id() == 0 <==> r is Rejected,
            r is Rejected ==> final(self).invocation_id_counter == old(self).invocation_id_counter,
            r matches Dispatch::Sent(request, inv) ==> {
                &&& inv.invocation_id == old(self).invocation_id_counter + 1
                &&& final(self).invocation_id_counter == inv.invocation_id
                &&& request.request_type == RequestType::Download
                &&& request.cache_policy == CachePolicy::BypassCache
            },
            has_command(old(self).commands@, host.name@, command_id@) ==> exists|k: int, multi: Result<Vec<String>, LkError>, single: Result<String, LkError>|
                0 <= k < old(self).commands@.len() && old(self).commands@[k].host_name@ == host.name@
                    && old(self).commands@[k].spec.id@ == command_id@ && #[trigger] dispatch_from(
                    r,
                    old(self).commands@[k],
                    *host,
                    multi,
                    single,
                    RequestType::Download,
                ),
    {
        let mut parameters = Vec::new();
        parameters.push(remote_file_path.clone());
        self.dispatch(host, command_id, &parameters, RequestType::Download)
    }

    /// Upload the local copy `local_file_path`, already saved, with command `command_id` of `host`.
    pub fn save_and_upload_file(&mut self, host: &Host, command_id: &String, local_file_path: &String) -> (r:
        Dispatch<C>)
        requires
            old(self).invocation_id_counter < u64::MAX,
        ensures
            final(self).commands == old(self).commands,
            !has_command(old(self).commands@, host.name@, command_id@) <==> r is Rejected,
            r is Rejected ==> final(self).invocation_id_counter == old(self).invocation_id_counter,
            r matches Dispatch::Sent(request, inv) ==> {
                &&& inv.invocation_id == old(self).invocation_id_counter + 1
                &&& final(self).invocation_id_counter == inv.invocation_id
                &&& request.request_type == RequestType::Upload
                &&& strings_view(request.messages@) == seq![local_file_path@]
                &&& request.cache_policy == CachePolicy::BypassCache
                &&& request.host.same_as(host)
                &&& exists|k: int|
                    0 <= k < old(self).commands@.len() && old(self).commands@[k].host_name@ == host.name@
                        && old(self).commands@[k].spec.id@ == command_id@ && same_connector(
                        request.connector_spec,
                        #[trigger] old(self).commands@[k].connector_spec,
                    )
            },
    {
        let k = match self.find_command(&host.name, command_id) {
            Some(k) => k,
            None => {
                let options = DisplayOptions::new(String::new(), command_id.clone());
                return Dispatch::Rejected(
                    Self::rejected(host, command_id, options, LkError::other("Command not found")),
                );
            },
        };
        self.invocation_id_counter = self.invocation_id_counter + 1;
        let slot = &self.commands[k];
        let mut messages = Vec::new();
        messages.push(local_file_path.clone());
        proof {
            assert(strings_view(messages@) =~= seq![local_file_path@]);
        }
        let request = ConnectorRequest {
            connector_spec: match &slot.connector_spec {
                Some(c) => Some(c.duplicate()),
                None => None,
            },
            source_id: slot.spec.id.clone(),
            host: host.duplicate(),
            messages,
            request_type: RequestType::Upload,
            cache_policy: CachePolicy::BypassCache,
        };
        let invocation = CommandInvocation {
            host: host.clone(),
            invocation_id: self.invocation_id_counter,
            module_spec: slot.spec.duplicate(),
            display_options: slot.display_options.clone(),
            module: slot.module.clone(),
        };
        Dispatch::Sent(request, invocation)
    }

    /// Start the external text editor flow for `remote_file_path`: its download request. The
    /// flow takes no invocation id.
    pub fn open_external_text_editor(&mut self, host: &Host, command_id: &String, remote_file_path: &String) -> (r:
        Dispatch<C>)
        requires
            old(self).invocation_id_counter < u64::MAX,
        ensures
            final(self).commands == old(self).commands,
            final(self).invocation_id_counter == old(self).invocation_id_counter,
            r matches Dispatch::Sent(request, inv) ==> request.request_type == RequestType::Download
                && inv.invocation_id == 0,
            has_command(old(self).commands@, host.name@, command_id@) ==> exists|k: int, multi: Result<Vec<String>, LkError>, single: Result<String, LkError>|
                0 <= k < old(self).commands@.len() && old(self).commands@[k].host_name@ == host.name@
                    && old(self).commands@[k].spec.id@ == command_id@ && #[trigger] dispatch_from(
                    r,
                    old(self).commands@[k],
                    *host,
                    multi,
                    single,
                    RequestType::Download,
                ),
    {
        let counter = self.invocation_id_counter;
        let mut parameters = Vec::new();
        parameters.push(remote_file_path.clone());
        let d = self.dispatch(host, command_id, &parameters, RequestType::Download);
        let ghost dg = d;
        self.invocation_id_counter = counter;
        match d {
            Dispatch::Sent(request, inv) => {
                let mut inv = inv;
                inv.invocation_id = 0;
                let r = Dispatch::Sent(request, inv);
                proof {
                    if has_command(old(self).commands@, host.name@, command_id@) {
                        let (k, m, sg) = choose|k: int, m: Result<Vec<String>, LkError>, sg: Result<String, LkError>|
                            0 <= k < old(self).commands@.len() && old(self).commands@[k].host_name@ == host.name@
                                && old(self).commands@[k].spec.id@ == command_id@ && #[trigger] dispatch_from(
                                dg,
                                old(self).commands@[k],
                                *host,
                                m,
                                sg,
                                RequestType::Download,
                            );
                        assert(dispatch_from(r, old(self).commands@[k], *host, m, sg, RequestType::Download));
                    }
                }
                r
            },
            Dispatch::Rejected(u) => Dispatch::Rejected(u),
        }
    }

    /// The ssh command line for `host`, with the `ssh` connector settings configured for it.
    pub fn remote_ssh_command(&self, host: &Host) -> (r: Vec<String>)
        ensures
            exists|settings: Seq<(String, String)>|
                configured_ssh(self.hosts_config, host.name@, settings) && strings_view(r@) == ssh_argv(
                    settings,
                    ssh_address(*host),
                ),
    {
        let empty: SettingsMap = Vec::new();
        let settings: &SettingsMap = match self.hosts_config.find(&host.name) {
            Some(i) => match self.hosts_config.hosts[i].1.connector_settings("ssh") {
                Some(settings) => settings,
                None => &empty,
            },
            None => &empty,
        };
        proof {
            reveal_strlit("ssh");
        }
        ssh_command(settings, host)
    }

    /// The command line that opens a remote terminal running command `command_id`: the ssh
    /// command line followed by the command's messages.
    pub fn open_remote_terminal_command(&self, host: &Host, command_id: &String, parameters: &Vec<String>) -> (r:
        Option<Vec<String>>)
        ensures
            !has_command(self.commands@, host.name@, command_id@) ==> r is None,
            r matches Some(argv) ==> exists|settings: Seq<(String, String)>, messages: Seq<Seq<char>>|
                configured_ssh(self.hosts_config, host.name@, settings) && strings_view(argv@) == ssh_argv(
                    settings,
                    ssh_address(*host),
                ) + messages,
    {
        let k = match self.find_command(&host.name, command_id) {
            Some(k) => k,
            None => {
                return None;
            },
        };
        let module = &self.commands[k].module;
        let multi = module.get_connector_messages(host, parameters);
        let single = module.get_connector_message(host, parameters);
        match combine_connector_messages(multi, single) {
            Ok(messages) => {
                let mut argv = self.remote_ssh_command(host);
                extend_strings(&mut argv, &messages);
                Some(argv)
            },
            Err(_) => None,
        }
    }

    /// The local command line of the configured terminal program running the remote terminal
    /// command: the terminal, its arguments, then the remote terminal command line.
    pub fn external_terminal_command(&self, host: &Host, command_id: &String, parameters: &Vec<String>) -> (r:
        Option<Vec<String>>)
        ensures
            !has_command(self.commands@, host.name@, command_id@) ==> r is None,
            r matches Some(argv) ==> exists|settings: Seq<(String, String)>, messages: Seq<Seq<char>>|
                configured_ssh(self.hosts_config, host.name@, settings) && strings_view(argv@) == seq![
                    self.preferences.terminal@,
                ] + strings_view(self.preferences.terminal_args@) + ssh_argv(settings, ssh_address(*host))
                    + messages,
    {
        match self.open_remote_terminal_command(host, command_id, parameters) {
            Some(remote) => {
                let mut argv = Vec::new();
                argv.push(self.preferences.terminal.clone());
                assert(strings_view(argv@) =~= seq![self.preferences.terminal@]);
                extend_strings(&mut argv, &self.preferences.terminal_args);
                extend_strings(&mut argv, &remote);
                proof {
                    let (settings, messages) = choose|settings: Seq<(String, String)>, messages: Seq<Seq<char>>|
                        configured_ssh(self.hosts_config, host.name@, settings) && strings_view(remote@)
                            == ssh_argv(settings, ssh_address(*host)) + messages;
                    assert(strings_view(argv@) =~= seq![self.preferences.terminal@] + strings_view(
                        self.preferences.terminal_args@,
                    ) + ssh_argv(settings, ssh_address(*host)) + messages);
                }
                Some(argv)
            },
            None => None,
        }
    }

    /// The command line that edits `remote_file_path` in the configured remote editor over ssh,
    /// under sudo when so configured.
    pub fn open_remote_text_editor_command(&self, host: &Host, remote_file_path: &String) -> (r: Vec<String>)
        ensures
            exists|settings: Seq<(String, String)>|
                configured_ssh(self.hosts_config, host.name@, settings) && strings_view(r@) == ssh_argv(
                    settings,
                    ssh_address(*host),
                ) + (if self.preferences.sudo_remote_editor {
                    seq!["sudo"@]
                } else {
                    Seq::empty()
                }) + seq![self.preferences.remote_text_editor@, remote_file_path@],
    {
        proof {
            reveal_strlit("sudo");
        }
        let mut argv = self.remote_ssh_command(host);
        let ghost base = strings_view(argv@);
        if self.preferences.sudo_remote_editor {
            argv.push(String::from_str("sudo"));
        }
        let ghost with_sudo = strings_view(argv@);
        assert(with_sudo =~= base + (if self.preferences.sudo_remote_editor {
            seq!["sudo"@]
        } else {
            Seq::<Seq<char>>::empty()
        }));
        argv.push(self.preferences.remote_text_editor.clone());
        argv.push(remote_file_path.clone());
        assert(strings_view(argv@) =~= with_sudo + seq![self.preferences.remote_text_editor@, remote_file_path@]);
        argv
    }
}

} // verus!
