use lightkeeper::command_handler::{ssh_command, CommandHandler, Dispatch, EditorStep};
use lightkeeper::configuration::{ConnectorConfig, HostSettings, Hosts, Preferences};
use lightkeeper::connection_manager::{CachePolicy, RequestType};
use lightkeeper::data::{
    CommandResult, Criticality, DataPoint, DisplayOptions, Host, ModuleSpecification, ResponseMessage, UIAction,
};
use lightkeeper::error::LkError;
use lightkeeper::modules::{combine_connector_messages, partition_results, CommandModule, MonitoringModule};
use lightkeeper::monitor_manager::{MonitorManager, StageAction, StageInput};

#[derive(Clone)]
struct FakeMonitor {
    id: String,
    parent: Option<String>,
    connector: bool,
    category: String,
    suffix: String,
}

fn monitor(id: &str, parent: Option<&str>) -> FakeMonitor {
    FakeMonitor {
        id: id.to_string(),
        parent: parent.map(|p| p.to_string()),
        connector: true,
        category: "host".to_string(),
        suffix: String::new(),
    }
}

impl MonitoringModule for FakeMonitor {
    fn get_module_spec(&self) -> ModuleSpecification {
        ModuleSpecification::new(&self.id, "0.0.1")
    }

    fn get_parent_module(&self) -> Option<ModuleSpecification> {
        self.parent.as_ref().map(|p| ModuleSpecification::new(p, "0.0.1"))
    }

    fn get_connector_spec(&self) -> Option<ModuleSpecification> {
        if self.connector {
            Some(ModuleSpecification::new("ssh", "0.0.1"))
        } else {
            None
        }
    }

    fn get_display_options(&self) -> DisplayOptions {
        DisplayOptions::new(self.category.clone(), self.id.clone())
    }

    fn get_connector_messages(&self, _host: &Host, _parent: &DataPoint) -> Result<Vec<String>, LkError> {
        Err(LkError::other(""))
    }

    fn get_connector_message(&self, _host: &Host, _parent: &DataPoint) -> Result<String, LkError> {
        if self.id == "unsupported" {
            Err(LkError::unsupported_platform())
        } else {
            Ok(format!("run {}", self.id))
        }
    }

    fn process_response(&self, _host: &Host, response: &ResponseMessage, parent: &DataPoint) -> Result<DataPoint, LkError> {
        if self.parent.is_some() {
            let mut point = DataPoint::labeled(parent.label.clone(), format!("{}{}", parent.value, self.suffix));
            point.criticality = parent.criticality;
            Ok(point)
        } else if response.message == "bad" {
            Err(LkError::other("cannot parse"))
        } else {
            Ok(DataPoint::labeled("x".to_string(), response.message.clone()))
        }
    }

    fn process_responses(&self, _host: &Host, _responses: &Vec<ResponseMessage>, _parent: &DataPoint) -> Result<DataPoint, LkError> {
        Err(LkError::other(""))
    }
}

fn host(name: &str) -> Host {
    Host::new(name.to_string(), "10.0.0.3".to_string(), String::new(), Vec::new())
}

fn ok(message: &str) -> Result<ResponseMessage, String> {
    Ok(ResponseMessage::new(message.to_string()))
}

#[test]
fn extension_transforms_base_point_on_same_invocation() {
    let mut manager = MonitorManager::new();
    let h = host("h1");
    manager.add_monitor(&h, monitor("b", None)).unwrap();
    let mut extension = monitor("e", Some("b"));
    extension.suffix = "-ext".to_string();
    manager.add_monitor(&h, extension).unwrap();
    let mut invocations = manager.refresh_host_monitors(&h);
    assert_eq!(invocations.len(), 1);
    let base = invocations.remove(0);
    assert_eq!(base.modules.len(), 2);
    let id = base.invocation_id;
    let request = base.connector_request().ok().unwrap();
    assert_eq!(request.messages, vec!["run b"]);
    let input = base.run_stage(vec![ok("1")]);
    let next = match base.complete_stage(input) {
        StageAction::Continue(next) => next,
        StageAction::Publish(_) => panic!("extension skipped"),
    };
    assert_eq!(next.parent_result.value, "1");
    assert_eq!(next.parent_result.invocation_id, id);
    let input = next.run_stage(vec![ok("")]);
    match next.complete_stage(input) {
        StageAction::Publish(update) => {
            let point = update.data_point.unwrap();
            assert_eq!(point.value, "1-ext");
            assert_eq!(point.label, "x");
            assert_eq!(point.invocation_id, id);
            assert_eq!(update.module_spec.id, "b");
        },
        StageAction::Continue(_) => panic!("expected publication"),
    }
}

#[test]
fn base_failure_skips_extension_and_publishes_failure() {
    let mut manager = MonitorManager::new();
    let h = host("h1");
    manager.add_monitor(&h, monitor("b", None)).unwrap();
    manager.add_monitor(&h, monitor("e", Some("b"))).unwrap();
    let base = manager.refresh_host_monitors(&h).remove(0);
    let input = base.run_stage(vec![Err("connection lost".to_string())]);
    assert!(matches!(input, StageInput::ConnectorFailed(_)));
    match base.complete_stage(input) {
        StageAction::Publish(update) => {
            let point = update.data_point.unwrap();
            assert_eq!(point.criticality, Criticality::Critical);
            assert_eq!(point.invocation_id, 1);
        },
        StageAction::Continue(_) => panic!("extension must not run"),
    }
}

#[test]
fn module_error_publishes_starting_point() {
    let mut manager = MonitorManager::new();
    let h = host("h1");
    manager.add_monitor(&h, monitor("b", None)).unwrap();
    let base = manager.refresh_monitors_by_id(&h, &"b".to_string()).remove(0);
    let input = base.run_stage(vec![ok("bad")]);
    assert!(matches!(input, StageInput::ModuleFailed(_)));
    match base.complete_stage(input) {
        StageAction::Publish(update) => assert_eq!(update.data_point.unwrap().criticality, Criticality::Critical),
        StageAction::Continue(_) => panic!("expected publication"),
    }
}

#[test]
fn unsupported_platform_is_reported_before_any_request() {
    let mut manager = MonitorManager::new();
    let h = host("h1");
    manager.add_monitor(&h, monitor("unsupported", None)).unwrap();
    let inv = manager.refresh_host_monitors(&h).remove(0);
    let error = inv.connector_request().err().unwrap();
    assert_eq!(error.message, "Unsupported platform");
}

#[test]
fn refresh_ids_increase_across_calls() {
    let mut manager = MonitorManager::new();
    let h = host("h1");
    manager.add_monitor(&h, monitor("a", None)).unwrap();
    let mut other = monitor("c", None);
    other.category = "storage".to_string();
    manager.add_monitor(&h, other).unwrap();
    let first: Vec<u64> = manager.refresh_host_monitors(&h).iter().map(|i| i.invocation_id).collect();
    let second: Vec<u64> = manager
        .refresh_monitors_of_category(&h, &"storage".to_string())
        .iter()
        .map(|i| i.invocation_id)
        .collect();
    assert_eq!(first, vec![1, 2]);
    assert_eq!(second, vec![3]);
    assert_eq!(manager.invocation_id_counter, 3);
}

#[test]
fn adding_a_monitor_seeds_no_data_and_bootstraps_independent_ones() {
    let mut manager = MonitorManager::new();
    let h = host("h1");
    let (update, bootstrap) = manager.add_monitor(&h, monitor("a", None)).unwrap();
    assert_eq!(update.data_point.unwrap().criticality, Criticality::NoData);
    assert!(bootstrap.is_none());
    assert!(manager.add_monitor(&h, monitor("a", None)).is_none());
    let mut independent = monitor("static", None);
    independent.connector = false;
    let (_, bootstrap) = manager.add_monitor(&h, independent).unwrap();
    let inv = bootstrap.unwrap();
    assert_eq!(inv.invocation_id, 1);
    let request = inv.connector_request().ok().unwrap();
    assert!(request.connector_spec.is_none());
    assert!(request.messages.is_empty());
    let input = inv.run_stage(Vec::new());
    assert!(matches!(input, StageInput::Produced(_)));
}

#[test]
fn platform_info_refresh_needs_an_ssh_monitor() {
    let mut manager = MonitorManager::new();
    let h = host("h1");
    let mut local = monitor("local", None);
    local.connector = false;
    manager.add_monitor(&h, local).unwrap();
    let counter = manager.invocation_id_counter;
    assert!(manager.refresh_platform_info(&h, monitor("platform", None)).is_none());
    assert_eq!(manager.invocation_id_counter, counter);
    manager.add_monitor(&h, monitor("uptime", None)).unwrap();
    let inv = manager.refresh_platform_info(&h, monitor("platform", None)).unwrap();
    assert_eq!(inv.invocation_id, counter + 1);
}

#[derive(Clone)]
struct FakeCommand {
    id: String,
    action: UIAction,
}

impl CommandModule for FakeCommand {
    fn get_module_spec(&self) -> ModuleSpecification {
        ModuleSpecification::new(&self.id, "0.0.1")
    }

    fn get_connector_spec(&self) -> Option<ModuleSpecification> {
        Some(ModuleSpecification::new("ssh", "0.0.1"))
    }

    fn get_display_options(&self) -> DisplayOptions {
        let mut options = DisplayOptions::new("host".to_string(), self.id.clone());
        options.action = self.action;
        options
    }

    fn get_connector_messages(&self, _host: &Host, parameters: &Vec<String>) -> Result<Vec<String>, LkError> {
        if self.id == "broken" {
            Err(LkError::other("bad parameters"))
        } else {
            Ok(vec![format!("echo {}", parameters.join(" ")), String::new()])
        }
    }

    fn get_connector_message(&self, _host: &Host, _parameters: &Vec<String>) -> Result<String, LkError> {
        Err(LkError::other(""))
    }

    fn process_response(&self, _host: &Host, response: &ResponseMessage) -> Result<CommandResult, LkError> {
        Ok(CommandResult::new(format!("single:{}", response.message)))
    }

    fn process_responses(&self, _host: &Host, _responses: &Vec<ResponseMessage>) -> Result<CommandResult, LkError> {
        Err(LkError::other(""))
    }
}

fn command(id: &str) -> FakeCommand {
    FakeCommand { id: id.to_string(), action: UIAction::Nothing }
}

fn handler_with(commands: Vec<FakeCommand>) -> CommandHandler<FakeCommand> {
    let mut handler = CommandHandler::new();
    let mut ssh = HostSettings {
        groups: Vec::new(),
        address: "10.0.0.3".to_string(),
        fqdn: "h1.example.com".to_string(),
        settings: Vec::new(),
        monitors: Vec::new(),
        commands: Vec::new(),
        connectors: Vec::new(),
    };
    ssh.connectors.push((
        "ssh".to_string(),
        ConnectorConfig { settings: vec![("port".to_string(), "2222".to_string()), ("username".to_string(), "admin".to_string())] },
    ));
    let hosts = Hosts { hosts: vec![("h1".to_string(), ssh)] };
    let mut preferences = Preferences::new();
    preferences.terminal = "xterm".to_string();
    preferences.terminal_args = vec!["-e".to_string()];
    preferences.remote_text_editor = "vim".to_string();
    preferences.sudo_remote_editor = true;
    handler.configure(hosts, preferences, commands.into_iter().map(|c| ("h1".to_string(), c)).collect());
    handler
}

#[test]
fn execute_numbers_invocations_and_rejects_with_zero() {
    let mut handler = handler_with(vec![command("echo"), command("broken")]);
    let h = host("h1");
    let first = handler.execute(&h, &"echo".to_string(), &vec!["a".to_string()]);
    let second = handler.execute(&h, &"echo".to_string(), &vec!["b".to_string()]);
    assert_eq!(first.invocation_id(), 1);
    assert_eq!(second.invocation_id(), 2);
    match &second {
        Dispatch::Sent(request, _) => {
            assert_eq!(request.messages, vec!["echo b"]);
            assert_eq!(request.request_type, RequestType::Command);
            assert_eq!(request.cache_policy, CachePolicy::BypassCache);
        },
        Dispatch::Rejected(_) => panic!("expected a request"),
    }
    let broken = handler.execute(&h, &"broken".to_string(), &Vec::new());
    assert_eq!(broken.invocation_id(), 0);
    match broken {
        Dispatch::Rejected(update) => {
            let result = update.command_result.unwrap();
            assert_eq!(result.criticality, Criticality::Error);
            assert_eq!(result.message, "bad parameters");
        },
        Dispatch::Sent(..) => panic!("expected rejection"),
    }
    assert_eq!(handler.execute(&h, &"missing".to_string(), &Vec::new()).invocation_id(), 0);
    assert_eq!(handler.invocation_id_counter, 2);
}

#[test]
fn command_completion_falls_back_to_single_response() {
    let mut handler = handler_with(vec![command("echo")]);
    let h = host("h1");
    let inv = match handler.execute(&h, &"echo".to_string(), &vec!["a".to_string()]) {
        Dispatch::Sent(_, inv) => inv,
        Dispatch::Rejected(_) => panic!("expected a request"),
    };
    let update = inv.complete(vec![ok("first"), ok("second")]);
    let result = update.command_result.unwrap();
    assert_eq!(result.message, "single:first");
    assert_eq!(result.invocation_id, 1);
    assert_eq!(result.command_id, "echo");
}

#[test]
fn command_without_responses_is_an_error() {
    let mut handler = handler_with(vec![command("echo")]);
    let h = host("h1");
    let inv = match handler.execute(&h, &"echo".to_string(), &Vec::new()) {
        Dispatch::Sent(_, inv) => inv,
        Dispatch::Rejected(_) => panic!("expected a request"),
    };
    let result = inv.complete(vec![Err("timeout".to_string())]).command_result.unwrap();
    assert_eq!(result.criticality, Criticality::Error);
    assert_eq!(result.message, "No responses received for command: echo");
}

#[test]
fn ssh_command_line_uses_connector_settings() {
    let handler = handler_with(vec![command("echo")]);
    let h = Host::new("h1".to_string(), "10.0.0.3".to_string(), "h1.example.com".to_string(), Vec::new());
    assert_eq!(handler.remote_ssh_command(&h), vec!["ssh", "-t", "-p", "2222", "-l", "admin", "h1.example.com"]);
    let bare = Host::new("h9".to_string(), "10.0.0.9".to_string(), String::new(), Vec::new());
    assert_eq!(ssh_command(&Vec::new(), &bare), vec!["ssh", "-t", "-p", "22", "10.0.0.9"]);
}

#[test]
fn remote_editor_and_terminal_command_lines() {
    let handler = handler_with(vec![command("echo")]);
    let h = Host::new("h1".to_string(), "10.0.0.3".to_string(), String::new(), Vec::new());
    assert_eq!(
        handler.open_remote_text_editor_command(&h, &"/etc/x".to_string()),
        vec!["ssh", "-t", "-p", "2222", "-l", "admin", "10.0.0.3", "sudo", "vim", "/etc/x"]
    );
    let terminal = handler.external_terminal_command(&h, &"echo".to_string(), &vec!["hi".to_string()]).unwrap();
    assert_eq!(terminal, vec!["xterm", "-e", "ssh", "-t", "-p", "2222", "-l", "admin", "10.0.0.3", "echo hi"]);
    assert!(handler.open_remote_terminal_command(&h, &"nope".to_string(), &Vec::new()).is_none());
}

#[test]
fn download_result_carries_contents_for_text_editor() {
    let mut editor = command("edit");
    editor.action = UIAction::TextEditor;
    let mut handler = handler_with(vec![editor, command("fetch")]);
    let h = host("h1");
    let (request, inv) = match handler.download_file(&h, &"edit".to_string(), &"/etc/x".to_string()) {
        Dispatch::Sent(request, inv) => (request, inv),
        Dispatch::Rejected(_) => panic!("expected a request"),
    };
    assert_eq!(request.request_type, RequestType::Download);
    assert!(inv.loads_contents());
    let result = inv.complete_download(vec![ok("/cache/h1/etc/x")], Some("text".to_string())).command_result.unwrap();
    assert!(result.hidden);
    assert_eq!(result.message, "text");
    let inv = match handler.download_file(&h, &"fetch".to_string(), &"/etc/y".to_string()) {
        Dispatch::Sent(_, inv) => inv,
        Dispatch::Rejected(_) => panic!("expected a request"),
    };
    let result = inv.complete_download(vec![ok("/cache/h1/etc/y")], None).command_result.unwrap();
    assert_eq!(result.message, "/cache/h1/etc/y");
    assert_eq!(result.invocation_id, 2);
}

#[test]
fn upload_completion_reports_success_and_failure() {
    let mut handler = handler_with(vec![command("edit")]);
    let h = host("h1");
    let (request, inv) = match handler.save_and_upload_file(&h, &"edit".to_string(), &"/cache/h1/etc/x".to_string()) {
        Dispatch::Sent(request, inv) => (request, inv),
        Dispatch::Rejected(_) => panic!("expected a request"),
    };
    assert_eq!(request.messages, vec!["/cache/h1/etc/x"]);
    assert_eq!(request.request_type, RequestType::Upload);
    let result = inv.complete_upload(vec![ok("")]).command_result.unwrap();
    assert_eq!(result.criticality, Criticality::Info);
    let inv = match handler.save_and_upload_file(&h, &"edit".to_string(), &"/cache/h1/etc/x".to_string()) {
        Dispatch::Sent(_, inv) => inv,
        Dispatch::Rejected(_) => panic!("expected a request"),
    };
    let result = inv.complete_upload(vec![Err("denied".to_string())]).command_result.unwrap();
    assert_eq!(result.criticality, Criticality::Critical);
    assert_eq!(result.message, "Error uploading file: denied");
}

#[test]
fn external_editor_flow_uploads_after_successful_download_only() {
    let mut handler = handler_with(vec![command("edit")]);
    let h = host("h1");
    let counter = handler.invocation_id_counter;
    let (request, inv) = match handler.open_external_text_editor(&h, &"edit".to_string(), &"/etc/x".to_string()) {
        Dispatch::Sent(request, inv) => (request, inv),
        Dispatch::Rejected(_) => panic!("expected a request"),
    };
    assert_eq!(handler.invocation_id_counter, counter);
    assert_eq!(request.request_type, RequestType::Download);
    assert_eq!(request.messages, vec!["echo /etc/x"]);
    let spec = request.connector_spec.clone();
    match inv.after_editor_download(vec![ok("/cache/h1/etc/x")], spec.clone()) {
        EditorStep::Launch { local_path, upload, .. } => {
            assert_eq!(local_path, "/cache/h1/etc/x");
            assert_eq!(upload.request_type, RequestType::Upload);
            assert_eq!(upload.messages, vec!["/cache/h1/etc/x"]);
        },
        EditorStep::Failed(_) => panic!("expected an editor launch"),
    }
    let inv = match handler.open_external_text_editor(&h, &"edit".to_string(), &"/etc/x".to_string()) {
        Dispatch::Sent(_, inv) => inv,
        Dispatch::Rejected(_) => panic!("expected a request"),
    };
    match inv.after_editor_download(vec![Err("no such file".to_string())], spec) {
        EditorStep::Failed(update) => assert_eq!(update.command_result.unwrap().criticality, Criticality::Critical),
        EditorStep::Launch { .. } => panic!("no editor after a failed download"),
    }
}

#[test]
fn commands_for_host_lists_each_command() {
    let handler = handler_with(vec![command("echo"), command("edit"), command("echo")]);
    let ids: Vec<String> = handler.get_commands_for_host(&"h1".to_string()).into_iter().map(|c| c.command_id).collect();
    assert_eq!(ids, vec!["echo", "edit"]);
    assert!(handler.get_commands_for_host(&"h2".to_string()).is_empty());
    assert_eq!(handler.get_command_for_host(&"h1".to_string(), &"edit".to_string()).unwrap().command_id, "edit");
    assert!(handler.get_command_for_host(&"h1".to_string(), &"x".to_string()).is_none());
}

#[test]
fn message_forms_are_joined_and_empties_dropped() {
    let joined = combine_connector_messages(Ok(vec!["a".to_string(), String::new()]), Ok("b".to_string())).ok().unwrap();
    assert_eq!(joined, vec!["a", "b"]);
    let only_single = combine_connector_messages(Err(LkError::other("")), Ok("b".to_string())).ok().unwrap();
    assert_eq!(only_single, vec!["b"]);
    let failed = combine_connector_messages(Ok(vec!["a".to_string()]), Err(LkError::other("nope"))).err().unwrap();
    assert_eq!(failed.message, "nope");
}

#[test]
fn results_are_partitioned_in_order() {
    let (responses, errors) = partition_results(vec![ok("a"), Err("x".to_string()), ok("b"), Err("y".to_string())]);
    let messages: Vec<String> = responses.into_iter().map(|r| r.message).collect();
    assert_eq!(messages, vec!["a", "b"]);
    assert_eq!(errors, vec!["x", "y"]);
}
