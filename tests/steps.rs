use lightkeeper::command_handler::{CommandHandler, CommandSlot, Dispatch};
use lightkeeper::compose_monitor::{Compose, ContainerDetails};
use lightkeeper::connection_manager::{
    connect_outcome, download_response, removes_local_copy, upload_response, CommandRun, FileMetadata, RequestType,
};
use lightkeeper::data::{CommandResult, Criticality, DataPoint, DisplayOptions, Host, ModuleSpecification, ResponseMessage};
use lightkeeper::error::LkError;
use lightkeeper::host_manager::{HostManager, StateChange, StateUpdateMessage};
use lightkeeper::modules::{falls_back, process_form, CommandModule, ProcessForm};
use lightkeeper::monitor_manager::{monitor_request, stage_input, StageInput};

fn response(code: i32) -> Result<ResponseMessage, String> {
    let mut m = ResponseMessage::new("out".to_string());
    m.return_code = code;
    Ok(m)
}

#[test]
fn command_run_hands_out_messages_until_a_stop() {
    let mut run = CommandRun::new();
    assert_eq!(run.next_index(3), Some(0));
    run.record(response(0));
    assert_eq!(run.next_index(3), Some(1));
    run.record(response(1));
    assert!(run.stopped);
    assert_eq!(run.next_index(3), None);
    assert_eq!(run.responses.len(), 2);
    let mut failing = CommandRun::new();
    failing.record(Err("broken pipe".to_string()));
    assert_eq!(failing.next_index(3), None);
}

#[test]
fn transfer_outcomes() {
    assert!(connect_outcome(Ok(())).is_none());
    let rs = connect_outcome(Err("refused".to_string())).unwrap();
    assert_eq!(rs.len(), 1);
    assert_eq!(rs[0].as_ref().err().unwrap(), "refused");
    assert_eq!(download_response(Ok("/tmp/x".to_string())).unwrap().message, "/tmp/x");
    assert!(download_response(Err("no".to_string())).is_err());
    let temporary = FileMetadata { remote_path: "/etc/x".to_string(), temporary: true };
    let kept = FileMetadata { remote_path: "/etc/x".to_string(), temporary: false };
    assert!(removes_local_copy(&Ok(()), &temporary));
    assert!(!removes_local_copy(&Ok(()), &kept));
    assert!(!removes_local_copy(&Err("x".to_string()), &temporary));
    assert!(upload_response(Ok(()), None).unwrap().message.is_empty());
    assert_eq!(upload_response(Ok(()), Some(Err("busy".to_string()))).err().unwrap(), "busy");
    assert_eq!(upload_response(Err("denied".to_string()), None).err().unwrap(), "denied");
}

#[test]
fn processing_forms_and_fallback() {
    assert_eq!(process_form(0), ProcessForm::NoResponse);
    assert_eq!(process_form(1), ProcessForm::Single);
    assert_eq!(process_form(4), ProcessForm::Multiple);
    let not_implemented: Result<DataPoint, LkError> = Err(LkError::other(""));
    let failed: Result<DataPoint, LkError> = Err(LkError::other("bad output"));
    assert!(falls_back(&not_implemented));
    assert!(!falls_back(&failed));
    assert!(!falls_back(&Ok::<DataPoint, LkError>(DataPoint::empty())));
    assert!(matches!(stage_input(failed), StageInput::ModuleFailed(_)));
}

#[derive(Clone)]
struct Echo;

impl CommandModule for Echo {
    fn get_module_spec(&self) -> ModuleSpecification {
        ModuleSpecification::new("echo", "0.0.1")
    }
    fn get_connector_spec(&self) -> Option<ModuleSpecification> {
        Some(ModuleSpecification::new("ssh", "0.0.1"))
    }
    fn get_display_options(&self) -> DisplayOptions {
        DisplayOptions::new("host".to_string(), "Echo".to_string())
    }
    fn get_connector_messages(&self, _h: &Host, _p: &Vec<String>) -> Result<Vec<String>, LkError> {
        Err(LkError::other(""))
    }
    fn get_connector_message(&self, _h: &Host, _p: &Vec<String>) -> Result<String, LkError> {
        Ok("echo".to_string())
    }
    fn process_response(&self, _h: &Host, r: &ResponseMessage) -> Result<CommandResult, LkError> {
        Ok(CommandResult::new(r.message.clone()))
    }
    fn process_responses(&self, _h: &Host, _r: &Vec<ResponseMessage>) -> Result<CommandResult, LkError> {
        Err(LkError::other(""))
    }
}

fn slot() -> CommandSlot<Echo> {
    CommandSlot {
        host_name: "h1".to_string(),
        spec: ModuleSpecification::new("echo", "0.0.1"),
        connector_spec: Some(ModuleSpecification::new("ssh", "0.0.1")),
        display_options: DisplayOptions::new("host".to_string(), "Echo".to_string()),
        module: Echo,
    }
}

#[test]
fn dispatch_is_built_from_the_message_forms() {
    let host = Host::new("h1".to_string(), "10.0.0.1".to_string(), String::new(), Vec::new());
    let sent = CommandHandler::build_dispatch(
        &slot(),
        &host,
        Ok(vec!["a".to_string(), String::new()]),
        Ok("b".to_string()),
        RequestType::Command,
        7,
    );
    match sent {
        Dispatch::Sent(request, inv) => {
            assert_eq!(request.messages, vec!["a", "b"]);
            assert_eq!(request.connector_spec.unwrap().id, "ssh");
            assert_eq!(request.host.name, "h1");
            assert_eq!(inv.invocation_id, 7);
        },
        Dispatch::Rejected(_) => panic!("expected a request"),
    }
    let rejected = CommandHandler::build_dispatch(&slot(), &host, Err(LkError::other("")), Err(LkError::other("no such unit")), RequestType::Command, 7);
    match rejected {
        Dispatch::Rejected(update) => {
            let result = update.command_result.unwrap();
            assert_eq!(result.message, "no such unit");
            assert_eq!(result.invocation_id, 0);
        },
        Dispatch::Sent(..) => panic!("expected a rejection"),
    }
}

#[test]
fn editor_launch_failure_is_reported() {
    let host = Host::new("h1".to_string(), "10.0.0.1".to_string(), String::new(), Vec::new());
    let inv = match CommandHandler::build_dispatch(&slot(), &host, Err(LkError::other("")), Ok("x".to_string()), RequestType::Download, 0) {
        Dispatch::Sent(_, inv) => inv,
        Dispatch::Rejected(_) => panic!("expected a request"),
    };
    let result = inv.launch_failed("no such program").command_result.unwrap();
    assert_eq!(result.criticality, Criticality::Critical);
    assert_eq!(result.message, "Couldn't start text editor: no such program");
}

#[test]
fn monitor_request_carries_combined_messages() {
    let host = Host::new("h1".to_string(), "10.0.0.1".to_string(), String::new(), Vec::new());
    let spec = ModuleSpecification::new("uptime", "0.0.1");
    let request = monitor_request(spec.duplicate(), Some(ModuleSpecification::new("ssh", "0.0.1")), &host, Ok(vec!["a".to_string()]), Ok("b".to_string())).ok().unwrap();
    assert_eq!(request.messages, vec!["a", "b"]);
    let independent = monitor_request(spec.duplicate(), None, &host, Ok(Vec::new()), Ok(String::new())).ok().unwrap();
    assert!(independent.messages.is_empty());
    assert!(monitor_request(spec, Some(ModuleSpecification::new("ssh", "0.0.1")), &host, Ok(Vec::new()), Err(LkError::unsupported_platform())).is_err());
}

#[test]
fn observer_delta_holds_only_what_changed() {
    let mut manager = HostManager::new();
    manager.add_host(Host::new("h1".to_string(), "10.0.0.1".to_string(), String::new(), Vec::new())).unwrap();
    for value in ["1", "2"] {
        manager.process_update(StateUpdateMessage {
            host_name: "h1".to_string(),
            display_options: DisplayOptions::new("host".to_string(), "Load".to_string()),
            module_spec: ModuleSpecification::new("load", "0.0.1"),
            data_point: Some(DataPoint::new(value.to_string())),
            command_result: None,
            errors: None,
            exit_thread: false,
        });
    }
    let state = manager.get_host_state(&"h1".to_string()).unwrap();
    let id = "load".to_string();
    assert_eq!(state.added_point(&id, StateChange::DataPointAdded).unwrap().value, "2");
    assert!(state.added_point(&id, StateChange::CommandResultStored).is_none());
    assert!(state.stored_result(&id, StateChange::CommandResultStored).is_none());
}

#[test]
fn compose_succeeds_with_one_compose_file() {
    let labels = |service: &str| {
        vec![
            ("com.docker.compose.config-hash".to_string(), "h".to_string()),
            ("com.docker.compose.project".to_string(), "web".to_string()),
            ("com.docker.compose.service".to_string(), service.to_string()),
            ("com.docker.compose.project.working_dir".to_string(), "/srv/web".to_string()),
        ]
    };
    let containers = vec![
        ContainerDetails { id: "a".to_string(), image: "i".to_string(), status: "up".to_string(), criticality: Criticality::Normal, labels: labels("x") },
        ContainerDetails { id: "b".to_string(), image: "i".to_string(), status: "up".to_string(), criticality: Criticality::Normal, labels: labels("y") },
    ];
    let point = Compose::new(&Vec::new()).projects_point(&containers).ok().unwrap();
    assert_eq!(point.multivalue.len(), 1);
    assert_eq!(point.multivalue[0].multivalue.len(), 2);
}

#[derive(Clone)]
struct Probe(String);

impl lightkeeper::modules::MonitoringModule for Probe {
    fn get_module_spec(&self) -> ModuleSpecification {
        ModuleSpecification::new(&self.0, "0.0.1")
    }
    fn get_parent_module(&self) -> Option<ModuleSpecification> {
        None
    }
    fn get_connector_spec(&self) -> Option<ModuleSpecification> {
        Some(ModuleSpecification::new("ssh", "0.0.1"))
    }
    fn get_display_options(&self) -> DisplayOptions {
        DisplayOptions::new("host".to_string(), self.0.clone())
    }
    fn get_connector_messages(&self, _h: &Host, _p: &DataPoint) -> Result<Vec<String>, LkError> {
        Err(LkError::other(""))
    }
    fn get_connector_message(&self, _h: &Host, _p: &DataPoint) -> Result<String, LkError> {
        Ok("probe".to_string())
    }
    fn process_response(&self, _h: &Host, r: &ResponseMessage, _p: &DataPoint) -> Result<DataPoint, LkError> {
        Ok(DataPoint::new(r.message.clone()))
    }
    fn process_responses(&self, _h: &Host, _r: &Vec<ResponseMessage>, _p: &DataPoint) -> Result<DataPoint, LkError> {
        Err(LkError::other(""))
    }
}

#[test]
fn ids_run_on_across_hosts() {
    let mut manager = lightkeeper::monitor_manager::MonitorManager::new();
    let hosts: Vec<Host> = ["h1", "h2"].iter().map(|n| Host::new(n.to_string(), "10.0.0.1".to_string(), String::new(), Vec::new())).collect();
    for host in hosts.iter() {
        manager.add_monitor(host, Probe("uptime".to_string())).unwrap();
        manager.add_monitor(host, Probe("load".to_string())).unwrap();
    }
    let ids: Vec<u64> = manager.refresh_all_hosts(&hosts).iter().map(|i| i.invocation_id).collect();
    assert_eq!(ids, vec![1, 2, 3, 4]);
    assert_eq!(manager.invocation_id_counter, 4);
}

#[test]
fn platform_info_refresh_covers_ssh_hosts() {
    let mut manager = lightkeeper::monitor_manager::MonitorManager::new();
    let hosts: Vec<Host> = ["h1", "h2", "h3"].iter().map(|n| Host::new(n.to_string(), "10.0.0.1".to_string(), String::new(), Vec::new())).collect();
    manager.add_monitor(&hosts[0], Probe("uptime".to_string())).unwrap();
    manager.add_monitor(&hosts[2], Probe("uptime".to_string())).unwrap();
    let ids: Vec<u64> = manager.refresh_platform_info_all(&hosts, &Probe("platform".to_string())).iter().map(|i| i.invocation_id).collect();
    assert_eq!(ids, vec![1, 2]);
}
