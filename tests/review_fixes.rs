use lightkeeper::command_handler::{CommandHandler, CommandSlot, Dispatch};
use lightkeeper::connection_manager::{connect_address, ConnectorRequest, TransferRun};
use lightkeeper::data::{
    CommandAction, CommandResult, Criticality, DataPoint, DisplayOptions, Host, ModuleSpecification, ResponseMessage,
    UIAction,
};
use lightkeeper::error::LkError;
use lightkeeper::host_manager::{read_platform_info, HostManager, StateChange, StateUpdateMessage};
use lightkeeper::modules::CommandModule;

#[derive(Clone)]
struct Echo;

impl CommandModule for Echo {
    fn get_module_spec(&self) -> ModuleSpecification {
        ModuleSpecification::new("echo", "0.0.1")
    }
    fn get_connector_spec(&self) -> Option<ModuleSpecification> {
        Some(ModuleSpecification::new("ssh", "0.0.1"))
    }
    fn get_display_options(&self) -> DisplayOptions {
        DisplayOptions::new("host".to_string(), "Echo".to_string())
    }
    fn get_connector_messages(&self, _h: &Host, _p: &Vec<String>) -> Result<Vec<String>, LkError> {
        Err(LkError::other(""))
    }
    fn get_connector_message(&self, _h: &Host, _p: &Vec<String>) -> Result<String, LkError> {
        Ok("echo".to_string())
    }
    fn process_response(&self, _h: &Host, r: &ResponseMessage) -> Result<CommandResult, LkError> {
        Ok(CommandResult::new(r.message.clone()))
    }
    fn process_responses(&self, _h: &Host, _r: &Vec<ResponseMessage>) -> Result<CommandResult, LkError> {
        Err(LkError::other(""))
    }
}

fn host() -> Host {
    Host::new("h1".to_string(), "10.0.0.9".to_string(), String::new(), Vec::new())
}

fn invocation() -> lightkeeper::command_handler::CommandInvocation<Echo> {
    let slot = CommandSlot {
        host_name: "h1".to_string(),
        spec: ModuleSpecification::new("echo", "0.0.1"),
        connector_spec: Some(ModuleSpecification::new("ssh", "0.0.1")),
        display_options: DisplayOptions::new("host".to_string(), "Echo".to_string()),
        module: Echo,
    };
    match CommandHandler::build_dispatch(&slot, &host(), Err(LkError::other("")), Ok("echo".to_string()), lightkeeper::connection_manager::RequestType::Command, 3) {
        Dispatch::Sent(_, inv) => inv,
        Dispatch::Rejected(_) => panic!("expected a request"),
    }
}

#[test]
fn connector_errors_reach_the_update() {
    let update = invocation().complete(vec![Ok(ResponseMessage::new("fine".to_string())), Err("timeout".to_string())]);
    assert_eq!(update.command_result.unwrap().message, "fine");
    let errors = update.errors.unwrap();
    assert_eq!(errors.len(), 1);
    assert_eq!(errors[0].message, "timeout");
    assert_eq!(errors[0].criticality, Criticality::Error);
    let only_errors = invocation().complete(vec![Err("refused".to_string())]);
    assert_eq!(only_errors.errors.unwrap()[0].message, "refused");
}

#[test]
fn display_data_holds_every_host() {
    let mut manager = HostManager::new();
    manager.add_host(Host::new("a".to_string(), "10.0.0.1".to_string(), String::new(), Vec::new())).unwrap();
    manager.add_host(Host::new("b".to_string(), "10.0.0.2".to_string(), String::new(), Vec::new())).unwrap();
    let data = manager.get_display_data();
    let names: Vec<String> = data.hosts.iter().map(|h| h.host.name.clone()).collect();
    assert_eq!(names, vec!["a", "b"]);
}

#[test]
fn stored_command_result_is_handed_to_observers() {
    let mut manager = HostManager::new();
    manager.add_host(host()).unwrap();
    manager.process_update(StateUpdateMessage {
        host_name: "h1".to_string(),
        display_options: DisplayOptions::new("host".to_string(), "Echo".to_string()),
        module_spec: ModuleSpecification::new("echo", "0.0.1"),
        data_point: None,
        command_result: Some(CommandResult::new("done".to_string())),
        errors: None,
        exit_thread: false,
    });
    let state = manager.get_host_state(&"h1".to_string()).unwrap();
    assert_eq!(state.stored_result(&"echo".to_string(), StateChange::CommandResultStored).unwrap().message, "done");
}

#[test]
fn unknown_os_or_flavor_is_rejected() {
    let mut point = DataPoint::new("_platform_info".to_string());
    point.multivalue = vec![DataPoint::labeled("os".to_string(), "beos".to_string())];
    assert!(read_platform_info(&point).is_err());
    point.multivalue = vec![DataPoint::labeled("os_flavor".to_string(), "gentoo-ish".to_string())];
    assert!(read_platform_info(&point).is_err());
    point.multivalue = vec![
        DataPoint::labeled("os".to_string(), "linux".to_string()),
        DataPoint::labeled("os_flavor".to_string(), "nixos".to_string()),
    ];
    assert!(read_platform_info(&point).is_ok());
}

#[test]
fn command_action_follows_ui_action() {
    assert_eq!(CommandAction::of(UIAction::Dialog), CommandAction::Dialog);
    assert_eq!(CommandAction::of(UIAction::TextEditor), CommandAction::NoAction);
}

#[test]
fn transfer_run_answers_messages_in_order() {
    let mut run = TransferRun::new();
    assert_eq!(run.next_index(2), Some(0));
    run.record(Err("missing".to_string()));
    assert_eq!(run.next_index(2), Some(1));
    run.record(Ok(ResponseMessage::new("/tmp/b".to_string())));
    assert_eq!(run.next_index(2), None);
    assert!(run.responses[0].is_err());
}

#[test]
fn connection_goes_to_the_host_address() {
    let mut request = ConnectorRequest::exit_token();
    request.host = host();
    assert_eq!(connect_address(&request), "10.0.0.9");
}
