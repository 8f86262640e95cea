use lightkeeper::data::{CommandResult, Criticality, DataPoint, DisplayOptions, Host, ModuleSpecification};
use lightkeeper::host_manager::{
    read_platform_info, HostManager, HostStatus, StateChange, StateUpdateMessage, UpdateOutcome,
    DATA_POINT_BUFFER_SIZE,
};

fn host(name: &str) -> Host {
    Host::new(name.to_string(), "10.0.0.1".to_string(), String::new(), Vec::new())
}

fn critical_options() -> DisplayOptions {
    let mut options = DisplayOptions::new("host".to_string(), "Disk".to_string());
    options.is_critical = true;
    options
}

fn point_message(host_name: &str, monitor: &str, point: DataPoint, options: DisplayOptions) -> StateUpdateMessage {
    StateUpdateMessage {
        host_name: host_name.to_string(),
        display_options: options,
        module_spec: ModuleSpecification::new(monitor, "0.0.1"),
        data_point: Some(point),
        command_result: None,
        errors: None,
        exit_thread: false,
    }
}

fn status_of(manager: &HostManager, name: &str) -> HostStatus {
    manager.get_host_state(&name.to_string()).unwrap().status
}

#[test]
fn critical_monitor_takes_host_down_and_up_again() {
    let mut manager = HostManager::new();
    manager.add_host(host("h1")).unwrap();
    let mut statuses = vec![status_of(&manager, "h1")];
    for level in [Criticality::Normal, Criticality::Critical, Criticality::Normal] {
        let point = DataPoint::new_with_level("50".to_string(), level);
        let outcome = manager.process_update(point_message("h1", "disk", point, critical_options()));
        assert_eq!(outcome, UpdateOutcome::Applied(StateChange::DataPointAdded));
        statuses.push(status_of(&manager, "h1"));
    }
    assert_eq!(statuses, vec![HostStatus::Pending, HostStatus::Up, HostStatus::Down, HostStatus::Up]);
}

#[test]
fn no_data_placeholder_keeps_host_pending() {
    let mut manager = HostManager::new();
    manager.add_host(host("h1")).unwrap();
    manager.process_update(point_message("h1", "disk", DataPoint::no_data(), critical_options()));
    assert_eq!(status_of(&manager, "h1"), HostStatus::Pending);
}

#[test]
fn critical_point_of_non_critical_monitor_keeps_host_up() {
    let mut manager = HostManager::new();
    manager.add_host(host("h1")).unwrap();
    let options = DisplayOptions::new("host".to_string(), "Load".to_string());
    let point = DataPoint::new_with_level("9".to_string(), Criticality::Critical);
    manager.process_update(point_message("h1", "load", point, options));
    assert_eq!(status_of(&manager, "h1"), HostStatus::Up);
}

#[test]
fn ring_buffer_keeps_four_newest_points() {
    let mut manager = HostManager::new();
    manager.add_host(host("h1")).unwrap();
    for i in 0..6 {
        let point = DataPoint::new(format!("v{}", i));
        manager.process_update(point_message("h1", "uptime", point, critical_options()));
    }
    let state = manager.get_host_state(&"h1".to_string()).unwrap();
    assert_eq!(state.monitor_data.len(), 1);
    let values: Vec<String> = state.monitor_data[0].values.iter().map(|p| p.value.clone()).collect();
    assert_eq!(DATA_POINT_BUFFER_SIZE, 4);
    assert_eq!(values, vec!["v2", "v3", "v4", "v5"]);
}

#[test]
fn platform_info_point_updates_only_platform() {
    let mut manager = HostManager::new();
    manager.add_host(host("h1")).unwrap();
    let mut point = DataPoint::new("_platform_info".to_string());
    point.multivalue = vec![
        DataPoint::labeled("os".to_string(), "linux".to_string()),
        DataPoint::labeled("os_version".to_string(), "12".to_string()),
        DataPoint::labeled("os_flavor".to_string(), "debian".to_string()),
        DataPoint::labeled("architecture".to_string(), "x86_64".to_string()),
    ];
    let outcome = manager.process_update(point_message("h1", "_internal", point, critical_options()));
    assert_eq!(outcome, UpdateOutcome::Applied(StateChange::PlatformUpdated));
    let state = manager.get_host_state(&"h1".to_string()).unwrap();
    assert!(state.monitor_data.is_empty());
    assert_eq!(state.host.platform.os, "linux");
    assert_eq!(state.host.platform.os_version, "12");
    assert_eq!(state.host.platform.os_flavor, "debian");
    assert_eq!(state.host.platform.architecture, "x86_64");
    assert!(state.host.platform.is_set());
}

#[test]
fn invalid_platform_info_is_rejected() {
    let mut point = DataPoint::new("_platform_info".to_string());
    point.multivalue = vec![DataPoint::labeled("kernel".to_string(), "6.1".to_string())];
    assert!(read_platform_info(&point).is_err());
    let mut manager = HostManager::new();
    manager.add_host(host("h1")).unwrap();
    let outcome = manager.process_update(point_message("h1", "_internal", point, critical_options()));
    assert_eq!(outcome, UpdateOutcome::Applied(StateChange::PlatformRejected));
    assert!(!manager.get_host(&"h1".to_string()).unwrap().platform.is_set());
}

#[test]
fn duplicate_host_is_rejected() {
    let mut manager = HostManager::new();
    assert!(manager.add_host(host("h1")).is_ok());
    assert!(manager.add_host(host("h1")).is_err());
    assert_eq!(manager.hosts.len(), 1);
    assert_eq!(status_of(&manager, "h1"), HostStatus::Pending);
}

#[test]
fn update_for_unknown_host_is_dropped() {
    let mut manager = HostManager::new();
    manager.add_host(host("h1")).unwrap();
    let outcome = manager.process_update(point_message("h9", "disk", DataPoint::empty(), critical_options()));
    assert_eq!(outcome, UpdateOutcome::UnknownHost);
    assert!(manager.get_host(&"h9".to_string()).is_none());
}

#[test]
fn exit_token_stops_worker() {
    let mut manager = HostManager::new();
    let token = StateUpdateMessage::exit_token();
    assert!(token.exit_thread);
    assert_eq!(manager.process_update(token), UpdateOutcome::Exit);
}

#[test]
fn command_result_replaces_previous_one() {
    let mut manager = HostManager::new();
    manager.add_host(host("h1")).unwrap();
    for message in ["first", "second"] {
        let update = StateUpdateMessage {
            host_name: "h1".to_string(),
            display_options: DisplayOptions::new("host".to_string(), "Shut down".to_string()),
            module_spec: ModuleSpecification::new("shutdown", "0.0.1"),
            data_point: None,
            command_result: Some(CommandResult::new(message.to_string())),
            errors: None,
            exit_thread: false,
        };
        assert_eq!(manager.process_update(update), UpdateOutcome::Applied(StateChange::CommandResultStored));
    }
    let state = manager.get_host_state(&"h1".to_string()).unwrap();
    assert_eq!(state.command_results.len(), 1);
    assert_eq!(state.command_results[0].0, "shutdown");
    assert_eq!(state.command_results[0].1.message, "second");
}

#[test]
fn updates_are_applied_in_send_order() {
    let mut manager = HostManager::new();
    manager.add_host(host("h1")).unwrap();
    let messages = vec![
        point_message("h1", "disk", DataPoint::new("a".to_string()), critical_options()),
        point_message("h1", "disk", DataPoint::new("b".to_string()), critical_options()),
        StateUpdateMessage::exit_token(),
        point_message("h1", "disk", DataPoint::new("c".to_string()), critical_options()),
    ];
    let mut outcomes = Vec::new();
    for message in messages {
        let outcome = manager.process_update(message);
        outcomes.push(outcome);
        if outcome == UpdateOutcome::Exit {
            break;
        }
    }
    assert_eq!(outcomes.len(), 3);
    let state = manager.get_host_state(&"h1".to_string()).unwrap();
    let values: Vec<String> = state.monitor_data[0].values.iter().map(|p| p.value.clone()).collect();
    assert_eq!(values, vec!["a", "b"]);
}

#[test]
fn header_includes_unit() {
    let mut options = DisplayOptions::new("host".to_string(), "Uptime".to_string());
    assert_eq!(options.header(), "Uptime");
    options.unit = "d".to_string();
    assert_eq!(options.header(), "Uptime (d)");
}
