use lightkeeper::command_modules::{valid_unit_name, Logs, Mask, Shutdown, Start};
use lightkeeper::configuration::{
    apply_groups, get_setting, merge_group_into_host, merge_settings, CommandConfig, ConfigGroup, ConnectorConfig,
    Groups, HostSettings, Hosts, MonitorConfig,
};
use lightkeeper::data::{Criticality, DataPoint, DisplayOptions, Host, HostSetting, ModuleSpecification, ResponseMessage};
use lightkeeper::error::ErrorKind;
use lightkeeper::host_manager::{HostManager, StateUpdateMessage};
use lightkeeper::modules::CommandModule;

fn pairs(items: &[(&str, &str)]) -> Vec<(String, String)> {
    items.iter().map(|(k, v)| (k.to_string(), v.to_string())).collect()
}

fn host_settings(groups: &[&str]) -> HostSettings {
    HostSettings {
        groups: groups.iter().map(|g| g.to_string()).collect(),
        address: "10.0.0.5".to_string(),
        fqdn: String::new(),
        settings: Vec::new(),
        monitors: Vec::new(),
        commands: Vec::new(),
        connectors: Vec::new(),
    }
}

fn base_group() -> ConfigGroup {
    let mut monitor = MonitorConfig::new();
    monitor.version = "0.0.2".to_string();
    monitor.is_critical = Some(true);
    monitor.settings = pairs(&[("path", "/")]);
    ConfigGroup {
        host_settings: vec![HostSetting::UseSudo],
        monitors: vec![("disk".to_string(), monitor)],
        commands: vec![("logs".to_string(), CommandConfig { version: "0.0.1".to_string(), settings: Vec::new() })],
        connectors: vec![("ssh".to_string(), ConnectorConfig { settings: pairs(&[("port", "22"), ("username", "root")]) })],
    }
}

#[test]
fn settings_merge_prefers_new_values() {
    let mut target = pairs(&[("port", "22"), ("username", "root")]);
    merge_settings(&mut target, &pairs(&[("port", "2222")]));
    assert_eq!(get_setting(&target, "port"), Some(&"2222".to_string()));
    assert_eq!(get_setting(&target, "username"), Some(&"root".to_string()));
}

#[test]
fn group_configuration_is_merged_into_host() {
    let mut host = host_settings(&["base"]);
    let mut existing = MonitorConfig::new();
    existing.enabled = Some(false);
    existing.settings = pairs(&[("path", "/home"), ("warn", "80")]);
    host.monitors.push(("disk".to_string(), existing));
    merge_group_into_host(&mut host, &base_group());
    assert_eq!(host.settings, vec![HostSetting::UseSudo]);
    assert_eq!(host.monitors.len(), 1);
    let disk = &host.monitors[0].1;
    assert_eq!(disk.version, "0.0.2");
    assert_eq!(disk.enabled, Some(false));
    assert_eq!(disk.is_critical, Some(true));
    assert_eq!(get_setting(&disk.settings, "path"), Some(&"/".to_string()));
    assert_eq!(get_setting(&disk.settings, "warn"), Some(&"80".to_string()));
    assert_eq!(host.commands[0].0, "logs");
    assert_eq!(get_setting(&host.connectors[0].1.settings, "username"), Some(&"root".to_string()));
}

#[test]
fn empty_group_host_settings_keep_the_hosts_own() {
    let mut host = host_settings(&["plain"]);
    host.settings = vec![HostSetting::UseSudo];
    let group = ConfigGroup { host_settings: Vec::new(), monitors: Vec::new(), commands: Vec::new(), connectors: Vec::new() };
    merge_group_into_host(&mut host, &group);
    assert_eq!(host.settings, vec![HostSetting::UseSudo]);
}

#[test]
fn later_group_overrides_earlier_one() {
    let mut override_group = base_group();
    override_group.connectors = vec![("ssh".to_string(), ConnectorConfig { settings: pairs(&[("port", "2200")]) })];
    let groups = Groups { groups: vec![("base".to_string(), base_group()), ("override".to_string(), override_group)] };
    let hosts = Hosts { hosts: vec![("h1".to_string(), host_settings(&["base", "override"]))] };
    let merged = apply_groups(hosts, &groups).unwrap();
    let ssh = &merged.hosts[0].1.connectors[0].1.settings;
    assert_eq!(get_setting(ssh, "port"), Some(&"2200".to_string()));
    assert_eq!(get_setting(ssh, "username"), Some(&"root".to_string()));
    assert_eq!(merged.hosts[0].0, "h1");
}

#[test]
fn unknown_group_reference_is_rejected() {
    let groups = Groups { groups: vec![("base".to_string(), base_group())] };
    let hosts = Hosts {
        hosts: vec![
            ("h1".to_string(), host_settings(&["base", "missing"])),
            ("h2".to_string(), host_settings(&["gone"])),
        ],
    };
    assert_eq!(apply_groups(hosts, &groups).err().unwrap(), "Invalid group references: missing, gone");
}

#[test]
fn display_data_lists_each_monitor_once() {
    let mut manager = HostManager::new();
    for name in ["h1", "h2"] {
        manager.add_host(Host::new(name.to_string(), "10.0.0.1".to_string(), String::new(), Vec::new())).unwrap();
    }
    let mut uptime = DisplayOptions::new("host".to_string(), "Uptime".to_string());
    uptime.unit = "d".to_string();
    let load = DisplayOptions::new("host".to_string(), "Load".to_string());
    for (host, monitor, options) in [("h1", "uptime", uptime.clone()), ("h2", "uptime", uptime), ("h2", "load", load)] {
        manager.process_update(StateUpdateMessage {
            host_name: host.to_string(),
            display_options: options,
            module_spec: ModuleSpecification::new(monitor, "0.0.1"),
            data_point: Some(DataPoint::new("1".to_string())),
            command_result: None,
            errors: None,
            exit_thread: false,
        });
    }
    let data = manager.get_display_data();
    assert_eq!(data.all_monitor_names, vec!["uptime", "load"]);
    assert_eq!(data.table_headers, vec!["Uptime (d)", "Load"]);
}

fn host_with(os: &str, sudo: bool) -> Host {
    let settings = if sudo { vec![HostSetting::UseSudo] } else { Vec::new() };
    let mut host = Host::new("h1".to_string(), "10.0.0.1".to_string(), String::new(), settings);
    host.platform.os = os.to_string();
    host
}

#[test]
fn start_command_line() {
    let start = Start::new(&Vec::new());
    assert!(start.use_sudo);
    let params = vec!["/srv/app/docker-compose.yml".to_string(), "web".to_string()];
    assert_eq!(start.connector_message(&params).ok().unwrap(), "sudo docker-compose -f /srv/app/docker-compose.yml start web");
    let plain = Start::new(&pairs(&[("use_sudo", "false")]));
    assert_eq!(plain.connector_message(&vec!["c.yml".to_string()]).ok().unwrap(), "docker-compose -f c.yml start");
    assert!(plain.connector_message(&Vec::new()).is_err());
    assert_eq!(start.get_module_spec().id, "docker-compose-start");
}

#[test]
fn mask_validates_unit_names() {
    let mask = Mask::new();
    let host = host_with("linux", true);
    assert_eq!(mask.connector_message(&host, &vec!["nginx.service".to_string()]).ok().unwrap(), "sudo systemctl mask nginx.service");
    let error = mask.connector_message(&host, &vec!["-rf".to_string()]).err().unwrap();
    assert_eq!(error.message, "Invalid unit name: -rf");
    assert!(!valid_unit_name(&"a;rm".to_string()));
    assert!(valid_unit_name(&"getty@tty1.service".to_string()));
    assert_eq!(mask.result_of(&ResponseMessage::new("failed".to_string())).criticality, Criticality::Error);
    assert_eq!(mask.result_of(&ResponseMessage::empty()).criticality, Criticality::Normal);
}

#[test]
fn shutdown_only_on_linux() {
    let shutdown = Shutdown::new();
    assert_eq!(shutdown.connector_message(&host_with("linux", false)).ok().unwrap(), "poweroff");
    assert_eq!(shutdown.connector_message(&host_with("linux", true)).ok().unwrap(), "sudo poweroff");
    let error = shutdown.connector_message(&host_with("windows", false)).err().unwrap();
    assert_eq!(error.kind, ErrorKind::UnsupportedPlatform);
    assert_eq!(shutdown.result_of(&ResponseMessage::new("bye".to_string())).criticality, Criticality::Warning);
}

#[test]
fn journal_command_line() {
    let logs = Logs::new();
    assert_eq!(logs.connector_message(&Vec::new()), "sudo journalctl -q -n 400");
    assert_eq!(logs.connector_message(&vec!["all".to_string()]), "sudo journalctl -q -n 400 ");
    assert_eq!(logs.connector_message(&vec!["dmesg".to_string()]), "sudo journalctl -q -n 400 --dmesg");
    assert_eq!(
        logs.connector_message(&vec!["sshd".to_string(), "fail".to_string()]),
        "sudo journalctl -q -n 400 -u sshd -g fail"
    );
    assert_eq!(logs.connector_message(&vec![String::new(), "x".to_string()]), "sudo journalctl -q -n 400 -g x");
}
