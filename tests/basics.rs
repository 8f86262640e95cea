use lightkeeper::command_handler::CommandData;
use lightkeeper::configuration::{get_setting, CommandConfig, Configuration, HostSettings, MonitorConfig};
use lightkeeper::data::{CommandResult, Criticality, DataPoint, DisplayOptions, ModuleSpecification};
use lightkeeper::error::{ErrorKind, LkError};

#[test]
fn error_constructors() {
    let e = LkError::new(ErrorKind::ConnectionFailed, "timed out");
    assert_eq!(e.kind, ErrorKind::ConnectionFailed);
    assert_eq!(e.message, "timed out");
    assert!(e.source_id.is_empty());
    assert_eq!(LkError::not_implemented().kind, ErrorKind::NotImplemented);
    assert_eq!(LkError::not_implemented().message, "Not implemented");
    assert_eq!(LkError::unsupported_platform().message, "Unsupported platform");
    assert_eq!(LkError::config("bad group").kind, ErrorKind::InvalidConfig);
    assert_eq!(LkError::other("x").kind, ErrorKind::Other);
    assert_eq!(ErrorKind::default(), ErrorKind::Other);
}

#[test]
fn host_key_error_carries_key_id() {
    let e = LkError::host_key_unverified("ssh", "unknown key", "SHA256:abc");
    assert_eq!(e.kind, ErrorKind::HostKeyNotVerified);
    assert_eq!(e.source_id, "ssh");
    assert_eq!(e.parameter, Some("SHA256:abc".to_string()));
}

#[test]
fn error_with_parameter_and_source() {
    let e = LkError::other_p("Invalid unit", "foo.service");
    assert_eq!(e.message, "Invalid unit: foo.service");
    assert_eq!(e.parameter, Some("foo.service".to_string()));
    assert_eq!(e.to_display_string(), "Invalid unit: foo.service");
    let e = e.set_source("systemd-service-mask");
    assert_eq!(e.to_display_string(), "systemd-service-mask: Invalid unit: foo.service");
}

#[test]
fn module_specification_compatibility() {
    let a = ModuleSpecification::new("uptime", "0.0.1");
    let latest = ModuleSpecification::new("uptime", "latest");
    let other = ModuleSpecification::new("uptime", "0.0.2");
    assert!(a.is_compatible(&latest));
    assert!(latest.is_compatible(&other));
    assert!(!a.is_compatible(&other));
    assert!(!a.is_compatible(&ModuleSpecification::new("load", "latest")));
    assert!(a.equals(&a.duplicate()));
    assert!(!a.equals(&other));
}

#[test]
fn data_point_constructors() {
    assert_eq!(DataPoint::no_data().criticality, Criticality::NoData);
    assert_eq!(DataPoint::empty_and_critical().criticality, Criticality::Critical);
    assert_eq!(DataPoint::empty().criticality, Criticality::Normal);
    let mut point = DataPoint::new("3".to_string());
    assert!(!point.is_multivalue());
    point.multivalue.push(DataPoint::labeled("a".to_string(), "1".to_string()));
    assert!(point.is_multivalue());
}

#[test]
fn command_result_constructors() {
    assert_eq!(CommandResult::empty_and_critical().criticality, Criticality::Critical);
    assert!(CommandResult::empty().message.is_empty());
    assert!(CommandResult::new_hidden("p".to_string()).hidden);
    assert_eq!(CommandResult::new("m".to_string()).with_invocation_id(7).invocation_id, 7);
    assert_eq!(CommandResult::new_with_level("w".to_string(), Criticality::Warning).criticality, Criticality::Warning);
}

#[test]
fn configuration_defaults() {
    assert_eq!(HostSettings::default_address(), "0.0.0.0");
    assert!(HostSettings::is_default_address(&"0.0.0.0".to_string()));
    assert!(!HostSettings::is_default_address(&"10.0.0.1".to_string()));
    assert_eq!(MonitorConfig::default_version(), "latest");
    assert_eq!(MonitorConfig::default_enabled(), Some(true));
    assert!(MonitorConfig::is_enabled(&None));
    assert!(!MonitorConfig::is_enabled(&Some(false)));
    assert_eq!(CommandConfig::default_version(), "latest");
    assert!(Configuration::version_is_latest("latest"));
    assert!(!Configuration::version_is_latest("0.0.1"));
    assert_eq!(MonitorConfig::new().enabled, Some(true));
    assert_eq!(CommandConfig::new().version, "latest");
}

#[test]
fn settings_lookup_takes_last_pair() {
    let settings = vec![
        ("port".to_string(), "22".to_string()),
        ("port".to_string(), "2222".to_string()),
    ];
    assert_eq!(get_setting(&settings, "port"), Some(&"2222".to_string()));
    assert_eq!(get_setting(&settings, "username"), None);
}

#[test]
fn command_data_starts_without_parameters() {
    let data = CommandData::new("shutdown".to_string(), DisplayOptions::new("host".to_string(), "Shut down".to_string()));
    assert_eq!(data.command_id, "shutdown");
    assert!(data.command_params.is_empty());
    assert_eq!(data.display_options.display_text, "Shut down");
}
