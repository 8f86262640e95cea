use lightkeeper::command_modules::{is_flavor_at_least, read_major_version, Update};
use lightkeeper::data::{Criticality, Host, HostSetting, ResponseMessage};
use lightkeeper::docker_commands::{strip_service_prefix, Logs, Shell};
use lightkeeper::error::ErrorKind;

fn host_on(flavor: &str, version: &str, sudo: bool) -> Host {
    let settings = if sudo { vec![HostSetting::UseSudo] } else { Vec::new() };
    let mut host = Host::new("h1".to_string(), "10.0.0.1".to_string(), String::new(), settings);
    host.platform.os = "linux".to_string();
    host.platform.os_flavor = flavor.to_string();
    host.platform.os_version = version.to_string();
    host
}

#[test]
fn major_versions_are_read_before_the_first_dot() {
    assert_eq!(read_major_version(&"10.13".to_string()), Some(10));
    assert_eq!(read_major_version(&"22".to_string()), Some(22));
    assert_eq!(read_major_version(&"".to_string()), None);
    assert_eq!(read_major_version(&"bookworm".to_string()), None);
    assert_eq!(read_major_version(&"99999999999999999999999.1".to_string()), Some(u64::MAX));
    let host = host_on("debian", "9.1", false);
    assert!(is_flavor_at_least(&host.platform, "debian", 8));
    assert!(!is_flavor_at_least(&host.platform, "debian", 10));
    assert!(!is_flavor_at_least(&host.platform, "ubuntu", 8));
}

#[test]
fn package_upgrade_uses_apt_on_supported_debian() {
    let update = Update::new();
    let params = vec!["nginx".to_string()];
    assert_eq!(
        update.connector_message(&host_on("debian", "10", true), &params).ok().unwrap(),
        "sudo apt --only-upgrade -y install nginx"
    );
    assert_eq!(update.connector_message(&host_on("debian", "12", false), &params).ok().unwrap(), "");
    assert!(update.connector_message(&host_on("debian", "10", false), &Vec::new()).is_err());
    let mut failed = ResponseMessage::new("E: broken".to_string());
    failed.return_code = 100;
    assert_eq!(update.result_of(&failed).criticality, Criticality::Error);
}

#[test]
fn shell_opens_inside_container() {
    let shell = Shell::new();
    let params = vec!["abc123".to_string()];
    assert_eq!(
        shell.connector_message(&host_on("ubuntu", "22.04", false), &params).ok().unwrap(),
        "docker exec -it abc123 /bin/sh"
    );
    assert_eq!(
        shell.connector_message(&host_on("centos", "8", true), &params).ok().unwrap(),
        "sudo docker exec -it abc123 /bin/sh"
    );
    let unsupported = shell.connector_message(&host_on("debian", "7", false), &params).err().unwrap();
    assert_eq!(unsupported.kind, ErrorKind::UnsupportedPlatform);
    assert!(shell.connector_message(&host_on("debian", "12", false), &vec!["a;b".to_string()]).is_err());
}

#[test]
fn compose_logs_command_depends_on_platform() {
    let logs = Logs::new();
    let params = vec!["/srv/app.yml".to_string(), "app".to_string()];
    assert_eq!(
        logs.connector_message(&host_on("debian", "11", false), &params).ok().unwrap(),
        "docker-compose -f /srv/app.yml logs --tail 400 --no-color -t app"
    );
    assert_eq!(
        logs.connector_message(&host_on("redhat", "9", true), &params).ok().unwrap(),
        "sudo docker compose -f /srv/app.yml logs --tail 400 --no-color -t app"
    );
    assert!(logs.connector_message(&host_on("debian", "11", false), &vec!["only.yml".to_string()]).is_err());
}

#[test]
fn compose_log_lines_lose_service_prefix() {
    assert_eq!(strip_service_prefix(&"web_1  |  started".to_string()), "started");
    assert_eq!(strip_service_prefix(&"no prefix".to_string()), "no prefix");
    let logs = Logs::new();
    let response = ResponseMessage::new("web_1 | one\ndb_1 | two | three\n".to_string());
    let result = logs.logs_of(&response).ok().unwrap();
    assert!(result.hidden);
    assert_eq!(result.message, "one\ntwo | three");
    let mut failed = ResponseMessage::new("no such project".to_string());
    failed.is_error = true;
    assert!(logs.logs_of(&failed).is_err());
}
