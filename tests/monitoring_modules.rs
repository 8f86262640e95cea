use lightkeeper::data::{Criticality, DataPoint, Host, ResponseMessage};
use lightkeeper::modules::MonitoringModule;
use lightkeeper::monitoring_modules::{
    parse_physical_volumes, split_text, strip_newline, trim_start, uptime_in_days, PhysicalVolume, Uptime,
};

fn response(text: &str) -> ResponseMessage {
    ResponseMessage::new(text.to_string())
}

#[test]
fn text_is_split_at_separators() {
    assert_eq!(split_text("a|b||c", '|'), vec!["a", "b", "", "c"]);
    assert_eq!(split_text("", '|'), vec![""]);
    assert_eq!(trim_start(" \t /dev/sda"), "/dev/sda");
    assert_eq!(strip_newline("2024-01-01 00:00:00\r\n"), "2024-01-01 00:00:00");
}

#[test]
fn physical_volumes_become_child_points() {
    let output = "  PV|Attr|PSize\n  /dev/sda2|a--|<19.00g\n  /dev/sdb1|a-m|10.00g\n";
    let point = parse_physical_volumes(&response(output)).ok().unwrap();
    assert_eq!(point.criticality, Criticality::Normal);
    assert_eq!(point.multivalue.len(), 2);
    let first = &point.multivalue[0];
    assert_eq!(first.label, "/dev/sda2");
    assert_eq!(first.value, "OK");
    assert_eq!(first.description, "size: <19.00g");
    assert_eq!(first.command_params, vec!["/dev/sda2"]);
    let second = &point.multivalue[1];
    assert_eq!(second.value, "Missing");
    assert_eq!(second.criticality, Criticality::Critical);
}

#[test]
fn empty_pvs_output_has_no_volumes() {
    let point = parse_physical_volumes(&ResponseMessage::empty()).ok().unwrap();
    assert!(point.multivalue.is_empty());
}

#[test]
fn malformed_pvs_line_is_an_error() {
    assert!(parse_physical_volumes(&response("PV|Attr|PSize\n/dev/sda2|a-\n")).is_err());
    assert!(parse_physical_volumes(&response("PV|Attr|PSize\n/dev/sda2|a--\n")).is_err());
}

#[test]
fn physical_volume_module_processes_response() {
    let module = PhysicalVolume::new();
    let host = Host::new("h1".to_string(), "10.0.0.1".to_string(), String::new(), Vec::new());
    let message = module.get_connector_message(&host, &DataPoint::empty()).ok().unwrap();
    assert!(message.starts_with("pvs --separator"));
    let point = module.process_response(&host, &response("PV|Attr|PSize\n/dev/sda1|a--|1g"), &DataPoint::empty()).ok().unwrap();
    assert_eq!(point.multivalue[0].label, "/dev/sda1");
}

#[test]
fn uptime_days_are_whole_days() {
    assert_eq!(uptime_in_days(0, 86_399), Some(0));
    assert_eq!(uptime_in_days(0, 3 * 86_400 + 5), Some(3));
    assert_eq!(uptime_in_days(10, 5), None);
}

#[test]
fn uptime_reads_boot_time() {
    let module = Uptime::new();
    let boot = 1_704_067_200;
    let days = module.uptime_from(&response("2024-01-01 00:00:00\n"), boot + 3 * 86_400 + 100).ok().unwrap();
    assert_eq!(days, 3);
    assert!(module.uptime_from(&response("yesterday"), boot).is_err());
    assert!(module.uptime_from(&response("2024-01-02 00:00:00"), boot).is_err());
}

#[test]
fn uptime_module_produces_a_day_count() {
    let module = Uptime::new();
    let host = Host::new("h1".to_string(), "10.0.0.1".to_string(), String::new(), Vec::new());
    assert_eq!(module.get_connector_message(&host, &DataPoint::empty()).ok().unwrap(), "uptime -s");
    let point = module.process_response(&host, &response("2000-01-01 00:00:00\n"), &DataPoint::empty()).ok().unwrap();
    assert!(point.value.parse::<u64>().unwrap() > 8000);
}
