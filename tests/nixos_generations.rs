use lightkeeper::data::{Host, HostSetting};
use lightkeeper::nixos_generations::{decimal_string, display_date_string, GenerationData, RebuildGenerations};

fn generation(number: u16, current: bool) -> GenerationData {
    GenerationData {
        generation: number,
        date: format!("2024-01-{:02}T10:00:00Z", number),
        nixos_version: "24.05".to_string(),
        kernel_version: "6.6.1".to_string(),
        current,
    }
}

#[test]
fn numbers_and_dates_are_formatted() {
    assert_eq!(decimal_string(0), "0");
    assert_eq!(decimal_string(1207), "1207");
    assert_eq!(display_date_string(&"2024-01-31T12:00:00Z".to_string()), "2024-01-31 12:00:00");
}

#[test]
fn generations_are_listed_newest_first() {
    let module = RebuildGenerations::new();
    let point = module.generations_point(vec![generation(3, false), generation(12, true), generation(7, false)]);
    let labels: Vec<String> = point.multivalue.iter().map(|p| p.label.clone()).collect();
    assert_eq!(labels, vec!["#12 @ 2024-01-12 10:00:00", "#7 @ 2024-01-07 10:00:00", "#3 @ 2024-01-03 10:00:00"]);
    assert_eq!(point.multivalue[0].tags, vec!["Current"]);
    assert!(point.multivalue[1].tags.is_empty());
    assert_eq!(point.multivalue[2].description, "NixOS 24.05 | Kernel 6.6.1");
}

#[test]
fn generations_need_nixos_20() {
    let module = RebuildGenerations::new();
    let mut host = Host::new("h1".to_string(), "10.0.0.1".to_string(), String::new(), vec![HostSetting::UseSudo]);
    host.platform.os_flavor = "nixos".to_string();
    host.platform.os_version = "23.11".to_string();
    assert_eq!(module.connector_message(&host).ok().unwrap(), "sudo nixos-rebuild list-generations --json");
    host.platform.os_version = "19.09".to_string();
    assert!(module.connector_message(&host).is_err());
}
