use lightkeeper::compose_monitor::{container_entry, state_criticality, string_le, Compose, ContainerDetails};
use lightkeeper::data::{Criticality, Host};

fn container(id: &str, project: Option<&str>, service: Option<&str>, dir: Option<&str>, state: &str) -> ContainerDetails {
    let mut labels = vec![("com.docker.compose.config-hash".to_string(), "abc".to_string())];
    if let Some(project) = project {
        labels.push(("com.docker.compose.project".to_string(), project.to_string()));
    }
    if let Some(service) = service {
        labels.push(("com.docker.compose.service".to_string(), service.to_string()));
    }
    if let Some(dir) = dir {
        labels.push(("com.docker.compose.project.working_dir".to_string(), dir.to_string()));
    }
    ContainerDetails {
        id: id.to_string(),
        image: format!("{}:latest", id),
        status: format!("{} status", state),
        criticality: state_criticality(&state.to_string()),
        labels,
    }
}

#[test]
fn strings_compare_by_characters() {
    assert!(string_le(&"abc".to_string(), &"abd".to_string()));
    assert!(string_le(&"ab".to_string(), &"abc".to_string()));
    assert!(!string_le(&"b".to_string(), &"abc".to_string()));
    assert!(string_le(&"".to_string(), &"".to_string()));
}

#[test]
fn container_states_map_to_criticality() {
    assert_eq!(state_criticality(&"running".to_string()), Criticality::Normal);
    assert_eq!(state_criticality(&"paused".to_string()), Criticality::Warning);
    assert_eq!(state_criticality(&"exited".to_string()), Criticality::Critical);
}

#[test]
fn containers_are_grouped_by_project_in_name_order() {
    let compose = Compose::new(&Vec::new());
    let containers = vec![
        container("c1", Some("web"), Some("nginx"), Some("/srv/web"), "running"),
        container("c2", Some("db"), Some("postgres"), Some("/srv/db/"), "running"),
        container("c3", Some("web"), Some("app"), Some("/srv/web"), "exited"),
        container("c4", Some("web"), Some("cache"), Some("/srv/web"), "exited"),
        container("c5", None, Some("lonely"), Some("/srv/x"), "running"),
    ];
    let point = compose.projects_point(&containers).ok().unwrap();
    let projects: Vec<String> = point.multivalue.iter().map(|p| p.label.clone()).collect();
    assert_eq!(projects, vec!["db", "web"]);
    let db = &point.multivalue[0];
    assert_eq!(db.command_params, vec!["/srv/db/docker-compose.yml", "db"]);
    let web = &point.multivalue[1];
    let services: Vec<String> = web.multivalue.iter().map(|p| p.label.clone()).collect();
    assert_eq!(services, vec!["app", "cache", "nginx"]);
    assert_eq!(web.criticality, Criticality::Critical);
    assert_eq!(web.value, "exited status");
    assert_eq!(web.multivalue[0].command_params, vec!["/srv/web/docker-compose.yml", "app"]);
    assert_eq!(web.multivalue[0].description, "c3:latest");
}

#[test]
fn main_directory_stands_in_for_missing_working_dir() {
    let compose = Compose::new(&vec![("main_directory".to_string(), "/opt/compose".to_string())]);
    let point = compose.projects_point(&vec![container("c1", Some("blog"), Some("ghost"), None, "running")]).ok().unwrap();
    assert_eq!(point.multivalue[0].command_params, vec!["/opt/compose/blog/docker-compose.yml", "blog"]);
    let without = Compose::new(&Vec::new());
    let point = without.projects_point(&vec![container("c1", Some("blog"), Some("ghost"), None, "running")]).ok().unwrap();
    assert!(point.multivalue.is_empty());
}

#[test]
fn compose_errors() {
    let compose = Compose::new(&Vec::new());
    assert!(container_entry(&container("c1", Some("web"), None, Some("/srv"), "running"), &"docker-compose.yml".to_string(), &String::new())
        .unwrap()
        .is_err());
    assert!(compose.projects_point(&vec![container("c1", Some("web"), None, Some("/srv"), "running")]).is_err());
    let mixed = vec![
        container("c1", Some("web"), Some("a"), Some("/srv/one"), "running"),
        container("c2", Some("web"), Some("b"), Some("/srv/two"), "running"),
    ];
    assert!(compose.projects_point(&mixed).is_err());
    let mut host = Host::new("h1".to_string(), "10.0.0.1".to_string(), String::new(), Vec::new());
    assert!(compose.connector_message(&host).is_err());
    host.platform.os = "linux".to_string();
    assert!(compose.connector_message(&host).ok().unwrap().starts_with("curl --unix-socket"));
}
