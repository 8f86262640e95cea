use lightkeeper::connection_manager::{
    CachePolicy, Connector, ConnectorRequest, ConnectorTable, FileMetadata, FileStore, RequestOutcome,
    RequestType,
};
use lightkeeper::data::{Host, ModuleSpecification, ResponseMessage};

#[derive(Default)]
struct FakeConnector {
    connected: bool,
    refuse_connect: bool,
    connect_attempts: usize,
    sent: Vec<String>,
    codes: Vec<(String, i32)>,
    uploaded: Vec<(String, Vec<u8>)>,
}

impl Connector for FakeConnector {
    fn get_module_spec(&self) -> ModuleSpecification {
        ModuleSpecification::new("ssh", "0.0.1")
    }

    fn is_connected(&self) -> bool {
        self.connected
    }

    fn connect(&mut self, _address: &String) -> Result<(), String> {
        self.connect_attempts += 1;
        if self.refuse_connect {
            Err("connection refused".to_string())
        } else {
            self.connected = true;
            Ok(())
        }
    }

    fn send_message(&mut self, message: &String) -> Result<ResponseMessage, String> {
        self.sent.push(message.clone());
        let code = self.codes.iter().find(|(m, _)| m == message).map(|(_, c)| *c).unwrap_or(0);
        let mut response = ResponseMessage::new(format!("out:{}", message));
        response.return_code = code;
        Ok(response)
    }

    fn download_file(&mut self, remote_path: &String) -> Result<Vec<u8>, String> {
        if remote_path == "/missing" {
            Err("no such file".to_string())
        } else {
            Ok(remote_path.as_bytes().to_vec())
        }
    }

    fn upload_file(&mut self, remote_path: &String, contents: Vec<u8>) -> Result<(), String> {
        self.uploaded.push((remote_path.clone(), contents));
        Ok(())
    }
}

#[derive(Default)]
struct FakeFiles {
    created: Vec<String>,
    removed: Vec<String>,
}

impl FileStore for FakeFiles {
    fn create_file(&mut self, host: &Host, remote_path: &String, _contents: Vec<u8>) -> Result<String, String> {
        let path = format!("/cache/{}{}", host.name, remote_path);
        self.created.push(path.clone());
        Ok(path)
    }

    fn read_file(&self, local_path: &String) -> Result<(FileMetadata, Vec<u8>), String> {
        let remote_path = local_path.trim_start_matches("/cache/h1").to_string();
        Ok((FileMetadata { remote_path, temporary: true }, b"new".to_vec()))
    }

    fn remove_file(&mut self, local_path: &String) -> Result<(), String> {
        self.removed.push(local_path.clone());
        Ok(())
    }
}

fn host(name: &str) -> Host {
    Host::new(name.to_string(), "10.0.0.2".to_string(), String::new(), Vec::new())
}

fn request(host_name: &str, messages: &[&str], request_type: RequestType) -> ConnectorRequest {
    ConnectorRequest {
        connector_spec: Some(ModuleSpecification::new("ssh", "0.0.1")),
        source_id: "test".to_string(),
        host: host(host_name),
        messages: messages.iter().map(|m| m.to_string()).collect(),
        request_type,
        cache_policy: CachePolicy::BypassCache,
    }
}

fn responses(outcome: RequestOutcome) -> Vec<Result<ResponseMessage, String>> {
    match outcome {
        RequestOutcome::Respond(rs) => rs,
        RequestOutcome::Exit => panic!("unexpected exit"),
    }
}

#[test]
fn command_request_stops_at_first_non_zero_code() {
    let mut table = ConnectorTable::new();
    let mut connector = FakeConnector::default();
    connector.codes = vec![("fail".to_string(), 1)];
    assert!(table.add_connector(&host("h1"), connector));
    let mut files = FakeFiles::default();
    let rs = responses(table.serve_request(&mut files, &request("h1", &["ok1", "fail", "ok2"], RequestType::Command)));
    assert_eq!(rs.len(), 2);
    assert_eq!(rs[0].as_ref().unwrap().return_code, 0);
    assert_eq!(rs[1].as_ref().unwrap().return_code, 1);
    assert_eq!(table.entries[0].connector.sent, vec!["ok1", "fail"]);
}

#[test]
fn command_request_sends_all_when_every_code_is_zero() {
    let mut table = ConnectorTable::new();
    table.add_connector(&host("h1"), FakeConnector::default());
    let mut files = FakeFiles::default();
    let rs = responses(table.serve_request(&mut files, &request("h1", &["a", "b", "c"], RequestType::Command)));
    assert_eq!(rs.len(), 3);
    assert_eq!(rs[2].as_ref().unwrap().message, "out:c");
}

#[test]
fn connection_failure_gives_one_error_and_is_retried() {
    let mut table = ConnectorTable::new();
    let mut connector = FakeConnector::default();
    connector.refuse_connect = true;
    table.add_connector(&host("h2"), connector);
    let mut files = FakeFiles::default();
    let rs = responses(table.serve_request(&mut files, &request("h2", &["uptime", "df"], RequestType::Command)));
    assert_eq!(rs.len(), 1);
    assert!(rs[0].is_err());
    assert!(table.entries[0].connector.sent.is_empty());
    table.entries[0].connector.refuse_connect = false;
    let rs = responses(table.serve_request(&mut files, &request("h2", &["uptime"], RequestType::Command)));
    assert_eq!(rs.len(), 1);
    assert!(rs[0].is_ok());
    assert_eq!(table.entries[0].connector.connect_attempts, 2);
    assert_eq!(table.entries.len(), 1);
}

#[test]
fn request_without_connector_gets_empty_responses() {
    let mut table: ConnectorTable<FakeConnector> = ConnectorTable::new();
    let mut files = FakeFiles::default();
    let mut req = request("h1", &["ignored"], RequestType::Command);
    req.connector_spec = None;
    let rs = responses(table.serve_request(&mut files, &req));
    assert!(rs.is_empty());
}

#[test]
fn request_for_host_without_connector_gets_an_error() {
    let mut table: ConnectorTable<FakeConnector> = ConnectorTable::new();
    let mut files = FakeFiles::default();
    let rs = responses(table.serve_request(&mut files, &request("h1", &["uptime"], RequestType::Command)));
    assert_eq!(rs.len(), 1);
    assert!(rs[0].is_err());
}

#[test]
fn exit_request_stops_worker() {
    let mut table: ConnectorTable<FakeConnector> = ConnectorTable::new();
    let mut files = FakeFiles::default();
    let token = ConnectorRequest::exit_token();
    assert_eq!(token.request_type, RequestType::Exit);
    assert_eq!(token.host.ip_address, "127.0.0.1");
    assert!(matches!(table.serve_request(&mut files, &token), RequestOutcome::Exit));
}

#[test]
fn second_connector_for_same_host_and_spec_is_ignored() {
    let mut table = ConnectorTable::new();
    assert!(table.add_connector(&host("h1"), FakeConnector::default()));
    assert!(!table.add_connector(&host("h1"), FakeConnector::default()));
    assert!(table.add_connector(&host("h2"), FakeConnector::default()));
    assert_eq!(table.entries.len(), 2);
}

#[test]
fn downloads_are_staged_locally_each_on_its_own() {
    let mut table = ConnectorTable::new();
    table.add_connector(&host("h1"), FakeConnector::default());
    let mut files = FakeFiles::default();
    let rs = responses(table.serve_request(&mut files, &request("h1", &["/missing", "/etc/x"], RequestType::Download)));
    assert_eq!(rs.len(), 2);
    assert!(rs[0].is_err());
    assert_eq!(rs[1].as_ref().unwrap().message, "/cache/h1/etc/x");
    assert_eq!(files.created, vec!["/cache/h1/etc/x"]);
}

#[test]
fn upload_removes_temporary_local_copy() {
    let mut table = ConnectorTable::new();
    table.add_connector(&host("h1"), FakeConnector::default());
    let mut files = FakeFiles::default();
    let rs = responses(table.serve_request(&mut files, &request("h1", &["/cache/h1/etc/x"], RequestType::Upload)));
    assert_eq!(rs.len(), 1);
    assert_eq!(rs[0].as_ref().unwrap().message, "");
    assert_eq!(table.entries[0].connector.uploaded, vec![("/etc/x".to_string(), b"new".to_vec())]);
    assert_eq!(files.removed, vec!["/cache/h1/etc/x"]);
}
