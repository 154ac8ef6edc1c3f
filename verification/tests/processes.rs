use omnilauncher::process::Role;
use omnilauncher::sidecar::{
    already_running_message, extract_port_from_line, not_running_message, startup_timeout_message, ProcessInfo,
    ProcessTable,
};

fn info(id: i64, port: u16) -> ProcessInfo {
    ProcessInfo { model_id: id, model_name: format!("model-{id}"), role: Role::Chat, port, pid: 1000 + id as u32 }
}

#[test]
fn extracts_port_from_listening_line() {
    assert_eq!(extract_port_from_line("llama-server: listening on 127.0.0.1:8080"), Some(8080));
    assert_eq!(extract_port_from_line("server is listening on http://127.0.0.1:54321"), Some(54321));
    assert_eq!(extract_port_from_line("listening on 0.0.0.0:1234"), Some(1234));
}

#[test]
fn ignores_non_listening_lines() {
    assert_eq!(extract_port_from_line("loading model..."), None);
    assert_eq!(extract_port_from_line("error: something:8080 broke"), None);
}

#[test]
fn empty_controller_status() {
    let table = ProcessTable::new();
    assert!(table.status().is_empty());
}

#[test]
fn controller_status_on_empty_state() {
    let table = ProcessTable::new();
    let list = table.status();
    assert!(list.is_empty(), "fresh controller should have no processes");
}

#[test]
fn port_must_fit_and_follow_last_colon() {
    assert_eq!(extract_port_from_line("LISTENING on 127.0.0.1:70000"), None);
    assert_eq!(extract_port_from_line("listening on 127.0.0.1:"), None);
    assert_eq!(extract_port_from_line("Listening at [::1]:8081 now"), Some(8081));
}

#[test]
fn table_insert_get_remove() {
    let mut t = ProcessTable::new();
    t.insert(info(1, 9001));
    t.insert(info(2, 9002));
    assert!(t.contains(1));
    assert_eq!(t.get(2).map(|p| p.port), Some(9002));
    t.insert(info(1, 9003));
    assert_eq!(t.status().len(), 2);
    assert_eq!(t.get(1).map(|p| p.port), Some(9003));
    t.remove(1);
    assert!(!t.contains(1));
    assert!(t.get(1).is_none());
    assert_eq!(t.status().len(), 1);
    t.remove(42);
    assert_eq!(t.status().len(), 1);
}

#[test]
fn process_messages() {
    assert_eq!(already_running_message(7), "model 7 is already running");
    assert_eq!(not_running_message(-3), "model -3 is not running");
    assert_eq!(startup_timeout_message(), "llama-server did not report a listening port within 120s");
}
