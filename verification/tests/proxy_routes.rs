use omnilauncher::process::Role;
use omnilauncher::proxy::{
    bind_failure_message, candidate_ports, forward_target, is_hop_by_hop, unreachable_body, Routing, NO_BACKEND_BODY,
    UNKNOWN_PATH_BODY,
};

#[test]
fn hop_by_hop_detection_is_case_insensitive() {
    assert!(is_hop_by_hop("Connection"));
    assert!(is_hop_by_hop("transfer-encoding"));
    assert!(is_hop_by_hop("CONTENT-LENGTH"));
    assert!(!is_hop_by_hop("content-type"));
    assert!(!is_hop_by_hop("authorization"));
}

#[test]
fn proxy_state_starts_with_no_routing() {
    let routing = Routing::new();
    assert!(routing.chat_port.is_none());
    assert!(routing.embedding_port.is_none());
}

#[test]
fn proxy_routing_clear_works() {
    let mut r = Routing::new();
    r.set_port(Role::Chat, 8080);
    assert_eq!(r.chat_port, Some(8080));
    r.clear_port(Role::Chat, 8080);
    assert_eq!(r.chat_port, None);
}

#[test]
fn clearing_a_replaced_backend_keeps_the_new_route() {
    let mut r = Routing::new();
    r.set_port(Role::Embedding, 9000);
    r.set_port(Role::Embedding, 9001);
    r.clear_port(Role::Embedding, 9000);
    assert_eq!(r.port_for(Role::Embedding), Some(9001));
    assert_eq!(r.port_for(Role::Chat), None);
}

#[test]
fn candidate_ports_without_and_with_increment() {
    assert_eq!(candidate_ports(8000, false), vec![8000]);
    let with = candidate_ports(8000, true);
    assert_eq!(with.len(), 50);
    assert_eq!(with[0], 8000);
    assert_eq!(with[49], 8049);
    assert_eq!(candidate_ports(65530, true), vec![65530, 65531, 65532, 65533, 65534, 65535]);
}

#[test]
fn forward_target_keeps_path_and_query() {
    assert_eq!(forward_target(8081, "/v1/chat/completions?x=1"), "http://127.0.0.1:8081/v1/chat/completions?x=1");
}

#[test]
fn error_bodies() {
    assert_eq!(NO_BACKEND_BODY, r#"{"error":{"message":"No model is currently running on this route."}}"#);
    assert_eq!(UNKNOWN_PATH_BODY, r#"{"error":{"message":"Unknown path. Use /v1/chat/completions or /v1/embeddings."}}"#);
    assert_eq!(
        unreachable_body(9000, "connection refused"),
        r#"{"error":{"message":"Backend at port 9000 is unreachable: connection refused"}}"#
    );
    assert_eq!(
        bind_failure_message(8000, true, Some("in use")),
        "could not bind any port in 8000..=8049(last error: in use)"
    );
    assert_eq!(bind_failure_message(65535, true, None), "could not bind any port in 65535..=65535(last error: unknown)");
    assert_eq!(bind_failure_message(80, false, None), "could not bind any port in 80..=80(last error: unknown)");
}
