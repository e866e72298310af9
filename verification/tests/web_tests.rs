use void_proxy::addr::IpAddress;
use void_proxy::config::Config;
use void_proxy::config::Protocol;
use void_proxy::config::ProxyConfig;
use void_proxy::instance::InstanceStatus;
use void_proxy::instance::ProxyInstance;
use void_proxy::web::ErrorResponse;
use void_proxy::web::ImportConfigRequest;
use void_proxy::web::InstanceQuery;
use void_proxy::web::content_type_for;
use void_proxy::web::filter_instances_by_status;
use void_proxy::web::path_contains_dotdot;
use void_proxy::web::status_matches_filter;

fn make_instance(name: &str) -> ProxyInstance {
    ProxyInstance::new(
        name.to_string(),
        Config {
            proxy: ProxyConfig {
                listen_ip: IpAddress::V4(0x7F000001),
                listen_port: 8080,
                dst_ip: IpAddress::V4(0xC0A80164),
                dst_port: 80,
                protocol: Protocol::Tcp,
                connect_timeout_secs: 30,
                idle_timeout_secs: 300,
                log_level: "info".to_string(),
            },
            ip_filter: None,
        },
        false,
    )
}

#[test]
fn error_response_keeps_code_and_message() {
    let r = ErrorResponse::new("VALIDATION_ERROR".to_string(), "Listen port cannot be 0".to_string());
    assert_eq!(r.error, "VALIDATION_ERROR");
    assert_eq!(r.message, "Listen port cannot be 0");
}

#[test]
fn test_instance_query_parsing() {
    let q = InstanceQuery { status: Some("running".to_string()) };
    assert_eq!(q.status, Some("running".to_string()));
}

#[test]
fn test_instance_query_empty() {
    let q = InstanceQuery { status: None };
    assert!(q.status.is_none());
}

#[test]
fn test_import_config_request_creation() {
    let r = ImportConfigRequest { config: "version = \"1.0\"".to_string() };
    assert!(r.config.contains("1.0"));
}

#[test]
fn status_filter_is_case_insensitive() {
    assert!(status_matches_filter("running", InstanceStatus::Running));
    assert!(status_matches_filter("RUNNING", InstanceStatus::Running));
    assert!(status_matches_filter("StOpPeD", InstanceStatus::Stopped));
    assert!(!status_matches_filter("running", InstanceStatus::Stopped));
    assert!(!status_matches_filter("runnin", InstanceStatus::Running));
}

#[test]
fn listing_filter_keeps_matching_instances() {
    let mut a = make_instance("a");
    a.start();
    a.set_running();
    let b = make_instance("b");
    let filtered = filter_instances_by_status(vec![a, b], "Running");
    assert_eq!(filtered.len(), 1);
    assert_eq!(filtered[0].name, "a");
}

#[test]
fn test_web_ui_content_type_mapping() {
    assert_eq!(content_type_for("style.css"), "text/css");
    assert_eq!(content_type_for("app.js"), "application/javascript");
    assert_eq!(content_type_for("index.html"), "text/html");
    assert_eq!(content_type_for("logo.png"), "image/png");
    assert_eq!(content_type_for("photo.jpg"), "image/jpeg");
    assert_eq!(content_type_for("photo.jpeg"), "image/jpeg");
    assert_eq!(content_type_for("icon.svg"), "image/svg+xml");
    assert_eq!(content_type_for("data.json"), "application/json");
    assert_eq!(content_type_for("archive.bin"), "application/octet-stream");
}

#[test]
fn path_traversal_is_detected() {
    assert!(path_contains_dotdot("../etc/passwd"));
    assert!(path_contains_dotdot("a/../b"));
    assert!(!path_contains_dotdot("a/b/c.css"));
    assert!(!path_contains_dotdot("."));
    assert!(!path_contains_dotdot("a.b/c"));
}
