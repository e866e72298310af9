use void_proxy::addr::IpAddress;
use void_proxy::config::Config;
use void_proxy::config::LogLevel;
use void_proxy::config::Protocol;
use void_proxy::config::ProxyConfig;
use void_proxy::instance::CreateInstanceRequest;
use void_proxy::instance::CreateInstanceRequestStrings;
use void_proxy::instance::InstanceStatus;
use void_proxy::instance::ProxyInstance;
use void_proxy::instance::UpdateInstanceRequest;

fn test_config() -> Config {
    Config {
        proxy: ProxyConfig {
            listen_ip: IpAddress::V4(0x7F000001),
            listen_port: 8080,
            dst_ip: IpAddress::V4(0xC0A80164),
            dst_port: 80,
            protocol: Protocol::Tcp,
            connect_timeout_secs: 30,
            idle_timeout_secs: 300,
            log_level: "info".to_string(),
        },
        ip_filter: None,
    }
}

fn strings_request() -> CreateInstanceRequestStrings {
    CreateInstanceRequestStrings {
        name: "Test Instance".to_string(),
        listen_ip: "127.0.0.1".to_string(),
        listen_port: 8080,
        dst_ip: "192.168.1.100".to_string(),
        dst_port: 80,
        protocol: Protocol::Tcp,
        auto_start: false,
        allow_list: None,
        deny_list: None,
        connect_timeout_secs: 30,
        idle_timeout_secs: 300,
        log_level: "info".to_string(),
    }
}

#[test]
fn test_proxy_instance_creation() {
    let instance = ProxyInstance::new("Test Instance".to_string(), test_config(), false);
    assert_eq!(instance.name, "Test Instance");
    assert_eq!(instance.status, InstanceStatus::Stopped);
    assert!(!instance.auto_start);
    assert!(instance.started_at.is_none());
}

#[test]
fn test_proxy_instance_auto_start() {
    let instance = ProxyInstance::new("Auto Start Instance".to_string(), test_config(), true);
    assert!(instance.auto_start);
    assert_eq!(instance.status, InstanceStatus::Stopped);
}

#[test]
fn test_proxy_instance_start() {
    let mut instance = ProxyInstance::new("Test Instance".to_string(), test_config(), false);
    instance.start();
    assert_eq!(instance.status, InstanceStatus::Starting);
    assert!(instance.started_at.is_some());
}

#[test]
fn test_proxy_instance_set_running() {
    let mut instance = ProxyInstance::new("Test Instance".to_string(), test_config(), false);
    instance.start();
    instance.set_running();
    assert_eq!(instance.status, InstanceStatus::Running);
}

#[test]
fn test_proxy_instance_stop() {
    let mut instance = ProxyInstance::new("Test Instance".to_string(), test_config(), false);
    instance.start();
    instance.set_running();
    instance.stop();
    assert_eq!(instance.status, InstanceStatus::Stopping);
    assert!(instance.started_at.is_none());
}

#[test]
fn test_proxy_instance_set_stopped() {
    let mut instance = ProxyInstance::new("Test Instance".to_string(), test_config(), false);
    instance.start();
    instance.set_running();
    instance.stop();
    instance.set_stopped();
    assert_eq!(instance.status, InstanceStatus::Stopped);
}

#[test]
fn test_proxy_instance_unique_id() {
    let instance1 = ProxyInstance::new("One".to_string(), test_config(), false);
    let instance2 = ProxyInstance::new("Two".to_string(), test_config(), false);
    assert_ne!(instance1.id, instance2.id);
}

#[test]
fn test_proxy_instance_clone() {
    let instance = ProxyInstance::new("Test Instance".to_string(), test_config(), false);
    let cloned_instance = instance.duplicate();
    assert_eq!(instance.id, cloned_instance.id);
    assert_eq!(instance.name, cloned_instance.name);
    assert_eq!(instance.status, cloned_instance.status);
}

#[test]
fn test_create_instance_request_strings_valid() {
    let request = strings_request();
    let result = request.to_typed();
    assert!(result.is_ok());
    let typed = result.unwrap();
    assert_eq!(typed.name, "Test Instance");
    assert_eq!(typed.listen_ip, IpAddress::V4(0x7F000001));
    assert_eq!(typed.dst_ip, IpAddress::V4(0xC0A80164));
}

#[test]
fn test_create_instance_request_strings_invalid_ip() {
    let mut request = strings_request();
    request.listen_ip = "not-an-ip".to_string();
    let result = request.to_typed();
    assert!(result.is_err());
    assert_eq!(result.unwrap_err(), "Invalid listen IP");
}

#[test]
fn to_typed_reports_each_failing_field() {
    let mut request = strings_request();
    request.dst_ip = "999.0.0.1".to_string();
    assert_eq!(request.to_typed().unwrap_err(), "Invalid destination IP");

    let mut request = strings_request();
    request.allow_list = Some(vec!["10.0.0.1".to_string(), "bogus".to_string()]);
    assert_eq!(request.to_typed().unwrap_err(), "Invalid allow list");

    let mut request = strings_request();
    request.deny_list = Some(vec!["".to_string()]);
    assert_eq!(request.to_typed().unwrap_err(), "Invalid deny list");

    let mut request = strings_request();
    request.log_level = "verbose".to_string();
    assert_eq!(request.to_typed().unwrap_err(), "Invalid log level");
}

#[test]
fn to_typed_reads_log_level_case_insensitively() {
    let mut request = strings_request();
    request.log_level = "DeBuG".to_string();
    let typed = request.to_typed().unwrap();
    assert_eq!(typed.log_level, LogLevel::Debug);
}

#[test]
fn test_create_instance_request_to_config() {
    let request = CreateInstanceRequest {
        name: "Test Instance".to_string(),
        listen_ip: IpAddress::V4(0x7F000001),
        listen_port: 8080,
        dst_ip: IpAddress::V4(0xC0A80164),
        dst_port: 80,
        protocol: Protocol::Tcp,
        auto_start: false,
        allow_list: Some(vec![IpAddress::V4(0x0A000001)]),
        deny_list: None,
        connect_timeout_secs: 30,
        idle_timeout_secs: 300,
        log_level: LogLevel::Info,
    };
    let config = request.to_config();
    assert_eq!(config.proxy.listen_ip, IpAddress::V4(0x7F000001));
    assert_eq!(config.proxy.listen_port, 8080);
    assert_eq!(config.proxy.dst_port, 80);
    assert_eq!(config.proxy.protocol, Protocol::Tcp);
    assert_eq!(config.proxy.log_level, "info");
    assert!(config.ip_filter.is_some());
}

#[test]
fn test_update_instance_request_partial() {
    let request = UpdateInstanceRequest {
        name: Some("Updated Name".to_string()),
        listen_ip: None,
        listen_port: None,
        dst_ip: None,
        dst_port: None,
        protocol: None,
        auto_start: None,
        allow_list: None,
        deny_list: None,
        connect_timeout_secs: None,
        idle_timeout_secs: None,
        log_level: None,
    };
    assert_eq!(request.name, Some("Updated Name".to_string()));
    assert!(request.listen_ip.is_none());
    assert!(request.listen_port.is_none());
}

#[test]
fn update_request_applies_only_given_fields() {
    let mut instance = ProxyInstance::new("Before".to_string(), test_config(), false);
    let request = UpdateInstanceRequest {
        name: Some("After".to_string()),
        listen_ip: None,
        listen_port: Some(9090),
        dst_ip: None,
        dst_port: None,
        protocol: None,
        auto_start: Some(true),
        allow_list: None,
        deny_list: None,
        connect_timeout_secs: None,
        idle_timeout_secs: None,
        log_level: Some(LogLevel::Trace),
    };
    request.apply_to(&mut instance);
    assert_eq!(instance.name, "After");
    assert_eq!(instance.config.proxy.listen_port, 9090);
    assert_eq!(instance.config.proxy.dst_port, 80);
    assert!(instance.auto_start);
    assert_eq!(instance.config.proxy.log_level, "trace");
    assert!(instance.config.ip_filter.is_none());
}

#[test]
fn test_instance_status_values() {
    assert_ne!(InstanceStatus::Stopped, InstanceStatus::Running);
    assert_ne!(InstanceStatus::Running, InstanceStatus::Error);
    assert_ne!(InstanceStatus::Error, InstanceStatus::Starting);
    assert_ne!(InstanceStatus::Starting, InstanceStatus::Stopping);
}

#[test]
fn test_proxy_instance_metrics() {
    let mut instance = ProxyInstance::new("Test Instance".to_string(), test_config(), false);
    instance.metrics.add_bytes_sent(10);
    instance.metrics.add_bytes_received(20);
    assert_eq!(instance.metrics.bytes_sent, 10);
    assert_eq!(instance.metrics.bytes_received, 20);
}
