use void_proxy::addr::IpAddress;
use void_proxy::config::Config;
use void_proxy::config::IpFilterConfig;
use void_proxy::config::Protocol;
use void_proxy::config::ProxyConfig;
use void_proxy::config::ValidationError;

fn base_config() -> Config {
    Config {
        proxy: ProxyConfig {
            listen_ip: IpAddress::V4(0x7F000001),
            listen_port: 8080,
            dst_ip: IpAddress::V4(0x7F000001),
            dst_port: 8081,
            protocol: Protocol::Tcp,
            connect_timeout_secs: 30,
            idle_timeout_secs: 300,
            log_level: "info".to_string(),
        },
        ip_filter: None,
    }
}

#[test]
fn test_config_creation() {
    let config = base_config();
    assert_eq!(config.proxy.listen_port, 8080);
    assert_eq!(config.proxy.dst_port, 8081);
    assert_eq!(config.proxy.protocol, Protocol::Tcp);
    assert_eq!(config.proxy.connect_timeout_secs, 30);
    assert_eq!(config.proxy.idle_timeout_secs, 300);
    assert_eq!(config.proxy.log_level, "info");
}

#[test]
fn test_config_validation() {
    let config = base_config();
    let result = config.validate();
    assert!(result.is_ok());
}

#[test]
fn test_config_with_timeouts() {
    let mut config = base_config();
    config.proxy.connect_timeout_secs = 10;
    config.proxy.idle_timeout_secs = 60;
    config.proxy.log_level = "debug".to_string();
    assert_eq!(config.proxy.connect_timeout_secs, 10);
    assert_eq!(config.proxy.idle_timeout_secs, 60);
    assert_eq!(config.proxy.log_level, "debug");
}

#[test]
fn test_config_log_levels() {
    let log_levels = vec!["error", "warn", "info", "debug", "trace"];
    for level in log_levels {
        let mut config = base_config();
        config.proxy.log_level = level.to_string();
        assert_eq!(config.proxy.log_level, level);
        let result = config.validate();
        assert!(result.is_ok(), "Log level {} should be valid", level);
    }
}

#[test]
fn test_config_timeout_bounds() {
    let mut config = base_config();
    config.proxy.connect_timeout_secs = 1;
    config.proxy.idle_timeout_secs = 3600;
    assert_eq!(config.proxy.connect_timeout_secs, 1);
    assert_eq!(config.proxy.idle_timeout_secs, 3600);
    assert!(config.validate().is_ok());
}

#[test]
fn listen_port_zero_is_rejected_with_message() {
    let mut config = base_config();
    config.proxy.listen_port = 0;
    let err = config.validate().unwrap_err();
    assert_eq!(err, ValidationError::ListenPortZero);
    assert_eq!(err.message(), "Listen port cannot be 0");
}

#[test]
fn each_validation_rule_names_its_error() {
    let mut c = base_config();
    c.proxy.dst_port = 0;
    assert_eq!(c.validate().unwrap_err(), ValidationError::DestinationPortZero);

    let mut c = base_config();
    c.proxy.connect_timeout_secs = 0;
    assert_eq!(c.validate().unwrap_err(), ValidationError::ConnectTimeoutZero);

    let mut c = base_config();
    c.proxy.idle_timeout_secs = 0;
    assert_eq!(c.validate().unwrap_err(), ValidationError::IdleTimeoutZero);

    let mut c = base_config();
    c.proxy.connect_timeout_secs = 301;
    assert_eq!(c.validate().unwrap_err(), ValidationError::ConnectTimeoutTooLarge);

    let mut c = base_config();
    c.proxy.idle_timeout_secs = 3601;
    assert_eq!(c.validate().unwrap_err(), ValidationError::IdleTimeoutTooLarge);

    let mut c = base_config();
    c.proxy.log_level = "chatty".to_string();
    assert_eq!(c.validate().unwrap_err(), ValidationError::InvalidLogLevel);

    let mut c = base_config();
    c.proxy.dst_port = c.proxy.listen_port;
    assert_eq!(c.validate().unwrap_err(), ValidationError::SameListenAndDestination);

    let mut c = base_config();
    c.ip_filter = Some(IpFilterConfig { allow_list: Some(vec![]), deny_list: None });
    assert_eq!(c.validate().unwrap_err(), ValidationError::EmptyAllowList);

    let ip = IpAddress::V4(0x0A000001);
    let mut c = base_config();
    c.ip_filter = Some(IpFilterConfig { allow_list: Some(vec![ip, ip]), deny_list: None });
    assert_eq!(c.validate().unwrap_err(), ValidationError::DuplicateAllowIp);

    let mut c = base_config();
    c.ip_filter = Some(IpFilterConfig { allow_list: None, deny_list: Some(vec![]) });
    assert_eq!(c.validate().unwrap_err(), ValidationError::EmptyDenyList);

    let mut c = base_config();
    c.ip_filter = Some(IpFilterConfig { allow_list: None, deny_list: Some(vec![ip, ip]) });
    assert_eq!(c.validate().unwrap_err(), ValidationError::DuplicateDenyIp);

    let mut c = base_config();
    c.ip_filter = Some(IpFilterConfig { allow_list: Some(vec![ip]), deny_list: Some(vec![ip]) });
    assert_eq!(c.validate().unwrap_err(), ValidationError::BothAllowAndDeny);
}

#[test]
fn filter_admits_exactly_the_allow_list() {
    let a1 = IpAddress::V4(0x0A000001);
    let a2 = IpAddress::V4(0x0A000002);
    let outsider = IpAddress::V4(0x7F000001);
    let mut c = base_config();
    c.ip_filter = Some(IpFilterConfig { allow_list: Some(vec![a1, a2]), deny_list: None });
    assert!(c.validate().is_ok());
    assert!(c.is_ip_allowed(&a1));
    assert!(c.is_ip_allowed(&a2));
    assert!(!c.is_ip_allowed(&outsider));
}

#[test]
fn filter_rejects_exactly_the_deny_list() {
    let d1 = IpAddress::V4(0x0A000001);
    let other = IpAddress::V4(0x7F000001);
    let mut c = base_config();
    c.ip_filter = Some(IpFilterConfig { allow_list: None, deny_list: Some(vec![d1]) });
    assert!(c.validate().is_ok());
    assert!(!c.is_ip_allowed(&d1));
    assert!(c.is_ip_allowed(&other));
}

#[test]
fn no_filter_admits_everyone() {
    let c = base_config();
    assert!(c.is_ip_allowed(&IpAddress::V4(1)));
    assert!(c.is_ip_allowed(&IpAddress::V6(1)));
}

#[test]
fn loopback_detection() {
    assert!(IpAddress::V4(0x7F000001).is_loopback());
    assert!(IpAddress::V4(0x7F123456).is_loopback());
    assert!(!IpAddress::V4(0x0A000001).is_loopback());
    assert!(IpAddress::V6(1).is_loopback());
    assert!(!IpAddress::V6(2).is_loopback());
}
