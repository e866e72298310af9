use void_proxy::addr::IpAddress;
use void_proxy::config::Config;
use void_proxy::config::IpFilterConfig;
use void_proxy::config::Protocol;
use void_proxy::config::ProxyConfig;
use void_proxy::ip_cache::IpCache;

fn open_config() -> Config {
    Config {
        proxy: ProxyConfig {
            listen_ip: IpAddress::V4(0x7F000001),
            listen_port: 8080,
            dst_ip: IpAddress::V4(0x7F000001),
            dst_port: 8081,
            protocol: Protocol::Tcp,
            connect_timeout_secs: 30,
            idle_timeout_secs: 300,
            log_level: "info".to_string(),
        },
        ip_filter: None,
    }
}

fn denying_config(ip: IpAddress) -> Config {
    let mut c = open_config();
    c.ip_filter = Some(IpFilterConfig { allow_list: None, deny_list: Some(vec![ip]) });
    c
}

#[test]
fn test_ip_cache_functionality() {
    let mut cache = IpCache::new(100, 300_000);
    let ip = IpAddress::V4(0x7F000001);

    // First check takes the decision from an open configuration.
    let result1 = cache.check_ip(&ip, &open_config(), 1_000);
    assert!(result1);

    // Second check within the time-to-live reuses the cached decision even
    // though the configuration would now deny the address.
    let result2 = cache.check_ip(&ip, &denying_config(ip), 2_000);
    assert!(result2);
}

#[test]
fn test_ip_cache_ttl() {
    let mut cache = IpCache::new(10, 50);
    let ip = IpAddress::V4(0x7F000001);

    let result1 = cache.check_ip(&ip, &open_config(), 0);
    assert!(result1);

    // Exactly at the time-to-live the entry is still fresh.
    let still_cached = cache.check_ip(&ip, &denying_config(ip), 50);
    assert!(still_cached);

    // One past the time-to-live the entry is stale: the decision is taken
    // anew, now from the denying configuration.
    let result2 = cache.check_ip(&ip, &denying_config(ip), 51);
    assert!(!result2);
}

#[test]
fn zero_capacity_falls_back_to_one() {
    let mut cache = IpCache::new(0, 1_000);
    let a = IpAddress::V4(1);
    assert!(cache.check_ip(&a, &open_config(), 0));
}
