use void_proxy::addr::Endpoint;
use void_proxy::addr::IpAddress;
use void_proxy::config::Config;
use void_proxy::config::IpFilterConfig;
use void_proxy::config::Protocol;
use void_proxy::config::ProxyConfig;
use void_proxy::udp_proxy::UdpProxy;
use void_proxy::udp_proxy::response_to_client;
use void_proxy::session::UdpSession;
use void_proxy::session::UdpSessionManager;

fn udp_config() -> Config {
    Config {
        proxy: ProxyConfig {
            listen_ip: IpAddress::V4(0x7F000001),
            listen_port: 15353,
            dst_ip: IpAddress::V4(0x7F000001),
            dst_port: 15354,
            protocol: Protocol::Udp,
            connect_timeout_secs: 30,
            idle_timeout_secs: 300,
            log_level: "info".to_string(),
        },
        ip_filter: None,
    }
}

fn endpoint(ip: u32, port: u16) -> Endpoint {
    Endpoint { ip: IpAddress::V4(ip), port }
}

#[test]
fn test_udp_proxy_creation() {
    let proxy = UdpProxy::new(udp_config(), 7);
    assert_eq!(proxy.instance_id, 7);
    assert_eq!(proxy.listen_endpoint(), endpoint(0x7F000001, 15353));
    assert_eq!(proxy.destination_endpoint(), endpoint(0x7F000001, 15354));
}

#[test]
fn test_udp_proxy_session_metrics() {
    let proxy = UdpProxy::new(udp_config(), 7);
    let metrics = proxy.get_session_metrics();
    assert_eq!(metrics.session_timeout_seconds, 300);
    assert_eq!(metrics.cleanup_interval_seconds, 60);
    assert_eq!(metrics.active_sessions, 0);
}

#[test]
fn test_udp_proxy_with_ip_filter() {
    let allowed = IpAddress::V4(0x0A000001);
    let blocked = IpAddress::V4(0x7F000001);
    let mut config = udp_config();
    config.ip_filter = Some(IpFilterConfig { allow_list: Some(vec![allowed]), deny_list: None });
    let mut proxy = UdpProxy::new(config, 7);
    assert!(proxy.admit_peer(&allowed, 0));
    assert!(!proxy.admit_peer(&blocked, 0));
}

#[test]
fn test_udp_proxy_buffer_pool() {
    let mut proxy = UdpProxy::new(udp_config(), 7);
    let buffer = proxy.buffer_pool.acquire(65535);
    assert!(buffer.capacity() >= 65535);
    assert_eq!(buffer.len(), 0);
}

#[test]
fn test_udp_proxy_session_manager() {
    let mut proxy = UdpProxy::new(udp_config(), 7);
    let peer = endpoint(0x0A000001, 40000);
    let local = endpoint(0, 50000);
    let created = proxy.session_manager.get_or_create_session(peer, local, 1_000);
    assert!(created);
    assert_eq!(proxy.session_manager.active_session_count(), 1);
}

#[test]
fn test_udp_proxy_timeout_values() {
    let proxy = UdpProxy::new(udp_config(), 7);
    assert_eq!(proxy.session_manager.session_timeout(), 300_000);
    assert_eq!(proxy.session_manager.cleanup_interval(), 60_000);
}

#[test]
fn test_udp_proxy_ip_cache() {
    let mut proxy = UdpProxy::new(udp_config(), 7);
    let peer = IpAddress::V4(0x0A000001);
    assert!(proxy.admit_peer(&peer, 0));
    assert!(proxy.admit_peer(&peer, 1));
}

#[test]
fn datagrams_are_forwarded_byte_exact() {
    let proxy = UdpProxy::new(udp_config(), 7);
    let payload = vec![1u8, 2, 3, 4, 5];
    let (sent, dst) = proxy.datagram_to_destination(payload.clone());
    assert_eq!(sent, payload);
    assert_eq!(dst, endpoint(0x7F000001, 15354));

    let peer = endpoint(0x0A000001, 40000);
    let answer = vec![9u8, 8, 7];
    let (back, target) = response_to_client(answer.clone(), peer);
    assert_eq!(back, answer);
    assert_eq!(target, peer);
}

#[test]
fn session_activity_is_monotonic() {
    let mut session = UdpSession::new(endpoint(0, 1), 100);
    session.update_activity(50);
    assert_eq!(session.last_activity, 100);
    session.update_activity(150);
    assert_eq!(session.last_activity, 150);
}

#[test]
fn session_expiry_is_strict() {
    let session = UdpSession::new(endpoint(0, 1), 100);
    assert!(!session.is_expired(100 + 300, 300));
    assert!(session.is_expired(100 + 301, 300));
    assert!(!session.is_expired(50, 300));
}

#[test]
fn remove_session_is_idempotent() {
    let mut table = UdpSessionManager::new(300_000, 60_000);
    let peer = endpoint(0x0A000001, 40000);
    table.get_or_create_session(peer, endpoint(0, 5000), 0);
    assert_eq!(table.active_session_count(), 1);
    table.remove_session(&peer);
    assert_eq!(table.active_session_count(), 0);
    table.remove_session(&peer);
    assert_eq!(table.active_session_count(), 0);
}

#[test]
fn one_session_per_client_address() {
    let mut table = UdpSessionManager::new(300_000, 60_000);
    let peer = endpoint(0x0A000001, 40000);
    let created_first = table.get_or_create_session(peer, endpoint(0, 5000), 0);
    let created_second = table.get_or_create_session(peer, endpoint(0, 5001), 10);
    assert!(created_first);
    assert!(!created_second);
    assert_eq!(table.active_session_count(), 1);
}
