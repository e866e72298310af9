use void_proxy::metrics::InstanceMetrics;
use void_proxy::metrics::MetricsManager;
use void_proxy::metrics::tcp_session_metrics;

#[test]
fn test_instance_metrics() {
    let mut metrics = InstanceMetrics::new();

    assert_eq!(metrics.bytes_sent, 0);
    assert_eq!(metrics.bytes_received, 0);

    metrics.add_bytes_sent(1024);
    metrics.add_bytes_received(2048);

    assert_eq!(metrics.bytes_sent, 1024);
    assert_eq!(metrics.bytes_received, 2048);
}

#[test]
fn test_metrics_overflow_protection() {
    let mut metrics = InstanceMetrics::new();

    metrics.bytes_sent = u64::MAX - 1000;
    metrics.add_bytes_sent(500);
    assert_eq!(metrics.bytes_sent, u64::MAX - 500);

    metrics.add_bytes_sent(1000);
    assert_eq!(metrics.bytes_sent, u64::MAX);
}

#[test]
fn connection_counters_saturate() {
    let mut metrics = InstanceMetrics::new();
    metrics.connection_opened();
    metrics.connection_opened();
    assert_eq!(metrics.connections_active, 2);
    assert_eq!(metrics.connections_total, 2);
    metrics.connection_closed();
    assert_eq!(metrics.connections_active, 1);
    metrics.connection_closed();
    metrics.connection_closed();
    assert_eq!(metrics.connections_active, 0);
    assert_eq!(metrics.connections_total, 2);
}

#[test]
fn stats_report_exact_rates() {
    let mut metrics = InstanceMetrics::new();
    metrics.add_bytes_sent(100);
    metrics.add_bytes_received(50);
    metrics.add_error();
    metrics.connection_opened();
    metrics.connection_opened();

    let stats = metrics.get_stats(Some(0), 10);
    assert_eq!(stats.bytes_sent, 100);
    assert_eq!(stats.bytes_received, 50);
    assert_eq!(stats.bytes_sent_per_sec, 10);
    assert_eq!(stats.bytes_received_per_sec, 5);
    assert_eq!(stats.errors, 1);
    assert_eq!(stats.connections_total, 2);
    assert_eq!(stats.error_rate_permille, 500);
}

#[test]
fn errors_show_before_any_connection_is_recorded() {
    let mut metrics = InstanceMetrics::new();
    metrics.add_error();
    metrics.add_error();
    let stats = metrics.get_stats(None, 10);
    assert_eq!(stats.connections_total, 0);
    assert_eq!(stats.error_rate_permille, 2000);
}

#[test]
fn stats_without_start_time_have_zero_rates() {
    let mut metrics = InstanceMetrics::new();
    metrics.add_bytes_sent(100);
    let stats = metrics.get_stats(None, 10);
    assert_eq!(stats.bytes_sent_per_sec, 0);
    assert_eq!(stats.bytes_received_per_sec, 0);
    assert_eq!(stats.error_rate_permille, 0);
}

#[test]
fn system_snapshot_converts_memory_readings() {
    let mut manager = MetricsManager::new(7);
    manager.register_instance(1);
    manager.refresh_system_metrics(42, Some((4096, 1024)), 99);
    let m = manager.get_system_metrics();
    assert_eq!(m.uptime_seconds, 42);
    assert_eq!(m.total_memory_mb, 4);
    assert_eq!(m.used_memory_mb, 3);
    assert_eq!(m.cpu_usage_percent, 0);
    assert_eq!(m.active_connections, 0);
    assert_eq!(m.last_updated, 99);
}

#[test]
fn system_snapshot_without_memory_reading_is_zero() {
    let mut manager = MetricsManager::new(0);
    manager.refresh_system_metrics(1, None, 2);
    let m = manager.get_system_metrics();
    assert_eq!(m.total_memory_mb, 0);
    assert_eq!(m.used_memory_mb, 0);
}

#[test]
fn tcp_session_metrics_use_standard_bounds() {
    let m = tcp_session_metrics(3);
    assert_eq!(m.session_timeout_seconds, 300);
    assert_eq!(m.cleanup_interval_seconds, 60);
    assert_eq!(m.active_sessions, 3);
}
