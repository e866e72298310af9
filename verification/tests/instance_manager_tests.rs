use void_proxy::addr::IpAddress;
use void_proxy::config::LogLevel;
use void_proxy::config::Protocol;
use void_proxy::instance::CreateInstanceRequest;
use void_proxy::instance::InstanceStatus;
use void_proxy::instance::UpdateInstanceRequest;
use void_proxy::instance_manager::InstanceService;
use void_proxy::instance_manager::StartOutcome;
use void_proxy::instance_manager::StopOutcome;

fn create_request(name: &str, listen_port: u16) -> CreateInstanceRequest {
    CreateInstanceRequest {
        name: name.to_string(),
        listen_ip: IpAddress::V4(0x7F000001),
        listen_port,
        dst_ip: IpAddress::V4(0xC0A80164),
        dst_port: 80,
        protocol: Protocol::Tcp,
        auto_start: false,
        allow_list: None,
        deny_list: None,
        connect_timeout_secs: 30,
        idle_timeout_secs: 300,
        log_level: LogLevel::Info,
    }
}

fn empty_update() -> UpdateInstanceRequest {
    UpdateInstanceRequest {
        name: None,
        listen_ip: None,
        listen_port: None,
        dst_ip: None,
        dst_port: None,
        protocol: None,
        auto_start: None,
        allow_list: None,
        deny_list: None,
        connect_timeout_secs: None,
        idle_timeout_secs: None,
        log_level: None,
    }
}

#[test]
fn test_instance_service_creation() {
    let service = InstanceService::new();
    let instances = service.get_instances();
    assert_eq!(instances.len(), 0);
}

#[test]
fn test_instance_service_create_instance() {
    let mut service = InstanceService::new();
    let instance = service.create_instance(create_request("Test Instance", 18080)).unwrap();
    assert_eq!(instance.name, "Test Instance");
    assert_eq!(instance.status, InstanceStatus::Stopped);
    let instances = service.get_instances();
    assert_eq!(instances.len(), 1);
}

#[test]
fn create_rejects_an_invalid_request() {
    let mut service = InstanceService::new();
    let result = service.create_instance(create_request("Bad", 0));
    assert!(result.is_err());
    assert_eq!(result.unwrap_err().message(), "Listen port cannot be 0");
    assert_eq!(service.get_instances().len(), 0);
}

#[test]
fn test_instance_service_get_instance() {
    let mut service = InstanceService::new();
    let instance = service.create_instance(create_request("Test Instance", 18080)).unwrap();
    let retrieved_instance = service.get_instance(instance.id);
    assert!(retrieved_instance.is_some());
    assert_eq!(retrieved_instance.unwrap().id, instance.id);
}

#[test]
fn test_instance_service_get_nonexistent_instance() {
    let service = InstanceService::new();
    let retrieved_instance = service.get_instance(12345);
    assert!(retrieved_instance.is_none());
}

#[test]
fn test_instance_service_delete_instance() {
    let mut service = InstanceService::new();
    let instance = service.create_instance(create_request("Test Instance", 18080)).unwrap();
    let deleted = service.delete_instance(instance.id);
    assert!(deleted);
    let instances = service.get_instances();
    assert_eq!(instances.len(), 0);
}

#[test]
fn test_instance_service_delete_nonexistent_instance() {
    let mut service = InstanceService::new();
    let deleted = service.delete_instance(12345);
    assert!(!deleted);
}

#[test]
fn test_instance_service_update_instance() {
    let mut service = InstanceService::new();
    let instance = service.create_instance(create_request("Test Instance", 18080)).unwrap();
    let mut update = empty_update();
    update.name = Some("Updated Instance".to_string());
    let updated_instance = service.update_instance(instance.id, update).unwrap();
    assert!(updated_instance.is_some());
    assert_eq!(updated_instance.unwrap().name, "Updated Instance");
}

#[test]
fn update_rejecting_patch_leaves_instance_unchanged() {
    let mut service = InstanceService::new();
    let instance = service.create_instance(create_request("Keep", 18080)).unwrap();
    let mut update = empty_update();
    update.listen_port = Some(0);
    let result = service.update_instance(instance.id, update);
    assert!(result.is_err());
    let kept = service.get_instance(instance.id).unwrap();
    assert_eq!(kept.config.proxy.listen_port, 18080);
    assert_eq!(kept.name, "Keep");
}

#[test]
fn test_instance_service_get_instance_stats() {
    let mut service = InstanceService::new();
    let instance = service.create_instance(create_request("Test Instance", 18080)).unwrap();
    let stats = service.get_instance_stats(100);
    assert_eq!(stats.len(), 1);
    assert_eq!(stats[0].id, instance.id);
    assert_eq!(stats[0].name, "Test Instance");
    assert!(!stats[0].is_running);
    assert_eq!(stats[0].bytes_sent, 0);
}

#[test]
fn test_instance_service_performance_metrics() {
    let service = InstanceService::new();
    let metrics = service.get_performance_metrics();
    assert_eq!(metrics.uptime_seconds, 0);
    assert_eq!(metrics.active_connections, 0);
}

#[test]
fn test_instance_service_create_auto_start_instance() {
    let mut service = InstanceService::new();
    let mut request = create_request("Auto Start Instance", 18080);
    request.auto_start = true;
    let instance = service.create_instance(request).unwrap();
    assert!(instance.auto_start);
    let instances = service.get_instances();
    assert_eq!(instances.len(), 1);
    assert_eq!(instances[0].name, "Auto Start Instance");
    let auto_ids = service.auto_start_ids();
    assert_eq!(auto_ids, vec![instance.id]);
}

#[test]
fn test_instance_service_multiple_instances() {
    let mut service = InstanceService::new();
    service.create_instance(create_request("Instance 1", 18080)).unwrap();
    service.create_instance(create_request("Instance 2", 18081)).unwrap();
    let instances = service.get_instances();
    assert_eq!(instances.len(), 2);
    let names: Vec<String> = instances.iter().map(|i| i.name.clone()).collect();
    assert!(names.contains(&"Instance 1".to_string()));
    assert!(names.contains(&"Instance 2".to_string()));
}

#[test]
fn start_walks_through_starting_to_running() {
    let mut service = InstanceService::new();
    let instance = service.create_instance(create_request("Walker", 18080)).unwrap();
    let outcome = service.start_instance(instance.id);
    let plan = match outcome {
        StartOutcome::Started(plan) => plan,
        _ => panic!("expected a start plan"),
    };
    assert!(plan.spawn_tcp);
    assert!(!plan.spawn_udp);
    assert_eq!(plan.config.proxy.listen_port, 18080);
    assert_eq!(service.get_instance(instance.id).unwrap().status, InstanceStatus::Starting);
    assert!(service.finish_start(instance.id));
    assert_eq!(service.get_instance(instance.id).unwrap().status, InstanceStatus::Running);
}

#[test]
fn start_twice_is_a_no_op_success() {
    let mut service = InstanceService::new();
    let instance = service.create_instance(create_request("Once", 18080)).unwrap();
    match service.start_instance(instance.id) {
        StartOutcome::Started(_) => {},
        _ => panic!("expected a start plan"),
    }
    service.finish_start(instance.id);
    match service.start_instance(instance.id) {
        StartOutcome::AlreadyActive => {},
        _ => panic!("expected the running instance to be left alone"),
    }
    assert_eq!(service.get_instance(instance.id).unwrap().status, InstanceStatus::Running);
}

#[test]
fn stop_on_a_non_running_instance_is_a_no_op_success() {
    let mut service = InstanceService::new();
    let instance = service.create_instance(create_request("Idle", 18080)).unwrap();
    assert_eq!(service.stop_instance(instance.id), StopOutcome::NotRunning);
    assert_eq!(service.get_instance(instance.id).unwrap().status, InstanceStatus::Stopped);
    assert_eq!(service.stop_instance(99999), StopOutcome::NotFound);
}

#[test]
fn stop_walks_through_stopping_to_stopped() {
    let mut service = InstanceService::new();
    let instance = service.create_instance(create_request("Stopper", 18080)).unwrap();
    match service.start_instance(instance.id) {
        StartOutcome::Started(_) => {},
        _ => panic!("expected a start plan"),
    }
    service.finish_start(instance.id);
    assert_eq!(service.stop_instance(instance.id), StopOutcome::Stopping);
    assert_eq!(service.get_instance(instance.id).unwrap().status, InstanceStatus::Stopping);
    assert!(service.finish_stop(instance.id));
    let stopped = service.get_instance(instance.id).unwrap();
    assert_eq!(stopped.status, InstanceStatus::Stopped);
    assert!(stopped.started_at.is_none());
}

#[test]
fn failed_start_lands_in_error_and_can_be_restarted() {
    let mut service = InstanceService::new();
    let instance = service.create_instance(create_request("Binder", 18080)).unwrap();
    match service.start_instance(instance.id) {
        StartOutcome::Started(_) => {},
        _ => panic!("expected a start plan"),
    }
    assert!(service.fail_start(instance.id));
    assert_eq!(service.get_instance(instance.id).unwrap().status, InstanceStatus::Error);
    match service.start_instance(instance.id) {
        StartOutcome::Started(_) => {},
        _ => panic!("expected the failed instance to be startable again"),
    }
    assert_eq!(service.get_instance(instance.id).unwrap().status, InstanceStatus::Starting);
}
