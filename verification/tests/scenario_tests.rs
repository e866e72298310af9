use void_proxy::addr::Endpoint;
use void_proxy::addr::IpAddress;
use void_proxy::config::LogLevel;
use void_proxy::config::Protocol;
use void_proxy::instance::CreateInstanceRequest;
use void_proxy::instance::InstanceStatus;
use void_proxy::instance_manager::InstanceService;
use void_proxy::instance_manager::StartOutcome;
use void_proxy::instance_manager::StopOutcome;
use void_proxy::session::UdpSessionManager;
use void_proxy::tcp_proxy::TcpProxy;

fn tcp_request(name: &str, listen_port: u16, dst_port: u16) -> CreateInstanceRequest {
    CreateInstanceRequest {
        name: name.to_string(),
        listen_ip: IpAddress::V4(0x7F000001),
        listen_port,
        dst_ip: IpAddress::V4(0x7F000001),
        dst_port,
        protocol: Protocol::Tcp,
        auto_start: false,
        allow_list: None,
        deny_list: None,
        connect_timeout_secs: 30,
        idle_timeout_secs: 300,
        log_level: LogLevel::Info,
    }
}

#[test]
fn creating_with_listen_port_zero_is_a_validation_error() {
    let mut service = InstanceService::new();
    let result = service.create_instance(tcp_request("Broken", 0, 18081));
    let err = result.unwrap_err();
    assert_eq!(err.message(), "Listen port cannot be 0");
}

#[test]
fn forwarder_binds_exactly_the_configured_listen_endpoint() {
    let mut service = InstanceService::new();
    let instance = service.create_instance(tcp_request("Echo", 18080, 18081)).unwrap();
    let plan = match service.start_instance(instance.id) {
        StartOutcome::Started(plan) => plan,
        _ => panic!("expected a start plan"),
    };
    let proxy = TcpProxy::new(plan.config, instance.id);
    assert_eq!(
        proxy.listen_endpoint(),
        Endpoint { ip: IpAddress::V4(0x7F000001), port: 18080 },
    );
    assert_eq!(
        proxy.destination_endpoint(),
        Endpoint { ip: IpAddress::V4(0x7F000001), port: 18081 },
    );
}

#[test]
fn allow_list_rejects_other_peers() {
    let mut request = tcp_request("Filtered", 18080, 18081);
    request.allow_list = Some(vec![IpAddress::V4(0x0A000001)]);
    let mut service = InstanceService::new();
    let instance = service.create_instance(request).unwrap();
    let plan = match service.start_instance(instance.id) {
        StartOutcome::Started(plan) => plan,
        _ => panic!("expected a start plan"),
    };
    let mut proxy = TcpProxy::new(plan.config, instance.id);
    assert!(!proxy.admit_peer(&IpAddress::V4(0x7F000001), 0));
    assert!(proxy.admit_peer(&IpAddress::V4(0x0A000001), 1));
}

#[test]
fn two_source_ports_make_two_sessions_and_the_reaper_clears_them() {
    let mut table = UdpSessionManager::new(300_000, 60_000);
    let client = IpAddress::V4(0x7F000001);
    let port_a = Endpoint { ip: client, port: 50001 };
    let port_b = Endpoint { ip: client, port: 50002 };
    let local = Endpoint { ip: IpAddress::V4(0), port: 60000 };

    // Three datagrams from two ephemeral source ports.
    assert!(table.get_or_create_session(port_a, local, 0));
    assert!(table.get_or_create_session(port_b, local, 10));
    assert!(!table.get_or_create_session(port_a, local, 20));
    assert_eq!(table.active_session_count(), 2);

    // After 301 seconds without activity, one reaper pass clears both.
    table.cleanup_expired_sessions(20 + 301_000);
    assert_eq!(table.active_session_count(), 0);
}

#[test]
fn stop_after_start_ends_in_stopped() {
    let mut service = InstanceService::new();
    let instance = service.create_instance(tcp_request("Idle", 18080, 18081)).unwrap();
    match service.start_instance(instance.id) {
        StartOutcome::Started(_) => {},
        _ => panic!("expected a start plan"),
    }
    assert!(service.finish_start(instance.id));
    assert_eq!(service.stop_instance(instance.id), StopOutcome::Stopping);
    assert!(service.finish_stop(instance.id));
    assert_eq!(service.get_instance(instance.id).unwrap().status, InstanceStatus::Stopped);
}

#[test]
fn import_replaces_the_registry_after_stopping_the_prior_instance() {
    let mut service = InstanceService::new();
    let prior = service.create_instance(tcp_request("Prior", 18080, 18081)).unwrap();
    match service.start_instance(prior.id) {
        StartOutcome::Started(_) => {},
        _ => panic!("expected a start plan"),
    }
    service.finish_start(prior.id);

    // The import flow first stops everything that runs.
    for instance in service.get_instances() {
        if service.stop_instance(instance.id) == StopOutcome::Stopping {
            service.finish_stop(instance.id);
        }
    }
    assert_eq!(service.get_instance(prior.id).unwrap().status, InstanceStatus::Stopped);

    // Then the imported instances replace the registry wholesale.
    let mut donor = InstanceService::new();
    let one = donor.create_instance(tcp_request("Imported 1", 18090, 18091)).unwrap();
    let two = donor.create_instance(tcp_request("Imported 2", 18092, 18093)).unwrap();
    service.import_instances(donor.get_instances());

    let after = service.get_instances();
    assert_eq!(after.len(), 2);
    assert!(service.get_instance(prior.id).is_none());
    assert!(service.get_instance(one.id).is_some());
    assert!(service.get_instance(two.id).is_some());
}
