use void_proxy::addr::IpAddress;
use void_proxy::config::Config;
use void_proxy::config::Protocol;
use void_proxy::config::ProxyConfig;
use void_proxy::instance::InstanceStatus;
use void_proxy::instance::ProxyInstance;
use void_proxy::storage::PersistentData;
use void_proxy::storage::PersistentInstance;

fn make_instance(name: &str, listen_port: u16) -> ProxyInstance {
    ProxyInstance::new(
        name.to_string(),
        Config {
            proxy: ProxyConfig {
                listen_ip: IpAddress::V4(0x7F000001),
                listen_port,
                dst_ip: IpAddress::V4(0xC0A80164),
                dst_port: 80,
                protocol: Protocol::Tcp,
                connect_timeout_secs: 30,
                idle_timeout_secs: 300,
                log_level: "info".to_string(),
            },
            ip_filter: None,
        },
        false,
    )
}

#[test]
fn test_storage_manager_creation() {
    let data = PersistentData::new(1000);
    assert_eq!(data.instances.len(), 0);
    assert_eq!(data.version, "1.0");
    assert_eq!(data.created_at, 1000);
    assert_eq!(data.updated_at, 1000);
}

#[test]
fn test_storage_manager_load_empty() {
    let data = PersistentData::new(1000);
    let loaded = data.load_instances();
    assert_eq!(loaded.len(), 0);
}

#[test]
fn test_storage_manager_save_and_load() {
    let mut data = PersistentData::new(1000);
    let instance = make_instance("Test Instance", 8080);
    data.add_instance(&instance, 1001);
    let loaded_instances = data.load_instances();
    assert_eq!(loaded_instances.len(), 1);
    assert_eq!(loaded_instances[0].name, instance.name);
    assert_eq!(loaded_instances[0].id, instance.id);
}

#[test]
fn test_storage_manager_add_instance() {
    let mut data = PersistentData::new(1000);
    let instance = make_instance("Added", 8080);
    data.add_instance(&instance, 1002);
    assert_eq!(data.instances.len(), 1);
    assert_eq!(data.instances[0].name, "Added");
    assert_eq!(data.updated_at, 1002);
}

#[test]
fn test_storage_manager_update_instance() {
    let mut data = PersistentData::new(1000);
    let mut instance = make_instance("Original", 8080);
    data.add_instance(&instance, 1001);
    instance.name = "Renamed".to_string();
    data.update_instance(&instance, 1002);
    assert_eq!(data.instances.len(), 1);
    assert_eq!(data.instances[0].name, "Renamed");
    assert_eq!(data.updated_at, 1002);
}

#[test]
fn test_storage_manager_remove_instance() {
    let mut data = PersistentData::new(1000);
    let instance = make_instance("Removable", 8080);
    data.add_instance(&instance, 1001);
    let removed = data.remove_instance(instance.id, 1002);
    assert!(removed);
    assert_eq!(data.instances.len(), 0);
    assert_eq!(data.updated_at, 1002);

    let removed_again = data.remove_instance(instance.id, 1003);
    assert!(!removed_again);
    assert_eq!(data.updated_at, 1002);
}

#[test]
fn test_storage_manager_export_import() {
    let mut data = PersistentData::new(1000);
    data.add_instance(&make_instance("Instance 1", 8080), 1001);
    data.add_instance(&make_instance("Instance 2", 8081), 1002);

    let mut other = PersistentData::new(2000);
    let exported = PersistentData {
        instances: data.load_instances().iter().map(PersistentInstance::from_instance).collect(),
        version: data.version.clone(),
        created_at: data.created_at,
        updated_at: data.updated_at,
    };
    other.import_data(exported, 2001);
    let imported_instances = other.load_instances();
    assert_eq!(imported_instances.len(), 2);
    let names: Vec<String> = imported_instances.iter().map(|i| i.name.clone()).collect();
    assert!(names.contains(&"Instance 1".to_string()));
    assert!(names.contains(&"Instance 2".to_string()));
    assert_eq!(other.updated_at, 2001);
}

#[test]
fn test_persistent_instance_conversion() {
    let mut instance = make_instance("Converted", 8080);
    instance.metrics.add_bytes_sent(42);
    let record = PersistentInstance::from_instance(&instance);
    assert_eq!(record.id, instance.id);
    assert_eq!(record.name, instance.name);
    assert_eq!(record.status, InstanceStatus::Stopped);

    let revived = record.to_instance();
    assert_eq!(revived.id, instance.id);
    assert_eq!(revived.name, instance.name);
    assert_eq!(revived.created_at, instance.created_at);
    assert_eq!(revived.auto_start, instance.auto_start);
    assert_eq!(revived.metrics.bytes_sent, 0);
}
