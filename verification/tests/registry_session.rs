//! The device registry and the connection supervisor, including both
//! outcomes of the configuration-timeout race.

use meshtopo::device::DeviceConnectionStatus;
use meshtopo::device::FromRadioPacket;
use meshtopo::device::MeshDevice;
use meshtopo::device::MyNodeInfo;
use meshtopo::device::NodeInfo;
use meshtopo::device::PositionMetric;
use meshtopo::graph::MeshGraph;
use meshtopo::registry::DeviceRegistry;
use meshtopo::session::create_device_session;
use meshtopo::session::drop_all_device_connections;
use meshtopo::session::drop_device_connection;
use meshtopo::session::handle_configuration_timeout;
use meshtopo::session::process_decoded_packet;

#[test]
fn registry_insert_get_remove() {
    let mut registry = DeviceRegistry::new();
    assert_eq!(registry.len(), 0);

    registry.insert("ttyUSB0".to_string(), MeshDevice::new(1));
    registry.insert("tcp:10.0.0.2".to_string(), MeshDevice::new(2));
    assert_eq!(registry.len(), 2);
    assert_eq!(registry.get(&"ttyUSB0".to_string()).unwrap().config_id, 1);

    // Inserting under an existing key replaces the device.
    registry.insert("ttyUSB0".to_string(), MeshDevice::new(3));
    assert_eq!(registry.len(), 2);
    assert_eq!(registry.get(&"ttyUSB0".to_string()).unwrap().config_id, 3);

    registry.remove(&"ttyUSB0".to_string());
    assert_eq!(registry.len(), 1);
    assert!(registry.get(&"ttyUSB0".to_string()).is_none());

    // Removing an absent key is a no-op, not an error.
    registry.remove(&"ttyUSB0".to_string());
    assert_eq!(registry.len(), 1);
}

#[test]
fn create_session_starts_configuring() {
    let mut registry = DeviceRegistry::new();
    create_device_session(&mut registry, "ttyUSB0".to_string(), 42);
    let device = registry.get(&"ttyUSB0".to_string()).unwrap();
    assert_eq!(device.status, DeviceConnectionStatus::Configuring);
    assert_eq!(device.config_id, 42);
}

#[test]
fn drop_connection_removes_entry() {
    let mut registry = DeviceRegistry::new();
    create_device_session(&mut registry, "a".to_string(), 1);
    create_device_session(&mut registry, "b".to_string(), 2);
    drop_device_connection(&mut registry, &"a".to_string());
    assert_eq!(registry.len(), 1);
    assert!(registry.get(&"a".to_string()).is_none());
    assert!(registry.get(&"b".to_string()).is_some());

    drop_all_device_connections(&mut registry);
    assert_eq!(registry.len(), 0);
}

#[test]
fn config_complete_before_timeout_ends_connected() {
    let mut registry = DeviceRegistry::new();
    let key = "ttyUSB0".to_string();
    create_device_session(&mut registry, key.clone(), 42);

    // The configuration-complete packet arrives before the timer fires.
    let mut graph = MeshGraph::new();
    let at = registry.index_of_key(&key).unwrap();
    let effects = process_decoded_packet(
        &mut registry.entries[at].device,
        &mut graph,
        &key,
        FromRadioPacket::ConfigComplete,
        0,
    );
    let event = effects.configuration_status.expect("success event expected");
    assert!(event.successful);
    assert_eq!(event.device_key, key);
    assert_eq!(
        registry.get(&key).unwrap().status,
        DeviceConnectionStatus::Connected
    );

    // The timer then fires: the device is past `Configuring`, so nothing
    // happens and no failure event is emitted.
    let late = handle_configuration_timeout(&mut registry, &key);
    assert!(late.is_none());
    assert_eq!(
        registry.get(&key).unwrap().status,
        DeviceConnectionStatus::Connected
    );
}

#[test]
fn timeout_before_config_complete_ends_disconnected() {
    let mut registry = DeviceRegistry::new();
    let key = "ttyUSB0".to_string();
    create_device_session(&mut registry, key.clone(), 42);

    // The timer fires while the device is still `Configuring`: exactly one
    // failure event, and the entry is gone.
    let event = handle_configuration_timeout(&mut registry, &key)
        .expect("failure event expected");
    assert!(!event.successful);
    assert!(event.message.is_some());
    assert!(registry.get(&key).is_none());

    // A second firing finds nothing and emits nothing.
    let again = handle_configuration_timeout(&mut registry, &key);
    assert!(again.is_none());
}

#[test]
fn position_report_rebuilds_the_shared_graph() {
    let mut registry = DeviceRegistry::new();
    let key = "ttyUSB1".to_string();
    create_device_session(&mut registry, key.clone(), 8);
    let mut graph = MeshGraph::new();
    let at = registry.index_of_key(&key).unwrap();

    process_decoded_packet(
        &mut registry.entries[at].device,
        &mut graph,
        &key,
        FromRadioPacket::MyNodeInfo(MyNodeInfo { my_node_num: 2 }),
        0,
    );
    let effects = process_decoded_packet(
        &mut registry.entries[at].device,
        &mut graph,
        &key,
        FromRadioPacket::NodeInfo(NodeInfo {
            num: 2,
            long_name: "base".to_string(),
            snr: None,
            position: Some(PositionMetric { latitude: 5, longitude: 6, altitude: 7 }),
        }),
        1,
    );
    assert!(effects.device_updated);
    assert!(effects.edges_updated);
    assert_eq!(graph.graph.nodes.len(), 1);
    assert_eq!(graph.graph.nodes[0].num, 2);
}

#[test]
fn process_packet_reports_side_effects() {
    let mut registry = DeviceRegistry::new();
    let key = "tcp:10.0.0.9".to_string();
    create_device_session(&mut registry, key.clone(), 5);
    let mut graph = MeshGraph::new();

    let at = registry.index_of_key(&key).unwrap();
    let effects = process_decoded_packet(
        &mut registry.entries[at].device,
        &mut graph,
        &key,
        FromRadioPacket::Unknown,
        0,
    );
    assert!(!effects.device_updated);
    assert!(!effects.edges_updated);
    assert!(effects.configuration_status.is_none());
    assert!(effects.notification.is_none());
    assert!(!effects.rebooting);
}
