//! The per-kind handler functions, called directly as the dispatcher does.

use meshtopo::device::ChannelConfig;
use meshtopo::device::DeviceConnectionStatus;
use meshtopo::device::DeviceUpdateMetadata;
use meshtopo::device::MeshDevice;
use meshtopo::device::ModuleConfig;
use meshtopo::device::MyNodeInfo;
use meshtopo::device::NodeInfo;
use meshtopo::device::PositionMetric;
use meshtopo::device::RadioConfig;
use meshtopo::handlers::handle_channel_packet;
use meshtopo::handlers::handle_config_complete_packet;
use meshtopo::handlers::handle_config_packet;
use meshtopo::handlers::handle_module_config_packet;
use meshtopo::handlers::handle_my_node_info_packet;
use meshtopo::handlers::handle_node_info_packet;

#[test]
fn handlers_set_their_summary_flags() {
    let mut device = MeshDevice::new(3);
    let mut summary = DeviceUpdateMetadata::new();

    handle_channel_packet(
        &mut device,
        &mut summary,
        ChannelConfig { index: 0, role: 1 },
        55,
    )
    .unwrap();
    assert!(summary.device_updated);
    assert_eq!(device.channels.len(), 1);
    assert_eq!(device.channels[0].last_interaction, 55);

    let mut summary = DeviceUpdateMetadata::new();
    handle_config_packet(&mut device, &mut summary, RadioConfig { section: 1, payload: 2 })
        .unwrap();
    assert!(summary.device_updated);

    let mut summary = DeviceUpdateMetadata::new();
    handle_module_config_packet(
        &mut device,
        &mut summary,
        ModuleConfig { section: 4, payload: 5 },
    )
    .unwrap();
    assert!(summary.device_updated);

    let mut summary = DeviceUpdateMetadata::new();
    handle_my_node_info_packet(&mut device, &mut summary, MyNodeInfo { my_node_num: 12 })
        .unwrap();
    assert!(summary.device_updated);
    assert_eq!(device.my_node_info, Some(MyNodeInfo { my_node_num: 12 }));

    let mut summary = DeviceUpdateMetadata::new();
    handle_node_info_packet(
        &mut device,
        &mut summary,
        NodeInfo {
            num: 12,
            long_name: "self".to_string(),
            snr: None,
            position: Some(PositionMetric { latitude: 5, longitude: 6, altitude: 7 }),
        },
    )
    .unwrap();
    assert!(summary.device_updated);
    assert!(summary.regenerate_graph);
}

#[test]
fn config_complete_reports_configuration_success() {
    let mut device = MeshDevice::new(3);
    device.set_status(DeviceConnectionStatus::Configuring);
    let mut summary = DeviceUpdateMetadata::new();
    handle_config_complete_packet(&mut device, &mut summary).unwrap();
    assert!(summary.device_updated);
    assert!(summary.configuration_success);
    assert_eq!(device.status, DeviceConnectionStatus::Configured);
}
