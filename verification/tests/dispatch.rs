//! The packet dispatcher: per-kind effects, forward compatibility, and
//! replay determinism.

use meshtopo::device::ChannelConfig;
use meshtopo::device::DeviceConnectionStatus;
use meshtopo::device::FromRadioPacket;
use meshtopo::device::MeshDevice;
use meshtopo::device::ModuleConfig;
use meshtopo::device::MyNodeInfo;
use meshtopo::device::NodeInfo;
use meshtopo::device::PositionMetric;
use meshtopo::device::RadioConfig;

fn node_info(num: u32, name: &str, snr: Option<i32>, pos: Option<PositionMetric>) -> NodeInfo {
    NodeInfo { num, long_name: name.to_string(), snr, position: pos }
}

#[test]
fn channel_packet_appends_and_replaces() {
    let mut device = MeshDevice::new(7);
    let summary = device
        .handle_packet_from_radio(
            FromRadioPacket::Channel(ChannelConfig { index: 0, role: 1 }),
            100,
        )
        .unwrap();
    assert!(summary.device_updated);
    assert!(!summary.regenerate_graph);
    assert!(!summary.configuration_success);
    assert_eq!(device.channels.len(), 1);
    assert_eq!(device.channels[0].last_interaction, 100);

    device
        .handle_packet_from_radio(
            FromRadioPacket::Channel(ChannelConfig { index: 1, role: 2 }),
            150,
        )
        .unwrap();
    assert_eq!(device.channels.len(), 2);

    // Same channel index: the entry is replaced, not duplicated.
    device
        .handle_packet_from_radio(
            FromRadioPacket::Channel(ChannelConfig { index: 0, role: 3 }),
            200,
        )
        .unwrap();
    assert_eq!(device.channels.len(), 2);
    assert_eq!(device.channels[0].config.role, 3);
    assert_eq!(device.channels[0].last_interaction, 200);
}

#[test]
fn config_packets_replace_sections() {
    let mut device = MeshDevice::new(7);
    device
        .handle_packet_from_radio(
            FromRadioPacket::Config(RadioConfig { section: 1, payload: 10 }),
            0,
        )
        .unwrap();
    assert_eq!(device.config, Some(RadioConfig { section: 1, payload: 10 }));
    device
        .handle_packet_from_radio(
            FromRadioPacket::Config(RadioConfig { section: 2, payload: 20 }),
            0,
        )
        .unwrap();
    assert_eq!(device.config, Some(RadioConfig { section: 2, payload: 20 }));

    device
        .handle_packet_from_radio(
            FromRadioPacket::ModuleConfig(ModuleConfig { section: 9, payload: 1 }),
            0,
        )
        .unwrap();
    assert_eq!(device.module_config, Some(ModuleConfig { section: 9, payload: 1 }));

    device
        .handle_packet_from_radio(
            FromRadioPacket::MyNodeInfo(MyNodeInfo { my_node_num: 77 }),
            0,
        )
        .unwrap();
    assert_eq!(device.my_node_info, Some(MyNodeInfo { my_node_num: 77 }));
}

#[test]
fn node_info_merges_position_history() {
    let mut device = MeshDevice::new(7);
    let p1 = PositionMetric { latitude: 10, longitude: 20, altitude: 30 };
    let p2 = PositionMetric { latitude: 11, longitude: 21, altitude: 31 };

    let s1 = device
        .handle_packet_from_radio(
            FromRadioPacket::NodeInfo(node_info(5, "alpha", Some(400), Some(p1))),
            0,
        )
        .unwrap();
    assert!(s1.device_updated);
    assert!(s1.regenerate_graph);

    // A second report for the same node appends to its position history.
    let s2 = device
        .handle_packet_from_radio(
            FromRadioPacket::NodeInfo(node_info(5, "alpha", Some(500), Some(p2))),
            0,
        )
        .unwrap();
    assert!(s2.regenerate_graph);
    assert_eq!(device.node_table.len(), 1);
    assert_eq!(device.node_table[0].position_metrics, vec![p1, p2]);
    assert_eq!(device.node_table[0].last_snr, Some(500));

    // A report without a position does not ask for a graph rebuild.
    let s3 = device
        .handle_packet_from_radio(
            FromRadioPacket::NodeInfo(node_info(6, "beta", None, None)),
            0,
        )
        .unwrap();
    assert!(s3.device_updated);
    assert!(!s3.regenerate_graph);
    assert_eq!(device.node_table.len(), 2);
    assert!(device.node_table[1].position_metrics.is_empty());
}

#[test]
fn config_complete_sets_configured_and_flags() {
    let mut device = MeshDevice::new(7);
    device.set_status(DeviceConnectionStatus::Configuring);
    let summary = device
        .handle_packet_from_radio(FromRadioPacket::ConfigComplete, 0)
        .unwrap();
    assert!(summary.device_updated);
    assert!(summary.configuration_success);
    assert_eq!(device.status, DeviceConnectionStatus::Configured);
}

#[test]
fn unknown_packet_is_a_no_op_success() {
    let mut device = MeshDevice::new(7);
    let before = device.clone();
    let summary = device.handle_packet_from_radio(FromRadioPacket::Unknown, 123).unwrap();
    assert!(!summary.device_updated);
    assert!(!summary.regenerate_graph);
    assert!(!summary.configuration_success);
    assert!(!summary.rebooting);
    assert!(summary.notification_config.is_none());
    assert_eq!(device, before);
}

#[test]
fn replaying_a_packet_sequence_is_deterministic() {
    let sequence = || {
        vec![
            FromRadioPacket::Channel(ChannelConfig { index: 0, role: 1 }),
            FromRadioPacket::Config(RadioConfig { section: 3, payload: 5 }),
            FromRadioPacket::MyNodeInfo(MyNodeInfo { my_node_num: 1 }),
            FromRadioPacket::NodeInfo(node_info(
                2,
                "n2",
                Some(250),
                Some(PositionMetric { latitude: 1, longitude: 2, altitude: 3 }),
            )),
            FromRadioPacket::ConfigComplete,
            FromRadioPacket::Unknown,
        ]
    };
    let mut first = MeshDevice::new(9);
    let mut second = MeshDevice::new(9);
    for (at, packet) in sequence().into_iter().enumerate() {
        first.handle_packet_from_radio(packet, at as u32).unwrap();
    }
    for (at, packet) in sequence().into_iter().enumerate() {
        second.handle_packet_from_radio(packet, at as u32).unwrap();
    }
    assert_eq!(first, second);
}
