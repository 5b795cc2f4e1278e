//! Per-kind handlers for decoded radio packets, and the dispatcher that
//! routes one packet to the handler for its kind.
//!
//! Handlers mutate only the device's own state and record what happened in
//! a [`DeviceUpdateMetadata`] summary; every externally visible side effect
//! is driven later by the caller inspecting that summary.

use vstd::prelude::*;

use crate::device::DeviceConnectionStatus;
use crate::device::DeviceUpdateError;
use crate::device::DeviceUpdateMetadata;
use crate::device::ChannelConfig;
use crate::device::FromRadioPacket;
use crate::device::MeshChannel;
use crate::device::MeshChannelView;
use crate::device::MeshDevice;
use crate::device::MeshDeviceView;
use crate::device::ModuleConfig;
use crate::device::MyNodeInfo;
use crate::device::NodeInfo;
use crate::device::RadioConfig;
use crate::device::UpdateSummaryView;
use crate::device::spec_add_channel;
use crate::device::spec_dispatch;
use crate::device::spec_upsert_node;

verus! {

/// Record a channel entry for the reported channel configuration, stamped
/// with the time of this interaction.
pub fn handle_channel_packet(
    device: &mut MeshDevice,
    update_result: &mut DeviceUpdateMetadata,
    channel: ChannelConfig,
    timestamp: u32,
) -> (r: Result<(), DeviceUpdateError>)
    ensures
        (r is Ok),
        final(device)@ == (MeshDeviceView {
            channels: spec_add_channel(
                old(device)@.channels,
                MeshChannelView {
                    config: channel,
                    last_interaction: timestamp,
                    messages: Seq::empty(),
                },
            ),
            ..old(device)@
        }),
        final(update_result)@ == (UpdateSummaryView {
            device_updated: true,
            ..old(update_result)@
        }),
{
    let entry = MeshChannel {
        config: channel,
        last_interaction: timestamp,
        messages: Vec::new(),
    };
    proof {
        assert(entry@ =~= MeshChannelView {
            config: channel,
            last_interaction: timestamp,
            messages: Seq::empty(),
        });
    }
    device.add_channel(entry);
    update_result.device_updated = true;
    proof {
        assert(update_result@ =~= UpdateSummaryView {
            device_updated: true,
            ..old(update_result)@
        });
    }
    Ok(())
}

/// Replace the radio configuration with the reported section.
pub fn handle_config_packet(
    device: &mut MeshDevice,
    update_result: &mut DeviceUpdateMetadata,
    config: RadioConfig,
) -> (r: Result<(), DeviceUpdateError>)
    ensures
        (r is Ok),
        final(device)@ == (MeshDeviceView { config: Some(config), ..old(device)@ }),
        final(update_result)@ == (UpdateSummaryView {
            device_updated: true,
            ..old(update_result)@
        }),
{
    device.set_config(config);
    update_result.device_updated = true;
    proof {
        assert(update_result@ =~= UpdateSummaryView {
            device_updated: true,
            ..old(update_result)@
        });
    }
    Ok(())
}

/// Replace the module configuration with the reported section.
pub fn handle_module_config_packet(
    device: &mut MeshDevice,
    update_result: &mut DeviceUpdateMetadata,
    module_config: ModuleConfig,
) -> (r: Result<(), DeviceUpdateError>)
    ensures
        (r is Ok),
        final(device)@ == (MeshDeviceView {
            module_config: Some(module_config),
            ..old(device)@
        }),
        final(update_result)@ == (UpdateSummaryView {
            device_updated: true,
            ..old(update_result)@
        }),
{
    device.set_module_config(module_config);
    update_result.device_updated = true;
    proof {
        assert(update_result@ =~= UpdateSummaryView {
            device_updated: true,
            ..old(update_result)@
        });
    }
    Ok(())
}

/// The device has finished reporting its configuration: it leaves
/// `Configuring` for `Configured`, and the summary tells the caller to emit
/// the configuration-success event.
pub fn handle_config_complete_packet(
    device: &mut MeshDevice,
    update_result: &mut DeviceUpdateMetadata,
) -> (r: Result<(), DeviceUpdateError>)
    ensures
        (r is Ok),
        final(device)@ == (MeshDeviceView {
            status: DeviceConnectionStatus::Configured,
            ..old(device)@
        }),
        final(update_result)@ == (UpdateSummaryView {
            device_updated: true,
            configuration_success: true,
            ..old(update_result)@
        }),
{
    device.set_status(DeviceConnectionStatus::Configured);
    update_result.device_updated = true;
    update_result.configuration_success = true;
    proof {
        assert(update_result@ =~= UpdateSummaryView {
            device_updated: true,
            configuration_success: true,
            ..old(update_result)@
        });
    }
    Ok(())
}

/// Replace the device's own mesh identity.
pub fn handle_my_node_info_packet(
    device: &mut MeshDevice,
    update_result: &mut DeviceUpdateMetadata,
    my_node_info: MyNodeInfo,
) -> (r: Result<(), DeviceUpdateError>)
    ensures
        (r is Ok),
        final(device)@ == (MeshDeviceView {
            my_node_info: Some(my_node_info),
            ..old(device)@
        }),
        final(update_result)@ == (UpdateSummaryView {
            device_updated: true,
            ..old(update_result)@
        }),
{
    device.set_my_node_info(my_node_info);
    update_result.device_updated = true;
    proof {
        assert(update_result@ =~= UpdateSummaryView {
            device_updated: true,
            ..old(update_result)@
        });
    }
    Ok(())
}

/// Merge one node-information packet into the node table. A packet that
/// carries a position additionally asks the caller to regenerate the
/// topology graph.
pub fn handle_node_info_packet(
    device: &mut MeshDevice,
    update_result: &mut DeviceUpdateMetadata,
    node_info: NodeInfo,
) -> (r: Result<(), DeviceUpdateError>)
    ensures
        (r is Ok),
        final(device)@ == (MeshDeviceView {
            node_table: spec_upsert_node(old(device)@.node_table, node_info@),
            ..old(device)@
        }),
        final(update_result)@ == (UpdateSummaryView {
            device_updated: true,
            regenerate_graph: old(update_result).regenerate_graph
                || node_info@.position is Some,
            ..old(update_result)@
        }),
{
    if node_info.position.is_some() {
        update_result.regenerate_graph = true;
    }
    device.add_node_info(node_info);
    update_result.device_updated = true;
    proof {
        assert(update_result@ =~= UpdateSummaryView {
            device_updated: true,
            regenerate_graph: old(update_result).regenerate_graph
                || node_info@.position is Some,
            ..old(update_result)@
        });
    }
    Ok(())
}

impl MeshDevice {
    /// Apply one decoded packet to this device's state, strictly in arrival
    /// order, and report which mutations it caused. Packet kinds this crate
    /// does not handle are ignored and reported as a no-op success, never as
    /// an error; the result is a pure function of the prior state, the
    /// packet and the timestamp.
    pub fn handle_packet_from_radio(
        &mut self,
        packet: FromRadioPacket,
        timestamp: u32,
    ) -> (r: Result<DeviceUpdateMetadata, DeviceUpdateError>)
        ensures
            (match r {
                Ok(summary) => final(self)@ == spec_dispatch(old(self)@, packet@, timestamp).0
                    && summary@ == spec_dispatch(old(self)@, packet@, timestamp).1,
                Err(_) => false,
            }),
    {
        let mut update_result = DeviceUpdateMetadata::new();
        let outcome: Result<(), DeviceUpdateError> = match packet {
            FromRadioPacket::Channel(channel) => {
                handle_channel_packet(self, &mut update_result, channel, timestamp)
            },
            FromRadioPacket::Config(config) => {
                handle_config_packet(self, &mut update_result, config)
            },
            FromRadioPacket::ModuleConfig(module_config) => {
                handle_module_config_packet(self, &mut update_result, module_config)
            },
            FromRadioPacket::MyNodeInfo(my_node_info) => {
                handle_my_node_info_packet(self, &mut update_result, my_node_info)
            },
            FromRadioPacket::NodeInfo(node_info) => {
                handle_node_info_packet(self, &mut update_result, node_info)
            },
            FromRadioPacket::ConfigComplete => {
                handle_config_complete_packet(self, &mut update_result)
            },
            FromRadioPacket::Unknown => Ok(()),
        };
        proof {
            assert(self@ =~= spec_dispatch(old(self)@, packet@, timestamp).0);
            assert(update_result@ =~= spec_dispatch(old(self)@, packet@, timestamp).1);
        }
        match outcome {
            Ok(()) => Ok(update_result),
            Err(e) => Err(e),
        }
    }
}

} // verus!
