//! The per-connection supervisor: connection setup, the decoded-packet
//! processing step, and the configuration-timeout decision.
//!
//! One long-lived task per device consumes its packet queue and calls
//! [`process_decoded_packet`] for each packet, strictly in arrival order; a
//! timer task calls [`handle_configuration_timeout`] once when the
//! configuration deadline elapses. The race between the two is resolved in
//! favor of whichever observed the device first: a timeout that fires after
//! the device left `Configuring` takes no action.

use vstd::prelude::*;
use vstd::string::StringExecFns;

use crate::device::DeviceConnectionStatus;
use crate::device::FromRadioPacket;
use crate::device::FromRadioPacketView;
use crate::device::MeshDevice;
use crate::device::MeshDeviceView;
use crate::device::NotificationConfig;
use crate::device::UpdateSummaryView;
use crate::device::spec_dispatch;
use crate::graph::GraphView;
use crate::graph::MeshGraph;
use crate::graph::graph_wf;
use crate::graph::spec_regenerate;
use crate::registry::DeviceKey;
use crate::registry::DeviceRegistry;
use crate::registry::RegistryEntryView;
use crate::registry::find_entry;

verus! {

/// Resolution of one connection attempt, reported to the caller exactly
/// once: on successful configuration or on configuration timeout.
#[derive(Clone, PartialEq, Debug)]
pub struct ConfigurationStatus {
    pub device_key: DeviceKey,
    pub successful: bool,
    pub message: Option<String>,
}

#[verifier::ext_equal]
pub struct ConfigurationStatusView {
    pub device_key: Seq<char>,
    pub successful: bool,
    pub message: Option<Seq<char>>,
}

impl View for ConfigurationStatus {
    type V = ConfigurationStatusView;

    open spec fn view(&self) -> ConfigurationStatusView {
        ConfigurationStatusView {
            device_key: self.device_key@,
            successful: self.successful,
            message: match self.message {
                Some(m) => Some(m@),
                None => None,
            },
        }
    }
}

/// The externally visible effects the caller must drive after one packet:
/// push the device state to the UI, push the regenerated edges, emit a
/// configuration event, raise a notification, signal a reboot.
#[derive(Clone, PartialEq, Debug)]
pub struct PacketSideEffects {
    pub device_updated: bool,
    pub edges_updated: bool,
    pub configuration_status: Option<ConfigurationStatus>,
    pub notification: Option<NotificationConfig>,
    pub rebooting: bool,
}

/// Whether the dispatch summary and resulting device state promote the
/// device from `Configured` to `Connected` and emit the success event.
pub open spec fn spec_promotes(device: MeshDeviceView, summary: UpdateSummaryView) -> bool {
    summary.configuration_success && device.status == DeviceConnectionStatus::Configured
}

/// Device state after the post-dispatch status check: a device observed
/// `Configured` with a successful configuration is promoted to `Connected`.
pub open spec fn spec_after_promotion(
    device: MeshDeviceView,
    summary: UpdateSummaryView,
) -> MeshDeviceView {
    if spec_promotes(device, summary) {
        MeshDeviceView { status: DeviceConnectionStatus::Connected, ..device }
    } else {
        device
    }
}

/// Device state after one whole packet-processing step.
pub open spec fn spec_device_after_packet(
    device: MeshDeviceView,
    packet: FromRadioPacketView,
    timestamp: u32,
) -> MeshDeviceView {
    let (d1, summary) = spec_dispatch(device, packet, timestamp);
    spec_after_promotion(d1, summary)
}

/// Graph state after one whole packet-processing step.
pub open spec fn spec_graph_after_packet(
    device: MeshDeviceView,
    graph: GraphView,
    packet: FromRadioPacketView,
    timestamp: u32,
) -> GraphView {
    let (d1, summary) = spec_dispatch(device, packet, timestamp);
    if summary.regenerate_graph {
        spec_regenerate(d1)
    } else {
        graph
    }
}

/// Consume one decoded packet for a device: dispatch it, regenerate the
/// shared graph when the packet changed position data, perform the
/// post-dispatch status check that promotes a configured device to
/// `Connected`, and report every externally visible effect the caller must
/// drive. The device and graph outcomes are pure functions of the prior
/// states, the packet and the timestamp.
pub fn process_decoded_packet(
    device: &mut MeshDevice,
    graph: &mut MeshGraph,
    device_key: &DeviceKey,
    packet: FromRadioPacket,
    timestamp: u32,
) -> (effects: PacketSideEffects)
    ensures
        final(device)@ == spec_device_after_packet(old(device)@, packet@, timestamp),
        final(graph).graph@ == spec_graph_after_packet(
            old(device)@,
            old(graph).graph@,
            packet@,
            timestamp,
        ),
        graph_wf(old(graph).graph@) ==> graph_wf(final(graph).graph@),
        ({
            let (d1, summary) = spec_dispatch(old(device)@, packet@, timestamp);
            &&& effects.device_updated == summary.device_updated
            &&& effects.edges_updated == summary.regenerate_graph
            &&& effects.rebooting == summary.rebooting
            &&& (match effects.notification {
                Some(n) => summary.notification_config == Some(n@),
                None => summary.notification_config is None,
            })
            &&& (match effects.configuration_status {
                Some(ev) => spec_promotes(d1, summary) && ev@ == (ConfigurationStatusView {
                    device_key: device_key@,
                    successful: true,
                    message: None,
                }),
                None => !spec_promotes(d1, summary),
            })
        }),
{
    let summary = match device.handle_packet_from_radio(packet, timestamp) {
        Ok(summary) => summary,
        Err(_) => {
            // The dispatcher never fails: unknown kinds are a no-op success.
            proof {
                assert(false);
            }
            return PacketSideEffects {
                device_updated: false,
                edges_updated: false,
                configuration_status: None,
                notification: None,
                rebooting: false,
            };
        },
    };

    if summary.regenerate_graph {
        graph.regenerate_graph_from_device_info(device);
    }

    let configuration_status: Option<ConfigurationStatus> = if summary.configuration_success
        && device.status == DeviceConnectionStatus::Configured {
        device.set_status(DeviceConnectionStatus::Connected);
        Some(
            ConfigurationStatus {
                device_key: device_key.clone(),
                successful: true,
                message: None,
            },
        )
    } else {
        None
    };

    PacketSideEffects {
        device_updated: summary.device_updated,
        edges_updated: summary.regenerate_graph,
        configuration_status: configuration_status,
        notification: summary.notification_config,
        rebooting: summary.rebooting,
    }
}

/// The message reported when a device fails to configure in time.
pub open spec fn timeout_message() -> Seq<char> {
    "Configuration timed out. Are you sure this is a Meshtastic device?"@
}

/// The configuration-timeout decision, taken when the timer for a
/// connection attempt elapses. If the device is still `Configuring`, the
/// attempt has failed: the device becomes `Disconnected`, its registry
/// entry is dropped, and the failure event is returned for the caller to
/// emit. A device that is missing or already past `Configuring` is left
/// untouched: configuration succeeded (or the connection is already gone)
/// and the elapsed timer means nothing.
pub fn handle_configuration_timeout(
    registry: &mut DeviceRegistry,
    device_key: &DeviceKey,
) -> (r: Option<ConfigurationStatus>)
    requires
        old(registry).wf(),
    ensures
        final(registry).wf(),
        ({
            let at = find_entry(old(registry)@, device_key@);
            if at >= 0 && old(registry)@[at].device.status
                == DeviceConnectionStatus::Configuring {
                &&& final(registry)@ == old(registry)@.remove(at)
                &&& (match r {
                    Some(ev) => ev@ == (ConfigurationStatusView {
                        device_key: device_key@,
                        successful: false,
                        message: Some(timeout_message()),
                    }),
                    None => false,
                })
            } else {
                final(registry)@ == old(registry)@ && r is None
            }
        }),
{
    let still_configuring: bool = match registry.index_of_key(device_key) {
        Some(at) => {
            let status = registry.entries[at].device.status;
            status == DeviceConnectionStatus::Configuring
        },
        None => false,
    };
    if still_configuring {
        registry.remove(device_key);
        let message = "Configuration timed out. Are you sure this is a Meshtastic device?"
            .to_owned();
        Some(
            ConfigurationStatus {
                device_key: device_key.clone(),
                successful: false,
                message: Some(message),
            },
        )
    } else {
        None
    }
}

/// Register a fresh connection attempt: a new device record, carried from
/// `Connecting` into `Configuring`, stored under its connection key. The
/// caller arms the configuration timer as soon as this returns.
pub fn create_device_session(
    registry: &mut DeviceRegistry,
    device_key: DeviceKey,
    config_id: u32,
)
    requires
        old(registry).wf(),
    ensures
        final(registry).wf(),
        ({
            let at = find_entry(old(registry)@, device_key@);
            let entry = RegistryEntryView {
                key: device_key@,
                device: MeshDeviceView {
                    status: DeviceConnectionStatus::Configuring,
                    config: None,
                    module_config: None,
                    channels: Seq::empty(),
                    node_table: Seq::empty(),
                    my_node_info: None,
                    config_id: config_id,
                },
            };
            if at < 0 {
                final(registry)@ == old(registry)@.push(entry)
            } else {
                final(registry)@ == old(registry)@.update(at, entry)
            }
        }),
{
    let mut device = MeshDevice::new(config_id);
    device.set_status(DeviceConnectionStatus::Connecting);
    device.set_status(DeviceConnectionStatus::Configuring);
    proof {
        assert(device@ =~= MeshDeviceView {
            status: DeviceConnectionStatus::Configuring,
            config: None,
            module_config: None,
            channels: Seq::empty(),
            node_table: Seq::empty(),
            my_node_info: None,
            config_id: config_id,
        });
    }
    registry.insert(device_key, device);
}

/// Drop one connection: the device (if still present) is marked
/// `Disconnected` and its registry entry is removed. `Disconnected` is
/// terminal for the key; a new connection under the same key starts a
/// fresh state machine.
pub fn drop_device_connection(registry: &mut DeviceRegistry, device_key: &DeviceKey)
    requires
        old(registry).wf(),
    ensures
        final(registry).wf(),
        ({
            let at = find_entry(old(registry)@, device_key@);
            if at < 0 {
                final(registry)@ == old(registry)@
            } else {
                final(registry)@ == old(registry)@.remove(at)
            }
        }),
{
    match registry.index_of_key(device_key) {
        Some(at) => {
            let ghost before = registry@;
            let ghost before_entries = registry.entries@;
            registry.entries[at].device.status = DeviceConnectionStatus::Disconnected;
            proof {
                assert forall|i: int| 0 <= i < before.len()
                    implies registry@[i].key == before[i].key by {
                    if i != at as int {
                        assert(registry.entries@[i] == before_entries[i]);
                    }
                }
                crate::registry::lemma_find_entry_same_keys(registry@, before, device_key@);
                assert forall|i: int, j: int| 0 <= i < j < registry@.len()
                    implies registry@[i].key != registry@[j].key by {
                    assert(registry@[i].key == before[i].key);
                    assert(registry@[j].key == before[j].key);
                }
                assert(registry.wf());
            }
            registry.remove(device_key);
            proof {
                assert(registry@ =~= before.remove(find_entry(before, device_key@)));
            }
        },
        None => {},
    }
}

// ---------------------------------------------------------------------------
// The supervision race, abstractly
// ---------------------------------------------------------------------------

/// One event a connection attempt's supervisor observes: a decoded packet
/// with its arrival timestamp, or the configuration timer elapsing.
pub enum SessionEvent {
    Packet(FromRadioPacketView, u32),
    TimeoutFired,
}

/// Abstract state of one connection attempt: the device state, whether the
/// registry still holds its entry, and how many configuration failure and
/// success events have been emitted for it.
#[verifier::ext_equal]
pub struct SessionState {
    pub device: MeshDeviceView,
    pub present: bool,
    pub failure_events: nat,
    pub success_events: nat,
}

/// How one event changes a connection attempt's state. A packet is
/// dispatched and may promote the device to `Connected`, emitting the
/// success event; the timeout fails the attempt only when the device is
/// still `Configuring`, emitting the failure event and dropping the entry.
/// Once the entry is gone, every further event is a no-op.
pub open spec fn session_step(s: SessionState, ev: SessionEvent) -> SessionState {
    if !s.present {
        s
    } else {
        match ev {
            SessionEvent::Packet(p, t) => {
                let (d1, summary) = spec_dispatch(s.device, p, t);
                SessionState {
                    device: spec_after_promotion(d1, summary),
                    success_events: if spec_promotes(d1, summary) {
                        s.success_events + 1
                    } else {
                        s.success_events
                    },
                    ..s
                }
            },
            SessionEvent::TimeoutFired => {
                if s.device.status == DeviceConnectionStatus::Configuring {
                    SessionState {
                        device: MeshDeviceView {
                            status: DeviceConnectionStatus::Disconnected,
                            ..s.device
                        },
                        present: false,
                        failure_events: s.failure_events + 1,
                        ..s
                    }
                } else {
                    s
                }
            },
        }
    }
}

/// The state after a whole sequence of events, first event first.
pub open spec fn run_session(s: SessionState, events: Seq<SessionEvent>) -> SessionState
    decreases events.len(),
{
    if events.len() == 0 {
        s
    } else {
        run_session(session_step(s, events[0]), events.drop_first())
    }
}

/// Once a device is `Connected`, no later event moves it away or emits a
/// failure event: packets cannot demote it and an elapsed timer is a no-op
/// past `Configuring`.
pub proof fn lemma_connected_stable(s: SessionState, events: Seq<SessionEvent>)
    requires
        s.device.status == DeviceConnectionStatus::Connected,
    ensures
        run_session(s, events).device.status == DeviceConnectionStatus::Connected,
        run_session(s, events).failure_events == s.failure_events,
    decreases events.len(),
{
    if events.len() > 0 {
        lemma_connected_stable(session_step(s, events[0]), events.drop_first());
    }
}

/// Once the registry entry is gone, every further event is a no-op.
pub proof fn lemma_absent_stable(s: SessionState, events: Seq<SessionEvent>)
    requires
        !s.present,
    ensures
        run_session(s, events) == s,
    decreases events.len(),
{
    if events.len() > 0 {
        lemma_absent_stable(session_step(s, events[0]), events.drop_first());
    }
}

/// One side of the timeout race: if the configuration-complete packet is
/// processed strictly before the timeout fires — here, before any timeout
/// at all — the device ends `Connected`, never `Disconnected`, and no
/// failure event is ever emitted for the attempt.
pub proof fn lemma_config_complete_before_timeout(
    s: SessionState,
    events: Seq<SessionEvent>,
    i: int,
)
    requires
        s.present,
        0 <= i < events.len(),
        events[i] is Packet,
        events[i]->Packet_0 is ConfigComplete,
        forall|k: int| 0 <= k <= i ==> (#[trigger] events[k]) is Packet,
    ensures
        run_session(s, events).device.status == DeviceConnectionStatus::Connected,
        run_session(s, events).failure_events == s.failure_events,
    decreases i,
{
    let s1 = session_step(s, events[0]);
    if i == 0 {
        lemma_connected_stable(s1, events.drop_first());
    } else {
        assert forall|k: int| 0 <= k <= i - 1
            implies (#[trigger] events.drop_first()[k]) is Packet by {
            assert(events.drop_first()[k] == events[k + 1]);
        }
        assert(events.drop_first()[i - 1] == events[i]);
        lemma_config_complete_before_timeout(s1, events.drop_first(), i - 1);
    }
}

/// The other side of the timeout race: if the timeout fires while the
/// device is still `Configuring` — no configuration-complete packet was
/// processed before it — the attempt ends `Disconnected`, its entry is
/// gone, and exactly one failure event is emitted, whatever follows.
pub proof fn lemma_timeout_before_config_complete(
    s: SessionState,
    events: Seq<SessionEvent>,
    j: int,
)
    requires
        s.present,
        s.device.status == DeviceConnectionStatus::Configuring,
        0 <= j < events.len(),
        events[j] is TimeoutFired,
        forall|k: int| 0 <= k < j ==> (#[trigger] events[k]) is Packet
            && !(events[k]->Packet_0 is ConfigComplete),
    ensures
        run_session(s, events).device.status == DeviceConnectionStatus::Disconnected,
        !run_session(s, events).present,
        run_session(s, events).failure_events == s.failure_events + 1,
    decreases j,
{
    let s1 = session_step(s, events[0]);
    if j == 0 {
        lemma_absent_stable(s1, events.drop_first());
    } else {
        assert(s1.device.status == DeviceConnectionStatus::Configuring);
        assert forall|k: int| 0 <= k < j - 1
            implies (#[trigger] events.drop_first()[k]) is Packet
                && !(events.drop_first()[k]->Packet_0 is ConfigComplete) by {
            assert(events.drop_first()[k] == events[k + 1]);
        }
        assert(events.drop_first()[j - 1] == events[j]);
        lemma_timeout_before_config_complete(s1, events.drop_first(), j - 1);
    }
}

// ---------------------------------------------------------------------------
// Replay determinism
// ---------------------------------------------------------------------------

/// The device state after a whole sequence of timestamped packets,
/// processed strictly in order.
pub open spec fn run_packets(
    d: MeshDeviceView,
    packets: Seq<(FromRadioPacketView, u32)>,
) -> MeshDeviceView
    decreases packets.len(),
{
    if packets.len() == 0 {
        d
    } else {
        run_packets(
            spec_device_after_packet(d, packets[0].0, packets[0].1),
            packets.drop_first(),
        )
    }
}

/// Replay determinism: the state a packet sequence leaves a device in is a
/// pure function of the starting state and the sequence, so replaying the
/// same sequence against the same starting state always yields the same
/// final device state.
pub proof fn lemma_replay_deterministic(
    d1: MeshDeviceView,
    d2: MeshDeviceView,
    packets: Seq<(FromRadioPacketView, u32)>,
)
    requires
        d1 == d2,
    ensures
        run_packets(d1, packets) == run_packets(d2, packets),
{
}

/// Drop every connection: every device is marked `Disconnected` and the
/// registry is emptied.
pub fn drop_all_device_connections(registry: &mut DeviceRegistry)
    requires
        old(registry).wf(),
    ensures
        final(registry).wf(),
        final(registry)@ == Seq::<RegistryEntryView>::empty(),
{
    registry.set_all_disconnected();
    registry.clear();
}

} // verus!
