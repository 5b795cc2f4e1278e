//! Per-device state: connection status, radio configuration, channels and
//! the table of remote nodes the device has heard from.

use vstd::prelude::*;

verus! {

/// Connection lifecycle of one device, linear with one timeout escape:
/// `Connecting -> Configuring -> Configured -> Connected`, with
/// `Disconnected` reachable from any state.
#[derive(Clone, Copy, PartialEq, Eq, Structural, Debug)]
pub enum DeviceConnectionStatus {
    Connecting,
    Configuring,
    Configured,
    Connected,
    Disconnected,
}

/// Configuration of one messaging channel as reported by the device.
#[derive(Clone, Copy, PartialEq, Eq, Structural, Debug)]
pub struct ChannelConfig {
    pub index: u32,
    pub role: u32,
}

/// One section of the device's radio configuration. The payload is kept
/// opaque: this crate stores it and hands it back out, but never reads it.
#[derive(Clone, Copy, PartialEq, Eq, Structural, Debug)]
pub struct RadioConfig {
    pub section: u32,
    pub payload: u64,
}

/// One section of the device's module configuration, stored opaquely.
#[derive(Clone, Copy, PartialEq, Eq, Structural, Debug)]
pub struct ModuleConfig {
    pub section: u32,
    pub payload: u64,
}

/// The connected device's own identity on the mesh.
#[derive(Clone, Copy, PartialEq, Eq, Structural, Debug)]
pub struct MyNodeInfo {
    pub my_node_num: u32,
}

/// One historical position sample. Latitude and longitude are scaled
/// integers in units of 1e-7 degrees; altitude is in meters.
#[derive(Clone, Copy, PartialEq, Eq, Structural, Debug)]
pub struct PositionMetric {
    pub latitude: i32,
    pub longitude: i32,
    pub altitude: i32,
}

/// A channel entry held by a device: its configuration, the time of the
/// last interaction on it, and any buffered messages.
#[derive(Clone, PartialEq, Debug)]
pub struct MeshChannel {
    pub config: ChannelConfig,
    pub last_interaction: u32,
    pub messages: Vec<String>,
}

/// Last-known information about one remote node, including its append-only
/// position history. The most recent sample is authoritative.
#[derive(Clone, PartialEq, Debug)]
pub struct MeshNode {
    pub num: u32,
    pub long_name: String,
    pub last_snr: Option<i32>,
    pub position_metrics: Vec<PositionMetric>,
}

/// A decoded node-information packet: identity, signal quality of the last
/// interaction (scaled centi-dB, when known) and an optional position fix.
#[derive(Clone, PartialEq, Debug)]
pub struct NodeInfo {
    pub num: u32,
    pub long_name: String,
    pub snr: Option<i32>,
    pub position: Option<PositionMetric>,
}

/// One decoded packet from the radio, tagged by kind. Kinds this crate does
/// not handle arrive as `Unknown` and are ignored, never treated as errors.
#[derive(Clone, PartialEq, Debug)]
pub enum FromRadioPacket {
    Channel(ChannelConfig),
    Config(RadioConfig),
    ModuleConfig(ModuleConfig),
    MyNodeInfo(MyNodeInfo),
    NodeInfo(NodeInfo),
    ConfigComplete,
    Unknown,
}

/// A system-level notification the caller should raise.
#[derive(Clone, PartialEq, Debug)]
pub struct NotificationConfig {
    pub title: String,
    pub body: String,
}

/// Summary of the mutations one packet caused. The dispatcher performs no
/// side effects itself; the caller inspects these flags and drives every
/// externally visible effect (UI push, graph rebuild, OS notification).
#[derive(Clone, PartialEq, Debug)]
pub struct DeviceUpdateMetadata {
    pub device_updated: bool,
    pub regenerate_graph: bool,
    pub configuration_success: bool,
    pub rebooting: bool,
    pub notification_config: Option<NotificationConfig>,
}

/// Failure while applying a packet to device state. The device is left
/// unchanged whenever a handler fails.
#[derive(Clone, PartialEq, Debug)]
pub enum DeviceUpdateError {
    PacketNotSupported(String),
    GeneralFailure(String),
}

/// State of one connected device, owned exclusively by its registry entry.
#[derive(Clone, PartialEq, Debug)]
pub struct MeshDevice {
    pub status: DeviceConnectionStatus,
    pub config: Option<RadioConfig>,
    pub module_config: Option<ModuleConfig>,
    pub channels: Vec<MeshChannel>,
    pub node_table: Vec<MeshNode>,
    pub my_node_info: Option<MyNodeInfo>,
    pub config_id: u32,
}

// ---------------------------------------------------------------------------
// Mathematical views
// ---------------------------------------------------------------------------

#[verifier::ext_equal]
pub struct MeshChannelView {
    pub config: ChannelConfig,
    pub last_interaction: u32,
    pub messages: Seq<Seq<char>>,
}

#[verifier::ext_equal]
pub struct MeshNodeView {
    pub num: u32,
    pub long_name: Seq<char>,
    pub last_snr: Option<i32>,
    pub position_metrics: Seq<PositionMetric>,
}

#[verifier::ext_equal]
pub struct NodeInfoView {
    pub num: u32,
    pub long_name: Seq<char>,
    pub snr: Option<i32>,
    pub position: Option<PositionMetric>,
}

#[verifier::ext_equal]
pub enum FromRadioPacketView {
    Channel(ChannelConfig),
    Config(RadioConfig),
    ModuleConfig(ModuleConfig),
    MyNodeInfo(MyNodeInfo),
    NodeInfo(NodeInfoView),
    ConfigComplete,
    Unknown,
}

#[verifier::ext_equal]
pub struct NotificationView {
    pub title: Seq<char>,
    pub body: Seq<char>,
}

#[verifier::ext_equal]
pub struct UpdateSummaryView {
    pub device_updated: bool,
    pub regenerate_graph: bool,
    pub configuration_success: bool,
    pub rebooting: bool,
    pub notification_config: Option<NotificationView>,
}

#[verifier::ext_equal]
pub struct MeshDeviceView {
    pub status: DeviceConnectionStatus,
    pub config: Option<RadioConfig>,
    pub module_config: Option<ModuleConfig>,
    pub channels: Seq<MeshChannelView>,
    pub node_table: Seq<MeshNodeView>,
    pub my_node_info: Option<MyNodeInfo>,
    pub config_id: u32,
}

impl View for MeshChannel {
    type V = MeshChannelView;

    open spec fn view(&self) -> MeshChannelView {
        MeshChannelView {
            config: self.config,
            last_interaction: self.last_interaction,
            messages: self.messages@.map_values(|m: String| m@),
        }
    }
}

impl View for MeshNode {
    type V = MeshNodeView;

    open spec fn view(&self) -> MeshNodeView {
        MeshNodeView {
            num: self.num,
            long_name: self.long_name@,
            last_snr: self.last_snr,
            position_metrics: self.position_metrics@,
        }
    }
}

impl View for NodeInfo {
    type V = NodeInfoView;

    open spec fn view(&self) -> NodeInfoView {
        NodeInfoView {
            num: self.num,
            long_name: self.long_name@,
            snr: self.snr,
            position: self.position,
        }
    }
}

impl View for FromRadioPacket {
    type V = FromRadioPacketView;

    open spec fn view(&self) -> FromRadioPacketView {
        match self {
            FromRadioPacket::Channel(c) => FromRadioPacketView::Channel(*c),
            FromRadioPacket::Config(c) => FromRadioPacketView::Config(*c),
            FromRadioPacket::ModuleConfig(c) => FromRadioPacketView::ModuleConfig(*c),
            FromRadioPacket::MyNodeInfo(i) => FromRadioPacketView::MyNodeInfo(*i),
            FromRadioPacket::NodeInfo(i) => FromRadioPacketView::NodeInfo(i@),
            FromRadioPacket::ConfigComplete => FromRadioPacketView::ConfigComplete,
            FromRadioPacket::Unknown => FromRadioPacketView::Unknown,
        }
    }
}

impl View for NotificationConfig {
    type V = NotificationView;

    open spec fn view(&self) -> NotificationView {
        NotificationView { title: self.title@, body: self.body@ }
    }
}

impl View for DeviceUpdateMetadata {
    type V = UpdateSummaryView;

    open spec fn view(&self) -> UpdateSummaryView {
        UpdateSummaryView {
            device_updated: self.device_updated,
            regenerate_graph: self.regenerate_graph,
            configuration_success: self.configuration_success,
            rebooting: self.rebooting,
            notification_config: match self.notification_config {
                Some(n) => Some(n@),
                None => None,
            },
        }
    }
}

impl View for MeshDevice {
    type V = MeshDeviceView;

    open spec fn view(&self) -> MeshDeviceView {
        MeshDeviceView {
            status: self.status,
            config: self.config,
            module_config: self.module_config,
            channels: self.channels@.map_values(|c: MeshChannel| c@),
            node_table: self.node_table@.map_values(|n: MeshNode| n@),
            my_node_info: self.my_node_info,
            config_id: self.config_id,
        }
    }
}

// ---------------------------------------------------------------------------
// Specification of the per-packet state transformations
// ---------------------------------------------------------------------------

/// Index of the first channel entry with the given index, or -1.
pub open spec fn find_channel(channels: Seq<MeshChannelView>, index: u32) -> int
    decreases channels.len(),
{
    if channels.len() == 0 {
        -1
    } else if channels[0].config.index == index {
        0
    } else {
        let rest = find_channel(channels.drop_first(), index);
        if rest < 0 {
            -1
        } else {
            rest + 1
        }
    }
}

/// Index of the first node-table entry with the given node number, or -1.
pub open spec fn find_node(table: Seq<MeshNodeView>, num: u32) -> int
    decreases table.len(),
{
    if table.len() == 0 {
        -1
    } else if table[0].num == num {
        0
    } else {
        let rest = find_node(table.drop_first(), num);
        if rest < 0 {
            -1
        } else {
            rest + 1
        }
    }
}

/// Channel list after appending or replacing an entry, keyed by its index.
pub open spec fn spec_add_channel(
    channels: Seq<MeshChannelView>,
    entry: MeshChannelView,
) -> Seq<MeshChannelView> {
    let at = find_channel(channels, entry.config.index);
    if at < 0 {
        channels.push(entry)
    } else {
        channels.update(at, entry)
    }
}

/// Node table after merging one node-information packet into it: the entry
/// for that node number is replaced (or created), and a reported position
/// is appended to the node's position history.
pub open spec fn spec_upsert_node(
    table: Seq<MeshNodeView>,
    info: NodeInfoView,
) -> Seq<MeshNodeView> {
    let history = match info.position {
        Some(p) => seq![p],
        None => Seq::<PositionMetric>::empty(),
    };
    let at = find_node(table, info.num);
    if at < 0 {
        table.push(
            MeshNodeView {
                num: info.num,
                long_name: info.long_name,
                last_snr: info.snr,
                position_metrics: history,
            },
        )
    } else {
        table.update(
            at,
            MeshNodeView {
                num: info.num,
                long_name: info.long_name,
                last_snr: info.snr,
                position_metrics: table[at].position_metrics + history,
            },
        )
    }
}

/// An update summary with no flags set.
pub open spec fn spec_empty_summary() -> UpdateSummaryView {
    UpdateSummaryView {
        device_updated: false,
        regenerate_graph: false,
        configuration_success: false,
        rebooting: false,
        notification_config: None,
    }
}

/// The device state and mutation summary produced by dispatching one packet.
/// Dispatch is a pure function of the prior state, the packet and the
/// timestamp, which is what makes replaying a packet sequence deterministic.
pub open spec fn spec_dispatch(
    device: MeshDeviceView,
    packet: FromRadioPacketView,
    timestamp: u32,
) -> (MeshDeviceView, UpdateSummaryView) {
    match packet {
        FromRadioPacketView::Channel(config) => {
            let entry = MeshChannelView {
                config: config,
                last_interaction: timestamp,
                messages: Seq::empty(),
            };
            (
                MeshDeviceView { channels: spec_add_channel(device.channels, entry), ..device },
                UpdateSummaryView { device_updated: true, ..spec_empty_summary() },
            )
        },
        FromRadioPacketView::Config(config) => (
            MeshDeviceView { config: Some(config), ..device },
            UpdateSummaryView { device_updated: true, ..spec_empty_summary() },
        ),
        FromRadioPacketView::ModuleConfig(config) => (
            MeshDeviceView { module_config: Some(config), ..device },
            UpdateSummaryView { device_updated: true, ..spec_empty_summary() },
        ),
        FromRadioPacketView::MyNodeInfo(info) => (
            MeshDeviceView { my_node_info: Some(info), ..device },
            UpdateSummaryView { device_updated: true, ..spec_empty_summary() },
        ),
        FromRadioPacketView::NodeInfo(info) => (
            MeshDeviceView { node_table: spec_upsert_node(device.node_table, info), ..device },
            UpdateSummaryView {
                device_updated: true,
                regenerate_graph: info.position is Some,
                ..spec_empty_summary()
            },
        ),
        FromRadioPacketView::ConfigComplete => (
            MeshDeviceView { status: DeviceConnectionStatus::Configured, ..device },
            UpdateSummaryView {
                device_updated: true,
                configuration_success: true,
                ..spec_empty_summary()
            },
        ),
        FromRadioPacketView::Unknown => (device, spec_empty_summary()),
    }
}

// ---------------------------------------------------------------------------
// Executable state
// ---------------------------------------------------------------------------

impl DeviceUpdateMetadata {
    /// A summary with no flags set.
    pub fn new() -> (r: DeviceUpdateMetadata)
        ensures
            r@ == spec_empty_summary(),
    {
        DeviceUpdateMetadata {
            device_updated: false,
            regenerate_graph: false,
            configuration_success: false,
            rebooting: false,
            notification_config: None,
        }
    }
}

impl MeshDevice {
    /// A fresh device record for a new connection attempt. The configuration
    /// id is a caller-chosen nonce echoed back by the radio when its
    /// configuration reporting is complete.
    pub fn new(config_id: u32) -> (r: MeshDevice)
        ensures
            device_wf(r@),
            r@ == (MeshDeviceView {
                status: DeviceConnectionStatus::Disconnected,
                config: None,
                module_config: None,
                channels: Seq::empty(),
                node_table: Seq::empty(),
                my_node_info: None,
                config_id: config_id,
            }),
    {
        let r = MeshDevice {
            status: DeviceConnectionStatus::Disconnected,
            config: None,
            module_config: None,
            channels: Vec::new(),
            node_table: Vec::new(),
            my_node_info: None,
            config_id: config_id,
        };
        proof {
            assert(r@ =~= MeshDeviceView {
                status: DeviceConnectionStatus::Disconnected,
                config: None,
                module_config: None,
                channels: Seq::empty(),
                node_table: Seq::empty(),
                my_node_info: None,
                config_id: config_id,
            });
        }
        r
    }

    /// Move the device to a new lifecycle state.
    pub fn set_status(&mut self, status: DeviceConnectionStatus)
        ensures
            final(self)@ == (MeshDeviceView { status: status, ..old(self)@ }),
    {
        self.status = status;
        proof {
            assert(self@ =~= MeshDeviceView { status: status, ..old(self)@ });
        }
    }

    /// Replace the radio configuration section last reported by the device.
    pub fn set_config(&mut self, config: RadioConfig)
        ensures
            final(self)@ == (MeshDeviceView { config: Some(config), ..old(self)@ }),
    {
        self.config = Some(config);
        proof {
            assert(self@ =~= MeshDeviceView { config: Some(config), ..old(self)@ });
        }
    }

    /// Replace the module configuration section last reported by the device.
    pub fn set_module_config(&mut self, module_config: ModuleConfig)
        ensures
            final(self)@ == (MeshDeviceView {
                module_config: Some(module_config),
                ..old(self)@
            }),
    {
        self.module_config = Some(module_config);
        proof {
            assert(self@ =~= MeshDeviceView {
                module_config: Some(module_config),
                ..old(self)@
            });
        }
    }

    /// Replace the device's own mesh identity.
    pub fn set_my_node_info(&mut self, my_node_info: MyNodeInfo)
        ensures
            final(self)@ == (MeshDeviceView {
                my_node_info: Some(my_node_info),
                ..old(self)@
            }),
    {
        self.my_node_info = Some(my_node_info);
        proof {
            assert(self@ =~= MeshDeviceView {
                my_node_info: Some(my_node_info),
                ..old(self)@
            });
        }
    }

    /// Append or replace a channel entry, keyed by its channel index.
    pub fn add_channel(&mut self, channel: MeshChannel)
        ensures
            final(self)@ == (MeshDeviceView {
                channels: spec_add_channel(old(self)@.channels, channel@),
                ..old(self)@
            }),
    {
        match find_channel_at(&self.channels, channel.config.index) {
            Some(at) => {
                self.channels[at] = channel;
                proof {
                    assert(self@.channels =~= old(self)@.channels.update(at as int, channel@));
                    assert(self@ =~= MeshDeviceView {
                        channels: spec_add_channel(old(self)@.channels, channel@),
                        ..old(self)@
                    });
                }
            },
            None => {
                self.channels.push(channel);
                proof {
                    assert(self@.channels =~= old(self)@.channels.push(channel@));
                    assert(self@ =~= MeshDeviceView {
                        channels: spec_add_channel(old(self)@.channels, channel@),
                        ..old(self)@
                    });
                }
            },
        }
    }

    /// Merge one node-information packet into the node table: replace or
    /// create the entry for that node number, appending any reported
    /// position to the node's position history.
    pub fn add_node_info(&mut self, info: NodeInfo)
        ensures
            final(self)@ == (MeshDeviceView {
                node_table: spec_upsert_node(old(self)@.node_table, info@),
                ..old(self)@
            }),
    {
        let mut history: Vec<PositionMetric> = Vec::new();
        match info.position {
            Some(p) => {
                history.push(p);
            },
            None => {},
        }
        match find_node_at(&self.node_table, info.num) {
            Some(at) => {
                let mut metrics = Vec::new();
                core::mem::swap(&mut metrics, &mut self.node_table[at].position_metrics);
                metrics.append(&mut history);
                let entry = MeshNode {
                    num: info.num,
                    long_name: info.long_name,
                    last_snr: info.snr,
                    position_metrics: metrics,
                };
                self.node_table[at] = entry;
                proof {
                    assert(self@.node_table =~= spec_upsert_node(old(self)@.node_table, info@));
                    assert(self@ =~= MeshDeviceView {
                        node_table: spec_upsert_node(old(self)@.node_table, info@),
                        ..old(self)@
                    });
                }
            },
            None => {
                let entry = MeshNode {
                    num: info.num,
                    long_name: info.long_name,
                    last_snr: info.snr,
                    position_metrics: history,
                };
                self.node_table.push(entry);
                proof {
                    assert(self@.node_table =~= spec_upsert_node(old(self)@.node_table, info@));
                    assert(self@ =~= MeshDeviceView {
                        node_table: spec_upsert_node(old(self)@.node_table, info@),
                        ..old(self)@
                    });
                }
            },
        }
    }
}

// ---------------------------------------------------------------------------
// Well-formedness: the channel list and the node table are keyed stores
// ---------------------------------------------------------------------------

/// The channel list is keyed by channel index and the node table by node
/// number: no key occurs twice.
pub open spec fn device_wf(d: MeshDeviceView) -> bool {
    &&& forall|i: int, j: int| 0 <= i < j < d.channels.len()
        ==> (#[trigger] d.channels[i]).config.index
            != (#[trigger] d.channels[j]).config.index
    &&& forall|i: int, j: int| 0 <= i < j < d.node_table.len()
        ==> (#[trigger] d.node_table[i]).num != (#[trigger] d.node_table[j]).num
}

/// `find_channel` returns -1 or a valid position holding the index, and
/// -1 only when no entry holds it.
pub proof fn lemma_find_channel_range(channels: Seq<MeshChannelView>, index: u32)
    ensures
        -1 <= find_channel(channels, index) < channels.len(),
        find_channel(channels, index) >= 0
            ==> channels[find_channel(channels, index)].config.index == index,
        find_channel(channels, index) == -1
            ==> forall|i: int| 0 <= i < channels.len()
                ==> channels[i].config.index != index,
    decreases channels.len(),
{
    if channels.len() > 0 {
        lemma_find_channel_range(channels.drop_first(), index);
        assert forall|i: int| 0 <= i < channels.len() && find_channel(channels, index) == -1
            implies channels[i].config.index != index by {
            if i > 0 {
                assert(channels.drop_first()[i - 1] == channels[i]);
            }
        }
    }
}

/// `find_node` returns -1 or a valid position holding the number, and -1
/// only when no entry holds it.
pub proof fn lemma_find_node_range(table: Seq<MeshNodeView>, num: u32)
    ensures
        -1 <= find_node(table, num) < table.len(),
        find_node(table, num) >= 0 ==> table[find_node(table, num)].num == num,
        find_node(table, num) == -1
            ==> forall|i: int| 0 <= i < table.len() ==> table[i].num != num,
    decreases table.len(),
{
    if table.len() > 0 {
        lemma_find_node_range(table.drop_first(), num);
        assert forall|i: int| 0 <= i < table.len() && find_node(table, num) == -1
            implies table[i].num != num by {
            if i > 0 {
                assert(table.drop_first()[i - 1] == table[i]);
            }
        }
    }
}

/// Dispatching a packet keeps the device well formed: appending or
/// replacing a channel entry and merging a node report both preserve key
/// uniqueness, and no other packet kind touches either store.
pub proof fn lemma_dispatch_preserves_wf(
    d: MeshDeviceView,
    packet: FromRadioPacketView,
    timestamp: u32,
)
    requires
        device_wf(d),
    ensures
        device_wf(spec_dispatch(d, packet, timestamp).0),
{
    let d2 = spec_dispatch(d, packet, timestamp).0;
    match packet {
        FromRadioPacketView::Channel(config) => {
            let at = find_channel(d.channels, config.index);
            lemma_find_channel_range(d.channels, config.index);
            assert forall|i: int, j: int| 0 <= i < j < d2.channels.len()
                implies (#[trigger] d2.channels[i]).config.index
                    != (#[trigger] d2.channels[j]).config.index by {
                if at < 0 {
                    if j < d.channels.len() {
                        assert(d2.channels[i] == d.channels[i]);
                        assert(d2.channels[j] == d.channels[j]);
                    } else {
                        assert(d2.channels[i] == d.channels[i]);
                        assert(d.channels[i].config.index != config.index);
                    }
                } else {
                    if i != at && j != at {
                        assert(d2.channels[i] == d.channels[i]);
                        assert(d2.channels[j] == d.channels[j]);
                    } else if i == at {
                        assert(d2.channels[j] == d.channels[j]);
                        assert(d.channels[at].config.index == config.index);
                    } else {
                        assert(d2.channels[i] == d.channels[i]);
                        assert(d.channels[at].config.index == config.index);
                    }
                }
            }
        },
        FromRadioPacketView::NodeInfo(info) => {
            let at = find_node(d.node_table, info.num);
            lemma_find_node_range(d.node_table, info.num);
            assert forall|i: int, j: int| 0 <= i < j < d2.node_table.len()
                implies (#[trigger] d2.node_table[i]).num
                    != (#[trigger] d2.node_table[j]).num by {
                if at < 0 {
                    if j < d.node_table.len() {
                        assert(d2.node_table[i] == d.node_table[i]);
                        assert(d2.node_table[j] == d.node_table[j]);
                    } else {
                        assert(d2.node_table[i] == d.node_table[i]);
                        assert(d.node_table[i].num != info.num);
                    }
                } else {
                    if i != at && j != at {
                        assert(d2.node_table[i] == d.node_table[i]);
                        assert(d2.node_table[j] == d.node_table[j]);
                    } else if i == at {
                        assert(d2.node_table[j] == d.node_table[j]);
                        assert(d.node_table[at].num == info.num);
                    } else {
                        assert(d2.node_table[i] == d.node_table[i]);
                        assert(d.node_table[at].num == info.num);
                    }
                }
            }
        },
        _ => {},
    }
}

// ---------------------------------------------------------------------------
// Lookup helpers
// ---------------------------------------------------------------------------

/// `find_channel` over a whole sequence is determined by the part of the
/// sequence after any prefix known to hold no match.
proof fn lemma_find_channel_skip(cs: Seq<MeshChannelView>, index: u32, at: int)
    requires
        0 <= at <= cs.len(),
        forall|i: int| 0 <= i < at ==> cs[i].config.index != index,
    ensures
        find_channel(cs, index) == if find_channel(cs.skip(at), index) < 0 {
            -1int
        } else {
            at + find_channel(cs.skip(at), index)
        },
    decreases at,
{
    if at == 0 {
        assert(cs.skip(0) =~= cs);
    } else {
        assert(cs.skip(1).skip(at - 1) =~= cs.skip(at));
        lemma_find_channel_skip(cs.skip(1), index, at - 1);
        assert(cs.drop_first() =~= cs.skip(1));
    }
}

/// `find_node` over a whole sequence is determined by the part of the
/// sequence after any prefix known to hold no match.
proof fn lemma_find_node_skip(table: Seq<MeshNodeView>, num: u32, at: int)
    requires
        0 <= at <= table.len(),
        forall|i: int| 0 <= i < at ==> table[i].num != num,
    ensures
        find_node(table, num) == if find_node(table.skip(at), num) < 0 {
            -1int
        } else {
            at + find_node(table.skip(at), num)
        },
    decreases at,
{
    if at == 0 {
        assert(table.skip(0) =~= table);
    } else {
        assert(table.skip(1).skip(at - 1) =~= table.skip(at));
        lemma_find_node_skip(table.skip(1), num, at - 1);
        assert(table.drop_first() =~= table.skip(1));
    }
}

/// Position of the channel entry with the given index, if any.
pub fn find_channel_at(channels: &Vec<MeshChannel>, index: u32) -> (r: Option<usize>)
    ensures
        ({
            let cs = channels@.map_values(|c: MeshChannel| c@);
            match r {
                Some(i) => i < channels@.len() && find_channel(cs, index) == i as int,
                None => find_channel(cs, index) == -1,
            }
        }),
{
    let ghost cs = channels@.map_values(|c: MeshChannel| c@);
    let mut at: usize = 0;
    while at < channels.len()
        invariant
            at <= channels@.len(),
            cs == channels@.map_values(|c: MeshChannel| c@),
            forall|i: int| 0 <= i < at ==> cs[i].config.index != index,
        decreases channels@.len() - at,
    {
        if channels[at].config.index == index {
            proof {
                lemma_find_channel_skip(cs, index, at as int);
                assert(cs.skip(at as int)[0] == cs[at as int]);
            }
            return Some(at);
        }
        at = at + 1;
    }
    proof {
        lemma_find_channel_skip(cs, index, at as int);
        assert(cs.skip(at as int) =~= Seq::<MeshChannelView>::empty());
    }
    None
}

/// Position of the node-table entry with the given node number, if any.
pub fn find_node_at(table: &Vec<MeshNode>, num: u32) -> (r: Option<usize>)
    ensures
        ({
            let t = table@.map_values(|n: MeshNode| n@);
            match r {
                Some(i) => i < table@.len() && find_node(t, num) == i as int,
                None => find_node(t, num) == -1,
            }
        }),
{
    let ghost t = table@.map_values(|n: MeshNode| n@);
    let mut at: usize = 0;
    while at < table.len()
        invariant
            at <= table@.len(),
            t == table@.map_values(|n: MeshNode| n@),
            forall|i: int| 0 <= i < at ==> t[i].num != num,
        decreases table@.len() - at,
    {
        if table[at].num == num {
            proof {
                lemma_find_node_skip(t, num, at as int);
                assert(t.skip(at as int)[0] == t[at as int]);
            }
            return Some(at);
        }
        at = at + 1;
    }
    proof {
        lemma_find_node_skip(t, num, at as int);
        assert(t.skip(at as int) =~= Seq::<MeshNodeView>::empty());
    }
    None
}

} // verus!
