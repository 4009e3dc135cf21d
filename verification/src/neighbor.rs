//! What neighboring gnomes ask each other and answer, as plain values.
use vstd::prelude::*;
use crate::networking::{IpAddr, Nat, PortAllocationRule};

verus! {

/// How a neighbor can be reached, as it travels between gnomes: public address
/// and port, NAT kind, and port allocation rule with its port step.
#[derive(Debug, Clone, Copy, PartialEq, Eq)]
pub struct SwarmNetworkSettings {
    pub pub_ip: IpAddr,
    pub pub_port: u16,
    pub nat_type: Nat,
    pub port_allocation: (PortAllocationRule, i8),
}

/// What a `SwarmNetworkSettings` says, with the address as its octets.
pub struct SwarmNetworkSettingsView {
    pub ip: Seq<u8>,
    pub port: u16,
    pub nat: Nat,
    pub rule: PortAllocationRule,
    pub delta: i8,
}

impl View for SwarmNetworkSettings {
    type V = SwarmNetworkSettingsView;

    open spec fn view(&self) -> SwarmNetworkSettingsView {
        SwarmNetworkSettingsView {
            ip: self.pub_ip@,
            port: self.pub_port,
            nat: self.nat_type,
            rule: self.port_allocation.0,
            delta: self.port_allocation.1,
        }
    }
}

/// What a `NeighborRequest` holds.
pub enum NeighborRequestView {
    ListingRequest(u32),
    UnicastRequest(u8, Seq<u8>),
    BlockRequest(u8, Seq<u64>),
    ForwardConnectRequest(SwarmNetworkSettingsView),
    ConnectRequest(u8, u64, SwarmNetworkSettingsView),
    SwarmSyncRequest(bool, bool, bool, bool, bool, u64),
    SubscribeRequest(bool, u8),
    CreateNeighbor(u64, Seq<u8>),
    SwarmJoinedInfo(Seq<u8>),
    AppSyncRequest(u8, Seq<u8>),
    CustomRequest(u8, Seq<u8>),
}

/// A request from one neighbor to another.
#[derive(Debug)]
pub enum NeighborRequest {
    /// The blocks listed since the given swarm time.
    ListingRequest(u32),
    /// Unicast ids wanted in the given swarm.
    UnicastRequest(u8, [u8; 256]),
    /// The given number of blocks, by id.
    BlockRequest(u8, [u64; 128]),
    /// Connect to the gnome with these settings on the asker's behalf.
    ForwardConnectRequest(SwarmNetworkSettings),
    /// A gnome with these settings wants to connect.
    ConnectRequest(u8, u64, SwarmNetworkSettings),
    /// Which parts of the swarm's state to sync: key registry, capabilities,
    /// policies, broadcasts, multicasts; and the hash of the application data.
    SwarmSyncRequest(bool, bool, bool, bool, bool, u64),
    /// Subscribe to a broadcast (or multicast) with the given cast id.
    SubscribeRequest(bool, u8),
    /// A gnome asks to become a neighbor in the swarm with the given name's
    /// UTF-8 bytes.
    CreateNeighbor(u64, Vec<u8>),
    /// The asker joined the swarm with the given name's UTF-8 bytes.
    SwarmJoinedInfo(Vec<u8>),
    /// Application data to sync.
    AppSyncRequest(u8, Vec<u8>),
    /// A request that the application defines, by its tag.
    CustomRequest(u8, Vec<u8>),
}

impl View for NeighborRequest {
    type V = NeighborRequestView;

    open spec fn view(&self) -> NeighborRequestView {
        match self {
            NeighborRequest::ListingRequest(st) => NeighborRequestView::ListingRequest(*st),
            NeighborRequest::UnicastRequest(s, ids) => NeighborRequestView::UnicastRequest(*s, ids@),
            NeighborRequest::BlockRequest(c, ids) => NeighborRequestView::BlockRequest(*c, ids@),
            NeighborRequest::ForwardConnectRequest(ns) => NeighborRequestView::ForwardConnectRequest(
                ns@,
            ),
            NeighborRequest::ConnectRequest(id, g, ns) => NeighborRequestView::ConnectRequest(
                *id,
                *g,
                ns@,
            ),
            NeighborRequest::SwarmSyncRequest(a, b, c, d, e, h) =>
                NeighborRequestView::SwarmSyncRequest(*a, *b, *c, *d, *e, *h),
            NeighborRequest::SubscribeRequest(b, c) => NeighborRequestView::SubscribeRequest(*b, *c),
            NeighborRequest::CreateNeighbor(g, n) => NeighborRequestView::CreateNeighbor(*g, n@),
            NeighborRequest::SwarmJoinedInfo(n) => NeighborRequestView::SwarmJoinedInfo(n@),
            NeighborRequest::AppSyncRequest(id, d) => NeighborRequestView::AppSyncRequest(*id, d@),
            NeighborRequest::CustomRequest(id, d) => NeighborRequestView::CustomRequest(*id, d@),
        }
    }
}

/// The state of a swarm that a neighbor hands over when it syncs.
#[derive(Debug)]
pub struct SwarmSyncInfo {
    pub chill_phase: u16,
    pub founder: u64,
    pub swarm_time: u32,
    /// The swarm's type, by its byte.
    pub swarm_type: u8,
    pub app_data_hash: u64,
    pub key_reg_size: u8,
    pub caps_size: u8,
    pub poli_size: u8,
    pub bcasts_size: u8,
    pub mcasts_size: u8,
    pub more_pubkeys_incoming: bool,
    /// Gnome ids with their public keys.
    pub id_pubkey_pairs: Vec<(u64, Vec<u8>)>,
}

/// What a `SwarmSyncInfo` holds.
pub struct SwarmSyncInfoView {
    pub chill_phase: u16,
    pub founder: u64,
    pub swarm_time: u32,
    pub swarm_type: u8,
    pub app_data_hash: u64,
    pub key_reg_size: u8,
    pub caps_size: u8,
    pub poli_size: u8,
    pub bcasts_size: u8,
    pub mcasts_size: u8,
    pub more_pubkeys_incoming: bool,
    pub id_pubkey_pairs: Seq<(u64, Seq<u8>)>,
}

/// The view of a list of gnome ids with their keys.
pub open spec fn key_pairs_view(pairs: Seq<(u64, Vec<u8>)>) -> Seq<(u64, Seq<u8>)> {
    pairs.map_values(|p: (u64, Vec<u8>)| (p.0, p.1@))
}

/// The view of a list of capabilities with the gnomes that have them.
pub open spec fn cap_pairs_view(pairs: Seq<(u8, Vec<u64>)>) -> Seq<(u8, Seq<u64>)> {
    pairs.map_values(|p: (u8, Vec<u64>)| (p.0, p.1@))
}

impl View for SwarmSyncInfo {
    type V = SwarmSyncInfoView;

    open spec fn view(&self) -> SwarmSyncInfoView {
        SwarmSyncInfoView {
            chill_phase: self.chill_phase,
            founder: self.founder,
            swarm_time: self.swarm_time,
            swarm_type: self.swarm_type,
            app_data_hash: self.app_data_hash,
            key_reg_size: self.key_reg_size,
            caps_size: self.caps_size,
            poli_size: self.poli_size,
            bcasts_size: self.bcasts_size,
            mcasts_size: self.mcasts_size,
            more_pubkeys_incoming: self.more_pubkeys_incoming,
            id_pubkey_pairs: key_pairs_view(self.id_pubkey_pairs@),
        }
    }
}

/// What a `NeighborResponse` holds.
pub enum NeighborResponseView {
    Listing(u8, Seq<u64>),
    Unicast(u8, u8),
    Block(u64, Seq<u8>),
    ForwardConnectResponse(SwarmNetworkSettingsView),
    ForwardConnectFailed,
    AlreadyConnected(u8),
    ConnectResponse(u8, SwarmNetworkSettingsView),
    SwarmSync(SwarmSyncInfoView),
    Subscribed(bool, u8, u64, Option<u64>),
    KeyRegistrySync(u8, u8, Seq<(u64, Seq<u8>)>),
    CapabilitySync(u8, u8, Seq<(u8, Seq<u64>)>),
    PolicySync(u8, u8, Seq<u8>),
    BroadcastSync(u8, u8, Seq<(u8, u64)>),
    MulticastSync(u8, u8, Seq<(u8, u64)>),
    AppSync(u8, u16, u16, u16, Seq<u8>),
    CustomResponse(u8, Seq<u8>),
}

/// An answer from one neighbor to another.
#[derive(Debug)]
pub enum NeighborResponse {
    /// The given number of block ids.
    Listing(u8, Vec<u64>),
    /// The swarm and cast id of a unicast.
    Unicast(u8, u8),
    /// A block by its id.
    Block(u64, Vec<u8>),
    /// The settings of the gnome connected to on the asker's behalf.
    ForwardConnectResponse(SwarmNetworkSettings),
    ForwardConnectFailed,
    AlreadyConnected(u8),
    ConnectResponse(u8, SwarmNetworkSettings),
    SwarmSync(SwarmSyncInfo),
    /// Subscribed to a broadcast (or multicast): its cast id, its origin, and
    /// the gnome the data comes through, where one is known.
    Subscribed(bool, u8, u64, Option<u64>),
    /// Part of the key registry: part number, number of parts, ids with keys.
    KeyRegistrySync(u8, u8, Vec<(u64, Vec<u8>)>),
    /// Part of the capabilities: part number, number of parts, capabilities by
    /// their byte with the ids of the gnomes that have them.
    CapabilitySync(u8, u8, Vec<(u8, Vec<u64>)>),
    /// Part of the policies: part number, number of parts, and the bytes of the
    /// policies with their requirements.
    PolicySync(u8, u8, Vec<u8>),
    /// Part of the broadcasts: part number, number of parts, cast ids with origins.
    BroadcastSync(u8, u8, Vec<(u8, u64)>),
    /// Part of the multicasts: part number, number of parts, cast ids with origins.
    MulticastSync(u8, u8, Vec<(u8, u64)>),
    /// Application data: its type, cast id, part number, number of parts, data.
    AppSync(u8, u16, u16, u16, Vec<u8>),
    /// A response that the application defines, by its tag.
    CustomResponse(u8, Vec<u8>),
}

impl View for NeighborResponse {
    type V = NeighborResponseView;

    open spec fn view(&self) -> NeighborResponseView {
        match self {
            NeighborResponse::Listing(c, d) => NeighborResponseView::Listing(*c, d@),
            NeighborResponse::Unicast(s, c) => NeighborResponseView::Unicast(*s, *c),
            NeighborResponse::Block(b, d) => NeighborResponseView::Block(*b, d@),
            NeighborResponse::ForwardConnectResponse(ns) =>
                NeighborResponseView::ForwardConnectResponse(ns@),
            NeighborResponse::ForwardConnectFailed => NeighborResponseView::ForwardConnectFailed,
            NeighborResponse::AlreadyConnected(id) => NeighborResponseView::AlreadyConnected(*id),
            NeighborResponse::ConnectResponse(id, ns) => NeighborResponseView::ConnectResponse(
                *id,
                ns@,
            ),
            NeighborResponse::SwarmSync(info) => NeighborResponseView::SwarmSync(info@),
            NeighborResponse::Subscribed(b, c, o, s) => NeighborResponseView::Subscribed(
                *b,
                *c,
                *o,
                *s,
            ),
            NeighborResponse::KeyRegistrySync(p, t, pairs) => NeighborResponseView::KeyRegistrySync(
                *p,
                *t,
                key_pairs_view(pairs@),
            ),
            NeighborResponse::CapabilitySync(p, t, pairs) => NeighborResponseView::CapabilitySync(
                *p,
                *t,
                cap_pairs_view(pairs@),
            ),
            NeighborResponse::PolicySync(p, t, raw) => NeighborResponseView::PolicySync(
                *p,
                *t,
                raw@,
            ),
            NeighborResponse::BroadcastSync(p, t, pairs) => NeighborResponseView::BroadcastSync(
                *p,
                *t,
                pairs@,
            ),
            NeighborResponse::MulticastSync(p, t, pairs) => NeighborResponseView::MulticastSync(
                *p,
                *t,
                pairs@,
            ),
            NeighborResponse::AppSync(s, c, p, t, d) => NeighborResponseView::AppSync(
                *s,
                *c,
                *p,
                *t,
                d@,
            ),
            NeighborResponse::CustomResponse(id, d) => NeighborResponseView::CustomResponse(
                *id,
                d@,
            ),
        }
    }
}

} // verus!
