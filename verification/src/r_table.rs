//! The wire-level packet model and the per-node routing state.

use crate::routes::{distinct, RouteTable};
use crate::skiplist::{
    ack_map_empty, ack_map_new, ack_map_view, skip_set_new, skip_set_view, sub_map_empty,
    sub_map_new, sub_map_view,
};
use crate::waiting::WaitTable;
use crossbeam_skiplist::{SkipMap, SkipSet};
use vstd::prelude::*;

verus! {

/// Correlation key of one packet instance. Two packets share an id only
/// when one is a copy of the other travelling through the mesh.
pub type PacketId = u128;

/// Name of a publish/subscribe topic.
pub type ChannelId = u128;

/// Identifier of a node in the mesh.
pub type ServiceId = u32;

/// A type a fresh random value can be drawn for.
pub trait Randomable: Sized {
    fn get_random() -> Self;
}

/// Relies on uuid::Uuid::new_v4, a freshly generated version-4 identifier,
/// read out through Uuid::as_u128. The result is random; nothing is promised
/// of it.
#[verifier::external_body]
fn random_uuid_bits() -> u128 {
    uuid::Uuid::new_v4().as_u128()
}

/// Relies on rand::random: a value drawn from the thread-local generator.
/// The result is random; nothing is promised of it.
#[verifier::external_body]
fn random_u32() -> u32 {
    rand::random()
}

/// Relies on rand::random: a value drawn from the thread-local generator.
/// The result is random; nothing is promised of it.
#[verifier::external_body]
fn random_u8() -> u8 {
    rand::random()
}

/// Relies on rand::random: a value drawn from the thread-local generator.
/// The result is random; nothing is promised of it.
#[verifier::external_body]
fn random_i64() -> i64 {
    rand::random()
}

impl Randomable for u128 {
    fn get_random() -> Self {
        random_uuid_bits()
    }
}

impl Randomable for u32 {
    fn get_random() -> Self {
        random_u32()
    }
}

impl Randomable for u8 {
    fn get_random() -> Self {
        random_u8()
    }
}

impl Randomable for i64 {
    fn get_random() -> Self {
        random_i64()
    }
}

/// The tagged payload of a packet.
#[derive(Debug)]
pub enum PacketType {
    /// A publish travelling along an established route.
    Pub(String),
    /// A subscription request: the originating subscriber and the channel.
    Sub(ServiceId, ChannelId),
    /// An answer to a subscription request: the request's id, the
    /// originating subscriber, and whether the subscription was accepted.
    SubAck(PacketId, ServiceId, bool),
    /// A route teardown.
    UnSub,
}

impl Clone for PacketType {
    fn clone(&self) -> (r: Self)
        ensures
            r == *self,
    {
        match self {
            PacketType::Pub(s) => PacketType::Pub(s.clone()),
            PacketType::Sub(se, ch) => PacketType::Sub(*se, *ch),
            PacketType::SubAck(id, se, yesno) => PacketType::SubAck(*id, *se, *yesno),
            PacketType::UnSub => PacketType::UnSub,
        }
    }
}

/// One wire-level message.
#[derive(Debug)]
pub struct Packet {
    pub id: PacketId,
    pub wire: ChannelId,
    /// immediate sender
    pub from: ServiceId,
    pub p_type: PacketType,
}

impl Clone for Packet {
    fn clone(&self) -> (r: Self)
        ensures
            r == *self,
    {
        Packet { id: self.id, wire: self.wire, from: self.from, p_type: self.p_type.clone() }
    }
}

impl Packet {
    /// The packet travelling on as the same logical message: the correlation
    /// id is kept and only the sender is updated.
    pub fn copy(&self, sen: ServiceId) -> (p: Packet)
        ensures
            p.id == self.id,
            p.wire == self.wire,
            p.from == sen,
            p.p_type == self.p_type,
    {
        let mut p = self.clone();
        p.id = self.id;
        p.from = sen;
        p
    }

    /// The packet re-issued as a fresh forwarding event: a new random
    /// correlation id, and the sender updated.
    pub fn repeat(&self, sen: ServiceId) -> (p: Packet)
        ensures
            p.wire == self.wire,
            p.from == sen,
            p.p_type == self.p_type,
    {
        let mut p = self.clone();
        p.id = PacketId::get_random();
        p.from = sen;
        p
    }
}

/// Per-node routing state.
pub struct RoutingTable {
    /// channels this node itself subscribes to
    pub channels: SkipSet<ChannelId>,
    /// for an in-flight subscription request, the neighbor (or this node)
    /// awaiting this node's aggregated answer
    pub sub_table: SkipMap<PacketId, ServiceId>,
    /// for an in-flight subscription request, how many neighbor answers are
    /// still outstanding
    pub ack_table: SkipMap<PacketId, usize>,
    /// for each channel with an active route, the neighbors to forward to
    pub routes: RouteTable,
}

impl RoutingTable {
    /// The channels this node itself subscribes to.
    pub open spec fn channels_view(self) -> Set<u128> {
        skip_set_view(self.channels)
    }

    /// The backward neighbor recorded for each in-flight request.
    pub open spec fn subs_view(self) -> Map<u128, u32> {
        sub_map_view(self.sub_table)
    }

    /// The outstanding-answer count recorded for each in-flight request.
    pub open spec fn acks_view(self) -> Map<u128, usize> {
        ack_map_view(self.ack_table)
    }

    /// The two correlation tables pair up: a request has a recorded backward
    /// neighbor exactly while it has an outstanding-answer count.
    pub open spec fn wf(self) -> bool {
        &&& self.routes.wf()
        &&& self.acks_view().dom() == self.subs_view().dom()
    }
}

impl Default for RoutingTable {
    fn default() -> (r: RoutingTable)
        ensures
            r.wf(),
            r.channels_view() == Set::<u128>::empty(),
            r.subs_view() == sub_map_empty(),
            r.acks_view() == ack_map_empty(),
            r.routes@ == Map::<u128, Seq<u32>>::empty(),
    {
        let r = RoutingTable {
            channels: skip_set_new(),
            sub_table: sub_map_new(),
            ack_table: ack_map_new(),
            routes: RouteTable::new(),
        };
        proof {
            assert(r.acks_view().dom() =~= r.subs_view().dom());
        }
        r
    }
}

/// The abstract state of a node's routing core, the terms all contracts are
/// stated in.
#[verifier::ext_equal]
pub struct RouterModel {
    pub self_id: u32,
    /// channels with local interest
    pub channels: Set<u128>,
    /// in-flight request id to the backward neighbor awaiting the answer
    pub subs: Map<u128, u32>,
    /// in-flight request id to the number of answers still outstanding
    pub acks: Map<u128, usize>,
    /// channel to the neighbors publishes for it are forwarded to
    pub routes: Map<u128, Seq<u32>>,
    /// ids of the neighbors with a registered outbound sink
    pub neighbors: Seq<u32>,
    /// channel to the publishes buffered while its subscribe is in flight
    pub waiting: Map<u128, Seq<String>>,
}

/// The routing core of one node: its identity, its routing table, the
/// neighbors packets can be handed to, and the buffers for publishes issued
/// while a local subscribe is still in flight.
///
/// The outbound sinks themselves live with the transport adapter; the core
/// only knows the neighbor ids and emits, for every packet handled or local
/// call made, the list of sends and local deliveries to perform.
pub struct RouterInner {
    pub self_id: ServiceId,
    pub table: RoutingTable,
    /// ids of the neighbors with a registered outbound sink
    pub neighbors: Vec<ServiceId>,
    /// buffered publishes per channel with an in-flight local subscribe
    pub waiting: WaitTable,
}

impl View for RouterInner {
    type V = RouterModel;

    open spec fn view(&self) -> RouterModel {
        RouterModel {
            self_id: self.self_id,
            channels: self.table.channels_view(),
            subs: self.table.subs_view(),
            acks: self.table.acks_view(),
            routes: self.table.routes@,
            neighbors: self.neighbors@,
            waiting: self.waiting@,
        }
    }
}

impl RouterInner {
    pub open spec fn wf(self) -> bool {
        &&& self.table.wf()
        &&& self.waiting.wf()
        &&& distinct(self.neighbors@)
    }

    /// A core with no neighbors, no interests, no routes and nothing in
    /// flight.
    pub fn new(self_id: ServiceId) -> (r: RouterInner)
        ensures
            r.wf(),
            r@.self_id == self_id,
            r@.channels == Set::<u128>::empty(),
            r@.subs == sub_map_empty(),
            r@.acks == ack_map_empty(),
            r@.routes == Map::<u128, Seq<u32>>::empty(),
            r@.neighbors == Seq::<u32>::empty(),
            r@.waiting == Map::<u128, Seq<String>>::empty(),
    {
        RouterInner {
            self_id,
            table: RoutingTable::default(),
            neighbors: Vec::new(),
            waiting: WaitTable::new(),
        }
    }

    /// Whether this node itself subscribes to the channel.
    pub fn has_local_interest(&self, c: ChannelId) -> (r: bool)
        ensures
            r == self@.channels.contains(c),
    {
        crate::skiplist::skip_set_contains(&self.table.channels, c)
    }

    /// A fresh packet originating at this node.
    pub fn packet(&self, to: ChannelId, msg_type: PacketType) -> (p: Packet)
        ensures
            p.wire == to,
            p.from == self.self_id,
            p.p_type == msg_type,
    {
        Packet {
            id: PacketId::get_random(),
            wire: to,
            from: self.self_id,
            p_type: msg_type,
        }
    }
}

} // verus!
