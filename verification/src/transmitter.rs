//! The local control API: subscribe, publish and unsubscribe issued at this
//! node, and the neighbor link registry.
//!
//! Like the packet handlers, each operation updates the routing core and
//! returns the [`Effect`]s to perform. A publish issued while the local
//! subscription for its channel is still in flight is buffered, not sent;
//! the buffer drains when the subscription resolves.

use crate::r_table::{ChannelId, Packet, PacketType, RouterInner, RouterModel, ServiceId};
use crate::reciever::{is_pub_send, route_of, Effect, OutgoingMessage};
use crate::routes::member_index;
use crate::skiplist::{ack_map_insert, skip_set_insert, skip_set_remove, sub_map_insert};
use vstd::prelude::*;

verus! {

/// The state after a locally issued publish: buffered if the channel's
/// subscription is still in flight, otherwise unchanged.
pub open spec fn step_send_pub(s: RouterModel, to: u128, payload: String) -> RouterModel {
    if s.waiting.dom().contains(to) {
        RouterModel { waiting: s.waiting.insert(to, s.waiting[to].push(payload)), ..s }
    } else {
        s
    }
}

/// What a locally issued publish emits: nothing while buffering, one
/// publish per route member otherwise. With neither a buffer nor a route,
/// the publish is dropped.
pub open spec fn send_pub_effects_ok(
    s: RouterModel,
    to: u128,
    payload: String,
    r: Seq<Effect>,
) -> bool {
    if s.waiting.dom().contains(to) {
        r.len() == 0
    } else {
        let ms = route_of(s.routes, to);
        &&& r.len() == ms.len()
        &&& forall|j: int|
            0 <= j < ms.len() ==> is_pub_send(#[trigger] r[j], ms[j], to, s.self_id, payload)
    }
}

/// Everything a locally issued subscribe does, for the request id `pid` it
/// drew: local interest and an empty publish buffer are recorded, the
/// request is sent to every neighbor under the one id, the backward target
/// is this node itself, and one answer is awaited per neighbor.
pub open spec fn send_sub_ok(
    pre: RouterModel,
    to: u128,
    pid: u128,
    post: RouterModel,
    r: Seq<Effect>,
) -> bool {
    &&& post == (RouterModel {
        channels: pre.channels.insert(to),
        waiting: pre.waiting.insert(to, Seq::<String>::empty()),
        subs: pre.subs.insert(pid, pre.self_id),
        acks: pre.acks.insert(pid, pre.neighbors.len() as usize),
        ..pre
    })
    &&& r.len() == pre.neighbors.len()
    &&& forall|j: int|
        0 <= j < r.len() ==> #[trigger] r[j] == Effect::Send(
            pre.neighbors[j],
            (Packet { id: pid, wire: to, from: pre.self_id, p_type: PacketType::Sub(pre.self_id, to) }),
        )
}

/// The state after a locally issued unsubscribe: only the local interest
/// goes; the route entry stays until the teardown comes back around.
pub open spec fn step_send_unsub(s: RouterModel, to: u128) -> RouterModel {
    RouterModel { channels: s.channels.remove(to), ..s }
}

/// The effect is a route teardown to this neighbor, sent by this node.
pub open spec fn is_unsub_send(e: Effect, to_n: u32, wire: u128, from_id: u32) -> bool {
    e matches Effect::Send(t, p) && t == to_n && p.wire == wire && p.from == from_id && p.p_type
        == PacketType::UnSub
}

/// What a locally issued unsubscribe emits: the teardown travels exactly
/// when this node is a pure leaf for the channel, that is, its route has
/// exactly one member left.
pub open spec fn send_unsub_effects_ok(s: RouterModel, to: u128, r: Seq<Effect>) -> bool {
    if s.routes.dom().contains(to) && s.routes[to].len() == 1 {
        r.len() == 1 && is_unsub_send(r[0], s.routes[to][0], to, s.self_id)
    } else {
        r.len() == 0
    }
}

impl RouterInner {
    /// Register a neighbor link; registering one that is already known
    /// changes nothing here (its sink is the caller's to replace).
    pub fn add_entry(&mut self, for_service: ServiceId)
        requires
            old(self).wf(),
        ensures
            final(self).wf(),
            final(self)@ == (RouterModel {
                neighbors: if old(self)@.neighbors.contains(for_service) {
                    old(self)@.neighbors
                } else {
                    old(self)@.neighbors.push(for_service)
                },
                ..old(self)@
            }),
    {
        match member_index(&self.neighbors, for_service) {
            Some(_) => {
                proof {
                    assert(final(self)@ =~~= (RouterModel {
                        neighbors: old(self)@.neighbors,
                        ..old(self)@
                    }));
                }
            },
            None => {
                let ghost before = self.neighbors@;
                self.neighbors.push(for_service);
                proof {
                    assert forall|i: int, j: int|
                        0 <= i < j < self.neighbors@.len() implies self.neighbors@[i]
                        != self.neighbors@[j] by {
                        if j < before.len() {
                            assert(self.neighbors@[i] == before[i]);
                            assert(self.neighbors@[j] == before[j]);
                        } else {
                            assert(self.neighbors@[i] == before[i]);
                            assert(before.contains(before[i]));
                        }
                    }
                }
            },
        }
    }

    /// Remove a neighbor link. Pending subscription entries awaiting that
    /// neighbor are left as they are: an in-flight request whose neighbor
    /// goes away stays pending.
    pub fn remove_entry(&mut self, for_service: ServiceId)
        requires
            old(self).wf(),
        ensures
            final(self).wf(),
            final(self)@ == (RouterModel {
                neighbors: old(self)@.neighbors.remove_value(for_service),
                ..old(self)@
            }),
    {
        let ghost before = self.neighbors@;
        match member_index(&self.neighbors, for_service) {
            Some(j) => {
                proof {
                    before.index_of_first_ensures(for_service);
                    assert(before.index_of_first(for_service) == Some(j as int));
                    before.remove_ensures(j as int);
                }
                self.neighbors.remove(j);
            },
            None => {
                proof {
                    before.index_of_first_ensures(for_service);
                }
            },
        }
    }

    /// A locally issued operation, dispatched on its kind.
    pub fn handle_msg(&mut self, t: OutgoingMessage) -> (r: Vec<Effect>)
        requires
            old(self).wf(),
        ensures
            final(self).wf(),
            (t matches OutgoingMessage::Pub(p) ==> final(self)@ == step_send_pub(
                old(self)@,
                p.dest,
                p.contents,
            ) && send_pub_effects_ok(old(self)@, p.dest, p.contents, r@)),
            (t matches OutgoingMessage::Sub(c) ==> (if old(self)@.neighbors.len() == 0 {
                final(self)@ == (RouterModel {
                    channels: old(self)@.channels.insert(c),
                    ..old(self)@
                }) && r@.len() == 0
            } else {
                exists|pid: u128| send_sub_ok(old(self)@, c, pid, final(self)@, r@)
            })),
            (t matches OutgoingMessage::Unsub(c) ==> final(self)@ == step_send_unsub(old(self)@, c)
                && send_unsub_effects_ok(old(self)@, c, r@)),
    {
        match t {
            OutgoingMessage::Pub(p) => self.send_pub_msg(p.dest, p.contents),
            OutgoingMessage::Sub(c) => self.send_sub_msg(c),
            OutgoingMessage::Unsub(c) => self.send_unsub_msg(c),
        }
    }

    /// Publish a payload issued at this node: buffered if the channel's
    /// subscription is still in flight, otherwise sent to every member of
    /// the channel's route, and dropped if there is neither buffer nor
    /// route.
    pub fn send_pub_msg(&mut self, to: ChannelId, payload: String) -> (r: Vec<Effect>)
        requires
            old(self).wf(),
        ensures
            final(self).wf(),
            final(self)@ == step_send_pub(old(self)@, to, payload),
            send_pub_effects_ok(old(self)@, to, payload, r@),
    {
        if self.waiting.has_channel(to) {
            let _ = self.waiting.push_payload(to, payload);
            Vec::new()
        } else {
            let members = self.table.routes.members(to);
            let ghost ms = route_of(old(self)@.routes, to);
            let mut out: Vec<Effect> = Vec::new();
            let mut i: usize = 0;
            while i < members.len()
                invariant
                    self == old(self),
                    self.wf(),
                    ms == members@,
                    i <= ms.len(),
                    out@.len() == i,
                    forall|j: int|
                        0 <= j < i ==> is_pub_send(
                            #[trigger] out@[j],
                            ms[j],
                            to,
                            self@.self_id,
                            payload,
                        ),
                decreases ms.len() - i,
            {
                let p = self.packet(to, PacketType::Pub(payload.clone()));
                out.push(Effect::Send(members[i], p));
                i += 1;
            }
            out
        }
    }

    /// Subscribe this node to a channel: local interest is recorded, and,
    /// unless the node has no neighbors at all, an empty publish buffer is
    /// installed and the request is flooded to every neighbor under one
    /// fresh id, with one answer awaited per neighbor and this node itself
    /// as the backward target.
    pub fn send_sub_msg(&mut self, to: ChannelId) -> (r: Vec<Effect>)
        requires
            old(self).wf(),
        ensures
            final(self).wf(),
            old(self)@.neighbors.len() == 0 ==> final(self)@ == (RouterModel {
                channels: old(self)@.channels.insert(to),
                ..old(self)@
            }) && r@.len() == 0,
            old(self)@.neighbors.len() > 0 ==> exists|pid: u128|
                send_sub_ok(old(self)@, to, pid, final(self)@, r@),
    {
        skip_set_insert(&mut self.table.channels, to);
        if self.neighbors.len() == 0 {
            return Vec::new();
        }
        self.waiting.insert_empty(to);
        let sb = self.packet(to, PacketType::Sub(self.self_id, to));
        let ghost pid = sb.id;
        let mut out: Vec<Effect> = Vec::new();
        let mut i: usize = 0;
        while i < self.neighbors.len()
            invariant
                self.neighbors@ == old(self)@.neighbors,
                self.self_id == old(self)@.self_id,
                sb == (Packet {
                    id: pid,
                    wire: to,
                    from: old(self)@.self_id,
                    p_type: PacketType::Sub(old(self)@.self_id, to),
                }),
                i <= self.neighbors@.len(),
                out@.len() == i,
                forall|j: int|
                    0 <= j < i ==> #[trigger] out@[j] == Effect::Send(
                        old(self)@.neighbors[j],
                        (Packet {
                            id: pid,
                            wire: to,
                            from: old(self)@.self_id,
                            p_type: PacketType::Sub(old(self)@.self_id, to),
                        }),
                    ),
            decreases self.neighbors@.len() - i,
        {
            out.push(Effect::Send(self.neighbors[i], sb.clone()));
            i += 1;
        }
        sub_map_insert(&mut self.table.sub_table, sb.id, self.self_id);
        ack_map_insert(&mut self.table.ack_table, sb.id, self.neighbors.len());
        proof {
            assert(final(self).table.acks_view().dom() =~= final(self).table.subs_view().dom());
            assert(final(self)@ =~~= (RouterModel {
                channels: old(self)@.channels.insert(to),
                waiting: old(self)@.waiting.insert(to, Seq::<String>::empty()),
                subs: old(self)@.subs.insert(pid, old(self)@.self_id),
                acks: old(self)@.acks.insert(pid, old(self)@.neighbors.len() as usize),
                ..old(self)@
            }));
            assert(send_sub_ok(old(self)@, to, pid, final(self)@, out@));
        }
        out
    }

    /// Unsubscribe this node from a channel: local interest is dropped, and
    /// if exactly one route member remains for the channel this node is a
    /// pure leaf for it and passes the teardown to that member.
    pub fn send_unsub_msg(&mut self, to: ChannelId) -> (r: Vec<Effect>)
        requires
            old(self).wf(),
        ensures
            final(self).wf(),
            final(self)@ == step_send_unsub(old(self)@, to),
            send_unsub_effects_ok(old(self)@, to, r@),
    {
        skip_set_remove(&mut self.table.channels, to);
        let mut out: Vec<Effect> = Vec::new();
        if self.table.routes.has_channel(to) {
            if self.table.routes.member_count(to) == 1 {
                let members = self.table.routes.members(to);
                let p = self.packet(to, PacketType::UnSub);
                out.push(Effect::Send(members[0], p));
            }
        }
        out
    }
}

} // verus!
