//! The packet processor: one incoming packet against the routing table.
//!
//! Each handler takes the node's routing core and one received packet,
//! updates the table, and returns the outward [`Effect`]s: packets to hand
//! to neighbor sinks and payloads to deliver to the local subscriber. The
//! caller (the transport loop around the core) performs them; a send to a
//! neighbor whose sink is gone is simply dropped there, which is the
//! protocol's "unreachable neighbor" behavior.

use crate::r_table::{ChannelId, Packet, PacketId, PacketType, RouterInner, RouterModel, ServiceId};
use crate::routes::{route_add, route_prune};
use crate::seg_queue::{seg_queue_pop, seg_queue_view};
use crate::skiplist::{ack_map_insert, ack_map_remove, skip_set_contains, sub_map_insert, sub_map_remove};
use vstd::prelude::*;

verus! {

/// A payload delivered to the local subscriber.
#[derive(Debug)]
pub struct Payload {
    pub dest: ChannelId,
    pub contents: String,
}

impl Payload {
    pub fn new(to: ChannelId, body: String) -> (p: Payload)
        ensures
            p.dest == to,
            p.contents == body,
    {
        Payload { dest: to, contents: body }
    }
}

impl Clone for Payload {
    fn clone(&self) -> (r: Self)
        ensures
            r == *self,
    {
        Payload { dest: self.dest, contents: self.contents.clone() }
    }
}

/// A locally issued operation, in the packet vocabulary of the node.
pub enum OutgoingMessage {
    Pub(Payload),
    Sub(ChannelId),
    Unsub(ChannelId),
}

/// One outward action a handler asks its caller to perform.
#[derive(Debug)]
pub enum Effect {
    /// hand the packet to the outbound sink of this neighbor
    Send(ServiceId, Packet),
    /// deliver the payload to the local subscriber
    Deliver(Payload),
}

/// The neighbors of `ns` without `from`, order kept.
pub open spec fn excluding(ns: Seq<u32>, from: u32) -> Seq<u32>
    decreases ns.len(),
{
    if ns.len() == 0 {
        Seq::empty()
    } else {
        let rest = excluding(ns.drop_last(), from);
        if ns.last() != from {
            rest.push(ns.last())
        } else {
            rest
        }
    }
}

/// `excluding` keeps only elements other than `from`, and no more of them
/// than there were.
pub proof fn lemma_excluding(ns: Seq<u32>, from: u32)
    ensures
        forall|j: int| 0 <= j < excluding(ns, from).len() ==> excluding(ns, from)[j] != from,
        excluding(ns, from).len() <= ns.len(),
    decreases ns.len(),
{
    if ns.len() > 0 {
        lemma_excluding(ns.drop_last(), from);
    }
}

/// One step of `excluding` under `push`.
pub proof fn lemma_excluding_push(ns: Seq<u32>, x: u32, from: u32)
    ensures
        excluding(ns.push(x), from) == if x != from {
            excluding(ns, from).push(x)
        } else {
            excluding(ns, from)
        },
{
    assert(ns.push(x).drop_last() =~= ns);
}

/// The effect is a publish of this payload to this neighbor, sent by this
/// node (the packet id is fresh and left open).
pub open spec fn is_pub_send(e: Effect, to: u32, wire: u128, from_id: u32, payload: String) -> bool {
    e matches Effect::Send(t, p) && t == to && p.wire == wire && p.from == from_id && p.p_type
        == PacketType::Pub(payload)
}

/// The effect is a subscription answer to this neighbor, correlated to
/// `subject`, sent by this node (the packet id is fresh and left open).
pub open spec fn is_ack_send(
    e: Effect,
    to: u32,
    wire: u128,
    from_id: u32,
    subject: u128,
    se: u32,
    accepted: bool,
) -> bool {
    e matches Effect::Send(t, p) && t == to && p.wire == wire && p.from == from_id && p.p_type
        == PacketType::SubAck(subject, se, accepted)
}

/// The effect carries a subscription answer correlated to `subject`,
/// whatever its direction or verdict.
pub open spec fn is_ack_send_for(e: Effect, subject: u128) -> bool {
    e matches Effect::Send(_, p) && p.p_type matches PacketType::SubAck(s2, _, _) && s2 == subject
}

/// How many of the effects carry a subscription answer correlated to
/// `subject`.
pub open spec fn ack_sends_for(r: Seq<Effect>, subject: u128) -> nat
    decreases r.len(),
{
    if r.len() == 0 {
        0
    } else {
        ack_sends_for(r.drop_last(), subject) + if is_ack_send_for(r.last(), subject) {
            1nat
        } else {
            0nat
        }
    }
}

/// A batch with no answer for `subject` counts zero.
pub proof fn lemma_ack_sends_none(r: Seq<Effect>, subject: u128)
    requires
        forall|i: int| 0 <= i < r.len() ==> !is_ack_send_for(#[trigger] r[i], subject),
    ensures
        ack_sends_for(r, subject) == 0,
    decreases r.len(),
{
    if r.len() > 0 {
        assert(forall|i: int|
            0 <= i < r.drop_last().len() ==> #[trigger] r.drop_last()[i] == r[i]);
        lemma_ack_sends_none(r.drop_last(), subject);
    }
}

/// A batch of one answer for `subject` counts one.
pub proof fn lemma_ack_sends_single(r: Seq<Effect>, subject: u128)
    requires
        r.len() == 1,
        is_ack_send_for(r[0], subject),
    ensures
        ack_sends_for(r, subject) == 1,
{
    assert(r.last() == r[0]);
    assert(r.drop_last().len() == 0);
    assert(ack_sends_for(r.drop_last(), subject) == 0);
}

/// The effect is some publish to some neighbor.
pub open spec fn is_any_pub_send(e: Effect) -> bool {
    e matches Effect::Send(_, p) && p.p_type matches PacketType::Pub(_)
}

/// The channel's buffered payloads, oldest first; empty when none are
/// buffered.
pub open spec fn waiting_of(s: RouterModel, wire: u128) -> Seq<String> {
    if s.waiting.dom().contains(wire) {
        s.waiting[wire]
    } else {
        Seq::empty()
    }
}

/// The channel's route members; empty when the channel has no route entry.
pub open spec fn route_of(m: Map<u128, Seq<u32>>, wire: u128) -> Seq<u32> {
    if m.dom().contains(wire) {
        m[wire]
    } else {
        Seq::empty()
    }
}

/// The batch re-publishes every buffered payload to every route member:
/// member by member, each member getting all payloads in issuance order.
pub open spec fn is_blast(
    r: Seq<Effect>,
    members: Seq<u32>,
    msgs: Seq<String>,
    wire: u128,
    from_id: u32,
) -> bool {
    &&& r.len() == members.len() * msgs.len()
    &&& forall|a: int, b: int| #![trigger members[a], msgs[b]]
        0 <= a < members.len() && 0 <= b < msgs.len() ==> is_pub_send(
            r[a * msgs.len() + b],
            members[a],
            wire,
            from_id,
            msgs[b],
        )
    &&& forall|i: int| 0 <= i < r.len() ==> is_any_pub_send(#[trigger] r[i])
}

/// No effect of the batch sends to `n`.
pub open spec fn no_send_to(r: Seq<Effect>, n: u32) -> bool {
    forall|i: int| 0 <= i < r.len() ==> match #[trigger] r[i] {
        Effect::Send(t, _) => t != n,
        Effect::Deliver(_) => true,
    }
}

/// What handling a publish emits: one forward per routed neighbor other
/// than the sender, in route order, then the local delivery if this node
/// itself subscribes to the channel. The table is left as it was.
pub open spec fn pub_effects_ok(
    s: RouterModel,
    msg: Packet,
    payload: String,
    r: Seq<Effect>,
) -> bool {
    let ns = route_of(s.routes, msg.wire);
    let fwd = excluding(ns, msg.from);
    let local = s.channels.contains(msg.wire);
    &&& r.len() == fwd.len() + if local {
        1int
    } else {
        0int
    }
    &&& forall|j: int|
        0 <= j < fwd.len() ==> is_pub_send(#[trigger] r[j], fwd[j], msg.wire, s.self_id, payload)
    &&& (local ==> r[fwd.len() as int] == Effect::Deliver(
        (Payload { dest: msg.wire, contents: payload }),
    ))
}

impl RouterInner {
    /// Forward a received publish along the channel's route, never back to
    /// the neighbor it arrived from, and deliver it locally if this node
    /// subscribes to the channel. No acknowledgment, no buffering: a publish
    /// with no route and no local interest is dropped.
    pub fn handle_pub_packet(&self, msg: &Packet, payload: &String) -> (r: Vec<Effect>)
        requires
            self.wf(),
            msg.p_type == PacketType::Pub(*payload),
        ensures
            pub_effects_ok(self@, *msg, *payload, r@),
            no_send_to(r@, msg.from),
    {
        let members = self.table.routes.members(msg.wire);
        let ghost ms = members@;
        let mut out: Vec<Effect> = Vec::new();
        let mut i: usize = 0;
        while i < members.len()
            invariant
                self.wf(),
                msg.p_type == PacketType::Pub(*payload),
                ms == members@,
                i <= ms.len(),
                out@.len() == excluding(ms.subrange(0, i as int), msg.from).len(),
                forall|j: int|
                    0 <= j < out@.len() ==> is_pub_send(
                        #[trigger] out@[j],
                        excluding(ms.subrange(0, i as int), msg.from)[j],
                        msg.wire,
                        self.self_id,
                        *payload,
                    ),
            decreases ms.len() - i,
        {
            let k = members[i];
            proof {
                assert(ms.subrange(0, (i + 1) as int) =~= ms.subrange(0, i as int).push(ms[i as int]));
                lemma_excluding_push(ms.subrange(0, i as int), ms[i as int], msg.from);
            }
            if k != msg.from {
                out.push(Effect::Send(k, msg.repeat(self.self_id)));
            }
            i += 1;
        }
        proof {
            assert(ms.subrange(0, ms.len() as int) =~= ms);
            lemma_excluding(ms, msg.from);
        }
        if skip_set_contains(&self.table.channels, msg.wire) {
            out.push(Effect::Deliver(Payload { dest: msg.wire, contents: payload.clone() }));
        }
        out
    }

    /// A copy of the packet (same correlation id, sender updated to this
    /// node) addressed to every neighbor except the one it arrived from, in
    /// registration order.
    fn flood_copies(&self, msg: &Packet) -> (r: Vec<Effect>)
        ensures
            r@.len() == excluding(self@.neighbors, msg.from).len(),
            forall|j: int|
                0 <= j < r@.len() ==> #[trigger] r@[j] == Effect::Send(
                    excluding(self@.neighbors, msg.from)[j],
                    (Packet {
                        id: msg.id,
                        wire: msg.wire,
                        from: self.self_id,
                        p_type: msg.p_type,
                    }),
                ),
            no_send_to(r@, msg.from),
    {
        let ghost ns = self.neighbors@;
        let mut out: Vec<Effect> = Vec::new();
        let mut i: usize = 0;
        while i < self.neighbors.len()
            invariant
                ns == self.neighbors@,
                i <= ns.len(),
                out@.len() == excluding(ns.subrange(0, i as int), msg.from).len(),
                forall|j: int|
                    0 <= j < out@.len() ==> #[trigger] out@[j] == Effect::Send(
                        excluding(ns.subrange(0, i as int), msg.from)[j],
                        (Packet {
                            id: msg.id,
                            wire: msg.wire,
                            from: self.self_id,
                            p_type: msg.p_type,
                        }),
                    ),
            decreases ns.len() - i,
        {
            let k = self.neighbors[i];
            proof {
                assert(ns.subrange(0, (i + 1) as int) =~= ns.subrange(0, i as int).push(
                    ns[i as int],
                ));
                lemma_excluding_push(ns.subrange(0, i as int), ns[i as int], msg.from);
            }
            if k != msg.from {
                out.push(Effect::Send(k, msg.copy(self.self_id)));
            }
            i += 1;
        }
        proof {
            assert(ns.subrange(0, ns.len() as int) =~= ns);
            lemma_excluding(ns, msg.from);
        }
        out
    }

    /// Handle a received subscription request. A leaf (exactly one
    /// neighbor) answers at once, accepting exactly when it subscribes to
    /// the channel itself, and installs the route edge on acceptance. Any
    /// other node records the backward neighbor, floods a copy to all other
    /// neighbors, and waits for that many answers.
    pub fn handle_sub_packet(&mut self, msg: &Packet, ch: ChannelId, se: ServiceId) -> (r: Vec<
        Effect,
    >)
        requires
            old(self).wf(),
        ensures
            final(self).wf(),
            final(self)@ == step_sub(old(self)@, msg.from, msg.id, ch),
            sub_effects_ok(old(self)@, *msg, ch, se, r@),
            old(self)@.neighbors.len() != 1 ==> no_send_to(r@, msg.from),
    {
        if self.neighbors.len() == 1 {
            let local = skip_set_contains(&self.table.channels, ch);
            if local {
                self.table.routes.add_member(ch, msg.from);
            }
            let target = self.neighbors[0];
            let p = self.packet(ch, PacketType::SubAck(msg.id, se, local));
            let mut out: Vec<Effect> = Vec::new();
            out.push(Effect::Send(target, p));
            out
        } else {
            let out = self.flood_copies(msg);
            sub_map_insert(&mut self.table.sub_table, msg.id, msg.from);
            ack_map_insert(&mut self.table.ack_table, msg.id, out.len());
            proof {
                assert(self.table.acks_view().dom() =~= self.table.subs_view().dom());
                assert(final(self)@ =~~= step_sub(old(self)@, msg.from, msg.id, ch));
            }
            out
        }
    }

    /// Handle a received route teardown. If other route members remain for
    /// the channel, or this node subscribes to it itself, the teardown stops
    /// here; otherwise it is passed on to every neighbor except the sender.
    /// Either way the sender's route edge is pruned afterwards; a teardown
    /// for a channel without a route entry is dropped.
    pub fn handle_unsub_packet(&mut self, msg: &Packet) -> (r: Vec<Effect>)
        requires
            old(self).wf(),
        ensures
            final(self).wf(),
            final(self)@ == step_unsub(old(self)@, msg.from, msg.wire),
            unsub_effects_ok(old(self)@, *msg, r@),
            no_send_to(r@, msg.from),
    {
        let mut out: Vec<Effect> = Vec::new();
        if self.table.routes.has_channel(msg.wire) {
            let cnt = self.table.routes.member_count(msg.wire);
            let local = skip_set_contains(&self.table.channels, msg.wire);
            if cnt > 1 || local {
                // the tree still has other reasons to exist: stop here
            } else {
                out = self.flood_copies(msg);
            }
            self.table.routes.remove_member(msg.wire, msg.from);
            proof {
                assert(final(self)@ =~~= step_unsub(old(self)@, msg.from, msg.wire));
            }
        }
        out
    }

    /// Release the publishes buffered for a channel whose subscription has
    /// just resolved: the buffer entry is removed, and every buffered
    /// payload is re-published to every member of the channel's route, in
    /// issuance order per member.
    pub fn send_sub_ack_msg(&mut self, to: ChannelId) -> (r: Vec<Effect>)
        requires
            old(self).wf(),
        ensures
            final(self).wf(),
            final(self)@ == (RouterModel { waiting: old(self)@.waiting.remove(to), ..old(self)@ }),
            is_blast(
                r@,
                route_of(old(self)@.routes, to),
                waiting_of(old(self)@, to),
                to,
                old(self)@.self_id,
            ),
    {
        let ghost total = waiting_of(old(self)@, to);
        let mut msgs: Vec<String> = Vec::new();
        match self.waiting.take_channel(to) {
            Some(mut q) => {
                let mut done = false;
                while !done
                    invariant
                        msgs@ + seg_queue_view(q) == total,
                        done ==> seg_queue_view(q).len() == 0,
                    decreases seg_queue_view(q).len(), (if done { 0int } else { 1int }),
                {
                    match seg_queue_pop(&mut q) {
                        Some(s) => {
                            msgs.push(s);
                            proof {
                                assert(msgs@ + seg_queue_view(q) =~= total);
                            }
                        },
                        None => {
                            done = true;
                        },
                    }
                }
                proof {
                    assert(msgs@ =~= total);
                }
            },
            None => {
                proof {
                    assert(msgs@ =~= total);
                    assert(old(self)@.waiting.remove(to) =~= old(self)@.waiting);
                }
            },
        }
        let members = self.table.routes.members(to);
        let ghost ms = route_of(old(self)@.routes, to);
        let ghost li = msgs@.len() as int;
        let mut out: Vec<Effect> = Vec::new();
        let mut a: usize = 0;
        while a < members.len()
            invariant
                self.wf(),
                self@ == (RouterModel { waiting: old(self)@.waiting.remove(to), ..old(self)@ }),
                ms == members@,
                li == msgs@.len() as int,
                a <= ms.len(),
                out@.len() == a * li,
                forall|x: int, y: int| #![trigger ms[x], msgs@[y]]
                    0 <= x < a && 0 <= y < li ==> is_pub_send(
                        out@[x * li + y],
                        ms[x],
                        to,
                        self@.self_id,
                        msgs@[y],
                    ),
                forall|i: int| 0 <= i < out@.len() ==> is_any_pub_send(#[trigger] out@[i]),
            decreases ms.len() - a,
        {
            let mut b: usize = 0;
            while b < msgs.len()
                invariant
                    self.wf(),
                    self@ == (RouterModel { waiting: old(self)@.waiting.remove(to), ..old(self)@ }),
                    ms == members@,
                    li == msgs@.len() as int,
                    a < ms.len(),
                    b <= li,
                    out@.len() == a * li + b,
                    forall|x: int, y: int| #![trigger ms[x], msgs@[y]]
                        (0 <= x < a && 0 <= y < li) || (x == a && 0 <= y < b) ==> is_pub_send(
                            out@[x * li + y],
                            ms[x],
                            to,
                            self@.self_id,
                            msgs@[y],
                        ),
                    forall|i: int| 0 <= i < out@.len() ==> is_any_pub_send(#[trigger] out@[i]),
                decreases li - b,
            {
                let p = self.packet(to, PacketType::Pub(msgs[b].clone()));
                out.push(Effect::Send(members[a], p));
                b += 1;
                proof {
                    assert forall|x: int, y: int| #![trigger ms[x], msgs@[y]]
                        (0 <= x < a && 0 <= y < li) || (x == a && 0 <= y < b) implies is_pub_send(
                        out@[x * li + y],
                        ms[x],
                        to,
                        self@.self_id,
                        msgs@[y],
                    ) by {
                        if x < a {
                            assert(x * li + y < a * li) by (nonlinear_arith)
                                requires
                                    0 <= x < a,
                                    0 <= y < li,
                            ;
                        }
                    }
                }
            }
            a += 1;
            proof {
                assert(a * li == (a - 1) * li + li) by (nonlinear_arith);
            }
        }
        proof {
            assert(out@.len() == ms.len() * li) by (nonlinear_arith)
                requires
                    out@.len() == a * li,
                    a == ms.len(),
            ;
        }
        out
    }

    /// Handle a received subscription answer, aggregating it against the
    /// pending entry recorded for its subject. See [`step_sub_ack`] for the
    /// three branches; exactly one aggregated answer ever travels backward
    /// per pending entry, whatever order the answers arrive in.
    pub fn handle_sub_ack_packet(
        &mut self,
        msg: &Packet,
        id: PacketId,
        se: ServiceId,
        yesno: bool,
    ) -> (r: Vec<Effect>)
        requires
            old(self).wf(),
        ensures
            final(self).wf(),
            final(self)@ == step_sub_ack(old(self)@, msg.from, msg.wire, id, se, yesno),
            sub_ack_effects_ok(old(self)@, *msg, id, se, yesno, r@),
            ack_sends_for(r@, id) == if sub_ack_consumes(old(self)@, msg.wire, id, se, yesno) {
                1nat
            } else {
                0nat
            },
    {
        if se == self.self_id {
            if yesno {
                self.table.routes.add_member(msg.wire, msg.from);
            }
            match ack_map_remove(&mut self.table.ack_table, id) {
                Some(c) => {
                    if c <= 1 {
                        let _ = sub_map_remove(&mut self.table.sub_table, id);
                        let out = self.send_sub_ack_msg(msg.wire);
                        proof {
                            assert(final(self)@ =~~= step_sub_ack(
                                old(self)@,
                                msg.from,
                                msg.wire,
                                id,
                                se,
                                yesno,
                            ));
                            lemma_ack_sends_none(out@, id);
                        }
                        out
                    } else {
                        ack_map_insert(&mut self.table.ack_table, id, c - 1);
                        proof {
                            assert(final(self)@ =~~= step_sub_ack(
                                old(self)@,
                                msg.from,
                                msg.wire,
                                id,
                                se,
                                yesno,
                            ));
                        }
                        Vec::new()
                    }
                },
                None => {
                    proof {
                        assert(final(self)@ =~~= step_sub_ack(
                            old(self)@,
                            msg.from,
                            msg.wire,
                            id,
                            se,
                            yesno,
                        ));
                    }
                    Vec::new()
                },
            }
        } else {
            let local = skip_set_contains(&self.table.channels, msg.wire);
            if yesno || local {
                self.table.routes.ensure_channel(msg.wire);
                if yesno {
                    self.table.routes.add_member(msg.wire, msg.from);
                }
                match ack_map_remove(&mut self.table.ack_table, id) {
                    Some(_) => {
                        match sub_map_remove(&mut self.table.sub_table, id) {
                            Some(back) => {
                                self.table.routes.add_member(msg.wire, back);
                                let p = self.packet(msg.wire, PacketType::SubAck(id, se, true));
                                let mut out: Vec<Effect> = Vec::new();
                                out.push(Effect::Send(back, p));
                                proof {
                                    assert(final(self)@ =~~= step_sub_ack(
                                        old(self)@,
                                        msg.from,
                                        msg.wire,
                                        id,
                                        se,
                                        yesno,
                                    ));
                                    lemma_ack_sends_single(out@, id);
                                }
                                out
                            },
                            None => {
                                // the two correlation tables pair up, so a
                                // recorded count always has a recorded
                                // backward neighbor
                                proof {
                                    assert(false);
                                }
                                Vec::new()
                            },
                        }
                    },
                    None => {
                        proof {
                            assert(final(self)@ =~~= step_sub_ack(
                                old(self)@,
                                msg.from,
                                msg.wire,
                                id,
                                se,
                                yesno,
                            ));
                        }
                        Vec::new()
                    },
                }
            } else {
                match ack_map_remove(&mut self.table.ack_table, id) {
                    Some(c) => {
                        if c <= 1 {
                            match sub_map_remove(&mut self.table.sub_table, id) {
                                Some(back) => {
                                    let p = self.packet(
                                        msg.wire,
                                        PacketType::SubAck(id, se, false),
                                    );
                                    let mut out: Vec<Effect> = Vec::new();
                                    out.push(Effect::Send(back, p));
                                    proof {
                                        assert(final(self)@ =~~= step_sub_ack(
                                            old(self)@,
                                            msg.from,
                                            msg.wire,
                                            id,
                                            se,
                                            yesno,
                                        ));
                                        lemma_ack_sends_single(out@, id);
                                    }
                                    out
                                },
                                None => {
                                    // as above: counts and backward
                                    // neighbors pair up
                                    proof {
                                        assert(false);
                                    }
                                    Vec::new()
                                },
                            }
                        } else {
                            ack_map_insert(&mut self.table.ack_table, id, c - 1);
                            proof {
                                assert(final(self)@ =~~= step_sub_ack(
                                    old(self)@,
                                    msg.from,
                                    msg.wire,
                                    id,
                                    se,
                                    yesno,
                                ));
                            }
                            Vec::new()
                        }
                    },
                    None => {
                        proof {
                            assert(final(self)@ =~~= step_sub_ack(
                                old(self)@,
                                msg.from,
                                msg.wire,
                                id,
                                se,
                                yesno,
                            ));
                        }
                        Vec::new()
                    },
                }
            }
        }
    }

    /// The packet-ingestion entry point: dispatch one received packet on
    /// its kind. Fire and forget: nothing is reported to the caller beyond
    /// the effects to perform.
    pub fn handle_packet(&mut self, msg: &Packet) -> (r: Vec<Effect>)
        requires
            old(self).wf(),
        ensures
            final(self).wf(),
            final(self)@ == step_packet(old(self)@, *msg),
            packet_effects_ok(old(self)@, *msg, r@),
    {
        match &msg.p_type {
            PacketType::Pub(payload) => self.handle_pub_packet(msg, payload),
            PacketType::Sub(se, ch) => self.handle_sub_packet(msg, *ch, *se),
            PacketType::SubAck(id, se, yesno) => self.handle_sub_ack_packet(msg, *id, *se, *yesno),
            PacketType::UnSub => self.handle_unsub_packet(msg),
        }
    }
}

/// The state after one received packet, by kind: a publish never changes
/// the table.
pub open spec fn step_packet(s: RouterModel, msg: Packet) -> RouterModel {
    match msg.p_type {
        PacketType::Pub(_) => s,
        PacketType::Sub(_se, ch) => step_sub(s, msg.from, msg.id, ch),
        PacketType::SubAck(id, se, yesno) => step_sub_ack(s, msg.from, msg.wire, id, se, yesno),
        PacketType::UnSub => step_unsub(s, msg.from, msg.wire),
    }
}

/// What one received packet emits, by kind. A publish or a teardown is
/// never sent back to the neighbor it arrived from.
pub open spec fn packet_effects_ok(s: RouterModel, msg: Packet, r: Seq<Effect>) -> bool {
    match msg.p_type {
        PacketType::Pub(payload) => pub_effects_ok(s, msg, payload, r) && no_send_to(r, msg.from),
        PacketType::Sub(se, ch) => sub_effects_ok(s, msg, ch, se, r),
        PacketType::SubAck(id, se, yesno) => sub_ack_effects_ok(s, msg, id, se, yesno, r),
        PacketType::UnSub => unsub_effects_ok(s, msg, r) && no_send_to(r, msg.from),
    }
}

/// The state after a received subscription answer (the branch structure of
/// the handler, in order): for an answer to a request this node itself
/// originated, the route edge is installed on acceptance and the
/// outstanding count runs down, resolution removing the correlation entries
/// and the channel's publish buffer. For a forwarded request, the first
/// positive or locally satisfied answer consumes the correlation entries
/// and installs the edges (answering neighbor on acceptance, backward
/// neighbor always); pure rejections run the count down, the last one
/// consuming the entries. An answer with no matching correlation entry only
/// performs the unconditional route bookkeeping of its branch.
pub open spec fn step_sub_ack(
    s: RouterModel,
    from: u32,
    wire: u128,
    subject: u128,
    se: u32,
    yesno: bool,
) -> RouterModel {
    if se == s.self_id {
        let s1 = if yesno {
            RouterModel { routes: route_add(s.routes, wire, from), ..s }
        } else {
            s
        };
        if s1.acks.dom().contains(subject) {
            if s1.acks[subject] <= 1 {
                RouterModel {
                    subs: s1.subs.remove(subject),
                    acks: s1.acks.remove(subject),
                    waiting: s1.waiting.remove(wire),
                    ..s1
                }
            } else {
                RouterModel {
                    acks: s1.acks.insert(subject, (s1.acks[subject] - 1) as usize),
                    ..s1
                }
            }
        } else {
            s1
        }
    } else if yesno || s.channels.contains(wire) {
        let routes1 = if s.routes.dom().contains(wire) {
            s.routes
        } else {
            s.routes.insert(wire, Seq::empty())
        };
        let routes2 = if yesno {
            route_add(routes1, wire, from)
        } else {
            routes1
        };
        if s.acks.dom().contains(subject) {
            RouterModel {
                routes: route_add(routes2, wire, s.subs[subject]),
                subs: s.subs.remove(subject),
                acks: s.acks.remove(subject),
                ..s
            }
        } else {
            RouterModel { routes: routes2, ..s }
        }
    } else {
        if s.acks.dom().contains(subject) {
            if s.acks[subject] <= 1 {
                RouterModel { subs: s.subs.remove(subject), acks: s.acks.remove(subject), ..s }
            } else {
                RouterModel { acks: s.acks.insert(subject, (s.acks[subject] - 1) as usize), ..s }
            }
        } else {
            s
        }
    }
}

/// The answer consumes the pending entry of a request this node forwarded
/// and sends the aggregated answer backward: at once for a positive or
/// locally satisfied answer, with the last outstanding rejection otherwise.
pub open spec fn sub_ack_consumes(
    s: RouterModel,
    wire: u128,
    subject: u128,
    se: u32,
    yesno: bool,
) -> bool {
    if se == s.self_id {
        false
    } else if yesno || s.channels.contains(wire) {
        s.acks.dom().contains(subject)
    } else {
        s.acks.dom().contains(subject) && s.acks[subject] <= 1
    }
}

/// The answer is the last one outstanding for a request this node itself
/// originated, and resolves it.
pub open spec fn sub_ack_resolves_self(s: RouterModel, subject: u128, se: u32) -> bool {
    se == s.self_id && s.acks.dom().contains(subject) && s.acks[subject] <= 1
}

/// What handling a subscription answer emits: resolution of an own request
/// releases the buffered publishes along the (possibly just extended)
/// route; consumption of a forwarded request sends exactly one aggregated
/// answer to the recorded backward neighbor; everything else emits nothing.
pub open spec fn sub_ack_effects_ok(
    s: RouterModel,
    msg: Packet,
    subject: u128,
    se: u32,
    yesno: bool,
    r: Seq<Effect>,
) -> bool {
    if se == s.self_id {
        if sub_ack_resolves_self(s, subject, se) {
            let routes1 = if yesno {
                route_add(s.routes, msg.wire, msg.from)
            } else {
                s.routes
            };
            is_blast(r, route_of(routes1, msg.wire), waiting_of(s, msg.wire), msg.wire, s.self_id)
        } else {
            r.len() == 0
        }
    } else if yesno || s.channels.contains(msg.wire) {
        if s.acks.dom().contains(subject) {
            r.len() == 1 && is_ack_send(
                r[0],
                s.subs[subject],
                msg.wire,
                s.self_id,
                subject,
                se,
                true,
            )
        } else {
            r.len() == 0
        }
    } else {
        if s.acks.dom().contains(subject) && s.acks[subject] <= 1 {
            r.len() == 1 && is_ack_send(
                r[0],
                s.subs[subject],
                msg.wire,
                s.self_id,
                subject,
                se,
                false,
            )
        } else {
            r.len() == 0
        }
    }
}

/// The state after a received subscription request: a leaf only installs
/// the route edge when it subscribes itself; any other node records the
/// backward neighbor and the number of answers it awaits.
pub open spec fn step_sub(s: RouterModel, from: u32, id: u128, ch: u128) -> RouterModel {
    if s.neighbors.len() == 1 {
        if s.channels.contains(ch) {
            RouterModel { routes: route_add(s.routes, ch, from), ..s }
        } else {
            s
        }
    } else {
        RouterModel {
            subs: s.subs.insert(id, from),
            acks: s.acks.insert(id, excluding(s.neighbors, from).len() as usize),
            ..s
        }
    }
}

/// What handling a subscription request emits: a leaf answers the single
/// neighbor at once; any other node floods a copy (same id) to every
/// neighbor but the sender.
pub open spec fn sub_effects_ok(
    s: RouterModel,
    msg: Packet,
    ch: u128,
    se: u32,
    r: Seq<Effect>,
) -> bool {
    if s.neighbors.len() == 1 {
        &&& r.len() == 1
        &&& is_ack_send(r[0], s.neighbors[0], ch, s.self_id, msg.id, se, s.channels.contains(ch))
    } else {
        let targets = excluding(s.neighbors, msg.from);
        &&& r.len() == targets.len()
        &&& forall|j: int|
            0 <= j < targets.len() ==> #[trigger] r[j] == Effect::Send(
                targets[j],
                (Packet { id: msg.id, wire: msg.wire, from: s.self_id, p_type: msg.p_type }),
            )
    }
}

/// The state after a received route teardown: the sender's edge is pruned;
/// a channel without a route entry is left alone.
pub open spec fn step_unsub(s: RouterModel, from: u32, wire: u128) -> RouterModel {
    if s.routes.dom().contains(wire) {
        RouterModel { routes: route_prune(s.routes, wire, from), ..s }
    } else {
        s
    }
}

/// The teardown travels on exactly when, before pruning, the sender's edge
/// is the only reason the route still exists: no second route member and no
/// local interest.
pub open spec fn unsub_propagates(s: RouterModel, from: u32, wire: u128) -> bool {
    &&& s.routes.dom().contains(wire)
    &&& !(s.routes[wire].len() > 1 || s.channels.contains(wire))
}

/// What handling a route teardown emits: a copy to every neighbor but the
/// sender when it travels on, nothing otherwise.
pub open spec fn unsub_effects_ok(s: RouterModel, msg: Packet, r: Seq<Effect>) -> bool {
    if unsub_propagates(s, msg.from, msg.wire) {
        let targets = excluding(s.neighbors, msg.from);
        &&& r.len() == targets.len()
        &&& forall|j: int|
            0 <= j < targets.len() ==> #[trigger] r[j] == Effect::Send(
                targets[j],
                (Packet { id: msg.id, wire: msg.wire, from: s.self_id, p_type: msg.p_type }),
            )
    } else {
        r.len() == 0
    }
}

} // verus!
