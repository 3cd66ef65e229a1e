//! Single-node tests of the packet handlers and the local control API.

use mesh_router::r_table::{Packet, PacketType, RouterInner};
use mesh_router::reciever::Effect;

const X: u128 = 77;

/// The id the single outbound Sub packet of a local subscribe carried.
fn sub_request_id(effects: &[Effect]) -> u128 {
    assert_eq!(effects.len(), 1);
    match &effects[0] {
        Effect::Send(_, p) => match p.p_type {
            PacketType::Sub(_, _) => p.id,
            _ => panic!("expected a Sub packet"),
        },
        _ => panic!("expected a send"),
    }
}

#[test]
fn leaf_answers_subscribe_accepting_on_local_interest() {
    // a node with exactly one neighbor and local interest in the channel
    let mut b = RouterInner::new(2);
    b.add_entry(1);
    let fx = b.send_sub_msg(X);
    // flooding its own subscribe to the one neighbor is part of subscribing
    assert_eq!(fx.len(), 1);

    let sub = Packet { id: 500, wire: X, from: 1, p_type: PacketType::Sub(9, X) };
    let fx = b.handle_sub_packet(&sub, X, 9);
    assert_eq!(fx.len(), 1);
    match &fx[0] {
        Effect::Send(to, p) => {
            assert_eq!(*to, 1);
            assert_eq!(p.wire, X);
            assert_eq!(p.from, 2);
            assert!(matches!(p.p_type, PacketType::SubAck(500, 9, true)));
        }
        _ => panic!("expected a send"),
    }
    // the route edge back to the asking neighbor was installed
    assert_eq!(b.table.routes.members(X), vec![1]);
}

#[test]
fn leaf_answers_subscribe_rejecting_without_local_interest() {
    let mut b = RouterInner::new(2);
    b.add_entry(1);
    let sub = Packet { id: 501, wire: X, from: 1, p_type: PacketType::Sub(9, X) };
    let fx = b.handle_sub_packet(&sub, X, 9);
    assert_eq!(fx.len(), 1);
    match &fx[0] {
        Effect::Send(to, p) => {
            assert_eq!(*to, 1);
            assert!(matches!(p.p_type, PacketType::SubAck(501, 9, false)));
        }
        _ => panic!("expected a send"),
    }
    // no flooding, no route installed
    assert!(!b.table.routes.has_channel(X));
}

#[test]
fn subscribe_floods_copies_under_same_id() {
    let mut b = RouterInner::new(2);
    b.add_entry(1);
    b.add_entry(3);
    b.add_entry(4);
    let sub = Packet { id: 600, wire: X, from: 3, p_type: PacketType::Sub(9, X) };
    let fx = b.handle_sub_packet(&sub, X, 9);
    // flooded to every neighbor but the sender, same correlation id
    assert_eq!(fx.len(), 2);
    let mut targets = Vec::new();
    for e in &fx {
        match e {
            Effect::Send(to, p) => {
                assert_ne!(*to, 3);
                assert_eq!(p.id, 600);
                assert_eq!(p.from, 2);
                assert!(matches!(p.p_type, PacketType::Sub(9, _)));
                targets.push(*to);
            }
            _ => panic!("expected a send"),
        }
    }
    assert_eq!(targets, vec![1, 4]);
}

#[test]
fn publish_forwards_to_route_but_never_reflects() {
    let mut b = RouterInner::new(2);
    b.add_entry(1);
    b.add_entry(3);
    // build a route for X with members 1 and 3: a Sub from 1, answered
    // positively by 3
    let sub = Packet { id: 700, wire: X, from: 1, p_type: PacketType::Sub(9, X) };
    b.handle_sub_packet(&sub, X, 9);
    let ack = Packet { id: 701, wire: X, from: 3, p_type: PacketType::SubAck(700, 9, true) };
    b.handle_packet(&ack);
    assert_eq!(b.table.routes.members(X), vec![3, 1]);

    // a publish arriving from 1 goes to 3 only, never back to 1
    let publ = Packet { id: 702, wire: X, from: 1, p_type: PacketType::Pub("hi".to_string()) };
    let fx = b.handle_packet(&publ);
    assert_eq!(fx.len(), 1);
    match &fx[0] {
        Effect::Send(to, p) => {
            assert_eq!(*to, 3);
            assert_eq!(p.from, 2);
            match &p.p_type {
                PacketType::Pub(s) => assert_eq!(s, "hi"),
                _ => panic!("expected a publish"),
            }
        }
        _ => panic!("expected a send, not a local delivery"),
    }
}

#[test]
fn ack_aggregation_sends_exactly_one_backward_answer() {
    // B forwards a Sub from 1 to neighbors 3 and 4; both reject; exactly
    // one aggregated rejection goes back to 1, with the last answer
    let mut b = RouterInner::new(2);
    b.add_entry(1);
    b.add_entry(3);
    b.add_entry(4);
    let sub = Packet { id: 800, wire: X, from: 1, p_type: PacketType::Sub(9, X) };
    let fx = b.handle_sub_packet(&sub, X, 9);
    assert_eq!(fx.len(), 2);

    let mut backward: u32 = 0;
    let ack3 = Packet { id: 801, wire: X, from: 3, p_type: PacketType::SubAck(800, 9, false) };
    for e in b.handle_packet(&ack3) {
        if let Effect::Send(_, p) = e {
            if matches!(p.p_type, PacketType::SubAck(800, _, _)) {
                backward += 1;
            }
        }
    }
    assert_eq!(backward, 0, "first rejection must not answer yet");

    let ack4 = Packet { id: 802, wire: X, from: 4, p_type: PacketType::SubAck(800, 9, false) };
    let fx = b.handle_packet(&ack4);
    assert_eq!(fx.len(), 1);
    match &fx[0] {
        Effect::Send(to, p) => {
            assert_eq!(*to, 1);
            assert!(matches!(p.p_type, PacketType::SubAck(800, 9, false)));
        }
        _ => panic!("expected the aggregated answer"),
    }

    // a late duplicate is absorbed: no further backward answer
    let late = Packet { id: 803, wire: X, from: 3, p_type: PacketType::SubAck(800, 9, false) };
    assert_eq!(b.handle_packet(&late).len(), 0);
}

#[test]
fn ack_aggregation_first_positive_answer_wins() {
    let mut b = RouterInner::new(2);
    b.add_entry(1);
    b.add_entry(3);
    b.add_entry(4);
    let sub = Packet { id: 810, wire: X, from: 1, p_type: PacketType::Sub(9, X) };
    b.handle_sub_packet(&sub, X, 9);

    // the first acceptance is propagated at once
    let ack3 = Packet { id: 811, wire: X, from: 3, p_type: PacketType::SubAck(810, 9, true) };
    let fx = b.handle_packet(&ack3);
    assert_eq!(fx.len(), 1);
    match &fx[0] {
        Effect::Send(to, p) => {
            assert_eq!(*to, 1);
            assert!(matches!(p.p_type, PacketType::SubAck(810, 9, true)));
        }
        _ => panic!("expected the aggregated answer"),
    }
    // both the accepting neighbor and the backward neighbor are routed to
    assert_eq!(b.table.routes.members(X), vec![3, 1]);

    // the remaining neighbor's late rejection is absorbed silently
    let ack4 = Packet { id: 812, wire: X, from: 4, p_type: PacketType::SubAck(810, 9, false) };
    assert_eq!(b.handle_packet(&ack4).len(), 0);
}

#[test]
fn ack_aggregation_rejection_then_acceptance_also_answers_once() {
    let mut b = RouterInner::new(2);
    b.add_entry(1);
    b.add_entry(3);
    b.add_entry(4);
    let sub = Packet { id: 820, wire: X, from: 1, p_type: PacketType::Sub(9, X) };
    b.handle_sub_packet(&sub, X, 9);

    // a rejection first: counted down, nothing sent yet
    let ack4 = Packet { id: 821, wire: X, from: 4, p_type: PacketType::SubAck(820, 9, false) };
    assert_eq!(b.handle_packet(&ack4).len(), 0);

    // then the acceptance: exactly one positive answer backward
    let ack3 = Packet { id: 822, wire: X, from: 3, p_type: PacketType::SubAck(820, 9, true) };
    let fx = b.handle_packet(&ack3);
    assert_eq!(fx.len(), 1);
    match &fx[0] {
        Effect::Send(to, p) => {
            assert_eq!(*to, 1);
            assert!(matches!(p.p_type, PacketType::SubAck(820, 9, true)));
        }
        _ => panic!("expected the aggregated answer"),
    }
}

#[test]
fn publishes_during_subscribe_are_buffered_and_released_in_order() {
    let mut a = RouterInner::new(1);
    a.add_entry(2);
    let fx = a.send_sub_msg(X);
    let rid = sub_request_id(&fx);

    // issued while the subscribe is in flight: buffered, nothing sent
    assert_eq!(a.send_pub_msg(X, "first".to_string()).len(), 0);
    assert_eq!(a.send_pub_msg(X, "second".to_string()).len(), 0);
    assert!(a.waiting.has_channel(X));

    // the answer resolves the subscription and releases the buffer, in
    // issuance order, along the fresh route
    let ack = Packet { id: 900, wire: X, from: 2, p_type: PacketType::SubAck(rid, 1, true) };
    let fx = a.handle_packet(&ack);
    let mut released = Vec::new();
    for e in &fx {
        match e {
            Effect::Send(to, p) => {
                assert_eq!(*to, 2);
                match &p.p_type {
                    PacketType::Pub(s) => released.push(s.clone()),
                    _ => panic!("expected released publishes"),
                }
            }
            _ => panic!("expected sends only"),
        }
    }
    assert_eq!(released, vec!["first".to_string(), "second".to_string()]);
    assert!(!a.waiting.has_channel(X));

    // later publishes go straight out: released exactly once, never twice
    let fx = a.send_pub_msg(X, "third".to_string());
    assert_eq!(fx.len(), 1);
    let again = a.send_pub_msg(X, "fourth".to_string());
    assert_eq!(again.len(), 1);
}

#[test]
fn unsubscribe_prunes_but_propagates_only_when_nothing_remains() {
    let mut b = RouterInner::new(2);
    b.add_entry(1);
    b.add_entry(3);
    // route for X: members 3 (downstream) and 1 (backward)
    let sub = Packet { id: 950, wire: X, from: 1, p_type: PacketType::Sub(9, X) };
    b.handle_sub_packet(&sub, X, 9);
    let ack = Packet { id: 951, wire: X, from: 3, p_type: PacketType::SubAck(950, 9, true) };
    b.handle_packet(&ack);
    assert_eq!(b.table.routes.members(X), vec![3, 1]);

    // another member remains: prune only
    let unsub1 = Packet { id: 952, wire: X, from: 3, p_type: PacketType::UnSub };
    assert_eq!(b.handle_packet(&unsub1).len(), 0);
    assert_eq!(b.table.routes.members(X), vec![1]);

    // the last member goes: the teardown travels to everyone else
    let unsub2 = Packet { id: 953, wire: X, from: 1, p_type: PacketType::UnSub };
    let fx = b.handle_packet(&unsub2);
    assert_eq!(fx.len(), 1);
    match &fx[0] {
        Effect::Send(to, p) => {
            assert_eq!(*to, 3);
            assert!(matches!(p.p_type, PacketType::UnSub));
        }
        _ => panic!("expected a send"),
    }
    assert_eq!(b.table.routes.members(X), Vec::<u32>::new());
}

#[test]
fn unsubscribe_stops_at_local_interest() {
    let mut b = RouterInner::new(2);
    b.add_entry(1);
    b.send_sub_msg(X); // local interest at B
    let sub = Packet { id: 960, wire: X, from: 1, p_type: PacketType::Sub(9, X) };
    b.handle_sub_packet(&sub, X, 9);
    assert_eq!(b.table.routes.members(X), vec![1]);

    // B itself still subscribes: the teardown must not travel on
    let unsub = Packet { id: 961, wire: X, from: 1, p_type: PacketType::UnSub };
    assert_eq!(b.handle_packet(&unsub).len(), 0);
    assert_eq!(b.table.routes.members(X), Vec::<u32>::new());
}

#[test]
fn local_unsubscribe_drops_interest_and_tears_down_as_leaf() {
    let mut b = RouterInner::new(2);
    b.add_entry(1);
    b.send_sub_msg(X);
    let sub = Packet { id: 970, wire: X, from: 1, p_type: PacketType::Sub(9, X) };
    b.handle_sub_packet(&sub, X, 9);
    assert!(b.has_local_interest(X));
    assert_eq!(b.table.routes.members(X), vec![1]);

    // exactly one route member left: B is a pure leaf for X and passes the
    // teardown to it
    let fx = b.send_unsub_msg(X);
    assert!(!b.has_local_interest(X));
    assert_eq!(fx.len(), 1);
    match &fx[0] {
        Effect::Send(to, p) => {
            assert_eq!(*to, 1);
            assert!(matches!(p.p_type, PacketType::UnSub));
        }
        _ => panic!("expected a send"),
    }
}

#[test]
fn local_publish_without_route_or_buffer_is_dropped() {
    let mut a = RouterInner::new(1);
    a.add_entry(2);
    assert_eq!(a.send_pub_msg(X, "nobody listens".to_string()).len(), 0);
    assert!(!a.table.routes.has_channel(X));
    assert!(!a.waiting.has_channel(X));
}

#[test]
fn received_publish_without_route_is_dropped() {
    let mut b = RouterInner::new(2);
    b.add_entry(1);
    b.add_entry(3);
    let publ = Packet { id: 980, wire: X, from: 1, p_type: PacketType::Pub("x".to_string()) };
    assert_eq!(b.handle_packet(&publ).len(), 0);
    assert!(!b.table.routes.has_channel(X));
}

#[test]
fn stale_acknowledgment_is_dropped() {
    let mut b = RouterInner::new(2);
    b.add_entry(1);
    b.add_entry(3);
    // no pending entry for this subject at all
    let ack = Packet { id: 990, wire: X, from: 3, p_type: PacketType::SubAck(12345, 9, false) };
    assert_eq!(b.handle_packet(&ack).len(), 0);
}

#[test]
fn single_node_subscribe_marks_interest_only() {
    let mut a = RouterInner::new(1);
    let fx = a.send_sub_msg(X);
    assert_eq!(fx.len(), 0);
    assert!(a.has_local_interest(X));
    assert!(!a.waiting.has_channel(X));
}

#[test]
fn neighbor_registry_add_and_remove() {
    let mut a = RouterInner::new(1);
    a.add_entry(2);
    a.add_entry(3);
    a.add_entry(2); // already known: nothing changes
    assert_eq!(a.neighbors, vec![2, 3]);
    a.remove_entry(2);
    assert_eq!(a.neighbors, vec![3]);
    a.remove_entry(7); // unknown: nothing changes
    assert_eq!(a.neighbors, vec![3]);
}
