//! Tests of the packet model, the local-operation dispatch, and the sink
//! interface.

use std::cell::RefCell;

use mesh_router::handler::{run_effects, LinkError, MessageHandler};
use mesh_router::r_table::{Packet, PacketType, Randomable, RouterInner};
use mesh_router::reciever::{Effect, OutgoingMessage, Payload};

const X: u128 = 11;

#[test]
fn copy_keeps_the_correlation_id_and_updates_the_sender() {
    let p = Packet { id: 31, wire: X, from: 4, p_type: PacketType::Sub(9, X) };
    let c = p.copy(6);
    assert_eq!(c.id, 31);
    assert_eq!(c.wire, X);
    assert_eq!(c.from, 6);
    assert!(matches!(c.p_type, PacketType::Sub(9, _)));
}

#[test]
fn repeat_keeps_the_payload_and_updates_the_sender() {
    let p = Packet { id: 32, wire: X, from: 4, p_type: PacketType::Pub("pay".to_string()) };
    let r = p.repeat(6);
    assert_eq!(r.wire, X);
    assert_eq!(r.from, 6);
    match &r.p_type {
        PacketType::Pub(s) => assert_eq!(s, "pay"),
        _ => panic!("expected the payload to travel along"),
    }
}

#[test]
fn random_ids_can_be_drawn_for_every_supported_type() {
    let _: u128 = Randomable::get_random();
    let _: u32 = Randomable::get_random();
    let _: u8 = Randomable::get_random();
    let _: i64 = Randomable::get_random();
}

#[test]
fn payload_new_carries_channel_and_contents() {
    let p = Payload::new(X, "body".to_string());
    assert_eq!(p.dest, X);
    assert_eq!(p.contents, "body");
    let q = p.clone();
    assert_eq!(q.dest, X);
    assert_eq!(q.contents, "body");
}

#[test]
fn handle_msg_dispatches_like_the_direct_calls() {
    let mut a = RouterInner::new(1);
    a.add_entry(2);

    // subscribe through the message vocabulary
    let fx = a.handle_msg(OutgoingMessage::Sub(X));
    assert_eq!(fx.len(), 1);
    assert!(a.has_local_interest(X));
    assert!(a.waiting.has_channel(X));

    // a publish while in flight is buffered
    let fx = a.handle_msg(OutgoingMessage::Pub(Payload::new(X, "queued".to_string())));
    assert_eq!(fx.len(), 0);

    // unsubscribe through the message vocabulary
    let fx = a.handle_msg(OutgoingMessage::Unsub(X));
    assert_eq!(fx.len(), 0, "no route was ever built, nothing to tear down");
    assert!(!a.has_local_interest(X));
}

struct Collector {
    sent: RefCell<Vec<(u32, Packet)>>,
}

impl MessageHandler<(u32, Packet)> for Collector {
    fn try_handle(&self, p: (u32, Packet)) -> Result<(), LinkError> {
        self.sent.borrow_mut().push(p);
        Ok(())
    }
}

struct Deliveries {
    got: RefCell<Vec<Payload>>,
}

impl MessageHandler<Payload> for Deliveries {
    fn try_handle(&self, p: Payload) -> Result<(), LinkError> {
        self.got.borrow_mut().push(p);
        Ok(())
    }
}

#[test]
fn run_effects_routes_sends_and_deliveries_to_their_sinks() {
    let effects = vec![
        Effect::Send(2, Packet { id: 1, wire: X, from: 1, p_type: PacketType::UnSub }),
        Effect::Deliver(Payload::new(X, "here".to_string())),
        Effect::Send(3, Packet { id: 2, wire: X, from: 1, p_type: PacketType::UnSub }),
    ];
    let sink = Collector { sent: RefCell::new(Vec::new()) };
    let local = Deliveries { got: RefCell::new(Vec::new()) };
    run_effects(effects, &sink, &local);

    let sent = sink.sent.borrow();
    assert_eq!(sent.len(), 2);
    assert_eq!(sent[0].0, 2);
    assert_eq!(sent[1].0, 3);
    let got = local.got.borrow();
    assert_eq!(got.len(), 1);
    assert_eq!(got[0].contents, "here");
}
