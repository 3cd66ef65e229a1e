//! End-to-end scenarios: three nodes in a line, packets shuttled between
//! them exactly as a transport would.

use mesh_router::r_table::{Packet, RouterInner};
use mesh_router::reciever::Effect;

const X: u128 = 42;

/// Deliver queued packets to their nodes until the mesh is quiet,
/// collecting every local delivery as (node, channel, payload).
fn pump(
    nodes: &mut Vec<RouterInner>,
    queue: &mut Vec<(u32, Packet)>,
    delivered: &mut Vec<(u32, u128, String)>,
) {
    while !queue.is_empty() {
        let (to, p) = queue.remove(0);
        let Some(node) = nodes.iter_mut().find(|n| n.self_id == to) else {
            continue;
        };
        for e in node.handle_packet(&p) {
            match e {
                Effect::Send(t, pkt) => queue.push((t, pkt)),
                Effect::Deliver(pl) => delivered.push((to, pl.dest, pl.contents)),
            }
        }
    }
}

/// Queue the effects of a local call made at `at`.
fn issue(
    at: u32,
    effects: Vec<Effect>,
    queue: &mut Vec<(u32, Packet)>,
    delivered: &mut Vec<(u32, u128, String)>,
) {
    for e in effects {
        match e {
            Effect::Send(t, pkt) => queue.push((t, pkt)),
            Effect::Deliver(pl) => delivered.push((at, pl.dest, pl.contents)),
        }
    }
}

fn line_of_three() -> Vec<RouterInner> {
    let mut a = RouterInner::new(1);
    let mut b = RouterInner::new(2);
    let mut c = RouterInner::new(3);
    a.add_entry(2);
    b.add_entry(1);
    b.add_entry(3);
    c.add_entry(2);
    vec![a, b, c]
}

#[test]
fn line_publish_reaches_the_subscriber_exactly_once() {
    let mut nodes = line_of_three();
    let mut queue = Vec::new();
    let mut delivered = Vec::new();

    // C subscribes to X; the publishing end subscribes as well, which is
    // what builds the route from A through B to C
    let fx = nodes[2].send_sub_msg(X);
    issue(3, fx, &mut queue, &mut delivered);
    pump(&mut nodes, &mut queue, &mut delivered);
    let fx = nodes[0].send_sub_msg(X);
    issue(1, fx, &mut queue, &mut delivered);
    pump(&mut nodes, &mut queue, &mut delivered);
    assert!(delivered.is_empty());

    // B's route table now has an entry for X pointing at C
    assert!(nodes[1].table.routes.has_channel(X));
    assert!(nodes[1].table.routes.members(X).contains(&3));

    // A publishes; C's local sink gets it exactly once, and nobody else
    let fx = nodes[0].send_pub_msg(X, "hello".to_string());
    issue(1, fx, &mut queue, &mut delivered);
    pump(&mut nodes, &mut queue, &mut delivered);
    assert_eq!(delivered, vec![(3, X, "hello".to_string())]);
}

#[test]
fn publish_before_any_subscriber_goes_nowhere() {
    let mut nodes = line_of_three();
    let mut queue = Vec::new();
    let mut delivered = Vec::new();

    let fx = nodes[0].send_pub_msg(X, "hello".to_string());
    issue(1, fx, &mut queue, &mut delivered);
    pump(&mut nodes, &mut queue, &mut delivered);

    // nothing is delivered, nothing is queued for later, and no route
    // entry came into being anywhere
    assert!(delivered.is_empty());
    for n in &nodes {
        assert!(!n.table.routes.has_channel(X));
        assert!(!n.waiting.has_channel(X));
    }
}

#[test]
fn teardown_travels_back_when_the_last_subscriber_leaves() {
    let mut nodes = line_of_three();
    let mut queue = Vec::new();
    let mut delivered = Vec::new();

    let fx = nodes[2].send_sub_msg(X);
    issue(3, fx, &mut queue, &mut delivered);
    pump(&mut nodes, &mut queue, &mut delivered);
    let fx = nodes[0].send_sub_msg(X);
    issue(1, fx, &mut queue, &mut delivered);
    pump(&mut nodes, &mut queue, &mut delivered);
    assert!(nodes[0].table.routes.has_channel(X));

    // A unsubscribes: as a pure leaf for X it sends the teardown, and B
    // prunes the edge toward A
    let before = nodes[1].table.routes.members(X);
    assert!(before.contains(&1));
    let fx = nodes[0].send_unsub_msg(X);
    issue(1, fx, &mut queue, &mut delivered);
    pump(&mut nodes, &mut queue, &mut delivered);
    let after = nodes[1].table.routes.members(X);
    assert!(!after.contains(&1));
    // C still subscribes, so B keeps routing toward C
    assert!(after.contains(&3));

    // a publish from B's side still reaches C, and nothing reaches A
    let fx = nodes[1].send_sub_msg(X);
    issue(2, fx, &mut queue, &mut delivered);
    pump(&mut nodes, &mut queue, &mut delivered);
    delivered.clear();
    let fx = nodes[1].send_pub_msg(X, "still there".to_string());
    issue(2, fx, &mut queue, &mut delivered);
    pump(&mut nodes, &mut queue, &mut delivered);
    assert_eq!(delivered, vec![(3, X, "still there".to_string())]);
}
