//! The sink interface between the routing core and its surroundings.
//!
//! The core itself only computes effects; handing a packet to a neighbor
//! process or a payload to the local subscriber is the transport's job. A
//! deployment implements [`MessageHandler`] with whatever carries its
//! messages (an in-process channel, a socket, an actor address) and runs
//! the effect batches through [`run_effects`].

use crate::r_table::{Packet, ServiceId};
use crate::reciever::{Effect, Payload};
use vstd::prelude::*;

verus! {

/// A send failed: the receiving side is gone. The core treats this as
/// "neighbor unreachable", never as fatal.
#[derive(Debug, Clone, Copy, PartialEq, Eq, Structural)]
pub struct LinkError;

/// Something that tries to hand a message onward. Implemented outside the
/// core by the transport adapters; nothing is promised of what an
/// implementation does.
pub trait MessageHandler<T> {
    fn try_handle(&self, p: T) -> Result<(), LinkError>;
}

/// Perform a batch of effects: each send goes, with the neighbor to reach,
/// to the packet sink, each local delivery to the delivery sink. Failures
/// are absorbed: a failed send is an unreachable neighbor, and forwarding
/// goes on.
pub fn run_effects<S: MessageHandler<(ServiceId, Packet)>, D: MessageHandler<Payload>>(
    effects: Vec<Effect>,
    sink: &S,
    deliver: &D,
)
{
    let mut rest = effects;
    while rest.len() > 0
        decreases rest@.len(),
    {
        match rest.remove(0) {
            Effect::Send(to, p) => {
                let _ = sink.try_handle((to, p));
            },
            Effect::Deliver(pl) => {
                let _ = deliver.try_handle(pl);
            },
        }
    }
}

} // verus!
