//! Protocol laws, proved over the abstract step functions of the handlers.
//!
//! The handlers' own contracts say what each single call does; the proofs
//! here chain those steps and state what holds across whole runs: that
//! acknowledgment aggregation answers exactly once however the answers
//! arrive, that publishes buffered during an in-flight subscription are
//! kept in issuance order and handed over whole on resolution, and when a
//! route teardown travels on.

use crate::r_table::RouterModel;
use crate::reciever::{
    step_sub_ack, step_unsub, sub_ack_consumes, sub_ack_resolves_self, unsub_propagates,
    waiting_of,
};
use crate::transmitter::step_send_pub;
use vstd::prelude::*;

verus! {

/// One received subscription answer, as the aggregation sees it: who
/// answered, on which channel, and the verdict.
pub struct AckEvent {
    pub from: u32,
    pub wire: u128,
    pub yesno: bool,
}

/// The state after a sequence of answers for one subject, each handled as
/// [`step_sub_ack`] says.
pub open spec fn fold_acks(
    s: RouterModel,
    subject: u128,
    se: u32,
    evs: Seq<AckEvent>,
) -> RouterModel
    decreases evs.len(),
{
    if evs.len() == 0 {
        s
    } else {
        fold_acks(
            step_sub_ack(s, evs[0].from, evs[0].wire, subject, se, evs[0].yesno),
            subject,
            se,
            evs.drop_first(),
        )
    }
}

/// How many of the answers consume the pending entry — by the handler's
/// contract, exactly how many aggregated answers are sent backward.
pub open spec fn consumed_count(
    s: RouterModel,
    subject: u128,
    se: u32,
    evs: Seq<AckEvent>,
) -> nat
    decreases evs.len(),
{
    if evs.len() == 0 {
        0
    } else {
        (if sub_ack_consumes(s, evs[0].wire, subject, se, evs[0].yesno) {
            1nat
        } else {
            0nat
        }) + consumed_count(
            step_sub_ack(s, evs[0].from, evs[0].wire, subject, se, evs[0].yesno),
            subject,
            se,
            evs.drop_first(),
        )
    }
}

/// Once the pending entry for a forwarded request is gone, later answers
/// for it are absorbed: none consumes, and the entry never comes back.
pub proof fn lemma_acks_absorbed(s: RouterModel, subject: u128, se: u32, evs: Seq<AckEvent>)
    requires
        se != s.self_id,
        !s.acks.dom().contains(subject),
    ensures
        consumed_count(s, subject, se, evs) == 0,
        !fold_acks(s, subject, se, evs).acks.dom().contains(subject),
        fold_acks(s, subject, se, evs).self_id == s.self_id,
    decreases evs.len(),
{
    if evs.len() > 0 {
        let s1 = step_sub_ack(s, evs[0].from, evs[0].wire, subject, se, evs[0].yesno);
        lemma_acks_absorbed(s1, subject, se, evs.drop_first());
    }
}

/// Acknowledgment aggregation exactness: a subscription request this node
/// forwarded awaits one answer per flooded neighbor. However those answers
/// arrive — early acceptance, late rejections, any order of channels and
/// verdicts — exactly one of them consumes the pending entry, so by the
/// handler's contract exactly one aggregated answer is sent to the
/// recorded backward neighbor; every answer after that is absorbed.
pub proof fn lemma_ack_aggregation_exact(
    s: RouterModel,
    subject: u128,
    se: u32,
    evs: Seq<AckEvent>,
)
    requires
        se != s.self_id,
        s.acks.dom().contains(subject),
        s.acks[subject] as int == evs.len(),
        evs.len() >= 1,
    ensures
        consumed_count(s, subject, se, evs) == 1,
        !fold_acks(s, subject, se, evs).acks.dom().contains(subject),
    decreases evs.len(),
{
    let e = evs[0];
    let s1 = step_sub_ack(s, e.from, e.wire, subject, se, e.yesno);
    if sub_ack_consumes(s, e.wire, subject, se, e.yesno) {
        assert(!s1.acks.dom().contains(subject));
        lemma_acks_absorbed(s1, subject, se, evs.drop_first());
    } else {
        // a pure rejection with more than one answer still outstanding:
        // the count runs down by one
        assert(s1.acks[subject] as int == evs.len() - 1);
        lemma_ack_aggregation_exact(s1, subject, se, evs.drop_first());
    }
}

/// The state after a sequence of publishes issued locally for one channel,
/// each handled as [`step_send_pub`] says.
pub open spec fn fold_local_pubs(s: RouterModel, to: u128, ps: Seq<String>) -> RouterModel
    decreases ps.len(),
{
    if ps.len() == 0 {
        s
    } else {
        fold_local_pubs(step_send_pub(s, to, ps[0]), to, ps.drop_first())
    }
}

/// While a channel's subscription is in flight, every locally issued
/// publish lands in its buffer, in issuance order, and nothing else of the
/// state moves (and, by the contract of the publish call, none of them is
/// sent).
pub proof fn lemma_publishes_buffered(s: RouterModel, to: u128, ps: Seq<String>)
    requires
        s.waiting.dom().contains(to),
    ensures
        fold_local_pubs(s, to, ps) == (RouterModel {
            waiting: s.waiting.insert(to, s.waiting[to] + ps),
            ..s
        }),
    decreases ps.len(),
{
    if ps.len() == 0 {
        assert(s.waiting.insert(to, s.waiting[to] + ps) =~= s.waiting);
        assert(fold_local_pubs(s, to, ps) =~~= (RouterModel {
            waiting: s.waiting.insert(to, s.waiting[to] + ps),
            ..s
        }));
    } else {
        let s1 = step_send_pub(s, to, ps[0]);
        lemma_publishes_buffered(s1, to, ps.drop_first());
        assert(s1.waiting[to] + ps.drop_first() =~= s.waiting[to] + ps);
        assert(s1.waiting.insert(to, s1.waiting[to] + ps.drop_first()) =~= s.waiting.insert(
            to,
            s.waiting[to] + ps,
        ));
        assert(fold_local_pubs(s, to, ps) =~~= (RouterModel {
            waiting: s.waiting.insert(to, s.waiting[to] + ps),
            ..s
        }));
    }
}

/// Buffered publish release: publishes issued between `subscribe` and the
/// arrival of the last outstanding answer sit in the buffer in issuance
/// order; that last answer resolves the subscription, removes the buffer
/// exactly once, and what the handler then re-publishes (its blast
/// contract) is exactly the buffered sequence — nothing before resolution,
/// nothing twice after it.
pub proof fn lemma_buffered_publish_release(
    s: RouterModel,
    to: u128,
    ps: Seq<String>,
    from: u32,
    subject: u128,
    yesno: bool,
)
    requires
        s.waiting.dom().contains(to),
        s.acks.dom().contains(subject),
        s.acks[subject] <= 1,
    ensures
        ({
            let buffered = fold_local_pubs(s, to, ps);
            let resolved = step_sub_ack(buffered, from, to, subject, s.self_id, yesno);
            &&& waiting_of(buffered, to) == s.waiting[to] + ps
            &&& sub_ack_resolves_self(buffered, subject, s.self_id)
            &&& resolved.waiting == buffered.waiting.remove(to)
            &&& !resolved.waiting.dom().contains(to)
        }),
{
    lemma_publishes_buffered(s, to, ps);
}

/// Unsubscribe propagation threshold: a received teardown travels upstream
/// exactly when, after the sender's route edge is pruned, no route member
/// remains for the channel and this node has no local interest in it;
/// otherwise only the local edge is pruned. (A teardown from a neighbor
/// that is not a route member, arriving while exactly one other member
/// remains, is left out: there the handler still forwards although that
/// member remains.)
pub proof fn lemma_unsub_threshold(s: RouterModel, from: u32, wire: u128)
    requires
        s.routes.dom().contains(wire),
        !(s.routes[wire].len() == 1 && !s.routes[wire].contains(from) && !s.channels.contains(
            wire,
        )),
    ensures
        unsub_propagates(s, from, wire) <==> (step_unsub(s, from, wire).routes[wire].len() == 0
            && !s.channels.contains(wire)),
{
    let ms = s.routes[wire];
    ms.index_of_first_ensures(from);
    if ms.contains(from) {
        let i = ms.index_of_first(from)->Some_0;
        ms.remove_ensures(i);
        assert(step_unsub(s, from, wire).routes[wire].len() == ms.len() - 1);
    } else {
        assert(step_unsub(s, from, wire).routes[wire] == ms);
    }
}

} // verus!
