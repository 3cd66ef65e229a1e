//! Buffered publishes per channel.
//!
//! While a locally issued subscription is still in flight, publishes for
//! that channel are not sent but buffered. This table holds one queue per
//! such channel; the queue itself is an unbounded concurrent queue (see
//! [`crate::seg_queue`]), and the table is an association list with
//! distinct channel keys whose meaning is the map [`WaitTable::view`]:
//! channel to the buffered payloads in issuance order.

use crate::assoc::{
    assoc_map, lemma_assoc_map_dom, lemma_assoc_map_index, lemma_assoc_map_push,
    lemma_assoc_map_remove, lemma_assoc_map_update, unique_keys,
};
use crate::seg_queue::{seg_queue_new, seg_queue_push, seg_queue_view};
use crossbeam_queue::SegQueue;
use vstd::prelude::*;

verus! {

pub struct WaitTable {
    entries: Vec<(u128, SegQueue<String>)>,
}

impl WaitTable {
    /// The channel-to-buffer pairs, with the queues abstracted to the
    /// payload sequences they hold.
    pub closed spec fn pairs(self) -> Seq<(u128, Seq<String>)> {
        self.entries@.map_values(|p: (u128, SegQueue<String>)| (p.0, seg_queue_view(p.1)))
    }

    /// Channel keys are pairwise distinct.
    pub closed spec fn wf(self) -> bool {
        unique_keys(self.pairs())
    }

    pub fn new() -> (r: WaitTable)
        ensures
            r.wf(),
            r@ == Map::<u128, Seq<String>>::empty(),
    {
        let r = WaitTable { entries: Vec::new() };
        proof {
            assert(r.pairs() =~= Seq::<(u128, Seq<String>)>::empty());
        }
        r
    }

    fn find(&self, c: u128) -> (r: Option<usize>)
        ensures
            match r {
                Some(i) => i < self.pairs().len() && self.pairs()[i as int].0 == c,
                None => !self@.dom().contains(c),
            },
    {
        let n = self.entries.len();
        let mut i: usize = 0;
        while i < n
            invariant
                n == self.entries.len(),
                i <= n,
                forall|j: int| 0 <= j < i ==> self.pairs()[j].0 != c,
            decreases n - i,
        {
            if self.entries[i].0 == c {
                return Some(i);
            }
            i += 1;
        }
        proof {
            lemma_assoc_map_dom(self.pairs(), c);
        }
        None
    }

    /// Whether publishes for the channel are currently being buffered.
    pub fn has_channel(&self, c: u128) -> (r: bool)
        ensures
            r == self@.dom().contains(c),
    {
        let found = self.find(c);
        proof {
            lemma_assoc_map_dom(self.pairs(), c);
        }
        found.is_some()
    }

    /// Start buffering for the channel with an empty queue, discarding any
    /// queue that was already there.
    pub fn insert_empty(&mut self, c: u128)
        requires
            old(self).wf(),
        ensures
            final(self).wf(),
            final(self)@ == old(self)@.insert(c, Seq::<String>::empty()),
    {
        let ghost before = old(self).pairs();
        match self.find(c) {
            Some(i) => {
                let (key, _) = self.entries.remove(i);
                self.entries.insert(i, (key, seg_queue_new()));
                proof {
                    assert(self.pairs() =~= before.update(
                        i as int,
                        (c, Seq::<String>::empty()),
                    ));
                    lemma_assoc_map_update(before, i as int, Seq::<String>::empty());
                    assert(unique_keys(self.pairs())) by {
                        assert(forall|j: int|
                            0 <= j < before.len() ==> self.pairs()[j].0 == before[j].0);
                    }
                }
            },
            None => {
                self.entries.push((c, seg_queue_new()));
                proof {
                    lemma_assoc_map_dom(before, c);
                    assert(self.pairs() =~= before.push((c, Seq::<String>::empty())));
                    lemma_assoc_map_push(before, c, Seq::<String>::empty());
                    assert(unique_keys(self.pairs())) by {
                        assert(forall|j: int|
                            0 <= j < before.len() ==> self.pairs()[j] == before[j]);
                    }
                }
            },
        }
    }

    /// Append a payload to the channel's buffer; reports whether the channel
    /// was being buffered at all.
    pub fn push_payload(&mut self, c: u128, s: String) -> (pushed: bool)
        requires
            old(self).wf(),
        ensures
            final(self).wf(),
            pushed == old(self)@.dom().contains(c),
            final(self)@ == if old(self)@.dom().contains(c) {
                old(self)@.insert(c, old(self)@[c].push(s))
            } else {
                old(self)@
            },
    {
        let ghost before = old(self).pairs();
        match self.find(c) {
            Some(i) => {
                proof {
                    lemma_assoc_map_index(before, i as int);
                }
                let (key, mut q) = self.entries.remove(i);
                seg_queue_push(&mut q, s);
                self.entries.insert(i, (key, q));
                proof {
                    assert(self.pairs() =~= before.update(i as int, (c, before[i as int].1.push(s))));
                    lemma_assoc_map_update(before, i as int, before[i as int].1.push(s));
                    assert(unique_keys(self.pairs())) by {
                        assert(forall|j: int|
                            0 <= j < before.len() ==> self.pairs()[j].0 == before[j].0);
                    }
                }
                true
            },
            None => false,
        }
    }

    /// Stop buffering for the channel and hand back its queue, or `None` if
    /// the channel was not being buffered.
    pub fn take_channel(&mut self, c: u128) -> (r: Option<SegQueue<String>>)
        requires
            old(self).wf(),
        ensures
            final(self).wf(),
            match r {
                Some(q) => {
                    &&& old(self)@.dom().contains(c)
                    &&& seg_queue_view(q) == old(self)@[c]
                    &&& final(self)@ == old(self)@.remove(c)
                },
                None => {
                    &&& !old(self)@.dom().contains(c)
                    &&& final(self)@ == old(self)@
                },
            },
    {
        let ghost before = old(self).pairs();
        match self.find(c) {
            Some(i) => {
                proof {
                    lemma_assoc_map_index(before, i as int);
                }
                let (_, q) = self.entries.remove(i);
                proof {
                    assert(self.pairs() =~= before.remove(i as int));
                    lemma_assoc_map_remove(before, i as int);
                    assert(unique_keys(self.pairs())) by {
                        before.remove_ensures(i as int);
                    }
                }
                Some(q)
            },
            None => None,
        }
    }
}

impl View for WaitTable {
    type V = Map<u128, Seq<String>>;

    closed spec fn view(&self) -> Map<u128, Seq<String>> {
        assoc_map(self.pairs())
    }
}

} // verus!
