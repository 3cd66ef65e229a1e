//! The active-route table of a node.
//!
//! For every channel with a live route the table holds the set of neighbors
//! that publishes (and route teardowns) for that channel are forwarded to,
//! kept in the order the route edges were installed. The table is an
//! association list with distinct channel keys and distinct members per
//! channel; its meaning is the map [`RouteTable::view`].

use crate::assoc::{
    assoc_map, lemma_assoc_map_dom, lemma_assoc_map_index, lemma_assoc_map_push,
    lemma_assoc_map_update, unique_keys,
};
use vstd::prelude::*;

verus! {

/// Pairwise distinct elements.
pub open spec fn distinct<T>(s: Seq<T>) -> bool {
    forall|i: int, j: int| 0 <= i < j < s.len() ==> s[i] != s[j]
}

/// Adding a member to a channel's route: installs the channel if it is new,
/// appends the member if it is not already routed to.
pub open spec fn route_add(m: Map<u128, Seq<u32>>, c: u128, n: u32) -> Map<u128, Seq<u32>> {
    if m.dom().contains(c) {
        if m[c].contains(n) {
            m
        } else {
            m.insert(c, m[c].push(n))
        }
    } else {
        m.insert(c, seq![n])
    }
}

/// Pruning a member from a channel's route; a channel without a route and a
/// member not routed to are left as they are. The channel entry itself stays,
/// possibly empty.
pub open spec fn route_prune(m: Map<u128, Seq<u32>>, c: u128, n: u32) -> Map<u128, Seq<u32>> {
    if m.dom().contains(c) {
        m.insert(c, m[c].remove_value(n))
    } else {
        m
    }
}

/// Appending a pair with a fresh key and distinct members keeps the table
/// well formed.
proof fn lemma_wf_push(s: Seq<(u128, Seq<u32>)>, c: u128, v: Seq<u32>)
    requires
        unique_keys(s),
        forall|i: int| 0 <= i < s.len() ==> distinct(#[trigger] s[i].1),
        forall|i: int| 0 <= i < s.len() ==> s[i].0 != c,
        distinct(v),
    ensures
        unique_keys(s.push((c, v))),
        forall|i: int| 0 <= i < s.push((c, v)).len() ==> distinct(#[trigger] s.push((c, v))[i].1),
{
    let t = s.push((c, v));
    assert forall|i: int, j: int| 0 <= i < j < t.len() implies t[i].0 != t[j].0 by {
        if j < s.len() {
            assert(t[i] == s[i] && t[j] == s[j]);
        } else {
            assert(t[i] == s[i] && t[j] == (c, v));
        }
    }
    assert forall|i: int| 0 <= i < t.len() implies distinct(#[trigger] t[i].1) by {
        if i < s.len() {
            assert(t[i] == s[i]);
        } else {
            assert(t[i] == (c, v));
        }
    }
}

/// Replacing the members at one index, keeping its key, keeps the table
/// well formed as long as the new members are distinct.
proof fn lemma_wf_update(s: Seq<(u128, Seq<u32>)>, i: int, v: Seq<u32>)
    requires
        unique_keys(s),
        forall|j: int| 0 <= j < s.len() ==> distinct(#[trigger] s[j].1),
        0 <= i < s.len(),
        distinct(v),
    ensures
        unique_keys(s.update(i, (s[i].0, v))),
        forall|j: int|
            0 <= j < s.update(i, (s[i].0, v)).len() ==> distinct(
                #[trigger] s.update(i, (s[i].0, v))[j].1,
            ),
{
    let t = s.update(i, (s[i].0, v));
    assert forall|a: int, b: int| 0 <= a < b < t.len() implies t[a].0 != t[b].0 by {
        assert(t[a].0 == s[a].0 && t[b].0 == s[b].0);
    }
    assert forall|j: int| 0 <= j < t.len() implies distinct(#[trigger] t[j].1) by {
        if j != i {
            assert(t[j] == s[j]);
        }
    }
}

pub struct RouteTable {
    entries: Vec<(u128, Vec<u32>)>,
}

impl RouteTable {
    /// The channel-to-members pairs, with the member vectors abstracted to
    /// sequences.
    pub closed spec fn pairs(self) -> Seq<(u128, Seq<u32>)> {
        self.entries@.map_values(|p: (u128, Vec<u32>)| (p.0, p.1@))
    }

    /// Channel keys are pairwise distinct, and so are the members of each
    /// channel's route.
    pub closed spec fn wf(self) -> bool {
        &&& unique_keys(self.pairs())
        &&& forall|i: int|
            0 <= i < self.pairs().len() ==> distinct(#[trigger] self.pairs()[i].1)
    }

    pub fn new() -> (r: RouteTable)
        ensures
            r.wf(),
            r@ == Map::<u128, Seq<u32>>::empty(),
    {
        let r = RouteTable { entries: Vec::new() };
        proof {
            assert(r.pairs() =~= Seq::<(u128, Seq<u32>)>::empty());
        }
        r
    }

    fn find(&self, c: u128) -> (r: Option<usize>)
        ensures
            match r {
                Some(i) => i < self.pairs().len() && self.pairs()[i as int].0 == c,
                None => !self@.dom().contains(c),
            },
    {
        let n = self.entries.len();
        let mut i: usize = 0;
        while i < n
            invariant
                n == self.entries.len(),
                i <= n,
                forall|j: int| 0 <= j < i ==> self.pairs()[j].0 != c,
            decreases n - i,
        {
            if self.entries[i].0 == c {
                return Some(i);
            }
            i += 1;
        }
        proof {
            lemma_assoc_map_dom(self.pairs(), c);
        }
        None
    }

    /// Whether the channel has a route entry (possibly with no members).
    pub fn has_channel(&self, c: u128) -> (r: bool)
        ensures
            r == self@.dom().contains(c),
    {
        let found = self.find(c);
        proof {
            lemma_assoc_map_dom(self.pairs(), c);
        }
        found.is_some()
    }

    /// How many neighbors the channel's route holds; zero for a channel
    /// without an entry.
    pub fn member_count(&self, c: u128) -> (r: usize)
        requires
            self.wf(),
        ensures
            r as int == if self@.dom().contains(c) {
                self@[c].len() as int
            } else {
                0
            },
    {
        match self.find(c) {
            Some(i) => {
                proof {
                    lemma_assoc_map_index(self.pairs(), i as int);
                }
                self.entries[i].1.len()
            },
            None => 0,
        }
    }

    /// The members of the channel's route, in installation order; empty for
    /// a channel without an entry.
    pub fn members(&self, c: u128) -> (r: Vec<u32>)
        requires
            self.wf(),
        ensures
            r@ == if self@.dom().contains(c) {
                self@[c]
            } else {
                Seq::<u32>::empty()
            },
    {
        match self.find(c) {
            Some(i) => {
                proof {
                    lemma_assoc_map_index(self.pairs(), i as int);
                }
                copy_members(&self.entries[i].1)
            },
            None => Vec::new(),
        }
    }

    /// Install an (empty) route entry for the channel if there is none.
    pub fn ensure_channel(&mut self, c: u128)
        requires
            old(self).wf(),
        ensures
            final(self).wf(),
            final(self)@ == if old(self)@.dom().contains(c) {
                old(self)@
            } else {
                old(self)@.insert(c, Seq::<u32>::empty())
            },
    {
        match self.find(c) {
            Some(_) => {
                proof {
                    lemma_assoc_map_dom(self.pairs(), c);
                }
            },
            None => {
                let ghost before = self.pairs();
                self.entries.push((c, Vec::new()));
                proof {
                    lemma_assoc_map_dom(before, c);
                    assert(self.pairs() =~= before.push((c, Seq::<u32>::empty())));
                    lemma_assoc_map_push(before, c, Seq::<u32>::empty());
                    lemma_wf_push(before, c, Seq::<u32>::empty());
                }
            },
        }
    }

    /// Add a member to the channel's route, installing the channel if it is
    /// new; a member already routed to is left alone.
    pub fn add_member(&mut self, c: u128, n: u32)
        requires
            old(self).wf(),
        ensures
            final(self).wf(),
            final(self)@ == route_add(old(self)@, c, n),
    {
        match self.find(c) {
            Some(i) => {
                proof {
                    lemma_assoc_map_index(self.pairs(), i as int);
                }
                let (key, mut v) = self.entries.remove(i);
                let ghost before = old(self).pairs();
                let ghost vs = v@;
                let present = member_index(&v, n).is_some();
                if !present {
                    v.push(n);
                }
                self.entries.insert(i, (key, v));
                proof {
                    if present {
                        assert(self.pairs() =~= before);
                    } else {
                        assert(distinct(vs.push(n))) by {
                            assert(forall|k: int| 0 <= k < vs.len() ==> vs[k] != n);
                        }
                        assert(self.pairs() =~= before.update(i as int, (c, vs.push(n))));
                        lemma_assoc_map_update(before, i as int, vs.push(n));
                        lemma_wf_update(before, i as int, vs.push(n));
                    }
                }
            },
            None => {
                let ghost before = self.pairs();
                let mut v: Vec<u32> = Vec::new();
                v.push(n);
                self.entries.push((c, v));
                proof {
                    lemma_assoc_map_dom(before, c);
                    assert(v@ =~= seq![n]);
                    assert(self.pairs() =~= before.push((c, seq![n])));
                    lemma_assoc_map_push(before, c, seq![n]);
                    lemma_wf_push(before, c, seq![n]);
                }
            },
        }
    }

    /// Prune a member from the channel's route; the entry itself stays.
    pub fn remove_member(&mut self, c: u128, n: u32)
        requires
            old(self).wf(),
        ensures
            final(self).wf(),
            final(self)@ == route_prune(old(self)@, c, n),
    {
        match self.find(c) {
            Some(i) => {
                proof {
                    lemma_assoc_map_index(self.pairs(), i as int);
                }
                let (key, mut v) = self.entries.remove(i);
                let ghost before = old(self).pairs();
                let ghost vs = v@;
                match member_index(&v, n) {
                    Some(j) => {
                        proof {
                            vs.index_of_first_ensures(n);
                            assert(vs.index_of_first(n) == Some(j as int));
                            assert(vs.remove_value(n) == vs.remove(j as int));
                        }
                        v.remove(j);
                    },
                    None => {
                        proof {
                            vs.index_of_first_ensures(n);
                            assert(vs.remove_value(n) == vs);
                        }
                    },
                }
                self.entries.insert(i, (key, v));
                proof {
                    assert(distinct(vs.remove_value(n))) by {
                        vs.index_of_first_ensures(n);
                        if vs.contains(n) {
                            let fi = vs.index_of_first(n)->Some_0;
                            vs.remove_ensures(fi);
                        }
                    }
                    assert(self.pairs() =~= before.update(i as int, (c, vs.remove_value(n))));
                    lemma_assoc_map_update(before, i as int, vs.remove_value(n));
                    lemma_wf_update(before, i as int, vs.remove_value(n));
                }
            },
            None => {},
        }
    }
}

impl View for RouteTable {
    type V = Map<u128, Seq<u32>>;

    closed spec fn view(&self) -> Map<u128, Seq<u32>> {
        assoc_map(self.pairs())
    }
}

/// A fresh vector with the same contents.
fn copy_members(v: &Vec<u32>) -> (r: Vec<u32>)
    ensures
        r@ == v@,
{
    let mut r: Vec<u32> = Vec::new();
    let mut i: usize = 0;
    while i < v.len()
        invariant
            i <= v@.len(),
            r@ =~= v@.subrange(0, i as int),
        decreases v@.len() - i,
    {
        r.push(v[i]);
        i += 1;
    }
    proof {
        assert(r@ =~= v@);
    }
    r
}

/// The first position of a member in a list of neighbor ids.
pub(crate) fn member_index(v: &Vec<u32>, n: u32) -> (r: Option<usize>)
    ensures
        match r {
            Some(j) => j < v@.len() && v@[j as int] == n && forall|k: int| 0 <= k < j ==> v@[k] != n,
            None => !v@.contains(n),
        },
{
    let mut i: usize = 0;
    while i < v.len()
        invariant
            i <= v@.len(),
            forall|k: int| 0 <= k < i ==> v@[k] != n,
        decreases v@.len() - i,
    {
        if v[i] == n {
            return Some(i);
        }
        i += 1;
    }
    None
}

} // verus!
