//! The node's authoritative state: seen values, topology, neighbors.

use vstd::prelude::*;

use crate::error::Error;
use crate::message::{topo_view, MessageType, TopologyEntry, TopologyEntryModel};
use crate::neighbor::{
    neighbor_confirm, neighbor_receive, Neighbor, NeighborModel,
};
use crate::value_set::{strictly_increasing, ValueSet};

verus! {

/// The mathematical content of a [`State`].
#[verifier::ext_equal]
pub ghost struct StateModel {
    pub node_id: Seq<char>,
    /// Every value this node has ever observed; it only grows.
    pub messages: Set<MessageType>,
    /// One record per adjacent node, in topology order.
    pub neighbors: Seq<NeighborModel>,
}

impl StateModel {
    /// Well-formedness: every backlog is disjoint from its confirmed set and
    /// holds only seen values, and neighbor ids are unique.
    pub open spec fn inv(self) -> bool {
        &&& forall|i: int| 0 <= i < self.neighbors.len() ==> (#[trigger] self.neighbors[i]).inv()
        &&& forall|i: int|
            0 <= i < self.neighbors.len() ==> (#[trigger] self.neighbors[i]).to_gossip.subset_of(
                self.messages,
            )
        &&& forall|i: int, j: int|
            0 <= i < j < self.neighbors.len() ==> self.neighbors[i].node_id
                != self.neighbors[j].node_id
    }

    pub open spec fn has_neighbor(self, id: Seq<char>) -> bool {
        exists|i: int| 0 <= i < self.neighbors.len() && self.neighbors[i].node_id == id
    }
}

/// A freshly created neighbor record: nothing confirmed, nothing pending.
pub open spec fn fresh_neighbor(id: Seq<char>) -> NeighborModel {
    NeighborModel {
        node_id: id,
        confirmed: Set::<MessageType>::empty(),
        to_gossip: Set::<MessageType>::empty(),
    }
}

/// Fresh neighbor records for `ids` in order, skipping excluded ids and
/// duplicates (the first occurrence wins).
pub open spec fn neighbors_from(ids: Seq<Seq<char>>, excluded: Set<Seq<char>>) -> Seq<
    NeighborModel,
>
    decreases ids.len(),
{
    if ids.len() == 0 {
        Seq::<NeighborModel>::empty()
    } else {
        let rest = neighbors_from(ids.drop_last(), excluded);
        if excluded.contains(ids.last()) || ids.drop_last().contains(ids.last()) {
            rest
        } else {
            rest.push(fresh_neighbor(ids.last()))
        }
    }
}

/// What `State::new` builds: no values seen yet and, until a topology
/// arrives, every other listed node is a neighbor.
pub open spec fn state_new(node_id: Seq<char>, node_ids: Seq<Seq<char>>) -> StateModel {
    StateModel {
        node_id,
        messages: Set::<MessageType>::empty(),
        neighbors: neighbors_from(node_ids, Set::<Seq<char>>::empty().insert(node_id)),
    }
}

/// What receiving one value from `src` does: the value joins the seen set
/// and, if it is new, every neighbor other than the sender and this node
/// itself queues it for gossip.
pub open spec fn state_receive(s: StateModel, v: MessageType, src: Seq<char>) -> StateModel {
    if s.messages.contains(v) {
        s
    } else {
        StateModel {
            node_id: s.node_id,
            messages: s.messages.insert(v),
            neighbors: s.neighbors.map_values(
                |n: NeighborModel|
                    if n.node_id == src || n.node_id == s.node_id {
                        n
                    } else {
                        neighbor_receive(n, v)
                    },
            ),
        }
    }
}

/// Receiving a whole batch, in order.
pub open spec fn state_receive_all(s: StateModel, vs: Seq<MessageType>, src: Seq<char>) -> StateModel
    decreases vs.len(),
{
    if vs.len() == 0 {
        s
    } else {
        state_receive(state_receive_all(s, vs.drop_last(), src), vs.last(), src)
    }
}

/// What a gossip confirmation from `from` does: that neighbor's record
/// absorbs the confirmed values; everyone else is untouched.
pub open spec fn state_confirm(s: StateModel, from: Seq<char>, vs: Set<MessageType>) -> StateModel {
    StateModel {
        neighbors: s.neighbors.map_values(
            |n: NeighborModel|
                if n.node_id == from {
                    neighbor_confirm(n, vs)
                } else {
                    n
                },
        ),
        ..s
    }
}

/// The first neighbor list a topology mapping gives for `id`, if any.
pub open spec fn topo_lookup(t: Seq<TopologyEntryModel>, id: Seq<char>) -> Option<
    Seq<Seq<char>>,
>
    decreases t.len(),
{
    if t.len() == 0 {
        Option::<Seq<Seq<char>>>::None
    } else if t[0].node == id {
        Option::Some(t[0].neighbors)
    } else {
        topo_lookup(t.drop_first(), id)
    }
}

/// What installing a topology does: the neighbor set is rebuilt wholesale
/// from the mapping's row for this node; without such a row nothing changes
/// and the operation fails.
pub open spec fn state_set_topology(
    s: StateModel,
    t: Seq<TopologyEntryModel>,
) -> Option<StateModel> {
    match topo_lookup(t, s.node_id) {
        Option::Some(ids) => Option::Some(
            StateModel { neighbors: neighbors_from(ids, Set::<Seq<char>>::empty()), ..s },
        ),
        Option::None => Option::<StateModel>::None,
    }
}

/// The neighbors a timer tick sends gossip to: those with a non-empty
/// backlog, in order.
pub open spec fn gossip_targets(ns: Seq<NeighborModel>) -> Seq<NeighborModel>
    decreases ns.len(),
{
    if ns.len() == 0 {
        Seq::<NeighborModel>::empty()
    } else {
        let rest = gossip_targets(ns.drop_last());
        if ns.last().to_gossip.is_empty() {
            rest
        } else {
            rest.push(ns.last())
        }
    }
}

/// Fresh neighbor records carry empty sets, draw their ids from `ids` minus
/// `excluded`, and never repeat an id.
pub proof fn lemma_neighbors_from_wf(ids: Seq<Seq<char>>, excluded: Set<Seq<char>>)
    ensures
        ({
            let ns = neighbors_from(ids, excluded);
            &&& forall|i: int|
                0 <= i < ns.len() ==> (#[trigger] ns[i]).confirmed == Set::<MessageType>::empty()
                    && ns[i].to_gossip == Set::<MessageType>::empty()
            &&& forall|i: int|
                0 <= i < ns.len() ==> ids.contains((#[trigger] ns[i]).node_id)
                    && !excluded.contains(ns[i].node_id)
            &&& forall|i: int, j: int|
                0 <= i < j < ns.len() ==> ns[i].node_id != ns[j].node_id
        }),
    decreases ids.len(),
{
    if ids.len() > 0 {
        lemma_neighbors_from_wf(ids.drop_last(), excluded);
        let prior = neighbors_from(ids.drop_last(), excluded);
        let ns = neighbors_from(ids, excluded);
        assert forall|i: int|
            0 <= i < prior.len() implies ids.contains((#[trigger] prior[i]).node_id) by {
            let k = choose|k: int|
                0 <= k < ids.drop_last().len() && ids.drop_last()[k] == prior[i].node_id;
            assert(ids[k] == prior[i].node_id);
        }
        if !(excluded.contains(ids.last()) || ids.drop_last().contains(ids.last())) {
            assert(ns.last().node_id == ids.last());
            assert(ids.contains(ids.last())) by {
                assert(ids[ids.len() - 1] == ids.last());
            }
            assert forall|i: int| 0 <= i < ns.len() - 1 implies ns[i].node_id
                != ns.last().node_id by {
                assert(ns[i] == prior[i]);
                assert(ids.drop_last().contains(prior[i].node_id));
                assert(!ids.drop_last().contains(ids.last()));
            }
        }
    }
}

/// The node's whole anti-entropy state.
pub struct State {
    node_id: String,
    messages: ValueSet,
    neighbors: Vec<Neighbor>,
}

impl View for State {
    type V = StateModel;

    closed spec fn view(&self) -> StateModel {
        StateModel {
            node_id: self.node_id@,
            messages: self.messages@,
            neighbors: self.neighbors@.map_values(|n: Neighbor| n@),
        }
    }
}

/// The ids a `build_neighbors` call leaves out.
pub open spec fn excluded_ids(excluded: Option<&String>) -> Set<Seq<char>> {
    match excluded {
        Option::Some(e) => Set::<Seq<char>>::empty().insert(e@),
        Option::None => Set::<Seq<char>>::empty(),
    }
}

/// Whether one of the first `end` strings equals `t`.
fn prefix_contains(ids: &Vec<String>, end: usize, t: &String) -> (r: bool)
    requires
        end <= ids.len(),
    ensures
        r == ids.deep_view().subrange(0, end as int).contains(t@),
{
    let ghost dv = ids.deep_view();
    let mut j: usize = 0;
    while j < end
        invariant
            0 <= j <= end <= ids.len(),
            dv == ids.deep_view(),
            forall|k: int| 0 <= k < j ==> dv[k] != t@,
        decreases end - j,
    {
        if ids[j] == *t {
            proof {
                assert(dv.subrange(0, end as int)[j as int] == t@);
            }
            return true;
        }
        j += 1;
    }
    proof {
        let sub = dv.subrange(0, end as int);
        assert forall|k: int| 0 <= k < sub.len() implies sub[k] != t@ by {
            assert(sub[k] == dv[k]);
        }
        assert(!sub.contains(t@));
    }
    false
}

/// Builds fresh neighbor records for `ids`, skipping `excluded` and
/// duplicates.
fn build_neighbors(ids: &Vec<String>, excluded: Option<&String>) -> (r: Vec<Neighbor>)
    ensures
        r@.map_values(|n: Neighbor| n@) == neighbors_from(ids.deep_view(), excluded_ids(excluded)),
{
    let ghost dv = ids.deep_view();
    let ghost excl = excluded_ids(excluded);
    let mut r: Vec<Neighbor> = Vec::new();
    proof {
        assert(r@.map_values(|n: Neighbor| n@) =~= neighbors_from(
            dv.subrange(0, 0),
            excl,
        ));
    }
    let mut i: usize = 0;
    while i < ids.len()
        invariant
            0 <= i <= ids.len(),
            dv == ids.deep_view(),
            excl == excluded_ids(excluded),
            r@.map_values(|n: Neighbor| n@) == neighbors_from(dv.subrange(0, i as int), excl),
        decreases ids.len() - i,
    {
        let id = &ids[i];
        let mut skip = false;
        if let Option::Some(e) = excluded {
            if *id == *e {
                skip = true;
            }
        }
        if !skip && prefix_contains(ids, i, id) {
            skip = true;
        }
        proof {
            assert(dv[i as int] == id@);
            assert(dv.subrange(0, i + 1).drop_last() =~= dv.subrange(0, i as int));
            assert(dv.subrange(0, i + 1).last() == dv[i as int]);
            assert(skip == (excl.contains(dv[i as int]) || dv.subrange(0, i as int).contains(
                dv[i as int],
            )));
        }
        if !skip {
            let n = Neighbor::new(id.clone());
            r.push(n);
            proof {
                assert(r@.map_values(|n: Neighbor| n@) =~= neighbors_from(
                    dv.subrange(0, i as int),
                    excl,
                ).push(fresh_neighbor(dv[i as int])));
            }
        }
        i += 1;
    }
    proof {
        assert(dv.subrange(0, dv.len() as int) =~= dv);
    }
    r
}

impl State {
    #[verifier::type_invariant]
    spec fn type_inv(self) -> bool {
        self@.inv()
    }

    /// A fresh state for `node_id`: nothing seen, and every other node in
    /// `node_ids` a neighbor until a topology message replaces them.
    pub fn new(node_id: String, node_ids: Vec<String>) -> (s: State)
        ensures
            s@ == state_new(node_id@, node_ids.deep_view()),
    {
        let neighbors = build_neighbors(&node_ids, Option::Some(&node_id));
        proof {
            lemma_neighbors_from_wf(
                node_ids.deep_view(),
                Set::<Seq<char>>::empty().insert(node_id@),
            );
        }
        let s = State { node_id, messages: ValueSet::new(), neighbors };
        proof {
            assert(s@ =~= state_new(s.node_id@, node_ids.deep_view()));
        }
        s
    }

    pub fn node_id(&self) -> (r: &String)
        ensures
            r@ == self@.node_id,
    {
        &self.node_id
    }

    pub fn neighbor_count(&self) -> (r: usize)
        ensures
            r == self@.neighbors.len(),
    {
        self.neighbors.len()
    }

    /// The values this node has seen, in increasing order.
    pub fn seen(&self) -> (r: Vec<MessageType>)
        ensures
            r@.to_set() == self@.messages,
            strictly_increasing(r@),
    {
        self.messages.to_vec()
    }

    /// The neighbor record for `id`, if topology establishes one.
    pub fn find_neighbor(&self, id: &String) -> (r: Option<&Neighbor>)
        ensures
            match r {
                Option::Some(n) => self@.has_neighbor(id@) && n@.node_id == id@
                    && self@.neighbors.contains(n@),
                Option::None => !self@.has_neighbor(id@),
            },
    {
        let mut i: usize = 0;
        while i < self.neighbors.len()
            invariant
                0 <= i <= self.neighbors.len(),
                forall|j: int| 0 <= j < i ==> self@.neighbors[j].node_id != id@,
            decreases self.neighbors.len() - i,
        {
            if *self.neighbors[i].node_id() == *id {
                proof {
                    assert(self@.neighbors[i as int].node_id == id@);
                }
                return Option::Some(&self.neighbors[i]);
            }
            i += 1;
        }
        proof {
            assert(!self@.has_neighbor(id@));
        }
        Option::None
    }

    /// Records one value arriving from `src`; reports whether it was newly
    /// seen, in which case every neighbor other than the sender and this
    /// node queues it for gossip.
    pub fn receive(&mut self, message: MessageType, src: &String) -> (newly: bool)
        ensures
            final(self)@ == state_receive(old(self)@, message, src@),
            newly == !old(self)@.messages.contains(message),
    {
        proof {
            use_type_invariant(&*self);
        }
        let ghost pre = self@;
        let mut neighbors: Vec<Neighbor> = Vec::new();
        std::mem::swap(&mut neighbors, &mut self.neighbors);
        let mut messages = ValueSet::new();
        std::mem::swap(&mut messages, &mut self.messages);
        let newly = messages.insert(message);
        if newly {
            let mut i: usize = 0;
            while i < neighbors.len()
                invariant
                    0 <= i <= neighbors.len(),
                    pre.inv(),
                    !pre.messages.contains(message),
                    neighbors@.len() == pre.neighbors.len(),
                    self.node_id@ == pre.node_id,
                    forall|j: int| i <= j < neighbors@.len() ==> neighbors@[j]@ == pre.neighbors[j],
                    forall|j: int|
                        0 <= j < i ==> neighbors@[j]@ == (if pre.neighbors[j].node_id == src@
                            || pre.neighbors[j].node_id == pre.node_id {
                            pre.neighbors[j]
                        } else {
                            neighbor_receive(pre.neighbors[j], message)
                        }),
                decreases neighbors.len() - i,
            {
                let same_src = *neighbors[i].node_id() == *src;
                let same_self = *neighbors[i].node_id() == self.node_id;
                if !(same_src || same_self) {
                    let n = &mut neighbors[i];
                    n.receive(message);
                }
                i += 1;
            }
        }
        self.messages = messages;
        proof {
            lemma_receive_preserves_inv(pre, message, src@);
            if newly {
                assert(neighbors@.map_values(|n: Neighbor| n@) =~= state_receive(
                    pre,
                    message,
                    src@,
                ).neighbors);
            } else {
                assert(pre.messages.insert(message) =~= pre.messages);
                assert(neighbors@.map_values(|n: Neighbor| n@) =~= pre.neighbors);
            }
        }
        self.neighbors = neighbors;
        proof {
            assert(self@ =~= state_receive(pre, message, src@));
        }
        newly
    }

    /// Applies a batch confirmation from neighbor `from`; fails when no such
    /// neighbor exists.
    pub fn confirm_gossip(&mut self, from: &String, values: Vec<MessageType>) -> (r: Result<
        (),
        Error,
    >)
        ensures
            old(self)@.has_neighbor(from@) ==> r is Ok && final(self)@ == state_confirm(
                old(self)@,
                from@,
                values@.to_set(),
            ),
            !old(self)@.has_neighbor(from@) ==> r == Err::<(), Error>(Error::UnknownNeighbor)
                && final(self)@ == old(self)@,
    {
        proof {
            use_type_invariant(&*self);
        }
        let ghost pre = self@;
        let mut i: usize = 0;
        while i < self.neighbors.len()
            invariant
                0 <= i <= self.neighbors.len(),
                self@ == pre,
                pre == old(self)@,
                pre.inv(),
                forall|j: int| 0 <= j < i ==> pre.neighbors[j].node_id != from@,
            decreases self.neighbors.len() - i,
        {
            if *self.neighbors[i].node_id() == *from {
                proof {
                    assert(pre.neighbors[i as int].node_id == from@);
                    assert(pre.has_neighbor(from@));
                }
                let mut neighbors: Vec<Neighbor> = Vec::new();
                std::mem::swap(&mut neighbors, &mut self.neighbors);
                let n = &mut neighbors[i];
                n.confirm_gossip(values);
                proof {
                    lemma_confirm_preserves_inv(pre, from@, values@.to_set());
                    assert forall|j: int|
                        0 <= j < neighbors@.len() && j != i implies pre.neighbors[j].node_id
                        != from@ by {}
                    assert(neighbors@.map_values(|n: Neighbor| n@) =~= state_confirm(
                        pre,
                        from@,
                        values@.to_set(),
                    ).neighbors);
                }
                self.neighbors = neighbors;
                proof {
                    assert(self@ =~= state_confirm(pre, from@, values@.to_set()));
                }
                return Result::Ok(());
            }
            i += 1;
        }
        proof {
            assert(!pre.has_neighbor(from@));
        }
        Result::Err(Error::UnknownNeighbor)
    }

    /// Replaces the neighbor set wholesale with this node's row of the
    /// mapping; fails, changing nothing, when the mapping has no such row.
    pub fn set_topology(&mut self, topology: Vec<TopologyEntry>) -> (r: Result<(), Error>)
        ensures
            match state_set_topology(old(self)@, topo_view(topology@)) {
                Option::Some(m) => r is Ok && final(self)@ == m,
                Option::None => r == Err::<(), Error>(Error::TopologyNotFound) && final(self)@
                    == old(self)@,
            },
    {
        proof {
            use_type_invariant(&*self);
        }
        let ghost pre = self@;
        let ghost tv = topo_view(topology@);
        let mut i: usize = 0;
        while i < topology.len()
            invariant
                0 <= i <= topology.len(),
                self@ == pre,
                pre == old(self)@,
                pre.inv(),
                tv == topo_view(topology@),
                forall|j: int| 0 <= j < i ==> tv[j].node != pre.node_id,
            decreases topology.len() - i,
        {
            let entry = &topology[i];
            if entry.node == self.node_id {
                proof {
                    assert(tv[i as int].node == pre.node_id);
                    lemma_topo_lookup_prefix(tv, pre.node_id, i as int);
                    assert(tv[i as int].neighbors == entry.neighbors.deep_view());
                }
                let neighbors = build_neighbors(&entry.neighbors, Option::None);
                proof {
                    lemma_neighbors_from_wf(entry.neighbors.deep_view(), Set::<Seq<char>>::empty());
                }
                self.neighbors = neighbors;
                proof {
                    assert(self@ =~= state_set_topology(pre, tv).unwrap());
                }
                return Result::Ok(());
            }
            i += 1;
        }
        proof {
            lemma_topo_lookup_prefix(tv, pre.node_id, tv.len() as int);
        }
        Result::Err(Error::TopologyNotFound)
    }

    /// For every neighbor with a non-empty backlog, that backlog as one
    /// batch, in neighbor order.
    pub fn gossip_data(&self) -> (r: Vec<(String, Vec<MessageType>)>)
        ensures
            ({
                let targets = gossip_targets(self@.neighbors);
                &&& r@.len() == targets.len()
                &&& forall|k: int|
                    0 <= k < targets.len() ==> (#[trigger] r@[k]).0@ == targets[k].node_id
                        && r@[k].1@.to_set() == targets[k].to_gossip && strictly_increasing(
                        r@[k].1@,
                    )
            }),
    {
        let mut r: Vec<(String, Vec<MessageType>)> = Vec::new();
        proof {
            assert(self@.neighbors.subrange(0, 0) =~= Seq::<NeighborModel>::empty());
        }
        let mut i: usize = 0;
        while i < self.neighbors.len()
            invariant
                0 <= i <= self.neighbors.len(),
                i <= self@.neighbors.len(),
                ({
                    let part = gossip_targets(self@.neighbors.subrange(0, i as int));
                    &&& r@.len() == part.len()
                    &&& forall|k: int|
                        0 <= k < part.len() ==> (#[trigger] r@[k]).0@ == part[k].node_id
                            && r@[k].1@.to_set() == part[k].to_gossip && strictly_increasing(
                            r@[k].1@,
                        )
                }),
            decreases self.neighbors.len() - i,
        {
            proof {
                assert(self@.neighbors.subrange(0, i + 1).drop_last() =~= self@.neighbors.subrange(
                    0,
                    i as int,
                ));
                assert(self@.neighbors.subrange(0, i + 1).last() == self@.neighbors[i as int]);
            }
            let n = &self.neighbors[i];
            if !n.backlog_is_empty() {
                r.push((n.node_id().clone(), n.gossip_backlog()));
            }
            i += 1;
        }
        proof {
            assert(self@.neighbors.subrange(0, self@.neighbors.len() as int) =~= self@.neighbors);
        }
        r
    }
}

/// A newly seen value lands in the seen set and in the backlog of every
/// neighbor that does not already have it; the state stays well formed.
pub proof fn lemma_receive_preserves_inv(s: StateModel, v: MessageType, src: Seq<char>)
    requires
        s.inv(),
    ensures
        state_receive(s, v, src).inv(),
        s.messages.subset_of(state_receive(s, v, src).messages),
{
    let post = state_receive(s, v, src);
    if !s.messages.contains(v) {
        assert forall|i: int| 0 <= i < post.neighbors.len() implies (#[trigger] post.neighbors[i]).inv()
            && post.neighbors[i].to_gossip.subset_of(post.messages) by {
            assert(s.neighbors[i].inv());
            assert(s.neighbors[i].to_gossip.subset_of(s.messages));
        }
    }
}

/// A confirmation shrinks one backlog and grows one confirmed set; the
/// state stays well formed.
pub proof fn lemma_confirm_preserves_inv(s: StateModel, from: Seq<char>, vs: Set<MessageType>)
    requires
        s.inv(),
    ensures
        state_confirm(s, from, vs).inv(),
        state_confirm(s, from, vs).messages == s.messages,
{
    let post = state_confirm(s, from, vs);
    assert forall|i: int| 0 <= i < post.neighbors.len() implies (#[trigger] post.neighbors[i]).inv()
        && post.neighbors[i].to_gossip.subset_of(post.messages) by {
        assert(s.neighbors[i].inv());
        assert(s.neighbors[i].to_gossip.subset_of(s.messages));
    }
}

/// An installed topology row yields a well-formed state: fresh, unique
/// neighbors with empty sets.
pub proof fn lemma_set_topology_preserves_inv(s: StateModel, t: Seq<TopologyEntryModel>)
    requires
        s.inv(),
        state_set_topology(s, t) is Some,
    ensures
        state_set_topology(s, t).unwrap().inv(),
        state_set_topology(s, t).unwrap().messages == s.messages,
        state_set_topology(s, t).unwrap().node_id == s.node_id,
{
    let ids = topo_lookup(t, s.node_id).unwrap();
    lemma_neighbors_from_wf(ids, Set::<Seq<char>>::empty());
}

/// Stepping a prefix-scan of a topology mapping: if the first `i` rows do
/// not name `id`, the lookup is decided by the rest.
pub proof fn lemma_topo_lookup_prefix(
    t: Seq<TopologyEntryModel>,
    id: Seq<char>,
    i: int,
)
    requires
        0 <= i <= t.len(),
        forall|j: int| 0 <= j < i ==> t[j].node != id,
    ensures
        i < t.len() && t[i].node == id ==> topo_lookup(t, id) == Option::Some(t[i].neighbors),
        i == t.len() ==> topo_lookup(t, id) is None,
    decreases t.len(),
{
    if t.len() == 0 {
    } else if t[0].node == id {
    } else {
        if i > 0 {
            assert forall|j: int| 0 <= j < i - 1 implies t.drop_first()[j].node != id by {
                assert(t[j + 1].node != id);
            }
            lemma_topo_lookup_prefix(t.drop_first(), id, i - 1);
            if i < t.len() && t[i].node == id {
                assert(t.drop_first()[i - 1] == t[i]);
            }
        }
    }
}

} // verus!
