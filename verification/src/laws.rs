//! The guarantees the anti-entropy core gives, as proved laws over the
//! state transitions.

use vstd::prelude::*;

use crate::message::{MessageType, TopologyEntryModel};
use crate::neighbor::{neighbor_confirm, neighbor_receive, NeighborModel};
use crate::state::{
    gossip_targets, state_confirm, state_receive, state_set_topology, StateModel,
};

verus! {

/// Idempotence: receiving the same value twice from the same sender leaves
/// the seen set and every neighbor's backlog and confirmed set exactly as
/// receiving it once does.
pub proof fn lemma_receive_idempotent(s: StateModel, v: MessageType, src: Seq<char>)
    ensures
        state_receive(state_receive(s, v, src), v, src) == state_receive(s, v, src),
{
    let s1 = state_receive(s, v, src);
    assert(s1.messages.contains(v));
}

/// Monotonicity, per neighbor: receiving never touches the confirmed set
/// and never drops a backlog entry; confirming only grows the confirmed set
/// and only shrinks the backlog.
pub proof fn lemma_neighbor_monotonic(n: NeighborModel, v: MessageType, vs: Set<MessageType>)
    ensures
        neighbor_receive(n, v).confirmed == n.confirmed,
        n.to_gossip.subset_of(neighbor_receive(n, v).to_gossip),
        n.confirmed.subset_of(neighbor_confirm(n, vs).confirmed),
        neighbor_confirm(n, vs).to_gossip.subset_of(n.to_gossip),
{
}

/// Monotonicity, per state: under both kinds of data arrival, every
/// neighbor's confirmed set only grows, and the seen set only grows.
pub proof fn lemma_state_monotonic(
    s: StateModel,
    v: MessageType,
    src: Seq<char>,
    from: Seq<char>,
    vs: Set<MessageType>,
)
    ensures
        s.messages.subset_of(state_receive(s, v, src).messages),
        state_confirm(s, from, vs).messages == s.messages,
        forall|i: int|
            0 <= i < s.neighbors.len() ==> (#[trigger] s.neighbors[i]).confirmed.subset_of(
                state_receive(s, v, src).neighbors[i].confirmed,
            ),
        forall|i: int|
            0 <= i < s.neighbors.len() ==> (#[trigger] s.neighbors[i]).confirmed.subset_of(
                state_confirm(s, from, vs).neighbors[i].confirmed,
            ),
        forall|i: int|
            0 <= i < s.neighbors.len() ==> state_confirm(s, from, vs).neighbors[i].to_gossip.subset_of(
                (#[trigger] s.neighbors[i]).to_gossip,
            ),
{
}

/// In a well-formed state the backlog for any neighbor stays within the
/// values seen but not yet confirmed by that neighbor.
pub proof fn lemma_backlog_within_unconfirmed_seen(s: StateModel, i: int)
    requires
        s.inv(),
        0 <= i < s.neighbors.len(),
    ensures
        s.neighbors[i].to_gossip.subset_of(s.messages.difference(s.neighbors[i].confirmed)),
{
}

/// Topology replacement: installing a second mapping yields exactly the
/// adjacency of the second mapping, with no union with the first.
pub proof fn lemma_topology_replacement(
    s: StateModel,
    t1: Seq<TopologyEntryModel>,
    t2: Seq<TopologyEntryModel>,
)
    requires
        state_set_topology(s, t1) is Some,
    ensures
        state_set_topology(state_set_topology(s, t1).unwrap(), t2) == state_set_topology(s, t2),
{
    let s1 = state_set_topology(s, t1).unwrap();
    assert(s1.node_id == s.node_id);
    match state_set_topology(s, t2) {
        Some(m) => {
            assert(state_set_topology(s1, t2).unwrap() =~= m);
        },
        None => {},
    }
}

/// A received value is seen at once and stays seen under every later
/// transition, so it appears in every subsequent read.
pub proof fn lemma_seen_persistent(
    s: StateModel,
    v: MessageType,
    w: MessageType,
    src: Seq<char>,
    from: Seq<char>,
    vs: Set<MessageType>,
    t: Seq<TopologyEntryModel>,
)
    ensures
        state_receive(s, v, src).messages.contains(v),
        s.messages.contains(v) ==> state_receive(s, w, src).messages.contains(v),
        s.messages.contains(v) ==> state_confirm(s, from, vs).messages.contains(v),
        s.messages.contains(v) && state_set_topology(s, t) is Some ==> state_set_topology(
            s,
            t,
        ).unwrap().messages.contains(v),
{
}

/// Every neighbor with a non-empty backlog is a gossip target of the next
/// timer tick, so its backlog keeps being resent until confirmed.
pub proof fn lemma_nonempty_backlog_is_targeted(ns: Seq<NeighborModel>, i: int)
    requires
        0 <= i < ns.len(),
        !ns[i].to_gossip.is_empty(),
    ensures
        gossip_targets(ns).contains(ns[i]),
    decreases ns.len(),
{
    if i == ns.len() - 1 {
        let targets = gossip_targets(ns);
        assert(targets.last() == ns[i]);
        assert(targets.contains(ns[i])) by {
            assert(targets[targets.len() - 1] == ns[i]);
        }
    } else {
        assert(ns.drop_last()[i] == ns[i]);
        lemma_nonempty_backlog_is_targeted(ns.drop_last(), i);
        let rest = gossip_targets(ns.drop_last());
        let k = choose|k: int| 0 <= k < rest.len() && rest[k] == ns[i];
        assert(gossip_targets(ns)[k] == ns[i]);
    }
}

/// Convergence step: once a gossip batch containing `v` is confirmed, `v`
/// sits in that neighbor's confirmed set and leaves its backlog for good.
pub proof fn lemma_gossip_confirm(n: NeighborModel, vs: Set<MessageType>, v: MessageType)
    requires
        vs.contains(v),
    ensures
        neighbor_confirm(n, vs).confirmed.contains(v),
        !neighbor_confirm(n, vs).to_gossip.contains(v),
{
}

} // verus!
