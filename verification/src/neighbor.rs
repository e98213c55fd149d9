//! Per-neighbor bookkeeping: gossip backlog and confirmations.

use vstd::prelude::*;

use crate::message::MessageType;
use crate::value_set::{strictly_increasing, ValueSet};

verus! {

/// The mathematical content of a [`Neighbor`].
#[verifier::ext_equal]
pub ghost struct NeighborModel {
    pub node_id: Seq<char>,
    /// Values this neighbor has acknowledged via a gossip confirmation.
    pub confirmed: Set<MessageType>,
    /// Values believed unknown to this neighbor, pending (re)transmission.
    pub to_gossip: Set<MessageType>,
}

impl NeighborModel {
    /// The backlog never holds a value the neighbor has already confirmed.
    pub open spec fn inv(self) -> bool {
        self.to_gossip.disjoint(self.confirmed)
    }
}

/// What receiving one value does to a neighbor record: the value joins the
/// backlog unless the neighbor is already known to have it.
pub open spec fn neighbor_receive(n: NeighborModel, v: MessageType) -> NeighborModel {
    if n.confirmed.contains(v) {
        n
    } else {
        NeighborModel { to_gossip: n.to_gossip.insert(v), ..n }
    }
}

/// What a batch confirmation does to a neighbor record: every confirmed
/// value moves out of the backlog and into the confirmed set.
pub open spec fn neighbor_confirm(n: NeighborModel, vs: Set<MessageType>) -> NeighborModel {
    NeighborModel {
        confirmed: n.confirmed.union(vs),
        to_gossip: n.to_gossip.difference(vs),
        ..n
    }
}

/// Bookkeeping for one adjacent node.
pub struct Neighbor {
    node_id: String,
    confirmed: ValueSet,
    to_gossip: ValueSet,
}

impl View for Neighbor {
    type V = NeighborModel;

    closed spec fn view(&self) -> NeighborModel {
        NeighborModel {
            node_id: self.node_id@,
            confirmed: self.confirmed@,
            to_gossip: self.to_gossip@,
        }
    }
}

impl Neighbor {
    #[verifier::type_invariant]
    spec fn type_inv(self) -> bool {
        self@.inv()
    }

    pub fn new(node_id: String) -> (n: Self)
        ensures
            n@ == (NeighborModel {
                node_id: node_id@,
                confirmed: Set::<MessageType>::empty(),
                to_gossip: Set::<MessageType>::empty(),
            }),
    {
        let n = Neighbor { node_id, confirmed: ValueSet::new(), to_gossip: ValueSet::new() };
        proof {
            assert(Set::<MessageType>::empty().disjoint(Set::<MessageType>::empty()));
        }
        n
    }

    pub fn node_id(&self) -> (r: &String)
        ensures
            r@ == self@.node_id,
    {
        &self.node_id
    }

    /// The values this neighbor has confirmed, in increasing order.
    pub fn confirmed_values(&self) -> (r: Vec<MessageType>)
        ensures
            r@.to_set() == self@.confirmed,
            strictly_increasing(r@),
    {
        self.confirmed.to_vec()
    }

    /// The current backlog, in increasing order.
    pub fn gossip_backlog(&self) -> (r: Vec<MessageType>)
        ensures
            r@.to_set() == self@.to_gossip,
            strictly_increasing(r@),
    {
        self.to_gossip.to_vec()
    }

    pub fn backlog_is_empty(&self) -> (r: bool)
        ensures
            r == self@.to_gossip.is_empty(),
    {
        self.to_gossip.is_empty()
    }

    /// Queues `message` for gossip unless this neighbor already confirmed it.
    pub fn receive(&mut self, message: MessageType)
        ensures
            final(self)@ == neighbor_receive(old(self)@, message),
    {
        proof {
            use_type_invariant(&*self);
        }
        if self.confirmed.contains(message) {
            proof {
                assert(final(self)@ =~= neighbor_receive(old(self)@, message));
            }
            return ;
        }
        let mut gos = ValueSet::new();
        std::mem::swap(&mut gos, &mut self.to_gossip);
        gos.insert(message);
        proof {
            assert(gos@.disjoint(self.confirmed@));
        }
        self.to_gossip = gos;
        proof {
            assert(self@ =~= neighbor_receive(old(self)@, message));
        }
    }

    /// Moves every value in `messages` from the backlog into the confirmed
    /// set; re-confirming an already confirmed value changes nothing.
    pub fn confirm_gossip(&mut self, messages: Vec<MessageType>)
        ensures
            final(self)@ == neighbor_confirm(old(self)@, messages@.to_set()),
    {
        proof {
            use_type_invariant(&*self);
        }
        let ghost oldc = self.confirmed@;
        let ghost oldg = self.to_gossip@;
        let mut conf = ValueSet::new();
        std::mem::swap(&mut conf, &mut self.confirmed);
        let mut gos = ValueSet::new();
        std::mem::swap(&mut gos, &mut self.to_gossip);
        let mut i: usize = 0;
        while i < messages.len()
            invariant
                0 <= i <= messages.len(),
                oldg.disjoint(oldc),
                conf@ == oldc.union(messages@.subrange(0, i as int).to_set()),
                gos@ == oldg.difference(messages@.subrange(0, i as int).to_set()),
            decreases messages.len() - i,
        {
            let m = messages[i];
            let ghost prefix = messages@.subrange(0, i as int).to_set();
            proof {
                broadcast use vstd::prelude::Seq::lemma_push_to_set_commute;

                assert(messages@.subrange(0, i + 1) =~= messages@.subrange(0, i as int).push(m));
                assert(messages@.subrange(0, i + 1).to_set() =~= prefix.insert(m));
            }
            if conf.contains(m) {
                proof {
                    assert(conf@ =~= oldc.union(prefix.insert(m)));
                    assert(!oldg.contains(m) || prefix.contains(m));
                    assert(gos@ =~= oldg.difference(prefix.insert(m)));
                }
            } else {
                gos.remove(m);
                conf.insert(m);
                proof {
                    assert(conf@ =~= oldc.union(prefix.insert(m)));
                    assert(gos@ =~= oldg.difference(prefix.insert(m)));
                }
            }
            i += 1;
        }
        proof {
            assert(messages@.subrange(0, messages@.len() as int) =~= messages@);
            assert(gos@.disjoint(conf@));
        }
        self.confirmed = conf;
        self.to_gossip = gos;
        proof {
            assert(self@ =~= neighbor_confirm(old(self)@, messages@.to_set()));
        }
    }
}

} // verus!
