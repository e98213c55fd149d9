//! The protocol state machine: one handler consumes events in arrival order
//! and produces outbound envelopes.

use vstd::prelude::*;

use crate::error::Error;
use crate::message::{
    reply_header, topo_view, Envelope, Event, Header, Payload,
};
use crate::state::{
    gossip_targets, state_confirm, state_new, state_receive, state_receive_all,
    state_set_topology, State, StateModel,
};
use crate::value_set::strictly_increasing;

verus! {

#[verifier::external_type_specification]
#[verifier::external_body]
pub struct ExGenerator(ulid::Generator);

#[verifier::external_type_specification]
#[verifier::external_body]
pub struct ExMonotonicError(ulid::MonotonicError);

/// Relies on ulid::Generator::default: a fresh generator with no history.
#[verifier::external_body]
fn fresh_generator() -> ulid::Generator {
    ulid::Generator::default()
}

/// Relies on ulid::Generator::generate, whose result depends on the clock
/// and on random bits (so nothing is promised of its value), and on
/// ulid::Ulid::to_string, which renders every ULID as 26 Crockford base32
/// characters.
#[verifier::external_body]
fn generate_id(g: &mut ulid::Generator) -> (r: Result<String, ulid::MonotonicError>)
    ensures
        r matches Ok(id) ==> id@.len() == 26,
{
    g.generate().map(|u| u.to_string())
}

/// The reply to `env`: addressing swapped, carrying `id` and `payload`.
pub open spec fn reply_to(env: Envelope, id: usize, payload: Payload) -> Envelope {
    Envelope { header: reply_header(env.header, Some(id)), payload }
}

/// The model of an optional state.
pub open spec fn opt_view(s: Option<State>) -> Option<StateModel> {
    match s {
        Some(st) => Some(st@),
        None => None,
    }
}

/// Everything `handle_msg` promises, per payload: which reply goes out (with
/// the fresh id `pre_id`), how the state changes, how many ids are consumed,
/// and exactly which inputs fail.
pub open spec fn msg_post(
    pre: Option<StateModel>,
    pre_id: usize,
    env: Envelope,
    post: Option<StateModel>,
    post_id: usize,
    r: Result<Vec<Envelope>, Error>,
) -> bool {
    match env.payload {
        Payload::Init { node_id, node_ids } => {
            &&& post == Some(state_new(node_id@, node_ids.deep_view()))
            &&& post_id == pre_id + 1
            &&& r matches Ok(out) && out@ == seq![reply_to(env, pre_id, Payload::InitOk)]
        },
        Payload::Echo { echo } => {
            &&& post == pre
            &&& post_id == pre_id + 1
            &&& r matches Ok(out) && out@ == seq![
                reply_to(env, pre_id, Payload::EchoOk { echo }),
            ]
        },
        Payload::Generate => {
            &&& post == pre
            &&& match r {
                Ok(out) => {
                    &&& post_id == pre_id + 1
                    &&& out@.len() == 1
                    &&& out@[0].header == reply_header(env.header, Some(pre_id))
                    &&& out@[0].payload matches Payload::GenerateOk { id } && id@.len() == 26
                },
                Err(e) => e == Error::IdGeneration && post_id == pre_id,
            }
        },
        Payload::Broadcast { message } => match pre {
            Some(s) => {
                &&& post == Some(state_receive(s, message, env.header.src@))
                &&& post_id == pre_id + 1
                &&& r matches Ok(out) && out@ == seq![
                    reply_to(env, pre_id, Payload::BroadcastOk),
                ]
            },
            None => r == Err::<Vec<Envelope>, Error>(Error::Uninitialized) && post == pre
                && post_id == pre_id,
        },
        Payload::Read => match pre {
            Some(s) => {
                &&& post == pre
                &&& post_id == pre_id + 1
                &&& r matches Ok(out) && out@.len() == 1 && out@[0].header == reply_header(
                    env.header,
                    Some(pre_id),
                ) && (out@[0].payload matches Payload::ReadOk { messages }
                    && messages@.to_set() == s.messages && strictly_increasing(messages@))
            },
            None => r == Err::<Vec<Envelope>, Error>(Error::Uninitialized) && post == pre
                && post_id == pre_id,
        },
        Payload::Topology { topology } => match pre {
            Some(s) => match state_set_topology(s, topo_view(topology@)) {
                Some(m) => {
                    &&& post == Some(m)
                    &&& post_id == pre_id + 1
                    &&& r matches Ok(out) && out@ == seq![
                        reply_to(env, pre_id, Payload::TopologyOk),
                    ]
                },
                None => r == Err::<Vec<Envelope>, Error>(Error::TopologyNotFound) && post == pre
                    && post_id == pre_id,
            },
            None => r == Err::<Vec<Envelope>, Error>(Error::Uninitialized) && post == pre
                && post_id == pre_id,
        },
        Payload::Gossip { seen } => match pre {
            Some(s) => {
                &&& post == Some(state_receive_all(s, seen@, env.header.src@))
                &&& post_id == pre_id + 1
                &&& r matches Ok(out) && out@ == seq![
                    reply_to(env, pre_id, Payload::GossipOk { seen }),
                ]
            },
            None => r == Err::<Vec<Envelope>, Error>(Error::Uninitialized) && post == pre
                && post_id == pre_id,
        },
        Payload::GossipOk { seen } => match pre {
            Some(s) => {
                &&& post_id == pre_id
                &&& if s.has_neighbor(env.header.src@) {
                    post == Some(state_confirm(s, env.header.src@, seen@.to_set())) && (r matches Ok(
                        out,
                    ) && out@ == Seq::<Envelope>::empty())
                } else {
                    r == Err::<Vec<Envelope>, Error>(Error::UnknownNeighbor) && post == pre
                }
            },
            None => r == Err::<Vec<Envelope>, Error>(Error::Uninitialized) && post == pre
                && post_id == pre_id,
        },
        Payload::InitOk | Payload::EchoOk { .. } | Payload::GenerateOk { .. }
            | Payload::BroadcastOk | Payload::ReadOk { .. } | Payload::TopologyOk => {
            r == Err::<Vec<Envelope>, Error>(Error::UnexpectedReply) && post == pre && post_id
                == pre_id
        },
    }
}

/// Everything `handle_timer` promises: one gossip envelope per neighbor
/// with a non-empty backlog, carrying that whole backlog, each with a fresh
/// consecutive id; the state itself is untouched.
pub open spec fn timer_post(
    pre: Option<StateModel>,
    pre_id: usize,
    post: Option<StateModel>,
    post_id: usize,
    r: Result<Vec<Envelope>, Error>,
) -> bool {
    match pre {
        None => r == Err::<Vec<Envelope>, Error>(Error::Uninitialized) && post == pre && post_id
            == pre_id,
        Some(s) => {
            let targets = gossip_targets(s.neighbors);
            &&& post == pre
            &&& post_id == pre_id + targets.len()
            &&& r matches Ok(out) && out@.len() == targets.len() && forall|k: int|
                0 <= k < targets.len() ==> {
                    let e = #[trigger] out@[k];
                    &&& e.header.src@ == s.node_id
                    &&& e.header.dst@ == targets[k].node_id
                    &&& e.header.id == Some((pre_id + k) as usize)
                    &&& e.header.in_reply_to is None
                    &&& e.payload matches Payload::Gossip { seen } && seen@.to_set()
                        == targets[k].to_gossip && strictly_increasing(seen@)
                }
        },
    }
}

/// There is at most one gossip target per neighbor.
pub proof fn lemma_gossip_targets_len(ns: Seq<crate::neighbor::NeighborModel>)
    ensures
        gossip_targets(ns).len() <= ns.len(),
    decreases ns.len(),
{
    if ns.len() > 0 {
        lemma_gossip_targets_len(ns.drop_last());
    }
}

/// The sole consumer of events; owns the state and the outbound id counter.
pub struct Handler {
    /// Present from the first `Init` message on.
    pub state: Option<State>,
    /// The id the next outbound envelope will carry; counts up from 1.
    pub next_id: usize,
    /// The external unique-id source for `generate` operations.
    pub id_generator: ulid::Generator,
}

impl Handler {
    pub fn new() -> (h: Handler)
        ensures
            h.state is None,
            h.next_id == 1,
    {
        Handler { state: None, next_id: 1, id_generator: fresh_generator() }
    }

    /// Hands out the next outbound message id.
    fn get_id(&mut self) -> (r: Option<usize>)
        requires
            old(self).next_id < usize::MAX,
        ensures
            r == Some(old(self).next_id),
            final(self).next_id == old(self).next_id + 1,
            final(self).state == old(self).state,
    {
        let id = self.next_id;
        self.next_id = self.next_id + 1;
        Some(id)
    }

    /// Builds the header of an originated message to `recipient`,
    /// consuming a fresh id; fails before `Init`.
    fn header_to(&mut self, recipient: String) -> (r: Result<Header, Error>)
        requires
            old(self).next_id < usize::MAX,
        ensures
            final(self).state == old(self).state,
            match old(self).state {
                Some(s) => {
                    &&& final(self).next_id == old(self).next_id + 1
                    &&& r matches Ok(h) && h.src@ == s@.node_id && h.dst == recipient && h.id
                        == Some(old(self).next_id) && h.in_reply_to is None
                },
                None => r == Err::<Header, Error>(Error::Uninitialized) && final(self).next_id
                    == old(self).next_id,
            },
    {
        let node_id = match &self.state {
            None => {
                return Err(Error::Uninitialized);
            },
            Some(st) => st.node_id().clone(),
        };
        let id = self.get_id();
        Ok(Header { src: node_id, dst: recipient, id, in_reply_to: None })
    }

    /// Runs one inbound envelope through the protocol table.
    pub fn handle_msg(&mut self, envelope: Envelope) -> (r: Result<Vec<Envelope>, Error>)
        requires
            old(self).next_id < usize::MAX,
        ensures
            msg_post(
                opt_view(old(self).state),
                old(self).next_id,
                envelope,
                opt_view(final(self).state),
                final(self).next_id,
                r,
            ),
    {
        let ghost pre_id = self.next_id;
        let Envelope { header, payload } = envelope;
        match payload {
            Payload::Init { node_id, node_ids } => {
                self.state = Some(State::new(node_id, node_ids));
                let id = self.get_id();
                let mut out: Vec<Envelope> = Vec::new();
                out.push(header.reply(id).with_payload(Payload::InitOk));
                proof {
                    assert(out@ =~= seq![reply_to(envelope, pre_id, Payload::InitOk)]);
                }
                Ok(out)
            },
            Payload::Echo { echo } => {
                let id = self.get_id();
                let mut out: Vec<Envelope> = Vec::new();
                out.push(header.reply(id).with_payload(Payload::EchoOk { echo }));
                proof {
                    assert(out@ =~= seq![
                        reply_to(
                            envelope,
                            pre_id,
                            Payload::EchoOk { echo: envelope.payload->Echo_echo },
                        ),
                    ]);
                }
                Ok(out)
            },
            Payload::Generate => {
                match generate_id(&mut self.id_generator) {
                    Err(_) => Err(Error::IdGeneration),
                    Ok(gid) => {
                        let id = self.get_id();
                        let mut out: Vec<Envelope> = Vec::new();
                        out.push(header.reply(id).with_payload(Payload::GenerateOk { id: gid }));
                        Ok(out)
                    },
                }
            },
            Payload::Broadcast { message } => {
                let mut state_opt: Option<State> = None;
                std::mem::swap(&mut state_opt, &mut self.state);
                match state_opt {
                    None => Err(Error::Uninitialized),
                    Some(mut st) => {
                        st.receive(message, &header.src);
                        self.state = Some(st);
                        let id = self.get_id();
                        let mut out: Vec<Envelope> = Vec::new();
                        out.push(header.reply(id).with_payload(Payload::BroadcastOk));
                        proof {
                            assert(out@ =~= seq![reply_to(envelope, pre_id, Payload::BroadcastOk)]);
                        }
                        Ok(out)
                    },
                }
            },
            Payload::Read => {
                let messages = match &self.state {
                    None => {
                        return Err(Error::Uninitialized);
                    },
                    Some(st) => st.seen(),
                };
                let id = self.get_id();
                let mut out: Vec<Envelope> = Vec::new();
                out.push(header.reply(id).with_payload(Payload::ReadOk { messages }));
                Ok(out)
            },
            Payload::Topology { topology } => {
                let mut state_opt: Option<State> = None;
                std::mem::swap(&mut state_opt, &mut self.state);
                match state_opt {
                    None => Err(Error::Uninitialized),
                    Some(mut st) => {
                        let set_result = st.set_topology(topology);
                        self.state = Some(st);
                        match set_result {
                            Err(e) => Err(e),
                            Ok(()) => {
                                let id = self.get_id();
                                let mut out: Vec<Envelope> = Vec::new();
                                out.push(header.reply(id).with_payload(Payload::TopologyOk));
                                proof {
                                    assert(out@ =~= seq![
                                        reply_to(envelope, pre_id, Payload::TopologyOk),
                                    ]);
                                }
                                Ok(out)
                            },
                        }
                    },
                }
            },
            Payload::Gossip { seen } => {
                let mut state_opt: Option<State> = None;
                std::mem::swap(&mut state_opt, &mut self.state);
                match state_opt {
                    None => Err(Error::Uninitialized),
                    Some(mut st) => {
                        let ghost s0 = st@;
                        let mut k: usize = 0;
                        while k < seen.len()
                            invariant
                                0 <= k <= seen.len(),
                                st@ == state_receive_all(
                                    s0,
                                    seen@.subrange(0, k as int),
                                    header.src@,
                                ),
                            decreases seen.len() - k,
                        {
                            proof {
                                assert(seen@.subrange(0, k + 1).drop_last() =~= seen@.subrange(
                                    0,
                                    k as int,
                                ));
                                assert(seen@.subrange(0, k + 1).last() == seen@[k as int]);
                            }
                            st.receive(seen[k], &header.src);
                            k += 1;
                        }
                        proof {
                            assert(seen@.subrange(0, seen@.len() as int) =~= seen@);
                        }
                        self.state = Some(st);
                        let id = self.get_id();
                        let mut out: Vec<Envelope> = Vec::new();
                        out.push(header.reply(id).with_payload(Payload::GossipOk { seen }));
                        Ok(out)
                    },
                }
            },
            Payload::GossipOk { seen } => {
                let mut state_opt: Option<State> = None;
                std::mem::swap(&mut state_opt, &mut self.state);
                match state_opt {
                    None => Err(Error::Uninitialized),
                    Some(mut st) => {
                        let confirm_result = st.confirm_gossip(&header.src, seen);
                        self.state = Some(st);
                        match confirm_result {
                            Err(e) => Err(e),
                            Ok(()) => Ok(Vec::new()),
                        }
                    },
                }
            },
            Payload::InitOk | Payload::EchoOk { .. } | Payload::GenerateOk { .. }
                | Payload::BroadcastOk | Payload::ReadOk { .. } | Payload::TopologyOk => {
                Err(Error::UnexpectedReply)
            },
        }
    }

    /// On a timer tick: one gossip batch to every neighbor with a backlog.
    pub fn handle_timer(&mut self) -> (r: Result<Vec<Envelope>, Error>)
        requires
            match old(self).state {
                Some(s) => old(self).next_id + s@.neighbors.len() <= usize::MAX,
                None => true,
            },
        ensures
            timer_post(
                opt_view(old(self).state),
                old(self).next_id,
                opt_view(final(self).state),
                final(self).next_id,
                r,
            ),
    {
        let ghost pre_id = self.next_id;
        let mut data = match &self.state {
            None => {
                return Err(Error::Uninitialized);
            },
            Some(st) => st.gossip_data(),
        };
        let ghost s0 = self.state->Some_0@;
        let ghost targets = gossip_targets(s0.neighbors);
        let ghost data0 = data@;
        proof {
            lemma_gossip_targets_len(s0.neighbors);
        }
        let total = data.len();
        let mut out: Vec<Envelope> = Vec::new();
        let mut k: usize = 0;
        while k < total
            invariant
                0 <= k <= data0.len(),
                total == data0.len(),
                data.len() == data0.len() - k,
                data@ == data0.skip(k as int),
                data0.len() == targets.len(),
                targets == gossip_targets(s0.neighbors),
                forall|j: int|
                    0 <= j < targets.len() ==> (#[trigger] data0[j]).0@ == targets[j].node_id
                        && data0[j].1@.to_set() == targets[j].to_gossip && strictly_increasing(
                        data0[j].1@,
                    ),
                self.state == old(self).state,
                self.next_id == pre_id + k,
                pre_id + data0.len() <= usize::MAX,
                old(self).state is Some,
                s0 == old(self).state->Some_0@,
                out@.len() == k,
                forall|j: int|
                    0 <= j < k ==> {
                        let e = #[trigger] out@[j];
                        &&& e.header.src@ == s0.node_id
                        &&& e.header.dst@ == targets[j].node_id
                        &&& e.header.id == Some((pre_id + j) as usize)
                        &&& e.header.in_reply_to is None
                        &&& e.payload matches Payload::Gossip { seen } && seen@.to_set()
                            == targets[j].to_gossip && strictly_increasing(seen@)
                    },
            decreases data.len(),
        {
            let (recipient, values) = data.remove(0);
            proof {
                assert(data0[k as int].0 == recipient && data0[k as int].1 == values);
                assert(data@ =~= data0.skip(k + 1));
            }
            let header = match self.header_to(recipient) {
                Ok(h) => h,
                Err(_) => vstd::pervasive::unreached(),
            };
            let env = header.with_payload(Payload::Gossip { seen: values });
            out.push(env);
            k += 1;
        }
        Ok(out)
    }

    /// Dispatches one event: an inbound envelope or a timer tick.
    pub fn handle_event(&mut self, event: Event) -> (r: Result<Vec<Envelope>, Error>)
        requires
            match event {
                Event::Message(_) => old(self).next_id < usize::MAX,
                Event::Timer => match old(self).state {
                    Some(s) => old(self).next_id + s@.neighbors.len() <= usize::MAX,
                    None => true,
                },
            },
        ensures
            match event {
                Event::Message(env) => msg_post(
                    opt_view(old(self).state),
                    old(self).next_id,
                    env,
                    opt_view(final(self).state),
                    final(self).next_id,
                    r,
                ),
                Event::Timer => timer_post(
                    opt_view(old(self).state),
                    old(self).next_id,
                    opt_view(final(self).state),
                    final(self).next_id,
                    r,
                ),
            },
    {
        match event {
            Event::Message(envelope) => self.handle_msg(envelope),
            Event::Timer => self.handle_timer(),
        }
    }
}

} // verus!
