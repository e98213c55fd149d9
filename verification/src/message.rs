//! Envelopes, payloads, and the events the handler consumes.

use vstd::prelude::*;

verus! {

/// One broadcast value as it appears on the wire.
pub type MessageType = usize;

/// The addressing part of an envelope.
#[derive(Debug, PartialEq, Eq)]
pub struct Header {
    pub src: String,
    pub dst: String,
    pub id: Option<usize>,
    pub in_reply_to: Option<usize>,
}

/// The header a reply to `h` carries: source and destination swapped,
/// a fresh id, and `in_reply_to` pointing at the original id.
pub open spec fn reply_header(h: Header, new_id: Option<usize>) -> Header {
    Header { src: h.dst, dst: h.src, id: new_id, in_reply_to: h.id }
}

impl Header {
    /// Turns the header of a received envelope into the header of its reply.
    pub fn reply(self, new_id: Option<usize>) -> (r: Header)
        ensures
            r == reply_header(self, new_id),
    {
        Header { src: self.dst, dst: self.src, id: new_id, in_reply_to: self.id }
    }

    pub fn with_payload(self, payload: Payload) -> (e: Envelope)
        ensures
            e.header == self,
            e.payload == payload,
    {
        Envelope { header: self, payload }
    }
}

/// One row of a topology mapping: a node and its neighbor list.
#[derive(Debug, PartialEq, Eq)]
pub struct TopologyEntry {
    pub node: String,
    pub neighbors: Vec<String>,
}

/// The mathematical content of a [`TopologyEntry`].
#[verifier::ext_equal]
pub ghost struct TopologyEntryModel {
    pub node: Seq<char>,
    pub neighbors: Seq<Seq<char>>,
}

impl View for TopologyEntry {
    type V = TopologyEntryModel;

    open spec fn view(&self) -> TopologyEntryModel {
        TopologyEntryModel { node: self.node@, neighbors: self.neighbors.deep_view() }
    }
}

/// A topology message body as a sequence of rows.
pub open spec fn topo_view(t: Seq<TopologyEntry>) -> Seq<TopologyEntryModel> {
    t.map_values(|e: TopologyEntry| e@)
}

/// The body of an envelope, one variant per protocol message type.
#[derive(Debug, PartialEq, Eq)]
pub enum Payload {
    Init { node_id: String, node_ids: Vec<String> },
    InitOk,
    Echo { echo: String },
    EchoOk { echo: String },
    Generate,
    GenerateOk { id: String },
    Broadcast { message: MessageType },
    BroadcastOk,
    Read,
    ReadOk { messages: Vec<MessageType> },
    Topology { topology: Vec<TopologyEntry> },
    TopologyOk,
    Gossip { seen: Vec<MessageType> },
    GossipOk { seen: Vec<MessageType> },
}

/// A directed protocol message.
#[derive(Debug, PartialEq, Eq)]
pub struct Envelope {
    pub header: Header,
    pub payload: Payload,
}

/// What the handler consumes: an inbound message or a periodic tick.
#[derive(Debug)]
pub enum Event {
    Message(Envelope),
    Timer,
}

} // verus!
