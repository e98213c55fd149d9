use gossip_node::error::Error;
use gossip_node::handler::Handler;
use gossip_node::message::{Envelope, Event, Header, Payload, TopologyEntry};

fn envelope(src: &str, dst: &str, id: Option<usize>, payload: Payload) -> Envelope {
    Envelope {
        header: Header {
            src: src.to_string(),
            dst: dst.to_string(),
            id,
            in_reply_to: None,
        },
        payload,
    }
}

fn init_payload(node_id: &str, node_ids: &[&str]) -> Payload {
    Payload::Init {
        node_id: node_id.to_string(),
        node_ids: node_ids.iter().map(|s| s.to_string()).collect(),
    }
}

fn topology_payload(rows: &[(&str, &[&str])]) -> Payload {
    Payload::Topology {
        topology: rows
            .iter()
            .map(|(node, neighbors)| TopologyEntry {
                node: node.to_string(),
                neighbors: neighbors.iter().map(|s| s.to_string()).collect(),
            })
            .collect(),
    }
}

/// A node n1 initialized with neighbors n2 and n3.
fn ready_node() -> Handler {
    let mut h = Handler::new();
    h.handle_msg(envelope("c0", "n1", Some(1), init_payload("n1", &["n1", "n2", "n3"])))
        .unwrap();
    let rows: [(&str, &[&str]); 3] =
        [("n1", &["n2", "n3"]), ("n2", &["n1"]), ("n3", &["n1"])];
    h.handle_msg(envelope("c0", "n1", Some(2), topology_payload(&rows)))
        .unwrap();
    h
}

fn single_reply(r: Result<Vec<Envelope>, Error>) -> Envelope {
    let mut out = r.unwrap();
    assert_eq!(out.len(), 1);
    out.pop().unwrap()
}

#[test]
fn init_round_trip() {
    let mut h = Handler::new();
    let reply = single_reply(h.handle_msg(envelope(
        "c1",
        "n3",
        Some(1),
        init_payload("n3", &["n1", "n2", "n3"]),
    )));
    assert_eq!(reply.header.src, "n3");
    assert_eq!(reply.header.dst, "c1");
    assert_eq!(reply.header.in_reply_to, Some(1));
    assert_eq!(reply.header.id, Some(1));
    assert_eq!(reply.payload, Payload::InitOk);
}

#[test]
fn echo_round_trip() {
    let mut h = Handler::new();
    let reply = single_reply(h.handle_msg(envelope(
        "c1",
        "n1",
        Some(4),
        Payload::Echo { echo: "hi".to_string() },
    )));
    assert_eq!(reply.payload, Payload::EchoOk { echo: "hi".to_string() });
    assert_eq!(reply.header.in_reply_to, Some(4));
}

#[test]
fn echo_works_before_init() {
    let mut h = Handler::new();
    let r = h.handle_msg(envelope("c1", "n1", Some(1), Payload::Echo { echo: "x".to_string() }));
    assert!(r.is_ok());
}

#[test]
fn generate_yields_unique_26_char_ids() {
    let mut h = Handler::new();
    let a = single_reply(h.handle_msg(envelope("c1", "n1", Some(1), Payload::Generate)));
    let b = single_reply(h.handle_msg(envelope("c1", "n1", Some(2), Payload::Generate)));
    let id_a = match a.payload {
        Payload::GenerateOk { id } => id,
        other => panic!("expected GenerateOk, got {:?}", other),
    };
    let id_b = match b.payload {
        Payload::GenerateOk { id } => id,
        other => panic!("expected GenerateOk, got {:?}", other),
    };
    assert_eq!(id_a.chars().count(), 26);
    assert_eq!(id_b.chars().count(), 26);
    assert_ne!(id_a, id_b);
}

#[test]
fn message_ids_count_up_from_one() {
    let mut h = Handler::new();
    assert_eq!(h.next_id, 1);
    let a = single_reply(h.handle_msg(envelope("c1", "n1", Some(1), Payload::Echo {
        echo: "a".to_string(),
    })));
    let b = single_reply(h.handle_msg(envelope("c1", "n1", Some(2), Payload::Echo {
        echo: "b".to_string(),
    })));
    assert_eq!(a.header.id, Some(1));
    assert_eq!(b.header.id, Some(2));
    assert_eq!(h.next_id, 3);
}

#[test]
fn operations_before_init_are_fatal() {
    let mut h = Handler::new();
    let r = h.handle_msg(envelope("c1", "n1", Some(1), Payload::Broadcast { message: 5 }));
    assert_eq!(r, Err(Error::Uninitialized));
    let r = h.handle_msg(envelope("c1", "n1", Some(2), Payload::Read));
    assert_eq!(r, Err(Error::Uninitialized));
    let rows: [(&str, &[&str]); 1] = [("n1", &["n2"])];
    let r = h.handle_msg(envelope("c1", "n1", Some(3), topology_payload(&rows)));
    assert_eq!(r, Err(Error::Uninitialized));
    let r = h.handle_msg(envelope("n2", "n1", Some(4), Payload::Gossip { seen: vec![1] }));
    assert_eq!(r, Err(Error::Uninitialized));
    let r = h.handle_msg(envelope("n2", "n1", None, Payload::GossipOk { seen: vec![1] }));
    assert_eq!(r, Err(Error::Uninitialized));
    let r = h.handle_timer();
    assert_eq!(r, Err(Error::Uninitialized));
}

#[test]
fn unsolicited_replies_are_fatal() {
    let mut h = ready_node();
    for payload in [
        Payload::InitOk,
        Payload::EchoOk { echo: "x".to_string() },
        Payload::GenerateOk { id: "y".to_string() },
        Payload::BroadcastOk,
        Payload::ReadOk { messages: vec![1] },
        Payload::TopologyOk,
    ] {
        let r = h.handle_msg(envelope("c1", "n1", Some(9), payload));
        assert_eq!(r, Err(Error::UnexpectedReply));
    }
}

#[test]
fn topology_must_mention_this_node() {
    let mut h = Handler::new();
    h.handle_msg(envelope("c0", "n1", Some(1), init_payload("n1", &["n1", "n2"])))
        .unwrap();
    let rows: [(&str, &[&str]); 1] = [("n2", &["n1"])];
    let r = h.handle_msg(envelope("c0", "n1", Some(2), topology_payload(&rows)));
    assert_eq!(r, Err(Error::TopologyNotFound));
}

#[test]
fn gossip_ok_from_stranger_is_fatal() {
    let mut h = ready_node();
    let r = h.handle_msg(envelope("n9", "n1", None, Payload::GossipOk { seen: vec![5] }));
    assert_eq!(r, Err(Error::UnknownNeighbor));
}

#[test]
fn broadcast_read_round_trip() {
    let mut h = ready_node();
    let reply = single_reply(h.handle_msg(envelope("c1", "n1", Some(3), Payload::Broadcast {
        message: 5,
    })));
    assert_eq!(reply.payload, Payload::BroadcastOk);
    assert_eq!(reply.header.in_reply_to, Some(3));
    let reply = single_reply(h.handle_msg(envelope("c1", "n1", Some(4), Payload::Read)));
    assert_eq!(reply.payload, Payload::ReadOk { messages: vec![5] });
}

#[test]
fn read_snapshot_is_sorted_and_deduplicated() {
    let mut h = ready_node();
    for (i, m) in [9usize, 3, 5, 3, 9].into_iter().enumerate() {
        h.handle_msg(envelope("c1", "n1", Some(10 + i), Payload::Broadcast { message: m }))
            .unwrap();
    }
    let reply = single_reply(h.handle_msg(envelope("c1", "n1", Some(20), Payload::Read)));
    assert_eq!(reply.payload, Payload::ReadOk { messages: vec![3, 5, 9] });
}

#[test]
fn broadcast_then_tick_gossips_to_all_neighbors() {
    let mut h = ready_node();
    h.handle_msg(envelope("c1", "n1", Some(3), Payload::Broadcast { message: 5 }))
        .unwrap();
    let out = h.handle_timer().unwrap();
    assert_eq!(out.len(), 2);
    assert_eq!(out[0].header.src, "n1");
    assert_eq!(out[0].header.dst, "n2");
    assert_eq!(out[0].header.in_reply_to, None);
    assert_eq!(out[0].payload, Payload::Gossip { seen: vec![5] });
    assert_eq!(out[1].header.dst, "n3");
    assert_eq!(out[1].payload, Payload::Gossip { seen: vec![5] });
}

#[test]
fn gossip_scenario_converges_per_neighbor() {
    let mut h = ready_node();
    let reply = single_reply(h.handle_msg(envelope("c1", "n1", Some(3), Payload::Broadcast {
        message: 5,
    })));
    assert_eq!(reply.payload, Payload::BroadcastOk);

    // First tick: gossip {seen: [5]} goes to both neighbors.
    let out = h.handle_timer().unwrap();
    assert_eq!(out.len(), 2);

    // n2 acknowledges; no reply is produced.
    let r = h
        .handle_msg(envelope("n2", "n1", None, Payload::GossipOk { seen: vec![5] }))
        .unwrap();
    assert!(r.is_empty());

    // Later ticks keep resending only to n3, until it acknowledges too.
    for _ in 0..3 {
        let out = h.handle_timer().unwrap();
        assert_eq!(out.len(), 1);
        assert_eq!(out[0].header.dst, "n3");
        assert_eq!(out[0].payload, Payload::Gossip { seen: vec![5] });
    }
    h.handle_msg(envelope("n3", "n1", None, Payload::GossipOk { seen: vec![5] }))
        .unwrap();
    let out = h.handle_timer().unwrap();
    assert!(out.is_empty());
}

#[test]
fn gossip_is_batched_per_neighbor() {
    let mut h = ready_node();
    for (i, m) in [7usize, 2, 4].into_iter().enumerate() {
        h.handle_msg(envelope("c1", "n1", Some(10 + i), Payload::Broadcast { message: m }))
            .unwrap();
    }
    let out = h.handle_timer().unwrap();
    assert_eq!(out.len(), 2);
    for env in &out {
        assert_eq!(env.payload, Payload::Gossip { seen: vec![2, 4, 7] });
    }
}

#[test]
fn inbound_gossip_is_acknowledged_and_not_echoed_to_sender() {
    let mut h = ready_node();
    let reply = single_reply(h.handle_msg(envelope("n2", "n1", Some(8), Payload::Gossip {
        seen: vec![7, 11],
    })));
    assert_eq!(reply.payload, Payload::GossipOk { seen: vec![7, 11] });
    assert_eq!(reply.header.dst, "n2");
    assert_eq!(reply.header.in_reply_to, Some(8));

    // The values propagate to n3 but are never queued back towards n2.
    let out = h.handle_timer().unwrap();
    assert_eq!(out.len(), 1);
    assert_eq!(out[0].header.dst, "n3");
    assert_eq!(out[0].payload, Payload::Gossip { seen: vec![7, 11] });
}

#[test]
fn timer_without_backlog_sends_nothing() {
    let mut h = ready_node();
    let out = h.handle_timer().unwrap();
    assert!(out.is_empty());
}

#[test]
fn second_init_resets_state() {
    let mut h = ready_node();
    h.handle_msg(envelope("c1", "n1", Some(3), Payload::Broadcast { message: 5 }))
        .unwrap();
    h.handle_msg(envelope("c1", "n1", Some(4), init_payload("n1", &["n1", "n2"])))
        .unwrap();
    let reply = single_reply(h.handle_msg(envelope("c1", "n1", Some(5), Payload::Read)));
    assert_eq!(reply.payload, Payload::ReadOk { messages: vec![] });
}

#[test]
fn default_neighbors_before_topology_are_all_other_nodes() {
    let mut h = Handler::new();
    h.handle_msg(envelope("c0", "n1", Some(1), init_payload("n1", &["n1", "n2", "n3"])))
        .unwrap();
    h.handle_msg(envelope("c1", "n1", Some(2), Payload::Broadcast { message: 5 }))
        .unwrap();
    let out = h.handle_timer().unwrap();
    let destinations: Vec<&str> = out.iter().map(|e| e.header.dst.as_str()).collect();
    assert_eq!(destinations, vec!["n2", "n3"]);
}

#[test]
fn events_drive_the_same_machine() {
    let mut h = Handler::new();
    h.handle_event(Event::Message(envelope(
        "c0",
        "n1",
        Some(1),
        init_payload("n1", &["n1", "n2"]),
    )))
    .unwrap();
    h.handle_event(Event::Message(envelope("c1", "n1", Some(2), Payload::Broadcast {
        message: 3,
    })))
    .unwrap();
    let out = h.handle_event(Event::Timer).unwrap();
    assert_eq!(out.len(), 1);
    assert_eq!(out[0].header.dst, "n2");
    assert_eq!(out[0].payload, Payload::Gossip { seen: vec![3] });
}
