use gossip_node::message::{Header, TopologyEntry};
use gossip_node::neighbor::Neighbor;
use gossip_node::state::State;

fn strings(items: &[&str]) -> Vec<String> {
    items.iter().map(|s| s.to_string()).collect()
}

fn rows(entries: &[(&str, &[&str])]) -> Vec<TopologyEntry> {
    entries
        .iter()
        .map(|(node, neighbors)| TopologyEntry {
            node: node.to_string(),
            neighbors: strings(neighbors),
        })
        .collect()
}

fn backlogs(state: &State) -> Vec<(String, Vec<usize>)> {
    state.gossip_data()
}

#[test]
fn receive_is_idempotent() {
    let mut s = State::new("n1".to_string(), strings(&["n1", "n2", "n3"]));
    let src = "c1".to_string();
    assert!(s.receive(5, &src));
    let seen_once = s.seen();
    let backlog_once = backlogs(&s);
    assert!(!s.receive(5, &src));
    assert_eq!(s.seen(), seen_once);
    assert_eq!(backlogs(&s), backlog_once);
}

#[test]
fn receive_fans_out_to_all_but_sender_and_self() {
    let mut s = State::new("n1".to_string(), strings(&["n1", "n2", "n3"]));
    let src = "n2".to_string();
    assert!(s.receive(7, &src));
    assert_eq!(backlogs(&s), vec![("n3".to_string(), vec![7])]);
}

#[test]
fn topology_replacement_keeps_only_the_second_map() {
    let mut s = State::new("n1".to_string(), strings(&["n1", "n2", "n3", "n4"]));
    let first: [(&str, &[&str]); 1] = [("n1", &["n2", "n3"])];
    s.set_topology(rows(&first)).unwrap();
    assert_eq!(s.neighbor_count(), 2);
    let second: [(&str, &[&str]); 1] = [("n1", &["n4"])];
    s.set_topology(rows(&second)).unwrap();
    assert_eq!(s.neighbor_count(), 1);
    assert!(s.find_neighbor(&"n4".to_string()).is_some());
    assert!(s.find_neighbor(&"n2".to_string()).is_none());
    assert!(s.find_neighbor(&"n3".to_string()).is_none());
}

#[test]
fn topology_discards_prior_progress() {
    let mut s = State::new("n1".to_string(), strings(&["n1", "n2"]));
    let src = "c1".to_string();
    s.receive(5, &src);
    assert_eq!(backlogs(&s), vec![("n2".to_string(), vec![5])]);
    let again: [(&str, &[&str]); 1] = [("n1", &["n2"])];
    s.set_topology(rows(&again)).unwrap();
    assert!(backlogs(&s).is_empty());
}

#[test]
fn topology_deduplicates_neighbor_ids() {
    let mut s = State::new("n1".to_string(), strings(&["n1"]));
    let listed: [(&str, &[&str]); 1] = [("n1", &["n2", "n2", "n3"])];
    s.set_topology(rows(&listed)).unwrap();
    assert_eq!(s.neighbor_count(), 2);
}

#[test]
fn first_topology_row_for_node_wins() {
    let mut s = State::new("n1".to_string(), strings(&["n1"]));
    let listed: [(&str, &[&str]); 2] = [("n1", &["n2"]), ("n1", &["n3"])];
    s.set_topology(rows(&listed)).unwrap();
    assert!(s.find_neighbor(&"n2".to_string()).is_some());
    assert!(s.find_neighbor(&"n3".to_string()).is_none());
}

#[test]
fn confirm_gossip_requires_known_neighbor() {
    let mut s = State::new("n1".to_string(), strings(&["n1", "n2"]));
    assert!(s.confirm_gossip(&"n2".to_string(), vec![1]).is_ok());
    assert!(s.confirm_gossip(&"n9".to_string(), vec![1]).is_err());
}

#[test]
fn new_state_has_no_messages_and_skips_self_and_duplicates() {
    let s = State::new("n1".to_string(), strings(&["n1", "n2", "n2", "n3"]));
    assert!(s.seen().is_empty());
    assert_eq!(s.neighbor_count(), 2);
    assert_eq!(s.node_id(), "n1");
}

#[test]
fn neighbor_queues_only_unconfirmed_values() {
    let mut n = Neighbor::new("n2".to_string());
    n.receive(5);
    n.receive(5);
    assert_eq!(n.gossip_backlog(), vec![5]);
    n.confirm_gossip(vec![5]);
    assert_eq!(n.gossip_backlog(), Vec::<usize>::new());
    assert_eq!(n.confirmed_values(), vec![5]);
    // A stale replay of an already confirmed value is not re-queued.
    n.receive(5);
    assert!(n.backlog_is_empty());
}

#[test]
fn neighbor_confirmation_is_idempotent_and_monotonic() {
    let mut n = Neighbor::new("n2".to_string());
    n.receive(3);
    n.receive(8);
    n.confirm_gossip(vec![3]);
    n.confirm_gossip(vec![3]);
    assert_eq!(n.confirmed_values(), vec![3]);
    assert_eq!(n.gossip_backlog(), vec![8]);
    n.confirm_gossip(vec![8, 3]);
    assert_eq!(n.confirmed_values(), vec![3, 8]);
    assert!(n.backlog_is_empty());
}

#[test]
fn neighbor_snapshots_are_sorted() {
    let mut n = Neighbor::new("n2".to_string());
    for v in [9usize, 1, 4] {
        n.receive(v);
    }
    assert_eq!(n.gossip_backlog(), vec![1, 4, 9]);
}

#[test]
fn header_reply_swaps_addresses() {
    let h = Header {
        src: "c1".to_string(),
        dst: "n1".to_string(),
        id: Some(7),
        in_reply_to: None,
    };
    let r = h.reply(Some(42));
    assert_eq!(r.src, "n1");
    assert_eq!(r.dst, "c1");
    assert_eq!(r.id, Some(42));
    assert_eq!(r.in_reply_to, Some(7));
}
