use gossip_glomers::broadcast::BroadcastNode;
use gossip_glomers::message::{Body, BroadcastPayload, EchoPayload, Message, Payload};
use gossip_glomers::node::{Node, NodeError};
use gossip_glomers::topology::Topology;
use std::collections::HashSet;

fn text(s: &str) -> String {
    String::from(s)
}

fn ids(list: &[&str]) -> Vec<String> {
    list.iter().map(|id| text(id)).collect()
}

fn envelope(
    src: &str,
    dest: &str,
    msg_id: Option<usize>,
    in_reply_to: Option<usize>,
    payload: BroadcastPayload,
) -> Message<Payload> {
    Message {
        src: text(src),
        dest: text(dest),
        body: Body { msg_id, in_reply_to, payload: Payload::Broadcast(payload) },
    }
}

fn star() -> Topology {
    let mut topology = Topology::new();
    topology.insert(text("a"), ids(&["b", "c"]));
    topology.insert(text("b"), ids(&["a"]));
    topology.insert(text("c"), ids(&["a"]));
    topology
}

fn node_a() -> BroadcastNode {
    let mut node = BroadcastNode::new();
    node.set_node_id(Some(text("a")));
    node
}

fn values(list: &[usize]) -> HashSet<usize> {
    list.iter().copied().collect()
}

fn read_values(node: &mut BroadcastNode) -> HashSet<usize> {
    let out = node.step(envelope("c1", "a", Some(99), None, BroadcastPayload::Read)).unwrap();
    assert_eq!(out.len(), 1);
    match &out[0].body.payload {
        Payload::Broadcast(BroadcastPayload::ReadOk { messages }) => messages.clone(),
        other => panic!("expected read_ok, got {:?}", other),
    }
}

#[test]
fn new_node_has_no_id_no_values_and_counter_zero() {
    let node = BroadcastNode::new();
    assert_eq!(node.get_node_id(), None);
    assert_eq!(node.get_msg_id(), 0);
    assert!(node.messages.is_empty());
    assert_eq!(node.topology.len(), 0);
}

#[test]
fn broadcast_is_acknowledged_then_passed_to_each_neighbor() {
    let mut node = node_a();
    let topology = envelope("c0", "a", Some(1), None, BroadcastPayload::Topology { topology: star() });
    assert_eq!(
        node.step(topology).unwrap(),
        vec![envelope("a", "c0", Some(0), Some(1), BroadcastPayload::TopologyOk)]
    );
    let out = node
        .step(envelope("c1", "a", Some(7), None, BroadcastPayload::Broadcast { message: 42 }))
        .unwrap();
    assert_eq!(
        out,
        vec![
            envelope("a", "c1", Some(1), Some(7), BroadcastPayload::BroadcastOk),
            envelope("a", "b", Some(2), None, BroadcastPayload::Broadcast { message: 42 }),
            envelope("a", "c", Some(3), None, BroadcastPayload::Broadcast { message: 42 }),
        ]
    );
    assert_eq!(node.get_msg_id(), 4);
    let read = node.step(envelope("c1", "a", Some(8), None, BroadcastPayload::Read)).unwrap();
    assert_eq!(
        read,
        vec![envelope("a", "c1", Some(4), Some(8), BroadcastPayload::ReadOk { messages: values(&[42]) })]
    );
}

#[test]
fn read_before_any_broadcast_returns_no_values() {
    let mut node = node_a();
    let out = node.step(envelope("c1", "a", Some(1), None, BroadcastPayload::Read)).unwrap();
    assert_eq!(
        out,
        vec![envelope("a", "c1", Some(0), Some(1), BroadcastPayload::ReadOk { messages: HashSet::new() })]
    );
    assert_eq!(node.get_msg_id(), 1);
}

#[test]
fn known_values_are_the_distinct_values_delivered() {
    let mut node = node_a();
    for message in [5, 3, 5, 9, 3, 3, 0] {
        node.step(envelope("c1", "a", None, None, BroadcastPayload::Broadcast { message })).unwrap();
    }
    assert_eq!(read_values(&mut node), values(&[0, 3, 5, 9]));
}

#[test]
fn order_and_repeats_do_not_change_known_values() {
    let mut one = node_a();
    let mut other = node_a();
    for message in [1, 2, 3] {
        one.step(envelope("c1", "a", None, None, BroadcastPayload::Broadcast { message })).unwrap();
    }
    for message in [3, 3, 2, 1, 2] {
        other.step(envelope("c2", "a", None, None, BroadcastPayload::Broadcast { message })).unwrap();
    }
    assert_eq!(read_values(&mut one), read_values(&mut other));
    assert_eq!(one.messages, values(&[1, 2, 3]));
}

#[test]
fn known_value_is_passed_on_again() {
    let mut node = node_a();
    node.topology = star();
    let first = node
        .step(envelope("c1", "a", Some(1), None, BroadcastPayload::Broadcast { message: 7 }))
        .unwrap();
    let second = node
        .step(envelope("b", "a", Some(2), None, BroadcastPayload::Broadcast { message: 7 }))
        .unwrap();
    assert_eq!(first.len(), 3);
    assert_eq!(
        second,
        vec![
            envelope("a", "b", Some(3), Some(2), BroadcastPayload::BroadcastOk),
            envelope("a", "b", Some(4), None, BroadcastPayload::Broadcast { message: 7 }),
            envelope("a", "c", Some(5), None, BroadcastPayload::Broadcast { message: 7 }),
        ]
    );
    assert_eq!(node.messages, values(&[7]));
}

#[test]
fn acknowledgements_emit_nothing_and_change_nothing() {
    let mut node = node_a();
    node.topology = star();
    node.step(envelope("c1", "a", Some(1), None, BroadcastPayload::Broadcast { message: 7 })).unwrap();
    let acknowledgements = vec![
        BroadcastPayload::BroadcastOk,
        BroadcastPayload::ReadOk { messages: values(&[1, 2]) },
        BroadcastPayload::TopologyOk,
    ];
    for payload in acknowledgements {
        let out = node.step(envelope("b", "a", Some(5), Some(2), payload)).unwrap();
        assert_eq!(out, vec![]);
        assert_eq!(node.get_msg_id(), 3);
        assert_eq!(node.messages, values(&[7]));
        assert_eq!(node.topology, star());
        assert_eq!(node.get_node_id(), Some(text("a")));
    }
}

#[test]
fn later_topology_replaces_earlier() {
    let mut node = node_a();
    let mut first = Topology::new();
    first.insert(text("a"), ids(&["b", "c", "d"]));
    first.insert(text("b"), ids(&["a"]));
    let mut second = Topology::new();
    second.insert(text("a"), ids(&["e"]));
    node.step(envelope("c0", "a", Some(1), None, BroadcastPayload::Topology { topology: first })).unwrap();
    node.step(envelope("c0", "a", Some(2), None, BroadcastPayload::Topology { topology: second.clone() }))
        .unwrap();
    assert_eq!(node.topology, second);
    let out = node
        .step(envelope("c1", "a", Some(3), None, BroadcastPayload::Broadcast { message: 1 }))
        .unwrap();
    assert_eq!(
        out,
        vec![
            envelope("a", "c1", Some(2), Some(3), BroadcastPayload::BroadcastOk),
            envelope("a", "e", Some(3), None, BroadcastPayload::Broadcast { message: 1 }),
        ]
    );
}

#[test]
fn topology_without_own_entry_means_no_fan_out() {
    let mut node = node_a();
    let mut topology = Topology::new();
    topology.insert(text("b"), ids(&["a", "c"]));
    node.step(envelope("c0", "a", Some(1), None, BroadcastPayload::Topology { topology })).unwrap();
    let out = node
        .step(envelope("c1", "a", Some(2), None, BroadcastPayload::Broadcast { message: 11 }))
        .unwrap();
    assert_eq!(out, vec![envelope("a", "c1", Some(1), Some(2), BroadcastPayload::BroadcastOk)]);
    assert_eq!(node.messages, values(&[11]));
}

#[test]
fn topology_with_empty_own_list_means_no_fan_out() {
    let mut node = node_a();
    let mut topology = Topology::new();
    topology.insert(text("a"), Vec::new());
    node.step(envelope("c0", "a", Some(1), None, BroadcastPayload::Topology { topology })).unwrap();
    let out = node
        .step(envelope("c1", "a", Some(2), None, BroadcastPayload::Broadcast { message: 11 }))
        .unwrap();
    assert_eq!(out.len(), 1);
}

#[test]
fn fan_out_may_name_the_sender_and_unknown_nodes() {
    let mut node = node_a();
    let mut topology = Topology::new();
    topology.insert(text("a"), ids(&["b", "nobody", "b"]));
    node.topology = topology;
    let out = node
        .step(envelope("b", "a", Some(2), None, BroadcastPayload::Broadcast { message: 4 }))
        .unwrap();
    let dests: Vec<&str> = out.iter().map(|m| m.dest.as_str()).collect();
    assert_eq!(dests, vec!["b", "b", "nobody", "b"]);
}

#[test]
fn reply_goes_back_to_the_sender_in_reply_to_the_request() {
    let mut node = node_a();
    let requests = vec![
        BroadcastPayload::Broadcast { message: 1 },
        BroadcastPayload::Read,
        BroadcastPayload::Topology { topology: Topology::new() },
    ];
    let mut msg_id = 10;
    for payload in requests {
        let out = node.step(envelope("client", "a", Some(msg_id), None, payload)).unwrap();
        assert_eq!(out[0].src, "a");
        assert_eq!(out[0].dest, "client");
        assert_eq!(out[0].body.in_reply_to, Some(msg_id));
        msg_id += 1;
    }
}

#[test]
fn reply_source_is_the_node_even_if_request_was_addressed_elsewhere() {
    let mut node = node_a();
    let out = node.step(envelope("client", "z", Some(1), None, BroadcastPayload::Read)).unwrap();
    assert_eq!(out[0].src, "a");
    assert_eq!(out[0].dest, "client");
}

#[test]
fn request_without_msg_id_is_answered_without_in_reply_to() {
    let mut node = node_a();
    let out = node.step(envelope("client", "a", None, None, BroadcastPayload::Read)).unwrap();
    assert_eq!(out[0].body.in_reply_to, None);
    assert_eq!(out[0].body.msg_id, Some(0));
}

#[test]
fn payload_of_another_workload_is_refused() {
    let mut node = node_a();
    node.topology = star();
    let request = Message {
        src: text("c1"),
        dest: text("a"),
        body: Body {
            msg_id: Some(1),
            in_reply_to: None,
            payload: Payload::Echo(EchoPayload::Echo { echo: text("hi") }),
        },
    };
    assert_eq!(node.step(request), Err(NodeError::UnexpectedPayload));
    assert_eq!(node.get_msg_id(), 0);
    assert!(node.messages.is_empty());
}

#[test]
fn read_is_refused_when_no_message_id_is_left() {
    let mut node = node_a();
    node.msg_id = usize::MAX;
    let result = node.step(envelope("c1", "a", Some(1), None, BroadcastPayload::Read));
    assert_eq!(result, Err(NodeError::MessageIdsExhausted));
    assert_eq!(node.msg_id, usize::MAX);
}

#[test]
fn broadcast_is_refused_whole_when_ids_do_not_suffice() {
    let mut node = node_a();
    node.topology = star();
    node.msg_id = usize::MAX - 2;
    let result = node.step(envelope("c1", "a", Some(1), None, BroadcastPayload::Broadcast { message: 5 }));
    assert_eq!(result, Err(NodeError::MessageIdsExhausted));
    assert!(node.messages.is_empty());
    assert_eq!(node.msg_id, usize::MAX - 2);
}

#[test]
fn broadcast_uses_the_last_message_ids() {
    let mut node = node_a();
    node.topology = star();
    node.msg_id = usize::MAX - 3;
    let out = node
        .step(envelope("c1", "a", Some(1), None, BroadcastPayload::Broadcast { message: 5 }))
        .unwrap();
    assert_eq!(out.len(), 3);
    assert_eq!(out[2].body.msg_id, Some(usize::MAX - 1));
    assert_eq!(node.msg_id, usize::MAX);
}

#[test]
fn acknowledgement_is_taken_even_when_no_message_id_is_left() {
    let mut node = node_a();
    node.msg_id = usize::MAX;
    let out = node.step(envelope("b", "a", Some(1), Some(3), BroadcastPayload::BroadcastOk)).unwrap();
    assert!(out.is_empty());
}

#[test]
fn respond_and_request_number_their_envelopes() {
    let mut node = node_a();
    let reply = node.respond(text("c1"), Some(4), Payload::Broadcast(BroadcastPayload::TopologyOk));
    assert_eq!(reply, envelope("a", "c1", Some(0), Some(4), BroadcastPayload::TopologyOk));
    let request = node.request(text("b"), Payload::Broadcast(BroadcastPayload::Broadcast { message: 3 }));
    assert_eq!(request, envelope("a", "b", Some(1), None, BroadcastPayload::Broadcast { message: 3 }));
    assert_eq!(node.get_msg_id(), 2);
}

#[test]
fn cloned_payload_holds_the_same_values() {
    let payload = BroadcastPayload::ReadOk { messages: values(&[1, 2, 3]) };
    let copy = payload.clone();
    assert_eq!(copy, BroadcastPayload::ReadOk { messages: values(&[3, 2, 1]) });
    let topology = BroadcastPayload::Topology { topology: star() };
    assert_eq!(topology.clone(), topology);
}

#[test]
fn read_reply_is_a_snapshot() {
    let mut node = node_a();
    node.step(envelope("c1", "a", None, None, BroadcastPayload::Broadcast { message: 1 })).unwrap();
    let before = read_values(&mut node);
    node.step(envelope("c1", "a", None, None, BroadcastPayload::Broadcast { message: 2 })).unwrap();
    assert_eq!(before, values(&[1]));
    assert_eq!(read_values(&mut node), values(&[1, 2]));
}
