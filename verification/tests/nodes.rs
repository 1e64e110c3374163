use gossip_glomers::broadcast::BroadcastNode;
use gossip_glomers::echo::EchoNode;
use gossip_glomers::message::{
    Body, BroadcastPayload, EchoPayload, ErrorCode, GeneratePayload, Message, Payload,
};
use gossip_glomers::node::{Node, NodeError};
use gossip_glomers::unique_id_gen::{make_unique_id, UniqueIDGeneratorNode};

fn text(s: &str) -> String {
    String::from(s)
}

fn envelope(
    src: &str,
    dest: &str,
    msg_id: Option<usize>,
    in_reply_to: Option<usize>,
    payload: Payload,
) -> Message<Payload> {
    Message { src: text(src), dest: text(dest), body: Body { msg_id, in_reply_to, payload } }
}

#[test]
fn echo_node_new_is_fresh() {
    let node = EchoNode::new();
    assert_eq!(node.msg_id, 0);
    assert_eq!(node.node_id, None);
    assert_eq!(<EchoNode as Node>::new(), node);
}

#[test]
fn echo_node_sends_the_text_back() {
    let mut node = EchoNode::new();
    node.set_node_id(Some(text("n1")));
    let out = node
        .step(envelope("c1", "n1", Some(5), None, Payload::Echo(EchoPayload::Echo { echo: text("héllo") })))
        .unwrap();
    assert_eq!(
        out,
        vec![envelope("n1", "c1", Some(0), Some(5), Payload::Echo(EchoPayload::EchoOk { echo: text("héllo") }))]
    );
    assert_eq!(node.get_msg_id(), 1);
}

#[test]
fn echo_node_ignores_echo_ok() {
    let mut node = EchoNode::new();
    node.set_node_id(Some(text("n1")));
    let out = node
        .step(envelope("c1", "n1", Some(5), Some(1), Payload::Echo(EchoPayload::EchoOk { echo: text("x") })))
        .unwrap();
    assert!(out.is_empty());
    assert_eq!(node.get_msg_id(), 0);
}

#[test]
fn echo_node_refuses_other_workloads() {
    let mut node = EchoNode::new();
    node.set_node_id(Some(text("n1")));
    let result = node.step(envelope("c1", "n1", Some(5), None, Payload::Broadcast(BroadcastPayload::Read)));
    assert_eq!(result, Err(NodeError::UnexpectedPayload));
    let result = node.step(envelope("c1", "n1", Some(5), None, Payload::UniqueIdGen(GeneratePayload::Generate)));
    assert_eq!(result, Err(NodeError::UnexpectedPayload));
    assert_eq!(node.get_msg_id(), 0);
}

#[test]
fn echo_node_refuses_echo_when_no_message_id_is_left() {
    let mut node = EchoNode::new();
    node.set_node_id(Some(text("n1")));
    node.msg_id = usize::MAX;
    let result = node.step(envelope("c1", "n1", None, None, Payload::Echo(EchoPayload::Echo { echo: text("x") })));
    assert_eq!(result, Err(NodeError::MessageIdsExhausted));
}

#[test]
fn counter_moves_by_one() {
    let mut node = EchoNode::new();
    node.incr_msg_id();
    node.incr_msg_id();
    assert_eq!(node.get_msg_id(), 2);
    node.set_node_id(Some(text("x")));
    assert_eq!(node.get_node_id(), Some(text("x")));
    node.set_node_id(None);
    assert_eq!(node.get_node_id(), None);
    assert_eq!(node.get_msg_id(), 2);
}

#[test]
fn unique_id_is_node_id_hyphen_decimal_number() {
    assert_eq!(make_unique_id(&text("n1"), 0), "n1-0");
    assert_eq!(make_unique_id(&text("n1"), 7), "n1-7");
    assert_eq!(make_unique_id(&text("n1"), 10), "n1-10");
    assert_eq!(make_unique_id(&text("n12"), 409), "n12-409");
    assert_eq!(make_unique_id(&text(""), 1000), "-1000");
    assert_eq!(make_unique_id(&text("a-b"), 90), "a-b-90");
    assert_eq!(make_unique_id(&text("n"), usize::MAX), format!("n-{}", usize::MAX));
}

#[test]
fn unique_id_agrees_with_std_formatting() {
    for msg_id in (0..3000).chain([65535, 65536, 999_999, 1_000_000, 4_294_967_295]) {
        assert_eq!(make_unique_id(&text("node"), msg_id), format!("node-{}", msg_id));
    }
}

#[test]
fn unique_id_node_answers_with_fresh_ids() {
    let mut node = UniqueIDGeneratorNode::new();
    assert_eq!(node.guid, "");
    node.set_node_id(Some(text("n3")));
    let mut seen = Vec::new();
    for request in 0..20 {
        let out = node
            .step(envelope("c1", "n3", Some(request), None, Payload::UniqueIdGen(GeneratePayload::Generate)))
            .unwrap();
        assert_eq!(out.len(), 1);
        assert_eq!(out[0].body.in_reply_to, Some(request));
        match &out[0].body.payload {
            Payload::UniqueIdGen(GeneratePayload::GenerateOk { id }) => {
                assert_eq!(*id, format!("n3-{}", request));
                assert_eq!(*id, node.guid);
                assert!(!seen.contains(id));
                seen.push(id.clone());
            }
            other => panic!("expected generate_ok, got {:?}", other),
        }
    }
}

#[test]
fn unique_id_node_ignores_generate_ok_and_refuses_the_rest() {
    let mut node = UniqueIDGeneratorNode::new();
    node.set_node_id(Some(text("n3")));
    let ok = Payload::UniqueIdGen(GeneratePayload::GenerateOk { id: text("other-1") });
    assert_eq!(node.step(envelope("n4", "n3", Some(1), Some(0), ok)), Ok(vec![]));
    assert_eq!(node.guid, "");
    let echo = Payload::Echo(EchoPayload::Echo { echo: text("x") });
    assert_eq!(node.step(envelope("c1", "n3", Some(1), None, echo)), Err(NodeError::UnexpectedPayload));
    node.msg_id = usize::MAX;
    let generate = Payload::UniqueIdGen(GeneratePayload::Generate);
    assert_eq!(node.step(envelope("c1", "n3", Some(1), None, generate)), Err(NodeError::MessageIdsExhausted));
    assert_eq!(node.guid, "");
}

#[test]
fn error_code_stands_for_its_number() {
    assert_eq!(ErrorCode::SomeErrorCode.number(), 1000);
    assert_eq!(ErrorCode::from_number(1000), Some(ErrorCode::SomeErrorCode));
    assert_eq!(ErrorCode::from_number(999), None);
    assert_eq!(ErrorCode::from_number(0), None);
    assert_eq!(ErrorCode::from_number(1001), None);
}

#[test]
fn default_nodes_are_fresh() {
    assert_eq!(EchoNode::default(), EchoNode::new());
    assert_eq!(UniqueIDGeneratorNode::default(), UniqueIDGeneratorNode::new());
    let node = BroadcastNode::default();
    assert_eq!(node, <BroadcastNode as Node>::new());
    assert_eq!(node.node_id, None);
    assert_eq!(node.msg_id, 0);
}
