//! The echo node: it sends back what it is sent.

use crate::message::{EchoPayload, EchoPayloadView, Message, MessageView, Payload, PayloadView};
use crate::node::{answer, emitted, fresh, Node, NodeError, NodeModel, Transition};
use vstd::prelude::*;

verus! {

/// A node of the echo workload.
#[derive(Debug, PartialEq, Eq)]
pub struct EchoNode {
    /// The number that the next envelope will carry.
    pub msg_id: usize,
    /// The id that the handshake gave the node.
    pub node_id: Option<String>,
}

/// What an echo node makes of a request.
///
/// - `echo`: the sender gets the same text back in `echo_ok`.
/// - `echo_ok`: nothing is emitted and nothing changes.
/// - Any other payload is refused, and so is `echo` where the counter has
///   no number left; the state then stays as it is.
pub open spec fn echo_transition(node: NodeModel<()>, request: MessageView<PayloadView>) -> Transition<
    (),
    Seq<MessageView<PayloadView>>,
> {
    match request.body.payload {
        PayloadView::Echo(EchoPayloadView::Echo { echo }) => answer(
            node,
            node,
            request,
            PayloadView::Echo(EchoPayloadView::EchoOk { echo }),
        ),
        PayloadView::Echo(EchoPayloadView::EchoOk { .. }) => Transition {
            next: node,
            result: Ok(Seq::empty()),
        },
        _ => Transition { next: node, result: Err(NodeError::UnexpectedPayload) },
    }
}

impl EchoNode {
    /// A node before the handshake: without an id, its counter at zero.
    pub fn new() -> (node: EchoNode)
        ensures
            node.model() == fresh(()),
    {
        EchoNode { msg_id: 0, node_id: None }
    }

    /// Acts on a request that follows the handshake, and returns the
    /// envelopes to emit.
    pub fn step(&mut self, request: Message<Payload>) -> (result: Result<
        Vec<Message<Payload>>,
        NodeError,
    >)
        requires
            old(self).model().node_id is Some,
        ensures
            echo_transition(old(self).model(), request@) == (Transition {
                next: final(self).model(),
                result: emitted(result),
            }),
    {
        let mut out: Vec<Message<Payload>> = Vec::new();
        match request.body.payload {
            Payload::Echo(echo_payload) => match echo_payload {
                EchoPayload::Echo { echo } => {
                    if self.msg_id == usize::MAX {
                        return Err(NodeError::MessageIdsExhausted);
                    }
                    let payload = Payload::Echo(EchoPayload::EchoOk { echo });
                    let reply = self.respond(request.src, request.body.msg_id, payload);
                    out.push(reply);
                    assert(out.deep_view() =~= seq![out@[0]@]);
                },
                EchoPayload::EchoOk { .. } => {
                    assert(out.deep_view() =~= Seq::empty());
                },
            },
            _ => {
                return Err(NodeError::UnexpectedPayload);
            },
        }
        Ok(out)
    }
}

impl Default for EchoNode {
    fn default() -> (node: EchoNode)
        ensures
            node.model() == fresh(()),
    {
        EchoNode::new()
    }
}

impl Node for EchoNode {
    type Workload = ();

    open spec fn model(&self) -> NodeModel<()> {
        NodeModel { node_id: self.node_id.deep_view(), msg_id: self.msg_id as nat, workload: () }
    }

    open spec fn step_transition(
        node: NodeModel<()>,
        request: MessageView<PayloadView>,
    ) -> Transition<(), Seq<MessageView<PayloadView>>> {
        echo_transition(node, request)
    }

    open spec fn initial_workload() -> () {
        ()
    }

    fn new() -> (node: EchoNode) {
        EchoNode::new()
    }

    fn get_msg_id(&self) -> (msg_id: usize) {
        self.msg_id
    }

    fn incr_msg_id(&mut self) {
        self.msg_id = self.msg_id + 1;
    }

    fn get_node_id(&self) -> (node_id: Option<String>) {
        self.node_id.clone()
    }

    fn set_node_id(&mut self, value: Option<String>) {
        self.node_id = value;
    }

    proof fn step_is_orderly(node: NodeModel<()>, request: MessageView<PayloadView>) {
    }

    fn step(&mut self, request: Message<Payload>) -> (result: Result<
        Vec<Message<Payload>>,
        NodeError,
    >) {
        EchoNode::step(self, request)
    }
}

} // verus!
