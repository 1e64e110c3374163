//! What every node has in common: an identity, a counter that numbers the
//! envelopes it emits, the handshake, and the making of replies and requests.

use crate::message::{
    Body, BodyView, InitPayload, InitPayloadView, Message, MessageView, Payload, PayloadView,
};
use vstd::prelude::*;

verus! {

/// Why a node could not act on a message.
#[derive(Clone, Copy, Debug, PartialEq, Eq)]
pub enum NodeError {
    /// The payload is one that the node has no case for.
    UnexpectedPayload,
    /// The counter cannot number the envelopes that the message calls for.
    MessageIdsExhausted,
}

/// The state of a node in mathematical form.
pub ghost struct NodeModel<W> {
    /// The id that the handshake gave the node, once it has taken place.
    pub node_id: Option<Seq<char>>,
    /// The number that the next envelope will carry as its `msg_id`.
    pub msg_id: nat,
    /// What the node holds for its workload.
    pub workload: W,
}

/// What a node makes of one message: the state it goes to, and what it
/// emits or why it fails.
pub ghost struct Transition<W, R> {
    pub next: NodeModel<W>,
    pub result: Result<R, NodeError>,
}

/// The state of a node before the handshake: without an id, its counter at
/// zero.
pub open spec fn fresh<W>(workload: W) -> NodeModel<W> {
    NodeModel { node_id: None, msg_id: 0, workload }
}

/// The envelope that a node in state `node` emits next, to `dest`.
pub open spec fn envelope<W, P>(
    node: NodeModel<W>,
    dest: Seq<char>,
    in_reply_to: Option<usize>,
    payload: P,
) -> MessageView<P> {
    MessageView {
        src: node.node_id.unwrap(),
        dest,
        body: BodyView { msg_id: Some(node.msg_id as usize), in_reply_to, payload },
    }
}

/// The state of `node` after it has emitted `count` envelopes.
pub open spec fn advance<W>(node: NodeModel<W>, count: nat) -> NodeModel<W> {
    NodeModel { msg_id: node.msg_id + count, ..node }
}

/// A request refused for want of message ids.
pub open spec fn exhausted<W>(node: NodeModel<W>) -> Transition<
    W,
    Seq<MessageView<PayloadView>>,
> {
    Transition { next: node, result: Err(NodeError::MessageIdsExhausted) }
}

/// A request answered by the one reply `payload`.
pub open spec fn answer<W>(
    node: NodeModel<W>,
    next: NodeModel<W>,
    request: MessageView<PayloadView>,
    payload: PayloadView,
) -> Transition<W, Seq<MessageView<PayloadView>>> {
    if node.msg_id >= usize::MAX {
        exhausted(node)
    } else {
        Transition {
            next: advance(next, 1),
            result: Ok(seq![envelope(next, request.src, request.body.msg_id, payload)]),
        }
    }
}

/// What a node makes of the message that opens the session.
///
/// On `init` it takes the id it is given and answers `init_ok` to the
/// sender, in reply to the request. Any other payload is refused, and so
/// is `init` where the counter has no number left; the state then stays as
/// it is.
pub open spec fn init_transition<W>(
    node: NodeModel<W>,
    request: MessageView<InitPayloadView>,
) -> Transition<W, MessageView<InitPayloadView>> {
    match request.body.payload {
        InitPayloadView::Init { node_id, node_ids } => {
            if node.msg_id >= usize::MAX {
                Transition { next: node, result: Err(NodeError::MessageIdsExhausted) }
            } else {
                let named = NodeModel { node_id: Some(node_id), ..node };
                Transition {
                    next: advance(named, 1),
                    result: Ok(
                        envelope(named, request.src, request.body.msg_id, InitPayloadView::InitOk),
                    ),
                }
            }
        },
        InitPayloadView::InitOk => Transition {
            next: node,
            result: Err(NodeError::UnexpectedPayload),
        },
    }
}

/// The mathematical form of what `Node::step` returns.
pub open spec fn emitted(result: Result<Vec<Message<Payload>>, NodeError>) -> Result<
    Seq<MessageView<PayloadView>>,
    NodeError,
> {
    match result {
        Ok(messages) => Ok(messages.deep_view()),
        Err(error) => Err(error),
    }
}

/// The envelopes carry `node_id` as their source and consecutive message
/// ids, starting from `first`.
pub open spec fn well_numbered(
    envelopes: Seq<MessageView<PayloadView>>,
    node_id: Seq<char>,
    first: nat,
) -> bool {
    forall|i: int|
        0 <= i < envelopes.len() ==> (#[trigger] envelopes[i]).src == node_id
            && envelopes[i].body.msg_id == Some((first + i) as usize)
}

/// What holds of a step whatever the workload: the node keeps its id; a
/// refused request leaves no trace; an accepted one moves the counter on by
/// one for each envelope, within the range of message ids, and the
/// envelopes carry the node's id and the numbers that the counter passed.
pub open spec fn orderly<W>(
    node: NodeModel<W>,
    made: Transition<W, Seq<MessageView<PayloadView>>>,
) -> bool {
    &&& made.next.node_id == node.node_id
    &&& match made.result {
        Ok(envelopes) => {
            &&& made.next.msg_id == node.msg_id + envelopes.len()
            &&& made.next.msg_id <= usize::MAX
            &&& well_numbered(envelopes, node.node_id.unwrap(), node.msg_id)
        },
        Err(_) => made.next == node,
    }
}

/// A node of the cluster.
///
/// A node owns its identity and its message counter. The handshake and the
/// making of envelopes are the same for every node; what a node does with a
/// request after the handshake is its own (`step`).
pub trait Node: Sized {
    /// The mathematical form of what the node holds for its workload.
    type Workload;

    /// The state of the node in mathematical form.
    spec fn model(&self) -> NodeModel<Self::Workload>;

    /// What a node holds for its workload before it has seen a request.
    spec fn initial_workload() -> Self::Workload;

    /// What the node makes of a request that follows the handshake.
    spec fn step_transition(
        node: NodeModel<Self::Workload>,
        request: MessageView<PayloadView>,
    ) -> Transition<Self::Workload, Seq<MessageView<PayloadView>>>;

    /// A node before the handshake: without an id, its counter at zero.
    fn new() -> (node: Self)
        ensures
            node.model() == fresh::<Self::Workload>(Self::initial_workload()),
    ;

    /// The number that the next envelope will carry.
    fn get_msg_id(&self) -> (msg_id: usize)
        ensures
            msg_id == self.model().msg_id,
    ;

    /// Moves the counter on by one.
    fn incr_msg_id(&mut self)
        requires
            old(self).model().msg_id < usize::MAX,
        ensures
            final(self).model() == advance(old(self).model(), 1),
    ;

    /// The id of the node, once the handshake has taken place.
    fn get_node_id(&self) -> (node_id: Option<String>)
        ensures
            node_id.deep_view() == self.model().node_id,
    ;

    /// Gives the node the id `value`.
    fn set_node_id(&mut self, value: Option<String>)
        ensures
            final(self).model() == (NodeModel {
                node_id: value.deep_view(),
                ..old(self).model()
            }),
    ;

    /// Acts on the message that opens the session, and returns the reply to
    /// emit.
    fn init_response(&mut self, request: Message<InitPayload>) -> (result: Result<
        Message<InitPayload>,
        NodeError,
    >)
        ensures
            init_transition(old(self).model(), request@) == (Transition {
                next: final(self).model(),
                result: match result {
                    Ok(reply) => Ok(reply@),
                    Err(error) => Err(error),
                },
            }),
    {
        match request.body.payload {
            InitPayload::Init { node_id, node_ids: _ } => {
                if self.get_msg_id() == usize::MAX {
                    return Err(NodeError::MessageIdsExhausted);
                }
                self.set_node_id(Some(node_id));
                let response = Message {
                    src: self.get_node_id().unwrap(),
                    dest: request.src,
                    body: Body {
                        msg_id: Some(self.get_msg_id()),
                        in_reply_to: request.body.msg_id,
                        payload: InitPayload::InitOk,
                    },
                };
                self.incr_msg_id();
                Ok(response)
            },
            InitPayload::InitOk => Err(NodeError::UnexpectedPayload),
        }
    }

    /// Acts on a request that follows the handshake, and returns the
    /// envelopes to emit, in the order in which they are to be emitted.
    fn step(&mut self, request: Message<Payload>) -> (result: Result<
        Vec<Message<Payload>>,
        NodeError,
    >)
        requires
            old(self).model().node_id is Some,
        ensures
            Self::step_transition(old(self).model(), request@) == (Transition {
                next: final(self).model(),
                result: emitted(result),
            }),
    ;

    /// Every step of the node is orderly.
    proof fn step_is_orderly(node: NodeModel<Self::Workload>, request: MessageView<PayloadView>)
        requires
            node.node_id is Some,
            node.msg_id <= usize::MAX,
        ensures
            orderly(node, Self::step_transition(node, request)),
    ;

    /// Makes the reply to a request: an envelope from this node to `dest`
    /// that carries the counter's number and `in_reply_to`, and moves the
    /// counter on.
    fn respond(&mut self, dest: String, in_reply_to: Option<usize>, payload: Payload) -> (reply:
        Message<Payload>)
        requires
            old(self).model().node_id is Some,
            old(self).model().msg_id < usize::MAX,
        ensures
            reply@ == envelope(old(self).model(), dest@, in_reply_to, payload@),
            final(self).model() == advance(old(self).model(), 1),
    {
        let response = Message {
            src: self.get_node_id().unwrap(),
            dest,
            body: Body { msg_id: Some(self.get_msg_id()), in_reply_to, payload },
        };
        self.incr_msg_id();
        response
    }

    /// Makes a request of this node's own to `dest`: an envelope that
    /// carries the counter's number and replies to nothing, and moves the
    /// counter on.
    fn request(&mut self, dest: String, payload: Payload) -> (request: Message<Payload>)
        requires
            old(self).model().node_id is Some,
            old(self).model().msg_id < usize::MAX,
        ensures
            request@ == envelope(old(self).model(), dest@, None, payload@),
            final(self).model() == advance(old(self).model(), 1),
    {
        let request = Message {
            src: self.get_node_id().unwrap(),
            dest,
            body: Body { msg_id: Some(self.get_msg_id()), in_reply_to: None, payload },
        };
        self.incr_msg_id();
        request
    }
}

/// The reply to `init` answers it: it goes from the node, under the id that
/// `init` gave it, to the sender, and names the request's message id as
/// the one it replies to.
pub proof fn handshake_reply_answers_request<W>(
    node: NodeModel<W>,
    request: MessageView<InitPayloadView>,
)
    requires
        init_transition(node, request).result is Ok,
    ensures
        ({
            let reply = init_transition(node, request).result->Ok_0;
            &&& request.body.payload is Init
            &&& reply.body.payload is InitOk
            &&& reply.body.in_reply_to == request.body.msg_id
            &&& reply.dest == request.src
            &&& reply.src == request.body.payload->node_id
            &&& init_transition(node, request).next.node_id == Some(reply.src)
        }),
{
}

/// A reply made by `answer` answers its request: it goes from the node to
/// the sender and names the request's message id as the one it replies to.
pub proof fn answer_answers_request<W>(
    node: NodeModel<W>,
    next: NodeModel<W>,
    request: MessageView<PayloadView>,
    payload: PayloadView,
)
    requires
        answer(node, next, request, payload).result is Ok,
    ensures
        ({
            let envelopes = answer(node, next, request, payload).result->Ok_0;
            &&& envelopes.len() == 1
            &&& envelopes[0].body.in_reply_to == request.body.msg_id
            &&& envelopes[0].dest == request.src
            &&& envelopes[0].src == next.node_id.unwrap()
            &&& envelopes[0].body.payload == payload
        }),
{
}

} // verus!
