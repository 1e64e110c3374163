//! The broadcast node: it keeps the set of values it has heard of, takes a
//! topology, and floods each value it is told to its neighbours.

use crate::logic::{delivery, opens_session, session, Delivery, Fault, InputView};
use crate::message::{
    clone_values, BroadcastPayload, BroadcastPayloadView, Message, MessageView, Payload,
    PayloadView,
};
use crate::node::{
    advance, answer, envelope, exhausted, fresh, Node, NodeError, NodeModel, Transition,
};
use crate::topology::{Topology, TopologyView};
use std::collections::HashSet;
use vstd::prelude::*;

verus! {

broadcast use vstd::std_specs::hash::group_hash_axioms;

/// What a broadcast node holds for its workload, in mathematical form.
pub ghost struct BroadcastState {
    /// The topology as it was last assigned.
    pub topology: TopologyView,
    /// The values that the node has heard of.
    pub messages: Set<usize>,
}

/// A node of the broadcast workload.
#[derive(Debug, PartialEq, Eq)]
pub struct BroadcastNode {
    /// The id that the handshake gave the node.
    pub node_id: Option<String>,
    /// The number that the next envelope will carry.
    pub msg_id: usize,
    /// The topology as it was last assigned.
    pub topology: Topology,
    /// The values that the node has heard of.
    pub messages: HashSet<usize>,
}

/// The neighbours that the topology lists for the node itself; none where
/// it lists no entry for it.
pub open spec fn neighbors(node: NodeModel<BroadcastState>) -> Seq<Seq<char>> {
    match node.node_id {
        Some(id) if node.workload.topology.contains_key(id) => node.workload.topology[id],
        _ => Seq::empty(),
    }
}

/// The payload that proposes `message`.
pub open spec fn proposal(message: usize) -> PayloadView {
    PayloadView::Broadcast(BroadcastPayloadView::Broadcast { message })
}

/// The requests by which a node in state `node` passes `message` on: one to
/// each neighbour, in the order of the list, each with a number of its own.
pub open spec fn fan_out(node: NodeModel<BroadcastState>, message: usize) -> Seq<
    MessageView<PayloadView>,
> {
    Seq::new(
        neighbors(node).len(),
        |i: int| envelope(advance(node, i as nat), neighbors(node)[i], None, proposal(message)),
    )
}

/// What a broadcast node makes of a request.
///
/// - `broadcast`: the value joins the known values; the sender gets
///   `broadcast_ok`, and then each neighbour of the node gets the value in a
///   request of its own, whether the value was known before or not.
/// - `read`: the sender gets the known values.
/// - `topology`: the topology takes the place of the one held before; the
///   sender gets `topology_ok`.
/// - `broadcast_ok`, `read_ok`, `topology_ok`: nothing is emitted and
///   nothing changes.
/// - Any other payload is refused, and so is a request that calls for more
///   envelopes than the counter can number; the state then stays as it is.
pub open spec fn broadcast_transition(
    node: NodeModel<BroadcastState>,
    request: MessageView<PayloadView>,
) -> Transition<BroadcastState, Seq<MessageView<PayloadView>>> {
    match request.body.payload {
        PayloadView::Broadcast(BroadcastPayloadView::Broadcast { message }) => {
            let learned = NodeModel {
                workload: BroadcastState {
                    messages: node.workload.messages.insert(message),
                    ..node.workload
                },
                ..node
            };
            let count = 1 + neighbors(node).len();
            if node.msg_id + count > usize::MAX {
                exhausted(node)
            } else {
                Transition {
                    next: advance(learned, count),
                    result: Ok(
                        seq![
                            envelope(
                                learned,
                                request.src,
                                request.body.msg_id,
                                PayloadView::Broadcast(BroadcastPayloadView::BroadcastOk),
                            ),
                        ] + fan_out(advance(learned, 1), message),
                    ),
                }
            }
        },
        PayloadView::Broadcast(BroadcastPayloadView::Read) => answer(
            node,
            node,
            request,
            PayloadView::Broadcast(
                BroadcastPayloadView::ReadOk { messages: node.workload.messages },
            ),
        ),
        PayloadView::Broadcast(BroadcastPayloadView::Topology { topology }) => answer(
            node,
            NodeModel { workload: BroadcastState { topology, ..node.workload }, ..node },
            request,
            PayloadView::Broadcast(BroadcastPayloadView::TopologyOk),
        ),
        PayloadView::Broadcast(BroadcastPayloadView::BroadcastOk)
        | PayloadView::Broadcast(BroadcastPayloadView::ReadOk { .. })
        | PayloadView::Broadcast(BroadcastPayloadView::TopologyOk) => Transition {
            next: node,
            result: Ok(Seq::empty()),
        },
        _ => Transition { next: node, result: Err(NodeError::UnexpectedPayload) },
    }
}

impl BroadcastNode {
    /// The neighbours that the topology lists for the node itself.
    fn own_neighbors(&self) -> (list: Vec<String>)
        requires
            self.model().node_id is Some,
        ensures
            list.deep_view() == neighbors(self.model()),
    {
        let node_id = self.node_id.clone().unwrap();
        match self.topology.get(&node_id) {
            Some(list) => {
                let copy = list.clone();
                assert(copy.deep_view() =~= list.deep_view());
                copy
            },
            None => {
                let list: Vec<String> = Vec::new();
                assert(list.deep_view() =~= Seq::<Seq<char>>::empty());
                list
            },
        }
    }
}

impl Default for BroadcastNode {
    fn default() -> (node: BroadcastNode)
        ensures
            node.model() == fresh(BroadcastNode::initial_workload()),
    {
        <BroadcastNode as Node>::new()
    }
}

impl Node for BroadcastNode {
    type Workload = BroadcastState;

    open spec fn model(&self) -> NodeModel<BroadcastState> {
        NodeModel {
            node_id: self.node_id.deep_view(),
            msg_id: self.msg_id as nat,
            workload: BroadcastState { topology: self.topology@, messages: self.messages@ },
        }
    }

    open spec fn step_transition(
        node: NodeModel<BroadcastState>,
        request: MessageView<PayloadView>,
    ) -> Transition<BroadcastState, Seq<MessageView<PayloadView>>> {
        broadcast_transition(node, request)
    }

    open spec fn initial_workload() -> BroadcastState {
        BroadcastState { topology: TopologyView::empty(), messages: Set::empty() }
    }

    fn new() -> (node: BroadcastNode) {
        BroadcastNode {
            node_id: None,
            msg_id: 0,
            topology: Topology::new(),
            messages: HashSet::new(),
        }
    }

    fn get_msg_id(&self) -> (msg_id: usize) {
        self.msg_id
    }

    fn incr_msg_id(&mut self) {
        self.msg_id = self.msg_id + 1;
    }

    fn get_node_id(&self) -> (node_id: Option<String>) {
        self.node_id.clone()
    }

    fn set_node_id(&mut self, value: Option<String>) {
        self.node_id = value;
    }

    proof fn step_is_orderly(node: NodeModel<BroadcastState>, request: MessageView<PayloadView>) {
    }

    fn step(&mut self, request: Message<Payload>) -> (result: Result<
        Vec<Message<Payload>>,
        NodeError,
    >) {
        let ghost asked = request@;
        let mut out: Vec<Message<Payload>> = Vec::new();
        match request.body.payload {
            Payload::Broadcast(broadcast_payload) => match broadcast_payload {
                BroadcastPayload::Broadcast { message } => {
                    let targets = self.own_neighbors();
                    if targets.len() >= usize::MAX - self.msg_id {
                        return Err(NodeError::MessageIdsExhausted);
                    }
                    self.messages.insert(message);
                    let ghost learned = self.model();
                    let ghost expected = seq![
                        envelope(
                            learned,
                            asked.src,
                            asked.body.msg_id,
                            PayloadView::Broadcast(BroadcastPayloadView::BroadcastOk),
                        ),
                    ] + fan_out(advance(learned, 1), message);
                    let payload = Payload::Broadcast(BroadcastPayload::BroadcastOk);
                    let reply = self.respond(request.src, request.body.msg_id, payload);
                    out.push(reply);
                    let ghost list = targets.deep_view();
                    let ghost all = targets@;
                    for neighbor in it: targets
                        invariant
                            it.seq() == all,
                            list.len() == all.len(),
                            forall|j: int| 0 <= j < all.len() ==> all[j]@ == list[j],
                            neighbors(advance(learned, 1)) == list,
                            learned.node_id is Some,
                            learned.msg_id + 1 + list.len() <= usize::MAX,
                            self.model() == advance(learned, 1 + it.index() as nat),
                            expected == seq![
                                envelope(
                                    learned,
                                    asked.src,
                                    asked.body.msg_id,
                                    PayloadView::Broadcast(BroadcastPayloadView::BroadcastOk),
                                ),
                            ] + fan_out(advance(learned, 1), message),
                            out@.len() == 1 + it.index(),
                            forall|j: int| 0 <= j < 1 + it.index() ==> out@[j]@ == expected[j],
                    {
                        let payload = Payload::Broadcast(BroadcastPayload::Broadcast { message });
                        let passed = self.request(neighbor, payload);
                        out.push(passed);
                    }
                    assert(out.deep_view() =~= expected);
                },
                BroadcastPayload::Read => {
                    if self.msg_id == usize::MAX {
                        return Err(NodeError::MessageIdsExhausted);
                    }
                    let payload = Payload::Broadcast(
                        BroadcastPayload::ReadOk { messages: clone_values(&self.messages) },
                    );
                    let reply = self.respond(request.src, request.body.msg_id, payload);
                    out.push(reply);
                    assert(out.deep_view() =~= seq![out@[0]@]);
                },
                BroadcastPayload::Topology { topology } => {
                    if self.msg_id == usize::MAX {
                        return Err(NodeError::MessageIdsExhausted);
                    }
                    self.topology = topology;
                    let payload = Payload::Broadcast(BroadcastPayload::TopologyOk);
                    let reply = self.respond(request.src, request.body.msg_id, payload);
                    out.push(reply);
                    assert(out.deep_view() =~= seq![out@[0]@]);
                },
                BroadcastPayload::BroadcastOk
                | BroadcastPayload::ReadOk { .. }
                | BroadcastPayload::TopologyOk => {
                    assert(out.deep_view() =~= Seq::empty());
                },
            },
            _ => {
                return Err(NodeError::UnexpectedPayload);
            },
        }
        Ok(out)
    }
}

/// The state that a node reaches from `node` by taking `requests` in turn.
pub open spec fn after(
    node: NodeModel<BroadcastState>,
    requests: Seq<MessageView<PayloadView>>,
) -> NodeModel<BroadcastState>
    decreases requests.len(),
{
    if requests.len() == 0 {
        node
    } else {
        after(broadcast_transition(node, requests.first()).next, requests.drop_first())
    }
}

/// Whether a node that starts in state `node` refuses none of `requests`.
pub open spec fn accepts(
    node: NodeModel<BroadcastState>,
    requests: Seq<MessageView<PayloadView>>,
) -> bool
    decreases requests.len(),
{
    requests.len() == 0 || (broadcast_transition(node, requests.first()).result is Ok && accepts(
        broadcast_transition(node, requests.first()).next,
        requests.drop_first(),
    ))
}

/// The values that `requests` propose.
pub open spec fn proposed(requests: Seq<MessageView<PayloadView>>) -> Set<usize> {
    Set::new(
        |message: usize|
            exists|i: int|
                0 <= i < requests.len() && (#[trigger] requests[i]).body.payload == proposal(
                    message,
                ),
    )
}

/// Whether `payload` is one of the acknowledgements of the workload.
pub open spec fn is_acknowledgement(payload: PayloadView) -> bool {
    payload matches PayloadView::Broadcast(kind) && (kind is BroadcastOk || kind is ReadOk
        || kind is TopologyOk)
}

/// Whether `payload` is a request of the workload, which calls for a reply.
pub open spec fn calls_for_reply(payload: PayloadView) -> bool {
    payload matches PayloadView::Broadcast(kind) && (kind is Broadcast || kind is Read
        || kind is Topology)
}

/// The lines of input that hold `requests`.
pub open spec fn lines(requests: Seq<MessageView<PayloadView>>) -> Seq<InputView> {
    Seq::new(requests.len(), |i: int| InputView::Message(requests[i]))
}

/// The values proposed by a run of requests are those of the first and
/// those of the rest.
proof fn lemma_proposed_unfolds(requests: Seq<MessageView<PayloadView>>)
    requires
        requests.len() > 0,
    ensures
        forall|message: usize|
            proposed(requests).contains(message) <==> (requests.first().body.payload == proposal(
                message,
            ) || proposed(requests.drop_first()).contains(message)),
{
    let rest = requests.drop_first();
    assert forall|message: usize| proposed(requests).contains(message) <==> (
    requests.first().body.payload == proposal(message) || proposed(rest).contains(message)) by {
        if proposed(rest).contains(message) {
            let i = choose|i: int|
                0 <= i < rest.len() && (#[trigger] rest[i]).body.payload == proposal(message);
            assert(requests[i + 1].body.payload == proposal(message));
        }
        if requests.first().body.payload == proposal(message) {
            assert(requests[0].body.payload == proposal(message));
        }
        if proposed(requests).contains(message) {
            let i = choose|i: int|
                0 <= i < requests.len() && (#[trigger] requests[i]).body.payload == proposal(
                    message,
                );
            if i > 0 {
                assert(rest[i - 1].body.payload == proposal(message));
            }
        }
    }
}

/// The known values only grow, and by nothing but what is proposed: after
/// any requests, none of them refused, a node knows the values it knew
/// before and those that the requests proposed, however often and in
/// whatever order they came.
pub proof fn known_values_are_those_proposed(
    node: NodeModel<BroadcastState>,
    requests: Seq<MessageView<PayloadView>>,
)
    requires
        accepts(node, requests),
    ensures
        after(node, requests).workload.messages == node.workload.messages.union(
            proposed(requests),
        ),
    decreases requests.len(),
{
    let reached = after(node, requests).workload.messages;
    let union = node.workload.messages.union(proposed(requests));
    if requests.len() == 0 {
        assert(reached =~= union);
    } else {
        let next = broadcast_transition(node, requests.first()).next;
        known_values_are_those_proposed(next, requests.drop_first());
        lemma_proposed_unfolds(requests);
        assert(reached =~= union);
    }
}

/// What a node answers to `read` after any requests, none of them refused:
/// the values it knew before and those that the requests proposed.
pub proof fn read_returns_the_values_proposed(
    node: NodeModel<BroadcastState>,
    requests: Seq<MessageView<PayloadView>>,
    read: MessageView<PayloadView>,
)
    requires
        accepts(node, requests),
        read.body.payload == PayloadView::Broadcast(BroadcastPayloadView::Read),
        after(node, requests).msg_id < usize::MAX,
    ensures
        broadcast_transition(after(node, requests), read).result == Ok::<
            Seq<MessageView<PayloadView>>,
            NodeError,
        >(
            seq![
                envelope(
                    after(node, requests),
                    read.src,
                    read.body.msg_id,
                    PayloadView::Broadcast(
                        BroadcastPayloadView::ReadOk {
                            messages: node.workload.messages.union(proposed(requests)),
                        },
                    ),
                ),
            ],
        ),
{
    known_values_are_those_proposed(node, requests);
}

/// Neither the order of the requests nor their repetition shows in what a
/// node knows: two runs of requests that propose the same values leave the
/// same known values.
pub proof fn known_values_ignore_order_and_repeats(
    node: NodeModel<BroadcastState>,
    one: Seq<MessageView<PayloadView>>,
    other: Seq<MessageView<PayloadView>>,
)
    requires
        accepts(node, one),
        accepts(node, other),
        proposed(one) == proposed(other),
    ensures
        after(node, one).workload.messages == after(node, other).workload.messages,
{
    known_values_are_those_proposed(node, one);
    known_values_are_those_proposed(node, other);
}

/// In a session, `read` is answered with the values that the node knew at
/// the start and those proposed since: where a session of a node that has
/// its id takes `requests` and then `read` without a fault, the last
/// envelope it emits is `read_ok` with exactly those values.
pub proof fn session_read_returns_the_values_proposed(
    node: NodeModel<BroadcastState>,
    requests: Seq<MessageView<PayloadView>>,
    read: MessageView<PayloadView>,
)
    requires
        node.node_id is Some,
        node.msg_id <= usize::MAX,
        read.body.payload == PayloadView::Broadcast(BroadcastPayloadView::Read),
        session::<BroadcastNode>(node, lines(requests.push(read))).end is Ok,
    ensures
        ({
            let emitted = session::<BroadcastNode>(node, lines(requests.push(read))).emitted;
            &&& emitted.len() > 0
            &&& emitted.last().body.payload == PayloadView::Broadcast(
                BroadcastPayloadView::ReadOk {
                    messages: node.workload.messages.union(proposed(requests)),
                },
            )
            &&& emitted.last().dest == read.src
            &&& emitted.last().body.in_reply_to == read.body.msg_id
        }),
    decreases requests.len(),
{
    let all = lines(requests.push(read));
    let first = delivery::<BroadcastNode>(node, all[0]);
    let rest = session::<BroadcastNode>(first.next, all.drop_first());
    if requests.len() == 0 {
        assert(all.drop_first() =~= Seq::<InputView>::empty());
        assert(all[0] == InputView::Message(read));
        assert(node.workload.messages.union(proposed(requests)) =~= node.workload.messages);
    } else {
        let later = requests.drop_first();
        assert(all[0] == InputView::Message(requests.first()));
        assert(all.drop_first() =~= lines(later.push(read)));
        BroadcastNode::step_is_orderly(node, requests.first());
        session_read_returns_the_values_proposed(first.next, later, read);
        lemma_proposed_unfolds(requests);
        assert(first.next.workload.messages.union(proposed(later))
            =~= node.workload.messages.union(proposed(requests)));
        let emitted = session::<BroadcastNode>(node, all).emitted;
        assert(emitted.last() == rest.emitted.last());
    }
}

/// From the handshake on, a node knows the values proposed to it and no
/// others: where a session of a fresh node takes `init`, then `requests`,
/// then `read`, without a fault, the last envelope it emits is `read_ok`
/// with the values that the requests proposed, each once, whatever their
/// order and however often they were proposed.
pub proof fn read_returns_the_values_delivered(
    opening: MessageView<PayloadView>,
    requests: Seq<MessageView<PayloadView>>,
    read: MessageView<PayloadView>,
)
    requires
        opens_session(InputView::Message(opening)),
        read.body.payload == PayloadView::Broadcast(BroadcastPayloadView::Read),
        session::<BroadcastNode>(
            fresh(BroadcastNode::initial_workload()),
            seq![InputView::Message(opening)] + lines(requests.push(read)),
        ).end is Ok,
    ensures
        ({
            let emitted = session::<BroadcastNode>(
                fresh(BroadcastNode::initial_workload()),
                seq![InputView::Message(opening)] + lines(requests.push(read)),
            ).emitted;
            &&& emitted.len() > 0
            &&& emitted.last().body.payload == PayloadView::Broadcast(
                BroadcastPayloadView::ReadOk { messages: proposed(requests) },
            )
        }),
{
    let start = fresh(BroadcastNode::initial_workload());
    let all = seq![InputView::Message(opening)] + lines(requests.push(read));
    let first = delivery::<BroadcastNode>(start, all[0]);
    assert(all[0] == InputView::Message(opening));
    assert(all.drop_first() =~= lines(requests.push(read)));
    session_read_returns_the_values_proposed(first.next, requests, read);
    assert(first.next.workload.messages.union(proposed(requests)) =~= proposed(requests));
    let rest = session::<BroadcastNode>(first.next, all.drop_first());
    let emitted = session::<BroadcastNode>(start, all).emitted;
    assert(emitted.last() == rest.emitted.last());
}

/// What a node knows it never forgets: no request takes a value from the
/// known values.
pub proof fn known_values_never_shrink(
    node: NodeModel<BroadcastState>,
    request: MessageView<PayloadView>,
)
    ensures
        node.workload.messages.subset_of(
            broadcast_transition(node, request).next.workload.messages,
        ),
{
}

/// A request gets one reply, and the reply comes first: where a node
/// accepts `read` or `topology`, it emits the reply and nothing else; where
/// it accepts a proposal, it emits `broadcast_ok` and then, for each
/// neighbour that the topology lists for it and in the order of that list,
/// one request of its own that proposes the same value and replies to
/// nothing.
pub proof fn one_reply_then_fan_out(
    node: NodeModel<BroadcastState>,
    request: MessageView<PayloadView>,
)
    requires
        node.node_id is Some,
        calls_for_reply(request.body.payload),
        broadcast_transition(node, request).result is Ok,
    ensures
        ({
            let emitted = broadcast_transition(node, request).result->Ok_0;
            match request.body.payload->Broadcast_0 {
                BroadcastPayloadView::Broadcast { message } => {
                    &&& emitted.len() == 1 + neighbors(node).len()
                    &&& emitted[0].body.payload == PayloadView::Broadcast(
                        BroadcastPayloadView::BroadcastOk,
                    )
                    &&& forall|i: int|
                        1 <= i < emitted.len() ==> {
                            &&& (#[trigger] emitted[i]).dest == neighbors(node)[i - 1]
                            &&& emitted[i].body.in_reply_to is None
                            &&& emitted[i].body.payload == proposal(message)
                        }
                },
                BroadcastPayloadView::Read => {
                    &&& emitted.len() == 1
                    &&& emitted[0].body.payload == PayloadView::Broadcast(
                        BroadcastPayloadView::ReadOk { messages: node.workload.messages },
                    )
                },
                _ => {
                    &&& emitted.len() == 1
                    &&& emitted[0].body.payload == PayloadView::Broadcast(
                        BroadcastPayloadView::TopologyOk,
                    )
                },
            }
        }),
{
}

/// An acknowledgement is taken in silence: nothing is emitted and the node
/// stays as it is.
pub proof fn acknowledgements_change_nothing(
    node: NodeModel<BroadcastState>,
    request: MessageView<PayloadView>,
)
    requires
        is_acknowledgement(request.body.payload),
    ensures
        broadcast_transition(node, request) == (Transition {
            next: node,
            result: Ok::<Seq<MessageView<PayloadView>>, NodeError>(Seq::empty()),
        }),
        node.node_id is Some ==> delivery::<BroadcastNode>(node, InputView::Message(request)) == (
        Delivery { next: node, result: Ok::<Seq<MessageView<PayloadView>>, Fault>(Seq::empty()) }),
{
}

/// A topology takes the place of the one before it, whole: after two
/// assignments, a proposal is passed on to the neighbours that the second
/// topology lists for the node, and to no one else; to no one, where the
/// second lists none for it.
pub proof fn later_topology_replaces_earlier(
    node: NodeModel<BroadcastState>,
    first: MessageView<PayloadView>,
    second: MessageView<PayloadView>,
    proposal_request: MessageView<PayloadView>,
    message: usize,
)
    requires
        node.node_id is Some,
        first.body.payload matches PayloadView::Broadcast(kind) && kind is Topology,
        second.body.payload matches PayloadView::Broadcast(kind) && kind is Topology,
        proposal_request.body.payload == proposal(message),
        accepts(node, seq![first, second, proposal_request]),
    ensures
        ({
            let assigned = second.body.payload->Broadcast_0->topology;
            let own = node.node_id.unwrap();
            let targets = if assigned.contains_key(own) {
                assigned[own]
            } else {
                Seq::empty()
            };
            let reached = after(node, seq![first, second]);
            let made = broadcast_transition(reached, proposal_request);
            &&& reached.workload.topology == assigned
            &&& made.result is Ok
            &&& made.result->Ok_0.len() == 1 + targets.len()
            &&& forall|i: int|
                0 <= i < targets.len() ==> (#[trigger] made.result->Ok_0[1 + i]) == envelope(
                    advance(reached, (1 + i) as nat),
                    targets[i],
                    None,
                    proposal(message),
                )
        }),
{
    let all = seq![first, second, proposal_request];
    let both = seq![first, second];
    assert(all.drop_first() =~= seq![second, proposal_request]);
    assert(all.drop_first().drop_first() =~= seq![proposal_request]);
    assert(both.drop_first() =~= seq![second]);
    assert(both.drop_first().drop_first() =~= Seq::<MessageView<PayloadView>>::empty());
    let one = broadcast_transition(node, first).next;
    let two = broadcast_transition(one, second).next;
    assert(after(one, both.drop_first()) == after(two, both.drop_first().drop_first()));
    assert(after(node, both) == two);
    assert(accepts(one, all.drop_first()));
    assert(accepts(two, all.drop_first().drop_first()));
}

/// Every reply answers its request: where a node with an id accepts a
/// request that calls for a reply, the first envelope it emits goes from
/// the node to the sender of the request and names the request's message
/// id as the one it replies to.
pub proof fn replies_answer_their_requests(
    node: NodeModel<BroadcastState>,
    request: MessageView<PayloadView>,
)
    requires
        node.node_id is Some,
        calls_for_reply(request.body.payload),
        broadcast_transition(node, request).result is Ok,
    ensures
        ({
            let emitted = broadcast_transition(node, request).result->Ok_0;
            &&& emitted.len() >= 1
            &&& emitted[0].body.in_reply_to == request.body.msg_id
            &&& emitted[0].dest == request.src
            &&& emitted[0].src == node.node_id.unwrap()
        }),
{
}

/// The reply to a request that was addressed to the node has the request's
/// source and destination swapped.
pub proof fn replies_swap_source_and_destination(
    node: NodeModel<BroadcastState>,
    request: MessageView<PayloadView>,
)
    requires
        node.node_id == Some(request.dest),
        calls_for_reply(request.body.payload),
        broadcast_transition(node, request).result is Ok,
    ensures
        ({
            let emitted = broadcast_transition(node, request).result->Ok_0;
            &&& emitted.len() >= 1
            &&& emitted[0].body.in_reply_to == request.body.msg_id
            &&& emitted[0].src == request.dest
            &&& emitted[0].dest == request.src
        }),
{
}

} // verus!
