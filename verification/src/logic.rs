//! The dispatch of a session: the first message must open it, every later
//! one goes to the node's `step`, and the first fault ends it.

use crate::message::{Body, BodyView, Message, MessageView, Payload, PayloadView};
use crate::node::{fresh, init_transition, well_numbered, Node, NodeError, NodeModel};
use vstd::prelude::*;

verus! {

/// One line of input, as far as it could be read.
#[derive(Clone, Debug, PartialEq, Eq)]
pub enum Input {
    /// A line that holds a message.
    Message(Message<Payload>),
    /// A line that holds no message.
    Malformed,
}

/// Why a session cannot go on.
#[derive(Clone, Copy, Debug, PartialEq, Eq)]
pub enum Fault {
    /// The session did not begin with `init`.
    MissingInit,
    /// A payload of the handshake came after the handshake.
    RepeatedInit,
    /// A line held no message.
    Malformed,
    /// The node could not act on a message.
    Node(NodeError),
}

/// The mathematical form of an `Input`.
pub ghost enum InputView {
    Message(MessageView<PayloadView>),
    Malformed,
}

impl DeepView for Input {
    type V = InputView;

    open spec fn deep_view(&self) -> InputView {
        match self {
            Input::Message(message) => InputView::Message(message@),
            Input::Malformed => InputView::Malformed,
        }
    }
}

impl View for Input {
    type V = InputView;

    open spec fn view(&self) -> InputView {
        self.deep_view()
    }
}

/// What the delivery of one line comes to: the state the node goes to, and
/// the envelopes to emit or the fault that ends the session.
pub ghost struct Delivery<W> {
    pub next: NodeModel<W>,
    pub result: Result<Seq<MessageView<PayloadView>>, Fault>,
}

/// The same envelope with another payload.
pub open spec fn with_payload<P, Q>(message: MessageView<P>, payload: Q) -> MessageView<Q> {
    MessageView {
        src: message.src,
        dest: message.dest,
        body: BodyView {
            msg_id: message.body.msg_id,
            in_reply_to: message.body.in_reply_to,
            payload,
        },
    }
}

/// What the delivery of `input` to a node in state `node` comes to.
///
/// - A line that holds no message is a fault.
/// - A node without an id takes only the handshake: `init` is answered as
///   `init_transition` says, and any other payload is a fault.
/// - A node with an id has had its handshake: a payload of the handshake is
///   a fault. Every other message goes to the node's `step`; what that
///   refuses is a fault.
pub open spec fn delivery<N: Node>(node: NodeModel<N::Workload>, input: InputView) -> Delivery<
    N::Workload,
> {
    match input {
        InputView::Malformed => Delivery { next: node, result: Err(Fault::Malformed) },
        InputView::Message(message) => {
            if node.node_id is Some {
                if message.body.payload is Init {
                    Delivery { next: node, result: Err(Fault::RepeatedInit) }
                } else {
                    let made = N::step_transition(node, message);
                    Delivery {
                        next: made.next,
                        result: match made.result {
                            Ok(envelopes) => Ok(envelopes),
                            Err(error) => Err(Fault::Node(error)),
                        },
                    }
                }
            } else {
                match message.body.payload {
                    PayloadView::Init(payload) => {
                        let made = init_transition(node, with_payload(message, payload));
                        Delivery {
                            next: made.next,
                            result: match made.result {
                                Ok(reply) => Ok(
                                    seq![with_payload(reply, PayloadView::Init(reply.body.payload))],
                                ),
                                Err(error) => Err(Fault::Node(error)),
                            },
                        }
                    },
                    _ => Delivery { next: node, result: Err(Fault::MissingInit) },
                }
            }
        },
    }
}

/// How a session ends when the input does: in order once the handshake
/// has taken place, with a fault before.
pub open spec fn closing<W>(node: NodeModel<W>) -> Result<(), Fault> {
    if node.node_id is Some {
        Ok(())
    } else {
        Err(Fault::MissingInit)
    }
}

/// What a whole session comes to: the envelopes emitted, in order, and how
/// it ended.
pub ghost struct Session {
    pub emitted: Seq<MessageView<PayloadView>>,
    pub end: Result<(), Fault>,
}

/// The session of a node that starts in state `node` and is given `inputs`
/// line by line: it emits what each delivery emits, stops at the first
/// fault, and otherwise ends when the input does.
pub open spec fn session<N: Node>(node: NodeModel<N::Workload>, inputs: Seq<InputView>) -> Session
    decreases inputs.len(),
{
    if inputs.len() == 0 {
        Session { emitted: Seq::empty(), end: closing(node) }
    } else {
        let first = delivery::<N>(node, inputs[0]);
        match first.result {
            Ok(envelopes) => {
                let rest = session::<N>(first.next, inputs.drop_first());
                Session { emitted: envelopes + rest.emitted, end: rest.end }
            },
            Err(fault) => Session { emitted: Seq::empty(), end: Err(fault) },
        }
    }
}

/// The mathematical form of what `deliver` returns.
pub open spec fn delivered(result: Result<Vec<Message<Payload>>, Fault>) -> Result<
    Seq<MessageView<PayloadView>>,
    Fault,
> {
    match result {
        Ok(envelopes) => Ok(envelopes.deep_view()),
        Err(fault) => Err(fault),
    }
}

/// Delivers one line of input to `node`, and returns the envelopes to emit,
/// in order, or the fault that ends the session.
pub fn deliver<N: Node>(node: &mut N, input: Input) -> (result: Result<
    Vec<Message<Payload>>,
    Fault,
>)
    ensures
        delivery::<N>(old(node).model(), input@) == (Delivery {
            next: final(node).model(),
            result: delivered(result),
        }),
{
    match input {
        Input::Malformed => Err(Fault::Malformed),
        Input::Message(message) => {
            if node.get_node_id().is_some() {
                if let Payload::Init(_) = message.body.payload {
                    return Err(Fault::RepeatedInit);
                }
                match node.step(message) {
                    Ok(envelopes) => Ok(envelopes),
                    Err(error) => Err(Fault::Node(error)),
                }
            } else {
                match message.body.payload {
                    Payload::Init(payload) => {
                        let request = Message {
                            src: message.src,
                            dest: message.dest,
                            body: Body {
                                msg_id: message.body.msg_id,
                                in_reply_to: message.body.in_reply_to,
                                payload,
                            },
                        };
                        match node.init_response(request) {
                            Ok(reply) => {
                                let mut envelopes: Vec<Message<Payload>> = Vec::new();
                                envelopes.push(
                                    Message {
                                        src: reply.src,
                                        dest: reply.dest,
                                        body: Body {
                                            msg_id: reply.body.msg_id,
                                            in_reply_to: reply.body.in_reply_to,
                                            payload: Payload::Init(reply.body.payload),
                                        },
                                    },
                                );
                                assert(envelopes.deep_view() =~= seq![envelopes@[0]@]);
                                Ok(envelopes)
                            },
                            Err(error) => Err(Fault::Node(error)),
                        }
                    },
                    _ => Err(Fault::MissingInit),
                }
            }
        },
    }
}

/// Ends the session of `node` at the end of the input.
pub fn close<N: Node>(node: &N) -> (end: Result<(), Fault>)
    ensures
        end == closing(node.model()),
{
    if node.get_node_id().is_some() {
        Ok(())
    } else {
        Err(Fault::MissingInit)
    }
}

/// Runs a fresh node through a whole session: `inputs` are the lines of
/// input in order, the end of the list is the end of the input. Returns the
/// envelopes emitted, in order, and how the session ended.
#[verifier::loop_isolation(false)]
pub fn main_loop<N: Node>(inputs: Vec<Input>) -> (ran: (Vec<Message<Payload>>, Result<(), Fault>))
    ensures
        session::<N>(fresh(N::initial_workload()), inputs.deep_view()) == (Session {
            emitted: ran.0.deep_view(),
            end: ran.1,
        }),
{
    let mut node = N::new();
    let mut emitted: Vec<Message<Payload>> = Vec::new();
    let ghost all = inputs@;
    let ghost lines = inputs.deep_view();
    let ghost start = node.model();
    assert(lines.skip(0) =~= lines);
    assert(Seq::<MessageView<PayloadView>>::empty() + session::<N>(start, lines).emitted
        =~= session::<N>(start, lines).emitted);
    for input in it: inputs
        invariant
            it.seq() == all,
            lines.len() == all.len(),
            forall|j: int| 0 <= j < all.len() ==> all[j]@ == lines[j],
            session::<N>(start, lines) == (Session {
                emitted: emitted.deep_view() + session::<N>(
                    node.model(),
                    lines.skip(it.index()),
                ).emitted,
                end: session::<N>(node.model(), lines.skip(it.index())).end,
            }),
    {
        let ghost at = it.index();
        let ghost rest = lines.skip(at);
        assert(rest[0] == input@);
        assert(rest.drop_first() =~= lines.skip(at + 1));
        match deliver(&mut node, input) {
            Ok(envelopes) => {
                let ghost before = emitted.deep_view();
                let ghost added = envelopes.deep_view();
                let ghost after = session::<N>(node.model(), lines.skip(at + 1)).emitted;
                let mut envelopes = envelopes;
                emitted.append(&mut envelopes);
                assert(emitted.deep_view() =~= before + added);
                assert((before + added) + after =~= before + (added + after));
            },
            Err(fault) => {
                assert(emitted.deep_view() + Seq::<MessageView<PayloadView>>::empty()
                    =~= emitted.deep_view());
                return (emitted, Err(fault));
            },
        }
    }
    assert(lines.skip(all.len() as int).len() == 0);
    assert(emitted.deep_view() + Seq::<MessageView<PayloadView>>::empty() =~= emitted.deep_view());
    let end = close(&node);
    (emitted, end)
}

/// The byte that ends a line.
pub const LINE_FEED: u8 = 10;

/// Makes one line of output of an encoded envelope: its bytes, and the line
/// feed that ends it. An encoding that holds a line feed would span lines,
/// and makes none.
pub fn frame(encoded: Vec<u8>) -> (line: Option<Vec<u8>>)
    ensures
        match line {
            Some(bytes) => !encoded@.contains(LINE_FEED) && bytes@ == encoded@.push(LINE_FEED),
            None => encoded@.contains(LINE_FEED),
        },
{
    let mut i: usize = 0;
    while i < encoded.len()
        invariant
            i <= encoded@.len(),
            forall|j: int| 0 <= j < i ==> encoded@[j] != LINE_FEED,
        decreases encoded@.len() - i,
    {
        if encoded[i] == LINE_FEED {
            assert(encoded@.contains(encoded@[i as int]));
            return None;
        }
        i = i + 1;
    }
    let mut bytes = encoded;
    bytes.push(LINE_FEED);
    Some(bytes)
}

/// Whether `input` is a message that opens a session.
pub open spec fn opens_session(input: InputView) -> bool {
    input matches InputView::Message(message) && message.body.payload matches PayloadView::Init(
        kind,
    ) && kind is Init
}

/// The id under which the node of a session emits: the one it has, or else
/// the one that the first line gives it.
pub open spec fn session_id<W>(node: NodeModel<W>, inputs: Seq<InputView>) -> Seq<char> {
    match node.node_id {
        Some(id) => id,
        None => inputs[0]->Message_0.body.payload->Init_0->node_id,
    }
}

/// A session opens with `init` or not at all: to a node without an id,
/// anything else is a fault, which emits nothing and leaves the node as it
/// was.
pub proof fn session_must_open_with_init<N: Node>(node: NodeModel<N::Workload>, input: InputView)
    requires
        node.node_id is None,
        !opens_session(input),
    ensures
        delivery::<N>(node, input).result is Err,
        delivery::<N>(node, input).next == node,
{
}

/// The handshake takes place once: to a node that has its id, a payload of
/// the handshake is a fault, which emits nothing and leaves the node as it
/// was.
pub proof fn handshake_is_not_repeated<N: Node>(
    node: NodeModel<N::Workload>,
    message: MessageView<PayloadView>,
)
    requires
        node.node_id is Some,
        message.body.payload is Init,
    ensures
        delivery::<N>(node, InputView::Message(message)) == (Delivery {
            next: node,
            result: Err::<Seq<MessageView<PayloadView>>, Fault>(Fault::RepeatedInit),
        }),
{
}

/// A session that does not begin with `init` emits nothing and ends with a
/// fault; so does one without any input.
pub proof fn session_without_init_emits_nothing<N: Node>(inputs: Seq<InputView>)
    requires
        inputs.len() == 0 || !opens_session(inputs[0]),
    ensures
        session::<N>(fresh(N::initial_workload()), inputs).emitted == Seq::<
            MessageView<PayloadView>,
        >::empty(),
        session::<N>(fresh(N::initial_workload()), inputs).end is Err,
{
    if inputs.len() > 0 {
        session_must_open_with_init::<N>(fresh(N::initial_workload()), inputs[0]);
    }
}

/// A fault leaves no trace: the node stays as it was, whatever the node.
pub proof fn faults_leave_no_trace<N: Node>(node: NodeModel<N::Workload>, input: InputView)
    requires
        node.msg_id <= usize::MAX,
        delivery::<N>(node, input).result is Err,
    ensures
        delivery::<N>(node, input).next == node,
{
    if let InputView::Message(message) = input {
        if node.node_id is Some {
            N::step_is_orderly(node, message);
        }
    }
}

/// Each envelope of a session carries the id of the node as its source, and
/// the envelopes carry consecutive message ids in the order in which they
/// are emitted, whatever the node: a message id is used once.
pub proof fn session_envelopes_are_numbered<N: Node>(
    node: NodeModel<N::Workload>,
    inputs: Seq<InputView>,
)
    requires
        node.msg_id <= usize::MAX,
    ensures
        well_numbered(session::<N>(node, inputs).emitted, session_id(node, inputs), node.msg_id),
    decreases inputs.len(),
{
    let whole = session::<N>(node, inputs);
    if inputs.len() > 0 {
        let first = delivery::<N>(node, inputs[0]);
        if let InputView::Message(message) = inputs[0] {
            if node.node_id is Some {
                N::step_is_orderly(node, message);
            }
        }
        if let Ok(envelopes) = first.result {
            let rest = session::<N>(first.next, inputs.drop_first());
            session_envelopes_are_numbered::<N>(first.next, inputs.drop_first());
            assert(session_id(first.next, inputs.drop_first()) == session_id(node, inputs));
            assert forall|i: int| 0 <= i < whole.emitted.len() implies (#[trigger] whole.emitted[i]).src
                == session_id(node, inputs) && whole.emitted[i].body.msg_id == Some(
                (node.msg_id + i) as usize,
            ) by {
                if i >= envelopes.len() {
                    assert(whole.emitted[i] == rest.emitted[i - envelopes.len()]);
                } else {
                    assert(whole.emitted[i] == envelopes[i]);
                }
            }
        }
    }
}

/// The envelopes of a session that starts with a fresh node are numbered
/// from zero.
pub proof fn session_envelopes_are_numbered_from_zero<N: Node>(inputs: Seq<InputView>)
    ensures
        ({
            let emitted = session::<N>(fresh(N::initial_workload()), inputs).emitted;
            forall|i: int|
                0 <= i < emitted.len() ==> (#[trigger] emitted[i]).body.msg_id == Some(i as usize)
        }),
{
    session_envelopes_are_numbered::<N>(fresh(N::initial_workload()), inputs);
}

} // verus!
