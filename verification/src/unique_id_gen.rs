//! The unique-id node: it answers each request with an id that no other
//! request gets, made of the node's own id and the number of the reply.

use crate::message::{
    GeneratePayload, GeneratePayloadView, IdType, Message, MessageView, Payload, PayloadView,
};
use crate::node::{answer, emitted, fresh, Node, NodeError, NodeModel, Transition};
use vstd::prelude::*;
use vstd::string::StringExecFns;

verus! {

/// The character that stands for the digit `d`.
pub open spec fn digit(d: nat) -> char {
    if d == 0 {
        '0'
    } else if d == 1 {
        '1'
    } else if d == 2 {
        '2'
    } else if d == 3 {
        '3'
    } else if d == 4 {
        '4'
    } else if d == 5 {
        '5'
    } else if d == 6 {
        '6'
    } else if d == 7 {
        '7'
    } else if d == 8 {
        '8'
    } else {
        '9'
    }
}

/// The decimal numeral of `n`, without leading zeros.
pub open spec fn decimal(n: nat) -> Seq<char>
    decreases n,
{
    if n < 10 {
        seq![digit(n)]
    } else {
        decimal(n / 10).push(digit(n % 10))
    }
}

/// The id that the node `node_id` gives out with its envelope number
/// `msg_id`: the node's id, a hyphen, and the number in decimal.
pub open spec fn unique_id(node_id: Seq<char>, msg_id: nat) -> Seq<char> {
    node_id + seq!['-'] + decimal(msg_id)
}

/// The numeral of one digit.
fn digit_str(d: usize) -> (numeral: &'static str)
    requires
        d < 10,
    ensures
        numeral@ == seq![digit(d as nat)],
{
    proof {
        reveal_strlit("0");
        reveal_strlit("1");
        reveal_strlit("2");
        reveal_strlit("3");
        reveal_strlit("4");
        reveal_strlit("5");
        reveal_strlit("6");
        reveal_strlit("7");
        reveal_strlit("8");
        reveal_strlit("9");
    }
    let numeral = if d == 0 {
        "0"
    } else if d == 1 {
        "1"
    } else if d == 2 {
        "2"
    } else if d == 3 {
        "3"
    } else if d == 4 {
        "4"
    } else if d == 5 {
        "5"
    } else if d == 6 {
        "6"
    } else if d == 7 {
        "7"
    } else if d == 8 {
        "8"
    } else {
        "9"
    };
    assert(numeral@ =~= seq![digit(d as nat)]);
    numeral
}

/// Writes the decimal numeral of `n` at the end of `text`.
fn push_decimal(text: &mut String, n: usize)
    ensures
        final(text)@ == old(text)@ + decimal(n as nat),
    decreases n,
{
    if n >= 10 {
        push_decimal(text, n / 10);
    }
    text.append(digit_str(n % 10));
    assert(text@ =~= old(text)@ + decimal(n as nat));
}

/// The id that the node `node_id` gives out with its envelope number
/// `msg_id`.
pub fn make_unique_id(node_id: &String, msg_id: usize) -> (id: IdType)
    ensures
        id@ == unique_id(node_id@, msg_id as nat),
{
    let mut id = node_id.clone();
    proof {
        reveal_strlit("-");
    }
    id.append("-");
    push_decimal(&mut id, msg_id);
    assert(id@ =~= unique_id(node_id@, msg_id as nat));
    id
}

/// A node of the unique-id workload.
#[derive(Debug, PartialEq, Eq)]
pub struct UniqueIDGeneratorNode {
    /// The id that the handshake gave the node.
    pub node_id: Option<String>,
    /// The number that the next envelope will carry.
    pub msg_id: usize,
    /// The id that the node gave out last; empty before the first.
    pub guid: IdType,
}

/// What a unique-id node makes of a request.
///
/// - `generate`: the node makes an id of its own id and the number of the
///   reply, keeps it, and sends it to the sender in `generate_ok`.
/// - `generate_ok`: nothing is emitted and nothing changes.
/// - Any other payload is refused, and so is `generate` where the counter
///   has no number left; the state then stays as it is.
pub open spec fn generate_transition(
    node: NodeModel<Seq<char>>,
    request: MessageView<PayloadView>,
) -> Transition<Seq<char>, Seq<MessageView<PayloadView>>> {
    match request.body.payload {
        PayloadView::UniqueIdGen(GeneratePayloadView::Generate) => {
            let id = unique_id(node.node_id.unwrap(), node.msg_id);
            answer(
                node,
                NodeModel { workload: id, ..node },
                request,
                PayloadView::UniqueIdGen(GeneratePayloadView::GenerateOk { id }),
            )
        },
        PayloadView::UniqueIdGen(GeneratePayloadView::GenerateOk { .. }) => Transition {
            next: node,
            result: Ok(Seq::empty()),
        },
        _ => Transition { next: node, result: Err(NodeError::UnexpectedPayload) },
    }
}

impl UniqueIDGeneratorNode {
    /// A node before the handshake: without an id, its counter at zero, and
    /// no id given out.
    pub fn new() -> (node: UniqueIDGeneratorNode)
        ensures
            node.model() == fresh(Seq::<char>::empty()),
    {
        UniqueIDGeneratorNode { node_id: None, msg_id: 0, guid: String::new() }
    }

    /// Acts on a request that follows the handshake, and returns the
    /// envelopes to emit.
    pub fn step(&mut self, request: Message<Payload>) -> (result: Result<
        Vec<Message<Payload>>,
        NodeError,
    >)
        requires
            old(self).model().node_id is Some,
        ensures
            generate_transition(old(self).model(), request@) == (Transition {
                next: final(self).model(),
                result: emitted(result),
            }),
    {
        let mut out: Vec<Message<Payload>> = Vec::new();
        match request.body.payload {
            Payload::UniqueIdGen(generate_payload) => match generate_payload {
                GeneratePayload::Generate => {
                    if self.msg_id == usize::MAX {
                        return Err(NodeError::MessageIdsExhausted);
                    }
                    let node_id = self.node_id.clone().unwrap();
                    self.guid = make_unique_id(&node_id, self.msg_id);
                    let payload = Payload::UniqueIdGen(
                        GeneratePayload::GenerateOk { id: self.guid.clone() },
                    );
                    let reply = self.respond(request.src, request.body.msg_id, payload);
                    out.push(reply);
                    assert(out.deep_view() =~= seq![out@[0]@]);
                },
                GeneratePayload::GenerateOk { .. } => {
                    assert(out.deep_view() =~= Seq::empty());
                },
            },
            _ => {
                return Err(NodeError::UnexpectedPayload);
            },
        }
        Ok(out)
    }
}

impl Default for UniqueIDGeneratorNode {
    fn default() -> (node: UniqueIDGeneratorNode)
        ensures
            node.model() == fresh(Seq::<char>::empty()),
    {
        UniqueIDGeneratorNode::new()
    }
}

impl Node for UniqueIDGeneratorNode {
    type Workload = Seq<char>;

    open spec fn model(&self) -> NodeModel<Seq<char>> {
        NodeModel {
            node_id: self.node_id.deep_view(),
            msg_id: self.msg_id as nat,
            workload: self.guid@,
        }
    }

    open spec fn step_transition(
        node: NodeModel<Seq<char>>,
        request: MessageView<PayloadView>,
    ) -> Transition<Seq<char>, Seq<MessageView<PayloadView>>> {
        generate_transition(node, request)
    }

    open spec fn initial_workload() -> Seq<char> {
        Seq::empty()
    }

    fn new() -> (node: UniqueIDGeneratorNode) {
        UniqueIDGeneratorNode::new()
    }

    fn get_msg_id(&self) -> (msg_id: usize) {
        self.msg_id
    }

    fn incr_msg_id(&mut self) {
        self.msg_id = self.msg_id + 1;
    }

    fn get_node_id(&self) -> (node_id: Option<String>) {
        self.node_id.clone()
    }

    fn set_node_id(&mut self, value: Option<String>) {
        self.node_id = value;
    }

    proof fn step_is_orderly(node: NodeModel<Seq<char>>, request: MessageView<PayloadView>) {
    }

    fn step(&mut self, request: Message<Payload>) -> (result: Result<
        Vec<Message<Payload>>,
        NodeError,
    >) {
        UniqueIDGeneratorNode::step(self, request)
    }
}

/// The digit that the character `c` stands for.
pub open spec fn digit_value(c: char) -> nat {
    if c == '0' {
        0
    } else if c == '1' {
        1
    } else if c == '2' {
        2
    } else if c == '3' {
        3
    } else if c == '4' {
        4
    } else if c == '5' {
        5
    } else if c == '6' {
        6
    } else if c == '7' {
        7
    } else if c == '8' {
        8
    } else {
        9
    }
}

/// The number that a decimal numeral stands for.
pub open spec fn numeral_value(numeral: Seq<char>) -> nat
    decreases numeral.len(),
{
    if numeral.len() == 0 {
        0
    } else {
        numeral_value(numeral.drop_last()) * 10 + digit_value(numeral.last())
    }
}

/// A decimal numeral has at least one character, holds no hyphen, and
/// stands for the number it was made of.
pub proof fn decimal_can_be_read_back(n: nat)
    ensures
        decimal(n).len() >= 1,
        !decimal(n).contains('-'),
        numeral_value(decimal(n)) == n,
    decreases n,
{
    if n < 10 {
        assert(decimal(n).drop_last() =~= Seq::<char>::empty());
        assert(numeral_value(decimal(n).drop_last()) == 0);
        assert forall|i: int| 0 <= i < decimal(n).len() implies decimal(n)[i] != '-' by {}
    } else {
        decimal_can_be_read_back(n / 10);
        assert(decimal(n).drop_last() =~= decimal(n / 10));
        assert(decimal(n).last() == digit(n % 10));
        assert forall|i: int| 0 <= i < decimal(n).len() implies decimal(n)[i] != '-' by {
            if i < decimal(n / 10).len() {
                assert(decimal(n / 10).contains(decimal(n / 10)[i]));
            }
        }
    }
}

/// No two ids are the same: an id tells which node gave it out and with
/// which number.
pub proof fn unique_ids_differ(node_id: Seq<char>, msg_id: nat, other_id: Seq<char>, other_msg_id: nat)
    requires
        unique_id(node_id, msg_id) == unique_id(other_id, other_msg_id),
    ensures
        node_id == other_id,
        msg_id == other_msg_id,
{
    let id = unique_id(node_id, msg_id);
    let one = decimal(msg_id);
    let other = decimal(other_msg_id);
    decimal_can_be_read_back(msg_id);
    decimal_can_be_read_back(other_msg_id);
    assert(id.len() == node_id.len() + 1 + one.len());
    assert(id.len() == other_id.len() + 1 + other.len());
    if node_id.len() < other_id.len() {
        let at = other_id.len() - node_id.len() - 1;
        assert(unique_id(other_id, other_msg_id)[other_id.len() as int] == '-');
        assert(id[other_id.len() as int] == one[at]);
        assert(one.contains(one[at]));
    } else if other_id.len() < node_id.len() {
        let at = node_id.len() - other_id.len() - 1;
        assert(id[node_id.len() as int] == '-');
        assert(unique_id(other_id, other_msg_id)[node_id.len() as int] == other[at]);
        assert(other.contains(other[at]));
    } else {
        let split = node_id.len() as int;
        assert(node_id =~= id.subrange(0, split));
        assert(other_id =~= id.subrange(0, split));
        assert(one =~= id.subrange(split + 1, id.len() as int));
        assert(other =~= id.subrange(split + 1, id.len() as int));
    }
}

/// The ids that a node gives out in answer to `generate` are those of
/// `unique_id`: the reply carries the id made of the node's id and the
/// number of the reply itself.
pub proof fn generate_ok_carries_the_unique_id(
    node: NodeModel<Seq<char>>,
    request: MessageView<PayloadView>,
)
    requires
        node.node_id is Some,
        request.body.payload == PayloadView::UniqueIdGen(GeneratePayloadView::Generate),
        generate_transition(node, request).result is Ok,
    ensures
        ({
            let reply = generate_transition(node, request).result->Ok_0[0];
            let id = unique_id(node.node_id.unwrap(), node.msg_id);
            &&& reply.body.msg_id == Some(node.msg_id as usize)
            &&& reply.body.payload == PayloadView::UniqueIdGen(
                GeneratePayloadView::GenerateOk { id },
            )
            &&& generate_transition(node, request).next.workload == id
        }),
{
}

} // verus!
