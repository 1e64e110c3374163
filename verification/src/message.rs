//! Wire messages: the envelope, its body, and the payloads a node understands.
//!
//! Each type has a mathematical form (its `View`), in which strings are
//! sequences of characters, lists are sequences and sets are sets. The
//! contracts of the node functions speak of these forms.

use crate::topology::{Topology, TopologyView};
use std::collections::HashSet;
use vstd::prelude::*;

verus! {

/// The type of a unique id.
pub type IdType = String;

/// The envelope of every message, in both directions.
#[derive(Clone, Debug, PartialEq, Eq)]
pub struct Message<P> {
    /// The node the message comes from.
    pub src: String,
    /// The node the message is meant for.
    pub dest: String,
    /// What the message says.
    pub body: Body<P>,
}

/// The body of a message.
#[derive(Clone, Debug, PartialEq, Eq)]
pub struct Body<P> {
    /// An identifier that the sender gives to each of its messages in turn.
    pub msg_id: Option<usize>,
    /// In a reply, the `msg_id` of the request it answers.
    pub in_reply_to: Option<usize>,
    /// The kind of message, with the data of that kind.
    pub payload: P,
}

/// The payloads of the handshake that opens a session.
#[derive(Clone, Debug, PartialEq, Eq)]
pub enum InitPayload {
    /// Tells a node its own id and the ids of all nodes in the cluster.
    Init { node_id: String, node_ids: Vec<String> },
    /// Acknowledges `Init`.
    InitOk,
}

/// The payloads of the broadcast workload.
#[derive(Debug, PartialEq, Eq)]
pub enum BroadcastPayload {
    /// Proposes a value for dissemination to every node.
    Broadcast { message: usize },
    /// Acknowledges `Broadcast`.
    BroadcastOk,
    /// Asks for the values that the node knows.
    Read,
    /// Answers `Read` with the values that the node knows.
    ReadOk { messages: HashSet<usize> },
    /// Assigns the topology to gossip along.
    Topology { topology: Topology },
    /// Acknowledges `Topology`.
    TopologyOk,
}

/// The payloads of the echo workload.
#[derive(Clone, Debug, PartialEq, Eq)]
pub enum EchoPayload {
    /// Asks for `echo` to be sent back.
    Echo { echo: String },
    /// Sends `echo` back.
    EchoOk { echo: String },
}

/// The class of an error.
#[derive(Clone, Copy, Debug, PartialEq, Eq)]
pub enum ErrorCode {
    /// The first code of the range that is free for a node's own use.
    SomeErrorCode,
}

/// The payload of an error reply.
#[derive(Clone, Debug, PartialEq, Eq)]
pub struct ErrorPayload {
    /// The class of the error.
    pub code: ErrorCode,
    /// An explanation, if any.
    pub text: Option<String>,
}

/// The payloads of the unique-id workload.
#[derive(Clone, Debug, PartialEq, Eq)]
pub enum GeneratePayload {
    /// Asks for a fresh id.
    Generate,
    /// Answers `Generate` with a fresh id.
    GenerateOk { id: IdType },
}

/// Every payload that a node understands: those of the handshake, of each
/// workload, and the error reply.
#[derive(Clone, Debug, PartialEq, Eq)]
pub enum Payload {
    Init(InitPayload),
    Broadcast(BroadcastPayload),
    Echo(EchoPayload),
    Error(ErrorPayload),
    UniqueIdGen(GeneratePayload),
}

/// The mathematical form of a `Message`.
pub ghost struct MessageView<P> {
    pub src: Seq<char>,
    pub dest: Seq<char>,
    pub body: BodyView<P>,
}

/// The mathematical form of a `Body`.
pub ghost struct BodyView<P> {
    pub msg_id: Option<usize>,
    pub in_reply_to: Option<usize>,
    pub payload: P,
}

/// The mathematical form of an `InitPayload`.
pub ghost enum InitPayloadView {
    Init { node_id: Seq<char>, node_ids: Seq<Seq<char>> },
    InitOk,
}

/// The mathematical form of a `BroadcastPayload`.
pub ghost enum BroadcastPayloadView {
    Broadcast { message: usize },
    BroadcastOk,
    Read,
    ReadOk { messages: Set<usize> },
    Topology { topology: TopologyView },
    TopologyOk,
}

/// The mathematical form of an `EchoPayload`.
pub ghost enum EchoPayloadView {
    Echo { echo: Seq<char> },
    EchoOk { echo: Seq<char> },
}

/// The mathematical form of an `ErrorPayload`.
pub ghost struct ErrorPayloadView {
    pub code: ErrorCode,
    pub text: Option<Seq<char>>,
}

/// The mathematical form of a `GeneratePayload`.
pub ghost enum GeneratePayloadView {
    Generate,
    GenerateOk { id: Seq<char> },
}

/// The mathematical form of a `Payload`.
pub ghost enum PayloadView {
    Init(InitPayloadView),
    Broadcast(BroadcastPayloadView),
    Echo(EchoPayloadView),
    Error(ErrorPayloadView),
    UniqueIdGen(GeneratePayloadView),
}

impl<P: DeepView> DeepView for Body<P> {
    type V = BodyView<P::V>;

    open spec fn deep_view(&self) -> BodyView<P::V> {
        BodyView {
            msg_id: self.msg_id,
            in_reply_to: self.in_reply_to,
            payload: self.payload.deep_view(),
        }
    }
}

impl<P: DeepView> View for Body<P> {
    type V = BodyView<P::V>;

    open spec fn view(&self) -> BodyView<P::V> {
        self.deep_view()
    }
}

impl<P: DeepView> DeepView for Message<P> {
    type V = MessageView<P::V>;

    open spec fn deep_view(&self) -> MessageView<P::V> {
        MessageView { src: self.src@, dest: self.dest@, body: self.body.deep_view() }
    }
}

impl<P: DeepView> View for Message<P> {
    type V = MessageView<P::V>;

    open spec fn view(&self) -> MessageView<P::V> {
        self.deep_view()
    }
}

impl DeepView for InitPayload {
    type V = InitPayloadView;

    open spec fn deep_view(&self) -> InitPayloadView {
        match self {
            InitPayload::Init { node_id, node_ids } => InitPayloadView::Init {
                node_id: node_id@,
                node_ids: node_ids.deep_view(),
            },
            InitPayload::InitOk => InitPayloadView::InitOk,
        }
    }
}

impl View for InitPayload {
    type V = InitPayloadView;

    open spec fn view(&self) -> InitPayloadView {
        self.deep_view()
    }
}

impl DeepView for BroadcastPayload {
    type V = BroadcastPayloadView;

    open spec fn deep_view(&self) -> BroadcastPayloadView {
        match self {
            BroadcastPayload::Broadcast { message } => BroadcastPayloadView::Broadcast {
                message: *message,
            },
            BroadcastPayload::BroadcastOk => BroadcastPayloadView::BroadcastOk,
            BroadcastPayload::Read => BroadcastPayloadView::Read,
            BroadcastPayload::ReadOk { messages } => BroadcastPayloadView::ReadOk {
                messages: messages@,
            },
            BroadcastPayload::Topology { topology } => BroadcastPayloadView::Topology {
                topology: topology@,
            },
            BroadcastPayload::TopologyOk => BroadcastPayloadView::TopologyOk,
        }
    }
}

impl View for BroadcastPayload {
    type V = BroadcastPayloadView;

    open spec fn view(&self) -> BroadcastPayloadView {
        self.deep_view()
    }
}

impl DeepView for EchoPayload {
    type V = EchoPayloadView;

    open spec fn deep_view(&self) -> EchoPayloadView {
        match self {
            EchoPayload::Echo { echo } => EchoPayloadView::Echo { echo: echo@ },
            EchoPayload::EchoOk { echo } => EchoPayloadView::EchoOk { echo: echo@ },
        }
    }
}

impl View for EchoPayload {
    type V = EchoPayloadView;

    open spec fn view(&self) -> EchoPayloadView {
        self.deep_view()
    }
}

impl DeepView for ErrorPayload {
    type V = ErrorPayloadView;

    open spec fn deep_view(&self) -> ErrorPayloadView {
        ErrorPayloadView { code: self.code, text: self.text.deep_view() }
    }
}

impl View for ErrorPayload {
    type V = ErrorPayloadView;

    open spec fn view(&self) -> ErrorPayloadView {
        self.deep_view()
    }
}

impl DeepView for GeneratePayload {
    type V = GeneratePayloadView;

    open spec fn deep_view(&self) -> GeneratePayloadView {
        match self {
            GeneratePayload::Generate => GeneratePayloadView::Generate,
            GeneratePayload::GenerateOk { id } => GeneratePayloadView::GenerateOk { id: id@ },
        }
    }
}

impl View for GeneratePayload {
    type V = GeneratePayloadView;

    open spec fn view(&self) -> GeneratePayloadView {
        self.deep_view()
    }
}

impl DeepView for Payload {
    type V = PayloadView;

    open spec fn deep_view(&self) -> PayloadView {
        match self {
            Payload::Init(payload) => PayloadView::Init(payload.deep_view()),
            Payload::Broadcast(payload) => PayloadView::Broadcast(payload.deep_view()),
            Payload::Echo(payload) => PayloadView::Echo(payload.deep_view()),
            Payload::Error(payload) => PayloadView::Error(payload.deep_view()),
            Payload::UniqueIdGen(payload) => PayloadView::UniqueIdGen(payload.deep_view()),
        }
    }
}

impl View for Payload {
    type V = PayloadView;

    open spec fn view(&self) -> PayloadView {
        self.deep_view()
    }
}

/// A copy of a set of values.
///
/// Calls `HashSet::clone` of the standard library, and claims of it that the
/// copy holds exactly the values of the set it was made from.
#[verifier::external_body]
pub(crate) fn clone_values(values: &HashSet<usize>) -> (copy: HashSet<usize>)
    ensures
        copy@ == values@,
{
    values.clone()
}

impl Clone for BroadcastPayload {
    fn clone(&self) -> (copy: BroadcastPayload)
        ensures
            copy@ == self@,
    {
        match self {
            BroadcastPayload::Broadcast { message } => BroadcastPayload::Broadcast {
                message: *message,
            },
            BroadcastPayload::BroadcastOk => BroadcastPayload::BroadcastOk,
            BroadcastPayload::Read => BroadcastPayload::Read,
            BroadcastPayload::ReadOk { messages } => BroadcastPayload::ReadOk {
                messages: clone_values(messages),
            },
            BroadcastPayload::Topology { topology } => BroadcastPayload::Topology {
                topology: topology.clone(),
            },
            BroadcastPayload::TopologyOk => BroadcastPayload::TopologyOk,
        }
    }
}

/// The integer that stands for each error code on the wire.
pub open spec fn error_code_number(code: ErrorCode) -> usize {
    match code {
        ErrorCode::SomeErrorCode => 1000,
    }
}

impl ErrorCode {
    /// The integer that stands for this code on the wire.
    pub fn number(&self) -> (n: usize)
        ensures
            n == error_code_number(*self),
    {
        match self {
            ErrorCode::SomeErrorCode => 1000,
        }
    }

    /// The code that `n` stands for on the wire, if it stands for one.
    pub fn from_number(n: usize) -> (code: Option<ErrorCode>)
        ensures
            match code {
                Some(c) => error_code_number(c) == n,
                None => forall|c: ErrorCode| error_code_number(c) != n,
            },
    {
        if n == 1000 {
            Some(ErrorCode::SomeErrorCode)
        } else {
            None
        }
    }
}

} // verus!
