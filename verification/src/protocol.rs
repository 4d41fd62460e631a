//! The vocabulary shared by the machines and whoever drives them.
//!
//! A machine issues one `Command` at a time.  The driver performs it against
//! the channel guard, the broker or the record sink and hands back a `Reply`.

use vstd::prelude::*;

verus! {

/// Reply code a broker gives for something that does not exist.
pub const NOT_FOUND: u16 = 404;

/// Reply code a broker gives when a declaration contradicts an existing one.
pub const PRECONDITION_FAILED: u16 = 406;

/// Reply code a broker gives for a queue that another connection owns.
pub const RESOURCE_LOCKED: u16 = 405;

/// Reply code a broker gives when it has run out of a resource.
pub const RESOURCE_ERROR: u16 = 506;

/// Reply code a broker gives for a request that is not allowed as things stand.
pub const NOT_ALLOWED: u16 = 530;

/// Reply code a broker gives for a request it does not implement.
pub const NOT_IMPLEMENTED: u16 = 540;

/// Why a round trip to the broker failed.
#[derive(Clone, Copy, Debug, PartialEq, Eq, Structural)]
pub enum BrokerFailure {
    /// The broker answered with an error of the given reply code.
    Refused { code: u16 },
    /// No answer came: the connection or the channel is gone.
    Transport,
}

impl BrokerFailure {
    /// Whether the broker reported that the thing asked about does not exist.
    pub open spec fn is_not_found(self) -> bool {
        self == (BrokerFailure::Refused { code: NOT_FOUND })
    }

    /// Whether the broker reported a declaration that contradicts an
    /// existing one.
    pub open spec fn is_mismatch(self) -> bool {
        self == (BrokerFailure::Refused { code: PRECONDITION_FAILED })
    }

    /// Whether the broker reported that the thing asked about does not exist.
    pub fn not_found(&self) -> (b: bool)
        ensures
            b == self.is_not_found(),
    {
        match self {
            BrokerFailure::Refused { code } => *code == NOT_FOUND,
            BrokerFailure::Transport => false,
        }
    }

    /// Whether the broker reported a declaration that contradicts an
    /// existing one.
    pub fn mismatch(&self) -> (b: bool)
        ensures
            b == self.is_mismatch(),
    {
        match self {
            BrokerFailure::Refused { code } => *code == PRECONDITION_FAILED,
            BrokerFailure::Transport => false,
        }
    }
}

/// How an exchange routes what is published to it.
#[derive(Clone, Copy, Debug, PartialEq, Eq, Structural)]
pub enum ExchangeKind {
    Direct,
    Fanout,
    Headers,
    Topic,
}

/// The properties an exchange is declared with.
#[derive(Clone, Copy, Debug, PartialEq, Eq, Structural)]
pub struct ExchangeAttrs {
    pub kind: ExchangeKind,
    pub durable: bool,
    pub auto_delete: bool,
    pub internal: bool,
}

/// The properties of the exchange view events go through: fanout, durable,
/// neither deleted when unused nor internal.
pub open spec fn viewed_exchange_attrs() -> ExchangeAttrs {
    ExchangeAttrs { kind: ExchangeKind::Fanout, durable: true, auto_delete: false, internal: false }
}

/// A request to declare an exchange, or to check that it exists.
#[derive(Debug, PartialEq, Eq)]
pub struct ExchangeDeclare {
    pub exchange: String,
    pub attrs: ExchangeAttrs,
    pub passive: bool,
    pub nowait: bool,
}

/// An `ExchangeDeclare`, with its name as a sequence of characters.
pub struct ExchangeDeclareView {
    pub exchange: Seq<char>,
    pub attrs: ExchangeAttrs,
    pub passive: bool,
    pub nowait: bool,
}

impl View for ExchangeDeclare {
    type V = ExchangeDeclareView;

    open spec fn view(&self) -> ExchangeDeclareView {
        ExchangeDeclareView {
            exchange: self.exchange@,
            attrs: self.attrs,
            passive: self.passive,
            nowait: self.nowait,
        }
    }
}

/// A request to declare a queue.  An empty name asks the broker to choose
/// one.
#[derive(Debug, PartialEq, Eq)]
pub struct QueueDeclare {
    pub queue: String,
    pub passive: bool,
    pub durable: bool,
    pub exclusive: bool,
    pub auto_delete: bool,
    pub nowait: bool,
}

/// A `QueueDeclare`, with its name as a sequence of characters.
pub struct QueueDeclareView {
    pub queue: Seq<char>,
    pub passive: bool,
    pub durable: bool,
    pub exclusive: bool,
    pub auto_delete: bool,
    pub nowait: bool,
}

impl View for QueueDeclare {
    type V = QueueDeclareView;

    open spec fn view(&self) -> QueueDeclareView {
        QueueDeclareView {
            queue: self.queue@,
            passive: self.passive,
            durable: self.durable,
            exclusive: self.exclusive,
            auto_delete: self.auto_delete,
            nowait: self.nowait,
        }
    }
}

/// A request to bind a queue to an exchange.
#[derive(Debug, PartialEq, Eq)]
pub struct QueueBind {
    pub queue: String,
    pub exchange: String,
    pub routing_key: String,
    pub nowait: bool,
}

/// A `QueueBind`, with its names as sequences of characters.
pub struct QueueBindView {
    pub queue: Seq<char>,
    pub exchange: Seq<char>,
    pub routing_key: Seq<char>,
    pub nowait: bool,
}

impl View for QueueBind {
    type V = QueueBindView;

    open spec fn view(&self) -> QueueBindView {
        QueueBindView {
            queue: self.queue@,
            exchange: self.exchange@,
            routing_key: self.routing_key@,
            nowait: self.nowait,
        }
    }
}

/// A request to register a consumer on a queue.
#[derive(Debug, PartialEq, Eq)]
pub struct Consume {
    pub queue: String,
    pub consumer_tag: String,
    pub no_local: bool,
    pub no_ack: bool,
    pub exclusive: bool,
    pub nowait: bool,
}

/// A `Consume`, with its names as sequences of characters.
pub struct ConsumeView {
    pub queue: Seq<char>,
    pub consumer_tag: Seq<char>,
    pub no_local: bool,
    pub no_ack: bool,
    pub exclusive: bool,
    pub nowait: bool,
}

impl View for Consume {
    type V = ConsumeView;

    open spec fn view(&self) -> ConsumeView {
        ConsumeView {
            queue: self.queue@,
            consumer_tag: self.consumer_tag@,
            no_local: self.no_local,
            no_ack: self.no_ack,
            exclusive: self.exclusive,
            nowait: self.nowait,
        }
    }
}

/// A message to publish.  It carries no properties of its own: it goes out
/// with the default ones.
#[derive(Debug, PartialEq, Eq)]
pub struct Publish {
    pub exchange: String,
    pub routing_key: String,
    pub mandatory: bool,
    pub immediate: bool,
    pub body: Vec<u8>,
}

/// A `Publish`, with its names and its body as sequences.
pub struct PublishView {
    pub exchange: Seq<char>,
    pub routing_key: Seq<char>,
    pub mandatory: bool,
    pub immediate: bool,
    pub body: Seq<u8>,
}

impl View for Publish {
    type V = PublishView;

    open spec fn view(&self) -> PublishView {
        PublishView {
            exchange: self.exchange@,
            routing_key: self.routing_key@,
            mandatory: self.mandatory,
            immediate: self.immediate,
            body: self.body@,
        }
    }
}

/// One thing for the driver to do.
#[derive(Debug, PartialEq, Eq)]
pub enum Command {
    /// Open a connection to the broker at this address.
    Connect { address: String },
    /// Open a channel on the connection.
    OpenChannel,
    /// Take the channel guard, waiting for it if need be.
    Acquire,
    /// Give the channel guard back.
    Release,
    DeclareExchange(ExchangeDeclare),
    DeclareQueue(QueueDeclare),
    BindQueue(QueueBind),
    /// Register as a consumer.
    Consume(Consume),
    Publish(Publish),
    /// Wait for the broker's answer to the last publish.
    AwaitConfirm,
    /// Wait for the next delivery.
    Receive,
    /// Hand a video path to the record sink.
    Record { video_path: String },
    /// Acknowledge the delivery in hand.
    Ack { multiple: bool },
    /// Reject the delivery in hand.
    Reject { multiple: bool, requeue: bool },
    /// Nothing more: the machine has finished.
    Stop,
}

/// A `Command`, with its texts as sequences.
pub enum CommandView {
    Connect { address: Seq<char> },
    OpenChannel,
    Acquire,
    Release,
    DeclareExchange(ExchangeDeclareView),
    DeclareQueue(QueueDeclareView),
    BindQueue(QueueBindView),
    Consume(ConsumeView),
    Publish(PublishView),
    AwaitConfirm,
    Receive,
    Record { video_path: Seq<char> },
    Ack { multiple: bool },
    Reject { multiple: bool, requeue: bool },
    Stop,
}

impl View for Command {
    type V = CommandView;

    open spec fn view(&self) -> CommandView {
        match self {
            Command::Connect { address } => CommandView::Connect { address: address@ },
            Command::OpenChannel => CommandView::OpenChannel,
            Command::Acquire => CommandView::Acquire,
            Command::Release => CommandView::Release,
            Command::DeclareExchange(d) => CommandView::DeclareExchange(d@),
            Command::DeclareQueue(d) => CommandView::DeclareQueue(d@),
            Command::BindQueue(b) => CommandView::BindQueue(b@),
            Command::Consume(c) => CommandView::Consume(c@),
            Command::Publish(p) => CommandView::Publish(p@),
            Command::AwaitConfirm => CommandView::AwaitConfirm,
            Command::Receive => CommandView::Receive,
            Command::Record { video_path } => CommandView::Record { video_path: video_path@ },
            Command::Ack { multiple } => CommandView::Ack { multiple: *multiple },
            Command::Reject { multiple, requeue } => CommandView::Reject {
                multiple: *multiple,
                requeue: *requeue,
            },
            Command::Stop => CommandView::Stop,
        }
    }
}

impl CommandView {
    /// Whether the command writes to the channel, so that the guard must be
    /// held while it is performed.
    pub open spec fn uses_channel(self) -> bool {
        match self {
            CommandView::DeclareExchange(_) => true,
            CommandView::DeclareQueue(_) => true,
            CommandView::BindQueue(_) => true,
            CommandView::Consume(_) => true,
            CommandView::Publish(_) => true,
            CommandView::AwaitConfirm => true,
            CommandView::Ack { .. } => true,
            CommandView::Reject { .. } => true,
            _ => false,
        }
    }
}

/// What came of a command.
#[derive(Debug, PartialEq, Eq)]
pub enum Reply {
    /// The command went through and there is nothing to report.
    Done,
    /// The queue was declared, under this name.
    QueueDeclared { queue: String },
    /// A delivery arrived, with this body.
    Delivery { body: Vec<u8> },
    /// The stream yielded an error in place of a delivery.
    DeliveryFailed(BrokerFailure),
    /// The delivery stream has ended.
    EndOfStream,
    /// The round trip to the broker failed.
    Failed(BrokerFailure),
    /// The record sink could not store the path.
    SinkFailed,
}

/// A `Reply`, with its texts as sequences.
pub enum ReplyView {
    Done,
    QueueDeclared { queue: Seq<char> },
    Delivery { body: Seq<u8> },
    DeliveryFailed(BrokerFailure),
    EndOfStream,
    Failed(BrokerFailure),
    SinkFailed,
}

impl View for Reply {
    type V = ReplyView;

    open spec fn view(&self) -> ReplyView {
        match self {
            Reply::Done => ReplyView::Done,
            Reply::QueueDeclared { queue } => ReplyView::QueueDeclared { queue: queue@ },
            Reply::Delivery { body } => ReplyView::Delivery { body: body@ },
            Reply::DeliveryFailed(f) => ReplyView::DeliveryFailed(*f),
            Reply::EndOfStream => ReplyView::EndOfStream,
            Reply::Failed(f) => ReplyView::Failed(*f),
            Reply::SinkFailed => ReplyView::SinkFailed,
        }
    }
}

} // verus!
