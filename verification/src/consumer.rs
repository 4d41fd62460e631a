//! The consumer loop of a subscriber.
//!
//! The loop registers on its queue under the channel guard, then takes one
//! delivery at a time: a body that does not decode is rejected without
//! requeue, a decoded path goes to the record sink and is acknowledged once
//! stored.  The guard is held for registration and for each settlement, and
//! never while the loop waits for a delivery or for the sink.

use vstd::prelude::*;
use crate::event::{decode, decoded_body, Decoded, DecodedView};
use crate::json::json_text_members;
use crate::protocol::{BrokerFailure, Command, CommandView, Consume, ConsumeView, Reply, ReplyView};

verus! {

/// Why a consumer loop gave up.
#[derive(Clone, Copy, Debug, PartialEq, Eq, Structural)]
pub enum ConsumerError {
    /// The broker did not accept the registration.
    Register(BrokerFailure),
    /// The record sink could not store a decoded path.
    Sink,
    /// A delivery could not be acknowledged or rejected.
    Settle(BrokerFailure),
    /// The driver answered with a reply that the command cannot have.
    Unexpected,
}

/// How a delivery is settled.
#[derive(Clone, Copy, Debug, PartialEq, Eq, Structural)]
pub enum Settlement {
    Ack,
    Reject,
}

/// Where the loop stands.  Each phase has one command outstanding.
#[derive(Debug, PartialEq, Eq)]
pub enum ConsumerPhase {
    /// Waiting for the guard, to register.
    Acquiring,
    /// Registering as a consumer; the guard is held.
    Registering,
    /// Registered; giving the guard back.
    Registered,
    /// Waiting for the next delivery.
    Receiving,
    /// Waiting for the sink to store the path of the delivery in hand.
    Recording { video_path: String },
    /// Waiting for the guard, to settle the delivery in hand.
    Claiming(Settlement),
    /// Settling the delivery in hand; the guard is held.
    Settling(Settlement),
    /// Settled; giving the guard back.
    Settled,
    /// Failed with the guard held; giving it back.
    Failing(ConsumerError),
    /// Over.
    Finished(Result<(), ConsumerError>),
}

/// `ConsumerPhase`, with its texts as sequences.
pub enum ConsumerPhaseView {
    Acquiring,
    Registering,
    Registered,
    Receiving,
    Recording { video_path: Seq<char> },
    Claiming(Settlement),
    Settling(Settlement),
    Settled,
    Failing(ConsumerError),
    Finished(Result<(), ConsumerError>),
}

impl View for ConsumerPhase {
    type V = ConsumerPhaseView;

    open spec fn view(&self) -> ConsumerPhaseView {
        match self {
            ConsumerPhase::Acquiring => ConsumerPhaseView::Acquiring,
            ConsumerPhase::Registering => ConsumerPhaseView::Registering,
            ConsumerPhase::Registered => ConsumerPhaseView::Registered,
            ConsumerPhase::Receiving => ConsumerPhaseView::Receiving,
            ConsumerPhase::Recording { video_path } => ConsumerPhaseView::Recording {
                video_path: video_path@,
            },
            ConsumerPhase::Claiming(s) => ConsumerPhaseView::Claiming(*s),
            ConsumerPhase::Settling(s) => ConsumerPhaseView::Settling(*s),
            ConsumerPhase::Settled => ConsumerPhaseView::Settled,
            ConsumerPhase::Failing(e) => ConsumerPhaseView::Failing(*e),
            ConsumerPhase::Finished(r) => ConsumerPhaseView::Finished(*r),
        }
    }
}

impl ConsumerPhaseView {
    /// Whether the loop holds the channel guard while the command of this
    /// phase is outstanding.
    pub open spec fn holds_guard(self) -> bool {
        match self {
            ConsumerPhaseView::Registering => true,
            ConsumerPhaseView::Registered => true,
            ConsumerPhaseView::Settling(_) => true,
            ConsumerPhaseView::Settled => true,
            ConsumerPhaseView::Failing(_) => true,
            _ => false,
        }
    }

    /// The phase a delivery leads to, given how its body decoded.
    pub open spec fn after_delivery(decoded: DecodedView) -> ConsumerPhaseView {
        match decoded {
            DecodedView::Event { video_path } => ConsumerPhaseView::Recording { video_path },
            DecodedView::MissingField => ConsumerPhaseView::Claiming(Settlement::Reject),
            DecodedView::Malformed => ConsumerPhaseView::Claiming(Settlement::Reject),
        }
    }
}

/// The consumer loop of one subscriber instance.
#[derive(Debug, PartialEq, Eq)]
pub struct ConsumerLoop {
    pub queue: String,
    pub consumer_tag: String,
    pub phase: ConsumerPhase,
}

/// `ConsumerLoop`, with its texts as sequences.
pub struct ConsumerLoopView {
    pub queue: Seq<char>,
    pub consumer_tag: Seq<char>,
    pub phase: ConsumerPhaseView,
}

impl View for ConsumerLoop {
    type V = ConsumerLoopView;

    open spec fn view(&self) -> ConsumerLoopView {
        ConsumerLoopView {
            queue: self.queue@,
            consumer_tag: self.consumer_tag@,
            phase: self.phase@,
        }
    }
}

impl ConsumerLoopView {
    /// A loop that has not registered yet.
    pub open spec fn initial(queue: Seq<char>, consumer_tag: Seq<char>) -> ConsumerLoopView {
        ConsumerLoopView { queue, consumer_tag, phase: ConsumerPhaseView::Acquiring }
    }

    pub open spec fn with_phase(self, phase: ConsumerPhaseView) -> ConsumerLoopView {
        ConsumerLoopView { queue: self.queue, consumer_tag: self.consumer_tag, phase }
    }

    /// The registration the loop asks for: on its queue, under its tag, with
    /// acknowledgements, not exclusive, waiting for the broker's answer.
    pub open spec fn registration(self) -> ConsumeView {
        ConsumeView {
            queue: self.queue,
            consumer_tag: self.consumer_tag,
            no_local: false,
            no_ack: false,
            exclusive: false,
            nowait: false,
        }
    }

    /// The command outstanding in the current phase.
    pub open spec fn command(self) -> CommandView {
        match self.phase {
            ConsumerPhaseView::Acquiring => CommandView::Acquire,
            ConsumerPhaseView::Registering => CommandView::Consume(self.registration()),
            ConsumerPhaseView::Registered => CommandView::Release,
            ConsumerPhaseView::Receiving => CommandView::Receive,
            ConsumerPhaseView::Recording { video_path } => CommandView::Record { video_path },
            ConsumerPhaseView::Claiming(_) => CommandView::Acquire,
            ConsumerPhaseView::Settling(Settlement::Ack) => CommandView::Ack { multiple: false },
            ConsumerPhaseView::Settling(Settlement::Reject) => CommandView::Reject {
                multiple: false,
                requeue: false,
            },
            ConsumerPhaseView::Settled => CommandView::Release,
            ConsumerPhaseView::Failing(_) => CommandView::Release,
            ConsumerPhaseView::Finished(_) => CommandView::Stop,
        }
    }

    /// The loop after a delivery whose body decoded to `decoded`.  Outside
    /// the receiving phase no delivery is due: the loop gives up.
    pub open spec fn deliver(self, decoded: DecodedView) -> ConsumerLoopView {
        match self.phase {
            ConsumerPhaseView::Receiving => self.with_phase(
                ConsumerPhaseView::after_delivery(decoded),
            ),
            _ => self.give_up(),
        }
    }

    /// The loop after a reply that its command cannot have: it ends with
    /// `Unexpected`, first giving the guard back where it holds it.  A loop
    /// that is already on its way out stays on it.
    pub open spec fn give_up(self) -> ConsumerLoopView {
        match self.phase {
            ConsumerPhaseView::Failing(e) => self,
            ConsumerPhaseView::Finished(r) => self,
            _ => if self.phase.holds_guard() {
                self.with_phase(ConsumerPhaseView::Failing(ConsumerError::Unexpected))
            } else {
                self.with_phase(ConsumerPhaseView::Finished(Err(ConsumerError::Unexpected)))
            },
        }
    }

    /// The loop after the reply to its outstanding command.
    pub open spec fn advance(self, reply: ReplyView) -> ConsumerLoopView {
        match self.phase {
            ConsumerPhaseView::Acquiring => match reply {
                ReplyView::Done => self.with_phase(ConsumerPhaseView::Registering),
                _ => self.give_up(),
            },
            ConsumerPhaseView::Registering => match reply {
                ReplyView::Done => self.with_phase(ConsumerPhaseView::Registered),
                ReplyView::Failed(f) => self.with_phase(
                    ConsumerPhaseView::Failing(ConsumerError::Register(f)),
                ),
                _ => self.give_up(),
            },
            ConsumerPhaseView::Registered => self.with_phase(ConsumerPhaseView::Receiving),
            ConsumerPhaseView::Receiving => match reply {
                ReplyView::Delivery { body } => self.deliver(
                    decoded_body(json_text_members(body)),
                ),
                ReplyView::DeliveryFailed(_) => self,
                ReplyView::EndOfStream => self.with_phase(ConsumerPhaseView::Finished(Ok(()))),
                _ => self.give_up(),
            },
            ConsumerPhaseView::Recording { video_path } => match reply {
                ReplyView::Done => self.with_phase(ConsumerPhaseView::Claiming(Settlement::Ack)),
                ReplyView::SinkFailed => self.with_phase(
                    ConsumerPhaseView::Finished(Err(ConsumerError::Sink)),
                ),
                _ => self.give_up(),
            },
            ConsumerPhaseView::Claiming(settlement) => match reply {
                ReplyView::Done => self.with_phase(ConsumerPhaseView::Settling(settlement)),
                _ => self.give_up(),
            },
            ConsumerPhaseView::Settling(_) => match reply {
                ReplyView::Done => self.with_phase(ConsumerPhaseView::Settled),
                ReplyView::Failed(f) => self.with_phase(
                    ConsumerPhaseView::Failing(ConsumerError::Settle(f)),
                ),
                _ => self.give_up(),
            },
            ConsumerPhaseView::Settled => self.with_phase(ConsumerPhaseView::Receiving),
            ConsumerPhaseView::Failing(e) => self.with_phase(ConsumerPhaseView::Finished(Err(e))),
            ConsumerPhaseView::Finished(_) => self,
        }
    }

    /// How the loop ended, once it has.
    pub open spec fn outcome(self) -> Option<Result<(), ConsumerError>> {
        match self.phase {
            ConsumerPhaseView::Finished(r) => Some(r),
            _ => None,
        }
    }
}

impl ConsumerLoop {
    /// A loop for `queue` that registers under `consumer_tag`.
    pub fn new(queue: &str, consumer_tag: &str) -> (fresh: ConsumerLoop)
        ensures
            fresh@ == ConsumerLoopView::initial(queue@, consumer_tag@),
    {
        ConsumerLoop {
            queue: queue.to_owned(),
            consumer_tag: consumer_tag.to_owned(),
            phase: ConsumerPhase::Acquiring,
        }
    }

    /// The command the driver is to perform now.
    pub fn command(&self) -> (cmd: Command)
        ensures
            cmd@ == self@.command(),
            cmd@.uses_channel() ==> self@.phase.holds_guard(),
            cmd@ is Receive || cmd@ is Record || cmd@ is Stop || cmd@ is Acquire
                ==> !self@.phase.holds_guard(),
    {
        match &self.phase {
            ConsumerPhase::Acquiring => Command::Acquire,
            ConsumerPhase::Registering => Command::Consume(
                Consume {
                    queue: self.queue.clone(),
                    consumer_tag: self.consumer_tag.clone(),
                    no_local: false,
                    no_ack: false,
                    exclusive: false,
                    nowait: false,
                },
            ),
            ConsumerPhase::Registered => Command::Release,
            ConsumerPhase::Receiving => Command::Receive,
            ConsumerPhase::Recording { video_path } => Command::Record {
                video_path: video_path.clone(),
            },
            ConsumerPhase::Claiming(_) => Command::Acquire,
            ConsumerPhase::Settling(Settlement::Ack) => Command::Ack { multiple: false },
            ConsumerPhase::Settling(Settlement::Reject) => Command::Reject {
                multiple: false,
                requeue: false,
            },
            ConsumerPhase::Settled => Command::Release,
            ConsumerPhase::Failing(_) => Command::Release,
            ConsumerPhase::Finished(_) => Command::Stop,
        }
    }

    fn with_phase(self, phase: ConsumerPhase) -> (next: ConsumerLoop)
        ensures
            next@ == self@.with_phase(phase@),
    {
        ConsumerLoop { queue: self.queue, consumer_tag: self.consumer_tag, phase }
    }

    fn holds_guard(&self) -> (held: bool)
        ensures
            held == self@.phase.holds_guard(),
    {
        match &self.phase {
            ConsumerPhase::Registering => true,
            ConsumerPhase::Registered => true,
            ConsumerPhase::Settling(_) => true,
            ConsumerPhase::Settled => true,
            ConsumerPhase::Failing(_) => true,
            _ => false,
        }
    }

    fn give_up(self) -> (next: ConsumerLoop)
        ensures
            next@ == self@.give_up(),
    {
        match &self.phase {
            ConsumerPhase::Failing(_) => self,
            ConsumerPhase::Finished(_) => self,
            _ => if self.holds_guard() {
                self.with_phase(ConsumerPhase::Failing(ConsumerError::Unexpected))
            } else {
                self.with_phase(ConsumerPhase::Finished(Err(ConsumerError::Unexpected)))
            },
        }
    }

    /// Takes a delivery whose body has been decoded: a decoded path goes to
    /// the sink, anything else is to be rejected.
    pub fn deliver(self, decoded: Decoded) -> (next: ConsumerLoop)
        ensures
            next@ == self@.deliver(decoded@),
    {
        match &self.phase {
            ConsumerPhase::Receiving => match decoded {
                Decoded::Event { video_path } => self.with_phase(
                    ConsumerPhase::Recording { video_path },
                ),
                Decoded::MissingField => self.with_phase(
                    ConsumerPhase::Claiming(Settlement::Reject),
                ),
                Decoded::Malformed => self.with_phase(ConsumerPhase::Claiming(Settlement::Reject)),
            },
            _ => self.give_up(),
        }
    }

    /// Takes the reply to the outstanding command.
    pub fn advance(self, reply: Reply) -> (next: ConsumerLoop)
        ensures
            next@ == self@.advance(reply@),
    {
        match &self.phase {
            ConsumerPhase::Acquiring => match reply {
                Reply::Done => self.with_phase(ConsumerPhase::Registering),
                _ => self.give_up(),
            },
            ConsumerPhase::Registering => match reply {
                Reply::Done => self.with_phase(ConsumerPhase::Registered),
                Reply::Failed(f) => self.with_phase(
                    ConsumerPhase::Failing(ConsumerError::Register(f)),
                ),
                _ => self.give_up(),
            },
            ConsumerPhase::Registered => self.with_phase(ConsumerPhase::Receiving),
            ConsumerPhase::Receiving => match reply {
                Reply::Delivery { body } => {
                    let decoded = decode(body.as_slice());
                    self.deliver(decoded)
                },
                Reply::DeliveryFailed(_) => self,
                Reply::EndOfStream => self.with_phase(ConsumerPhase::Finished(Ok(()))),
                _ => self.give_up(),
            },
            ConsumerPhase::Recording { .. } => match reply {
                Reply::Done => self.with_phase(ConsumerPhase::Claiming(Settlement::Ack)),
                Reply::SinkFailed => self.with_phase(
                    ConsumerPhase::Finished(Err(ConsumerError::Sink)),
                ),
                _ => self.give_up(),
            },
            ConsumerPhase::Claiming(settlement) => {
                let settlement = *settlement;
                match reply {
                    Reply::Done => self.with_phase(ConsumerPhase::Settling(settlement)),
                    _ => self.give_up(),
                }
            },
            ConsumerPhase::Settling(_) => match reply {
                Reply::Done => self.with_phase(ConsumerPhase::Settled),
                Reply::Failed(f) => self.with_phase(
                    ConsumerPhase::Failing(ConsumerError::Settle(f)),
                ),
                _ => self.give_up(),
            },
            ConsumerPhase::Settled => self.with_phase(ConsumerPhase::Receiving),
            ConsumerPhase::Failing(e) => {
                let e = *e;
                self.with_phase(ConsumerPhase::Finished(Err(e)))
            },
            ConsumerPhase::Finished(_) => self,
        }
    }

    /// How the loop ended, once it has.
    pub fn outcome(&self) -> (ended: Option<Result<(), ConsumerError>>)
        ensures
            ended == self@.outcome(),
    {
        match &self.phase {
            ConsumerPhase::Finished(r) => Some(*r),
            _ => None,
        }
    }
}

/// The guard is held exactly while the channel is written to: a command that
/// uses the channel is issued only with the guard held; the loop waits for a
/// delivery, for the sink or for the guard itself only without it, and ends
/// without it.  The guard is gained only by an `Acquire` that went through
/// and is given up by the next `Release`, whatever the reply.
pub proof fn lemma_guard_discipline(s: ConsumerLoopView, reply: ReplyView)
    ensures
        s.command().uses_channel() ==> s.phase.holds_guard(),
        s.command() is Receive || s.command() is Record || s.command() is Stop || s.command() is Acquire
            ==> !s.phase.holds_guard(),
        s.command() is Release <==> s.phase.holds_guard() && !s.command().uses_channel(),
        s.command() is Release ==> !s.advance(reply).phase.holds_guard(),
        !s.phase.holds_guard() && s.advance(reply).phase.holds_guard() ==> s.command() is Acquire
            && reply is Done,
        s.phase.holds_guard() && !s.advance(reply).phase.holds_guard() ==> s.command() is Release,
{
}

/// A body that is not JSON, or is JSON without a string member `video_path`,
/// costs the loop one rejection without requeue and nothing else: the loop
/// takes the guard, rejects, gives the guard back and waits for the next
/// delivery in the very state it was in before.
pub proof fn lemma_undecodable_body_is_rejected_and_skipped(s: ConsumerLoopView, body: Seq<u8>)
    requires
        s.phase is Receiving,
        json_text_members(body) matches Some(members) ==> !members.contains_key(
            crate::event::field_name(),
        ),
    ensures
        ({
            let claiming = s.advance(ReplyView::Delivery { body });
            let settling = claiming.advance(ReplyView::Done);
            let settled = settling.advance(ReplyView::Done);
            let waiting = settled.advance(ReplyView::Done);
            &&& claiming.command() == CommandView::Acquire
            &&& settling.command() == (CommandView::Reject { multiple: false, requeue: false })
            &&& settled.command() == CommandView::Release
            &&& waiting.command() == CommandView::Receive
            &&& waiting == s
        }),
{
}

/// A body that decodes is handed to the sink first and acknowledged only
/// after the sink has stored it; then the loop waits for the next delivery
/// in the state it was in before.
pub proof fn lemma_decoded_path_is_recorded_then_acknowledged(
    s: ConsumerLoopView,
    body: Seq<u8>,
    path: Seq<char>,
)
    requires
        s.phase is Receiving,
        decoded_body(json_text_members(body)) == (DecodedView::Event { video_path: path }),
    ensures
        ({
            let recording = s.advance(ReplyView::Delivery { body });
            let claiming = recording.advance(ReplyView::Done);
            let settling = claiming.advance(ReplyView::Done);
            let settled = settling.advance(ReplyView::Done);
            let waiting = settled.advance(ReplyView::Done);
            &&& recording.command() == (CommandView::Record { video_path: path })
            &&& claiming.command() == CommandView::Acquire
            &&& settling.command() == (CommandView::Ack { multiple: false })
            &&& settled.command() == CommandView::Release
            &&& waiting.command() == CommandView::Receive
            &&& waiting == s
        }),
{
}

/// When the sink fails, the loop ends at once with `Sink`: the delivery in
/// hand is neither acknowledged nor rejected, and no further one is asked
/// for.
pub proof fn lemma_sink_failure_ends_the_loop(s: ConsumerLoopView)
    requires
        s.phase is Recording,
    ensures
        s.advance(ReplyView::SinkFailed).command() == CommandView::Stop,
        s.advance(ReplyView::SinkFailed).outcome() == Some(
            Err::<(), ConsumerError>(ConsumerError::Sink),
        ),
{
}

/// A loop that has ended stays ended, with the same outcome.
pub proof fn lemma_finished_is_final(s: ConsumerLoopView, reply: ReplyView)
    requires
        s.outcome() is Some,
    ensures
        s.advance(reply) == s,
        s.command() == CommandView::Stop,
{
}

/// The loop ends well only when the delivery stream ends while it waits for
/// a delivery; every other ending carries an error.
pub proof fn lemma_ends_well_only_with_the_stream(s: ConsumerLoopView, reply: ReplyView)
    requires
        s.outcome() is None,
        s.advance(reply).outcome() == Some(Ok::<(), ConsumerError>(())),
    ensures
        s.phase is Receiving,
        reply is EndOfStream,
{
}

/// A stream error in place of a delivery is passed over: the loop keeps
/// waiting.
pub proof fn lemma_stream_error_is_passed_over(s: ConsumerLoopView, failure: BrokerFailure)
    requires
        s.phase is Receiving,
    ensures
        s.advance(ReplyView::DeliveryFailed(failure)) == s,
{
}

} // verus!
