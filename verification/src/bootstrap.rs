//! Bringing up a subscriber's topology.
//!
//! Under one hold of the channel guard the subscriber declares the fanout
//! exchange, declares a queue of its own that the broker names, and binds
//! that queue to the exchange.  The first failure ends the attempt: without
//! its queue the subscriber cannot run.

use vstd::prelude::*;
use crate::protocol::{BrokerFailure, Command, CommandView, Reply, ReplyView};
use crate::topology::{
    subscriber_binding, subscriber_binding_view, subscriber_exchange, subscriber_exchange_view,
    subscriber_queue, subscriber_queue_view,
};

verus! {

/// Why a subscriber's topology did not come up.
#[derive(Clone, Copy, Debug, PartialEq, Eq, Structural)]
pub enum BootstrapError {
    /// The exchange could not be declared.
    Exchange(BrokerFailure),
    /// The queue could not be declared.
    Queue(BrokerFailure),
    /// The queue could not be bound to the exchange.
    Bind(BrokerFailure),
    /// The driver answered with a reply that the command cannot have.
    Unexpected,
}

impl BootstrapError {
    /// Whether the exchange exists already with other properties.
    pub open spec fn is_exchange_mismatch(self) -> bool {
        self matches BootstrapError::Exchange(f) && f.is_mismatch()
    }

    /// Whether the exchange exists already with other properties.
    pub fn exchange_mismatch(&self) -> (b: bool)
        ensures
            b == self.is_exchange_mismatch(),
    {
        match self {
            BootstrapError::Exchange(f) => f.mismatch(),
            _ => false,
        }
    }
}

/// Where a bootstrap stands.  Each phase has one command outstanding.
#[derive(Debug, PartialEq, Eq)]
pub enum BootstrapPhase {
    /// Waiting for the guard.
    Acquiring,
    /// Declaring the exchange; the guard is held.
    DeclaringExchange,
    /// Declaring the queue; the guard is held.
    DeclaringQueue,
    /// Binding the queue the broker has named; the guard is held.
    Binding { queue: String },
    /// Giving the guard back, with the outcome settled.
    Releasing(Result<String, BootstrapError>),
    /// Over: the name of the queue, or the reason there is none.
    Finished(Result<String, BootstrapError>),
}

/// `BootstrapPhase`, with its texts as sequences.
pub enum BootstrapPhaseView {
    Acquiring,
    DeclaringExchange,
    DeclaringQueue,
    Binding { queue: Seq<char> },
    Releasing(Result<Seq<char>, BootstrapError>),
    Finished(Result<Seq<char>, BootstrapError>),
}

/// A settled outcome, with the queue's name as a sequence of characters.
pub open spec fn outcome_view(outcome: Result<String, BootstrapError>) -> Result<
    Seq<char>,
    BootstrapError,
> {
    match outcome {
        Ok(queue) => Ok(queue@),
        Err(e) => Err(e),
    }
}

impl View for BootstrapPhase {
    type V = BootstrapPhaseView;

    open spec fn view(&self) -> BootstrapPhaseView {
        match self {
            BootstrapPhase::Acquiring => BootstrapPhaseView::Acquiring,
            BootstrapPhase::DeclaringExchange => BootstrapPhaseView::DeclaringExchange,
            BootstrapPhase::DeclaringQueue => BootstrapPhaseView::DeclaringQueue,
            BootstrapPhase::Binding { queue } => BootstrapPhaseView::Binding { queue: queue@ },
            BootstrapPhase::Releasing(r) => BootstrapPhaseView::Releasing(outcome_view(*r)),
            BootstrapPhase::Finished(r) => BootstrapPhaseView::Finished(outcome_view(*r)),
        }
    }
}

impl BootstrapPhaseView {
    /// Whether the subscriber holds the channel guard while the command of
    /// this phase is outstanding.
    pub open spec fn holds_guard(self) -> bool {
        match self {
            BootstrapPhaseView::DeclaringExchange => true,
            BootstrapPhaseView::DeclaringQueue => true,
            BootstrapPhaseView::Binding { .. } => true,
            BootstrapPhaseView::Releasing(_) => true,
            _ => false,
        }
    }

    /// An upper bound on the replies the bootstrap still takes before it is
    /// over.
    pub open spec fn remaining(self) -> nat {
        match self {
            BootstrapPhaseView::Acquiring => 5,
            BootstrapPhaseView::DeclaringExchange => 4,
            BootstrapPhaseView::DeclaringQueue => 3,
            BootstrapPhaseView::Binding { .. } => 2,
            BootstrapPhaseView::Releasing(_) => 1,
            BootstrapPhaseView::Finished(_) => 0,
        }
    }
}

/// One attempt to bring up the topology of one subscriber instance.
#[derive(Debug, PartialEq, Eq)]
pub struct Bootstrap {
    pub exchange: String,
    /// Whether the attempt declares the exchange itself, or takes it to be
    /// there and only declares and binds the queue.
    pub declares_exchange: bool,
    pub phase: BootstrapPhase,
}

/// `Bootstrap`, with its texts as sequences.
pub struct BootstrapView {
    pub exchange: Seq<char>,
    pub declares_exchange: bool,
    pub phase: BootstrapPhaseView,
}

impl View for Bootstrap {
    type V = BootstrapView;

    open spec fn view(&self) -> BootstrapView {
        BootstrapView {
            exchange: self.exchange@,
            declares_exchange: self.declares_exchange,
            phase: self.phase@,
        }
    }
}

impl BootstrapView {
    /// A bootstrap that has done nothing yet.
    pub open spec fn initial(exchange: Seq<char>) -> BootstrapView {
        BootstrapView { exchange, declares_exchange: true, phase: BootstrapPhaseView::Acquiring }
    }

    /// An attempt that has done nothing yet and will only declare a queue
    /// and bind it to `exchange`, which it takes to be there.
    pub open spec fn queue_only(exchange: Seq<char>) -> BootstrapView {
        BootstrapView { exchange, declares_exchange: false, phase: BootstrapPhaseView::Acquiring }
    }

    pub open spec fn with_phase(self, phase: BootstrapPhaseView) -> BootstrapView {
        BootstrapView { phase, ..self }
    }

    /// The first step under the guard: the exchange, or the queue at once
    /// where the exchange is not this attempt's to declare.
    pub open spec fn first_step(self) -> BootstrapPhaseView {
        if self.declares_exchange {
            BootstrapPhaseView::DeclaringExchange
        } else {
            BootstrapPhaseView::DeclaringQueue
        }
    }

    pub open spec fn fail(self, error: BootstrapError) -> BootstrapView {
        self.with_phase(BootstrapPhaseView::Releasing(Err(error)))
    }

    /// The command outstanding in the current phase.
    pub open spec fn command(self) -> CommandView {
        match self.phase {
            BootstrapPhaseView::Acquiring => CommandView::Acquire,
            BootstrapPhaseView::DeclaringExchange => CommandView::DeclareExchange(
                subscriber_exchange_view(self.exchange),
            ),
            BootstrapPhaseView::DeclaringQueue => CommandView::DeclareQueue(subscriber_queue_view()),
            BootstrapPhaseView::Binding { queue } => CommandView::BindQueue(
                subscriber_binding_view(queue, self.exchange),
            ),
            BootstrapPhaseView::Releasing(_) => CommandView::Release,
            BootstrapPhaseView::Finished(_) => CommandView::Stop,
        }
    }

    /// The bootstrap after the reply to its outstanding command.
    pub open spec fn advance(self, reply: ReplyView) -> BootstrapView {
        match self.phase {
            BootstrapPhaseView::Acquiring => match reply {
                ReplyView::Done => self.with_phase(self.first_step()),
                _ => self.with_phase(BootstrapPhaseView::Finished(Err(BootstrapError::Unexpected))),
            },
            BootstrapPhaseView::DeclaringExchange => match reply {
                ReplyView::Done => self.with_phase(BootstrapPhaseView::DeclaringQueue),
                ReplyView::Failed(f) => self.fail(BootstrapError::Exchange(f)),
                _ => self.fail(BootstrapError::Unexpected),
            },
            BootstrapPhaseView::DeclaringQueue => match reply {
                ReplyView::QueueDeclared { queue } => self.with_phase(
                    BootstrapPhaseView::Binding { queue },
                ),
                ReplyView::Failed(f) => self.fail(BootstrapError::Queue(f)),
                _ => self.fail(BootstrapError::Unexpected),
            },
            BootstrapPhaseView::Binding { queue } => match reply {
                ReplyView::Done => self.with_phase(BootstrapPhaseView::Releasing(Ok(queue))),
                ReplyView::Failed(f) => self.fail(BootstrapError::Bind(f)),
                _ => self.fail(BootstrapError::Unexpected),
            },
            BootstrapPhaseView::Releasing(outcome) => self.with_phase(
                BootstrapPhaseView::Finished(outcome),
            ),
            BootstrapPhaseView::Finished(_) => self,
        }
    }

    /// How the attempt ended, once it has: with the name of the bound queue,
    /// or with the reason there is none.
    pub open spec fn outcome(self) -> Option<Result<Seq<char>, BootstrapError>> {
        match self.phase {
            BootstrapPhaseView::Finished(r) => Some(r),
            _ => None,
        }
    }
}

impl Bootstrap {
    /// A bootstrap for a subscriber of `exchange`.
    pub fn new(exchange: &str) -> (fresh: Bootstrap)
        ensures
            fresh@ == BootstrapView::initial(exchange@),
    {
        Bootstrap {
            exchange: exchange.to_owned(),
            declares_exchange: true,
            phase: BootstrapPhase::Acquiring,
        }
    }

    /// An attempt to declare a queue and bind it to `exchange`, without
    /// declaring the exchange.
    pub fn for_queue(exchange: &str) -> (fresh: Bootstrap)
        ensures
            fresh@ == BootstrapView::queue_only(exchange@),
    {
        Bootstrap {
            exchange: exchange.to_owned(),
            declares_exchange: false,
            phase: BootstrapPhase::Acquiring,
        }
    }

    /// The command the driver is to perform now.
    pub fn command(&self) -> (cmd: Command)
        ensures
            cmd@ == self@.command(),
            cmd@.uses_channel() ==> self@.phase.holds_guard(),
            cmd@ is Stop || cmd@ is Acquire ==> !self@.phase.holds_guard(),
    {
        match &self.phase {
            BootstrapPhase::Acquiring => Command::Acquire,
            BootstrapPhase::DeclaringExchange => Command::DeclareExchange(
                subscriber_exchange(self.exchange.as_str()),
            ),
            BootstrapPhase::DeclaringQueue => Command::DeclareQueue(subscriber_queue()),
            BootstrapPhase::Binding { queue } => Command::BindQueue(
                subscriber_binding(queue.as_str(), self.exchange.as_str()),
            ),
            BootstrapPhase::Releasing(_) => Command::Release,
            BootstrapPhase::Finished(_) => Command::Stop,
        }
    }

    fn with_phase(self, phase: BootstrapPhase) -> (next: Bootstrap)
        ensures
            next@ == self@.with_phase(phase@),
    {
        Bootstrap { exchange: self.exchange, declares_exchange: self.declares_exchange, phase }
    }

    fn fail(self, error: BootstrapError) -> (next: Bootstrap)
        ensures
            next@ == self@.fail(error),
    {
        self.with_phase(BootstrapPhase::Releasing(Err(error)))
    }

    /// Takes the reply to the outstanding command.
    pub fn advance(self, reply: Reply) -> (next: Bootstrap)
        ensures
            next@ == self@.advance(reply@),
    {
        let Bootstrap { exchange, declares_exchange, phase } = self;
        let next_phase = match phase {
            BootstrapPhase::Acquiring => match reply {
                Reply::Done => if declares_exchange {
                    BootstrapPhase::DeclaringExchange
                } else {
                    BootstrapPhase::DeclaringQueue
                },
                _ => BootstrapPhase::Finished(Err(BootstrapError::Unexpected)),
            },
            BootstrapPhase::DeclaringExchange => match reply {
                Reply::Done => BootstrapPhase::DeclaringQueue,
                Reply::Failed(f) => BootstrapPhase::Releasing(Err(BootstrapError::Exchange(f))),
                _ => BootstrapPhase::Releasing(Err(BootstrapError::Unexpected)),
            },
            BootstrapPhase::DeclaringQueue => match reply {
                Reply::QueueDeclared { queue } => BootstrapPhase::Binding { queue },
                Reply::Failed(f) => BootstrapPhase::Releasing(Err(BootstrapError::Queue(f))),
                _ => BootstrapPhase::Releasing(Err(BootstrapError::Unexpected)),
            },
            BootstrapPhase::Binding { queue } => match reply {
                Reply::Done => BootstrapPhase::Releasing(Ok(queue)),
                Reply::Failed(f) => BootstrapPhase::Releasing(Err(BootstrapError::Bind(f))),
                _ => BootstrapPhase::Releasing(Err(BootstrapError::Unexpected)),
            },
            BootstrapPhase::Releasing(outcome) => BootstrapPhase::Finished(outcome),
            BootstrapPhase::Finished(outcome) => BootstrapPhase::Finished(outcome),
        };
        Bootstrap { exchange, declares_exchange, phase: next_phase }
    }

    /// Whether the attempt is over.
    pub fn finished(&self) -> (over: bool)
        ensures
            over == self@.outcome() is Some,
    {
        match &self.phase {
            BootstrapPhase::Finished(_) => true,
            _ => false,
        }
    }

    /// How the attempt ended, once it has: with the name of the bound queue,
    /// or with the reason there is none.
    pub fn into_outcome(self) -> (ended: Option<Result<String, BootstrapError>>)
        ensures
            match ended {
                Some(r) => self@.outcome() == Some(outcome_view(r)),
                None => self@.outcome() is None,
            },
    {
        match self.phase {
            BootstrapPhase::Finished(r) => Some(r),
            _ => None,
        }
    }
}

/// The guard is held exactly while the channel is written to: the three
/// declarations happen under one hold of the guard, which is gained only by
/// an `Acquire` that went through and given up before the attempt ends.
pub proof fn lemma_guard_discipline(b: BootstrapView, reply: ReplyView)
    ensures
        b.command().uses_channel() ==> b.phase.holds_guard(),
        b.command() is Stop || b.command() is Acquire ==> !b.phase.holds_guard(),
        b.command() is Release <==> b.phase.holds_guard() && !b.command().uses_channel(),
        b.command() is Release ==> !b.advance(reply).phase.holds_guard(),
        !b.phase.holds_guard() && b.advance(reply).phase.holds_guard() ==> b.command() is Acquire
            && reply is Done,
        b.phase.holds_guard() && !b.advance(reply).phase.holds_guard() ==> b.command() is Release,
        b.phase.holds_guard() && b.advance(reply).phase.holds_guard() ==> b.command().uses_channel(),
{
}

/// Every reply brings the attempt nearer to its end: it is over after five
/// replies at most, and no command is issued a second time.
pub proof fn lemma_every_reply_nears_the_end(b: BootstrapView, reply: ReplyView)
    ensures
        b.outcome() is None ==> b.advance(reply).phase.remaining() < b.phase.remaining(),
        b.outcome() is Some ==> b.advance(reply) == b && b.command() == CommandView::Stop,
        b.phase.remaining() <= 5,
{
}

/// Where every round trip goes through, the subscriber ends up with the
/// queue the broker named: the exchange is declared first, then the queue,
/// then that very queue is bound to the exchange with an empty routing key.
pub proof fn lemma_bootstrap_goes_through(exchange: Seq<char>, queue: Seq<char>)
    ensures
        ({
            let start = BootstrapView::initial(exchange);
            let declaring = start.advance(ReplyView::Done);
            let naming = declaring.advance(ReplyView::Done);
            let binding = naming.advance(ReplyView::QueueDeclared { queue });
            let releasing = binding.advance(ReplyView::Done);
            let over = releasing.advance(ReplyView::Done);
            &&& start.command() == CommandView::Acquire
            &&& declaring.command() == CommandView::DeclareExchange(
                subscriber_exchange_view(exchange),
            )
            &&& naming.command() == CommandView::DeclareQueue(subscriber_queue_view())
            &&& binding.command() == CommandView::BindQueue(
                subscriber_binding_view(queue, exchange),
            )
            &&& releasing.command() == CommandView::Release
            &&& over.command() == CommandView::Stop
            &&& over.outcome() == Some(Ok::<Seq<char>, BootstrapError>(queue))
        }),
{
}

/// An attempt for the queue alone never declares the exchange: where every
/// round trip goes through, it takes the guard, declares the queue, binds
/// the queue the broker named and gives the guard back.
pub proof fn lemma_queue_alone_goes_through(exchange: Seq<char>, queue: Seq<char>)
    ensures
        ({
            let start = BootstrapView::queue_only(exchange);
            let naming = start.advance(ReplyView::Done);
            let binding = naming.advance(ReplyView::QueueDeclared { queue });
            let releasing = binding.advance(ReplyView::Done);
            let over = releasing.advance(ReplyView::Done);
            &&& start.command() == CommandView::Acquire
            &&& naming.phase == BootstrapPhaseView::DeclaringQueue
            &&& naming.command() == CommandView::DeclareQueue(subscriber_queue_view())
            &&& binding.command() == CommandView::BindQueue(
                subscriber_binding_view(queue, exchange),
            )
            &&& releasing.command() == CommandView::Release
            &&& over.command() == CommandView::Stop
            &&& over.outcome() == Some(Ok::<Seq<char>, BootstrapError>(queue))
        }),
{
}

/// The exchange is declared only by an attempt that is to declare it, and
/// then first: no reply leads to that step from any other.
pub proof fn lemma_exchange_is_declared_first_or_never(b: BootstrapView, reply: ReplyView)
    ensures
        !(b.phase is DeclaringExchange) && b.advance(reply).phase is DeclaringExchange
            ==> b.declares_exchange && b.phase is Acquiring && reply is Done,
        b.advance(reply).declares_exchange == b.declares_exchange,
        b.advance(reply).exchange == b.exchange,
{
}

/// A failed round trip ends the attempt with the error of the step that
/// failed: the guard is given back and nothing further is declared.
pub proof fn lemma_failure_is_fatal(b: BootstrapView, failure: BrokerFailure)
    requires
        b.phase.holds_guard(),
        b.command().uses_channel(),
    ensures
        ({
            let releasing = b.advance(ReplyView::Failed(failure));
            let over = releasing.advance(ReplyView::Done);
            &&& releasing.command() == CommandView::Release
            &&& over.command() == CommandView::Stop
            &&& b.phase is DeclaringExchange ==> over.outcome() == Some(
                Err::<Seq<char>, BootstrapError>(BootstrapError::Exchange(failure)),
            )
            &&& b.phase is DeclaringQueue ==> over.outcome() == Some(
                Err::<Seq<char>, BootstrapError>(BootstrapError::Queue(failure)),
            )
            &&& b.phase is Binding ==> over.outcome() == Some(
                Err::<Seq<char>, BootstrapError>(BootstrapError::Bind(failure)),
            )
        }),
{
}

/// The attempt ends with a queue only after that queue has been bound: the
/// queue is declared only once the exchange is, where the exchange is this
/// attempt's to declare, and bound only once it has a name.
pub proof fn lemma_steps_come_in_order(b: BootstrapView, reply: ReplyView)
    ensures
        !(b.phase is DeclaringQueue) && b.advance(reply).phase is DeclaringQueue ==> reply is Done
            && (b.phase is DeclaringExchange || (b.phase is Acquiring && !b.declares_exchange)),
        !(b.phase is Binding) && b.advance(reply).phase is Binding ==> b.phase is DeclaringQueue
            && reply == (ReplyView::QueueDeclared { queue: b.advance(reply).phase->queue }),
        !(b.phase is Releasing) ==> (b.advance(reply).phase matches BootstrapPhaseView::Releasing(
            Ok(queue),
        ) ==> b.phase == (BootstrapPhaseView::Binding { queue }) && reply is Done),
{
}

} // verus!
