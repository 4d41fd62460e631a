//! Publishing one view event.
//!
//! The publisher takes the channel guard, checks passively that the exchange
//! exists, publishes the encoded event with an empty routing key, waits for
//! the broker's answer and gives the guard back.  The first failure ends the
//! attempt; nothing is tried twice.

use vstd::prelude::*;
use crate::event::{view_event_body, ViewEvent};
use crate::protocol::{
    BrokerFailure, Command, CommandView, Publish, PublishView, Reply, ReplyView,
};
use crate::topology::{publisher_check, publisher_check_view};

verus! {

/// Why an event was not published.
#[derive(Clone, Copy, Debug, PartialEq, Eq, Structural)]
pub enum PublishError {
    /// The JSON codec could not print the event.
    Encoding,
    /// The exchange does not exist: no subscriber has declared it yet.
    NoSuchExchange,
    /// The check of the exchange failed for another reason.
    Check(BrokerFailure),
    /// The broker did not take the message.
    Publish(BrokerFailure),
    /// The broker's answer to the publish did not come.
    Confirm(BrokerFailure),
    /// The driver answered with a reply that the command cannot have.
    Unexpected,
}

/// Where a publish stands.  Each phase has one command outstanding.
#[derive(Clone, Copy, Debug, PartialEq, Eq)]
pub enum PublishPhase {
    /// Waiting for the guard.
    Acquiring,
    /// Checking that the exchange exists; the guard is held.
    Checking,
    /// Publishing the body; the guard is held.
    Publishing,
    /// Waiting for the broker's answer; the guard is held.
    Confirming,
    /// Giving the guard back, with the outcome settled.
    Releasing(Result<(), PublishError>),
    /// Over.
    Finished(Result<(), PublishError>),
}

impl PublishPhase {
    /// Whether the publisher holds the channel guard while the command of
    /// this phase is outstanding.
    pub open spec fn holds_guard(self) -> bool {
        match self {
            PublishPhase::Checking => true,
            PublishPhase::Publishing => true,
            PublishPhase::Confirming => true,
            PublishPhase::Releasing(_) => true,
            _ => false,
        }
    }

    /// An upper bound on the replies the publisher still takes before it is
    /// over.
    pub open spec fn remaining(self) -> nat {
        match self {
            PublishPhase::Acquiring => 5,
            PublishPhase::Checking => 4,
            PublishPhase::Publishing => 3,
            PublishPhase::Confirming => 2,
            PublishPhase::Releasing(_) => 1,
            PublishPhase::Finished(_) => 0,
        }
    }
}

/// The error a failed check of the exchange stands for.
pub open spec fn check_error(failure: BrokerFailure) -> PublishError {
    if failure.is_not_found() {
        PublishError::NoSuchExchange
    } else {
        PublishError::Check(failure)
    }
}

/// One attempt to publish one event.
#[derive(Debug, PartialEq, Eq)]
pub struct Publisher {
    pub exchange: String,
    pub body: Vec<u8>,
    pub phase: PublishPhase,
}

/// `Publisher`, with its texts as sequences.
pub struct PublisherView {
    pub exchange: Seq<char>,
    pub body: Seq<u8>,
    pub phase: PublishPhase,
}

impl View for Publisher {
    type V = PublisherView;

    open spec fn view(&self) -> PublisherView {
        PublisherView { exchange: self.exchange@, body: self.body@, phase: self.phase }
    }
}

impl PublisherView {
    /// A publisher that has done nothing yet, given what encoding the event
    /// came to: ready to go with the body, or over where there is none.
    pub open spec fn with_body(exchange: Seq<char>, body: Option<Seq<u8>>) -> PublisherView {
        match body {
            Some(bytes) => PublisherView { exchange, body: bytes, phase: PublishPhase::Acquiring },
            None => PublisherView {
                exchange,
                body: Seq::<u8>::empty(),
                phase: PublishPhase::Finished(Err(PublishError::Encoding)),
            },
        }
    }

    /// A publisher that has done nothing yet, for an event with this path.
    pub open spec fn initial(exchange: Seq<char>, path: Seq<char>) -> PublisherView {
        Self::with_body(exchange, view_event_body(path))
    }

    pub open spec fn with_phase(self, phase: PublishPhase) -> PublisherView {
        PublisherView { exchange: self.exchange, body: self.body, phase }
    }

    /// The message the publisher sends: to its exchange, with an empty
    /// routing key and no delivery demands.
    pub open spec fn message(self) -> PublishView {
        PublishView {
            exchange: self.exchange,
            routing_key: Seq::<char>::empty(),
            mandatory: false,
            immediate: false,
            body: self.body,
        }
    }

    /// The command outstanding in the current phase.
    pub open spec fn command(self) -> CommandView {
        match self.phase {
            PublishPhase::Acquiring => CommandView::Acquire,
            PublishPhase::Checking => CommandView::DeclareExchange(
                publisher_check_view(self.exchange),
            ),
            PublishPhase::Publishing => CommandView::Publish(self.message()),
            PublishPhase::Confirming => CommandView::AwaitConfirm,
            PublishPhase::Releasing(_) => CommandView::Release,
            PublishPhase::Finished(_) => CommandView::Stop,
        }
    }

    /// The publisher after the reply to its outstanding command.
    pub open spec fn advance(self, reply: ReplyView) -> PublisherView {
        match self.phase {
            PublishPhase::Acquiring => match reply {
                ReplyView::Done => self.with_phase(PublishPhase::Checking),
                _ => self.with_phase(PublishPhase::Finished(Err(PublishError::Unexpected))),
            },
            PublishPhase::Checking => match reply {
                ReplyView::Done => self.with_phase(PublishPhase::Publishing),
                ReplyView::Failed(f) => self.with_phase(PublishPhase::Releasing(Err(check_error(f)))),
                _ => self.with_phase(PublishPhase::Releasing(Err(PublishError::Unexpected))),
            },
            PublishPhase::Publishing => match reply {
                ReplyView::Done => self.with_phase(PublishPhase::Confirming),
                ReplyView::Failed(f) => self.with_phase(
                    PublishPhase::Releasing(Err(PublishError::Publish(f))),
                ),
                _ => self.with_phase(PublishPhase::Releasing(Err(PublishError::Unexpected))),
            },
            PublishPhase::Confirming => match reply {
                ReplyView::Done => self.with_phase(PublishPhase::Releasing(Ok(()))),
                ReplyView::Failed(f) => self.with_phase(
                    PublishPhase::Releasing(Err(PublishError::Confirm(f))),
                ),
                _ => self.with_phase(PublishPhase::Releasing(Err(PublishError::Unexpected))),
            },
            PublishPhase::Releasing(outcome) => self.with_phase(PublishPhase::Finished(outcome)),
            PublishPhase::Finished(_) => self,
        }
    }

    /// How the attempt ended, once it has.
    pub open spec fn outcome(self) -> Option<Result<(), PublishError>> {
        match self.phase {
            PublishPhase::Finished(r) => Some(r),
            _ => None,
        }
    }
}

impl Publisher {
    /// A publisher on `exchange` for what encoding an event came to.
    pub fn with_body(exchange: &str, body: Option<Vec<u8>>) -> (fresh: Publisher)
        ensures
            fresh@ == PublisherView::with_body(
                exchange@,
                match body {
                    Some(bytes) => Some(bytes@),
                    None => None,
                },
            ),
    {
        match body {
            Some(bytes) => Publisher {
                exchange: exchange.to_owned(),
                body: bytes,
                phase: PublishPhase::Acquiring,
            },
            None => Publisher {
                exchange: exchange.to_owned(),
                body: Vec::new(),
                phase: PublishPhase::Finished(Err(PublishError::Encoding)),
            },
        }
    }

    /// A publisher for `event` on `exchange`.
    pub fn new(exchange: &str, event: &ViewEvent) -> (fresh: Publisher)
        ensures
            fresh@ == PublisherView::initial(exchange@, event@),
    {
        Self::with_body(exchange, event.encode())
    }

    /// The command the driver is to perform now.
    pub fn command(&self) -> (cmd: Command)
        ensures
            cmd@ == self@.command(),
            cmd@.uses_channel() ==> self@.phase.holds_guard(),
            cmd@ is Stop || cmd@ is Acquire ==> !self@.phase.holds_guard(),
    {
        match self.phase {
            PublishPhase::Acquiring => Command::Acquire,
            PublishPhase::Checking => Command::DeclareExchange(
                publisher_check(self.exchange.as_str()),
            ),
            PublishPhase::Publishing => Command::Publish(
                Publish {
                    exchange: self.exchange.clone(),
                    routing_key: String::new(),
                    mandatory: false,
                    immediate: false,
                    body: self.body.clone(),
                },
            ),
            PublishPhase::Confirming => Command::AwaitConfirm,
            PublishPhase::Releasing(_) => Command::Release,
            PublishPhase::Finished(_) => Command::Stop,
        }
    }

    fn with_phase(self, phase: PublishPhase) -> (next: Publisher)
        ensures
            next@ == self@.with_phase(phase),
    {
        Publisher { exchange: self.exchange, body: self.body, phase }
    }

    /// Takes the reply to the outstanding command.
    pub fn advance(self, reply: Reply) -> (next: Publisher)
        ensures
            next@ == self@.advance(reply@),
    {
        match self.phase {
            PublishPhase::Acquiring => match reply {
                Reply::Done => self.with_phase(PublishPhase::Checking),
                _ => self.with_phase(PublishPhase::Finished(Err(PublishError::Unexpected))),
            },
            PublishPhase::Checking => match reply {
                Reply::Done => self.with_phase(PublishPhase::Publishing),
                Reply::Failed(f) => if f.not_found() {
                    self.with_phase(PublishPhase::Releasing(Err(PublishError::NoSuchExchange)))
                } else {
                    self.with_phase(PublishPhase::Releasing(Err(PublishError::Check(f))))
                },
                _ => self.with_phase(PublishPhase::Releasing(Err(PublishError::Unexpected))),
            },
            PublishPhase::Publishing => match reply {
                Reply::Done => self.with_phase(PublishPhase::Confirming),
                Reply::Failed(f) => self.with_phase(
                    PublishPhase::Releasing(Err(PublishError::Publish(f))),
                ),
                _ => self.with_phase(PublishPhase::Releasing(Err(PublishError::Unexpected))),
            },
            PublishPhase::Confirming => match reply {
                Reply::Done => self.with_phase(PublishPhase::Releasing(Ok(()))),
                Reply::Failed(f) => self.with_phase(
                    PublishPhase::Releasing(Err(PublishError::Confirm(f))),
                ),
                _ => self.with_phase(PublishPhase::Releasing(Err(PublishError::Unexpected))),
            },
            PublishPhase::Releasing(outcome) => self.with_phase(PublishPhase::Finished(outcome)),
            PublishPhase::Finished(_) => self,
        }
    }

    /// How the attempt ended, once it has.
    pub fn outcome(&self) -> (ended: Option<Result<(), PublishError>>)
        ensures
            ended == self@.outcome(),
    {
        match self.phase {
            PublishPhase::Finished(r) => Some(r),
            _ => None,
        }
    }
}

/// The guard is held exactly while the channel is written to: the check, the
/// publish and the wait for the broker's answer happen under one hold of the
/// guard, which is gained only by an `Acquire` that went through and given
/// up by the `Release` that precedes every ending but those without a hold.
pub proof fn lemma_guard_discipline(p: PublisherView, reply: ReplyView)
    ensures
        p.command().uses_channel() ==> p.phase.holds_guard(),
        p.command() is Stop || p.command() is Acquire ==> !p.phase.holds_guard(),
        p.command() is Release <==> p.phase.holds_guard() && !p.command().uses_channel(),
        p.command() is Release ==> !p.advance(reply).phase.holds_guard(),
        !p.phase.holds_guard() && p.advance(reply).phase.holds_guard() ==> p.command() is Acquire
            && reply is Done,
        p.phase.holds_guard() && !p.advance(reply).phase.holds_guard() ==> p.command() is Release,
        p.phase.holds_guard() && p.advance(reply).phase.holds_guard() ==> p.command().uses_channel(),
{
}

/// Every reply brings the attempt nearer to its end: it is over after five
/// replies at most, and no command is issued a second time.
pub proof fn lemma_every_reply_nears_the_end(p: PublisherView, reply: ReplyView)
    ensures
        p.outcome() is None ==> p.advance(reply).phase.remaining() < p.phase.remaining(),
        p.outcome() is Some ==> p.advance(reply) == p && p.command() == CommandView::Stop,
        p.phase.remaining() <= 5,
{
}

/// Where the exchange is missing, the attempt fails with `NoSuchExchange`:
/// the publisher takes the guard, learns from the passive check that there is
/// no such exchange, gives the guard back and stops.  Nothing is published.
pub proof fn lemma_missing_exchange_fails_the_publish(exchange: Seq<char>, path: Seq<char>)
    requires
        view_event_body(path) is Some,
    ensures
        ({
            let start = PublisherView::initial(exchange, path);
            let checking = start.advance(ReplyView::Done);
            let releasing = checking.advance(
                ReplyView::Failed(BrokerFailure::Refused { code: crate::protocol::NOT_FOUND }),
            );
            let over = releasing.advance(ReplyView::Done);
            &&& start.command() == CommandView::Acquire
            &&& checking.command() == CommandView::DeclareExchange(publisher_check_view(exchange))
            &&& releasing.command() == CommandView::Release
            &&& over.command() == CommandView::Stop
            &&& over.outcome() == Some(Err::<(), PublishError>(PublishError::NoSuchExchange))
        }),
{
}

/// Where every round trip goes through, the event is published once: the
/// passive check comes first, then the encoded event goes to the exchange
/// with an empty routing key, then the broker's answer is awaited, all under
/// one hold of the guard.
pub proof fn lemma_publish_goes_through(exchange: Seq<char>, path: Seq<char>)
    requires
        view_event_body(path) is Some,
    ensures
        ({
            let start = PublisherView::initial(exchange, path);
            let checking = start.advance(ReplyView::Done);
            let publishing = checking.advance(ReplyView::Done);
            let confirming = publishing.advance(ReplyView::Done);
            let releasing = confirming.advance(ReplyView::Done);
            let over = releasing.advance(ReplyView::Done);
            &&& start.command() == CommandView::Acquire
            &&& checking.command() == CommandView::DeclareExchange(publisher_check_view(exchange))
            &&& publishing.command() == CommandView::Publish(
                PublishView {
                    exchange,
                    routing_key: Seq::<char>::empty(),
                    mandatory: false,
                    immediate: false,
                    body: view_event_body(path)->0,
                },
            )
            &&& confirming.command() == CommandView::AwaitConfirm
            &&& releasing.command() == CommandView::Release
            &&& over.command() == CommandView::Stop
            &&& over.outcome() == Some(Ok::<(), PublishError>(()))
        }),
{
}

/// The message goes out only after the check has gone through, and the
/// attempt ends well only after the broker has answered the publish.
pub proof fn lemma_publish_follows_the_check(p: PublisherView, reply: ReplyView)
    ensures
        !(p.phase is Publishing) && p.advance(reply).phase is Publishing ==> p.phase is Checking
            && reply is Done,
        p.advance(reply).phase == PublishPhase::Releasing(Ok(())) && p.phase != PublishPhase::Releasing(
            Ok(()),
        ) ==> p.phase is Confirming && reply is Done,
        p.advance(reply).outcome() == Some(Ok::<(), PublishError>(())) && p.outcome() is None
            ==> p.phase == PublishPhase::Releasing(Ok(())),
{
}

} // verus!
