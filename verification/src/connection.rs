//! Reaching the broker.
//!
//! One connection is opened to the broker's address, then one channel on
//! that connection.  A failure is handed to the caller as it is: nothing is
//! tried twice.

use vstd::prelude::*;
use crate::protocol::{BrokerFailure, Command, CommandView, Reply, ReplyView};

verus! {

/// Why no channel could be had.
#[derive(Clone, Copy, Debug, PartialEq, Eq, Structural)]
pub enum ConnectionError {
    /// The connection could not be opened.
    Connect(BrokerFailure),
    /// The channel could not be opened on the connection.
    Channel(BrokerFailure),
    /// The driver answered with a reply that the command cannot have.
    Unexpected,
}

/// Where a connection attempt stands.  Each phase has one command
/// outstanding.
#[derive(Clone, Copy, Debug, PartialEq, Eq)]
pub enum ConnectPhase {
    Connecting,
    OpeningChannel,
    Finished(Result<(), ConnectionError>),
}

/// One attempt to open a channel to the broker.
#[derive(Debug, PartialEq, Eq)]
pub struct Connector {
    pub address: String,
    pub phase: ConnectPhase,
}

/// `Connector`, with its texts as sequences.
pub struct ConnectorView {
    pub address: Seq<char>,
    pub phase: ConnectPhase,
}

impl View for Connector {
    type V = ConnectorView;

    open spec fn view(&self) -> ConnectorView {
        ConnectorView { address: self.address@, phase: self.phase }
    }
}

impl ConnectorView {
    /// An attempt that has done nothing yet.
    pub open spec fn initial(address: Seq<char>) -> ConnectorView {
        ConnectorView { address, phase: ConnectPhase::Connecting }
    }

    pub open spec fn with_phase(self, phase: ConnectPhase) -> ConnectorView {
        ConnectorView { address: self.address, phase }
    }

    /// The command outstanding in the current phase.
    pub open spec fn command(self) -> CommandView {
        match self.phase {
            ConnectPhase::Connecting => CommandView::Connect { address: self.address },
            ConnectPhase::OpeningChannel => CommandView::OpenChannel,
            ConnectPhase::Finished(_) => CommandView::Stop,
        }
    }

    /// The attempt after the reply to its outstanding command.
    pub open spec fn advance(self, reply: ReplyView) -> ConnectorView {
        match self.phase {
            ConnectPhase::Connecting => match reply {
                ReplyView::Done => self.with_phase(ConnectPhase::OpeningChannel),
                ReplyView::Failed(f) => self.with_phase(
                    ConnectPhase::Finished(Err(ConnectionError::Connect(f))),
                ),
                _ => self.with_phase(ConnectPhase::Finished(Err(ConnectionError::Unexpected))),
            },
            ConnectPhase::OpeningChannel => match reply {
                ReplyView::Done => self.with_phase(ConnectPhase::Finished(Ok(()))),
                ReplyView::Failed(f) => self.with_phase(
                    ConnectPhase::Finished(Err(ConnectionError::Channel(f))),
                ),
                _ => self.with_phase(ConnectPhase::Finished(Err(ConnectionError::Unexpected))),
            },
            ConnectPhase::Finished(_) => self,
        }
    }

    /// How the attempt ended, once it has.
    pub open spec fn outcome(self) -> Option<Result<(), ConnectionError>> {
        match self.phase {
            ConnectPhase::Finished(r) => Some(r),
            _ => None,
        }
    }
}

impl Connector {
    /// An attempt to reach the broker at `address`.
    pub fn new(address: &str) -> (fresh: Connector)
        ensures
            fresh@ == ConnectorView::initial(address@),
    {
        Connector { address: address.to_owned(), phase: ConnectPhase::Connecting }
    }

    /// The command the driver is to perform now.
    pub fn command(&self) -> (cmd: Command)
        ensures
            cmd@ == self@.command(),
    {
        match self.phase {
            ConnectPhase::Connecting => Command::Connect { address: self.address.clone() },
            ConnectPhase::OpeningChannel => Command::OpenChannel,
            ConnectPhase::Finished(_) => Command::Stop,
        }
    }

    /// Takes the reply to the outstanding command.
    pub fn advance(self, reply: Reply) -> (next: Connector)
        ensures
            next@ == self@.advance(reply@),
    {
        let phase = match self.phase {
            ConnectPhase::Connecting => match reply {
                Reply::Done => ConnectPhase::OpeningChannel,
                Reply::Failed(f) => ConnectPhase::Finished(Err(ConnectionError::Connect(f))),
                _ => ConnectPhase::Finished(Err(ConnectionError::Unexpected)),
            },
            ConnectPhase::OpeningChannel => match reply {
                Reply::Done => ConnectPhase::Finished(Ok(())),
                Reply::Failed(f) => ConnectPhase::Finished(Err(ConnectionError::Channel(f))),
                _ => ConnectPhase::Finished(Err(ConnectionError::Unexpected)),
            },
            ConnectPhase::Finished(r) => ConnectPhase::Finished(r),
        };
        Connector { address: self.address, phase }
    }

    /// How the attempt ended, once it has.
    pub fn outcome(&self) -> (ended: Option<Result<(), ConnectionError>>)
        ensures
            ended == self@.outcome(),
    {
        match self.phase {
            ConnectPhase::Finished(r) => Some(r),
            _ => None,
        }
    }
}

/// A channel is had exactly when the connection and then the channel were
/// opened; the first failure ends the attempt with that failure, and each of
/// the two is tried once.
pub proof fn lemma_connect_once(address: Seq<char>, first: ReplyView, second: ReplyView)
    ensures
        ({
            let start = ConnectorView::initial(address);
            let after_first = start.advance(first);
            let after_second = after_first.advance(second);
            &&& start.command() == (CommandView::Connect { address })
            &&& first is Done ==> after_first.command() == CommandView::OpenChannel
            &&& !(first is Done) ==> after_first.command() == CommandView::Stop
            &&& first matches ReplyView::Failed(f) ==> after_first.outcome() == Some(
                Err::<(), ConnectionError>(ConnectionError::Connect(f)),
            )
            &&& after_second.command() == CommandView::Stop
            &&& (after_second.outcome() == Some(Ok::<(), ConnectionError>(())) <==> first is Done
                && second is Done)
            &&& first is Done ==> (second matches ReplyView::Failed(f) ==> after_second.outcome()
                == Some(Err::<(), ConnectionError>(ConnectionError::Channel(f))))
        }),
{
}

} // verus!
