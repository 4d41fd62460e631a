//! Many services on one broker.
//!
//! Subscribers come up, publishers publish and consumers work off their
//! queues at the same time, each a machine of its own, and their commands
//! reach the broker in whatever order they happen to.  No command takes
//! anything away from the topology, so what one service has built stays
//! built whatever the others do: every subscriber that has come up keeps a
//! queue that is its own and bound to its exchange, and a publish reaches
//! every one of them.

use vstd::prelude::*;
use crate::bootstrap::BootstrapPhaseView;
use crate::broker::{lemma_declared_queue_is_new, BrokerView};
use crate::guard::TaskView;
use crate::pipeline::WorldView;
use crate::protocol::{viewed_exchange_attrs, CommandView, ExchangeKind, PublishView};

verus! {

/// One service: its machine, the connection it talks over and the queue its
/// consumer works on.
pub struct MemberView {
    pub task: TaskView,
    pub connection: nat,
    pub queue: Seq<char>,
}

impl MemberView {
    /// The queue a subscriber has been given, once the broker has named it.
    pub open spec fn queue_in_hand(self) -> Option<Seq<char>> {
        match self.task {
            TaskView::Bootstrap(machine) => match machine.phase {
                BootstrapPhaseView::Binding { queue } => Some(queue),
                BootstrapPhaseView::Releasing(Ok(queue)) => Some(queue),
                BootstrapPhaseView::Finished(Ok(queue)) => Some(queue),
                _ => None,
            },
            _ => None,
        }
    }

    /// The exchange of a subscriber that declares its exchange itself, once
    /// the declaration has gone through.
    pub open spec fn exchange_declared(self) -> Option<Seq<char>> {
        match self.task {
            TaskView::Bootstrap(machine) => if !machine.declares_exchange {
                None
            } else {
                match machine.phase {
                    BootstrapPhaseView::DeclaringQueue => Some(machine.exchange),
                    BootstrapPhaseView::Binding { .. } => Some(machine.exchange),
                    BootstrapPhaseView::Releasing(Ok(_)) => Some(machine.exchange),
                    BootstrapPhaseView::Finished(Ok(_)) => Some(machine.exchange),
                    _ => None,
                }
            },
            _ => None,
        }
    }

    /// The queue and the exchange of a subscriber that has bound its queue.
    pub open spec fn subscription(self) -> Option<(Seq<char>, Seq<char>)> {
        match self.task {
            TaskView::Bootstrap(machine) => match machine.phase {
                BootstrapPhaseView::Releasing(Ok(queue)) => Some((queue, machine.exchange)),
                BootstrapPhaseView::Finished(Ok(queue)) => Some((queue, machine.exchange)),
                _ => None,
            },
            _ => None,
        }
    }
}

/// The services and the collaborators they share.
pub struct ClusterView {
    pub world: WorldView,
    pub members: Seq<MemberView>,
}

impl ClusterView {
    /// The cluster after member `i` had its outstanding command performed
    /// and took the reply.
    pub open spec fn step(self, i: int) -> ClusterView {
        let member = self.members[i];
        let (world, reply) = self.world.performed(
            member.connection,
            member.queue,
            member.task.command(),
        );
        ClusterView {
            world,
            members: self.members.update(
                i,
                MemberView { task: member.task.advance(reply), ..member },
            ),
        }
    }

    /// Every subscriber finds the exchange it has declared, as it declared
    /// it; its queue is there and belongs to its connection; the queues of
    /// different subscribers differ; and a subscriber that has bound its
    /// queue finds it bound to its exchange, which is there.
    pub open spec fn in_order(self) -> bool {
        let broker = self.world.broker;
        &&& broker.well_formed()
        &&& forall|i: int|
            0 <= i < self.members.len() ==> has_its_exchange(#[trigger] self.members[i], broker)
        &&& forall|i: int|
            0 <= i < self.members.len() ==> has_its_queue(#[trigger] self.members[i], broker)
        &&& forall|i: int, j: int|
            0 <= i < self.members.len() && 0 <= j < self.members.len() && i != j && (
            #[trigger] self.members[i]).queue_in_hand() is Some && (
            #[trigger] self.members[j]).queue_in_hand() is Some
                ==> self.members[i].queue_in_hand() != self.members[j].queue_in_hand()
        &&& forall|i: int|
            0 <= i < self.members.len() ==> is_subscribed(#[trigger] self.members[i], broker)
    }
}

/// The exchange a subscriber has declared is there, as a subscriber
/// declares it.
pub open spec fn has_its_exchange(member: MemberView, broker: BrokerView) -> bool {
    match member.exchange_declared() {
        Some(exchange) => broker.exchanges.contains_key(exchange) && broker.exchanges[exchange]
            == viewed_exchange_attrs(),
        None => true,
    }
}

/// The queue a subscriber has been given is there and belongs to its
/// connection.
pub open spec fn has_its_queue(member: MemberView, broker: BrokerView) -> bool {
    match member.queue_in_hand() {
        Some(queue) => broker.queues.contains_key(queue) && broker.queues[queue].owner
            == member.connection,
        None => true,
    }
}

/// The queue a subscriber has bound is bound to its exchange, and the
/// exchange is there.
pub open spec fn is_subscribed(member: MemberView, broker: BrokerView) -> bool {
    match member.subscription() {
        Some((queue, exchange)) => broker.queues[queue].bound.contains(exchange)
            && broker.exchanges.contains_key(exchange),
        None => true,
    }
}

/// What is built stays built: `after` has every exchange of `before` with
/// the same properties, and every queue of `before` with the same owner and
/// at least the same bindings.
pub open spec fn grown(before: BrokerView, after: BrokerView) -> bool {
    &&& forall|name: Seq<char>| #[trigger]
        before.exchanges.contains_key(name) ==> after.exchanges.contains_key(name)
            && after.exchanges[name] == before.exchanges[name]
    &&& forall|name: Seq<char>| #[trigger]
        before.queues.contains_key(name) ==> after.queues.contains_key(name)
            && after.queues[name].owner == before.queues[name].owner
            && after.queues[name].serial == before.queues[name].serial
            && before.queues[name].bound.subset_of(after.queues[name].bound)
}

/// No command takes anything away from the topology, whoever sends it.
pub proof fn lemma_commands_only_add_to_the_topology(
    world: WorldView,
    connection: nat,
    queue: Seq<char>,
    command: CommandView,
)
    requires
        world.broker.well_formed(),
    ensures
        grown(world.broker, world.performed(connection, queue, command).0.broker),
        world.performed(connection, queue, command).0.broker.well_formed(),
{
    match command {
        CommandView::DeclareQueue(declare) => {
            if world.broker.declare_queue(connection, declare).1 is Ok {
                lemma_declared_queue_is_new(world.broker, connection, declare);
            }
        },
        _ => {},
    }
}

/// A cluster in good order stays in good order, whichever member takes the
/// next step.
pub proof fn lemma_steps_keep_the_cluster_in_order(cluster: ClusterView, i: int)
    requires
        cluster.in_order(),
        0 <= i < cluster.members.len(),
    ensures
        cluster.step(i).in_order(),
{
    let member = cluster.members[i];
    let command = member.task.command();
    lemma_commands_only_add_to_the_topology(
        cluster.world,
        member.connection,
        member.queue,
        command,
    );
    if let CommandView::DeclareQueue(declare) = command {
        if cluster.world.broker.declare_queue(member.connection, declare).1 is Ok {
            lemma_declared_queue_is_new(cluster.world.broker, member.connection, declare);
        }
    }
}

/// A cluster whose subscribers have not been given a queue yet and have
/// declared nothing is in good order on any well-formed broker.
pub proof fn lemma_fresh_cluster_is_in_order(cluster: ClusterView)
    requires
        cluster.world.broker.well_formed(),
        forall|i: int|
            0 <= i < cluster.members.len() ==> (#[trigger] cluster.members[i]).exchange_declared() is None
                && cluster.members[i].queue_in_hand() is None,
    ensures
        cluster.in_order(),
{
}

/// In a cluster in good order every subscriber that has come up has a queue
/// of its own and an exchange that is there, and a message published to its
/// exchange waits in that queue afterwards, once and as the newest there,
/// however many subscribers there are.  That the exchange is a fanout
/// exchange follows for a subscriber that declared it itself; of one that
/// only declared and bound its queue it has to be known.
pub proof fn lemma_every_subscriber_gets_what_is_published(
    cluster: ClusterView,
    i: int,
    j: int,
    queue: Seq<char>,
    other_queue: Seq<char>,
    other_exchange: Seq<char>,
    message: PublishView,
)
    requires
        cluster.in_order(),
        0 <= i < cluster.members.len(),
        0 <= j < cluster.members.len(),
        i != j,
        cluster.members[i].subscription() == Some((queue, message.exchange)),
        cluster.members[j].subscription() == Some((other_queue, other_exchange)),
        cluster.members[i].exchange_declared() is Some
            || cluster.world.broker.exchanges[message.exchange].kind == ExchangeKind::Fanout,
    ensures
        queue != other_queue,
        cluster.world.broker.exchanges.contains_key(message.exchange),
        cluster.world.broker.exchanges[message.exchange].kind == ExchangeKind::Fanout,
        ({
            let (after, outcome) = cluster.world.broker.publish(message);
            &&& outcome is Ok
            &&& after.queues.contains_key(queue)
            &&& after.queues[queue].pending == cluster.world.broker.queues[queue].pending.push(
                message.body,
            )
            &&& after.queues.contains_key(other_queue)
            &&& other_exchange == message.exchange ==> after.queues[other_queue].pending
                == cluster.world.broker.queues[other_queue].pending.push(message.body)
        }),
{
}

} // verus!
