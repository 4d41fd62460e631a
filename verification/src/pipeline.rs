//! The pipeline from end to end.
//!
//! Here the machines are driven against the reference broker and a record
//! store in memory, command by command, as a service drives them against the
//! real collaborators.  What a whole run comes to is stated outright, as a
//! composition of steps of the model, and proved of the driver.

use vstd::prelude::*;
use crate::bootstrap::{outcome_view, Bootstrap, BootstrapError, BootstrapPhaseView, BootstrapView};
use crate::broker::{
    lemma_declared_queue_is_new, refused, serial_limit, Broker, BrokerView, QueueView,
};
use crate::consumer::{ConsumerError, ConsumerLoop, ConsumerLoopView, ConsumerPhaseView};
use crate::event::{decoded_body, lemma_bodies_are_sound, view_event_body, DecodedView, ViewEvent};
use crate::json::json_text_members;
use crate::names::{generated_name, lemma_generated_names_differ};
use crate::protocol::{
    viewed_exchange_attrs, BrokerFailure, Command, CommandView, ConsumeView, ExchangeAttrs,
    ExchangeKind, PublishView, Reply, ReplyView, NOT_FOUND, NOT_IMPLEMENTED, PRECONDITION_FAILED,
};
use crate::publisher::{check_error, PublishError, PublishPhase, Publisher, PublisherView};
use crate::store::{RecordStore, RecordStoreView};
use crate::topology::{
    publisher_check_view, subscriber_binding_view, subscriber_exchange_view, subscriber_queue_view,
};

verus! {

/// The collaborators of the pipeline, held in memory.
pub struct World {
    pub broker: Broker,
    pub store: RecordStore,
}

/// The collaborators, each as its model.
#[verifier::ext_equal]
pub struct WorldView {
    pub broker: BrokerView,
    pub store: RecordStoreView,
}

impl View for World {
    type V = WorldView;

    open spec fn view(&self) -> WorldView {
        WorldView { broker: self.broker@, store: self.store@ }
    }
}

/// The reply that tells how a round trip went.
pub open spec fn round_trip(outcome: Result<(), BrokerFailure>) -> ReplyView {
    match outcome {
        Ok(()) => ReplyView::Done,
        Err(f) => ReplyView::Failed(f),
    }
}

impl WorldView {
    pub open spec fn with_broker(self, broker: BrokerView) -> WorldView {
        WorldView { broker, store: self.store }
    }

    /// What the collaborators make of a command that comes over
    /// `connection` from the consumer of `queue`, and what they answer.  The
    /// guard is always free, the broker always answers a publish, and the
    /// delivery stream ends as soon as nothing waits in the queue.
    pub open spec fn performed(self, connection: nat, queue: Seq<char>, command: CommandView) -> (
        WorldView,
        ReplyView,
    ) {
        match command {
            CommandView::DeclareExchange(declare) => {
                let (broker, outcome) = self.broker.declare_exchange(declare);
                (self.with_broker(broker), round_trip(outcome))
            },
            CommandView::DeclareQueue(declare) => {
                let (broker, outcome) = self.broker.declare_queue(connection, declare);
                (
                    self.with_broker(broker),
                    match outcome {
                        Ok(name) => ReplyView::QueueDeclared { queue: name },
                        Err(f) => ReplyView::Failed(f),
                    },
                )
            },
            CommandView::BindQueue(bind) => {
                let (broker, outcome) = self.broker.bind_queue(connection, bind);
                (self.with_broker(broker), round_trip(outcome))
            },
            CommandView::Consume(consume) => {
                let (broker, outcome) = self.broker.consume(connection, consume);
                (self.with_broker(broker), round_trip(outcome))
            },
            CommandView::Publish(message) => {
                let (broker, outcome) = self.broker.publish(message);
                (self.with_broker(broker), round_trip(outcome))
            },
            CommandView::Receive => {
                let (broker, delivery) = self.broker.deliver(queue);
                (
                    self.with_broker(broker),
                    match delivery {
                        Some(body) => ReplyView::Delivery { body },
                        None => ReplyView::EndOfStream,
                    },
                )
            },
            CommandView::Record { video_path } => {
                let (store, outcome) = self.store.insert(video_path);
                (
                    WorldView { broker: self.broker, store },
                    match outcome {
                        Ok(()) => ReplyView::Done,
                        Err(_) => ReplyView::SinkFailed,
                    },
                )
            },
            CommandView::Ack { multiple } => if multiple {
                (self, ReplyView::Failed(refused(NOT_IMPLEMENTED)))
            } else {
                let (broker, outcome) = self.broker.acknowledge(queue);
                (self.with_broker(broker), round_trip(outcome))
            },
            CommandView::Reject { multiple, requeue } => if multiple {
                (self, ReplyView::Failed(refused(NOT_IMPLEMENTED)))
            } else {
                let (broker, outcome) = self.broker.reject(queue, requeue);
                (self.with_broker(broker), round_trip(outcome))
            },
            _ => (self, ReplyView::Done),
        }
    }
}

/// What declaring a subscriber's queue over `connection` and binding it to
/// `exchange` comes to: a queue is declared, then bound; the first step that
/// fails ends it, with the broker as that step left it.
pub open spec fn queue_bound(b: BrokerView, connection: nat, exchange: Seq<char>) -> (
    BrokerView,
    Result<Seq<char>, BootstrapError>,
) {
    let (named, first) = b.declare_queue(connection, subscriber_queue_view());
    match first {
        Err(f) => (named, Err(BootstrapError::Queue(f))),
        Ok(queue) => {
            let (bound, second) = named.bind_queue(
                connection,
                subscriber_binding_view(queue, exchange),
            );
            match second {
                Err(f) => (bound, Err(BootstrapError::Bind(f))),
                Ok(()) => (bound, Ok(queue)),
            }
        },
    }
}

/// What bringing up a subscriber of `exchange` over `connection` comes to:
/// the exchange is declared, then a queue is declared and bound; the first
/// step that fails ends it, with the broker as that step left it.
pub open spec fn bootstrapped(b: BrokerView, connection: nat, exchange: Seq<char>) -> (
    BrokerView,
    Result<Seq<char>, BootstrapError>,
) {
    let (declared, first) = b.declare_exchange(subscriber_exchange_view(exchange));
    match first {
        Err(f) => (declared, Err(BootstrapError::Exchange(f))),
        Ok(()) => queue_bound(declared, connection, exchange),
    }
}

/// Whether nothing stands in the way of a subscriber of `exchange`: the
/// exchange is not there yet or is there as a subscriber declares it, and
/// the broker has a serial number left for the queue.
pub open spec fn subscriber_can_come_up(b: BrokerView, exchange: Seq<char>) -> bool {
    &&& b.next_queue < serial_limit()
    &&& b.exchanges.contains_key(exchange) ==> b.exchanges[exchange] == viewed_exchange_attrs()
}

/// What publishing an event with this path to `exchange` comes to: the
/// exchange is checked, then the encoded event is published; the first step
/// that fails ends it.
pub open spec fn published(b: BrokerView, exchange: Seq<char>, path: Seq<char>) -> (
    BrokerView,
    Result<(), PublishError>,
) {
    match view_event_body(path) {
        None => (b, Err(PublishError::Encoding)),
        Some(body) => {
            let (checked, first) = b.declare_exchange(publisher_check_view(exchange));
            match first {
                Err(f) => (checked, Err(check_error(f))),
                Ok(()) => {
                    let (sent, second) = checked.publish(
                        PublishView {
                            exchange,
                            routing_key: Seq::<char>::empty(),
                            mandatory: false,
                            immediate: false,
                            body,
                        },
                    );
                    match second {
                        Err(f) => (sent, Err(PublishError::Publish(f))),
                        Ok(()) => (sent, Ok(())),
                    }
                },
            }
        },
    }
}

/// What working off a queue comes to, given the store: the deliveries are
/// taken oldest first; a body that decodes is stored and acknowledged, a
/// body that does not is rejected and dropped, and the next one is taken.
/// When the store fails, the delivery in hand stays unsettled and the rest
/// stays in the queue.
pub open spec fn drained(queue: QueueView, store: RecordStoreView) -> (
    QueueView,
    RecordStoreView,
    Result<(), ConsumerError>,
)
    decreases queue.pending.len(),
{
    if queue.pending.len() == 0 {
        (queue, store, Ok(()))
    } else {
        let body = queue.pending[0];
        let rest = QueueView { pending: queue.pending.drop_first(), ..queue };
        match decoded_body(json_text_members(body)) {
            DecodedView::Event { video_path } => {
                let (stored, outcome) = store.insert(video_path);
                if outcome is Ok {
                    drained(rest, stored)
                } else {
                    (
                        QueueView { unacked: queue.unacked.push(body), ..rest },
                        store,
                        Err(ConsumerError::Sink),
                    )
                }
            },
            _ => drained(rest, store),
        }
    }
}

/// The registration a consumer loop asks for.
pub open spec fn registration(queue: Seq<char>, consumer_tag: Seq<char>) -> ConsumeView {
    ConsumerLoopView::initial(queue, consumer_tag).registration()
}

impl WorldView {
    /// The world with `queue` worked off.
    pub open spec fn drain(self, queue: Seq<char>) -> (WorldView, Result<(), ConsumerError>) {
        let (left, store, outcome) = drained(self.broker.queues[queue], self.store);
        (
            WorldView {
                broker: BrokerView { queues: self.broker.queues.insert(queue, left), ..self.broker },
                store,
            },
            outcome,
        )
    }

    /// The world with the newest unsettled delivery of `queue` settled.
    pub open spec fn settle(self, queue: Seq<char>) -> WorldView {
        let state = self.broker.queues[queue];
        WorldView {
            broker: BrokerView {
                queues: self.broker.queues.insert(
                    queue,
                    QueueView { unacked: state.unacked.drop_last(), ..state },
                ),
                ..self.broker
            },
            store: self.store,
        }
    }
}

/// What running a consumer loop on `queue` over `connection` comes to, until
/// the queue is worked off: the consumer registers, and where that goes
/// through, the queue is worked off.
pub open spec fn consumed(
    w: WorldView,
    connection: nat,
    queue: Seq<char>,
    consumer_tag: Seq<char>,
) -> (WorldView, Result<(), ConsumerError>) {
    let (registered, outcome) = w.broker.consume(connection, registration(queue, consumer_tag));
    match outcome {
        Err(f) => (w, Err(ConsumerError::Register(f))),
        Ok(()) => w.with_broker(registered).drain(queue),
    }
}

/// The paths of the bodies that decode, in the order of the bodies.
pub open spec fn decoded_paths(bodies: Seq<Seq<u8>>) -> Seq<Seq<char>>
    decreases bodies.len(),
{
    if bodies.len() == 0 {
        Seq::empty()
    } else {
        match decoded_body(json_text_members(bodies[0])) {
            DecodedView::Event { video_path } => seq![video_path] + decoded_paths(
                bodies.drop_first(),
            ),
            _ => decoded_paths(bodies.drop_first()),
        }
    }
}

fn round_trip_reply(outcome: Result<(), BrokerFailure>) -> (reply: Reply)
    ensures
        reply@ == round_trip(outcome),
{
    match outcome {
        Ok(()) => Reply::Done,
        Err(f) => Reply::Failed(f),
    }
}

impl World {
    /// A world with an empty broker and an empty store with room for
    /// `capacity` records.
    pub fn new(capacity: usize) -> (world: World)
        ensures
            world.broker.wf(),
            world@.broker == BrokerView::empty(),
            world@.store == RecordStoreView::empty(capacity as nat),
    {
        World { broker: Broker::new(), store: RecordStore::new(capacity) }
    }

    /// Performs a command that comes over `connection` from the consumer of
    /// `queue`.
    pub fn perform(&mut self, connection: u64, queue: &String, command: &Command) -> (reply: Reply)
        requires
            old(self).broker.wf(),
        ensures
            final(self).broker.wf(),
            (final(self)@, reply@) == old(self)@.performed(connection as nat, queue@, command@),
    {
        match command {
            Command::DeclareExchange(declare) => round_trip_reply(
                self.broker.declare_exchange(declare),
            ),
            Command::DeclareQueue(declare) => match self.broker.declare_queue(connection, declare) {
                Ok(name) => Reply::QueueDeclared { queue: name },
                Err(f) => Reply::Failed(f),
            },
            Command::BindQueue(bind) => round_trip_reply(self.broker.bind_queue(connection, bind)),
            Command::Consume(consume) => round_trip_reply(self.broker.consume(connection, consume)),
            Command::Publish(message) => round_trip_reply(self.broker.publish(message)),
            Command::Receive => match self.broker.deliver(queue) {
                Some(body) => Reply::Delivery { body },
                None => Reply::EndOfStream,
            },
            Command::Record { video_path } => match self.store.insert(video_path.as_str()) {
                Ok(()) => Reply::Done,
                Err(_) => Reply::SinkFailed,
            },
            Command::Ack { multiple } => if *multiple {
                Reply::Failed(BrokerFailure::Refused { code: NOT_IMPLEMENTED })
            } else {
                round_trip_reply(self.broker.acknowledge(queue))
            },
            Command::Reject { multiple, requeue } => if *multiple {
                Reply::Failed(BrokerFailure::Refused { code: NOT_IMPLEMENTED })
            } else {
                round_trip_reply(self.broker.reject(queue, *requeue))
            },
            _ => Reply::Done,
        }
    }
}

/// Where a bootstrap under way is bound to end, given the broker as it is
/// now.
spec fn bootstrap_outlook(machine: BootstrapView, b: BrokerView, connection: nat) -> (
    BrokerView,
    Result<Seq<char>, BootstrapError>,
) {
    match machine.phase {
        BootstrapPhaseView::Acquiring => if machine.declares_exchange {
            bootstrapped(b, connection, machine.exchange)
        } else {
            queue_bound(b, connection, machine.exchange)
        },
        BootstrapPhaseView::DeclaringExchange => bootstrapped(b, connection, machine.exchange),
        BootstrapPhaseView::DeclaringQueue => queue_bound(b, connection, machine.exchange),
        BootstrapPhaseView::Binding { queue } => {
            let (bound, third) = b.bind_queue(
                connection,
                subscriber_binding_view(queue, machine.exchange),
            );
            match third {
                Err(f) => (bound, Err(BootstrapError::Bind(f))),
                Ok(()) => (bound, Ok(queue)),
            }
        },
        BootstrapPhaseView::Releasing(outcome) => (b, outcome),
        BootstrapPhaseView::Finished(outcome) => (b, outcome),
    }
}

/// Where a publish under way is bound to end, given the broker as it is now.
spec fn publish_outlook(machine: PublisherView, b: BrokerView) -> (
    BrokerView,
    Result<(), PublishError>,
) {
    match machine.phase {
        PublishPhase::Acquiring | PublishPhase::Checking => {
            let (checked, first) = b.declare_exchange(publisher_check_view(machine.exchange));
            match first {
                Err(f) => (checked, Err(check_error(f))),
                Ok(()) => {
                    let (sent, second) = checked.publish(machine.message());
                    match second {
                        Err(f) => (sent, Err(PublishError::Publish(f))),
                        Ok(()) => (sent, Ok(())),
                    }
                },
            }
        },
        PublishPhase::Publishing => {
            let (sent, second) = b.publish(machine.message());
            match second {
                Err(f) => (sent, Err(PublishError::Publish(f))),
                Ok(()) => (sent, Ok(())),
            }
        },
        PublishPhase::Confirming => (b, Ok(())),
        PublishPhase::Releasing(outcome) => (b, outcome),
        PublishPhase::Finished(outcome) => (b, outcome),
    }
}

/// Whether the queue of a loop under way is as the phase of the loop needs
/// it: registered once the loop has registered, and with a delivery in hand
/// while the loop has one.
spec fn consumer_at_home(machine: ConsumerLoopView, w: WorldView) -> bool {
    let queues = w.broker.queues;
    let queue = machine.queue;
    match machine.phase {
        ConsumerPhaseView::Acquiring => true,
        ConsumerPhaseView::Registering => true,
        ConsumerPhaseView::Registered => queues.contains_key(queue) && queues[queue].consumer is Some,
        ConsumerPhaseView::Receiving => queues.contains_key(queue) && queues[queue].consumer is Some,
        ConsumerPhaseView::Settled => queues.contains_key(queue) && queues[queue].consumer is Some,
        ConsumerPhaseView::Recording { .. } => queues.contains_key(queue)
            && queues[queue].consumer is Some && queues[queue].unacked.len() > 0,
        ConsumerPhaseView::Claiming(_) => queues.contains_key(queue)
            && queues[queue].consumer is Some && queues[queue].unacked.len() > 0,
        ConsumerPhaseView::Settling(_) => queues.contains_key(queue)
            && queues[queue].consumer is Some && queues[queue].unacked.len() > 0,
        ConsumerPhaseView::Failing(_) => true,
        ConsumerPhaseView::Finished(_) => true,
    }
}

/// Where a consumer loop under way is bound to end, given the world as it
/// is now.
spec fn consumer_outlook(machine: ConsumerLoopView, w: WorldView, connection: nat) -> (
    WorldView,
    Result<(), ConsumerError>,
) {
    match machine.phase {
        ConsumerPhaseView::Acquiring => consumed(
            w,
            connection,
            machine.queue,
            machine.consumer_tag,
        ),
        ConsumerPhaseView::Registering => consumed(
            w,
            connection,
            machine.queue,
            machine.consumer_tag,
        ),
        ConsumerPhaseView::Registered => w.drain(machine.queue),
        ConsumerPhaseView::Receiving => w.drain(machine.queue),
        ConsumerPhaseView::Settled => w.drain(machine.queue),
        ConsumerPhaseView::Recording { video_path } => {
            let (stored, outcome) = w.store.insert(video_path);
            if outcome is Ok {
                WorldView { broker: w.broker, store: stored }.settle(machine.queue).drain(
                    machine.queue,
                )
            } else {
                (w, Err(ConsumerError::Sink))
            }
        },
        ConsumerPhaseView::Claiming(_) => w.settle(machine.queue).drain(machine.queue),
        ConsumerPhaseView::Settling(_) => w.settle(machine.queue).drain(machine.queue),
        ConsumerPhaseView::Failing(e) => (w, Err(e)),
        ConsumerPhaseView::Finished(outcome) => (w, outcome),
    }
}

/// How far a consumer loop is from its end or from its next delivery.
spec fn consumer_rank(phase: ConsumerPhaseView) -> nat {
    match phase {
        ConsumerPhaseView::Acquiring => 4,
        ConsumerPhaseView::Registering => 3,
        ConsumerPhaseView::Registered => 2,
        ConsumerPhaseView::Receiving => 1,
        ConsumerPhaseView::Recording { .. } => 5,
        ConsumerPhaseView::Claiming(_) => 4,
        ConsumerPhaseView::Settling(_) => 3,
        ConsumerPhaseView::Settled => 2,
        ConsumerPhaseView::Failing(_) => 1,
        ConsumerPhaseView::Finished(_) => 0,
    }
}

/// The number of messages that wait in a queue; none in a queue that does
/// not exist.
spec fn waiting(b: BrokerView, queue: Seq<char>) -> nat {
    if b.queues.contains_key(queue) {
        b.queues[queue].pending.len()
    } else {
        0
    }
}

proof fn lemma_consumer_step(machine: ConsumerLoopView, w: WorldView, connection: nat)
    requires
        machine.outcome() is None,
        consumer_at_home(machine, w),
    ensures
        ({
            let (after, reply) = w.performed(connection, machine.queue, machine.command());
            let next = machine.advance(reply);
            &&& consumer_at_home(next, after)
            &&& consumer_outlook(next, after, connection) == consumer_outlook(
                machine,
                w,
                connection,
            )
            &&& next.queue == machine.queue
            &&& next.consumer_tag == machine.consumer_tag
            &&& waiting(after.broker, machine.queue) < waiting(w.broker, machine.queue) || (waiting(
                after.broker,
                machine.queue,
            ) == waiting(w.broker, machine.queue) && consumer_rank(next.phase) < consumer_rank(
                machine.phase,
            ))
        }),
{
    let queue = machine.queue;
    if machine.phase is Receiving && w.broker.queues[queue].pending.len() > 0 {
        let state = w.broker.queues[queue];
        let after = w.performed(connection, queue, machine.command()).0;
        assert(after.settle(queue).broker.queues[queue] == (QueueView {
            pending: state.pending.drop_first(),
            ..state
        }));
    }
}

fn run_bootstrap(world: &mut World, connection: u64, start: Bootstrap) -> (outcome: Result<
    String,
    BootstrapError,
>)
    requires
        old(world).broker.wf(),
    ensures
        final(world).broker.wf(),
        final(world)@.store == old(world)@.store,
        (final(world)@.broker, outcome_view(outcome)) == bootstrap_outlook(
            start@,
            old(world)@.broker,
            connection as nat,
        ),
{
    let unused = String::new();
    let ghost begun = start@;
    let mut machine = start;
    while !machine.finished()
        invariant
            world.broker.wf(),
            world@.store == old(world)@.store,
            bootstrap_outlook(machine@, world@.broker, connection as nat) == bootstrap_outlook(
                begun,
                old(world)@.broker,
                connection as nat,
            ),
        decreases machine@.phase.remaining(),
    {
        let command = machine.command();
        let reply = world.perform(connection, &unused, &command);
        machine = machine.advance(reply);
    }
    machine.into_outcome().unwrap()
}

/// Brings up a subscriber of `exchange` over `connection`: drives a
/// bootstrap to its end and hands back the name of the bound queue.
pub fn bootstrap(world: &mut World, connection: u64, exchange: &str) -> (outcome: Result<
    String,
    BootstrapError,
>)
    requires
        old(world).broker.wf(),
    ensures
        final(world).broker.wf(),
        final(world)@.store == old(world)@.store,
        (final(world)@.broker, outcome_view(outcome)) == bootstrapped(
            old(world)@.broker,
            connection as nat,
            exchange@,
        ),
        ({
            let before = old(world)@.broker;
            let after = final(world)@.broker;
            subscriber_can_come_up(before, exchange@) ==> {
                &&& outcome matches Ok(queue)
                &&& !before.queues.contains_key(queue@)
                &&& after.queues.contains_key(queue@)
                &&& after.queues[queue@].owner == connection
                &&& after.queues[queue@].bound.contains(exchange@)
                &&& after.queues[queue@].pending.len() == 0
                &&& after.exchanges == before.exchanges.insert(exchange@, viewed_exchange_attrs())
            }
        }),
{
    proof {
        world.broker.lemma_view_well_formed();
        if subscriber_can_come_up(world@.broker, exchange@) {
            lemma_subscriber_comes_up(world@.broker, connection as nat, exchange@);
        }
    }
    run_bootstrap(world, connection, Bootstrap::new(exchange))
}

/// Declares a subscriber's queue over `connection` and binds it to
/// `exchange`, without declaring the exchange: drives an attempt for the
/// queue alone to its end and hands back the name of the bound queue.
pub fn bind_new_queue(world: &mut World, connection: u64, exchange: &str) -> (outcome: Result<
    String,
    BootstrapError,
>)
    requires
        old(world).broker.wf(),
    ensures
        final(world).broker.wf(),
        final(world)@.store == old(world)@.store,
        (final(world)@.broker, outcome_view(outcome)) == queue_bound(
            old(world)@.broker,
            connection as nat,
            exchange@,
        ),
{
    run_bootstrap(world, connection, Bootstrap::for_queue(exchange))
}

/// Publishes an event to `exchange` over `connection`: drives a publisher to
/// its end.
pub fn publish(world: &mut World, connection: u64, exchange: &str, event: &ViewEvent) -> (outcome:
    Result<(), PublishError>)
    requires
        old(world).broker.wf(),
    ensures
        final(world).broker.wf(),
        final(world)@.store == old(world)@.store,
        (final(world)@.broker, outcome) == published(old(world)@.broker, exchange@, event@),
        ({
            let before = old(world)@.broker;
            !before.exchanges.contains_key(exchange@) ==> {
                &&& outcome is Err
                &&& final(world)@.broker == before
                &&& view_event_body(event@) is Some ==> outcome == Err::<(), PublishError>(
                    PublishError::NoSuchExchange,
                )
            }
        }),
{
    let unused = String::new();
    let mut machine = Publisher::new(exchange, event);
    while machine.outcome().is_none()
        invariant
            world.broker.wf(),
            world@.store == old(world)@.store,
            machine@.exchange == exchange@,
            view_event_body(event@) matches Some(body) ==> machine@.body == body,
            view_event_body(event@) is None ==> machine@.phase == PublishPhase::Finished(
                Err(PublishError::Encoding),
            ),
            publish_outlook(machine@, world@.broker) == published(
                old(world)@.broker,
                exchange@,
                event@,
            ),
        decreases machine@.phase.remaining(),
    {
        let command = machine.command();
        let reply = world.perform(connection, &unused, &command);
        machine = machine.advance(reply);
    }
    machine.outcome().unwrap()
}

/// Runs a consumer loop on `queue` over `connection` until the queue is
/// worked off or the loop gives up, storing what it decodes.
pub fn consume(world: &mut World, connection: u64, queue: &str, consumer_tag: &str) -> (outcome:
    Result<(), ConsumerError>)
    requires
        old(world).broker.wf(),
    ensures
        final(world).broker.wf(),
        (final(world)@, outcome) == consumed(
            old(world)@,
            connection as nat,
            queue@,
            consumer_tag@,
        ),
{
    let name = queue.to_owned();
    let mut machine = ConsumerLoop::new(queue, consumer_tag);
    while machine.outcome().is_none()
        invariant
            world.broker.wf(),
            name@ == queue@,
            machine@.queue == queue@,
            machine@.consumer_tag == consumer_tag@,
            consumer_at_home(machine@, world@),
            consumer_outlook(machine@, world@, connection as nat) == consumed(
                old(world)@,
                connection as nat,
                queue@,
                consumer_tag@,
            ),
        decreases waiting(world@.broker, queue@), consumer_rank(machine@.phase),
    {
        proof {
            lemma_consumer_step(machine@, world@, connection as nat);
        }
        let command = machine.command();
        let reply = world.perform(connection, &name, &command);
        machine = machine.advance(reply);
    }
    machine.outcome().unwrap()
}

/// Publishing to an exchange that no subscriber has declared always fails
/// and leaves the broker as it was; so does every publish to a broker that
/// holds nothing.  The failure is `NoSuchExchange` whenever the event has a
/// body at all, and `Encoding` where it has none.
pub proof fn lemma_publish_before_any_subscriber_fails(
    b: BrokerView,
    exchange: Seq<char>,
    path: Seq<char>,
)
    requires
        !b.exchanges.contains_key(exchange),
    ensures
        published(b, exchange, path).1 is Err,
        published(b, exchange, path).0 == b,
        published(BrokerView::empty(), exchange, path).1 is Err,
        published(BrokerView::empty(), exchange, path).0 == BrokerView::empty(),
        view_event_body(path) is Some ==> published(b, exchange, path).1 == Err::<
            (),
            PublishError,
        >(PublishError::NoSuchExchange),
        view_event_body(path) is None ==> published(b, exchange, path).1 == Err::<
            (),
            PublishError,
        >(PublishError::Encoding),
{
}

/// A subscriber comes up whenever the exchange is not there yet or is there
/// as a subscriber declares it, however many subscribers came up before: it
/// gets a queue that did not exist, empty and bound to the exchange alone;
/// the exchange is there afterwards, and every other queue is as before.
pub proof fn lemma_subscriber_comes_up(b: BrokerView, connection: nat, exchange: Seq<char>)
    requires
        b.well_formed(),
        b.next_queue < serial_limit(),
        b.exchanges.contains_key(exchange) ==> b.exchanges[exchange] == viewed_exchange_attrs(),
    ensures
        ({
            let (after, outcome) = bootstrapped(b, connection, exchange);
            &&& outcome is Ok
            &&& !b.queues.contains_key(outcome->Ok_0)
            &&& after.queues.contains_key(outcome->Ok_0)
            &&& after.queues[outcome->Ok_0] == QueueView {
                bound: Set::<Seq<char>>::empty().insert(exchange),
                ..QueueView::fresh(b.next_queue, connection)
            }
            &&& after.exchanges == b.exchanges.insert(exchange, viewed_exchange_attrs())
            &&& forall|other: Seq<char>| #[trigger]
                b.queues.contains_key(other) ==> after.queues.contains_key(other)
                    && after.queues[other] == b.queues[other]
            &&& after.next_queue == b.next_queue + 1
            &&& after.well_formed()
        }),
{
    let declared = b.declare_exchange(subscriber_exchange_view(exchange)).0;
    lemma_declared_queue_is_new(declared, connection, subscriber_queue_view());
}

/// A queue is declared and bound on its own wherever the exchange is there,
/// of whatever kind: the queue did not exist, is empty and bound to the
/// exchange alone, the exchanges are as before, and every other queue is as
/// before.  Where the exchange is not there, the queue is declared all the
/// same, but the binding is refused as not found.
pub proof fn lemma_queue_alone_comes_up(b: BrokerView, connection: nat, exchange: Seq<char>)
    requires
        b.well_formed(),
        b.next_queue < serial_limit(),
    ensures
        ({
            let (after, outcome) = queue_bound(b, connection, exchange);
            let queue = generated_name(b.next_queue);
            &&& !b.queues.contains_key(queue)
            &&& after.queues.contains_key(queue)
            &&& after.exchanges == b.exchanges
            &&& after.next_queue == b.next_queue + 1
            &&& after.well_formed()
            &&& forall|other: Seq<char>| #[trigger]
                b.queues.contains_key(other) ==> after.queues.contains_key(other)
                    && after.queues[other] == b.queues[other]
            &&& b.exchanges.contains_key(exchange) ==> outcome == Ok::<
                Seq<char>,
                BootstrapError,
            >(queue) && after.queues[queue] == QueueView {
                bound: Set::<Seq<char>>::empty().insert(exchange),
                ..QueueView::fresh(b.next_queue, connection)
            }
            &&& !b.exchanges.contains_key(exchange) ==> outcome == Err::<
                Seq<char>,
                BootstrapError,
            >(BootstrapError::Bind(refused(NOT_FOUND))) && after.queues[queue]
                == QueueView::fresh(b.next_queue, connection)
        }),
{
    lemma_declared_queue_is_new(b, connection, subscriber_queue_view());
}

/// Two subscribers that come up one after the other on a broker that does
/// not have their exchange yet, over whatever connections, both come up:
/// the exchange is there once, as a subscriber declares it, and is the only
/// exchange that was added; the two queues differ, are new and are both
/// bound to it.  The same holds where the exchange is there already as a
/// subscriber declares it.
pub proof fn lemma_two_subscribers_share_one_exchange(
    b: BrokerView,
    first_connection: nat,
    second_connection: nat,
    exchange: Seq<char>,
)
    requires
        b.well_formed(),
        b.next_queue + 1 < serial_limit(),
        b.exchanges.contains_key(exchange) ==> b.exchanges[exchange] == viewed_exchange_attrs(),
    ensures
        ({
            let (one, first) = bootstrapped(b, first_connection, exchange);
            let (two, second) = bootstrapped(one, second_connection, exchange);
            &&& first == Ok::<Seq<char>, BootstrapError>(generated_name(b.next_queue))
            &&& second == Ok::<Seq<char>, BootstrapError>(generated_name(b.next_queue + 1))
            &&& first != second
            &&& !b.queues.contains_key(first->Ok_0)
            &&& !b.queues.contains_key(second->Ok_0)
            &&& one.exchanges == b.exchanges.insert(exchange, viewed_exchange_attrs())
            &&& two.exchanges == one.exchanges
            &&& two.exchanges[exchange].kind == ExchangeKind::Fanout
            &&& two.exchanges[exchange].durable
            &&& two.queues.contains_key(first->Ok_0)
            &&& two.queues.contains_key(second->Ok_0)
            &&& two.queues[first->Ok_0].bound == Set::<Seq<char>>::empty().insert(exchange)
            &&& two.queues[second->Ok_0].bound == Set::<Seq<char>>::empty().insert(exchange)
            &&& two.queues[first->Ok_0].owner == first_connection
            &&& two.queues[second->Ok_0].owner == second_connection
            &&& two.well_formed()
        }),
{
    lemma_subscriber_comes_up(b, first_connection, exchange);
    let one = bootstrapped(b, first_connection, exchange).0;
    lemma_subscriber_comes_up(one, second_connection, exchange);
    lemma_generated_names_differ(b.next_queue, b.next_queue + 1);
}

/// The first two subscribers of a broker that holds nothing both come up:
/// afterwards the broker has the one exchange, fanout and durable, and two
/// different queues, each bound to it.
pub proof fn lemma_first_two_subscribers_come_up(
    first_connection: nat,
    second_connection: nat,
    exchange: Seq<char>,
)
    ensures
        ({
            let (one, first) = bootstrapped(BrokerView::empty(), first_connection, exchange);
            let (two, second) = bootstrapped(one, second_connection, exchange);
            &&& first == Ok::<Seq<char>, BootstrapError>(generated_name(0))
            &&& second == Ok::<Seq<char>, BootstrapError>(generated_name(1))
            &&& first != second
            &&& two.exchanges == Map::<Seq<char>, ExchangeAttrs>::empty().insert(
                exchange,
                viewed_exchange_attrs(),
            )
            &&& two.queues.dom() == Set::<Seq<char>>::empty().insert(generated_name(0)).insert(
                generated_name(1),
            )
            &&& two.queues[generated_name(0)].bound.contains(exchange)
            &&& two.queues[generated_name(1)].bound.contains(exchange)
        }),
{
    lemma_two_subscribers_share_one_exchange(
        BrokerView::empty(),
        first_connection,
        second_connection,
        exchange,
    );
    let one = bootstrapped(BrokerView::empty(), first_connection, exchange).0;
    let two = bootstrapped(one, second_connection, exchange).0;
    assert(two.queues.dom() =~= Set::<Seq<char>>::empty().insert(generated_name(0)).insert(
        generated_name(1),
    ));
}

/// A subscriber does not come up where the exchange exists with other
/// properties: the declaration is refused, and the broker stays as it was.
pub proof fn lemma_mismatched_exchange_stops_the_subscriber(
    b: BrokerView,
    connection: nat,
    exchange: Seq<char>,
)
    requires
        b.exchanges.contains_key(exchange),
        b.exchanges[exchange] != viewed_exchange_attrs(),
    ensures
        bootstrapped(b, connection, exchange) == (
            b,
            Err::<Seq<char>, BootstrapError>(
                BootstrapError::Exchange(refused(PRECONDITION_FAILED)),
            ),
        ),
        BootstrapError::Exchange(refused(PRECONDITION_FAILED)).is_exchange_mismatch(),
{
}

/// An event published to a fanout exchange that exists reaches every queue
/// bound to the exchange exactly once, as the newest it holds, and no other
/// queue.
pub proof fn lemma_published_event_reaches_every_bound_queue(
    b: BrokerView,
    exchange: Seq<char>,
    path: Seq<char>,
)
    requires
        view_event_body(path) is Some,
        b.exchanges.contains_key(exchange),
        b.exchanges[exchange].kind == ExchangeKind::Fanout,
    ensures
        ({
            let (after, outcome) = published(b, exchange, path);
            let body = view_event_body(path)->0;
            &&& outcome is Ok
            &&& after.exchanges == b.exchanges
            &&& after.queues.dom() == b.queues.dom()
            &&& forall|name: Seq<char>| #[trigger]
                b.queues.contains_key(name) ==> after.queues[name] == b.queues[name].offered(
                    exchange,
                    body,
                )
        }),
{
}

/// Two subscribers that come up one after the other, over whatever
/// connections, get different queues, and an event published afterwards
/// waits in both: each holds the whole event, and it is the only one there.
pub proof fn lemma_each_subscriber_gets_the_event(
    b: BrokerView,
    first_connection: nat,
    second_connection: nat,
    exchange: Seq<char>,
    path: Seq<char>,
)
    requires
        b.well_formed(),
        b.next_queue + 1 < serial_limit(),
        b.exchanges.contains_key(exchange) ==> b.exchanges[exchange] == viewed_exchange_attrs(),
        view_event_body(path) is Some,
    ensures
        ({
            let (one, first) = bootstrapped(b, first_connection, exchange);
            let (two, second) = bootstrapped(one, second_connection, exchange);
            let (three, sent) = published(two, exchange, path);
            let body = view_event_body(path)->0;
            &&& first is Ok
            &&& second is Ok
            &&& sent is Ok
            &&& first->Ok_0 != second->Ok_0
            &&& three.queues.contains_key(first->Ok_0)
            &&& three.queues.contains_key(second->Ok_0)
            &&& three.queues[first->Ok_0].pending == seq![body]
            &&& three.queues[second->Ok_0].pending == seq![body]
            &&& three.queues[first->Ok_0].owner == first_connection
            &&& three.queues[second->Ok_0].owner == second_connection
        }),
{
    lemma_subscriber_comes_up(b, first_connection, exchange);
    let one = bootstrapped(b, first_connection, exchange).0;
    lemma_subscriber_comes_up(one, second_connection, exchange);
    let two = bootstrapped(one, second_connection, exchange).0;
    lemma_published_event_reaches_every_bound_queue(two, exchange, path);
}

/// A body that does not decode leaves no trace: working off a queue that
/// begins with it comes to the same as working off the rest.
pub proof fn lemma_undecodable_body_leaves_no_trace(queue: QueueView, store: RecordStoreView)
    requires
        queue.pending.len() > 0,
        !(decoded_body(json_text_members(queue.pending[0])) is Event),
    ensures
        drained(queue, store) == drained(
            QueueView { pending: queue.pending.drop_first(), ..queue },
            store,
        ),
        decoded_paths(queue.pending) == decoded_paths(queue.pending.drop_first()),
{
}

/// Where the store has room for all of them, working off a queue stores the
/// paths of exactly the bodies that decode, once each and in their order,
/// after what the store held; every delivery is settled and none is left
/// waiting.
pub proof fn lemma_every_decoded_event_is_recorded_once(queue: QueueView, store: RecordStoreView)
    requires
        store.records.len() + decoded_paths(queue.pending).len() <= store.capacity,
    ensures
        ({
            let (left, stored, outcome) = drained(queue, store);
            &&& outcome is Ok
            &&& stored.records == store.records + decoded_paths(queue.pending)
            &&& stored.capacity == store.capacity
            &&& left == QueueView { pending: Seq::<Seq<u8>>::empty(), ..queue }
        }),
    decreases queue.pending.len(),
{
    if queue.pending.len() > 0 {
        let rest = QueueView { pending: queue.pending.drop_first(), ..queue };
        match decoded_body(json_text_members(queue.pending[0])) {
            DecodedView::Event { video_path } => {
                lemma_every_decoded_event_is_recorded_once(rest, store.insert(video_path).0);
            },
            _ => {
                lemma_every_decoded_event_is_recorded_once(rest, store);
            },
        }
    }
}

/// A subscriber that has come up and consumes after one event was published
/// ends well with the event's path as its one new record, where the body
/// decodes to that path and the store has room: the delivery is
/// acknowledged, and nothing waits or is unsettled in the queue.
pub proof fn lemma_subscriber_records_the_published_event(
    w: WorldView,
    connection: nat,
    queue: Seq<char>,
    consumer_tag: Seq<char>,
    body: Seq<u8>,
    path: Seq<char>,
)
    requires
        w.broker.queues.contains_key(queue),
        w.broker.queues[queue].owner == connection,
        w.broker.queues[queue].consumer is None,
        w.broker.queues[queue].pending == seq![body],
        w.broker.queues[queue].unacked.len() == 0,
        decoded_body(json_text_members(body)) == (DecodedView::Event { video_path: path }),
        w.store.has_room(),
    ensures
        ({
            let (after, outcome) = consumed(w, connection, queue, consumer_tag);
            &&& outcome is Ok
            &&& after.store.records == w.store.records.push(path)
            &&& after.broker.queues.contains_key(queue)
            &&& after.broker.queues[queue].pending.len() == 0
            &&& after.broker.queues[queue].unacked.len() == 0
            &&& after.broker.exchanges == w.broker.exchanges
        }),
{
    let registered = w.broker.consume(connection, registration(queue, consumer_tag)).0;
    let state = registered.queues[queue];
    assert(decoded_paths(state.pending.drop_first()) =~= Seq::<Seq<char>>::empty());
    lemma_every_decoded_event_is_recorded_once(state, w.store);
}

/// A view travels from the publisher to the record store: a subscriber
/// comes up, an event is published, the subscriber works off its queue, and
/// then its store holds the path of the event as its one new record, the
/// delivery is acknowledged and nothing is left in the queue.
pub proof fn lemma_a_view_reaches_the_record_store(
    w: WorldView,
    connection: nat,
    exchange: Seq<char>,
    consumer_tag: Seq<char>,
    path: Seq<char>,
)
    requires
        w.broker.well_formed(),
        w.broker.next_queue < serial_limit(),
        w.broker.exchanges.contains_key(exchange) ==> w.broker.exchanges[exchange]
            == viewed_exchange_attrs(),
        view_event_body(path) is Some,
        w.store.has_room(),
    ensures
        ({
            let (up, queue) = bootstrapped(w.broker, connection, exchange);
            let (sent, publishing) = published(up, exchange, path);
            let (after, consuming) = consumed(
                w.with_broker(sent),
                connection,
                queue->Ok_0,
                consumer_tag,
            );
            &&& queue is Ok
            &&& publishing is Ok
            &&& consuming is Ok
            &&& after.store.records == w.store.records.push(path)
            &&& after.broker.queues[queue->Ok_0].pending.len() == 0
            &&& after.broker.queues[queue->Ok_0].unacked.len() == 0
        }),
{
    lemma_subscriber_comes_up(w.broker, connection, exchange);
    let (up, queue) = bootstrapped(w.broker, connection, exchange);
    lemma_published_event_reaches_every_bound_queue(up, exchange, path);
    lemma_bodies_are_sound(path);
    lemma_subscriber_records_the_published_event(
        w.with_broker(published(up, exchange, path).0),
        connection,
        queue->Ok_0,
        consumer_tag,
        view_event_body(path)->0,
        path,
    );
}

/// A subscriber that starts again over a new connection gets a new, empty
/// queue: what was published while the old connection was closed and the
/// new queue not yet declared is not in it, and the old queue is gone.
pub proof fn lemma_restart_misses_what_was_published_meanwhile(
    b: BrokerView,
    old_connection: nat,
    new_connection: nat,
    old_queue: Seq<char>,
    exchange: Seq<char>,
    path: Seq<char>,
)
    requires
        b.well_formed(),
        b.next_queue < serial_limit(),
        b.queues.contains_key(old_queue),
        b.queues[old_queue].owner == old_connection,
        b.exchanges.contains_key(exchange),
        b.exchanges[exchange] == viewed_exchange_attrs(),
        view_event_body(path) is Some,
    ensures
        ({
            let closed = b.close_connection(old_connection);
            let (sent, first) = published(closed, exchange, path);
            let (after, second) = bootstrapped(sent, new_connection, exchange);
            &&& first is Ok
            &&& second is Ok
            &&& second->Ok_0 != old_queue
            &&& !after.queues.contains_key(old_queue)
            &&& after.queues[second->Ok_0].pending.len() == 0
        }),
{
    let closed = b.close_connection(old_connection);
    lemma_published_event_reaches_every_bound_queue(closed, exchange, path);
    lemma_subscriber_comes_up(published(closed, exchange, path).0, new_connection, exchange);
    lemma_generated_names_differ(b.queues[old_queue].serial, b.next_queue);
}

} // verus!
