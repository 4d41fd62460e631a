//! A reference model of the broker.
//!
//! The model says what the pipeline takes a broker to do: exchanges are
//! declared once and checked against later declarations, queues are named by
//! the broker and owned by the connection that declared them, and a fanout
//! exchange hands every message to every queue bound to it.  `BrokerView` is
//! the model; `Broker` is an in-memory broker that follows it step by step.
//! The model covers what the pipeline uses: fanout routing and queues that
//! the broker names, exclusive to their connection.

use vstd::prelude::*;
use crate::names::{generated_name, generated_queue_name, lemma_generated_names_differ};
use crate::protocol::{
    BrokerFailure, ConsumeView, Consume, ExchangeAttrs, ExchangeDeclare, ExchangeDeclareView,
    ExchangeKind, Publish, PublishView, QueueBind, QueueBindView, QueueDeclare, QueueDeclareView,
    NOT_ALLOWED, NOT_FOUND, NOT_IMPLEMENTED, PRECONDITION_FAILED, RESOURCE_ERROR, RESOURCE_LOCKED,
};

verus! {

/// The largest serial number the broker hands out.
pub open spec fn serial_limit() -> nat {
    0xffff_ffff_ffff_ffff
}

/// A queue of the model.
#[verifier::ext_equal]
pub struct QueueView {
    /// The serial number the broker named the queue by.
    pub serial: nat,
    /// The connection that declared the queue and alone may use it.
    pub owner: nat,
    /// The exchanges the queue is bound to.
    pub bound: Set<Seq<char>>,
    /// The tag of the consumer registered on the queue, if any.
    pub consumer: Option<Seq<char>>,
    /// The messages waiting for delivery, oldest first.
    pub pending: Seq<Seq<u8>>,
    /// The messages delivered and not yet settled, oldest first.
    pub unacked: Seq<Seq<u8>>,
}

impl QueueView {
    /// A queue just declared by `owner`.
    pub open spec fn fresh(serial: nat, owner: nat) -> QueueView {
        QueueView {
            serial,
            owner,
            bound: Set::empty(),
            consumer: None,
            pending: Seq::empty(),
            unacked: Seq::empty(),
        }
    }

    /// The queue after a message went to `exchange`: it holds one more
    /// message when it is bound to that exchange, and is as before when it
    /// is not.
    pub open spec fn offered(self, exchange: Seq<char>, body: Seq<u8>) -> QueueView {
        if self.bound.contains(exchange) {
            QueueView { pending: self.pending.push(body), ..self }
        } else {
            self
        }
    }
}

/// The state of the model.
#[verifier::ext_equal]
pub struct BrokerView {
    pub exchanges: Map<Seq<char>, ExchangeAttrs>,
    pub queues: Map<Seq<char>, QueueView>,
    /// The serial number of the next queue to name.
    pub next_queue: nat,
    /// The number of the next connection to open.
    pub next_connection: nat,
}

pub open spec fn refused(code: u16) -> BrokerFailure {
    BrokerFailure::Refused { code }
}

impl BrokerView {
    /// A broker that holds nothing.
    pub open spec fn empty() -> BrokerView {
        BrokerView {
            exchanges: Map::empty(),
            queues: Map::empty(),
            next_queue: 0,
            next_connection: 0,
        }
    }

    /// Every queue bears the name generated for its serial number, and every
    /// serial number in use is below the next one to hand out.
    pub open spec fn well_formed(self) -> bool {
        forall|name: Seq<char>| #[trigger]
            self.queues.contains_key(name) ==> name == generated_name(self.queues[name].serial)
                && self.queues[name].serial < self.next_queue
    }

    /// Declaring an exchange.  A passive declaration goes through exactly
    /// when an exchange of that name exists, and changes nothing.  An active
    /// one creates the exchange where there is none, goes through without a
    /// change where there is one with the same properties, and is refused
    /// where there is one with other properties.
    pub open spec fn declare_exchange(self, declare: ExchangeDeclareView) -> (
        BrokerView,
        Result<(), BrokerFailure>,
    ) {
        if self.exchanges.contains_key(declare.exchange) {
            if declare.passive || self.exchanges[declare.exchange] == declare.attrs {
                (self, Ok(()))
            } else {
                (self, Err(refused(PRECONDITION_FAILED)))
            }
        } else if declare.passive {
            (self, Err(refused(NOT_FOUND)))
        } else {
            (
                BrokerView {
                    exchanges: self.exchanges.insert(declare.exchange, declare.attrs),
                    ..self
                },
                Ok(()),
            )
        }
    }

    /// Opening a connection: connections are numbered in the order they are
    /// opened.
    pub open spec fn open_connection(self) -> (BrokerView, Result<nat, BrokerFailure>) {
        if self.next_connection >= serial_limit() {
            (self, Err(refused(RESOURCE_ERROR)))
        } else {
            (
                BrokerView { next_connection: self.next_connection + 1, ..self },
                Ok(self.next_connection),
            )
        }
    }

    /// The queue declarations the model covers: a queue for the broker to
    /// name, exclusive to its connection and deleted with it, not durable.
    pub open spec fn covers(declare: QueueDeclareView) -> bool {
        &&& declare.queue.len() == 0
        &&& !declare.passive
        &&& !declare.durable
        &&& declare.exclusive
        &&& declare.auto_delete
    }

    /// Declaring a queue: the broker creates an empty queue under the name
    /// generated for the next serial number and hands the name back.
    pub open spec fn declare_queue(self, connection: nat, declare: QueueDeclareView) -> (
        BrokerView,
        Result<Seq<char>, BrokerFailure>,
    ) {
        if !Self::covers(declare) {
            (self, Err(refused(NOT_IMPLEMENTED)))
        } else if self.next_queue >= serial_limit() {
            (self, Err(refused(RESOURCE_ERROR)))
        } else {
            let name = generated_name(self.next_queue);
            (
                BrokerView {
                    queues: self.queues.insert(
                        name,
                        QueueView::fresh(self.next_queue, connection),
                    ),
                    next_queue: self.next_queue + 1,
                    ..self
                },
                Ok(name),
            )
        }
    }

    /// Binding a queue to an exchange.  Both must exist and the queue must
    /// belong to the connection; the routing key plays no part.  Binding
    /// again what is bound changes nothing.
    pub open spec fn bind_queue(self, connection: nat, bind: QueueBindView) -> (
        BrokerView,
        Result<(), BrokerFailure>,
    ) {
        if !self.queues.contains_key(bind.queue) {
            (self, Err(refused(NOT_FOUND)))
        } else if self.queues[bind.queue].owner != connection {
            (self, Err(refused(RESOURCE_LOCKED)))
        } else if !self.exchanges.contains_key(bind.exchange) {
            (self, Err(refused(NOT_FOUND)))
        } else {
            let queue = self.queues[bind.queue];
            (
                BrokerView {
                    queues: self.queues.insert(
                        bind.queue,
                        QueueView { bound: queue.bound.insert(bind.exchange), ..queue },
                    ),
                    ..self
                },
                Ok(()),
            )
        }
    }

    /// Registering a consumer.  The queue must exist, belong to the
    /// connection and have no consumer yet; the model covers consumers that
    /// acknowledge.
    pub open spec fn consume(self, connection: nat, consume: ConsumeView) -> (
        BrokerView,
        Result<(), BrokerFailure>,
    ) {
        if !self.queues.contains_key(consume.queue) {
            (self, Err(refused(NOT_FOUND)))
        } else if self.queues[consume.queue].owner != connection {
            (self, Err(refused(RESOURCE_LOCKED)))
        } else if consume.no_ack {
            (self, Err(refused(NOT_IMPLEMENTED)))
        } else if self.queues[consume.queue].consumer is Some {
            (self, Err(refused(NOT_ALLOWED)))
        } else {
            let queue = self.queues[consume.queue];
            (
                BrokerView {
                    queues: self.queues.insert(
                        consume.queue,
                        QueueView { consumer: Some(consume.consumer_tag), ..queue },
                    ),
                    ..self
                },
                Ok(()),
            )
        }
    }

    /// Publishing to an exchange.  The exchange must exist; the model routes
    /// fanout exchanges only.  Every queue bound to the exchange gets the
    /// message once, at the end of what it holds; no other queue changes, and
    /// the routing key plays no part.
    pub open spec fn publish(self, message: PublishView) -> (BrokerView, Result<(), BrokerFailure>) {
        if !self.exchanges.contains_key(message.exchange) {
            (self, Err(refused(NOT_FOUND)))
        } else if self.exchanges[message.exchange].kind != ExchangeKind::Fanout {
            (self, Err(refused(NOT_IMPLEMENTED)))
        } else {
            (
                BrokerView {
                    queues: self.queues.map_values(
                        |queue: QueueView| queue.offered(message.exchange, message.body),
                    ),
                    ..self
                },
                Ok(()),
            )
        }
    }

    /// Handing out the next delivery of a queue: the oldest waiting message
    /// of a queue that has a consumer becomes the newest unsettled one.
    /// Nothing is handed out where nothing waits.
    pub open spec fn deliver(self, queue: Seq<char>) -> (BrokerView, Option<Seq<u8>>) {
        if self.queues.contains_key(queue) && self.queues[queue].consumer is Some
            && self.queues[queue].pending.len() > 0 {
            let state = self.queues[queue];
            let body = state.pending[0];
            (
                BrokerView {
                    queues: self.queues.insert(
                        queue,
                        QueueView {
                            pending: state.pending.drop_first(),
                            unacked: state.unacked.push(body),
                            ..state
                        },
                    ),
                    ..self
                },
                Some(body),
            )
        } else {
            (self, None)
        }
    }

    /// Acknowledging the newest unsettled delivery of a queue: it is gone
    /// for good.
    pub open spec fn acknowledge(self, queue: Seq<char>) -> (BrokerView, Result<(), BrokerFailure>) {
        if self.queues.contains_key(queue) && self.queues[queue].unacked.len() > 0 {
            let state = self.queues[queue];
            (
                BrokerView {
                    queues: self.queues.insert(
                        queue,
                        QueueView { unacked: state.unacked.drop_last(), ..state },
                    ),
                    ..self
                },
                Ok(()),
            )
        } else {
            (self, Err(refused(PRECONDITION_FAILED)))
        }
    }

    /// Rejecting the newest unsettled delivery of a queue: it is gone for
    /// good, unless it is requeued, and then it waits again, ahead of the
    /// others.
    pub open spec fn reject(self, queue: Seq<char>, requeue: bool) -> (
        BrokerView,
        Result<(), BrokerFailure>,
    ) {
        if self.queues.contains_key(queue) && self.queues[queue].unacked.len() > 0 {
            let state = self.queues[queue];
            let body = state.unacked.last();
            (
                BrokerView {
                    queues: self.queues.insert(
                        queue,
                        QueueView {
                            unacked: state.unacked.drop_last(),
                            pending: if requeue {
                                seq![body] + state.pending
                            } else {
                                state.pending
                            },
                            ..state
                        },
                    ),
                    ..self
                },
                Ok(()),
            )
        } else {
            (self, Err(refused(PRECONDITION_FAILED)))
        }
    }

    /// Closing a connection: its queues vanish with all they hold.
    pub open spec fn close_connection(self, connection: nat) -> BrokerView {
        BrokerView {
            queues: Map::new(
                |name: Seq<char>|
                    self.queues.contains_key(name) && self.queues[name].owner != connection,
                |name: Seq<char>| self.queues[name],
            ),
            ..self
        }
    }
}

/// The outcome of a queue declaration, with the name as a sequence of
/// characters.
pub open spec fn declared_view(outcome: Result<String, BrokerFailure>) -> Result<
    Seq<char>,
    BrokerFailure,
> {
    match outcome {
        Ok(name) => Ok(name@),
        Err(f) => Err(f),
    }
}

/// The outcome of opening a connection, with the number as a natural number.
pub open spec fn opened_view(outcome: Result<u64, BrokerFailure>) -> Result<nat, BrokerFailure> {
    match outcome {
        Ok(connection) => Ok(connection as nat),
        Err(f) => Err(f),
    }
}

struct ExchangeEntry {
    name: String,
    attrs: ExchangeAttrs,
}

struct QueueEntry {
    name: String,
    serial: u64,
    owner: u64,
    bound: Vec<String>,
    consumer: Option<String>,
    pending: Vec<Vec<u8>>,
    unacked: Vec<Vec<u8>>,
}

spec fn texts(names: Seq<String>) -> Seq<Seq<char>> {
    Seq::new(names.len(), |i: int| names[i]@)
}

spec fn bodies(messages: Seq<Vec<u8>>) -> Seq<Seq<u8>> {
    Seq::new(messages.len(), |i: int| messages[i]@)
}

impl QueueEntry {
    spec fn state(self) -> QueueView {
        QueueView {
            serial: self.serial as nat,
            owner: self.owner as nat,
            bound: texts(self.bound@).to_set(),
            consumer: match self.consumer {
                Some(tag) => Some(tag@),
                None => None,
            },
            pending: bodies(self.pending@),
            unacked: bodies(self.unacked@),
        }
    }
}

spec fn has_exchange(entries: Seq<ExchangeEntry>, name: Seq<char>) -> bool {
    exists|i: int| 0 <= i < entries.len() && (#[trigger] entries[i]).name@ == name
}

spec fn exchange_position(entries: Seq<ExchangeEntry>, name: Seq<char>) -> int {
    choose|i: int| 0 <= i < entries.len() && (#[trigger] entries[i]).name@ == name
}

spec fn exchange_map(entries: Seq<ExchangeEntry>) -> Map<Seq<char>, ExchangeAttrs> {
    Map::new(
        |name: Seq<char>| has_exchange(entries, name),
        |name: Seq<char>| entries[exchange_position(entries, name)].attrs,
    )
}

spec fn exchanges_distinct(entries: Seq<ExchangeEntry>) -> bool {
    forall|i: int, j: int|
        0 <= i < j < entries.len() ==> (#[trigger] entries[i]).name@ != (#[trigger] entries[j]).name@
}

spec fn has_queue(entries: Seq<QueueEntry>, name: Seq<char>) -> bool {
    exists|i: int| 0 <= i < entries.len() && (#[trigger] entries[i]).name@ == name
}

spec fn queue_position(entries: Seq<QueueEntry>, name: Seq<char>) -> int {
    choose|i: int| 0 <= i < entries.len() && (#[trigger] entries[i]).name@ == name
}

spec fn queue_map(entries: Seq<QueueEntry>) -> Map<Seq<char>, QueueView> {
    Map::new(
        |name: Seq<char>| has_queue(entries, name),
        |name: Seq<char>| entries[queue_position(entries, name)].state(),
    )
}

spec fn queues_distinct(entries: Seq<QueueEntry>) -> bool {
    forall|i: int, j: int|
        0 <= i < j < entries.len() ==> (#[trigger] entries[i]).name@ != (#[trigger] entries[j]).name@
}

spec fn queues_named(entries: Seq<QueueEntry>, next_queue: nat) -> bool {
    forall|i: int|
        0 <= i < entries.len() ==> (#[trigger] entries[i]).name@ == generated_name(
            entries[i].serial as nat,
        ) && entries[i].serial < next_queue
}

proof fn lemma_exchange_found(entries: Seq<ExchangeEntry>, i: int)
    requires
        exchanges_distinct(entries),
        0 <= i < entries.len(),
    ensures
        exchange_map(entries).contains_key(entries[i].name@),
        exchange_map(entries)[entries[i].name@] == entries[i].attrs,
        exchange_position(entries, entries[i].name@) == i,
{
    let name = entries[i].name@;
    assert(has_exchange(entries, name));
    let j = exchange_position(entries, name);
    assert(0 <= j < entries.len() && entries[j].name@ == name);
    if j != i {
        if j < i {
            assert(entries[j].name@ != entries[i].name@);
        } else {
            assert(entries[i].name@ != entries[j].name@);
        }
    }
}

proof fn lemma_exchange_pushed(before: Seq<ExchangeEntry>, entry: ExchangeEntry)
    requires
        exchanges_distinct(before),
        !has_exchange(before, entry.name@),
    ensures
        exchanges_distinct(before.push(entry)),
        exchange_map(before.push(entry)) == exchange_map(before).insert(entry.name@, entry.attrs),
{
    let after = before.push(entry);
    assert forall|i: int, j: int| 0 <= i < j < after.len() implies (#[trigger] after[i]).name@ != (
    #[trigger] after[j]).name@ by {
        if j == before.len() {
            assert(before[i].name@ != entry.name@);
        } else {
            assert(before[i].name@ != before[j].name@);
        }
    }
    assert forall|name: Seq<char>|
        has_exchange(after, name) <==> (has_exchange(before, name) || name == entry.name@) by {
        if has_exchange(before, name) {
            let k = exchange_position(before, name);
            assert(after[k].name@ == name);
        }
        if name == entry.name@ {
            assert(after[before.len() as int].name@ == name);
        }
        if has_exchange(after, name) {
            let k = exchange_position(after, name);
            if k < before.len() {
                assert(before[k].name@ == name);
            }
        }
    }
    assert forall|name: Seq<char>| has_exchange(after, name) implies exchange_map(after)[name]
        == exchange_map(before).insert(entry.name@, entry.attrs)[name] by {
        let k = exchange_position(after, name);
        lemma_exchange_found(after, k);
        if k < before.len() {
            assert(before[k] == after[k]);
            lemma_exchange_found(before, k);
        }
    }
    assert(exchange_map(after) =~= exchange_map(before).insert(entry.name@, entry.attrs));
}

proof fn lemma_queue_found(entries: Seq<QueueEntry>, i: int)
    requires
        queues_distinct(entries),
        0 <= i < entries.len(),
    ensures
        queue_map(entries).contains_key(entries[i].name@),
        queue_map(entries)[entries[i].name@] == entries[i].state(),
        queue_position(entries, entries[i].name@) == i,
{
    let name = entries[i].name@;
    assert(has_queue(entries, name));
    let j = queue_position(entries, name);
    assert(0 <= j < entries.len() && entries[j].name@ == name);
    if j != i {
        if j < i {
            assert(entries[j].name@ != entries[i].name@);
        } else {
            assert(entries[i].name@ != entries[j].name@);
        }
    }
}

proof fn lemma_queue_pushed(before: Seq<QueueEntry>, entry: QueueEntry)
    requires
        queues_distinct(before),
        !has_queue(before, entry.name@),
    ensures
        queues_distinct(before.push(entry)),
        queue_map(before.push(entry)) == queue_map(before).insert(entry.name@, entry.state()),
{
    let after = before.push(entry);
    assert forall|i: int, j: int| 0 <= i < j < after.len() implies (#[trigger] after[i]).name@ != (
    #[trigger] after[j]).name@ by {
        if j == before.len() {
            assert(before[i].name@ != entry.name@);
        } else {
            assert(before[i].name@ != before[j].name@);
        }
    }
    assert forall|name: Seq<char>|
        has_queue(after, name) <==> (has_queue(before, name) || name == entry.name@) by {
        if has_queue(before, name) {
            let k = queue_position(before, name);
            assert(after[k].name@ == name);
        }
        if name == entry.name@ {
            assert(after[before.len() as int].name@ == name);
        }
        if has_queue(after, name) {
            let k = queue_position(after, name);
            if k < before.len() {
                assert(before[k].name@ == name);
            }
        }
    }
    assert forall|name: Seq<char>| has_queue(after, name) implies queue_map(after)[name]
        == queue_map(before).insert(entry.name@, entry.state())[name] by {
        let k = queue_position(after, name);
        lemma_queue_found(after, k);
        if k < before.len() {
            assert(before[k] == after[k]);
            lemma_queue_found(before, k);
        }
    }
    assert(queue_map(after) =~= queue_map(before).insert(entry.name@, entry.state()));
}

proof fn lemma_queue_updated(before: Seq<QueueEntry>, i: int, entry: QueueEntry)
    requires
        queues_distinct(before),
        0 <= i < before.len(),
        entry.name@ == before[i].name@,
    ensures
        queues_distinct(before.update(i, entry)),
        queue_map(before.update(i, entry)) == queue_map(before).insert(entry.name@, entry.state()),
{
    let after = before.update(i, entry);
    assert forall|a: int, b: int| 0 <= a < b < after.len() implies (#[trigger] after[a]).name@ != (
    #[trigger] after[b]).name@ by {
        assert(before[a].name@ != before[b].name@);
    }
    assert forall|name: Seq<char>| has_queue(after, name) <==> has_queue(before, name) by {
        if has_queue(before, name) {
            let k = queue_position(before, name);
            assert(after[k].name@ == name);
        }
        if has_queue(after, name) {
            let k = queue_position(after, name);
            assert(before[k].name@ == name);
        }
    }
    lemma_queue_found(before, i);
    assert forall|name: Seq<char>| has_queue(after, name) implies queue_map(after)[name]
        == queue_map(before).insert(entry.name@, entry.state())[name] by {
        let k = queue_position(after, name);
        lemma_queue_found(after, k);
        if k != i {
            assert(before[k] == after[k]);
            lemma_queue_found(before, k);
        }
    }
    assert(queue_map(after) =~= queue_map(before).insert(entry.name@, entry.state()));
}

proof fn lemma_texts_pushed(names: Seq<String>, name: String)
    ensures
        texts(names.push(name)).to_set() == texts(names).to_set().insert(name@),
{
    let before = texts(names);
    let after = texts(names.push(name));
    assert forall|t: Seq<char>| after.contains(t) <==> (before.contains(t) || t == name@) by {
        if before.contains(t) {
            let k = choose|k: int| 0 <= k < before.len() && before[k] == t;
            assert(after[k] == t);
        }
        if t == name@ {
            assert(after[names.len() as int] == t);
        }
        if after.contains(t) {
            let k = choose|k: int| 0 <= k < after.len() && after[k] == t;
            if k < names.len() {
                assert(before[k] == t);
            }
        }
    }
    assert(after.to_set() =~= before.to_set().insert(name@));
}

proof fn lemma_queue_removed(before: Seq<QueueEntry>, i: int)
    requires
        queues_distinct(before),
        0 <= i < before.len(),
    ensures
        queues_distinct(before.remove(i)),
        queue_map(before.remove(i)) == queue_map(before).remove(before[i].name@),
{
    let after = before.remove(i);
    assert forall|a: int, b: int| 0 <= a < b < after.len() implies (#[trigger] after[a]).name@ != (
    #[trigger] after[b]).name@ by {
        let a0 = if a < i { a } else { a + 1 };
        let b0 = if b < i { b } else { b + 1 };
        assert(after[a] == before[a0]);
        assert(after[b] == before[b0]);
        assert(before[a0].name@ != before[b0].name@);
    }
    lemma_queue_found(before, i);
    assert forall|name: Seq<char>|
        has_queue(after, name) <==> (has_queue(before, name) && name != before[i].name@) by {
        if has_queue(before, name) && name != before[i].name@ {
            let k = queue_position(before, name);
            let k1 = if k < i { k } else { k - 1 };
            assert(after[k1] == before[k]);
            assert(after[k1].name@ == name);
        }
        if has_queue(after, name) {
            let k = queue_position(after, name);
            let k0 = if k < i { k } else { k + 1 };
            assert(after[k] == before[k0]);
            assert(before[k0].name@ == name);
            if name == before[i].name@ {
                if k0 < i {
                    assert(before[k0].name@ != before[i].name@);
                } else {
                    assert(before[i].name@ != before[k0].name@);
                }
            }
        }
    }
    assert forall|name: Seq<char>| has_queue(after, name) implies queue_map(after)[name]
        == queue_map(before).remove(before[i].name@)[name] by {
        let k = queue_position(after, name);
        lemma_queue_found(after, k);
        let k0 = if k < i { k } else { k + 1 };
        assert(after[k] == before[k0]);
        lemma_queue_found(before, k0);
    }
    assert(queue_map(after) =~= queue_map(before).remove(before[i].name@));
}

proof fn lemma_queues_offered(
    before: Seq<QueueEntry>,
    after: Seq<QueueEntry>,
    exchange: Seq<char>,
    body: Seq<u8>,
)
    requires
        queues_distinct(before),
        after.len() == before.len(),
        forall|i: int|
            0 <= i < before.len() ==> (#[trigger] after[i]).name@ == before[i].name@
                && after[i].state() == before[i].state().offered(exchange, body),
    ensures
        queues_distinct(after),
        queue_map(after) == queue_map(before).map_values(
            |queue: QueueView| queue.offered(exchange, body),
        ),
{
    assert forall|a: int, b: int| 0 <= a < b < after.len() implies (#[trigger] after[a]).name@ != (
    #[trigger] after[b]).name@ by {
        assert(before[a].name@ != before[b].name@);
    }
    assert forall|name: Seq<char>| has_queue(after, name) <==> has_queue(before, name) by {
        if has_queue(before, name) {
            let k = queue_position(before, name);
            assert(after[k].name@ == name);
        }
        if has_queue(after, name) {
            let k = queue_position(after, name);
            assert(before[k].name@ == name);
        }
    }
    let mapped = queue_map(before).map_values(|queue: QueueView| queue.offered(exchange, body));
    assert forall|name: Seq<char>| has_queue(after, name) implies queue_map(after)[name]
        == mapped[name] by {
        let k = queue_position(after, name);
        lemma_queue_found(after, k);
        lemma_queue_found(before, k);
    }
    assert(queue_map(after) =~= mapped);
}

/// An in-memory broker that follows the model.
pub struct Broker {
    exchanges: Vec<ExchangeEntry>,
    queues: Vec<QueueEntry>,
    next_queue: u64,
    next_connection: u64,
}

impl View for Broker {
    type V = BrokerView;

    closed spec fn view(&self) -> BrokerView {
        BrokerView {
            exchanges: exchange_map(self.exchanges@),
            queues: queue_map(self.queues@),
            next_queue: self.next_queue as nat,
            next_connection: self.next_connection as nat,
        }
    }
}

impl Broker {
    /// No two exchanges and no two queues share a name, and every queue
    /// bears the name generated for its serial number.
    pub closed spec fn wf(&self) -> bool {
        &&& exchanges_distinct(self.exchanges@)
        &&& queues_distinct(self.queues@)
        &&& queues_named(self.queues@, self.next_queue as nat)
    }

    /// The state of a broker in good order is a well-formed state of the
    /// model.
    pub proof fn lemma_view_well_formed(&self)
        requires
            self.wf(),
        ensures
            self@.well_formed(),
    {
        assert forall|name: Seq<char>| #[trigger] self@.queues.contains_key(name) implies name
            == generated_name(self@.queues[name].serial) && self@.queues[name].serial
            < self@.next_queue by {
            let i = queue_position(self.queues@, name);
            assert(has_queue(self.queues@, name));
            assert(self.queues@[i].name@ == name);
        }
    }

    /// A broker that holds nothing.
    pub fn new() -> (broker: Broker)
        ensures
            broker.wf(),
            broker@ == BrokerView::empty(),
    {
        let broker = Broker {
            exchanges: Vec::new(),
            queues: Vec::new(),
            next_queue: 0,
            next_connection: 0,
        };
        assert(broker@.exchanges =~= Map::empty());
        assert(broker@.queues =~= Map::empty());
        broker
    }

    fn find_exchange(&self, name: &String) -> (found: Option<usize>)
        ensures
            match found {
                Some(i) => i < self.exchanges.len() && self.exchanges[i as int].name@ == name@,
                None => !has_exchange(self.exchanges@, name@),
            },
    {
        let mut i: usize = 0;
        while i < self.exchanges.len()
            invariant
                i <= self.exchanges.len(),
                forall|j: int| 0 <= j < i ==> (#[trigger] self.exchanges[j]).name@ != name@,
            decreases self.exchanges.len() - i,
        {
            if self.exchanges[i].name == *name {
                return Some(i);
            }
            i += 1;
        }
        None
    }

    /// Declares an exchange.
    pub fn declare_exchange(&mut self, declare: &ExchangeDeclare) -> (outcome: Result<
        (),
        BrokerFailure,
    >)
        requires
            old(self).wf(),
        ensures
            final(self).wf(),
            final(self)@ == old(self)@.declare_exchange(declare@).0,
            outcome == old(self)@.declare_exchange(declare@).1,
    {
        match self.find_exchange(&declare.exchange) {
            Some(i) => {
                proof {
                    lemma_exchange_found(self.exchanges@, i as int);
                }
                if declare.passive || self.exchanges[i].attrs == declare.attrs {
                    Ok(())
                } else {
                    Err(BrokerFailure::Refused { code: PRECONDITION_FAILED })
                }
            },
            None => {
                if declare.passive {
                    Err(BrokerFailure::Refused { code: NOT_FOUND })
                } else {
                    let entry = ExchangeEntry {
                        name: declare.exchange.clone(),
                        attrs: declare.attrs,
                    };
                    proof {
                        lemma_exchange_pushed(self.exchanges@, entry);
                    }
                    self.exchanges.push(entry);
                    Ok(())
                }
            },
        }
    }
    fn find_queue(&self, name: &String) -> (found: Option<usize>)
        ensures
            match found {
                Some(i) => i < self.queues.len() && self.queues[i as int].name@ == name@,
                None => !has_queue(self.queues@, name@),
            },
    {
        let mut i: usize = 0;
        while i < self.queues.len()
            invariant
                i <= self.queues.len(),
                forall|j: int| 0 <= j < i ==> (#[trigger] self.queues[j]).name@ != name@,
            decreases self.queues.len() - i,
        {
            if self.queues[i].name == *name {
                return Some(i);
            }
            i += 1;
        }
        None
    }

    /// Opens a connection and hands back its number.
    pub fn open_connection(&mut self) -> (outcome: Result<u64, BrokerFailure>)
        requires
            old(self).wf(),
        ensures
            final(self).wf(),
            final(self)@ == old(self)@.open_connection().0,
            opened_view(outcome) == old(self)@.open_connection().1,
    {
        if self.next_connection == u64::MAX {
            Err(BrokerFailure::Refused { code: RESOURCE_ERROR })
        } else {
            let connection = self.next_connection;
            self.next_connection = connection + 1;
            Ok(connection)
        }
    }

    /// Declares a queue for `connection` and hands back its name.
    pub fn declare_queue(&mut self, connection: u64, declare: &QueueDeclare) -> (outcome: Result<
        String,
        BrokerFailure,
    >)
        requires
            old(self).wf(),
        ensures
            final(self).wf(),
            final(self)@ == old(self)@.declare_queue(connection as nat, declare@).0,
            declared_view(outcome) == old(self)@.declare_queue(connection as nat, declare@).1,
    {
        let covered = declare.queue.as_str().is_empty() && !declare.passive && !declare.durable
            && declare.exclusive && declare.auto_delete;
        if !covered {
            Err(BrokerFailure::Refused { code: NOT_IMPLEMENTED })
        } else if self.next_queue == u64::MAX {
            Err(BrokerFailure::Refused { code: RESOURCE_ERROR })
        } else {
            let serial = self.next_queue;
            let name = generated_queue_name(serial);
            let entry = QueueEntry {
                name: name.clone(),
                serial,
                owner: connection,
                bound: Vec::new(),
                consumer: None,
                pending: Vec::new(),
                unacked: Vec::new(),
            };
            proof {
                assert(texts(entry.bound@) =~= Seq::empty());
                assert(texts(entry.bound@).to_set() =~= Set::empty());
                assert(bodies(entry.pending@) =~= Seq::empty());
                assert(bodies(entry.unacked@) =~= Seq::empty());
                assert(entry.state() == QueueView::fresh(serial as nat, connection as nat));
                assert(!has_queue(self.queues@, entry.name@)) by {
                    if has_queue(self.queues@, entry.name@) {
                        let k = queue_position(self.queues@, entry.name@);
                        lemma_generated_names_differ(self.queues@[k].serial as nat, serial as nat);
                    }
                }
                lemma_queue_pushed(self.queues@, entry);
            }
            self.queues.push(entry);
            self.next_queue = serial + 1;
            Ok(name)
        }
    }

    fn names_contain(names: &Vec<String>, name: &String) -> (found: bool)
        ensures
            found == texts(names@).contains(name@),
    {
        let mut i: usize = 0;
        while i < names.len()
            invariant
                i <= names.len(),
                forall|j: int| 0 <= j < i ==> texts(names@)[j] != name@,
            decreases names.len() - i,
        {
            if names[i] == *name {
                assert(texts(names@)[i as int] == name@);
                return true;
            }
            i += 1;
        }
        false
    }

    /// Binds a queue of `connection` to an exchange.
    pub fn bind_queue(&mut self, connection: u64, bind: &QueueBind) -> (outcome: Result<
        (),
        BrokerFailure,
    >)
        requires
            old(self).wf(),
        ensures
            final(self).wf(),
            final(self)@ == old(self)@.bind_queue(connection as nat, bind@).0,
            outcome == old(self)@.bind_queue(connection as nat, bind@).1,
    {
        match self.find_queue(&bind.queue) {
            None => Err(BrokerFailure::Refused { code: NOT_FOUND }),
            Some(i) => {
                proof {
                    lemma_queue_found(self.queues@, i as int);
                }
                if self.queues[i].owner != connection {
                    Err(BrokerFailure::Refused { code: RESOURCE_LOCKED })
                } else {
                    match self.find_exchange(&bind.exchange) {
                        None => Err(BrokerFailure::Refused { code: NOT_FOUND }),
                        Some(_) => {
                            let ghost before = self.queues@;
                            if !Self::names_contain(&self.queues[i].bound, &bind.exchange) {
                                proof {
                                    lemma_texts_pushed(before[i as int].bound@, bind.exchange);
                                }
                                self.queues[i].bound.push(bind.exchange.clone());
                            } else {
                                assert(before[i as int].state().bound.insert(bind.exchange@)
                                    =~= before[i as int].state().bound);
                            }
                            proof {
                                let entry = self.queues@[i as int];
                                assert(self.queues@ =~= before.update(i as int, entry));
                                lemma_queue_updated(before, i as int, entry);
                                assert(entry.state() == QueueView {
                                    bound: before[i as int].state().bound.insert(bind.exchange@),
                                    ..before[i as int].state()
                                });
                            }
                            Ok(())
                        },
                    }
                }
            },
        }
    }

    /// Registers a consumer of `connection` on a queue.
    pub fn consume(&mut self, connection: u64, consume: &Consume) -> (outcome: Result<
        (),
        BrokerFailure,
    >)
        requires
            old(self).wf(),
        ensures
            final(self).wf(),
            final(self)@ == old(self)@.consume(connection as nat, consume@).0,
            outcome == old(self)@.consume(connection as nat, consume@).1,
    {
        match self.find_queue(&consume.queue) {
            None => Err(BrokerFailure::Refused { code: NOT_FOUND }),
            Some(i) => {
                proof {
                    lemma_queue_found(self.queues@, i as int);
                }
                if self.queues[i].owner != connection {
                    Err(BrokerFailure::Refused { code: RESOURCE_LOCKED })
                } else if consume.no_ack {
                    Err(BrokerFailure::Refused { code: NOT_IMPLEMENTED })
                } else if self.queues[i].consumer.is_some() {
                    Err(BrokerFailure::Refused { code: NOT_ALLOWED })
                } else {
                    let ghost before = self.queues@;
                    self.queues[i].consumer = Some(consume.consumer_tag.clone());
                    proof {
                        let entry = self.queues@[i as int];
                        assert(self.queues@ =~= before.update(i as int, entry));
                        lemma_queue_updated(before, i as int, entry);
                        assert(entry.state() == QueueView {
                            consumer: Some(consume.consumer_tag@),
                            ..before[i as int].state()
                        });
                    }
                    Ok(())
                }
            },
        }
    }
    /// Publishes a message.
    pub fn publish(&mut self, message: &Publish) -> (outcome: Result<(), BrokerFailure>)
        requires
            old(self).wf(),
        ensures
            final(self).wf(),
            final(self)@ == old(self)@.publish(message@).0,
            outcome == old(self)@.publish(message@).1,
    {
        match self.find_exchange(&message.exchange) {
            None => Err(BrokerFailure::Refused { code: NOT_FOUND }),
            Some(at) => {
                proof {
                    lemma_exchange_found(self.exchanges@, at as int);
                }
                if self.exchanges[at].attrs.kind != ExchangeKind::Fanout {
                    return Err(BrokerFailure::Refused { code: NOT_IMPLEMENTED });
                }
                let ghost before = self.queues@;
                let mut i: usize = 0;
                while i < self.queues.len()
                    invariant
                        i <= self.queues.len(),
                        self.queues.len() == before.len(),
                        self.exchanges == old(self).exchanges,
                        self.next_queue == old(self).next_queue,
                        self.next_connection == old(self).next_connection,
                        forall|j: int|
                            0 <= j < i ==> (#[trigger] self.queues[j]).name@ == before[j].name@
                                && self.queues[j].state() == before[j].state().offered(
                                message.exchange@,
                                message.body@,
                            ),
                        forall|j: int|
                            i <= j < before.len() ==> (#[trigger] self.queues[j]) == before[j],
                    decreases self.queues.len() - i,
                {
                    let ghost entry = self.queues@[i as int];
                    if Self::names_contain(&self.queues[i].bound, &message.exchange) {
                        self.queues[i].pending.push(message.body.clone());
                        assert(bodies(self.queues@[i as int].pending@) =~= bodies(
                            entry.pending@,
                        ).push(message.body@));
                    }
                    assert(self.queues@[i as int].state() == entry.state().offered(
                        message.exchange@,
                        message.body@,
                    ));
                    i += 1;
                }
                proof {
                    lemma_queues_offered(before, self.queues@, message.exchange@, message.body@);
                    assert forall|j: int| 0 <= j < self.queues@.len() implies (
                    #[trigger] self.queues@[j]).name@ == generated_name(
                        self.queues@[j].serial as nat,
                    ) && self.queues@[j].serial < self.next_queue by {
                        assert(before[j].name@ == generated_name(before[j].serial as nat));
                        assert(self.queues@[j].state().serial == before[j].state().serial);
                    }
                }
                Ok(())
            },
        }
    }

    /// Hands out the next delivery of a queue, if one waits.
    pub fn deliver(&mut self, queue: &String) -> (delivery: Option<Vec<u8>>)
        requires
            old(self).wf(),
        ensures
            final(self).wf(),
            final(self)@ == old(self)@.deliver(queue@).0,
            match delivery {
                Some(body) => old(self)@.deliver(queue@).1 == Some(body@),
                None => old(self)@.deliver(queue@).1 is None,
            },
    {
        match self.find_queue(queue) {
            None => None,
            Some(i) => {
                proof {
                    lemma_queue_found(self.queues@, i as int);
                }
                if self.queues[i].consumer.is_none() || self.queues[i].pending.len() == 0 {
                    None
                } else {
                    let ghost before = self.queues@;
                    let body = self.queues[i].pending.remove(0);
                    self.queues[i].unacked.push(body.clone());
                    proof {
                        let entry = self.queues@[i as int];
                        assert(self.queues@ =~= before.update(i as int, entry));
                        lemma_queue_updated(before, i as int, entry);
                        let state = before[i as int].state();
                        assert(bodies(entry.pending@) =~= state.pending.drop_first());
                        assert(bodies(entry.unacked@) =~= state.unacked.push(body@));
                        assert(entry.state() == QueueView {
                            pending: state.pending.drop_first(),
                            unacked: state.unacked.push(body@),
                            ..state
                        });
                    }
                    Some(body)
                }
            },
        }
    }

    /// Acknowledges the newest unsettled delivery of a queue.
    pub fn acknowledge(&mut self, queue: &String) -> (outcome: Result<(), BrokerFailure>)
        requires
            old(self).wf(),
        ensures
            final(self).wf(),
            final(self)@ == old(self)@.acknowledge(queue@).0,
            outcome == old(self)@.acknowledge(queue@).1,
    {
        match self.find_queue(queue) {
            None => Err(BrokerFailure::Refused { code: PRECONDITION_FAILED }),
            Some(i) => {
                proof {
                    lemma_queue_found(self.queues@, i as int);
                }
                if self.queues[i].unacked.len() == 0 {
                    return Err(BrokerFailure::Refused { code: PRECONDITION_FAILED });
                }
                let ghost before = self.queues@;
                let _ = self.queues[i].unacked.pop();
                proof {
                    let entry = self.queues@[i as int];
                    assert(self.queues@ =~= before.update(i as int, entry));
                    lemma_queue_updated(before, i as int, entry);
                    let state = before[i as int].state();
                    assert(bodies(entry.unacked@) =~= state.unacked.drop_last());
                    assert(entry.state() == QueueView {
                        unacked: state.unacked.drop_last(),
                        ..state
                    });
                }
                Ok(())
            },
        }
    }

    /// Rejects the newest unsettled delivery of a queue.
    pub fn reject(&mut self, queue: &String, requeue: bool) -> (outcome: Result<(), BrokerFailure>)
        requires
            old(self).wf(),
        ensures
            final(self).wf(),
            final(self)@ == old(self)@.reject(queue@, requeue).0,
            outcome == old(self)@.reject(queue@, requeue).1,
    {
        match self.find_queue(queue) {
            None => Err(BrokerFailure::Refused { code: PRECONDITION_FAILED }),
            Some(i) => {
                proof {
                    lemma_queue_found(self.queues@, i as int);
                }
                if self.queues[i].unacked.len() == 0 {
                    return Err(BrokerFailure::Refused { code: PRECONDITION_FAILED });
                }
                let ghost before = self.queues@;
                let ghost state = before[i as int].state();
                let body = self.queues[i].unacked.pop().unwrap();
                if requeue {
                    self.queues[i].pending.insert(0, body);
                    assert(bodies(self.queues@[i as int].pending@) =~= seq![body@] + state.pending);
                }
                proof {
                    let entry = self.queues@[i as int];
                    assert(self.queues@ =~= before.update(i as int, entry));
                    lemma_queue_updated(before, i as int, entry);
                    assert(bodies(entry.unacked@) =~= state.unacked.drop_last());
                    assert(entry.state() == QueueView {
                        unacked: state.unacked.drop_last(),
                        pending: if requeue {
                            seq![body@] + state.pending
                        } else {
                            state.pending
                        },
                        ..state
                    });
                }
                Ok(())
            },
        }
    }

    /// Closes a connection.
    pub fn close_connection(&mut self, connection: u64)
        requires
            old(self).wf(),
        ensures
            final(self).wf(),
            final(self)@ == old(self)@.close_connection(connection as nat),
    {
        let ghost before = queue_map(self.queues@);
        let mut i: usize = 0;
        while i < self.queues.len()
            invariant
                i <= self.queues.len(),
                self.wf(),
                self.exchanges == old(self).exchanges,
                self.next_queue == old(self).next_queue,
                self.next_connection == old(self).next_connection,
                forall|j: int| 0 <= j < i ==> (#[trigger] self.queues[j]).owner != connection,
                forall|name: Seq<char>| #[trigger]
                    queue_map(self.queues@).contains_key(name) ==> before.contains_key(name)
                        && queue_map(self.queues@)[name] == before[name],
                forall|name: Seq<char>| #[trigger]
                    before.contains_key(name) && before[name].owner != connection ==> queue_map(
                        self.queues@,
                    ).contains_key(name),
            decreases self.queues.len() - i,
        {
            if self.queues[i].owner == connection {
                proof {
                    lemma_queue_removed(self.queues@, i as int);
                    lemma_queue_found(self.queues@, i as int);
                }
                self.queues.remove(i);
            } else {
                i += 1;
            }
        }
        proof {
            let now = queue_map(self.queues@);
            assert forall|name: Seq<char>| now.contains_key(name) implies before[name].owner
                != connection by {
                let k = queue_position(self.queues@, name);
                assert(has_queue(self.queues@, name));
                lemma_queue_found(self.queues@, k);
            }
            assert(now =~= old(self)@.close_connection(connection as nat).queues);
        }
    }
    /// The properties of an exchange, if it exists.
    pub fn exchange(&self, name: &String) -> (attrs: Option<ExchangeAttrs>)
        requires
            self.wf(),
        ensures
            match attrs {
                Some(a) => self@.exchanges.contains_key(name@) && self@.exchanges[name@] == a,
                None => !self@.exchanges.contains_key(name@),
            },
    {
        match self.find_exchange(name) {
            Some(i) => {
                proof {
                    lemma_exchange_found(self.exchanges@, i as int);
                }
                Some(self.exchanges[i].attrs)
            },
            None => None,
        }
    }

    /// Whether a queue of this name exists.
    pub fn has_queue(&self, queue: &String) -> (found: bool)
        requires
            self.wf(),
        ensures
            found == self@.queues.contains_key(queue@),
    {
        match self.find_queue(queue) {
            Some(i) => {
                proof {
                    lemma_queue_found(self.queues@, i as int);
                }
                true
            },
            None => false,
        }
    }

    /// Whether the queue exists and is bound to the exchange.
    pub fn is_bound(&self, queue: &String, exchange: &String) -> (bound: bool)
        requires
            self.wf(),
        ensures
            bound == (self@.queues.contains_key(queue@) && self@.queues[queue@].bound.contains(
                exchange@,
            )),
    {
        match self.find_queue(queue) {
            Some(i) => {
                proof {
                    lemma_queue_found(self.queues@, i as int);
                }
                Self::names_contain(&self.queues[i].bound, exchange)
            },
            None => false,
        }
    }

    /// The number of messages that wait in a queue, if it exists.
    pub fn waiting(&self, queue: &String) -> (count: Option<usize>)
        requires
            self.wf(),
        ensures
            match count {
                Some(n) => self@.queues.contains_key(queue@) && self@.queues[queue@].pending.len()
                    == n,
                None => !self@.queues.contains_key(queue@),
            },
    {
        match self.find_queue(queue) {
            Some(i) => {
                proof {
                    lemma_queue_found(self.queues@, i as int);
                }
                Some(self.queues[i].pending.len())
            },
            None => None,
        }
    }

    /// The message that waits at `index` in a queue, the oldest at 0.
    pub fn waiting_body(&self, queue: &String, index: usize) -> (body: Option<Vec<u8>>)
        requires
            self.wf(),
        ensures
            match body {
                Some(bytes) => self@.queues.contains_key(queue@) && index
                    < self@.queues[queue@].pending.len() && self@.queues[queue@].pending[index as int]
                    == bytes@,
                None => !self@.queues.contains_key(queue@) || index
                    >= self@.queues[queue@].pending.len(),
            },
    {
        match self.find_queue(queue) {
            Some(i) => {
                proof {
                    lemma_queue_found(self.queues@, i as int);
                }
                if index < self.queues[i].pending.len() {
                    Some(self.queues[i].pending[index].clone())
                } else {
                    None
                }
            },
            None => None,
        }
    }

    /// The number of deliveries of a queue that are not settled, if the
    /// queue exists.
    pub fn unsettled(&self, queue: &String) -> (count: Option<usize>)
        requires
            self.wf(),
        ensures
            match count {
                Some(n) => self@.queues.contains_key(queue@) && self@.queues[queue@].unacked.len()
                    == n,
                None => !self@.queues.contains_key(queue@),
            },
    {
        match self.find_queue(queue) {
            Some(i) => {
                proof {
                    lemma_queue_found(self.queues@, i as int);
                }
                Some(self.queues[i].unacked.len())
            },
            None => None,
        }
    }
}

/// One publish to a fanout exchange that exists goes through, and every
/// queue bound to the exchange then holds the message exactly once more, as
/// its newest; a queue that is not bound is as before, and nothing else in
/// the broker changes.
pub proof fn lemma_fanout_reaches_every_bound_queue_once(b: BrokerView, message: PublishView)
    requires
        b.exchanges.contains_key(message.exchange),
        b.exchanges[message.exchange].kind == ExchangeKind::Fanout,
    ensures
        b.publish(message).1 is Ok,
        b.publish(message).0.exchanges == b.exchanges,
        b.publish(message).0.queues.dom() == b.queues.dom(),
        forall|name: Seq<char>| #[trigger]
            b.queues.contains_key(name) && b.queues[name].bound.contains(message.exchange) ==> {
                let after = b.publish(message).0.queues[name];
                &&& after.pending == b.queues[name].pending.push(message.body)
                &&& after.pending.len() == b.queues[name].pending.len() + 1
                &&& after.unacked == b.queues[name].unacked
                &&& after.bound == b.queues[name].bound
            },
        forall|name: Seq<char>| #[trigger]
            b.queues.contains_key(name) && !b.queues[name].bound.contains(message.exchange)
                ==> b.publish(message).0.queues[name] == b.queues[name],
{
    assert(b.publish(message).0.queues.dom() =~= b.queues.dom());
}

/// A publish to an exchange that does not exist is refused as not found and
/// changes nothing.
pub proof fn lemma_publish_needs_the_exchange(b: BrokerView, message: PublishView)
    requires
        !b.exchanges.contains_key(message.exchange),
    ensures
        b.publish(message) == (b, Err::<(), BrokerFailure>(refused(NOT_FOUND))),
{
}

/// Declaring an exchange again with the same properties goes through and
/// changes nothing, however often it is done; and once two declarations of
/// one name with the same properties have been made in any state, the
/// second has gone through if the first has.
pub proof fn lemma_declaring_again_changes_nothing(b: BrokerView, declare: ExchangeDeclareView)
    requires
        !declare.passive,
        b.declare_exchange(declare).1 is Ok,
    ensures
        ({
            let declared = b.declare_exchange(declare).0;
            &&& declared.exchanges.contains_key(declare.exchange)
            &&& declared.exchanges[declare.exchange] == declare.attrs
            &&& declared.declare_exchange(declare) == (declared, Ok::<(), BrokerFailure>(()))
        }),
{
}

/// The first declaration of a name always goes through, and a later one
/// with other properties is always refused, leaving the exchange as it was
/// declared first.
pub proof fn lemma_conflicting_declaration_is_refused(
    b: BrokerView,
    first: ExchangeDeclareView,
    second: ExchangeDeclareView,
)
    requires
        !first.passive,
        !second.passive,
        first.exchange == second.exchange,
        first.attrs != second.attrs,
        b.declare_exchange(first).1 is Ok,
    ensures
        ({
            let declared = b.declare_exchange(first).0;
            declared.declare_exchange(second) == (
                declared,
                Err::<(), BrokerFailure>(refused(PRECONDITION_FAILED)),
            )
        }),
        !b.exchanges.contains_key(first.exchange) ==> b.declare_exchange(first).1 is Ok,
{
}

/// A passive declaration creates nothing: it goes through exactly when the
/// exchange exists, and is refused as not found when it does not.
pub proof fn lemma_passive_declaration_only_checks(b: BrokerView, declare: ExchangeDeclareView)
    requires
        declare.passive,
    ensures
        b.declare_exchange(declare).0 == b,
        b.declare_exchange(declare).1 is Ok <==> b.exchanges.contains_key(declare.exchange),
        !b.exchanges.contains_key(declare.exchange) ==> b.declare_exchange(declare).1 == Err::<
            (),
            BrokerFailure,
        >(refused(NOT_FOUND)),
{
}

/// Two queues declared one after the other bear different names, whoever
/// declares them; each starts empty, unbound and owned by its connection,
/// and declaring the second leaves the first as it was.
pub proof fn lemma_declared_queues_are_apart(
    b: BrokerView,
    first_connection: nat,
    second_connection: nat,
    declare: QueueDeclareView,
)
    requires
        b.well_formed(),
        b.declare_queue(first_connection, declare).1 is Ok,
        b.declare_queue(first_connection, declare).0.declare_queue(second_connection, declare).1 is Ok,
    ensures
        ({
            let (one, first) = b.declare_queue(first_connection, declare);
            let (two, second) = one.declare_queue(second_connection, declare);
            &&& first->Ok_0 != second->Ok_0
            &&& !b.queues.contains_key(first->Ok_0)
            &&& !one.queues.contains_key(second->Ok_0)
            &&& two.queues.contains_key(first->Ok_0)
            &&& two.queues.contains_key(second->Ok_0)
            &&& two.queues[first->Ok_0] == QueueView::fresh(b.next_queue, first_connection)
            &&& two.queues[second->Ok_0] == QueueView::fresh(one.next_queue, second_connection)
            &&& two.well_formed()
        }),
{
    lemma_generated_names_differ(b.next_queue, b.next_queue + 1);
    lemma_declared_queue_is_new(b, first_connection, declare);
    let one = b.declare_queue(first_connection, declare).0;
    lemma_declared_queue_is_new(one, second_connection, declare);
}

/// A declared queue is new: no queue bore its name before, and the queues
/// that were there are untouched.
pub proof fn lemma_declared_queue_is_new(b: BrokerView, connection: nat, declare: QueueDeclareView)
    requires
        b.well_formed(),
        b.declare_queue(connection, declare).1 is Ok,
    ensures
        ({
            let (after, name) = b.declare_queue(connection, declare);
            &&& !b.queues.contains_key(name->Ok_0)
            &&& after.queues.contains_key(name->Ok_0)
            &&& after.queues[name->Ok_0] == QueueView::fresh(b.next_queue, connection)
            &&& forall|other: Seq<char>| #[trigger]
                b.queues.contains_key(other) ==> after.queues.contains_key(other)
                    && after.queues[other] == b.queues[other]
            &&& after.well_formed()
        }),
{
    let name = generated_name(b.next_queue);
    if b.queues.contains_key(name) {
        lemma_generated_names_differ(b.queues[name].serial, b.next_queue);
    }
}

/// Every step of the model keeps its state well formed.
pub proof fn lemma_steps_keep_the_state_well_formed(b: BrokerView)
    requires
        b.well_formed(),
    ensures
        BrokerView::empty().well_formed(),
        b.open_connection().0.well_formed(),
        forall|d: ExchangeDeclareView| #[trigger] b.declare_exchange(d).0.well_formed(),
        forall|c: nat, d: QueueDeclareView| #[trigger] b.declare_queue(c, d).0.well_formed(),
        forall|c: nat, d: QueueBindView| #[trigger] b.bind_queue(c, d).0.well_formed(),
        forall|c: nat, d: ConsumeView| #[trigger] b.consume(c, d).0.well_formed(),
        forall|m: PublishView| #[trigger] b.publish(m).0.well_formed(),
        forall|q: Seq<char>| #[trigger] b.deliver(q).0.well_formed(),
        forall|q: Seq<char>| #[trigger] b.acknowledge(q).0.well_formed(),
        forall|q: Seq<char>, r: bool| #[trigger] b.reject(q, r).0.well_formed(),
        forall|c: nat| #[trigger] b.close_connection(c).well_formed(),
{
    assert forall|c: nat, d: QueueDeclareView| #[trigger]
        b.declare_queue(c, d).0.well_formed() by {
        if b.declare_queue(c, d).1 is Ok {
            lemma_declared_queue_is_new(b, c, d);
        }
    }
}

/// When a connection closes, its queues are gone and every other queue is
/// as before: what is published afterwards reaches none of the queues that
/// are gone.
pub proof fn lemma_closing_takes_the_queues_along(b: BrokerView, connection: nat)
    ensures
        forall|name: Seq<char>| #[trigger]
            b.queues.contains_key(name) && b.queues[name].owner == connection
                ==> !b.close_connection(connection).queues.contains_key(name),
        forall|name: Seq<char>| #[trigger]
            b.queues.contains_key(name) && b.queues[name].owner != connection
                ==> b.close_connection(connection).queues.contains_key(name) && b.close_connection(
                connection,
            ).queues[name] == b.queues[name],
        forall|name: Seq<char>| #[trigger]
            b.close_connection(connection).queues.contains_key(name) ==> b.queues.contains_key(
                name,
            ),
        b.close_connection(connection).exchanges == b.exchanges,
{
}

} // verus!
