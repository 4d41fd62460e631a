//! The declarations each role makes: which exchange, which queue, which
//! binding, and with what properties.

use vstd::prelude::*;
use crate::protocol::{
    viewed_exchange_attrs, ExchangeAttrs, ExchangeDeclare, ExchangeDeclareView, ExchangeKind,
    QueueBind, QueueBindView, QueueDeclare, QueueDeclareView,
};

verus! {

/// The name of the exchange view events go through.
pub open spec fn viewed_exchange_name() -> Seq<char> {
    "viewed"@
}

/// The tag a subscriber registers its consumer under.
pub open spec fn viewed_consumer_tag() -> Seq<char> {
    "viewed_consumer"@
}

/// The declaration a subscriber makes of its exchange: it creates the
/// exchange where there is none and waits for the broker's answer.
pub open spec fn subscriber_exchange_view(exchange: Seq<char>) -> ExchangeDeclareView {
    ExchangeDeclareView {
        exchange,
        attrs: viewed_exchange_attrs(),
        passive: false,
        nowait: false,
    }
}

/// The check a publisher makes before it publishes: the same declaration,
/// but passive, so that it creates nothing and fails where the exchange is
/// missing.
pub open spec fn publisher_check_view(exchange: Seq<char>) -> ExchangeDeclareView {
    ExchangeDeclareView { exchange, attrs: viewed_exchange_attrs(), passive: true, nowait: false }
}

/// The declaration of a subscriber's queue: named by the broker, owned by
/// the declaring connection alone and deleted with it, not durable.
pub open spec fn subscriber_queue_view() -> QueueDeclareView {
    QueueDeclareView {
        queue: Seq::<char>::empty(),
        passive: false,
        durable: false,
        exclusive: true,
        auto_delete: true,
        nowait: false,
    }
}

/// The declaration of a subscriber's queue under a name of the caller's
/// choice: in everything but the name it is the declaration of a queue that
/// the broker names.
pub open spec fn named_queue_view(queue: Seq<char>) -> QueueDeclareView {
    QueueDeclareView { queue, ..subscriber_queue_view() }
}

/// The binding of a subscriber's queue to its exchange.  The routing key is
/// empty: a fanout exchange ignores it.
pub open spec fn subscriber_binding_view(queue: Seq<char>, exchange: Seq<char>) -> QueueBindView {
    QueueBindView { queue, exchange, routing_key: Seq::<char>::empty(), nowait: false }
}

/// The name of the exchange view events go through.
pub fn viewed_exchange() -> (name: String)
    ensures
        name@ == viewed_exchange_name(),
{
    "viewed".to_owned()
}

/// The tag a subscriber registers its consumer under.
pub fn consumer_tag() -> (tag: String)
    ensures
        tag@ == viewed_consumer_tag(),
{
    "viewed_consumer".to_owned()
}

fn viewed_attrs() -> (attrs: ExchangeAttrs)
    ensures
        attrs == viewed_exchange_attrs(),
{
    ExchangeAttrs { kind: ExchangeKind::Fanout, durable: true, auto_delete: false, internal: false }
}

pub fn subscriber_exchange(exchange: &str) -> (declare: ExchangeDeclare)
    ensures
        declare@ == subscriber_exchange_view(exchange@),
{
    ExchangeDeclare {
        exchange: exchange.to_owned(),
        attrs: viewed_attrs(),
        passive: false,
        nowait: false,
    }
}

pub fn publisher_check(exchange: &str) -> (declare: ExchangeDeclare)
    ensures
        declare@ == publisher_check_view(exchange@),
{
    ExchangeDeclare {
        exchange: exchange.to_owned(),
        attrs: viewed_attrs(),
        passive: true,
        nowait: false,
    }
}

pub fn subscriber_queue() -> (declare: QueueDeclare)
    ensures
        declare@ == subscriber_queue_view(),
{
    QueueDeclare {
        queue: String::new(),
        passive: false,
        durable: false,
        exclusive: true,
        auto_delete: true,
        nowait: false,
    }
}

/// The declaration of a subscriber's queue under a name of the caller's
/// choice.
pub fn named_queue(queue: &str) -> (declare: QueueDeclare)
    ensures
        declare@ == named_queue_view(queue@),
{
    QueueDeclare {
        queue: queue.to_owned(),
        passive: false,
        durable: false,
        exclusive: true,
        auto_delete: true,
        nowait: false,
    }
}

pub fn subscriber_binding(queue: &str, exchange: &str) -> (bind: QueueBind)
    ensures
        bind@ == subscriber_binding_view(queue@, exchange@),
{
    QueueBind {
        queue: queue.to_owned(),
        exchange: exchange.to_owned(),
        routing_key: String::new(),
        nowait: false,
    }
}

/// Whatever its name, a subscriber's queue is not durable, belongs to the
/// declaring connection alone and is deleted with it.
pub proof fn lemma_every_queue_is_exclusive_and_transient(queue: Seq<char>)
    ensures
        !named_queue_view(queue).durable,
        named_queue_view(queue).exclusive,
        named_queue_view(queue).auto_delete,
        !named_queue_view(queue).passive,
        named_queue_view(queue).queue == queue,
        named_queue_view(Seq::<char>::empty()) == subscriber_queue_view(),
        !subscriber_queue_view().durable,
        subscriber_queue_view().exclusive,
        subscriber_queue_view().auto_delete,
{
}

/// Every subscriber declares an exchange of a given name in the same way,
/// and the publisher's check asks about exactly that declaration: the two
/// differ in nothing but `passive`.
pub proof fn lemma_roles_agree_on_the_exchange(exchange: Seq<char>)
    ensures
        subscriber_exchange_view(exchange).attrs == publisher_check_view(exchange).attrs,
        subscriber_exchange_view(exchange).exchange == publisher_check_view(exchange).exchange,
        subscriber_exchange_view(exchange).nowait == publisher_check_view(exchange).nowait,
        !subscriber_exchange_view(exchange).passive,
        publisher_check_view(exchange).passive,
        subscriber_exchange_view(exchange).attrs.kind == ExchangeKind::Fanout,
{
}

} // verus!
