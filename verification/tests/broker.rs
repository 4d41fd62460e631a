use viewcast::broker::Broker;
use viewcast::protocol::{
    BrokerFailure, Consume, ExchangeAttrs, ExchangeDeclare, ExchangeKind, Publish, QueueDeclare,
};
use viewcast::topology::{
    named_queue, publisher_check, subscriber_binding, subscriber_exchange, subscriber_queue,
};

fn viewed() -> String {
    "viewed".to_string()
}

fn message(exchange: &str, body: &[u8]) -> Publish {
    Publish {
        exchange: exchange.to_string(),
        routing_key: String::new(),
        mandatory: false,
        immediate: false,
        body: body.to_vec(),
    }
}

fn registration(queue: &str) -> Consume {
    Consume {
        queue: queue.to_string(),
        consumer_tag: "viewed_consumer".to_string(),
        no_local: false,
        no_ack: false,
        exclusive: false,
        nowait: false,
    }
}

fn subscriber(broker: &mut Broker) -> (u64, String) {
    let connection = broker.open_connection().expect("a connection");
    assert_eq!(broker.declare_exchange(&subscriber_exchange("viewed")), Ok(()));
    let queue = broker.declare_queue(connection, &subscriber_queue()).expect("a queue");
    assert_eq!(broker.bind_queue(connection, &subscriber_binding(&queue, "viewed")), Ok(()));
    (connection, queue)
}

#[test]
fn a_new_broker_holds_nothing() {
    let broker = Broker::new();
    assert_eq!(broker.exchange(&viewed()), None);
    assert!(!broker.has_queue(&"amq.gen-0".to_string()));
    assert_eq!(broker.waiting(&"amq.gen-0".to_string()), None);
}

#[test]
fn connections_are_numbered_in_order() {
    let mut broker = Broker::new();
    assert_eq!(broker.open_connection(), Ok(0));
    assert_eq!(broker.open_connection(), Ok(1));
    assert_eq!(broker.open_connection(), Ok(2));
}

#[test]
fn declaring_an_exchange_creates_it() {
    let mut broker = Broker::new();
    assert_eq!(broker.declare_exchange(&subscriber_exchange("viewed")), Ok(()));
    assert_eq!(
        broker.exchange(&viewed()),
        Some(ExchangeAttrs {
            kind: ExchangeKind::Fanout,
            durable: true,
            auto_delete: false,
            internal: false,
        })
    );
}

#[test]
fn declaring_the_same_exchange_again_never_fails() {
    let mut broker = Broker::new();
    for _ in 0..5 {
        assert_eq!(broker.declare_exchange(&subscriber_exchange("viewed")), Ok(()));
    }
    assert!(broker.exchange(&viewed()).is_some());
}

#[test]
fn declaring_an_exchange_of_another_kind_always_fails() {
    let mut broker = Broker::new();
    assert_eq!(broker.declare_exchange(&subscriber_exchange("viewed")), Ok(()));
    let mut other = subscriber_exchange("viewed");
    other.attrs.kind = ExchangeKind::Direct;
    for _ in 0..3 {
        assert_eq!(
            broker.declare_exchange(&other),
            Err(BrokerFailure::Refused { code: 406 })
        );
    }
    assert_eq!(broker.exchange(&viewed()).map(|attrs| attrs.kind), Some(ExchangeKind::Fanout));
    assert_eq!(broker.declare_exchange(&subscriber_exchange("viewed")), Ok(()));
}

#[test]
fn declaring_an_exchange_with_another_flag_fails() {
    let mut broker = Broker::new();
    assert_eq!(broker.declare_exchange(&subscriber_exchange("viewed")), Ok(()));
    let mut other = subscriber_exchange("viewed");
    other.attrs.durable = false;
    assert_eq!(broker.declare_exchange(&other), Err(BrokerFailure::Refused { code: 406 }));
}

#[test]
fn a_passive_declaration_only_checks() {
    let mut broker = Broker::new();
    assert_eq!(
        broker.declare_exchange(&publisher_check("viewed")),
        Err(BrokerFailure::Refused { code: 404 })
    );
    assert_eq!(broker.exchange(&viewed()), None);
    assert_eq!(broker.declare_exchange(&subscriber_exchange("viewed")), Ok(()));
    assert_eq!(broker.declare_exchange(&publisher_check("viewed")), Ok(()));
}

#[test]
fn a_passive_declaration_does_not_compare_properties() {
    let mut broker = Broker::new();
    let direct = ExchangeDeclare {
        exchange: "viewed".to_string(),
        attrs: ExchangeAttrs {
            kind: ExchangeKind::Direct,
            durable: false,
            auto_delete: false,
            internal: false,
        },
        passive: false,
        nowait: false,
    };
    assert_eq!(broker.declare_exchange(&direct), Ok(()));
    assert_eq!(broker.declare_exchange(&publisher_check("viewed")), Ok(()));
}

#[test]
fn declared_queues_get_names_of_their_own() {
    let mut broker = Broker::new();
    let first = broker.declare_queue(0, &subscriber_queue()).expect("a queue");
    let second = broker.declare_queue(0, &subscriber_queue()).expect("a queue");
    let third = broker.declare_queue(1, &subscriber_queue()).expect("a queue");
    assert_eq!(first, "amq.gen-0");
    assert_eq!(second, "amq.gen-1");
    assert_eq!(third, "amq.gen-2");
    assert!(broker.has_queue(&first) && broker.has_queue(&second) && broker.has_queue(&third));
    assert_eq!(broker.waiting(&first), Some(0));
    assert_eq!(broker.unsettled(&first), Some(0));
    assert!(!broker.is_bound(&first, &viewed()));
}

#[test]
fn the_model_declares_no_other_kind_of_queue() {
    let mut broker = Broker::new();
    assert_eq!(
        broker.declare_queue(0, &named_queue("viewed")),
        Err(BrokerFailure::Refused { code: 540 })
    );
    let durable = QueueDeclare { durable: true, ..subscriber_queue() };
    assert_eq!(broker.declare_queue(0, &durable), Err(BrokerFailure::Refused { code: 540 }));
    let mut shared = subscriber_queue();
    shared.exclusive = false;
    assert_eq!(broker.declare_queue(0, &shared), Err(BrokerFailure::Refused { code: 540 }));
    let named = QueueDeclare { queue: "mine".to_string(), ..subscriber_queue() };
    assert_eq!(broker.declare_queue(0, &named), Err(BrokerFailure::Refused { code: 540 }));
    assert!(!broker.has_queue(&"mine".to_string()));
}

#[test]
fn binding_needs_the_queue_the_owner_and_the_exchange() {
    let mut broker = Broker::new();
    let queue = broker.declare_queue(0, &subscriber_queue()).expect("a queue");
    assert_eq!(
        broker.bind_queue(0, &subscriber_binding("amq.gen-9", "viewed")),
        Err(BrokerFailure::Refused { code: 404 })
    );
    assert_eq!(
        broker.bind_queue(0, &subscriber_binding(&queue, "viewed")),
        Err(BrokerFailure::Refused { code: 404 })
    );
    assert_eq!(broker.declare_exchange(&subscriber_exchange("viewed")), Ok(()));
    assert_eq!(
        broker.bind_queue(1, &subscriber_binding(&queue, "viewed")),
        Err(BrokerFailure::Refused { code: 405 })
    );
    assert!(!broker.is_bound(&queue, &viewed()));
    assert_eq!(broker.bind_queue(0, &subscriber_binding(&queue, "viewed")), Ok(()));
    assert!(broker.is_bound(&queue, &viewed()));
}

#[test]
fn one_publish_reaches_every_bound_queue_once() {
    let mut broker = Broker::new();
    let mut queues = Vec::new();
    for _ in 0..4 {
        queues.push(subscriber(&mut broker).1);
    }
    let unbound = broker.declare_queue(0, &subscriber_queue()).expect("a queue");
    assert_eq!(broker.publish(&message("viewed", b"one")), Ok(()));
    for queue in &queues {
        assert_eq!(broker.waiting(queue), Some(1));
        assert_eq!(broker.waiting_body(queue, 0), Some(b"one".to_vec()));
        assert_eq!(broker.waiting_body(queue, 1), None);
    }
    assert_eq!(broker.waiting(&unbound), Some(0));
    assert_eq!(broker.publish(&message("viewed", b"two")), Ok(()));
    for queue in &queues {
        assert_eq!(broker.waiting(queue), Some(2));
        assert_eq!(broker.waiting_body(queue, 0), Some(b"one".to_vec()));
        assert_eq!(broker.waiting_body(queue, 1), Some(b"two".to_vec()));
    }
}

#[test]
fn binding_twice_does_not_double_the_deliveries() {
    let mut broker = Broker::new();
    let (connection, queue) = subscriber(&mut broker);
    assert_eq!(broker.bind_queue(connection, &subscriber_binding(&queue, "viewed")), Ok(()));
    assert_eq!(broker.publish(&message("viewed", b"one")), Ok(()));
    assert_eq!(broker.waiting(&queue), Some(1));
}

#[test]
fn a_fanout_exchange_ignores_the_routing_key() {
    let mut broker = Broker::new();
    let (_, queue) = subscriber(&mut broker);
    let mut keyed = message("viewed", b"keyed");
    keyed.routing_key = "some.key".to_string();
    assert_eq!(broker.publish(&keyed), Ok(()));
    assert_eq!(broker.waiting_body(&queue, 0), Some(b"keyed".to_vec()));
}

#[test]
fn a_publish_without_the_exchange_is_not_found() {
    let mut broker = Broker::new();
    let queue = broker.declare_queue(0, &subscriber_queue()).expect("a queue");
    assert_eq!(
        broker.publish(&message("viewed", b"one")),
        Err(BrokerFailure::Refused { code: 404 })
    );
    assert_eq!(broker.waiting(&queue), Some(0));
}

#[test]
fn the_model_routes_fanout_exchanges_only() {
    let mut broker = Broker::new();
    let mut direct = subscriber_exchange("direct");
    direct.attrs.kind = ExchangeKind::Direct;
    assert_eq!(broker.declare_exchange(&direct), Ok(()));
    assert_eq!(
        broker.publish(&message("direct", b"one")),
        Err(BrokerFailure::Refused { code: 540 })
    );
}

#[test]
fn consuming_needs_the_queue_and_its_owner() {
    let mut broker = Broker::new();
    let (connection, queue) = subscriber(&mut broker);
    assert_eq!(
        broker.consume(connection, &registration("amq.gen-9")),
        Err(BrokerFailure::Refused { code: 404 })
    );
    assert_eq!(
        broker.consume(connection + 1, &registration(&queue)),
        Err(BrokerFailure::Refused { code: 405 })
    );
    let mut unacknowledged = registration(&queue);
    unacknowledged.no_ack = true;
    assert_eq!(
        broker.consume(connection, &unacknowledged),
        Err(BrokerFailure::Refused { code: 540 })
    );
    assert_eq!(broker.consume(connection, &registration(&queue)), Ok(()));
    assert_eq!(
        broker.consume(connection, &registration(&queue)),
        Err(BrokerFailure::Refused { code: 530 })
    );
}

#[test]
fn deliveries_come_oldest_first_and_only_to_a_consumer() {
    let mut broker = Broker::new();
    let (connection, queue) = subscriber(&mut broker);
    assert_eq!(broker.publish(&message("viewed", b"one")), Ok(()));
    assert_eq!(broker.publish(&message("viewed", b"two")), Ok(()));
    assert_eq!(broker.deliver(&queue), None);
    assert_eq!(broker.consume(connection, &registration(&queue)), Ok(()));
    assert_eq!(broker.deliver(&queue), Some(b"one".to_vec()));
    assert_eq!(broker.waiting(&queue), Some(1));
    assert_eq!(broker.unsettled(&queue), Some(1));
    assert_eq!(broker.deliver(&queue), Some(b"two".to_vec()));
    assert_eq!(broker.deliver(&queue), None);
    assert_eq!(broker.unsettled(&queue), Some(2));
    assert_eq!(broker.deliver(&"amq.gen-9".to_string()), None);
}

#[test]
fn an_acknowledged_delivery_is_gone() {
    let mut broker = Broker::new();
    let (connection, queue) = subscriber(&mut broker);
    assert_eq!(broker.publish(&message("viewed", b"one")), Ok(()));
    assert_eq!(broker.consume(connection, &registration(&queue)), Ok(()));
    assert_eq!(broker.acknowledge(&queue), Err(BrokerFailure::Refused { code: 406 }));
    assert_eq!(broker.deliver(&queue), Some(b"one".to_vec()));
    assert_eq!(broker.acknowledge(&queue), Ok(()));
    assert_eq!(broker.unsettled(&queue), Some(0));
    assert_eq!(broker.waiting(&queue), Some(0));
    assert_eq!(broker.acknowledge(&queue), Err(BrokerFailure::Refused { code: 406 }));
    assert_eq!(
        broker.acknowledge(&"amq.gen-9".to_string()),
        Err(BrokerFailure::Refused { code: 406 })
    );
}

#[test]
fn a_rejected_delivery_is_dropped_unless_requeued() {
    let mut broker = Broker::new();
    let (connection, queue) = subscriber(&mut broker);
    assert_eq!(broker.publish(&message("viewed", b"one")), Ok(()));
    assert_eq!(broker.publish(&message("viewed", b"two")), Ok(()));
    assert_eq!(broker.consume(connection, &registration(&queue)), Ok(()));
    assert_eq!(broker.reject(&queue, false), Err(BrokerFailure::Refused { code: 406 }));
    assert_eq!(broker.deliver(&queue), Some(b"one".to_vec()));
    assert_eq!(broker.reject(&queue, true), Ok(()));
    assert_eq!(broker.waiting(&queue), Some(2));
    assert_eq!(broker.waiting_body(&queue, 0), Some(b"one".to_vec()));
    assert_eq!(broker.deliver(&queue), Some(b"one".to_vec()));
    assert_eq!(broker.reject(&queue, false), Ok(()));
    assert_eq!(broker.waiting(&queue), Some(1));
    assert_eq!(broker.unsettled(&queue), Some(0));
    assert_eq!(broker.deliver(&queue), Some(b"two".to_vec()));
}

#[test]
fn closing_a_connection_takes_its_queues_along() {
    let mut broker = Broker::new();
    let (first, first_queue) = subscriber(&mut broker);
    let (_, second_queue) = subscriber(&mut broker);
    assert_eq!(broker.publish(&message("viewed", b"one")), Ok(()));
    broker.close_connection(first);
    assert!(!broker.has_queue(&first_queue));
    assert!(broker.has_queue(&second_queue));
    assert_eq!(broker.waiting(&second_queue), Some(1));
    assert!(broker.exchange(&viewed()).is_some());
    assert_eq!(broker.publish(&message("viewed", b"two")), Ok(()));
    assert_eq!(broker.waiting(&first_queue), None);
    assert_eq!(broker.waiting(&second_queue), Some(2));
    let (_, again) = subscriber(&mut broker);
    assert_ne!(again, first_queue);
    assert_eq!(broker.waiting(&again), Some(0));
}
