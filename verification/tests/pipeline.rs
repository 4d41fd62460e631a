use viewcast::bootstrap::BootstrapError;
use viewcast::consumer::ConsumerError;
use viewcast::event::ViewEvent;
use viewcast::pipeline::{bootstrap, consume, publish, World};
use viewcast::protocol::{BrokerFailure, Command, ExchangeKind, Publish, Reply};
use viewcast::publisher::PublishError;
use viewcast::store::RecordStore;
use viewcast::topology::{subscriber_exchange, subscriber_queue};

fn event(path: &str) -> ViewEvent {
    ViewEvent::new(path.to_string()).expect("a path that is not empty")
}

fn viewed() -> String {
    "viewed".to_string()
}

fn raw(world: &mut World, body: &[u8]) {
    let message = Publish {
        exchange: viewed(),
        routing_key: String::new(),
        mandatory: false,
        immediate: false,
        body: body.to_vec(),
    };
    assert_eq!(world.broker.publish(&message), Ok(()));
}

#[test]
fn publishing_before_any_subscriber_fails_with_no_such_exchange() {
    let mut world = World::new(8);
    let connection = world.broker.open_connection().expect("a connection");
    assert_eq!(
        publish(&mut world, connection, "viewed", &event("movies/a.mp4")),
        Err(PublishError::NoSuchExchange)
    );
    assert_eq!(world.broker.exchange(&viewed()), None);
    assert_eq!(
        publish(&mut world, connection, "viewed", &event("movies/a.mp4")),
        Err(PublishError::NoSuchExchange)
    );
}

#[test]
fn publishing_works_once_a_subscriber_has_come_up() {
    let mut world = World::new(8);
    let publisher = world.broker.open_connection().expect("a connection");
    let subscriber = world.broker.open_connection().expect("a connection");
    assert_eq!(
        publish(&mut world, publisher, "viewed", &event("early.mp4")),
        Err(PublishError::NoSuchExchange)
    );
    let queue = bootstrap(&mut world, subscriber, "viewed").expect("a queue");
    assert_eq!(world.broker.waiting(&queue), Some(0));
    assert_eq!(publish(&mut world, publisher, "viewed", &event("late.mp4")), Ok(()));
    assert_eq!(world.broker.waiting(&queue), Some(1));
    assert_eq!(
        world.broker.waiting_body(&queue, 0),
        Some(b"{\"video_path\":\"late.mp4\"}".to_vec())
    );
}

#[test]
fn a_subscriber_comes_up_with_a_bound_queue() {
    let mut world = World::new(8);
    let connection = world.broker.open_connection().expect("a connection");
    let queue = bootstrap(&mut world, connection, "viewed").expect("a queue");
    assert_eq!(queue, "amq.gen-0");
    assert!(world.broker.has_queue(&queue));
    assert!(world.broker.is_bound(&queue, &viewed()));
    assert_eq!(
        world.broker.exchange(&viewed()).map(|attrs| attrs.kind),
        Some(ExchangeKind::Fanout)
    );
    assert_eq!(world.store.len(), 0);
}

#[test]
fn any_number_of_subscribers_come_up_on_one_exchange() {
    let mut world = World::new(8);
    let mut queues = Vec::new();
    for _ in 0..6 {
        let connection = world.broker.open_connection().expect("a connection");
        queues.push(bootstrap(&mut world, connection, "viewed").expect("a queue"));
    }
    for (i, queue) in queues.iter().enumerate() {
        for other in &queues[i + 1..] {
            assert_ne!(queue, other);
        }
    }
}

#[test]
fn a_subscriber_does_not_come_up_on_an_exchange_of_another_kind() {
    let mut world = World::new(8);
    let mut direct = subscriber_exchange("viewed");
    direct.attrs.kind = ExchangeKind::Direct;
    assert_eq!(world.broker.declare_exchange(&direct), Ok(()));
    let connection = world.broker.open_connection().expect("a connection");
    let outcome = bootstrap(&mut world, connection, "viewed");
    assert_eq!(outcome, Err(BootstrapError::Exchange(BrokerFailure::Refused { code: 406 })));
    assert!(outcome.unwrap_err().exchange_mismatch());
    assert!(!world.broker.has_queue(&"amq.gen-0".to_string()));
}

#[test]
fn two_subscribers_of_one_kind_each_get_every_event() {
    let mut world = World::new(8);
    let publisher = world.broker.open_connection().expect("a connection");
    let first = world.broker.open_connection().expect("a connection");
    let second = world.broker.open_connection().expect("a connection");
    let first_queue = bootstrap(&mut world, first, "viewed").expect("a queue");
    let second_queue = bootstrap(&mut world, second, "viewed").expect("a queue");
    assert_ne!(first_queue, second_queue);
    for path in ["a.mp4", "b.mp4", "c.mp4"] {
        assert_eq!(publish(&mut world, publisher, "viewed", &event(path)), Ok(()));
    }
    for queue in [&first_queue, &second_queue] {
        assert_eq!(world.broker.waiting(queue), Some(3));
        assert_eq!(world.broker.waiting_body(queue, 0), Some(b"{\"video_path\":\"a.mp4\"}".to_vec()));
        assert_eq!(world.broker.waiting_body(queue, 1), Some(b"{\"video_path\":\"b.mp4\"}".to_vec()));
        assert_eq!(world.broker.waiting_body(queue, 2), Some(b"{\"video_path\":\"c.mp4\"}".to_vec()));
    }
    assert_eq!(consume(&mut world, first, &first_queue, "viewed_consumer"), Ok(()));
    assert_eq!(world.store.len(), 3);
    assert_eq!(world.broker.waiting(&first_queue), Some(0));
    assert_eq!(world.broker.waiting(&second_queue), Some(3));
}

#[test]
fn a_view_travels_from_the_publisher_to_both_subscribers() {
    let mut world = World::new(8);
    let backend = world.broker.open_connection().expect("a connection");
    let history = world.broker.open_connection().expect("a connection");
    let recommendations = world.broker.open_connection().expect("a connection");
    let history_queue = bootstrap(&mut world, history, "viewed").expect("a queue");
    let recommendations_queue = bootstrap(&mut world, recommendations, "viewed").expect("a queue");

    assert_eq!(publish(&mut world, backend, "viewed", &event("movies/a.mp4")), Ok(()));
    let body = b"{\"video_path\":\"movies/a.mp4\"}".to_vec();
    assert_eq!(world.broker.waiting_body(&history_queue, 0), Some(body.clone()));
    assert_eq!(world.broker.waiting_body(&recommendations_queue, 0), Some(body));

    assert_eq!(consume(&mut world, history, &history_queue, "viewed_consumer"), Ok(()));
    assert_eq!(world.store.len(), 1);
    assert_eq!(world.store.record(0), Some("movies/a.mp4"));
    assert_eq!(world.broker.waiting(&history_queue), Some(0));
    assert_eq!(world.broker.unsettled(&history_queue), Some(0));
    assert_eq!(world.broker.waiting(&recommendations_queue), Some(1));

    let history_store = std::mem::replace(&mut world.store, RecordStore::new(8));
    assert_eq!(
        consume(&mut world, recommendations, &recommendations_queue, "viewed_consumer"),
        Ok(())
    );
    assert_eq!(world.store.len(), 1);
    assert_eq!(world.store.record(0), Some("movies/a.mp4"));
    assert_eq!(world.broker.waiting(&recommendations_queue), Some(0));
    assert_eq!(world.broker.unsettled(&recommendations_queue), Some(0));
    assert_eq!(history_store.len(), 1);
    assert_eq!(history_store.record(0), Some("movies/a.mp4"));
}

#[test]
fn bodies_that_do_not_decode_are_dropped_and_the_rest_is_recorded() {
    let mut world = World::new(8);
    let backend = world.broker.open_connection().expect("a connection");
    let history = world.broker.open_connection().expect("a connection");
    let queue = bootstrap(&mut world, history, "viewed").expect("a queue");
    raw(&mut world, b"not json");
    assert_eq!(publish(&mut world, backend, "viewed", &event("a.mp4")), Ok(()));
    raw(&mut world, b"{\"other\":\"field\"}");
    raw(&mut world, b"{\"video_path\":17}");
    assert_eq!(publish(&mut world, backend, "viewed", &event("b.mp4")), Ok(()));
    raw(&mut world, b"");
    assert_eq!(world.broker.waiting(&queue), Some(6));
    assert_eq!(consume(&mut world, history, &queue, "viewed_consumer"), Ok(()));
    assert_eq!(world.store.len(), 2);
    assert_eq!(world.store.record(0), Some("a.mp4"));
    assert_eq!(world.store.record(1), Some("b.mp4"));
    assert_eq!(world.broker.waiting(&queue), Some(0));
    assert_eq!(world.broker.unsettled(&queue), Some(0));
}

#[test]
fn a_full_store_stops_the_consumer_with_the_delivery_unsettled() {
    let mut world = World::new(1);
    let backend = world.broker.open_connection().expect("a connection");
    let history = world.broker.open_connection().expect("a connection");
    let queue = bootstrap(&mut world, history, "viewed").expect("a queue");
    for path in ["a.mp4", "b.mp4", "c.mp4"] {
        assert_eq!(publish(&mut world, backend, "viewed", &event(path)), Ok(()));
    }
    assert_eq!(
        consume(&mut world, history, &queue, "viewed_consumer"),
        Err(ConsumerError::Sink)
    );
    assert_eq!(world.store.len(), 1);
    assert_eq!(world.store.record(0), Some("a.mp4"));
    assert_eq!(world.broker.unsettled(&queue), Some(1));
    assert_eq!(world.broker.waiting(&queue), Some(1));
    assert_eq!(world.broker.waiting_body(&queue, 0), Some(b"{\"video_path\":\"c.mp4\"}".to_vec()));
}

#[test]
fn a_consumer_cannot_register_on_a_queue_of_another_connection() {
    let mut world = World::new(8);
    let history = world.broker.open_connection().expect("a connection");
    let intruder = world.broker.open_connection().expect("a connection");
    let queue = bootstrap(&mut world, history, "viewed").expect("a queue");
    assert_eq!(
        consume(&mut world, intruder, &queue, "viewed_consumer"),
        Err(ConsumerError::Register(BrokerFailure::Refused { code: 405 }))
    );
    assert_eq!(
        consume(&mut world, history, "amq.gen-77", "viewed_consumer"),
        Err(ConsumerError::Register(BrokerFailure::Refused { code: 404 }))
    );
}

#[test]
fn a_restarted_subscriber_misses_what_was_published_meanwhile() {
    let mut world = World::new(8);
    let backend = world.broker.open_connection().expect("a connection");
    let before = world.broker.open_connection().expect("a connection");
    let old_queue = bootstrap(&mut world, before, "viewed").expect("a queue");
    world.broker.close_connection(before);
    assert_eq!(publish(&mut world, backend, "viewed", &event("missed.mp4")), Ok(()));
    let after = world.broker.open_connection().expect("a connection");
    let new_queue = bootstrap(&mut world, after, "viewed").expect("a queue");
    assert_ne!(new_queue, old_queue);
    assert!(!world.broker.has_queue(&old_queue));
    assert_eq!(world.broker.waiting(&new_queue), Some(0));
    assert_eq!(publish(&mut world, backend, "viewed", &event("seen.mp4")), Ok(()));
    assert_eq!(consume(&mut world, after, &new_queue, "viewed_consumer"), Ok(()));
    assert_eq!(world.store.len(), 1);
    assert_eq!(world.store.record(0), Some("seen.mp4"));
}

#[test]
fn perform_answers_each_command() {
    let mut world = World::new(1);
    let unused = String::new();
    assert_eq!(world.perform(0, &unused, &Command::Acquire), Reply::Done);
    assert_eq!(world.perform(0, &unused, &Command::Release), Reply::Done);
    assert_eq!(world.perform(0, &unused, &Command::AwaitConfirm), Reply::Done);
    assert_eq!(
        world.perform(0, &unused, &Command::DeclareExchange(subscriber_exchange("viewed"))),
        Reply::Done
    );
    let reply = world.perform(0, &unused, &Command::DeclareQueue(subscriber_queue()));
    assert_eq!(reply, Reply::QueueDeclared { queue: "amq.gen-0".to_string() });
    let queue = "amq.gen-0".to_string();
    assert_eq!(world.perform(0, &queue, &Command::Receive), Reply::EndOfStream);
    assert_eq!(
        world.perform(0, &queue, &Command::Ack { multiple: false }),
        Reply::Failed(BrokerFailure::Refused { code: 406 })
    );
    assert_eq!(
        world.perform(0, &queue, &Command::Ack { multiple: true }),
        Reply::Failed(BrokerFailure::Refused { code: 540 })
    );
    assert_eq!(
        world.perform(0, &queue, &Command::Reject { multiple: true, requeue: false }),
        Reply::Failed(BrokerFailure::Refused { code: 540 })
    );
    assert_eq!(
        world.perform(0, &queue, &Command::Record { video_path: "a.mp4".to_string() }),
        Reply::Done
    );
    assert_eq!(
        world.perform(0, &queue, &Command::Record { video_path: "b.mp4".to_string() }),
        Reply::SinkFailed
    );
}

#[test]
fn a_queue_is_declared_and_bound_on_its_own_where_the_exchange_is_there() {
    let mut world = World::new(8);
    let connection = world.broker.open_connection().expect("a connection");
    assert_eq!(world.broker.declare_exchange(&subscriber_exchange("viewed")), Ok(()));
    let queue = viewcast::pipeline::bind_new_queue(&mut world, connection, "viewed").expect("a queue");
    assert_eq!(queue, "amq.gen-0");
    assert!(world.broker.is_bound(&queue, &viewed()));
    assert_eq!(publish(&mut world, connection, "viewed", &event("a.mp4")), Ok(()));
    assert_eq!(world.broker.waiting(&queue), Some(1));
}

#[test]
fn a_queue_on_its_own_does_not_declare_the_exchange() {
    let mut world = World::new(8);
    let connection = world.broker.open_connection().expect("a connection");
    assert_eq!(
        viewcast::pipeline::bind_new_queue(&mut world, connection, "viewed"),
        Err(BootstrapError::Bind(BrokerFailure::Refused { code: 404 }))
    );
    assert_eq!(world.broker.exchange(&viewed()), None);
    assert!(world.broker.has_queue(&"amq.gen-0".to_string()));
    assert!(!world.broker.is_bound(&"amq.gen-0".to_string(), &viewed()));
}

#[test]
fn the_first_two_subscribers_share_the_one_exchange() {
    let mut world = World::new(8);
    let first = bootstrap(&mut world, 1, "viewed").expect("a queue");
    let second = bootstrap(&mut world, 2, "viewed").expect("a queue");
    assert_eq!(first, "amq.gen-0");
    assert_eq!(second, "amq.gen-1");
    assert!(world.broker.is_bound(&first, &viewed()));
    assert!(world.broker.is_bound(&second, &viewed()));
    let attrs = world.broker.exchange(&viewed()).expect("the exchange");
    assert_eq!(attrs.kind, ExchangeKind::Fanout);
    assert!(attrs.durable);
    assert!(!attrs.auto_delete);
    assert!(!attrs.internal);
}
