use viewcast::names::{decimal_text, generated_queue_name};
use viewcast::protocol::{BrokerFailure, ExchangeAttrs, ExchangeKind};
use viewcast::store::{RecordStore, StoreError};
use viewcast::topology::{
    named_queue, publisher_check, subscriber_binding, subscriber_exchange, subscriber_queue,
    viewed_exchange,
};

#[test]
fn the_exchange_is_called_viewed() {
    assert_eq!(viewed_exchange(), "viewed");
}

#[test]
fn the_roles_agree_on_the_exchange() {
    let declare = subscriber_exchange("viewed");
    let check = publisher_check("viewed");
    let attrs = ExchangeAttrs {
        kind: ExchangeKind::Fanout,
        durable: true,
        auto_delete: false,
        internal: false,
    };
    assert_eq!(declare.attrs, attrs);
    assert_eq!(check.attrs, attrs);
    assert_eq!(declare.exchange, check.exchange);
    assert!(!declare.passive);
    assert!(check.passive);
    assert!(!declare.nowait);
    assert!(!check.nowait);
    assert_eq!(subscriber_exchange("viewed"), declare);
}

#[test]
fn a_subscriber_queue_is_anonymous_and_exclusive() {
    let declare = subscriber_queue();
    assert_eq!(declare.queue, "");
    assert!(!declare.passive);
    assert!(!declare.durable);
    assert!(declare.exclusive);
    assert!(declare.auto_delete);
    assert!(!declare.nowait);
}

#[test]
fn a_named_queue_is_a_subscribers_queue_but_for_its_name() {
    let declare = named_queue("viewed");
    assert_eq!(declare.queue, "viewed");
    assert!(!declare.passive);
    assert!(!declare.durable);
    assert!(declare.exclusive);
    assert!(declare.auto_delete);
    assert!(!declare.nowait);
    assert_eq!(named_queue(""), subscriber_queue());
}

#[test]
fn a_binding_has_an_empty_routing_key() {
    let bind = subscriber_binding("amq.gen-4", "viewed");
    assert_eq!(bind.queue, "amq.gen-4");
    assert_eq!(bind.exchange, "viewed");
    assert_eq!(bind.routing_key, "");
    assert!(!bind.nowait);
}

#[test]
fn failures_are_told_apart_by_their_reply_code() {
    assert!(BrokerFailure::Refused { code: 404 }.not_found());
    assert!(!BrokerFailure::Refused { code: 406 }.not_found());
    assert!(!BrokerFailure::Transport.not_found());
    assert!(BrokerFailure::Refused { code: 406 }.mismatch());
    assert!(!BrokerFailure::Refused { code: 404 }.mismatch());
    assert!(!BrokerFailure::Transport.mismatch());
}

#[test]
fn decimal_text_writes_the_digits() {
    assert_eq!(decimal_text(0), "0");
    assert_eq!(decimal_text(7), "7");
    assert_eq!(decimal_text(10), "10");
    assert_eq!(decimal_text(1234567890), "1234567890");
    assert_eq!(decimal_text(u64::MAX), "18446744073709551615");
}

#[test]
fn generated_names_carry_the_serial_number() {
    assert_eq!(generated_queue_name(0), "amq.gen-0");
    assert_eq!(generated_queue_name(42), "amq.gen-42");
    assert_ne!(generated_queue_name(1), generated_queue_name(10));
}

#[test]
fn a_store_keeps_the_paths_in_order() {
    let mut store = RecordStore::new(3);
    assert_eq!(store.len(), 0);
    assert_eq!(store.record(0), None);
    assert_eq!(store.insert("a.mp4"), Ok(()));
    assert_eq!(store.insert("b.mp4"), Ok(()));
    assert_eq!(store.len(), 2);
    assert_eq!(store.record(0), Some("a.mp4"));
    assert_eq!(store.record(1), Some("b.mp4"));
    assert_eq!(store.record(2), None);
}

#[test]
fn a_full_store_fails_and_keeps_what_it_has() {
    let mut store = RecordStore::new(1);
    assert_eq!(store.insert("a.mp4"), Ok(()));
    assert_eq!(store.insert("b.mp4"), Err(StoreError::Full));
    assert_eq!(store.len(), 1);
    assert_eq!(store.record(0), Some("a.mp4"));
    let mut none = RecordStore::new(0);
    assert_eq!(none.insert("a.mp4"), Err(StoreError::Full));
}

#[test]
fn a_subscriber_registers_as_viewed_consumer() {
    assert_eq!(viewcast::topology::consumer_tag(), "viewed_consumer");
}
