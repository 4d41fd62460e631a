use viewcast::event::ViewEvent;
use viewcast::protocol::{
    BrokerFailure, Command, ExchangeAttrs, ExchangeDeclare, ExchangeKind, Publish, Reply,
};
use viewcast::publisher::{PublishError, PublishPhase, Publisher};

fn publisher() -> Publisher {
    let event = ViewEvent::new("movies/a.mp4".to_string()).expect("a path that is not empty");
    Publisher::new("viewed", &event)
}

fn check() -> Command {
    Command::DeclareExchange(ExchangeDeclare {
        exchange: "viewed".to_string(),
        attrs: ExchangeAttrs {
            kind: ExchangeKind::Fanout,
            durable: true,
            auto_delete: false,
            internal: false,
        },
        passive: true,
        nowait: false,
    })
}

#[test]
fn a_new_publisher_holds_the_encoded_event() {
    let machine = publisher();
    assert_eq!(machine.exchange, "viewed");
    assert_eq!(machine.body, b"{\"video_path\":\"movies/a.mp4\"}".to_vec());
    assert_eq!(machine.phase, PublishPhase::Acquiring);
    assert_eq!(machine.command(), Command::Acquire);
    assert_eq!(machine.outcome(), None);
}

#[test]
fn a_publish_checks_then_publishes_then_waits() {
    let machine = publisher().advance(Reply::Done);
    assert_eq!(machine.command(), check());
    let machine = machine.advance(Reply::Done);
    assert_eq!(
        machine.command(),
        Command::Publish(Publish {
            exchange: "viewed".to_string(),
            routing_key: String::new(),
            mandatory: false,
            immediate: false,
            body: b"{\"video_path\":\"movies/a.mp4\"}".to_vec(),
        })
    );
    let machine = machine.advance(Reply::Done);
    assert_eq!(machine.command(), Command::AwaitConfirm);
    let machine = machine.advance(Reply::Done);
    assert_eq!(machine.command(), Command::Release);
    assert_eq!(machine.outcome(), None);
    let machine = machine.advance(Reply::Done);
    assert_eq!(machine.command(), Command::Stop);
    assert_eq!(machine.outcome(), Some(Ok(())));
}

#[test]
fn a_missing_exchange_fails_the_publish_without_publishing() {
    let machine = publisher()
        .advance(Reply::Done)
        .advance(Reply::Failed(BrokerFailure::Refused { code: 404 }));
    assert_eq!(machine.phase, PublishPhase::Releasing(Err(PublishError::NoSuchExchange)));
    assert_eq!(machine.command(), Command::Release);
    let machine = machine.advance(Reply::Done);
    assert_eq!(machine.command(), Command::Stop);
    assert_eq!(machine.outcome(), Some(Err(PublishError::NoSuchExchange)));
}

#[test]
fn another_failure_of_the_check_is_told_apart() {
    let refused = BrokerFailure::Refused { code: 403 };
    let machine = publisher().advance(Reply::Done).advance(Reply::Failed(refused)).advance(Reply::Done);
    assert_eq!(machine.outcome(), Some(Err(PublishError::Check(refused))));
    let machine = publisher()
        .advance(Reply::Done)
        .advance(Reply::Failed(BrokerFailure::Transport))
        .advance(Reply::Done);
    assert_eq!(machine.outcome(), Some(Err(PublishError::Check(BrokerFailure::Transport))));
}

#[test]
fn a_failed_publish_ends_the_attempt() {
    let machine = publisher()
        .advance(Reply::Done)
        .advance(Reply::Done)
        .advance(Reply::Failed(BrokerFailure::Transport));
    assert_eq!(machine.command(), Command::Release);
    let machine = machine.advance(Reply::Done);
    assert_eq!(machine.outcome(), Some(Err(PublishError::Publish(BrokerFailure::Transport))));
}

#[test]
fn a_missing_answer_ends_the_attempt() {
    let machine = publisher()
        .advance(Reply::Done)
        .advance(Reply::Done)
        .advance(Reply::Done)
        .advance(Reply::Failed(BrokerFailure::Transport))
        .advance(Reply::Done);
    assert_eq!(machine.outcome(), Some(Err(PublishError::Confirm(BrokerFailure::Transport))));
}

#[test]
fn a_reply_out_of_place_ends_the_attempt() {
    let machine = publisher().advance(Reply::EndOfStream);
    assert_eq!(machine.outcome(), Some(Err(PublishError::Unexpected)));
    let machine = publisher().advance(Reply::Done).advance(Reply::SinkFailed);
    assert_eq!(machine.command(), Command::Release);
    assert_eq!(machine.advance(Reply::Done).outcome(), Some(Err(PublishError::Unexpected)));
}

#[test]
fn a_finished_publisher_stays_finished() {
    let machine = publisher()
        .advance(Reply::Done)
        .advance(Reply::Failed(BrokerFailure::Refused { code: 404 }))
        .advance(Reply::Done)
        .advance(Reply::Done)
        .advance(Reply::Failed(BrokerFailure::Transport));
    assert_eq!(machine.command(), Command::Stop);
    assert_eq!(machine.outcome(), Some(Err(PublishError::NoSuchExchange)));
}

#[test]
fn a_publish_is_over_after_five_replies() {
    let mut machine = publisher();
    let mut commands = 0;
    while machine.outcome().is_none() {
        commands += 1;
        machine = machine.advance(Reply::Done);
    }
    assert_eq!(commands, 5);
}

#[test]
fn an_event_that_does_not_encode_is_not_published() {
    let machine = Publisher::with_body("viewed", None);
    assert_eq!(machine.command(), Command::Stop);
    assert_eq!(machine.outcome(), Some(Err(PublishError::Encoding)));
    assert_eq!(machine.advance(Reply::Done).outcome(), Some(Err(PublishError::Encoding)));
}

#[test]
fn a_publisher_takes_the_body_it_is_given() {
    let machine = Publisher::with_body("viewed", Some(b"{}".to_vec()));
    assert_eq!(machine.body, b"{}".to_vec());
    assert_eq!(machine.command(), Command::Acquire);
}
