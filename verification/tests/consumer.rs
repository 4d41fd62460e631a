use viewcast::consumer::{ConsumerError, ConsumerLoop, ConsumerPhase, Settlement};
use viewcast::event::Decoded;
use viewcast::protocol::{BrokerFailure, Command, Consume, Reply};

fn registered() -> ConsumerLoop {
    ConsumerLoop::new("amq.gen-7", "viewed_consumer")
        .advance(Reply::Done)
        .advance(Reply::Done)
        .advance(Reply::Done)
}

fn delivery(body: &[u8]) -> Reply {
    Reply::Delivery { body: body.to_vec() }
}

#[test]
fn a_new_loop_asks_for_the_guard_first() {
    let machine = ConsumerLoop::new("amq.gen-7", "viewed_consumer");
    assert_eq!(machine.phase, ConsumerPhase::Acquiring);
    assert_eq!(machine.command(), Command::Acquire);
    assert_eq!(machine.outcome(), None);
}

#[test]
fn setup_registers_under_the_guard_and_gives_it_back() {
    let machine = ConsumerLoop::new("amq.gen-7", "viewed_consumer").advance(Reply::Done);
    assert_eq!(
        machine.command(),
        Command::Consume(Consume {
            queue: "amq.gen-7".to_string(),
            consumer_tag: "viewed_consumer".to_string(),
            no_local: false,
            no_ack: false,
            exclusive: false,
            nowait: false,
        })
    );
    let machine = machine.advance(Reply::Done);
    assert_eq!(machine.command(), Command::Release);
    let machine = machine.advance(Reply::Done);
    assert_eq!(machine.phase, ConsumerPhase::Receiving);
    assert_eq!(machine.command(), Command::Receive);
}

#[test]
fn a_refused_registration_ends_the_loop_after_the_release() {
    let refused = BrokerFailure::Refused { code: 404 };
    let machine = ConsumerLoop::new("gone", "viewed_consumer")
        .advance(Reply::Done)
        .advance(Reply::Failed(refused));
    assert_eq!(machine.command(), Command::Release);
    assert_eq!(machine.outcome(), None);
    let machine = machine.advance(Reply::Done);
    assert_eq!(machine.command(), Command::Stop);
    assert_eq!(machine.outcome(), Some(Err(ConsumerError::Register(refused))));
}

#[test]
fn a_decoded_path_is_recorded_then_acknowledged() {
    let machine = registered().advance(delivery(b"{\"video_path\":\"movies/a.mp4\"}"));
    assert_eq!(machine.command(), Command::Record { video_path: "movies/a.mp4".to_string() });
    let machine = machine.advance(Reply::Done);
    assert_eq!(machine.phase, ConsumerPhase::Claiming(Settlement::Ack));
    assert_eq!(machine.command(), Command::Acquire);
    let machine = machine.advance(Reply::Done);
    assert_eq!(machine.command(), Command::Ack { multiple: false });
    let machine = machine.advance(Reply::Done);
    assert_eq!(machine.command(), Command::Release);
    let machine = machine.advance(Reply::Done);
    assert_eq!(machine, registered());
    assert_eq!(machine.command(), Command::Receive);
}

#[test]
fn text_that_is_no_json_is_rejected_and_the_loop_goes_on() {
    let machine = registered().advance(delivery(b"not json at all"));
    assert_eq!(machine.phase, ConsumerPhase::Claiming(Settlement::Reject));
    assert_eq!(machine.command(), Command::Acquire);
    let machine = machine.advance(Reply::Done);
    assert_eq!(machine.command(), Command::Reject { multiple: false, requeue: false });
    let machine = machine.advance(Reply::Done);
    assert_eq!(machine.command(), Command::Release);
    let machine = machine.advance(Reply::Done);
    assert_eq!(machine, registered());
    let machine = machine.advance(delivery(b"{\"video_path\":\"next.mp4\"}"));
    assert_eq!(machine.command(), Command::Record { video_path: "next.mp4".to_string() });
}

#[test]
fn json_without_the_field_is_rejected_and_the_loop_goes_on() {
    for body in [&b"{}"[..], b"{\"path\":\"a.mp4\"}", b"{\"video_path\":5}", b"[1,2]", b"null"] {
        let machine = registered().advance(delivery(body));
        assert_eq!(machine.phase, ConsumerPhase::Claiming(Settlement::Reject));
        let machine = machine.advance(Reply::Done);
        assert_eq!(machine.command(), Command::Reject { multiple: false, requeue: false });
        let machine = machine.advance(Reply::Done).advance(Reply::Done);
        assert_eq!(machine.command(), Command::Receive);
        assert_eq!(machine.outcome(), None);
    }
}

#[test]
fn a_failing_sink_ends_the_loop_at_once() {
    let machine = registered()
        .advance(delivery(b"{\"video_path\":\"movies/a.mp4\"}"))
        .advance(Reply::SinkFailed);
    assert_eq!(machine.command(), Command::Stop);
    assert_eq!(machine.outcome(), Some(Err(ConsumerError::Sink)));
}

#[test]
fn the_end_of_the_stream_ends_the_loop_well() {
    let machine = registered().advance(Reply::EndOfStream);
    assert_eq!(machine.command(), Command::Stop);
    assert_eq!(machine.outcome(), Some(Ok(())));
}

#[test]
fn a_stream_error_is_passed_over() {
    let machine = registered().advance(Reply::DeliveryFailed(BrokerFailure::Transport));
    assert_eq!(machine, registered());
    assert_eq!(machine.command(), Command::Receive);
}

#[test]
fn a_settlement_that_fails_ends_the_loop_after_the_release() {
    let machine = registered()
        .advance(delivery(b"{"))
        .advance(Reply::Done)
        .advance(Reply::Failed(BrokerFailure::Transport));
    assert_eq!(machine.phase, ConsumerPhase::Failing(ConsumerError::Settle(BrokerFailure::Transport)));
    assert_eq!(machine.command(), Command::Release);
    let machine = machine.advance(Reply::Done);
    assert_eq!(machine.outcome(), Some(Err(ConsumerError::Settle(BrokerFailure::Transport))));
}

#[test]
fn a_reply_out_of_place_ends_the_loop() {
    let machine = registered().advance(Reply::QueueDeclared { queue: "x".to_string() });
    assert_eq!(machine.outcome(), Some(Err(ConsumerError::Unexpected)));
    let machine = ConsumerLoop::new("q", "t").advance(Reply::Done).advance(Reply::EndOfStream);
    assert_eq!(machine.phase, ConsumerPhase::Failing(ConsumerError::Unexpected));
    assert_eq!(machine.command(), Command::Release);
    assert_eq!(machine.advance(Reply::Done).outcome(), Some(Err(ConsumerError::Unexpected)));
    let machine = ConsumerLoop::new("q", "t").advance(Reply::SinkFailed);
    assert_eq!(machine.outcome(), Some(Err(ConsumerError::Unexpected)));
}

#[test]
fn a_finished_loop_stays_finished() {
    let machine = registered().advance(Reply::EndOfStream);
    let again = machine.advance(delivery(b"{\"video_path\":\"late.mp4\"}"));
    assert_eq!(again.outcome(), Some(Ok(())));
    assert_eq!(again.command(), Command::Stop);
}

#[test]
fn deliver_takes_a_decoded_body() {
    let machine = registered().deliver(Decoded::Event { video_path: "b.mp4".to_string() });
    assert_eq!(machine.phase, ConsumerPhase::Recording { video_path: "b.mp4".to_string() });
    assert_eq!(registered().deliver(Decoded::Malformed).phase, ConsumerPhase::Claiming(Settlement::Reject));
    assert_eq!(
        registered().deliver(Decoded::MissingField).phase,
        ConsumerPhase::Claiming(Settlement::Reject)
    );
}

#[test]
fn deliver_out_of_place_ends_the_loop() {
    let machine = ConsumerLoop::new("q", "t").deliver(Decoded::Malformed);
    assert_eq!(machine.outcome(), Some(Err(ConsumerError::Unexpected)));
    let machine = ConsumerLoop::new("q", "t").advance(Reply::Done).deliver(Decoded::Malformed);
    assert_eq!(machine.phase, ConsumerPhase::Failing(ConsumerError::Unexpected));
}

#[test]
fn the_guard_is_never_held_while_waiting() {
    let replies = vec![
        Reply::Done,
        Reply::Done,
        Reply::Done,
        delivery(b"{\"video_path\":\"a.mp4\"}"),
        Reply::Done,
        Reply::Done,
        Reply::Done,
        Reply::Done,
        delivery(b"oops"),
        Reply::Done,
        Reply::Done,
        Reply::Done,
        Reply::EndOfStream,
    ];
    let mut machine = ConsumerLoop::new("amq.gen-0", "viewed_consumer");
    let mut held = false;
    for reply in replies {
        match machine.command() {
            Command::Acquire => {
                assert!(!held);
                held = true;
            }
            Command::Release => {
                assert!(held);
                held = false;
            }
            Command::Consume(_) | Command::Ack { .. } | Command::Reject { .. } => assert!(held),
            Command::Receive | Command::Record { .. } | Command::Stop => assert!(!held),
            other => panic!("a consumer loop does not issue {:?}", other),
        }
        machine = machine.advance(reply);
    }
    assert!(!held);
    assert_eq!(machine.outcome(), Some(Ok(())));
}
