use axum_cloudflare_adapter::shim::{HandlerOutcome, OneShot, run_shim};

#[test]
fn a_successful_handler_yields_its_value_exactly_once() {
    let outcome: HandlerOutcome<i64> = HandlerOutcome::Success(42);

    assert_eq!(run_shim(outcome, -1), 42);
}

#[test]
fn a_failing_handler_still_resolves_with_the_terminal_value() {
    let outcome: HandlerOutcome<i64> = HandlerOutcome::Failure;

    assert_eq!(run_shim(outcome, -1), -1);
}

#[test]
fn the_shim_carries_structured_results_through() {
    let outcome: HandlerOutcome<Result<String, String>> =
        HandlerOutcome::Success(Ok(String::from("body")));

    let delivered = run_shim(outcome, Err(String::from("handler aborted")));

    assert_eq!(delivered, Ok(String::from("body")));
}

#[test]
fn the_channel_delivers_a_sent_value_exactly_once() {
    let mut channel: OneShot<u32> = OneShot::new();

    assert_eq!(channel.try_recv(), None);
    assert!(channel.send(7).is_ok());
    assert_eq!(channel.try_recv(), Some(7));
    assert_eq!(channel.try_recv(), None);
}

#[test]
fn the_channel_refuses_a_second_send() {
    let mut channel: OneShot<u32> = OneShot::new();

    assert!(channel.send(1).is_ok());
    assert_eq!(channel.send(2), Err(2));
    assert_eq!(channel.try_recv(), Some(1));
    assert_eq!(channel.send(3), Err(3));
    assert_eq!(channel.try_recv(), None);
}
