use mana_panel_backend::api::applications::PullImageStreamQuery;
use mana_panel_backend::api::pull_stream::{PullRelay, PullSignal, RelayEvent, RelayPhase};
use mana_panel_backend::error::AppError;
use mana_panel_backend::services::docker::PullProgress;

fn progress(n: usize) -> PullProgress {
    PullProgress {
        status: format!("Downloading {}", n),
        id: if n % 2 == 0 { Some(format!("layer{}", n)) } else { None },
        progress: Some(format!("[{}/10]", n)),
    }
}

fn relay(image: &str) -> PullRelay {
    PullRelay::start(&PullImageStreamQuery { image: image.to_string() }).unwrap()
}

#[test]
fn completed_pull_is_relayed_message_by_message_and_closed_with_done() {
    let mut relay = relay("nginx:stable-alpine");
    assert_eq!(relay.image(), "nginx:stable-alpine");
    let mut events = Vec::new();
    for n in 0..5 {
        events.extend(relay.accept(PullSignal::Progress(progress(n))));
        assert_eq!(relay.phase(), RelayPhase::Forwarding);
    }
    events.extend(relay.accept(PullSignal::Completed));
    assert_eq!(relay.phase(), RelayPhase::Finished);
    assert_eq!(events.len(), 6);
    for n in 0..5 {
        assert_eq!(events[n], RelayEvent::Progress(progress(n)));
        assert_eq!(events[n].name(), "progress");
        assert!(!events[n].is_terminal());
    }
    assert_eq!(events[5], RelayEvent::Done("nginx:stable-alpine".to_string()));
    assert_eq!(events[5].name(), "done");
    assert!(events[5].is_terminal());
}

#[test]
fn nothing_is_forwarded_after_the_caller_left() {
    let mut relay = relay("nginx:stable-alpine");
    let mut events = Vec::new();
    for n in 0..3 {
        events.extend(relay.accept(PullSignal::Progress(progress(n))));
    }
    assert_eq!(relay.accept(PullSignal::SinkClosed), None);
    assert_eq!(relay.phase(), RelayPhase::Disconnected);
    for n in 3..7 {
        assert_eq!(relay.accept(PullSignal::Progress(progress(n))), None);
    }
    assert_eq!(relay.accept(PullSignal::Completed), None);
    assert_eq!(relay.accept(PullSignal::Failed(AppError::System("late".to_string()))), None);
    assert_eq!(relay.phase(), RelayPhase::Disconnected);
    assert_eq!(events.len(), 3);
}

#[test]
fn failed_pull_is_closed_with_one_error() {
    let mut relay = relay("nope:latest");
    assert_eq!(relay.accept(PullSignal::Progress(progress(0))), Some(RelayEvent::Progress(progress(0))));
    let event = relay
        .accept(PullSignal::Failed(AppError::System("Docker pull image: manifest unknown".to_string())))
        .unwrap();
    assert_eq!(event, RelayEvent::Error("System error: Docker pull image: manifest unknown".to_string()));
    assert_eq!(event.name(), "error");
    assert!(event.is_terminal());
    assert_eq!(relay.phase(), RelayPhase::Finished);
    assert_eq!(relay.accept(PullSignal::Completed), None);
    assert_eq!(relay.accept(PullSignal::Progress(progress(1))), None);
    assert_eq!(relay.accept(PullSignal::SinkClosed), None);
    assert_eq!(relay.phase(), RelayPhase::Finished);
}

#[test]
fn join_failure_is_reported_as_an_error() {
    let mut relay = relay("nginx");
    assert_eq!(
        relay.accept(PullSignal::JoinFailed("task 7 panicked".to_string())),
        Some(RelayEvent::Error("Pull task join error: task 7 panicked".to_string()))
    );
    assert_eq!(relay.accept(PullSignal::JoinFailed("again".to_string())), None);
}

#[test]
fn pull_with_no_message_is_closed_with_done() {
    let mut relay = relay("  busybox  ");
    assert_eq!(relay.image(), "busybox");
    assert_eq!(relay.accept(PullSignal::Completed), Some(RelayEvent::Done("busybox".to_string())));
    assert_eq!(relay.accept(PullSignal::Completed), None);
}

#[test]
fn relay_needs_an_image() {
    for image in ["", "   ", "\t\n"] {
        assert_eq!(
            PullRelay::start(&PullImageStreamQuery { image: image.to_string() }).unwrap_err(),
            AppError::Validation("image is required".to_string())
        );
    }
}
