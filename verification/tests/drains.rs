use slmodem_asterisk_bridge::event_drain::{
    EventDrain, EventMessage, EventStep, EventVerdict, StopReason, EVENTS_DRAIN_LIMIT,
};
use slmodem_asterisk_bridge::setup_drain::{
    DrainError, DrainEvent, DrainStep, SetupDrain, DRAIN_BUF_BYTES, DRAIN_ITERATIONS_LIMIT,
};
use slmodem_asterisk_bridge::slmodem::{check_socket_fd, FdError};

#[test]
fn setup_drain_counts_what_it_reads() {
    let mut drain = SetupDrain::new();
    assert_eq!(drain.round(DrainEvent::Read(320)), DrainStep::Continue);
    assert_eq!(drain.round(DrainEvent::SilenceDue), DrainStep::WriteSilence);
    assert_eq!(drain.after_silence(true), DrainStep::Continue);
    assert_eq!(
        drain.round(DrainEvent::Read(DRAIN_BUF_BYTES)),
        DrainStep::Continue
    );
    assert_eq!(drain.round(DrainEvent::SetupEnded), DrainStep::HandOn);
    assert_eq!(drain.drained_bytes(), 2368);
    assert_eq!(drain.iterations(), 1);
}

#[test]
fn setup_drain_gives_up_when_the_socket_fails() {
    let mut drain = SetupDrain::new();
    assert_eq!(
        drain.round(DrainEvent::Read(0)),
        DrainStep::GiveUp(DrainError::SocketClosed)
    );
    assert_eq!(
        drain.round(DrainEvent::ReadFailed),
        DrainStep::GiveUp(DrainError::ReadFailed)
    );
    assert_eq!(
        drain.after_silence(false),
        DrainStep::GiveUp(DrainError::SilenceFailed)
    );
}

#[test]
fn setup_drain_is_limited_by_silence() {
    let mut drain = SetupDrain::new();
    for _ in 0..DRAIN_ITERATIONS_LIMIT {
        assert!(drain.may_go_on());
        drain.round(DrainEvent::SilenceDue);
    }
    assert!(!drain.may_go_on());
    assert_eq!(drain.iterations(), 500);
}

#[test]
fn reads_do_not_shorten_the_setup() {
    // Nine seconds at 20 ms, with one frame of audio read in each interval.
    let mut drain = SetupDrain::new();
    for _ in 0..450 {
        assert!(drain.may_go_on());
        drain.round(DrainEvent::SilenceDue);
        assert!(drain.may_go_on());
        assert!(drain.can_count(320));
        assert_eq!(drain.round(DrainEvent::Read(320)), DrainStep::Continue);
    }
    assert!(drain.may_go_on());
    assert_eq!(drain.round(DrainEvent::SetupEnded), DrainStep::HandOn);
    assert_eq!(drain.iterations(), 450);
    assert_eq!(drain.drained_bytes(), 450 * 320);
}

#[test]
fn drain_errors_in_words() {
    assert_eq!(
        DrainError::SocketClosed.message("gone"),
        "slmodemd closed socket during ARI setup"
    );
    assert_eq!(
        DrainError::ReadFailed.message("reset"),
        "slmodemd read error during ARI setup: reset"
    );
    assert_eq!(
        DrainError::SilenceFailed.message("broken pipe"),
        "failed to write silence during ARI setup: broken pipe"
    );
}

#[test]
fn events_are_logged_and_read_on() {
    let mut drain = EventDrain::new();
    assert_eq!(
        drain.on_message(EventMessage::Text),
        EventVerdict {
            heartbeat: false,
            step: EventStep::LogEvent,
        }
    );
    assert_eq!(
        drain.on_message(EventMessage::Other).step,
        EventStep::Continue
    );
    assert_eq!(drain.events_count(), 2);
}

#[test]
fn events_stop_at_close_and_failure() {
    assert_eq!(
        EventDrain::new().on_message(EventMessage::Close).step,
        EventStep::Stop(StopReason::Closed)
    );
    assert_eq!(
        EventDrain::new().on_message(EventMessage::Failed).step,
        EventStep::Stop(StopReason::Failed)
    );
}

#[test]
fn events_are_limited_and_show_signs_of_life() {
    let mut drain = EventDrain::new();
    for count in 1..EVENTS_DRAIN_LIMIT {
        let verdict = drain.on_message(EventMessage::Text);
        assert_eq!(verdict.heartbeat, count % 1000 == 0);
        assert_eq!(verdict.step, EventStep::LogEvent);
    }
    let last = drain.on_message(EventMessage::Close);
    assert!(last.heartbeat);
    assert_eq!(last.step, EventStep::Stop(StopReason::LimitReached));
    assert_eq!(drain.events_count(), 100_000);
}

#[test]
fn socket_descriptors_are_checked() {
    assert_eq!(check_socket_fd(-1), Err(FdError::Negative));
    assert_eq!(check_socket_fd(0), Ok(()));
    assert_eq!(check_socket_fd(3), Ok(()));
    assert_eq!(check_socket_fd(4095), Ok(()));
    assert_eq!(check_socket_fd(4096), Ok(()));
    assert_eq!(check_socket_fd(4097), Err(FdError::TooLarge));
    assert_eq!(check_socket_fd(i32::MAX), Err(FdError::TooLarge));
}

#[test]
fn rejects_negative_fd() {
    let result = check_socket_fd(-1);
    assert!(result.is_err(), "negative fd must be refused");
}
