use slmodem_asterisk_bridge::ari_setup::{
    setup_expects, setup_step, SetupEvent, SetupFailure, SetupStage, SetupStep,
};
use slmodem_asterisk_bridge::bridge::{
    dial_event, Action, Bridge, Event, Outcome, StartError, CALLS_LIMIT, READY_BYTE,
};
use slmodem_asterisk_bridge::dial_string::DialStringError;
use slmodem_asterisk_bridge::session::{Session, SessionState};
use slmodem_asterisk_bridge::setup_drain::DRAIN_ITERATIONS_LIMIT;
use slmodem_asterisk_bridge::silence::{silence_frame, SILENCE_FRAME_BYTES, SILENCE_INTERVAL_MS};

type TestBridge = Bridge<&'static str, &'static str, &'static str>;

fn failed_with(bridge: &TestBridge, error: &str) -> bool {
    matches!(bridge.setup_failure(), Some(SetupFailure::Failed(err)) if *err == error)
}

fn waiting() -> TestBridge {
    let mut bridge = TestBridge::start(3, "http://127.0.0.1:8088/ari").unwrap();
    assert!(matches!(bridge.step(Event::Registered), Action::SendReady));
    assert!(matches!(
        bridge.step(Event::ReadyWritten),
        Action::WaitForDial
    ));
    bridge
}

fn setting_up() -> TestBridge {
    let mut bridge = waiting();
    assert!(matches!(
        bridge.step(Event::Number(Ok("15551234567".to_string()))),
        Action::SetUpMedia
    ));
    bridge
}

fn relaying() -> TestBridge {
    let mut bridge = setting_up();
    bridge.step(Event::Setup(SetupEvent::MediaReady("media")));
    bridge.step(Event::Setup(SetupEvent::SocketConnected));
    assert!(matches!(
        bridge.step(Event::Setup(SetupEvent::Dialed("call"))),
        Action::Relay
    ));
    bridge
}

#[test]
fn silence_frame_size_matches_codec_frame() {
    // 160 samples * 2 bytes/sample (S16_LE) = 320 bytes per 20ms frame at 8000 Hz.
    assert_eq!(SILENCE_FRAME_BYTES, 320);
}

#[test]
fn calls_limit_is_reasonable() {
    assert!(CALLS_LIMIT >= 100, "calls limit too low for realistic use");
    assert!(CALLS_LIMIT <= 10_000, "calls limit unreasonably high");
}

#[test]
fn drain_iterations_limit_covers_setup_window() {
    // At 20ms per iteration, the limit should cover at least 5 seconds
    // of ARI setup time.
    let coverage_ms = DRAIN_ITERATIONS_LIMIT as u64 * SILENCE_INTERVAL_MS;
    assert!(
        coverage_ms >= 5000,
        "drain limit only covers {coverage_ms}ms, need at least 5000ms"
    );
}

#[test]
fn limits_have_their_documented_values() {
    assert_eq!(CALLS_LIMIT, 1000);
    assert_eq!(DRAIN_ITERATIONS_LIMIT as u64 * SILENCE_INTERVAL_MS, 10_000);
    assert_eq!(8000 * SILENCE_INTERVAL_MS / 1000 * 2, 320);
    assert_eq!(READY_BYTE, b'R');
}

#[test]
fn silence_frame_is_all_zero() {
    assert_eq!(silence_frame(), vec![0u8; 320]);
}

#[test]
fn start_refuses_a_negative_fd() {
    assert_eq!(
        TestBridge::start(-1, "http://127.0.0.1:8088/ari").err(),
        Some(StartError::NegativeFd)
    );
    assert_eq!(
        TestBridge::start(-1, "").err(),
        Some(StartError::NegativeFd)
    );
}

#[test]
fn start_refuses_an_empty_base_url() {
    assert_eq!(
        TestBridge::start(0, "").err(),
        Some(StartError::EmptyBaseUrl)
    );
}

#[test]
fn failed_registration_stops_before_readiness() {
    let mut bridge = TestBridge::start(3, "http://127.0.0.1:8088/ari").unwrap();
    assert!(!bridge.expects(&Event::ReadyWritten));
    assert!(matches!(
        bridge.step(Event::RegisterFailed("refused")),
        Action::Stop(Outcome::RegisterFailed("refused"))
    ));
    assert!(!bridge.expects(&Event::Registered));
}

#[test]
fn failed_ready_byte_stops() {
    let mut bridge = TestBridge::start(3, "http://127.0.0.1:8088/ari").unwrap();
    bridge.step(Event::Registered);
    assert!(matches!(
        bridge.step(Event::ReadyFailed("broken pipe")),
        Action::Stop(Outcome::ReadyFailed("broken pipe"))
    ));
}

#[test]
fn closed_socket_shuts_down() {
    let mut bridge = waiting();
    assert!(matches!(
        bridge.step(Event::WaitEnded),
        Action::Stop(Outcome::Shutdown)
    ));
    assert_eq!(bridge.calls_count(), 0);
}

#[test]
fn a_call_runs_its_course() {
    let mut bridge = setting_up();
    assert_eq!(bridge.session().unwrap().dial(), "15551234567");
    assert_eq!(bridge.session().unwrap().state(), SessionState::Originating);
    assert!(bridge.media().is_none());

    assert!(matches!(
        bridge.step(Event::Setup(SetupEvent::MediaReady("media"))),
        Action::ConnectSocket
    ));
    assert_eq!(bridge.media(), Some(&"media"));
    assert_eq!(
        bridge.session().unwrap().state(),
        SessionState::ConnectingMedia
    );
    assert!(matches!(
        bridge.step(Event::Setup(SetupEvent::SocketConnected)),
        Action::DialAndBridge
    ));
    assert_eq!(bridge.media(), Some(&"media"));
    assert!(matches!(
        bridge.step(Event::Setup(SetupEvent::Dialed("call"))),
        Action::Relay
    ));
    assert_eq!(bridge.session().unwrap().state(), SessionState::MediaActive);

    assert!(matches!(
        bridge.step(Event::RelayEnded),
        Action::TearDown("call")
    ));
    assert!(bridge.ended().is_none());
    assert!(matches!(bridge.step(Event::TornDown), Action::WaitForDial));
    let ended = bridge.ended().unwrap();
    assert_eq!(ended.dial(), "15551234567");
    assert_eq!(ended.state(), SessionState::Terminating);
    assert!(bridge.session().is_none());
    assert_eq!(bridge.calls_count(), 1);
}

#[test]
fn failed_relay_is_torn_down_and_stops() {
    let mut bridge = relaying();
    assert!(matches!(
        bridge.step(Event::RelayFailed("reset")),
        Action::TearDown("call")
    ));
    assert!(matches!(
        bridge.step(Event::TornDown),
        Action::Stop(Outcome::RelayFailed("reset"))
    ));
    assert!(bridge.ended().is_none());
}

#[test]
fn failed_media_setup_returns_to_waiting() {
    let mut bridge = setting_up();
    assert!(matches!(
        bridge.step(Event::Setup(SetupEvent::MediaFailed("no channel"))),
        Action::WaitForDial
    ));
    assert!(failed_with(&bridge, "no channel"));
}

#[test]
fn failed_media_socket_is_cleaned_up() {
    let mut bridge = setting_up();
    bridge.step(Event::Setup(SetupEvent::MediaReady("media")));
    assert!(matches!(
        bridge.step(Event::Setup(SetupEvent::SocketFailed("timed out"))),
        Action::CleanUpMedia("media")
    ));
    assert!(bridge.setup_failure().is_none());
    assert!(matches!(
        bridge.step(Event::Setup(SetupEvent::CleanedUp)),
        Action::WaitForDial
    ));
    assert!(failed_with(&bridge, "timed out"));
}

#[test]
fn failed_dial_is_cleaned_up() {
    let mut bridge = setting_up();
    bridge.step(Event::Setup(SetupEvent::MediaReady("media")));
    bridge.step(Event::Setup(SetupEvent::SocketConnected));
    assert!(matches!(
        bridge.step(Event::Setup(SetupEvent::DialFailed("busy"))),
        Action::CleanUpMedia("media")
    ));
    assert!(matches!(
        bridge.step(Event::Setup(SetupEvent::CleanedUp)),
        Action::WaitForDial
    ));
    assert_eq!(bridge.calls_count(), 1);
    assert!(failed_with(&bridge, "busy"));

    // The next call starts without the failure of the last.
    bridge.step(Event::Number(Ok("5".to_string())));
    assert!(bridge.setup_failure().is_none());
}

#[test]
fn abandoned_setup_returns_to_waiting() {
    let mut bridge = setting_up();
    assert!(matches!(
        bridge.step(Event::SetupAbandoned("gone")),
        Action::WaitForDial
    ));
    assert!(failed_with(&bridge, "gone"));
}

#[test]
fn abandoned_setup_cleans_up_a_media_channel() {
    let mut bridge = setting_up();
    bridge.step(Event::Setup(SetupEvent::MediaReady("media")));
    assert!(matches!(
        bridge.step(Event::SetupAbandoned("gone")),
        Action::CleanUpMedia("media")
    ));
    assert!(!bridge.expects(&Event::SetupAbandoned("gone")));
    assert!(matches!(
        bridge.step(Event::Setup(SetupEvent::CleanedUp)),
        Action::WaitForDial
    ));
    assert!(matches!(
        bridge.step(Event::WaitEnded),
        Action::Stop(Outcome::Shutdown)
    ));
}

#[test]
fn setup_abandoned_while_dialling_cleans_up() {
    let mut bridge = setting_up();
    bridge.step(Event::Setup(SetupEvent::MediaReady("media")));
    bridge.step(Event::Setup(SetupEvent::SocketConnected));
    assert!(matches!(
        bridge.step(Event::SetupAbandoned("gone")),
        Action::CleanUpMedia("media")
    ));
    assert!(matches!(
        bridge.step(Event::Setup(SetupEvent::CleanedUp)),
        Action::WaitForDial
    ));
    assert!(failed_with(&bridge, "gone"));
}

#[test]
fn call_made_too_late_is_torn_down() {
    let mut bridge = relaying();
    assert!(!bridge.expects(&Event::SetupAbandoned("gone")));
    assert!(matches!(
        bridge.step(Event::RelayEnded),
        Action::TearDown("call")
    ));
    assert!(matches!(bridge.step(Event::TornDown), Action::WaitForDial));
    assert!(bridge.setup_failure().is_none());
}

#[test]
fn only_dial_strings_become_numbers() {
    match dial_event::<u8, u8, u8>(" 15551234567 ") {
        Event::Number(Ok(number)) => assert_eq!(number, "15551234567"),
        other => panic!("unexpected event {other:?}"),
    }
    assert!(matches!(
        dial_event::<u8, u8, u8>("  "),
        Event::Number(Err(DialStringError::Empty))
    ));
    assert!(matches!(
        dial_event::<u8, u8, u8>(&"5".repeat(128)),
        Event::Number(Err(DialStringError::TooLong))
    ));
}

#[test]
fn invalid_numbers_count_as_calls_and_are_limited() {
    let mut bridge = waiting();
    for _ in 1..CALLS_LIMIT {
        assert!(matches!(
            bridge.step(Event::Number(Err(DialStringError::Empty))),
            Action::WaitForDial
        ));
    }
    assert_eq!(bridge.calls_count(), CALLS_LIMIT - 1);
    assert!(matches!(
        bridge.step(Event::Number(Err(DialStringError::Empty))),
        Action::Stop(Outcome::CallLimit)
    ));
    assert_eq!(bridge.calls_count(), 1000);
}

#[test]
fn the_last_permitted_call_is_served() {
    let mut bridge = waiting();
    for _ in 1..CALLS_LIMIT {
        bridge.step(Event::Number(Err(DialStringError::Empty)));
    }
    assert!(matches!(
        bridge.step(Event::Number(Ok("5".to_string()))),
        Action::SetUpMedia
    ));
    bridge.step(Event::Setup(SetupEvent::MediaReady("media")));
    bridge.step(Event::Setup(SetupEvent::SocketConnected));
    bridge.step(Event::Setup(SetupEvent::Dialed("call")));
    assert!(matches!(
        bridge.step(Event::RelayEnded),
        Action::TearDown("call")
    ));
    assert!(matches!(
        bridge.step(Event::TornDown),
        Action::Stop(Outcome::CallLimit)
    ));
}

#[test]
fn events_out_of_place_are_not_expected() {
    let bridge = setting_up();
    assert!(!bridge.expects(&Event::RelayEnded));
    assert!(!bridge.expects(&Event::Setup(SetupEvent::SocketConnected)));
    assert!(!bridge.expects(&Event::WaitEnded));
    assert!(bridge.expects(&Event::Setup(SetupEvent::MediaFailed("no channel"))));
    assert!(bridge.expects(&Event::SetupAbandoned("gone")));
}

#[test]
fn setup_is_refused_to_a_session_that_has_not_begun() {
    let mut session = Session::new("5".to_string());
    let stage: SetupStage<u8, u8> = SetupStage::CreatingMedia;
    let event: SetupEvent<u8, u8, u8> = SetupEvent::MediaReady(1);
    assert!(setup_expects(&stage, &event));
    let (stage, step) = setup_step(stage, &mut session, event);
    assert!(matches!(step, SetupStep::CleanUpMedia(1)));
    assert_eq!(session.state(), SessionState::Init);
    match setup_step::<u8, u8, u8>(stage, &mut session, SetupEvent::CleanedUp) {
        (SetupStage::Ended, SetupStep::Fail(SetupFailure::Refused(refused))) => assert_eq!(
            refused.to_string(),
            "invalid session state transition: Init -> ConnectingMedia"
        ),
        other => panic!("unexpected step {other:?}"),
    }
    assert_eq!(session.state(), SessionState::Init);
}

#[test]
fn setup_goes_through_its_stages() {
    let mut session = Session::new("5".to_string());
    session.transition(SessionState::Originating).unwrap();
    let (stage, step) = setup_step::<u8, u8, u8>(
        SetupStage::CreatingMedia,
        &mut session,
        SetupEvent::MediaReady(1),
    );
    assert!(matches!(step, SetupStep::ConnectSocket));
    let (stage, step) = setup_step::<u8, u8, u8>(stage, &mut session, SetupEvent::SocketConnected);
    assert!(matches!(step, SetupStep::DialAndBridge));
    assert!(matches!(stage, SetupStage::Dialing(1)));
    let (stage, step) = setup_step::<u8, u8, u8>(stage, &mut session, SetupEvent::Dialed(2));
    assert!(matches!(step, SetupStep::Succeed(2)));
    assert!(!setup_expects::<u8, u8, u8>(&stage, &SetupEvent::CleanedUp));
    assert_eq!(session.state(), SessionState::ConnectingMedia);
}

#[test]
fn setup_ends_with_the_error_of_the_dial() {
    let mut session = Session::new("5".to_string());
    let (stage, step) = setup_step::<u8, u8, u8>(
        SetupStage::Dialing(1),
        &mut session,
        SetupEvent::DialFailed(17),
    );
    assert!(matches!(step, SetupStep::CleanUpMedia(1)));
    let (stage, step) = setup_step::<u8, u8, u8>(stage, &mut session, SetupEvent::CleanedUp);
    assert!(matches!(stage, SetupStage::Ended));
    assert!(matches!(step, SetupStep::Fail(SetupFailure::Failed(17))));
}
