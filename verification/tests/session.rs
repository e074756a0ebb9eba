use slmodem_asterisk_bridge::session::{is_valid_transition, Session, SessionState};

const ALL: [SessionState; 6] = [
    SessionState::Init,
    SessionState::Originating,
    SessionState::ConnectingMedia,
    SessionState::MediaActive,
    SessionState::Terminating,
    SessionState::Terminated,
];

#[test]
fn accepts_valid_transition_sequence() {
    let mut session = Session::new("15551234567".to_string());

    session.transition(SessionState::Originating).unwrap();
    session.transition(SessionState::ConnectingMedia).unwrap();
    session.transition(SessionState::MediaActive).unwrap();
    session.transition(SessionState::Terminating).unwrap();
    session.transition(SessionState::Terminated).unwrap();

    assert_eq!(session.state(), SessionState::Terminated);
}

#[test]
fn rejects_invalid_transition() {
    let mut session = Session::new("15551234567".to_string());
    let err = session
        .transition(SessionState::MediaActive)
        .expect_err("must reject skipping connecting state");

    assert!(err.to_string().contains("invalid session state transition"));
    assert_eq!(session.state(), SessionState::Init);
}

#[test]
fn refusal_names_both_states() {
    let mut session = Session::new("1".to_string());
    let err = session.transition(SessionState::Terminated).unwrap_err();
    assert_eq!(
        err.to_string(),
        "invalid session state transition: Init -> Terminated"
    );
    session.transition(SessionState::Originating).unwrap();
    let err = session.transition(SessionState::Init).unwrap_err();
    assert_eq!(
        err.to_string(),
        format!(
            "invalid session state transition: {:?} -> {:?}",
            SessionState::Originating,
            SessionState::Init
        )
    );
}

#[test]
fn state_names_match_their_debug_form() {
    for state in ALL {
        assert_eq!(state.name(), format!("{:?}", state));
    }
}

#[test]
fn transition_table_is_exact() {
    let valid = [
        (SessionState::Init, SessionState::Originating),
        (SessionState::Originating, SessionState::ConnectingMedia),
        (SessionState::ConnectingMedia, SessionState::MediaActive),
        (SessionState::ConnectingMedia, SessionState::Terminating),
        (SessionState::Originating, SessionState::Terminating),
        (SessionState::MediaActive, SessionState::Terminating),
        (SessionState::Terminating, SessionState::Terminated),
    ];
    for from in ALL {
        for to in ALL {
            assert_eq!(is_valid_transition(from, to), valid.contains(&(from, to)));
        }
    }
}

#[test]
fn number_is_kept_through_transitions() {
    let mut session = Session::new("15551234567".to_string());
    assert_eq!(session.dial(), "15551234567");
    session.transition(SessionState::Originating).unwrap();
    session.transition(SessionState::Terminating).unwrap();
    assert_eq!(session.dial(), "15551234567");
    assert_eq!(session.state(), SessionState::Terminating);
}
