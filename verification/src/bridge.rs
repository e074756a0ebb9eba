//! The course of the bridge from start to end.
//!
//! The bridge registers with Asterisk, tells `slmodemd` that it is ready, and
//! then serves one call after another: it waits for a number, sets the call
//! up, relays its audio and tears it down. Everything that can go wrong on the
//! way has its place here; what is asked for is carried out elsewhere, and its
//! outcome comes back as an event.
//!
//! `M` stands for a media channel, `C` for a call and `E` for an error, as in
//! [`crate::ari_setup`].

use vstd::prelude::*;

use crate::ari_setup::{
    setup_accepts, setup_expects, setup_holds, setup_next, setup_session, setup_step, SetupEvent,
    SetupFailure, SetupStage, SetupStep,
};
use crate::dial_string::{dial_string, DialString, DialStringError};
use crate::session::{valid_transition, Session, SessionState, SessionView};

verus! {

/// The most calls in the life of one bridge, so that a `slmodemd` that never
/// stops asking cannot keep it in a loop. Far more than any real session.
pub const CALLS_LIMIT: u32 = 1000;

/// The byte that tells `slmodemd` that the audio path is ready.
pub const READY_BYTE: u8 = 82;

/// Why a bridge cannot be started.
#[derive(Debug, Clone, Copy, PartialEq, Eq, Structural)]
pub enum StartError {
    /// The socket descriptor is negative.
    NegativeFd,
    /// There is no ARI base URL.
    EmptyBaseUrl,
}

/// What became of the last thing that was asked for, or what came from
/// outside.
#[derive(Debug)]
pub enum Event<M, C, E> {
    /// The events WebSocket is open, so the application is registered.
    Registered,
    RegisterFailed(E),
    /// `slmodemd` was told that the bridge is ready.
    ReadyWritten,
    ReadyFailed(E),
    /// `slmodemd` asked for a call to this number, or for what is no dial
    /// string.
    Number(Result<String, DialStringError>),
    /// The wait ended without a number: `slmodemd` is gone.
    WaitEnded,
    /// The setup of the call went one step further.
    Setup(SetupEvent<M, C, E>),
    /// The setup was abandoned because the socket failed under it with this
    /// error. A clean-up is never abandoned.
    SetupAbandoned(E),
    /// Both directions of the relay have come to their end.
    RelayEnded,
    RelayFailed(E),
    /// The call is torn down.
    TornDown,
}

/// How a bridge ends.
#[derive(Debug)]
pub enum Outcome<E> {
    /// As it should: `slmodemd` closed the socket.
    Shutdown,
    RegisterFailed(E),
    ReadyFailed(E),
    RelayFailed(E),
    /// There were too many calls.
    CallLimit,
}

/// What the bridge asks for next.
#[derive(Debug)]
pub enum Action<M, C, E> {
    /// Write the ready byte to `slmodemd`.
    SendReady,
    /// Wait for `slmodemd` to ask for a call.
    WaitForDial,
    /// Create a media channel.
    SetUpMedia,
    /// Connect the WebSocket of the media channel.
    ConnectSocket,
    /// Dial the number and bridge it to the media channel.
    DialAndBridge,
    /// Clean up this media channel.
    CleanUpMedia(M),
    /// Relay the audio of the call.
    Relay,
    /// Tear down this call: hang up its channels and destroy its bridge.
    TearDown(C),
    /// Stop.
    Stop(Outcome<E>),
}

/// Where the bridge stands.
#[derive(Debug)]
enum Stage<M, C, E> {
    Registering,
    Announcing,
    Waiting,
    SettingUp { session: Session, setup: SetupStage<M, E> },
    Relaying { session: Session, call: C },
    TearingDown { session: Session, failure: Option<E> },
    Stopped,
}

/// Where the bridge stands.
pub enum StageView<M, C, E> {
    /// The events WebSocket is being opened.
    Registering,
    /// The ready byte is being written.
    Announcing,
    /// The bridge waits for a number.
    Waiting,
    /// A call is being set up.
    SettingUp { session: SessionView, setup: SetupStage<M, E> },
    /// The audio of a call is being relayed.
    Relaying { session: SessionView, call: C },
    /// A call is being torn down. `failure` is the error that its relay failed
    /// with, if it did.
    TearingDown { session: SessionView, failure: Option<E> },
    /// The bridge has stopped.
    Stopped,
}

impl<M, C, E> Stage<M, C, E> {
    spec fn shows(self) -> StageView<M, C, E> {
        match self {
            Stage::Registering => StageView::Registering,
            Stage::Announcing => StageView::Announcing,
            Stage::Waiting => StageView::Waiting,
            Stage::SettingUp { session, setup } => StageView::SettingUp { session: session@, setup },
            Stage::Relaying { session, call } => StageView::Relaying { session: session@, call },
            Stage::TearingDown { session, failure } => StageView::TearingDown {
                session: session@,
                failure,
            },
            Stage::Stopped => StageView::Stopped,
        }
    }
}

/// What a bridge is: the calls it was asked for, where it stands, the last call
/// that it served to the end, and the failure of the setup of the call it was
/// asked for last.
pub struct BridgeView<M, C, E> {
    pub calls: int,
    pub stage: StageView<M, C, E>,
    pub ended: Option<SessionView>,
    pub failed: Option<SetupFailure<E>>,
}

/// The state of the session of the current call fits the stage of the bridge.
pub open spec fn fits<M, C, E>(stage: StageView<M, C, E>) -> bool {
    match stage {
        StageView::SettingUp { session, setup } => match setup {
            SetupStage::CreatingMedia => session.state == SessionState::Originating,
            SetupStage::ConnectingSocket(_) => session.state == SessionState::ConnectingMedia,
            SetupStage::Dialing(_) => session.state == SessionState::ConnectingMedia,
            SetupStage::CleaningUp(failure) => {
                &&& session.state == SessionState::ConnectingMedia
                &&& failure is Failed
            },
            SetupStage::Ended => false,
        },
        StageView::Relaying { session, .. } => session.state == SessionState::MediaActive,
        StageView::TearingDown { session, .. } => session.state == SessionState::MediaActive,
        _ => true,
    }
}

/// What holds of a bridge at all times.
pub open spec fn consistent<M, C, E>(bridge: BridgeView<M, C, E>) -> bool {
    &&& 0 <= bridge.calls <= CALLS_LIMIT
    &&& bridge.stage is Waiting ==> bridge.calls < CALLS_LIMIT
    &&& fits(bridge.stage)
    &&& bridge.ended matches Some(session) ==> session.state == SessionState::Terminating
}

/// Whether an event can happen where the bridge stands.
pub open spec fn accepts<M, C, E>(stage: StageView<M, C, E>, event: Event<M, C, E>) -> bool {
    match stage {
        StageView::Registering => event is Registered || event is RegisterFailed,
        StageView::Announcing => event is ReadyWritten || event is ReadyFailed,
        StageView::Waiting => event is Number || event is WaitEnded,
        StageView::SettingUp { setup, .. } => match event {
            Event::Setup(event) => setup_accepts(setup, event),
            Event::SetupAbandoned(_) => !(setup is CleaningUp),
            _ => false,
        },
        StageView::Relaying { .. } => event is RelayEnded || event is RelayFailed,
        StageView::TearingDown { .. } => event is TornDown,
        StageView::Stopped => false,
    }
}

/// The bridge waits for the next call, unless there were too many.
pub open spec fn waits<M, C, E>(bridge: BridgeView<M, C, E>) -> (
    BridgeView<M, C, E>,
    Action<M, C, E>,
) {
    if bridge.calls < CALLS_LIMIT {
        (BridgeView { stage: StageView::Waiting, ..bridge }, Action::WaitForDial)
    } else {
        (
            BridgeView { stage: StageView::Stopped, ..bridge },
            Action::Stop(Outcome::CallLimit),
        )
    }
}

/// The bridge after a step of the setup of the current call.
pub open spec fn next_in_setup<M, C, E>(
    bridge: BridgeView<M, C, E>,
    session: SessionView,
    setup: SetupStage<M, E>,
    event: SetupEvent<M, C, E>,
) -> (BridgeView<M, C, E>, Action<M, C, E>) {
    let (next_setup, step) = setup_next(setup, session, event);
    let going_on = BridgeView {
        stage: StageView::SettingUp { session: setup_session(session, event), setup: next_setup },
        ..bridge
    };
    match step {
        SetupStep::ConnectSocket => (going_on, Action::ConnectSocket),
        SetupStep::DialAndBridge => (going_on, Action::DialAndBridge),
        SetupStep::CleanUpMedia(media) => (going_on, Action::CleanUpMedia(media)),
        SetupStep::Succeed(call) => (
            BridgeView {
                stage: StageView::Relaying {
                    session: SessionView { state: SessionState::MediaActive, ..session },
                    call,
                },
                ..bridge
            },
            Action::Relay,
        ),
        SetupStep::Fail(failure) => waits(BridgeView { failed: Some(failure), ..bridge }),
    }
}

/// The bridge after the setup of the current call was abandoned with `error`: a
/// media channel that is held is cleaned up first.
pub open spec fn next_when_abandoned<M, C, E>(
    bridge: BridgeView<M, C, E>,
    session: SessionView,
    setup: SetupStage<M, E>,
    error: E,
) -> (BridgeView<M, C, E>, Action<M, C, E>) {
    let failure = SetupFailure::Failed(error);
    let cleaning_up = BridgeView {
        stage: StageView::SettingUp { session, setup: SetupStage::CleaningUp(failure) },
        ..bridge
    };
    match setup {
        SetupStage::ConnectingSocket(media) => (cleaning_up, Action::CleanUpMedia(media)),
        SetupStage::Dialing(media) => (cleaning_up, Action::CleanUpMedia(media)),
        _ => waits(BridgeView { failed: Some(failure), ..bridge }),
    }
}

/// The bridge after an event, and what it asks for then. A failure that ends
/// the bridge ends it with its error.
pub open spec fn next<M, C, E>(bridge: BridgeView<M, C, E>, event: Event<M, C, E>) -> (
    BridgeView<M, C, E>,
    Action<M, C, E>,
) {
    let stopped = BridgeView { stage: StageView::Stopped, ..bridge };
    match (bridge.stage, event) {
        (StageView::Registering, Event::Registered) => (
            BridgeView { stage: StageView::Announcing, ..bridge },
            Action::SendReady,
        ),
        (StageView::Registering, Event::RegisterFailed(error)) => (
            stopped,
            Action::Stop(Outcome::RegisterFailed(error)),
        ),
        (StageView::Announcing, Event::ReadyWritten) => waits(bridge),
        (StageView::Announcing, Event::ReadyFailed(error)) => (
            stopped,
            Action::Stop(Outcome::ReadyFailed(error)),
        ),
        (StageView::Waiting, Event::Number(Ok(number))) => (
            BridgeView {
                calls: bridge.calls + 1,
                stage: StageView::SettingUp {
                    session: SessionView { dial: number@, state: SessionState::Originating },
                    setup: SetupStage::CreatingMedia,
                },
                ended: bridge.ended,
                failed: None,
            },
            Action::SetUpMedia,
        ),
        (StageView::Waiting, Event::Number(Err(_))) => waits(
            BridgeView { calls: bridge.calls + 1, failed: None, ..bridge },
        ),
        (StageView::SettingUp { session, setup }, Event::Setup(event)) => next_in_setup(
            bridge,
            session,
            setup,
            event,
        ),
        (StageView::SettingUp { session, setup }, Event::SetupAbandoned(error)) =>
            next_when_abandoned(bridge, session, setup, error),
        (StageView::Relaying { session, call }, Event::RelayEnded) => (
            BridgeView { stage: StageView::TearingDown { session, failure: None }, ..bridge },
            Action::TearDown(call),
        ),
        (StageView::Relaying { session, call }, Event::RelayFailed(error)) => (
            BridgeView {
                stage: StageView::TearingDown { session, failure: Some(error) },
                ..bridge
            },
            Action::TearDown(call),
        ),
        (StageView::TearingDown { session, failure: None }, _) => waits(
            BridgeView {
                ended: Some(SessionView { state: SessionState::Terminating, ..session }),
                ..bridge
            },
        ),
        (StageView::TearingDown { session: _, failure: Some(error) }, _) => (
            stopped,
            Action::Stop(Outcome::RelayFailed(error)),
        ),
        _ => (stopped, Action::Stop(Outcome::Shutdown)),
    }
}

/// `event` is what comes of `slmodemd` asking for `raw`: a number if it is a
/// dial string, as it was parsed, and the reason if it is not.
pub open spec fn is_dial_event<M, C, E>(raw: Seq<char>, event: Event<M, C, E>) -> bool {
    match event {
        Event::Number(Ok(number)) => dial_string(raw) == Ok::<Seq<char>, DialStringError>(number@),
        Event::Number(Err(error)) => dial_string(raw) == Err::<Seq<char>, DialStringError>(error),
        _ => false,
    }
}

/// The event that `slmodemd` brings about by asking for `raw`.
pub fn dial_event<M, C, E>(raw: &str) -> (event: Event<M, C, E>)
    ensures
        is_dial_event(raw@, event),
{
    match DialString::parse(raw) {
        Ok(dial) => Event::Number(Ok(dial.as_str().to_owned())),
        Err(error) => Event::Number(Err(error)),
    }
}

/// Why a bridge cannot be started with a socket descriptor and an ARI base URL,
/// if it cannot.
pub open spec fn start_refusal(socket_fd: int, ari_base_url: Seq<char>) -> Option<StartError> {
    if socket_fd < 0 {
        Some(StartError::NegativeFd)
    } else if ari_base_url.len() == 0 {
        Some(StartError::EmptyBaseUrl)
    } else {
        None
    }
}

/// The course of one bridge.
#[derive(Debug)]
pub struct Bridge<M, C, E> {
    calls_count: u32,
    stage: Stage<M, C, E>,
    ended: Option<Session>,
    failed: Option<SetupFailure<E>>,
}

impl<M, C, E> View for Bridge<M, C, E> {
    type V = BridgeView<M, C, E>;

    closed spec fn view(&self) -> BridgeView<M, C, E> {
        BridgeView {
            calls: self.calls_count as int,
            stage: self.stage.shows(),
            ended: match self.ended {
                Some(session) => Some(session@),
                None => None,
            },
            failed: self.failed,
        }
    }
}

impl<M, C, E> Bridge<M, C, E> {
    #[verifier::type_invariant]
    spec fn well_formed(self) -> bool {
        consistent(self@)
    }

    /// A bridge that is about to register, unless it was configured in a way
    /// that it cannot work with.
    pub fn start(socket_fd: i32, ari_base_url: &str) -> (result: Result<Self, StartError>)
        ensures
            match result {
                Ok(bridge) => {
                    &&& socket_fd >= 0
                    &&& ari_base_url@.len() > 0
                    &&& bridge@ == (BridgeView::<M, C, E> {
                        calls: 0,
                        stage: StageView::Registering,
                        ended: None,
                        failed: None,
                    })
                },
                Err(StartError::NegativeFd) => socket_fd < 0,
                Err(StartError::EmptyBaseUrl) => socket_fd >= 0 && ari_base_url@.len() == 0,
            },
            match result {
                Ok(_) => start_refusal(socket_fd as int, ari_base_url@) is None,
                Err(error) => start_refusal(socket_fd as int, ari_base_url@) == Some(error),
            },
    {
        if socket_fd < 0 {
            return Err(StartError::NegativeFd);
        }
        if ari_base_url.is_empty() {
            return Err(StartError::EmptyBaseUrl);
        }
        Ok(Self { calls_count: 0, stage: Stage::Registering, ended: None, failed: None })
    }

    /// Whether an event can happen where the bridge stands.
    pub fn expects(&self, event: &Event<M, C, E>) -> (expected: bool)
        ensures
            expected == accepts(self@.stage, *event),
    {
        match (&self.stage, event) {
            (Stage::Registering, Event::Registered) => true,
            (Stage::Registering, Event::RegisterFailed(_)) => true,
            (Stage::Announcing, Event::ReadyWritten) => true,
            (Stage::Announcing, Event::ReadyFailed(_)) => true,
            (Stage::Waiting, Event::Number(_)) => true,
            (Stage::Waiting, Event::WaitEnded) => true,
            (Stage::SettingUp { session: _, setup }, Event::Setup(event)) => setup_expects(
                setup,
                event,
            ),
            (Stage::SettingUp { session: _, setup }, Event::SetupAbandoned(_)) => match setup {
                SetupStage::CleaningUp(_) => false,
                _ => true,
            },
            (Stage::Relaying { .. }, Event::RelayEnded) => true,
            (Stage::Relaying { .. }, Event::RelayFailed(_)) => true,
            (Stage::TearingDown { .. }, Event::TornDown) => true,
            _ => false,
        }
    }

    /// Goes back to waiting, or stops after too many calls.
    fn wait(&mut self) -> (action: Action<M, C, E>)
        ensures
            (final(self)@, action) == waits(old(self)@),
    {
        proof {
            use_type_invariant(&*self);
        }
        if self.calls_count < CALLS_LIMIT {
            self.stage = Stage::Waiting;
            Action::WaitForDial
        } else {
            self.stage = Stage::Stopped;
            Action::Stop(Outcome::CallLimit)
        }
    }

    /// Takes the bridge one event further.
    pub fn step(&mut self, event: Event<M, C, E>) -> (action: Action<M, C, E>)
        requires
            accepts(old(self)@.stage, event),
        ensures
            (final(self)@, action) == next(old(self)@, event),
    {
        proof {
            use_type_invariant(&*self);
        }
        let mut stage: Stage<M, C, E> = Stage::Stopped;
        std::mem::swap(&mut stage, &mut self.stage);
        match (stage, event) {
            (Stage::Registering, Event::Registered) => {
                self.stage = Stage::Announcing;
                Action::SendReady
            },
            (Stage::Registering, Event::RegisterFailed(error)) => {
                Action::Stop(Outcome::RegisterFailed(error))
            },
            (Stage::Announcing, Event::ReadyWritten) => self.wait(),
            (Stage::Announcing, Event::ReadyFailed(error)) => {
                Action::Stop(Outcome::ReadyFailed(error))
            },
            (Stage::Waiting, Event::Number(Ok(number))) => {
                let mut session: Session = Session::new(number);
                let originating = session.transition(SessionState::Originating);
                assert(originating is Ok);
                self.calls_count = self.calls_count + 1;
                self.failed = None;
                self.stage = Stage::SettingUp { session, setup: SetupStage::CreatingMedia };
                Action::SetUpMedia
            },
            (Stage::Waiting, Event::Number(Err(_))) => {
                self.calls_count = self.calls_count + 1;
                self.failed = None;
                self.wait()
            },
            (Stage::SettingUp { session, setup }, Event::Setup(event)) => {
                self.step_in_setup(session, setup, event)
            },
            (Stage::SettingUp { session, setup }, Event::SetupAbandoned(error)) => {
                let failure: SetupFailure<E> = SetupFailure::Failed(error);
                match setup {
                    SetupStage::ConnectingSocket(media) => {
                        let setup: SetupStage<M, E> = SetupStage::CleaningUp(failure);
                        self.stage = Stage::SettingUp { session, setup };
                        Action::CleanUpMedia(media)
                    },
                    SetupStage::Dialing(media) => {
                        let setup: SetupStage<M, E> = SetupStage::CleaningUp(failure);
                        self.stage = Stage::SettingUp { session, setup };
                        Action::CleanUpMedia(media)
                    },
                    _ => {
                        self.failed = Some(failure);
                        self.wait()
                    },
                }
            },
            (Stage::Relaying { session, call }, Event::RelayEnded) => {
                self.stage = Stage::TearingDown { session, failure: None };
                Action::TearDown(call)
            },
            (Stage::Relaying { session, call }, Event::RelayFailed(error)) => {
                self.stage = Stage::TearingDown { session, failure: Some(error) };
                Action::TearDown(call)
            },
            (Stage::TearingDown { session, failure }, _) => match failure {
                Some(error) => Action::Stop(Outcome::RelayFailed(error)),
                None => {
                    let mut session: Session = session;
                    let terminating = session.transition(SessionState::Terminating);
                    assert(terminating is Ok);
                    self.ended = Some(session);
                    self.wait()
                },
            },
            _ => Action::Stop(Outcome::Shutdown),
        }
    }

    /// Takes the setup of the current call one event further.
    fn step_in_setup(
        &mut self,
        session: Session,
        setup: SetupStage<M, E>,
        event: SetupEvent<M, C, E>,
    ) -> (action: Action<M, C, E>)
        requires
            old(self)@.stage is Stopped,
            setup_accepts(setup, event),
            fits::<M, C, E>(StageView::SettingUp { session: session@, setup }),
        ensures
            (final(self)@, action) == next_in_setup(old(self)@, session@, setup, event),
    {
        proof {
            use_type_invariant(&*self);
        }
        let mut session: Session = session;
        let (setup, step) = setup_step(setup, &mut session, event);
        match step {
            SetupStep::ConnectSocket => {
                self.stage = Stage::SettingUp { session, setup };
                Action::ConnectSocket
            },
            SetupStep::DialAndBridge => {
                self.stage = Stage::SettingUp { session, setup };
                Action::DialAndBridge
            },
            SetupStep::CleanUpMedia(media) => {
                self.stage = Stage::SettingUp { session, setup };
                Action::CleanUpMedia(media)
            },
            SetupStep::Succeed(call) => {
                let active = session.transition(SessionState::MediaActive);
                assert(active is Ok);
                self.stage = Stage::Relaying { session, call };
                Action::Relay
            },
            SetupStep::Fail(failure) => {
                self.failed = Some(failure);
                self.wait()
            },
        }
    }

    /// The session of the current call.
    pub fn session(&self) -> (session: Option<&Session>)
        ensures
            match self@.stage {
                StageView::SettingUp { session: current, .. } => session is Some && session->0@
                    == current,
                StageView::Relaying { session: current, .. } => session is Some && session->0@
                    == current,
                StageView::TearingDown { session: current, .. } => session is Some && session->0@
                    == current,
                _ => session is None,
            },
            match current_session(self@.stage) {
                Some(current) => session is Some && session->0@ == current,
                None => session is None,
            },
    {
        match &self.stage {
            Stage::SettingUp { session, setup: _ } => Some(session),
            Stage::Relaying { session, call: _ } => Some(session),
            Stage::TearingDown { session, failure: _ } => Some(session),
            _ => None,
        }
    }

    /// The media channel of the call that is being set up.
    pub fn media(&self) -> (media: Option<&M>)
        ensures
            media == (match self@.stage {
                StageView::SettingUp { setup: SetupStage::ConnectingSocket(media), .. } => Some(
                    &media,
                ),
                StageView::SettingUp { setup: SetupStage::Dialing(media), .. } => Some(&media),
                _ => None,
            }),
            match current_media(self@.stage) {
                Some(current) => media == Some(&current),
                None => media is None,
            },
    {
        match &self.stage {
            Stage::SettingUp { session: _, setup } => match setup {
                SetupStage::ConnectingSocket(media) => Some(media),
                SetupStage::Dialing(media) => Some(media),
                _ => None,
            },
            _ => None,
        }
    }

    /// The last call that was served to its end.
    pub fn ended(&self) -> (session: Option<&Session>)
        ensures
            match self@.ended {
                Some(ended) => session is Some && session->0@ == ended,
                None => session is None,
            },
    {
        match &self.ended {
            Some(session) => Some(session),
            None => None,
        }
    }

    /// Why the setup of the call that was asked for last has failed, if it has.
    pub fn setup_failure(&self) -> (failure: Option<&SetupFailure<E>>)
        ensures
            failure == (match self@.failed {
                Some(failed) => Some(&failed),
                None => None,
            }),
    {
        match &self.failed {
            Some(failure) => Some(failure),
            None => None,
        }
    }

    /// How many calls the bridge was asked for.
    pub fn calls_count(&self) -> (calls: u32)
        ensures
            calls == self@.calls,
            calls <= CALLS_LIMIT,
    {
        proof {
            use_type_invariant(self);
        }
        self.calls_count
    }
}

/// A course of a bridge: the states it went through from its start, the event
/// that led from each to the next, and what was asked for then.
pub struct Course<M, C, E> {
    pub states: Seq<BridgeView<M, C, E>>,
    pub events: Seq<Event<M, C, E>>,
    pub actions: Seq<Action<M, C, E>>,
}

impl<M, C, E> Course<M, C, E> {
    /// Step `i` of the course is one that a bridge takes.
    pub open spec fn step_is_taken(self, i: int) -> bool {
        &&& accepts(self.states[i].stage, self.events[i])
        &&& next(self.states[i], self.events[i]) == (self.states[i + 1], self.actions[i])
    }

    /// The course is one that a bridge can take.
    pub open spec fn possible(self) -> bool {
        &&& self.states.len() == self.events.len() + 1
        &&& self.actions.len() == self.events.len()
        &&& self.states[0] == (BridgeView::<M, C, E> {
            calls: 0,
            stage: StageView::Registering,
            ended: None,
            failed: None,
        })
        &&& forall|i: int| 0 <= i < self.events.len() ==> #[trigger] self.step_is_taken(i)
    }
}

/// How many of the first `n` events are numbers that were asked for.
pub open spec fn numbers_asked<M, C, E>(events: Seq<Event<M, C, E>>, n: int) -> int
    decreases n,
{
    if n <= 0 {
        0
    } else if events[n - 1] is Number {
        numbers_asked(events, n - 1) + 1
    } else {
        numbers_asked(events, n - 1)
    }
}

/// An event that brings a media channel into being.
pub open spec fn brings_media<M, C, E>(event: Event<M, C, E>) -> bool {
    event matches Event::Setup(event) && event is MediaReady
}

/// An event that brings a call into being.
pub open spec fn brings_call<M, C, E>(event: Event<M, C, E>) -> bool {
    event matches Event::Setup(event) && event is Dialed
}

/// How many of the first `n` events bring a media channel into being.
pub open spec fn media_created<M, C, E>(events: Seq<Event<M, C, E>>, n: int) -> int
    decreases n,
{
    if n <= 0 {
        0
    } else if brings_media(events[n - 1]) {
        media_created(events, n - 1) + 1
    } else {
        media_created(events, n - 1)
    }
}

/// How many of the first `n` events bring a call into being.
pub open spec fn calls_made<M, C, E>(events: Seq<Event<M, C, E>>, n: int) -> int
    decreases n,
{
    if n <= 0 {
        0
    } else if brings_call(events[n - 1]) {
        calls_made(events, n - 1) + 1
    } else {
        calls_made(events, n - 1)
    }
}

/// How many of the first `n` actions clean up a media channel.
pub open spec fn clean_ups<M, C, E>(actions: Seq<Action<M, C, E>>, n: int) -> int
    decreases n,
{
    if n <= 0 {
        0
    } else if actions[n - 1] is CleanUpMedia {
        clean_ups(actions, n - 1) + 1
    } else {
        clean_ups(actions, n - 1)
    }
}

/// How many of the first `n` actions tear down a call.
pub open spec fn tear_downs<M, C, E>(actions: Seq<Action<M, C, E>>, n: int) -> int
    decreases n,
{
    if n <= 0 {
        0
    } else if actions[n - 1] is TearDown {
        tear_downs(actions, n - 1) + 1
    } else {
        tear_downs(actions, n - 1)
    }
}

/// Whether a media channel that does not belong to a call yet is held.
pub open spec fn holds_media<M, C, E>(stage: StageView<M, C, E>) -> bool {
    stage matches StageView::SettingUp { setup, .. } && setup_holds(setup)
}

/// What holds of a bridge at all times is kept by every event.
pub proof fn consistency_is_kept<M, C, E>(bridge: BridgeView<M, C, E>, event: Event<M, C, E>)
    requires
        consistent(bridge),
        accepts(bridge.stage, event),
    ensures
        consistent(next(bridge, event).0),
{
}

/// A bridge is consistent throughout its course.
pub proof fn course_is_consistent<M, C, E>(course: Course<M, C, E>, n: int)
    requires
        course.possible(),
        0 <= n < course.states.len(),
    ensures
        consistent(course.states[n]),
    decreases n,
{
    if n > 0 {
        course_is_consistent(course, n - 1);
        assert(course.step_is_taken(n - 1));
        consistency_is_kept(course.states[n - 1], course.events[n - 1]);
    }
}

/// The calls that a bridge counts are the numbers it was asked for, valid or
/// not, and they are never more than the limit.
pub proof fn calls_are_counted_and_bounded<M, C, E>(course: Course<M, C, E>, n: int)
    requires
        course.possible(),
        0 <= n < course.states.len(),
    ensures
        course.states[n].calls == numbers_asked(course.events, n),
        numbers_asked(course.events, n) <= CALLS_LIMIT,
    decreases n,
{
    course_is_consistent(course, n);
    if n > 0 {
        calls_are_counted_and_bounded(course, n - 1);
        assert(course.step_is_taken(n - 1));
    }
}

/// Every call that was made is torn down exactly once, and nothing else is: at
/// any time the calls made are those whose teardown was asked for and the one
/// that is being relayed.
pub proof fn every_call_is_torn_down<M, C, E>(course: Course<M, C, E>, n: int)
    requires
        course.possible(),
        0 <= n < course.states.len(),
    ensures
        calls_made(course.events, n) == tear_downs(course.actions, n) + (
        if course.states[n].stage is Relaying {
            1int
        } else {
            0int
        }),
    decreases n,
{
    if n > 0 {
        every_call_is_torn_down(course, n - 1);
        course_is_consistent(course, n - 1);
        assert(course.step_is_taken(n - 1));
    }
}

/// Every media channel that was created is cleaned up exactly once or becomes
/// part of a call, which is torn down: at any time the channels created are
/// those whose clean-up was asked for, those of the calls made, and the one
/// that is held.
pub proof fn every_media_channel_is_released<M, C, E>(course: Course<M, C, E>, n: int)
    requires
        course.possible(),
        0 <= n < course.states.len(),
    ensures
        media_created(course.events, n) == clean_ups(course.actions, n) + calls_made(
            course.events,
            n,
        ) + (if holds_media(course.states[n].stage) {
            1int
        } else {
            0int
        }),
    decreases n,
{
    if n > 0 {
        every_media_channel_is_released(course, n - 1);
        course_is_consistent(course, n - 1);
        assert(course.step_is_taken(n - 1));
    }
}

/// When a bridge stops or waits for the next call, everything is released:
/// each media channel that was created was cleaned up or went into a call, and
/// each call that was made was torn down.
pub proof fn nothing_is_left_behind<M, C, E>(course: Course<M, C, E>, n: int)
    requires
        course.possible(),
        0 <= n < course.states.len(),
        course.states[n].stage is Stopped || course.states[n].stage is Waiting,
    ensures
        media_created(course.events, n) == clean_ups(course.actions, n) + tear_downs(
            course.actions,
            n,
        ),
        calls_made(course.events, n) == tear_downs(course.actions, n),
{
    every_call_is_torn_down(course, n);
    every_media_channel_is_released(course, n);
}

/// What is cleaned up is the media channel that was held, and what is torn
/// down is the call that was relayed.
pub proof fn only_what_is_held_is_released<M, C, E>(bridge: BridgeView<M, C, E>, event: Event<M, C, E>)
    requires
        consistent(bridge),
        accepts(bridge.stage, event),
    ensures
        next(bridge, event).1 matches Action::CleanUpMedia(media) ==> (bridge.stage matches
            StageView::SettingUp { setup, .. } && (setup == SetupStage::<M, E>::ConnectingSocket(media)
            || setup == SetupStage::<M, E>::Dialing(media))),
        next(bridge, event).1 matches Action::TearDown(call) ==> (bridge.stage matches
            StageView::Relaying { call: relayed, .. } && relayed == call),
{
}

/// What is torn down is the very call that dialling gave, and what is cleaned
/// up is the very media channel that was created for it.
pub proof fn released_is_what_was_made<M, C, E>(course: Course<M, C, E>, i: int)
    requires
        course.possible(),
        0 <= i < course.actions.len(),
    ensures
        course.actions[i] matches Action::TearDown(call) ==> {
            &&& i >= 1
            &&& course.events[i - 1] == Event::<M, C, E>::Setup(SetupEvent::Dialed(call))
        },
        course.actions[i] matches Action::CleanUpMedia(media) ==> {
            let created = Event::<M, C, E>::Setup(SetupEvent::MediaReady(media));
            ||| i >= 1 && course.events[i - 1] == created
            ||| i >= 2 && course.events[i - 2] == created
        },
{
    assert(course.step_is_taken(i));
    if i >= 1 {
        course_is_consistent(course, i - 1);
        assert(course.step_is_taken(i - 1));
    }
    if i >= 2 {
        course_is_consistent(course, i - 2);
        assert(course.step_is_taken(i - 2));
    }
}

/// The most steps that can lead to where the bridge stands.
pub open spec fn steps_at_most<M, C, E>(bridge: BridgeView<M, C, E>) -> int {
    let before_call = 2 + 6 * (bridge.calls - 1);
    match bridge.stage {
        StageView::Registering => 0,
        StageView::Announcing => 1,
        StageView::Waiting => 2 + 6 * bridge.calls,
        StageView::SettingUp { setup, .. } => match setup {
            SetupStage::CreatingMedia => before_call + 1,
            SetupStage::ConnectingSocket(_) => before_call + 2,
            SetupStage::Dialing(_) => before_call + 3,
            SetupStage::CleaningUp(_) => before_call + 4,
            SetupStage::Ended => before_call + 4,
        },
        StageView::Relaying { .. } => before_call + 4,
        StageView::TearingDown { .. } => before_call + 5,
        StageView::Stopped => 3 + 6 * bridge.calls,
    }
}

/// A bridge does not go on for ever: whatever happens, it has stopped after a
/// number of steps that the limit on calls determines.
pub proof fn course_is_finite<M, C, E>(course: Course<M, C, E>, n: int)
    requires
        course.possible(),
        0 <= n < course.states.len(),
    ensures
        n <= steps_at_most(course.states[n]),
        n <= 3 + 6 * CALLS_LIMIT,
    decreases n,
{
    course_is_consistent(course, n);
    if n > 0 {
        course_is_finite(course, n - 1);
        course_is_consistent(course, n - 1);
        assert(course.step_is_taken(n - 1));
    }
}

/// A bridge that has not stopped is never stuck: whatever it asked for may
/// fail, and it has an answer to that.
pub proof fn bridge_is_never_stuck<M, C, E>(bridge: BridgeView<M, C, E>, error: E)
    requires
        consistent(bridge),
        !(bridge.stage is Stopped),
    ensures
        exists|event: Event<M, C, E>| #[trigger] accepts(bridge.stage, event),
{
    let event: Event<M, C, E> = match bridge.stage {
        StageView::Registering => Event::RegisterFailed(error),
        StageView::Announcing => Event::ReadyFailed(error),
        StageView::Waiting => Event::WaitEnded,
        StageView::SettingUp { setup, .. } => Event::Setup(
            match setup {
                SetupStage::CreatingMedia => SetupEvent::MediaFailed(error),
                SetupStage::ConnectingSocket(_) => SetupEvent::SocketFailed(error),
                SetupStage::Dialing(_) => SetupEvent::DialFailed(error),
                _ => SetupEvent::CleanedUp,
            },
        ),
        StageView::Relaying { .. } => Event::RelayFailed(error),
        _ => Event::TornDown,
    };
    assert(accepts(bridge.stage, event));
}

/// A bridge that fails ends with the very error that made it fail: that of the
/// registration, of the ready byte, or of the relay whose call was torn down
/// just before.
pub proof fn bridge_ends_with_its_error<M, C, E>(course: Course<M, C, E>, i: int)
    requires
        course.possible(),
        0 <= i < course.actions.len(),
    ensures
        course.actions[i] matches Action::Stop(outcome) ==> match outcome {
            Outcome::RegisterFailed(error) => course.events[i] == Event::<
                M,
                C,
                E,
            >::RegisterFailed(error),
            Outcome::ReadyFailed(error) => course.events[i] == Event::<M, C, E>::ReadyFailed(error),
            Outcome::RelayFailed(error) => {
                &&& i >= 1
                &&& course.events[i - 1] == Event::<M, C, E>::RelayFailed(error)
                &&& course.actions[i - 1] is TearDown
            },
            Outcome::Shutdown => course.events[i] is WaitEnded,
            Outcome::CallLimit => course.states[i + 1].calls == CALLS_LIMIT,
        },
{
    assert(course.step_is_taken(i));
    course_is_consistent(course, i);
    if i >= 1 {
        course_is_consistent(course, i - 1);
        assert(course.step_is_taken(i - 1));
    }
}

/// An event in which the setup of a call fails with `error`.
pub open spec fn fails_setup_with<M, C, E>(event: Event<M, C, E>, error: E) -> bool {
    ||| event == Event::<M, C, E>::Setup(SetupEvent::MediaFailed(error))
    ||| event == Event::<M, C, E>::Setup(SetupEvent::SocketFailed(error))
    ||| event == Event::<M, C, E>::Setup(SetupEvent::DialFailed(error))
    ||| event == Event::<M, C, E>::SetupAbandoned(error)
}

/// When the setup of a call ends in failure, the error that comes out is the
/// very one that made it fail, at once or just before the clean-up, and a
/// setup that fails in the end always leaves one.
pub proof fn setup_failure_keeps_its_error<M, C, E>(course: Course<M, C, E>, i: int)
    requires
        course.possible(),
        0 <= i < course.events.len(),
        course.states[i].stage is SettingUp,
        !(course.states[i + 1].stage is SettingUp),
        !(course.states[i + 1].stage is Relaying),
    ensures
        course.states[i + 1].failed matches Some(SetupFailure::Failed(error)) && {
            ||| fails_setup_with(course.events[i], error)
            ||| i >= 1 && fails_setup_with(course.events[i - 1], error)
        },
{
    assert(course.step_is_taken(i));
    course_is_consistent(course, i);
    if i >= 1 {
        course_is_consistent(course, i - 1);
        assert(course.step_is_taken(i - 1));
    }
}

/// `slmodemd` is told that the bridge is ready only after it has registered,
/// and nothing else is asked for before both are done.
pub proof fn readiness_follows_registration<M, C, E>(course: Course<M, C, E>, i: int)
    requires
        course.possible(),
        0 <= i < course.actions.len(),
        !(course.actions[i] is Stop),
    ensures
        course.events[0] is Registered,
        course.actions[i] is SendReady <==> i == 0,
        i > 0 ==> course.events[1] is ReadyWritten,
    decreases i,
{
    assert(course.step_is_taken(i));
    course_is_consistent(course, i);
    if i > 0 {
        assert(course.step_is_taken(i - 1));
        readiness_follows_registration(course, i - 1);
    }
}

/// A bridge that stops asks for nothing more.
pub proof fn stopping_is_final<M, C, E>(course: Course<M, C, E>, i: int)
    requires
        course.possible(),
        0 <= i < course.actions.len(),
        course.actions[i] is Stop,
    ensures
        course.states[i + 1].stage is Stopped,
        i == course.actions.len() - 1,
{
    assert(course.step_is_taken(i));
    course_is_consistent(course, i);
    if i + 1 < course.events.len() {
        assert(course.step_is_taken(i + 1));
    }
}

/// A failure while a call is set up does not end the bridge: it waits for the
/// next call, unless there were too many.
pub proof fn setup_failure_returns_to_waiting<M, C, E>(bridge: BridgeView<M, C, E>, event: Event<M, C, E>)
    requires
        consistent(bridge),
        accepts(bridge.stage, event),
        bridge.stage is SettingUp,
        bridge.calls < CALLS_LIMIT,
    ensures
        !(next(bridge, event).1 is Stop),
        next(bridge, event).0.stage is SettingUp || next(bridge, event).0.stage is Relaying || next(
            bridge,
            event,
        ).0.stage is Waiting,
{
}

/// What is no dial string is counted and passed over: nothing is asked of
/// Asterisk for it. What is one is dialled as it was parsed.
pub proof fn only_dial_strings_are_dialled<M, C, E>(
    bridge: BridgeView<M, C, E>,
    raw: Seq<char>,
    event: Event<M, C, E>,
)
    requires
        consistent(bridge),
        bridge.stage is Waiting,
        is_dial_event(raw, event),
    ensures
        ({
            let (after, action) = next(bridge, event);
            &&& accepts(bridge.stage, event)
            &&& after.calls == bridge.calls + 1
            &&& match dial_string(raw) {
                Ok(dial) => {
                    &&& action is SetUpMedia
                    &&& current_session(after.stage) == Some(
                        SessionView { dial, state: SessionState::Originating },
                    )
                },
                Err(_) => {
                    &&& action is WaitForDial || action == Action::<M, C, E>::Stop(
                        Outcome::CallLimit,
                    )
                    &&& current_session(after.stage) is None
                },
            }
        }),
{
}

/// The session of the current call.
pub open spec fn current_session<M, C, E>(stage: StageView<M, C, E>) -> Option<SessionView> {
    match stage {
        StageView::SettingUp { session, .. } => Some(session),
        StageView::Relaying { session, .. } => Some(session),
        StageView::TearingDown { session, .. } => Some(session),
        _ => None,
    }
}

/// The bridge moves the session of a call only by transitions that are
/// allowed, never changes its number, and is never refused a transition.
pub proof fn sessions_are_never_refused<M, C, E>(bridge: BridgeView<M, C, E>, event: Event<M, C, E>)
    requires
        consistent(bridge),
        accepts(bridge.stage, event),
    ensures
        current_session(bridge.stage) matches Some(before) ==> (current_session(
            next(bridge, event).0.stage,
        ) matches Some(after) ==> {
            &&& after.dial == before.dial
            &&& after.state == before.state || valid_transition(before.state, after.state)
        }),
        next(bridge, event).0.ended != bridge.ended ==> (current_session(bridge.stage) matches Some(
            before,
        ) && next(bridge, event).0.ended == Some(
            SessionView { state: SessionState::Terminating, ..before },
        ) && valid_transition(before.state, SessionState::Terminating)),
        bridge.stage matches StageView::SettingUp { session, setup } ==> (event matches Event::Setup(
            event,
        ) ==> !(setup_next(setup, session, event).1 matches SetupStep::Fail(failure)
            && failure is Refused)),
{
}

/// The media channel of the call that is being set up.
pub open spec fn current_media<M, C, E>(stage: StageView<M, C, E>) -> Option<M> {
    match stage {
        StageView::SettingUp { setup: SetupStage::ConnectingSocket(media), .. } => Some(media),
        StageView::SettingUp { setup: SetupStage::Dialing(media), .. } => Some(media),
        _ => None,
    }
}

/// A bridge is started whenever it has a descriptor that is not negative and a
/// base URL that is not empty. The descriptor is looked at first.
pub proof fn bridge_starts_with_a_socket_and_a_url(socket_fd: int, ari_base_url: Seq<char>)
    ensures
        start_refusal(socket_fd, ari_base_url) is None <==> socket_fd >= 0 && ari_base_url.len()
            > 0,
        start_refusal(socket_fd, ari_base_url) == Some(StartError::NegativeFd) <==> socket_fd < 0,
        start_refusal(socket_fd, ari_base_url) == Some(StartError::EmptyBaseUrl) <==> socket_fd >= 0
            && ari_base_url.len() == 0,
{
}

/// What is asked for is what the stage that the bridge comes to waits for, after
/// every event of every call.
pub proof fn bridge_asks_for_what_it_waits_for<M, C, E>(
    bridge: BridgeView<M, C, E>,
    event: Event<M, C, E>,
)
    requires
        consistent(bridge),
        accepts(bridge.stage, event),
    ensures
        ({
            let (after, action) = next(bridge, event);
            match after.stage {
                StageView::Registering => false,
                StageView::Announcing => action is SendReady,
                StageView::Waiting => action is WaitForDial,
                StageView::SettingUp { setup, .. } => match setup {
                    SetupStage::CreatingMedia => action is SetUpMedia,
                    SetupStage::ConnectingSocket(_) => action is ConnectSocket,
                    SetupStage::Dialing(_) => action is DialAndBridge,
                    SetupStage::CleaningUp(_) => action is CleanUpMedia,
                    SetupStage::Ended => false,
                },
                StageView::Relaying { .. } => action is Relay,
                StageView::TearingDown { .. } => action is TearDown,
                StageView::Stopped => action is Stop,
            }
        }),
{
}

/// Wherever the bridge stands, it expects that what it has asked for succeeds or
/// fails, and nothing else. A setup may be abandoned until it cleans up.
pub proof fn bridge_expects_success_or_failure<M, C, E>(
    stage: StageView<M, C, E>,
    event: Event<M, C, E>,
)
    requires
        fits(stage),
    ensures
        accepts(stage, event) <==> match event {
            Event::Registered => stage is Registering,
            Event::RegisterFailed(_) => stage is Registering,
            Event::ReadyWritten => stage is Announcing,
            Event::ReadyFailed(_) => stage is Announcing,
            Event::Number(_) => stage is Waiting,
            Event::WaitEnded => stage is Waiting,
            Event::Setup(event) => stage matches StageView::SettingUp { setup, .. } && setup_accepts(
                setup,
                event,
            ),
            Event::SetupAbandoned(_) => stage matches StageView::SettingUp { setup, .. } && {
                ||| setup is CreatingMedia
                ||| setup is ConnectingSocket
                ||| setup is Dialing
            },
            Event::RelayEnded => stage is Relaying,
            Event::RelayFailed(_) => stage is Relaying,
            Event::TornDown => stage is TearingDown,
        },
{
}

/// The bridge has come back to waiting for the next call, or has stopped because
/// this was the thousandth.
pub open spec fn is_done_with_call<M, C, E>(
    after: BridgeView<M, C, E>,
    action: Action<M, C, E>,
) -> bool {
    ||| after.calls < 1000 && after.stage is Waiting && action is WaitForDial
    ||| {
        &&& after.calls >= 1000
        &&& after.stage is Stopped
        &&& action == Action::<M, C, E>::Stop(Outcome::CallLimit)
    }
}

/// Success leads on, for every call in the same way: from registration to the
/// ready byte to the wait, and from the number over the media channel, its
/// WebSocket and the dialling to the relay, the teardown and the next wait.
/// Each stage keeps what the one before it was given.
pub proof fn success_leads_on<M, C, E>(bridge: BridgeView<M, C, E>, event: Event<M, C, E>)
    requires
        consistent(bridge),
        accepts(bridge.stage, event),
    ensures
        ({
            let (after, action) = next(bridge, event);
            match event {
                Event::Registered => after.stage is Announcing,
                Event::ReadyWritten => is_done_with_call(after, action),
                Event::Number(Ok(number)) => after.stage == StageView::<M, C, E>::SettingUp {
                    session: SessionView { dial: number@, state: SessionState::Originating },
                    setup: SetupStage::CreatingMedia,
                },
                Event::Number(Err(_)) => is_done_with_call(after, action),
                Event::WaitEnded => action == Action::<M, C, E>::Stop(Outcome::Shutdown),
                Event::Setup(SetupEvent::MediaReady(media)) => {
                    &&& after.stage matches StageView::SettingUp { setup, .. } && setup
                        == SetupStage::<M, E>::ConnectingSocket(media)
                    &&& current_media(after.stage) == Some(media)
                },
                Event::Setup(SetupEvent::SocketConnected) => {
                    &&& after.stage matches StageView::SettingUp { setup, .. } && setup is Dialing
                    &&& current_media(bridge.stage) is Some
                    &&& current_media(after.stage) == current_media(bridge.stage)
                },
                Event::Setup(SetupEvent::Dialed(call)) => after.stage matches StageView::Relaying {
                    call: relayed,
                    ..
                } && relayed == call,
                Event::Setup(SetupEvent::CleanedUp) => is_done_with_call(after, action),
                Event::RelayEnded => {
                    &&& after.stage matches StageView::TearingDown { failure, .. } && failure is None
                    &&& bridge.stage matches StageView::Relaying { call, .. } && action == Action::<
                        M,
                        C,
                        E,
                    >::TearDown(call)
                },
                Event::TornDown => bridge.stage matches StageView::TearingDown { failure, .. } && (
                failure is None ==> is_done_with_call(after, action)),
                _ => true,
            }
        }),
{
}

/// Failure is answered, for every call in the same way. A setup that fails or is
/// abandoned cleans up the media channel if there is one and then, like one
/// that has none, is done with its error kept. Any other failure ends the
/// bridge with its error, that of a relay after the teardown.
pub proof fn failure_is_answered<M, C, E>(
    bridge: BridgeView<M, C, E>,
    event: Event<M, C, E>,
    error: E,
)
    requires
        consistent(bridge),
        accepts(bridge.stage, event),
    ensures
        ({
            let (after, action) = next(bridge, event);
            &&& fails_setup_with(event, error) ==> match current_media(bridge.stage) {
                Some(media) => {
                    &&& action == Action::<M, C, E>::CleanUpMedia(media)
                    &&& after.stage matches StageView::SettingUp { setup, .. } && setup
                        == SetupStage::<M, E>::CleaningUp(SetupFailure::Failed(error))
                },
                None => {
                    &&& is_done_with_call(after, action)
                    &&& after.failed == Some(SetupFailure::Failed(error))
                },
            }
            &&& event == Event::<M, C, E>::Setup(SetupEvent::CleanedUp) ==> (bridge.stage matches
                StageView::SettingUp { setup: SetupStage::CleaningUp(failure), .. }
                && after.failed == Some(failure) && is_done_with_call(after, action))
            &&& event == Event::<M, C, E>::RegisterFailed(error) ==> action == Action::<
                M,
                C,
                E,
            >::Stop(Outcome::RegisterFailed(error))
            &&& event == Event::<M, C, E>::ReadyFailed(error) ==> action == Action::<
                M,
                C,
                E,
            >::Stop(Outcome::ReadyFailed(error))
            &&& event == Event::<M, C, E>::RelayFailed(error) ==> {
                &&& after.stage matches StageView::TearingDown { failure, .. } && failure == Some(
                    error,
                )
                &&& bridge.stage matches StageView::Relaying { call, .. } && action == Action::<
                    M,
                    C,
                    E,
                >::TearDown(call)
            }
            &&& event is TornDown ==> (bridge.stage matches StageView::TearingDown { failure, .. }
                && (failure == Some(error) ==> action == Action::<M, C, E>::Stop(
                Outcome::RelayFailed(error),
            )))
        }),
{
}

/// A bridge forgets and makes up nothing. The count of calls grows by one with
/// each number and with nothing else; the last call that was served changes
/// only when one is torn down after its relay ended; the failure of the last
/// setup changes only with the next number and the next failure; and the
/// session of a call keeps its number, and moves on when the media channel is
/// there and when the call is.
pub proof fn bridge_keeps_its_records<M, C, E>(bridge: BridgeView<M, C, E>, event: Event<M, C, E>)
    requires
        consistent(bridge),
        accepts(bridge.stage, event),
    ensures
        ({
            let after = next(bridge, event).0;
            &&& event is Number ==> after.calls == bridge.calls + 1 && after.failed is None
            &&& !(event is Number) ==> after.calls == bridge.calls
            &&& match bridge.stage {
                StageView::TearingDown { session, failure: None } => after.ended == Some(
                    SessionView { dial: session.dial, state: SessionState::Terminating },
                ),
                _ => after.ended == bridge.ended,
            }
            &&& after.failed != bridge.failed ==> {
                ||| event is Number
                ||| bridge.stage is SettingUp && (after.stage is Waiting || after.stage is Stopped)
            }
            &&& current_session(bridge.stage) matches Some(before) ==> (current_session(
                after.stage,
            ) matches Some(now) ==> {
                &&& now.dial == before.dial
                &&& now.state == (if brings_media(event) {
                    SessionState::ConnectingMedia
                } else if brings_call(event) {
                    SessionState::MediaActive
                } else {
                    before.state
                })
            })
            &&& current_session(after.stage) is Some <==> after.stage is SettingUp
                || after.stage is Relaying || after.stage is TearingDown
        }),
{
}

/// What comes of asking for some text tells what was found in it: the dial
/// string as it was parsed, or the very reason why there is none.
pub proof fn dial_event_tells_what_was_found<M, C, E>(raw: Seq<char>, event: Event<M, C, E>)
    requires
        is_dial_event(raw, event),
    ensures
        dial_string(raw) matches Ok(dial) ==> (event matches Event::Number(Ok(number)) && number@
            == dial),
        dial_string(raw) matches Err(reason) ==> event == Event::<M, C, E>::Number(Err(reason)),
{
}

} // verus!
