//! Setting up one call over ARI: create the media channel, connect its
//! WebSocket, then dial and bridge. A step that fails after the media channel
//! was created cleans it up.
//!
//! `M` is what the creation of the media channel gave, `C` is the call that
//! dialling gave, and `E` is an error. None is looked into; all are handed on
//! unchanged.

use vstd::prelude::*;

use crate::session::{valid_transition, Session, SessionState, SessionView, TransitionError};

verus! {

/// Why a setup has failed.
#[derive(Debug)]
pub enum SetupFailure<E> {
    /// What was asked for failed with this error, or the setup was abandoned
    /// with it.
    Failed(E),
    /// The session may not connect media now.
    Refused(TransitionError),
}

/// How far the setup has come.
#[derive(Debug)]
pub enum SetupStage<M, E> {
    /// The media channel is being created.
    CreatingMedia,
    /// The WebSocket of this media channel is being connected.
    ConnectingSocket(M),
    /// The call is being dialled, with this media channel.
    Dialing(M),
    /// The media channel is being cleaned up after this failure.
    CleaningUp(SetupFailure<E>),
    /// The setup is over.
    Ended,
}

/// What became of the last thing that was asked for.
#[derive(Debug)]
pub enum SetupEvent<M, C, E> {
    MediaReady(M),
    MediaFailed(E),
    SocketConnected,
    SocketFailed(E),
    Dialed(C),
    DialFailed(E),
    CleanedUp,
}

/// What the setup asks for next.
#[derive(Debug)]
pub enum SetupStep<M, C, E> {
    /// Connect the WebSocket of the media channel.
    ConnectSocket,
    /// Dial the number and bridge it to the media channel.
    DialAndBridge,
    /// Clean up this media channel.
    CleanUpMedia(M),
    /// The setup has succeeded with this call.
    Succeed(C),
    /// The setup has failed, and there is nothing left to clean up.
    Fail(SetupFailure<E>),
}

/// Whether an event can happen at a stage.
pub open spec fn setup_accepts<M, C, E>(
    stage: SetupStage<M, E>,
    event: SetupEvent<M, C, E>,
) -> bool {
    match stage {
        SetupStage::CreatingMedia => event is MediaReady || event is MediaFailed,
        SetupStage::ConnectingSocket(_) => event is SocketConnected || event is SocketFailed,
        SetupStage::Dialing(_) => event is Dialed || event is DialFailed,
        SetupStage::CleaningUp(_) => event is CleanedUp,
        SetupStage::Ended => false,
    }
}

/// The session after an event: with the media channel there, it connects media
/// if it may.
pub open spec fn setup_session<M, C, E>(
    session: SessionView,
    event: SetupEvent<M, C, E>,
) -> SessionView {
    if event is MediaReady && valid_transition(session.state, SessionState::ConnectingMedia) {
        SessionView { state: SessionState::ConnectingMedia, ..session }
    } else {
        session
    }
}

/// The stage that follows an event, and what is asked for then. The error that
/// made the setup fail is the one it ends with, after the clean-up too.
pub open spec fn setup_next<M, C, E>(
    stage: SetupStage<M, E>,
    session: SessionView,
    event: SetupEvent<M, C, E>,
) -> (SetupStage<M, E>, SetupStep<M, C, E>) {
    match (stage, event) {
        (SetupStage::CreatingMedia, SetupEvent::MediaReady(media)) => if valid_transition(
            session.state,
            SessionState::ConnectingMedia,
        ) {
            (SetupStage::ConnectingSocket(media), SetupStep::ConnectSocket)
        } else {
            let refused = TransitionError {
                from: session.state,
                to: SessionState::ConnectingMedia,
            };
            (
                SetupStage::CleaningUp(SetupFailure::Refused(refused)),
                SetupStep::CleanUpMedia(media),
            )
        },
        (SetupStage::CreatingMedia, SetupEvent::MediaFailed(error)) => (
            SetupStage::Ended,
            SetupStep::Fail(SetupFailure::Failed(error)),
        ),
        (SetupStage::ConnectingSocket(media), SetupEvent::SocketConnected) => (
            SetupStage::Dialing(media),
            SetupStep::DialAndBridge,
        ),
        (SetupStage::ConnectingSocket(media), SetupEvent::SocketFailed(error)) => (
            SetupStage::CleaningUp(SetupFailure::Failed(error)),
            SetupStep::CleanUpMedia(media),
        ),
        (SetupStage::Dialing(_), SetupEvent::Dialed(call)) => (
            SetupStage::Ended,
            SetupStep::Succeed(call),
        ),
        (SetupStage::Dialing(media), SetupEvent::DialFailed(error)) => (
            SetupStage::CleaningUp(SetupFailure::Failed(error)),
            SetupStep::CleanUpMedia(media),
        ),
        (SetupStage::CleaningUp(failure), SetupEvent::CleanedUp) => (
            SetupStage::Ended,
            SetupStep::Fail(failure),
        ),
        _ => (stage, SetupStep::ConnectSocket),
    }
}

/// Takes a setup one step further.
pub fn setup_step<M, C, E>(
    stage: SetupStage<M, E>,
    session: &mut Session,
    event: SetupEvent<M, C, E>,
) -> (next: (SetupStage<M, E>, SetupStep<M, C, E>))
    requires
        setup_accepts(stage, event),
    ensures
        next == setup_next(stage, old(session)@, event),
        final(session)@ == setup_session(old(session)@, event),
{
    match (stage, event) {
        (SetupStage::CreatingMedia, SetupEvent::MediaReady(media)) => {
            match session.transition(SessionState::ConnectingMedia) {
                Ok(()) => (SetupStage::ConnectingSocket(media), SetupStep::ConnectSocket),
                Err(refused) => (
                    SetupStage::CleaningUp(SetupFailure::Refused(refused)),
                    SetupStep::CleanUpMedia(media),
                ),
            }
        },
        (SetupStage::CreatingMedia, SetupEvent::MediaFailed(error)) => (
            SetupStage::Ended,
            SetupStep::Fail(SetupFailure::Failed(error)),
        ),
        (SetupStage::ConnectingSocket(media), SetupEvent::SocketConnected) => (
            SetupStage::Dialing(media),
            SetupStep::DialAndBridge,
        ),
        (SetupStage::ConnectingSocket(media), SetupEvent::SocketFailed(error)) => (
            SetupStage::CleaningUp(SetupFailure::Failed(error)),
            SetupStep::CleanUpMedia(media),
        ),
        (SetupStage::Dialing(_), SetupEvent::Dialed(call)) => (
            SetupStage::Ended,
            SetupStep::Succeed(call),
        ),
        (SetupStage::Dialing(media), SetupEvent::DialFailed(error)) => (
            SetupStage::CleaningUp(SetupFailure::Failed(error)),
            SetupStep::CleanUpMedia(media),
        ),
        (SetupStage::CleaningUp(failure), SetupEvent::CleanedUp) => (
            SetupStage::Ended,
            SetupStep::Fail(failure),
        ),
        (stage, _) => (stage, SetupStep::ConnectSocket),
    }
}

/// Whether an event can happen at a stage.
pub fn setup_expects<M, C, E>(stage: &SetupStage<M, E>, event: &SetupEvent<M, C, E>) -> (expected:
    bool)
    ensures
        expected == setup_accepts(*stage, *event),
{
    match (stage, event) {
        (SetupStage::CreatingMedia, SetupEvent::MediaReady(_)) => true,
        (SetupStage::CreatingMedia, SetupEvent::MediaFailed(_)) => true,
        (SetupStage::ConnectingSocket(_), SetupEvent::SocketConnected) => true,
        (SetupStage::ConnectingSocket(_), SetupEvent::SocketFailed(_)) => true,
        (SetupStage::Dialing(_), SetupEvent::Dialed(_)) => true,
        (SetupStage::Dialing(_), SetupEvent::DialFailed(_)) => true,
        (SetupStage::CleaningUp(_), SetupEvent::CleanedUp) => true,
        _ => false,
    }
}

/// Whether a stage holds a media channel.
pub open spec fn setup_holds<M, E>(stage: SetupStage<M, E>) -> bool {
    stage is ConnectingSocket || stage is Dialing
}

/// Each step cleans up on failure. A media channel that was there before an
/// event, or came with it, is held on to, has become part of a call, or is
/// cleaned up, and it is that very channel; no other is.
pub proof fn each_step_cleans_up<M, C, E>(
    stage: SetupStage<M, E>,
    session: SessionView,
    event: SetupEvent<M, C, E>,
)
    requires
        setup_accepts(stage, event),
    ensures
        ({
            let (next, step) = setup_next(stage, session, event);
            let media = match (stage, event) {
                (_, SetupEvent::MediaReady(media)) => Some(media),
                (SetupStage::ConnectingSocket(media), _) => Some(media),
                (SetupStage::Dialing(media), _) => Some(media),
                _ => None,
            };
            match media {
                Some(media) => {
                    ||| next == SetupStage::<M, E>::ConnectingSocket(media)
                    ||| next == SetupStage::<M, E>::Dialing(media)
                    ||| step is Succeed
                    ||| next is CleaningUp && step == SetupStep::<M, C, E>::CleanUpMedia(media)
                },
                None => !setup_holds(next) && !(step is CleanUpMedia) && !(step is Succeed),
            }
        }),
{
}

/// A setup that fails ends with the failure that occurred: at once where no
/// media channel is there yet, and otherwise when it is cleaned up.
pub proof fn setup_ends_with_its_failure<M, C, E>(
    stage: SetupStage<M, E>,
    session: SessionView,
    error: E,
)
    ensures
        stage is CreatingMedia ==> setup_next(
            stage,
            session,
            SetupEvent::<M, C, E>::MediaFailed(error),
        ).1 == SetupStep::<M, C, E>::Fail(SetupFailure::Failed(error)),
        setup_holds(stage) ==> {
            let failed = if stage is Dialing {
                SetupEvent::<M, C, E>::DialFailed(error)
            } else {
                SetupEvent::<M, C, E>::SocketFailed(error)
            };
            setup_next(
                setup_next(stage, session, failed).0,
                session,
                SetupEvent::<M, C, E>::CleanedUp,
            ).1 == SetupStep::<M, C, E>::Fail(SetupFailure::Failed(error))
        },
{
}

/// At each stage the setup expects that what it has asked for succeeds or fails,
/// and nothing else. A clean-up is only waited for.
pub proof fn setup_expects_success_or_failure<M, C, E>(
    stage: SetupStage<M, E>,
    event: SetupEvent<M, C, E>,
)
    ensures
        setup_accepts(stage, event) <==> match event {
            SetupEvent::MediaReady(_) => stage is CreatingMedia,
            SetupEvent::MediaFailed(_) => stage is CreatingMedia,
            SetupEvent::SocketConnected => stage is ConnectingSocket,
            SetupEvent::SocketFailed(_) => stage is ConnectingSocket,
            SetupEvent::Dialed(_) => stage is Dialing,
            SetupEvent::DialFailed(_) => stage is Dialing,
            SetupEvent::CleanedUp => stage is CleaningUp,
        },
{
}

/// What the setup asks for is what the stage that it comes to waits for, and the
/// setup is over if and only if it asks for nothing more.
pub proof fn setup_asks_for_what_it_waits_for<M, C, E>(
    stage: SetupStage<M, E>,
    session: SessionView,
    event: SetupEvent<M, C, E>,
)
    requires
        setup_accepts(stage, event),
    ensures
        ({
            let (after, step) = setup_next(stage, session, event);
            &&& !(after is CreatingMedia)
            &&& step is ConnectSocket <==> after is ConnectingSocket
            &&& step is DialAndBridge <==> after is Dialing
            &&& step is CleanUpMedia <==> after is CleaningUp
            &&& step is Succeed || step is Fail <==> after is Ended
        }),
{
}

/// The setup goes in order. The WebSocket is connected once the media channel
/// is there, for a session that is originating; the number is dialled once the
/// WebSocket is connected; and the setup succeeds once it is dialled, with the
/// call that came of it. The media channel stays the same.
pub proof fn setup_goes_in_order<M, C, E>(
    stage: SetupStage<M, E>,
    session: SessionView,
    event: SetupEvent<M, C, E>,
)
    requires
        setup_accepts(stage, event),
    ensures
        ({
            let (after, step) = setup_next(stage, session, event);
            &&& after is ConnectingSocket <==> event is MediaReady && session.state
                == SessionState::Originating
            &&& after matches SetupStage::ConnectingSocket(media) ==> event == SetupEvent::<
                M,
                C,
                E,
            >::MediaReady(media)
            &&& after is Dialing <==> event is SocketConnected
            &&& after matches SetupStage::Dialing(media) ==> stage == SetupStage::<
                M,
                E,
            >::ConnectingSocket(media)
            &&& step is Succeed <==> event is Dialed
            &&& step matches SetupStep::Succeed(call) ==> event == SetupEvent::<M, C, E>::Dialed(
                call,
            )
        }),
        ({
            let moved = setup_session(session, event);
            &&& moved.dial == session.dial
            &&& event is MediaReady && session.state == SessionState::Originating ==> moved.state
                == SessionState::ConnectingMedia
            &&& !(event is MediaReady && session.state == SessionState::Originating) ==> moved.state
                == session.state
        }),
{
}

/// The setup fails for the reason that occurred and for no other: at once where
/// there is no media channel, and after the clean-up where there is one. A
/// session that is not originating is refused.
pub proof fn setup_fails_for_its_reason<M, C, E>(
    stage: SetupStage<M, E>,
    session: SessionView,
    event: SetupEvent<M, C, E>,
)
    requires
        setup_accepts(stage, event),
    ensures
        ({
            let (after, step) = setup_next(stage, session, event);
            &&& step is Fail <==> event is MediaFailed || event is CleanedUp
            &&& after is CleaningUp <==> {
                ||| event is SocketFailed
                ||| event is DialFailed
                ||| event is MediaReady && session.state != SessionState::Originating
            }
            &&& match event {
                SetupEvent::MediaFailed(error) => step == SetupStep::<M, C, E>::Fail(
                    SetupFailure::Failed(error),
                ),
                SetupEvent::SocketFailed(error) => after == SetupStage::<M, E>::CleaningUp(
                    SetupFailure::Failed(error),
                ),
                SetupEvent::DialFailed(error) => after == SetupStage::<M, E>::CleaningUp(
                    SetupFailure::Failed(error),
                ),
                SetupEvent::CleanedUp => stage matches SetupStage::CleaningUp(failure) && step
                    == SetupStep::<M, C, E>::Fail(failure),
                SetupEvent::MediaReady(_) => session.state != SessionState::Originating ==> after
                    == SetupStage::<M, E>::CleaningUp(
                    SetupFailure::Refused(
                        TransitionError { from: session.state, to: SessionState::ConnectingMedia },
                    ),
                ),
                _ => true,
            }
        }),
{
}

} // verus!
