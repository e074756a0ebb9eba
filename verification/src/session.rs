//! The life of one call, as a state machine over six states.

use vstd::prelude::*;
use vstd::string::StringExecFns;

verus! {

/// Where a call stands.
#[derive(Debug, Clone, Copy, PartialEq, Eq, Structural)]
pub enum SessionState {
    Init,
    Originating,
    ConnectingMedia,
    MediaActive,
    Terminating,
    Terminated,
}

/// The transitions a call may make. A call that is being set up or is active
/// may be terminated; otherwise it moves one state forward.
pub open spec fn valid_transition(from: SessionState, to: SessionState) -> bool {
    match to {
        SessionState::Init => false,
        SessionState::Originating => from == SessionState::Init,
        SessionState::ConnectingMedia => from == SessionState::Originating,
        SessionState::MediaActive => from == SessionState::ConnectingMedia,
        SessionState::Terminating => from == SessionState::Originating || from
            == SessionState::ConnectingMedia || from == SessionState::MediaActive,
        SessionState::Terminated => from == SessionState::Terminating,
    }
}

/// Whether a call may go from `from` to `to`.
pub fn is_valid_transition(from: SessionState, to: SessionState) -> (valid: bool)
    ensures
        valid == valid_transition(from, to),
{
    matches!(
        (from, to),
        (SessionState::Init, SessionState::Originating)
            | (SessionState::Originating, SessionState::ConnectingMedia)
            | (SessionState::ConnectingMedia, SessionState::MediaActive)
            | (SessionState::ConnectingMedia, SessionState::Terminating)
            | (SessionState::Originating, SessionState::Terminating)
            | (SessionState::MediaActive, SessionState::Terminating)
            | (SessionState::Terminating, SessionState::Terminated)
    )
}

/// The name of a state as it appears in messages.
pub open spec fn state_name(state: SessionState) -> Seq<char> {
    match state {
        SessionState::Init => "Init"@,
        SessionState::Originating => "Originating"@,
        SessionState::ConnectingMedia => "ConnectingMedia"@,
        SessionState::MediaActive => "MediaActive"@,
        SessionState::Terminating => "Terminating"@,
        SessionState::Terminated => "Terminated"@,
    }
}

impl SessionState {
    /// The name of the state.
    pub fn name(self) -> (name: &'static str)
        ensures
            name@ == state_name(self),
    {
        match self {
            SessionState::Init => "Init",
            SessionState::Originating => "Originating",
            SessionState::ConnectingMedia => "ConnectingMedia",
            SessionState::MediaActive => "MediaActive",
            SessionState::Terminating => "Terminating",
            SessionState::Terminated => "Terminated",
        }
    }
}

/// A transition that was asked for and refused.
#[derive(Debug, Clone, Copy, PartialEq, Eq, Structural)]
pub struct TransitionError {
    pub from: SessionState,
    pub to: SessionState,
}

impl TransitionError {
    /// The refusal in words.
    pub open spec fn message(self) -> Seq<char> {
        "invalid session state transition: "@ + state_name(self.from) + " -> "@ + state_name(
            self.to,
        )
    }

    /// The refusal in words, naming both states.
    pub fn to_string(&self) -> (text: String)
        ensures
            text@ == self.message(),
    {
        let mut text = "invalid session state transition: ".to_owned();
        text.append(self.from.name());
        text.append(" -> ");
        text.append(self.to.name());
        text
    }
}

/// One call: the number dialled and how far the call has come.
#[derive(Debug)]
pub struct Session {
    dial: String,
    state: SessionState,
}

/// What a session is: its number and its state.
pub struct SessionView {
    pub dial: Seq<char>,
    pub state: SessionState,
}

impl View for Session {
    type V = SessionView;

    closed spec fn view(&self) -> SessionView {
        SessionView { dial: self.dial@, state: self.state }
    }
}

impl Session {
    /// A call to `dial` that has not begun.
    pub fn new(dial: String) -> (session: Self)
        ensures
            session@ == (SessionView { dial: dial@, state: SessionState::Init }),
    {
        Self { dial, state: SessionState::Init }
    }

    /// The number dialled.
    pub fn dial(&self) -> (dial: &str)
        ensures
            dial@ == self@.dial,
    {
        self.dial.as_str()
    }

    /// How far the call has come.
    pub fn state(&self) -> (state: SessionState)
        ensures
            state == self@.state,
    {
        self.state
    }

    /// Moves the call to `next`, or refuses and leaves it where it is. The
    /// number dialled never changes.
    pub fn transition(&mut self, next: SessionState) -> (result: Result<(), TransitionError>)
        ensures
            result is Ok <==> valid_transition(old(self)@.state, next),
            result matches Ok(()) ==> final(self)@ == (SessionView { state: next, ..old(self)@ }),
            result matches Err(refused) ==> {
                &&& *final(self) == *old(self)
                &&& refused == (TransitionError { from: old(self)@.state, to: next })
            },
    {
        if !is_valid_transition(self.state, next) {
            return Err(TransitionError { from: self.state, to: next });
        }
        self.state = next;
        Ok(())
    }
}

/// How many transitions the longest way from `Init` to `state` takes.
pub open spec fn progress(state: SessionState) -> nat {
    match state {
        SessionState::Init => 0,
        SessionState::Originating => 1,
        SessionState::ConnectingMedia => 2,
        SessionState::MediaActive => 3,
        SessionState::Terminating => 4,
        SessionState::Terminated => 5,
    }
}

/// `history` is a run of states in which each follows the one before it by a
/// transition.
pub open spec fn is_history(history: Seq<SessionState>) -> bool {
    forall|i: int|
        0 <= i < history.len() - 1 ==> valid_transition(#[trigger] history[i], history[i + 1])
}

/// A call only moves forward.
pub proof fn transitions_advance(from: SessionState, to: SessionState)
    requires
        valid_transition(from, to),
    ensures
        progress(from) < progress(to),
{
}

/// In every history each state is further along than all states before it, so
/// no state is entered twice.
pub proof fn history_only_advances(history: Seq<SessionState>, i: int, j: int)
    requires
        is_history(history),
        0 <= i < j < history.len(),
    ensures
        progress(history[i]) < progress(history[j]),
        history[i] != history[j],
    decreases j - i,
{
    assert(valid_transition(history[j - 1], history[j - 1 + 1]));
    if i < j - 1 {
        history_only_advances(history, i, j - 1);
    }
}

/// No history is longer than six states: a call ends after at most five
/// transitions.
pub proof fn history_is_short(history: Seq<SessionState>)
    requires
        is_history(history),
    ensures
        history.len() <= 6,
{
    if history.len() > 6 {
        history_only_advances(history, 0, 1);
        history_only_advances(history, 1, 2);
        history_only_advances(history, 2, 3);
        history_only_advances(history, 3, 4);
        history_only_advances(history, 4, 5);
        history_only_advances(history, 5, 6);
    }
}

/// A terminated call stays terminated, and no other state is a dead end.
pub proof fn only_terminated_is_final(state: SessionState)
    ensures
        (state == SessionState::Terminated) == (forall|to: SessionState|
            !valid_transition(state, to)),
{
    if state != SessionState::Terminated {
        let to = if state == SessionState::Init {
            SessionState::Originating
        } else if state == SessionState::Terminating {
            SessionState::Terminated
        } else {
            SessionState::Terminating
        };
        assert(valid_transition(state, to));
    }
}

/// Media becomes active only after it was being connected, and only after the
/// call was originated: no history that starts at `Init` skips a setup step.
pub proof fn media_active_follows_setup(history: Seq<SessionState>, i: int)
    requires
        is_history(history),
        0 <= i < history.len(),
        history[0] == SessionState::Init,
        history[i] == SessionState::MediaActive,
    ensures
        i == 3,
        history[1] == SessionState::Originating,
        history[2] == SessionState::ConnectingMedia,
{
    assert(i > 0);
    assert(valid_transition(history[i - 1], history[i - 1 + 1]));
    assert(i - 1 > 0);
    assert(valid_transition(history[i - 2], history[i - 2 + 1]));
    assert(i - 2 > 0);
    assert(valid_transition(history[i - 3], history[i - 3 + 1]));
    if i > 3 {
        history_only_advances(history, 0, i - 3);
    }
}

/// The states in the order of a call.
pub open spec fn states_in_order() -> Seq<SessionState> {
    seq![
        SessionState::Init,
        SessionState::Originating,
        SessionState::ConnectingMedia,
        SessionState::MediaActive,
        SessionState::Terminating,
        SessionState::Terminated,
    ]
}

/// A call may move to the state that comes next in the order, and from any
/// state after the first on to its termination; it may make no other
/// transition.
pub proof fn transitions_follow_the_order(i: int, j: int)
    requires
        0 <= i < 6,
        0 <= j < 6,
    ensures
        valid_transition(states_in_order()[i], states_in_order()[j]) <==> j == i + 1 || (1 <= i < 4
            && states_in_order()[j] == SessionState::Terminating),
{
}

/// A refusal names the state that the call was in and then the one that was
/// asked for.
pub proof fn refusal_names_from_and_to(refused: TransitionError)
    ensures
        refused.message() == "invalid session state transition: "@ + (state_name(refused.from)
            + " -> "@ + state_name(refused.to)),
        refused.from is Init ==> state_name(refused.from) == "Init"@,
        refused.from is Originating ==> state_name(refused.from) == "Originating"@,
        refused.from is ConnectingMedia ==> state_name(refused.from) == "ConnectingMedia"@,
        refused.from is MediaActive ==> state_name(refused.from) == "MediaActive"@,
        refused.from is Terminating ==> state_name(refused.from) == "Terminating"@,
        refused.from is Terminated ==> state_name(refused.from) == "Terminated"@,
{
    assert(refused.message() =~= "invalid session state transition: "@ + (state_name(refused.from)
        + " -> "@ + state_name(refused.to)));
}

} // verus!
