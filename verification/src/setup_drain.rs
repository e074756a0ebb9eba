//! Keeping `slmodemd` alive while a call is being set up.
//!
//! `slmodemd` starts to send modem tones as soon as it has asked for a call,
//! and expects audio back. Until the call stands its tones are read and thrown
//! away, and it is fed silence.

use vstd::prelude::*;
use vstd::string::StringExecFns;

verus! {

/// The most frames of silence that are fed during one setup. At one frame
/// every 20 ms they last 10 seconds; a setup that takes longer is stuck.
pub const DRAIN_ITERATIONS_LIMIT: u32 = 500;

/// The size of the buffer that drained audio is read into.
pub const DRAIN_BUF_BYTES: usize = 2048;

/// What can happen while a call is being set up.
#[derive(Debug, Clone, Copy, PartialEq, Eq, Structural)]
pub enum DrainEvent {
    /// The setup has come to its end, well or badly.
    SetupEnded,
    /// A read from the socket returned this many bytes; zero means that the
    /// other side has closed it.
    Read(usize),
    /// A read from the socket failed.
    ReadFailed,
    /// It is time for the next frame of silence.
    SilenceDue,
}

/// Why draining was given up before the setup had ended.
#[derive(Debug, Clone, Copy, PartialEq, Eq, Structural)]
pub enum DrainError {
    SocketClosed,
    ReadFailed,
    SilenceFailed,
}

impl DrainError {
    /// The error in words, where `cause` is what the socket reported.
    pub open spec fn text(self, cause: Seq<char>) -> Seq<char> {
        match self {
            DrainError::SocketClosed => "slmodemd closed socket during ARI setup"@,
            DrainError::ReadFailed => "slmodemd read error during ARI setup: "@ + cause,
            DrainError::SilenceFailed => "failed to write silence during ARI setup: "@ + cause,
        }
    }

    /// The error in words, where `cause` is what the socket reported.
    pub fn message(&self, cause: &str) -> (message: String)
        ensures
            message@ == self.text(cause@),
    {
        match self {
            DrainError::SocketClosed => "slmodemd closed socket during ARI setup".to_owned(),
            DrainError::ReadFailed => {
                let mut message = "slmodemd read error during ARI setup: ".to_owned();
                message.append(cause);
                message
            },
            DrainError::SilenceFailed => {
                let mut message = "failed to write silence during ARI setup: ".to_owned();
                message.append(cause);
                message
            },
        }
    }
}

/// What follows a round.
#[derive(Debug, Clone, Copy, PartialEq, Eq, Structural)]
pub enum DrainStep {
    /// Another round.
    Continue,
    /// Write a frame of silence, and see how that went.
    WriteSilence,
    /// The setup has ended: hand on its result.
    HandOn,
    /// Give up the setup.
    GiveUp(DrainError),
}

/// What was drained so far.
#[derive(Debug)]
pub struct SetupDrain {
    drained_bytes: u64,
    iterations: u32,
}

/// How much was drained, and how many frames of silence were due.
pub struct SetupDrainView {
    pub drained_bytes: int,
    pub iterations: int,
}

impl View for SetupDrain {
    type V = SetupDrainView;

    closed spec fn view(&self) -> SetupDrainView {
        SetupDrainView {
            drained_bytes: self.drained_bytes as int,
            iterations: self.iterations as int,
        }
    }
}

/// What follows an event, whatever came before it.
pub open spec fn drain_step(event: DrainEvent) -> DrainStep {
    match event {
        DrainEvent::SetupEnded => DrainStep::HandOn,
        DrainEvent::Read(0) => DrainStep::GiveUp(DrainError::SocketClosed),
        DrainEvent::Read(_) => DrainStep::Continue,
        DrainEvent::ReadFailed => DrainStep::GiveUp(DrainError::ReadFailed),
        DrainEvent::SilenceDue => DrainStep::WriteSilence,
    }
}

/// What follows the writing of a frame of silence.
pub open spec fn silence_step(written: bool) -> DrainStep {
    if written {
        DrainStep::Continue
    } else {
        DrainStep::GiveUp(DrainError::SilenceFailed)
    }
}

/// How many bytes an event drains.
pub open spec fn bytes_drained_by(event: DrainEvent) -> int {
    match event {
        DrainEvent::Read(n) => n as int,
        _ => 0,
    }
}

/// The time that an event takes, in frames of silence. Reading takes none: how
/// fast audio comes does not shorten the time for the setup.
pub open spec fn frames_due_by(event: DrainEvent) -> int {
    if event is SilenceDue {
        1
    } else {
        0
    }
}

/// What a drain has come to after one more event.
pub open spec fn after_round(drain: SetupDrainView, event: DrainEvent) -> SetupDrainView {
    SetupDrainView {
        drained_bytes: drain.drained_bytes + bytes_drained_by(event),
        iterations: drain.iterations + frames_due_by(event),
    }
}

/// Whether there is time left for the setup after so many frames of silence.
pub open spec fn time_is_left(iterations: int) -> bool {
    iterations < DRAIN_ITERATIONS_LIMIT
}

impl SetupDrain {
    #[verifier::type_invariant]
    spec fn well_formed(self) -> bool {
        self.iterations <= DRAIN_ITERATIONS_LIMIT
    }

    /// Nothing drained yet.
    pub fn new() -> (drain: Self)
        ensures
            drain@ == (SetupDrainView { drained_bytes: 0, iterations: 0 }),
    {
        Self { drained_bytes: 0, iterations: 0 }
    }

    /// Whether there is time left for the setup. If not, it is stuck.
    pub fn may_go_on(&self) -> (allowed: bool)
        ensures
            allowed == (self@.iterations < DRAIN_ITERATIONS_LIMIT),
            allowed == time_is_left(self@.iterations),
            self@.iterations <= DRAIN_ITERATIONS_LIMIT,
    {
        proof {
            use_type_invariant(self);
        }
        self.iterations < DRAIN_ITERATIONS_LIMIT
    }

    /// Whether another `bytes` bytes can still be counted.
    pub fn can_count(&self, bytes: usize) -> (can: bool)
        ensures
            can == (self@.drained_bytes + bytes <= u64::MAX),
    {
        self.drained_bytes as u128 + bytes as u128 <= u64::MAX as u128
    }

    /// Counts what an event takes and drains, and decides what follows it.
    pub fn round(&mut self, event: DrainEvent) -> (step: DrainStep)
        requires
            event is SilenceDue ==> old(self)@.iterations < DRAIN_ITERATIONS_LIMIT,
            old(self)@.drained_bytes + bytes_drained_by(event) <= u64::MAX,
        ensures
            step == drain_step(event),
            final(self)@ == after_round(old(self)@, event),
            event matches DrainEvent::Read(n) ==> final(self)@.drained_bytes == old(
                self,
            )@.drained_bytes + n,
            !(event is Read) ==> final(self)@.drained_bytes == old(self)@.drained_bytes,
            event is SilenceDue ==> final(self)@.iterations == old(self)@.iterations + 1,
            !(event is SilenceDue) ==> final(self)@.iterations == old(self)@.iterations,
    {
        proof {
            use_type_invariant(&*self);
        }
        match event {
            DrainEvent::Read(n) => {
                self.drained_bytes = self.drained_bytes + n as u64;
            },
            DrainEvent::SilenceDue => {
                self.iterations = self.iterations + 1;
            },
            _ => {},
        }
        match event {
            DrainEvent::SetupEnded => DrainStep::HandOn,
            DrainEvent::Read(n) => if n == 0 {
                DrainStep::GiveUp(DrainError::SocketClosed)
            } else {
                DrainStep::Continue
            },
            DrainEvent::ReadFailed => DrainStep::GiveUp(DrainError::ReadFailed),
            DrainEvent::SilenceDue => DrainStep::WriteSilence,
        }
    }

    /// Decides what follows the writing of a frame of silence.
    pub fn after_silence(&self, written: bool) -> (step: DrainStep)
        ensures
            step == (if written {
                DrainStep::Continue
            } else {
                DrainStep::GiveUp(DrainError::SilenceFailed)
            }),
            step == silence_step(written),
    {
        if written {
            DrainStep::Continue
        } else {
            DrainStep::GiveUp(DrainError::SilenceFailed)
        }
    }

    /// How many bytes were drained.
    pub fn drained_bytes(&self) -> (drained: u64)
        ensures
            drained == self@.drained_bytes,
    {
        self.drained_bytes
    }

    /// How many frames of silence were due.
    pub fn iterations(&self) -> (iterations: u32)
        ensures
            iterations == self@.iterations,
    {
        self.iterations
    }
}

/// The bytes that some events drain together.
pub open spec fn bytes_drained(events: Seq<DrainEvent>) -> int
    decreases events.len(),
{
    if events.len() == 0 {
        0
    } else {
        bytes_drained(events.drop_last()) + bytes_drained_by(events.last())
    }
}

/// How many of some events are frames of silence that were due.
pub open spec fn frames_due(events: Seq<DrainEvent>) -> int
    decreases events.len(),
{
    if events.len() == 0 {
        0
    } else {
        frames_due(events.drop_last()) + frames_due_by(events.last())
    }
}

/// What a drain has come to after some events.
pub open spec fn drain_after(drain: SetupDrainView, events: Seq<DrainEvent>) -> SetupDrainView
    decreases events.len(),
{
    if events.len() == 0 {
        drain
    } else {
        after_round(drain_after(drain, events.drop_last()), events.last())
    }
}

/// A drain counts every byte, and it measures the time of the setup by the
/// silence alone: however many reads come in between, the setup is given its
/// full number of frames.
pub proof fn draining_adds_up(events: Seq<DrainEvent>)
    ensures
        drain_after(SetupDrainView { drained_bytes: 0, iterations: 0 }, events) == (SetupDrainView {
            drained_bytes: bytes_drained(events),
            iterations: frames_due(events),
        }),
    decreases events.len(),
{
    if events.len() > 0 {
        draining_adds_up(events.drop_last());
    }
}

/// Every event of a drain has its answer, whatever came before it. The drain is
/// given up if and only if the socket is closed, which a read of no bytes
/// shows, or fails; a read of any other number of bytes is thrown away and the
/// drain goes on. A frame of silence is written whenever one is due and at no
/// other time. The result of the setup is handed on if and only if it is there.
pub proof fn drain_is_given_up_only_without_a_socket(event: DrainEvent, written: bool)
    ensures
        drain_step(event) is GiveUp <==> event == DrainEvent::Read(0) || event is ReadFailed,
        drain_step(event) == DrainStep::GiveUp(DrainError::SocketClosed) <==> event
            == DrainEvent::Read(0),
        drain_step(event) == DrainStep::GiveUp(DrainError::ReadFailed) <==> event is ReadFailed,
        drain_step(event) is Continue <==> (event matches DrainEvent::Read(n) && n > 0),
        drain_step(event) is WriteSilence <==> event is SilenceDue,
        drain_step(event) is HandOn <==> event is SetupEnded,
        silence_step(written) is Continue <==> written,
        silence_step(written) == DrainStep::GiveUp(DrainError::SilenceFailed) <==> !written,
{
}

/// A drain counts the bytes of each read and nothing else as drained, and each
/// frame of silence that is due and nothing else as time: two drains that
/// differ in what they have counted so far differ by the same after any event.
pub proof fn drain_counts_each_event_once(
    drain: SetupDrainView,
    other: SetupDrainView,
    event: DrainEvent,
)
    ensures
        ({
            let after = after_round(drain, event);
            let other_after = after_round(other, event);
            &&& after.drained_bytes - other_after.drained_bytes == drain.drained_bytes
                - other.drained_bytes
            &&& after.iterations - other_after.iterations == drain.iterations - other.iterations
            &&& match event {
                DrainEvent::Read(n) => after.drained_bytes - drain.drained_bytes == n,
                _ => after.drained_bytes == drain.drained_bytes,
            }
            &&& after.iterations == drain.iterations + (if event == DrainEvent::SilenceDue {
                1int
            } else {
                0
            })
        }),
{
}

/// The message says what happened, and ends with what the socket reported where
/// it reported something.
pub proof fn message_ends_with_the_cause(cause: Seq<char>)
    ensures
        DrainError::SocketClosed.text(cause) == "slmodemd closed socket during ARI setup"@,
        DrainError::ReadFailed.text(cause) == "slmodemd read error during ARI setup: "@ + cause,
        DrainError::SilenceFailed.text(cause) == "failed to write silence during ARI setup: "@
            + cause,
{
}

/// A setup has ten seconds, in frames of 20 ms, however much is read meanwhile:
/// a read never takes time from it, and each frame of silence takes 20 ms.
pub proof fn setup_has_ten_seconds(drain: SetupDrainView, n: usize)
    ensures
        time_is_left(drain.iterations) <==> 20 * drain.iterations < 10_000,
        time_is_left(after_round(drain, DrainEvent::Read(n)).iterations) <==> time_is_left(
            drain.iterations,
        ),
        time_is_left(after_round(drain, DrainEvent::SilenceDue).iterations) <==> 20
            * drain.iterations + 20 < 10_000,
{
}

} // verus!
