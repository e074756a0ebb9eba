//! Reading the ARI events to keep the application registered.
//!
//! Asterisk serves the application only while its events WebSocket is open, so
//! the events are read for as long as the bridge runs. They are not acted on.

use vstd::prelude::*;

verus! {

/// After how many events each time a sign of life is logged.
pub const EVENTS_DRAIN_LOG_INTERVAL: u64 = 1000;

/// The most events that are read. Far more than any bridge session brings.
pub const EVENTS_DRAIN_LIMIT: u64 = 100_000;

/// What a read from the events WebSocket can bring.
#[derive(Debug, Clone, Copy, PartialEq, Eq, Structural)]
pub enum EventMessage {
    /// An event, as text.
    Text,
    /// Asterisk closes the WebSocket.
    Close,
    /// A message of another kind.
    Other,
    /// The read failed.
    Failed,
}

/// Why reading stops.
#[derive(Debug, Clone, Copy, PartialEq, Eq, Structural)]
pub enum StopReason {
    LimitReached,
    Closed,
    Failed,
}

/// What follows a message.
#[derive(Debug, Clone, Copy, PartialEq, Eq, Structural)]
pub enum EventStep {
    /// Read on.
    Continue,
    /// Log the event and read on.
    LogEvent,
    /// Stop reading.
    Stop(StopReason),
}

/// The verdict on a message.
#[derive(Debug, Clone, Copy, PartialEq, Eq, Structural)]
pub struct EventVerdict {
    /// Whether to log a sign of life.
    pub heartbeat: bool,
    pub step: EventStep,
}

/// The events read so far.
#[derive(Debug)]
pub struct EventDrain {
    events_count: u64,
}

impl View for EventDrain {
    type V = int;

    closed spec fn view(&self) -> int {
        self.events_count as int
    }
}

/// What follows message number `count`. At the limit reading stops whatever
/// the message is.
pub open spec fn event_step(count: int, message: EventMessage) -> EventStep {
    if count >= EVENTS_DRAIN_LIMIT {
        EventStep::Stop(StopReason::LimitReached)
    } else {
        match message {
            EventMessage::Text => EventStep::LogEvent,
            EventMessage::Close => EventStep::Stop(StopReason::Closed),
            EventMessage::Other => EventStep::Continue,
            EventMessage::Failed => EventStep::Stop(StopReason::Failed),
        }
    }
}

/// Whether a sign of life is logged with message number `count`.
pub open spec fn life_shown_at(count: int) -> bool {
    count % EVENTS_DRAIN_LOG_INTERVAL as int == 0
}

impl EventDrain {
    #[verifier::type_invariant]
    spec fn well_formed(self) -> bool {
        self.events_count <= EVENTS_DRAIN_LIMIT
    }

    /// Nothing read yet.
    pub fn new() -> (drain: Self)
        ensures
            drain@ == 0,
    {
        Self { events_count: 0 }
    }

    /// Counts a message and decides what follows it. Once the limit has been
    /// reached there is nothing more to read.
    pub fn on_message(&mut self, message: EventMessage) -> (verdict: EventVerdict)
        requires
            old(self)@ < EVENTS_DRAIN_LIMIT,
        ensures
            final(self)@ == old(self)@ + 1,
            verdict.heartbeat == (final(self)@ % EVENTS_DRAIN_LOG_INTERVAL as int == 0),
            verdict.heartbeat == life_shown_at(final(self)@),
            verdict.step == event_step(final(self)@, message),
    {
        let count: u64 = self.events_count + 1;
        *self = EventDrain { events_count: count };
        let heartbeat: bool = count % EVENTS_DRAIN_LOG_INTERVAL == 0;
        if count >= EVENTS_DRAIN_LIMIT {
            return EventVerdict { heartbeat, step: EventStep::Stop(StopReason::LimitReached) };
        }
        let step: EventStep = match message {
            EventMessage::Text => EventStep::LogEvent,
            EventMessage::Close => EventStep::Stop(StopReason::Closed),
            EventMessage::Other => EventStep::Continue,
            EventMessage::Failed => EventStep::Stop(StopReason::Failed),
        };
        EventVerdict { heartbeat, step }
    }

    /// How many events were read. Never more than the limit.
    pub fn events_count(&self) -> (count: u64)
        ensures
            count == self@,
            count <= EVENTS_DRAIN_LIMIT,
    {
        proof {
            use_type_invariant(self);
        }
        self.events_count
    }
}

/// How many of the messages `messages` are read before reading stops, when
/// `count` were read before them.
pub open spec fn messages_read(count: int, messages: Seq<EventMessage>) -> int
    decreases messages.len(),
{
    if messages.len() == 0 {
        0
    } else if event_step(count + 1, messages[0]) is Stop {
        1
    } else {
        1 + messages_read(count + 1, messages.drop_first())
    }
}

/// Whatever Asterisk sends, no more than the limit is read in all.
pub proof fn reading_is_bounded(count: int, messages: Seq<EventMessage>)
    requires
        0 <= count < EVENTS_DRAIN_LIMIT,
    ensures
        count + messages_read(count, messages) <= EVENTS_DRAIN_LIMIT,
    decreases messages.len(),
{
    if messages.len() > 0 && !(event_step(count + 1, messages[0]) is Stop) {
        reading_is_bounded(count + 1, messages.drop_first());
    }
}

/// Below the limit reading is not stopped by anything but a close or a
/// failure: messages of other kinds are all read, and the application stays
/// registered.
pub proof fn reading_goes_on(count: int, messages: Seq<EventMessage>)
    requires
        0 <= count,
        count + messages.len() <= EVENTS_DRAIN_LIMIT,
        forall|i: int|
            0 <= i < messages.len() ==> messages[i] == EventMessage::Text || messages[i]
                == EventMessage::Other,
    ensures
        messages_read(count, messages) == messages.len(),
    decreases messages.len(),
{
    if messages.len() > 1 {
        let rest = messages.drop_first();
        assert forall|i: int| 0 <= i < rest.len() implies rest[i] == EventMessage::Text || rest[i]
            == EventMessage::Other by {
            assert(rest[i] == messages[i + 1]);
        }
        reading_goes_on(count + 1, rest);
    } else if messages.len() == 1 {
        assert(messages.drop_first().len() == 0);
        assert(messages_read(count + 1, messages.drop_first()) == 0);
    }
}

/// Every message has its answer. Before message number 100000 reading stops if
/// and only if the WebSocket is closed or fails, for that reason, and an event
/// is logged if and only if it is text; from that number on reading stops
/// because of the limit, whatever the message is.
pub proof fn each_message_is_answered(count: int, message: EventMessage)
    ensures
        ({
            let step = event_step(count, message);
            &&& count >= 100_000 ==> step == EventStep::Stop(StopReason::LimitReached)
            &&& count < 100_000 ==> {
                &&& step is Stop <==> message is Close || message is Failed
                &&& step == EventStep::Stop(StopReason::Closed) <==> message is Close
                &&& step == EventStep::Stop(StopReason::Failed) <==> message is Failed
                &&& step is LogEvent <==> message is Text
                &&& step is Continue <==> message is Other
            }
        }),
{
}

/// A sign of life is logged with one message in a thousand, evenly spaced: as
/// often as a thousand messages earlier, and never twice within a thousand.
pub proof fn life_is_shown_evenly(count: int, later: int)
    requires
        0 <= count < later < count + 1000,
    ensures
        life_shown_at(count + 1000) <==> life_shown_at(count),
        !(life_shown_at(count) && life_shown_at(later)),
        life_shown_at(1000 * count),
{
    assert((1000 * count) % 1000 == 0);
}

} // verus!
