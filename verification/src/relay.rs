//! Relaying the audio of a call in both directions.
//!
//! From `slmodemd` comes a stream of slin bytes, cut anywhere; each read is
//! sent on as one mu-law frame. From Asterisk come mu-law frames; each is
//! written on as slin. Both directions keep count of what they carry.

use vstd::prelude::*;

use crate::codec::{
    align_slin_buffer, decode_ulaw, decoding_is_piecewise, encode_ulaw, encoding_is_piecewise, held,
    slin_of, ulaw_of,
};
use crate::text::{contains, occurs_in};

verus! {

/// How often throughput is reported.
pub const RELAY_STATS_INTERVAL_MS: u128 = 2000;

/// The size of the buffer that audio from `slmodemd` is read into.
pub const RELAY_BUF_BYTES: usize = 2048;

/// What a meter shows: all bytes carried, and the bytes and frames since the
/// last report.
#[verifier::ext_equal]
pub struct MeterView {
    pub total: int,
    pub interval_bytes: int,
    pub frames: int,
}

/// A meter that has counted nothing.
pub open spec fn meter_zero() -> MeterView {
    MeterView { total: 0, interval_bytes: 0, frames: 0 }
}

/// A meter after one more frame of `bytes` bytes.
pub open spec fn counted(meter: MeterView, bytes: int) -> MeterView {
    MeterView {
        total: meter.total + bytes,
        interval_bytes: meter.interval_bytes + bytes,
        frames: meter.frames + 1,
    }
}

/// A meter after a report: the interval starts anew, the total stays.
pub open spec fn reported(meter: MeterView) -> MeterView {
    MeterView { total: meter.total, interval_bytes: 0, frames: 0 }
}

/// Counts the bytes and frames that one direction carries.
#[derive(Debug, Clone, Copy)]
struct Meter {
    total: u64,
    interval_bytes: u64,
    frames: u64,
}

impl Meter {
    spec fn shows(&self) -> MeterView {
        MeterView {
            total: self.total as int,
            interval_bytes: self.interval_bytes as int,
            frames: self.frames as int,
        }
    }

    fn new() -> (meter: Self)
        ensures
            meter.shows() == meter_zero(),
    {
        Self { total: 0, interval_bytes: 0, frames: 0 }
    }

    fn count(&mut self, bytes: u64)
        requires
            old(self).interval_bytes <= old(self).total,
            old(self).total + bytes <= u64::MAX,
            old(self).frames < u64::MAX,
        ensures
            final(self).shows() == counted(old(self).shows(), bytes as int),
    {
        self.total = self.total + bytes;
        self.interval_bytes = self.interval_bytes + bytes;
        self.frames = self.frames + 1;
    }

    fn start_interval(&mut self)
        ensures
            final(self).shows() == reported(old(self).shows()),
    {
        self.interval_bytes = 0;
        self.frames = 0;
    }
}

/// A report on the direction from `slmodemd` to Asterisk.
#[derive(Debug, Clone, Copy, PartialEq, Eq, Structural)]
pub struct TxReport {
    pub interval_bytes: u64,
    pub interval_frames: u64,
    pub interval_ms: u128,
    pub total_bytes: u64,
}

/// A report on the direction from Asterisk to `slmodemd`, with the size of the
/// smallest and the largest frame of the interval.
#[derive(Debug, Clone, Copy, PartialEq, Eq, Structural)]
pub struct RxReport {
    pub interval_bytes: u64,
    pub interval_frames: u64,
    pub interval_ms: u128,
    pub total_bytes: u64,
    pub min_frame_bytes: usize,
    pub max_frame_bytes: usize,
}

/// What follows a read from `slmodemd`.
#[derive(Debug)]
pub enum TxStep {
    /// `slmodemd` has closed the stream: close the WebSocket and stop.
    Close,
    /// No whole sample is there yet: read on.
    Skip,
    /// Send this mu-law frame.
    Send(Vec<u8>),
}

/// What follows a read, with a frame seen as its codes.
#[verifier::ext_equal]
pub enum TxStepView {
    Close,
    Skip,
    Send(Seq<u8>),
}

impl View for TxStep {
    type V = TxStepView;

    open spec fn view(&self) -> TxStepView {
        match self {
            TxStep::Close => TxStepView::Close,
            TxStep::Skip => TxStepView::Skip,
            TxStep::Send(ulaw) => TxStepView::Send(ulaw@),
        }
    }
}

/// The direction from `slmodemd` to Asterisk.
#[derive(Debug)]
pub struct SlToWs {
    residual: Option<u8>,
    meter: Meter,
}

/// The byte held back because its sample is not whole yet, and the meter.
#[verifier::ext_equal]
pub struct SlToWsView {
    pub residual: Option<u8>,
    pub meter: MeterView,
}

impl View for SlToWs {
    type V = SlToWsView;

    closed spec fn view(&self) -> SlToWsView {
        SlToWsView { residual: self.residual, meter: self.meter.shows() }
    }
}

/// The byte that is left over when all whole samples are taken from `bytes`.
pub open spec fn leftover(bytes: Seq<u8>) -> Option<u8> {
    if bytes.len() % 2 == 1 {
        Some(bytes.last())
    } else {
        None
    }
}

/// The direction from `slmodemd` after a read that returned `chunk`, and what
/// follows. Nothing means that the stream has ended. Otherwise all whole
/// samples that are there now are sent as mu-law.
pub open spec fn tx_next(state: SlToWsView, chunk: Seq<u8>) -> (SlToWsView, TxStepView) {
    let bytes = held(state.residual) + chunk;
    let ulaw = ulaw_of(bytes);
    if chunk.len() == 0 {
        (state, TxStepView::Close)
    } else if bytes.len() < 2 {
        (SlToWsView { residual: leftover(bytes), ..state }, TxStepView::Skip)
    } else {
        (
            SlToWsView {
                residual: leftover(bytes),
                meter: counted(state.meter, ulaw.len() as int),
            },
            TxStepView::Send(ulaw),
        )
    }
}

/// The direction from `slmodemd` after a frame was sent `elapsed_ms` after the
/// last report.
pub open spec fn tx_after_sent(state: SlToWsView, elapsed_ms: u128) -> SlToWsView {
    if elapsed_ms >= RELAY_STATS_INTERVAL_MS {
        SlToWsView { meter: reported(state.meter), ..state }
    } else {
        state
    }
}

/// What a report says: the bytes, the frames and the length of the interval, and
/// all bytes so far.
pub struct ReportView {
    pub bytes: int,
    pub frames: int,
    pub ms: int,
    pub total: int,
}

/// The report on the direction from `slmodemd` that is due `elapsed_ms` after
/// the last one, if one is.
pub open spec fn tx_report_at(state: SlToWsView, elapsed_ms: u128) -> Option<ReportView> {
    if elapsed_ms >= RELAY_STATS_INTERVAL_MS {
        Some(
            ReportView {
                bytes: state.meter.interval_bytes,
                frames: state.meter.frames,
                ms: elapsed_ms as int,
                total: state.meter.total,
            },
        )
    } else {
        None
    }
}

impl SlToWs {
    /// A frame has at least one byte, so frames are never more than bytes.
    #[verifier::type_invariant]
    spec fn well_formed(self) -> bool {
        self.meter.frames <= self.meter.interval_bytes <= self.meter.total
    }

    /// Nothing relayed yet.
    pub fn new() -> (direction: Self)
        ensures
            direction@ == (SlToWsView { residual: None, meter: meter_zero() }),
    {
        Self { residual: None, meter: Meter::new() }
    }

    /// Whether the codes of a chunk of `bytes` bytes can still be counted.
    pub fn can_count(&self, bytes: usize) -> (can: bool)
        ensures
            can == (self@.meter.total + (held(self@.residual).len() + bytes) / 2 <= u64::MAX),
    {
        let held_back: u128 = if self.residual.is_some() {
            1
        } else {
            0
        };
        self.meter.total as u128 + (held_back + bytes as u128) / 2 <= u64::MAX as u128
    }

    /// Takes what a read returned.
    pub fn on_read(&mut self, chunk: &[u8]) -> (step: TxStep)
        requires
            old(self)@.meter.total + (held(old(self)@.residual).len() + chunk@.len()) / 2
                <= u64::MAX,
        ensures
            (final(self)@, step@) == tx_next(old(self)@, chunk@),
    {
        proof {
            use_type_invariant(&*self);
        }
        if chunk.len() == 0 {
            return TxStep::Close;
        }
        let ghost bytes = held(self.residual) + chunk@;
        let mut residual: Option<u8> = self.residual;
        let slin: Vec<u8> = align_slin_buffer(&mut residual, chunk);
        assert(slin@ + held(residual) == bytes);
        assert(residual == leftover(bytes)) by {
            assert(bytes.len() == slin@.len() + held(residual).len());
            if residual is Some {
                assert((slin@ + held(residual)).last() == residual->0);
            }
        }
        proof {
            encoding_is_piecewise(slin@, held(residual));
            assert(ulaw_of(held(residual)) =~= Seq::empty());
            assert(ulaw_of(bytes) =~= ulaw_of(slin@));
        }
        let mut meter: Meter = self.meter;
        if slin.len() == 0 {
            *self = SlToWs { residual, meter };
            return TxStep::Skip;
        }
        let ulaw: Vec<u8> = encode_ulaw(slin.as_slice());
        meter.count(ulaw.len() as u64);
        *self = SlToWs { residual, meter };
        TxStep::Send(ulaw)
    }

    /// After a frame was sent, `elapsed_ms` after the last report: reports the
    /// interval if it is over, and starts the next.
    pub fn on_sent(&mut self, elapsed_ms: u128) -> (report: Option<TxReport>)
        ensures
            final(self)@ == tx_after_sent(old(self)@, elapsed_ms),
            report is Some <==> elapsed_ms >= RELAY_STATS_INTERVAL_MS,
            report matches Some(report) ==> {
                &&& report.interval_bytes == old(self)@.meter.interval_bytes
                &&& report.interval_frames == old(self)@.meter.frames
                &&& report.interval_ms == elapsed_ms
                &&& report.total_bytes == old(self)@.meter.total
            },
            match report {
                Some(report) => tx_report_at(old(self)@, elapsed_ms) == Some(
                    ReportView {
                        bytes: report.interval_bytes as int,
                        frames: report.interval_frames as int,
                        ms: report.interval_ms as int,
                        total: report.total_bytes as int,
                    },
                ),
                None => tx_report_at(old(self)@, elapsed_ms) is None,
            },
    {
        if elapsed_ms < RELAY_STATS_INTERVAL_MS {
            return None;
        }
        let report = TxReport {
            interval_bytes: self.meter.interval_bytes,
            interval_frames: self.meter.frames,
            interval_ms: elapsed_ms,
            total_bytes: self.meter.total,
        };
        let mut meter: Meter = self.meter;
        meter.start_interval();
        *self = SlToWs { residual: self.residual, meter };
        Some(report)
    }

    /// All bytes sent so far.
    pub fn total(&self) -> (total: u64)
        ensures
            total == self@.meter.total,
    {
        self.meter.total
    }
}

/// What can come from the media WebSocket.
pub enum MediaEvent<'a> {
    /// A frame of mu-law audio.
    Binary(&'a [u8]),
    /// A frame of text.
    Text(&'a str),
    /// A ping or a pong.
    Control,
    /// A frame of unknown kind.
    Other,
    /// Asterisk closes the WebSocket.
    Close,
    /// The WebSocket has ended.
    End,
}

/// What follows a frame from Asterisk.
#[derive(Debug)]
pub enum RxStep {
    /// Write this slin audio to `slmodemd`.
    Write(Vec<u8>),
    /// Log the announcement of the media format, and read on.
    LogMediaStart,
    /// Log that no such text was expected, and read on.
    WarnText,
    /// Log that a frame of unknown kind came, and read on.
    LogUnknown,
    /// Read on.
    Ignore,
    /// Stop.
    Stop,
}

/// What follows a frame, with audio seen as its bytes.
#[verifier::ext_equal]
pub enum RxStepView {
    Write(Seq<u8>),
    LogMediaStart,
    WarnText,
    LogUnknown,
    Ignore,
    Stop,
}

impl View for RxStep {
    type V = RxStepView;

    open spec fn view(&self) -> RxStepView {
        match self {
            RxStep::Write(slin) => RxStepView::Write(slin@),
            RxStep::LogMediaStart => RxStepView::LogMediaStart,
            RxStep::WarnText => RxStepView::WarnText,
            RxStep::LogUnknown => RxStepView::LogUnknown,
            RxStep::Ignore => RxStepView::Ignore,
            RxStep::Stop => RxStepView::Stop,
        }
    }
}

/// The direction from Asterisk to `slmodemd`.
#[derive(Debug)]
pub struct WsToSl {
    meter: Meter,
    min_frame: usize,
    max_frame: usize,
}

/// The meter, and the sizes of the smallest and the largest frame since the
/// last report.
#[verifier::ext_equal]
pub struct WsToSlView {
    pub meter: MeterView,
    pub min_frame: usize,
    pub max_frame: usize,
}

impl View for WsToSl {
    type V = WsToSlView;

    closed spec fn view(&self) -> WsToSlView {
        WsToSlView {
            meter: self.meter.shows(),
            min_frame: self.min_frame,
            max_frame: self.max_frame,
        }
    }
}

/// The direction from Asterisk after a frame of audio of `bytes` bytes.
pub open spec fn rx_counted(state: WsToSlView, bytes: int) -> WsToSlView {
    WsToSlView {
        meter: counted(state.meter, bytes),
        min_frame: if bytes < state.min_frame {
            bytes as usize
        } else {
            state.min_frame
        },
        max_frame: if bytes > state.max_frame {
            bytes as usize
        } else {
            state.max_frame
        },
    }
}

/// The direction from Asterisk after what came from the WebSocket, and what
/// follows. Audio is counted and written on as slin, a close or the end stops
/// the direction, and all else is passed over.
pub open spec fn rx_next(state: WsToSlView, event: MediaEvent<'_>) -> (WsToSlView, RxStepView) {
    match event {
        MediaEvent::Binary(data) => (
            rx_counted(state, data@.len() as int),
            RxStepView::Write(slin_of(data@)),
        ),
        MediaEvent::Text(text) => if occurs_in("MEDIA_START"@, text@) {
            (state, RxStepView::LogMediaStart)
        } else {
            (state, RxStepView::WarnText)
        },
        MediaEvent::Control => (state, RxStepView::Ignore),
        MediaEvent::Other => (state, RxStepView::LogUnknown),
        MediaEvent::Close => (state, RxStepView::Stop),
        MediaEvent::End => (state, RxStepView::Stop),
    }
}

/// The direction from Asterisk after audio was written `elapsed_ms` after the
/// last report.
pub open spec fn rx_after_written(state: WsToSlView, elapsed_ms: u128) -> WsToSlView {
    if elapsed_ms >= RELAY_STATS_INTERVAL_MS {
        WsToSlView { meter: reported(state.meter), min_frame: usize::MAX, max_frame: 0 }
    } else {
        state
    }
}

/// The report on the direction from Asterisk that is due `elapsed_ms` after the
/// last one, if one is.
pub open spec fn rx_report_at(state: WsToSlView, elapsed_ms: u128) -> Option<ReportView> {
    if elapsed_ms >= RELAY_STATS_INTERVAL_MS {
        Some(
            ReportView {
                bytes: state.meter.interval_bytes,
                frames: state.meter.frames,
                ms: elapsed_ms as int,
                total: state.meter.total,
            },
        )
    } else {
        None
    }
}

impl WsToSl {
    #[verifier::type_invariant]
    spec fn well_formed(self) -> bool {
        self.meter.interval_bytes <= self.meter.total
    }

    /// Nothing relayed yet.
    pub fn new() -> (direction: Self)
        ensures
            direction@ == (WsToSlView {
                meter: meter_zero(),
                min_frame: usize::MAX,
                max_frame: 0,
            }),
    {
        Self { meter: Meter::new(), min_frame: usize::MAX, max_frame: 0 }
    }

    /// Whether another frame of `bytes` bytes can still be counted.
    pub fn can_count(&self, bytes: usize) -> (can: bool)
        ensures
            can == (self@.meter.total + bytes <= u64::MAX && self@.meter.frames < u64::MAX),
    {
        self.meter.total as u128 + bytes as u128 <= u64::MAX as u128 && self.meter.frames < u64::MAX
    }

    /// Takes what came from the WebSocket.
    pub fn on_frame(&mut self, event: MediaEvent<'_>) -> (step: RxStep)
        requires
            event matches MediaEvent::Binary(data) ==> {
                &&& old(self)@.meter.total + data@.len() <= u64::MAX
                &&& old(self)@.meter.frames < u64::MAX
            },
        ensures
            (final(self)@, step@) == rx_next(old(self)@, event),
    {
        proof {
            use_type_invariant(&*self);
        }
        match event {
            MediaEvent::Binary(data) => {
                let length: usize = data.len();
                let mut meter: Meter = self.meter;
                meter.count(length as u64);
                let min_frame: usize = if length < self.min_frame {
                    length
                } else {
                    self.min_frame
                };
                let max_frame: usize = if length > self.max_frame {
                    length
                } else {
                    self.max_frame
                };
                *self = WsToSl { meter, min_frame, max_frame };
                RxStep::Write(decode_ulaw(data))
            },
            MediaEvent::Text(text) => if contains(text, "MEDIA_START") {
                RxStep::LogMediaStart
            } else {
                RxStep::WarnText
            },
            MediaEvent::Control => RxStep::Ignore,
            MediaEvent::Other => RxStep::LogUnknown,
            MediaEvent::Close => RxStep::Stop,
            MediaEvent::End => RxStep::Stop,
        }
    }

    /// After audio was written, `elapsed_ms` after the last report: reports
    /// the interval if it is over, and starts the next.
    pub fn on_written(&mut self, elapsed_ms: u128) -> (report: Option<RxReport>)
        ensures
            final(self)@ == rx_after_written(old(self)@, elapsed_ms),
            report is Some <==> elapsed_ms >= RELAY_STATS_INTERVAL_MS,
            report matches Some(report) ==> {
                &&& report.interval_bytes == old(self)@.meter.interval_bytes
                &&& report.interval_frames == old(self)@.meter.frames
                &&& report.interval_ms == elapsed_ms
                &&& report.total_bytes == old(self)@.meter.total
                &&& report.min_frame_bytes == old(self)@.min_frame
                &&& report.max_frame_bytes == old(self)@.max_frame
            },
            match report {
                Some(report) => {
                    &&& rx_report_at(old(self)@, elapsed_ms) == Some(
                        ReportView {
                            bytes: report.interval_bytes as int,
                            frames: report.interval_frames as int,
                            ms: report.interval_ms as int,
                            total: report.total_bytes as int,
                        },
                    )
                    &&& report.min_frame_bytes == old(self)@.min_frame
                    &&& report.max_frame_bytes == old(self)@.max_frame
                },
                None => rx_report_at(old(self)@, elapsed_ms) is None,
            },
    {
        if elapsed_ms < RELAY_STATS_INTERVAL_MS {
            return None;
        }
        let report = RxReport {
            interval_bytes: self.meter.interval_bytes,
            interval_frames: self.meter.frames,
            interval_ms: elapsed_ms,
            total_bytes: self.meter.total,
            min_frame_bytes: self.min_frame,
            max_frame_bytes: self.max_frame,
        };
        let mut meter: Meter = self.meter;
        meter.start_interval();
        *self = WsToSl { meter, min_frame: usize::MAX, max_frame: 0 };
        Some(report)
    }

    /// All bytes received so far.
    pub fn total(&self) -> (total: u64)
        ensures
            total == self@.meter.total,
    {
        self.meter.total
    }
}

/// What happens in the direction from `slmodemd`.
pub enum TxEvent {
    /// A read returned these bytes.
    Read(Seq<u8>),
    /// A frame was sent, so many milliseconds after the last report.
    Sent(u128),
}

/// What a run of the direction from `slmodemd` comes to: its last state, all
/// codes that it sent, and the bytes of all intervals that it reported.
#[verifier::ext_equal]
pub struct TxRun {
    pub state: SlToWsView,
    pub sent: Seq<u8>,
    pub reported: int,
}

/// The codes that a step sends.
pub open spec fn codes_of(step: TxStepView) -> Seq<u8> {
    match step {
        TxStepView::Send(ulaw) => ulaw,
        _ => Seq::empty(),
    }
}

/// The bytes of the interval that is reported at some time, if one is.
pub open spec fn interval_reported(meter: MeterView, elapsed_ms: u128) -> int {
    if elapsed_ms >= RELAY_STATS_INTERVAL_MS {
        meter.interval_bytes
    } else {
        0
    }
}

/// Runs the direction from `slmodemd` until it closes or the events are used
/// up.
pub open spec fn tx_run(state: SlToWsView, events: Seq<TxEvent>) -> TxRun
    decreases events.len(),
{
    if events.len() == 0 {
        TxRun { state, sent: Seq::empty(), reported: 0 }
    } else {
        match events[0] {
            TxEvent::Read(chunk) => {
                let (next, step) = tx_next(state, chunk);
                if step is Close {
                    TxRun { state: next, sent: Seq::empty(), reported: 0 }
                } else {
                    let rest = tx_run(next, events.drop_first());
                    TxRun { sent: codes_of(step) + rest.sent, ..rest }
                }
            },
            TxEvent::Sent(elapsed_ms) => {
                let rest = tx_run(tx_after_sent(state, elapsed_ms), events.drop_first());
                TxRun {
                    reported: interval_reported(state.meter, elapsed_ms) + rest.reported,
                    ..rest
                }
            },
        }
    }
}

/// The stream that is read until it ends: all reads joined, up to the first
/// that returns nothing.
pub open spec fn stream_read(events: Seq<TxEvent>) -> Seq<u8>
    decreases events.len(),
{
    if events.len() == 0 {
        Seq::empty()
    } else {
        match events[0] {
            TxEvent::Read(chunk) => if chunk.len() == 0 {
                Seq::empty()
            } else {
                chunk + stream_read(events.drop_first())
            },
            TxEvent::Sent(_) => stream_read(events.drop_first()),
        }
    }
}

/// How the stream from `slmodemd` is cut into reads does not matter, not even
/// in the middle of a sample: what is sent is the encoding of the stream, no
/// sample lost, repeated or shifted. All of it is counted, and each byte is
/// reported once or belongs to the interval that is not over yet.
pub proof fn sent_audio_is_the_stream(state: SlToWsView, events: Seq<TxEvent>)
    ensures
        ({
            let run = tx_run(state, events);
            &&& run.sent == ulaw_of(held(state.residual) + stream_read(events))
            &&& run.state.meter.total == state.meter.total + run.sent.len()
            &&& run.reported + run.state.meter.interval_bytes == state.meter.interval_bytes
                + run.sent.len()
        }),
    decreases events.len(),
{
    let none = Seq::<u8>::empty();
    if events.len() == 0 {
        assert(ulaw_of(held(state.residual) + stream_read(events)) =~= none);
    } else {
        let rest = events.drop_first();
        match events[0] {
            TxEvent::Read(chunk) => {
                if chunk.len() == 0 {
                    assert(ulaw_of(held(state.residual) + stream_read(events)) =~= none);
                } else {
                    let bytes = held(state.residual) + chunk;
                    let whole = bytes.take(bytes.len() - bytes.len() % 2);
                    let after = leftover(bytes);
                    let (next, step) = tx_next(state, chunk);
                    sent_audio_is_the_stream(next, rest);
                    assert(whole + held(after) =~= bytes);
                    encoding_is_piecewise(whole, held(after));
                    assert(ulaw_of(held(after)) =~= none);
                    assert(ulaw_of(bytes) =~= ulaw_of(whole));
                    assert(codes_of(step) =~= ulaw_of(bytes));
                    encoding_is_piecewise(whole, held(after) + stream_read(rest));
                    assert(whole + (held(after) + stream_read(rest)) =~= held(state.residual)
                        + stream_read(events));
                }
            },
            TxEvent::Sent(elapsed_ms) => {
                sent_audio_is_the_stream(tx_after_sent(state, elapsed_ms), rest);
            },
        }
    }
}

/// Over a whole run from the start, one byte is sent for each two that were
/// read: the total is half the stream, and the intervals that were reported
/// and the current one add up to it.
pub proof fn total_sent_is_half_the_stream(events: Seq<TxEvent>)
    ensures
        ({
            let run = tx_run(SlToWsView { residual: None, meter: meter_zero() }, events);
            &&& run.sent == ulaw_of(stream_read(events))
            &&& run.state.meter.total == stream_read(events).len() / 2
            &&& run.reported + run.state.meter.interval_bytes == run.state.meter.total
        }),
{
    sent_audio_is_the_stream(SlToWsView { residual: None, meter: meter_zero() }, events);
    assert(held(None) + stream_read(events) =~= stream_read(events));
}

/// Once `slmodemd` has closed the stream nothing more is read or sent.
pub proof fn nothing_is_sent_after_the_end(
    state: SlToWsView,
    before: Seq<TxEvent>,
    after: Seq<TxEvent>,
)
    requires
        exists|i: int|
            0 <= i < before.len() && #[trigger] before[i] == TxEvent::Read(Seq::empty()),
    ensures
        tx_run(state, before + after) == tx_run(state, before),
    decreases before.len(),
{
    let i = choose|i: int|
        0 <= i < before.len() && #[trigger] before[i] == TxEvent::Read(Seq::empty());
    let rest = before.drop_first();
    assert((before + after).drop_first() =~= rest + after);
    assert((before + after)[0] == before[0]);
    if i > 0 {
        assert(rest[i - 1] == TxEvent::Read(Seq::empty()));
        match before[0] {
            TxEvent::Read(chunk) => {
                nothing_is_sent_after_the_end(tx_next(state, chunk).0, rest, after);
            },
            TxEvent::Sent(elapsed_ms) => {
                nothing_is_sent_after_the_end(tx_after_sent(state, elapsed_ms), rest, after);
            },
        }
    }
}

/// What happens in the direction from Asterisk.
pub enum RxEvent<'a> {
    /// This came from the WebSocket.
    Frame(MediaEvent<'a>),
    /// Audio was written, so many milliseconds after the last report.
    Written(u128),
}

/// What a run of the direction from Asterisk comes to: its last state, all audio
/// that it wrote, and the bytes of all intervals that it reported.
#[verifier::ext_equal]
pub struct RxRun {
    pub state: WsToSlView,
    pub written: Seq<u8>,
    pub reported: int,
}

/// The audio that a step writes.
pub open spec fn audio_of(step: RxStepView) -> Seq<u8> {
    match step {
        RxStepView::Write(slin) => slin,
        _ => Seq::empty(),
    }
}

/// Runs the direction from Asterisk until it stops or the events are used up.
pub open spec fn rx_run(state: WsToSlView, events: Seq<RxEvent<'_>>) -> RxRun
    decreases events.len(),
{
    if events.len() == 0 {
        RxRun { state, written: Seq::empty(), reported: 0 }
    } else {
        match events[0] {
            RxEvent::Frame(event) => {
                let (next, step) = rx_next(state, event);
                if step is Stop {
                    RxRun { state: next, written: Seq::empty(), reported: 0 }
                } else {
                    let rest = rx_run(next, events.drop_first());
                    RxRun { written: audio_of(step) + rest.written, ..rest }
                }
            },
            RxEvent::Written(elapsed_ms) => {
                let rest = rx_run(rx_after_written(state, elapsed_ms), events.drop_first());
                RxRun {
                    reported: interval_reported(state.meter, elapsed_ms) + rest.reported,
                    ..rest
                }
            },
        }
    }
}

/// An event that stops the direction from Asterisk.
pub open spec fn stops(event: RxEvent<'_>) -> bool {
    event matches RxEvent::Frame(event) && (event is Close || event is End)
}

/// The audio that is received until the direction stops: all binary frames
/// joined, up to a close or the end.
pub open spec fn audio_received(events: Seq<RxEvent<'_>>) -> Seq<u8>
    decreases events.len(),
{
    if events.len() == 0 || stops(events[0]) {
        Seq::empty()
    } else {
        let rest = audio_received(events.drop_first());
        match events[0] {
            RxEvent::Frame(MediaEvent::Binary(data)) => data@ + rest,
            _ => rest,
        }
    }
}

/// How the audio from Asterisk is cut into frames does not matter, nor what
/// other frames come in between: what is written is the decoding of the binary
/// frames joined. All of it is counted, and each byte is reported once or
/// belongs to the interval that is not over yet.
pub proof fn written_audio_is_the_stream(state: WsToSlView, events: Seq<RxEvent<'_>>)
    ensures
        ({
            let run = rx_run(state, events);
            let received = audio_received(events);
            &&& run.written == slin_of(received)
            &&& run.state.meter.total == state.meter.total + received.len()
            &&& run.reported + run.state.meter.interval_bytes == state.meter.interval_bytes
                + received.len()
        }),
    decreases events.len(),
{
    if events.len() == 0 || stops(events[0]) {
        assert(slin_of(audio_received(events)) =~= Seq::<u8>::empty());
    } else {
        let rest = events.drop_first();
        match events[0] {
            RxEvent::Frame(event) => {
                let (next, step) = rx_next(state, event);
                written_audio_is_the_stream(next, rest);
                match event {
                    MediaEvent::Binary(data) => {
                        decoding_is_piecewise(data@, audio_received(rest));
                    },
                    _ => {
                        assert(audio_of(step) + rx_run(next, rest).written =~= rx_run(
                            next,
                            rest,
                        ).written);
                    },
                }
            },
            RxEvent::Written(elapsed_ms) => {
                written_audio_is_the_stream(rx_after_written(state, elapsed_ms), rest);
            },
        }
    }
}

/// Over a whole run from the start the total is the bytes of the binary frames,
/// and the intervals that were reported and the current one add up to it.
pub proof fn total_received_is_the_audio(events: Seq<RxEvent<'_>>)
    ensures
        ({
            let start = WsToSlView { meter: meter_zero(), min_frame: usize::MAX, max_frame: 0 };
            let run = rx_run(start, events);
            &&& run.written == slin_of(audio_received(events))
            &&& run.state.meter.total == audio_received(events).len()
            &&& run.reported + run.state.meter.interval_bytes == run.state.meter.total
        }),
{
    written_audio_is_the_stream(
        WsToSlView { meter: meter_zero(), min_frame: usize::MAX, max_frame: 0 },
        events,
    );
}

/// A frame of text, a ping or pong, or a frame of unknown kind changes nothing,
/// wherever in a run it comes: what is written, counted and reported is the
/// same as without it.
pub proof fn other_frames_change_nothing(
    state: WsToSlView,
    before: Seq<RxEvent<'_>>,
    event: MediaEvent<'_>,
    after: Seq<RxEvent<'_>>,
)
    requires
        event is Text || event is Control || event is Other,
    ensures
        rx_run(state, before.push(RxEvent::Frame(event)) + after) == rx_run(state, before + after),
    decreases before.len(),
{
    let with_frame = before.push(RxEvent::Frame(event)) + after;
    let without = before + after;
    if before.len() == 0 {
        assert(with_frame.drop_first() =~= after);
        assert(without =~= after);
        assert(rx_run(state, with_frame) =~= rx_run(state, after));
    } else {
        let rest = before.drop_first();
        assert(with_frame.drop_first() =~= rest.push(RxEvent::Frame(event)) + after);
        assert(without.drop_first() =~= rest + after);
        assert(with_frame[0] == before[0] && without[0] == before[0]);
        match before[0] {
            RxEvent::Frame(first) => {
                other_frames_change_nothing(rx_next(state, first).0, rest, event, after);
            },
            RxEvent::Written(elapsed_ms) => {
                other_frames_change_nothing(
                    rx_after_written(state, elapsed_ms),
                    rest,
                    event,
                    after,
                );
            },
        }
    }
}

/// After a close or the end nothing more is received or written.
pub proof fn nothing_is_written_after_a_close(
    state: WsToSlView,
    before: Seq<RxEvent<'_>>,
    after: Seq<RxEvent<'_>>,
)
    requires
        exists|i: int| 0 <= i < before.len() && #[trigger] stops(before[i]),
    ensures
        rx_run(state, before + after) == rx_run(state, before),
    decreases before.len(),
{
    let i = choose|i: int| 0 <= i < before.len() && #[trigger] stops(before[i]);
    let rest = before.drop_first();
    assert((before + after).drop_first() =~= rest + after);
    assert((before + after)[0] == before[0]);
    if i > 0 {
        assert(stops(rest[i - 1]));
        match before[0] {
            RxEvent::Frame(event) => {
                nothing_is_written_after_a_close(rx_next(state, event).0, rest, after);
            },
            RxEvent::Written(elapsed_ms) => {
                nothing_is_written_after_a_close(
                    rx_after_written(state, elapsed_ms),
                    rest,
                    after,
                );
            },
        }
    }
}

/// The steps that are taken are what is said of them by their bytes.
pub proof fn step_views_are_faithful(tx: TxStep, rx: RxStep)
    ensures
        tx@ is Close <==> tx is Close,
        tx@ is Skip <==> tx is Skip,
        tx@ matches TxStepView::Send(codes) ==> (tx matches TxStep::Send(ulaw) && ulaw@ == codes),
        rx@ matches RxStepView::Write(audio) ==> (rx matches RxStep::Write(slin) && slin@ == audio),
        rx@ is LogMediaStart <==> rx is LogMediaStart,
        rx@ is WarnText <==> rx is WarnText,
        rx@ is LogUnknown <==> rx is LogUnknown,
        rx@ is Ignore <==> rx is Ignore,
        rx@ is Stop <==> rx is Stop,
{
}

/// Every read has its answer. The WebSocket is closed if and only if nothing was
/// read. What is sent are all samples that are whole now, at once and as one
/// frame; the read is skipped if and only if there are none. At most one byte
/// is held back, the last that was read.
pub proof fn each_read_is_sent_at_once(state: SlToWsView, chunk: Seq<u8>)
    ensures
        ({
            let (after, step) = tx_next(state, chunk);
            let waiting: int = if state.residual is Some {
                1
            } else {
                0
            };
            let whole = (waiting + chunk.len()) / 2;
            &&& step is Close <==> chunk.len() == 0
            &&& step is Skip <==> chunk.len() > 0 && whole == 0
            &&& step matches TxStepView::Send(codes) ==> {
                &&& codes.len() == whole
                &&& codes.len() > 0
                &&& after.meter.total == state.meter.total + whole
                &&& after.meter.interval_bytes == state.meter.interval_bytes + whole
                &&& after.meter.frames == state.meter.frames + 1
            }
            &&& !(step is Send) ==> after.meter == state.meter
            &&& chunk.len() == 0 ==> after == state
            &&& chunk.len() > 0 ==> after.residual == (if (waiting + chunk.len()) % 2 == 1 {
                Some(chunk.last())
            } else {
                None
            })
        }),
{
    let bytes = held(state.residual) + chunk;
    if chunk.len() > 0 {
        assert(bytes.last() == chunk.last());
    }
}

/// Every frame has its answer. Audio is written and counted as one frame of its
/// size, the close and the end stop the direction, text is logged or warned of
/// by whether it announces the media, a frame of unknown kind is logged, and a
/// ping or pong is passed over. Nothing but audio changes anything.
pub proof fn each_frame_is_answered(state: WsToSlView, event: MediaEvent<'_>)
    ensures
        ({
            let (after, step) = rx_next(state, event);
            &&& step is Write <==> event is Binary
            &&& step is Stop <==> event is Close || event is End
            &&& step is Ignore <==> event is Control
            &&& step is LogUnknown <==> event is Other
            &&& step is LogMediaStart <==> (event matches MediaEvent::Text(text) && occurs_in(
                "MEDIA_START"@,
                text@,
            ))
            &&& step is WarnText <==> (event matches MediaEvent::Text(text) && !occurs_in(
                "MEDIA_START"@,
                text@,
            ))
            &&& !(event is Binary) ==> after == state
            &&& event matches MediaEvent::Binary(data) ==> {
                &&& step == RxStepView::Write(slin_of(data@))
                &&& after.meter.total == state.meter.total + data@.len()
                &&& after.meter.interval_bytes == state.meter.interval_bytes + data@.len()
                &&& after.meter.frames == state.meter.frames + 1
            }
        }),
{
}

/// The smallest and the largest frame of an interval bound all its frames, and
/// are sizes of frames of it.
pub proof fn frame_sizes_are_bounds(state: WsToSlView, data: &[u8])
    ensures
        ({
            let (after, _) = rx_next(state, MediaEvent::Binary(data));
            &&& after.min_frame <= data@.len() <= after.max_frame
            &&& after.min_frame <= state.min_frame
            &&& after.max_frame >= state.max_frame
            &&& after.min_frame == state.min_frame || after.min_frame == data@.len()
            &&& after.max_frame == state.max_frame || after.max_frame == data@.len()
        }),
{
    assert(data@.len() == data.len());
}

/// An interval ends with the first frame that is passed on 2000 ms or more after
/// the last report, and not before: then its bytes and frames are counted anew.
/// Nothing else changes: not the total, nor the byte that is held back.
pub proof fn intervals_end_on_time(tx: SlToWsView, rx: WsToSlView, elapsed_ms: u128)
    ensures
        elapsed_ms < 2000 ==> {
            &&& tx_after_sent(tx, elapsed_ms) == tx
            &&& rx_after_written(rx, elapsed_ms) == rx
            &&& interval_reported(tx.meter, elapsed_ms) == 0
        },
        elapsed_ms >= 2000 ==> {
            &&& tx_after_sent(tx, elapsed_ms).meter.interval_bytes == 0
            &&& tx_after_sent(tx, elapsed_ms).meter.frames == 0
            &&& rx_after_written(rx, elapsed_ms).meter.interval_bytes == 0
            &&& rx_after_written(rx, elapsed_ms).meter.frames == 0
            &&& rx_after_written(rx, elapsed_ms).min_frame == usize::MAX
            &&& rx_after_written(rx, elapsed_ms).max_frame == 0
            &&& interval_reported(tx.meter, elapsed_ms) == tx.meter.interval_bytes
        },
        tx_after_sent(tx, elapsed_ms).residual == tx.residual,
        tx_after_sent(tx, elapsed_ms).meter.total == tx.meter.total,
        rx_after_written(rx, elapsed_ms).meter.total == rx.meter.total,
{
}

/// A direction starts with everything at zero.
pub proof fn meter_starts_at_zero(bytes: int)
    ensures
        counted(meter_zero(), bytes).total == bytes,
        counted(meter_zero(), bytes).interval_bytes == bytes,
        counted(meter_zero(), bytes).frames == 1,
{
}

/// A report is due if and only if 2000 ms or more have passed since the last
/// one. It tells how long it has been, the total, and exactly the bytes and
/// frames that leave the count of the interval with it.
pub proof fn reports_tell_the_interval(tx: SlToWsView, rx: WsToSlView, elapsed_ms: u128)
    ensures
        tx_report_at(tx, elapsed_ms) is Some <==> elapsed_ms >= 2000,
        tx_report_at(tx, elapsed_ms) matches Some(report) ==> {
            let after = tx_after_sent(tx, elapsed_ms);
            &&& report.bytes + after.meter.interval_bytes == tx.meter.interval_bytes
            &&& report.frames + after.meter.frames == tx.meter.frames
            &&& report.ms == elapsed_ms
            &&& report.total == after.meter.total
        },
        rx_report_at(rx, elapsed_ms) is Some <==> elapsed_ms >= 2000,
        rx_report_at(rx, elapsed_ms) matches Some(report) ==> {
            let after = rx_after_written(rx, elapsed_ms);
            &&& report.bytes + after.meter.interval_bytes == rx.meter.interval_bytes
            &&& report.frames + after.meter.frames == rx.meter.frames
            &&& report.ms == elapsed_ms
            &&& report.total == after.meter.total
        },
{
}

} // verus!
