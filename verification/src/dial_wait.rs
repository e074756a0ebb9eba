//! Waiting for `slmodemd` to ask for a call.
//!
//! Between calls `slmodemd` writes lines to the socket, and one of the form
//! `DIAL:<number>` asks for a call. Until it comes the bridge feeds silence.

use vstd::prelude::*;
use vstd::utf8::encode_utf8;

use crate::text::{
    all_white, clean_at_its_ends, from_utf8_lossy, has_prefix, prefix_is_followed_by_a_rest,
    strip_prefix, trim, trimmed, trimmed_is_clean, trimming_undoes_padding, utf8_text, white_space,
};

verus! {

/// The most bytes a line may have. Dial commands are far shorter; a line that
/// is longer is garbled and is thrown away as a whole.
pub const LINE_BUF_LIMIT: usize = 256;

/// How long to wait for a dial command before logging that the wait goes on.
pub const DIAL_WAIT_HEARTBEAT_SECS: u64 = 60;

/// The number that a line asks to dial: what follows `DIAL:`, without the
/// white space around it, unless nothing is left.
pub open spec fn number_in(line: Seq<char>) -> Option<Seq<char>> {
    let number = trimmed(line.skip("DIAL:"@.len() as int));
    if has_prefix(line, "DIAL:"@) && number.len() > 0 {
        Some(number)
    } else {
        None
    }
}

/// `s`, seen as the sequence of its characters.
pub open spec fn opt_chars(s: Option<String>) -> Option<Seq<char>> {
    match s {
        Some(s) => Some(s@),
        None => None,
    }
}

/// What a line of text says.
#[derive(Debug)]
pub enum Line {
    /// Dial this number.
    Dial(String),
    /// Dial, but no number is given.
    EmptyDial,
    /// Something that is not understood.
    Unknown,
    /// Nothing.
    Blank,
}

/// What a line of text says, with a number seen as its characters.
pub enum LineMeaning {
    Dial(Seq<char>),
    EmptyDial,
    Unknown,
    Blank,
}

impl View for Line {
    type V = LineMeaning;

    open spec fn view(&self) -> LineMeaning {
        match self {
            Line::Dial(number) => LineMeaning::Dial(number@),
            Line::EmptyDial => LineMeaning::EmptyDial,
            Line::Unknown => LineMeaning::Unknown,
            Line::Blank => LineMeaning::Blank,
        }
    }
}

/// What a line of text says.
pub open spec fn meaning(line: Seq<char>) -> LineMeaning {
    match number_in(line) {
        Some(number) => LineMeaning::Dial(number),
        None => if has_prefix(line, "DIAL:"@) {
            LineMeaning::EmptyDial
        } else if line.len() > 0 {
            LineMeaning::Unknown
        } else {
            LineMeaning::Blank
        },
    }
}

/// Makes out what a line of text says.
pub fn read_line(line: &str) -> (said: Line)
    ensures
        said@ == meaning(line@),
{
    match strip_prefix(line, "DIAL:") {
        Some(rest) => {
            let number: &str = trim(rest);
            if number.is_empty() {
                Line::EmptyDial
            } else {
                Line::Dial(number.to_owned())
            }
        },
        None => if line.is_empty() {
            Line::Blank
        } else {
            Line::Unknown
        },
    }
}

/// Something about the lines read that is worth a place in the log.
#[derive(Debug)]
pub enum Notice {
    /// A line has become too long and is thrown away.
    Overflow,
    /// A dial command gave no number.
    EmptyDial,
    /// A line was not understood.
    UnknownLine(String),
}

/// A notice, with a line seen as its characters.
pub enum NoticeView {
    Overflow,
    EmptyDial,
    UnknownLine(Seq<char>),
}

impl View for Notice {
    type V = NoticeView;

    open spec fn view(&self) -> NoticeView {
        match self {
            Notice::Overflow => NoticeView::Overflow,
            Notice::EmptyDial => NoticeView::EmptyDial,
            Notice::UnknownLine(line) => NoticeView::UnknownLine(line@),
        }
    }
}

/// Notices, each seen by itself.
pub open spec fn seen(notices: Seq<Notice>) -> Seq<NoticeView> {
    notices.map_values(|notice: Notice| notice@)
}

/// A line that has not ended yet.
#[derive(Debug)]
pub struct LineBuffer {
    line: Vec<u8>,
    overlong: bool,
}

/// The bytes of the line, and whether it has become too long. Of a line that
/// is too long nothing is kept.
#[verifier::ext_equal]
pub struct LineView {
    pub line: Seq<u8>,
    pub overlong: bool,
}

impl View for LineBuffer {
    type V = LineView;

    closed spec fn view(&self) -> LineView {
        LineView { line: self.line@, overlong: self.overlong }
    }
}

impl LineBuffer {
    #[verifier::type_invariant]
    spec fn well_formed(self) -> bool {
        self.line@.len() <= LINE_BUF_LIMIT
    }

    /// The start of a line.
    pub fn new() -> (buffer: Self)
        ensures
            buffer@ == line_start(),
    {
        Self { line: Vec::new(), overlong: false }
    }

    /// How many bytes are kept. Never more than the limit.
    pub fn len(&self) -> (length: usize)
        ensures
            length == self@.line.len(),
            length <= LINE_BUF_LIMIT,
    {
        proof {
            use_type_invariant(self);
        }
        self.line.len()
    }
}

/// The start of a line.
pub open spec fn line_start() -> LineView {
    LineView { line: Seq::empty(), overlong: false }
}

/// A line after one more byte. When it grows too long its bytes are thrown
/// away, and so is all that follows in it.
pub open spec fn grown(line: LineView, byte: u8) -> LineView {
    if line.overlong {
        line
    } else if line.line.len() < LINE_BUF_LIMIT {
        LineView { line: line.line.push(byte), overlong: false }
    } else {
        LineView { line: Seq::empty(), overlong: true }
    }
}

/// The number that a line asks for when it ends.
pub open spec fn asked_by(line: LineView) -> Option<Seq<char>> {
    if line.overlong {
        None
    } else {
        number_in(utf8_text(line.line))
    }
}

/// What reading some bytes leads to.
#[verifier::ext_equal]
pub struct Scan {
    /// The line that has not ended yet.
    pub line: LineView,
    /// The number to dial, once a line has asked for one.
    pub dial: Option<Seq<char>>,
}

/// Reads `bytes` after `line`. A newline ends a line; the first line that asks
/// for a call ends the reading, and what follows it is not looked at.
pub open spec fn scan(line: LineView, bytes: Seq<u8>) -> Scan
    decreases bytes.len(),
{
    if bytes.len() == 0 {
        Scan { line, dial: None }
    } else if bytes[0] != 10 {
        scan(grown(line, bytes[0]), bytes.drop_first())
    } else if asked_by(line) is Some {
        Scan { line, dial: asked_by(line) }
    } else {
        scan(line_start(), bytes.drop_first())
    }
}

/// What is worth a notice when `line` grows by a byte: that it becomes too
/// long.
pub open spec fn growth_notices(line: LineView) -> Seq<NoticeView> {
    if !line.overlong && line.line.len() >= LINE_BUF_LIMIT {
        seq![NoticeView::Overflow]
    } else {
        Seq::empty()
    }
}

/// What is worth a notice when `line` ends without asking for a call.
pub open spec fn end_notices(line: LineView) -> Seq<NoticeView> {
    if line.overlong {
        Seq::empty()
    } else {
        match meaning(utf8_text(line.line)) {
            LineMeaning::EmptyDial => seq![NoticeView::EmptyDial],
            LineMeaning::Unknown => seq![NoticeView::UnknownLine(utf8_text(line.line))],
            _ => Seq::empty(),
        }
    }
}

/// What is worth a notice when `bytes` are read after `line`.
pub open spec fn notices_in(line: LineView, bytes: Seq<u8>) -> Seq<NoticeView>
    decreases bytes.len(),
{
    if bytes.len() == 0 {
        Seq::empty()
    } else if bytes[0] != 10 {
        growth_notices(line) + notices_in(grown(line, bytes[0]), bytes.drop_first())
    } else if asked_by(line) is Some {
        Seq::empty()
    } else {
        end_notices(line) + notices_in(line_start(), bytes.drop_first())
    }
}

/// What came of reading a chunk.
#[derive(Debug)]
pub struct Scanned {
    /// The number to dial, if a line has asked for one.
    pub dial: Option<String>,
    pub notices: Vec<Notice>,
}

/// Reads a chunk of bytes from `slmodemd`. `buffer` carries an unfinished line
/// from one chunk to the next.
pub fn scan_chunk(buffer: &mut LineBuffer, chunk: &[u8]) -> (scanned: Scanned)
    ensures
        (Scan { line: final(buffer)@, dial: opt_chars(scanned.dial) }) == scan(
            old(buffer)@,
            chunk@,
        ),
        seen(scanned.notices@) == notices_in(old(buffer)@, chunk@),
{
    proof {
        use_type_invariant(&*buffer);
    }
    let ghost start = buffer@;
    let ghost whole = scan(start, chunk@);
    let ghost all = notices_in(start, chunk@);
    let mut line: Vec<u8> = Vec::new();
    std::mem::swap(&mut line, &mut buffer.line);
    let mut overlong: bool = buffer.overlong;
    let mut notices: Vec<Notice> = Vec::new();
    let mut i: usize = 0;
    assert(chunk@.skip(0) == chunk@);
    assert(seen(notices@) + all =~= all);
    while i < chunk.len()
        invariant
            i <= chunk.len(),
            start == old(buffer)@,
            whole == scan(start, chunk@),
            all == notices_in(start, chunk@),
            line@.len() <= LINE_BUF_LIMIT,
            scan(LineView { line: line@, overlong }, chunk@.skip(i as int)) == whole,
            seen(notices@) + notices_in(LineView { line: line@, overlong }, chunk@.skip(i as int))
                == all,
        decreases chunk.len() - i,
    {
        let byte: u8 = chunk[i];
        let ghost before = LineView { line: line@, overlong };
        let ghost noticed = notices@;
        assert(chunk@.skip(i as int).drop_first() == chunk@.skip(i + 1));
        if byte != 10 {
            if !overlong {
                line.push(byte);
                if line.len() > LINE_BUF_LIMIT {
                    notices.push(Notice::Overflow);
                    line.clear();
                    overlong = true;
                }
            }
            assert(LineView { line: line@, overlong } == grown(before, byte));
            assert(seen(notices@) =~= seen(noticed) + growth_notices(before));
        } else {
            if !overlong {
                let text: String = from_utf8_lossy(line.as_slice());
                match read_line(text.as_str()) {
                    Line::Dial(number) => {
                        assert(asked_by(before) == Some(number@));
                        *buffer = LineBuffer { line, overlong };
                        return Scanned { dial: Some(number), notices };
                    },
                    Line::EmptyDial => notices.push(Notice::EmptyDial),
                    Line::Unknown => notices.push(Notice::UnknownLine(text)),
                    Line::Blank => {},
                }
            }
            assert(asked_by(before) is None);
            assert(seen(notices@) =~= seen(noticed) + end_notices(before));
            line.clear();
            overlong = false;
            assert(LineView { line: line@, overlong } == line_start());
        }
        i = i + 1;
        assert(seen(notices@) + notices_in(LineView { line: line@, overlong }, chunk@.skip(i as int))
            =~= all);
    }
    *buffer = LineBuffer { line, overlong };
    assert(seen(notices@) =~= all);
    Scanned { dial: None, notices }
}

/// What can happen while the bridge waits for a dial command.
pub enum WaitEvent<'a> {
    /// A read from the socket returned these bytes; none at all means that the
    /// other side has closed it.
    Read(&'a [u8]),
    /// A read from the socket failed.
    ReadFailed,
    /// It is time for the next frame of silence.
    SilenceDue,
    /// The frame of silence was written.
    SilenceWritten,
    /// The frame of silence could not be written.
    SilenceFailed,
    /// The wait has gone on for another heartbeat interval.
    HeartbeatDue,
}

/// What to do next while waiting for a dial command.
#[derive(Debug)]
pub enum WaitStep {
    /// Wait for the next event.
    Wait,
    /// Write a frame of silence.
    WriteSilence,
    /// Log that the bridge is alive and waiting.
    ReportAlive,
    /// The wait is over: dial this number.
    Dial(String),
    /// The wait is over: the socket is gone.
    Closed,
}

/// What to do next while waiting, with a number seen as its characters.
pub enum WaitStepView {
    Wait,
    WriteSilence,
    ReportAlive,
    Dial(Seq<char>),
    Closed,
}

impl View for WaitStep {
    type V = WaitStepView;

    open spec fn view(&self) -> WaitStepView {
        match self {
            WaitStep::Wait => WaitStepView::Wait,
            WaitStep::WriteSilence => WaitStepView::WriteSilence,
            WaitStep::ReportAlive => WaitStepView::ReportAlive,
            WaitStep::Dial(number) => WaitStepView::Dial(number@),
            WaitStep::Closed => WaitStepView::Closed,
        }
    }
}

/// The line after an event, and what to do next. The wait ends when a dial
/// command was read, when the socket was closed and when it failed, and on
/// nothing else.
pub open spec fn wait_next(line: LineView, event: WaitEvent<'_>) -> (LineView, WaitStepView) {
    match event {
        WaitEvent::Read(chunk) => if chunk@.len() == 0 {
            (line, WaitStepView::Closed)
        } else {
            match scan(line, chunk@).dial {
                Some(number) => (scan(line, chunk@).line, WaitStepView::Dial(number)),
                None => (scan(line, chunk@).line, WaitStepView::Wait),
            }
        },
        WaitEvent::ReadFailed => (line, WaitStepView::Closed),
        WaitEvent::SilenceDue => (line, WaitStepView::WriteSilence),
        WaitEvent::SilenceWritten => (line, WaitStepView::Wait),
        WaitEvent::SilenceFailed => (line, WaitStepView::Closed),
        WaitEvent::HeartbeatDue => (line, WaitStepView::ReportAlive),
    }
}

/// What is worth a notice in an event.
pub open spec fn wait_notices(line: LineView, event: WaitEvent<'_>) -> Seq<NoticeView> {
    match event {
        WaitEvent::Read(chunk) => notices_in(line, chunk@),
        _ => Seq::empty(),
    }
}

/// What follows an event while the bridge waits.
#[derive(Debug)]
pub struct WaitTurn {
    pub step: WaitStep,
    pub notices: Vec<Notice>,
}

/// A turn without notices.
fn quiet(step: WaitStep) -> (turn: WaitTurn)
    ensures
        turn.step == step,
        seen(turn.notices@) == Seq::<NoticeView>::empty(),
{
    let turn = WaitTurn { step, notices: Vec::new() };
    assert(seen(turn.notices@) =~= Seq::<NoticeView>::empty());
    turn
}

/// Decides what follows an event while the bridge waits for a dial command.
/// `buffer` carries an unfinished line from one event to the next.
pub fn wait_step(buffer: &mut LineBuffer, event: WaitEvent<'_>) -> (turn: WaitTurn)
    ensures
        (final(buffer)@, turn.step@) == wait_next(old(buffer)@, event),
        seen(turn.notices@) == wait_notices(old(buffer)@, event),
{
    match event {
        WaitEvent::Read(chunk) => {
            if chunk.len() == 0 {
                return quiet(WaitStep::Closed);
            }
            let scanned: Scanned = scan_chunk(buffer, chunk);
            let step: WaitStep = match scanned.dial {
                Some(number) => WaitStep::Dial(number),
                None => WaitStep::Wait,
            };
            WaitTurn { step, notices: scanned.notices }
        },
        WaitEvent::ReadFailed => quiet(WaitStep::Closed),
        WaitEvent::SilenceDue => quiet(WaitStep::WriteSilence),
        WaitEvent::SilenceWritten => quiet(WaitStep::Wait),
        WaitEvent::SilenceFailed => quiet(WaitStep::Closed),
        WaitEvent::HeartbeatDue => quiet(WaitStep::ReportAlive),
    }
}

/// It does not matter how the bytes are cut into chunks: reading one chunk
/// after another is reading them joined, with the same notices.
pub proof fn chunking_is_irrelevant(line: LineView, first: Seq<u8>, second: Seq<u8>)
    ensures
        scan(line, first).dial is Some ==> {
            &&& scan(line, first + second) == scan(line, first)
            &&& notices_in(line, first + second) == notices_in(line, first)
        },
        scan(line, first).dial is None ==> {
            &&& scan(line, first + second) == scan(scan(line, first).line, second)
            &&& notices_in(line, first + second) == notices_in(line, first) + notices_in(
                scan(line, first).line,
                second,
            )
        },
    decreases first.len(),
{
    if first.len() == 0 {
        assert(first + second == second);
        assert(notices_in(line, first) + notices_in(line, second) =~= notices_in(line, second));
    } else {
        let rest = first.drop_first();
        assert((first + second).drop_first() == rest + second);
        if first[0] != 10 {
            chunking_is_irrelevant(grown(line, first[0]), rest, second);
            assert(scan(line, first).dial is None ==> notices_in(line, first + second)
                =~= notices_in(line, first) + notices_in(scan(line, first).line, second));
        } else if asked_by(line) is None {
            chunking_is_irrelevant(line_start(), rest, second);
            assert(scan(line, first).dial is None ==> notices_in(line, first + second)
                =~= notices_in(line, first) + notices_in(scan(line, first).line, second));
        }
    }
}

/// However much is read, no more than the limit is ever kept.
pub proof fn kept_line_is_bounded(line: LineView, bytes: Seq<u8>)
    requires
        line.line.len() <= LINE_BUF_LIMIT,
    ensures
        scan(line, bytes).line.line.len() <= LINE_BUF_LIMIT,
    decreases bytes.len(),
{
    if bytes.len() > 0 {
        if bytes[0] != 10 {
            kept_line_is_bounded(grown(line, bytes[0]), bytes.drop_first());
        } else {
            kept_line_is_bounded(line_start(), bytes.drop_first());
        }
    }
}

/// Bytes without a newline that still fit are kept as they are.
proof fn unfinished_line_is_kept(line: Seq<u8>, bytes: Seq<u8>)
    requires
        !bytes.contains(10),
        line.len() + bytes.len() <= LINE_BUF_LIMIT,
    ensures
        scan(LineView { line, overlong: false }, bytes) == (Scan {
            line: LineView { line: line + bytes, overlong: false },
            dial: None,
        }),
        notices_in(LineView { line, overlong: false }, bytes) == Seq::<NoticeView>::empty(),
    decreases bytes.len(),
{
    if bytes.len() == 0 {
        assert(line + bytes == line);
    } else {
        let rest = bytes.drop_first();
        assert(bytes.contains(bytes[0]));
        assert forall|i: int| 0 <= i < rest.len() implies rest[i] != 10 by {
            assert(rest[i] == bytes[i + 1]);
        }
        unfinished_line_is_kept(line.push(bytes[0]), rest);
        assert(line.push(bytes[0]) + rest == line + bytes);
        assert(Seq::<NoticeView>::empty() + Seq::<NoticeView>::empty()
            =~= Seq::<NoticeView>::empty());
    }
}

/// Of a line that is too long, nothing more is kept or noticed.
proof fn overlong_line_stays_so(line: LineView, bytes: Seq<u8>)
    requires
        line.overlong,
        !bytes.contains(10),
    ensures
        scan(line, bytes) == (Scan { line, dial: None }),
        notices_in(line, bytes) == Seq::<NoticeView>::empty(),
    decreases bytes.len(),
{
    if bytes.len() > 0 {
        let rest = bytes.drop_first();
        assert(bytes.contains(bytes[0]));
        assert forall|i: int| 0 <= i < rest.len() implies rest[i] != 10 by {
            assert(rest[i] == bytes[i + 1]);
        }
        overlong_line_stays_so(line, rest);
        assert(Seq::<NoticeView>::empty() + Seq::<NoticeView>::empty()
            =~= Seq::<NoticeView>::empty());
    }
}

/// Each line is judged by itself. At the start of a line of at most the
/// permitted length, the number it asks for is found; if it asks for none,
/// reading goes on as if the line had not been there.
pub proof fn lines_are_read_one_by_one(line: Seq<u8>, rest: Seq<u8>)
    requires
        !line.contains(10),
        line.len() <= LINE_BUF_LIMIT,
    ensures
        match number_in(utf8_text(line)) {
            Some(number) => scan(line_start(), line + seq![10u8] + rest).dial == Some(number),
            None => scan(line_start(), line + seq![10u8] + rest) == scan(line_start(), rest),
        },
{
    let ended = seq![10u8] + rest;
    unfinished_line_is_kept(Seq::empty(), line);
    assert(Seq::<u8>::empty() + line == line);
    chunking_is_irrelevant(line_start(), line, ended);
    assert(line + ended == line + seq![10u8] + rest);
    assert(ended.drop_first() == rest);
}

/// A line that is too long asks for nothing, whatever stands in it: reading
/// goes on as if the line had not been there, and it is noticed once.
pub proof fn overlong_line_is_discarded(garbage: Seq<u8>, rest: Seq<u8>)
    requires
        !garbage.contains(10),
        garbage.len() > LINE_BUF_LIMIT,
    ensures
        scan(line_start(), garbage + seq![10u8] + rest) == scan(line_start(), rest),
        notices_in(line_start(), garbage + seq![10u8] + rest) == seq![NoticeView::Overflow]
            + notices_in(line_start(), rest),
{
    let limit = LINE_BUF_LIMIT as int;
    let kept = garbage.take(limit);
    let full = LineView { line: kept, overlong: false };
    let lost = LineView { line: Seq::empty(), overlong: true };
    let more = garbage.skip(limit + 1);
    let ended = seq![10u8] + rest;
    let after = more + ended;
    let tail = seq![garbage[limit]] + after;
    assert forall|i: int| 0 <= i < kept.len() implies kept[i] != 10 by {
        assert(garbage.contains(garbage[i]));
    }
    assert forall|i: int| 0 <= i < more.len() implies more[i] != 10 by {
        assert(garbage.contains(garbage[limit + 1 + i]));
    }
    assert(garbage.contains(garbage[limit]));
    unfinished_line_is_kept(Seq::empty(), kept);
    assert(Seq::<u8>::empty() + kept == kept);
    chunking_is_irrelevant(line_start(), kept, tail);
    assert(kept + tail =~= garbage + seq![10u8] + rest);
    assert(tail.drop_first() == after);
    assert(grown(full, garbage[limit]) == lost);
    overlong_line_stays_so(lost, more);
    chunking_is_irrelevant(lost, more, ended);
    assert(ended.drop_first() == rest);
    assert(notices_in(line_start(), garbage + seq![10u8] + rest) =~= seq![NoticeView::Overflow]
        + notices_in(line_start(), rest));
}

/// A dial command is understood: `DIAL:`, a number and a newline, written in
/// UTF-8 at the start of a line, ask for the number without the white space
/// around it.
pub proof fn dial_command_is_understood(number: Seq<char>, rest: Seq<u8>)
    requires
        trimmed(number).len() > 0,
        !encode_utf8("DIAL:"@ + number).contains(10),
        encode_utf8("DIAL:"@ + number).len() <= LINE_BUF_LIMIT,
    ensures
        scan(line_start(), encode_utf8("DIAL:"@ + number) + seq![10u8] + rest).dial == Some(
            trimmed(number),
        ),
{
    let text = "DIAL:"@ + number;
    let line = encode_utf8(text);
    vstd::utf8::encode_utf8_valid_utf8(text);
    vstd::utf8::encode_utf8_decode_utf8(text);
    assert(text.take("DIAL:"@.len() as int) == "DIAL:"@);
    assert(text.skip("DIAL:"@.len() as int) == number);
    assert(number_in(utf8_text(line)) == Some(trimmed(number)));
    lines_are_read_one_by_one(line, rest);
}

/// A number that the wait ends with is never empty and has no white space
/// around it.
pub proof fn dialled_number_is_clean(line: LineView, bytes: Seq<u8>)
    ensures
        scan(line, bytes).dial matches Some(number) ==> {
            &&& number.len() > 0
            &&& !white_space(number.first())
            &&& !white_space(number.last())
        },
    decreases bytes.len(),
{
    if bytes.len() > 0 {
        if bytes[0] != 10 {
            dialled_number_is_clean(grown(line, bytes[0]), bytes.drop_first());
        } else {
            trimmed_is_clean(utf8_text(line.line).skip("DIAL:"@.len() as int));
            if asked_by(line) is None {
                dialled_number_is_clean(line_start(), bytes.drop_first());
            }
        }
    }
}

/// All bytes that some events bring.
pub open spec fn bytes_read(events: Seq<WaitEvent<'_>>) -> Seq<u8>
    decreases events.len(),
{
    if events.len() == 0 {
        Seq::empty()
    } else {
        let rest = bytes_read(events.drop_first());
        match events[0] {
            WaitEvent::Read(chunk) => chunk@ + rest,
            _ => rest,
        }
    }
}

/// How a wait that starts with `line` goes on with some events: the line that
/// is kept, and the number or the end of the socket that ended it.
pub open spec fn wait_outcome(line: LineView, events: Seq<WaitEvent<'_>>) -> (
    LineView,
    WaitStepView,
)
    decreases events.len(),
{
    if events.len() == 0 {
        (line, WaitStepView::Wait)
    } else {
        let (next_line, step) = wait_next(line, events[0]);
        if step is Dial || step is Closed {
            (next_line, step)
        } else {
            wait_outcome(next_line, events.drop_first())
        }
    }
}

/// An event in which the socket is closed or fails.
pub open spec fn loses_socket(event: WaitEvent<'_>) -> bool {
    match event {
        WaitEvent::Read(chunk) => chunk@.len() == 0,
        WaitEvent::ReadFailed => true,
        WaitEvent::SilenceFailed => true,
        _ => false,
    }
}

/// Silence and heartbeats in between do not disturb the reading: as long as
/// the socket holds, a wait finds the number that the bytes ask for, taken
/// together, and goes on if they ask for none.
pub proof fn waiting_is_reading(line: LineView, events: Seq<WaitEvent<'_>>)
    requires
        forall|i: int| 0 <= i < events.len() ==> !loses_socket(#[trigger] events[i]),
    ensures
        wait_outcome(line, events) == (match scan(line, bytes_read(events)).dial {
            Some(number) => (scan(line, bytes_read(events)).line, WaitStepView::Dial(number)),
            None => (scan(line, bytes_read(events)).line, WaitStepView::Wait),
        }),
    decreases events.len(),
{
    if events.len() > 0 {
        let rest = events.drop_first();
        let (next_line, step) = wait_next(line, events[0]);
        assert forall|i: int| 0 <= i < rest.len() implies !loses_socket(#[trigger] rest[i]) by {
            assert(rest[i] == events[i + 1]);
        }
        assert(!loses_socket(events[0]));
        if let WaitEvent::Read(chunk) = events[0] {
            chunking_is_irrelevant(line, chunk@, bytes_read(rest));
        }
        waiting_is_reading(next_line, rest);
    }
}

/// A line that is `DIAL:`, white space, a number and white space asks for that
/// number, whole and unchanged; without a number it is an empty dial command.
pub proof fn dial_line_means_its_number(before: Seq<char>, number: Seq<char>, after: Seq<char>)
    requires
        all_white(before),
        all_white(after),
        clean_at_its_ends(number),
    ensures
        ({
            let said = meaning("DIAL:"@ + (before + number + after));
            &&& number.len() > 0 ==> said == LineMeaning::Dial(number)
            &&& number.len() == 0 ==> said is EmptyDial
        }),
{
    let rest = before + number + after;
    let line = "DIAL:"@ + rest;
    trimming_undoes_padding(before, number, after);
    prefix_is_followed_by_a_rest(line, "DIAL:"@, rest);
    assert(line.skip("DIAL:"@.len() as int) =~= rest);
}

/// A line that does not start with `DIAL:` asks for nothing, whatever stands in
/// it.
pub proof fn other_line_asks_for_nothing(line: Seq<char>)
    requires
        forall|rest: Seq<char>| line != #[trigger] ("DIAL:"@ + rest),
    ensures
        line.len() > 0 ==> meaning(line) is Unknown,
        line.len() == 0 ==> meaning(line) is Blank,
{
    if has_prefix(line, "DIAL:"@) {
        prefix_is_followed_by_a_rest(line, "DIAL:"@, Seq::empty());
        assert(line == "DIAL:"@ + line.skip("DIAL:"@.len() as int));
    }
}

/// Reading follows what each line says. A line of at most 256 bytes that asks
/// for a number ends the reading with it and without a notice. Any other is
/// passed over: an empty dial command and a line that is not understood are
/// noticed, a blank line is not.
pub proof fn each_line_is_taken_at_its_word(line: Seq<u8>, rest: Seq<u8>)
    requires
        !line.contains(10),
        line.len() <= 256,
    ensures
        ({
            let text = utf8_text(line);
            let bytes = line + seq![10u8] + rest;
            let read = scan(line_start(), bytes);
            let noticed = notices_in(line_start(), bytes);
            let later = scan(line_start(), rest);
            let noticed_later = notices_in(line_start(), rest);
            match meaning(text) {
                LineMeaning::Dial(number) => {
                    &&& read.dial == Some(number)
                    &&& noticed == Seq::<NoticeView>::empty()
                },
                LineMeaning::EmptyDial => {
                    &&& read == later
                    &&& noticed == seq![NoticeView::EmptyDial] + noticed_later
                },
                LineMeaning::Unknown => {
                    &&& read == later
                    &&& noticed == seq![NoticeView::UnknownLine(text)] + noticed_later
                },
                LineMeaning::Blank => {
                    &&& read == later
                    &&& noticed == noticed_later
                },
            }
        }),
{
    let ended = seq![10u8] + rest;
    let held = LineView { line, overlong: false };
    unfinished_line_is_kept(Seq::empty(), line);
    assert(Seq::<u8>::empty() + line =~= line);
    chunking_is_irrelevant(line_start(), line, ended);
    assert(line + ended =~= line + seq![10u8] + rest);
    assert(ended.drop_first() =~= rest);
    assert(notices_in(line_start(), line + ended) =~= notices_in(held, ended));
    assert(Seq::<NoticeView>::empty() + notices_in(line_start(), rest) =~= notices_in(
        line_start(),
        rest,
    ));
}

/// A line that has not ended asks for nothing yet, and is noticed once if it is
/// longer than 256 bytes. Reading nothing changes nothing.
pub proof fn unfinished_line_asks_for_nothing(line: LineView, bytes: Seq<u8>)
    requires
        !bytes.contains(10),
    ensures
        scan(line_start(), bytes).dial is None,
        bytes.len() <= 256 ==> notices_in(line_start(), bytes) == Seq::<NoticeView>::empty(),
        bytes.len() > 256 ==> notices_in(line_start(), bytes) == seq![NoticeView::Overflow],
        scan(line, Seq::empty()) == (Scan { line, dial: None }),
        notices_in(line, Seq::empty()) == Seq::<NoticeView>::empty(),
{
    if bytes.len() <= 256 {
        unfinished_line_is_kept(Seq::empty(), bytes);
    } else {
        let kept = bytes.take(256);
        let more = bytes.skip(257);
        let tail = seq![bytes[256]] + more;
        let full = LineView { line: kept, overlong: false };
        let lost = LineView { line: Seq::empty(), overlong: true };
        assert forall|i: int| 0 <= i < kept.len() implies kept[i] != 10 by {
            assert(bytes.contains(bytes[i]));
        }
        assert forall|i: int| 0 <= i < more.len() implies more[i] != 10 by {
            assert(bytes.contains(bytes[257 + i]));
        }
        assert(bytes.contains(bytes[256]));
        unfinished_line_is_kept(Seq::empty(), kept);
        assert(Seq::<u8>::empty() + kept =~= kept);
        chunking_is_irrelevant(line_start(), kept, tail);
        assert(kept + tail =~= bytes);
        assert(tail.drop_first() =~= more);
        assert(grown(full, bytes[256]) == lost);
        overlong_line_stays_so(lost, more);
        assert(notices_in(line_start(), bytes) =~= seq![NoticeView::Overflow]);
    }
}

/// Every event of a wait has its answer, whatever has been read so far. A frame
/// of silence is written whenever one is due and at no other time; so it is
/// with the sign of life. The wait ends without a number if and only if the
/// socket is closed or fails, and with one if and only if the bytes read ask
/// for it. Only bytes that are read change the line.
pub proof fn each_wait_event_is_answered(line: LineView, event: WaitEvent<'_>)
    ensures
        ({
            let (next_line, step) = wait_next(line, event);
            &&& step is WriteSilence <==> event is SilenceDue
            &&& step is ReportAlive <==> event is HeartbeatDue
            &&& step is Closed <==> {
                ||| event is ReadFailed
                ||| event is SilenceFailed
                ||| (event matches WaitEvent::Read(chunk) && chunk@.len() == 0)
            }
            &&& step is Dial <==> (event matches WaitEvent::Read(chunk) && scan(line, chunk@).dial is Some)
            &&& step matches WaitStepView::Dial(number) ==> (event matches WaitEvent::Read(chunk)
                && scan(line, chunk@).dial == Some(number))
            &&& event is SilenceWritten ==> step is Wait
            &&& match event {
                WaitEvent::Read(chunk) => next_line == scan(line, chunk@).line,
                _ => next_line == line,
            }
        }),
        event matches WaitEvent::Read(chunk) ==> wait_notices(line, event) == notices_in(
            line,
            chunk@,
        ),
        !(event is Read) ==> wait_notices(line, event) == Seq::<NoticeView>::empty(),
{
}

/// How many events a wait goes through before it ends, of those that come.
pub open spec fn wait_length(line: LineView, events: Seq<WaitEvent<'_>>) -> int
    decreases events.len(),
{
    if events.len() == 0 {
        0
    } else {
        let (next_line, step) = wait_next(line, events[0]);
        if step is Dial || step is Closed {
            1
        } else {
            1 + wait_length(next_line, events.drop_first())
        }
    }
}

/// How many frames of silence a wait asks for before it ends.
pub open spec fn silence_asked(line: LineView, events: Seq<WaitEvent<'_>>) -> int
    decreases events.len(),
{
    if events.len() == 0 {
        0
    } else {
        let (next_line, step) = wait_next(line, events[0]);
        if step is Dial || step is Closed {
            0
        } else if step is WriteSilence {
            1 + silence_asked(next_line, events.drop_first())
        } else {
            silence_asked(next_line, events.drop_first())
        }
    }
}

/// In how many of some events silence is due.
pub open spec fn silence_due(events: Seq<WaitEvent<'_>>) -> int
    decreases events.len(),
{
    if events.len() == 0 {
        0
    } else if events[0] is SilenceDue {
        1 + silence_due(events.drop_first())
    } else {
        silence_due(events.drop_first())
    }
}

/// The silence never pauses: over any run of events a wait asks for exactly as
/// many frames as were due before it ended.
pub proof fn silence_is_fed_throughout(line: LineView, events: Seq<WaitEvent<'_>>)
    ensures
        0 <= wait_length(line, events) <= events.len(),
        silence_asked(line, events) == silence_due(events.take(wait_length(line, events))),
    decreases events.len(),
{
    if events.len() > 0 {
        let (next_line, step) = wait_next(line, events[0]);
        let rest = events.drop_first();
        let length = wait_length(line, events);
        let read = events.take(length);
        silence_is_fed_throughout(next_line, rest);
        assert(read[0] == events[0]);
        if step is Dial || step is Closed {
            assert(read.drop_first() =~= Seq::empty());
            assert(silence_due(read.drop_first()) == 0);
        } else {
            assert(read.drop_first() =~= rest.take(length - 1));
        }
    }
}

/// What is said of numbers, steps and notices by their characters holds of them
/// as they are.
pub proof fn views_are_faithful(
    dial: Option<String>,
    said: Line,
    step: WaitStep,
    notices: Seq<Notice>,
    i: int,
)
    ensures
        match dial {
            Some(number) => opt_chars(dial) == Some(number@),
            None => opt_chars(dial) is None,
        },
        said@ is EmptyDial <==> said is EmptyDial,
        said@ is Unknown <==> said is Unknown,
        said@ is Blank <==> said is Blank,
        said@ matches LineMeaning::Dial(number) ==> (said matches Line::Dial(found) && found@
            == number),
        step@ is Wait <==> step is Wait,
        step@ is WriteSilence <==> step is WriteSilence,
        step@ is ReportAlive <==> step is ReportAlive,
        step@ is Closed <==> step is Closed,
        step@ matches WaitStepView::Dial(number) ==> (step matches WaitStep::Dial(found) && found@
            == number),
        seen(notices).len() == notices.len(),
        0 <= i < notices.len() ==> match notices[i] {
            Notice::Overflow => seen(notices)[i] is Overflow,
            Notice::EmptyDial => seen(notices)[i] is EmptyDial,
            Notice::UnknownLine(text) => seen(notices)[i] == NoticeView::UnknownLine(text@),
        },
{
}

} // verus!
