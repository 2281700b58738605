//! Outcome events: the text lines that tell observers what became of a
//! message, and their framing on the event stream.

use crate::message::MessageStatus;
use crate::retry::{Decision, DecisionView};
use vstd::prelude::*;
use vstd::string::StringExecFns;

verus! {

/// The character of one decimal digit.
pub open spec fn digit_char(d: int) -> char {
    if d == 0 {
        '0'
    } else if d == 1 {
        '1'
    } else if d == 2 {
        '2'
    } else if d == 3 {
        '3'
    } else if d == 4 {
        '4'
    } else if d == 5 {
        '5'
    } else if d == 6 {
        '6'
    } else if d == 7 {
        '7'
    } else if d == 8 {
        '8'
    } else {
        '9'
    }
}

/// The decimal digits of a natural number, most significant first, without
/// leading zeros.
pub open spec fn digits(n: nat) -> Seq<char>
    decreases n,
{
    if n < 10 {
        seq![digit_char(n as int)]
    } else {
        digits(n / 10).push(digit_char((n % 10) as int))
    }
}

/// The decimal notation of an integer, with a minus sign where it is
/// negative.
pub open spec fn decimal(n: int) -> Seq<char> {
    if n < 0 {
        seq!['-'] + digits((-n) as nat)
    } else {
        digits(n as nat)
    }
}

/// The characters of the digits `low`, which stand least significant first.
pub open spec fn low_digits(low: Seq<u8>) -> Seq<char> {
    Seq::new(low.len(), |i: int| digit_char(low[low.len() - 1 - i] as int))
}

fn digit_str(d: u8) -> (s: &'static str)
    requires
        d < 10,
    ensures
        s@ == seq![digit_char(d as int)],
{
    proof {
        reveal_strlit("0");
        reveal_strlit("1");
        reveal_strlit("2");
        reveal_strlit("3");
        reveal_strlit("4");
        reveal_strlit("5");
        reveal_strlit("6");
        reveal_strlit("7");
        reveal_strlit("8");
        reveal_strlit("9");
    }
    let s = if d == 0 {
        "0"
    } else if d == 1 {
        "1"
    } else if d == 2 {
        "2"
    } else if d == 3 {
        "3"
    } else if d == 4 {
        "4"
    } else if d == 5 {
        "5"
    } else if d == 6 {
        "6"
    } else if d == 7 {
        "7"
    } else if d == 8 {
        "8"
    } else {
        "9"
    };
    assert(s@ =~= seq![digit_char(d as int)]);
    s
}

/// Writes an integer in decimal notation.
pub fn decimal_string(n: i64) -> (text: String)
    ensures
        text@ == decimal(n as int),
{
    let magnitude: u64 = if n < 0 {
        (-(n as i128)) as u64
    } else {
        n as u64
    };
    let mut low: Vec<u8> = Vec::new();
    let mut rest: u64 = magnitude;
    assert(digits(magnitude as nat) =~= digits(rest as nat) + low_digits(low@));
    while rest >= 10
        invariant
            digits(magnitude as nat) == digits(rest as nat) + low_digits(low@),
            forall|i: int| 0 <= i < low@.len() ==> low@[i] < 10,
        decreases rest,
    {
        let ghost before = low@;
        low.push((rest % 10) as u8);
        assert(low_digits(low@) =~= seq![digit_char((rest % 10) as int)] + low_digits(before));
        assert(digits((rest / 10) as nat) + low_digits(low@) =~= digits(rest as nat) + low_digits(
            before,
        ));
        rest = rest / 10;
    }
    let mut text = String::new();
    if n < 0 {
        proof {
            reveal_strlit("-");
        }
        text.append("-");
        assert(text@ =~= seq!['-']);
    }
    let ghost sign = text@;
    text.append(digit_str(rest as u8));
    let mut left: usize = low.len();
    assert(low_digits(low@).take(0) =~= Seq::empty());
    while left > 0
        invariant
            left <= low@.len(),
            forall|i: int| 0 <= i < low@.len() ==> low@[i] < 10,
            text@ == sign + digits(rest as nat) + low_digits(low@).take(low@.len() - left),
        decreases left,
    {
        left = left - 1;
        text.append(digit_str(low[left]));
        assert(low_digits(low@).take(low@.len() - left) =~= low_digits(low@).take(
            low@.len() - left - 1,
        ).push(digit_char(low@[left as int] as int)));
    }
    assert(low_digits(low@).take(low@.len() as int) =~= low_digits(low@));
    assert(text@ =~= decimal(n as int));
    text
}

/// The line that reports a delivered message.
pub open spec fn sent_text(id: int) -> Seq<char> {
    "Message "@ + decimal(id) + " sent successfully"@
}

/// The line that reports a failed attempt which will be retried.
pub open spec fn retry_text(id: int, delay_secs: int, attempt: int) -> Seq<char> {
    "Message "@ + decimal(id) + " will retry after "@ + decimal(delay_secs) + " seconds (attempt "@
        + decimal(attempt) + ")"@
}

/// The line that reports a message given up.
pub open spec fn failed_text(id: int) -> Seq<char> {
    "Message "@ + decimal(id) + " failed permanently"@
}

/// True of a decision that is the outcome of an attempt: the message is no
/// longer `Pending`, and where it will be retried the delay is known.
pub open spec fn is_outcome(d: DecisionView) -> bool {
    &&& d.status != MessageStatus::Pending
    &&& d.status == MessageStatus::Retrying ==> d.delay_secs is Some
}

/// The line that reports the decision `d` on the message `id`.
pub open spec fn event_text(id: int, d: DecisionView) -> Seq<char> {
    match d.status {
        MessageStatus::Done => sent_text(id),
        MessageStatus::Failed => failed_text(id),
        _ => retry_text(id, d.delay_secs->0, d.retry_count),
    }
}

pub fn sent_line(id: i32) -> (line: String)
    ensures
        line@ == sent_text(id as int),
{
    let mut line = String::from_str("Message ");
    line.append(decimal_string(id as i64).as_str());
    line.append(" sent successfully");
    line
}

pub fn retry_line(id: i32, delay_secs: i64, attempt: i32) -> (line: String)
    ensures
        line@ == retry_text(id as int, delay_secs as int, attempt as int),
{
    let mut line = String::from_str("Message ");
    line.append(decimal_string(id as i64).as_str());
    line.append(" will retry after ");
    line.append(decimal_string(delay_secs).as_str());
    line.append(" seconds (attempt ");
    line.append(decimal_string(attempt as i64).as_str());
    line.append(")");
    line
}

pub fn failed_line(id: i32) -> (line: String)
    ensures
        line@ == failed_text(id as int),
{
    let mut line = String::from_str("Message ");
    line.append(decimal_string(id as i64).as_str());
    line.append(" failed permanently");
    line
}

/// The line that reports the decision `d` on the message `id`.
pub fn event_line(id: i32, d: &Decision) -> (line: String)
    requires
        is_outcome(d@),
    ensures
        line@ == event_text(id as int, d@),
{
    match d.status {
        MessageStatus::Done => sent_line(id),
        MessageStatus::Failed => failed_line(id),
        _ => match d.delay_secs {
            Some(delay) => retry_line(id, delay, d.retry_count),
            None => String::new(),
        },
    }
}

/// What a subscriber gets when it asks the broadcaster for the next event.
#[derive(Debug)]
pub enum RecvEvent {
    /// An outcome line.
    Line(String),
    /// The subscriber fell behind and this many events were dropped for it.
    Lagged(u64),
    /// No publisher is left.
    Closed,
}

/// What the event stream does next.
#[derive(Debug)]
pub enum StreamStep {
    /// Send this frame to the client, then go on.
    Emit(String),
    /// Send nothing and go on.
    Skip,
    /// End the stream.
    Stop,
}

/// The frame that carries one event line on the stream.
pub open spec fn frame_text(line: Seq<char>) -> Seq<char> {
    "data: "@ + line + "\n\n"@
}

/// Frames one event line for the stream.
pub fn sse_frame(line: &str) -> (frame: String)
    ensures
        frame@ == frame_text(line@),
{
    let mut frame = String::from_str("data: ");
    frame.append(line);
    frame.append("\n\n");
    frame
}

/// Decides what the stream does with what the broadcaster handed over: a
/// line is framed and sent, a gap left by dropped events is passed over, and
/// the end of publishing ends the stream.
pub fn stream_step(event: RecvEvent) -> (step: StreamStep)
    ensures
        match event {
            RecvEvent::Line(line) => step matches StreamStep::Emit(frame) && frame@ == frame_text(
                line@,
            ),
            RecvEvent::Lagged(_) => step is Skip,
            RecvEvent::Closed => step is Stop,
        },
{
    match event {
        RecvEvent::Line(line) => StreamStep::Emit(sse_frame(line.as_str())),
        RecvEvent::Lagged(_) => StreamStep::Skip,
        RecvEvent::Closed => StreamStep::Stop,
    }
}

/// The frames that a stream sends for the events `events`, from the event
/// number `from` on: one frame for each line before the first `Closed`.
pub open spec fn frames_from(events: Seq<RecvEvent>, from: int) -> Seq<Seq<char>>
    decreases events.len() - from,
{
    if from < 0 || from >= events.len() {
        Seq::empty()
    } else {
        match events[from] {
            RecvEvent::Line(line) => seq![frame_text(line@)] + frames_from(events, from + 1),
            RecvEvent::Lagged(_) => frames_from(events, from + 1),
            RecvEvent::Closed => Seq::empty(),
        }
    }
}

/// The texts of a sequence of strings, item by item.
pub open spec fn texts(lines: Seq<String>) -> Seq<Seq<char>> {
    Seq::new(lines.len(), |i: int| lines[i]@)
}

/// The frames that one subscriber's stream sends for what it received, in
/// order, up to the end of publishing.
pub fn sse_events(events: &Vec<RecvEvent>) -> (frames: Vec<String>)
    ensures
        texts(frames@) == frames_from(events@, 0),
{
    let mut frames: Vec<String> = Vec::new();
    let mut i: usize = 0;
    assert(texts(frames@) =~= Seq::empty());
    while i < events.len()
        invariant
            i <= events@.len(),
            texts(frames@) + frames_from(events@, i as int) == frames_from(events@, 0),
        decreases events@.len() - i,
    {
        let ghost before = frames@;
        match &events[i] {
            RecvEvent::Line(line) => {
                frames.push(sse_frame(line.as_str()));
                assert(texts(frames@) =~= texts(before).push(frame_text(line@)));
                assert(texts(frames@) + frames_from(events@, i + 1) =~= texts(before)
                    + frames_from(events@, i as int));
            },
            RecvEvent::Lagged(_) => {},
            RecvEvent::Closed => {
                assert(texts(frames@) + frames_from(events@, i as int) =~= texts(frames@));
                return frames;
            },
        }
        i = i + 1;
    }
    assert(texts(frames@) + frames_from(events@, i as int) =~= texts(frames@));
    frames
}

} // verus!
