//! Turning a child's output into lines without blocking. The caller reads from
//! a non-blocking stream into a buffer, one line at a time, and asks after
//! each attempt what to do with the buffer. A line that is not yet complete
//! stays in the buffer until its end arrives. Between two drains the caller
//! polls the child; once the child has ended it drains a last time and
//! returns the child's result.

use crate::command::{poll_step, PollModel, Termination};
use crate::text::{chars_of, strip_cr};
use vstd::prelude::*;

verus! {

/// How an attempt to read one line into the buffer ended.
#[derive(Clone, Copy, Debug, PartialEq, Eq)]
pub enum ReadOutcome {
    /// The stream is at its end: nothing was read.
    Eof,
    /// Characters were read and appended to the buffer.
    Read,
    /// No data is available for now. What had arrived is in the buffer.
    WouldBlock,
    /// Reading failed for another reason.
    Failed,
}

/// What the caller does after an attempt to read.
#[derive(Clone, Debug, PartialEq, Eq)]
pub enum PumpAction {
    /// Hand this line, which is without its ending, to the line handler, and
    /// read again.
    Deliver(String),
    /// Read again; no line is complete yet.
    Again,
    /// Stop reading for now, without an error.
    Idle,
    /// Stop reading for now, and report the read error.
    Abort,
}

/// The mathematical content of a [`PumpAction`].
pub ghost enum ActionModel {
    Deliver(Seq<char>),
    Again,
    Idle,
    Abort,
}

impl View for PumpAction {
    type V = ActionModel;

    open spec fn view(&self) -> ActionModel {
        match *self {
            PumpAction::Deliver(line) => ActionModel::Deliver(line@),
            PumpAction::Again => ActionModel::Again,
            PumpAction::Idle => ActionModel::Idle,
            PumpAction::Abort => ActionModel::Abort,
        }
    }
}

/// Whether the buffer holds a complete line: it ends in a line feed.
pub open spec fn is_complete(buffer: Seq<char>) -> bool {
    buffer.len() > 0 && buffer.last() == '\n'
}

/// The buffer that is left and the action that is taken after an attempt to
/// read. A complete line is delivered without its ending (`\n` or `\r\n`) and
/// leaves the buffer empty. An incomplete one stays where it is. A failure
/// other than a lack of data empties the buffer.
pub open spec fn pump_step(buffer: Seq<char>, outcome: ReadOutcome) -> (Seq<char>, ActionModel) {
    match outcome {
        ReadOutcome::Eof => (buffer, ActionModel::Idle),
        ReadOutcome::WouldBlock => (buffer, ActionModel::Idle),
        ReadOutcome::Failed => (Seq::empty(), ActionModel::Abort),
        ReadOutcome::Read => if is_complete(buffer) {
            (Seq::empty(), ActionModel::Deliver(strip_cr(buffer.drop_last())))
        } else {
            (buffer, ActionModel::Again)
        },
    }
}

/// One attempt to read, as the decisions see it: the characters that it
/// appended to the buffer, and how it ended.
pub ghost struct Attempt {
    pub appended: Seq<char>,
    pub outcome: ReadOutcome,
}

/// The lines that are delivered in the course of `attempts`, in order,
/// starting with `buffer`.
pub open spec fn delivered(buffer: Seq<char>, attempts: Seq<Attempt>) -> Seq<Seq<char>>
    decreases attempts.len(),
{
    if attempts.len() == 0 {
        Seq::empty()
    } else {
        let step = pump_step(buffer + attempts[0].appended, attempts[0].outcome);
        let first = match step.1 {
            ActionModel::Deliver(line) => seq![line],
            _ => Seq::empty(),
        };
        first + delivered(step.0, attempts.drop_first())
    }
}

/// The buffer that is left after `attempts`, starting with `buffer`.
pub open spec fn left_over(buffer: Seq<char>, attempts: Seq<Attempt>) -> Seq<char>
    decreases attempts.len(),
{
    if attempts.len() == 0 {
        buffer
    } else {
        left_over(
            pump_step(buffer + attempts[0].appended, attempts[0].outcome).0,
            attempts.drop_first(),
        )
    }
}

/// Decides what follows one attempt to read a line into `buffer`. `outcome`
/// tells how the attempt ended; what it read is already in the buffer.
pub fn non_blocking_line_reading(
    buffer: &mut String,
    outcome: ReadOutcome,
) -> (action: PumpAction)
    ensures
        (final(buffer)@, action@) == pump_step(old(buffer)@, outcome),
{
    match outcome {
        ReadOutcome::Eof => PumpAction::Idle,
        ReadOutcome::WouldBlock => PumpAction::Idle,
        ReadOutcome::Failed => {
            *buffer = String::new();
            PumpAction::Abort
        },
        ReadOutcome::Read => {
            let chars = chars_of(buffer.as_str());
            let n = chars.len();
            if n > 0 && chars[n - 1] == '\n' {
                let end = if n >= 2 && chars[n - 2] == '\r' {
                    n - 2
                } else {
                    n - 1
                };
                let line = buffer.as_str().substring_char(0, end).to_owned();
                assert(line@ =~= strip_cr(buffer@.drop_last()));
                *buffer = String::new();
                PumpAction::Deliver(line)
            } else {
                PumpAction::Again
            }
        },
    }
}

/// The attempts by which `lines` arrive whole: one for each line, which
/// appends the line and a line feed.
pub open spec fn whole_lines(lines: Seq<Seq<char>>) -> Seq<Attempt> {
    Seq::new(
        lines.len(),
        |i: int| Attempt { appended: lines[i].push('\n'), outcome: ReadOutcome::Read },
    )
}

/// Lines that arrive whole are delivered one for one and in order, each
/// without its ending (the line feed, and the carriage return before it where
/// there is one), and leave the buffer empty.
pub proof fn law_whole_lines(lines: Seq<Seq<char>>)
    ensures
        delivered(Seq::empty(), whole_lines(lines)) == Seq::new(
            lines.len(),
            |i: int| strip_cr(lines[i]),
        ),
        left_over(Seq::empty(), whole_lines(lines)) == Seq::<char>::empty(),
    decreases lines.len(),
{
    let attempts = whole_lines(lines);
    let expected = Seq::new(lines.len(), |i: int| strip_cr(lines[i]));
    if lines.len() > 0 {
        let none = Seq::<char>::empty();
        let rest = lines.drop_first();
        let arrived = none + attempts[0].appended;
        assert(arrived =~= lines[0].push('\n'));
        assert(arrived.drop_last() =~= lines[0]);
        assert(attempts.drop_first() =~= whole_lines(rest));
        law_whole_lines(rest);
        assert(delivered(none, attempts) =~= expected);
    } else {
        assert(delivered(Seq::empty(), attempts) =~= expected);
    }
}

/// A line that arrives in two parts, with a lack of data between them, is
/// delivered once and whole.
pub proof fn law_split_line(head: Seq<char>, tail: Seq<char>)
    ensures
        delivered(
            Seq::empty(),
            seq![
                Attempt { appended: head, outcome: ReadOutcome::WouldBlock },
                Attempt { appended: tail.push('\n'), outcome: ReadOutcome::Read },
            ],
        ) == seq![strip_cr(head + tail)],
{
    let none = Seq::<char>::empty();
    let first = Attempt { appended: head, outcome: ReadOutcome::WouldBlock };
    let second = Attempt { appended: tail.push('\n'), outcome: ReadOutcome::Read };
    let attempts = seq![first, second];
    assert(none + head =~= head);
    assert(attempts.drop_first() =~= seq![second]);
    assert(seq![second].drop_first() =~= Seq::<Attempt>::empty());
    let arrived = head + tail.push('\n');
    assert(arrived.drop_last() =~= head + tail);
    assert(delivered(none, Seq::<Attempt>::empty()) =~= Seq::<Seq<char>>::empty());
    assert(delivered(head, seq![second]) =~= seq![strip_cr(head + tail)]);
    assert(delivered(none, attempts) =~= seq![strip_cr(head + tail)]);
}

/// One poll of the child, as the decisions see it: how the child ended, or
/// nothing while it ran, and the attempts to read that were made at this poll.
pub ghost struct Poll {
    pub status: Option<Termination>,
    pub attempts: Seq<Attempt>,
}

/// The attempts to read that a pump makes in the course of `polls`: those of
/// every poll up to the first that finds the child ended, that one's
/// included.
pub open spec fn attempts_of(command: Seq<char>, polls: Seq<Poll>) -> Seq<Attempt>
    decreases polls.len(),
{
    if polls.len() == 0 {
        Seq::empty()
    } else {
        match poll_step(command, polls[0].status) {
            PollModel::Drain => polls[0].attempts + attempts_of(command, polls.drop_first()),
            PollModel::Finish(_) => polls[0].attempts,
        }
    }
}

/// The lines that a pump delivers in the course of `polls`, starting with
/// `buffer`, before it returns: at each poll those of that poll's drain, and
/// none after the poll that finds the child ended.
pub open spec fn pumped(
    command: Seq<char>,
    buffer: Seq<char>,
    polls: Seq<Poll>,
) -> Seq<Seq<char>>
    decreases polls.len(),
{
    if polls.len() == 0 {
        Seq::empty()
    } else {
        let here = delivered(buffer, polls[0].attempts);
        match poll_step(command, polls[0].status) {
            PollModel::Drain => here + pumped(
                command,
                left_over(buffer, polls[0].attempts),
                polls.drop_first(),
            ),
            PollModel::Finish(_) => here,
        }
    }
}

/// What a pump returns in the course of `polls`: the result of the first poll
/// that finds the child ended, and nothing while no poll does.
pub open spec fn pump_result(command: Seq<char>, polls: Seq<Poll>) -> Option<PollModel>
    decreases polls.len(),
{
    if polls.len() == 0 {
        None
    } else {
        match poll_step(command, polls[0].status) {
            PollModel::Drain => pump_result(command, polls.drop_first()),
            PollModel::Finish(failure) => Some(PollModel::Finish(failure)),
        }
    }
}

/// Whether an attempt brought nothing: it found no data, or the end of the
/// stream, and appended nothing.
pub open spec fn is_pause(attempt: Attempt) -> bool {
    attempt.appended.len() == 0 && (attempt.outcome == ReadOutcome::WouldBlock
        || attempt.outcome == ReadOutcome::Eof)
}

/// `attempts` without those that brought nothing.
pub open spec fn without_pauses(attempts: Seq<Attempt>) -> Seq<Attempt>
    decreases attempts.len(),
{
    if attempts.len() == 0 {
        Seq::empty()
    } else if is_pause(attempts[0]) {
        without_pauses(attempts.drop_first())
    } else {
        seq![attempts[0]] + without_pauses(attempts.drop_first())
    }
}

/// Two runs of attempts, one after the other, deliver what the first delivers
/// and then what the second delivers from the buffer that the first left.
pub proof fn lemma_delivered_in_turn(buffer: Seq<char>, first: Seq<Attempt>, second: Seq<Attempt>)
    ensures
        delivered(buffer, first + second) == delivered(buffer, first) + delivered(
            left_over(buffer, first),
            second,
        ),
        left_over(buffer, first + second) == left_over(left_over(buffer, first), second),
    decreases first.len(),
{
    if first.len() == 0 {
        assert(first + second =~= second);
        assert(delivered(buffer, first) + delivered(left_over(buffer, first), second)
            =~= delivered(buffer, second));
    } else {
        let step = pump_step(buffer + first[0].appended, first[0].outcome);
        assert((first + second)[0] == first[0]);
        assert((first + second).drop_first() =~= first.drop_first() + second);
        lemma_delivered_in_turn(step.0, first.drop_first(), second);
        assert(delivered(buffer, first + second) =~= delivered(buffer, first) + delivered(
            left_over(buffer, first),
            second,
        ));
    }
}

/// Attempts that bring nothing deliver nothing and leave the buffer as it is.
pub proof fn law_pauses_change_nothing(buffer: Seq<char>, attempts: Seq<Attempt>)
    ensures
        delivered(buffer, attempts) == delivered(buffer, without_pauses(attempts)),
        left_over(buffer, attempts) == left_over(buffer, without_pauses(attempts)),
    decreases attempts.len(),
{
    if attempts.len() > 0 {
        let rest = attempts.drop_first();
        if is_pause(attempts[0]) {
            assert(buffer + attempts[0].appended =~= buffer);
            law_pauses_change_nothing(buffer, rest);
            assert(delivered(buffer, attempts) =~= delivered(buffer, rest));
        } else {
            let step = pump_step(buffer + attempts[0].appended, attempts[0].outcome);
            let kept = without_pauses(attempts);
            law_pauses_change_nothing(step.0, rest);
            assert(kept[0] == attempts[0]);
            assert(kept.drop_first() =~= without_pauses(rest));
        }
    }
}

/// A pump loses nothing between its drains, nor at its end: it delivers what
/// one unbroken run of its attempts delivers, the drain at the poll that finds
/// the child ended included.
pub proof fn law_pump_reads_through(command: Seq<char>, buffer: Seq<char>, polls: Seq<Poll>)
    ensures
        pumped(command, buffer, polls) == delivered(buffer, attempts_of(command, polls)),
    decreases polls.len(),
{
    if polls.len() > 0 {
        match poll_step(command, polls[0].status) {
            PollModel::Drain => {
                let here = polls[0].attempts;
                law_pump_reads_through(command, left_over(buffer, here), polls.drop_first());
                lemma_delivered_in_turn(buffer, here, attempts_of(command, polls.drop_first()));
            },
            PollModel::Finish(_) => {},
        }
    }
}

/// Where the attempts of a pump, those that bring nothing left aside, are the
/// arrivals of `lines`, each whole, the pump delivers every one of them, in
/// order and without its ending, before it returns the child's result.
pub proof fn law_pump_delivers_all(command: Seq<char>, polls: Seq<Poll>, lines: Seq<Seq<char>>)
    requires
        without_pauses(attempts_of(command, polls)) == whole_lines(lines),
    ensures
        pumped(command, Seq::empty(), polls) == Seq::new(
            lines.len(),
            |i: int| strip_cr(lines[i]),
        ),
{
    law_pump_reads_through(command, Seq::empty(), polls);
    law_pauses_change_nothing(Seq::empty(), attempts_of(command, polls));
    law_whole_lines(lines);
}

} // verus!
