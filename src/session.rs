use vstd::prelude::*;

use crate::grammar::{line_record, sentinel};
use crate::msg::{MessageModel, MessageRecord, Record, RecordModel, ResultClass};
use crate::parser::parse_line;

verus! {

/// Relies on `std::io::Error` only as a value that is carried to the caller.
#[verifier::external_type_specification]
#[verifier::external_body]
pub struct ExIoError(std::io::Error);

/// Why talking to the debugger failed.
#[derive(Debug)]
pub enum Error {
    /// Reading or writing a pipe failed, or the debugger closed its output.
    IOError(std::io::Error),
    /// A line of output was of no known shape.
    ParseError,
    /// The debugger's output did not answer what was asked of it.
    IgnoredOutput,
}

/// Where a session stands between two lines of output.
#[derive(Debug, PartialEq, Eq, Structural, Clone, Copy)]
pub enum SessionState {
    /// The startup banner is being drained.
    Starting,
    /// No command is in flight.
    Idle,
    /// A command was written and its result has not been handed out yet.
    AwaitingResult,
}

/// What the driver does after a line was handed to the session.
#[derive(Debug)]
pub enum Step {
    /// Read one more line.
    ReadLine,
    /// The startup banner is drained; commands may be sent.
    Ready,
    /// The command's result: the first result record of its output.
    Reply(MessageRecord<ResultClass>),
    /// A line of no known shape; the command or the startup failed.
    Failed(Error),
}

/// The decisions of a debugger session: which lines end a burst, which record
/// answers a command, and when a command may be sent. The reading and writing
/// are done by the caller, who hands each line read to `on_line`.
pub struct Session {
    state: SessionState,
    pending: Option<MessageRecord<ResultClass>>,
}

pub struct SessionModel {
    pub state: SessionState,
    pub pending: Option<MessageModel<ResultClass>>,
}

pub enum StepModel {
    ReadLine,
    Ready,
    Reply(MessageModel<ResultClass>),
    Failed,
}

pub open spec fn pending_model(p: Option<MessageRecord<ResultClass>>) -> Option<
    MessageModel<ResultClass>,
> {
    match p {
        Some(m) => Some(m@),
        None => None,
    }
}

impl View for Session {
    type V = SessionModel;

    closed spec fn view(&self) -> SessionModel {
        SessionModel { state: self.state, pending: pending_model(self.pending) }
    }
}

impl View for Step {
    type V = StepModel;

    open spec fn view(&self) -> StepModel {
        match self {
            Step::ReadLine => StepModel::ReadLine,
            Step::Ready => StepModel::Ready,
            Step::Reply(m) => StepModel::Reply(m@),
            Step::Failed(_) => StepModel::Failed,
        }
    }
}

pub open spec fn idle() -> SessionModel {
    SessionModel { state: SessionState::Idle, pending: None }
}

/// One line of output read while `st` stood: the next state and what to do.
/// The sentinel ends a burst; while a command is in flight the first result
/// record is kept and every other record is dropped; a line that is no record
/// fails the burst.
pub open spec fn next(st: SessionModel, line: Seq<char>) -> (SessionModel, StepModel) {
    if line == sentinel() {
        match st.state {
            SessionState::Starting => (idle(), StepModel::Ready),
            SessionState::AwaitingResult => match st.pending {
                Some(m) => (idle(), StepModel::Reply(m)),
                None => (st, StepModel::ReadLine),
            },
            SessionState::Idle => (st, StepModel::ReadLine),
        }
    } else {
        match line_record(line) {
            None => (idle(), StepModel::Failed),
            Some(RecordModel::Result(m)) => if st.state == SessionState::AwaitingResult
                && st.pending is None {
                (SessionModel { state: st.state, pending: Some(m) }, StepModel::ReadLine)
            } else {
                (st, StepModel::ReadLine)
            },
            Some(_) => (st, StepModel::ReadLine),
        }
    }
}

/// A command line as written: `cmd`, with a newline added if it has none.
pub open spec fn with_newline(cmd: Seq<char>) -> Seq<char> {
    if cmd.len() > 0 && cmd.last() == '\n' {
        cmd
    } else {
        cmd + "\n"@
    }
}

impl Session {
    /// A session whose startup banner is still to be read.
    pub fn new() -> (r: Session)
        ensures
            r@.state == SessionState::Starting,
            r@.pending is None,
    {
        Session { state: SessionState::Starting, pending: None }
    }

    pub fn state(&self) -> (r: SessionState)
        ensures
            r == self@.state,
    {
        self.state
    }

    /// Starts a command: returns the line to write, and awaits its result.
    pub fn command_line(&mut self, cmd: &str) -> (r: String)
        requires
            old(self)@.state == SessionState::Idle,
        ensures
            r@ == with_newline(cmd@),
            final(self)@.state == SessionState::AwaitingResult,
            final(self)@.pending is None,
    {
        self.state = SessionState::AwaitingResult;
        self.pending = None;
        let mut out = String::from_str(cmd);
        let n = cmd.unicode_len();
        if n > 0 && cmd.get_char(n - 1) == '\n' {
            out
        } else {
            out.append("\n");
            out
        }
    }

    /// Hands the session one line that was read; says what to do next.
    pub fn on_line(&mut self, line: &str) -> (r: Step)
        requires
            old(self)@.state != SessionState::Idle,
        ensures
            (final(self)@, r@) == next(old(self)@, line@),
            r matches Step::Failed(e) ==> e is ParseError,
    {
        if String::from_str(line) == String::from_str("(gdb) \n") {
            match self.state {
                SessionState::Starting => {
                    self.state = SessionState::Idle;
                    self.pending = None;
                    Step::Ready
                },
                _ => {
                    match self.pending.take() {
                        Some(m) => {
                            self.state = SessionState::Idle;
                            Step::Reply(m)
                        },
                        None => Step::ReadLine,
                    }
                },
            }
        } else {
            match parse_line(line) {
                Err(e) => {
                    self.state = SessionState::Idle;
                    self.pending = None;
                    Step::Failed(e)
                },
                Ok(Record::Result(m)) => {
                    if self.state == SessionState::AwaitingResult && self.pending.is_none() {
                        self.pending = Some(m);
                    }
                    Step::ReadLine
                },
                Ok(_) => Step::ReadLine,
            }
        }
    }

    /// The exchange in progress was broken off (its input or output failed):
    /// no command is in flight any more.
    pub fn abort(&mut self)
        ensures
            final(self)@ == idle(),
    {
        self.state = SessionState::Idle;
        self.pending = None;
    }
}

// ---------------------------------------------------------------------------
// Bursts
// ---------------------------------------------------------------------------

pub open spec fn awaiting() -> SessionModel {
    SessionModel { state: SessionState::AwaitingResult, pending: None }
}

/// Hands `lines` to the session one by one, from `st`, until a step other
/// than reading one more line comes; the lines after that one are not read.
pub open spec fn run(st: SessionModel, lines: Seq<Seq<char>>) -> (SessionModel, StepModel)
    decreases lines.len(),
{
    if lines.len() == 0 {
        (st, StepModel::ReadLine)
    } else {
        let (st2, step) = next(st, lines[0]);
        if step is ReadLine {
            run(st2, lines.subrange(1, lines.len() as int))
        } else {
            (st2, step)
        }
    }
}

/// The first result record among `lines`.
pub open spec fn first_result(lines: Seq<Seq<char>>) -> Option<MessageModel<ResultClass>>
    decreases lines.len(),
{
    if lines.len() == 0 {
        None
    } else {
        match line_record(lines[0]) {
            Some(RecordModel::Result(m)) => Some(m),
            _ => first_result(lines.subrange(1, lines.len() as int)),
        }
    }
}

/// Lines that each hold a record, none of them the sentinel.
pub open spec fn is_burst(lines: Seq<Seq<char>>) -> bool {
    forall|k: int| 0 <= k < lines.len() ==> lines[k] != sentinel() && (#[trigger] line_record(
        lines[k],
    )) is Some
}

proof fn lemma_burst_from(st: SessionModel, burst: Seq<Seq<char>>, after: Seq<Seq<char>>)
    requires
        st.state == SessionState::AwaitingResult,
        is_burst(burst),
        st.pending is Some || first_result(burst) is Some,
    ensures
        run(st, burst + seq![sentinel()] + after) == (
        idle(),
        StepModel::Reply(
            if st.pending is Some {
                st.pending->0
            } else {
                first_result(burst)->0
            },
        ),
        ),
    decreases burst.len(),
{
    let lines = burst + seq![sentinel()] + after;
    if burst.len() == 0 {
        assert(lines[0] == sentinel());
    } else {
        assert(lines[0] == burst[0]);
        assert(line_record(burst[0]) is Some);
        let st2 = next(st, burst[0]).0;
        let rest = burst.subrange(1, burst.len() as int);
        assert(lines.subrange(1, lines.len() as int) =~= rest + seq![sentinel()] + after);
        assert forall|k: int| 0 <= k < rest.len() implies rest[k] != sentinel() && (
        #[trigger] line_record(rest[k])) is Some by {
            assert(rest[k] == burst[k + 1]);
            assert(line_record(burst[k + 1]) is Some);
        }
        lemma_burst_from(st2, rest, after);
    }
}

/// While a command is in flight, a burst of records and the sentinel that
/// closes it answer the command with the first result record of the burst:
/// the asynchronous and stream records around it are dropped, and nothing
/// after the sentinel is read.
pub proof fn lemma_reply_is_first_result(burst: Seq<Seq<char>>, after: Seq<Seq<char>>)
    requires
        is_burst(burst),
        first_result(burst) is Some,
    ensures
        run(awaiting(), burst + seq![sentinel()] + after) == (
        idle(),
        StepModel::Reply(first_result(burst)->0),
        ),
{
    lemma_burst_from(awaiting(), burst, after);
}

pub open spec fn starting() -> SessionModel {
    SessionModel { state: SessionState::Starting, pending: None }
}

/// Before its first command a session drains the startup banner: a burst of
/// records and the sentinel that closes it make the session ready, whatever
/// the records were, and nothing after the sentinel is read.
pub proof fn lemma_banner_drained(burst: Seq<Seq<char>>, after: Seq<Seq<char>>)
    requires
        is_burst(burst),
    ensures
        run(starting(), burst + seq![sentinel()] + after) == (idle(), StepModel::Ready),
    decreases burst.len(),
{
    let lines = burst + seq![sentinel()] + after;
    if burst.len() == 0 {
        assert(lines[0] == sentinel());
    } else {
        assert(lines[0] == burst[0]);
        assert(line_record(burst[0]) is Some);
        let rest = burst.subrange(1, burst.len() as int);
        assert(lines.subrange(1, lines.len() as int) =~= rest + seq![sentinel()] + after);
        assert forall|k: int| 0 <= k < rest.len() implies rest[k] != sentinel() && (
        #[trigger] line_record(rest[k])) is Some by {
            assert(rest[k] == burst[k + 1]);
            assert(line_record(burst[k + 1]) is Some);
        }
        lemma_banner_drained(rest, after);
    }
}

/// A line that holds no record fails the command in flight, whatever records
/// came before it in the burst; the session is left with no command in
/// flight, and the lines after the bad one are not read.
pub proof fn lemma_bad_line_fails(
    st: SessionModel,
    burst: Seq<Seq<char>>,
    bad: Seq<char>,
    after: Seq<Seq<char>>,
)
    requires
        st.state == SessionState::AwaitingResult,
        is_burst(burst),
        bad != sentinel(),
        line_record(bad) is None,
    ensures
        run(st, burst + seq![bad] + after) == (idle(), StepModel::Failed),
    decreases burst.len(),
{
    let lines = burst + seq![bad] + after;
    if burst.len() == 0 {
        assert(lines[0] == bad);
    } else {
        assert(lines[0] == burst[0]);
        assert(line_record(burst[0]) is Some);
        let rest = burst.subrange(1, burst.len() as int);
        assert(lines.subrange(1, lines.len() as int) =~= rest + seq![bad] + after);
        assert forall|k: int| 0 <= k < rest.len() implies rest[k] != sentinel() && (
        #[trigger] line_record(rest[k])) is Some by {
            assert(rest[k] == burst[k + 1]);
            assert(line_record(burst[k + 1]) is Some);
        }
        lemma_bad_line_fails(next(st, burst[0]).0, rest, bad, after);
    }
}

} // verus!
