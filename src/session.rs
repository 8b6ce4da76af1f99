use vstd::prelude::*;

verus! {

/// The lifecycle of one sender session. `Stopped` is terminal.
#[derive(Clone, Copy, Debug, PartialEq, Eq, Structural)]
pub enum SessionState {
    Idle,
    Running,
    Stopping,
    Stopped,
}

/// An operator command, read from one line of input.
#[derive(Clone, Copy, Debug, PartialEq, Eq, Structural)]
pub enum Command {
    /// Show the list of commands.
    Help,
    /// Stop sending.
    Stop,
    /// Anything else: reported, and otherwise ignored.
    Unrecognized,
}

/// How the background emission context ended, as seen when it was joined.
#[derive(Clone, Copy, Debug, PartialEq, Eq, Structural)]
pub enum BackgroundExit {
    /// It observed the stop, or ran out of records, and returned.
    Clean,
    /// The per-record sink failed.
    SinkFailed,
    /// It terminated abnormally.
    Crashed,
}

/// What happens to a session.
#[derive(Clone, Copy, Debug, PartialEq, Eq, Structural)]
pub enum Event {
    /// The session is started.
    Start,
    /// The operator entered a line holding this command.
    Line(Command),
    /// The operator's input stream ended; taken as a stop.
    InputClosed,
    /// Reading the operator's input failed; taken as a stop, and reported.
    InputFailed,
    /// The background context was joined.
    Joined(BackgroundExit),
}

/// Why a session ended in error.
#[derive(Clone, Copy, Debug, PartialEq, Eq, Structural)]
pub enum SessionError {
    /// The background context terminated abnormally.
    SessionFault,
    /// The per-record sink failed during the replay.
    SchedulerFault,
    /// Reading the operator's input failed.
    InputFault,
}

/// What the session asks its surroundings to do next.
#[derive(Clone, Copy, Debug, PartialEq, Eq, Structural)]
pub enum Action {
    /// Start the background emission context.
    Spawn,
    /// Print the list of commands.
    ShowHelp,
    /// Report the line as an unrecognized command.
    ReportUnrecognized,
    /// Set the stop signal, then wait for the background context to exit.
    SignalStopAndJoin,
    /// The session is over and ended cleanly.
    Finish,
    /// The session is over and ended with this error.
    Fail(SessionError),
    /// Nothing to do: the event does not apply in this state.
    Ignore,
}

/// One sender session: its state, and whether reading input failed, which is
/// reported once the background context has been joined.
#[derive(Clone, Copy, Debug, PartialEq, Eq, Structural)]
pub struct Session {
    pub state: SessionState,
    pub input_failed: bool,
}

/// How a session ends once the background context is joined: an abnormal
/// exit is reported first, then a sink failure, then an input failure.
pub open spec fn ending(exit: BackgroundExit, input_failed: bool) -> Action {
    match exit {
        BackgroundExit::Crashed => Action::Fail(SessionError::SessionFault),
        BackgroundExit::SinkFailed => Action::Fail(SessionError::SchedulerFault),
        BackgroundExit::Clean => if input_failed {
            Action::Fail(SessionError::InputFault)
        } else {
            Action::Finish
        },
    }
}

/// The transition of session `s` on event `e`, and the action it asks for.
pub open spec fn transition(s: Session, e: Event) -> (Session, Action) {
    match (s.state, e) {
        (SessionState::Idle, Event::Start) => (
            Session { state: SessionState::Running, ..s },
            Action::Spawn,
        ),
        (SessionState::Running, Event::Line(Command::Help)) => (s, Action::ShowHelp),
        (SessionState::Running, Event::Line(Command::Unrecognized)) => (
            s,
            Action::ReportUnrecognized,
        ),
        (SessionState::Running, Event::Line(Command::Stop)) => (
            Session { state: SessionState::Stopping, ..s },
            Action::SignalStopAndJoin,
        ),
        (SessionState::Running, Event::InputClosed) => (
            Session { state: SessionState::Stopping, ..s },
            Action::SignalStopAndJoin,
        ),
        (SessionState::Running, Event::InputFailed) => (
            Session { state: SessionState::Stopping, input_failed: true },
            Action::SignalStopAndJoin,
        ),
        (SessionState::Stopping, Event::Joined(exit)) => (
            Session { state: SessionState::Stopped, ..s },
            ending(exit, s.input_failed),
        ),
        _ => (s, Action::Ignore),
    }
}

/// The actions that session `s` asks for over the events `es`, in order, and
/// the session it is left as.
pub open spec fn replay(s: Session, es: Seq<Event>) -> (Seq<Action>, Session)
    decreases es.len(),
{
    if es.len() == 0 {
        (Seq::empty(), s)
    } else {
        let (s2, a) = transition(s, es[0]);
        let (rest, last) = replay(s2, es.drop_first());
        (seq![a].add(rest), last)
    }
}

/// How many times the actions `acts` set the stop signal.
pub open spec fn stop_signals(acts: Seq<Action>) -> nat
    decreases acts.len(),
{
    if acts.len() == 0 {
        0
    } else {
        (if acts[0] == Action::SignalStopAndJoin { 1nat } else { 0nat }) + stop_signals(
            acts.drop_first(),
        )
    }
}

/// The command that a line reads as, once trimmed to `t`.
pub open spec fn command_of(t: Seq<char>) -> Command {
    if t == "help"@ {
        Command::Help
    } else if t == "stop"@ {
        Command::Stop
    } else {
        Command::Unrecognized
    }
}

/// The text that `str::trim` leaves of `s`.
pub uninterp spec fn trimmed_of(s: Seq<char>) -> Seq<char>;

/// Relies on `str::trim`: the line without its leading and trailing white
/// space, which depends on the characters alone.
#[verifier::external_body]
fn trim_line(line: &str) -> (r: &str)
    ensures
        r@ == trimmed_of(line@),
{
    line.trim()
}

fn same_text(a: &str, b: &str) -> (r: bool)
    ensures
        r == (a@ == b@),
{
    let n = a.unicode_len();
    if n != b.unicode_len() {
        return false;
    }
    let mut i: usize = 0;
    while i < n
        invariant
            n == a@.len(),
            n == b@.len(),
            i <= n,
            forall|j: int| 0 <= j < i ==> a@[j] == b@[j],
        decreases n - i,
    {
        if a.get_char(i) != b.get_char(i) {
            return false;
        }
        i = i + 1;
    }
    assert(a@ =~= b@);
    true
}

/// Reads an already trimmed line as a command: `help` and `stop` exactly,
/// anything else unrecognized.
pub fn classify_trimmed(t: &str) -> (c: Command)
    ensures
        c == command_of(t@),
{
    if same_text(t, "help") {
        Command::Help
    } else if same_text(t, "stop") {
        Command::Stop
    } else {
        Command::Unrecognized
    }
}

/// Reads one line of operator input as a command, ignoring surrounding white
/// space.
pub fn parse_command(line: &str) -> (c: Command)
    ensures
        c == command_of(trimmed_of(line@)),
{
    classify_trimmed(trim_line(line))
}

impl Session {
    /// A session that has not started.
    pub fn new() -> (s: Session)
        ensures
            s.state == SessionState::Idle,
            !s.input_failed,
    {
        Session { state: SessionState::Idle, input_failed: false }
    }

    /// Whether the session has reached its terminal state.
    pub fn is_stopped(&self) -> (r: bool)
        ensures
            r == (self.state == SessionState::Stopped),
    {
        self.state == SessionState::Stopped
    }

    /// Applies one event and returns the action it asks for.
    pub fn handle(&mut self, e: Event) -> (a: Action)
        ensures
            (*final(self), a) == transition(*old(self), e),
    {
        match (self.state, e) {
            (SessionState::Idle, Event::Start) => {
                self.state = SessionState::Running;
                Action::Spawn
            },
            (SessionState::Running, Event::Line(Command::Help)) => Action::ShowHelp,
            (SessionState::Running, Event::Line(Command::Unrecognized)) => {
                Action::ReportUnrecognized
            },
            (SessionState::Running, Event::Line(Command::Stop)) | (
                SessionState::Running,
                Event::InputClosed,
            ) => {
                self.state = SessionState::Stopping;
                Action::SignalStopAndJoin
            },
            (SessionState::Running, Event::InputFailed) => {
                self.state = SessionState::Stopping;
                self.input_failed = true;
                Action::SignalStopAndJoin
            },
            (SessionState::Stopping, Event::Joined(exit)) => {
                self.state = SessionState::Stopped;
                match exit {
                    BackgroundExit::Crashed => Action::Fail(SessionError::SessionFault),
                    BackgroundExit::SinkFailed => Action::Fail(SessionError::SchedulerFault),
                    BackgroundExit::Clean => if self.input_failed {
                        Action::Fail(SessionError::InputFault)
                    } else {
                        Action::Finish
                    },
                }
            },
            _ => Action::Ignore,
        }
    }
}

/// Once stopped, a session stays stopped and asks for nothing more, whatever
/// events follow.
pub proof fn lemma_stopped_is_terminal(s: Session, es: Seq<Event>)
    requires
        s.state == SessionState::Stopped,
    ensures
        replay(s, es).1 == s,
        forall|i: int| 0 <= i < es.len() ==> #[trigger] replay(s, es).0[i] == Action::Ignore,
        replay(s, es).0.len() == es.len(),
    decreases es.len(),
{
    if es.len() > 0 {
        lemma_stopped_is_terminal(s, es.drop_first());
        let acts = replay(s, es).0;
        assert forall|i: int| 0 <= i < es.len() implies #[trigger] acts[i] == Action::Ignore by {
            if i > 0 {
                assert(acts[i] == replay(s, es.drop_first()).0[i - 1]);
            }
        }
    }
}

/// Over any events, a session sets the stop signal at most once, and never
/// after it has left `Running`.
pub proof fn lemma_stop_signalled_at_most_once(s: Session, es: Seq<Event>)
    ensures
        stop_signals(replay(s, es).0) <= 1,
        (s.state == SessionState::Stopping || s.state == SessionState::Stopped) ==> stop_signals(
            replay(s, es).0,
        ) == 0,
    decreases es.len(),
{
    if es.len() > 0 {
        let (s2, a) = transition(s, es[0]);
        lemma_stop_signalled_at_most_once(s2, es.drop_first());
        let acts = replay(s, es).0;
        assert(acts.drop_first() =~= replay(s2, es.drop_first()).0);
    }
}

/// A session reaches `Stopped` only from `Stopping`, when the background
/// context has been joined: no emission outlives the session.
pub proof fn lemma_stopped_only_after_join(s: Session, e: Event)
    requires
        s.state != SessionState::Stopped,
        transition(s, e).0.state == SessionState::Stopped,
    ensures
        s.state == SessionState::Stopping,
        e is Joined,
{
}

} // verus!
