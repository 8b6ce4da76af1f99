use radar_track::cadence::{Cadence, Outcome, Tick};
use radar_track::session::{
    classify_trimmed, parse_command, Action, BackgroundExit, Command, Event, Session,
    SessionError, SessionState,
};

#[test]
fn commands_are_read_from_trimmed_lines() {
    assert_eq!(parse_command("help"), Command::Help);
    assert_eq!(parse_command("  stop \n"), Command::Stop);
    assert_eq!(parse_command("\thelp\r\n"), Command::Help);
    assert_eq!(parse_command("Stop"), Command::Unrecognized);
    assert_eq!(parse_command("stop now"), Command::Unrecognized);
    assert_eq!(parse_command(""), Command::Unrecognized);
}

#[test]
fn classify_needs_the_exact_word() {
    assert_eq!(classify_trimmed("stop"), Command::Stop);
    assert_eq!(classify_trimmed("help"), Command::Help);
    assert_eq!(classify_trimmed(" stop"), Command::Unrecognized);
    assert_eq!(classify_trimmed("hel"), Command::Unrecognized);
}

#[test]
fn stop_right_after_start_emits_at_most_one_record() {
    let mut s = Session::new();
    assert_eq!(s.state, SessionState::Idle);
    assert_eq!(s.handle(Event::Start), Action::Spawn);
    assert_eq!(s.state, SessionState::Running);

    // The background may tick once before it sees the signal.
    let mut c = Cadence::new(10);
    let first = c.poll(false);
    assert_eq!(s.handle(Event::Line(Command::Stop)), Action::SignalStopAndJoin);
    assert_eq!(s.state, SessionState::Stopping);
    assert_eq!(first, Tick::Emit { index: 0, pause_after: true });
    assert_eq!(c.poll(true), Tick::Finish(Outcome::Stopped(1)));

    assert_eq!(s.handle(Event::Joined(BackgroundExit::Clean)), Action::Finish);
    assert!(s.is_stopped());
}

#[test]
fn help_keeps_running_until_stop() {
    let mut s = Session::new();
    s.handle(Event::Start);
    assert_eq!(s.handle(Event::Line(parse_command("help"))), Action::ShowHelp);
    assert_eq!(s.state, SessionState::Running);
    assert_eq!(s.handle(Event::Line(parse_command("stop"))), Action::SignalStopAndJoin);
    assert_eq!(s.state, SessionState::Stopping);
    assert_eq!(s.handle(Event::Joined(BackgroundExit::Clean)), Action::Finish);
    assert_eq!(s.state, SessionState::Stopped);
}

#[test]
fn unrecognized_input_is_reported_and_ignored() {
    let mut s = Session::new();
    s.handle(Event::Start);
    assert_eq!(s.handle(Event::Line(Command::Unrecognized)), Action::ReportUnrecognized);
    assert_eq!(s.state, SessionState::Running);
}

#[test]
fn closed_input_is_an_implicit_stop() {
    let mut s = Session::new();
    s.handle(Event::Start);
    assert_eq!(s.handle(Event::InputClosed), Action::SignalStopAndJoin);
    assert_eq!(s.handle(Event::Joined(BackgroundExit::Clean)), Action::Finish);
}

#[test]
fn input_failure_is_reported_after_join() {
    let mut s = Session::new();
    s.handle(Event::Start);
    assert_eq!(s.handle(Event::InputFailed), Action::SignalStopAndJoin);
    assert!(s.input_failed);
    assert_eq!(
        s.handle(Event::Joined(BackgroundExit::Clean)),
        Action::Fail(SessionError::InputFault)
    );
}

#[test]
fn background_failures_surface_at_join() {
    let mut s = Session::new();
    s.handle(Event::Start);
    s.handle(Event::Line(Command::Stop));
    assert_eq!(
        s.handle(Event::Joined(BackgroundExit::Crashed)),
        Action::Fail(SessionError::SessionFault)
    );

    let mut s = Session::new();
    s.handle(Event::Start);
    s.handle(Event::InputFailed);
    assert_eq!(
        s.handle(Event::Joined(BackgroundExit::SinkFailed)),
        Action::Fail(SessionError::SchedulerFault)
    );
}

#[test]
fn stopped_is_terminal() {
    let mut s = Session::new();
    s.handle(Event::Start);
    s.handle(Event::Line(Command::Stop));
    s.handle(Event::Joined(BackgroundExit::Clean));
    for e in [
        Event::Start,
        Event::Line(Command::Help),
        Event::Line(Command::Stop),
        Event::InputClosed,
        Event::Joined(BackgroundExit::Crashed),
    ] {
        assert_eq!(s.handle(e), Action::Ignore);
        assert_eq!(s.state, SessionState::Stopped);
    }
}

#[test]
fn stop_is_signalled_once() {
    let mut s = Session::new();
    s.handle(Event::Start);
    assert_eq!(s.handle(Event::Line(Command::Stop)), Action::SignalStopAndJoin);
    assert_eq!(s.handle(Event::Line(Command::Stop)), Action::Ignore);
    assert_eq!(s.handle(Event::InputClosed), Action::Ignore);
}

#[test]
fn events_before_start_are_ignored() {
    let mut s = Session::new();
    assert_eq!(s.handle(Event::Line(Command::Stop)), Action::Ignore);
    assert_eq!(s.handle(Event::Joined(BackgroundExit::Clean)), Action::Ignore);
    assert_eq!(s.state, SessionState::Idle);
}
