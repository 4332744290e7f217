use gdb::session::{Error, Session, SessionState, Step};
use gdb::{MessageRecord, ResultClass, Value, Variable};

const PROMPT: &str = "(gdb) \n";

fn started() -> Session {
    let mut s = Session::new();
    assert_eq!(s.state(), SessionState::Starting);
    assert!(matches!(s.on_line("=thread-group-added,id=\"i1\"\n"), Step::ReadLine));
    assert!(matches!(s.on_line("~\"GNU gdb 12\\n\"\n"), Step::ReadLine));
    assert!(matches!(s.on_line(PROMPT), Step::Ready));
    assert_eq!(s.state(), SessionState::Idle);
    s
}

fn reply(step: Step) -> MessageRecord<ResultClass> {
    match step {
        Step::Reply(m) => m,
        other => panic!("expected a reply, got {:?}", other),
    }
}

#[test]
fn startup_banner_is_drained() {
    started();
}

#[test]
fn startup_fails_on_a_bad_line() {
    let mut s = Session::new();
    assert!(matches!(s.on_line("garbage\n"), Step::Failed(Error::ParseError)));
    assert_eq!(s.state(), SessionState::Idle);
}

#[test]
fn command_gets_a_newline() {
    let mut s = started();
    assert_eq!(s.command_line("-break-info"), "-break-info\n");
    assert_eq!(s.state(), SessionState::AwaitingResult);
    let mut t = started();
    assert_eq!(t.command_line("-break-info\n"), "-break-info\n");
    let mut u = started();
    assert_eq!(u.command_line(""), "\n");
}

#[test]
fn sentinel_ends_the_burst() {
    let mut s = started();
    s.command_line("-exec-next");
    assert!(matches!(s.on_line("^done\n"), Step::ReadLine));
    let m = reply(s.on_line(PROMPT));
    assert_eq!(m.class, ResultClass::Done);
    assert!(m.content.is_empty());
    assert_eq!(s.state(), SessionState::Idle);
}

#[test]
fn send_break_info() {
    let mut s = started();
    assert_eq!(s.command_line("-break-info\n"), "-break-info\n");
    assert!(matches!(s.on_line("^done,bkpt=[]\n"), Step::ReadLine));
    let m = reply(s.on_line(PROMPT));
    assert_eq!(m.class, ResultClass::Done);
    assert_eq!(
        m.content,
        vec![Variable { name: "bkpt".to_string(), value: Value::ValueList(vec![]) }]
    );
}

#[test]
fn async_records_are_dropped_while_awaiting() {
    let mut s = started();
    s.command_line("-exec-continue");
    assert!(matches!(s.on_line("*stopped,reason=\"breakpoint-hit\"\n"), Step::ReadLine));
    assert!(matches!(s.on_line("^done\n"), Step::ReadLine));
    let m = reply(s.on_line(PROMPT));
    assert_eq!(m.class, ResultClass::Done);
    assert!(m.content.is_empty());
}

#[test]
fn first_result_of_the_burst_wins() {
    let mut s = started();
    s.command_line("-exec-run");
    assert!(matches!(s.on_line("^running\n"), Step::ReadLine));
    assert!(matches!(s.on_line("^done\n"), Step::ReadLine));
    assert_eq!(reply(s.on_line(PROMPT)).class, ResultClass::Running);
}

#[test]
fn result_may_come_in_a_later_burst() {
    let mut s = started();
    s.command_line("-exec-continue");
    assert!(matches!(s.on_line("*running,thread-id=\"all\"\n"), Step::ReadLine));
    assert!(matches!(s.on_line(PROMPT), Step::ReadLine));
    assert_eq!(s.state(), SessionState::AwaitingResult);
    assert!(matches!(s.on_line("12^error,msg=\"x\"\n"), Step::ReadLine));
    let m = reply(s.on_line(PROMPT));
    assert_eq!(m.class, ResultClass::Error);
    assert_eq!(m.token, Some("12".to_string()));
}

#[test]
fn bad_line_fails_the_command() {
    let mut s = started();
    s.command_line("-break-info");
    assert!(matches!(s.on_line("^done\n"), Step::ReadLine));
    assert!(matches!(s.on_line("~\"abc\n"), Step::Failed(Error::ParseError)));
    assert_eq!(s.state(), SessionState::Idle);
    s.command_line("-break-info");
    assert!(matches!(s.on_line("^done\n"), Step::ReadLine));
    assert_eq!(reply(s.on_line(PROMPT)).class, ResultClass::Done);
}

#[test]
fn abort_leaves_the_session_idle() {
    let mut s = started();
    s.command_line("-break-info");
    assert!(matches!(s.on_line("^done\n"), Step::ReadLine));
    s.abort();
    assert_eq!(s.state(), SessionState::Idle);
}
