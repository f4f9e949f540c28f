use anticipate::log::NoopLogWriter;
use anticipate::repl::ReplSession;
use anticipate::session::Session;
use anticipate::stream::{EchoStream, StaticProcess};

type EchoRepl = ReplSession<NoopLogWriter, StaticProcess, EchoStream>;

fn echo_repl() -> EchoRepl {
    let session = Session::new(StaticProcess { alive: true }, EchoStream::new(), None, None);
    ReplSession::new(session, "\r\n".to_string(), Some("quit".to_string()), false)
}

#[test]
fn repl_accessors() {
    let mut repl = echo_repl();
    assert_eq!(repl.get_prompt(), "\r\n");
    assert_eq!(repl.get_quit_command(), Some("quit"));
    assert!(!repl.is_echo());
    repl.set_prompt("$ ".to_string());
    assert_eq!(repl.get_prompt(), "$ ");
}

#[test]
fn repl_execute_collects_output() {
    let mut repl = echo_repl();
    let out = repl.execute("ls").unwrap();
    assert_eq!(out.as_slice(), b"ls");
}

#[test]
fn repl_exit_sends_quit() {
    let mut repl = echo_repl();
    repl.exit().unwrap();
    let m = repl.session_mut().expect("quit").unwrap();
    assert_eq!(m.before(), b"");
}

#[test]
fn repl_into_session() {
    let repl = echo_repl();
    let mut session = repl.into_session();
    session.send_line(b"x").unwrap();
    session.expect("x").unwrap();
}
