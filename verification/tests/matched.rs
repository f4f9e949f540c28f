use anticipate::log::NoopLogWriter;
use anticipate::needle::{Eof, NBytes, Regex};
use anticipate::session::Session;
use anticipate::stream::{EchoStream, StaticProcess, StaticStream};
use anticipate::Error;

type EchoSession = Session<NoopLogWriter, StaticProcess, EchoStream>;
type StaticSession = Session<NoopLogWriter, StaticProcess, StaticStream>;

fn echo_session() -> EchoSession {
    Session::new(StaticProcess { alive: true }, EchoStream::new(), None, None)
}

fn static_session(data: &[u8], close_at_end: bool) -> StaticSession {
    Session::new(
        StaticProcess { alive: true },
        StaticStream::new(data.to_vec(), close_at_end),
        None,
        None,
    )
}

#[test]
fn is_matched_str() {
    let mut session = echo_session();
    session.send_line(b"Hello World").unwrap();
    assert!(session.is_matched("Hello World").unwrap());
}

#[test]
fn is_matched_regex() {
    let mut session = echo_session();
    session.send_line(b"Hello World").unwrap();

    assert!(session.is_matched(Regex("lo.*")).unwrap());
}

#[test]
fn is_matched_bytes() {
    let mut session = echo_session();
    session.send_line(b"Hello World").unwrap();

    assert!(session.is_matched(NBytes(3)).unwrap());
}

#[test]
fn is_matched_eof() {
    let mut session = static_session(b"'Hello World'\r\n", true);

    assert!(session.is_matched(Eof).unwrap());
}

#[test]
fn read_after_is_matched() {
    let mut session = echo_session();
    session.send_line(b"Hello World").unwrap();

    assert!(session.is_matched("Hello").unwrap());

    let buf = session.try_read(128).unwrap();
    assert_eq!(buf.as_slice(), b"Hello World\r\n");
}

#[test]
fn check_after_is_matched_eof() {
    let mut p = static_session(b"AfterSleep\r\n", true);
    assert!(p.is_matched(Eof).unwrap());

    let m = p.check(Eof).unwrap();

    assert_eq!(m.get(0).unwrap(), b"AfterSleep\r\n");
}

#[test]
fn expect_after_is_matched_eof() {
    let mut p = static_session(b"AfterSleep\r\n", true);
    assert!(p.is_matched(Eof).unwrap());

    let m = p.expect(Eof).unwrap();

    assert_eq!(m.get(0).unwrap(), b"AfterSleep\r\n");

    let empty = p.expect("").unwrap();
    assert_eq!(empty.match_count(), 1);
    assert_eq!(empty.before(), b"");
}

#[test]
fn is_matched_false_without_match() {
    let mut session = echo_session();
    session.send_line(b"Hello World").unwrap();
    assert!(!session.is_matched("*****").unwrap());
}

#[test]
fn eof_error_after_everything_was_consumed() {
    let mut p = static_session(b"x", true);
    let m = p.expect(Eof).unwrap();
    assert_eq!(m.get(0).unwrap(), b"x");
    match p.expect("nothing") {
        Err(Error::Eof) => {}
        r => panic!("expected the stream end, got {r:?}"),
    }
}
