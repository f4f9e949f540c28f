use anticipate::log::NoopLogWriter;
use anticipate::needle::{Any, Eof, NBytes, Regex};
use anticipate::session::Session;
use anticipate::stream::{EchoStream, StaticProcess, StaticStream};
use anticipate::Error;

type EchoSession = Session<NoopLogWriter, StaticProcess, EchoStream>;
type StaticSession = Session<NoopLogWriter, StaticProcess, StaticStream>;

fn echo_session() -> EchoSession {
    Session::new(StaticProcess { alive: true }, EchoStream::new(), None, None)
}

fn static_session(data: &[u8], close_at_end: bool) -> StaticSession {
    Session::new(
        StaticProcess { alive: true },
        StaticStream::new(data.to_vec(), close_at_end),
        None,
        None,
    )
}

#[test]
fn expect_str() {
    let mut session = echo_session();
    session.send_line(b"Hello World").unwrap();
    session.expect("Hello World").unwrap();
}

#[test]
fn expect_regex() {
    let mut session = echo_session();
    session.send_line(b"Hello World").unwrap();
    let m = session.expect(Regex("lo.*")).unwrap();
    assert_eq!(m.before(), b"Hel");
    assert_eq!(m.get(0).unwrap(), b"lo World\r");
}

#[test]
fn expect_regex_lazy() {
    let mut session = echo_session();
    session.set_expect_lazy(true);
    session.send_line(b"Hello World").unwrap();
    let m = session.expect(Regex("lo.*")).unwrap();
    assert_eq!(m.before(), b"Hel");
    assert_eq!(m.get(0).unwrap(), b"lo");
}

#[test]
fn expect_n_bytes() {
    let mut session = echo_session();
    session.send_line(b"Hello World").unwrap();
    let m = session.expect(NBytes(3)).unwrap();
    assert_eq!(m.get(0).unwrap(), b"Hel");
    assert_eq!(m.before(), b"");
}

#[test]
fn expect_eof() {
    let mut session = static_session(b"'Hello World'\r\n", true);
    session.set_expect_timeout(None);
    let m = session.expect(Eof).unwrap();
    assert_eq!(m.get(0).unwrap(), b"'Hello World'\r\n");
    assert_eq!(m.before(), b"");
}

#[test]
fn read_after_expect_str() {
    let mut session = echo_session();
    session.send_line(b"Hello World").unwrap();
    session.expect("Hello").unwrap();

    let buf = session.try_read(6).unwrap();
    assert_eq!(buf.as_slice(), b" World");
}

#[test]
fn expect_eof_timeout() {
    let mut p = static_session(b"", false);
    p.set_expect_timeout(Some(100));
    match p.expect(Eof) {
        Err(Error::ExpectTimeout(_, _)) => {}
        r => panic!("reached a timeout {r:?}"),
    }
}

#[test]
fn echo_round_trip() {
    let mut session = echo_session();
    session.send_line(b"Hello World").unwrap();
    let m = session.expect("Hello World").unwrap();
    assert_eq!(m.before(), b"");
    let rest = session.try_read(6).unwrap();
    assert_eq!(rest.as_slice(), b"\r\n");
}

#[test]
fn eager_and_lazy_digits() {
    let mut session = static_session(b"123", false);
    let m = session.expect(Regex("\\d+")).unwrap();
    assert_eq!(m.get(0).unwrap(), b"123");

    let mut session = static_session(b"123", false);
    session.set_expect_lazy(true);
    let m = session.expect(Regex("\\d+")).unwrap();
    assert_eq!(m.get(0).unwrap(), b"1");
}

#[test]
fn timeout_names_the_needle() {
    let mut session = static_session(b"", false);
    session.set_expect_timeout(Some(100));
    match session.expect(Eof) {
        Err(Error::ExpectTimeout(ms, desc)) => {
            assert_eq!(ms, 100);
            assert_eq!(desc, "Eof");
        }
        r => panic!("expected a timeout, got {r:?}"),
    }
}

#[test]
fn control_code_ends_the_session() {
    let mut session = echo_session();
    session.send_line(b"Hello").unwrap();
    session.expect("Hello").unwrap();
    let etx = anticipate::control::control_byte("ETX").unwrap();
    session.send(&[etx]).unwrap();
    session.expect(Eof).unwrap();
}

#[test]
fn invalid_regex_is_reported() {
    let mut session = static_session(b"abc", false);
    match session.expect(Regex("(")) {
        Err(Error::RegexParsing) => {}
        r => panic!("expected a pattern failure, got {r:?}"),
    }
}

#[test]
fn any_unites_needles() {
    let mut session = static_session(b"abc def", false);
    let m = session.expect(Any(vec!["def", "abc"])).unwrap();
    assert_eq!(m.get(0).unwrap(), b"def");
    assert_eq!(m.get(1).unwrap(), b"abc");
    assert_eq!(m.before(), b"abc ");
}

#[test]
fn empty_literal_matches_at_once() {
    let mut session = static_session(b"", true);
    let m = session.expect("").unwrap();
    assert_eq!(m.before(), b"");
    assert_eq!(m.match_count(), 1);
}
