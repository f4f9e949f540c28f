use anticipate::log::NoopLogWriter;
use anticipate::needle::Eof;
use anticipate::session::Session;
use anticipate::stream::{EchoStream, StaticProcess, StaticStream};
use anticipate::Error;

type EchoSession = Session<NoopLogWriter, StaticProcess, EchoStream>;
type StaticSession = Session<NoopLogWriter, StaticProcess, StaticStream>;

fn echo_session() -> EchoSession {
    Session::new(StaticProcess { alive: true }, EchoStream::new(), None, None)
}

fn cursor_session(data: &[u8]) -> StaticSession {
    Session::new(
        StaticProcess { alive: true },
        StaticStream::new(data.to_vec(), true),
        None,
        None,
    )
}

#[test]
fn test_expect_lazy() {
    let mut stream = cursor_session(b"Hello World");
    let found = stream.expect_lazy("World").unwrap();
    assert_eq!(b"Hello ", found.before());
    assert_eq!(found.get(0).unwrap(), b"World");
}

#[test]
fn test_expect_lazy_eof() {
    let mut stream = cursor_session(b"Hello World");
    let found = stream.expect_lazy(Eof).unwrap();
    assert_eq!(b"", found.before());
    assert_eq!(found.get(0).unwrap(), b"Hello World");

    let mut stream = cursor_session(b"");
    let found = stream.expect_lazy("").unwrap();
    assert_eq!(found.match_count(), 1);
    assert_eq!(found.before(), b"");
}

#[test]
fn test_expect_lazy_timeout() {
    let mut stream = echo_session();
    stream.set_expect_timeout(Some(100));

    stream.send(b"Hello").unwrap();

    let err = stream.expect_lazy("Hello World").unwrap_err();
    assert!(matches!(err, Error::ExpectTimeout(_, _)));

    stream.send(b" World").unwrap();
    let found = stream.expect_lazy("World").unwrap();
    assert_eq!(b"Hello ", found.before());
    assert_eq!(found.get(0).unwrap(), b"World");
}

#[test]
fn test_expect_gready() {
    let mut stream = cursor_session(b"Hello World");
    let found = stream.expect_gready("World").unwrap();
    assert_eq!(b"Hello ", found.before());
    assert_eq!(found.get(0).unwrap(), b"World");
}

#[test]
fn test_expect_gready_eof() {
    let mut stream = cursor_session(b"Hello World");
    let found = stream.expect_gready(Eof).unwrap();
    assert_eq!(b"", found.before());
    assert_eq!(found.get(0).unwrap(), b"Hello World");

    let mut stream = cursor_session(b"");
    let found = stream.expect_gready("").unwrap();
    assert_eq!(found.match_count(), 1);
    assert_eq!(found.before(), b"");
}

#[test]
fn test_expect_gready_timeout() {
    let mut stream = echo_session();
    stream.set_expect_timeout(Some(100));

    stream.send(b"Hello").unwrap();

    let err = stream.expect_gready("Hello World").unwrap_err();
    assert!(matches!(err, Error::ExpectTimeout(_, _)));

    stream.send(b" World").unwrap();
    let found = stream.expect_gready("World").unwrap();
    assert_eq!(b"Hello ", found.before());
    assert_eq!(found.get(0).unwrap(), b"World");
}

#[test]
fn test_check() {
    let mut stream = cursor_session(b"Hello World");
    let found = stream.check("World").unwrap();
    assert_eq!(b"Hello ", found.before());
    assert_eq!(found.get(0).unwrap(), b"World");
}

#[test]
fn test_is_matched() {
    let mut stream = echo_session();
    stream.send(b"Hello World").unwrap();
    assert!(stream.is_matched("World").unwrap());
    assert!(!stream.is_matched("*****").unwrap());

    let found = stream.check("World").unwrap();
    assert_eq!(b"Hello ", found.before());
    assert_eq!(found.get(0).unwrap(), b"World");
}
