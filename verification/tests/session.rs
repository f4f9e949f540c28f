use anticipate::log::{NoopLogWriter, PrefixLogWriter, Sink};
use anticipate::session::Session;
use anticipate::stream::{EchoStream, StaticProcess};

type EchoSession = Session<NoopLogWriter, StaticProcess, EchoStream>;

fn echo_session() -> EchoSession {
    Session::new(StaticProcess { alive: true }, EchoStream::new(), None, None)
}

#[test]
fn send() {
    let mut session = echo_session();
    session.send(b"Hello World").unwrap();

    session.send(&[3]).unwrap();
    session.flush().unwrap();

    let mut buf: Vec<u8> = Vec::new();
    while let Ok(chunk) = session.try_read(128) {
        if chunk.is_empty() {
            break;
        }
        buf.extend_from_slice(&chunk);
    }
    assert_eq!(buf, b"");
}

#[test]
fn send_multiline() {
    let mut session = echo_session();
    session.send(b"Hello World\n").unwrap();

    let m = session.expect('\n').unwrap();
    let buf = String::from_utf8_lossy(m.before());

    assert_eq!(buf, "Hello World\r");
}

#[test]
fn send_line() {
    let mut session = echo_session();
    session.send_line(b"Hello World").unwrap();

    let m = session.expect('\n').unwrap();
    let buf = String::from_utf8_lossy(m.before());

    assert_eq!(buf, "Hello World\r");
}

#[test]
fn is_alive_answers() {
    let mut session = echo_session();
    assert!(session.is_alive().unwrap());
}

#[test]
fn is_empty_sees_pending_echo() {
    let mut session = echo_session();
    assert!(session.is_empty().unwrap());
    session.send_line(b"hi").unwrap();
    assert!(!session.is_empty().unwrap());
}

#[test]
fn log_mirrors_traffic() {
    let logger = PrefixLogWriter::new(Sink::Memory(Vec::new()));
    let mut session: Session<PrefixLogWriter, StaticProcess, EchoStream> =
        Session::new(StaticProcess { alive: true }, EchoStream::new(), Some(logger), None);

    session.send_line(b"Hello World").unwrap();
    session.expect("Hello World").unwrap();

    let logger = session.get_logger().as_ref().unwrap();
    let bytes = logger.memory_bytes().unwrap();
    let text = String::from_utf8_lossy(bytes.as_slice());
    assert!(
        text.contains("read") && text.contains("write"),
        "unexpected output {text:?}"
    );
}

#[test]
fn log_and_tee_attach_writers() {
    let session = echo_session();
    let mut session = anticipate::log::log(session, Sink::Memory(Vec::new()));
    session.send_line(b"hi").unwrap();
    session.expect("hi").unwrap();
    let text = {
        let logger = session.get_logger().as_ref().unwrap();
        String::from_utf8_lossy(logger.memory_bytes().unwrap()).into_owned()
    };
    assert!(text.contains("write: \"hi\""), "unexpected output {text:?}");

    let session = echo_session();
    let mut session = anticipate::log::tee(session, Sink::Memory(Vec::new()));
    session.send_line(b"raw").unwrap();
    session.expect("raw").unwrap();
    let logger = session.get_logger().as_ref().unwrap();
    let bytes = logger.memory_bytes().unwrap();
    assert!(bytes.windows(3).any(|w| w == b"raw"));
}

#[test]
fn prefix_log_renders_text() {
    let mut writer = PrefixLogWriter::new(Sink::Memory(Vec::new()));
    writer.log("read", b"hi");
    let bytes = writer.memory_bytes().unwrap();
    let text = String::from_utf8(bytes.clone()).unwrap();
    assert_eq!(text, "read: \"hi\"\n");
}
