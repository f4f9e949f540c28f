//! Observation of session traffic: strategies for mirroring the bytes a
//! session reads and writes.
//!
//! A log writer never fails upward: a failed write to its sink is swallowed.

use vstd::prelude::*;

verus! {

/// Where mirrored bytes go: the process standard output, or an in-memory
/// buffer that can be inspected afterwards.
#[derive(Debug)]
pub enum Sink {
    /// The process standard output.
    Console,
    /// An owned buffer.
    Memory(Vec<u8>),
}

/// Relies on `std::io::Stdout::write_all`; a failed console write is dropped.
#[verifier::external_body]
fn console_write(data: &[u8]) {
    let _ = std::io::Write::write_all(&mut std::io::stdout(), data);
}

impl Sink {
    /// The bytes held so far, for a memory sink.
    pub closed spec fn memory(self) -> Option<Seq<u8>> {
        match self {
            Sink::Memory(b) => Some(b@),
            Sink::Console => None,
        }
    }

    /// Appends bytes; console output is best-effort.
    pub fn put(&mut self, data: &[u8])
        ensures
            old(self).memory() matches Some(b) ==> final(self).memory() == Some(b + data@),
            old(self).memory() is None ==> final(self).memory() is None,
    {
        match self {
            Sink::Memory(buf) => {
                buf.extend_from_slice(data);
            },
            Sink::Console => {
                console_write(data);
            },
        }
    }

    /// A reference to the bytes of a memory sink.
    pub fn memory_bytes(&self) -> (r: Option<&Vec<u8>>)
        ensures
            self.memory() matches Some(b) ==> (r matches Some(v) && v@ == b),
            self.memory() is None ==> r is None,
    {
        match self {
            Sink::Memory(buf) => Some(buf),
            Sink::Console => None,
        }
    }
}

/// What the prefixed log writer renders for one observation: the target name,
/// a colon, and the data shown as text when it is valid UTF-8 and as bytes
/// otherwise, closed by a newline.
pub uninterp spec fn prefix_rendering(target: Seq<char>, data: Seq<u8>) -> Seq<char>;

/// Relies on `std::str::from_utf8` and the `format` macro: renders
/// `target: "..."` (or `target:(bytes): [...]` for data that is not UTF-8)
/// with a trailing newline; the result depends on the arguments alone.
#[verifier::external_body]
fn render_prefixed(target: &str, data: &[u8]) -> (r: String)
    ensures
        r@ == prefix_rendering(target@, data@),
{
    match std::str::from_utf8(data) {
        Ok(text) => format!("{}: {:?}\n", target, text),
        Err(_) => format!("{}:(bytes): {:?}\n", target, data),
    }
}

/// Types that observe the bytes a session reads from and writes to a child.
pub trait LogWriter: Sized {
    /// Observes bytes read from the child program.
    fn log_read(&mut self, data: &[u8]);

    /// Observes bytes written to the child program.
    fn log_write(&mut self, data: &[u8]);
}

/// Observes nothing.
#[derive(Debug, Clone, Copy)]
pub struct NoopLogWriter;

impl LogWriter for NoopLogWriter {
    fn log_read(&mut self, data: &[u8]) {
    }

    fn log_write(&mut self, data: &[u8]) {
    }
}

/// Prefixes each observation with `read:` or `write:` and renders the data
/// as text when possible.
#[derive(Debug)]
pub struct PrefixLogWriter {
    sink: Sink,
}

impl PrefixLogWriter {
    /// The bytes held by the sink, when it is a memory sink.
    pub closed spec fn memory(self) -> Option<Seq<u8>> {
        self.sink.memory()
    }

    /// Creates a prefixed log writer over a sink.
    pub fn new(sink: Sink) -> (r: Self)
        ensures
            r.memory() == sink.memory(),
    {
        PrefixLogWriter { sink }
    }

    /// Writes one prefixed observation to the sink.
    pub fn log(&mut self, target: &str, data: &[u8])
        ensures
            old(self).memory() matches Some(b) ==> final(self).memory() == Some(
                b + vstd::utf8::encode_utf8(prefix_rendering(target@, data@)),
            ),
            old(self).memory() is None ==> final(self).memory() is None,
    {
        let line = render_prefixed(target, data);
        self.sink.put(line.as_str().as_bytes());
    }

    /// A reference to the bytes of a memory sink.
    pub fn memory_bytes(&self) -> (r: Option<&Vec<u8>>)
        ensures
            self.memory() matches Some(b) ==> (r matches Some(v) && v@ == b),
            self.memory() is None ==> r is None,
    {
        self.sink.memory_bytes()
    }
}

impl LogWriter for PrefixLogWriter {
    fn log_read(&mut self, data: &[u8]) {
        self.log("read", data);
    }

    fn log_write(&mut self, data: &[u8]) {
        self.log("write", data);
    }
}

/// Writes the raw bytes to the sink unchanged.
#[derive(Debug)]
pub struct StandardLogWriter {
    sink: Sink,
}

impl StandardLogWriter {
    /// The bytes held by the sink, when it is a memory sink.
    pub closed spec fn memory(self) -> Option<Seq<u8>> {
        self.sink.memory()
    }

    /// Creates a raw log writer over a sink.
    pub fn new(sink: Sink) -> (r: Self)
        ensures
            r.memory() == sink.memory(),
    {
        StandardLogWriter { sink }
    }

    /// A reference to the bytes of a memory sink.
    pub fn memory_bytes(&self) -> (r: Option<&Vec<u8>>)
        ensures
            self.memory() matches Some(b) ==> (r matches Some(v) && v@ == b),
            self.memory() is None ==> r is None,
    {
        self.sink.memory_bytes()
    }
}

impl LogWriter for StandardLogWriter {
    fn log_read(&mut self, data: &[u8]) {
        self.sink.put(data);
    }

    fn log_write(&mut self, data: &[u8]) {
        self.sink.put(data);
    }
}

/// Attaches a prefixed log writer over the sink: every read and write of
/// the session is mirrored there, formatted.
pub fn log<O: LogWriter, P, S>(
    session: crate::session::Session<O, P, S>,
    sink: Sink,
) -> (r: crate::session::Session<PrefixLogWriter, P, S>)
    ensures
        r.retained() == session.retained(),
        r.timeout_of() == session.timeout_of(),
        r.lazy_of() == session.lazy_of(),
{
    session.with_logger(Some(PrefixLogWriter::new(sink)))
}

/// Attaches a raw log writer over the sink: every read and write of the
/// session is mirrored there unchanged.
pub fn tee<O: LogWriter, P, S>(
    session: crate::session::Session<O, P, S>,
    sink: Sink,
) -> (r: crate::session::Session<StandardLogWriter, P, S>)
    ensures
        r.retained() == session.retained(),
        r.timeout_of() == session.timeout_of(),
        r.lazy_of() == session.lazy_of(),
{
    session.with_logger(Some(StandardLogWriter::new(sink)))
}

} // verus!
