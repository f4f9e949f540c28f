//! The session: a spawned child process, its byte channel, and the retention
//! buffer that search-and-consume operations work against.
//!
//! Bytes drained from the channel but not yet consumed by a successful match
//! stay in the retention buffer; every expect or check searches that buffer
//! first, and a success consumes exactly the bytes up to the right-most match
//! end, so later reads return bytes strictly after that point.

use vstd::prelude::*;
use vstd::slice::slice_subrange;

use crate::captures::Captures;
use crate::clock::{elapsed_millis, instant_now};
use crate::error::Error;
use crate::log::LogWriter;
use crate::matching::{lemma_right_most_bounds, right_most_index, spec_right_most};
use crate::needle::Needle;
use crate::stream::{Healthcheck, ReadOutcome, SessionStream};

verus! {

/// The witness of a successful greedy expect: some grown buffer extends the
/// old retention, the needle matched it, and exactly the bytes up to the
/// right-most match end were consumed.
pub open spec fn gready_witness<N: Needle>(
    needle: N,
    pre: Seq<u8>,
    post: Seq<u8>,
    c: Captures,
    grown: Seq<u8>,
    eof: bool,
) -> bool {
    &&& pre.is_prefix_of(grown)
    &&& needle.valid()
    &&& needle.matches_spec(grown, eof).len() > 0
    &&& c.ranges() == needle.matches_spec(grown, eof)
    &&& spec_right_most(c.ranges()) <= grown.len()
    &&& c.consumed() == grown.take(spec_right_most(c.ranges()))
    &&& post == grown.skip(spec_right_most(c.ranges()))
}

/// What a successful greedy expect guarantees about the retention buffer.
pub open spec fn gready_success<N: Needle>(
    needle: N,
    pre: Seq<u8>,
    post: Seq<u8>,
    c: Captures,
) -> bool {
    exists|grown: Seq<u8>, eof: bool| #[trigger] gready_witness(needle, pre, post, c, grown, eof)
}

/// The witness of a successful lazy expect: the searchable prefix grew one
/// byte at a time to length `k`, every strictly shorter non-empty prefix
/// failed to match, the needle matched the prefix of length `k`, and exactly
/// the bytes up to the right-most match end were consumed.
pub open spec fn lazy_witness<N: Needle>(
    needle: N,
    pre: Seq<u8>,
    post: Seq<u8>,
    c: Captures,
    grown: Seq<u8>,
    k: int,
    eof: bool,
) -> bool {
    &&& pre.is_prefix_of(grown)
    &&& 0 <= k <= grown.len()
    &&& needle.valid()
    &&& needle.matches_spec(grown.take(k), eof).len() > 0
    &&& c.ranges() == needle.matches_spec(grown.take(k), eof)
    &&& (forall|j: int| 1 <= j < k ==> (#[trigger] needle.matches_spec(grown.take(j), false)).len()
        == 0)
    &&& (eof ==> k == grown.len())
    &&& spec_right_most(c.ranges()) <= k
    &&& c.consumed() == grown.take(spec_right_most(c.ranges()))
    &&& post == grown.skip(spec_right_most(c.ranges()))
}

/// What a successful lazy expect guarantees about the retention buffer.
pub open spec fn lazy_success<N: Needle>(
    needle: N,
    pre: Seq<u8>,
    post: Seq<u8>,
    c: Captures,
) -> bool {
    exists|grown: Seq<u8>, k: int, eof: bool| #[trigger] lazy_witness(
        needle,
        pre,
        post,
        c,
        grown,
        k,
        eof,
    )
}

/// How many bytes a bounded read serves out of an available buffer.
pub open spec fn served(want: int, len: int) -> int {
    if want <= len {
        want
    } else {
        len
    }
}

/// Copies the first `n` bytes of a vector.
fn copy_prefix(v: &Vec<u8>, n: usize) -> (r: Vec<u8>)
    requires
        n <= v@.len(),
    ensures
        r@ == v@.take(n as int),
{
    let s = slice_subrange(v.as_slice(), 0, n);
    let mut out: Vec<u8> = Vec::new();
    out.extend_from_slice(s);
    proof {
        assert(out@ =~= v@.take(n as int));
    }
    out
}

/// A prefix of a sequence stays a prefix when the sequence is extended.
proof fn lemma_prefix_extends(a: Seq<u8>, b: Seq<u8>, c: Seq<u8>)
    requires
        a.is_prefix_of(b),
    ensures
        a.is_prefix_of(b + c),
{
    assert((b + c).subrange(0, a.len() as int) =~= b.subrange(0, a.len() as int));
}

/// Every sequence is a prefix of itself.
proof fn lemma_prefix_refl(a: Seq<u8>)
    ensures
        a.is_prefix_of(a),
{
    assert(a.subrange(0, a.len() as int) =~= a);
}

/// Prefixes chain.
proof fn lemma_prefix_trans(a: Seq<u8>, b: Seq<u8>, c: Seq<u8>)
    requires
        a.is_prefix_of(b),
        b.is_prefix_of(c),
    ensures
        a.is_prefix_of(c),
{
    assert(c.subrange(0, a.len() as int) =~= b.subrange(0, a.len() as int));
}

/// Offers read bytes to the attached log writer, if any.
fn log_read_opt<O: LogWriter>(logger: &mut Option<O>, data: &[u8]) {
    match logger {
        Some(l) => l.log_read(data),
        None => (),
    }
}

/// Offers written bytes to the attached log writer, if any.
fn log_write_opt<O: LogWriter>(logger: &mut Option<O>, data: &[u8]) {
    match logger {
        Some(l) => l.log_write(data),
        None => (),
    }
}

/// A spawned child process together with its byte channel, retention buffer,
/// optional log writer, expect deadline and match strategy.
#[derive(Debug)]
pub struct Session<O, P, S> {
    proc: P,
    stream: S,
    retention: Vec<u8>,
    logger: Option<O>,
    expect_timeout: Option<u64>,
    expect_lazy: bool,
}

impl<O: LogWriter, P, S> Session<O, P, S> {
    /// The bytes drained from the channel but not yet consumed.
    pub closed spec fn retained(self) -> Seq<u8> {
        self.retention@
    }

    /// The configured expect deadline in milliseconds, if any.
    pub closed spec fn timeout_of(self) -> Option<u64> {
        self.expect_timeout
    }

    /// Whether the lazy match strategy is selected.
    pub closed spec fn lazy_of(self) -> bool {
        self.expect_lazy
    }

    /// Creates a session over a process handle and its channel.  Without an
    /// explicit timeout the expect deadline is 5000 milliseconds.
    pub fn new(process: P, stream: S, logger: Option<O>, timeout: Option<u64>) -> (r: Self)
        ensures
            r.retained() == Seq::<u8>::empty(),
            r.timeout_of() == Some(
                match timeout {
                    Some(t) => t,
                    None => 5000u64,
                },
            ),
            !r.lazy_of(),
    {
        let t = match timeout {
            Some(t) => t,
            None => 5000,
        };
        Session {
            proc: process,
            stream,
            retention: Vec::new(),
            logger,
            expect_timeout: Some(t),
            expect_lazy: false,
        }
    }

    /// Sets the expect deadline; `None` waits without bound.
    pub fn set_expect_timeout(&mut self, expect_timeout: Option<u64>)
        ensures
            final(self).timeout_of() == expect_timeout,
            final(self).retained() == old(self).retained(),
            final(self).lazy_of() == old(self).lazy_of(),
    {
        self.expect_timeout = expect_timeout;
    }

    /// Selects the lazy or the greedy match strategy; greedy is the default.
    pub fn set_expect_lazy(&mut self, lazy: bool)
        ensures
            final(self).lazy_of() == lazy,
            final(self).retained() == old(self).retained(),
            final(self).timeout_of() == old(self).timeout_of(),
    {
        self.expect_lazy = lazy;
    }

    /// A reference to the underlying channel.
    pub fn get_stream(&self) -> &S {
        &self.stream
    }

    /// A mutable reference to the underlying channel.
    pub fn get_stream_mut(&mut self) -> &mut S {
        &mut self.stream
    }

    /// A reference to the child-process handle.
    pub fn get_process(&self) -> &P {
        &self.proc
    }

    /// A mutable reference to the child-process handle.
    pub fn get_process_mut(&mut self) -> &mut P {
        &mut self.proc
    }

    /// A reference to the attached log writer, if any.
    pub fn get_logger(&self) -> &Option<O> {
        &self.logger
    }

    /// Exchanges the log writer, keeping buffer and settings; the old writer
    /// is dropped.
    pub fn with_logger<O2: LogWriter>(self, logger: Option<O2>) -> (r: Session<O2, P, S>)
        ensures
            r.retained() == self.retained(),
            r.timeout_of() == self.timeout_of(),
            r.lazy_of() == self.lazy_of(),
    {
        Session {
            proc: self.proc,
            stream: self.stream,
            retention: self.retention,
            logger,
            expect_timeout: self.expect_timeout,
            expect_lazy: self.expect_lazy,
        }
    }
}

impl<O: LogWriter, P: Healthcheck, S> Session<O, P, S> {
    /// Whether the child process still runs.
    pub fn is_alive(&mut self) -> (r: Result<bool, Error>) {
        match self.proc.is_alive() {
            Ok(b) => Ok(b),
            Err(m) => Err(Error::Io(m)),
        }
    }
}

impl<O: LogWriter, P, S: SessionStream> Session<O, P, S> {
    /// Drains whatever the channel has right now into retention, offering
    /// each chunk to the log writer; reports whether end-of-stream was seen.
    fn fill_retention(&mut self) -> (r: Result<bool, Error>)
        ensures
            final(self).timeout_of() == old(self).timeout_of(),
            final(self).lazy_of() == old(self).lazy_of(),
            old(self).retained().is_prefix_of(final(self).retained()),
            r matches Err(e) ==> e is Io,
    {
        let mut fuel: u64 = u64::MAX;
        loop
            invariant
                old(self).retained().is_prefix_of(self.retention@),
                self.expect_timeout == old(self).timeout_of(),
                self.expect_lazy == old(self).lazy_of(),
            decreases fuel,
        {
            match self.stream.read_chunk() {
                ReadOutcome::Bytes(mut chunk) => {
                    if chunk.len() == 0 {
                        proof {
                            lemma_prefix_refl(self.retention@);
                        }
                        return Ok(false);
                    }
                    log_read_opt(&mut self.logger, chunk.as_slice());
                    proof {
                        lemma_prefix_extends(old(self).retained(), self.retention@, chunk@);
                    }
                    self.retention.append(&mut chunk);
                },
                ReadOutcome::WouldBlock => {
                    return Ok(false);
                },
                ReadOutcome::Closed => {
                    return Ok(true);
                },
                ReadOutcome::Failed(m) => {
                    return Err(Error::Io(m));
                },
            }
            if fuel == 0 {
                return Err(Error::Io("the channel kept yielding without pause".to_owned()));
            }
            fuel = fuel - 1;
        }
    }

    /// Waits until the needle matches, with the configured strategy.
    ///
    /// On success the session consumes exactly the bytes up to the
    /// right-most match end; bytes after it stay in retention.  The call
    /// fails with `Eof` when the stream ends without a match, and with
    /// `ExpectTimeout` when the deadline passes first.
    pub fn expect<N: Needle>(&mut self, needle: N) -> (r: Result<Captures, Error>)
        ensures
            final(self).timeout_of() == old(self).timeout_of(),
            final(self).lazy_of() == old(self).lazy_of(),
            r matches Ok(c) ==> c.wf(),
            r matches Ok(c) ==> (if old(self).lazy_of() {
                lazy_success(needle, old(self).retained(), final(self).retained(), c)
            } else {
                gready_success(needle, old(self).retained(), final(self).retained(), c)
            }),
            r is Err ==> old(self).retained().is_prefix_of(final(self).retained()),
            r matches Err(e) ==> (e is Eof || e is ExpectTimeout || e is RegexParsing
                || e is Io),
            r matches Err(e) ==> (e is Eof ==> needle.valid() && needle.matches_spec(
                final(self).retained(),
                true,
            ).len() == 0),
            r matches Err(Error::ExpectTimeout(t, d)) ==> old(self).timeout_of() == Some(t)
                && d@ == needle.desc_spec(),
    {
        if self.expect_lazy {
            self.expect_lazy(needle)
        } else {
            self.expect_gready(needle)
        }
    }

    /// Greedy expect: fills retention with as much as the channel yields and
    /// searches the whole buffer, so the right-most match end is as far as
    /// the available bytes allow.
    pub fn expect_gready<N: Needle>(&mut self, needle: N) -> (r: Result<Captures, Error>)
        ensures
            final(self).timeout_of() == old(self).timeout_of(),
            final(self).lazy_of() == old(self).lazy_of(),
            r matches Ok(c) ==> c.wf(),
            r matches Ok(c) ==> gready_success(
                needle,
                old(self).retained(),
                final(self).retained(),
                c,
            ),
            r is Err ==> old(self).retained().is_prefix_of(final(self).retained()),
            r matches Err(e) ==> (e is Eof || e is ExpectTimeout || e is RegexParsing
                || e is Io),
            r matches Err(e) ==> (e is Eof ==> needle.valid() && needle.matches_spec(
                final(self).retained(),
                true,
            ).len() == 0),
            r matches Err(Error::ExpectTimeout(t, d)) ==> old(self).timeout_of() == Some(t)
                && d@ == needle.desc_spec(),
    {
        let start = instant_now();
        let mut fuel: u64 = u64::MAX;
        loop
            invariant
                old(self).retained().is_prefix_of(self.retention@),
                self.expect_timeout == old(self).timeout_of(),
                self.expect_lazy == old(self).lazy_of(),
            decreases fuel,
        {
            let ghost at_loop = self.retention@;
            let eof = match self.fill_retention() {
                Ok(b) => b,
                Err(e) => {
                    return Err(e);
                },
            };
            proof {
                lemma_prefix_trans(old(self).retained(), at_loop, self.retention@);
            }
            let found = match needle.check(self.retention.as_slice(), eof) {
                Ok(v) => v,
                Err(e) => {
                    return Err(e);
                },
            };
            if found.len() > 0 {
                let ghost grown = self.retention@;
                let end = right_most_index(&found);
                proof {
                    lemma_right_most_bounds(found@);
                    crate::matching::lemma_right_most_le(found@, grown.len());
                }
                let consumed_bytes = copy_prefix(&self.retention, end);
                let tail = self.retention.split_off(end);
                self.retention = tail;
                let c = Captures::new(consumed_bytes, found);
                proof {
                    assert(gready_witness(
                        needle,
                        old(self).retained(),
                        self.retention@,
                        c,
                        grown,
                        eof,
                    ));
                }
                return Ok(c);
            }
            if eof {
                return Err(Error::Eof);
            }
            match self.expect_timeout {
                Some(t) => {
                    if elapsed_millis(&start) > t {
                        return Err(Error::ExpectTimeout(t, needle.describe()));
                    }
                },
                None => (),
            }
            if fuel == 0 {
                return Err(Error::Io("expect made no progress".to_owned()));
            }
            fuel = fuel - 1;
        }
    }

    /// Lazy expect: extends the searchable prefix one byte at a time, so the
    /// first prefix that matches decides what is consumed; reads stay
    /// single-byte so an end-of-stream notice is never swallowed with data.
    pub fn expect_lazy<N: Needle>(&mut self, needle: N) -> (r: Result<Captures, Error>)
        ensures
            final(self).timeout_of() == old(self).timeout_of(),
            final(self).lazy_of() == old(self).lazy_of(),
            r matches Ok(c) ==> c.wf(),
            r matches Ok(c) ==> lazy_success(
                needle,
                old(self).retained(),
                final(self).retained(),
                c,
            ),
            r is Err ==> old(self).retained().is_prefix_of(final(self).retained()),
            r matches Err(e) ==> (e is Eof || e is ExpectTimeout || e is RegexParsing
                || e is Io),
            r matches Err(e) ==> (e is Eof ==> needle.valid() && needle.matches_spec(
                final(self).retained(),
                true,
            ).len() == 0),
            r matches Err(Error::ExpectTimeout(t, d)) ==> old(self).timeout_of() == Some(t)
                && d@ == needle.desc_spec(),
    {
        let start = instant_now();
        let mut fuel: u64 = u64::MAX;
        let mut checking: usize = 0;
        loop
            invariant
                old(self).retained().is_prefix_of(self.retention@),
                self.expect_timeout == old(self).timeout_of(),
                self.expect_lazy == old(self).lazy_of(),
                checking <= self.retention@.len(),
                forall|j: int|
                    1 <= j <= checking ==> (#[trigger] needle.matches_spec(
                        self.retention@.take(j),
                        false,
                    )).len() == 0,
            decreases fuel,
        {
            let mut eof = false;
            if checking == self.retention.len() {
                match self.stream.read_one() {
                    ReadOutcome::Bytes(mut chunk) => {
                        log_read_opt(&mut self.logger, chunk.as_slice());
                        let ghost ret_pre = self.retention@;
                        proof {
                            lemma_prefix_extends(old(self).retained(), self.retention@, chunk@);
                        }
                        self.retention.append(&mut chunk);
                        proof {
                            assert forall|j: int|
                                1 <= j <= checking implies (#[trigger] needle.matches_spec(
                                self.retention@.take(j),
                                false,
                            )).len() == 0 by {
                                assert(self.retention@.take(j) =~= ret_pre.take(j));
                            }
                        }
                    },
                    ReadOutcome::WouldBlock => (),
                    ReadOutcome::Closed => {
                        eof = true;
                    },
                    ReadOutcome::Failed(m) => {
                        return Err(Error::Io(m));
                    },
                }
            }
            if checking < self.retention.len() {
                checking = checking + 1;
            }
            let ghost grown = self.retention@;
            let prefix = slice_subrange(self.retention.as_slice(), 0, checking);
            proof {
                assert(prefix@ =~= grown.take(checking as int));
            }
            let found = match needle.check(prefix, eof) {
                Ok(v) => v,
                Err(e) => {
                    return Err(e);
                },
            };
            if found.len() > 0 {
                let end = right_most_index(&found);
                proof {
                    lemma_right_most_bounds(found@);
                    crate::matching::lemma_right_most_le(found@, checking as nat);
                }
                let consumed_bytes = copy_prefix(&self.retention, end);
                let tail = self.retention.split_off(end);
                self.retention = tail;
                let c = Captures::new(consumed_bytes, found);
                proof {
                    assert(grown.take(checking as int).take(end as int) =~= grown.take(
                        end as int,
                    ));
                    assert(lazy_witness(
                        needle,
                        old(self).retained(),
                        self.retention@,
                        c,
                        grown,
                        checking as int,
                        eof,
                    ));
                }
                return Ok(c);
            }
            if eof {
                proof {
                    assert(grown.take(checking as int) =~= self.retention@);
                }
                return Err(Error::Eof);
            }
            match self.expect_timeout {
                Some(t) => {
                    if elapsed_millis(&start) > t {
                        return Err(Error::ExpectTimeout(t, needle.describe()));
                    }
                },
                None => (),
            }
            if fuel == 0 {
                return Err(Error::Io("expect made no progress".to_owned()));
            }
            fuel = fuel - 1;
        }
    }

    /// One non-blocking pass: drains what the channel has, runs the needle
    /// once, and consumes a match exactly as expect would.  Returns empty
    /// captures when nothing matched and the stream is still open.
    pub fn check<N: Needle>(&mut self, needle: N) -> (r: Result<Captures, Error>)
        ensures
            final(self).timeout_of() == old(self).timeout_of(),
            final(self).lazy_of() == old(self).lazy_of(),
            r matches Ok(c) ==> c.wf(),
            r matches Ok(c) ==> (gready_success(
                needle,
                old(self).retained(),
                final(self).retained(),
                c,
            ) || (c.ranges().len() == 0 && c.consumed().len() == 0 && old(
                self,
            ).retained().is_prefix_of(final(self).retained()))),
            r is Err ==> old(self).retained().is_prefix_of(final(self).retained()),
            r matches Err(e) ==> (e is Eof || e is RegexParsing || e is Io),
            r matches Err(e) ==> (e is Eof ==> needle.valid() && needle.matches_spec(
                final(self).retained(),
                true,
            ).len() == 0),
    {
        let eof = match self.fill_retention() {
            Ok(b) => b,
            Err(e) => {
                return Err(e);
            },
        };
        let found = match needle.check(self.retention.as_slice(), eof) {
            Ok(v) => v,
            Err(e) => {
                return Err(e);
            },
        };
        if found.len() > 0 {
            let ghost grown = self.retention@;
            let end = right_most_index(&found);
            proof {
                lemma_right_most_bounds(found@);
                crate::matching::lemma_right_most_le(found@, grown.len());
            }
            let consumed_bytes = copy_prefix(&self.retention, end);
            let tail = self.retention.split_off(end);
            self.retention = tail;
            let c = Captures::new(consumed_bytes, found);
            proof {
                assert(gready_witness(
                    needle,
                    old(self).retained(),
                    self.retention@,
                    c,
                    grown,
                    eof,
                ));
            }
            return Ok(c);
        }
        if eof {
            return Err(Error::Eof);
        }
        let empty_bytes: Vec<u8> = Vec::new();
        let empty_found: Vec<crate::matching::ByteMatch> = Vec::new();
        Ok(Captures::new(empty_bytes, empty_found))
    }

    /// Whether the needle matches the available bytes; consumes nothing.
    ///
    /// After an end-of-stream sentinel matched here, the notice may not be
    /// seen again by later operations on some channels: prefer `check` or
    /// `expect` when the match itself is wanted.
    pub fn is_matched<N: Needle>(&mut self, needle: N) -> (r: Result<bool, Error>)
        ensures
            final(self).timeout_of() == old(self).timeout_of(),
            final(self).lazy_of() == old(self).lazy_of(),
            old(self).retained().is_prefix_of(final(self).retained()),
            r is Ok ==> needle.valid(),
            r matches Ok(b) && b ==> (needle.matches_spec(final(self).retained(), false).len() > 0
                || needle.matches_spec(final(self).retained(), true).len() > 0),
            r matches Ok(b) && !b ==> needle.matches_spec(final(self).retained(), false).len()
                == 0,
            r matches Err(e) ==> (e is Eof || e is RegexParsing || e is Io),
            r matches Err(e) ==> (e is Eof ==> needle.valid() && needle.matches_spec(
                final(self).retained(),
                true,
            ).len() == 0),
    {
        let eof = match self.fill_retention() {
            Ok(b) => b,
            Err(e) => {
                return Err(e);
            },
        };
        let found = match needle.check(self.retention.as_slice(), eof) {
            Ok(v) => v,
            Err(e) => {
                return Err(e);
            },
        };
        proof {
            lemma_prefix_refl(old(self).retained());
        }
        if found.len() > 0 {
            return Ok(true);
        }
        if eof {
            return Err(Error::Eof);
        }
        Ok(false)
    }

    /// Reads up to `want` bytes: out of retention when it holds any, else out
    /// of one non-blocking read.  An empty channel surfaces as an error, as a
    /// non-blocking read does.
    pub fn try_read(&mut self, want: usize) -> (r: Result<Vec<u8>, Error>)
        ensures
            final(self).timeout_of() == old(self).timeout_of(),
            final(self).lazy_of() == old(self).lazy_of(),
            r matches Ok(v) ==> exists|grown: Seq<u8>|
                {
                    &&& #[trigger] old(self).retained().is_prefix_of(grown)
                    &&& v@ == grown.take(served(want as int, grown.len() as int))
                    &&& final(self).retained() == grown.skip(
                        served(want as int, grown.len() as int),
                    )
                },
    {
        if self.retention.len() == 0 {
            match self.fill_retention() {
                Ok(_) => (),
                Err(e) => {
                    return Err(e);
                },
            }
            if self.retention.len() == 0 {
                return Err(Error::Io("would block".to_owned()));
            }
        }
        let ghost grown = self.retention@;
        let n = if want <= self.retention.len() {
            want
        } else {
            self.retention.len()
        };
        let out = copy_prefix(&self.retention, n);
        let tail = self.retention.split_off(n);
        self.retention = tail;
        proof {
            assert(old(self).retained().is_prefix_of(grown));
        }
        Ok(out)
    }

    /// Whether nothing is buffered and the channel has nothing to read.
    pub fn is_empty(&mut self) -> (r: Result<bool, Error>)
        ensures
            final(self).timeout_of() == old(self).timeout_of(),
            final(self).lazy_of() == old(self).lazy_of(),
            old(self).retained().is_prefix_of(final(self).retained()),
            r matches Ok(b) ==> b == (final(self).retained().len() == 0),
    {
        if self.retention.len() > 0 {
            proof {
                lemma_prefix_refl(old(self).retained());
            }
            return Ok(false);
        }
        match self.fill_retention() {
            Ok(_) => (),
            Err(e) => {
                return Err(e);
            },
        }
        Ok(self.retention.len() == 0)
    }

    /// Writes bytes to the child's input; the retention buffer is untouched.
    pub fn send(&mut self, buf: &[u8]) -> (r: Result<(), Error>)
        ensures
            final(self).retained() == old(self).retained(),
            final(self).timeout_of() == old(self).timeout_of(),
            final(self).lazy_of() == old(self).lazy_of(),
    {
        match self.stream.write_bytes(buf) {
            Ok(()) => {
                log_write_opt(&mut self.logger, buf);
                Ok(())
            },
            Err(m) => Err(Error::Io(m)),
        }
    }

    /// Writes bytes followed by a newline; the retention buffer is untouched.
    pub fn send_line(&mut self, buf: &[u8]) -> (r: Result<(), Error>)
        ensures
            final(self).retained() == old(self).retained(),
            final(self).timeout_of() == old(self).timeout_of(),
            final(self).lazy_of() == old(self).lazy_of(),
    {
        match self.send(buf) {
            Ok(()) => (),
            Err(e) => {
                return Err(e);
            },
        }
        let newline: [u8; 1] = [10u8];
        self.send(newline.as_slice())
    }

    /// Forces buffered output toward the child.
    pub fn flush(&mut self) -> (r: Result<(), Error>)
        ensures
            final(self).retained() == old(self).retained(),
            final(self).timeout_of() == old(self).timeout_of(),
            final(self).lazy_of() == old(self).lazy_of(),
    {
        match self.stream.flush_out() {
            Ok(()) => Ok(()),
            Err(m) => Err(Error::Io(m)),
        }
    }
}

} // verus!
