//! The abstract byte channel a session drives, and deterministic in-memory
//! channels used for self-contained sessions and tests.
//!
//! The operating-system binding (a pseudo-terminal, a pipe) lives outside the
//! library and only has to provide these operations; the session logic never
//! depends on a concrete binding.

use vstd::prelude::*;
use vstd::slice::slice_subrange;

verus! {

/// What one non-blocking read attempt produced.
#[derive(Debug)]
pub enum ReadOutcome {
    /// Bytes were available; possibly empty only for a zero-length source.
    Bytes(Vec<u8>),
    /// Nothing to read right now.
    WouldBlock,
    /// The stream has ended.
    Closed,
    /// The read failed; holds a short description.
    Failed(String),
}

/// A duplex, non-blocking byte channel to a child program.
///
/// Nothing is promised of the outside world: the session states what holds of
/// its own buffer whatever a channel returns.  `read_one` hands back at most
/// one byte so that an end-of-stream notice is never swallowed together with
/// data.
pub trait SessionStream: Sized {
    /// One non-blocking read of whatever bytes are available.
    fn read_chunk(&mut self) -> (r: ReadOutcome);

    /// One non-blocking read of at most one byte.
    fn read_one(&mut self) -> (r: ReadOutcome)
        ensures
            r matches ReadOutcome::Bytes(b) ==> b@.len() <= 1,
    ;

    /// Writes the whole buffer.
    fn write_bytes(&mut self, data: &[u8]) -> (r: Result<(), String>);

    /// Flushes buffered output toward the child.
    fn flush_out(&mut self) -> (r: Result<(), String>);
}

/// A child-process handle that can report whether the child still runs.
pub trait Healthcheck: Sized {
    /// Whether the process is still alive.
    fn is_alive(&mut self) -> (r: Result<bool, String>);
}

/// A process stand-in with a fixed health answer, for sessions over
/// in-memory channels.
#[derive(Debug, Clone, Copy)]
pub struct StaticProcess {
    /// The answer `is_alive` gives.
    pub alive: bool,
}

impl Healthcheck for StaticProcess {
    fn is_alive(&mut self) -> (r: Result<bool, String>)
        ensures
            r matches Ok(b) && b == old(self).alive,
    {
        Ok(self.alive)
    }
}

/// A read-only channel over a fixed byte sequence: it yields its bytes, then
/// either reports end-of-stream or blocks forever.  Writes are discarded.
#[derive(Debug)]
pub struct StaticStream {
    data: Vec<u8>,
    pos: usize,
    close_at_end: bool,
}

impl StaticStream {
    /// The bytes not yet read.
    pub closed spec fn remaining(self) -> Seq<u8> {
        self.data@.skip(self.pos as int)
    }

    /// Whether the channel reports end-of-stream once drained.
    pub closed spec fn closes(self) -> bool {
        self.close_at_end
    }

    /// Well-formedness: the cursor lies inside the data.
    pub closed spec fn wf(self) -> bool {
        self.pos <= self.data@.len()
    }

    /// A channel over the given bytes; with `close_at_end` it reports
    /// end-of-stream once they are gone, otherwise it blocks.
    pub fn new(data: Vec<u8>, close_at_end: bool) -> (r: Self)
        ensures
            r.remaining() == data@,
            r.closes() == close_at_end,
            r.wf(),
    {
        let r = StaticStream { data, pos: 0, close_at_end };
        proof {
            assert(r.remaining() =~= r.data@);
        }
        r
    }
}

impl SessionStream for StaticStream {
    fn read_chunk(&mut self) -> (r: ReadOutcome)
        ensures
            final(self).closes() == old(self).closes(),
            old(self).wf() ==> final(self).wf(),
            old(self).wf() && old(self).remaining().len() > 0 ==> (r matches ReadOutcome::Bytes(b)
                && b@ == old(self).remaining() && final(self).remaining().len() == 0),
            old(self).remaining().len() == 0 ==> final(self).remaining() == old(self).remaining()
                && (if old(self).closes() {
                r is Closed
            } else {
                r is WouldBlock
            }),
    {
        if self.pos < self.data.len() {
            let chunk_slice = slice_subrange(self.data.as_slice(), self.pos, self.data.len());
            let mut chunk: Vec<u8> = Vec::new();
            chunk.extend_from_slice(chunk_slice);
            self.pos = self.data.len();
            proof {
                assert(Seq::<u8>::empty() + old(self).remaining() =~= old(self).remaining());
                assert(final(self).remaining() =~= Seq::<u8>::empty());
            }
            ReadOutcome::Bytes(chunk)
        } else {
            if self.close_at_end {
                ReadOutcome::Closed
            } else {
                ReadOutcome::WouldBlock
            }
        }
    }

    fn read_one(&mut self) -> (r: ReadOutcome)
        ensures
            final(self).closes() == old(self).closes(),
            old(self).wf() ==> final(self).wf(),
            old(self).wf() && old(self).remaining().len() > 0 ==> (r matches ReadOutcome::Bytes(b)
                && b@ == old(self).remaining().take(1) && final(self).remaining() == old(
                self,
            ).remaining().skip(1)),
            old(self).remaining().len() == 0 ==> final(self).remaining() == old(self).remaining()
                && (if old(self).closes() {
                r is Closed
            } else {
                r is WouldBlock
            }),
    {
        if self.pos < self.data.len() {
            let b = self.data[self.pos];
            self.pos = self.pos + 1;
            let mut chunk: Vec<u8> = Vec::new();
            chunk.push(b);
            proof {
                assert(chunk@ =~= old(self).remaining().take(1));
                assert(final(self).remaining() =~= old(self).remaining().skip(1));
            }
            ReadOutcome::Bytes(chunk)
        } else {
            if self.close_at_end {
                ReadOutcome::Closed
            } else {
                ReadOutcome::WouldBlock
            }
        }
    }

    fn write_bytes(&mut self, data: &[u8]) -> (r: Result<(), String>)
        ensures
            *final(self) == *old(self),
            r is Ok,
    {
        Ok(())
    }

    fn flush_out(&mut self) -> (r: Result<(), String>)
        ensures
            *final(self) == *old(self),
            r is Ok,
    {
        Ok(())
    }
}

/// The echo a terminal-attached line discipline produces for written bytes:
/// each newline becomes a carriage return and newline, and an end-of-text or
/// end-of-transmission byte ends the stream, swallowing the rest.
pub open spec fn echo_of(data: Seq<u8>) -> Seq<u8>
    decreases data.len(),
{
    if data.len() == 0 {
        Seq::empty()
    } else if data[0] == 3 || data[0] == 4 {
        Seq::empty()
    } else if data[0] == 10 {
        seq![13u8, 10u8] + echo_of(data.skip(1))
    } else {
        seq![data[0]] + echo_of(data.skip(1))
    }
}

/// Whether the written bytes hold an end-of-text or end-of-transmission byte,
/// which ends the echoing child.
pub open spec fn holds_terminator(data: Seq<u8>) -> bool {
    exists|i: int| 0 <= i < data.len() && ((#[trigger] data[i]) == 3 || data[i] == 4)
}

/// Whether the written bytes hold a terminating control byte.
fn contains_terminator(data: &[u8]) -> (r: bool)
    ensures
        r == holds_terminator(data@),
{
    let mut i: usize = 0;
    while i < data.len()
        invariant
            i <= data@.len(),
            forall|j: int| 0 <= j < i ==> !((#[trigger] data@[j]) == 3 || data@[j] == 4),
        decreases data@.len() - i,
    {
        if data[i] == 3 || data[i] == 4 {
            return true;
        }
        i = i + 1;
    }
    false
}

/// A channel that behaves like `cat` under a pseudo-terminal: written bytes
/// come back as reads with newlines echoed as `\r\n`, and a control byte
/// (end-of-text or end-of-transmission) terminates the child, discarding
/// unread echo, after which the channel reports end-of-stream.
#[derive(Debug)]
pub struct EchoStream {
    pending: Vec<u8>,
    closed: bool,
}

impl EchoStream {
    /// The echoed bytes not yet read back.
    pub closed spec fn pending_bytes(self) -> Seq<u8> {
        self.pending@
    }

    /// Whether the child has terminated.
    pub closed spec fn is_closed(self) -> bool {
        self.closed
    }

    /// A fresh echoing channel with a running child.
    pub fn new() -> (r: Self)
        ensures
            r.pending_bytes() == Seq::<u8>::empty(),
            !r.is_closed(),
    {
        let r = EchoStream { pending: Vec::new(), closed: false };
        r
    }
}

impl SessionStream for EchoStream {
    fn read_chunk(&mut self) -> (r: ReadOutcome)
        ensures
            final(self).is_closed() == old(self).is_closed(),
            old(self).pending_bytes().len() > 0 ==> (r matches ReadOutcome::Bytes(b) && b@ == old(
                self,
            ).pending_bytes() && final(self).pending_bytes().len() == 0),
            old(self).pending_bytes().len() == 0 ==> *final(self) == *old(self) && (if old(
                self,
            ).is_closed() {
                r is Closed
            } else {
                r is WouldBlock
            }),
    {
        if self.pending.len() > 0 {
            let mut chunk: Vec<u8> = Vec::new();
            core::mem::swap(&mut chunk, &mut self.pending);
            ReadOutcome::Bytes(chunk)
        } else {
            if self.closed {
                ReadOutcome::Closed
            } else {
                ReadOutcome::WouldBlock
            }
        }
    }

    fn read_one(&mut self) -> (r: ReadOutcome)
        ensures
            final(self).is_closed() == old(self).is_closed(),
            old(self).pending_bytes().len() > 0 ==> (r matches ReadOutcome::Bytes(b) && b@ == old(
                self,
            ).pending_bytes().take(1) && final(self).pending_bytes() == old(
                self,
            ).pending_bytes().skip(1)),
            old(self).pending_bytes().len() == 0 ==> *final(self) == *old(self) && (if old(
                self,
            ).is_closed() {
                r is Closed
            } else {
                r is WouldBlock
            }),
    {
        if self.pending.len() > 0 {
            let b = self.pending.remove(0);
            let mut chunk: Vec<u8> = Vec::new();
            chunk.push(b);
            proof {
                assert(chunk@ =~= old(self).pending_bytes().take(1));
            }
            ReadOutcome::Bytes(chunk)
        } else {
            if self.closed {
                ReadOutcome::Closed
            } else {
                ReadOutcome::WouldBlock
            }
        }
    }

    fn write_bytes(&mut self, data: &[u8]) -> (r: Result<(), String>)
        ensures
            r is Ok,
            old(self).is_closed() ==> *final(self) == *old(self),
            !old(self).is_closed() && holds_terminator(data@) ==> final(self).pending_bytes().len()
                == 0 && final(self).is_closed(),
            !old(self).is_closed() && !holds_terminator(data@) ==> final(self).pending_bytes()
                == old(self).pending_bytes() + echo_of(data@) && !final(self).is_closed(),
    {
        if self.closed {
            return Ok(());
        }
        if contains_terminator(data) {
            self.pending.clear();
            self.closed = true;
            return Ok(());
        }
        let mut i: usize = 0;
        while i < data.len()
            invariant
                i <= data@.len(),
                !old(self).is_closed(),
                !self.closed,
                !holds_terminator(data@),
                self.pending@ == old(self).pending@ + echo_of(data@.take(i as int)),
            decreases data@.len() - i,
        {
            let b = data[i];
            proof {
                assert(!holds_terminator(data@.take(i as int))) by {
                    assert forall|j: int|
                        0 <= j < data@.take(i as int).len() implies !((#[trigger] data@.take(
                        i as int,
                    )[j]) == 3 || data@.take(i as int)[j] == 4) by {
                        assert(data@.take(i as int)[j] == data@[j]);
                    }
                }
                lemma_echo_take_step(data@, i as int);
                assert(!(data@[i as int] == 3 || data@[i as int] == 4));
            }
            if b == 10 {
                self.pending.push(13);
                self.pending.push(10);
            } else {
                self.pending.push(b);
            }
            i = i + 1;
        }
        proof {
            assert(data@.take(data@.len() as int) =~= data@);
        }
        Ok(())
    }

    fn flush_out(&mut self) -> (r: Result<(), String>)
        ensures
            *final(self) == *old(self),
            r is Ok,
    {
        Ok(())
    }
}

/// Extending the written bytes by one non-terminator byte extends the echo by
/// that byte's rendering.
proof fn lemma_echo_take_step(data: Seq<u8>, i: int)
    requires
        0 <= i < data.len(),
        !holds_terminator(data.take(i)),
    ensures
        data[i] != 3 && data[i] != 4 && data[i] != 10 ==> echo_of(data.take(i + 1)) == echo_of(
            data.take(i),
        ) + seq![data[i]],
        data[i] == 10 ==> echo_of(data.take(i + 1)) == echo_of(data.take(i)) + seq![13u8, 10u8],
    decreases i,
{
    if i == 0 {
        assert(data.take(0) =~= Seq::<u8>::empty());
        assert(data.take(1) =~= seq![data[0]]);
        if data[0] != 3 && data[0] != 4 {
            assert(data.take(1).skip(1) =~= Seq::<u8>::empty());
            if data[0] == 10 {
                assert(echo_of(data.take(1)) =~= echo_of(data.take(0)) + seq![13u8, 10u8]);
            } else {
                assert(echo_of(data.take(1)) =~= echo_of(data.take(0)) + seq![data[0]]);
            }
        }
    } else {
        assert(data.take(i)[0] == data[0]);
        assert(!(data[0] == 3 || data[0] == 4)) by {
            assert(data.take(i)[0] == data[0]);
            assert(!holds_terminator(data.take(i)));
        }
        let tail = data.skip(1);
        assert(!holds_terminator(tail.take(i - 1))) by {
            assert forall|j: int| 0 <= j < i - 1 implies !((#[trigger] tail.take(i - 1)[j]) == 3
                || tail.take(i - 1)[j] == 4) by {
                assert(tail.take(i - 1)[j] == data[j + 1]);
                assert(data.take(i)[j + 1] == data[j + 1]);
                assert(!holds_terminator(data.take(i)));
            }
        }
        lemma_echo_take_step(tail, i - 1);
        assert(data.take(i + 1).skip(1) =~= tail.take(i));
        assert(data.take(i).skip(1) =~= tail.take(i - 1));
        assert(tail[i - 1] == data[i]);
        let h: Seq<u8> = if data[0] == 10 {
            seq![13u8, 10u8]
        } else {
            seq![data[0]]
        };
        assert(data.take(i + 1)[0] == data[0]);
        assert(data.take(i)[0] == data[0]);
        assert(echo_of(data.take(i + 1)) == h + echo_of(tail.take(i)));
        assert(echo_of(data.take(i)) == h + echo_of(tail.take(i - 1)));
        if data[i] != 3 && data[i] != 4 && data[i] != 10 {
            assert(echo_of(data.take(i + 1)) =~= echo_of(data.take(i)) + seq![data[i]]);
        } else if data[i] == 10 {
            assert(echo_of(data.take(i + 1)) =~= echo_of(data.take(i)) + seq![13u8, 10u8]);
        }
    }
}

} // verus!
