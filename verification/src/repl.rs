//! Sessions with a shell-like child: a prompt marks the end of each command,
//! so whole commands can be executed and their output collected.

use vstd::prelude::*;
use vstd::slice::slice_to_vec;

use crate::captures::Captures;
use crate::error::Error;
use crate::log::LogWriter;
use crate::session::{gready_success, lazy_success, Session};
use crate::stream::SessionStream;

verus! {

/// The bytes that stand before the first match of a capture: the output a
/// command produced before the prompt came back.
pub open spec fn before_of(c: Captures) -> Seq<u8> {
    if c.ranges().len() > 0 {
        c.consumed().take(c.ranges()[0].start as int)
    } else {
        c.consumed()
    }
}

/// What a successful `execute` guarantees: some capture of the prompt needle
/// explains the retention change, and the returned bytes are what stood
/// before the prompt.
pub open spec fn executed(
    prompt: String,
    lazy: bool,
    pre: Seq<u8>,
    post: Seq<u8>,
    v: Seq<u8>,
) -> bool {
    exists|c: Captures|
        {
            &&& #[trigger] c.wf()
            &&& (if lazy {
                lazy_success(prompt, pre, post, c)
            } else {
                gready_success(prompt, pre, post, c)
            })
            &&& v == before_of(c)
        }
}

/// A session whose child presents a prompt between commands, such as a shell
/// or an interactive interpreter.
#[derive(Debug)]
pub struct ReplSession<O, P, S> {
    /// The prompt that identifies that a command finished.
    prompt: String,
    /// The underlying session.
    session: Session<O, P, S>,
    /// A command sent before termination, if any.
    quit_command: Option<String>,
    /// Whether the child echoes input, in which case each sent line is
    /// awaited on the stream before going on.
    is_echo_on: bool,
}

impl<O: LogWriter, P, S: SessionStream> ReplSession<O, P, S> {
    /// The prompt as a value; needles built from it match the same ranges.
    pub closed spec fn prompt_needle(self) -> String {
        self.prompt
    }

    /// The characters of the prompt.
    pub closed spec fn prompt_of(self) -> Seq<char> {
        self.prompt@
    }

    /// The characters of the quit command, if one is set.
    pub closed spec fn quit_of(self) -> Option<String> {
        self.quit_command
    }

    /// Whether the echo handling is on.
    pub closed spec fn echo_of(self) -> bool {
        self.is_echo_on
    }

    /// The wrapped session.
    pub closed spec fn session_of(self) -> Session<O, P, S> {
        self.session
    }

    /// Wraps a session: the prompt identifies a finished command, the quit
    /// command (if any) is sent by `exit`, and `is_echo` tells whether sent
    /// lines are echoed by the child.
    pub fn new(
        session: Session<O, P, S>,
        prompt: String,
        quit_command: Option<String>,
        is_echo: bool,
    ) -> (r: Self)
        ensures
            r.prompt_of() == prompt@,
            r.prompt_needle() == prompt,
            r.quit_of() == quit_command,
            r.echo_of() == is_echo,
            r.session_of() == session,
    {
        ReplSession { session, prompt, quit_command, is_echo_on: is_echo }
    }

    /// The prompt in use.
    pub fn get_prompt(&self) -> (r: &str)
        ensures
            r@ == self.prompt_of(),
    {
        self.prompt.as_str()
    }

    /// Replaces the prompt.
    pub fn set_prompt(&mut self, prompt: String)
        ensures
            final(self).prompt_of() == prompt@,
            final(self).quit_of() == old(self).quit_of(),
            final(self).echo_of() == old(self).echo_of(),
            final(self).session_of() == old(self).session_of(),
    {
        self.prompt = prompt;
    }

    /// The quit command, if one is set.
    pub fn get_quit_command(&self) -> (r: Option<&str>)
        ensures
            self.quit_of() matches Some(q) ==> (r matches Some(s) && s@ == q@),
            self.quit_of() is None ==> r is None,
    {
        match &self.quit_command {
            Some(q) => Some(q.as_str()),
            None => None,
        }
    }

    /// Whether the echo handling is on.
    pub fn is_echo(&self) -> (r: bool)
        ensures
            r == self.echo_of(),
    {
        self.is_echo_on
    }

    /// Releases the wrapped session.
    pub fn into_session(self) -> (r: Session<O, P, S>)
        ensures
            r == self.session_of(),
    {
        self.session
    }

    /// Blocks until the prompt appears, consuming through it.
    pub fn expect_prompt(&mut self) -> (r: Result<Captures, Error>)
        ensures
            final(self).prompt_needle() == old(self).prompt_needle(),
            final(self).prompt_of() == old(self).prompt_of(),
            final(self).quit_of() == old(self).quit_of(),
            final(self).echo_of() == old(self).echo_of(),
            final(self).session_of().lazy_of() == old(self).session_of().lazy_of(),
            final(self).session_of().timeout_of() == old(self).session_of().timeout_of(),
            r matches Ok(c) ==> c.wf(),
            r matches Ok(c) ==> (if old(self).session_of().lazy_of() {
                lazy_success(
                    old(self).prompt_needle(),
                    old(self).session_of().retained(),
                    final(self).session_of().retained(),
                    c,
                )
            } else {
                gready_success(
                    old(self).prompt_needle(),
                    old(self).session_of().retained(),
                    final(self).session_of().retained(),
                    c,
                )
            }),
    {
        let p = self.prompt.clone();
        self.session.expect(p)
    }

    /// Sends a command, waits for the prompt, and returns the bytes the
    /// command printed before the prompt came back.
    pub fn execute(&mut self, cmd: &str) -> (r: Result<Vec<u8>, Error>)
        ensures
            final(self).prompt_of() == old(self).prompt_of(),
            final(self).quit_of() == old(self).quit_of(),
            final(self).echo_of() == old(self).echo_of(),
            r matches Ok(v) ==> (!old(self).echo_of() ==> executed(
                old(self).prompt_needle(),
                old(self).session_of().lazy_of(),
                old(self).session_of().retained(),
                final(self).session_of().retained(),
                v@,
            )),
    {
        match self.send_line(cmd) {
            Ok(()) => (),
            Err(e) => {
                return Err(e);
            },
        }
        let found = match self.expect_prompt() {
            Ok(c) => c,
            Err(e) => {
                return Err(e);
            },
        };
        let out = slice_to_vec(found.before());
        proof {
            assert(found.wf());
            assert(out@ == before_of(found));
        }
        Ok(out)
    }

    /// Sends a line; with echo handling on, waits for the line to appear on
    /// the stream before returning.
    pub fn send_line(&mut self, line: &str) -> (r: Result<(), Error>)
        ensures
            final(self).prompt_needle() == old(self).prompt_needle(),
            final(self).prompt_of() == old(self).prompt_of(),
            final(self).quit_of() == old(self).quit_of(),
            final(self).echo_of() == old(self).echo_of(),
            final(self).session_of().lazy_of() == old(self).session_of().lazy_of(),
            final(self).session_of().timeout_of() == old(self).session_of().timeout_of(),
            !old(self).echo_of() && (r is Ok) ==> final(self).session_of().retained() == old(
                self,
            ).session_of().retained(),
    {
        match self.session.send_line(line.as_bytes()) {
            Ok(()) => (),
            Err(e) => {
                return Err(e);
            },
        }
        if self.is_echo_on {
            let copy = line.to_owned();
            match self.session.expect(copy) {
                Ok(_) => (),
                Err(e) => {
                    return Err(e);
                },
            }
        }
        Ok(())
    }

    /// Sends the quit command, if one is set.
    pub fn exit(&mut self) -> (r: Result<(), Error>)
        ensures
            final(self).prompt_of() == old(self).prompt_of(),
            final(self).quit_of() == old(self).quit_of(),
            final(self).echo_of() == old(self).echo_of(),
            r is Ok ==> final(self).session_of().retained() == old(self).session_of().retained(),
    {
        let quit = match &self.quit_command {
            Some(q) => Some(q.clone()),
            None => None,
        };
        match quit {
            Some(q) => self.session.send_line(q.as_str().as_bytes()),
            None => Ok(()),
        }
    }

    /// A reference to the wrapped session.
    pub fn session_ref(&self) -> &Session<O, P, S> {
        &self.session
    }

    /// A mutable reference to the wrapped session.
    pub fn session_mut(&mut self) -> &mut Session<O, P, S> {
        &mut self.session
    }
}

} // verus!
