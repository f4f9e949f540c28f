//! The interpreter core: options, the choice of the command to execute, and
//! the mapping from each instruction to the session operation it stands for.
//!
//! The surrounding program walks the instruction tree, performs each planned
//! action against a session, pausing and typing as the plan says; every
//! decision is made here.

use vstd::prelude::*;

use crate::control::{control_byte, control_code_of};
use crate::env::{interp, interpolate, EnvTable};
use crate::error::Error;
use crate::parser::{ErrView, InstrView, Instruction};
use crate::text::{append_str, dec_chars, u64_to_dec};

verus! {

/// Options for recording mode: the typing delay in milliseconds, whether the
/// pragma command is typed, the shell the recorder runs, and the terminal
/// size.  The cadence of real typing also carries a random perturbation,
/// which lives with the unverified typing loop.
#[derive(Debug, Clone)]
pub struct CinemaOptions {
    /// Delay between typed graphemes, in milliseconds.
    pub delay: u64,
    /// Whether the pragma command is typed grapheme by grapheme.
    pub type_pragma: bool,
    /// The shell the recorder runs.
    pub shell: String,
    /// Terminal columns.
    pub cols: u64,
    /// Terminal rows.
    pub rows: u64,
}

impl Default for CinemaOptions {
    /// The stock recording options.
    fn default() -> (r: Self)
        ensures
            r.delay == 75,
            !r.type_pragma,
            r.shell@ == "sh -noprofile -norc"@,
            r.cols == 80,
            r.rows == 24,
    {
        CinemaOptions {
            delay: 75,
            type_pragma: false,
            shell: "sh -noprofile -norc".to_owned(),
            cols: 80,
            rows: 24,
        }
    }
}

/// Options for one interpreter run.
#[derive(Debug)]
pub struct InterpreterOptions {
    /// The command to execute in the terminal.
    pub command: String,
    /// The expect deadline in milliseconds.
    pub timeout: Option<u64>,
    /// Recording-mode options; absent outside recording mode.
    pub cinema: Option<CinemaOptions>,
    /// An identifier for diagnostics.
    pub id: Option<String>,
    /// The shell prompt awaited by `wait` instructions.
    pub prompt: Option<String>,
    /// Whether session traffic is echoed to standard output.
    pub echo: bool,
    /// Whether echoed traffic is prefixed and formatted.
    pub format: bool,
    /// Whether comments are executed as typed lines.
    pub print_comments: bool,
}

impl Default for InterpreterOptions {
    /// The stock options: a plain shell and a five-second deadline.
    fn default() -> (r: Self)
        ensures
            r.command@ == "sh -noprofile -norc"@,
            r.timeout == Some(5000u64),
            r.cinema is None,
            r.id is None,
            r.prompt is None,
            !r.echo,
            !r.format,
            !r.print_comments,
    {
        InterpreterOptions {
            command: "sh -noprofile -norc".to_owned(),
            timeout: Some(5000),
            cinema: None,
            id: None,
            prompt: None,
            echo: false,
            format: false,
            print_comments: false,
        }
    }
}

/// The escape of a path for the recording command: quotation marks and
/// backslashes get a backslash in front.
pub open spec fn escaped(s: Seq<char>) -> Seq<char>
    decreases s.len(),
{
    if s.len() == 0 {
        Seq::empty()
    } else if s[0] == '"' || s[0] == '\\' {
        seq!['\\', s[0]] + escaped(s.skip(1))
    } else {
        seq![s[0]] + escaped(s.skip(1))
    }
}

/// The command that starts the recorder: the output path quoted, the
/// overwrite flag when asked for, and the terminal size.
pub open spec fn record_command(
    output: Seq<char>,
    overwrite: bool,
    cols: nat,
    rows: nat,
) -> Seq<char> {
    "asciinema rec \""@ + escaped(output) + "\""@ + (if overwrite {
        " --overwrite"@
    } else {
        Seq::empty()
    }) + " --rows="@ + dec_chars(rows) + " --cols="@ + dec_chars(cols)
}

/// Quotes and escapes a path.
fn escape_path(path: &str) -> (r: String)
    ensures
        r@ == escaped(path@),
{
    let chars = crate::text::str_to_chars(path);
    let mut out = String::new();
    let mut i: usize = 0;
    proof {
        assert(chars@.skip(0) =~= chars@);
        assert(Seq::<char>::empty() + escaped(chars@) =~= escaped(chars@));
    }
    while i < chars.len()
        invariant
            i <= chars@.len(),
            out@ + escaped(chars@.skip(i as int)) == escaped(chars@),
        decreases chars@.len() - i,
    {
        let c = chars[i];
        proof {
            assert(chars@.skip(i as int)[0] == chars@[i as int]);
            assert(chars@.skip(i as int).skip(1) =~= chars@.skip(i + 1));
        }
        if c == '"' || c == '\\' {
            crate::text::push_char(&mut out, '\\');
            crate::text::push_char(&mut out, c);
            proof {
                assert((out@ + escaped(chars@.skip(i + 1))) =~= escaped(chars@));
            }
        } else {
            crate::text::push_char(&mut out, c);
            proof {
                assert((out@ + escaped(chars@.skip(i + 1))) =~= escaped(chars@));
            }
        }
        i = i + 1;
    }
    proof {
        assert(chars@.skip(chars@.len() as int) =~= Seq::<char>::empty());
        assert(out@ =~= escaped(chars@));
    }
    out
}

impl InterpreterOptions {
    /// Options for a plain run.
    pub fn new(timeout: u64, echo: bool, format: bool, print_comments: bool) -> (r: Self)
        ensures
            r.command@ == "sh -noprofile -norc"@,
            r.timeout == Some(timeout),
            r.cinema is None,
            r.id is None,
            r.prompt is None,
            r.echo == echo,
            r.format == format,
            r.print_comments == print_comments,
    {
        InterpreterOptions {
            command: "sh -noprofile -norc".to_owned(),
            timeout: Some(timeout),
            cinema: None,
            id: None,
            prompt: None,
            echo,
            format,
            print_comments,
        }
    }

    /// Options for a recording run: the command starts the recorder on the
    /// output path with the configured terminal size.
    pub fn new_recording(
        output: &str,
        overwrite: bool,
        options: CinemaOptions,
        timeout: u64,
        echo: bool,
        format: bool,
        print_comments: bool,
    ) -> (r: Self)
        ensures
            r.command@ == record_command(
                output@,
                overwrite,
                options.cols as nat,
                options.rows as nat,
            ),
            r.cinema matches Some(c) && c == options,
            r.timeout == Some(timeout),
            r.id is None,
            r.prompt is None,
            r.echo == echo,
            r.format == format,
            r.print_comments == print_comments,
    {
        let mut command = String::new();
        append_str(&mut command, "asciinema rec \"");
        let quoted = escape_path(output);
        append_str(&mut command, quoted.as_str());
        append_str(&mut command, "\"");
        if overwrite {
            append_str(&mut command, " --overwrite");
        }
        append_str(&mut command, " --rows=");
        let rows = u64_to_dec(options.rows);
        append_str(&mut command, rows.as_str());
        append_str(&mut command, " --cols=");
        let cols = u64_to_dec(options.cols);
        append_str(&mut command, cols.as_str());
        proof {
            assert(command@ =~= record_command(
                output@,
                overwrite,
                options.cols as nat,
                options.rows as nat,
            ));
        }
        InterpreterOptions {
            command,
            timeout: Some(timeout),
            cinema: Some(options),
            id: None,
            prompt: None,
            echo,
            format,
            print_comments,
        }
    }
}

/// The ready banner the recorder prints before the inner shell accepts
/// input; the interpreter waits for it in recording mode.
pub fn ready_banner() -> (r: String)
    ensures
        r@ == "asciinema: press <ctrl-d> or type \"exit\" when you're done"@,
{
    "asciinema: press <ctrl-d> or type \"exit\" when you're done".to_owned()
}

/// The shell prompt used when none is configured.
pub fn stock_prompt() -> (r: String)
    ensures
        r@ == "\u{279c} "@,
{
    "\u{279c} ".to_owned()
}

/// The value the `SHELL` variable is set to in recording mode: a vanilla
/// shell with the prompt exported.
pub fn shell_env_value(prompt: &str, shell: &str) -> (r: String)
    ensures
        r@ == "PS1='"@ + prompt@ + "' "@ + shell@,
{
    let mut out = String::new();
    append_str(&mut out, "PS1='");
    append_str(&mut out, prompt);
    append_str(&mut out, "' ");
    append_str(&mut out, shell);
    proof {
        assert(out@ =~= "PS1='"@ + prompt@ + "' "@ + shell@);
    }
    out
}

/// Which command the terminal runs: the pragma command outside recording
/// mode when the script opens with one, the configured command otherwise.
pub open spec fn spec_exec_command(
    command: Seq<char>,
    cinema: bool,
    pragma: Option<Seq<char>>,
) -> Seq<char> {
    if !cinema && pragma is Some {
        pragma->0
    } else {
        command
    }
}

/// Picks the command the terminal runs.
pub fn exec_command(opts: &InterpreterOptions, pragma: Option<&String>) -> (r: String)
    ensures
        r@ == spec_exec_command(
            opts.command@,
            opts.cinema is Some,
            match pragma {
                Some(p) => Some(p@),
                None => None,
            },
        ),
{
    let use_pragma = match (&opts.cinema, pragma) {
        (Option::<CinemaOptions>::None, Some(_)) => true,
        _ => false,
    };
    if use_pragma {
        match pragma {
            Some(p) => p.clone(),
            None => opts.command.clone(),
        }
    } else {
        opts.command.clone()
    }
}

/// One primitive operation of a run, handed to the surrounding loop.
#[derive(Debug)]
pub enum SessionAction {
    /// Type the text grapheme by grapheme with human cadence, then newline.
    TypeLine(String),
    /// Write the text plus a newline.
    WriteLine(String),
    /// Write the text raw, without a newline or flush.
    WriteRaw(String),
    /// Send one control byte.
    WriteControl(u8),
    /// Wait until the literal appears.
    ExpectLiteral(String),
    /// Wait until the pattern matches.
    ExpectPattern(String),
    /// Consume one line of output.
    ReadOneLine,
    /// Pause for the given milliseconds.
    PauseMillis(u64),
    /// Flush pending output.
    FlushOutput,
    /// Walk into the spliced subtree.
    Descend,
    /// Nothing to do.
    Nothing,
}

/// The shape of an action.
pub enum ActionView {
    /// A typed line.
    TypeLine(Seq<char>),
    /// A written line.
    WriteLine(Seq<char>),
    /// A raw write.
    WriteRaw(Seq<char>),
    /// A control byte.
    WriteControl(u8),
    /// A literal wait.
    ExpectLiteral(Seq<char>),
    /// A pattern wait.
    ExpectPattern(Seq<char>),
    /// One line consumed.
    ReadOneLine,
    /// A pause.
    PauseMillis(u64),
    /// A flush.
    FlushOutput,
    /// A walk into a subtree.
    Descend,
    /// Nothing.
    Nothing,
}

impl View for SessionAction {
    type V = ActionView;

    open spec fn view(&self) -> ActionView {
        match *self {
            SessionAction::TypeLine(ref s) => ActionView::TypeLine(s@),
            SessionAction::WriteLine(ref s) => ActionView::WriteLine(s@),
            SessionAction::WriteRaw(ref s) => ActionView::WriteRaw(s@),
            SessionAction::WriteControl(b) => ActionView::WriteControl(b),
            SessionAction::ExpectLiteral(ref s) => ActionView::ExpectLiteral(s@),
            SessionAction::ExpectPattern(ref s) => ActionView::ExpectPattern(s@),
            SessionAction::ReadOneLine => ActionView::ReadOneLine,
            SessionAction::PauseMillis(n) => ActionView::PauseMillis(n),
            SessionAction::FlushOutput => ActionView::FlushOutput,
            SessionAction::Descend => ActionView::Descend,
            SessionAction::Nothing => ActionView::Nothing,
        }
    }
}

/// How a typed line is delivered: typed with cadence in recording mode,
/// written plainly otherwise; the payload is interpolated first.
pub open spec fn spec_line_action(
    s: Seq<char>,
    cinema: bool,
    env: Seq<(Seq<char>, Seq<char>)>,
) -> ActionView {
    if cinema {
        ActionView::TypeLine(interp(s, env))
    } else {
        ActionView::WriteLine(interp(s, env))
    }
}

/// The operation one instruction stands for.
///
/// A pragma is replayed only in recording mode (the command already ran the
/// script otherwise); typed lines and printed comments are interpolated; a
/// control name resolves through the control table or fails; a `wait` awaits
/// the prompt; `clear` writes a clear-screen line.
pub open spec fn spec_plan(
    inst: InstrView,
    cinema: bool,
    type_pragma: bool,
    print_comments: bool,
    pragma: Option<Seq<char>>,
    prompt: Seq<char>,
    env: Seq<(Seq<char>, Seq<char>)>,
) -> Result<ActionView, ErrView> {
    match inst {
        InstrView::Pragma(_) => if cinema && pragma is Some {
            if type_pragma {
                Ok(ActionView::TypeLine(pragma->0))
            } else {
                Ok(ActionView::WriteLine(pragma->0))
            }
        } else {
            Ok(ActionView::Nothing)
        },
        InstrView::SendLine(s) => Ok(spec_line_action(s, cinema, env)),
        InstrView::Comment(s) => if print_comments {
            Ok(spec_line_action(s, cinema, env))
        } else {
            Ok(ActionView::Nothing)
        },
        InstrView::Send(s) => Ok(ActionView::WriteRaw(s)),
        InstrView::SendControl(name) => match control_code_of(name) {
            Some(b) => Ok(ActionView::WriteControl(b)),
            None => Err(ErrView::InvalidControlCode(name)),
        },
        InstrView::Expect(s) => Ok(ActionView::ExpectLiteral(s)),
        InstrView::Regex(s) => Ok(ActionView::ExpectPattern(s)),
        InstrView::ReadLine => Ok(ActionView::ReadOneLine),
        InstrView::Sleep(ms) => Ok(ActionView::PauseMillis(ms)),
        InstrView::Wait => Ok(ActionView::ExpectLiteral(prompt)),
        InstrView::Clear => Ok(ActionView::WriteLine("clear"@)),
        InstrView::Flush => Ok(ActionView::FlushOutput),
        InstrView::Include(_) => Ok(ActionView::Descend),
    }
}

/// Plans the operation one instruction stands for; see [`spec_plan`].
pub fn plan_instruction(
    inst: &Instruction,
    opts: &InterpreterOptions,
    pragma: Option<&String>,
    prompt: &String,
    env: &EnvTable,
) -> (r: Result<SessionAction, Error>)
    ensures
        r matches Ok(a) ==> spec_plan(
            inst@,
            opts.cinema is Some,
            opts.cinema matches Some(c) && c.type_pragma,
            opts.print_comments,
            match pragma {
                Some(p) => Some(p@),
                None => None,
            },
            prompt@,
            env.entries_view(),
        ) == Ok::<ActionView, ErrView>(a@),
        r matches Err(e) ==> spec_plan(
            inst@,
            opts.cinema is Some,
            opts.cinema matches Some(c) && c.type_pragma,
            opts.print_comments,
            match pragma {
                Some(p) => Some(p@),
                None => None,
            },
            prompt@,
            env.entries_view(),
        ) == Err::<ActionView, ErrView>(e@),
{
    let cinema = match &opts.cinema {
        Some(_) => true,
        None => false,
    };
    let type_pragma = match &opts.cinema {
        Some(c) => c.type_pragma,
        None => false,
    };
    match inst {
        Instruction::Pragma(_) => {
            if cinema {
                match pragma {
                    Some(p) => {
                        if type_pragma {
                            Ok(SessionAction::TypeLine(p.clone()))
                        } else {
                            Ok(SessionAction::WriteLine(p.clone()))
                        }
                    },
                    None => Ok(SessionAction::Nothing),
                }
            } else {
                Ok(SessionAction::Nothing)
            }
        },
        Instruction::SendLine(s) => {
            let t = interpolate(s.as_str(), env);
            if cinema {
                Ok(SessionAction::TypeLine(t))
            } else {
                Ok(SessionAction::WriteLine(t))
            }
        },
        Instruction::Comment(s) => {
            if opts.print_comments {
                let t = interpolate(s.as_str(), env);
                if cinema {
                    Ok(SessionAction::TypeLine(t))
                } else {
                    Ok(SessionAction::WriteLine(t))
                }
            } else {
                Ok(SessionAction::Nothing)
            }
        },
        Instruction::Send(s) => Ok(SessionAction::WriteRaw(s.clone())),
        Instruction::SendControl(name) => {
            match control_byte(name.as_str()) {
                Ok(b) => Ok(SessionAction::WriteControl(b)),
                Err(e) => Err(e),
            }
        },
        Instruction::Expect(s) => Ok(SessionAction::ExpectLiteral(s.clone())),
        Instruction::Regex(s) => Ok(SessionAction::ExpectPattern(s.clone())),
        Instruction::ReadLine => Ok(SessionAction::ReadOneLine),
        Instruction::Sleep(ms) => Ok(SessionAction::PauseMillis(*ms)),
        Instruction::Wait => Ok(SessionAction::ExpectLiteral(prompt.clone())),
        Instruction::Clear => Ok(SessionAction::WriteLine("clear".to_owned())),
        Instruction::Flush => Ok(SessionAction::FlushOutput),
        Instruction::Include(_) => Ok(SessionAction::Descend),
    }
}

/// How many bytes of a recording to keep so that the given number of
/// trailing lines falls away: the length up to and including the newline
/// that stands `lines + 1` newlines from the end, or the whole length when
/// there are not that many newlines.
pub open spec fn keep_len(data: Seq<u8>, k: nat) -> Option<int>
    decreases data.len(),
{
    if data.len() == 0 {
        None
    } else if data.last() == 10 && k <= 1 {
        Some(data.len() as int)
    } else if data.last() == 10 {
        keep_len(data.drop_last(), (k - 1) as nat)
    } else {
        keep_len(data.drop_last(), k)
    }
}

/// The kept length never exceeds the data.
proof fn lemma_keep_len_bound(data: Seq<u8>, k: nat)
    ensures
        keep_len(data, k) matches Some(p) ==> 0 < p <= data.len(),
    decreases data.len(),
{
    if data.len() > 0 {
        lemma_keep_len_bound(data.drop_last(), (k - 1) as nat);
        lemma_keep_len_bound(data.drop_last(), k);
    }
}

/// The new length of a recording after trimming the given number of
/// trailing lines; the length itself when there are not enough lines.
pub fn tail_trim_len(data: &[u8], lines: u64) -> (r: usize)
    ensures
        keep_len(data@, (lines + 1) as nat) matches Some(p) ==> r == p,
        keep_len(data@, (lines + 1) as nat) is None ==> r == data@.len(),
{
    let n = data.len();
    let mut i: usize = n;
    let mut seen: u64 = 0;
    proof {
        assert(data@.take(n as int) =~= data@);
    }
    while i > 0
        invariant
            i <= n,
            n == data@.len(),
            seen <= lines,
            keep_len(data@, (lines + 1) as nat) == keep_len(
                data@.take(i as int),
                (lines + 1 - seen) as nat,
            ),
        ensures
            i == 0 && keep_len(data@, (lines + 1) as nat) is None || (i > 0 && keep_len(
                data@,
                (lines + 1) as nat,
            ) == Some(i as int)),
        decreases i,
    {
        let b = data[i - 1];
        proof {
            assert(data@.take(i as int).last() == data@[i - 1]);
            assert(data@.take(i as int).drop_last() =~= data@.take(i - 1));
        }
        if b == 10 {
            if seen == lines {
                break ;
            }
            seen = seen + 1;
        }
        i = i - 1;
    }
    proof {
        if i == 0 {
            assert(data@.take(0) =~= Seq::<u8>::empty());
        } else {
            lemma_keep_len_bound(data@, (lines + 1) as nat);
        }
    }
    if i == 0 {
        n
    } else {
        i
    }
}

} // verus!
