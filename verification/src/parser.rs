//! The line-oriented script language: instructions, the parser, and
//! environment interpolation.

use vstd::prelude::*;

use crate::error::{Error, LexError};
use crate::text::{chars_range, chars_range_to_string, chars_to_string, str_to_chars};

verus! {

/// A parsed script: an ordered sequence of instructions owning its source.
#[derive(Debug)]
pub struct ScriptSource {
    /// The source text the instructions came from.
    pub source: String,
    /// The parsed instructions, in order; imported scripts appear in place.
    pub instructions: Vec<Instruction>,
}

/// One instruction of a script.
#[derive(Debug)]
pub enum Instruction {
    /// The program to execute, from the first line of the script.
    Pragma(String),
    /// Type the text plus a newline.
    SendLine(String),
    /// Raw write without a newline.
    Send(String),
    /// Resolve the name to a control byte and send it.
    SendControl(String),
    /// Block until the literal appears on the stream.
    Expect(String),
    /// Block until the regular expression matches.
    Regex(String),
    /// Consume one line of output.
    ReadLine,
    /// Pause for the given milliseconds.
    Sleep(u64),
    /// Block until the shell prompt appears.
    Wait,
    /// Send a clear-screen command line.
    Clear,
    /// Force-flush the output stream.
    Flush,
    /// Comment text; a no-op unless comments are printed.
    Comment(String),
    /// Instructions spliced in from another script.
    Include(ScriptSource),
}

/// The mathematical shape of one instruction.
pub enum InstrView {
    /// The program to execute.
    Pragma(Seq<char>),
    /// A typed line.
    SendLine(Seq<char>),
    /// A raw write.
    Send(Seq<char>),
    /// A control send.
    SendControl(Seq<char>),
    /// A literal wait.
    Expect(Seq<char>),
    /// A pattern wait.
    Regex(Seq<char>),
    /// One line of output consumed.
    ReadLine,
    /// A pause.
    Sleep(u64),
    /// A wait for the prompt.
    Wait,
    /// A clear-screen line.
    Clear,
    /// A flush.
    Flush,
    /// Comment text.
    Comment(Seq<char>),
    /// A spliced subtree.
    Include(Seq<InstrView>),
}

#[via_fn]
proof fn instr_view_dec(i: Instruction) {
    broadcast use vstd::std_specs::vec::axiom_vec_decreases_to_view, vstd::seq::axiom_seq_index_decreases;

    match i {
        Instruction::Include(src) => {
            assert forall|k: int|
                0 <= k < src.instructions@.len() implies #[trigger] (decreases_to!(
                i => src.instructions@[k])) by {
                assert(decreases_to!(i => src.instructions));
                assert(decreases_to!(src.instructions => src.instructions@));
                assert(decreases_to!(src.instructions@ => src.instructions@[k]));
            }
        },
        _ => (),
    }
}

/// The shape of an instruction value.
pub open spec fn instr_view(i: Instruction) -> InstrView
    decreases i,
    via instr_view_dec
{
    match i {
        Instruction::Pragma(s) => InstrView::Pragma(s@),
        Instruction::SendLine(s) => InstrView::SendLine(s@),
        Instruction::Send(s) => InstrView::Send(s@),
        Instruction::SendControl(s) => InstrView::SendControl(s@),
        Instruction::Expect(s) => InstrView::Expect(s@),
        Instruction::Regex(s) => InstrView::Regex(s@),
        Instruction::ReadLine => InstrView::ReadLine,
        Instruction::Sleep(n) => InstrView::Sleep(n),
        Instruction::Wait => InstrView::Wait,
        Instruction::Clear => InstrView::Clear,
        Instruction::Flush => InstrView::Flush,
        Instruction::Comment(s) => InstrView::Comment(s@),
        Instruction::Include(src) => InstrView::Include(
            Seq::new(
                src.instructions@.len(),
                |k: int|
                    if 0 <= k < src.instructions@.len() {
                        instr_view(src.instructions@[k])
                    } else {
                        arbitrary()
                    },
            ),
        ),
    }
}

impl View for Instruction {
    type V = InstrView;

    open spec fn view(&self) -> InstrView {
        instr_view(*self)
    }
}

impl DeepView for Instruction {
    type V = InstrView;

    open spec fn deep_view(&self) -> InstrView {
        instr_view(*self)
    }
}

/// The mathematical shape of a failure value.
pub enum ErrView {
    /// See [`Error::CommandParsing`].
    CommandParsing,
    /// See [`Error::RegexParsing`].
    RegexParsing,
    /// See [`Error::ExpectTimeout`].
    ExpectTimeout(u64, Seq<char>),
    /// See [`Error::Eof`].
    Eof,
    /// See [`Error::InvalidControlCode`].
    InvalidControlCode(Seq<char>),
    /// See [`Error::BadArguments`].
    BadArguments(Seq<char>),
    /// See [`Error::PragmaFirst`].
    PragmaFirst,
    /// See [`Error::UnknownInstruction`].
    UnknownInstruction(Seq<char>),
    /// See [`Error::NumberExpected`].
    NumberExpected(Seq<char>),
    /// See [`Error::Include`].
    Include(Seq<char>, Seq<char>),
    /// See [`Error::Lex`].
    Lex(LexError),
    /// See [`Error::Io`].
    Io(Seq<char>),
}

impl View for Error {
    type V = ErrView;

    open spec fn view(&self) -> ErrView {
        match *self {
            Error::CommandParsing => ErrView::CommandParsing,
            Error::RegexParsing => ErrView::RegexParsing,
            Error::ExpectTimeout(t, ref d) => ErrView::ExpectTimeout(t, d@),
            Error::Eof => ErrView::Eof,
            Error::InvalidControlCode(ref s) => ErrView::InvalidControlCode(s@),
            Error::BadArguments(ref s) => ErrView::BadArguments(s@),
            Error::PragmaFirst => ErrView::PragmaFirst,
            Error::UnknownInstruction(ref s) => ErrView::UnknownInstruction(s@),
            Error::NumberExpected(ref s) => ErrView::NumberExpected(s@),
            Error::Include(ref a, ref b) => ErrView::Include(a@, b@),
            Error::Lex(e) => ErrView::Lex(e),
            Error::Io(ref s) => ErrView::Io(s@),
        }
    }
}

/// Whether a character is line-inner whitespace.
pub open spec fn is_ws(c: char) -> bool {
    c == ' ' || c == '\t'
}

/// Whether a character is a decimal digit.
pub open spec fn is_digit(c: char) -> bool {
    '0' <= c && c <= '9'
}

/// Whether a character is a lower-case letter.
pub open spec fn is_lower(c: char) -> bool {
    'a' <= c && c <= 'z'
}

/// The position of the first newline, or a negative value when there is none.
pub open spec fn find_newline(s: Seq<char>) -> int
    decreases s.len(),
{
    if s.len() == 0 {
        -1
    } else if s[0] == '\n' {
        0
    } else {
        let r = find_newline(s.skip(1));
        if r < 0 {
            -1
        } else {
            r + 1
        }
    }
}

/// A line with its carriage return removed, when it carries one.
pub open spec fn strip_cr(line: Seq<char>) -> Seq<char> {
    if line.len() > 0 && line.last() == '\r' {
        line.drop_last()
    } else {
        line
    }
}

/// The lines of a source text: split at each newline, each line without its
/// closing carriage return.
pub open spec fn split_lines(s: Seq<char>) -> Seq<Seq<char>>
    decreases s.len(),
{
    let i = find_newline(s);
    if i < 0 || i >= s.len() {
        seq![strip_cr(s)]
    } else {
        seq![strip_cr(s.take(i))] + split_lines(s.skip(i + 1))
    }
}

/// The length of the whitespace prefix of a line.
pub open spec fn ws_prefix_len(s: Seq<char>) -> int
    decreases s.len(),
{
    if s.len() > 0 && is_ws(s[0]) {
        1 + ws_prefix_len(s.skip(1))
    } else {
        0
    }
}

/// The whitespace prefix never reaches past the end.
pub proof fn lemma_ws_prefix(s: Seq<char>)
    ensures
        0 <= ws_prefix_len(s) <= s.len(),
        forall|j: int| 0 <= j < ws_prefix_len(s) ==> is_ws(#[trigger] s[j]),
        ws_prefix_len(s) < s.len() ==> !is_ws(s[ws_prefix_len(s)]),
    decreases s.len(),
{
    if s.len() > 0 && is_ws(s[0]) {
        lemma_ws_prefix(s.skip(1));
        assert forall|j: int| 0 <= j < ws_prefix_len(s) implies is_ws(#[trigger] s[j]) by {
            if j > 0 {
                assert(s[j] == s.skip(1)[j - 1]);
            }
        }
        if ws_prefix_len(s) < s.len() {
            assert(s[ws_prefix_len(s)] == s.skip(1)[ws_prefix_len(s) - 1]);
        }
    }
}

/// A line with its whitespace prefix removed.
pub open spec fn strip_ws(s: Seq<char>) -> Seq<char> {
    s.skip(ws_prefix_len(s))
}

/// The length of the whitespace suffix of a line.
pub open spec fn ws_suffix_len(s: Seq<char>) -> int
    decreases s.len(),
{
    if s.len() > 0 && is_ws(s.last()) {
        1 + ws_suffix_len(s.drop_last())
    } else {
        0
    }
}

/// The whitespace suffix never reaches past the front.
pub proof fn lemma_ws_suffix(s: Seq<char>)
    ensures
        0 <= ws_suffix_len(s) <= s.len(),
        forall|j: int| s.len() - ws_suffix_len(s) <= j < s.len() ==> is_ws(#[trigger] s[j]),
        ws_suffix_len(s) < s.len() ==> !is_ws(s[s.len() - ws_suffix_len(s) - 1]),
    decreases s.len(),
{
    if s.len() > 0 && is_ws(s.last()) {
        lemma_ws_suffix(s.drop_last());
        assert forall|j: int| s.len() - ws_suffix_len(s) <= j < s.len() implies is_ws(
            #[trigger] s[j],
        ) by {
            if j < s.len() - 1 {
                assert(s[j] == s.drop_last()[j]);
            }
        }
        if ws_suffix_len(s) < s.len() {
            assert(s[s.len() - ws_suffix_len(s) - 1] == s.drop_last()[s.drop_last().len()
                - ws_suffix_len(s.drop_last()) - 1]);
        }
    }
}

/// A line with whitespace removed at both ends.
pub open spec fn trimmed(s: Seq<char>) -> Seq<char> {
    let t = strip_ws(s);
    t.take(t.len() - ws_suffix_len(t))
}

/// The length of the lower-case-letter prefix of a line: the keyword of a
/// directive.
pub open spec fn alpha_prefix_len(s: Seq<char>) -> int
    decreases s.len(),
{
    if s.len() > 0 && is_lower(s[0]) {
        1 + alpha_prefix_len(s.skip(1))
    } else {
        0
    }
}

/// The letter prefix never reaches past the end.
pub proof fn lemma_alpha_prefix(s: Seq<char>)
    ensures
        0 <= alpha_prefix_len(s) <= s.len(),
        forall|j: int| 0 <= j < alpha_prefix_len(s) ==> is_lower(#[trigger] s[j]),
        alpha_prefix_len(s) < s.len() ==> !is_lower(s[alpha_prefix_len(s)]),
    decreases s.len(),
{
    if s.len() > 0 && is_lower(s[0]) {
        lemma_alpha_prefix(s.skip(1));
        assert forall|j: int| 0 <= j < alpha_prefix_len(s) implies is_lower(#[trigger] s[j]) by {
            if j > 0 {
                assert(s[j] == s.skip(1)[j - 1]);
            }
        }
        if alpha_prefix_len(s) < s.len() {
            assert(s[alpha_prefix_len(s)] == s.skip(1)[alpha_prefix_len(s) - 1]);
        }
    }
}

/// Whether every character of a line is a decimal digit.
pub open spec fn all_digits(s: Seq<char>) -> bool {
    forall|i: int| 0 <= i < s.len() ==> is_digit(#[trigger] s[i])
}

/// The numeric value of one digit character; zero for any other character.
pub open spec fn digit_of_char(c: char) -> int {
    if is_digit(c) {
        (c as int) - 48
    } else {
        0
    }
}

/// Folds decimal digits over an accumulator, most significant first.
pub open spec fn digits_acc(s: Seq<char>, acc: nat) -> nat
    decreases s.len(),
{
    if s.len() == 0 {
        acc
    } else {
        digits_acc(s.skip(1), (acc * 10 + digit_of_char(s[0])) as nat)
    }
}

/// The value of a line of decimal digits, most significant first.
pub open spec fn digits_val(s: Seq<char>) -> nat {
    digits_acc(s, 0)
}

/// Whether a line is a pragma: `#!` at the start of the line with a
/// non-empty remainder.
pub open spec fn is_pragma_line(line: Seq<char>) -> bool {
    line.len() >= 3 && line[0] == '#' && line[1] == '!'
}

/// Whether a line is a directive: `#$` at the start of the line.
pub open spec fn is_directive_line(line: Seq<char>) -> bool {
    line.len() >= 2 && line[0] == '#' && line[1] == '$'
}

/// Whether a line is a comment: after tolerated leading whitespace, a `#`
/// not followed by `$` or `!`.
pub open spec fn is_comment_line(line: Seq<char>) -> bool {
    let t = strip_ws(line);
    t.len() >= 1 && t[0] == '#' && (t.len() == 1 || (t[1] != '$' && t[1] != '!'))
}

/// What one line contributes to a parse.
pub enum LineOut {
    /// A discarded blank line.
    Blank,
    /// One instruction.
    Emit(InstrView),
    /// A recorded reference to another script, by its raw path text.
    Import(Seq<char>),
    /// A pragma payload, legal only before any instruction.
    PragmaHead(Seq<char>),
    /// A malformed line.
    Reject(ErrView),
}

/// The directive keywords that take a payload after one whitespace
/// character, as instruction constructors.
pub open spec fn payload_instr(kw: Seq<char>, payload: Seq<char>) -> Option<InstrView> {
    if kw == "sendline"@ {
        Some(InstrView::SendLine(payload))
    } else if kw == "sendcontrol"@ {
        Some(InstrView::SendControl(payload))
    } else if kw == "expect"@ {
        Some(InstrView::Expect(payload))
    } else if kw == "regex"@ {
        Some(InstrView::Regex(payload))
    } else if kw == "send"@ {
        Some(InstrView::Send(payload))
    } else {
        None
    }
}

/// The directive keywords that take no payload, as instruction values.
pub open spec fn bare_instr(kw: Seq<char>) -> Option<InstrView> {
    if kw == "readline"@ {
        Some(InstrView::ReadLine)
    } else if kw == "wait"@ {
        Some(InstrView::Wait)
    } else if kw == "clear"@ {
        Some(InstrView::Clear)
    } else if kw == "flush"@ {
        Some(InstrView::Flush)
    } else {
        None
    }
}

/// What a directive line contributes: the keyword after `#$` and one run of
/// whitespace decides the instruction; an unknown or malformed directive is
/// rejected with the whole line (or with nothing when the line holds nothing
/// after `#$`).
pub open spec fn directive_out(line: Seq<char>) -> LineOut {
    let rest = line.skip(2);
    if rest.len() == 0 || strip_ws(rest).len() == 0 {
        LineOut::Reject(ErrView::UnknownInstruction(Seq::empty()))
    } else if !is_ws(rest[0]) {
        LineOut::Reject(ErrView::UnknownInstruction(line))
    } else {
        let t = strip_ws(rest);
        let kw = t.take(alpha_prefix_len(t));
        let tail = t.skip(alpha_prefix_len(t));
        if payload_instr(kw, tail.skip(1)) is Some {
            if tail.len() > 0 && is_ws(tail[0]) {
                LineOut::Emit(payload_instr(kw, tail.skip(1))->0)
            } else {
                LineOut::Reject(ErrView::UnknownInstruction(line))
            }
        } else if bare_instr(kw) is Some {
            if strip_ws(tail).len() == 0 {
                LineOut::Emit(bare_instr(kw)->0)
            } else {
                LineOut::Reject(ErrView::UnknownInstruction(line))
            }
        } else if kw == "sleep"@ {
            if tail.len() > 0 && is_ws(tail[0]) {
                let num = trimmed(tail);
                if num.len() > 0 && all_digits(num) && digits_val(num) <= u64::MAX {
                    LineOut::Emit(InstrView::Sleep(digits_val(num) as u64))
                } else {
                    LineOut::Reject(ErrView::NumberExpected(num))
                }
            } else {
                LineOut::Reject(ErrView::UnknownInstruction(line))
            }
        } else if kw == "include"@ {
            if tail.len() > 0 && is_ws(tail[0]) {
                LineOut::Import(trimmed(tail))
            } else {
                LineOut::Reject(ErrView::UnknownInstruction(line))
            }
        } else {
            LineOut::Reject(ErrView::UnknownInstruction(line))
        }
    }
}

/// What one line contributes: blank lines are discarded, a pragma is marked,
/// directives are decoded, comments keep the whole line, and every other
/// line is typed verbatim.
pub open spec fn classify(line: Seq<char>) -> LineOut {
    if line.len() == 0 {
        LineOut::Blank
    } else if is_pragma_line(line) {
        LineOut::PragmaHead(line.skip(2))
    } else if is_directive_line(line) {
        directive_out(line)
    } else if is_comment_line(line) {
        LineOut::Emit(InstrView::Comment(line))
    } else {
        LineOut::Emit(InstrView::SendLine(line))
    }
}

/// The outcome of a parse: the instructions and the recorded references to
/// other scripts (each with the instruction index it belongs at), or the
/// first failure in line order.
pub enum ParseOut {
    /// A successful parse.
    Done(Seq<InstrView>, Seq<(Seq<char>, int)>),
    /// A failed parse.
    Reject(ErrView),
}

/// Folds the lines of a script over the instructions gathered so far; a
/// pragma is accepted only while no instruction was gathered.
pub open spec fn parse_rest(
    lines: Seq<Seq<char>>,
    acc: Seq<InstrView>,
    incs: Seq<(Seq<char>, int)>,
) -> ParseOut
    decreases lines.len(),
{
    if lines.len() == 0 {
        ParseOut::Done(acc, incs)
    } else {
        match classify(lines[0]) {
            LineOut::Blank => parse_rest(lines.skip(1), acc, incs),
            LineOut::Emit(v) => parse_rest(lines.skip(1), acc.push(v), incs),
            LineOut::Import(p) => parse_rest(lines.skip(1), acc, incs.push((p, acc.len() as int))),
            LineOut::PragmaHead(p) => if acc.len() == 0 {
                parse_rest(lines.skip(1), acc.push(InstrView::Pragma(p)), incs)
            } else {
                ParseOut::Reject(ErrView::PragmaFirst)
            },
            LineOut::Reject(e) => ParseOut::Reject(e),
        }
    }
}

/// What parsing a source text yields.
pub open spec fn spec_parse(s: Seq<char>) -> ParseOut {
    parse_rest(split_lines(s), Seq::empty(), Seq::empty())
}

/// The instructions one line contributes to a successful parse.
pub open spec fn emitted(line: Seq<char>) -> Seq<InstrView> {
    match classify(line) {
        LineOut::Emit(v) => seq![v],
        LineOut::PragmaHead(p) => seq![InstrView::Pragma(p)],
        _ => Seq::empty(),
    }
}

/// A line that is neither blank, a pragma, a directive nor a comment is
/// typed verbatim: it contributes exactly one `SendLine` whose payload is
/// the whole line.
pub proof fn lemma_plain_line(line: Seq<char>)
    requires
        line.len() > 0,
        !is_pragma_line(line),
        !is_directive_line(line),
        !is_comment_line(line),
    ensures
        classify(line) == LineOut::Emit(InstrView::SendLine(line)),
        emitted(line) == seq![InstrView::SendLine(line)],
{
}

/// The parser round trip: a successful parse yields, in order, exactly the
/// instructions the lines contribute one by one — so every verbatim line
/// stands as one `SendLine` holding the line unchanged.
pub proof fn lemma_parse_round_trip(lines: Seq<Seq<char>>, acc: Seq<InstrView>, incs: Seq<(Seq<char>, int)>)
    ensures
        parse_rest(lines, acc, incs) matches ParseOut::Done(out, used) ==> out == acc
            + lines.map_values(|l: Seq<char>| emitted(l)).flatten(),
    decreases lines.len(),
{
    let f = |l: Seq<char>| emitted(l);
    if lines.len() == 0 {
        assert(lines.map_values(f).len() == 0);
        assert(acc + lines.map_values(f).flatten() =~= acc);
    } else {
        let rest = lines.skip(1);
        assert(lines.map_values(f).drop_first() =~= rest.map_values(f));
        assert(lines.map_values(f).first() == emitted(lines[0]));
        match classify(lines[0]) {
            LineOut::Blank => {
                lemma_parse_round_trip(rest, acc, incs);
                if parse_rest(lines, acc, incs) matches ParseOut::Done(out, _) {
                    assert(acc + rest.map_values(f).flatten() =~= acc + lines.map_values(
                        f,
                    ).flatten());
                }
            },
            LineOut::Emit(v) => {
                lemma_parse_round_trip(rest, acc.push(v), incs);
                if parse_rest(lines, acc, incs) matches ParseOut::Done(out, _) {
                    assert(acc.push(v) + rest.map_values(f).flatten() =~= acc + lines.map_values(
                        f,
                    ).flatten());
                }
            },
            LineOut::Import(p) => {
                lemma_parse_round_trip(rest, acc, incs.push((p, acc.len() as int)));
                if parse_rest(lines, acc, incs) matches ParseOut::Done(out, _) {
                    assert(acc + rest.map_values(f).flatten() =~= acc + lines.map_values(
                        f,
                    ).flatten());
                }
            },
            LineOut::PragmaHead(p) => {
                if acc.len() == 0 {
                    lemma_parse_round_trip(rest, acc.push(InstrView::Pragma(p)), incs);
                    if parse_rest(lines, acc, incs) matches ParseOut::Done(out, _) {
                        assert(acc.push(InstrView::Pragma(p)) + rest.map_values(f).flatten()
                            =~= acc + lines.map_values(f).flatten());
                    }
                }
            },
            LineOut::Reject(_) => {
            },
        }
    }
}

/// The pragma-first law: when a pragma line stands after some line that
/// already contributed an instruction, and no earlier line failed or was
/// itself a pragma, the parse fails with `PragmaFirst`.
pub proof fn lemma_pragma_first(
    lines: Seq<Seq<char>>,
    acc: Seq<InstrView>,
    incs: Seq<(Seq<char>, int)>,
    i: int,
)
    requires
        0 <= i < lines.len(),
        classify(lines[i]) is PragmaHead,
        forall|j: int| 0 <= j < i ==> !((#[trigger] classify(lines[j])) is Reject),
        forall|j: int| 0 <= j < i ==> !((#[trigger] classify(lines[j])) is PragmaHead),
        acc.len() > 0 || exists|j: int| 0 <= j < i && (#[trigger] classify(lines[j])) is Emit,
    ensures
        parse_rest(lines, acc, incs) == ParseOut::Reject(ErrView::PragmaFirst),
    decreases i,
{
    if i == 0 {
        assert(acc.len() > 0);
    } else {
        let rest = lines.skip(1);
        assert(rest[i - 1] == lines[i]);
        assert forall|j: int| 0 <= j < i - 1 implies !((#[trigger] classify(rest[j])) is Reject)
            && !(classify(rest[j]) is PragmaHead) by {
            assert(rest[j] == lines[j + 1]);
        }
        match classify(lines[0]) {
            LineOut::Blank => {
                assert(acc.len() > 0 || exists|j: int|
                    0 <= j < i - 1 && (#[trigger] classify(rest[j])) is Emit) by {
                    if acc.len() == 0 {
                        let j = choose|j: int|
                            0 <= j < i && (#[trigger] classify(lines[j])) is Emit;
                        assert(j != 0);
                        assert(rest[j - 1] == lines[j]);
                        assert(classify(rest[j - 1]) is Emit);
                    }
                }
                lemma_pragma_first(rest, acc, incs, i - 1);
            },
            LineOut::Emit(v) => {
                lemma_pragma_first(rest, acc.push(v), incs, i - 1);
            },
            LineOut::Import(p) => {
                assert(acc.len() > 0 || exists|j: int|
                    0 <= j < i - 1 && (#[trigger] classify(rest[j])) is Emit) by {
                    if acc.len() == 0 {
                        let j = choose|j: int|
                            0 <= j < i && (#[trigger] classify(lines[j])) is Emit;
                        assert(j != 0);
                        assert(rest[j - 1] == lines[j]);
                        assert(classify(rest[j - 1]) is Emit);
                    }
                }
                lemma_pragma_first(rest, acc, incs.push((p, acc.len() as int)), i - 1);
            },
            LineOut::PragmaHead(_) => {
                assert(false);
            },
            LineOut::Reject(_) => {
                assert(false);
            },
        }
    }
}

/// Whether a character is line-inner whitespace.
fn is_ws_char(c: char) -> (r: bool)
    ensures
        r == is_ws(c),
{
    c == ' ' || c == '\t'
}

/// The length of the whitespace prefix of a line.
fn ws_count(v: &Vec<char>) -> (r: usize)
    ensures
        r == ws_prefix_len(v@),
{
    let mut i: usize = 0;
    proof {
        assert(v@.skip(0) =~= v@);
    }
    while i < v.len() && is_ws_char(v[i])
        invariant
            i <= v@.len(),
            ws_prefix_len(v@) == i + ws_prefix_len(v@.skip(i as int)),
            forall|j: int| 0 <= j < i ==> is_ws(#[trigger] v@[j]),
        decreases v@.len() - i,
    {
        proof {
            assert(v@.skip(i as int)[0] == v@[i as int]);
            assert(v@.skip(i as int).skip(1) =~= v@.skip(i + 1));
        }
        i = i + 1;
    }
    proof {
        if i < v@.len() {
            assert(v@.skip(i as int)[0] == v@[i as int]);
        }
        assert(ws_prefix_len(v@.skip(i as int)) == 0);
    }
    i
}

/// The length of the whitespace suffix of a line.
fn ws_count_end(v: &Vec<char>) -> (r: usize)
    ensures
        r == ws_suffix_len(v@),
{
    let mut i: usize = v.len();
    proof {
        assert(v@.take(v@.len() as int) =~= v@);
    }
    while i > 0 && is_ws_char(v[i - 1])
        invariant
            i <= v@.len(),
            ws_suffix_len(v@) == (v@.len() - i) + ws_suffix_len(v@.take(i as int)),
        decreases i,
    {
        proof {
            assert(v@.take(i as int).last() == v@[i - 1]);
            assert(v@.take(i as int).drop_last() =~= v@.take(i - 1));
        }
        i = i - 1;
    }
    proof {
        if i > 0 {
            assert(v@.take(i as int).last() == v@[i - 1]);
        }
        assert(ws_suffix_len(v@.take(i as int)) == 0);
    }
    v.len() - i
}

/// The length of the lower-case-letter prefix of a line.
fn alpha_count(v: &Vec<char>) -> (r: usize)
    ensures
        r == alpha_prefix_len(v@),
{
    let mut i: usize = 0;
    proof {
        assert(v@.skip(0) =~= v@);
    }
    while i < v.len() && 'a' <= v[i] && v[i] <= 'z'
        invariant
            i <= v@.len(),
            alpha_prefix_len(v@) == i + alpha_prefix_len(v@.skip(i as int)),
        decreases v@.len() - i,
    {
        proof {
            assert(v@.skip(i as int)[0] == v@[i as int]);
            assert(v@.skip(i as int).skip(1) =~= v@.skip(i + 1));
        }
        i = i + 1;
    }
    proof {
        if i < v@.len() {
            assert(v@.skip(i as int)[0] == v@[i as int]);
        }
        assert(alpha_prefix_len(v@.skip(i as int)) == 0);
    }
    i
}

/// Copies a line with whitespace removed at both ends.
fn trim_vec(v: &Vec<char>) -> (r: Vec<char>)
    ensures
        r@ == trimmed(v@),
{
    let a = ws_count(v);
    proof {
        lemma_ws_prefix(v@);
    }
    let t = chars_range(v, a, v.len());
    proof {
        assert(t@ =~= strip_ws(v@));
    }
    let b = ws_count_end(&t);
    proof {
        lemma_ws_suffix(t@);
    }
    let r = chars_range(&t, 0, t.len() - b);
    proof {
        assert(r@ =~= trimmed(v@));
    }
    r
}

/// Whether the keyword matches a literal.
fn kw_eq(kw: &Vec<char>, lit: &str) -> (r: bool)
    ensures
        r == (kw@ == lit@),
{
    let a = chars_to_string(kw);
    let b = lit.to_owned();
    a == b
}

/// The folded value never falls below its accumulator.
proof fn lemma_digits_acc_ge(s: Seq<char>, acc: nat)
    ensures
        digits_acc(s, acc) >= acc,
    decreases s.len(),
{
    if s.len() > 0 {
        assert(digit_of_char(s[0]) >= 0);
        lemma_digits_acc_ge(s.skip(1), (acc * 10 + digit_of_char(s[0])) as nat);
    }
}

/// Parses a line of decimal digits; fails on an empty line, a non-digit, or
/// a value past the largest representable number.
fn parse_u64_digits(v: &Vec<char>) -> (r: Option<u64>)
    ensures
        r is Some <==> (v@.len() > 0 && all_digits(v@) && digits_val(v@) <= u64::MAX),
        r matches Some(n) ==> n == digits_val(v@),
{
    if v.len() == 0 {
        return None;
    }
    let mut acc: u64 = 0;
    let mut i: usize = 0;
    proof {
        assert(v@.skip(0) =~= v@);
    }
    while i < v.len()
        invariant
            i <= v@.len(),
            forall|j: int| 0 <= j < i ==> is_digit(#[trigger] v@[j]),
            digits_val(v@) == digits_acc(v@.skip(i as int), acc as nat),
        decreases v@.len() - i,
    {
        let c = v[i];
        if !('0' <= c && c <= '9') {
            proof {
                assert(!is_digit(v@[i as int]));
            }
            return None;
        }
        let d: u64 = (c as u32 as u64) - 48;
        proof {
            assert(v@.skip(i as int)[0] == v@[i as int]);
            assert(v@.skip(i as int).skip(1) =~= v@.skip(i + 1));
            assert(d == digit_of_char(v@[i as int]));
            assert(digits_acc(v@.skip(i as int), acc as nat) == digits_acc(
                v@.skip(i + 1),
                (acc * 10 + digit_of_char(v@[i as int])) as nat,
            ));
            lemma_digits_acc_ge(v@.skip(i + 1), (acc * 10 + d) as nat);
        }
        let scaled = match acc.checked_mul(10) {
            Some(x) => x,
            None => {
                return None;
            },
        };
        let next = match scaled.checked_add(d) {
            Some(x) => x,
            None => {
                return None;
            },
        };
        acc = next;
        i = i + 1;
    }
    proof {
        assert(v@.skip(v@.len() as int) =~= Seq::<char>::empty());
    }
    Some(acc)
}

/// What one line contributed, as runnable values.
enum LineStep {
    /// A discarded blank line.
    Blank,
    /// One instruction.
    Emit(Instruction),
    /// A reference to another script.
    Import(String),
    /// A pragma payload.
    PragmaHead(String),
    /// A malformed line.
    Reject(Error),
}

/// Renders a whole line as an owned string.
fn line_string(line: &Vec<char>) -> (r: String)
    ensures
        r@ == line@,
{
    chars_to_string(line)
}

/// Decodes one directive line (a line starting `#$`).
fn directive_step(line: &Vec<char>) -> (r: LineStep)
    requires
        is_directive_line(line@),
    ensures
        r matches LineStep::Emit(i) ==> directive_out(line@) == LineOut::Emit(i@),
        r matches LineStep::Import(p) ==> directive_out(line@) == LineOut::Import(p@),
        r matches LineStep::Reject(e) ==> directive_out(line@) == LineOut::Reject(e@),
        !(r is Blank) && !(r is PragmaHead),
        r is Emit || r is Import || r is Reject,
{
    let n = line.len();
    let rest = chars_range(line, 2, n);
    proof {
        assert(rest@ =~= line@.skip(2));
    }
    if rest.len() == 0 {
        return LineStep::Reject(Error::UnknownInstruction(String::new()));
    }
    let w = ws_count(&rest);
    proof {
        lemma_ws_prefix(rest@);
    }
    if w == rest.len() {
        proof {
            assert(strip_ws(rest@).len() == 0);
        }
        return LineStep::Reject(Error::UnknownInstruction(String::new()));
    }
    if !is_ws_char(rest[0]) {
        proof {
            assert(strip_ws(rest@).len() > 0);
        }
        return LineStep::Reject(Error::UnknownInstruction(line_string(line)));
    }
    let t = chars_range(&rest, w, rest.len());
    proof {
        assert(t@ =~= strip_ws(rest@));
        assert(strip_ws(rest@).len() > 0);
    }
    let kl = alpha_count(&t);
    proof {
        lemma_alpha_prefix(t@);
    }
    let kw = chars_range(&t, 0, kl);
    let tail = chars_range(&t, kl, t.len());
    proof {
        assert(kw@ =~= t@.take(alpha_prefix_len(t@)));
        assert(tail@ =~= t@.skip(alpha_prefix_len(t@)));
    }
    let has_payload_sep = tail.len() > 0 && is_ws_char(tail[0]);
    if kw_eq(&kw, "sendline") || kw_eq(&kw, "sendcontrol") || kw_eq(&kw, "expect") || kw_eq(
        &kw,
        "regex",
    ) || kw_eq(&kw, "send") {
        if !has_payload_sep {
            return LineStep::Reject(Error::UnknownInstruction(line_string(line)));
        }
        let payload = chars_range_to_string(&tail, 1, tail.len());
        proof {
            assert(payload@ =~= tail@.skip(1));
        }
        if kw_eq(&kw, "sendline") {
            return LineStep::Emit(Instruction::SendLine(payload));
        }
        if kw_eq(&kw, "sendcontrol") {
            return LineStep::Emit(Instruction::SendControl(payload));
        }
        if kw_eq(&kw, "expect") {
            return LineStep::Emit(Instruction::Expect(payload));
        }
        if kw_eq(&kw, "regex") {
            return LineStep::Emit(Instruction::Regex(payload));
        }
        return LineStep::Emit(Instruction::Send(payload));
    }
    if kw_eq(&kw, "readline") || kw_eq(&kw, "wait") || kw_eq(&kw, "clear") || kw_eq(
        &kw,
        "flush",
    ) {
        let tw = ws_count(&tail);
        proof {
            lemma_ws_prefix(tail@);
        }
        if tw != tail.len() {
            proof {
                assert(strip_ws(tail@).len() > 0);
            }
            return LineStep::Reject(Error::UnknownInstruction(line_string(line)));
        }
        proof {
            assert(strip_ws(tail@).len() == 0);
        }
        if kw_eq(&kw, "readline") {
            return LineStep::Emit(Instruction::ReadLine);
        }
        if kw_eq(&kw, "wait") {
            return LineStep::Emit(Instruction::Wait);
        }
        if kw_eq(&kw, "clear") {
            return LineStep::Emit(Instruction::Clear);
        }
        return LineStep::Emit(Instruction::Flush);
    }
    if kw_eq(&kw, "sleep") {
        if !has_payload_sep {
            return LineStep::Reject(Error::UnknownInstruction(line_string(line)));
        }
        let num = trim_vec(&tail);
        match parse_u64_digits(&num) {
            Some(value) => {
                return LineStep::Emit(Instruction::Sleep(value));
            },
            None => {
                return LineStep::Reject(Error::NumberExpected(chars_to_string(&num)));
            },
        }
    }
    if kw_eq(&kw, "include") {
        if !has_payload_sep {
            return LineStep::Reject(Error::UnknownInstruction(line_string(line)));
        }
        let path = trim_vec(&tail);
        return LineStep::Import(chars_to_string(&path));
    }
    LineStep::Reject(Error::UnknownInstruction(line_string(line)))
}

/// Decodes one line of a script.
fn classify_line(line: &Vec<char>) -> (r: LineStep)
    ensures
        r is Blank ==> classify(line@) == LineOut::Blank,
        r matches LineStep::Emit(i) ==> classify(line@) == LineOut::Emit(i@),
        r matches LineStep::Import(p) ==> classify(line@) == LineOut::Import(p@),
        r matches LineStep::PragmaHead(p) ==> classify(line@) == LineOut::PragmaHead(p@),
        r matches LineStep::Reject(e) ==> classify(line@) == LineOut::Reject(e@),
{
    let n = line.len();
    if n == 0 {
        return LineStep::Blank;
    }
    if n >= 3 && line[0] == '#' && line[1] == '!' {
        let payload = chars_range_to_string(line, 2, n);
        proof {
            assert(payload@ =~= line@.skip(2));
        }
        return LineStep::PragmaHead(payload);
    }
    if n >= 2 && line[0] == '#' && line[1] == '$' {
        return directive_step(line);
    }
    let w = ws_count(line);
    proof {
        lemma_ws_prefix(line@);
    }
    if w < n && line[w] == '#' && (w + 1 == n || (line[w + 1] != '$' && line[w + 1] != '!')) {
        proof {
            assert(strip_ws(line@)[0] == line@[w as int]);
            if w + 1 < n {
                assert(strip_ws(line@)[1] == line@[w + 1]);
            }
            assert(is_comment_line(line@));
        }
        return LineStep::Emit(Instruction::Comment(line_string(line)));
    }
    proof {
        if w < n {
            assert(strip_ws(line@)[0] == line@[w as int]);
            if w + 1 < n {
                assert(strip_ws(line@)[1] == line@[w + 1]);
            }
        }
        assert(!is_comment_line(line@));
    }
    LineStep::Emit(Instruction::SendLine(line_string(line)))
}

/// No newline stands before position `k`, and one stands there when `k` is
/// inside the text: then `k` is what `find_newline` finds.
proof fn lemma_find_newline_at(s: Seq<char>, k: int)
    requires
        0 <= k <= s.len(),
        forall|x: int| 0 <= x < k ==> s[x] != '\n',
        k < s.len() ==> s[k] == '\n',
    ensures
        k < s.len() ==> find_newline(s) == k,
        k == s.len() ==> find_newline(s) < 0,
    decreases s.len(),
{
    if s.len() > 0 && s[0] != '\n' {
        assert(k > 0);
        assert forall|x: int| 0 <= x < k - 1 implies s.skip(1)[x] != '\n' by {
            assert(s.skip(1)[x] == s[x + 1]);
        }
        if k - 1 < s.len() - 1 {
            assert(s.skip(1)[k - 1] == s[k]);
        }
        lemma_find_newline_at(s.skip(1), k - 1);
    }
}

/// Splits a source text into its lines.
fn split_into_lines(chars: &Vec<char>) -> (r: Vec<Vec<char>>)
    ensures
        r.deep_view() == split_lines(chars@),
{
    let n = chars.len();
    let mut lines: Vec<Vec<char>> = Vec::new();
    let mut pos: usize = 0;
    proof {
        assert(chars@.skip(0) =~= chars@);
        assert(lines.deep_view() =~= Seq::<Seq<char>>::empty());
        assert(Seq::<Seq<char>>::empty() + split_lines(chars@) =~= split_lines(chars@));
    }
    loop
        invariant_except_break
            split_lines(chars@) == lines.deep_view() + split_lines(chars@.skip(pos as int)),
        invariant
            pos <= n,
            n == chars@.len(),
        ensures
            lines.deep_view() == split_lines(chars@),
        decreases n - pos + 1,
    {
        let mut j: usize = pos;
        while j < n && chars[j] != '\n'
            invariant
                pos <= j <= n,
                n == chars@.len(),
                forall|x: int| pos <= x < j ==> chars@[x] != '\n',
            decreases n - j,
        {
            j = j + 1;
        }
        proof {
            let tail = chars@.skip(pos as int);
            assert forall|x: int| 0 <= x < j - pos implies tail[x] != '\n' by {
                assert(tail[x] == chars@[x + pos]);
            }
            if j < n {
                assert(tail[j - pos] == chars@[j as int]);
            }
            lemma_find_newline_at(tail, j - pos);
        }
        let mut piece = chars_range(chars, pos, j);
        if piece.len() > 0 && piece[piece.len() - 1] == '\r' {
            let _ = piece.pop();
        }
        proof {
            let tail = chars@.skip(pos as int);
            assert(chars@.subrange(pos as int, j as int) =~= tail.take(j - pos));
            assert(piece@ =~= strip_cr(tail.take(j - pos)));
            if j < n {
                assert(tail.take(j - pos) =~= tail.take(find_newline(tail)));
            } else {
                assert(tail.take(j - pos) =~= tail);
            }
        }
        let ghost pre_lines = lines.deep_view();
        let ghost piece_view = piece@;
        lines.push(piece);
        proof {
            assert(lines@[lines@.len() - 1].deep_view() =~= piece_view);
            assert(lines.deep_view() =~= pre_lines.push(piece_view));
        }
        if j == n {
            proof {
                let tail = chars@.skip(pos as int);
                assert(split_lines(tail) =~= seq![strip_cr(tail)]);
                assert(lines.deep_view() =~= split_lines(chars@));
            }
            break ;
        }
        proof {
            let tail = chars@.skip(pos as int);
            assert(tail.skip(find_newline(tail) + 1) =~= chars@.skip(j + 1));
            assert(split_lines(tail) =~= seq![strip_cr(tail.take(find_newline(tail)))]
                + split_lines(chars@.skip(j + 1)));
            assert(lines.deep_view() + split_lines(chars@.skip(j + 1)) =~= split_lines(chars@));
        }
        pos = j + 1;
    }
    lines
}

/// A reference to another script found while parsing.
#[derive(Debug)]
pub struct Include {
    /// The raw path text of the reference.
    pub path: String,
    /// The instruction index the spliced subtree belongs at.
    pub index: usize,
}

impl View for Include {
    type V = (Seq<char>, int);

    open spec fn view(&self) -> (Seq<char>, int) {
        (self.path@, self.index as int)
    }
}

impl DeepView for Include {
    type V = (Seq<char>, int);

    open spec fn deep_view(&self) -> (Seq<char>, int) {
        (self.path@, self.index as int)
    }
}

/// The script parser.
#[derive(Debug)]
pub struct ScriptParser;

impl ScriptParser {
    /// Parses a script source into its instructions and the references to
    /// other scripts it makes, each with the index it belongs at.
    pub fn parse_file(source: &str) -> (r: Result<(Vec<Instruction>, Vec<Include>), Error>)
        ensures
            r matches Ok(out) ==> spec_parse(source@) == ParseOut::Done(
                out.0.deep_view(),
                out.1.deep_view(),
            ),
            r matches Err(e) ==> spec_parse(source@) == ParseOut::Reject(e@),
    {
        let chars = str_to_chars(source);
        let lines = split_into_lines(&chars);
        let mut instrs: Vec<Instruction> = Vec::new();
        let mut incs: Vec<Include> = Vec::new();
        let mut li: usize = 0;
        let ghost all_lines = lines.deep_view();
        proof {
            assert(all_lines.skip(0) =~= all_lines);
            assert(instrs.deep_view() =~= Seq::<InstrView>::empty());
            assert(incs.deep_view() =~= Seq::<(Seq<char>, int)>::empty());
        }
        loop
            invariant
                li <= lines@.len(),
                lines.deep_view() == all_lines,
                all_lines == split_lines(source@),
                lines@.len() == all_lines.len(),
                spec_parse(source@) == parse_rest(
                    all_lines.skip(li as int),
                    instrs.deep_view(),
                    incs.deep_view(),
                ),
            ensures
                li == lines@.len(),
                spec_parse(source@) == parse_rest(
                    Seq::<Seq<char>>::empty(),
                    instrs.deep_view(),
                    incs.deep_view(),
                ),
            decreases lines@.len() - li,
        {
            if li == lines.len() {
                proof {
                    assert(all_lines.skip(li as int) =~= Seq::<Seq<char>>::empty());
                }
                break ;
            }
            proof {
                assert(all_lines.skip(li as int)[0] == all_lines[li as int]);
                assert(all_lines[li as int] == lines@[li as int].deep_view());
                assert(lines@[li as int].deep_view() =~= lines@[li as int]@);
                assert(all_lines.skip(li as int).skip(1) =~= all_lines.skip(li + 1));
            }
            let step = classify_line(&lines[li]);
            match step {
                LineStep::Blank => (),
                LineStep::Emit(i) => {
                    let ghost pre = instrs.deep_view();
                    instrs.push(i);
                    proof {
                        assert(instrs.deep_view() =~= pre.push(i@));
                    }
                },
                LineStep::Import(p) => {
                    let at = instrs.len();
                    let ghost pre = incs.deep_view();
                    let ghost pv = p@;
                    incs.push(Include { path: p, index: at });
                    proof {
                        assert(incs.deep_view() =~= pre.push((pv, at as int)));
                    }
                },
                LineStep::PragmaHead(p) => {
                    if instrs.len() > 0 {
                        return Err(Error::PragmaFirst);
                    }
                    let ghost pre = instrs.deep_view();
                    let ghost pv = p@;
                    instrs.push(Instruction::Pragma(p));
                    proof {
                        assert(instrs.deep_view() =~= pre.push(InstrView::Pragma(pv)));
                    }
                },
                LineStep::Reject(e) => {
                    return Err(e);
                },
            }
            li = li + 1;
        }
        Ok((instrs, incs))
    }

    /// Parses a script source into its instructions alone.
    pub fn parse(source: &str) -> (r: Result<Vec<Instruction>, Error>)
        ensures
            r matches Ok(instrs) ==> (spec_parse(source@) matches ParseOut::Done(ivs, _)
                && ivs == instrs.deep_view()),
            r matches Err(e) ==> spec_parse(source@) == ParseOut::Reject(e@),
    {
        match Self::parse_file(source) {
            Ok((instrs, _incs)) => Ok(instrs),
            Err(e) => Err(e),
        }
    }
}

} // verus!
