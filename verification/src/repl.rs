//! The decisions of the interactive session: which prompt to show, and what to do
//! with each line that is typed. Reading, printing and running stay with the caller.
use vstd::prelude::*;
use crate::ast::{stmts_v, Program, StmtV};
use crate::grammar::{program, wf_toks};
use crate::lexer::{lex_program, stalls, tokenize, toks_view, Lexed};
use crate::parser::parse;
use crate::strings::{chomp, chomp_s, trim_chars, trim_s};
use crate::text::{chars_of, same_chars, string_of};

verus! {

/// What the session does after a line has been entered.
pub enum ReplStep {
    /// The line asked to leave.
    Quit,
    /// The input makes the lexer stand still.
    Hang,
    /// The input so far forms a program: run it (the buffer is now empty).
    Run(Program),
    /// A blank line ended input that does not parse (the buffer is now empty).
    Report,
    /// The input does not parse yet: wait for more lines.
    More,
}

pub enum StepV {
    Quit,
    Hang,
    Run(Seq<StmtV>),
    Report,
    More,
}

impl ReplStep {
    pub open spec fn view(&self) -> StepV {
        match self {
            ReplStep::Quit => StepV::Quit,
            ReplStep::Hang => StepV::Hang,
            ReplStep::Run(p) => StepV::Run(stmts_v(*p)),
            ReplStep::Report => StepV::Report,
            ReplStep::More => StepV::More,
        }
    }
}

/// The prompt: a sunrise when no input is pending, indentation while a
/// statement is still being entered.
pub open spec fn prompt_s(buf: Seq<char>) -> Seq<char> {
    if buf.len() == 0 {
        "🌅 "@
    } else {
        "   "@
    }
}

/// The line without its line ending (trailing line feeds, then carriage returns).
pub open spec fn entered_line(line: Seq<char>) -> Seq<char> {
    chomp_s(line)
}

/// The pending input once `line` has been added to it.
pub open spec fn entered(buf: Seq<char>, line: Seq<char>) -> Seq<char> {
    buf + entered_line(line) + seq!['\n']
}

/// A line that, trimmed, says `avslutt`.
pub open spec fn wants_quit(line: Seq<char>) -> bool {
    trim_s(entered_line(line)) == "avslutt"@
}

/// Input that does not parse: a blank line gives up on it, any other line waits
/// for more.
pub open spec fn unparsed(b: Seq<char>, line: Seq<char>) -> (StepV, Seq<char>) {
    if trim_s(entered_line(line)).len() == 0 {
        (StepV::Report, seq![])
    } else {
        (StepV::More, b)
    }
}

/// The step taken on `line` with `buf` pending, and the pending input after it.
pub open spec fn repl_s(buf: Seq<char>, line: Seq<char>) -> (StepV, Seq<char>) {
    if wants_quit(line) {
        (StepV::Quit, buf)
    } else {
        let b = entered(buf, line);
        match lex_program(b) {
            Lexed::Stall => (StepV::Hang, b),
            Lexed::Toks(ts) => match program(ts) {
                Ok(prog) => (StepV::Run(prog), seq![]),
                Err(_) => unparsed(b, line),
            },
            Lexed::Fail(_) => unparsed(b, line),
        }
    }
}

pub fn prompt(buf: &str) -> (p: &'static str)
    ensures
        p@ == prompt_s(buf@),
{
    if buf.is_empty() {
        "🌅 "
    } else {
        "   "
    }
}

/// Takes one line of input (as read, line ending included) into the pending
/// input `buf` and decides what happens next.
pub fn repl_line(buf: &mut String, line: &str) -> (r: ReplStep)
    ensures
        (r@, final(buf)@) == repl_s(old(buf)@, line@),
{
    let lc = chars_of(line);
    let ch = chomp(&lc);
    let tr = trim_chars(&ch);
    let quit = chars_of("avslutt");
    if same_chars(&tr, &quit) {
        return ReplStep::Quit;
    }
    let typed = string_of(ch.as_slice());
    buf.append(typed.as_str());
    buf.append("\n");
    proof {
        reveal_strlit("\n");
    }
    assert(buf@ =~= entered(old(buf)@, line@));
    if stalls(buf.as_str()) {
        return ReplStep::Hang;
    }
    let parsed = match tokenize(buf.as_str()) {
        Ok(tokens) => {
            assert(wf_toks(toks_view(tokens@)));
            match parse(tokens) {
                Ok(p) => Some(p),
                Err(_) => None,
            }
        },
        Err(_) => None,
    };
    match parsed {
        Some(p) => {
            *buf = String::new();
            ReplStep::Run(p)
        },
        None => {
            if tr.len() == 0 {
                *buf = String::new();
                ReplStep::Report
            } else {
                ReplStep::More
            }
        },
    }
}

} // verus!
