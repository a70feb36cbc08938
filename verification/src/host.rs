//! What a running program asks of the world outside it, and what it is answered.
//!
//! The interpreter never touches a terminal, a clock, a socket, a file or a
//! floating-point unit itself. Where it needs one it stops with a `Request`; the host
//! performs it and runs the program again from the start with one more `Answer` on
//! the tape. A run that finds its answer on the tape takes it and goes on, so a run
//! with every answer it needs is the whole execution of the program.
use vstd::prelude::*;
use crate::ast::BinOpKind;

verus! {

/// An operand of decimal arithmetic: a whole number is converted by the host, as
/// `as f64` does.
#[derive(Clone, Copy, Debug, PartialEq, Eq, Structural)]
pub enum Num {
    Int(i64),
    Float(u64),
}

/// Work on doubles, which only the host does. Doubles travel as their bits.
pub enum FloatOp {
    /// `str::parse::<f64>` of the text.
    Parse(String),
    /// `n as f64`.
    FromInt(i64),
    /// `f as i64`, answered with `Answer::Int`.
    ToInt(u64),
    /// `f as u16`, answered with `Answer::Int`.
    ToPort(u64),
    /// The text the language prints for a decimal: the whole number when the value is
    /// whole and under 10^15 in size, else Rust's `{}` of it.
    Show(u64),
    /// `+ - * / %` of two numbers, at least one of them decimal.
    Arith(BinOpKind, Num, Num),
}

pub enum Request {
    /// Write the text and a line break to standard output.
    Print(String),
    /// Flush standard output and read one line of standard input (empty at its end).
    ReadInput,
    /// Sleep `max(n, 0)` seconds, `n` a whole number converted by `as f64`.
    SleepInt(i64),
    /// Sleep `max(f, 0)` seconds (`Duration::from_secs_f64`).
    SleepFloat(u64),
    /// Open a TCP listener on 0.0.0.0 at the port and announce it on standard error;
    /// `Answer::Failed` with the system's message if that fails.
    Listen(u16),
    /// Wait for the next connection on the listener.
    Accept,
    /// Read one line (with its line break) from the current connection.
    ReadConn,
    /// Read that many bytes from the current connection, as text (lossy UTF-8).
    ReadBody(usize),
    /// Write the text to the current connection and close it.
    Send(String),
    /// Read a whole file as text; `Answer::Failed` with the system's message.
    ReadFile(String),
    /// Write the text to a file; `Answer::Failed` with the system's message.
    WriteFile(String, String),
    Float(FloatOp),
}

pub enum Answer {
    Done,
    Text(String),
    Bits(u64),
    Int(i64),
    Failed(String),
}

/// Why a run stopped before its end.
pub enum Halt {
    /// A run-time error of the program (`Prøv …` catches these).
    Error(String),
    /// An arithmetic overflow that aborts the program.
    Panic(String),
    /// The run needs the answer to this request next.
    Pending(Request),
    /// The step budget of the run is spent.
    OutOfFuel,
    /// The tape held an answer of the wrong kind for the request it stood for.
    Mismatch,
}

pub enum FloatOpV {
    Parse(Seq<char>),
    FromInt(i64),
    ToInt(u64),
    ToPort(u64),
    Show(u64),
    Arith(BinOpKind, Num, Num),
}

pub enum RequestV {
    Print(Seq<char>),
    ReadInput,
    SleepInt(i64),
    SleepFloat(u64),
    Listen(u16),
    Accept,
    ReadConn,
    ReadBody(nat),
    Send(Seq<char>),
    ReadFile(Seq<char>),
    WriteFile(Seq<char>, Seq<char>),
    Float(FloatOpV),
}

pub enum AnswerV {
    Done,
    Text(Seq<char>),
    Bits(u64),
    Int(i64),
    Failed(Seq<char>),
}

pub enum HaltV {
    Error(Seq<char>),
    Panic(Seq<char>),
    Pending(RequestV),
    OutOfFuel,
    Mismatch,
}

impl View for FloatOp {
    type V = FloatOpV;

    open spec fn view(&self) -> FloatOpV {
        match self {
            FloatOp::Parse(s) => FloatOpV::Parse(s@),
            FloatOp::FromInt(n) => FloatOpV::FromInt(*n),
            FloatOp::ToInt(b) => FloatOpV::ToInt(*b),
            FloatOp::ToPort(b) => FloatOpV::ToPort(*b),
            FloatOp::Show(b) => FloatOpV::Show(*b),
            FloatOp::Arith(op, a, b) => FloatOpV::Arith(*op, *a, *b),
        }
    }
}

impl View for Request {
    type V = RequestV;

    open spec fn view(&self) -> RequestV {
        match self {
            Request::Print(s) => RequestV::Print(s@),
            Request::ReadInput => RequestV::ReadInput,
            Request::SleepInt(n) => RequestV::SleepInt(*n),
            Request::SleepFloat(b) => RequestV::SleepFloat(*b),
            Request::Listen(p) => RequestV::Listen(*p),
            Request::Accept => RequestV::Accept,
            Request::ReadConn => RequestV::ReadConn,
            Request::ReadBody(n) => RequestV::ReadBody(*n as nat),
            Request::Send(s) => RequestV::Send(s@),
            Request::ReadFile(s) => RequestV::ReadFile(s@),
            Request::WriteFile(p, c) => RequestV::WriteFile(p@, c@),
            Request::Float(op) => RequestV::Float(op@),
        }
    }
}

impl View for Answer {
    type V = AnswerV;

    open spec fn view(&self) -> AnswerV {
        match self {
            Answer::Done => AnswerV::Done,
            Answer::Text(s) => AnswerV::Text(s@),
            Answer::Bits(b) => AnswerV::Bits(*b),
            Answer::Int(n) => AnswerV::Int(*n),
            Answer::Failed(s) => AnswerV::Failed(s@),
        }
    }
}

impl View for Halt {
    type V = HaltV;

    open spec fn view(&self) -> HaltV {
        match self {
            Halt::Error(s) => HaltV::Error(s@),
            Halt::Panic(s) => HaltV::Panic(s@),
            Halt::Pending(r) => HaltV::Pending(r@),
            Halt::OutOfFuel => HaltV::OutOfFuel,
            Halt::Mismatch => HaltV::Mismatch,
        }
    }
}

/// The view of a result whose success value has a view.
pub open spec fn res_v<T: View>(r: Result<T, Halt>) -> Result<T::V, HaltV> {
    match r {
        Ok(x) => Ok(x@),
        Err(h) => Err(h@),
    }
}

/// The answers a run has been given, and how many of them it has used.
pub struct TapeV {
    pub answers: Seq<AnswerV>,
    pub cursor: nat,
}

/// The answer for the next request, or a stop that asks for it.
pub open spec fn ask_s(t: TapeV, req: RequestV) -> (TapeV, Result<AnswerV, HaltV>) {
    if t.cursor < t.answers.len() {
        (TapeV { answers: t.answers, cursor: t.cursor + 1 }, Ok(t.answers[t.cursor as int]))
    } else {
        (t, Err(HaltV::Pending(req)))
    }
}

/// A request that is only carried out.
pub open spec fn ask_done_s(t: TapeV, req: RequestV) -> (TapeV, Result<(), HaltV>) {
    let (t1, a) = ask_s(t, req);
    match a {
        Ok(AnswerV::Done) => (t1, Ok(())),
        Ok(_) => (t1, Err(HaltV::Mismatch)),
        Err(h) => (t1, Err(h)),
    }
}

/// A request answered with text.
pub open spec fn ask_text_s(t: TapeV, req: RequestV) -> (TapeV, Result<Seq<char>, HaltV>) {
    let (t1, a) = ask_s(t, req);
    match a {
        Ok(AnswerV::Text(s)) => (t1, Ok(s)),
        Ok(_) => (t1, Err(HaltV::Mismatch)),
        Err(h) => (t1, Err(h)),
    }
}

/// A request answered with the bits of a double.
pub open spec fn ask_bits_s(t: TapeV, req: RequestV) -> (TapeV, Result<u64, HaltV>) {
    let (t1, a) = ask_s(t, req);
    match a {
        Ok(AnswerV::Bits(b)) => (t1, Ok(b)),
        Ok(_) => (t1, Err(HaltV::Mismatch)),
        Err(h) => (t1, Err(h)),
    }
}

/// A request answered with a whole number.
pub open spec fn ask_int_s(t: TapeV, req: RequestV) -> (TapeV, Result<i64, HaltV>) {
    let (t1, a) = ask_s(t, req);
    match a {
        Ok(AnswerV::Int(n)) => (t1, Ok(n)),
        Ok(_) => (t1, Err(HaltV::Mismatch)),
        Err(h) => (t1, Err(h)),
    }
}

/// A request that may fail: `Ok(Err(message))` when the host reports failure; a
/// success is `Done`, or text or bits as `want` says (0, 1, 2).
pub open spec fn ask_maybe_s(t: TapeV, req: RequestV, want: nat) -> (TapeV, Result<Result<AnswerV, Seq<char>>, HaltV>) {
    let (t1, a) = ask_s(t, req);
    match a {
        Ok(AnswerV::Failed(m)) => (t1, Ok(Err(m))),
        Ok(AnswerV::Done) => if want == 0 { (t1, Ok(Ok(AnswerV::Done))) } else { (t1, Err(HaltV::Mismatch)) },
        Ok(AnswerV::Text(s)) => if want == 1 { (t1, Ok(Ok(AnswerV::Text(s)))) } else { (t1, Err(HaltV::Mismatch)) },
        Ok(AnswerV::Bits(b)) => if want == 2 { (t1, Ok(Ok(AnswerV::Bits(b)))) } else { (t1, Err(HaltV::Mismatch)) },
        Ok(_) => (t1, Err(HaltV::Mismatch)),
        Err(h) => (t1, Err(h)),
    }
}

/// The answers given to a run, read front to back.
pub struct Tape {
    answers: Vec<Answer>,
    cursor: usize,
}

/// The tape is left with its answers as they were, read no less far than before.
pub open spec fn tape_kept(t0: TapeV, t1: TapeV) -> bool {
    t1.answers == t0.answers && t0.cursor <= t1.cursor
}

/// A stop for want of an answer comes only once every answer on the tape is used.
pub open spec fn halt_settled(t: TapeV, h: HaltV) -> bool {
    h is Pending ==> t.cursor >= t.answers.len()
}

pub open spec fn settled<T>(t: TapeV, r: Result<T, Halt>) -> bool {
    match r {
        Err(h) => halt_settled(t, h@),
        Ok(_) => true,
    }
}

impl View for Tape {
    type V = TapeV;

    closed spec fn view(&self) -> TapeV {
        TapeV { answers: Seq::new(self.answers@.len(), |i: int| self.answers@[i]@), cursor: self.cursor as nat }
    }
}

pub fn clone_answer(a: &Answer) -> (r: Answer)
    ensures
        r@ == a@,
{
    match a {
        Answer::Done => Answer::Done,
        Answer::Text(s) => Answer::Text(s.clone()),
        Answer::Bits(b) => Answer::Bits(*b),
        Answer::Int(n) => Answer::Int(*n),
        Answer::Failed(s) => Answer::Failed(s.clone()),
    }
}

impl Tape {
    #[verifier::type_invariant]
    spec fn within(self) -> bool {
        self.cursor <= self.answers@.len()
    }

    /// A tape with these answers, none of them used.
    pub fn new(answers: Vec<Answer>) -> (t: Tape)
        ensures
            t@.cursor == 0,
            t@.answers == Seq::new(answers@.len(), |i: int| answers@[i]@),
    {
        Tape { answers, cursor: 0 }
    }

    /// How many answers the run has used: never more than it was given.
    pub fn used(&self) -> (n: usize)
        ensures
            n == self@.cursor,
            n <= self@.answers.len(),
    {
        proof {
            use_type_invariant(self);
        }
        self.cursor
    }

    pub fn ask(&mut self, req: Request) -> (r: Result<Answer, Halt>)
        ensures
            (final(self)@, res_v(r)) == ask_s(old(self)@, req@),
    {
        proof {
            use_type_invariant(&*self);
        }
        if self.cursor < self.answers.len() {
            let a = clone_answer(&self.answers[self.cursor]);
            self.cursor = self.cursor + 1;
            Ok(a)
        } else {
            Err(Halt::Pending(req))
        }
    }

    pub fn ask_done(&mut self, req: Request) -> (r: Result<(), Halt>)
        ensures
            ({
                let (t, x) = ask_done_s(old(self)@, req@);
                final(self)@ == t && match r {
                    Ok(_) => x is Ok,
                    Err(h) => x == Err::<(), HaltV>(h@),
                }
            }),
    {
        match self.ask(req) {
            Ok(Answer::Done) => Ok(()),
            Ok(_) => Err(Halt::Mismatch),
            Err(h) => Err(h),
        }
    }

    pub fn ask_text(&mut self, req: Request) -> (r: Result<String, Halt>)
        ensures
            (final(self)@, res_v(r)) == ask_text_s(old(self)@, req@),
    {
        match self.ask(req) {
            Ok(Answer::Text(s)) => Ok(s),
            Ok(_) => Err(Halt::Mismatch),
            Err(h) => Err(h),
        }
    }

    pub fn ask_bits(&mut self, req: Request) -> (r: Result<u64, Halt>)
        ensures
            ({
                let (t, x) = ask_bits_s(old(self)@, req@);
                final(self)@ == t && match r {
                    Ok(b) => x == Ok::<u64, HaltV>(b),
                    Err(h) => x == Err::<u64, HaltV>(h@),
                }
            }),
    {
        match self.ask(req) {
            Ok(Answer::Bits(b)) => Ok(b),
            Ok(_) => Err(Halt::Mismatch),
            Err(h) => Err(h),
        }
    }

    pub fn ask_int(&mut self, req: Request) -> (r: Result<i64, Halt>)
        ensures
            ({
                let (t, x) = ask_int_s(old(self)@, req@);
                final(self)@ == t && match r {
                    Ok(n) => x == Ok::<i64, HaltV>(n),
                    Err(h) => x == Err::<i64, HaltV>(h@),
                }
            }),
    {
        match self.ask(req) {
            Ok(Answer::Int(n)) => Ok(n),
            Ok(_) => Err(Halt::Mismatch),
            Err(h) => Err(h),
        }
    }

    pub fn ask_maybe(&mut self, req: Request, want: u8) -> (r: Result<Result<Answer, String>, Halt>)
        requires
            want <= 2,
        ensures
            ({
                let (t, x) = ask_maybe_s(old(self)@, req@, want as nat);
                final(self)@ == t && match r {
                    Ok(Ok(a)) => x == Ok::<Result<AnswerV, Seq<char>>, HaltV>(Ok(a@)),
                    Ok(Err(m)) => x == Ok::<Result<AnswerV, Seq<char>>, HaltV>(Err(m@)),
                    Err(h) => x == Err::<Result<AnswerV, Seq<char>>, HaltV>(h@),
                }
            }),
    {
        match self.ask(req) {
            Ok(Answer::Failed(m)) => Ok(Err(m)),
            Ok(Answer::Done) => if want == 0 { Ok(Ok(Answer::Done)) } else { Err(Halt::Mismatch) },
            Ok(Answer::Text(s)) => if want == 1 { Ok(Ok(Answer::Text(s))) } else { Err(Halt::Mismatch) },
            Ok(Answer::Bits(b)) => if want == 2 { Ok(Ok(Answer::Bits(b))) } else { Err(Halt::Mismatch) },
            Ok(_) => Err(Halt::Mismatch),
            Err(h) => Err(h),
        }
    }
}

} // verus!
