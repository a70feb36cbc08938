//! The grammar of Trygve Bjerkreim, as the parse that a token sequence has.
//!
//! ```text
//!   program    := stmt*
//!   expr       := ikkje additive compare_op additive     (the comparison negated)
//!               | comparison
//!   comparison := additive (compare_op additive)?
//!   additive   := multiplicative ((og | utan) multiplicative)*
//!   multi      := primary ((gongar | delt på) primary)*
//!   primary    := literal | var | func_call | list | (expr)
//!               | resten av … delt på …  | ikkje primary
//! ```
//!
//! `ikkje` binds tighter than the arithmetic operators (`ikkje a og b` is
//! `(ikkje a) og b`), but an expression that opens with `ikkje` and goes on into a
//! comparison negates the whole comparison: `ikkje a er b` is `ikkje (a er b)`.
//!
//! Each rule reads the tokens from a position and gives the tree it builds with the
//! position after it, or an error message. A position past the end reads as `Eof`.
use vstd::prelude::*;
use crate::ast::{BinOpKind, ExprV, StmtV};
use crate::lexer::{Kind, Tok, line_prefix};
use crate::text::{debug_text, int_text, uppercase_char};

verus! {

pub type Parsed<A> = Result<(A, int), Seq<char>>;

/// A token sequence the parser can read: it is not empty and ends with `Eof`.
pub open spec fn wf_toks(t: Seq<Tok>) -> bool {
    t.len() > 0 && t.last().kind == Kind::Eof
}

pub open spec fn cur(t: Seq<Tok>, p: int) -> Tok {
    if 0 <= p < t.len() {
        t[p]
    } else if t.len() > 0 {
        Tok { kind: Kind::Eof, line: t.last().line }
    } else {
        Tok { kind: Kind::Eof, line: 0 }
    }
}

pub open spec fn kind_at(t: Seq<Tok>, p: int) -> Kind {
    cur(t, p).kind
}

pub open spec fn word_at(t: Seq<Tok>, p: int, w: Seq<char>) -> bool {
    kind_at(t, p) == Kind::Word(w)
}

pub open spec fn phrase2(t: Seq<Tok>, p: int, a: Seq<char>, b: Seq<char>) -> bool {
    word_at(t, p, a) && word_at(t, p + 1, b)
}

pub open spec fn phrase3(t: Seq<Tok>, p: int, a: Seq<char>, b: Seq<char>, c: Seq<char>) -> bool {
    phrase2(t, p, a, b) && word_at(t, p + 2, c)
}

pub open spec fn phrase4(
    t: Seq<Tok>,
    p: int,
    a: Seq<char>,
    b: Seq<char>,
    c: Seq<char>,
    d: Seq<char>,
) -> bool {
    phrase3(t, p, a, b, c) && word_at(t, p + 3, d)
}

pub open spec fn phrase5(
    t: Seq<Tok>,
    p: int,
    a: Seq<char>,
    b: Seq<char>,
    c: Seq<char>,
    d: Seq<char>,
    e: Seq<char>,
) -> bool {
    phrase4(t, p, a, b, c, d) && word_at(t, p + 4, e)
}

pub open spec fn kind_debug(k: Kind) -> Seq<char> {
    match k {
        Kind::Word(s) => "Word("@ + debug_text(s) + ")"@,
        Kind::Int(n) => "Int("@ + int_text(n as int) + ")"@,
        Kind::Float(s) => "Float("@ + s + ")"@,
        Kind::Str(s) => "Str("@ + debug_text(s) + ")"@,
        Kind::Comma => "Comma"@,
        Kind::Dot => "Dot"@,
        Kind::Colon => "Colon"@,
        Kind::LParen => "LParen"@,
        Kind::RParen => "RParen"@,
        Kind::LBracket => "LBracket"@,
        Kind::RBracket => "RBracket"@,
        Kind::Eof => "Eof"@,
    }
}

pub open spec fn at_msg(t: Seq<Tok>, p: int, what: Seq<char>) -> Seq<char> {
    line_prefix(cur(t, p).line) + what + kind_debug(kind_at(t, p))
}

pub open spec fn expected_word_msg(t: Seq<Tok>, p: int, w: Seq<char>) -> Seq<char> {
    at_msg(t, p, "expected '"@ + w + "', got "@)
}

pub open spec fn same_kind(a: Kind, b: Kind) -> bool {
    match (a, b) {
        (Kind::Word(_), Kind::Word(_)) => true,
        (Kind::Int(_), Kind::Int(_)) => true,
        (Kind::Float(_), Kind::Float(_)) => true,
        (Kind::Str(_), Kind::Str(_)) => true,
        (Kind::Comma, Kind::Comma) => true,
        (Kind::Dot, Kind::Dot) => true,
        (Kind::Colon, Kind::Colon) => true,
        (Kind::LParen, Kind::LParen) => true,
        (Kind::RParen, Kind::RParen) => true,
        (Kind::LBracket, Kind::LBracket) => true,
        (Kind::RBracket, Kind::RBracket) => true,
        (Kind::Eof, Kind::Eof) => true,
        _ => false,
    }
}

pub open spec fn eat_word(t: Seq<Tok>, p: int, w: Seq<char>) -> Result<int, Seq<char>> {
    if word_at(t, p, w) {
        Ok(p + 1)
    } else {
        Err(expected_word_msg(t, p, w))
    }
}

pub open spec fn eat_kind(t: Seq<Tok>, p: int, k: Kind) -> Result<int, Seq<char>> {
    if same_kind(kind_at(t, p), k) {
        Ok(p + 1)
    } else {
        Err(at_msg(t, p, "expected "@ + kind_debug(k) + ", got "@))
    }
}

pub open spec fn eat2(t: Seq<Tok>, p: int, a: Seq<char>, b: Seq<char>) -> Result<int, Seq<char>> {
    match eat_word(t, p, a) {
        Ok(q) => eat_word(t, q, b),
        Err(e) => Err(e),
    }
}

pub open spec fn eat3(t: Seq<Tok>, p: int, a: Seq<char>, b: Seq<char>, c: Seq<char>) -> Result<
    int,
    Seq<char>,
> {
    match eat2(t, p, a, b) {
        Ok(q) => eat_word(t, q, c),
        Err(e) => Err(e),
    }
}

pub open spec fn eat_ident(t: Seq<Tok>, p: int) -> Parsed<Seq<char>> {
    match kind_at(t, p) {
        Kind::Word(s) => Ok((s, p + 1)),
        _ => Err(at_msg(t, p, "expected identifier, got "@)),
    }
}

/// Words joined with single spaces.
pub open spec fn join_words(ws: Seq<Seq<char>>) -> Seq<char>
    decreases ws.len(),
{
    if ws.len() == 0 {
        seq![]
    } else if ws.len() == 1 {
        ws[0]
    } else {
        ws[0] + " "@ + join_words(ws.drop_first())
    }
}

/// The words of a definition's name, up to the `(` of its parameters, after the
/// words `acc` already read.
pub open spec fn name_words(t: Seq<Tok>, p: int, acc: Seq<Seq<char>>) -> (Seq<Seq<char>>, int)
    decreases t.len() - p,
{
    if 0 <= p < t.len() && kind_at(t, p) is Word {
        if kind_at(t, p + 1) is LParen {
            (acc.push(kind_at(t, p)->Word_0), p + 1)
        } else {
            name_words(t, p + 1, acc.push(kind_at(t, p)->Word_0))
        }
    } else {
        (acc, p)
    }
}

pub open spec fn eat_name_until_lparen(t: Seq<Tok>, p: int) -> Parsed<Seq<char>> {
    let (ws, q) = name_words(t, p, seq![]);
    if ws.len() == 0 {
        Err(at_msg(t, q, "expected name, got "@))
    } else {
        Ok((join_words(ws), q))
    }
}

/// Capitalised words begin statements; these and the operator words never belong
/// to a method name.
pub open spec fn method_name_stop(w: Seq<char>) -> bool {
    ||| (w.len() > 0 && uppercase_char(w[0]))
    ||| w == "med"@
    ||| w == "og"@
    ||| w == "utan"@
    ||| w == "gongar"@
    ||| w == "delt"@
    ||| w == "resten"@
    ||| w == "er"@
    ||| w == "ikkje"@
    ||| w == "sin"@
    ||| w == "lat"@
    ||| w == "kvar"@
    ||| w == "stansar"@
    ||| w == "atter"@
    ||| w == "sjølv"@
    ||| w == "til"@
    ||| w == "av"@
    ||| w == "på"@
    ||| w == "i"@
    ||| w == "frå"@
}

pub open spec fn two_word_builtin(name: Seq<char>) -> bool {
    ||| name == "legg til"@
    ||| name == "del frå"@
    ||| name == "del opp"@
    ||| name == "sett saman"@
    ||| name == "kvart tal"@
}

/// The words of a method name in a call, after the words `acc` already read: they
/// stop at a stop word, a non-word, or a word that is the subject of a following
/// `vert`, `sin` or `tek`.
pub open spec fn method_words(t: Seq<Tok>, p: int, acc: Seq<Seq<char>>) -> (Seq<Seq<char>>, int)
    decreases t.len() - p,
{
    if 0 <= p < t.len() && kind_at(t, p) is Word && !method_name_stop(kind_at(t, p)->Word_0) {
        if word_at(t, p + 1, "vert"@) || word_at(t, p + 1, "sin"@) || word_at(t, p + 1, "tek"@) {
            (acc, p)
        } else {
            method_words(t, p + 1, acc.push(kind_at(t, p)->Word_0))
        }
    } else {
        (acc, p)
    }
}

pub open spec fn eat_method_name(t: Seq<Tok>, p: int) -> Parsed<Seq<char>> {
    let (ws, q) = method_words(t, p, seq![]);
    if ws.len() == 0 {
        Err(at_msg(t, q, "expected method name, got "@))
    } else {
        Ok((join_words(ws), q))
    }
}

pub open spec fn params_rest(t: Seq<Tok>, p: int, acc: Seq<Seq<char>>) -> Parsed<
    Seq<Seq<char>>,
>
    decreases t.len() - p,
{
    if kind_at(t, p) is Comma {
        match eat_ident(t, p + 1) {
            Ok((x, q)) => params_rest(t, q, acc.push(x)),
            Err(e) => Err(e),
        }
    } else {
        Ok((acc, p))
    }
}

/// Parameter names of a definition, up to (not including) the `)`.
pub open spec fn params(t: Seq<Tok>, p: int) -> Parsed<Seq<Seq<char>>> {
    if kind_at(t, p) is RParen {
        Ok((seq![], p))
    } else {
        match eat_ident(t, p) {
            Ok((x, q)) => params_rest(t, q, seq![x]),
            Err(e) => Err(e),
        }
    }
}

/// A result read from `p`, kept only when it ends between `p` and the end.
pub open spec fn mono<A>(t: Seq<Tok>, p: int, r: Parsed<A>) -> Parsed<A> {
    match r {
        Ok((x, q)) => if p <= q <= t.len() {
            Ok((x, q))
        } else {
            Err(seq![])
        },
        Err(e) => Err(e),
    }
}

pub open spec fn at_block_end(t: Seq<Tok>, p: int) -> bool {
    ||| kind_at(t, p) is Eof
    ||| phrase3(t, p, "Det"@, "er"@, "nok"@)
    ||| phrase2(t, p, "Men"@, "om"@)
    ||| phrase3(t, p, "Ver"@, "ikkje"@, "redd"@)
}

// ── blocks and statements ──

/// Statements up to the end of a block (`Det er nok`, `Men om`, `Ver ikkje redd` or
/// `Eof`), after the statements `acc` already read.
pub open spec fn block_from(t: Seq<Tok>, p: int, acc: Seq<StmtV>) -> Parsed<Seq<StmtV>>
    decreases t.len() - p, 24int,
{
    if at_block_end(t, p) {
        Ok((acc, p))
    } else {
        match mono(t, p, stmt(t, p)) {
            Ok((s, q)) => if q > p {
                block_from(t, q, acc.push(s))
            } else {
                Err(seq![])
            },
            Err(e) => Err(e),
        }
    }
}

pub open spec fn block(t: Seq<Tok>, p: int) -> Parsed<Seq<StmtV>>
    decreases t.len() - p, 26int,
{
    block_from(t, p, seq![])
}

/// `: <block> Det er nok.`
pub open spec fn block_tail(t: Seq<Tok>, p: int) -> Parsed<Seq<StmtV>>
    decreases t.len() - p, 20int,
{
    match eat_kind(t, p, Kind::Colon) {
        Ok(q1) => match mono(t, q1, block(t, q1)) {
            Ok((b, q2)) => match eat3(t, q2, "Det"@, "er"@, "nok"@) {
                Ok(q3) => match eat_kind(t, q3, Kind::Dot) {
                    Ok(q4) => Ok((b, q4)),
                    Err(e) => Err(e),
                },
                Err(e) => Err(e),
            },
            Err(e) => Err(e),
        },
        Err(e) => Err(e),
    }
}

/// The optional `Men om ikkje:` / `Men om <cond>:` continuation of a conditional.
pub open spec fn else_chain(t: Seq<Tok>, p: int, ln: nat) -> Parsed<Option<Seq<StmtV>>>
    decreases t.len() - p, 20int,
{
    if phrase3(t, p, "Men"@, "om"@, "ikkje"@) && kind_at(t, p + 3) is Colon {
        match mono(t, p + 4, block(t, p + 4)) {
            Ok((b, q)) => Ok((Some(b), q)),
            Err(e) => Err(e),
        }
    } else if phrase2(t, p, "Men"@, "om"@) {
        match mono(t, p + 2, expr(t, p + 2)) {
            Ok((cond, q1)) => match eat_kind(t, q1, Kind::Colon) {
                Ok(q2) => match mono(t, q2, block(t, q2)) {
                    Ok((tb, q3)) => match mono(t, q3, else_chain(t, q3, ln)) {
                        Ok((eb, q4)) => Ok(
                            (
                                Some(
                                    seq![
                                        StmtV::If {
                                            cond,
                                            then_body: tb,
                                            else_body: eb,
                                            line: ln,
                                        },
                                    ],
                                ),
                                q4,
                            ),
                        ),
                        Err(e) => Err(e),
                    },
                    Err(e) => Err(e),
                },
                Err(e) => Err(e),
            },
            Err(e) => Err(e),
        }
    } else {
        Ok((None, p))
    }
}

/// `<expr>` after a statement keyword and its colon: `<kw>: <expr>`.
pub open spec fn colon_expr(t: Seq<Tok>, p: int) -> Parsed<ExprV>
    decreases t.len() - p, 20int,
{
    match eat_kind(t, p, Kind::Colon) {
        Ok(q) => mono(t, q, expr(t, q)),
        Err(e) => Err(e),
    }
}

/// Optional `med <args>` after a call.
pub open spec fn opt_args(t: Seq<Tok>, p: int) -> Parsed<Seq<ExprV>>
    decreases t.len() - p, 20int,
{
    if word_at(t, p, "med"@) {
        mono(t, p + 1, arg_list(t, p + 1))
    } else {
        Ok((seq![], p))
    }
}

/// A statement.
pub open spec fn stmt(t: Seq<Tok>, p: int) -> Parsed<StmtV>
    decreases t.len() - p, 22int,
{
    let ln = cur(t, p).line;
    if word_at(t, p, "lat"@) {
        stmt_let(t, p)
    } else if phrase2(t, p, "Syng"@, "ut"@) {
        match colon_expr(t, p + 2) {
            Ok((v, q)) => Ok((StmtV::Print { value: v, line: ln }, q)),
            Err(e) => Err(e),
        }
    } else if phrase3(t, p, "Eit"@, "fullført"@, "verk"@) {
        match colon_expr(t, p + 3) {
            Ok((v, q)) => Ok((StmtV::Return { value: v, line: ln }, q)),
            Err(e) => Err(e),
        }
    } else if phrase3(t, p, "Takk"@, "at"@, "du"@) && phrase3(t, p + 3, "tok"@, "mine"@, "byrder"@) {
        match colon_expr(t, p + 6) {
            Ok((v, q)) => Ok((StmtV::Return { value: v, line: ln }, q)),
            Err(e) => Err(e),
        }
    } else if phrase3(t, p, "Kom"@, "med"@, "din"@) {
        match eat_ident(t, p + 3) {
            Ok((name, q)) => Ok((StmtV::Input { name, line: ln }, q)),
            Err(e) => Err(e),
        }
    } else if phrase4(t, p, "Du"@, "kjem"@, "ikkje"@, "utanom"@) {
        stmt_if(t, p)
    } else if phrase4(t, p, "Eit"@, "øyeblikk"@, "om"@, "gangen"@) {
        stmt_while(t, p)
    } else if word_at(t, p, "kvar"@) {
        stmt_for_each(t, p)
    } else if phrase4(t, p, "Evig"@, "i"@, "lysets"@, "rike"@) {
        match block_tail(t, p + 4) {
            Ok((b, q)) => Ok((StmtV::InfLoop { body: b, line: ln }, q)),
            Err(e) => Err(e),
        }
    } else if phrase3(t, p, "Topp"@, "attom"@, "toppar"@) {
        stmt_count(t, p)
    } else if phrase2(t, p, "Eg"@, "kan"@) {
        stmt_def(t, p + 2, ln)
    } else if phrase5(t, p, "Gud"@, "har"@, "ein"@, "plan"@, "med"@) {
        stmt_def(t, p + 5, ln)
    } else if phrase5(t, p, "Syng"@, "for"@, "meg"@, "songen"@, "om"@) {
        match eat_ident(t, p + 5) {
            Ok((class, q1)) => match eat_word(t, q1, "til"@) {
                Ok(q2) => match eat_ident(t, q2) {
                    Ok((name, q3)) => Ok(
                        (StmtV::Assign { name, value: ExprV::New { class }, line: ln }, q3),
                    ),
                    Err(e) => Err(e),
                },
                Err(e) => Err(e),
            },
            Err(e) => Err(e),
        }
    } else if word_at(t, p, "Songen"@) {
        match eat_ident(t, p + 1) {
            Ok((name, q1)) => match block_tail(t, q1) {
                Ok((b, q2)) => Ok((StmtV::ClassDef { name, body: b, line: ln }, q2)),
                Err(e) => Err(e),
            },
            Err(e) => Err(e),
        }
    } else if phrase4(t, p, "Prøv"@, "å"@, "få"@, "gjort"@) && phrase3(
        t,
        p + 4,
        "det"@,
        "du"@,
        "kan"@,
    ) {
        stmt_try(t, p)
    } else {
        stmt_more(t, p)
    }
}

/// The statements that start with a name, and the remaining keyword statements.
pub open spec fn stmt_more(t: Seq<Tok>, p: int) -> Parsed<StmtV>
    decreases t.len() - p, 20int,
{
    let ln = cur(t, p).line;
    if kind_at(t, p) is Word && phrase4(t, p + 1, "vert"@, "kalla"@, "til"@, "å"@) {
        match mono(t, p + 5, eat_method_name(t, p + 5)) {
            Ok((method, q1)) => match opt_args(t, q1) {
                Ok((args, q2)) => Ok(
                    (
                        StmtV::MethodCall { obj: kind_at(t, p)->Word_0, method, args, line: ln },
                        q2,
                    ),
                ),
                Err(e) => Err(e),
            },
            Err(e) => Err(e),
        }
    } else if kind_at(t, p) is Word && word_at(t, p + 1, "sin"@) && kind_at(t, p + 2) is Word
        && phrase2(t, p + 3, "tek"@, "imot"@) {
        match mono(t, p + 5, expr(t, p + 5)) {
            Ok((v, q)) => Ok(
                (
                    StmtV::FieldAssign {
                        obj: kind_at(t, p)->Word_0,
                        field: kind_at(t, p + 2)->Word_0,
                        value: v,
                        line: ln,
                    },
                    q,
                ),
            ),
            Err(e) => Err(e),
        }
    } else if kind_at(t, p) is Word && phrase2(t, p + 1, "tek"@, "imot"@) {
        match mono(t, p + 3, expr(t, p + 3)) {
            Ok((v, q)) => Ok(
                (StmtV::Reassign { name: kind_at(t, p)->Word_0, value: v, line: ln }, q),
            ),
            Err(e) => Err(e),
        }
    } else if phrase2(t, p, "stansar"@, "stilt"@) {
        match eat_kind(t, p + 2, Kind::Dot) {
            Ok(q) => Ok((StmtV::Break { line: ln }, q)),
            Err(e) => Err(e),
        }
    } else if phrase3(t, p, "atter"@, "ein"@, "gong"@) {
        match eat_kind(t, p + 3, Kind::Dot) {
            Ok(q) => Ok((StmtV::Continue { line: ln }, q)),
            Err(e) => Err(e),
        }
    } else {
        stmt_keyword(t, p)
    }
}

/// The remaining keyword statements.
pub open spec fn stmt_keyword(t: Seq<Tok>, p: int) -> Parsed<StmtV>
    decreases t.len() - p, 18int,
{
    let ln = cur(t, p).line;
    if phrase2(t, p, "Rop"@, "ut"@) {
        match colon_expr(t, p + 2) {
            Ok((v, q)) => Ok((StmtV::Raise { value: v, line: ln }, q)),
            Err(e) => Err(e),
        }
    } else if phrase2(t, p, "Set"@, "vakt"@) {
        match colon_expr(t, p + 2) {
            Ok((v, q)) => Ok((StmtV::Assert { cond: v, line: ln }, q)),
            Err(e) => Err(e),
        }
    } else if phrase3(t, p, "Kvil"@, "eit"@, "augneblink"@) {
        match colon_expr(t, p + 3) {
            Ok((v, q)) => Ok((StmtV::Sleep { secs: v, line: ln }, q)),
            Err(e) => Err(e),
        }
    } else if phrase4(t, p, "Opna"@, "den"@, "klåre"@, "kjelda"@) {
        match colon_expr(t, p + 4) {
            Ok((path, q1)) => match eat_word(t, q1, "til"@) {
                Ok(q2) => match eat_ident(t, q2) {
                    Ok((name, q3)) => Ok((StmtV::ReadFile { path, name, line: ln }, q3)),
                    Err(e) => Err(e),
                },
                Err(e) => Err(e),
            },
            Err(e) => Err(e),
        }
    } else if word_at(t, p, "Så"@) {
        match mono(t, p + 1, expr(t, p + 1)) {
            Ok((content, q1)) => match eat_word(t, q1, "i"@) {
                Ok(q2) => match mono(t, q2, expr(t, q2)) {
                    Ok((path, q3)) => Ok((StmtV::WriteFile { path, content, line: ln }, q3)),
                    Err(e) => Err(e),
                },
                Err(e) => Err(e),
            },
            Err(e) => Err(e),
        }
    } else if phrase3(t, p, "Lytt"@, "ved"@, "port"@) {
        match mono(t, p + 3, primary(t, p + 3)) {
            Ok((port, q1)) => match block_tail(t, q1) {
                Ok((b, q2)) => Ok((StmtV::Serve { port, body: b, line: ln }, q2)),
                Err(e) => Err(e),
            },
            Err(e) => Err(e),
        }
    } else if phrase2(t, p, "Svar"@, "med"@) {
        match colon_expr(t, p + 2) {
            Ok((v, q)) => Ok((StmtV::Respond { value: v, line: ln }, q)),
            Err(e) => Err(e),
        }
    } else if phrase3(t, p, "Bli"@, "med"@, "til"@) {
        match eat_ident(t, p + 3) {
            Ok((name, q1)) => match opt_args(t, q1) {
                Ok((args, q2)) => Ok((StmtV::FuncCall { name, args, line: ln }, q2)),
                Err(e) => Err(e),
            },
            Err(e) => Err(e),
        }
    } else {
        Err(at_msg(t, p, "unexpected token "@))
    }
}

/// `lat <name> vera <expr>`
pub open spec fn stmt_let(t: Seq<Tok>, p: int) -> Parsed<StmtV>
    decreases t.len() - p, 20int,
{
    let ln = cur(t, p).line;
    match eat_ident(t, p + 1) {
        Ok((name, q1)) => match eat_word(t, q1, "vera"@) {
            Ok(q2) => match mono(t, q2, expr(t, q2)) {
                Ok((v, q3)) => Ok((StmtV::Assign { name, value: v, line: ln }, q3)),
                Err(e) => Err(e),
            },
            Err(e) => Err(e),
        },
        Err(e) => Err(e),
    }
}

/// `Du kjem ikkje utanom <cond>: <then> [Men om …] Det er nok.`
pub open spec fn stmt_if(t: Seq<Tok>, p: int) -> Parsed<StmtV>
    decreases t.len() - p, 20int,
{
    let ln = cur(t, p).line;
    match mono(t, p + 4, expr(t, p + 4)) {
        Ok((cond, q1)) => match eat_kind(t, q1, Kind::Colon) {
            Ok(q2) => match mono(t, q2, block(t, q2)) {
                Ok((tb, q3)) => match mono(t, q3, else_chain(t, q3, ln)) {
                    Ok((eb, q4)) => match eat3(t, q4, "Det"@, "er"@, "nok"@) {
                        Ok(q5) => match eat_kind(t, q5, Kind::Dot) {
                            Ok(q6) => Ok(
                                (StmtV::If { cond, then_body: tb, else_body: eb, line: ln }, q6),
                            ),
                            Err(e) => Err(e),
                        },
                        Err(e) => Err(e),
                    },
                    Err(e) => Err(e),
                },
                Err(e) => Err(e),
            },
            Err(e) => Err(e),
        },
        Err(e) => Err(e),
    }
}

/// `Eit øyeblikk om gangen, medan <cond>: <body> Det er nok.`
pub open spec fn stmt_while(t: Seq<Tok>, p: int) -> Parsed<StmtV>
    decreases t.len() - p, 20int,
{
    let ln = cur(t, p).line;
    match eat_kind(t, p + 4, Kind::Comma) {
        Ok(q1) => match eat_word(t, q1, "medan"@) {
            Ok(q2) => match mono(t, q2, expr(t, q2)) {
                Ok((cond, q3)) => match block_tail(t, q3) {
                    Ok((b, q4)) => Ok((StmtV::While { cond, body: b, line: ln }, q4)),
                    Err(e) => Err(e),
                },
                Err(e) => Err(e),
            },
            Err(e) => Err(e),
        },
        Err(e) => Err(e),
    }
}

/// `kvar <var> i <iterable>: <body> Det er nok.`
pub open spec fn stmt_for_each(t: Seq<Tok>, p: int) -> Parsed<StmtV>
    decreases t.len() - p, 20int,
{
    let ln = cur(t, p).line;
    match eat_ident(t, p + 1) {
        Ok((var, q1)) => match eat_word(t, q1, "i"@) {
            Ok(q2) => match mono(t, q2, expr(t, q2)) {
                Ok((it, q3)) => match block_tail(t, q3) {
                    Ok((b, q4)) => Ok(
                        (StmtV::ForEach { var, iterable: it, body: b, line: ln }, q4),
                    ),
                    Err(e) => Err(e),
                },
                Err(e) => Err(e),
            },
            Err(e) => Err(e),
        },
        Err(e) => Err(e),
    }
}

/// `Topp attom toppar <n> [som <var>] gongar: <body> Det er nok.`
pub open spec fn stmt_count(t: Seq<Tok>, p: int) -> Parsed<StmtV>
    decreases t.len() - p, 20int,
{
    let ln = cur(t, p).line;
    match mono(t, p + 3, primary(t, p + 3)) {
        Ok((count, q1)) => {
            let named: Parsed<Seq<char>> = if word_at(t, q1, "som"@) {
                eat_ident(t, q1 + 1)
            } else {
                Ok(("_"@, q1))
            };
            match named {
                Ok((var, q2)) => match eat_word(t, q2, "gongar"@) {
                    Ok(q3) => match block_tail(t, q3) {
                        Ok((b, q4)) => Ok(
                            (StmtV::CountLoop { count, var, body: b, line: ln }, q4),
                        ),
                        Err(e) => Err(e),
                    },
                    Err(e) => Err(e),
                },
                Err(e) => Err(e),
            }
        },
        Err(e) => Err(e),
    }
}

/// A function definition after its keywords: `<name>(<params>): <body> Det er nok.`
pub open spec fn stmt_def(t: Seq<Tok>, p: int, ln: nat) -> Parsed<StmtV>
    decreases t.len() - p, 20int,
{
    match mono(t, p, eat_name_until_lparen(t, p)) {
        Ok((name, q1)) => match eat_kind(t, q1, Kind::LParen) {
            Ok(q2) => match mono(t, q2, params(t, q2)) {
                Ok((ps, q3)) => match eat_kind(t, q3, Kind::RParen) {
                    Ok(q4) => match block_tail(t, q4) {
                        Ok((b, q5)) => Ok(
                            (StmtV::FuncDef { name, params: ps, body: b, line: ln }, q5),
                        ),
                        Err(e) => Err(e),
                    },
                    Err(e) => Err(e),
                },
                Err(e) => Err(e),
            },
            Err(e) => Err(e),
        },
        Err(e) => Err(e),
    }
}

/// `Prøv å få gjort det du kan: <try> Ver ikkje redd: <catch> Det er nok.`
pub open spec fn stmt_try(t: Seq<Tok>, p: int) -> Parsed<StmtV>
    decreases t.len() - p, 20int,
{
    let ln = cur(t, p).line;
    match eat_kind(t, p + 7, Kind::Colon) {
        Ok(q1) => match mono(t, q1, block(t, q1)) {
            Ok((tb, q2)) => match eat3(t, q2, "Ver"@, "ikkje"@, "redd"@) {
                Ok(q3) => match eat_kind(t, q3, Kind::Colon) {
                    Ok(q4) => match mono(t, q4, block(t, q4)) {
                        Ok((cb, q5)) => match eat3(t, q5, "Det"@, "er"@, "nok"@) {
                            Ok(q6) => match eat_kind(t, q6, Kind::Dot) {
                                Ok(q7) => Ok(
                                    (
                                        StmtV::TryCatch {
                                            try_body: tb,
                                            catch_body: cb,
                                            line: ln,
                                        },
                                        q7,
                                    ),
                                ),
                                Err(e) => Err(e),
                            },
                            Err(e) => Err(e),
                        },
                        Err(e) => Err(e),
                    },
                    Err(e) => Err(e),
                },
                Err(e) => Err(e),
            },
            Err(e) => Err(e),
        },
        Err(e) => Err(e),
    }
}

// ── expressions ──

/// `ikkje` as a negation at `p` (not the start of `ikkje utanom` or `ikkje redd`).
pub open spec fn not_at(t: Seq<Tok>, p: int) -> bool {
    word_at(t, p, "ikkje"@) && !phrase2(t, p, "ikkje"@, "utanom"@) && !phrase2(t, p, "ikkje"@, "redd"@)
}

/// A comparison operator starts at `p`.
pub open spec fn comparison_op_at(t: Seq<Tok>, p: int) -> bool {
    ||| phrase3(t, p, "er"@, "mindre"@, "enn"@)
    ||| phrase3(t, p, "er"@, "større"@, "enn"@)
    ||| phrase2(t, p, "er"@, "ikkje"@)
    ||| (word_at(t, p, "er"@) && !phrase2(t, p, "er"@, "nok"@) && !phrase2(t, p, "er"@, "dyr"@))
}

pub open spec fn expr(t: Seq<Tok>, p: int) -> Parsed<ExprV>
    decreases t.len() - p, 18int,
{
    expr_from(t, p)
}

/// An expression at `p`: a comparison, negated as a whole when `ikkje` opens it.
pub open spec fn expr_from(t: Seq<Tok>, p: int) -> Parsed<ExprV>
    decreases t.len() - p, 17int,
{
    if not_at(t, p) {
        match mono(t, p + 1, additive(t, p + 1)) {
            Ok((inner, q)) => if comparison_op_at(t, q) {
                match comparison_rest(t, q, inner) {
                    Ok((c, q2)) => Ok((ExprV::Not(Box::new(c)), q2)),
                    Err(e) => Err(e),
                }
            } else {
                comparison(t, p)
            },
            Err(_) => comparison(t, p),
        }
    } else {
        comparison(t, p)
    }
}

pub open spec fn binop(op: BinOpKind, l: ExprV, r: ExprV) -> ExprV {
    ExprV::BinOp { op, left: Box::new(l), right: Box::new(r) }
}

pub open spec fn comparison(t: Seq<Tok>, p: int) -> Parsed<ExprV>
    decreases t.len() - p, 16int,
{
    match mono(t, p, additive(t, p)) {
        Ok((left, q)) => comparison_rest(t, q, left),
        Err(e) => Err(e),
    }
}

/// A comparison operator and its right side after `left`, which ended at `q`; `left`
/// alone when no operator follows.
pub open spec fn comparison_rest(t: Seq<Tok>, q: int, left: ExprV) -> Parsed<ExprV>
    decreases t.len() - q, 14int,
{
    if phrase3(t, q, "er"@, "mindre"@, "enn"@) {
        match mono(t, q + 3, additive(t, q + 3)) {
            Ok((r, q2)) => Ok((binop(BinOpKind::Lt, left, r), q2)),
            Err(e) => Err(e),
        }
    } else if phrase3(t, q, "er"@, "større"@, "enn"@) {
        match mono(t, q + 3, additive(t, q + 3)) {
            Ok((r, q2)) => Ok((binop(BinOpKind::Gt, left, r), q2)),
            Err(e) => Err(e),
        }
    } else if phrase2(t, q, "er"@, "ikkje"@) {
        match mono(t, q + 2, additive(t, q + 2)) {
            Ok((r, q2)) => Ok((binop(BinOpKind::Ne, left, r), q2)),
            Err(e) => Err(e),
        }
    } else if word_at(t, q, "er"@) && !phrase2(t, q, "er"@, "nok"@) && !phrase2(t, q, "er"@, "dyr"@) {
        match mono(t, q + 1, additive(t, q + 1)) {
            Ok((r, q2)) => Ok((binop(BinOpKind::Eq, left, r), q2)),
            Err(e) => Err(e),
        }
    } else {
        Ok((left, q))
    }
}

pub open spec fn additive(t: Seq<Tok>, p: int) -> Parsed<ExprV>
    decreases t.len() - p, 14int,
{
    match mono(t, p, multiplicative(t, p)) {
        Ok((left, q)) => additive_rest(t, q, left),
        Err(e) => Err(e),
    }
}

pub open spec fn additive_rest(t: Seq<Tok>, p: int, left: ExprV) -> Parsed<ExprV>
    decreases t.len() - p, 12int,
{
    if word_at(t, p, "og"@) && !phrase2(t, p, "og"@, "gongen"@) {
        match mono(t, p + 1, multiplicative(t, p + 1)) {
            Ok((r, q)) => additive_rest(t, q, binop(BinOpKind::Add, left, r)),
            Err(e) => Err(e),
        }
    } else if word_at(t, p, "utan"@) {
        match mono(t, p + 1, multiplicative(t, p + 1)) {
            Ok((r, q)) => additive_rest(t, q, binop(BinOpKind::Sub, left, r)),
            Err(e) => Err(e),
        }
    } else {
        Ok((left, p))
    }
}

pub open spec fn multiplicative(t: Seq<Tok>, p: int) -> Parsed<ExprV>
    decreases t.len() - p, 10int,
{
    match mono(t, p, primary(t, p)) {
        Ok((left, q)) => multiplicative_rest(t, q, left),
        Err(e) => Err(e),
    }
}

pub open spec fn multiplicative_rest(t: Seq<Tok>, p: int, left: ExprV) -> Parsed<ExprV>
    decreases t.len() - p, 8int,
{
    if word_at(t, p, "gongar"@) {
        match mono(t, p + 1, primary(t, p + 1)) {
            Ok((r, q)) => multiplicative_rest(t, q, binop(BinOpKind::Mul, left, r)),
            Err(e) => Err(e),
        }
    } else if phrase2(t, p, "delt"@, "på"@) {
        match mono(t, p + 2, primary(t, p + 2)) {
            Ok((r, q)) => multiplicative_rest(t, q, binop(BinOpKind::Div, left, r)),
            Err(e) => Err(e),
        }
    } else {
        Ok((left, p))
    }
}

/// `<expr> (, <expr>)*`
pub open spec fn arg_list(t: Seq<Tok>, p: int) -> Parsed<Seq<ExprV>>
    decreases t.len() - p, 20int,
{
    match mono(t, p, expr(t, p)) {
        Ok((e, q)) => expr_list_rest(t, q, seq![e]),
        Err(e) => Err(e),
    }
}

pub open spec fn expr_list_rest(t: Seq<Tok>, p: int, acc: Seq<ExprV>) -> Parsed<Seq<ExprV>>
    decreases t.len() - p, 4int,
{
    if kind_at(t, p) is Comma {
        match mono(t, p + 1, expr(t, p + 1)) {
            Ok((e, q)) => expr_list_rest(t, q, acc.push(e)),
            Err(e) => Err(e),
        }
    } else {
        Ok((acc, p))
    }
}

/// `<exprs> )` after an opening bracket at `p - 1`: an empty list when `close` follows.
pub open spec fn enclosed(t: Seq<Tok>, p: int, close: Kind) -> Parsed<Seq<ExprV>>
    decreases t.len() - p, 20int,
{
    let items: Parsed<Seq<ExprV>> = if same_kind(kind_at(t, p), close) {
        Ok((seq![], p))
    } else {
        match mono(t, p, expr(t, p)) {
            Ok((e, q)) => mono(t, q, expr_list_rest(t, q, seq![e])),
            Err(e) => Err(e),
        }
    };
    match items {
        Ok((xs, q)) => match eat_kind(t, q, close) {
            Ok(q2) => Ok((xs, q2)),
            Err(e) => Err(e),
        },
        Err(e) => Err(e),
    }
}

pub open spec fn primary(t: Seq<Tok>, p: int) -> Parsed<ExprV>
    decreases t.len() - p, 6int,
{
    if phrase2(t, p, "resten"@, "av"@) {
        match mono(t, p + 2, primary(t, p + 2)) {
            Ok((a, q1)) => match eat2(t, q1, "delt"@, "på"@) {
                Ok(q2) => match mono(t, q2, primary(t, q2)) {
                    Ok((b, q3)) => Ok((binop(BinOpKind::Mod, a, b), q3)),
                    Err(e) => Err(e),
                },
                Err(e) => Err(e),
            },
            Err(e) => Err(e),
        }
    } else if word_at(t, p, "ikkje"@) && !phrase2(t, p, "ikkje"@, "utanom"@) && !phrase2(
        t,
        p,
        "ikkje"@,
        "redd"@,
    ) {
        match mono(t, p + 1, primary(t, p + 1)) {
            Ok((x, q)) => Ok((ExprV::Not(Box::new(x)), q)),
            Err(e) => Err(e),
        }
    } else if phrase5(t, p, "Syng"@, "for"@, "meg"@, "songen"@, "om"@) {
        match eat_ident(t, p + 5) {
            Ok((class, q)) => maybe_index(t, q, ExprV::New { class }),
            Err(e) => Err(e),
        }
    } else {
        primary_atom(t, p)
    }
}

/// Literals, lists and parenthesised expressions, or else a name.
pub open spec fn primary_atom(t: Seq<Tok>, p: int) -> Parsed<ExprV>
    decreases t.len() - p, 4int,
{
    if kind_at(t, p) is Int {
        maybe_index(t, p + 1, ExprV::Int(kind_at(t, p)->Int_0))
    } else if kind_at(t, p) is Float {
        maybe_index(t, p + 1, ExprV::Float(kind_at(t, p)->Float_0))
    } else if kind_at(t, p) is Str {
        maybe_index(t, p + 1, ExprV::Str(kind_at(t, p)->Str_0))
    } else if word_at(t, p, "ja"@) {
        maybe_index(t, p + 1, ExprV::Bool(true))
    } else if word_at(t, p, "nei"@) {
        maybe_index(t, p + 1, ExprV::Bool(false))
    } else if phrase2(t, p, "tome"@, "hender"@) {
        maybe_index(t, p + 2, ExprV::Null)
    } else if kind_at(t, p) is LBracket {
        match mono(t, p + 1, enclosed(t, p + 1, Kind::RBracket)) {
            Ok((xs, q)) => maybe_index(t, q, ExprV::List(xs)),
            Err(e) => Err(e),
        }
    } else if kind_at(t, p) is LParen {
        match mono(t, p + 1, expr(t, p + 1)) {
            Ok((e, q1)) => match eat_kind(t, q1, Kind::RParen) {
                Ok(q2) => maybe_index(t, q2, e),
                Err(e) => Err(e),
            },
            Err(e) => Err(e),
        }
    } else {
        primary_name(t, p)
    }
}

/// Calls, method calls and variables.
pub open spec fn primary_name(t: Seq<Tok>, p: int) -> Parsed<ExprV>
    decreases t.len() - p, 3int,
{
    if phrase3(t, p, "Bli"@, "med"@, "til"@) {
        match eat_ident(t, p + 3) {
            Ok((name, q1)) => match mono(t, q1, opt_args(t, q1)) {
                Ok((args, q2)) => maybe_index(t, q2, ExprV::Call { name, args }),
                Err(e) => Err(e),
            },
            Err(e) => Err(e),
        }
    } else {
        primary_word(t, p)
    }
}

/// A call of a built-in or a function, a method call on a variable, or a variable.
pub open spec fn primary_word(t: Seq<Tok>, p: int) -> Parsed<ExprV>
    decreases t.len() - p, 2int,
{
    if kind_at(t, p) is Word && kind_at(t, p + 1) is Word && kind_at(t, p + 2) is LParen
        && two_word_builtin(
        kind_at(t, p)->Word_0 + " "@ + kind_at(t, p + 1)->Word_0,
    ) {
        match mono(t, p + 3, enclosed(t, p + 3, Kind::RParen)) {
            Ok((args, q)) => maybe_index(
                t,
                q,
                ExprV::Call { name: kind_at(t, p)->Word_0 + " "@ + kind_at(t, p + 1)->Word_0, args },
            ),
            Err(e) => Err(e),
        }
    } else if kind_at(t, p) is Word {
        let name = kind_at(t, p)->Word_0;
        if kind_at(t, p + 1) is LParen {
            match mono(t, p + 2, enclosed(t, p + 2, Kind::RParen)) {
                Ok((args, q)) => maybe_index(t, q, ExprV::Call { name, args }),
                Err(e) => Err(e),
            }
        } else if phrase4(t, p + 1, "vert"@, "kalla"@, "til"@, "å"@) {
            match mono(t, p + 5, eat_method_name(t, p + 5)) {
                Ok((method, q1)) => match mono(t, q1, opt_args(t, q1)) {
                    Ok((args, q2)) => maybe_index(
                        t,
                        q2,
                        ExprV::MethodCall {
                            obj: Box::new(ExprV::Var(name)),
                            method,
                            args,
                        },
                    ),
                    Err(e) => Err(e),
                },
                Err(e) => Err(e),
            }
        } else {
            maybe_index(t, p + 1, ExprV::Var(name))
        }
    } else {
        Err(at_msg(t, p, "unexpected token in expression: "@))
    }
}

/// Index brackets `[i]` and field reads `sin <field>` after a primary expression.
pub open spec fn maybe_index(t: Seq<Tok>, p: int, node: ExprV) -> Parsed<ExprV>
    decreases t.len() - p, 0int,
{
    if kind_at(t, p) is LBracket {
        match mono(t, p + 1, expr(t, p + 1)) {
            Ok((idx, q1)) => match eat_kind(t, q1, Kind::RBracket) {
                Ok(q2) => maybe_index(
                    t,
                    q2,
                    ExprV::Index { obj: Box::new(node), idx: Box::new(idx) },
                ),
                Err(e) => Err(e),
            },
            Err(e) => Err(e),
        }
    } else if word_at(t, p, "sin"@) && kind_at(t, p + 1) is Word {
        maybe_index(
            t,
            p + 2,
            ExprV::Field { obj: Box::new(node), field: kind_at(t, p + 1)->Word_0 },
        )
    } else {
        Ok((node, p))
    }
}

/// The program a token sequence spells: its statements, which must reach `Eof`.
pub open spec fn program(t: Seq<Tok>) -> Result<Seq<StmtV>, Seq<char>> {
    match mono(t, 0, block(t, 0)) {
        Ok((prog, q)) => if kind_at(t, q) is Eof {
            Ok(prog)
        } else {
            Err(at_msg(t, q, "unexpected token "@))
        },
        Err(e) => Err(e),
    }
}

} // verus!
