//! Recursive-descent parser for Trygve Bjerkreim. Every rule is proved to build
//! exactly the tree, and to stop at exactly the position, that `grammar` gives.
use vstd::prelude::*;
use crate::ast::{
    BinOpKind,
    Expr,
    ExprV,
    Program,
    Stmt,
    StmtV,
    expr_v,
    exprs_v,
    lemma_exprs_empty,
    lemma_exprs_push,
    lemma_names_empty,
    lemma_names_push,
    lemma_stmts_empty,
    lemma_stmts_push,
    names_v,
    opt_stmts_v,
    stmt_v,
    stmts_v,
};
use crate::grammar::{
    Parsed,
    additive,
    additive_rest,
    arg_list,
    at_block_end,
    at_msg,
    block,
    block_tail,
    colon_expr,
    comparison,
    comparison_rest,
    expr_from,
    comparison_op_at,
    cur,
    eat2,
    eat3,
    eat_ident,
    eat_kind,
    eat_method_name,
    eat_name_until_lparen,
    eat_word,
    else_chain,
    enclosed,
    expr,
    expr_list_rest,
    join_words,
    kind_at,
    kind_debug,
    maybe_index,
    method_name_stop,
    method_words,
    mono,
    multiplicative,
    multiplicative_rest,
    name_words,
    opt_args,
    params,
    params_rest,
    primary,
    program,
    same_kind,
    stmt,
    stmt_count,
    stmt_def,
    stmt_for_each,
    stmt_if,
    stmt_let,
    stmt_more,
    stmt_try,
    stmt_while,
    two_word_builtin,
    wf_toks,
    word_at,
};
use crate::lexer::{Kind, Tok, Token, TokenKind, line_prefix, toks_view};
use crate::text::{
    char_is_uppercase,
    chars_of,
    debug_string,
    push_all,
    push_int_text,
    push_nat_text,
    push_str_chars,
    same_chars,
    same_text,
    string_of,
};

verus! {

struct Parser {
    tokens: Vec<Token>,
    pos: usize,
}

pub open spec fn got_expr(pre: int, post: int, r: Result<Expr, String>, s: Parsed<ExprV>) -> bool {
    match s {
        Ok((x, q)) => r is Ok && r->Ok_0@ == x && post == q,
        Err(m) => r is Err && r->Err_0@ == m,
    }
}

pub open spec fn got_exprs(pre: int, post: int, r: Result<Vec<Expr>, String>, s: Parsed<Seq<ExprV>>) -> bool {
    match s {
        Ok((x, q)) => r is Ok && exprs_v(r->Ok_0) == x && post == q,
        Err(m) => r is Err && r->Err_0@ == m,
    }
}

pub open spec fn got_stmt(pre: int, post: int, r: Result<Stmt, String>, s: Parsed<StmtV>) -> bool {
    match s {
        Ok((x, q)) => r is Ok && r->Ok_0@ == x && post == q,
        Err(m) => r is Err && r->Err_0@ == m,
    }
}

pub open spec fn got_stmts(pre: int, post: int, r: Result<Vec<Stmt>, String>, s: Parsed<Seq<StmtV>>) -> bool {
    match s {
        Ok((x, q)) => r is Ok && stmts_v(r->Ok_0) == x && post == q,
        Err(m) => r is Err && r->Err_0@ == m,
    }
}

pub open spec fn got_else(
    pre: int,
    post: int,
    r: Result<Option<Vec<Stmt>>, String>,
    s: Parsed<Option<Seq<StmtV>>>,
) -> bool {
    match s {
        Ok((x, q)) => r is Ok && opt_stmts_v(r->Ok_0) == x && post == q,
        Err(m) => r is Err && r->Err_0@ == m,
    }
}

pub open spec fn got_name(pre: int, post: int, r: Result<String, String>, s: Parsed<Seq<char>>) -> bool {
    match s {
        Ok((x, q)) => r is Ok && r->Ok_0@ == x && post == q,
        Err(m) => r is Err && r->Err_0@ == m,
    }
}

pub open spec fn got_names(
    pre: int,
    post: int,
    r: Result<Vec<String>, String>,
    s: Parsed<Seq<Seq<char>>>,
) -> bool {
    match s {
        Ok((x, q)) => r is Ok && names_v(r->Ok_0) == x && post == q,
        Err(m) => r is Err && r->Err_0@ == m,
    }
}

pub open spec fn got_pos(post: int, r: Result<(), String>, s: Result<int, Seq<char>>) -> bool {
    match s {
        Ok(q) => r is Ok && post == q,
        Err(m) => r is Err && r->Err_0@ == m,
    }
}

fn kind_text(k: &TokenKind) -> (r: Vec<char>)
    ensures
        r@ == kind_debug(k@),
{
    let mut v: Vec<char> = Vec::new();
    match k {
        TokenKind::Word(s) => {
            push_str_chars(&mut v, "Word(");
            let d = debug_string(s.as_str());
            push_str_chars(&mut v, d.as_str());
            push_str_chars(&mut v, ")");
        },
        TokenKind::Int(n) => {
            push_str_chars(&mut v, "Int(");
            push_int_text(&mut v, *n);
            push_str_chars(&mut v, ")");
        },
        TokenKind::Float(s) => {
            push_str_chars(&mut v, "Float(");
            push_str_chars(&mut v, s.as_str());
            push_str_chars(&mut v, ")");
        },
        TokenKind::Str(s) => {
            push_str_chars(&mut v, "Str(");
            let d = debug_string(s.as_str());
            push_str_chars(&mut v, d.as_str());
            push_str_chars(&mut v, ")");
        },
        TokenKind::Comma => push_str_chars(&mut v, "Comma"),
        TokenKind::Dot => push_str_chars(&mut v, "Dot"),
        TokenKind::Colon => push_str_chars(&mut v, "Colon"),
        TokenKind::LParen => push_str_chars(&mut v, "LParen"),
        TokenKind::RParen => push_str_chars(&mut v, "RParen"),
        TokenKind::LBracket => push_str_chars(&mut v, "LBracket"),
        TokenKind::RBracket => push_str_chars(&mut v, "RBracket"),
        TokenKind::Eof => push_str_chars(&mut v, "Eof"),
    }
    assert(v@ =~= kind_debug(k@));
    v
}

fn same_token_kind(a: &TokenKind, b: &TokenKind) -> (r: bool)
    ensures
        r == same_kind(a@, b@),
{
    match (a, b) {
        (TokenKind::Word(_), TokenKind::Word(_)) => true,
        (TokenKind::Int(_), TokenKind::Int(_)) => true,
        (TokenKind::Float(_), TokenKind::Float(_)) => true,
        (TokenKind::Str(_), TokenKind::Str(_)) => true,
        (TokenKind::Comma, TokenKind::Comma) => true,
        (TokenKind::Dot, TokenKind::Dot) => true,
        (TokenKind::Colon, TokenKind::Colon) => true,
        (TokenKind::LParen, TokenKind::LParen) => true,
        (TokenKind::RParen, TokenKind::RParen) => true,
        (TokenKind::LBracket, TokenKind::LBracket) => true,
        (TokenKind::RBracket, TokenKind::RBracket) => true,
        (TokenKind::Eof, TokenKind::Eof) => true,
        _ => false,
    }
}

/// Words joined by single spaces.
fn join_names(ws: &Vec<String>) -> (r: String)
    requires
        ws@.len() > 0,
    ensures
        r@ == join_words(names_v(*ws)),
{
    let mut v: Vec<char> = Vec::new();
    let n = ws.len();
    let mut i = n;
    push_str_chars(&mut v, ws[n - 1].as_str());
    proof {
        assert(names_v(*ws).subrange(n - 1, n as int) =~= seq![ws@[n - 1]@]);
    }
    while i > 1
        invariant
            1 <= i <= n == ws@.len(),
            v@ == join_words(names_v(*ws).subrange(i - 1, n as int)),
        decreases i,
    {
        i -= 1;
        let mut w: Vec<char> = Vec::new();
        push_str_chars(&mut w, ws[i - 1].as_str());
        push_str_chars(&mut w, " ");
        push_all(&mut w, &v);
        proof {
            let s = names_v(*ws).subrange(i - 1, n as int);
            assert(s.drop_first() =~= names_v(*ws).subrange(i as int, n as int));
            assert(s[0] == ws@[i - 1]@);
        }
        v = w;
    }
    assert(names_v(*ws).subrange(0, n as int) =~= names_v(*ws));
    string_of(v.as_slice())
}

impl Parser {
    spec fn t(&self) -> Seq<Tok> {
        toks_view(self.tokens@)
    }

    spec fn ok(&self) -> bool {
        wf_toks(self.t()) && self.pos < self.t().len() && self.t().len() == self.tokens@.len()
    }

    proof fn lemma_word_index(&self, i: int)
        requires
            self.ok(),
            !(kind_at(self.t(), i) is Eof),
        ensures
            0 <= i < self.t().len() - 1,
    {
    }

    fn kind(&self, off: usize) -> (k: &TokenKind)
        requires
            self.ok(),
        ensures
            k@ == kind_at(self.t(), self.pos + off),
    {
        let n = self.tokens.len();
        if off < n - self.pos {
            assert(self.t()[self.pos + off] == self.tokens@[self.pos + off]@);
            &self.tokens[self.pos + off].kind
        } else {
            assert(self.t().last() == self.tokens@[n - 1]@);
            &self.tokens[n - 1].kind
        }
    }

    fn line(&self) -> (l: usize)
        requires
            self.ok(),
        ensures
            l == cur(self.t(), self.pos as int).line,
    {
        assert(self.t()[self.pos as int] == self.tokens@[self.pos as int]@);
        self.tokens[self.pos].line
    }

    fn word(&self, off: usize, w: &str) -> (r: bool)
        requires
            self.ok(),
        ensures
            r == word_at(self.t(), self.pos + off, w@),
    {
        match self.kind(off) {
            TokenKind::Word(s) => same_text(s.as_str(), w),
            _ => false,
        }
    }

    fn is_wordk(&self, off: usize) -> (r: bool)
        requires
            self.ok(),
        ensures
            r == (kind_at(self.t(), self.pos + off) is Word),
    {
        match self.kind(off) {
            TokenKind::Word(_) => true,
            _ => false,
        }
    }

    fn word_text(&self, off: usize) -> (r: String)
        requires
            self.ok(),
            kind_at(self.t(), self.pos + off) is Word,
        ensures
            r@ == kind_at(self.t(), self.pos + off)->Word_0,
    {
        match self.kind(off) {
            TokenKind::Word(s) => s.clone(),
            _ => String::new(),
        }
    }

    fn skip(&mut self, n: usize)
        requires
            old(self).ok(),
            n > 0,
            !(kind_at(old(self).t(), old(self).pos + n - 1) is Eof),
        ensures
            final(self).ok(),
            final(self).tokens == old(self).tokens,
            final(self).pos == old(self).pos + n,
    {
        let len = self.tokens.len();
        proof {
            self.lemma_word_index(self.pos + n - 1);
        }
        assert(self.pos + n < len);
        self.pos = self.pos + n;
    }

    fn msg(&self, what: &str) -> (r: String)
        requires
            self.ok(),
        ensures
            r@ == at_msg(self.t(), self.pos as int, what@),
    {
        let mut v: Vec<char> = Vec::new();
        push_str_chars(&mut v, "Line ");
        push_nat_text(&mut v, self.line() as u64);
        push_str_chars(&mut v, ": ");
        push_str_chars(&mut v, what);
        let kt = kind_text(self.kind(0));
        push_all(&mut v, &kt);
        assert(self.pos + 0 == self.pos);
        assert(v@ =~= at_msg(self.t(), self.pos as int, what@));
        string_of(v.as_slice())
    }

    fn msg_chars(&self, what: &Vec<char>) -> (r: String)
        requires
            self.ok(),
        ensures
            r@ == at_msg(self.t(), self.pos as int, what@),
    {
        let mut v: Vec<char> = Vec::new();
        push_str_chars(&mut v, "Line ");
        push_nat_text(&mut v, self.line() as u64);
        push_str_chars(&mut v, ": ");
        push_all(&mut v, what);
        let kt = kind_text(self.kind(0));
        push_all(&mut v, &kt);
        assert(self.pos + 0 == self.pos);
        assert(v@ =~= at_msg(self.t(), self.pos as int, what@));
        string_of(v.as_slice())
    }

    fn eat_word(&mut self, w: &str) -> (r: Result<(), String>)
        requires
            old(self).ok(),
        ensures
            final(self).ok(),
            final(self).tokens == old(self).tokens,
            got_pos(final(self).pos as int, r, eat_word(old(self).t(), old(self).pos as int, w@)),
            r is Ok ==> final(self).pos > old(self).pos,
    {
        if self.word(0, w) {
            self.skip(1);
            Ok(())
        } else {
            let mut what: Vec<char> = Vec::new();
            push_str_chars(&mut what, "expected '");
            push_str_chars(&mut what, w);
            push_str_chars(&mut what, "', got ");
            assert(what@ =~= "expected '"@ + w@ + "', got "@);
            Err(self.msg_chars(&what))
        }
    }

    fn eat2(&mut self, a: &str, b: &str) -> (r: Result<(), String>)
        requires
            old(self).ok(),
        ensures
            final(self).ok(),
            final(self).tokens == old(self).tokens,
            got_pos(final(self).pos as int, r, eat2(old(self).t(), old(self).pos as int, a@, b@)),
            r is Ok ==> final(self).pos > old(self).pos,
    {
        match self.eat_word(a) {
            Ok(()) => self.eat_word(b),
            Err(e) => Err(e),
        }
    }

    fn eat3(&mut self, a: &str, b: &str, c: &str) -> (r: Result<(), String>)
        requires
            old(self).ok(),
        ensures
            final(self).ok(),
            final(self).tokens == old(self).tokens,
            got_pos(final(self).pos as int, r, eat3(old(self).t(), old(self).pos as int, a@, b@, c@)),
            r is Ok ==> final(self).pos > old(self).pos,
    {
        match self.eat2(a, b) {
            Ok(()) => self.eat_word(c),
            Err(e) => Err(e),
        }
    }

    fn eat_kind(&mut self, k: &TokenKind) -> (r: Result<(), String>)
        requires
            old(self).ok(),
            !(k@ is Eof),
        ensures
            final(self).ok(),
            final(self).tokens == old(self).tokens,
            got_pos(final(self).pos as int, r, eat_kind(old(self).t(), old(self).pos as int, k@)),
            r is Ok ==> final(self).pos > old(self).pos,
    {
        if same_token_kind(self.kind(0), k) {
            let len = self.tokens.len();
            proof {
                self.lemma_word_index(self.pos as int);
            }
            assert(self.pos + 1 < len);
            self.pos = self.pos + 1;
            Ok(())
        } else {
            let mut what: Vec<char> = Vec::new();
            push_str_chars(&mut what, "expected ");
            let kt = kind_text(k);
            push_all(&mut what, &kt);
            push_str_chars(&mut what, ", got ");
            assert(what@ =~= "expected "@ + kind_debug(k@) + ", got "@);
            Err(self.msg_chars(&what))
        }
    }

    fn eat_ident(&mut self) -> (r: Result<String, String>)
        requires
            old(self).ok(),
        ensures
            final(self).ok(),
            final(self).tokens == old(self).tokens,
            got_name(old(self).pos as int, final(self).pos as int, r, eat_ident(old(self).t(), old(self).pos as int)),
            r is Ok ==> final(self).pos > old(self).pos,
    {
        if self.is_wordk(0) {
            let s = self.word_text(0);
            self.skip(1);
            Ok(s)
        } else {
            Err(self.msg("expected identifier, got "))
        }
    }
}


/// The five builtins whose names are two words.
pub fn is_two_word_builtin(name: &str) -> (r: bool)
    ensures
        r == two_word_builtin(name@),
{
    same_text(name, "legg til") || same_text(name, "del frå") || same_text(name, "del opp")
        || same_text(name, "sett saman") || same_text(name, "kvart tal")
}

/// Words that never belong to a method name: capitalised words (they begin statements)
/// and the operator and keyword words.
pub fn is_method_name_stop(w: &str) -> (r: bool)
    ensures
        r == method_name_stop(w@),
{
    let cs = chars_of(w);
    if cs.len() > 0 && char_is_uppercase(cs[0]) {
        return true;
    }
    same_text(w, "med") || same_text(w, "og") || same_text(w, "utan") || same_text(w, "gongar")
        || same_text(w, "delt") || same_text(w, "resten") || same_text(w, "er") || same_text(
        w,
        "ikkje",
    ) || same_text(w, "sin") || same_text(w, "lat") || same_text(w, "kvar") || same_text(
        w,
        "stansar",
    ) || same_text(w, "atter") || same_text(w, "sjølv") || same_text(w, "til") || same_text(
        w,
        "av",
    ) || same_text(w, "på") || same_text(w, "i") || same_text(w, "frå")
}

fn concat_words(a: &String, b: &String) -> (r: String)
    ensures
        r@ == a@ + " "@ + b@,
{
    let mut v: Vec<char> = Vec::new();
    push_str_chars(&mut v, a.as_str());
    push_str_chars(&mut v, " ");
    push_str_chars(&mut v, b.as_str());
    string_of(v.as_slice())
}

fn binop_expr(op: BinOpKind, l: Expr, r: Expr) -> (e: Expr)
    ensures
        e@ == crate::grammar::binop(op, l@, r@),
{
    Expr::BinOp { op, left: Box::new(l), right: Box::new(r) }
}

impl Parser {
    fn at_block_end(&self) -> (r: bool)
        requires
            self.ok(),
        ensures
            r == at_block_end(self.t(), self.pos as int),
    {
        let eof = match self.kind(0) {
            TokenKind::Eof => true,
            _ => false,
        };
        eof || (self.word(0, "Det") && self.word(1, "er") && self.word(2, "nok")) || (self.word(
            0,
            "Men",
        ) && self.word(1, "om")) || (self.word(0, "Ver") && self.word(1, "ikkje") && self.word(
            2,
            "redd",
        ))
    }

    fn parse_block(&mut self) -> (r: Result<Vec<Stmt>, String>)
        requires
            old(self).ok(),
        ensures
            final(self).ok(),
            final(self).tokens == old(self).tokens,
            got_stmts(old(self).pos as int, final(self).pos as int, r, block(old(self).t(), old(self).pos as int)),
            r is Ok ==> old(self).pos <= final(self).pos,
        decreases old(self).t().len() - old(self).pos, 26int,
    {
        let mut stmts: Vec<Stmt> = Vec::new();
        let ghost t = self.t();
        let ghost p0 = self.pos as int;
        proof {
            lemma_stmts_empty(stmts);
        }
        while !self.at_block_end()
            invariant
                self.ok(),
                self.t() == t,
                self.tokens == old(self).tokens,
                p0 == old(self).pos,
                p0 <= self.pos,
                block(t, p0) == crate::grammar::block_from(t, self.pos as int, stmts_v(stmts)),
            decreases self.t().len() - self.pos,
        {
            let ghost before = stmts;
            match self.parse_stmt() {
                Ok(s) => {
                    stmts.push(s);
                    proof {
                        lemma_stmts_push(before, stmts, s);
                    }
                },
                Err(e) => {
                    return Err(e);
                },
            }
        }
        Ok(stmts)
    }

    fn parse_block_tail(&mut self) -> (r: Result<Vec<Stmt>, String>)
        requires
            old(self).ok(),
        ensures
            final(self).ok(),
            final(self).tokens == old(self).tokens,
            got_stmts(old(self).pos as int, final(self).pos as int, r, block_tail(old(self).t(), old(self).pos as int)),
            r is Ok ==> old(self).pos <= final(self).pos,
        decreases old(self).t().len() - old(self).pos, 20int,
    {
        match self.eat_kind(&TokenKind::Colon) {
            Ok(()) => {},
            Err(e) => {
                return Err(e);
            },
        }
        let b = match self.parse_block() {
            Ok(b) => b,
            Err(e) => {
                return Err(e);
            },
        };
        match self.eat3("Det", "er", "nok") {
            Ok(()) => {},
            Err(e) => {
                return Err(e);
            },
        }
        match self.eat_kind(&TokenKind::Dot) {
            Ok(()) => {},
            Err(e) => {
                return Err(e);
            },
        }
        Ok(b)
    }

    fn parse_colon_expr(&mut self) -> (r: Result<Expr, String>)
        requires
            old(self).ok(),
        ensures
            final(self).ok(),
            final(self).tokens == old(self).tokens,
            got_expr(old(self).pos as int, final(self).pos as int, r, colon_expr(old(self).t(), old(self).pos as int)),
            r is Ok ==> old(self).pos <= final(self).pos,
        decreases old(self).t().len() - old(self).pos, 20int,
    {
        match self.eat_kind(&TokenKind::Colon) {
            Ok(()) => {},
            Err(e) => {
                return Err(e);
            },
        }
        self.parse_expr()
    }

    fn parse_opt_args(&mut self) -> (r: Result<Vec<Expr>, String>)
        requires
            old(self).ok(),
        ensures
            final(self).ok(),
            final(self).tokens == old(self).tokens,
            got_exprs(old(self).pos as int, final(self).pos as int, r, opt_args(old(self).t(), old(self).pos as int)),
            r is Ok ==> old(self).pos <= final(self).pos,
        decreases old(self).t().len() - old(self).pos, 20int,
    {
        if self.word(0, "med") {
            self.skip(1);
            self.parse_arg_list()
        } else {
            let v: Vec<Expr> = Vec::new();
            proof {
                lemma_exprs_empty(v);
            }
            Ok(v)
        }
    }

    fn parse_else_chain(&mut self, ln: usize) -> (r: Result<Option<Vec<Stmt>>, String>)
        requires
            old(self).ok(),
        ensures
            final(self).ok(),
            final(self).tokens == old(self).tokens,
            got_else(old(self).pos as int, final(self).pos as int, r, else_chain(old(self).t(), old(self).pos as int, ln as nat)),
            r is Ok ==> old(self).pos <= final(self).pos,
        decreases old(self).t().len() - old(self).pos, 20int,
    {
        let is_else = match self.kind(3) {
            TokenKind::Colon => true,
            _ => false,
        };
        if self.word(0, "Men") && self.word(1, "om") && self.word(2, "ikkje") && is_else {
            self.skip(4);
            match self.parse_block() {
                Ok(b) => Ok(Some(b)),
                Err(e) => Err(e),
            }
        } else if self.word(0, "Men") && self.word(1, "om") {
            self.skip(2);
            let cond = match self.parse_expr() {
                Ok(c) => c,
                Err(e) => {
                    return Err(e);
                },
            };
            match self.eat_kind(&TokenKind::Colon) {
                Ok(()) => {},
                Err(e) => {
                    return Err(e);
                },
            }
            let then_body = match self.parse_block() {
                Ok(b) => b,
                Err(e) => {
                    return Err(e);
                },
            };
            let else_body = match self.parse_else_chain(ln) {
                Ok(b) => b,
                Err(e) => {
                    return Err(e);
                },
            };
            let s = Stmt::If { cond, then_body, else_body, line: ln };
            let mut v: Vec<Stmt> = Vec::new();
            let ghost e0 = v;
            v.push(s);
            proof {
                lemma_stmts_empty(e0);
                lemma_stmts_push(e0, v, s);
            }
            Ok(Some(v))
        } else {
            Ok(None)
        }
    }

    #[verifier::spinoff_prover]
    #[verifier::rlimit(60)]
    fn parse_stmt(&mut self) -> (r: Result<Stmt, String>)
        requires
            old(self).ok(),
        ensures
            final(self).ok(),
            final(self).tokens == old(self).tokens,
            got_stmt(old(self).pos as int, final(self).pos as int, r, stmt(old(self).t(), old(self).pos as int)),
            r is Ok ==> old(self).pos < final(self).pos,
        decreases old(self).t().len() - old(self).pos, 22int,
    {
        let ln = self.line();
        if self.word(0, "lat") {
            self.stmt_let()
        } else if self.word(0, "Syng") && self.word(1, "ut") {
            self.skip(2);
            match self.parse_colon_expr() {
                Ok(v) => Ok(Stmt::Print { value: v, line: ln }),
                Err(e) => Err(e),
            }
        } else if self.word(0, "Eit") && self.word(1, "fullført") && self.word(2, "verk") {
            self.skip(3);
            match self.parse_colon_expr() {
                Ok(v) => Ok(Stmt::Return { value: v, line: ln }),
                Err(e) => Err(e),
            }
        } else if self.word(0, "Takk") && self.word(1, "at") && self.word(2, "du") && self.word(
            3,
            "tok",
        ) && self.word(4, "mine") && self.word(5, "byrder") {
            self.skip(6);
            match self.parse_colon_expr() {
                Ok(v) => Ok(Stmt::Return { value: v, line: ln }),
                Err(e) => Err(e),
            }
        } else if self.word(0, "Kom") && self.word(1, "med") && self.word(2, "din") {
            self.skip(3);
            match self.eat_ident() {
                Ok(name) => Ok(Stmt::Input { name, line: ln }),
                Err(e) => Err(e),
            }
        } else if self.word(0, "Du") && self.word(1, "kjem") && self.word(2, "ikkje") && self.word(
            3,
            "utanom",
        ) {
            self.stmt_if()
        } else if self.word(0, "Eit") && self.word(1, "øyeblikk") && self.word(2, "om")
            && self.word(3, "gangen") {
            self.stmt_while()
        } else if self.word(0, "kvar") {
            self.stmt_for_each()
        } else if self.word(0, "Evig") && self.word(1, "i") && self.word(2, "lysets") && self.word(
            3,
            "rike",
        ) {
            self.skip(4);
            match self.parse_block_tail() {
                Ok(b) => Ok(Stmt::InfLoop { body: b, line: ln }),
                Err(e) => Err(e),
            }
        } else if self.word(0, "Topp") && self.word(1, "attom") && self.word(2, "toppar") {
            self.stmt_count()
        } else if self.word(0, "Eg") && self.word(1, "kan") {
            self.skip(2);
            self.stmt_def(ln)
        } else if self.word(0, "Gud") && self.word(1, "har") && self.word(2, "ein") && self.word(
            3,
            "plan",
        ) && self.word(4, "med") {
            self.skip(5);
            self.stmt_def(ln)
        } else if self.word(0, "Syng") && self.word(1, "for") && self.word(2, "meg") && self.word(
            3,
            "songen",
        ) && self.word(4, "om") {
            self.skip(5);
            let class = match self.eat_ident() {
                Ok(c) => c,
                Err(e) => {
                    return Err(e);
                },
            };
            match self.eat_word("til") {
                Ok(()) => {},
                Err(e) => {
                    return Err(e);
                },
            }
            match self.eat_ident() {
                Ok(name) => Ok(Stmt::Assign { name, value: Expr::New { class }, line: ln }),
                Err(e) => Err(e),
            }
        } else if self.word(0, "Songen") {
            self.skip(1);
            let name = match self.eat_ident() {
                Ok(n) => n,
                Err(e) => {
                    return Err(e);
                },
            };
            match self.parse_block_tail() {
                Ok(b) => Ok(Stmt::ClassDef { name, body: b, line: ln }),
                Err(e) => Err(e),
            }
        } else if self.word(0, "Prøv") && self.word(1, "å") && self.word(2, "få") && self.word(
            3,
            "gjort",
        ) && self.word(4, "det") && self.word(5, "du") && self.word(6, "kan") {
            self.stmt_try()
        } else {
            self.stmt_more()
        }
    }

    fn stmt_let(&mut self) -> (r: Result<Stmt, String>)
        requires
            old(self).ok(),
            word_at(old(self).t(), old(self).pos as int, "lat"@),
        ensures
            final(self).ok(),
            final(self).tokens == old(self).tokens,
            got_stmt(old(self).pos as int, final(self).pos as int, r, stmt_let(old(self).t(), old(self).pos as int)),
            r is Ok ==> old(self).pos < final(self).pos,
        decreases old(self).t().len() - old(self).pos, 20int,
    {
        let ln = self.line();
        self.skip(1);
        let name = match self.eat_ident() {
            Ok(n) => n,
            Err(e) => {
                return Err(e);
            },
        };
        match self.eat_word("vera") {
            Ok(()) => {},
            Err(e) => {
                return Err(e);
            },
        }
        match self.parse_expr() {
            Ok(v) => Ok(Stmt::Assign { name, value: v, line: ln }),
            Err(e) => Err(e),
        }
    }

    fn stmt_if(&mut self) -> (r: Result<Stmt, String>)
        requires
            old(self).ok(),
            crate::grammar::phrase4(old(self).t(), old(self).pos as int, "Du"@, "kjem"@, "ikkje"@, "utanom"@),
        ensures
            final(self).ok(),
            final(self).tokens == old(self).tokens,
            got_stmt(old(self).pos as int, final(self).pos as int, r, stmt_if(old(self).t(), old(self).pos as int)),
            r is Ok ==> old(self).pos < final(self).pos,
        decreases old(self).t().len() - old(self).pos, 20int,
    {
        let ln = self.line();
        self.skip(4);
        let cond = match self.parse_expr() {
            Ok(c) => c,
            Err(e) => {
                return Err(e);
            },
        };
        match self.eat_kind(&TokenKind::Colon) {
            Ok(()) => {},
            Err(e) => {
                return Err(e);
            },
        }
        let then_body = match self.parse_block() {
            Ok(b) => b,
            Err(e) => {
                return Err(e);
            },
        };
        let else_body = match self.parse_else_chain(ln) {
            Ok(b) => b,
            Err(e) => {
                return Err(e);
            },
        };
        match self.eat3("Det", "er", "nok") {
            Ok(()) => {},
            Err(e) => {
                return Err(e);
            },
        }
        match self.eat_kind(&TokenKind::Dot) {
            Ok(()) => {},
            Err(e) => {
                return Err(e);
            },
        }
        Ok(Stmt::If { cond, then_body, else_body, line: ln })
    }

    fn stmt_while(&mut self) -> (r: Result<Stmt, String>)
        requires
            old(self).ok(),
            crate::grammar::phrase4(old(self).t(), old(self).pos as int, "Eit"@, "øyeblikk"@, "om"@, "gangen"@),
        ensures
            final(self).ok(),
            final(self).tokens == old(self).tokens,
            got_stmt(old(self).pos as int, final(self).pos as int, r, stmt_while(old(self).t(), old(self).pos as int)),
            r is Ok ==> old(self).pos < final(self).pos,
        decreases old(self).t().len() - old(self).pos, 20int,
    {
        let ln = self.line();
        self.skip(4);
        match self.eat_kind(&TokenKind::Comma) {
            Ok(()) => {},
            Err(e) => {
                return Err(e);
            },
        }
        match self.eat_word("medan") {
            Ok(()) => {},
            Err(e) => {
                return Err(e);
            },
        }
        let cond = match self.parse_expr() {
            Ok(c) => c,
            Err(e) => {
                return Err(e);
            },
        };
        match self.parse_block_tail() {
            Ok(b) => Ok(Stmt::While { cond, body: b, line: ln }),
            Err(e) => Err(e),
        }
    }

    fn stmt_for_each(&mut self) -> (r: Result<Stmt, String>)
        requires
            old(self).ok(),
            word_at(old(self).t(), old(self).pos as int, "kvar"@),
        ensures
            final(self).ok(),
            final(self).tokens == old(self).tokens,
            got_stmt(old(self).pos as int, final(self).pos as int, r, stmt_for_each(old(self).t(), old(self).pos as int)),
            r is Ok ==> old(self).pos < final(self).pos,
        decreases old(self).t().len() - old(self).pos, 20int,
    {
        let ln = self.line();
        self.skip(1);
        let var = match self.eat_ident() {
            Ok(n) => n,
            Err(e) => {
                return Err(e);
            },
        };
        match self.eat_word("i") {
            Ok(()) => {},
            Err(e) => {
                return Err(e);
            },
        }
        let iterable = match self.parse_expr() {
            Ok(c) => c,
            Err(e) => {
                return Err(e);
            },
        };
        match self.parse_block_tail() {
            Ok(b) => Ok(Stmt::ForEach { var, iterable, body: b, line: ln }),
            Err(e) => Err(e),
        }
    }

    fn stmt_count(&mut self) -> (r: Result<Stmt, String>)
        requires
            old(self).ok(),
            crate::grammar::phrase3(old(self).t(), old(self).pos as int, "Topp"@, "attom"@, "toppar"@),
        ensures
            final(self).ok(),
            final(self).tokens == old(self).tokens,
            got_stmt(old(self).pos as int, final(self).pos as int, r, stmt_count(old(self).t(), old(self).pos as int)),
            r is Ok ==> old(self).pos < final(self).pos,
        decreases old(self).t().len() - old(self).pos, 20int,
    {
        let ln = self.line();
        self.skip(3);
        let count = match self.parse_primary() {
            Ok(c) => c,
            Err(e) => {
                return Err(e);
            },
        };
        let var = if self.word(0, "som") {
            self.skip(1);
            match self.eat_ident() {
                Ok(n) => n,
                Err(e) => {
                    return Err(e);
                },
            }
        } else {
            let u = chars_of("_");
            string_of(u.as_slice())
        };
        match self.eat_word("gongar") {
            Ok(()) => {},
            Err(e) => {
                return Err(e);
            },
        }
        match self.parse_block_tail() {
            Ok(b) => Ok(Stmt::CountLoop { count, var, body: b, line: ln }),
            Err(e) => Err(e),
        }
    }

    fn stmt_def(&mut self, ln: usize) -> (r: Result<Stmt, String>)
        requires
            old(self).ok(),
        ensures
            final(self).ok(),
            final(self).tokens == old(self).tokens,
            got_stmt(old(self).pos as int, final(self).pos as int, r, stmt_def(old(self).t(), old(self).pos as int, ln as nat)),
            r is Ok ==> old(self).pos < final(self).pos,
        decreases old(self).t().len() - old(self).pos, 20int,
    {
        let name = match self.eat_name_until_lparen() {
            Ok(n) => n,
            Err(e) => {
                return Err(e);
            },
        };
        match self.eat_kind(&TokenKind::LParen) {
            Ok(()) => {},
            Err(e) => {
                return Err(e);
            },
        }
        let ps = match self.parse_params() {
            Ok(p) => p,
            Err(e) => {
                return Err(e);
            },
        };
        match self.eat_kind(&TokenKind::RParen) {
            Ok(()) => {},
            Err(e) => {
                return Err(e);
            },
        }
        match self.parse_block_tail() {
            Ok(b) => Ok(Stmt::FuncDef { name, params: ps, body: b, line: ln }),
            Err(e) => Err(e),
        }
    }

    fn stmt_try(&mut self) -> (r: Result<Stmt, String>)
        requires
            old(self).ok(),
            crate::grammar::phrase4(old(self).t(), old(self).pos as int, "Prøv"@, "å"@, "få"@, "gjort"@),
            crate::grammar::phrase3(old(self).t(), old(self).pos + 4, "det"@, "du"@, "kan"@),
        ensures
            final(self).ok(),
            final(self).tokens == old(self).tokens,
            got_stmt(old(self).pos as int, final(self).pos as int, r, stmt_try(old(self).t(), old(self).pos as int)),
            r is Ok ==> old(self).pos < final(self).pos,
        decreases old(self).t().len() - old(self).pos, 20int,
    {
        let ln = self.line();
        self.skip(7);
        match self.eat_kind(&TokenKind::Colon) {
            Ok(()) => {},
            Err(e) => {
                return Err(e);
            },
        }
        let try_body = match self.parse_block() {
            Ok(b) => b,
            Err(e) => {
                return Err(e);
            },
        };
        match self.eat3("Ver", "ikkje", "redd") {
            Ok(()) => {},
            Err(e) => {
                return Err(e);
            },
        }
        match self.eat_kind(&TokenKind::Colon) {
            Ok(()) => {},
            Err(e) => {
                return Err(e);
            },
        }
        let catch_body = match self.parse_block() {
            Ok(b) => b,
            Err(e) => {
                return Err(e);
            },
        };
        match self.eat3("Det", "er", "nok") {
            Ok(()) => {},
            Err(e) => {
                return Err(e);
            },
        }
        match self.eat_kind(&TokenKind::Dot) {
            Ok(()) => {},
            Err(e) => {
                return Err(e);
            },
        }
        Ok(Stmt::TryCatch { try_body, catch_body, line: ln })
    }
}

impl Parser {
    #[verifier::rlimit(60)]
    fn stmt_more(&mut self) -> (r: Result<Stmt, String>)
        requires
            old(self).ok(),
        ensures
            final(self).ok(),
            final(self).tokens == old(self).tokens,
            got_stmt(old(self).pos as int, final(self).pos as int, r, stmt_more(old(self).t(), old(self).pos as int)),
            r is Ok ==> old(self).pos < final(self).pos,
        decreases old(self).t().len() - old(self).pos, 20int,
    {
        let ln = self.line();
        if self.is_wordk(0) && self.word(1, "vert") && self.word(2, "kalla") && self.word(3, "til")
            && self.word(4, "å") {
            let obj = self.word_text(0);
            self.skip(5);
            let method = match self.eat_method_name() {
                Ok(m) => m,
                Err(e) => {
                    return Err(e);
                },
            };
            match self.parse_opt_args() {
                Ok(args) => Ok(Stmt::MethodCall { obj, method, args, line: ln }),
                Err(e) => Err(e),
            }
        } else if self.is_wordk(0) && self.word(1, "sin") && self.is_wordk(2) && self.word(3, "tek")
            && self.word(4, "imot") {
            let obj = self.word_text(0);
            let field = self.word_text(2);
            self.skip(5);
            match self.parse_expr() {
                Ok(v) => Ok(Stmt::FieldAssign { obj, field, value: v, line: ln }),
                Err(e) => Err(e),
            }
        } else if self.is_wordk(0) && self.word(1, "tek") && self.word(2, "imot") {
            let name = self.word_text(0);
            self.skip(3);
            match self.parse_expr() {
                Ok(v) => Ok(Stmt::Reassign { name, value: v, line: ln }),
                Err(e) => Err(e),
            }
        } else if self.word(0, "stansar") && self.word(1, "stilt") {
            self.skip(2);
            match self.eat_kind(&TokenKind::Dot) {
                Ok(()) => Ok(Stmt::Break { line: ln }),
                Err(e) => Err(e),
            }
        } else if self.word(0, "atter") && self.word(1, "ein") && self.word(2, "gong") {
            self.skip(3);
            match self.eat_kind(&TokenKind::Dot) {
                Ok(()) => Ok(Stmt::Continue { line: ln }),
                Err(e) => Err(e),
            }
        } else {
            self.stmt_keyword()
        }
    }

    #[verifier::rlimit(60)]
    fn stmt_keyword(&mut self) -> (r: Result<Stmt, String>)
        requires
            old(self).ok(),
        ensures
            final(self).ok(),
            final(self).tokens == old(self).tokens,
            got_stmt(old(self).pos as int, final(self).pos as int, r, crate::grammar::stmt_keyword(old(self).t(), old(self).pos as int)),
            r is Ok ==> old(self).pos < final(self).pos,
        decreases old(self).t().len() - old(self).pos, 18int,
    {
        let ln = self.line();
        if self.word(0, "Rop") && self.word(1, "ut") {
            self.skip(2);
            match self.parse_colon_expr() {
                Ok(v) => Ok(Stmt::Raise { value: v, line: ln }),
                Err(e) => Err(e),
            }
        } else if self.word(0, "Set") && self.word(1, "vakt") {
            self.skip(2);
            match self.parse_colon_expr() {
                Ok(v) => Ok(Stmt::Assert { cond: v, line: ln }),
                Err(e) => Err(e),
            }
        } else if self.word(0, "Kvil") && self.word(1, "eit") && self.word(2, "augneblink") {
            self.skip(3);
            match self.parse_colon_expr() {
                Ok(v) => Ok(Stmt::Sleep { secs: v, line: ln }),
                Err(e) => Err(e),
            }
        } else if self.word(0, "Opna") && self.word(1, "den") && self.word(2, "klåre") && self.word(
            3,
            "kjelda",
        ) {
            self.skip(4);
            let path = match self.parse_colon_expr() {
                Ok(v) => v,
                Err(e) => {
                    return Err(e);
                },
            };
            match self.eat_word("til") {
                Ok(()) => {},
                Err(e) => {
                    return Err(e);
                },
            }
            match self.eat_ident() {
                Ok(name) => Ok(Stmt::ReadFile { path, name, line: ln }),
                Err(e) => Err(e),
            }
        } else if self.word(0, "Så") {
            self.skip(1);
            let content = match self.parse_expr() {
                Ok(v) => v,
                Err(e) => {
                    return Err(e);
                },
            };
            match self.eat_word("i") {
                Ok(()) => {},
                Err(e) => {
                    return Err(e);
                },
            }
            match self.parse_expr() {
                Ok(path) => Ok(Stmt::WriteFile { path, content, line: ln }),
                Err(e) => Err(e),
            }
        } else if self.word(0, "Lytt") && self.word(1, "ved") && self.word(2, "port") {
            self.skip(3);
            let port = match self.parse_primary() {
                Ok(v) => v,
                Err(e) => {
                    return Err(e);
                },
            };
            match self.parse_block_tail() {
                Ok(b) => Ok(Stmt::Serve { port, body: b, line: ln }),
                Err(e) => Err(e),
            }
        } else if self.word(0, "Svar") && self.word(1, "med") {
            self.skip(2);
            match self.parse_colon_expr() {
                Ok(v) => Ok(Stmt::Respond { value: v, line: ln }),
                Err(e) => Err(e),
            }
        } else if self.word(0, "Bli") && self.word(1, "med") && self.word(2, "til") {
            self.skip(3);
            let name = match self.eat_ident() {
                Ok(n) => n,
                Err(e) => {
                    return Err(e);
                },
            };
            match self.parse_opt_args() {
                Ok(args) => Ok(Stmt::FuncCall { name, args, line: ln }),
                Err(e) => Err(e),
            }
        } else {
            Err(self.msg("unexpected token "))
        }
    }

    fn eat_name_until_lparen(&mut self) -> (r: Result<String, String>)
        requires
            old(self).ok(),
        ensures
            final(self).ok(),
            final(self).tokens == old(self).tokens,
            got_name(old(self).pos as int, final(self).pos as int, r, eat_name_until_lparen(old(self).t(), old(self).pos as int)),
            r is Ok ==> old(self).pos <= final(self).pos,
    {
        let mut parts: Vec<String> = Vec::new();
        let ghost t = self.t();
        let ghost p0 = self.pos as int;
        proof {
            lemma_names_empty(parts);
        }
        while self.is_wordk(0)
            invariant
                self.ok(),
                self.t() == t,
                self.tokens == old(self).tokens,
                p0 == old(self).pos,
                p0 <= self.pos,
                name_words(t, p0, seq![]) == name_words(t, self.pos as int, names_v(parts)),
            ensures
                name_words(t, self.pos as int, names_v(parts)) == (names_v(parts), self.pos as int),
            decreases self.t().len() - self.pos,
        {
            let w = self.word_text(0);
            let ghost before = parts;
            self.skip(1);
            parts.push(w);
            proof {
                lemma_names_push(before, parts, w);
            }
            match self.kind(0) {
                TokenKind::LParen => {
                    break;
                },
                _ => {},
            }
        }
        if parts.len() == 0 {
            Err(self.msg("expected name, got "))
        } else {
            Ok(join_names(&parts))
        }
    }

    fn eat_method_name(&mut self) -> (r: Result<String, String>)
        requires
            old(self).ok(),
        ensures
            final(self).ok(),
            final(self).tokens == old(self).tokens,
            got_name(old(self).pos as int, final(self).pos as int, r, eat_method_name(old(self).t(), old(self).pos as int)),
            r is Ok ==> old(self).pos <= final(self).pos,
    {
        let mut parts: Vec<String> = Vec::new();
        let ghost t = self.t();
        let ghost p0 = self.pos as int;
        proof {
            lemma_names_empty(parts);
        }
        loop
            invariant
                self.ok(),
                self.t() == t,
                self.tokens == old(self).tokens,
                p0 == old(self).pos,
                p0 <= self.pos,
                method_words(t, p0, seq![]) == method_words(t, self.pos as int, names_v(parts)),
            ensures
                method_words(t, self.pos as int, names_v(parts)) == (names_v(parts), self.pos as int),
            decreases self.t().len() - self.pos,
        {
            if !self.is_wordk(0) {
                break;
            }
            let w = self.word_text(0);
            if is_method_name_stop(w.as_str()) {
                break;
            }
            if self.word(1, "vert") || self.word(1, "sin") || self.word(1, "tek") {
                break;
            }
            let ghost before = parts;
            self.skip(1);
            parts.push(w);
            proof {
                lemma_names_push(before, parts, w);
            }
        }
        if parts.len() == 0 {
            Err(self.msg("expected method name, got "))
        } else {
            Ok(join_names(&parts))
        }
    }

    fn parse_params(&mut self) -> (r: Result<Vec<String>, String>)
        requires
            old(self).ok(),
        ensures
            final(self).ok(),
            final(self).tokens == old(self).tokens,
            got_names(old(self).pos as int, final(self).pos as int, r, params(old(self).t(), old(self).pos as int)),
            r is Ok ==> old(self).pos <= final(self).pos,
    {
        let mut ps: Vec<String> = Vec::new();
        proof {
            lemma_names_empty(ps);
        }
        match self.kind(0) {
            TokenKind::RParen => {
                return Ok(ps);
            },
            _ => {},
        }
        let first = match self.eat_ident() {
            Ok(x) => x,
            Err(e) => {
                return Err(e);
            },
        };
        let ghost e0 = ps;
        ps.push(first);
        proof {
            lemma_names_push(e0, ps, first);
        }
        let ghost t = self.t();
        let ghost p0 = old(self).pos as int;
        loop
            invariant
                self.ok(),
                self.t() == t,
                self.tokens == old(self).tokens,
                p0 == old(self).pos,
                p0 <= self.pos,
                params(t, p0) == params_rest(t, self.pos as int, names_v(ps)),
            ensures
                params_rest(t, self.pos as int, names_v(ps)) == Ok::<(Seq<Seq<char>>, int), Seq<char>>((names_v(ps), self.pos as int)),
            decreases self.t().len() - self.pos,
        {
            let is_comma = match self.kind(0) {
                TokenKind::Comma => true,
                _ => false,
            };
            if !is_comma {
                break;
            }
            self.skip(1);
            let x = match self.eat_ident() {
                Ok(x) => x,
                Err(e) => {
                    return Err(e);
                },
            };
            let ghost before = ps;
            ps.push(x);
            proof {
                lemma_names_push(before, ps, x);
            }
        }
        Ok(ps)
    }
}

impl Parser {
    fn parse_expr(&mut self) -> (r: Result<Expr, String>)
        requires
            old(self).ok(),
        ensures
            final(self).ok(),
            final(self).tokens == old(self).tokens,
            got_expr(old(self).pos as int, final(self).pos as int, r, expr(old(self).t(), old(self).pos as int)),
            r is Ok ==> old(self).pos <= final(self).pos,
        decreases old(self).t().len() - old(self).pos, 18int,
    {
        self.parse_expr_from()
    }

    fn parse_expr_from(&mut self) -> (r: Result<Expr, String>)
        requires
            old(self).ok(),
        ensures
            final(self).ok(),
            final(self).tokens == old(self).tokens,
            got_expr(old(self).pos as int, final(self).pos as int, r, expr_from(old(self).t(), old(self).pos as int)),
            r is Ok ==> old(self).pos <= final(self).pos,
        decreases old(self).t().len() - old(self).pos, 17int,
    {
        if self.word(0, "ikkje") && !(self.word(0, "ikkje") && self.word(1, "utanom")) && !(
        self.word(0, "ikkje") && self.word(1, "redd")) {
            let start = self.pos;
            self.skip(1);
            match self.parse_additive() {
                Ok(inner) => {
                    if self.at_comparison_op() {
                        return match self.parse_comparison_rest(inner) {
                            Ok(c) => Ok(Expr::Not(Box::new(c))),
                            Err(e) => Err(e),
                        };
                    }
                },
                Err(_) => {},
            }
            self.pos = start;
        }
        self.parse_comparison()
    }

    fn at_comparison_op(&self) -> (r: bool)
        requires
            self.ok(),
        ensures
            r == comparison_op_at(self.t(), self.pos as int),
    {
        (self.word(0, "er") && self.word(1, "mindre") && self.word(2, "enn")) || (self.word(0, "er")
            && self.word(1, "større") && self.word(2, "enn")) || (self.word(0, "er") && self.word(
            1,
            "ikkje",
        )) || (self.word(0, "er") && !(self.word(0, "er") && self.word(1, "nok")) && !(self.word(
            0,
            "er",
        ) && self.word(1, "dyr")))
    }

    fn parse_comparison(&mut self) -> (r: Result<Expr, String>)
        requires
            old(self).ok(),
        ensures
            final(self).ok(),
            final(self).tokens == old(self).tokens,
            got_expr(old(self).pos as int, final(self).pos as int, r, comparison(old(self).t(), old(self).pos as int)),
            r is Ok ==> old(self).pos <= final(self).pos,
        decreases old(self).t().len() - old(self).pos, 16int,
    {
        let left = match self.parse_additive() {
            Ok(l) => l,
            Err(e) => {
                return Err(e);
            },
        };
        self.parse_comparison_rest(left)
    }

    fn parse_comparison_rest(&mut self, left: Expr) -> (r: Result<Expr, String>)
        requires
            old(self).ok(),
        ensures
            final(self).ok(),
            final(self).tokens == old(self).tokens,
            got_expr(old(self).pos as int, final(self).pos as int, r, comparison_rest(old(self).t(), old(self).pos as int, left@)),
            r is Ok ==> old(self).pos <= final(self).pos,
        decreases old(self).t().len() - old(self).pos, 14int,
    {
        if self.word(0, "er") && self.word(1, "mindre") && self.word(2, "enn") {
            self.skip(3);
            match self.parse_additive() {
                Ok(r) => Ok(binop_expr(BinOpKind::Lt, left, r)),
                Err(e) => Err(e),
            }
        } else if self.word(0, "er") && self.word(1, "større") && self.word(2, "enn") {
            self.skip(3);
            match self.parse_additive() {
                Ok(r) => Ok(binop_expr(BinOpKind::Gt, left, r)),
                Err(e) => Err(e),
            }
        } else if self.word(0, "er") && self.word(1, "ikkje") {
            self.skip(2);
            match self.parse_additive() {
                Ok(r) => Ok(binop_expr(BinOpKind::Ne, left, r)),
                Err(e) => Err(e),
            }
        } else if self.word(0, "er") && !(self.word(0, "er") && self.word(1, "nok")) && !(self.word(
            0,
            "er",
        ) && self.word(1, "dyr")) {
            self.skip(1);
            match self.parse_additive() {
                Ok(r) => Ok(binop_expr(BinOpKind::Eq, left, r)),
                Err(e) => Err(e),
            }
        } else {
            Ok(left)
        }
    }

    fn parse_additive(&mut self) -> (r: Result<Expr, String>)
        requires
            old(self).ok(),
        ensures
            final(self).ok(),
            final(self).tokens == old(self).tokens,
            got_expr(old(self).pos as int, final(self).pos as int, r, additive(old(self).t(), old(self).pos as int)),
            r is Ok ==> old(self).pos <= final(self).pos,
        decreases old(self).t().len() - old(self).pos, 14int,
    {
        let left = match self.parse_multiplicative() {
            Ok(l) => l,
            Err(e) => {
                return Err(e);
            },
        };
        self.parse_additive_rest(left)
    }

    fn parse_additive_rest(&mut self, left0: Expr) -> (r: Result<Expr, String>)
        requires
            old(self).ok(),
        ensures
            final(self).ok(),
            final(self).tokens == old(self).tokens,
            got_expr(old(self).pos as int, final(self).pos as int, r, additive_rest(old(self).t(), old(self).pos as int, left0@)),
            r is Ok ==> old(self).pos <= final(self).pos,
        decreases old(self).t().len() - old(self).pos, 12int,
    {
        let ghost l0 = left0@;
        let mut left = left0;
        let ghost t = self.t();
        let ghost p0 = self.pos as int;
        loop
            invariant
                self.ok(),
                self.t() == t,
                self.tokens == old(self).tokens,
                p0 == old(self).pos,
                p0 <= self.pos,
                l0 == left0@,
                additive_rest(t, p0, l0) == additive_rest(t, self.pos as int, left@),
            decreases self.t().len() - self.pos,
        {
            if self.word(0, "og") && !(self.word(0, "og") && self.word(1, "gongen")) {
                self.skip(1);
                match self.parse_multiplicative() {
                    Ok(r) => {
                        left = binop_expr(BinOpKind::Add, left, r);
                    },
                    Err(e) => {
                        return Err(e);
                    },
                }
            } else if self.word(0, "utan") {
                self.skip(1);
                match self.parse_multiplicative() {
                    Ok(r) => {
                        left = binop_expr(BinOpKind::Sub, left, r);
                    },
                    Err(e) => {
                        return Err(e);
                    },
                }
            } else {
                assert(crate::grammar::additive_rest(t, self.pos as int, left@) == Ok::<(ExprV, int), Seq<char>>((left@, self.pos as int)));
                return Ok(left);
            }
        }
    }

    fn parse_multiplicative(&mut self) -> (r: Result<Expr, String>)
        requires
            old(self).ok(),
        ensures
            final(self).ok(),
            final(self).tokens == old(self).tokens,
            got_expr(old(self).pos as int, final(self).pos as int, r, multiplicative(old(self).t(), old(self).pos as int)),
            r is Ok ==> old(self).pos <= final(self).pos,
        decreases old(self).t().len() - old(self).pos, 10int,
    {
        let left = match self.parse_primary() {
            Ok(l) => l,
            Err(e) => {
                return Err(e);
            },
        };
        self.parse_multiplicative_rest(left)
    }

    fn parse_multiplicative_rest(&mut self, left0: Expr) -> (r: Result<Expr, String>)
        requires
            old(self).ok(),
        ensures
            final(self).ok(),
            final(self).tokens == old(self).tokens,
            got_expr(old(self).pos as int, final(self).pos as int, r, multiplicative_rest(old(self).t(), old(self).pos as int, left0@)),
            r is Ok ==> old(self).pos <= final(self).pos,
        decreases old(self).t().len() - old(self).pos, 8int,
    {
        let ghost l0 = left0@;
        let mut left = left0;
        let ghost t = self.t();
        let ghost p0 = self.pos as int;
        loop
            invariant
                self.ok(),
                self.t() == t,
                self.tokens == old(self).tokens,
                p0 == old(self).pos,
                p0 <= self.pos,
                l0 == left0@,
                multiplicative_rest(t, p0, l0) == multiplicative_rest(t, self.pos as int, left@),
            decreases self.t().len() - self.pos,
        {
            if self.word(0, "gongar") {
                self.skip(1);
                match self.parse_primary() {
                    Ok(r) => {
                        left = binop_expr(BinOpKind::Mul, left, r);
                    },
                    Err(e) => {
                        return Err(e);
                    },
                }
            } else if self.word(0, "delt") && self.word(1, "på") {
                self.skip(2);
                match self.parse_primary() {
                    Ok(r) => {
                        left = binop_expr(BinOpKind::Div, left, r);
                    },
                    Err(e) => {
                        return Err(e);
                    },
                }
            } else {
                assert(crate::grammar::multiplicative_rest(t, self.pos as int, left@) == Ok::<(ExprV, int), Seq<char>>((left@, self.pos as int)));
                return Ok(left);
            }
        }
    }

    fn parse_arg_list(&mut self) -> (r: Result<Vec<Expr>, String>)
        requires
            old(self).ok(),
        ensures
            final(self).ok(),
            final(self).tokens == old(self).tokens,
            got_exprs(old(self).pos as int, final(self).pos as int, r, arg_list(old(self).t(), old(self).pos as int)),
            r is Ok ==> old(self).pos <= final(self).pos,
        decreases old(self).t().len() - old(self).pos, 20int,
    {
        let first = match self.parse_expr() {
            Ok(e) => e,
            Err(e) => {
                return Err(e);
            },
        };
        let mut v: Vec<Expr> = Vec::new();
        let ghost e0 = v;
        v.push(first);
        proof {
            lemma_exprs_empty(e0);
            lemma_exprs_push(e0, v, first);
        }
        self.parse_expr_list_rest(v)
    }

    fn parse_expr_list_rest(&mut self, acc0: Vec<Expr>) -> (r: Result<Vec<Expr>, String>)
        requires
            old(self).ok(),
        ensures
            final(self).ok(),
            final(self).tokens == old(self).tokens,
            got_exprs(old(self).pos as int, final(self).pos as int, r, expr_list_rest(old(self).t(), old(self).pos as int, exprs_v(acc0))),
            r is Ok ==> old(self).pos <= final(self).pos,
        decreases old(self).t().len() - old(self).pos, 4int,
    {
        let ghost a0 = exprs_v(acc0);
        let mut acc = acc0;
        let ghost t = self.t();
        let ghost p0 = self.pos as int;
        loop
            invariant
                self.ok(),
                self.t() == t,
                self.tokens == old(self).tokens,
                p0 == old(self).pos,
                p0 <= self.pos,
                a0 == exprs_v(acc0),
                expr_list_rest(t, p0, a0) == expr_list_rest(t, self.pos as int, exprs_v(acc)),
            decreases self.t().len() - self.pos,
        {
            let is_comma = match self.kind(0) {
                TokenKind::Comma => true,
                _ => false,
            };
            if !is_comma {
                return Ok(acc);
            }
            self.skip(1);
            match self.parse_expr() {
                Ok(e) => {
                    let ghost before = acc;
                    acc.push(e);
                    proof {
                        lemma_exprs_push(before, acc, e);
                    }
                },
                Err(e) => {
                    return Err(e);
                },
            }
        }
    }

    /// Expressions up to the closing `close`, which is eaten too.
    fn parse_enclosed(&mut self, close: &TokenKind) -> (r: Result<Vec<Expr>, String>)
        requires
            old(self).ok(),
            close@ == Kind::RParen || close@ == Kind::RBracket,
        ensures
            final(self).ok(),
            final(self).tokens == old(self).tokens,
            got_exprs(old(self).pos as int, final(self).pos as int, r, enclosed(old(self).t(), old(self).pos as int, close@)),
            r is Ok ==> old(self).pos <= final(self).pos,
        decreases old(self).t().len() - old(self).pos, 20int,
    {
        let items = if same_token_kind(self.kind(0), close) {
            let v: Vec<Expr> = Vec::new();
            proof {
                lemma_exprs_empty(v);
            }
            v
        } else {
            let first = match self.parse_expr() {
                Ok(e) => e,
                Err(e) => {
                    return Err(e);
                },
            };
            let mut v: Vec<Expr> = Vec::new();
            let ghost e0 = v;
            v.push(first);
            proof {
                lemma_exprs_empty(e0);
                lemma_exprs_push(e0, v, first);
            }
            match self.parse_expr_list_rest(v) {
                Ok(v2) => v2,
                Err(e) => {
                    return Err(e);
                },
            }
        };
        match self.eat_kind(close) {
            Ok(()) => Ok(items),
            Err(e) => Err(e),
        }
    }

    fn parse_primary(&mut self) -> (r: Result<Expr, String>)
        requires
            old(self).ok(),
        ensures
            final(self).ok(),
            final(self).tokens == old(self).tokens,
            got_expr(old(self).pos as int, final(self).pos as int, r, primary(old(self).t(), old(self).pos as int)),
            r is Ok ==> old(self).pos < final(self).pos,
        decreases old(self).t().len() - old(self).pos, 6int,
    {
        if self.word(0, "resten") && self.word(1, "av") {
            self.skip(2);
            let a = match self.parse_primary() {
                Ok(a) => a,
                Err(e) => {
                    return Err(e);
                },
            };
            match self.eat2("delt", "på") {
                Ok(()) => {},
                Err(e) => {
                    return Err(e);
                },
            }
            match self.parse_primary() {
                Ok(b) => Ok(binop_expr(BinOpKind::Mod, a, b)),
                Err(e) => Err(e),
            }
        } else if self.word(0, "ikkje") && !(self.word(0, "ikkje") && self.word(1, "utanom")) && !(
        self.word(0, "ikkje") && self.word(1, "redd")) {
            self.skip(1);
            match self.parse_primary() {
                Ok(x) => Ok(Expr::Not(Box::new(x))),
                Err(e) => Err(e),
            }
        } else if self.word(0, "Syng") && self.word(1, "for") && self.word(2, "meg") && self.word(
            3,
            "songen",
        ) && self.word(4, "om") {
            self.skip(5);
            match self.eat_ident() {
                Ok(class) => self.maybe_index(Expr::New { class }),
                Err(e) => Err(e),
            }
        } else {
            self.parse_atom()
        }
    }

    fn parse_atom(&mut self) -> (r: Result<Expr, String>)
        requires
            old(self).ok(),
        ensures
            final(self).ok(),
            final(self).tokens == old(self).tokens,
            got_expr(old(self).pos as int, final(self).pos as int, r, crate::grammar::primary_atom(old(self).t(), old(self).pos as int)),
            r is Ok ==> old(self).pos < final(self).pos,
        decreases old(self).t().len() - old(self).pos, 4int,
    {
        let lit: Option<Expr> = match self.kind(0) {
            TokenKind::Int(n) => Some(Expr::Int(*n)),
            TokenKind::Float(f) => Some(Expr::Float(f.clone())),
            TokenKind::Str(s) => Some(Expr::Str(s.clone())),
            _ => None,
        };
        if let Some(e) = lit {
            self.skip(1);
            return self.maybe_index(e);
        }
        if self.word(0, "ja") {
            self.skip(1);
            return self.maybe_index(Expr::Bool(true));
        }
        if self.word(0, "nei") {
            self.skip(1);
            return self.maybe_index(Expr::Bool(false));
        }
        if self.word(0, "tome") && self.word(1, "hender") {
            self.skip(2);
            return self.maybe_index(Expr::Null);
        }
        let is_list = match self.kind(0) {
            TokenKind::LBracket => true,
            _ => false,
        };
        if is_list {
            self.skip(1);
            return match self.parse_enclosed(&TokenKind::RBracket) {
                Ok(xs) => self.maybe_index(Expr::List(xs)),
                Err(e) => Err(e),
            };
        }
        let is_paren = match self.kind(0) {
            TokenKind::LParen => true,
            _ => false,
        };
        if is_paren {
            self.skip(1);
            let e = match self.parse_expr() {
                Ok(e) => e,
                Err(e) => {
                    return Err(e);
                },
            };
            return match self.eat_kind(&TokenKind::RParen) {
                Ok(()) => self.maybe_index(e),
                Err(e) => Err(e),
            };
        }
        self.parse_name_expr()
    }

    #[verifier::spinoff_prover]
    #[verifier::rlimit(60)]
    fn parse_name_expr(&mut self) -> (r: Result<Expr, String>)
        requires
            old(self).ok(),
        ensures
            final(self).ok(),
            final(self).tokens == old(self).tokens,
            got_expr(old(self).pos as int, final(self).pos as int, r, crate::grammar::primary_name(old(self).t(), old(self).pos as int)),
            r is Ok ==> old(self).pos < final(self).pos,
        decreases old(self).t().len() - old(self).pos, 3int,
    {
        if self.word(0, "Bli") && self.word(1, "med") && self.word(2, "til") {
            self.skip(3);
            let name = match self.eat_ident() {
                Ok(n) => n,
                Err(e) => {
                    return Err(e);
                },
            };
            return match self.parse_opt_args() {
                Ok(args) => self.maybe_index(Expr::Call { name, args }),
                Err(e) => Err(e),
            };
        }
        self.parse_word_expr()
    }

    #[verifier::spinoff_prover]
    #[verifier::rlimit(100)]
    fn parse_word_expr(&mut self) -> (r: Result<Expr, String>)
        requires
            old(self).ok(),
        ensures
            final(self).ok(),
            final(self).tokens == old(self).tokens,
            got_expr(old(self).pos as int, final(self).pos as int, r, crate::grammar::primary_word(old(self).t(), old(self).pos as int)),
            r is Ok ==> old(self).pos < final(self).pos,
        decreases old(self).t().len() - old(self).pos, 2int,
    {
        let lparen2 = match self.kind(2) {
            TokenKind::LParen => true,
            _ => false,
        };
        if self.is_wordk(0) && self.is_wordk(1) && lparen2 {
            let w1 = self.word_text(0);
            let w2 = self.word_text(1);
            let combined = concat_words(&w1, &w2);
            if is_two_word_builtin(combined.as_str()) {
                self.skip(3);
                return match self.parse_enclosed(&TokenKind::RParen) {
                    Ok(args) => self.maybe_index(Expr::Call { name: combined, args }),
                    Err(e) => Err(e),
                };
            }
        }
        if self.is_wordk(0) {
            let name = self.word_text(0);
            let lparen1 = match self.kind(1) {
                TokenKind::LParen => true,
                _ => false,
            };
            if lparen1 {
                self.skip(2);
                return match self.parse_enclosed(&TokenKind::RParen) {
                    Ok(args) => self.maybe_index(Expr::Call { name, args }),
                    Err(e) => Err(e),
                };
            }
            if self.word(1, "vert") && self.word(2, "kalla") && self.word(3, "til") && self.word(
                4,
                "å",
            ) {
                self.skip(5);
                let method = match self.eat_method_name() {
                    Ok(m) => m,
                    Err(e) => {
                        return Err(e);
                    },
                };
                return match self.parse_opt_args() {
                    Ok(args) => self.maybe_index(
                        Expr::MethodCall { obj: Box::new(Expr::Var(name)), method, args },
                    ),
                    Err(e) => Err(e),
                };
            }
            self.skip(1);
            return self.maybe_index(Expr::Var(name));
        }
        Err(self.msg("unexpected token in expression: "))
    }

    fn maybe_index(&mut self, node0: Expr) -> (r: Result<Expr, String>)
        requires
            old(self).ok(),
        ensures
            final(self).ok(),
            final(self).tokens == old(self).tokens,
            got_expr(old(self).pos as int, final(self).pos as int, r, maybe_index(old(self).t(), old(self).pos as int, node0@)),
            r is Ok ==> old(self).pos <= final(self).pos,
        decreases old(self).t().len() - old(self).pos, 0int,
    {
        let ghost n0 = node0@;
        let mut node = node0;
        let ghost t = self.t();
        let ghost p0 = self.pos as int;
        loop
            invariant
                self.ok(),
                self.t() == t,
                self.tokens == old(self).tokens,
                p0 == old(self).pos,
                p0 <= self.pos,
                n0 == node0@,
                maybe_index(t, p0, n0) == maybe_index(t, self.pos as int, node@),
            decreases self.t().len() - self.pos,
        {
            let is_bracket = match self.kind(0) {
                TokenKind::LBracket => true,
                _ => false,
            };
            if is_bracket {
                self.skip(1);
                let idx = match self.parse_expr() {
                    Ok(i) => i,
                    Err(e) => {
                        return Err(e);
                    },
                };
                match self.eat_kind(&TokenKind::RBracket) {
                    Ok(()) => {},
                    Err(e) => {
                        return Err(e);
                    },
                }
                node = Expr::Index { obj: Box::new(node), idx: Box::new(idx) };
            } else if self.word(0, "sin") && self.is_wordk(1) {
                let field = self.word_text(1);
                self.skip(2);
                node = Expr::Field { obj: Box::new(node), field };
            } else {
                return Ok(node);
            }
        }
    }
}

/// Parses a whole program: statements until `Eof`. The tokens must end with `Eof`
/// (as `tokenize` makes them).
pub fn parse(tokens: Vec<Token>) -> (r: Result<Program, String>)
    requires
        wf_toks(toks_view(tokens@)),
    ensures
        match program(toks_view(tokens@)) {
            Ok(prog) => r is Ok && stmts_v(r->Ok_0) == prog,
            Err(m) => r is Err && r->Err_0@ == m,
        },
{
    let mut p = Parser { tokens, pos: 0 };
    let prog = match p.parse_block() {
        Ok(b) => b,
        Err(e) => {
            return Err(e);
        },
    };
    let eof = match p.kind(0) {
        TokenKind::Eof => true,
        _ => false,
    };
    if !eof {
        return Err(p.msg("unexpected token "));
    }
    Ok(prog)
}
} // verus!
