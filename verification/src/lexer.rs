//! Lexer for Trygve Bjerkreim.
//!
//! Underscore (`_`) is treated as whitespace: words are separated by spaces or `_`.
//! Produces a flat `Vec<Token>` from source text, line by line.
//! Comments: `– –` (a pair of dash-family characters) to the end of the line.
//! Strings: `«…»` (Norwegian guillemets).
use vstd::prelude::*;
use crate::text::{chars_of, char_is_digit, char_is_whitespace, is_digit, is_ws, nat_text, push_all, push_nat_text, push_str_chars, same_text, string_of};

verus! {

/// Kinds of tokens. A decimal literal keeps the digits and the dot as written;
/// its floating-point value is computed by whoever runs the program.
pub enum TokenKind {
    Word(String),
    Int(i64),
    Float(String),
    Str(String),
    Comma,
    Dot,
    Colon,
    LParen,
    RParen,
    LBracket,
    RBracket,
    Eof,
}

pub struct Token {
    pub kind: TokenKind,
    pub line: usize,
}

/// The mathematical value of a token kind.
pub enum Kind {
    Word(Seq<char>),
    Int(i64),
    Float(Seq<char>),
    Str(Seq<char>),
    Comma,
    Dot,
    Colon,
    LParen,
    RParen,
    LBracket,
    RBracket,
    Eof,
}

pub struct Tok {
    pub kind: Kind,
    pub line: nat,
}

impl View for TokenKind {
    type V = Kind;

    open spec fn view(&self) -> Kind {
        match self {
            TokenKind::Word(s) => Kind::Word(s@),
            TokenKind::Int(n) => Kind::Int(*n),
            TokenKind::Float(s) => Kind::Float(s@),
            TokenKind::Str(s) => Kind::Str(s@),
            TokenKind::Comma => Kind::Comma,
            TokenKind::Dot => Kind::Dot,
            TokenKind::Colon => Kind::Colon,
            TokenKind::LParen => Kind::LParen,
            TokenKind::RParen => Kind::RParen,
            TokenKind::LBracket => Kind::LBracket,
            TokenKind::RBracket => Kind::RBracket,
            TokenKind::Eof => Kind::Eof,
        }
    }
}

impl View for Token {
    type V = Tok;

    open spec fn view(&self) -> Tok {
        Tok { kind: self.kind@, line: self.line as nat }
    }
}

pub open spec fn toks_view(ts: Seq<Token>) -> Seq<Tok> {
    ts.map_values(|t: Token| t@)
}

impl Clone for TokenKind {
    fn clone(&self) -> (r: Self)
        ensures
            r@ == self@,
    {
        match self {
            TokenKind::Word(s) => TokenKind::Word(s.clone()),
            TokenKind::Int(n) => TokenKind::Int(*n),
            TokenKind::Float(s) => TokenKind::Float(s.clone()),
            TokenKind::Str(s) => TokenKind::Str(s.clone()),
            TokenKind::Comma => TokenKind::Comma,
            TokenKind::Dot => TokenKind::Dot,
            TokenKind::Colon => TokenKind::Colon,
            TokenKind::LParen => TokenKind::LParen,
            TokenKind::RParen => TokenKind::RParen,
            TokenKind::LBracket => TokenKind::LBracket,
            TokenKind::RBracket => TokenKind::RBracket,
            TokenKind::Eof => TokenKind::Eof,
        }
    }
}

impl Clone for Token {
    fn clone(&self) -> (r: Self)
        ensures
            r@ == self@,
    {
        Token { kind: self.kind.clone(), line: self.line }
    }
}

impl Token {
    /// Whether the token is the word `w`.
    pub fn is_word(&self, w: &str) -> (r: bool)
        ensures
            r == (self@.kind == Kind::Word(w@)),
    {
        match &self.kind {
            TokenKind::Word(s) => same_text(s.as_str(), w),
            _ => false,
        }
    }

    /// The text of a word token.
    pub fn word_str(&self) -> (r: Option<&str>)
        ensures
            match self@.kind {
                Kind::Word(s) => r.is_some() && r.unwrap()@ == s,
                _ => r.is_none(),
            },
    {
        match &self.kind {
            TokenKind::Word(s) => Some(s.as_str()),
            _ => None,
        }
    }
}

// ───────────────────────── specification ─────────────────────────

/// Index of the first `'\n'` at or after `i`, or the length.
pub open spec fn newline_at_or_after(s: Seq<char>, i: int) -> int
    decreases s.len() - i,
{
    if i >= s.len() {
        s.len() as int
    } else if s[i] == '\n' {
        i
    } else {
        newline_at_or_after(s, i + 1)
    }
}

/// The text of the line that runs from `start` to the line feed at `end` (or the end
/// of the input); a carriage return just before a line feed belongs to the ending.
pub open spec fn line_text(s: Seq<char>, start: int, end: int) -> Seq<char> {
    if end < s.len() && end > start && s[end - 1] == '\r' {
        s.subrange(start, end - 1)
    } else {
        s.subrange(start, end)
    }
}

/// The lines of `s` from position `start` on, as `str::lines` splits them.
pub open spec fn lines_from(s: Seq<char>, start: int) -> Seq<Seq<char>>
    decreases s.len() + 1 - start,
{
    if start >= s.len() || start < 0 {
        seq![]
    } else {
        let e = newline_at_or_after(s, start);
        proof {
            lemma_newline_bounds(s, start);
        }
        seq![line_text(s, start, e)] + lines_from(s, e + 1)
    }
}

pub open spec fn dash(c: char) -> bool {
    c == '–' || c == '—'
}

pub open spec fn skip_spaces(c: Seq<char>, j: int) -> int
    decreases c.len() - j,
{
    if 0 <= j < c.len() && c[j] == ' ' {
        skip_spaces(c, j + 1)
    } else {
        j
    }
}

/// A comment marker starts at `i`: a dash, optional spaces, and another dash.
pub open spec fn marker_at(c: Seq<char>, i: int) -> bool {
    &&& 0 <= i < c.len()
    &&& dash(c[i])
    &&& skip_spaces(c, i + 1) < c.len()
    &&& dash(c[skip_spaces(c, i + 1)])
}

pub open spec fn comment_start(c: Seq<char>, i: int) -> int
    decreases c.len() - i,
{
    if i >= c.len() || i < 0 {
        c.len() as int
    } else if marker_at(c, i) {
        i
    } else {
        comment_start(c, i + 1)
    }
}

/// The line with its comment removed.
pub open spec fn uncommented(c: Seq<char>) -> Seq<char> {
    c.subrange(0, comment_start(c, 0))
}

/// Whether a comment marker starts anywhere in the line.
pub open spec fn has_marker(c: Seq<char>) -> bool {
    exists|i: int| marker_at(c, i)
}

pub proof fn lemma_comment_start(c: Seq<char>, i: int)
    requires
        0 <= i <= c.len(),
    ensures
        i <= comment_start(c, i) <= c.len(),
        comment_start(c, i) < c.len() ==> marker_at(c, comment_start(c, i)),
        forall|j: int| i <= j < comment_start(c, i) ==> !marker_at(c, j),
    decreases c.len() - i,
{
    if i < c.len() && !marker_at(c, i) {
        lemma_comment_start(c, i + 1);
    }
}

proof fn lemma_skip_spaces_prefix(c: Seq<char>, k: int, m: int)
    requires
        0 <= k <= c.len(),
    ensures
        skip_spaces(c.take(k), m) >= m,
        skip_spaces(c.take(k), m) < k ==> skip_spaces(c, m) == skip_spaces(c.take(k), m),
    decreases k - m,
{
    if 0 <= m < k && c[m] == ' ' {
        lemma_skip_spaces_prefix(c, k, m + 1);
    }
}

/// A marker in the first `k` characters of a line is a marker of the line.
proof fn lemma_marker_in_prefix(c: Seq<char>, k: int, j: int)
    requires
        0 <= k <= c.len(),
        marker_at(c.take(k), j),
    ensures
        marker_at(c, j),
{
    lemma_skip_spaces_prefix(c, k, j + 1);
    let p = c.take(k);
    let m = skip_spaces(p, j + 1);
    assert(p[j] == c[j]);
    assert(p[m] == c[m]);
}

/// What is left of a line once its comment is removed is the line up to the first
/// marker, or the whole line when it has none: the line comes back unchanged
/// exactly when no marker occurs in it.
pub proof fn law_uncommented_cuts_at_first_marker(c: Seq<char>)
    ensures
        uncommented(c).len() <= c.len(),
        uncommented(c) == c.take(uncommented(c).len() as int),
        forall|j: int| 0 <= j < uncommented(c).len() ==> !marker_at(c, j),
        uncommented(c).len() < c.len() ==> marker_at(c, uncommented(c).len() as int),
        (uncommented(c) == c) == !has_marker(c),
{
    lemma_comment_start(c, 0);
    let k = comment_start(c, 0);
    assert(uncommented(c) =~= c.take(k));
    if has_marker(c) {
        let i = choose|i: int| marker_at(c, i);
        assert(k <= i);
        assert(uncommented(c).len() < c.len());
    } else {
        assert(uncommented(c) =~= c);
    }
}

/// Removing the comment twice removes no more than once: what is left holds no
/// marker.
pub proof fn law_uncommented_idempotent(c: Seq<char>)
    ensures
        !has_marker(uncommented(c)),
        uncommented(uncommented(c)) == uncommented(c),
{
    law_uncommented_cuts_at_first_marker(c);
    lemma_comment_start(c, 0);
    let k = comment_start(c, 0);
    let p = uncommented(c);
    assert(p =~= c.take(k));
    if has_marker(p) {
        let j = choose|j: int| marker_at(p, j);
        lemma_marker_in_prefix(c, k, j);
    }
    law_uncommented_cuts_at_first_marker(p);
}

/// Content of a string literal whose body starts at `k`, and the index of its
/// closing `»` (or the length when it is missing).
pub open spec fn scan_string(c: Seq<char>, k: int) -> (Seq<char>, int)
    decreases c.len() - k,
{
    if k >= c.len() || k < 0 || c[k] == '»' {
        (seq![], k)
    } else if c[k] == '\\' && k + 1 < c.len() {
        if c[k + 1] == 'n' {
            let r = scan_string(c, k + 2);
            (seq!['\n'] + r.0, r.1)
        } else if c[k + 1] == 't' {
            let r = scan_string(c, k + 2);
            (seq!['\t'] + r.0, r.1)
        } else {
            let r = scan_string(c, k + 1);
            (seq!['\\'] + r.0, r.1)
        }
    } else {
        let r = scan_string(c, k + 1);
        (seq![c[k]] + r.0, r.1)
    }
}

/// End of a run of digits and dots starting at `k`.
pub open spec fn number_end(c: Seq<char>, k: int) -> int
    decreases c.len() - k,
{
    if 0 <= k < c.len() && (is_digit(c[k]) || c[k] == '.') {
        number_end(c, k + 1)
    } else {
        k
    }
}

pub open spec fn word_stop(ch: char) -> bool {
    is_ws(ch) || ch == '_' || ch == ',' || ch == '.' || ch == ':' || ch == '(' || ch == ')'
        || ch == '[' || ch == ']' || ch == '«' || ch == '»'
}

/// End of a word starting at `k`.
pub open spec fn word_end(c: Seq<char>, k: int) -> int
    decreases c.len() - k,
{
    if 0 <= k < c.len() && !word_stop(c[k]) {
        word_end(c, k + 1)
    } else {
        k
    }
}

pub open spec fn count_dots(s: Seq<char>) -> nat
    decreases s.len(),
{
    if s.len() == 0 {
        0
    } else {
        count_dots(s.drop_last()) + if s.last() == '.' {
            1nat
        } else {
            0nat
        }
    }
}

pub open spec fn digit_value(c: char) -> nat {
    (c as int - '0' as int) as nat
}

/// The number written by a sequence of decimal digits.
pub open spec fn digits_value(s: Seq<char>) -> nat
    decreases s.len(),
{
    if s.len() == 0 {
        0
    } else {
        digits_value(s.drop_last()) * 10 + digit_value(s.last())
    }
}

pub open spec fn punct_kind(ch: char) -> Option<Kind> {
    if ch == ',' {
        Some(Kind::Comma)
    } else if ch == '.' {
        Some(Kind::Dot)
    } else if ch == ':' {
        Some(Kind::Colon)
    } else if ch == '(' {
        Some(Kind::LParen)
    } else if ch == ')' {
        Some(Kind::RParen)
    } else if ch == '[' {
        Some(Kind::LBracket)
    } else if ch == ']' {
        Some(Kind::RBracket)
    } else {
        None
    }
}

/// What lexing a piece of source gives: tokens, an error message, or no answer
/// at all (a `»` that opens nothing makes the scanner stand still).
pub enum Lexed {
    Toks(Seq<Tok>),
    Fail(Seq<char>),
    Stall,
}

pub open spec fn prepend(t: Tok, r: Lexed) -> Lexed {
    match r {
        Lexed::Toks(ts) => Lexed::Toks(seq![t] + ts),
        other => other,
    }
}

pub open spec fn line_prefix(ln: nat) -> Seq<char> {
    "Line "@ + nat_text(ln) + ": "@
}

pub open spec fn unterminated_msg(ln: nat) -> Seq<char> {
    line_prefix(ln) + "unterminated string «"@
}

pub open spec fn bad_float_msg(ln: nat, text: Seq<char>) -> Seq<char> {
    line_prefix(ln) + "bad float "@ + text + ": invalid float literal"@
}

pub open spec fn bad_int_msg(ln: nat, text: Seq<char>) -> Seq<char> {
    line_prefix(ln) + "bad int "@ + text + ": number too large to fit in target type"@
}

/// Tokens of the (comment-free) line `c` from position `i` on; `ln` is the line number.
pub open spec fn lex_line(c: Seq<char>, i: int, ln: nat) -> Lexed
    decreases c.len() - i,
{
    if i >= c.len() || i < 0 {
        Lexed::Toks(seq![])
    } else if is_ws(c[i]) || c[i] == '_' {
        lex_line(c, i + 1, ln)
    } else if c[i] == '«' {
        let (body, end) = scan_string(c, i + 1);
        if end >= c.len() || end <= i {
            Lexed::Fail(unterminated_msg(ln))
        } else {
            prepend(Tok { kind: Kind::Str(body), line: ln }, lex_line(c, end + 1, ln))
        }
    } else if is_digit(c[i]) {
        let end = number_end(c, i);
        proof {
            lemma_number_end_run(c, i);
        }
        let text = c.subrange(i, end);
        if end <= i {
            Lexed::Stall
        } else if count_dots(text) > 1 {
            Lexed::Fail(bad_float_msg(ln, text))
        } else if count_dots(text) == 1 {
            prepend(Tok { kind: Kind::Float(text), line: ln }, lex_line(c, end, ln))
        } else if digits_value(text) > i64::MAX {
            Lexed::Fail(bad_int_msg(ln, text))
        } else {
            prepend(
                Tok { kind: Kind::Int(digits_value(text) as i64), line: ln },
                lex_line(c, end, ln),
            )
        }
    } else if punct_kind(c[i]) is Some {
        prepend(Tok { kind: punct_kind(c[i]).unwrap(), line: ln }, lex_line(c, i + 1, ln))
    } else {
        let end = word_end(c, i);
        proof {
            lemma_word_end_bounds(c, i);
        }
        if end <= i {
            Lexed::Stall
        } else {
            prepend(Tok { kind: Kind::Word(c.subrange(i, end)), line: ln }, lex_line(c, end, ln))
        }
    }
}

/// Tokens of lines `k..` of a program.
pub open spec fn lex_lines(ls: Seq<Seq<char>>, k: int) -> Lexed
    decreases ls.len() - k,
{
    if k >= ls.len() || k < 0 {
        Lexed::Toks(seq![])
    } else {
        match lex_line(uncommented(ls[k]), 0, (k + 1) as nat) {
            Lexed::Toks(a) => match lex_lines(ls, k + 1) {
                Lexed::Toks(b) => Lexed::Toks(a + b),
                other => other,
            },
            other => other,
        }
    }
}

/// The tokens of a whole program: every line in turn, then `Eof` (on line 0).
pub open spec fn lex_program(src: Seq<char>) -> Lexed {
    match lex_lines(lines_from(src, 0), 0) {
        Lexed::Toks(ts) => Lexed::Toks(ts.push(Tok { kind: Kind::Eof, line: 0 })),
        other => other,
    }
}

pub proof fn lemma_newline_bounds(s: Seq<char>, i: int)
    requires
        0 <= i <= s.len(),
    ensures
        i <= newline_at_or_after(s, i) <= s.len(),
        newline_at_or_after(s, i) < s.len() ==> s[newline_at_or_after(s, i)] == '\n',
        forall|k: int| i <= k < newline_at_or_after(s, i) ==> s[k] != '\n',
    decreases s.len() - i,
{
    if i < s.len() && s[i] != '\n' {
        lemma_newline_bounds(s, i + 1);
    }
}

pub proof fn lemma_word_end_bounds(c: Seq<char>, i: int)
    requires
        0 <= i <= c.len(),
    ensures
        i <= word_end(c, i) <= c.len(),
    decreases c.len() - i,
{
    if 0 <= i < c.len() && !word_stop(c[i]) {
        lemma_word_end_bounds(c, i + 1);
    }
}

pub proof fn lemma_number_end_run(c: Seq<char>, i: int)
    requires
        0 <= i <= c.len(),
    ensures
        i <= number_end(c, i) <= c.len(),
        forall|k: int| i <= k < number_end(c, i) ==> is_digit(c[k]) || c[k] == '.',
        i < c.len() && is_digit(c[i]) ==> number_end(c, i) > i,
    decreases c.len() - i,
{
    if 0 <= i < c.len() && (is_digit(c[i]) || c[i] == '.') {
        lemma_number_end_run(c, i + 1);
    }
}

// ───────────────────────── implementation ─────────────────────────

pub fn is_dash(c: char) -> (r: bool)
    ensures
        r == dash(c),
{
    c == '–' || c == '—'
}

fn skip_spaces_exec(c: &Vec<char>, j: usize) -> (r: usize)
    requires
        j <= c.len(),
    ensures
        r == skip_spaces(c@, j as int),
        j <= r <= c.len(),
    decreases c.len() - j,
{
    if j < c.len() && c[j] == ' ' {
        skip_spaces_exec(c, j + 1)
    } else {
        j
    }
}

/// Where the comment of a line starts (the line's length when it has none).
fn comment_start_exec(c: &Vec<char>) -> (r: usize)
    ensures
        r == comment_start(c@, 0),
        r <= c.len(),
{
    let n = c.len();
    let mut i: usize = 0;
    while i < n
        invariant
            n == c.len(),
            i <= n,
            comment_start(c@, 0) == comment_start(c@, i as int),
        decreases n - i,
    {
        if is_dash(c[i]) {
            let j = skip_spaces_exec(c, i + 1);
            if j < n && is_dash(c[j]) {
                return i;
            }
        }
        i += 1;
    }
    i
}

/// Strips a comment to the end of the line: one starts at a pair of en-dashes or
/// em-dashes, with optional spaces between them (`– –`).
pub fn strip_comment(line: &str) -> (r: &str)
    ensures
        r@ == uncommented(line@),
{
    let c = chars_of(line);
    let k = comment_start_exec(&c);
    line.substring_char(0, k)
}

fn scan_string_exec(c: &Vec<char>, start: usize) -> (r: (Vec<char>, usize))
    requires
        start <= c.len(),
    ensures
        r.0@ == scan_string(c@, start as int).0,
        r.1 == scan_string(c@, start as int).1,
        start <= r.1 <= c.len(),
{
    let n = c.len();
    let mut k = start;
    let mut s: Vec<char> = Vec::new();
    while k < n && c[k] != '»'
        invariant
            n == c.len(),
            start <= k <= n,
            scan_string(c@, start as int) == (s@ + scan_string(c@, k as int).0, scan_string(
                c@,
                k as int,
            ).1),
        decreases n - k,
    {
        if c[k] == '\\' && k + 1 < n {
            if c[k + 1] == 'n' {
                s.push('\n');
                k += 2;
            } else if c[k + 1] == 't' {
                s.push('\t');
                k += 2;
            } else {
                s.push(c[k]);
                k += 1;
            }
        } else {
            s.push(c[k]);
            k += 1;
        }
        assert(scan_string(c@, start as int).0 =~= s@ + scan_string(c@, k as int).0);
    }
    assert(scan_string(c@, k as int).0 =~= Seq::<char>::empty());
    assert(s@ + scan_string(c@, k as int).0 =~= s@);
    (s, k)
}

fn number_end_exec(c: &Vec<char>, k: usize) -> (r: usize)
    requires
        k <= c.len(),
    ensures
        r == number_end(c@, k as int),
        k <= r <= c.len(),
    decreases c.len() - k,
{
    if k < c.len() && (char_is_digit(c[k]) || c[k] == '.') {
        number_end_exec(c, k + 1)
    } else {
        k
    }
}

fn is_word_stop(ch: char) -> (r: bool)
    ensures
        r == word_stop(ch),
{
    char_is_whitespace(ch) || ch == '_' || ch == ',' || ch == '.' || ch == ':' || ch == '('
        || ch == ')' || ch == '[' || ch == ']' || ch == '«' || ch == '»'
}

fn word_end_exec(c: &Vec<char>, k: usize) -> (r: usize)
    requires
        k <= c.len(),
    ensures
        r == word_end(c@, k as int),
        k <= r <= c.len(),
    decreases c.len() - k,
{
    if k < c.len() && !is_word_stop(c[k]) {
        word_end_exec(c, k + 1)
    } else {
        k
    }
}

fn slice_chars(c: &Vec<char>, from: usize, to: usize) -> (r: Vec<char>)
    requires
        from <= to <= c.len(),
    ensures
        r@ == c@.subrange(from as int, to as int),
{
    let mut r: Vec<char> = Vec::new();
    let mut i = from;
    while i < to
        invariant
            from <= i <= to <= c.len(),
            r@ == c@.subrange(from as int, i as int),
        decreases to - i,
    {
        r.push(c[i]);
        i += 1;
        assert(r@ =~= c@.subrange(from as int, i as int));
    }
    r
}

proof fn lemma_count_dots_push(s: Seq<char>, ch: char)
    ensures
        count_dots(s.push(ch)) == count_dots(s) + if ch == '.' {
            1nat
        } else {
            0nat
        },
{
    assert(s.push(ch).drop_last() =~= s);
}

proof fn lemma_digits_push(s: Seq<char>, ch: char)
    ensures
        digits_value(s.push(ch)) == digits_value(s) * 10 + digit_value(ch),
{
    assert(s.push(ch).drop_last() =~= s);
}

/// Dots in a number's text, and its value when it has none and fits in `i64`.
fn number_facts(c: &Vec<char>, from: usize, to: usize) -> (r: (usize, Option<i64>))
    requires
        from <= to <= c.len(),
        forall|k: int| from <= k < to ==> is_digit(c@[k]) || c@[k] == '.',
    ensures
        r.0 == count_dots(c@.subrange(from as int, to as int)),
        r.0 == 0 ==> (r.1 is Some <==> digits_value(c@.subrange(from as int, to as int))
            <= i64::MAX),
        r.0 == 0 && r.1 is Some ==> r.1.unwrap() == digits_value(
            c@.subrange(from as int, to as int),
        ),
{
    let mut dots: usize = 0;
    let mut val: Option<i64> = Some(0);
    let mut i = from;
    while i < to
        invariant
            from <= i <= to <= c.len(),
            forall|k: int| from <= k < to ==> is_digit(c@[k]) || c@[k] == '.',
            dots == count_dots(c@.subrange(from as int, i as int)),
            dots <= i - from,
            dots == 0 ==> (val is Some <==> digits_value(c@.subrange(from as int, i as int))
                <= i64::MAX),
            dots == 0 && val is Some ==> val.unwrap() == digits_value(
                c@.subrange(from as int, i as int),
            ),
        decreases to - i,
    {
        let ch = c[i];
        proof {
            assert(c@.subrange(from as int, i + 1) == c@.subrange(from as int, i as int).push(ch));
            lemma_count_dots_push(c@.subrange(from as int, i as int), ch);
            lemma_digits_push(c@.subrange(from as int, i as int), ch);
        }
        if ch == '.' {
            dots += 1;
        } else {
            let d = (ch as u32 - '0' as u32) as i64;
            assert(d == digit_value(ch));
            val = match val {
                Some(v) => match v.checked_mul(10) {
                    Some(v10) => v10.checked_add(d),
                    None => None,
                },
                None => None,
            };
        }
        i += 1;
    }
    (dots, val)
}

fn line_msg(ln: usize, tail: &str) -> (r: String)
    ensures
        r@ == line_prefix(ln as nat) + tail@,
{
    let mut v: Vec<char> = Vec::new();
    push_str_chars(&mut v, "Line ");
    push_nat_text(&mut v, ln as u64);
    push_str_chars(&mut v, ": ");
    push_str_chars(&mut v, tail);
    assert(v@ =~= line_prefix(ln as nat) + tail@);
    string_of(v.as_slice())
}

fn number_msg(ln: usize, what: &str, text: &Vec<char>, why: &str) -> (r: String)
    ensures
        r@ == line_prefix(ln as nat) + what@ + text@ + why@,
{
    let mut v: Vec<char> = Vec::new();
    push_str_chars(&mut v, "Line ");
    push_nat_text(&mut v, ln as u64);
    push_str_chars(&mut v, ": ");
    push_str_chars(&mut v, what);
    push_all(&mut v, text);
    push_str_chars(&mut v, why);
    assert(v@ =~= line_prefix(ln as nat) + what@ + text@ + why@);
    string_of(v.as_slice())
}

fn punct_of(ch: char) -> (r: Option<TokenKind>)
    ensures
        match r {
            Some(k) => punct_kind(ch) == Some(k@),
            None => punct_kind(ch) is None,
        },
{
    if ch == ',' {
        Some(TokenKind::Comma)
    } else if ch == '.' {
        Some(TokenKind::Dot)
    } else if ch == ':' {
        Some(TokenKind::Colon)
    } else if ch == '(' {
        Some(TokenKind::LParen)
    } else if ch == ')' {
        Some(TokenKind::RParen)
    } else if ch == '[' {
        Some(TokenKind::LBracket)
    } else if ch == ']' {
        Some(TokenKind::RBracket)
    } else {
        None
    }
}

/// Appends the tokens of one comment-free line to `out`.
fn lex_line_exec(c: &Vec<char>, ln: usize, out: &mut Vec<Token>) -> (r: Result<(), Option<String>>)
    ensures
        match lex_line(c@, 0, ln as nat) {
            Lexed::Toks(ts) => r is Ok && toks_view(final(out)@) == toks_view(old(out)@) + ts,
            Lexed::Fail(m) => r is Err && r->Err_0 is Some && r->Err_0->Some_0@ == m,
            Lexed::Stall => r is Err && r->Err_0 is None,
        },
{
    let n = c.len();
    let mut i: usize = 0;
    let ghost start_out = toks_view(out@);
    while i < n
        invariant
            n == c.len(),
            i <= n,
            match lex_line(c@, 0, ln as nat) {
                Lexed::Toks(ts) => match lex_line(c@, i as int, ln as nat) {
                    Lexed::Toks(rest) => start_out + ts == toks_view(out@) + rest,
                    _ => false,
                },
                Lexed::Fail(m) => lex_line(c@, i as int, ln as nat) == Lexed::Fail(m),
                Lexed::Stall => lex_line(c@, i as int, ln as nat) == Lexed::Stall,
            },
            start_out == toks_view(old(out)@),
        decreases n - i,
    {
        let ch = c[i];
        let ghost before = toks_view(out@);
        if char_is_whitespace(ch) || ch == '_' {
            i += 1;
        } else if ch == '«' {
            let (body, end) = scan_string_exec(c, i + 1);
            if end >= n {
                return Err(Some(line_msg(ln, "unterminated string «")));
            }
            let t = Token { kind: TokenKind::Str(string_of(body.as_slice())), line: ln };
            out.push(t);
            i = end + 1;
            proof {
                assert(toks_view(out@) =~= before.push(t@));
            }
        } else if char_is_digit(ch) {
            let end = number_end_exec(c, i);
            proof {
                lemma_number_end_run(c@, i as int);
            }
            let text = slice_chars(c, i, end);
            let (dots, val) = number_facts(c, i, end);
            if dots > 1 {
                return Err(Some(number_msg(ln, "bad float ", &text, ": invalid float literal")));
            } else if dots == 1 {
                let t = Token { kind: TokenKind::Float(string_of(text.as_slice())), line: ln };
                out.push(t);
                proof {
                    assert(toks_view(out@) =~= before.push(t@));
                }
            } else {
                match val {
                    None => {
                        return Err(
                            Some(
                                number_msg(
                                    ln,
                                    "bad int ",
                                    &text,
                                    ": number too large to fit in target type",
                                ),
                            ),
                        );
                    },
                    Some(v) => {
                        let t = Token { kind: TokenKind::Int(v), line: ln };
                        out.push(t);
                        proof {
                            assert(toks_view(out@) =~= before.push(t@));
                        }
                    },
                }
            }
            i = end;
        } else {
            match punct_of(ch) {
                Some(k) => {
                    let t = Token { kind: k, line: ln };
                    out.push(t);
                    i += 1;
                    proof {
                        assert(toks_view(out@) =~= before.push(t@));
                    }
                },
                None => {
                    let end = word_end_exec(c, i);
                    if end <= i {
                        return Err(None);
                    }
                    let w = slice_chars(c, i, end);
                    let t = Token { kind: TokenKind::Word(string_of(w.as_slice())), line: ln };
                    out.push(t);
                    i = end;
                    proof {
                        assert(toks_view(out@) =~= before.push(t@));
                    }
                },
            }
        }
    }
    Ok(())
}

fn newline_exec(c: &Vec<char>, i: usize) -> (r: usize)
    requires
        i <= c.len(),
    ensures
        r == newline_at_or_after(c@, i as int),
        i <= r <= c.len(),
{
    proof {
        lemma_newline_bounds(c@, i as int);
    }
    let mut k = i;
    while k < c.len() && c[k] != '\n'
        invariant
            i <= k <= c.len(),
            newline_at_or_after(c@, i as int) == newline_at_or_after(c@, k as int),
        decreases c.len() - k,
    {
        k += 1;
    }
    k
}

fn lex_source(source: &str) -> (r: Result<Vec<Token>, Option<String>>)
    ensures
        match lex_program(source@) {
            Lexed::Toks(ts) => r is Ok && toks_view(r->Ok_0@) == ts,
            Lexed::Fail(m) => r is Err && r->Err_0 is Some && r->Err_0->Some_0@ == m,
            Lexed::Stall => r is Err && r->Err_0 is None,
        },
{
    let c = chars_of(source);
    let n = c.len();
    let ghost ls = lines_from(c@, 0);
    let mut tokens: Vec<Token> = Vec::new();
    let mut start: usize = 0;
    let mut k: usize = 0;
    while start < n
        invariant
            n == c.len(),
            c@ == source@,
            ls == lines_from(c@, 0),
            k <= start,
            0 <= k <= ls.len(),
            lines_from(c@, start as int) == ls.subrange(k as int, ls.len() as int),
            match lex_lines(ls, 0) {
                Lexed::Toks(ts) => match lex_lines(ls, k as int) {
                    Lexed::Toks(rest) => toks_view(tokens@) + rest == ts,
                    _ => false,
                },
                Lexed::Fail(m) => lex_lines(ls, k as int) == Lexed::Fail(m),
                Lexed::Stall => lex_lines(ls, k as int) == Lexed::Stall,
            },
        decreases n - start,
    {
        let e = newline_exec(&c, start);
        let end = if e < n && e > start && c[e - 1] == '\r' {
            e - 1
        } else {
            e
        };
        let line = slice_chars(&c, start, end);
        assert(line@ == line_text(c@, start as int, e as int));
        assert(ls[k as int] == line@) by {
            assert(lines_from(c@, start as int)[0] == line_text(c@, start as int, e as int));
        }
        let cut = comment_start_exec(&line);
        let body = slice_chars(&line, 0, cut);
        assert(body@ == uncommented(ls[k as int]));
        let ghost before = toks_view(tokens@);
        match lex_line_exec(&body, k + 1, &mut tokens) {
            Ok(()) => {},
            Err(m) => {
                return Err(m);
            },
        }
        proof {
            let next: int = if e < n { e + 1 } else { n as int };
            assert(lines_from(c@, next) =~= ls.subrange(k + 1, ls.len() as int)) by {
                assert(lines_from(c@, next) == lines_from(c@, (e + 1) as int));
                assert(lines_from(c@, start as int) == seq![line_text(c@, start as int, e as int)]
                    + lines_from(c@, (e + 1) as int));
                assert(ls.subrange(k as int, ls.len() as int).drop_first() =~= ls.subrange(
                    k + 1,
                    ls.len() as int,
                ));
            }
            match lex_line(body@, 0, (k + 1) as nat) {
                Lexed::Toks(a) => {
                    match lex_lines(ls, k + 1) {
                        Lexed::Toks(b) => {
                            assert(toks_view(tokens@) + b =~= before + (a + b));
                        },
                        _ => {},
                    }
                },
                _ => {},
            }
        }
        start = if e < n {
            e + 1
        } else {
            n
        };
        k = k + 1;
    }
    proof {
        assert(ls.subrange(k as int, ls.len() as int).len() == 0);
        assert(k == ls.len());
    }
    let ghost before = toks_view(tokens@);
    let eof = Token { kind: TokenKind::Eof, line: 0 };
    tokens.push(eof);
    proof {
        match lex_lines(ls, 0) {
            Lexed::Toks(ts) => {
                assert(before =~= ts);
                assert(toks_view(tokens@) =~= ts.push(Tok { kind: Kind::Eof, line: 0 }));
            },
            _ => {},
        }
    }
    Ok(tokens)
}

/// Splits source text into lines and lexes each line, its comment removed, in turn.
/// Every token carries its 1-based line number; an `Eof` token (line 0) ends the list.
/// The first error met is returned. A `»` that closes no string makes the scanner
/// stand still without an answer, so such sources are left out (see `stalls`).
pub fn tokenize(source: &str) -> (r: Result<Vec<Token>, String>)
    requires
        !(lex_program(source@) is Stall),
    ensures
        match lex_program(source@) {
            Lexed::Toks(ts) => r is Ok && toks_view(r->Ok_0@) == ts,
            Lexed::Fail(m) => r is Err && r->Err_0@ == m,
            Lexed::Stall => false,
        },
{
    match lex_source(source) {
        Ok(ts) => Ok(ts),
        Err(Some(m)) => Err(m),
        Err(None) => Err(String::new()),
    }
}

/// Whether lexing `source` would stand still on a `»` that closes no string
/// (before any error in an earlier line is met).
pub fn stalls(source: &str) -> (r: bool)
    ensures
        r == (lex_program(source@) is Stall),
{
    match lex_source(source) {
        Err(None) => true,
        _ => false,
    }
}

} // verus!
