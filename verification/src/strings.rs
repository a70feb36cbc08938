//! Text operations of the standard library that the interpreter relies on, stated
//! and proved here: trimming, whole-number parsing, splitting and UTF-8 length.
use vstd::prelude::*;
use crate::lexer::{digit_value, digits_value};
use crate::text::{char_is_whitespace, is_digit, is_ws};

verus! {

// ── trimming ──

/// The first position at or after `i` that does not hold white space.
pub open spec fn first_non_ws(s: Seq<char>, i: int) -> int
    decreases s.len() - i,
{
    if i < 0 || i >= s.len() {
        if i < 0 { 0 } else { s.len() as int }
    } else if is_ws(s[i]) {
        first_non_ws(s, i + 1)
    } else {
        i
    }
}

/// Just past the last position before `j`, and not before `lo`, that does not hold
/// white space.
pub open spec fn end_non_ws(s: Seq<char>, j: int, lo: int) -> int
    decreases j - lo,
{
    if j <= lo || j > s.len() {
        lo
    } else if is_ws(s[j - 1]) {
        end_non_ws(s, j - 1, lo)
    } else {
        j
    }
}

/// `str::trim`: the text without white space at either end.
pub open spec fn trim_s(s: Seq<char>) -> Seq<char> {
    let a = first_non_ws(s, 0);
    s.subrange(a, end_non_ws(s, s.len() as int, a))
}

pub proof fn lemma_first_non_ws(s: Seq<char>, i: int)
    requires
        0 <= i <= s.len(),
    ensures
        i <= first_non_ws(s, i) <= s.len(),
        forall|k: int| i <= k < first_non_ws(s, i) ==> is_ws(#[trigger] s[k]),
        first_non_ws(s, i) < s.len() ==> !is_ws(s[first_non_ws(s, i)]),
    decreases s.len() - i,
{
    if i < s.len() && is_ws(s[i]) {
        lemma_first_non_ws(s, i + 1);
    }
}

pub proof fn lemma_end_non_ws(s: Seq<char>, j: int, lo: int)
    requires
        0 <= lo <= j <= s.len(),
    ensures
        lo <= end_non_ws(s, j, lo) <= j,
        forall|k: int| end_non_ws(s, j, lo) <= k < j ==> is_ws(#[trigger] s[k]),
        end_non_ws(s, j, lo) > lo ==> !is_ws(s[end_non_ws(s, j, lo) - 1]),
    decreases j - lo,
{
    if j > lo && is_ws(s[j - 1]) {
        lemma_end_non_ws(s, j - 1, lo);
    }
}

pub fn trim_chars(s: &Vec<char>) -> (r: Vec<char>)
    ensures
        r@ == trim_s(s@),
{
    let mut a: usize = 0;
    while a < s.len() && char_is_whitespace(s[a])
        invariant
            a <= s.len(),
            first_non_ws(s@, a as int) == first_non_ws(s@, 0),
        decreases s.len() - a,
    {
        a += 1;
    }
    let mut b: usize = s.len();
    while b > a && char_is_whitespace(s[b - 1])
        invariant
            a <= b <= s.len(),
            a == first_non_ws(s@, 0),
            end_non_ws(s@, b as int, a as int) == end_non_ws(s@, s@.len() as int, a as int),
        decreases b - a,
    {
        b -= 1;
    }
    let mut out: Vec<char> = Vec::new();
    let mut k = a;
    while k < b
        invariant
            a <= k <= b <= s.len(),
            out@ == s@.subrange(a as int, k as int),
        decreases b - k,
    {
        out.push(s[k]);
        k += 1;
        assert(out@ =~= s@.subrange(a as int, k as int));
    }
    out
}

/// Whether the text is empty once trimmed: nothing but white space.
pub open spec fn blank(s: Seq<char>) -> bool {
    forall|k: int| 0 <= k < s.len() ==> is_ws(#[trigger] s[k])
}

/// A line counts as blank exactly when trimming leaves nothing of it.
pub proof fn law_blank_when_trimmed_empty(s: Seq<char>)
    ensures
        (trim_s(s).len() == 0) == blank(s),
{
    lemma_first_non_ws(s, 0);
    let a = first_non_ws(s, 0);
    lemma_end_non_ws(s, s.len() as int, a);
    if a < s.len() {
        assert(!is_ws(s[a]));
        assert(end_non_ws(s, s.len() as int, a) > a);
    }
}

pub fn is_blank(s: &Vec<char>) -> (r: bool)
    ensures
        r == blank(s@),
{
    let mut i: usize = 0;
    while i < s.len()
        invariant
            i <= s.len(),
            forall|k: int| 0 <= k < i ==> is_ws(#[trigger] s@[k]),
        decreases s.len() - i,
    {
        if !char_is_whitespace(s[i]) {
            return false;
        }
        i += 1;
    }
    true
}

// ── whole numbers ──

pub open spec fn all_digits(d: Seq<char>) -> bool {
    forall|k: int| 0 <= k < d.len() ==> is_digit(#[trigger] d[k])
}

/// Whether the text begins with a sign that the parse takes.
pub open spec fn has_sign(s: Seq<char>, minus: bool) -> bool {
    s.len() > 0 && (s[0] == '+' || (minus && s[0] == '-'))
}

/// The integer a text writes as an optional sign and one or more decimal digits
/// (the grammar of `str::parse` for integer types; `-` only where `minus` allows).
pub open spec fn parse_int(s: Seq<char>, minus: bool) -> Option<int> {
    let d = if has_sign(s, minus) { s.skip(1) } else { s };
    if d.len() == 0 || !all_digits(d) {
        None
    } else if minus && s[0] == '-' {
        Some(-(digits_value(d) as int))
    } else {
        Some(digits_value(d) as int)
    }
}

/// `str::parse::<i64>`.
pub open spec fn parse_i64_s(s: Seq<char>) -> Option<i64> {
    match parse_int(s, true) {
        Some(n) => if i64::MIN <= n <= i64::MAX { Some(n as i64) } else { None },
        None => None,
    }
}

/// `str::parse::<usize>`.
pub open spec fn parse_usize_s(s: Seq<char>) -> Option<usize> {
    match parse_int(s, false) {
        Some(n) => if 0 <= n <= usize::MAX { Some(n as usize) } else { None },
        None => None,
    }
}

proof fn lemma_digits_step(d: Seq<char>, k: int)
    requires
        0 <= k < d.len(),
    ensures
        digits_value(d.take(k + 1)) == digits_value(d.take(k)) * 10 + digit_value(d[k]),
{
    assert(d.take(k + 1).drop_last() =~= d.take(k));
}

proof fn lemma_digits_grow(d: Seq<char>, k: int, j: int)
    requires
        0 <= k <= j <= d.len(),
    ensures
        digits_value(d.take(k)) <= digits_value(d.take(j)),
    decreases j - k,
{
    if k < j {
        lemma_digits_grow(d, k, j - 1);
        lemma_digits_step(d, j - 1);
    }
}

/// The value of `d`'s digits when it is at most `bound`; `None` when it is larger or
/// a character is not a digit.
fn digits_upto(d: &Vec<char>, start: usize, bound: u128) -> (r: (bool, u128))
    requires
        start <= d@.len(),
        bound < 0x1_0000_0000_0000_0000u128,
    ensures
        ({
            let t = d@.skip(start as int);
            r.0 == all_digits(t)
                && (r.0 ==> (r.1 as int == digits_value(t) || (r.1 as int > bound && digits_value(t) > bound)))
                && (r.0 && r.1 <= bound ==> r.1 as int == digits_value(t))
        }),
{
    let ghost t = d@.skip(start as int);
    let mut acc: u128 = 0;
    let mut over = false;
    let mut i = start;
    assert(t.take(0) =~= Seq::<char>::empty());
    while i < d.len()
        invariant
            start <= i <= d@.len(),
            t == d@.skip(start as int),
            forall|k: int| 0 <= k < i - start ==> is_digit(#[trigger] t[k]),
            !over ==> acc as int == digits_value(t.take(i - start)) && acc <= bound,
            over ==> acc as int > bound && digits_value(t.take(i - start)) > bound,
            acc <= bound + 1,
            bound < 0x1_0000_0000_0000_0000u128,
        decreases d@.len() - i,
    {
        let c = d[i];
        if !('0' <= c && c <= '9') {
            assert(!is_digit(t[i - start]));
            return (false, 0);
        }
        proof {
            lemma_digits_step(t, i - start);
        }
        let dv = (c as u32 - '0' as u32) as u128;
        assert(dv as int == digit_value(c));
        if !over {
            let next = acc * 10 + dv;
            if next > bound {
                over = true;
            }
            acc = if next > bound { bound + 1 } else { next };
        } else {
            proof {
                assert(digits_value(t.take(i - start + 1)) >= digits_value(t.take(i - start)) * 10);
            }
        }
        i += 1;
    }
    assert(t.take(i - start) =~= t);
    (true, acc)
}

/// `str::parse::<i64>`.
pub fn parse_i64(s: &Vec<char>) -> (r: Option<i64>)
    ensures
        r == parse_i64_s(s@),
{
    let n = s.len();
    let neg = n > 0 && s[0] == '-';
    let signed = n > 0 && (s[0] == '+' || s[0] == '-');
    let start: usize = if signed { 1 } else { 0 };
    let ghost d = if signed { s@.skip(1) } else { s@ };
    assert(s@.skip(0) =~= s@);
    assert(d == s@.skip(start as int));
    if start == n {
        assert(d.len() == 0);
        return None;
    }
    let bound: u128 = if neg { 0x8000_0000_0000_0000u128 } else { 0x7fff_ffff_ffff_ffffu128 };
    let (ok, v) = digits_upto(s, start, bound);
    if !ok || v > bound {
        if !ok {
            assert(!all_digits(d));
        } else {
            assert(digits_value(d) > bound);
        }
        return None;
    }
    assert(v as int == digits_value(d));
    if neg {
        if v == 0x8000_0000_0000_0000u128 {
            Some(i64::MIN)
        } else {
            Some(0 - (v as i64))
        }
    } else {
        Some(v as i64)
    }
}

/// `str::parse::<usize>`.
pub fn parse_usize(s: &Vec<char>) -> (r: Option<usize>)
    ensures
        r == parse_usize_s(s@),
{
    let n = s.len();
    let signed = n > 0 && s[0] == '+';
    let start: usize = if signed { 1 } else { 0 };
    let ghost d = if signed { s@.skip(1) } else { s@ };
    assert(s@.skip(0) =~= s@);
    assert(d == s@.skip(start as int));
    if start == n {
        assert(d.len() == 0);
        return None;
    }
    let bound: u128 = usize::MAX as u128;
    let (ok, v) = digits_upto(s, start, bound);
    if !ok || v > bound {
        if !ok {
            assert(!all_digits(d));
        } else {
            assert(digits_value(d) > bound);
        }
        return None;
    }
    assert(v as int == digits_value(d));
    Some(v as usize)
}

// ── splitting ──

/// Whether `sep` occurs in `s` at `i`.
pub open spec fn occurs_at(s: Seq<char>, sep: Seq<char>, i: int) -> bool {
    0 <= i && i + sep.len() <= s.len() && s.subrange(i, i + sep.len()) == sep
}

/// The pieces of `s` between the occurrences of a non-empty `sep`, found from the left
/// and without overlap, from a piece that began at `start` and a search at `i`;
/// `acc` holds the pieces already cut.
pub open spec fn split_from(s: Seq<char>, sep: Seq<char>, start: int, i: int, acc: Seq<Seq<char>>) -> Seq<Seq<char>>
    decreases s.len() - i,
{
    if sep.len() == 0 || i < start || start < 0 || i + sep.len() > s.len() {
        acc.push(s.subrange(start, s.len() as int))
    } else if occurs_at(s, sep, i) {
        split_from(s, sep, i + sep.len(), i + sep.len(), acc.push(s.subrange(start, i)))
    } else {
        split_from(s, sep, start, i + 1, acc)
    }
}

/// `str::split` with a text pattern. An empty pattern matches before and after every
/// character.
pub open spec fn split_s(s: Seq<char>, sep: Seq<char>) -> Seq<Seq<char>> {
    if sep.len() == 0 {
        seq![Seq::<char>::empty()] + Seq::new(s.len(), |k: int| seq![s[k]]) + seq![Seq::<char>::empty()]
    } else {
        split_from(s, sep, 0, 0, Seq::empty())
    }
}

fn occurs_at_exec(s: &Vec<char>, sep: &Vec<char>, i: usize) -> (r: bool)
    ensures
        r == occurs_at(s@, sep@, i as int),
{
    if i > s.len() || sep.len() > s.len() - i {
        return false;
    }
    let mut k: usize = 0;
    while k < sep.len()
        invariant
            i + sep.len() <= s.len(),
            k <= sep.len(),
            forall|j: int| 0 <= j < k ==> s@[i + j] == sep@[j],
        decreases sep.len() - k,
    {
        if s[i + k] != sep[k] {
            assert(s@.subrange(i as int, i + sep.len())[k as int] != sep@[k as int]);
            return false;
        }
        k += 1;
    }
    assert(s@.subrange(i as int, i + sep.len()) =~= sep@);
    true
}

fn piece(s: &Vec<char>, a: usize, b: usize) -> (r: Vec<char>)
    requires
        a <= b <= s.len(),
    ensures
        r@ == s@.subrange(a as int, b as int),
{
    let mut out: Vec<char> = Vec::new();
    let mut k = a;
    while k < b
        invariant
            a <= k <= b <= s.len(),
            out@ == s@.subrange(a as int, k as int),
        decreases b - k,
    {
        out.push(s[k]);
        k += 1;
        assert(out@ =~= s@.subrange(a as int, k as int));
    }
    out
}

pub fn split_chars(s: &Vec<char>, sep: &Vec<char>) -> (r: Vec<Vec<char>>)
    ensures
        r@.len() == split_s(s@, sep@).len(),
        forall|k: int| 0 <= k < r@.len() ==> (#[trigger] r@[k])@ == split_s(s@, sep@)[k],
{
    let mut out: Vec<Vec<char>> = Vec::new();
    if sep.len() == 0 {
        out.push(Vec::new());
        let mut k: usize = 0;
        while k < s.len()
            invariant
                k <= s.len(),
                out@.len() == k + 1,
                out@[0]@ == Seq::<char>::empty(),
                forall|j: int| 1 <= j <= k ==> (#[trigger] out@[j])@ == seq![s@[j - 1]],
            decreases s.len() - k,
        {
            let mut one: Vec<char> = Vec::new();
            one.push(s[k]);
            out.push(one);
            k += 1;
        }
        out.push(Vec::new());
        return out;
    }
    let ghost goal = split_s(s@, sep@);
    let mut start: usize = 0;
    let mut i: usize = 0;
    assert(Seq::new(out@.len(), |k: int| out@[k]@) =~= Seq::<Seq<char>>::empty());
    while sep.len() <= s.len() - i
        invariant
            sep@.len() > 0,
            start <= i,
            i <= s.len(),
            goal == split_from(s@, sep@, 0, 0, Seq::empty()),
            split_from(s@, sep@, start as int, i as int, Seq::new(out@.len(), |k: int| out@[k]@)) == goal,
        decreases s.len() - i,
    {
        let ghost acc = Seq::new(out@.len(), |k: int| out@[k]@);
        if occurs_at_exec(s, sep, i) {
            let p = piece(s, start, i);
            out.push(p);
            assert(Seq::new(out@.len(), |k: int| out@[k]@) =~= acc.push(s@.subrange(start as int, i as int)));
            i = i + sep.len();
            start = i;
        } else {
            i = i + 1;
        }
    }
    let ghost acc = Seq::new(out@.len(), |k: int| out@[k]@);
    let p = piece(s, start, s.len());
    out.push(p);
    assert(Seq::new(out@.len(), |k: int| out@[k]@) =~= acc.push(s@.subrange(start as int, s@.len() as int)));
    assert(Seq::new(out@.len(), |k: int| out@[k]@) == goal);
    out
}

// ── the end of an input line ──

/// The text without the line breaks, and then the carriage returns, at its end
/// (`trim_end_matches('\n')` then `trim_end_matches('\r')`).
pub open spec fn strip_end(s: Seq<char>, c: char) -> Seq<char>
    decreases s.len(),
{
    if s.len() > 0 && s.last() == c {
        strip_end(s.drop_last(), c)
    } else {
        s
    }
}

pub open spec fn chomp_s(s: Seq<char>) -> Seq<char> {
    strip_end(strip_end(s, '\n'), '\r')
}

fn strip_end_exec(s: &Vec<char>, c: char) -> (r: Vec<char>)
    ensures
        r@ == strip_end(s@, c),
{
    let mut n = s.len();
    assert(s@.subrange(0, n as int) =~= s@);
    while n > 0 && s[n - 1] == c
        invariant
            n <= s.len(),
            strip_end(s@.subrange(0, n as int), c) == strip_end(s@, c),
        decreases n,
    {
        assert(s@.subrange(0, n as int).drop_last() =~= s@.subrange(0, n - 1));
        n -= 1;
    }
    piece(s, 0, n)
}

pub fn chomp(s: &Vec<char>) -> (r: Vec<char>)
    ensures
        r@ == chomp_s(s@),
{
    assert(s@.subrange(0, s@.len() as int) =~= s@);
    let a = strip_end_exec(s, '\n');
    assert(a@.subrange(0, a@.len() as int) =~= a@);
    strip_end_exec(&a, '\r')
}

// ── UTF-8 ──

/// How many bytes UTF-8 takes for the character.
pub open spec fn utf8_width(c: char) -> nat {
    if (c as int) < 0x80 {
        1
    } else if (c as int) < 0x800 {
        2
    } else if (c as int) < 0x10000 {
        3
    } else {
        4
    }
}

/// `str::len`: the length of the text in UTF-8 bytes.
pub open spec fn utf8_len(s: Seq<char>) -> nat
    decreases s.len(),
{
    if s.len() == 0 {
        0
    } else {
        utf8_len(s.drop_last()) + utf8_width(s.last())
    }
}

pub fn utf8_length(s: &Vec<char>) -> (n: u128)
    ensures
        n as nat == utf8_len(s@),
{
    let mut total: u128 = 0;
    let mut i: usize = 0;
    while i < s.len()
        invariant
            i <= s.len(),
            total as nat == utf8_len(s@.subrange(0, i as int)),
            total <= 4 * i,
        decreases s.len() - i,
    {
        assert(s@.subrange(0, i + 1).drop_last() =~= s@.subrange(0, i as int));
        let c = s[i];
        let w: u128 = if '\u{80}' > c {
            1
        } else if '\u{800}' > c {
            2
        } else if '\u{10000}' > c {
            3
        } else {
            4
        };
        total = total + w;
        i += 1;
    }
    assert(s@.subrange(0, i as int) =~= s@);
    total
}

// ── words ──

/// The runs of non-white-space characters of `s[i..]` (`str::split_whitespace`),
/// after the words in `acc` and the word `cur` begun before `i`.
pub open spec fn words_from(s: Seq<char>, i: int, cur: Seq<char>, acc: Seq<Seq<char>>) -> Seq<Seq<char>>
    decreases s.len() - i,
{
    if i < 0 || i >= s.len() {
        if cur.len() > 0 { acc.push(cur) } else { acc }
    } else if is_ws(s[i]) {
        words_from(s, i + 1, Seq::empty(), if cur.len() > 0 { acc.push(cur) } else { acc })
    } else {
        words_from(s, i + 1, cur.push(s[i]), acc)
    }
}

pub open spec fn words_s(s: Seq<char>) -> Seq<Seq<char>> {
    words_from(s, 0, Seq::empty(), Seq::empty())
}

pub fn words(s: &Vec<char>) -> (r: Vec<Vec<char>>)
    ensures
        r@.len() == words_s(s@).len(),
        forall|k: int| 0 <= k < r@.len() ==> (#[trigger] r@[k])@ == words_s(s@)[k],
{
    let mut out: Vec<Vec<char>> = Vec::new();
    let mut cur: Vec<char> = Vec::new();
    let mut i: usize = 0;
    assert(Seq::new(out@.len(), |k: int| out@[k]@) =~= Seq::<Seq<char>>::empty());
    while i < s.len()
        invariant
            i <= s.len(),
            words_from(s@, i as int, cur@, Seq::new(out@.len(), |k: int| out@[k]@)) == words_s(s@),
        decreases s.len() - i,
    {
        let ghost acc = Seq::new(out@.len(), |k: int| out@[k]@);
        if char_is_whitespace(s[i]) {
            if cur.len() > 0 {
                let ghost cv = cur@;
                out.push(cur);
                assert(Seq::new(out@.len(), |k: int| out@[k]@) =~= acc.push(cv));
            }
            cur = Vec::new();
        } else {
            cur.push(s[i]);
        }
        i += 1;
    }
    let ghost acc = Seq::new(out@.len(), |k: int| out@[k]@);
    if cur.len() > 0 {
        let ghost cv = cur@;
        out.push(cur);
        assert(Seq::new(out@.len(), |k: int| out@[k]@) =~= acc.push(cv));
    }
    assert(Seq::new(out@.len(), |k: int| out@[k]@) == words_s(s@));
    out
}

} // verus!
