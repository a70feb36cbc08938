//! What holds of the language for every input: properties of the operators, the
//! built-ins and the statements, proved from their meanings in `semantics`, `ops`
//! and `builtins`.
use vstd::prelude::*;
use crate::ast::{BinOpKind, ExprV, StmtV};
use crate::builtins::{builtin_s, char_texts, insert_s, join_from, sort_from, texts_of};
use crate::host::{ask_bits_s, ask_text_s, AnswerV, FloatOpV, HaltV, RequestV, TapeV};
use crate::lexer::{digit_value, digits_value};
use crate::ops::{binop_s, compare_s, equal_s, tdiv, trem};
use crate::scope::{env_fresh, env_lookup, env_pop, env_push, env_set, law_push_keeps_names, law_set_keeps_others, law_set_then_get, lookup, Frames};
use crate::semantics::{http_text, reply_s, serve_loop_s, bind_params, content_length, headers_s, block_s, call_func_s, call_method_s, class_slot, method_slot, exec_s, with_response, SignalV, StateV};
use crate::show::show_s;
use crate::strings::{all_digits, blank, lemma_end_non_ws, lemma_first_non_ws, words_from, words_s, chomp_s, strip_end, end_non_ws, first_non_ws, has_sign, occurs_at, parse_i64_s, parse_int, split_from, split_s, trim_s};
use crate::text::{digit_char, int_text, is_digit, is_ws, nat_text};
use crate::value::{float_order, order_int, text_order, Order, ValueV};

verus! {

// ── arithmetic and joining ──

/// `og` with a text on either side joins the texts of both sides.
pub proof fn law_join_texts(t: TapeV, a: Seq<char>, b: Seq<char>)
    ensures
        binop_s(t, BinOpKind::Add, ValueV::Str(a), ValueV::Str(b)) == (t, Ok::<ValueV, HaltV>(ValueV::Str(a + b))),
{
}

/// `og` with a text and a whole number joins the text and the number's decimal digits.
pub proof fn law_join_text_number(t: TapeV, a: Seq<char>, n: i64)
    ensures
        binop_s(t, BinOpKind::Add, ValueV::Str(a), ValueV::Int(n)) == (t, Ok::<ValueV, HaltV>(ValueV::Str(a + int_text(n as int)))),
        binop_s(t, BinOpKind::Add, ValueV::Int(n), ValueV::Str(a)) == (t, Ok::<ValueV, HaltV>(ValueV::Str(int_text(n as int) + a))),
{
}

/// Whole-number division and remainder fit together as in Rust: `a` is `b` times the
/// quotient plus the remainder, the remainder is smaller than `b` in size and has the
/// sign of `a`, and `delt på` and `resten av … delt på` give them.
pub proof fn law_division(t: TapeV, a: i64, b: i64)
    requires
        b != 0,
        !(a == i64::MIN && b == -1),
    ensures
        a == b * tdiv(a as int, b as int) + trem(a as int, b as int),
        (if trem(a as int, b as int) < 0 { -trem(a as int, b as int) } else { trem(a as int, b as int) })
            < (if b < 0 { -b } else { b as int }),
        a >= 0 ==> trem(a as int, b as int) >= 0,
        a <= 0 ==> trem(a as int, b as int) <= 0,
        binop_s(t, BinOpKind::Div, ValueV::Int(a), ValueV::Int(b)) == (t, Ok::<ValueV, HaltV>(ValueV::Int(tdiv(a as int, b as int) as i64))),
        binop_s(t, BinOpKind::Mod, ValueV::Int(a), ValueV::Int(b)) == (t, Ok::<ValueV, HaltV>(ValueV::Int(trem(a as int, b as int) as i64))),
{
    let x: int = if a < 0 { -a } else { a as int };
    let y: int = if b < 0 { -b } else { b as int };
    let q = x / y;
    let r = x % y;
    assert(x == y * q + r && 0 <= r < y) by (nonlinear_arith)
        requires
            y > 0,
            x >= 0,
            q == x / y,
            r == x % y,
    ;
    if a < 0 && b < 0 {
        assert(a == b * q - r) by (nonlinear_arith)
            requires
                x == -a,
                y == -b,
                x == y * q + r,
        ;
    } else if a < 0 {
        assert(a == b * (-q) - r) by (nonlinear_arith)
            requires
                x == -a,
                y == b,
                x == y * q + r,
        ;
    } else if b < 0 {
        assert(a == b * (-q) + r) by (nonlinear_arith)
            requires
                x == a,
                y == -b,
                x == y * q + r,
        ;
    } else {
        assert(a == b * q + r) by (nonlinear_arith)
            requires
                x == a,
                y == b,
                x == y * q + r,
        ;
    }
}

/// `er ikkje` is the opposite of `er`, for all values.
pub proof fn law_not_equal(t: TapeV, l: ValueV, r: ValueV)
    ensures
        ({
            let (t1, e) = equal_s(t, l, r);
            &&& binop_s(t, BinOpKind::Eq, l, r) == (t1, match e {
                Ok(b) => Ok::<ValueV, HaltV>(ValueV::Bool(b)),
                Err(h) => Err(h),
            })
            &&& binop_s(t, BinOpKind::Ne, l, r) == (t1, match e {
                Ok(b) => Ok::<ValueV, HaltV>(ValueV::Bool(!b)),
                Err(h) => Err(h),
            })
        }),
{
}

/// Comparisons answer `ja` or `nei`: on success their value is a truth value.
pub proof fn law_comparisons_give_truth(t: TapeV, op: BinOpKind, l: ValueV, r: ValueV)
    requires
        op == BinOpKind::Eq || op == BinOpKind::Ne || op == BinOpKind::Lt || op == BinOpKind::Gt,
    ensures
        binop_s(t, op, l, r).1 is Ok ==> binop_s(t, op, l, r).1->Ok_0 is Bool,
{
}

/// The same order seen from the other side.
pub open spec fn reversed(o: Order) -> Order {
    match o {
        Order::Less => Order::Greater,
        Order::Equal => Order::Equal,
        Order::Greater => Order::Less,
    }
}

proof fn lemma_text_order_swap(a: Seq<char>, b: Seq<char>)
    ensures
        text_order(b, a) == reversed(text_order(a, b)),
    decreases a.len(),
{
    if a.len() > 0 && b.len() > 0 && a[0] == b[0] {
        lemma_text_order_swap(a.drop_first(), b.drop_first());
    }
}

proof fn lemma_float_order_swap(x: u64, y: u64)
    ensures
        float_order(y, x) == match float_order(x, y) {
            Some(o) => Some(reversed(o)),
            None => None,
        },
{
}

/// Comparing the other way round asks the host the same questions and gives the
/// reversed order.
pub proof fn law_compare_swap(t: TapeV, l: ValueV, r: ValueV)
    ensures
        compare_s(t, r, l) == match compare_s(t, l, r) {
            (t1, Ok(o)) => (t1, Ok::<Order, HaltV>(reversed(o))),
            (t1, Err(h)) => (t1, Err(h)),
        },
{
    match (l, r) {
        (ValueV::Str(x), ValueV::Str(y)) => lemma_text_order_swap(x, y),
        (ValueV::Float(x), ValueV::Float(y)) => lemma_float_order_swap(x, y),
        (ValueV::Int(x), ValueV::Float(y)) => {
            let (t1, a) = ask_bits_s(t, RequestV::Float(FloatOpV::FromInt(x)));
            if a is Ok {
                lemma_float_order_swap(a->Ok_0, y);
            }
        },
        (ValueV::Float(x), ValueV::Int(y)) => {
            let (t1, a) = ask_bits_s(t, RequestV::Float(FloatOpV::FromInt(y)));
            if a is Ok {
                lemma_float_order_swap(x, a->Ok_0);
            }
        },
        _ => {},
    }
}

/// `er mindre enn` with its sides swapped is `er større enn`, and the other way round.
pub proof fn law_less_is_greater_swapped(t: TapeV, l: ValueV, r: ValueV)
    ensures
        binop_s(t, BinOpKind::Lt, l, r) == binop_s(t, BinOpKind::Gt, r, l),
        binop_s(t, BinOpKind::Gt, l, r) == binop_s(t, BinOpKind::Lt, r, l),
{
    law_compare_swap(t, l, r);
}

/// A whole number and a decimal side by side: the only comparison that asks the host
/// anything (to turn the whole number into a decimal).
pub open spec fn mixed_numbers(l: ValueV, r: ValueV) -> bool {
    (l is Int && r is Float) || (l is Float && r is Int)
}

/// Comparisons never fail: on any two values other than a whole number and a
/// decimal they give `ja` or `nei` without asking the host anything, and on those
/// they give `ja` or `nei` once the host has turned the whole number into a decimal.
pub proof fn law_comparisons_never_fail(t: TapeV, op: BinOpKind, l: ValueV, r: ValueV)
    requires
        op == BinOpKind::Eq || op == BinOpKind::Ne || op == BinOpKind::Lt || op == BinOpKind::Gt,
    ensures
        !mixed_numbers(l, r) ==> binop_s(t, op, l, r).0 == t && binop_s(t, op, l, r).1 is Ok
            && binop_s(t, op, l, r).1->Ok_0 is Bool,
        mixed_numbers(l, r) ==> ({
            let n = if l is Int { l->Int_0 } else { r->Int_0 };
            let (t1, a) = ask_bits_s(t, RequestV::Float(FloatOpV::FromInt(n)));
            a is Ok ==> binop_s(t, op, l, r).0 == t1 && binop_s(t, op, l, r).1 is Ok
                && binop_s(t, op, l, r).1->Ok_0 is Bool
        }),
{
}

// ── whole numbers written and read back ──

proof fn lemma_digit_char(d: nat)
    requires
        d < 10,
    ensures
        is_digit(digit_char(d)),
        digit_value(digit_char(d)) == d,
{
}

proof fn lemma_nat_text(m: nat)
    ensures
        nat_text(m).len() > 0,
        all_digits(nat_text(m)),
        digits_value(nat_text(m)) == m,
    decreases m,
{
    if m >= 10 {
        lemma_nat_text(m / 10);
        let s = nat_text(m / 10);
        let d = (m % 10) as nat;
        lemma_digit_char(d);
        assert(nat_text(m) == s.push(digit_char(d)));
        assert(nat_text(m).drop_last() =~= s);
        assert(nat_text(m).last() == digit_char(d));
        assert(digits_value(nat_text(m)) == digits_value(s) * 10 + digit_value(digit_char(d)));
        assert(m == (m / 10) * 10 + d) by (nonlinear_arith)
            requires
                d == m % 10,
        ;
        assert forall|k: int| 0 <= k < nat_text(m).len() implies is_digit(#[trigger] nat_text(m)[k]) by {
            if k < s.len() {
                assert(nat_text(m)[k] == s[k]);
            }
        }
    } else {
        lemma_digit_char(m);
        assert(nat_text(m) == seq![digit_char(m)]);
        assert(nat_text(m).drop_last() =~= Seq::<char>::empty());
        assert(digits_value(Seq::<char>::empty()) == 0);
        assert(nat_text(m).last() == digit_char(m));
        assert(digits_value(nat_text(m)) == digits_value(nat_text(m).drop_last()) * 10 + digit_value(nat_text(m).last()));
    }
}

proof fn lemma_int_text(n: int)
    ensures
        int_text(n).len() > 0,
        forall|k: int| 0 <= k < int_text(n).len() ==> !is_ws(#[trigger] int_text(n)[k]),
        trim_s(int_text(n)) == int_text(n),
{
    let s = int_text(n);
    let m: nat = if n < 0 { (-n) as nat } else { n as nat };
    lemma_nat_text(m);
    assert forall|k: int| 0 <= k < s.len() implies !is_ws(#[trigger] s[k]) by {
        if n < 0 && k == 0 {
            assert(s[0] == '-');
        } else if n < 0 {
            assert(s[k] == nat_text(m)[k - 1]);
            assert(is_digit(nat_text(m)[k - 1]));
        } else {
            assert(is_digit(nat_text(m)[k]));
        }
    }
    assert(first_non_ws(s, 0) == 0);
    assert(end_non_ws(s, s.len() as int, 0) == s.len());
    assert(s.subrange(0, s.len() as int) =~= s);
}

/// Reading back the text of a whole number gives the number: what `heiltal` makes of
/// what `tekst` made of `n` is `n`.
pub proof fn law_number_text_round_trip(n: i64)
    ensures
        parse_i64_s(trim_s(int_text(n as int))) == Some(n),
{
    lemma_int_text(n as int);
    let s = int_text(n as int);
    if n < 0 {
        let m = (-n) as nat;
        lemma_nat_text(m);
        assert(s[0] == '-');
        assert(has_sign(s, true));
        assert(s.skip(1) =~= nat_text(m));
        assert(parse_int(s, true) == Some(n as int));
    } else {
        let m = n as nat;
        lemma_nat_text(m);
        assert(is_digit(s[0]));
        assert(!has_sign(s, true));
        assert(parse_int(s, true) == Some(n as int));
    }
}

/// `heiltal(tekst(n))` is `n` for every whole number, and asks nothing of the host.
pub proof fn law_heiltal_of_tekst(t: TapeV, n: i64)
    ensures
        builtin_s(t, "heiltal"@, seq![ValueV::Str(int_text(n as int))]) == (t, Ok::<Option<ValueV>, HaltV>(Some(ValueV::Int(n)))),
{
    reveal_strlit("heiltal");
    reveal_strlit("lengd");
    law_number_text_round_trip(n);
}

// ── sorting ──

pub open spec fn all_ints(s: Seq<ValueV>) -> bool {
    forall|i: int| 0 <= i < s.len() ==> (#[trigger] s[i]) is Int
}

pub open spec fn ints_sorted(s: Seq<ValueV>) -> bool {
    forall|i: int, j: int| 0 <= i < j < s.len() ==> (#[trigger] s[i])->Int_0 <= (#[trigger] s[j])->Int_0
}

proof fn lemma_insert_ints(t: TapeV, s: Seq<ValueV>, x: ValueV, j: int)
    requires
        all_ints(s),
        ints_sorted(s),
        x is Int,
        0 <= j <= s.len(),
        forall|k: int| j <= k < s.len() ==> (#[trigger] s[k])->Int_0 > x->Int_0,
    ensures
        insert_s(t, s, x, j).0 == t,
        insert_s(t, s, x, j).1 is Ok,
        all_ints(insert_s(t, s, x, j).1->Ok_0),
        ints_sorted(insert_s(t, s, x, j).1->Ok_0),
        insert_s(t, s, x, j).1->Ok_0.to_multiset() == s.to_multiset().insert(x),
    decreases j,
{
    if j == 0 {
        vstd::seq_lib::to_multiset_insert(s, 0, x);
        let r = s.insert(0, x);
        assert forall|i: int, k: int| 0 <= i < k < r.len() implies (#[trigger] r[i])->Int_0 <= (#[trigger] r[k])->Int_0 by {
            if i == 0 {
                assert(r[k] == s[k - 1]);
            } else {
                assert(r[i] == s[i - 1]);
                assert(r[k] == s[k - 1]);
            }
        }
        assert(all_ints(r));
    } else {
        let a = s[j - 1];
        if a->Int_0 > x->Int_0 {
            lemma_insert_ints(t, s, x, j - 1);
        } else {
            vstd::seq_lib::to_multiset_insert(s, j, x);
            let r = s.insert(j, x);
            assert forall|i: int, k: int| 0 <= i < k < r.len() implies (#[trigger] r[i])->Int_0 <= (#[trigger] r[k])->Int_0 by {
                if k < j {
                    assert(r[i] == s[i] && r[k] == s[k]);
                } else if k == j {
                    assert(r[i] == s[i]);
                    assert(s[i]->Int_0 <= s[j - 1]->Int_0);
                } else if i < j {
                    assert(r[i] == s[i] && r[k] == s[k - 1]);
                } else if i == j {
                    assert(r[k] == s[k - 1]);
                } else {
                    assert(r[i] == s[i - 1] && r[k] == s[k - 1]);
                }
            }
            assert(all_ints(r));
        }
    }
}

proof fn lemma_empty_multiset()
    ensures
        Seq::<ValueV>::empty().to_multiset() == vstd::multiset::Multiset::<ValueV>::empty(),
{
    vstd::seq_lib::to_multiset_len(Seq::<ValueV>::empty());
    vstd::multiset::lemma_multiset_empty_len(Seq::<ValueV>::empty().to_multiset());
}

proof fn lemma_sort_ints(t: TapeV, xs: Seq<ValueV>, i: int, acc: Seq<ValueV>)
    requires
        all_ints(xs),
        all_ints(acc),
        ints_sorted(acc),
        0 <= i <= xs.len(),
    ensures
        sort_from(t, xs, i, acc).0 == t,
        sort_from(t, xs, i, acc).1 is Ok,
        all_ints(sort_from(t, xs, i, acc).1->Ok_0),
        ints_sorted(sort_from(t, xs, i, acc).1->Ok_0),
        sort_from(t, xs, i, acc).1->Ok_0.to_multiset() == acc.to_multiset().add(xs.skip(i).to_multiset()),
    decreases xs.len() - i,
{
    broadcast use vstd::multiset::group_multiset_axioms;
    if i >= xs.len() {
        assert(xs.skip(i) =~= Seq::<ValueV>::empty());
        assert(acc.to_multiset().add(Seq::<ValueV>::empty().to_multiset()) =~= acc.to_multiset()) by {
            vstd::seq_lib::lemma_multiset_commutative(acc, Seq::<ValueV>::empty());
            assert(acc + Seq::<ValueV>::empty() =~= acc);
        }
    } else {
        lemma_insert_ints(t, acc, xs[i], acc.len() as int);
        let a = insert_s(t, acc, xs[i], acc.len() as int).1->Ok_0;
        lemma_sort_ints(t, xs, i + 1, a);
        assert(xs.skip(i) =~= seq![xs[i]] + xs.skip(i + 1));
        vstd::seq_lib::lemma_multiset_commutative(seq![xs[i]], xs.skip(i + 1));
        assert(seq![xs[i]].to_multiset() =~= vstd::multiset::Multiset::<ValueV>::empty().insert(xs[i])) by {
            assert(seq![xs[i]] =~= Seq::<ValueV>::empty().push(xs[i]));
            vstd::seq_lib::to_multiset_build(Seq::<ValueV>::empty(), xs[i]);
            lemma_empty_multiset();
        }
        assert(acc.to_multiset().insert(xs[i]).add(xs.skip(i + 1).to_multiset()) =~= acc.to_multiset().add(
            xs.skip(i).to_multiset(),
        ));
    }
}

/// `sorter` of whole numbers gives them in ascending order, the same numbers as many
/// times each, and asks nothing of the host.
pub proof fn law_sort_whole_numbers(t: TapeV, xs: Seq<ValueV>)
    requires
        all_ints(xs),
    ensures
        sort_from(t, xs, 0, Seq::empty()).0 == t,
        sort_from(t, xs, 0, Seq::empty()).1 is Ok,
        ints_sorted(sort_from(t, xs, 0, Seq::empty()).1->Ok_0),
        sort_from(t, xs, 0, Seq::empty()).1->Ok_0.to_multiset() == xs.to_multiset(),
{
    broadcast use vstd::multiset::group_multiset_axioms;
    lemma_sort_ints(t, xs, 0, Seq::empty());
    assert(xs.skip(0) =~= xs);
    lemma_empty_multiset();
    assert(vstd::multiset::Multiset::<ValueV>::empty().add(xs.to_multiset()) =~= xs.to_multiset());
}

// ── statements ──

proof fn lemma_respond(f: nat, t: TapeV, st: StateV, env: Frames, a: Seq<char>)
    requires
        f >= 2,
    ensures
        exec_s(f, t, st, env, StmtV::Respond { value: ExprV::Str(a), line: 0 }) == (
            t,
            with_response(st, Some(a)),
            env,
            Ok::<Option<crate::semantics::SignalV>, HaltV>(None),
        ),
{
    let g = (f - 1) as nat;
    assert(crate::semantics::eval_s(g, t, st, env, ExprV::Str(a)) == (t, st, Ok::<ValueV, HaltV>(ValueV::Str(a))));
}

/// `Svar med:` twice in a row: the last reply is the one kept, whatever came before.
pub proof fn law_last_reply_wins(f: nat, t: TapeV, st: StateV, env: Frames, a: Seq<char>, b: Seq<char>)
    requires
        f >= 5,
    ensures
        block_s(
            f,
            t,
            st,
            env,
            seq![StmtV::Respond { value: ExprV::Str(a), line: 0 }, StmtV::Respond { value: ExprV::Str(b), line: 0 }],
            0,
        ) == (t, with_response(st, Some(b)), env, Ok::<Option<crate::semantics::SignalV>, HaltV>(None)),
{
    let ss = seq![StmtV::Respond { value: ExprV::Str(a), line: 0 }, StmtV::Respond { value: ExprV::Str(b), line: 0 }];
    let g = (f - 1) as nat;
    let h = (g - 1) as nat;
    let s1 = with_response(st, Some(a));
    lemma_respond(g, t, st, env, a);
    lemma_respond(h, t, s1, env, b);
    assert(with_response(s1, Some(b)) == with_response(st, Some(b)));
    assert(block_s(h, t, with_response(st, Some(b)), env, ss, 2) == (t, with_response(st, Some(b)), env, Ok::<Option<crate::semantics::SignalV>, HaltV>(None)));
    assert(block_s(g, t, s1, env, ss, 1) == block_s(h, t, with_response(st, Some(b)), env, ss, 2));
}

/// An error raised in `Prøv …` is caught by `Ver ikkje redd:`, which runs in a scope
/// of its own where `feilen` holds the message.
pub proof fn law_catch_sees_message(f: nat, t: TapeV, st: StateV, env: Frames, m: Seq<char>, catch_body: Seq<StmtV>)
    requires
        f >= 4,
        env.len() > 0,
    ensures
        ({
            let (t2, s2, e3, r2) = block_s((f - 1) as nat, t, st, env_set(env_push(env), "feilen"@, ValueV::Str(m)), catch_body, 0);
            exec_s(
                f,
                t,
                st,
                env,
                StmtV::TryCatch {
                    try_body: seq![StmtV::Raise { value: ExprV::Str(m), line: 0 }],
                    catch_body,
                    line: 0,
                },
            ) == match r2 {
                Err(h) => (t2, s2, e3, Err(h)),
                Ok(sig) => (t2, s2, env_pop(e3), Ok(sig)),
            }
        }),
{
    reveal_strlit("");
    let g = (f - 1) as nat;
    let tb = seq![StmtV::Raise { value: ExprV::Str(m), line: 0 }];
    let e0 = env_push(env);
    let h = (g - 1) as nat;
    assert(""@ + m + ""@ =~= m);
    assert(exec_s(h, t, st, e0, tb[0]) == (t, st, e0, Err::<Option<crate::semantics::SignalV>, HaltV>(HaltV::Error(m))));
    assert(block_s(g, t, st, e0, tb, 0) == (t, st, e0, Err::<Option<crate::semantics::SignalV>, HaltV>(HaltV::Error(m))));
    assert(env_pop(e0) =~= env);
}

// ── splitting and joining ──

/// The pieces with `sep` between each two.
pub open spec fn joined(ps: Seq<Seq<char>>, sep: Seq<char>) -> Seq<char>
    decreases ps.len(),
{
    if ps.len() == 0 {
        Seq::empty()
    } else if ps.len() == 1 {
        ps[0]
    } else {
        joined(ps.drop_last(), sep) + sep + ps.last()
    }
}

proof fn lemma_joined_push(ps: Seq<Seq<char>>, sep: Seq<char>, x: Seq<char>)
    ensures
        joined(ps.push(x), sep) == if ps.len() == 0 { x } else { joined(ps, sep) + sep + x },
{
    assert(ps.push(x).drop_last() =~= ps);
}

proof fn lemma_join_from(t: TapeV, ps: Seq<Seq<char>>, i: int, sep: Seq<char>)
    requires
        0 <= i <= ps.len(),
    ensures
        join_from(t, texts_of(ps), i, sep, joined(ps.take(i), sep)) == (t, Ok::<Seq<char>, HaltV>(joined(ps, sep))),
    decreases ps.len() - i,
{
    if i == ps.len() {
        assert(ps.take(i) =~= ps);
    } else {
        assert(texts_of(ps)[i] == ValueV::Str(ps[i]));
        assert(ps.take(i + 1) =~= ps.take(i).push(ps[i]));
        lemma_joined_push(ps.take(i), sep, ps[i]);
        if i == 0 {
            assert(joined(ps.take(0), sep) =~= Seq::<char>::empty());
            assert(Seq::<char>::empty() + Seq::<char>::empty() + ps[0] =~= ps[0]);
        }
        lemma_join_from(t, ps, i + 1, sep);
    }
}

proof fn lemma_split_joined(s: Seq<char>, sep: Seq<char>, start: int, i: int, acc: Seq<Seq<char>>)
    requires
        sep.len() > 0,
        0 <= start <= i <= s.len(),
    ensures
        joined(split_from(s, sep, start, i, acc), sep) == joined(acc.push(s.subrange(start, s.len() as int)), sep),
    decreases s.len() - i,
{
    if i + sep.len() > s.len() {
    } else if occurs_at(s, sep, i) {
        let m = sep.len() as int;
        let a1 = acc.push(s.subrange(start, i));
        lemma_split_joined(s, sep, i + m, i + m, a1);
        lemma_joined_push(a1, sep, s.subrange(i + m, s.len() as int));
        lemma_joined_push(acc, sep, s.subrange(start, i));
        lemma_joined_push(acc, sep, s.subrange(start, s.len() as int));
        assert(s.subrange(i, i + m) == sep);
        assert(s.subrange(start, i) + sep + s.subrange(i + m, s.len() as int) =~= s.subrange(start, s.len() as int));
        if acc.len() > 0 {
            assert(joined(acc, sep) + sep + s.subrange(start, i) + sep + s.subrange(i + m, s.len() as int) =~= joined(acc, sep)
                + sep + s.subrange(start, s.len() as int));
        }
    } else {
        lemma_split_joined(s, sep, start, i + 1, acc);
    }
}

proof fn lemma_joined_chars(s: Seq<char>, k: int)
    requires
        0 <= k <= s.len(),
    ensures
        joined(seq![Seq::<char>::empty()] + Seq::new(k as nat, |j: int| seq![s[j]]), Seq::empty()) == s.take(k),
    decreases k,
{
    let q = seq![Seq::<char>::empty()] + Seq::new(k as nat, |j: int| seq![s[j]]);
    if k == 0 {
        assert(q =~= seq![Seq::<char>::empty()]);
        assert(s.take(0) =~= Seq::<char>::empty());
    } else {
        let p = seq![Seq::<char>::empty()] + Seq::new((k - 1) as nat, |j: int| seq![s[j]]);
        lemma_joined_chars(s, k - 1);
        assert(q =~= p.push(seq![s[k - 1]]));
        lemma_joined_push(p, Seq::empty(), seq![s[k - 1]]);
        assert(s.take(k - 1) + Seq::<char>::empty() + seq![s[k - 1]] =~= s.take(k));
    }
}

/// The pieces that `split_s` gives, joined again with the separator, make the text.
proof fn lemma_split_then_joined(s: Seq<char>, sep: Seq<char>)
    ensures
        joined(split_s(s, sep), sep) == s,
{
    if sep.len() == 0 {
        let q = seq![Seq::<char>::empty()] + Seq::new(s.len(), |j: int| seq![s[j]]);
        assert(sep =~= Seq::<char>::empty());
        lemma_joined_chars(s, s.len() as int);
        assert(split_s(s, sep) =~= q.push(Seq::empty()));
        lemma_joined_push(q, sep, Seq::empty());
        assert(s.take(s.len() as int) + sep + Seq::<char>::empty() =~= s);
    } else {
        lemma_split_joined(s, sep, 0, 0, Seq::empty());
        lemma_joined_push(Seq::empty(), sep, s.subrange(0, s.len() as int));
        assert(s.subrange(0, s.len() as int) =~= s);
    }
}

/// Joining what `del opp` cut out of a text, with the same separator, gives the text
/// back, for every separator (the empty one too), and asks nothing of the host.
pub proof fn law_split_then_join(t: TapeV, s: Seq<char>, sep: Seq<char>)
    ensures
        join_from(t, texts_of(split_s(s, sep)), 0, sep, Seq::empty()) == (t, Ok::<Seq<char>, HaltV>(s)),
{
    lemma_split_then_joined(s, sep);
    let ps = split_s(s, sep);
    lemma_join_from(t, ps, 0, sep);
    assert(joined(ps.take(0), sep) =~= Seq::<char>::empty());
}

// ── names ──

/// `lat x vera …` binds the value in the innermost scope, and reading `x` right
/// after gives it back.
pub proof fn law_let_then_read(f: nat, t: TapeV, st: StateV, env: Frames, name: Seq<char>, n: i64)
    requires
        f >= 2,
        env.len() > 0,
    ensures
        exec_s(f, t, st, env, StmtV::Assign { name, value: ExprV::Int(n), line: 0 }) == (
            t,
            st,
            env_set(env, name, ValueV::Int(n)),
            Ok::<Option<crate::semantics::SignalV>, HaltV>(None),
        ),
        crate::semantics::eval_s(1, t, st, env_set(env, name, ValueV::Int(n)), ExprV::Var(name)) == (
            t,
            st,
            Ok::<ValueV, HaltV>(ValueV::Int(n)),
        ),
{
    let g = (f - 1) as nat;
    assert(crate::semantics::eval_s(g, t, st, env, ExprV::Int(n)) == (t, st, Ok::<ValueV, HaltV>(ValueV::Int(n))));
    crate::scope::law_set_then_get(env, name, ValueV::Int(n));
}

// ── the order of texts ──

/// `a` comes before `b` in dictionary order: up to some place they agree, and there
/// `a` ends while `b` goes on, or `a` has the character with the smaller code point.
pub open spec fn lex_before(a: Seq<char>, b: Seq<char>) -> bool {
    exists|k: int|
        0 <= k <= a.len() && k <= b.len() && #[trigger] a.take(k) == b.take(k) && ((k == a.len() && k < b.len())
            || (k < a.len() && k < b.len() && (a[k] as int) < (b[k] as int)))
}

proof fn lemma_lex_before_step(a: Seq<char>, b: Seq<char>)
    requires
        a.len() > 0,
        b.len() > 0,
        a[0] == b[0],
    ensures
        lex_before(a, b) == lex_before(a.drop_first(), b.drop_first()),
{
    let a1 = a.drop_first();
    let b1 = b.drop_first();
    if lex_before(a, b) {
        let k = choose|k: int|
            0 <= k <= a.len() && k <= b.len() && #[trigger] a.take(k) == b.take(k) && ((k == a.len() && k < b.len())
                || (k < a.len() && k < b.len() && (a[k] as int) < (b[k] as int)));
        if k == 0 {
            assert(false);
        }
        assert(a1.take(k - 1) =~= a.take(k).drop_first());
        assert(b1.take(k - 1) =~= b.take(k).drop_first());
        assert(a1.take(k - 1) == b1.take(k - 1));
    }
    if lex_before(a1, b1) {
        let k = choose|k: int|
            0 <= k <= a1.len() && k <= b1.len() && #[trigger] a1.take(k) == b1.take(k) && ((k == a1.len() && k < b1.len())
                || (k < a1.len() && k < b1.len() && (a1[k] as int) < (b1[k] as int)));
        assert(a.take(k + 1) =~= seq![a[0]] + a1.take(k));
        assert(b.take(k + 1) =~= seq![b[0]] + b1.take(k));
        assert(a.take(k + 1) == b.take(k + 1));
    }
}

proof fn lemma_lex_before_first(a: Seq<char>, b: Seq<char>)
    requires
        a.len() == 0 || b.len() == 0 || a[0] != b[0],
    ensures
        lex_before(a, b) == ((a.len() == 0 && b.len() > 0) || (a.len() > 0 && b.len() > 0 && (a[0] as int) < (b[0] as int))),
{
    if (a.len() == 0 && b.len() > 0) || (a.len() > 0 && b.len() > 0 && (a[0] as int) < (b[0] as int)) {
        assert(a.take(0) =~= b.take(0));
    }
    if lex_before(a, b) {
        let k = choose|k: int|
            0 <= k <= a.len() && k <= b.len() && #[trigger] a.take(k) == b.take(k) && ((k == a.len() && k < b.len())
                || (k < a.len() && k < b.len() && (a[k] as int) < (b[k] as int)));
        if k > 0 {
            assert(a.take(k)[0] == b.take(k)[0]);
        }
    }
}

/// Texts are ordered as in a dictionary, by code point: a text comes before every
/// longer text it begins, and otherwise the first place where two texts differ
/// decides, whatever their lengths.
pub proof fn law_text_order_is_lexicographic(a: Seq<char>, b: Seq<char>)
    ensures
        (text_order(a, b) == Order::Less) == lex_before(a, b),
        (text_order(a, b) == Order::Greater) == lex_before(b, a),
        (text_order(a, b) == Order::Equal) == (a == b),
    decreases a.len(),
{
    if a.len() > 0 && b.len() > 0 && a[0] == b[0] {
        law_text_order_is_lexicographic(a.drop_first(), b.drop_first());
        lemma_lex_before_step(a, b);
        lemma_lex_before_step(b, a);
        if a.drop_first() == b.drop_first() {
            assert(a =~= seq![a[0]] + a.drop_first());
            assert(b =~= seq![b[0]] + b.drop_first());
        }
        if a == b {
            assert(a.drop_first() =~= b.drop_first());
        }
    } else {
        lemma_lex_before_first(a, b);
        lemma_lex_before_first(b, a);
        if a.len() == 0 && b.len() == 0 {
            assert(a =~= b);
        }
        if a == b && a.len() > 0 {
            assert(a[0] == b[0]);
        }
    }
}

/// `er mindre enn` and `er større enn` on two texts answer whether the left text comes
/// before, or after, the right one in dictionary order, asking the host nothing.
pub proof fn law_texts_compare_as_in_a_dictionary(t: TapeV, a: Seq<char>, b: Seq<char>)
    ensures
        binop_s(t, BinOpKind::Lt, ValueV::Str(a), ValueV::Str(b)) == (t, Ok::<ValueV, HaltV>(ValueV::Bool(lex_before(a, b)))),
        binop_s(t, BinOpKind::Gt, ValueV::Str(a), ValueV::Str(b)) == (t, Ok::<ValueV, HaltV>(ValueV::Bool(lex_before(b, a)))),
{
    law_text_order_is_lexicographic(a, b);
}

// ── calls ──

/// No two of the names are the same.
pub open spec fn distinct_names(ps: Seq<Seq<char>>) -> bool {
    forall|a: int, b: int| 0 <= a < b < ps.len() ==> ps[a] != ps[b]
}

proof fn lemma_bind_params_from(env: Frames, ps: Seq<Seq<char>>, args: Seq<ValueV>, i: int)
    requires
        env.len() > 0,
        ps.len() == args.len(),
        distinct_names(ps),
        0 <= i <= ps.len(),
    ensures
        bind_params(env, ps, args, i).len() == env.len(),
        forall|k: int| i <= k < ps.len() ==> env_lookup(bind_params(env, ps, args, i), #[trigger] ps[k]) == Some(args[k]),
        forall|x: Seq<char>|
            (forall|k: int| i <= k < ps.len() ==> ps[k] != x) ==> env_lookup(bind_params(env, ps, args, i), x)
                == env_lookup(env, x),
    decreases ps.len() - i,
{
    if i < ps.len() {
        let e1 = env_set(env, ps[i], args[i]);
        assert(e1.len() == env.len());
        lemma_bind_params_from(e1, ps, args, i + 1);
        law_set_then_get(env, ps[i], args[i]);
        assert forall|x: Seq<char>| (forall|k: int| i <= k < ps.len() ==> ps[k] != x) implies env_lookup(
            bind_params(env, ps, args, i),
            x,
        ) == env_lookup(env, x) by {
            assert(ps[i] != x);
            law_set_keeps_others(env, ps[i], args[i], x);
        }
        assert forall|k: int| i <= k < ps.len() implies env_lookup(bind_params(env, ps, args, i), #[trigger] ps[k])
            == Some(args[k]) by {
            if k == i {
                assert forall|j: int| i + 1 <= j < ps.len() implies ps[j] != ps[i] by {
                    assert(ps[i] != ps[j]);
                }
            }
        }
    }
}

/// Binding the parameters of a call gives the first parameter the first argument,
/// the second the second, and so on, and leaves every other name as it was.
pub proof fn law_parameters_take_arguments_in_order(env: Frames, ps: Seq<Seq<char>>, args: Seq<ValueV>)
    requires
        env.len() > 0,
        ps.len() == args.len(),
        distinct_names(ps),
    ensures
        forall|k: int| 0 <= k < ps.len() ==> env_lookup(bind_params(env, ps, args, 0), #[trigger] ps[k]) == Some(args[k]),
        forall|x: Seq<char>|
            (forall|k: int| 0 <= k < ps.len() ==> ps[k] != x) ==> env_lookup(bind_params(env, ps, args, 0), x)
                == env_lookup(env, x),
{
    lemma_bind_params_from(env, ps, args, 0);
}

/// Calling a function of the program whose body gives back its `i`-th parameter
/// gives back the `i`-th argument of the call.
pub proof fn law_call_passes_arguments_in_order(
    f: nat,
    t: TapeV,
    st: StateV,
    name: Seq<char>,
    ps: Seq<Seq<char>>,
    args: Seq<ValueV>,
    i: int,
    line: nat,
)
    requires
        f >= 4,
        builtin_s(t, name, args) == (t, Ok::<Option<ValueV>, HaltV>(None)),
        lookup(st.globals, name) == Some(ValueV::Func { params: ps, body: seq![StmtV::Return { value: ExprV::Var(ps[i]), line }] }),
        ps.len() == args.len(),
        distinct_names(ps),
        0 <= i < ps.len(),
    ensures
        call_func_s(f, t, st, name, args) == (t, st, Ok::<ValueV, HaltV>(args[i])),
{
    let env = bind_params(env_fresh(), ps, args, 0);
    law_parameters_take_arguments_in_order(env_fresh(), ps, args);
    assert(env_lookup(env, ps[i]) == Some(args[i]));
    let g = (f - 1) as nat;
    let body = seq![StmtV::Return { value: ExprV::Var(ps[i]), line }];
    let h = (g - 1) as nat;
    assert(crate::semantics::eval_s((h - 1) as nat, t, st, env, ExprV::Var(ps[i])) == (t, st, Ok::<ValueV, HaltV>(args[i])));
    assert(exec_s(h, t, st, env, body[0]) == (t, st, env, Ok::<Option<SignalV>, HaltV>(Some(SignalV::Return(args[i])))));
    assert(block_s(g, t, st, env, body, 0) == (t, st, env, Ok::<Option<SignalV>, HaltV>(Some(SignalV::Return(args[i])))));
}

/// Calling a method whose body gives back its `i`-th parameter gives back the `i`-th
/// argument of the call.
pub proof fn law_method_call_passes_arguments_in_order(
    f: nat,
    t: TapeV,
    st: StateV,
    id: nat,
    class: Seq<char>,
    method: Seq<char>,
    args: Seq<ValueV>,
    ci: int,
    mi: int,
    i: int,
    line: nat,
)
    requires
        f >= 4,
        class_slot(st.classes, class) == ci,
        0 <= ci < st.classes.len(),
        method_slot(st.classes[ci].class.methods, method) == mi,
        0 <= mi < st.classes[ci].class.methods.len(),
        st.classes[ci].class.methods[mi].params.len() == args.len(),
        distinct_names(st.classes[ci].class.methods[mi].params),
        0 <= i < args.len(),
        st.classes[ci].class.methods[mi].body == seq![
            StmtV::Return { value: ExprV::Var(st.classes[ci].class.methods[mi].params[i]), line },
        ],
    ensures
        call_method_s(f, t, st, id, class, method, args) == (t, st, Ok::<ValueV, HaltV>(args[i])),
{
    let m = st.classes[ci].class.methods[mi];
    let ps = m.params;
    let env0 = env_set(env_fresh(), "sjølv"@, ValueV::Object { id, class });
    assert(env0.len() == 1);
    let env = bind_params(env0, ps, args, 0);
    law_parameters_take_arguments_in_order(env0, ps, args);
    assert(env_lookup(env, ps[i]) == Some(args[i]));
    let g = (f - 1) as nat;
    let h = (g - 1) as nat;
    assert(crate::semantics::eval_s((h - 1) as nat, t, st, env, ExprV::Var(ps[i])) == (t, st, Ok::<ValueV, HaltV>(args[i])));
    assert(exec_s(h, t, st, env, m.body[0]) == (t, st, env, Ok::<Option<SignalV>, HaltV>(Some(SignalV::Return(args[i])))));
    assert(block_s(g, t, st, env, m.body, 0) == (t, st, env, Ok::<Option<SignalV>, HaltV>(Some(SignalV::Return(args[i])))));
}

// ── the web server ──

/// The tape holds, from its cursor on, the header lines `ls` and then `end`.
pub open spec fn tape_holds_lines(t: TapeV, ls: Seq<Seq<char>>, end: Seq<char>) -> bool {
    &&& t.cursor + ls.len() < t.answers.len()
    &&& forall|k: int| 0 <= k < ls.len() ==> t.answers[t.cursor + k] == AnswerV::Text(#[trigger] ls[k])
    &&& t.answers[(t.cursor + ls.len()) as int] == AnswerV::Text(end)
}

/// Reading the header lines of a request, up to the first blank one, gives the body
/// the length that the last `Content-Length` header among them states; lines that
/// are not `Content-Length` headers change nothing, and with none the length is the
/// one it started from.
pub proof fn law_last_content_length_wins(f: nat, t: TapeV, cl: nat, ls: Seq<Seq<char>>, end: Seq<char>)
    requires
        f > ls.len(),
        forall|k: int| 0 <= k < ls.len() ==> !blank(#[trigger] ls[k]),
        blank(end),
        tape_holds_lines(t, ls, end),
    ensures
        headers_s(f, t, cl).0 == (TapeV { answers: t.answers, cursor: t.cursor + ls.len() + 1 }),
        (forall|k: int| 0 <= k < ls.len() ==> content_length(#[trigger] ls[k]) is None) ==> headers_s(f, t, cl).1
            == Ok::<nat, HaltV>(cl),
        forall|j: int|
            0 <= j < ls.len() && content_length(#[trigger] ls[j]) is Some && (forall|k: int|
                j < k < ls.len() ==> content_length(#[trigger] ls[k]) is None) ==> headers_s(f, t, cl).1 == Ok::<
                nat,
                HaltV,
            >(content_length(ls[j])->Some_0),
    decreases ls.len(),
{
    if ls.len() == 0 {
        assert(t.answers[t.cursor as int] == AnswerV::Text(end));
    } else {
        assert(t.answers[t.cursor as int] == AnswerV::Text(ls[0]));
        let t1 = TapeV { answers: t.answers, cursor: t.cursor + 1 };
        let rest = ls.drop_first();
        let cl1 = match content_length(ls[0]) {
            Some(n) => n,
            None => cl,
        };
        assert forall|k: int| 0 <= k < rest.len() implies t1.answers[t1.cursor + k] == AnswerV::Text(#[trigger] rest[k]) by {
            assert(ls[k + 1] == rest[k]);
        }
        assert(t1.answers[(t1.cursor + rest.len()) as int] == AnswerV::Text(end));
        assert forall|k: int| 0 <= k < rest.len() implies !blank(#[trigger] rest[k]) by {
            assert(ls[k + 1] == rest[k]);
        }
        law_last_content_length_wins((f - 1) as nat, t1, cl1, rest, end);
        assert(headers_s(f, t, cl) == headers_s((f - 1) as nat, t1, cl1));
        if forall|k: int| 0 <= k < ls.len() ==> content_length(#[trigger] ls[k]) is None {
            assert forall|k: int| 0 <= k < rest.len() implies content_length(#[trigger] rest[k]) is None by {
                assert(ls[k + 1] == rest[k]);
            }
        }
        assert forall|j: int|
            0 <= j < ls.len() && content_length(#[trigger] ls[j]) is Some && (forall|k: int|
                j < k < ls.len() ==> content_length(#[trigger] ls[k]) is None) implies headers_s(f, t, cl).1 == Ok::<
            nat,
            HaltV,
        >(content_length(ls[j])->Some_0) by {
            if j == 0 {
                assert forall|k: int| 0 <= k < rest.len() implies content_length(#[trigger] rest[k]) is None by {
                    assert(ls[k + 1] == rest[k]);
                }
            } else {
                assert(rest[j - 1] == ls[j]);
                assert forall|k: int| j - 1 < k < rest.len() implies content_length(#[trigger] rest[k]) is None by {
                    assert(ls[k + 1] == rest[k]);
                }
            }
        }
    }
}

// ── reading a line ──

proof fn lemma_strip_end(s: Seq<char>, c: char)
    ensures
        strip_end(s, c).len() <= s.len(),
        s.take(strip_end(s, c).len() as int) == strip_end(s, c),
        forall|k: int| strip_end(s, c).len() <= k < s.len() ==> s[k] == c,
        strip_end(s, c).len() == 0 || strip_end(s, c).last() != c,
    decreases s.len(),
{
    if s.len() > 0 && s.last() == c {
        lemma_strip_end(s.drop_last(), c);
        let r = strip_end(s, c);
        assert(s.take(r.len() as int) =~= s.drop_last().take(r.len() as int));
        assert forall|k: int| r.len() <= k < s.len() implies s[k] == c by {
            if k < s.len() - 1 {
                assert(s.drop_last()[k] == s[k]);
            }
        }
    } else {
        assert(s.take(s.len() as int) =~= s);
    }
}

proof fn lemma_exec_input(f: nat, t: TapeV, st: StateV, env: Frames, name: Seq<char>, ln: nat, line: Seq<char>)
    requires
        f >= 1,
        t.cursor < t.answers.len(),
        t.answers[t.cursor as int] == AnswerV::Text(line),
    ensures
        exec_s(f, t, st, env, StmtV::Input { name, line: ln }) == (
            TapeV { answers: t.answers, cursor: t.cursor + 1 },
            st,
            env_set(env, name, ValueV::Str(chomp_s(line))),
            Ok::<Option<SignalV>, HaltV>(None),
        ),
{
    let (t1, a) = ask_text_s(t, RequestV::ReadInput);
    assert(a == Ok::<Seq<char>, HaltV>(line));
}

proof fn lemma_chomp_ending(x: Seq<char>, ending: Seq<char>)
    requires
        ending == Seq::<char>::empty() || ending == seq!['\n'] || ending == seq!['\r', '\n'],
        x.len() == 0 || (x.last() != '\n' && x.last() != '\r'),
    ensures
        chomp_s(x + ending) == x,
{
    let line = x + ending;
    assert(strip_end(x, '\n') == x);
    assert(strip_end(x, '\r') == x);
    if ending.len() == 0 {
        assert(line =~= x);
    } else if ending.len() == 1 {
        assert(line.len() > 0 && line.last() == '\n');
        assert(line.drop_last() =~= x);
        assert(strip_end(line, '\n') == strip_end(line.drop_last(), '\n'));
    } else {
        let y = x + seq!['\r'];
        assert(line.len() > 0 && line.last() == '\n');
        assert(line.drop_last() =~= y);
        assert(strip_end(line, '\n') == strip_end(y, '\n'));
        assert(y.len() > 0 && y.last() == '\r');
        assert(strip_end(y, '\n') == y);
        assert(y.drop_last() =~= x);
        assert(strip_end(y, '\r') == strip_end(x, '\r'));
    }
}

/// `Kom med din x` stores the line it reads without its line ending: what is stored
/// begins the line, only line feeds and carriage returns follow it there, and it does
/// not end with a carriage return.
pub proof fn law_input_keeps_the_line_without_its_ending(
    f: nat,
    t: TapeV,
    st: StateV,
    env: Frames,
    name: Seq<char>,
    ln: nat,
    line: Seq<char>,
)
    requires
        f >= 1,
        env.len() > 0,
        t.cursor < t.answers.len(),
        t.answers[t.cursor as int] == AnswerV::Text(line),
    ensures
        ({
            let (t1, s1, e1, r) = exec_s(f, t, st, env, StmtV::Input { name, line: ln });
            &&& t1 == (TapeV { answers: t.answers, cursor: t.cursor + 1 })
            &&& s1 == st
            &&& r == Ok::<Option<SignalV>, HaltV>(None)
            &&& exists|x: Seq<char>|
                {
                    &&& #[trigger] env_lookup(e1, name) == Some(ValueV::Str(x))
                    &&& x.len() <= line.len()
                    &&& line.take(x.len() as int) == x
                    &&& forall|k: int| x.len() <= k < line.len() ==> line[k] == '\n' || line[k] == '\r'
                    &&& (x.len() == 0 || x.last() != '\r')
                }
        }),
{
    lemma_exec_input(f, t, st, env, name, ln, line);
    let m = strip_end(line, '\n');
    let x = strip_end(m, '\r');
    lemma_strip_end(line, '\n');
    lemma_strip_end(m, '\r');
    assert(line.take(x.len() as int) =~= m.take(x.len() as int));
    assert forall|k: int| x.len() <= k < line.len() implies line[k] == '\n' || line[k] == '\r' by {
        if k < m.len() {
            assert(line.take(m.len() as int)[k] == line[k]);
        }
    }
    law_set_then_get(env, name, ValueV::Str(x));
    let e1 = exec_s(f, t, st, env, StmtV::Input { name, line: ln }).2;
    assert(env_lookup(e1, name) == Some(ValueV::Str(x)));
}

/// A line that ends with a line feed, or a carriage return and a line feed, or with
/// neither, is stored by `Kom med din x` as the text before that ending.
pub proof fn law_input_drops_the_line_ending(
    f: nat,
    t: TapeV,
    st: StateV,
    env: Frames,
    name: Seq<char>,
    ln: nat,
    x: Seq<char>,
    ending: Seq<char>,
)
    requires
        f >= 1,
        env.len() > 0,
        ending == Seq::<char>::empty() || ending == seq!['\n'] || ending == seq!['\r', '\n'],
        x.len() == 0 || (x.last() != '\n' && x.last() != '\r'),
        t.cursor < t.answers.len(),
        t.answers[t.cursor as int] == AnswerV::Text(x + ending),
    ensures
        exec_s(f, t, st, env, StmtV::Input { name, line: ln }) == (
            TapeV { answers: t.answers, cursor: t.cursor + 1 },
            st,
            env_set(env, name, ValueV::Str(x)),
            Ok::<Option<SignalV>, HaltV>(None),
        ),
        env_lookup(env_set(env, name, ValueV::Str(x)), name) == Some(ValueV::Str(x)),
{
    let line = x + ending;
    lemma_exec_input(f, t, st, env, name, ln, line);
    lemma_chomp_ending(x, ending);
    law_set_then_get(env, name, ValueV::Str(x));
}

// ── joining texts with the built-ins ──

proof fn lemma_joined_nothing_between(ps: Seq<Seq<char>>)
    ensures
        joined(ps, Seq::empty()) == ps.flatten(),
    decreases ps.len(),
{
    if ps.len() == 0 {
    } else {
        let q = ps.drop_last();
        lemma_joined_nothing_between(q);
        assert(q.push(ps.last()) =~= ps);
        q.lemma_flatten_push(ps.last());
        if ps.len() == 1 {
            assert(q =~= Seq::<Seq<char>>::empty());
            assert(q.flatten() =~= Seq::<char>::empty());
            assert(Seq::<char>::empty() + ps[0] =~= ps[0]);
        } else {
            assert(joined(q, Seq::empty()) + Seq::<char>::empty() + ps.last() =~= q.flatten() + ps.last());
        }
    }
}

proof fn lemma_flatten_characters(s: Seq<char>, k: int)
    requires
        0 <= k <= s.len(),
    ensures
        Seq::new(k as nat, |j: int| seq![s[j]]).flatten() == s.take(k),
    decreases k,
{
    let q = Seq::new(k as nat, |j: int| seq![s[j]]);
    if k == 0 {
        assert(q =~= Seq::<Seq<char>>::empty());
        assert(s.take(0) =~= Seq::<char>::empty());
    } else {
        let p = Seq::new((k - 1) as nat, |j: int| seq![s[j]]);
        lemma_flatten_characters(s, k - 1);
        assert(q =~= p.push(seq![s[k - 1]]));
        p.lemma_flatten_push(seq![s[k - 1]]);
        assert(s.take(k - 1) + seq![s[k - 1]] =~= s.take(k));
    }
}

/// The names of the built-ins differ from one another.
proof fn lemma_builtin_names_differ()
    ensures
        "sett saman"@ != "lengd"@,
        "sett saman"@ != "heiltal"@,
        "sett saman"@ != "desimaltal"@,
        "sett saman"@ != "tekst"@,
        "sett saman"@ != "legg til"@,
        "sett saman"@ != "del frå"@,
        "sett saman"@ != "del opp"@,
        "del opp"@ != "lengd"@,
        "del opp"@ != "heiltal"@,
        "del opp"@ != "desimaltal"@,
        "del opp"@ != "tekst"@,
        "del opp"@ != "legg til"@,
        "del opp"@ != "del frå"@,
        "legg til"@ != "lengd"@,
        "legg til"@ != "heiltal"@,
        "legg til"@ != "desimaltal"@,
        "legg til"@ != "tekst"@,
        "del frå"@ != "lengd"@,
        "del frå"@ != "heiltal"@,
        "del frå"@ != "desimaltal"@,
        "del frå"@ != "tekst"@,
        "del frå"@ != "legg til"@,
        "kvart tal"@ != "lengd"@,
        "kvart tal"@ != "heiltal"@,
        "kvart tal"@ != "desimaltal"@,
        "kvart tal"@ != "tekst"@,
        "kvart tal"@ != "legg til"@,
        "kvart tal"@ != "del frå"@,
        "kvart tal"@ != "del opp"@,
        "kvart tal"@ != "sett saman"@,
        "kvart tal"@ != "sorter"@,
{
    reveal_strlit("lengd");
    reveal_strlit("heiltal");
    reveal_strlit("desimaltal");
    reveal_strlit("tekst");
    reveal_strlit("legg til");
    reveal_strlit("del frå");
    reveal_strlit("del opp");
    reveal_strlit("sett saman");
    reveal_strlit("sorter");
    reveal_strlit("kvart tal");
    assert("legg til"@[2] != "lengd"@[2]);
    assert("legg til"@[0] != "heiltal"@[0]);
    assert("legg til"@[0] != "desimaltal"@[0]);
    assert("legg til"@[0] != "tekst"@[0]);
    assert("del frå"@[0] != "lengd"@[0]);
    assert("del frå"@[0] != "heiltal"@[0]);
    assert("del frå"@[2] != "desimaltal"@[2]);
    assert("del frå"@[0] != "tekst"@[0]);
    assert("del frå"@[0] != "legg til"@[0]);
    assert("kvart tal"@[0] != "lengd"@[0]);
    assert("kvart tal"@[0] != "heiltal"@[0]);
    assert("kvart tal"@[0] != "desimaltal"@[0]);
    assert("kvart tal"@[0] != "tekst"@[0]);
    assert("kvart tal"@[0] != "legg til"@[0]);
    assert("kvart tal"@[0] != "del frå"@[0]);
    assert("kvart tal"@[0] != "del opp"@[0]);
    assert("kvart tal"@[0] != "sett saman"@[0]);
    assert("kvart tal"@[0] != "sorter"@[0]);
    assert("sett saman"@[0] != "lengd"@[0]);
    assert("sett saman"@[0] != "heiltal"@[0]);
    assert("sett saman"@[0] != "desimaltal"@[0]);
    assert("sett saman"@[0] != "tekst"@[0]);
    assert("sett saman"@[0] != "legg til"@[0]);
    assert("sett saman"@[0] != "del frå"@[0]);
    assert("sett saman"@[0] != "del opp"@[0]);
    assert("del opp"@[0] != "lengd"@[0]);
    assert("del opp"@[0] != "heiltal"@[0]);
    assert("del opp"@[2] != "desimaltal"@[2]);
    assert("del opp"@[0] != "tekst"@[0]);
    assert("del opp"@[0] != "legg til"@[0]);
    assert("del opp"@[4] != "del frå"@[4]);
}

/// `sett saman` with a list of texts and no separator gives the texts one after the
/// other with nothing between them, and asks nothing of the host.
pub proof fn law_join_puts_nothing_between(t: TapeV, ps: Seq<Seq<char>>)
    ensures
        builtin_s(t, "sett saman"@, seq![ValueV::List(texts_of(ps))]) == (t, Ok::<Option<ValueV>, HaltV>(
            Some(ValueV::Str(ps.flatten())),
        )),
{
    lemma_builtin_names_differ();
    lemma_join_from(t, ps, 0, Seq::empty());
    assert(joined(ps.take(0), Seq::<char>::empty()) =~= Seq::<char>::empty());
    lemma_joined_nothing_between(ps);
}

/// `del opp` with one text cuts it into its characters, and `sett saman` of those
/// pieces gives the text back.
pub proof fn law_characters_join_back(t: TapeV, s: Seq<char>)
    ensures
        builtin_s(t, "del opp"@, seq![ValueV::Str(s)]) == (t, Ok::<Option<ValueV>, HaltV>(
            Some(ValueV::List(char_texts(s))),
        )),
        char_texts(s).len() == s.len(),
        forall|k: int| 0 <= k < s.len() ==> #[trigger] char_texts(s)[k] == ValueV::Str(seq![s[k]]),
        builtin_s(t, "sett saman"@, seq![ValueV::List(char_texts(s))]) == (t, Ok::<Option<ValueV>, HaltV>(
            Some(ValueV::Str(s)),
        )),
{
    lemma_builtin_names_differ();
    let ps = Seq::new(s.len(), |j: int| seq![s[j]]);
    assert(char_texts(s) =~= texts_of(ps));
    law_join_puts_nothing_between(t, ps);
    lemma_flatten_characters(s, s.len() as int);
    assert(s.take(s.len() as int) =~= s);
}

/// `del opp` with a text and a separator, then `sett saman` of the pieces with the
/// same separator, gives the text back, for every separator.
pub proof fn law_split_then_join_built_ins(t: TapeV, s: Seq<char>, sep: Seq<char>)
    ensures
        builtin_s(t, "del opp"@, seq![ValueV::Str(s), ValueV::Str(sep)]) == (t, Ok::<Option<ValueV>, HaltV>(
            Some(ValueV::List(texts_of(split_s(s, sep)))),
        )),
        builtin_s(t, "sett saman"@, seq![ValueV::List(texts_of(split_s(s, sep))), ValueV::Str(sep)]) == (
            t,
            Ok::<Option<ValueV>, HaltV>(Some(ValueV::Str(s))),
        ),
{
    lemma_builtin_names_differ();
    law_split_then_join(t, s, sep);
}

// ── lists with the built-ins ──

/// `legg til` gives the list with the value added at its end, everything before it
/// kept in order.
pub proof fn law_append_adds_at_the_end(t: TapeV, xs: Seq<ValueV>, v: ValueV)
    ensures
        match builtin_s(t, "legg til"@, seq![ValueV::List(xs), v]) {
            (t1, Ok(Some(ValueV::List(ys)))) => t1 == t && ys.len() == xs.len() + 1 && ys[xs.len() as int] == v
                && forall|k: int| 0 <= k < xs.len() ==> ys[k] == xs[k],
            _ => false,
        },
{
    reveal_strlit("lengd");
    reveal_strlit("heiltal");
    reveal_strlit("desimaltal");
    reveal_strlit("tekst");
    reveal_strlit("legg til");
    lemma_builtin_names_differ();
}

/// `del frå` takes out the one element at the index (counted from the end when it is
/// negative) and keeps the others in order; an index outside the list is an error.
pub proof fn law_remove_takes_out_one(t: TapeV, xs: Seq<ValueV>, i: i64)
    ensures
        ({
            let idx = if i < 0 { xs.len() + i } else { i as int };
            match builtin_s(t, "del frå"@, seq![ValueV::List(xs), ValueV::Int(i)]) {
                (t1, Ok(Some(ValueV::List(ys)))) => t1 == t && 0 <= idx < xs.len() && ys.len() + 1 == xs.len()
                    && (forall|k: int| 0 <= k < idx ==> ys[k] == xs[k])
                    && (forall|k: int| idx <= k < ys.len() ==> ys[k] == xs[k + 1]),
                (t1, Err(_)) => t1 == t && !(0 <= idx < xs.len()),
                _ => false,
            }
        }),
{
    reveal_strlit("lengd");
    reveal_strlit("heiltal");
    reveal_strlit("desimaltal");
    reveal_strlit("tekst");
    reveal_strlit("legg til");
    reveal_strlit("del frå");
    lemma_builtin_names_differ();
}

/// `kvart tal(n)` gives the whole numbers from 0 up to but not including `n`, in
/// order (nothing when `n` is not above 0).
pub proof fn law_count_gives_the_numbers_below(t: TapeV, n: i64)
    ensures
        match builtin_s(t, "kvart tal"@, seq![ValueV::Int(n)]) {
            (t1, Ok(Some(ValueV::List(ys)))) => t1 == t && ys.len() == (if n > 0 { n as int } else { 0 })
                && forall|k: int| 0 <= k < ys.len() ==> ys[k] == ValueV::Int(k as i64),
            _ => false,
        },
{
    lemma_builtin_names_differ();
    reveal_strlit("sorter");
    reveal_strlit("kvart tal");
    assert("kvart tal"@ != "sorter"@);
}

/// `lengd` of a text counts its characters: as many as `del opp` cuts it into.
pub proof fn law_length_counts_characters(t: TapeV, s: Seq<char>)
    ensures
        builtin_s(t, "lengd"@, seq![ValueV::Str(s)]) == builtin_s(t, "lengd"@, seq![ValueV::List(char_texts(s))]),
{
}

/// `lengd` after `legg til` is one more than before.
pub proof fn law_append_grows_length_by_one(t: TapeV, xs: Seq<ValueV>, v: ValueV)
    requires
        xs.len() + 1 <= i64::MAX,
    ensures
        builtin_s(t, "lengd"@, seq![ValueV::List(xs.push(v))]) == (t, Ok::<Option<ValueV>, HaltV>(
            Some(ValueV::Int((xs.len() + 1) as i64)),
        )),
{
}

// ── whole-number arithmetic and lists ──

/// `og`, `utan` and `gongar` on two whole numbers give the sum, the difference and
/// the product whenever that fits in a whole number, and ask nothing of the host.
pub proof fn law_whole_number_arithmetic(t: TapeV, a: i64, b: i64)
    ensures
        i64::MIN <= a + b <= i64::MAX ==> binop_s(t, BinOpKind::Add, ValueV::Int(a), ValueV::Int(b)) == (t, Ok::<
            ValueV,
            HaltV,
        >(ValueV::Int((a + b) as i64))),
        i64::MIN <= a - b <= i64::MAX ==> binop_s(t, BinOpKind::Sub, ValueV::Int(a), ValueV::Int(b)) == (t, Ok::<
            ValueV,
            HaltV,
        >(ValueV::Int((a - b) as i64))),
        i64::MIN <= a * b <= i64::MAX ==> binop_s(t, BinOpKind::Mul, ValueV::Int(a), ValueV::Int(b)) == (t, Ok::<
            ValueV,
            HaltV,
        >(ValueV::Int((a * b) as i64))),
{
    let p: int = a * b;
    let r: int = 0x1_0000_0000_0000_0000int;
    if i64::MIN <= p <= i64::MAX {
        if p >= 0 {
            assert(p % r == p) by (nonlinear_arith)
                requires
                    0 <= p < r,
            ;
        } else {
            assert(p % r == p + r) by (nonlinear_arith)
                requires
                    -r <= p < 0,
            ;
        }
    }
}

/// `og` on two lists gives the first list's elements followed by the second's.
pub proof fn law_lists_join(t: TapeV, xs: Seq<ValueV>, ys: Seq<ValueV>)
    ensures
        match binop_s(t, BinOpKind::Add, ValueV::List(xs), ValueV::List(ys)) {
            (t1, Ok(ValueV::List(zs))) => t1 == t && zs.len() == xs.len() + ys.len() && (forall|k: int|
                0 <= k < xs.len() ==> zs[k] == xs[k]) && (forall|k: int| 0 <= k < ys.len() ==> zs[xs.len() + k] == ys[k]),
            _ => false,
        },
{
}

// ── printing ──

/// The text `Syng ut` prints for a value that needs no help from the host.
pub open spec fn plain_text(v: ValueV) -> Seq<char> {
    match v {
        ValueV::Str(s) => s,
        ValueV::Int(n) => int_text(n as int),
        ValueV::Bool(b) => if b { "ja"@ } else { "nei"@ },
        _ => Seq::empty(),
    }
}

/// `Syng ut: x` asks the host to print the text of the value of `x` (a text as it is,
/// a whole number in decimal digits, a truth value as `ja` or `nei`) and nothing else;
/// once the host has printed it, the statement is done and changes nothing.
pub proof fn law_print_sends_the_text(f: nat, t: TapeV, st: StateV, env: Frames, name: Seq<char>, v: ValueV, ln: nat)
    requires
        f >= 2,
        env_lookup(env, name) == Some(v),
        v is Str || v is Int || v is Bool,
    ensures
        t.cursor >= t.answers.len() ==> exec_s(f, t, st, env, StmtV::Print { value: ExprV::Var(name), line: ln }) == (
            t,
            st,
            env,
            Err::<Option<SignalV>, HaltV>(HaltV::Pending(RequestV::Print(plain_text(v)))),
        ),
        t.cursor < t.answers.len() && t.answers[t.cursor as int] == AnswerV::Done ==> exec_s(
            f,
            t,
            st,
            env,
            StmtV::Print { value: ExprV::Var(name), line: ln },
        ) == (TapeV { answers: t.answers, cursor: t.cursor + 1 }, st, env, Ok::<Option<SignalV>, HaltV>(None)),
{
    let g = (f - 1) as nat;
    assert(crate::semantics::eval_s(g, t, st, env, ExprV::Var(name)) == (t, st, Ok::<ValueV, HaltV>(v)));
    assert(show_s(t, v) == (t, Ok::<Seq<char>, HaltV>(plain_text(v))));
}

proof fn lemma_show_items(t: TapeV, ps: Seq<Seq<char>>, i: int)
    requires
        0 <= i <= ps.len(),
    ensures
        crate::show::show_items_s(t, texts_of(ps), i, "["@ + joined(ps.take(i), ", "@)) == (t, Ok::<Seq<char>, HaltV>(
            "["@ + joined(ps, ", "@),
        )),
    decreases ps.len() - i,
{
    reveal_strlit("");
    if i == ps.len() {
        assert(ps.take(i) =~= ps);
    } else {
        assert(texts_of(ps)[i] == ValueV::Str(ps[i]));
        assert(ps.take(i + 1) =~= ps.take(i).push(ps[i]));
        lemma_joined_push(ps.take(i), ", "@, ps[i]);
        if i == 0 {
            assert(joined(ps.take(0), ", "@) =~= Seq::<char>::empty());
            assert("["@ + Seq::<char>::empty() + ""@ + ps[0] =~= "["@ + ps[0]);
        } else {
            assert("["@ + joined(ps.take(i), ", "@) + ", "@ + ps[i] =~= "["@ + (joined(ps.take(i), ", "@) + ", "@ + ps[i]));
        }
        let acc = "["@ + joined(ps.take(i), ", "@);
        let acc1 = acc + (if i > 0 { ", "@ } else { ""@ }) + ps[i];
        assert(acc1 =~= "["@ + joined(ps.take(i + 1), ", "@));
        assert(show_s(t, texts_of(ps)[i]) == (t, Ok::<Seq<char>, HaltV>(ps[i])));
        lemma_show_items(t, ps, i + 1);
    }
}

/// A list of texts is printed as the texts with `, ` between each two, in square
/// brackets.
pub proof fn law_list_of_texts_shows_bracketed(t: TapeV, ps: Seq<Seq<char>>)
    ensures
        show_s(t, ValueV::List(texts_of(ps))) == (t, Ok::<Seq<char>, HaltV>("["@ + joined(ps, ", "@) + "]"@)),
{
    lemma_show_items(t, ps, 0);
    assert(joined(ps.take(0), ", "@) =~= Seq::<char>::empty());
    assert("["@ + Seq::<char>::empty() =~= "["@);
}

// ── serving a request ──

/// From its cursor on, the tape answers one connection: it was accepted, the
/// request line, a line ending the headers, and the body; no more answers follow.
pub open spec fn one_request(t: TapeV, line: Seq<char>, end: Seq<char>, kropp: Seq<char>) -> bool {
    &&& t.cursor + 4 == t.answers.len()
    &&& t.answers[t.cursor as int] == AnswerV::Done
    &&& t.answers[t.cursor + 1int] == AnswerV::Text(line)
    &&& t.answers[t.cursor + 2int] == AnswerV::Text(end)
    &&& t.answers[t.cursor + 3int] == AnswerV::Text(kropp)
}

proof fn lemma_serve_replies_with(
    f: nat,
    t: TapeV,
    st: StateV,
    env: Frames,
    line: Seq<char>,
    end: Seq<char>,
    kropp: Seq<char>,
    x: Seq<char>,
    v: Seq<char>,
)
    requires
        f >= 6,
        one_request(t, line, end, kropp),
        blank(end),
        env_lookup(
            env_set(
                env_set(
                    env_set(env_push(env), "metode"@, ValueV::Str(crate::semantics::first_or(words_s(line), 0, "GET"@))),
                    "vegen"@,
                    ValueV::Str(crate::semantics::first_or(words_s(line), 1, "/"@)),
                ),
                "kropp"@,
                ValueV::Str(kropp),
            ),
            x,
        ) == Some(ValueV::Str(v)),
    ensures
        serve_loop_s(f, t, st, env, seq![StmtV::Respond { value: ExprV::Var(x), line: 0 }]).3 == Err::<
            Option<SignalV>,
            HaltV,
        >(HaltV::Pending(RequestV::Send(http_text(v)))),
{
    let g = (f - 1) as nat;
    let body = seq![StmtV::Respond { value: ExprV::Var(x), line: 0 }];
    let t2 = TapeV { answers: t.answers, cursor: t.cursor + 2 };
    let t3 = TapeV { answers: t.answers, cursor: t.cursor + 3 };
    let t4 = TapeV { answers: t.answers, cursor: t.cursor + 4 };
    assert(headers_s(g, t2, 0) == (t3, Ok::<nat, HaltV>(0)));
    let parts = words_s(line);
    let e1 = env_set(
        env_set(
            env_set(env_push(env), "metode"@, ValueV::Str(crate::semantics::first_or(parts, 0, "GET"@))),
            "vegen"@,
            ValueV::Str(crate::semantics::first_or(parts, 1, "/"@)),
        ),
        "kropp"@,
        ValueV::Str(kropp),
    );
    let s0 = with_response(st, None);
    lemma_respond_with_var(g, t4, s0, e1, x, v);
    let s5 = with_response(s0, Some(v));
    assert(t4.cursor >= t4.answers.len());
    assert(reply_s(g, t4, s5, env_pop(e1), body).3 == Err::<Option<SignalV>, HaltV>(HaltV::Pending(RequestV::Send(http_text(v)))));
}

proof fn lemma_respond_with_var(g: nat, t: TapeV, st: StateV, env: Frames, x: Seq<char>, v: Seq<char>)
    requires
        g >= 4,
        env_lookup(env, x) == Some(ValueV::Str(v)),
    ensures
        block_s(g, t, st, env, seq![StmtV::Respond { value: ExprV::Var(x), line: 0 }], 0) == (
            t,
            with_response(st, Some(v)),
            env,
            Ok::<Option<SignalV>, HaltV>(None),
        ),
{
    let body = seq![StmtV::Respond { value: ExprV::Var(x), line: 0 }];
    let h = (g - 1) as nat;
    assert(crate::semantics::eval_s((h - 1) as nat, t, st, env, ExprV::Var(x)) == (t, st, Ok::<ValueV, HaltV>(ValueV::Str(v))));
    assert(exec_s(h, t, st, env, body[0]) == (t, with_response(st, Some(v)), env, Ok::<Option<SignalV>, HaltV>(None)));
    assert(block_s(h, t, with_response(st, Some(v)), env, body, 1) == (t, with_response(st, Some(v)), env, Ok::<Option<SignalV>, HaltV>(None)));
}

/// A handler sees the request it serves: `metode` holds the first word of the
/// request line, `vegen` the second, and `kropp` the body; so a handler that replies
/// with one of them sends back exactly that text in an HTTP response.
pub proof fn law_handler_sees_the_request(
    f: nat,
    t: TapeV,
    st: StateV,
    env: Frames,
    line: Seq<char>,
    end: Seq<char>,
    kropp: Seq<char>,
)
    requires
        f >= 6,
        one_request(t, line, end, kropp),
        blank(end),
        words_s(line).len() >= 2,
    ensures
        serve_loop_s(f, t, st, env, seq![StmtV::Respond { value: ExprV::Var("metode"@), line: 0 }]).3 == Err::<
            Option<SignalV>,
            HaltV,
        >(HaltV::Pending(RequestV::Send(http_text(words_s(line)[0])))),
        serve_loop_s(f, t, st, env, seq![StmtV::Respond { value: ExprV::Var("vegen"@), line: 0 }]).3 == Err::<
            Option<SignalV>,
            HaltV,
        >(HaltV::Pending(RequestV::Send(http_text(words_s(line)[1])))),
        serve_loop_s(f, t, st, env, seq![StmtV::Respond { value: ExprV::Var("kropp"@), line: 0 }]).3 == Err::<
            Option<SignalV>,
            HaltV,
        >(HaltV::Pending(RequestV::Send(http_text(kropp)))),
{
    reveal_strlit("metode");
    reveal_strlit("vegen");
    reveal_strlit("kropp");
    assert("metode"@[0] != "vegen"@[0]);
    assert("metode"@[0] != "kropp"@[0]);
    assert("vegen"@[0] != "kropp"@[0]);
    let parts = words_s(line);
    let e0 = env_push(env);
    let m = ValueV::Str(crate::semantics::first_or(parts, 0, "GET"@));
    let p = ValueV::Str(crate::semantics::first_or(parts, 1, "/"@));
    let e1 = env_set(e0, "metode"@, m);
    let e2 = env_set(e1, "vegen"@, p);
    let e3 = env_set(e2, "kropp"@, ValueV::Str(kropp));
    assert(e1.len() == e0.len() && e2.len() == e0.len());
    law_set_then_get(e0, "metode"@, m);
    law_set_keeps_others(e1, "vegen"@, p, "metode"@);
    law_set_keeps_others(e2, "kropp"@, ValueV::Str(kropp), "metode"@);
    law_set_then_get(e1, "vegen"@, p);
    law_set_keeps_others(e2, "kropp"@, ValueV::Str(kropp), "vegen"@);
    law_set_then_get(e2, "kropp"@, ValueV::Str(kropp));
    lemma_serve_replies_with(f, t, st, env, line, end, kropp, "metode"@, parts[0]);
    lemma_serve_replies_with(f, t, st, env, line, end, kropp, "vegen"@, parts[1]);
    lemma_serve_replies_with(f, t, st, env, line, end, kropp, "kropp"@, kropp);
}

// ── the words of a request line ──

proof fn lemma_words_run(s: Seq<char>, i: int, n: int, cur: Seq<char>, acc: Seq<Seq<char>>)
    requires
        0 <= i,
        0 <= n,
        i + n <= s.len(),
        forall|k: int| i <= k < i + n ==> !is_ws(#[trigger] s[k]),
    ensures
        words_from(s, i, cur, acc) == words_from(s, i + n, cur + s.subrange(i, i + n), acc),
    decreases n,
{
    if n == 0 {
        assert(cur + s.subrange(i, i) =~= cur);
    } else {
        lemma_words_run(s, i + 1, n - 1, cur.push(s[i]), acc);
        assert(cur.push(s[i]) + s.subrange(i + 1, i + n) =~= cur + s.subrange(i, i + n));
    }
}

/// A word: not empty, and without white space.
pub open spec fn is_word(w: Seq<char>) -> bool {
    w.len() > 0 && forall|k: int| 0 <= k < w.len() ==> !is_ws(#[trigger] w[k])
}

/// A request line of three words with a space between each two is cut into those
/// three words, in order.
pub proof fn law_request_line_words(m: Seq<char>, p: Seq<char>, v: Seq<char>)
    requires
        is_word(m),
        is_word(p),
        is_word(v),
    ensures
        words_s(m + " "@ + p + " "@ + v) == seq![m, p, v],
{
    reveal_strlit(" ");
    let s = m + " "@ + p + " "@ + v;
    let a = m.len() as int;
    let b = a + 1 + p.len();
    let e: Seq<char> = Seq::empty();
    let none: Seq<Seq<char>> = Seq::empty();
    assert(s.subrange(0, a) =~= m);
    assert(s.subrange(a + 1, b) =~= p);
    assert(s.subrange(b + 1, s.len() as int) =~= v);
    assert forall|k: int| 0 <= k < a implies !is_ws(#[trigger] s[k]) by {
        assert(s[k] == m[k]);
    }
    assert forall|k: int| a + 1 <= k < b implies !is_ws(#[trigger] s[k]) by {
        assert(s[k] == p[k - a - 1]);
    }
    assert forall|k: int| b + 1 <= k < s.len() implies !is_ws(#[trigger] s[k]) by {
        assert(s[k] == v[k - b - 1]);
    }
    assert(s[a] == ' ');
    assert(s[b] == ' ');
    assert(is_ws(' '));
    lemma_words_run(s, 0, a, e, none);
    assert(e + m =~= m);
    lemma_words_run(s, a + 1, p.len() as int, e, seq![m]);
    assert(e + p =~= p);
    assert(seq![m].push(p) =~= seq![m, p]);
    lemma_words_run(s, b + 1, v.len() as int, e, seq![m, p]);
    assert(e + v =~= v);
    assert(seq![m, p].push(v) =~= seq![m, p, v]);
}

// ── sorting texts ──

pub open spec fn all_texts(s: Seq<ValueV>) -> bool {
    forall|i: int| 0 <= i < s.len() ==> (#[trigger] s[i]) is Str
}

/// No text of the list comes, in dictionary order, before one earlier in it.
pub open spec fn texts_sorted(s: Seq<ValueV>) -> bool {
    forall|i: int, j: int| 0 <= i < j < s.len() ==> !lex_before((#[trigger] s[j])->Str_0, (#[trigger] s[i])->Str_0)
}

spec fn text_le(a: Seq<char>, b: Seq<char>) -> bool {
    text_order(a, b) != Order::Greater
}

spec fn texts_le_sorted(s: Seq<ValueV>) -> bool {
    forall|i: int, j: int| 0 <= i < j < s.len() ==> text_le((#[trigger] s[i])->Str_0, (#[trigger] s[j])->Str_0)
}

proof fn lemma_text_le_transitive(a: Seq<char>, b: Seq<char>, c: Seq<char>)
    requires
        text_le(a, b),
        text_le(b, c),
    ensures
        text_le(a, c),
    decreases a.len(),
{
    if a.len() > 0 && b.len() > 0 && c.len() > 0 && a[0] == b[0] && b[0] == c[0] {
        lemma_text_le_transitive(a.drop_first(), b.drop_first(), c.drop_first());
    }
}

proof fn lemma_insert_texts(t: TapeV, s: Seq<ValueV>, x: ValueV, j: int)
    requires
        all_texts(s),
        texts_le_sorted(s),
        x is Str,
        0 <= j <= s.len(),
        forall|k: int| j <= k < s.len() ==> text_order((#[trigger] s[k])->Str_0, x->Str_0) == Order::Greater,
    ensures
        insert_s(t, s, x, j).0 == t,
        insert_s(t, s, x, j).1 is Ok,
        all_texts(insert_s(t, s, x, j).1->Ok_0),
        texts_le_sorted(insert_s(t, s, x, j).1->Ok_0),
        insert_s(t, s, x, j).1->Ok_0.to_multiset() == s.to_multiset().insert(x),
    decreases j,
{
    if j == 0 {
        vstd::seq_lib::to_multiset_insert(s, 0, x);
        let r = s.insert(0, x);
        assert forall|i: int, k: int| 0 <= i < k < r.len() implies text_le((#[trigger] r[i])->Str_0, (#[trigger] r[k])->Str_0) by {
            if i == 0 {
                assert(r[k] == s[k - 1]);
                lemma_text_order_swap(s[k - 1]->Str_0, x->Str_0);
            } else {
                assert(r[i] == s[i - 1]);
                assert(r[k] == s[k - 1]);
            }
        }
        assert(all_texts(r));
    } else {
        let a = s[j - 1];
        if text_order(a->Str_0, x->Str_0) == Order::Greater {
            lemma_insert_texts(t, s, x, j - 1);
        } else {
            vstd::seq_lib::to_multiset_insert(s, j, x);
            let r = s.insert(j, x);
            assert forall|i: int, k: int| 0 <= i < k < r.len() implies text_le((#[trigger] r[i])->Str_0, (#[trigger] r[k])->Str_0) by {
                if k < j {
                    assert(r[i] == s[i] && r[k] == s[k]);
                } else if k == j {
                    assert(r[i] == s[i]);
                    if i < j - 1 {
                        lemma_text_le_transitive(s[i]->Str_0, s[j - 1]->Str_0, x->Str_0);
                    }
                } else if i < j {
                    assert(r[i] == s[i] && r[k] == s[k - 1]);
                } else if i == j {
                    assert(r[k] == s[k - 1]);
                    lemma_text_order_swap(s[k - 1]->Str_0, x->Str_0);
                } else {
                    assert(r[i] == s[i - 1] && r[k] == s[k - 1]);
                }
            }
            assert(all_texts(r));
        }
    }
}

proof fn lemma_sort_texts(t: TapeV, xs: Seq<ValueV>, i: int, acc: Seq<ValueV>)
    requires
        all_texts(xs),
        all_texts(acc),
        texts_le_sorted(acc),
        0 <= i <= xs.len(),
    ensures
        sort_from(t, xs, i, acc).0 == t,
        sort_from(t, xs, i, acc).1 is Ok,
        all_texts(sort_from(t, xs, i, acc).1->Ok_0),
        texts_le_sorted(sort_from(t, xs, i, acc).1->Ok_0),
        sort_from(t, xs, i, acc).1->Ok_0.to_multiset() == acc.to_multiset().add(xs.skip(i).to_multiset()),
    decreases xs.len() - i,
{
    broadcast use vstd::multiset::group_multiset_axioms;
    if i >= xs.len() {
        assert(xs.skip(i) =~= Seq::<ValueV>::empty());
        assert(acc.to_multiset().add(Seq::<ValueV>::empty().to_multiset()) =~= acc.to_multiset()) by {
            vstd::seq_lib::lemma_multiset_commutative(acc, Seq::<ValueV>::empty());
            assert(acc + Seq::<ValueV>::empty() =~= acc);
        }
    } else {
        lemma_insert_texts(t, acc, xs[i], acc.len() as int);
        let a = insert_s(t, acc, xs[i], acc.len() as int).1->Ok_0;
        lemma_sort_texts(t, xs, i + 1, a);
        assert(xs.skip(i) =~= seq![xs[i]] + xs.skip(i + 1));
        vstd::seq_lib::lemma_multiset_commutative(seq![xs[i]], xs.skip(i + 1));
        assert(seq![xs[i]].to_multiset() =~= vstd::multiset::Multiset::<ValueV>::empty().insert(xs[i])) by {
            assert(seq![xs[i]] =~= Seq::<ValueV>::empty().push(xs[i]));
            vstd::seq_lib::to_multiset_build(Seq::<ValueV>::empty(), xs[i]);
            lemma_empty_multiset();
        }
        assert(acc.to_multiset().insert(xs[i]).add(xs.skip(i + 1).to_multiset()) =~= acc.to_multiset().add(
            xs.skip(i).to_multiset(),
        ));
    }
}

/// `sorter` of texts gives them in dictionary order, the same texts as many times
/// each, and asks nothing of the host.
pub proof fn law_sort_texts(t: TapeV, xs: Seq<ValueV>)
    requires
        all_texts(xs),
    ensures
        sort_from(t, xs, 0, Seq::empty()).0 == t,
        sort_from(t, xs, 0, Seq::empty()).1 is Ok,
        texts_sorted(sort_from(t, xs, 0, Seq::empty()).1->Ok_0),
        sort_from(t, xs, 0, Seq::empty()).1->Ok_0.to_multiset() == xs.to_multiset(),
{
    broadcast use vstd::multiset::group_multiset_axioms;
    lemma_sort_texts(t, xs, 0, Seq::empty());
    assert(xs.skip(0) =~= xs);
    lemma_empty_multiset();
    assert(vstd::multiset::Multiset::<ValueV>::empty().add(xs.to_multiset()) =~= xs.to_multiset());
    let r = sort_from(t, xs, 0, Seq::empty()).1->Ok_0;
    assert forall|i: int, j: int| 0 <= i < j < r.len() implies !lex_before((#[trigger] r[j])->Str_0, (#[trigger] r[i])->Str_0) by {
        law_text_order_is_lexicographic(r[i]->Str_0, r[j]->Str_0);
    }
}

/// After the request line and the header lines `ls`, the server asks for a body of
/// the length that the last `Content-Length` header among them gives, and of length 0
/// when none of them is one.
pub proof fn law_body_length_comes_from_the_headers(
    f: nat,
    t: TapeV,
    st: StateV,
    env: Frames,
    body: Seq<StmtV>,
    line: Seq<char>,
    ls: Seq<Seq<char>>,
    end: Seq<char>,
)
    requires
        f > ls.len() + 2,
        t.cursor + 2 + ls.len() + 1 == t.answers.len(),
        t.answers[t.cursor as int] == AnswerV::Done,
        t.answers[t.cursor + 1int] == AnswerV::Text(line),
        tape_holds_lines(TapeV { answers: t.answers, cursor: t.cursor + 2 }, ls, end),
        forall|k: int| 0 <= k < ls.len() ==> !blank(#[trigger] ls[k]),
        blank(end),
    ensures
        (forall|k: int| 0 <= k < ls.len() ==> content_length(#[trigger] ls[k]) is None) ==> serve_loop_s(f, t, st, env, body).3
            == Err::<Option<SignalV>, HaltV>(HaltV::Pending(RequestV::ReadBody(0))),
        forall|j: int|
            0 <= j < ls.len() && content_length(#[trigger] ls[j]) is Some && (forall|k: int|
                j < k < ls.len() ==> content_length(#[trigger] ls[k]) is None) ==> serve_loop_s(f, t, st, env, body).3
                == Err::<Option<SignalV>, HaltV>(HaltV::Pending(RequestV::ReadBody(content_length(ls[j])->Some_0))),
{
    let g = (f - 1) as nat;
    let t2 = TapeV { answers: t.answers, cursor: t.cursor + 2 };
    law_last_content_length_wins(g, t2, 0, ls, end);
}

// ── loops ──

/// From its cursor on, the tape holds `m` plain acknowledgements and nothing more.
pub open spec fn acks_left(t: TapeV, m: int) -> bool {
    &&& t.cursor + m == t.answers.len()
    &&& forall|k: int| t.cursor <= k < t.answers.len() ==> t.answers[k] == AnswerV::Done
}

proof fn lemma_print_block(g: nat, t: TapeV, st: StateV, env: Frames, var: Seq<char>, v: ValueV, ln: nat)
    requires
        g >= 4,
        env_lookup(env, var) == Some(v),
        v is Str || v is Int || v is Bool,
    ensures
        t.cursor >= t.answers.len() ==> block_s(g, t, st, env, seq![StmtV::Print { value: ExprV::Var(var), line: ln }], 0).3
            == Err::<Option<SignalV>, HaltV>(HaltV::Pending(RequestV::Print(plain_text(v)))),
        t.cursor < t.answers.len() && t.answers[t.cursor as int] == AnswerV::Done ==> block_s(
            g,
            t,
            st,
            env,
            seq![StmtV::Print { value: ExprV::Var(var), line: ln }],
            0,
        ) == (TapeV { answers: t.answers, cursor: t.cursor + 1 }, st, env, Ok::<Option<SignalV>, HaltV>(None)),
{
    let body = seq![StmtV::Print { value: ExprV::Var(var), line: ln }];
    let h = (g - 1) as nat;
    law_print_sends_the_text(h, t, st, env, var, v, ln);
    let t1 = TapeV { answers: t.answers, cursor: t.cursor + 1 };
    assert(block_s(h, t1, st, env, body, 1) == (t1, st, env, Ok::<Option<SignalV>, HaltV>(None)));
}

proof fn lemma_each_prints(f: nat, t: TapeV, st: StateV, env: Frames, var: Seq<char>, xs: Seq<ValueV>, i: int, m: int, ln: nat)
    requires
        all_texts(xs),
        env.len() > 0,
        0 <= i <= xs.len(),
        f >= xs.len() - i + 5,
        0 <= m,
        acks_left(t, m),
    ensures
        m < xs.len() - i ==> crate::semantics::each_s(f, t, st, env, var, xs, i, seq![StmtV::Print { value: ExprV::Var(var), line: ln }]).3
            == Err::<Option<SignalV>, HaltV>(HaltV::Pending(RequestV::Print(xs[i + m]->Str_0))),
        m >= xs.len() - i ==> crate::semantics::each_s(f, t, st, env, var, xs, i, seq![StmtV::Print { value: ExprV::Var(var), line: ln }]).3
            == Ok::<Option<SignalV>, HaltV>(None),
    decreases xs.len() - i,
{
    if i < xs.len() {
        let g = (f - 1) as nat;
        let e1 = env_set(env_push(env), var, xs[i]);
        law_set_then_get(env_push(env), var, xs[i]);
        assert(xs[i] is Str);
        lemma_print_block(g, t, st, e1, var, xs[i], ln);
        assert(plain_text(xs[i]) == xs[i]->Str_0);
        if m == 0 {
            assert(xs[i + 0] == xs[i]);
        } else {
            let t1 = TapeV { answers: t.answers, cursor: t.cursor + 1 };
            assert(t.answers[t.cursor as int] == AnswerV::Done);
            assert(env_pop(e1) =~= env);
            lemma_each_prints(g, t1, st, env, var, xs, i + 1, m - 1, ln);
            assert(xs[(i + 1) + (m - 1)] == xs[i + m]);
        }
    }
}

/// `kvar x i l:` with `Syng ut: x` as its body prints the texts of the list `l` one
/// by one, in their order: once the host has printed `m` of them, the next text it is
/// asked to print is the one at place `m`, and when all are printed the loop is done.
pub proof fn law_for_each_goes_through_the_list_in_order(
    f: nat,
    t: TapeV,
    st: StateV,
    env: Frames,
    var: Seq<char>,
    list: Seq<char>,
    xs: Seq<ValueV>,
    m: int,
    ln: nat,
)
    requires
        all_texts(xs),
        env.len() > 0,
        env_lookup(env, list) == Some(ValueV::List(xs)),
        f >= xs.len() + 7,
        0 <= m,
        acks_left(t, m),
    ensures
        ({
            let s = StmtV::ForEach {
                var,
                iterable: ExprV::Var(list),
                body: seq![StmtV::Print { value: ExprV::Var(var), line: ln }],
                line: ln,
            };
            &&& m < xs.len() ==> exec_s(f, t, st, env, s).3 == Err::<Option<SignalV>, HaltV>(
                HaltV::Pending(RequestV::Print(xs[m]->Str_0)),
            )
            &&& m >= xs.len() ==> exec_s(f, t, st, env, s).3 == Ok::<Option<SignalV>, HaltV>(None)
        }),
{
    let g = (f - 1) as nat;
    assert(crate::semantics::eval_s(g, t, st, env, ExprV::Var(list)) == (t, st, Ok::<ValueV, HaltV>(ValueV::List(xs))));
    lemma_each_prints(g, t, st, env, var, xs, 0, m, ln);
}

proof fn lemma_count_prints(f: nat, t: TapeV, st: StateV, env: Frames, var: Seq<char>, n: i64, i: i64, m: int, ln: nat)
    requires
        env.len() > 0,
        0 <= i,
        f >= 5,
        f + i >= n + 5,
        0 <= m,
        acks_left(t, m),
    ensures
        m < n - i ==> crate::semantics::count_s(f, t, st, env, var, n, i, seq![StmtV::Print { value: ExprV::Var(var), line: ln }]).3
            == Err::<Option<SignalV>, HaltV>(HaltV::Pending(RequestV::Print(int_text(i + m)))),
        m >= n - i ==> crate::semantics::count_s(f, t, st, env, var, n, i, seq![StmtV::Print { value: ExprV::Var(var), line: ln }]).3
            == Ok::<Option<SignalV>, HaltV>(None),
    decreases n - i,
{
    if i < n {
        let g = (f - 1) as nat;
        let e1 = env_set(env_push(env), var, ValueV::Int(i));
        law_set_then_get(env_push(env), var, ValueV::Int(i));
        lemma_print_block(g, t, st, e1, var, ValueV::Int(i), ln);
        if m > 0 {
            let t1 = TapeV { answers: t.answers, cursor: t.cursor + 1 };
            assert(t.answers[t.cursor as int] == AnswerV::Done);
            assert(env_pop(e1) =~= env);
            lemma_count_prints(g, t1, st, env, var, n, (i + 1) as i64, m - 1, ln);
        }
    }
}

/// `Topp attom toppar n som i gongar:` with `Syng ut: i` as its body prints the
/// numbers 0, 1, …, n − 1 in turn: once the host has printed `m` of them, the next it
/// is asked to print is `m`, and after `n` of them (none when `n` is not above 0) the
/// loop is done.
pub proof fn law_count_loop_counts_up_from_zero(
    f: nat,
    t: TapeV,
    st: StateV,
    env: Frames,
    var: Seq<char>,
    n: i64,
    m: int,
    ln: nat,
)
    requires
        env.len() > 0,
        f >= 7,
        f >= n + 7,
        0 <= m,
        acks_left(t, m),
    ensures
        ({
            let s = StmtV::CountLoop {
                count: ExprV::Int(n),
                var,
                body: seq![StmtV::Print { value: ExprV::Var(var), line: ln }],
                line: ln,
            };
            &&& m < n ==> exec_s(f, t, st, env, s).3 == Err::<Option<SignalV>, HaltV>(
                HaltV::Pending(RequestV::Print(int_text(m))),
            )
            &&& m >= n ==> exec_s(f, t, st, env, s).3 == Ok::<Option<SignalV>, HaltV>(None)
        }),
{
    let g = (f - 1) as nat;
    assert(crate::semantics::eval_s(g, t, st, env, ExprV::Int(n)) == (t, st, Ok::<ValueV, HaltV>(ValueV::Int(n))));
    lemma_count_prints(g, t, st, env, var, n, 0, m, ln);
}

// ── conditionals ──

/// `Du kjem ikkje utanom c: … Men om ikkje: …` runs the first branch when `c` is `ja`
/// and the second when it is `nei`; without a second branch, `nei` does nothing.
pub proof fn law_if_takes_the_branch_the_condition_picks(
    f: nat,
    t: TapeV,
    st: StateV,
    env: Frames,
    c: Seq<char>,
    b: bool,
    x: Seq<char>,
    vx: ValueV,
    y: Seq<char>,
    vy: ValueV,
    ln: nat,
)
    requires
        f >= 7,
        env.len() > 0,
        env_lookup(env, c) == Some(ValueV::Bool(b)),
        env_lookup(env, x) == Some(vx),
        env_lookup(env, y) == Some(vy),
        vx is Str || vx is Int || vx is Bool,
        vy is Str || vy is Int || vy is Bool,
        t.cursor >= t.answers.len(),
    ensures
        exec_s(
            f,
            t,
            st,
            env,
            StmtV::If {
                cond: ExprV::Var(c),
                then_body: seq![StmtV::Print { value: ExprV::Var(x), line: ln }],
                else_body: Some(seq![StmtV::Print { value: ExprV::Var(y), line: ln }]),
                line: ln,
            },
        ).3 == Err::<Option<SignalV>, HaltV>(HaltV::Pending(RequestV::Print(plain_text(if b { vx } else { vy })))),
        !b ==> exec_s(
            f,
            t,
            st,
            env,
            StmtV::If {
                cond: ExprV::Var(c),
                then_body: seq![StmtV::Print { value: ExprV::Var(x), line: ln }],
                else_body: None,
                line: ln,
            },
        ) == (t, st, env, Ok::<Option<SignalV>, HaltV>(None)),
{
    let g = (f - 1) as nat;
    assert(crate::semantics::eval_s(g, t, st, env, ExprV::Var(c)) == (t, st, Ok::<ValueV, HaltV>(ValueV::Bool(b))));
    law_push_keeps_names(env, x);
    law_push_keeps_names(env, y);
    lemma_print_block((g - 1) as nat, t, st, env_push(env), x, vx, ln);
    lemma_print_block((g - 1) as nat, t, st, env_push(env), y, vy, ln);
}

/// `Set vakt: c` lets the program go on, changing nothing, when `c` is `ja`, and stops
/// it with the error `Vakt broten: nei er ikkje sant` when `c` is `nei`.
pub proof fn law_guard_stops_only_on_nei(f: nat, t: TapeV, st: StateV, env: Frames, c: Seq<char>, b: bool, ln: nat)
    requires
        f >= 2,
        env_lookup(env, c) == Some(ValueV::Bool(b)),
    ensures
        exec_s(f, t, st, env, StmtV::Assert { cond: ExprV::Var(c), line: ln }) == if b {
            (t, st, env, Ok::<Option<SignalV>, HaltV>(None))
        } else {
            (t, st, env, Err::<Option<SignalV>, HaltV>(HaltV::Error("Vakt broten: nei er ikkje sant"@)))
        },
{
    let g = (f - 1) as nat;
    assert(crate::semantics::eval_s(g, t, st, env, ExprV::Var(c)) == (t, st, Ok::<ValueV, HaltV>(ValueV::Bool(b))));
    reveal_strlit("Vakt broten: ");
    reveal_strlit("nei");
    reveal_strlit(" er ikkje sant");
    reveal_strlit("Vakt broten: nei er ikkje sant");
    assert("Vakt broten: "@ + "nei"@ + " er ikkje sant"@ =~= "Vakt broten: nei er ikkje sant"@);
}

// ── reading whole numbers from text ──

proof fn lemma_trim_padded(a: Seq<char>, x: Seq<char>, b: Seq<char>)
    requires
        blank(a),
        blank(b),
        x.len() > 0,
        !is_ws(x[0]),
        !is_ws(x.last()),
    ensures
        trim_s(a + x + b) == x,
{
    let s = a + x + b;
    let lo = a.len() as int;
    let hi = lo + x.len();
    lemma_first_non_ws(s, 0);
    let f0 = first_non_ws(s, 0);
    assert(s[lo] == x[0]);
    if f0 < lo {
        assert(s[f0] == a[f0]);
    }
    assert(f0 == lo);
    lemma_end_non_ws(s, s.len() as int, lo);
    let e0 = end_non_ws(s, s.len() as int, lo);
    assert(s[hi - 1] == x.last());
    if e0 > hi {
        assert(s[e0 - 1] == b[e0 - 1 - hi]);
    }
    assert(e0 == hi);
    assert(s.subrange(lo, hi) =~= x);
}

/// `heiltal` reads a whole number written in decimal digits, with or without a minus
/// sign, whatever white space stands around it.
pub proof fn law_heiltal_ignores_surrounding_space(t: TapeV, n: i64, a: Seq<char>, b: Seq<char>)
    requires
        blank(a),
        blank(b),
    ensures
        builtin_s(t, "heiltal"@, seq![ValueV::Str(a + int_text(n as int) + b)]) == (t, Ok::<Option<ValueV>, HaltV>(
            Some(ValueV::Int(n)),
        )),
{
    reveal_strlit("heiltal");
    reveal_strlit("lengd");
    lemma_int_text(n as int);
    let x = int_text(n as int);
    assert(!is_ws(x[0]));
    assert(!is_ws(x[x.len() - 1]));
    lemma_trim_padded(a, x, b);
    law_number_text_round_trip(n);
}

} // verus!
