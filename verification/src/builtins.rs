//! The built-in functions: `lengd`, `heiltal`, `desimaltal`, `tekst`, `legg til`,
//! `del frå`, `del opp`, `sett saman`, `sorter` and `kvart tal`.
use vstd::prelude::*;
use crate::host::{halt_settled, settled, tape_kept};
use crate::host::{
    ask_bits_s, ask_int_s, ask_maybe_s, res_v, Answer, AnswerV, FloatOp, FloatOpV, Halt, HaltV,
    Request, RequestV, Tape, TapeV,
};
use crate::ops::{compare_s, compare_values};
use crate::show::{show, show_s};
use crate::strings::{parse_i64, parse_i64_s, split_chars, split_s, trim_chars, trim_s};
use crate::text::{chars_of, nat_text, push_nat_text, same_chars, string_of};
use crate::value::{
    clone_value, clone_values, index_msg, norm_index, normalize_idx, value_v, values_v, Order, Value,
    ValueV,
};

verus! {

pub open spec fn arity_err(name: Seq<char>, n: nat, got: nat) -> HaltV {
    HaltV::Error(name + ": forventar "@ + nat_text(n) + " argument, fekk "@ + nat_text(got))
}

/// An error whose message ends with the text of a value.
pub open spec fn err1_s(t: TapeV, pre: Seq<char>, v: ValueV) -> (TapeV, Result<Option<ValueV>, HaltV>) {
    let (t1, a) = show_s(t, v);
    match a {
        Ok(s) => (t1, Err(HaltV::Error(pre + s))),
        Err(h) => (t1, Err(h)),
    }
}

pub open spec fn plain_err(m: Seq<char>) -> HaltV {
    HaltV::Error(m)
}

/// `[0, 1, …, n-1]` (empty when `n` is not positive).
pub open spec fn count_list(n: int) -> Seq<ValueV> {
    Seq::new(if n > 0 { n as nat } else { 0 }, |i: int| ValueV::Int(i as i64))
}

/// Each character of a text as a text of its own.
pub open spec fn char_texts(s: Seq<char>) -> Seq<ValueV> {
    Seq::new(s.len(), |k: int| ValueV::Str(seq![s[k]]))
}

pub open spec fn texts_of(ps: Seq<Seq<char>>) -> Seq<ValueV> {
    Seq::new(ps.len(), |k: int| ValueV::Str(ps[k]))
}

/// `acc` followed by the texts of `xs[i..]`, with `sep` between any two of the list.
pub open spec fn join_from(t: TapeV, xs: Seq<ValueV>, i: int, sep: Seq<char>, acc: Seq<char>) -> (TapeV, Result<Seq<char>, HaltV>)
    decreases xs.len() - i,
{
    if i < 0 || i >= xs.len() {
        (t, Ok(acc))
    } else {
        let (t1, r) = show_s(t, xs[i]);
        match r {
            Ok(s) => join_from(t1, xs, i + 1, sep, acc + (if i > 0 { sep } else { Seq::empty() }) + s),
            Err(h) => (t1, Err(h)),
        }
    }
}

/// `x` put into the ordered `s` after the last of `s[..j]` that is not greater than it.
pub open spec fn insert_s(t: TapeV, s: Seq<ValueV>, x: ValueV, j: int) -> (TapeV, Result<Seq<ValueV>, HaltV>)
    decreases j,
{
    if j <= 0 || j > s.len() {
        (t, Ok(s.insert(0, x)))
    } else {
        let (t1, c) = compare_s(t, s[j - 1], x);
        match c {
            Err(h) => (t1, Err(h)),
            Ok(o) => if o == Order::Greater {
                insert_s(t1, s, x, j - 1)
            } else {
                (t1, Ok(s.insert(j, x)))
            },
        }
    }
}

/// Stable insertion sort of `xs[i..]` into the ordered `acc`.
pub open spec fn sort_from(t: TapeV, xs: Seq<ValueV>, i: int, acc: Seq<ValueV>) -> (TapeV, Result<Seq<ValueV>, HaltV>)
    decreases xs.len() - i,
{
    if i < 0 || i >= xs.len() {
        (t, Ok(acc))
    } else {
        let (t1, r) = insert_s(t, acc, xs[i], acc.len() as int);
        match r {
            Ok(a) => sort_from(t1, xs, i + 1, a),
            Err(h) => (t1, Err(h)),
        }
    }
}

pub open spec fn some_list(t: TapeV, r: Result<Seq<ValueV>, HaltV>) -> (TapeV, Result<Option<ValueV>, HaltV>) {
    match r {
        Ok(xs) => (t, Ok(Some(ValueV::List(xs)))),
        Err(h) => (t, Err(h)),
    }
}

pub open spec fn some_text(t: TapeV, r: Result<Seq<char>, HaltV>) -> (TapeV, Result<Option<ValueV>, HaltV>) {
    match r {
        Ok(s) => (t, Ok(Some(ValueV::Str(s)))),
        Err(h) => (t, Err(h)),
    }
}

pub open spec fn lengd_s(t: TapeV, v: ValueV) -> (TapeV, Result<Option<ValueV>, HaltV>) {
    match v {
        ValueV::List(xs) => (t, Ok(Some(ValueV::Int(xs.len() as i64)))),
        ValueV::Str(s) => (t, Ok(Some(ValueV::Int(s.len() as i64)))),
        _ => err1_s(t, "lengd: uforventa type "@, v),
    }
}

pub open spec fn heiltal_s(t: TapeV, v: ValueV) -> (TapeV, Result<Option<ValueV>, HaltV>) {
    match v {
        ValueV::Int(n) => (t, Ok(Some(ValueV::Int(n)))),
        ValueV::Float(b) => {
            let (t1, r) = ask_int_s(t, RequestV::Float(FloatOpV::ToInt(b)));
            match r {
                Ok(n) => (t1, Ok(Some(ValueV::Int(n)))),
                Err(h) => (t1, Err(h)),
            }
        },
        ValueV::Str(s) => match parse_i64_s(trim_s(s)) {
            Some(n) => (t, Ok(Some(ValueV::Int(n)))),
            None => (t, Err(plain_err("heiltal: kan ikkje konvertera «"@ + s + "»"@))),
        },
        ValueV::Bool(b) => (t, Ok(Some(ValueV::Int(if b { 1 } else { 0 })))),
        _ => err1_s(t, "heiltal: uforventa type "@, v),
    }
}

pub open spec fn desimaltal_s(t: TapeV, v: ValueV) -> (TapeV, Result<Option<ValueV>, HaltV>) {
    match v {
        ValueV::Int(n) => {
            let (t1, r) = ask_bits_s(t, RequestV::Float(FloatOpV::FromInt(n)));
            match r {
                Ok(b) => (t1, Ok(Some(ValueV::Float(b)))),
                Err(h) => (t1, Err(h)),
            }
        },
        ValueV::Float(b) => (t, Ok(Some(ValueV::Float(b)))),
        ValueV::Str(s) => {
            let (t1, r) = ask_maybe_s(t, RequestV::Float(FloatOpV::Parse(trim_s(s))), 2);
            match r {
                Ok(Ok(AnswerV::Bits(b))) => (t1, Ok(Some(ValueV::Float(b)))),
                Ok(Ok(_)) => (t1, Err(HaltV::Mismatch)),
                Ok(Err(_)) => (t1, Err(plain_err("desimaltal: kan ikkje konvertera «"@ + s + "»"@))),
                Err(h) => (t1, Err(h)),
            }
        },
        _ => err1_s(t, "desimaltal: uforventa type "@, v),
    }
}

pub open spec fn kvart_tal_s(t: TapeV, v: ValueV) -> (TapeV, Result<Option<ValueV>, HaltV>) {
    match v {
        ValueV::Int(n) => (t, Ok(Some(ValueV::List(count_list(n as int))))),
        ValueV::Float(b) => {
            let (t1, r) = ask_int_s(t, RequestV::Float(FloatOpV::ToInt(b)));
            match r {
                Ok(n) => (t1, Ok(Some(ValueV::List(count_list(n as int))))),
                Err(h) => (t1, Err(h)),
            }
        },
        _ => err1_s(t, "kvart_tal: forventar heiltal, fekk "@, v),
    }
}

/// What the built-in `name` gives for `args`; `None` when no built-in has that name.
pub open spec fn builtin_s(t: TapeV, name: Seq<char>, args: Seq<ValueV>) -> (TapeV, Result<Option<ValueV>, HaltV>) {
    let n = args.len();
    if name == "lengd"@ {
        if n != 1 { (t, Err(arity_err(name, 1, n))) } else { lengd_s(t, args[0]) }
    } else if name == "heiltal"@ {
        if n != 1 { (t, Err(arity_err(name, 1, n))) } else { heiltal_s(t, args[0]) }
    } else if name == "desimaltal"@ {
        if n != 1 { (t, Err(arity_err(name, 1, n))) } else { desimaltal_s(t, args[0]) }
    } else if name == "tekst"@ {
        if n != 1 {
            (t, Err(arity_err(name, 1, n)))
        } else {
            let (t1, r) = show_s(t, args[0]);
            some_text(t1, r)
        }
    } else if name == "legg til"@ {
        if n != 2 {
            (t, Err(arity_err(name, 2, n)))
        } else {
            match args[0] {
                ValueV::List(xs) => (t, Ok(Some(ValueV::List(xs.push(args[1]))))),
                _ => err1_s(t, "legg_til: fyrste argument må vera liste, fekk "@, args[0]),
            }
        }
    } else if name == "del frå"@ {
        if n != 2 {
            (t, Err(arity_err(name, 2, n)))
        } else {
            match (args[0], args[1]) {
                (ValueV::List(xs), ValueV::Int(i)) => match norm_index(i as int, xs.len() as int) {
                    Some(k) => (t, Ok(Some(ValueV::List(xs.remove(k))))),
                    None => (t, Err(plain_err(index_msg(i as int, xs.len())))),
                },
                _ => (t, Err(plain_err("del_frå: forventar (liste, heiltal)"@))),
            }
        }
    } else if name == "del opp"@ {
        if n == 1 {
            match args[0] {
                ValueV::Str(s) => (t, Ok(Some(ValueV::List(char_texts(s))))),
                _ => err1_s(t, "del_opp: forventar streng, fekk "@, args[0]),
            }
        } else if n == 2 {
            match (args[0], args[1]) {
                (ValueV::Str(s), ValueV::Str(sep)) => (t, Ok(Some(ValueV::List(texts_of(split_s(s, sep)))))),
                _ => (t, Err(plain_err("del_opp: forventar (streng, streng)"@))),
            }
        } else {
            (t, Err(plain_err("del_opp: forventar 1 eller 2 argument, fekk "@ + nat_text(n))))
        }
    } else if name == "sett saman"@ {
        if n == 1 {
            match args[0] {
                ValueV::List(xs) => {
                    let (t1, r) = join_from(t, xs, 0, Seq::empty(), Seq::empty());
                    some_text(t1, r)
                },
                _ => err1_s(t, "sett_saman: forventar liste, fekk "@, args[0]),
            }
        } else if n == 2 {
            match (args[0], args[1]) {
                (ValueV::List(xs), ValueV::Str(sep)) => {
                    let (t1, r) = join_from(t, xs, 0, sep, Seq::empty());
                    some_text(t1, r)
                },
                _ => (t, Err(plain_err("sett_saman: forventar (liste, streng)"@))),
            }
        } else {
            (t, Err(plain_err("sett_saman: forventar 1 eller 2 argument, fekk "@ + nat_text(n))))
        }
    } else if name == "sorter"@ {
        if n != 1 {
            (t, Err(arity_err(name, 1, n)))
        } else {
            match args[0] {
                ValueV::List(xs) => {
                    let (t1, r) = sort_from(t, xs, 0, Seq::empty());
                    some_list(t1, r)
                },
                _ => err1_s(t, "sorter: forventar liste, fekk "@, args[0]),
            }
        }
    } else if name == "kvart tal"@ {
        if n != 1 { (t, Err(arity_err(name, 1, n))) } else { kvart_tal_s(t, args[0]) }
    } else {
        (t, Ok(None))
    }
}

// ── executable ──

pub open spec fn opt_v(r: Result<Option<Value>, Halt>) -> Result<Option<ValueV>, HaltV> {
    match r {
        Ok(Some(v)) => Ok(Some(v@)),
        Ok(None) => Ok(None),
        Err(h) => Err(h@),
    }
}

fn lit(cs: &Vec<char>, s: &str) -> (r: bool)
    ensures
        r == (cs@ == s@),
{
    let l = chars_of(s);
    same_chars(cs, &l)
}

fn arity_error(name: &String, n: u64, got: usize) -> (h: Halt)
    ensures
        h@ == arity_err(name@, n as nat, got as nat),
{
    let mut v = chars_of(name.as_str());
    let a = chars_of(": forventar ");
    crate::text::push_all(&mut v, &a);
    push_nat_text(&mut v, n);
    let b = chars_of(" argument, fekk ");
    crate::text::push_all(&mut v, &b);
    push_nat_text(&mut v, got as u64);
    assert(v@ =~= name@ + ": forventar "@ + nat_text(n as nat) + " argument, fekk "@ + nat_text(got as nat));
    Halt::Error(string_of(v.as_slice()))
}

fn count_error(pre: &str, got: usize) -> (h: Halt)
    ensures
        h@ == plain_err(pre@ + nat_text(got as nat)),
{
    let mut v = chars_of(pre);
    push_nat_text(&mut v, got as u64);
    Halt::Error(string_of(v.as_slice()))
}

fn err1(tape: &mut Tape, pre: &str, v: &Value) -> (r: Result<Option<Value>, Halt>)
    ensures
        (final(tape)@, opt_v(r)) == err1_s(old(tape)@, pre@, v@),
        tape_kept(old(tape)@, final(tape)@),
        settled(final(tape)@, r),
{
    match show(tape, v) {
        Ok(s) => {
            let mut m = pre.to_owned();
            m.append(s.as_str());
            Err(Halt::Error(m))
        },
        Err(h) => Err(h),
    }
}

fn quoted_error(pre: &str, s: &String) -> (h: Halt)
    ensures
        h@ == plain_err(pre@ + s@ + "»"@),
{
    let mut m = pre.to_owned();
    m.append(s.as_str());
    m.append("»");
    Halt::Error(m)
}

fn join(tape: &mut Tape, xs: &Vec<Value>, sep: &String) -> (r: Result<String, Halt>)
    ensures
        (final(tape)@, res_v(r)) == join_from(old(tape)@, values_v(*xs), 0, sep@, Seq::empty()),
        tape_kept(old(tape)@, final(tape)@),
        settled(final(tape)@, r),
{
    let ghost xv = values_v(*xs);
    let mut out = String::new();
    let mut i: usize = 0;
    while i < xs.len()
        invariant
            tape_kept(old(tape)@, tape@),
            i <= xs.len(),
            xv == values_v(*xs),
            xv.len() == xs@.len(),
            join_from(tape@, xv, i as int, sep@, out@) == join_from(old(tape)@, xv, 0, sep@, Seq::empty()),
        decreases xs.len() - i,
    {
        assert(xv[i as int] == value_v(xs@[i as int]));
        match show(tape, &xs[i]) {
            Ok(s) => {
                let ghost before = out@;
                if i > 0 {
                    out.append(sep.as_str());
                }
                out.append(s.as_str());
                assert(out@ =~= before + (if i > 0 { sep@ } else { Seq::<char>::empty() }) + s@);
            },
            Err(h) => {
                return Err(h);
            },
        }
        i += 1;
    }
    Ok(out)
}

fn insert_sorted(tape: &mut Tape, s: Vec<Value>, x: Value) -> (r: Result<Vec<Value>, Halt>)
    ensures
        ({
            let (t, e) = insert_s(old(tape)@, values_v(s), x@, s@.len() as int);
            final(tape)@ == t && match r {
                Ok(v) => e == Ok::<Seq<ValueV>, HaltV>(values_v(v)),
                Err(h) => e == Err::<Seq<ValueV>, HaltV>(h@),
            }
        }),
        tape_kept(old(tape)@, final(tape)@),
        settled(final(tape)@, r),
{
    let ghost sv = values_v(s);
    let ghost xv = x@;
    let ghost goal = insert_s(old(tape)@, sv, xv, s@.len() as int);
    let mut j = s.len();
    let mut stop = false;
    while j > 0 && !stop
        invariant
            tape_kept(old(tape)@, tape@),
            j <= s@.len(),
            sv == values_v(s),
            sv.len() == s@.len(),
            xv == x@,
            goal == insert_s(old(tape)@, sv, xv, s@.len() as int),
            !stop ==> insert_s(tape@, sv, xv, j as int) == goal,
            stop ==> goal == (tape@, Ok::<Seq<ValueV>, HaltV>(sv.insert(j as int, xv))),
        decreases j, (if stop { 0int } else { 1int }),
    {
        assert(sv[j - 1] == value_v(s@[j - 1]));
        match compare_values(tape, &s[j - 1], &x) {
            Ok(o) => {
                if o == Order::Greater {
                    j -= 1;
                } else {
                    stop = true;
                }
            },
            Err(h) => {
                return Err(h);
            },
        }
    }
    let mut out = s;
    out.insert(j, x);
    assert(values_v(out) =~= sv.insert(j as int, xv));
    Ok(out)
}

fn sort_values(tape: &mut Tape, xs: &Vec<Value>) -> (r: Result<Vec<Value>, Halt>)
    ensures
        ({
            let (t, e) = sort_from(old(tape)@, values_v(*xs), 0, Seq::empty());
            final(tape)@ == t && match r {
                Ok(v) => e == Ok::<Seq<ValueV>, HaltV>(values_v(v)),
                Err(h) => e == Err::<Seq<ValueV>, HaltV>(h@),
            }
        }),
        tape_kept(old(tape)@, final(tape)@),
        settled(final(tape)@, r),
{
    let ghost xv = values_v(*xs);
    let mut acc: Vec<Value> = Vec::new();
    assert(values_v(acc) =~= Seq::<ValueV>::empty());
    let mut i: usize = 0;
    while i < xs.len()
        invariant
            tape_kept(old(tape)@, tape@),
            i <= xs.len(),
            xv == values_v(*xs),
            xv.len() == xs@.len(),
            sort_from(tape@, xv, i as int, values_v(acc)) == sort_from(old(tape)@, xv, 0, Seq::empty()),
        decreases xs.len() - i,
    {
        assert(xv[i as int] == value_v(xs@[i as int]));
        let x = clone_value(&xs[i]);
        match insert_sorted(tape, acc, x) {
            Ok(a) => {
                acc = a;
            },
            Err(h) => {
                return Err(h);
            },
        }
        i += 1;
    }
    Ok(acc)
}

fn count_values(n: i64) -> (r: Vec<Value>)
    ensures
        values_v(r) == count_list(n as int),
{
    let mut out: Vec<Value> = Vec::new();
    let mut i: i64 = 0;
    while i < n
        invariant
            0 <= i,
            i <= n || n < 0,
            n < 0 ==> i == 0,
            out@.len() == i,
            forall|k: int| 0 <= k < i ==> (#[trigger] out@[k]) == Value::Int(k as i64),
        decreases n - i,
    {
        out.push(Value::Int(i));
        i += 1;
    }
    assert(values_v(out) =~= count_list(n as int));
    out
}

pub fn char_values(s: &String) -> (r: Vec<Value>)
    ensures
        values_v(r) == char_texts(s@),
{
    let cs = chars_of(s.as_str());
    let mut out: Vec<Value> = Vec::new();
    let mut i: usize = 0;
    while i < cs.len()
        invariant
            i <= cs.len(),
            cs@ == s@,
            out@.len() == i,
            forall|k: int| 0 <= k < i ==> (#[trigger] out@[k])@ == ValueV::Str(seq![cs@[k]]),
        decreases cs.len() - i,
    {
        let mut one: Vec<char> = Vec::new();
        one.push(cs[i]);
        out.push(Value::Str(string_of(one.as_slice())));
        i += 1;
    }
    assert(values_v(out) =~= char_texts(s@));
    out
}

fn split_values(s: &String, sep: &String) -> (r: Vec<Value>)
    ensures
        values_v(r) == texts_of(split_s(s@, sep@)),
{
    let a = chars_of(s.as_str());
    let b = chars_of(sep.as_str());
    let ps = split_chars(&a, &b);
    let mut out: Vec<Value> = Vec::new();
    let mut i: usize = 0;
    while i < ps.len()
        invariant
            i <= ps.len(),
            a@ == s@,
            b@ == sep@,
            ps@.len() == split_s(a@, b@).len(),
            forall|k: int| 0 <= k < ps@.len() ==> (#[trigger] ps@[k])@ == split_s(a@, b@)[k],
            out@.len() == i,
            forall|k: int| 0 <= k < i ==> (#[trigger] out@[k])@ == ValueV::Str(split_s(a@, b@)[k]),
        decreases ps.len() - i,
    {
        assert(ps@[i as int]@ == split_s(a@, b@)[i as int]);
        out.push(Value::Str(string_of(ps[i].as_slice())));
        i += 1;
    }
    assert(values_v(out) =~= texts_of(split_s(s@, sep@)));
    out
}

fn lengd(tape: &mut Tape, v: &Value) -> (r: Result<Option<Value>, Halt>)
    ensures
        (final(tape)@, opt_v(r)) == lengd_s(old(tape)@, v@),
        tape_kept(old(tape)@, final(tape)@),
        settled(final(tape)@, r),
{
    match v {
        Value::List(xs) => Ok(Some(Value::Int(xs.len() as i64))),
        Value::Str(s) => {
            let cs = chars_of(s.as_str());
            Ok(Some(Value::Int(cs.len() as i64)))
        },
        _ => err1(tape, "lengd: uforventa type ", v),
    }
}

fn heiltal(tape: &mut Tape, v: &Value) -> (r: Result<Option<Value>, Halt>)
    ensures
        (final(tape)@, opt_v(r)) == heiltal_s(old(tape)@, v@),
        tape_kept(old(tape)@, final(tape)@),
        settled(final(tape)@, r),
{
    match v {
        Value::Int(n) => Ok(Some(Value::Int(*n))),
        Value::Float(b) => match tape.ask_int(Request::Float(FloatOp::ToInt(*b))) {
            Ok(n) => Ok(Some(Value::Int(n))),
            Err(h) => Err(h),
        },
        Value::Str(s) => {
            let cs = chars_of(s.as_str());
            let tr = trim_chars(&cs);
            match parse_i64(&tr) {
                Some(n) => Ok(Some(Value::Int(n))),
                None => Err(quoted_error("heiltal: kan ikkje konvertera «", s)),
            }
        },
        Value::Bool(b) => Ok(Some(Value::Int(if *b { 1 } else { 0 }))),
        _ => err1(tape, "heiltal: uforventa type ", v),
    }
}

fn desimaltal(tape: &mut Tape, v: &Value) -> (r: Result<Option<Value>, Halt>)
    ensures
        (final(tape)@, opt_v(r)) == desimaltal_s(old(tape)@, v@),
        tape_kept(old(tape)@, final(tape)@),
        settled(final(tape)@, r),
{
    match v {
        Value::Int(n) => match tape.ask_bits(Request::Float(FloatOp::FromInt(*n))) {
            Ok(b) => Ok(Some(Value::Float(b))),
            Err(h) => Err(h),
        },
        Value::Float(b) => Ok(Some(Value::Float(*b))),
        Value::Str(s) => {
            let cs = chars_of(s.as_str());
            let tr = trim_chars(&cs);
            match tape.ask_maybe(Request::Float(FloatOp::Parse(string_of(tr.as_slice()))), 2) {
                Ok(Ok(Answer::Bits(b))) => Ok(Some(Value::Float(b))),
                Ok(Ok(_)) => Err(Halt::Mismatch),
                Ok(Err(_)) => Err(quoted_error("desimaltal: kan ikkje konvertera «", s)),
                Err(h) => Err(h),
            }
        },
        _ => err1(tape, "desimaltal: uforventa type ", v),
    }
}

fn kvart_tal(tape: &mut Tape, v: &Value) -> (r: Result<Option<Value>, Halt>)
    ensures
        (final(tape)@, opt_v(r)) == kvart_tal_s(old(tape)@, v@),
        tape_kept(old(tape)@, final(tape)@),
        settled(final(tape)@, r),
{
    match v {
        Value::Int(n) => Ok(Some(Value::List(count_values(*n)))),
        Value::Float(b) => match tape.ask_int(Request::Float(FloatOp::ToInt(*b))) {
            Ok(n) => Ok(Some(Value::List(count_values(n)))),
            Err(h) => Err(h),
        },
        _ => err1(tape, "kvart_tal: forventar heiltal, fekk ", v),
    }
}

/// Calls the built-in `name`; `Ok(None)` when there is none of that name.
pub fn call_builtin(tape: &mut Tape, name: &String, args: &Vec<Value>) -> (r: Result<Option<Value>, Halt>)
    ensures
        (final(tape)@, opt_v(r)) == builtin_s(old(tape)@, name@, values_v(*args)),
        tape_kept(old(tape)@, final(tape)@),
        settled(final(tape)@, r),
{
    let ghost av = values_v(*args);
    let cs = chars_of(name.as_str());
    let n = args.len();
    assert(av.len() == n);
    if n >= 1 {
        assert(av[0] == value_v(args@[0]));
    }
    if n >= 2 {
        assert(av[1] == value_v(args@[1]));
    }
    if lit(&cs, "lengd") {
        if n != 1 { Err(arity_error(name, 1, n)) } else { lengd(tape, &args[0]) }
    } else if lit(&cs, "heiltal") {
        if n != 1 { Err(arity_error(name, 1, n)) } else { heiltal(tape, &args[0]) }
    } else if lit(&cs, "desimaltal") {
        if n != 1 { Err(arity_error(name, 1, n)) } else { desimaltal(tape, &args[0]) }
    } else if lit(&cs, "tekst") {
        if n != 1 {
            Err(arity_error(name, 1, n))
        } else {
            match show(tape, &args[0]) {
                Ok(s) => Ok(Some(Value::Str(s))),
                Err(h) => Err(h),
            }
        }
    } else if lit(&cs, "legg til") {
        if n != 2 {
            Err(arity_error(name, 2, n))
        } else {
            match &args[0] {
                Value::List(xs) => {
                    let mut v = clone_values(xs);
                    let x = clone_value(&args[1]);
                    let ghost before = values_v(v);
                    let ghost xv = x@;
                    v.push(x);
                    assert(values_v(v) =~= before.push(xv));
                    Ok(Some(Value::List(v)))
                },
                _ => err1(tape, "legg_til: fyrste argument må vera liste, fekk ", &args[0]),
            }
        }
    } else if lit(&cs, "del frå") {
        if n != 2 {
            Err(arity_error(name, 2, n))
        } else {
            match (&args[0], &args[1]) {
                (Value::List(xs), Value::Int(i)) => match normalize_idx(*i, xs.len()) {
                    Ok(k) => {
                        let mut v = clone_values(xs);
                        let ghost before = values_v(v);
                        v.remove(k);
                        assert(values_v(v) =~= before.remove(k as int));
                        Ok(Some(Value::List(v)))
                    },
                    Err(m) => Err(Halt::Error(m)),
                },
                _ => Err(Halt::Error("del_frå: forventar (liste, heiltal)".to_owned())),
            }
        }
    } else if lit(&cs, "del opp") {
        if n == 1 {
            match &args[0] {
                Value::Str(s) => Ok(Some(Value::List(char_values(s)))),
                _ => err1(tape, "del_opp: forventar streng, fekk ", &args[0]),
            }
        } else if n == 2 {
            match (&args[0], &args[1]) {
                (Value::Str(s), Value::Str(sep)) => Ok(Some(Value::List(split_values(s, sep)))),
                _ => Err(Halt::Error("del_opp: forventar (streng, streng)".to_owned())),
            }
        } else {
            Err(count_error("del_opp: forventar 1 eller 2 argument, fekk ", n))
        }
    } else if lit(&cs, "sett saman") {
        if n == 1 {
            match &args[0] {
                Value::List(xs) => match join(tape, xs, &String::new()) {
                    Ok(s) => Ok(Some(Value::Str(s))),
                    Err(h) => Err(h),
                },
                _ => err1(tape, "sett_saman: forventar liste, fekk ", &args[0]),
            }
        } else if n == 2 {
            match (&args[0], &args[1]) {
                (Value::List(xs), Value::Str(sep)) => match join(tape, xs, sep) {
                    Ok(s) => Ok(Some(Value::Str(s))),
                    Err(h) => Err(h),
                },
                _ => Err(Halt::Error("sett_saman: forventar (liste, streng)".to_owned())),
            }
        } else {
            Err(count_error("sett_saman: forventar 1 eller 2 argument, fekk ", n))
        }
    } else if lit(&cs, "sorter") {
        if n != 1 {
            Err(arity_error(name, 1, n))
        } else {
            match &args[0] {
                Value::List(xs) => match sort_values(tape, xs) {
                    Ok(v) => Ok(Some(Value::List(v))),
                    Err(h) => Err(h),
                },
                _ => err1(tape, "sorter: forventar liste, fekk ", &args[0]),
            }
        }
    } else if lit(&cs, "kvart tal") {
        if n != 1 { Err(arity_error(name, 1, n)) } else { kvart_tal(tape, &args[0]) }
    } else {
        Ok(None)
    }
}

} // verus!
