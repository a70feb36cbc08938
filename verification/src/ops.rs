//! The binary operators of the language: arithmetic, joining, equality and order.
use vstd::prelude::*;
use crate::host::{halt_settled, settled, tape_kept};
use crate::ast::BinOpKind;
use crate::host::{ask_bits_s, res_v, FloatOp, FloatOpV, Halt, HaltV, Num, Request, RequestV, Tape, TapeV};
use crate::show::{show, show_s};
use crate::text::chars_of;
use crate::value::{
    clone_values, float_eq, float_is_zero, float_order, float_order_exec, order_int, text_order,
    text_order_exec, values_v, Order, Value, ValueV,
};

verus! {

/// Whole-number division as Rust's `/` does it: towards zero.
pub open spec fn tdiv(a: int, b: int) -> int {
    let q = (if a < 0 { -a } else { a }) / (if b < 0 { -b } else { b });
    if (a < 0) != (b < 0) {
        -q
    } else {
        q
    }
}

/// The remainder as Rust's `%` gives it: with the sign of `a`.
pub open spec fn trem(a: int, b: int) -> int {
    let r = (if a < 0 { -a } else { a }) % (if b < 0 { -b } else { b });
    if a < 0 {
        -r
    } else {
        r
    }
}

pub open spec fn num_of(v: ValueV) -> Num {
    match v {
        ValueV::Int(n) => Num::Int(n),
        ValueV::Float(b) => Num::Float(b),
        _ => Num::Int(0),
    }
}

pub open spec fn is_num(v: ValueV) -> bool {
    v is Int || v is Float
}

/// An error whose message holds the texts of two values: `pre l mid r`.
pub open spec fn err2_s(t: TapeV, pre: Seq<char>, l: ValueV, mid: Seq<char>, r: ValueV) -> (TapeV, Result<ValueV, HaltV>) {
    let (t1, a) = show_s(t, l);
    match a {
        Err(h) => (t1, Err(h)),
        Ok(sl) => {
            let (t2, b) = show_s(t1, r);
            match b {
                Err(h) => (t2, Err(h)),
                Ok(sr) => (t2, Err(HaltV::Error(pre + sl + mid + sr))),
            }
        },
    }
}

/// Decimal arithmetic, done by the host.
pub open spec fn float_arith_s(t: TapeV, op: BinOpKind, l: ValueV, r: ValueV) -> (TapeV, Result<ValueV, HaltV>) {
    let (t1, a) = ask_bits_s(t, RequestV::Float(FloatOpV::Arith(op, num_of(l), num_of(r))));
    match a {
        Ok(b) => (t1, Ok(ValueV::Float(b))),
        Err(h) => (t1, Err(h)),
    }
}

/// `==` of the language: numbers by value (a whole number converted to a double to
/// meet a decimal), texts, truth values and nothing by content; anything else unequal.
pub open spec fn equal_s(t: TapeV, l: ValueV, r: ValueV) -> (TapeV, Result<bool, HaltV>) {
    match (l, r) {
        (ValueV::Int(x), ValueV::Int(y)) => (t, Ok(x == y)),
        (ValueV::Float(x), ValueV::Float(y)) => (t, Ok(float_eq(x, y))),
        (ValueV::Int(x), ValueV::Float(y)) => {
            let (t1, a) = ask_bits_s(t, RequestV::Float(FloatOpV::FromInt(x)));
            match a {
                Ok(fx) => (t1, Ok(float_eq(fx, y))),
                Err(h) => (t1, Err(h)),
            }
        },
        (ValueV::Float(x), ValueV::Int(y)) => {
            let (t1, a) = ask_bits_s(t, RequestV::Float(FloatOpV::FromInt(y)));
            match a {
                Ok(fy) => (t1, Ok(float_eq(x, fy))),
                Err(h) => (t1, Err(h)),
            }
        },
        (ValueV::Str(x), ValueV::Str(y)) => (t, Ok(x == y)),
        (ValueV::Bool(x), ValueV::Bool(y)) => (t, Ok(x == y)),
        (ValueV::Null, ValueV::Null) => (t, Ok(true)),
        _ => (t, Ok(false)),
    }
}

pub open spec fn or_equal(o: Option<Order>) -> Order {
    match o {
        Some(x) => x,
        None => Order::Equal,
    }
}

/// The order of the language: numbers by value, texts by code points, anything else
/// (and a NaN) equal.
pub open spec fn compare_s(t: TapeV, l: ValueV, r: ValueV) -> (TapeV, Result<Order, HaltV>) {
    match (l, r) {
        (ValueV::Int(x), ValueV::Int(y)) => (t, Ok(order_int(x as int, y as int))),
        (ValueV::Float(x), ValueV::Float(y)) => (t, Ok(or_equal(float_order(x, y)))),
        (ValueV::Int(x), ValueV::Float(y)) => {
            let (t1, a) = ask_bits_s(t, RequestV::Float(FloatOpV::FromInt(x)));
            match a {
                Ok(fx) => (t1, Ok(or_equal(float_order(fx, y)))),
                Err(h) => (t1, Err(h)),
            }
        },
        (ValueV::Float(x), ValueV::Int(y)) => {
            let (t1, a) = ask_bits_s(t, RequestV::Float(FloatOpV::FromInt(y)));
            match a {
                Ok(fy) => (t1, Ok(or_equal(float_order(x, fy)))),
                Err(h) => (t1, Err(h)),
            }
        },
        (ValueV::Str(x), ValueV::Str(y)) => (t, Ok(text_order(x, y))),
        _ => (t, Ok(Order::Equal)),
    }
}

pub open spec fn div_zero() -> HaltV {
    HaltV::Error("deling på null"@)
}

/// `-`, `*` on two numbers.
pub open spec fn num_op_s(t: TapeV, op: BinOpKind, l: ValueV, r: ValueV) -> (TapeV, Result<ValueV, HaltV>) {
    match (l, r) {
        (ValueV::Int(a), ValueV::Int(b)) => (
            t,
            Ok(
                ValueV::Int(
                    if op == BinOpKind::Sub {
                        vstd::wrapping::i64_specs::wrapping_sub(a, b)
                    } else {
                        vstd::wrapping::i64_specs::wrapping_mul(a, b)
                    },
                ),
            ),
        ),
        _ => if is_num(l) && is_num(r) {
            float_arith_s(t, op, l, r)
        } else {
            err2_s(t, "aritmetisk operasjon på "@, l, " og "@, r)
        },
    }
}

/// What `l op r` gives.
pub open spec fn binop_s(t: TapeV, op: BinOpKind, l: ValueV, r: ValueV) -> (TapeV, Result<ValueV, HaltV>) {
    match op {
        BinOpKind::Add => {
            if l is Str || r is Str {
                let (t1, a) = show_s(t, l);
                match a {
                    Err(h) => (t1, Err(h)),
                    Ok(sl) => {
                        let (t2, b) = show_s(t1, r);
                        match b {
                            Err(h) => (t2, Err(h)),
                            Ok(sr) => (t2, Ok(ValueV::Str(sl + sr))),
                        }
                    },
                }
            } else {
                match (l, r) {
                    (ValueV::Int(a), ValueV::Int(b)) => (t, Ok(ValueV::Int(vstd::wrapping::i64_specs::wrapping_add(a, b)))),
                    (ValueV::List(a), ValueV::List(b)) => (t, Ok(ValueV::List(a + b))),
                    _ => if is_num(l) && is_num(r) {
                        float_arith_s(t, op, l, r)
                    } else {
                        err2_s(t, "kan ikkje legga saman "@, l, " og "@, r)
                    },
                }
            }
        },
        BinOpKind::Sub => num_op_s(t, op, l, r),
        BinOpKind::Mul => num_op_s(t, op, l, r),
        BinOpKind::Div => {
            if r == ValueV::Int(0) || (r is Float && float_is_zero(r->Float_0)) {
                (t, Err(div_zero()))
            } else {
                match (l, r) {
                    (ValueV::Int(a), ValueV::Int(b)) => if a == i64::MIN && b == -1 {
                        (t, Err(HaltV::Panic("attempt to divide with overflow"@)))
                    } else {
                        (t, Ok(ValueV::Int(tdiv(a as int, b as int) as i64)))
                    },
                    _ => if is_num(l) && is_num(r) {
                        float_arith_s(t, op, l, r)
                    } else {
                        err2_s(t, "kan ikkje dela "@, l, " på "@, r)
                    },
                }
            }
        },
        BinOpKind::Mod => {
            if r == ValueV::Int(0) {
                (t, Err(div_zero()))
            } else {
                match (l, r) {
                    (ValueV::Int(a), ValueV::Int(b)) => if a == i64::MIN && b == -1 {
                        (t, Err(HaltV::Panic("attempt to calculate the remainder with overflow"@)))
                    } else {
                        (t, Ok(ValueV::Int(trem(a as int, b as int) as i64)))
                    },
                    _ => if is_num(l) && is_num(r) {
                        float_arith_s(t, op, l, r)
                    } else {
                        err2_s(t, "kan ikkje ta rest av "@, l, " delt på "@, r)
                    },
                }
            }
        },
        BinOpKind::Eq => {
            let (t1, e) = equal_s(t, l, r);
            match e {
                Ok(b) => (t1, Ok(ValueV::Bool(b))),
                Err(h) => (t1, Err(h)),
            }
        },
        BinOpKind::Ne => {
            let (t1, e) = equal_s(t, l, r);
            match e {
                Ok(b) => (t1, Ok(ValueV::Bool(!b))),
                Err(h) => (t1, Err(h)),
            }
        },
        BinOpKind::Lt => {
            let (t1, c) = compare_s(t, l, r);
            match c {
                Ok(o) => (t1, Ok(ValueV::Bool(o == Order::Less))),
                Err(h) => (t1, Err(h)),
            }
        },
        BinOpKind::Gt => {
            let (t1, c) = compare_s(t, l, r);
            match c {
                Ok(o) => (t1, Ok(ValueV::Bool(o == Order::Greater))),
                Err(h) => (t1, Err(h)),
            }
        },
    }
}

// ── executable ──

fn num_exec(v: &Value) -> (n: Num)
    ensures
        n == num_of(v@),
{
    match v {
        Value::Int(a) => Num::Int(*a),
        Value::Float(b) => Num::Float(*b),
        _ => Num::Int(0),
    }
}

fn is_num_exec(v: &Value) -> (b: bool)
    ensures
        b == is_num(v@),
{
    match v {
        Value::Int(_) => true,
        Value::Float(_) => true,
        _ => false,
    }
}

pub fn err2(tape: &mut Tape, pre: &str, l: &Value, mid: &str, r: &Value) -> (res: Result<Value, Halt>)
    ensures
        (final(tape)@, res_v(res)) == err2_s(old(tape)@, pre@, l@, mid@, r@),
        tape_kept(old(tape)@, final(tape)@),
        settled(final(tape)@, res),
{
    let sl = match show(tape, l) {
        Ok(s) => s,
        Err(h) => {
            return Err(h);
        },
    };
    let sr = match show(tape, r) {
        Ok(s) => s,
        Err(h) => {
            return Err(h);
        },
    };
    let mut m = pre.to_owned();
    m.append(sl.as_str());
    m.append(mid);
    m.append(sr.as_str());
    Err(Halt::Error(m))
}

fn float_arith(tape: &mut Tape, op: BinOpKind, l: &Value, r: &Value) -> (res: Result<Value, Halt>)
    ensures
        (final(tape)@, res_v(res)) == float_arith_s(old(tape)@, op, l@, r@),
        tape_kept(old(tape)@, final(tape)@),
        settled(final(tape)@, res),
{
    match tape.ask_bits(Request::Float(FloatOp::Arith(op, num_exec(l), num_exec(r)))) {
        Ok(b) => Ok(Value::Float(b)),
        Err(h) => Err(h),
    }
}

pub fn values_equal(tape: &mut Tape, l: &Value, r: &Value) -> (res: Result<bool, Halt>)
    ensures
        ({
            let (t, e) = equal_s(old(tape)@, l@, r@);
            final(tape)@ == t && match res {
                Ok(b) => e == Ok::<bool, HaltV>(b),
                Err(h) => e == Err::<bool, HaltV>(h@),
            }
        }),
        tape_kept(old(tape)@, final(tape)@),
        settled(final(tape)@, res),
{
    match (l, r) {
        (Value::Int(x), Value::Int(y)) => Ok(*x == *y),
        (Value::Float(x), Value::Float(y)) => Ok(float_order_exec(*x, *y) == Some(Order::Equal)),
        (Value::Int(x), Value::Float(y)) => match tape.ask_bits(Request::Float(FloatOp::FromInt(*x))) {
            Ok(fx) => Ok(float_order_exec(fx, *y) == Some(Order::Equal)),
            Err(h) => Err(h),
        },
        (Value::Float(x), Value::Int(y)) => match tape.ask_bits(Request::Float(FloatOp::FromInt(*y))) {
            Ok(fy) => Ok(float_order_exec(*x, fy) == Some(Order::Equal)),
            Err(h) => Err(h),
        },
        (Value::Str(x), Value::Str(y)) => Ok(*x == *y),
        (Value::Bool(x), Value::Bool(y)) => Ok(*x == *y),
        (Value::Null, Value::Null) => Ok(true),
        _ => Ok(false),
    }
}

fn or_equal_exec(o: Option<Order>) -> (r: Order)
    ensures
        r == or_equal(o),
{
    match o {
        Some(x) => x,
        None => Order::Equal,
    }
}

pub fn compare_values(tape: &mut Tape, l: &Value, r: &Value) -> (res: Result<Order, Halt>)
    ensures
        ({
            let (t, c) = compare_s(old(tape)@, l@, r@);
            final(tape)@ == t && match res {
                Ok(o) => c == Ok::<Order, HaltV>(o),
                Err(h) => c == Err::<Order, HaltV>(h@),
            }
        }),
        tape_kept(old(tape)@, final(tape)@),
        settled(final(tape)@, res),
{
    match (l, r) {
        (Value::Int(x), Value::Int(y)) => Ok(
            if *x < *y {
                Order::Less
            } else if *x == *y {
                Order::Equal
            } else {
                Order::Greater
            },
        ),
        (Value::Float(x), Value::Float(y)) => Ok(or_equal_exec(float_order_exec(*x, *y))),
        (Value::Int(x), Value::Float(y)) => match tape.ask_bits(Request::Float(FloatOp::FromInt(*x))) {
            Ok(fx) => Ok(or_equal_exec(float_order_exec(fx, *y))),
            Err(h) => Err(h),
        },
        (Value::Float(x), Value::Int(y)) => match tape.ask_bits(Request::Float(FloatOp::FromInt(*y))) {
            Ok(fy) => Ok(or_equal_exec(float_order_exec(*x, fy))),
            Err(h) => Err(h),
        },
        (Value::Str(x), Value::Str(y)) => {
            let a = chars_of(x.as_str());
            let b = chars_of(y.as_str());
            Ok(text_order_exec(&a, &b))
        },
        _ => Ok(Order::Equal),
    }
}

fn int_div(a: i64, b: i64) -> (q: i64)
    requires
        b != 0,
        !(a == i64::MIN && b == -1),
    ensures
        q as int == tdiv(a as int, b as int),
{
    let ua: u64 = if a < 0 { ((-(a + 1)) as u64) + 1 } else { a as u64 };
    let ub: u64 = if b < 0 { ((-(b + 1)) as u64) + 1 } else { b as u64 };
    assert(ua as int == (if a < 0 { -(a as int) } else { a as int }));
    assert(ub as int == (if b < 0 { -(b as int) } else { b as int }));
    let q: u64 = ua / ub;
    assert(q <= ua) by (nonlinear_arith)
        requires
            q == ua / ub,
            ub >= 1,
    ;
    if (a < 0) != (b < 0) {
        assert(q <= 0x8000_0000_0000_0000u64);
        if q == 0x8000_0000_0000_0000u64 {
            (0 - 0x7fff_ffff_ffff_ffffi64) - 1
        } else {
            0 - (q as i64)
        }
    } else {
        assert(q <= 0x7fff_ffff_ffff_ffffu64) by {
            if a == i64::MIN {
                assert(ub >= 2);
                assert(ua / ub <= ua / 2) by (nonlinear_arith)
                    requires
                        ub >= 2,
                ;
            }
        }
        q as i64
    }
}

fn int_rem(a: i64, b: i64) -> (r: i64)
    requires
        b != 0,
    ensures
        r as int == trem(a as int, b as int),
{
    let ua: u64 = if a < 0 { ((-(a + 1)) as u64) + 1 } else { a as u64 };
    let ub: u64 = if b < 0 { ((-(b + 1)) as u64) + 1 } else { b as u64 };
    assert(ua as int == (if a < 0 { -(a as int) } else { a as int }));
    assert(ub as int == (if b < 0 { -(b as int) } else { b as int }));
    let m: u64 = ua % ub;
    assert(m < ub);
    assert(m <= ua) by (nonlinear_arith)
        requires
            m == ua % ub,
            ub >= 1,
    ;
    if a < 0 {
        if m == 0x8000_0000_0000_0000u64 {
            (0 - 0x7fff_ffff_ffff_ffffi64) - 1
        } else {
            0 - (m as i64)
        }
    } else {
        m as i64
    }
}

/// `l op r`.
pub fn apply_binop(tape: &mut Tape, op: BinOpKind, l: &Value, r: &Value) -> (res: Result<Value, Halt>)
    ensures
        (final(tape)@, res_v(res)) == binop_s(old(tape)@, op, l@, r@),
        tape_kept(old(tape)@, final(tape)@),
        settled(final(tape)@, res),
{
    match op {
        BinOpKind::Add => {
            let textual = match (l, r) {
                (Value::Str(_), _) => true,
                (_, Value::Str(_)) => true,
                _ => false,
            };
            if textual {
                let sl = match show(tape, l) {
                    Ok(s) => s,
                    Err(h) => {
                        return Err(h);
                    },
                };
                let sr = match show(tape, r) {
                    Ok(s) => s,
                    Err(h) => {
                        return Err(h);
                    },
                };
                let mut out = sl;
                out.append(sr.as_str());
                return Ok(Value::Str(out));
            }
            match (l, r) {
                (Value::Int(a), Value::Int(b)) => Ok(Value::Int(a.wrapping_add(*b))),
                (Value::List(a), Value::List(b)) => {
                    let mut x = clone_values(a);
                    let mut y = clone_values(b);
                    let ghost xv = values_v(x);
                    let ghost yv = values_v(y);
                    x.append(&mut y);
                    assert(values_v(x) =~= xv + yv);
                    Ok(Value::List(x))
                },
                _ => if is_num_exec(l) && is_num_exec(r) {
                    float_arith(tape, op, l, r)
                } else {
                    err2(tape, "kan ikkje legga saman ", l, " og ", r)
                },
            }
        },
        BinOpKind::Sub | BinOpKind::Mul => match (l, r) {
            (Value::Int(a), Value::Int(b)) => Ok(
                Value::Int(
                    if op == BinOpKind::Sub {
                        a.wrapping_sub(*b)
                    } else {
                        a.wrapping_mul(*b)
                    },
                ),
            ),
            _ => if is_num_exec(l) && is_num_exec(r) {
                float_arith(tape, op, l, r)
            } else {
                err2(tape, "aritmetisk operasjon på ", l, " og ", r)
            },
        },
        BinOpKind::Div => {
            let zero = match r {
                Value::Int(n) => *n == 0,
                Value::Float(f) => *f == 0 || *f == 0x8000_0000_0000_0000u64,
                _ => false,
            };
            if zero {
                return Err(Halt::Error("deling på null".to_owned()));
            }
            match (l, r) {
                (Value::Int(a), Value::Int(b)) => if *a == i64::MIN && *b == -1 {
                    Err(Halt::Panic("attempt to divide with overflow".to_owned()))
                } else {
                    Ok(Value::Int(int_div(*a, *b)))
                },
                _ => if is_num_exec(l) && is_num_exec(r) {
                    float_arith(tape, op, l, r)
                } else {
                    err2(tape, "kan ikkje dela ", l, " på ", r)
                },
            }
        },
        BinOpKind::Mod => {
            let zero = match r {
                Value::Int(n) => *n == 0,
                _ => false,
            };
            if zero {
                return Err(Halt::Error("deling på null".to_owned()));
            }
            match (l, r) {
                (Value::Int(a), Value::Int(b)) => if *a == i64::MIN && *b == -1 {
                    Err(Halt::Panic("attempt to calculate the remainder with overflow".to_owned()))
                } else {
                    Ok(Value::Int(int_rem(*a, *b)))
                },
                _ => if is_num_exec(l) && is_num_exec(r) {
                    float_arith(tape, op, l, r)
                } else {
                    err2(tape, "kan ikkje ta rest av ", l, " delt på ", r)
                },
            }
        },
        BinOpKind::Eq | BinOpKind::Ne => match values_equal(tape, l, r) {
            Ok(b) => Ok(Value::Bool(if op == BinOpKind::Eq { b } else { !b })),
            Err(h) => Err(h),
        },
        BinOpKind::Lt | BinOpKind::Gt => match compare_values(tape, l, r) {
            Ok(o) => Ok(Value::Bool(if op == BinOpKind::Lt { o == Order::Less } else { o == Order::Greater })),
            Err(h) => Err(h),
        },
    }
}

} // verus!
