//! Run-time values and the operations on them that need no help from the host.
//!
//! A decimal number is held as the bits of its IEEE-754 double; comparing such
//! numbers is done here on the bits, while arithmetic, conversion and printing of
//! them are asked of the host (see `interp`).
use vstd::prelude::*;
use crate::ast::{names_v, Stmt, StmtV, stmts_v};
use crate::text::{int_text, nat_text};

verus! {

/// `Rc::clone`: another handle on the same value.
#[verifier::external_body]
pub(crate) fn share<T>(r: &std::rc::Rc<T>) -> (c: std::rc::Rc<T>)
    ensures
        c == *r,
{
    std::rc::Rc::clone(r)
}

pub enum Value {
    Int(i64),
    /// The bits of an IEEE-754 double.
    Float(u64),
    Str(String),
    Bool(bool),
    Null,
    List(Vec<Value>),
    Func { params: std::rc::Rc<Vec<String>>, body: std::rc::Rc<Vec<Stmt>> },
    Object { id: usize, class: String },
}

pub enum ValueV {
    Int(i64),
    Float(u64),
    Str(Seq<char>),
    Bool(bool),
    Null,
    List(Seq<ValueV>),
    Func { params: Seq<Seq<char>>, body: Seq<StmtV> },
    Object { id: nat, class: Seq<char> },
}

pub open spec fn values_v(xs: Vec<Value>) -> Seq<ValueV>
    decreases xs, 0nat,
{
    Seq::new(
        xs@.len(),
        |i: int|
            if 0 <= i < xs@.len() {
                value_v(xs@[i])
            } else {
                ValueV::Null
            },
    )
}

pub open spec fn value_v(v: Value) -> ValueV
    decreases v, 1nat,
{
    match v {
        Value::Int(n) => ValueV::Int(n),
        Value::Float(b) => ValueV::Float(b),
        Value::Str(s) => ValueV::Str(s@),
        Value::Bool(b) => ValueV::Bool(b),
        Value::Null => ValueV::Null,
        Value::List(xs) => ValueV::List(values_v(xs)),
        Value::Func { params, body } => ValueV::Func {
            params: names_v(*params),
            body: stmts_v(*body),
        },
        Value::Object { id, class } => ValueV::Object { id: id as nat, class: class@ },
    }
}

impl View for Value {
    type V = ValueV;

    open spec fn view(&self) -> ValueV {
        value_v(*self)
    }
}

pub proof fn lemma_values_push(v: Vec<Value>, w: Vec<Value>, x: Value)
    requires
        w@ == v@.push(x),
    ensures
        values_v(w) == values_v(v).push(value_v(x)),
{
    assert(values_v(w) =~= values_v(v).push(value_v(x)));
}

pub proof fn lemma_values_empty(v: Vec<Value>)
    requires
        v@.len() == 0,
    ensures
        values_v(v) == Seq::<ValueV>::empty(),
{
    assert(values_v(v) =~= Seq::<ValueV>::empty());
}

pub fn empty_values() -> (v: Vec<Value>)
    ensures
        v@.len() == 0,
        values_v(v) == Seq::<ValueV>::empty(),
{
    let v: Vec<Value> = Vec::new();
    proof {
        lemma_values_empty(v);
    }
    v
}

pub fn push_value(v: &mut Vec<Value>, x: Value)
    ensures
        final(v)@ == old(v)@.push(x),
        values_v(*final(v)) == values_v(*old(v)).push(value_v(x)),
{
    let ghost before = *v;
    v.push(x);
    proof {
        lemma_values_push(before, *v, x);
    }
}

/// A copy of a value.
pub fn clone_value(v: &Value) -> (r: Value)
    ensures
        r@ == v@,
    decreases v,
{
    match v {
        Value::Int(n) => Value::Int(*n),
        Value::Float(b) => Value::Float(*b),
        Value::Str(s) => Value::Str(s.clone()),
        Value::Bool(b) => Value::Bool(*b),
        Value::Null => Value::Null,
        Value::List(xs) => Value::List(clone_values(xs)),
        Value::Func { params, body } => Value::Func { params: share(params), body: share(body) },
        Value::Object { id, class } => Value::Object { id: *id, class: class.clone() },
    }
}

pub fn clone_values(xs: &Vec<Value>) -> (r: Vec<Value>)
    ensures
        values_v(r) == values_v(*xs),
        r@.len() == xs@.len(),
    decreases xs,
{
    let mut out = empty_values();
    let mut i: usize = 0;
    #[verifier::loop_isolation(false)]
    while i < xs.len()
        invariant
            i <= xs.len(),
            out@.len() == i,
            values_v(out) == values_v(*xs).subrange(0, i as int),
        decreases xs.len() - i,
    {
        let c = clone_value(&xs[i]);
        push_value(&mut out, c);
        i += 1;
        assert(values_v(out) =~= values_v(*xs).subrange(0, i as int));
    }
    assert(values_v(out) =~= values_v(*xs));
    out
}

// ── truth ──

pub open spec fn float_is_zero(b: u64) -> bool {
    b == 0 || b == 0x8000_0000_0000_0000u64
}

pub open spec fn float_is_nan(b: u64) -> bool {
    (b % 0x8000_0000_0000_0000u64) > 0x7ff0_0000_0000_0000u64
}

/// Whether a value counts as true in a condition.
pub open spec fn truthy_v(v: ValueV) -> bool {
    match v {
        ValueV::Bool(b) => b,
        ValueV::Int(n) => n != 0,
        ValueV::Float(b) => !float_is_zero(b),
        ValueV::Str(s) => s.len() > 0,
        ValueV::List(xs) => xs.len() > 0,
        ValueV::Null => false,
        _ => true,
    }
}

impl Value {
    pub fn truthy(&self) -> (r: bool)
        ensures
            r == truthy_v(self@),
    {
        match self {
            Value::Bool(b) => *b,
            Value::Int(n) => *n != 0,
            Value::Float(b) => !(*b == 0 || *b == 0x8000_0000_0000_0000u64),
            Value::Str(s) => {
                let cs = crate::text::chars_of(s.as_str());
                cs.len() > 0
            },
            Value::List(xs) => xs.len() > 0,
            Value::Null => false,
            _ => true,
        }
    }
}

pub fn float_is_nan_exec(b: u64) -> (r: bool)
    ensures
        r == float_is_nan(b),
{
    (b % 0x8000_0000_0000_0000u64) > 0x7ff0_0000_0000_0000u64
}

// ── comparison ──

/// The three outcomes of a comparison.
#[derive(Clone, Copy, Debug, PartialEq, Eq, Structural)]
pub enum Order {
    Less,
    Equal,
    Greater,
}

pub open spec fn order_int(a: int, b: int) -> Order {
    if a < b {
        Order::Less
    } else if a == b {
        Order::Equal
    } else {
        Order::Greater
    }
}

/// Where a double sits on the number line (its sign and magnitude bits as one integer;
/// both zeros sit at 0).
pub open spec fn float_key(b: u64) -> int {
    if b < 0x8000_0000_0000_0000u64 {
        b as int
    } else {
        -((b - 0x8000_0000_0000_0000u64) as int)
    }
}

/// `partial_cmp` of two doubles: `None` when either is a NaN.
pub open spec fn float_order(a: u64, b: u64) -> Option<Order> {
    if float_is_nan(a) || float_is_nan(b) {
        None
    } else {
        Some(order_int(float_key(a), float_key(b)))
    }
}

/// `==` of two doubles.
pub open spec fn float_eq(a: u64, b: u64) -> bool {
    float_order(a, b) == Some(Order::Equal)
}

pub fn float_order_exec(a: u64, b: u64) -> (r: Option<Order>)
    ensures
        r == float_order(a, b),
{
    if float_is_nan_exec(a) || float_is_nan_exec(b) {
        return None;
    }
    let ka: i128 = if a < 0x8000_0000_0000_0000u64 {
        a as i128
    } else {
        -((a - 0x8000_0000_0000_0000u64) as i128)
    };
    let kb: i128 = if b < 0x8000_0000_0000_0000u64 {
        b as i128
    } else {
        -((b - 0x8000_0000_0000_0000u64) as i128)
    };
    if ka < kb {
        Some(Order::Less)
    } else if ka == kb {
        Some(Order::Equal)
    } else {
        Some(Order::Greater)
    }
}

/// Lexicographic order of strings by code point (`Ord for str`).
pub open spec fn text_order(a: Seq<char>, b: Seq<char>) -> Order
    decreases a.len(),
{
    if a.len() == 0 && b.len() == 0 {
        Order::Equal
    } else if a.len() == 0 {
        Order::Less
    } else if b.len() == 0 {
        Order::Greater
    } else if (a[0] as int) < (b[0] as int) {
        Order::Less
    } else if (a[0] as int) > (b[0] as int) {
        Order::Greater
    } else {
        text_order(a.drop_first(), b.drop_first())
    }
}

pub fn text_order_exec(a: &Vec<char>, b: &Vec<char>) -> (r: Order)
    ensures
        r == text_order(a@, b@),
{
    let mut i: usize = 0;
    assert(a@.skip(0) =~= a@);
    assert(b@.skip(0) =~= b@);
    while i < a.len() && i < b.len() && a[i] == b[i]
        invariant
            i <= a.len(),
            i <= b.len(),
            text_order(a@, b@) == text_order(a@.skip(i as int), b@.skip(i as int)),
        decreases a.len() - i,
    {
        proof {
            assert(a@.skip(i as int).drop_first() =~= a@.skip(i + 1));
            assert(b@.skip(i as int).drop_first() =~= b@.skip(i + 1));
        }
        i += 1;
    }
    let ghost sa = a@.skip(i as int);
    let ghost sb = b@.skip(i as int);
    assert(sa.len() == a.len() - i);
    assert(sb.len() == b.len() - i);
    assert(i < a.len() ==> sa[0] == a@[i as int]);
    assert(i < b.len() ==> sb[0] == b@[i as int]);
    if i == a.len() && i == b.len() {
        Order::Equal
    } else if i == a.len() {
        Order::Less
    } else if i == b.len() {
        Order::Greater
    } else if a[i] < b[i] {
        Order::Less
    } else {
        Order::Greater
    }
}

// ── indexing ──

/// An index counted from the end when negative, if it lands inside a sequence of
/// length `len`.
pub open spec fn norm_index(i: int, len: int) -> Option<int> {
    let idx = if i < 0 {
        len + i
    } else {
        i
    };
    if idx < 0 || idx >= len {
        None
    } else {
        Some(idx)
    }
}

pub open spec fn index_msg(i: int, len: nat) -> Seq<char> {
    "indeks "@ + int_text(i) + " utanfor [0, "@ + nat_text(len) + ")"@
}

/// Turns a possibly negative index into a position in a sequence of length `len`.
pub fn normalize_idx(i: i64, len: usize) -> (r: Result<usize, String>)
    ensures
        match norm_index(i as int, len as int) {
            Some(k) => r is Ok && r->Ok_0 == k,
            None => r is Err && r->Err_0@ == index_msg(i as int, len as nat),
        },
{
    let n = len as i128;
    let idx: i128 = if i < 0 {
        n + i as i128
    } else {
        i as i128
    };
    if idx < 0 || idx >= n {
        let mut v: Vec<char> = Vec::new();
        crate::text::push_str_chars(&mut v, "indeks ");
        crate::text::push_int_text(&mut v, i);
        crate::text::push_str_chars(&mut v, " utanfor [0, ");
        crate::text::push_nat_text(&mut v, len as u64);
        crate::text::push_str_chars(&mut v, ")");
        assert(v@ =~= index_msg(i as int, len as nat));
        Err(crate::text::string_of(v.as_slice()))
    } else {
        Ok(idx as usize)
    }
}

} // verus!
