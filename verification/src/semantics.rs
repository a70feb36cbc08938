//! What running a program does, as mathematics: the state of the interpreter, and
//! the meaning of every expression and statement over it.
//!
//! Each function takes a step budget `f`; a meaning that would go deeper than the
//! budget allows ends in `HaltV::OutOfFuel`.
use vstd::prelude::*;
use crate::ast::{ExprV, StmtV};
use crate::builtins::builtin_s;
use crate::host::{
    ask_bits_s, ask_done_s, ask_int_s, ask_maybe_s, ask_text_s, AnswerV, FloatOpV, HaltV, RequestV,
    TapeV,
};
use crate::ops::binop_s;
use crate::scope::{bind, env_assign, env_fresh, env_lookup, env_pop, env_push, env_set, lookup, Bindings, Frames};
use crate::show::show_s;
use crate::strings::{blank, chomp_s, parse_usize_s, trim_s, utf8_len, words_s};
use crate::text::{lowercase_text, nat_text};
use crate::value::{index_msg, norm_index, truthy_v, ValueV};

verus! {

pub struct HeapObjV {
    pub class: Seq<char>,
    pub fields: Bindings,
}

pub struct MethodV {
    pub name: Seq<char>,
    pub params: Seq<Seq<char>>,
    pub body: Seq<StmtV>,
}

pub struct ClassV {
    pub defaults: Seq<(Seq<char>, ExprV)>,
    pub methods: Seq<MethodV>,
}

pub struct ClassEntryV {
    pub name: Seq<char>,
    pub class: ClassV,
}

/// What an interpreter holds between statements: the functions defined, the reply
/// an HTTP handler has chosen, the objects made, and the classes defined.
pub struct StateV {
    pub globals: Bindings,
    pub response: Option<Seq<char>>,
    pub heap: Seq<HeapObjV>,
    pub classes: Seq<ClassEntryV>,
}

pub enum SignalV {
    Return(ValueV),
    Break,
    Continue,
}

/// An expression's outcome: the tape and state after it, and its value.
pub type Ev = (TapeV, StateV, Result<ValueV, HaltV>);

/// Several expressions' outcome.
pub type Evs = (TapeV, StateV, Result<Seq<ValueV>, HaltV>);

/// A statement's outcome: the tape, state and scopes after it, and the signal it
/// sends outwards (`return`, `break`, `continue`), if any.
pub type Ex = (TapeV, StateV, Frames, Result<Option<SignalV>, HaltV>);

// ── lookups ──

/// Where the method `k` is in `ms` (its last entry), or -1.
pub open spec fn method_slot(ms: Seq<MethodV>, k: Seq<char>) -> int
    decreases ms.len(),
{
    if ms.len() == 0 {
        -1
    } else if ms.last().name == k {
        ms.len() - 1
    } else {
        method_slot(ms.drop_last(), k)
    }
}

/// `HashMap::insert` on methods by name.
pub open spec fn put_method(ms: Seq<MethodV>, m: MethodV) -> Seq<MethodV> {
    let i = method_slot(ms, m.name);
    if i >= 0 {
        ms.update(i, m)
    } else {
        ms.push(m)
    }
}

pub open spec fn class_slot(cs: Seq<ClassEntryV>, k: Seq<char>) -> int
    decreases cs.len(),
{
    if cs.len() == 0 {
        -1
    } else if cs.last().name == k {
        cs.len() - 1
    } else {
        class_slot(cs.drop_last(), k)
    }
}

pub open spec fn put_class(cs: Seq<ClassEntryV>, k: Seq<char>, c: ClassV) -> Seq<ClassEntryV> {
    let i = class_slot(cs, k);
    if i >= 0 {
        cs.update(i, ClassEntryV { name: k, class: c })
    } else {
        cs.push(ClassEntryV { name: k, class: c })
    }
}

/// A name's value: from the scopes, else from the globals.
pub open spec fn var_lookup(st: StateV, env: Frames, k: Seq<char>) -> Option<ValueV> {
    match env_lookup(env, k) {
        Some(v) => Some(v),
        None => lookup(st.globals, k),
    }
}

pub open spec fn quoted(pre: Seq<char>, name: Seq<char>, post: Seq<char>) -> HaltV {
    HaltV::Error(pre + name + post)
}

pub open spec fn undefined(name: Seq<char>) -> HaltV {
    quoted("'"@, name, "' er ikkje definert"@)
}

pub open spec fn with_response(st: StateV, r: Option<Seq<char>>) -> StateV {
    StateV { response: r, ..st }
}

// ── results ──

/// An error whose message ends with a value's text (`pre{}post`).
pub open spec fn show_err(t: TapeV, st: StateV, pre: Seq<char>, v: ValueV, post: Seq<char>) -> (TapeV, StateV, Result<ValueV, HaltV>) {
    let (t1, r) = show_s(t, v);
    match r {
        Ok(s) => (t1, st, Err(HaltV::Error(pre + s + post))),
        Err(h) => (t1, st, Err(h)),
    }
}

/// The same error, as a statement's outcome.
pub open spec fn show_err_x(t: TapeV, st: StateV, env: Frames, pre: Seq<char>, v: ValueV, post: Seq<char>) -> Ex {
    let (t1, s1, r) = show_err(t, st, pre, v, post);
    match r {
        Err(h) => (t1, s1, env, Err(h)),
        Ok(_) => (t1, s1, env, Ok(None)),
    }
}

/// A statement's outcome from an expression's error.
pub open spec fn lift(e: Ev, env: Frames) -> Ex {
    match e.2 {
        Err(h) => (e.0, e.1, env, Err(h)),
        Ok(_) => (e.0, e.1, env, Ok(None)),
    }
}

// ── expressions ──

pub open spec fn eval_s(f: nat, t: TapeV, st: StateV, env: Frames, e: ExprV) -> Ev
    decreases f,
{
    if f == 0 {
        (t, st, Err(HaltV::OutOfFuel))
    } else {
        let g = (f - 1) as nat;
        match e {
            ExprV::Int(n) => (t, st, Ok(ValueV::Int(n))),
            ExprV::Float(s) => {
                let (t1, r) = ask_bits_s(t, RequestV::Float(FloatOpV::Parse(s)));
                match r {
                    Ok(b) => (t1, st, Ok(ValueV::Float(b))),
                    Err(h) => (t1, st, Err(h)),
                }
            },
            ExprV::Str(s) => (t, st, Ok(ValueV::Str(s))),
            ExprV::Bool(b) => (t, st, Ok(ValueV::Bool(b))),
            ExprV::Null => (t, st, Ok(ValueV::Null)),
            ExprV::Var(name) => match var_lookup(st, env, name) {
                Some(v) => (t, st, Ok(v)),
                None => (t, st, Err(undefined(name))),
            },
            ExprV::List(es) => {
                let (t1, s1, r) = evals_s(g, t, st, env, es, 0, Seq::empty());
                match r {
                    Ok(vs) => (t1, s1, Ok(ValueV::List(vs))),
                    Err(h) => (t1, s1, Err(h)),
                }
            },
            ExprV::Index { obj, idx } => eval_index_s(g, t, st, env, *obj, *idx),
            ExprV::BinOp { op, left, right } => {
                let (t1, s1, a) = eval_s(g, t, st, env, *left);
                match a {
                    Err(h) => (t1, s1, Err(h)),
                    Ok(l) => {
                        let (t2, s2, b) = eval_s(g, t1, s1, env, *right);
                        match b {
                            Err(h) => (t2, s2, Err(h)),
                            Ok(r) => {
                                let (t3, c) = binop_s(t2, op, l, r);
                                (t3, s2, c)
                            },
                        }
                    },
                }
            },
            ExprV::Not(x) => {
                let (t1, s1, a) = eval_s(g, t, st, env, *x);
                match a {
                    Ok(v) => (t1, s1, Ok(ValueV::Bool(!truthy_v(v)))),
                    Err(h) => (t1, s1, Err(h)),
                }
            },
            ExprV::Call { name, args } => {
                let (t1, s1, a) = evals_s(g, t, st, env, args, 0, Seq::empty());
                match a {
                    Err(h) => (t1, s1, Err(h)),
                    Ok(vs) => call_func_s(g, t1, s1, name, vs),
                }
            },
            ExprV::New { class } => new_object_s(g, t, st, class),
            ExprV::Field { obj, field } => {
                let (t1, s1, a) = eval_s(g, t, st, env, *obj);
                match a {
                    Err(h) => (t1, s1, Err(h)),
                    Ok(v) => field_s(t1, s1, v, field),
                }
            },
            ExprV::MethodCall { obj, method, args } => {
                let (t1, s1, a) = eval_s(g, t, st, env, *obj);
                match a {
                    Err(h) => (t1, s1, Err(h)),
                    Ok(v) => match v {
                        ValueV::Object { id, class } => {
                            let (t2, s2, b) = evals_s(g, t1, s1, env, args, 0, Seq::empty());
                            match b {
                                Err(h) => (t2, s2, Err(h)),
                                Ok(vs) => call_method_s(g, t2, s2, id, class, method, vs),
                            }
                        },
                        _ => show_err(t1, s1, "kan ikkje kalla metode på "@, v, ""@),
                    },
                }
            },
        }
    }
}

/// Reading a field of an object.
pub open spec fn field_s(t: TapeV, st: StateV, v: ValueV, field: Seq<char>) -> Ev {
    match v {
        ValueV::Object { id, .. } => match lookup(st.heap[id as int].fields, field) {
            Some(x) => (t, st, Ok(x)),
            None => (t, st, Err(quoted("felt '"@, field, "' finst ikkje"@))),
        },
        _ => show_err(t, st, "kan ikkje lesa felt frå "@, v, ""@),
    }
}

/// The values of `es[i..]`, left to right, after those in `acc`.
pub open spec fn evals_s(f: nat, t: TapeV, st: StateV, env: Frames, es: Seq<ExprV>, i: int, acc: Seq<ValueV>) -> Evs
    decreases f,
{
    if i < 0 || i >= es.len() {
        (t, st, Ok(acc))
    } else if f == 0 {
        (t, st, Err(HaltV::OutOfFuel))
    } else {
        let g = (f - 1) as nat;
        let (t1, s1, a) = eval_s(g, t, st, env, es[i]);
        match a {
            Err(h) => (t1, s1, Err(h)),
            Ok(v) => evals_s(g, t1, s1, env, es, i + 1, acc.push(v)),
        }
    }
}

/// `obj[idx]`.
pub open spec fn eval_index_s(f: nat, t: TapeV, st: StateV, env: Frames, obj: ExprV, idx: ExprV) -> Ev
    decreases f,
{
    if f == 0 {
        (t, st, Err(HaltV::OutOfFuel))
    } else {
        let g = (f - 1) as nat;
        let (t1, s1, a) = eval_s(g, t, st, env, obj);
        match a {
            Err(h) => (t1, s1, Err(h)),
            Ok(o) => {
                let (t2, s2, b) = eval_s(g, t1, s1, env, idx);
                match b {
                    Err(h) => (t2, s2, Err(h)),
                    Ok(iv) => match iv {
                        ValueV::Int(n) => index_into(t2, s2, o, n),
                        ValueV::Float(bits) => {
                            let (t3, c) = ask_int_s(t2, RequestV::Float(FloatOpV::ToInt(bits)));
                            match c {
                                Ok(n) => index_into(t3, s2, o, n),
                                Err(h) => (t3, s2, Err(h)),
                            }
                        },
                        _ => show_err(t2, s2, "listeindeks må vera heiltal, fekk "@, iv, ""@),
                    },
                }
            },
        }
    }
}

pub open spec fn index_into(t: TapeV, st: StateV, o: ValueV, n: i64) -> Ev {
    match o {
        ValueV::List(xs) => match norm_index(n as int, xs.len() as int) {
            Some(k) => (t, st, Ok(xs[k])),
            None => (t, st, Err(HaltV::Error(index_msg(n as int, xs.len())))),
        },
        ValueV::Str(s) => match norm_index(n as int, s.len() as int) {
            Some(k) => (t, st, Ok(ValueV::Str(seq![s[k]]))),
            None => (t, st, Err(HaltV::Error(index_msg(n as int, s.len())))),
        },
        _ => show_err(t, st, "kan ikkje indeksera "@, o, ""@),
    }
}

/// `Ny K`: a new object of class `K`, its fields set from the class's defaults.
pub open spec fn new_object_s(f: nat, t: TapeV, st: StateV, class: Seq<char>) -> Ev
    decreases f,
{
    if f == 0 {
        (t, st, Err(HaltV::OutOfFuel))
    } else {
        let g = (f - 1) as nat;
        let ci = class_slot(st.classes, class);
        if ci < 0 {
            (t, st, Err(quoted("klasse '"@, class, "' er ikkje definert"@)))
        } else {
            let defaults = st.classes[ci].class.defaults;
            let id = st.heap.len();
            let s1 = StateV { heap: st.heap.push(HeapObjV { class, fields: Seq::empty() }), ..st };
            let (t1, s2, r) = defaults_s(g, t, s1, id, defaults, 0);
            match r {
                Err(h) => (t1, s2, Err(h)),
                Ok(_) => (t1, s2, Ok(ValueV::Object { id, class })),
            }
        }
    }
}

/// Sets the fields `defaults[i..]` of object `id`, each from its expression run in
/// empty scopes.
pub open spec fn defaults_s(f: nat, t: TapeV, st: StateV, id: nat, defaults: Seq<(Seq<char>, ExprV)>, i: int) -> Ev
    decreases f,
{
    if i < 0 || i >= defaults.len() {
        (t, st, Ok(ValueV::Null))
    } else if f == 0 {
        (t, st, Err(HaltV::OutOfFuel))
    } else {
        let g = (f - 1) as nat;
        let (t1, s1, a) = eval_s(g, t, st, env_fresh(), defaults[i].1);
        match a {
            Err(h) => (t1, s1, Err(h)),
            Ok(v) => {
                let s2 = StateV {
                    heap: s1.heap.update(
                        id as int,
                        HeapObjV { class: s1.heap[id as int].class, fields: bind(s1.heap[id as int].fields, defaults[i].0, v) },
                    ),
                    ..s1
                };
                defaults_s(g, t1, s2, id, defaults, i + 1)
            },
        }
    }
}

/// Binds the names to the values, in order, in a fresh stack of scopes.
pub open spec fn bind_params(env: Frames, params: Seq<Seq<char>>, args: Seq<ValueV>, i: int) -> Frames
    decreases params.len() - i,
{
    if i < 0 || i >= params.len() || i >= args.len() {
        env
    } else {
        bind_params(env_set(env, params[i], args[i]), params, args, i + 1)
    }
}

pub open spec fn arity_msg(who: Seq<char>, want: nat, got: nat) -> HaltV {
    HaltV::Error(who + ": ventar "@ + nat_text(want) + " argument, fekk "@ + nat_text(got))
}

/// Calling the function `name`: a built-in if one has that name, else a function
/// the program defined.
pub open spec fn call_func_s(f: nat, t: TapeV, st: StateV, name: Seq<char>, args: Seq<ValueV>) -> Ev
    decreases f,
{
    if f == 0 {
        (t, st, Err(HaltV::OutOfFuel))
    } else {
        let g = (f - 1) as nat;
        let (t1, b) = builtin_s(t, name, args);
        match b {
            Err(h) => (t1, st, Err(h)),
            Ok(Some(v)) => (t1, st, Ok(v)),
            Ok(None) => match lookup(st.globals, name) {
                None => (t1, st, Err(undefined(name))),
                Some(ValueV::Func { params, body }) => if args.len() != params.len() {
                    (t1, st, Err(arity_msg(name, params.len(), args.len())))
                } else {
                    let env = bind_params(env_fresh(), params, args, 0);
                    let (t2, s2, _e, r) = block_s(g, t1, st, env, body, 0);
                    match r {
                        Err(h) => (t2, s2, Err(h)),
                        Ok(Some(SignalV::Return(v))) => (t2, s2, Ok(v)),
                        Ok(_) => (t2, s2, Ok(ValueV::Null)),
                    }
                },
                Some(_) => (t1, st, Err(quoted("'"@, name, "' er ikkje ein funksjon"@))),
            },
        }
    }
}

/// Calling `method` on object `id` of class `class`.
pub open spec fn call_method_s(f: nat, t: TapeV, st: StateV, id: nat, class: Seq<char>, method: Seq<char>, args: Seq<ValueV>) -> Ev
    decreases f,
{
    if f == 0 {
        (t, st, Err(HaltV::OutOfFuel))
    } else {
        let g = (f - 1) as nat;
        let ci = class_slot(st.classes, class);
        if ci < 0 {
            (t, st, Err(quoted("klasse '"@, class, "' finst ikkje"@)))
        } else {
            let ms = st.classes[ci].class.methods;
            let mi = method_slot(ms, method);
            if mi < 0 {
                (t, st, Err(HaltV::Error("'"@ + class + "' har ingen metode '"@ + method + "'"@)))
            } else {
                let m = ms[mi];
                if args.len() != m.params.len() {
                    (t, st, Err(arity_msg(class + "."@ + method, m.params.len(), args.len())))
                } else {
                    let env0 = env_set(env_fresh(), "sjølv"@, ValueV::Object { id, class });
                    let env = bind_params(env0, m.params, args, 0);
                    let (t2, s2, _e, r) = block_s(g, t, st, env, m.body, 0);
                    match r {
                        Err(h) => (t2, s2, Err(h)),
                        Ok(Some(SignalV::Return(v))) => (t2, s2, Ok(v)),
                        Ok(_) => (t2, s2, Ok(ValueV::Null)),
                    }
                }
            }
        }
    }
}

// ── statements ──

/// The statements `ss[i..]` in order, until one sends a signal or fails.
pub open spec fn block_s(f: nat, t: TapeV, st: StateV, env: Frames, ss: Seq<StmtV>, i: int) -> Ex
    decreases f,
{
    if i < 0 || i >= ss.len() {
        (t, st, env, Ok(None))
    } else if f == 0 {
        (t, st, env, Err(HaltV::OutOfFuel))
    } else {
        let g = (f - 1) as nat;
        let (t1, s1, e1, r) = exec_s(g, t, st, env, ss[i]);
        match r {
            Ok(None) => block_s(g, t1, s1, e1, ss, i + 1),
            _ => (t1, s1, e1, r),
        }
    }
}

/// A block in a scope of its own. The scope is closed when the block ends normally;
/// a failure leaves it open, as the failure ends the enclosing blocks too.
pub open spec fn scoped_s(f: nat, t: TapeV, st: StateV, env: Frames, body: Seq<StmtV>) -> Ex
    decreases f,
{
    if f == 0 {
        (t, st, env, Err(HaltV::OutOfFuel))
    } else {
        let g = (f - 1) as nat;
        let (t1, s1, e1, r) = block_s(g, t, st, env_push(env), body, 0);
        match r {
            Err(h) => (t1, s1, e1, Err(h)),
            Ok(sig) => (t1, s1, env_pop(e1), Ok(sig)),
        }
    }
}

pub open spec fn exec_s(f: nat, t: TapeV, st: StateV, env: Frames, s: StmtV) -> Ex
    decreases f,
{
    if f == 0 {
        (t, st, env, Err(HaltV::OutOfFuel))
    } else {
        let g = (f - 1) as nat;
        match s {
            StmtV::Assign { name, value, .. } => {
                let (t1, s1, a) = eval_s(g, t, st, env, value);
                match a {
                    Ok(v) => (t1, s1, env_set(env, name, v), Ok(None)),
                    Err(h) => (t1, s1, env, Err(h)),
                }
            },
            StmtV::Reassign { name, value, .. } => {
                let (t1, s1, a) = eval_s(g, t, st, env, value);
                match a {
                    Ok(v) => (t1, s1, env_assign(env, name, v), Ok(None)),
                    Err(h) => (t1, s1, env, Err(h)),
                }
            },
            StmtV::Print { value, .. } => {
                let (t1, s1, a) = eval_s(g, t, st, env, value);
                match a {
                    Err(h) => (t1, s1, env, Err(h)),
                    Ok(v) => {
                        let (t2, b) = show_s(t1, v);
                        match b {
                            Err(h) => (t2, s1, env, Err(h)),
                            Ok(text) => {
                                let (t3, c) = ask_done_s(t2, RequestV::Print(text));
                                match c {
                                    Err(h) => (t3, s1, env, Err(h)),
                                    Ok(_) => (t3, s1, env, Ok(None)),
                                }
                            },
                        }
                    },
                }
            },
            StmtV::Input { name, .. } => {
                let (t1, a) = ask_text_s(t, RequestV::ReadInput);
                match a {
                    Err(h) => (t1, st, env, Err(h)),
                    Ok(line) => (t1, st, env_set(env, name, ValueV::Str(chomp_s(line))), Ok(None)),
                }
            },
            StmtV::If { cond, then_body, else_body, .. } => {
                let (t1, s1, a) = eval_s(g, t, st, env, cond);
                match a {
                    Err(h) => (t1, s1, env, Err(h)),
                    Ok(v) => if truthy_v(v) {
                        scoped_s(g, t1, s1, env, then_body)
                    } else {
                        match else_body {
                            Some(b) => scoped_s(g, t1, s1, env, b),
                            None => (t1, s1, env, Ok(None)),
                        }
                    },
                }
            },
            StmtV::While { cond, body, .. } => while_s(g, t, st, env, cond, body),
            StmtV::ForEach { var, iterable, body, .. } => {
                let (t1, s1, a) = eval_s(g, t, st, env, iterable);
                match a {
                    Err(h) => (t1, s1, env, Err(h)),
                    Ok(v) => match v {
                        ValueV::List(xs) => each_s(g, t1, s1, env, var, xs, 0, body),
                        ValueV::Str(cs) => each_s(g, t1, s1, env, var, crate::builtins::char_texts(cs), 0, body),
                        _ => show_err_x(t1, s1, env, "kan ikkje iterera over "@, v, ""@),
                    },
                }
            },
            StmtV::InfLoop { body, .. } => forever_s(g, t, st, env, body),
            StmtV::CountLoop { count, var, body, .. } => {
                let (t1, s1, a) = eval_s(g, t, st, env, count);
                match a {
                    Err(h) => (t1, s1, env, Err(h)),
                    Ok(v) => match v {
                        ValueV::Int(n) => count_s(g, t1, s1, env, var, n, 0, body),
                        ValueV::Float(b) => {
                            let (t2, c) = ask_int_s(t1, RequestV::Float(FloatOpV::ToInt(b)));
                            match c {
                                Err(h) => (t2, s1, env, Err(h)),
                                Ok(n) => count_s(g, t2, s1, env, var, n, 0, body),
                            }
                        },
                        _ => show_err_x(t1, s1, env, "gongar krev heiltal, fekk "@, v, ""@),
                    },
                }
            },
            StmtV::FuncDef { name, params, body, .. } => (
                t,
                StateV { globals: bind(st.globals, name, ValueV::Func { params, body }), ..st },
                env,
                Ok(None),
            ),
            StmtV::FuncCall { name, args, .. } => {
                let (t1, s1, a) = evals_s(g, t, st, env, args, 0, Seq::empty());
                match a {
                    Err(h) => (t1, s1, env, Err(h)),
                    Ok(vs) => lift(call_func_s(g, t1, s1, name, vs), env),
                }
            },
            StmtV::Return { value, .. } => {
                let (t1, s1, a) = eval_s(g, t, st, env, value);
                match a {
                    Err(h) => (t1, s1, env, Err(h)),
                    Ok(v) => (t1, s1, env, Ok(Some(SignalV::Return(v)))),
                }
            },
            StmtV::Break { .. } => (t, st, env, Ok(Some(SignalV::Break))),
            StmtV::Continue { .. } => (t, st, env, Ok(Some(SignalV::Continue))),
            StmtV::Raise { value, .. } => {
                let (t1, s1, a) = eval_s(g, t, st, env, value);
                match a {
                    Err(h) => (t1, s1, env, Err(h)),
                    Ok(v) => show_err_x(t1, s1, env, ""@, v, ""@),
                }
            },
            StmtV::Assert { cond, .. } => {
                let (t1, s1, a) = eval_s(g, t, st, env, cond);
                match a {
                    Err(h) => (t1, s1, env, Err(h)),
                    Ok(v) => if truthy_v(v) {
                        (t1, s1, env, Ok(None))
                    } else {
                        show_err_x(t1, s1, env, "Vakt broten: "@, v, " er ikkje sant"@)
                    },
                }
            },
            StmtV::Sleep { secs, .. } => {
                let (t1, s1, a) = eval_s(g, t, st, env, secs);
                match a {
                    Err(h) => (t1, s1, env, Err(h)),
                    Ok(v) => match v {
                        ValueV::Int(n) => done_x(ask_done_s(t1, RequestV::SleepInt(n)), s1, env),
                        ValueV::Float(b) => done_x(ask_done_s(t1, RequestV::SleepFloat(b)), s1, env),
                        _ => show_err_x(t1, s1, env, "kvil krev tal, fekk "@, v, ""@),
                    },
                }
            },
            StmtV::Respond { value, .. } => {
                let (t1, s1, a) = eval_s(g, t, st, env, value);
                match a {
                    Err(h) => (t1, s1, env, Err(h)),
                    Ok(v) => {
                        let (t2, b) = show_s(t1, v);
                        match b {
                            Err(h) => (t2, s1, env, Err(h)),
                            Ok(text) => (t2, with_response(s1, Some(text)), env, Ok(None)),
                        }
                    },
                }
            },
            StmtV::Serve { port, body, .. } => serve_s(g, t, st, env, port, body),
            StmtV::ClassDef { name, body, .. } => match class_of(body) {
                Some(c) => (t, StateV { classes: put_class(st.classes, name, c), ..st }, env, Ok(None)),
                None => (t, st, env, Err(HaltV::Error("Klasse kan berre innehalda felt og metodar"@))),
            },
            StmtV::FieldAssign { obj, field, value, .. } => match var_lookup(st, env, obj) {
                Some(ValueV::Object { id, .. }) => {
                    let (t1, s1, a) = eval_s(g, t, st, env, value);
                    match a {
                        Err(h) => (t1, s1, env, Err(h)),
                        Ok(v) => (
                            t1,
                            StateV {
                                heap: s1.heap.update(
                                    id as int,
                                    HeapObjV { class: s1.heap[id as int].class, fields: bind(s1.heap[id as int].fields, field, v) },
                                ),
                                ..s1
                            },
                            env,
                            Ok(None),
                        ),
                    }
                },
                _ => (t, st, env, Err(quoted("'"@, obj, "' er ikkje eit objekt"@))),
            },
            StmtV::MethodCall { obj, method, args, .. } => match var_lookup(st, env, obj) {
                Some(ValueV::Object { id, class }) => {
                    let (t1, s1, a) = evals_s(g, t, st, env, args, 0, Seq::empty());
                    match a {
                        Err(h) => (t1, s1, env, Err(h)),
                        Ok(vs) => lift(call_method_s(g, t1, s1, id, class, method, vs), env),
                    }
                },
                _ => (t, st, env, Err(quoted("'"@, obj, "' er ikkje eit objekt"@))),
            },
            StmtV::TryCatch { try_body, catch_body, .. } => {
                let (t1, s1, e1, r) = block_s(g, t, st, env_push(env), try_body, 0);
                let e2 = env_pop(e1);
                match r {
                    Err(HaltV::Error(m)) => {
                        let (t2, s2, e3, r2) = block_s(g, t1, s1, env_set(env_push(e2), "feilen"@, ValueV::Str(m)), catch_body, 0);
                        match r2 {
                            Err(h) => (t2, s2, e3, Err(h)),
                            Ok(sig) => (t2, s2, env_pop(e3), Ok(sig)),
                        }
                    },
                    _ => (t1, s1, e2, r),
                }
            },
            StmtV::ReadFile { path, name, .. } => {
                let (t1, s1, a) = eval_s(g, t, st, env, path);
                match a {
                    Err(h) => (t1, s1, env, Err(h)),
                    Ok(p) => {
                        let (t2, b) = show_s(t1, p);
                        match b {
                            Err(h) => (t2, s1, env, Err(h)),
                            Ok(ps) => {
                                let (t3, c) = ask_maybe_s(t2, RequestV::ReadFile(ps), 1);
                                match c {
                                    Err(h) => (t3, s1, env, Err(h)),
                                    Ok(Err(m)) => (t3, s1, env, Err(HaltV::Error("kan ikkje lesa '"@ + ps + "': "@ + m))),
                                    Ok(Ok(AnswerV::Text(text))) => (t3, s1, env_set(env, name, ValueV::Str(text)), Ok(None)),
                                    Ok(Ok(_)) => (t3, s1, env, Err(HaltV::Mismatch)),
                                }
                            },
                        }
                    },
                }
            },
            StmtV::WriteFile { path, content, .. } => {
                let (t1, s1, a) = eval_s(g, t, st, env, path);
                match a {
                    Err(h) => (t1, s1, env, Err(h)),
                    Ok(p) => {
                        let (t2, s2, b) = eval_s(g, t1, s1, env, content);
                        match b {
                            Err(h) => (t2, s2, env, Err(h)),
                            Ok(c) => write_file_s(t2, s2, env, p, c),
                        }
                    },
                }
            },
        }
    }
}

pub open spec fn done_x(d: (TapeV, Result<(), HaltV>), st: StateV, env: Frames) -> Ex {
    match d.1 {
        Err(h) => (d.0, st, env, Err(h)),
        Ok(_) => (d.0, st, env, Ok(None)),
    }
}

pub open spec fn write_file_s(t: TapeV, st: StateV, env: Frames, p: ValueV, c: ValueV) -> Ex {
    let (t1, a) = show_s(t, p);
    match a {
        Err(h) => (t1, st, env, Err(h)),
        Ok(ps) => {
            let (t2, b) = show_s(t1, c);
            match b {
                Err(h) => (t2, st, env, Err(h)),
                Ok(cs) => {
                    let (t3, r) = ask_maybe_s(t2, RequestV::WriteFile(ps, cs), 0);
                    match r {
                        Err(h) => (t3, st, env, Err(h)),
                        Ok(Err(m)) => (t3, st, env, Err(HaltV::Error("kan ikkje skriva '"@ + ps + "': "@ + m))),
                        Ok(Ok(_)) => (t3, st, env, Ok(None)),
                    }
                },
            }
        },
    }
}

/// The class a class body declares: its field defaults and methods, or `None` when
/// it holds anything else.
pub open spec fn class_from(body: Seq<StmtV>, i: int, c: ClassV) -> Option<ClassV>
    decreases body.len() - i,
{
    if i < 0 || i >= body.len() {
        Some(c)
    } else {
        match body[i] {
            StmtV::Assign { name, value, .. } => class_from(
                body,
                i + 1,
                ClassV { defaults: c.defaults.push((name, value)), methods: c.methods },
            ),
            StmtV::FuncDef { name, params, body: mb, .. } => class_from(
                body,
                i + 1,
                ClassV { defaults: c.defaults, methods: put_method(c.methods, MethodV { name, params, body: mb }) },
            ),
            _ => None,
        }
    }
}

pub open spec fn class_of(body: Seq<StmtV>) -> Option<ClassV> {
    class_from(body, 0, ClassV { defaults: Seq::empty(), methods: Seq::empty() })
}

/// What a loop does with the signal of one round: go on (`None`), or end with this
/// outcome.
pub open spec fn after_round(r: Option<SignalV>) -> Option<Option<SignalV>> {
    match r {
        None => None,
        Some(SignalV::Continue) => None,
        Some(SignalV::Break) => Some(None),
        Some(SignalV::Return(v)) => Some(Some(SignalV::Return(v))),
    }
}

pub open spec fn while_s(f: nat, t: TapeV, st: StateV, env: Frames, cond: ExprV, body: Seq<StmtV>) -> Ex
    decreases f,
{
    if f == 0 {
        (t, st, env, Err(HaltV::OutOfFuel))
    } else {
        let g = (f - 1) as nat;
        let (t1, s1, a) = eval_s(g, t, st, env, cond);
        match a {
            Err(h) => (t1, s1, env, Err(h)),
            Ok(v) => if !truthy_v(v) {
                (t1, s1, env, Ok(None))
            } else {
                let (t2, s2, e2, r) = scoped_s(g, t1, s1, env, body);
                match r {
                    Err(h) => (t2, s2, e2, Err(h)),
                    Ok(sig) => match after_round(sig) {
                        None => while_s(g, t2, s2, e2, cond, body),
                        Some(out) => (t2, s2, e2, Ok(out)),
                    },
                }
            },
        }
    }
}

pub open spec fn forever_s(f: nat, t: TapeV, st: StateV, env: Frames, body: Seq<StmtV>) -> Ex
    decreases f,
{
    if f == 0 {
        (t, st, env, Err(HaltV::OutOfFuel))
    } else {
        let g = (f - 1) as nat;
        let (t2, s2, e2, r) = scoped_s(g, t, st, env, body);
        match r {
            Err(h) => (t2, s2, e2, Err(h)),
            Ok(sig) => match after_round(sig) {
                None => forever_s(g, t2, s2, e2, body),
                Some(out) => (t2, s2, e2, Ok(out)),
            },
        }
    }
}

/// The rounds for `items[i..]`, each with `var` bound to the item in the round's scope.
pub open spec fn each_s(f: nat, t: TapeV, st: StateV, env: Frames, var: Seq<char>, items: Seq<ValueV>, i: int, body: Seq<StmtV>) -> Ex
    decreases f,
{
    if i < 0 || i >= items.len() {
        (t, st, env, Ok(None))
    } else if f == 0 {
        (t, st, env, Err(HaltV::OutOfFuel))
    } else {
        let g = (f - 1) as nat;
        let (t2, s2, e2, r) = block_s(g, t, st, env_set(env_push(env), var, items[i]), body, 0);
        match r {
            Err(h) => (t2, s2, e2, Err(h)),
            Ok(sig) => match after_round(sig) {
                None => each_s(g, t2, s2, env_pop(e2), var, items, i + 1, body),
                Some(out) => (t2, s2, env_pop(e2), Ok(out)),
            },
        }
    }
}

/// The rounds `i`, `i + 1`, …, `n - 1`, each with `var` bound to its number.
pub open spec fn count_s(f: nat, t: TapeV, st: StateV, env: Frames, var: Seq<char>, n: i64, i: i64, body: Seq<StmtV>) -> Ex
    decreases f,
{
    if i >= n {
        (t, st, env, Ok(None))
    } else if f == 0 {
        (t, st, env, Err(HaltV::OutOfFuel))
    } else {
        let g = (f - 1) as nat;
        let (t2, s2, e2, r) = block_s(g, t, st, env_set(env_push(env), var, ValueV::Int(i)), body, 0);
        match r {
            Err(h) => (t2, s2, e2, Err(h)),
            Ok(sig) => match after_round(sig) {
                None => count_s(g, t2, s2, env_pop(e2), var, n, (i + 1) as i64, body),
                Some(out) => (t2, s2, env_pop(e2), Ok(out)),
            },
        }
    }
}

// ── the web server ──

/// The response the server sends for a reply text.
pub open spec fn http_text(resp: Seq<char>) -> Seq<char> {
    "HTTP/1.1 200 OK\r\nContent-Length: "@ + nat_text(utf8_len(resp))
        + "\r\nContent-Type: text/plain; charset=utf-8\r\nConnection: close\r\n\r\n"@ + resp
}

/// The length a header line gives the body, if it is a `Content-Length` header
/// (case does not matter; a value that does not parse counts as 0).
pub open spec fn content_length(line: Seq<char>) -> Option<nat> {
    let lower = lowercase_text(line);
    let key = "content-length:"@;
    if lower.len() >= key.len() && lower.take(key.len() as int) == key {
        match parse_usize_s(trim_s(lower.skip(key.len() as int))) {
            Some(n) => Some(n as nat),
            None => Some(0),
        }
    } else {
        None
    }
}

/// Reads header lines up to the first blank one; the result is the body's length
/// as the last `Content-Length` header gave it (`cl` until then).
pub open spec fn headers_s(f: nat, t: TapeV, cl: nat) -> (TapeV, Result<nat, HaltV>)
    decreases f,
{
    if f == 0 {
        (t, Err(HaltV::OutOfFuel))
    } else {
        let (t1, a) = ask_text_s(t, RequestV::ReadConn);
        match a {
            Err(h) => (t1, Err(h)),
            Ok(line) => if blank(line) {
                (t1, Ok(cl))
            } else {
                headers_s(
                    (f - 1) as nat,
                    t1,
                    match content_length(line) {
                        Some(n) => n,
                        None => cl,
                    },
                )
            },
        }
    }
}

pub open spec fn first_or(ws: Seq<Seq<char>>, i: int, d: Seq<char>) -> Seq<char> {
    if 0 <= i < ws.len() {
        ws[i]
    } else {
        d
    }
}

/// `Lytt ved port …:`.
pub open spec fn serve_s(f: nat, t: TapeV, st: StateV, env: Frames, port: ExprV, body: Seq<StmtV>) -> Ex
    decreases f,
{
    if f == 0 {
        (t, st, env, Err(HaltV::OutOfFuel))
    } else {
        let g = (f - 1) as nat;
        let (t1, s1, a) = eval_s(g, t, st, env, port);
        match a {
            Err(h) => (t1, s1, env, Err(h)),
            Ok(v) => match v {
                ValueV::Int(n) => listen_s(g, t1, s1, env, n as u16, body),
                ValueV::Float(b) => {
                    let (t2, c) = ask_int_s(t1, RequestV::Float(FloatOpV::ToPort(b)));
                    match c {
                        Err(h) => (t2, s1, env, Err(h)),
                        Ok(p) => listen_s(g, t2, s1, env, p as u16, body),
                    }
                },
                _ => show_err_x(t1, s1, env, "port må vera heiltal, fekk "@, v, ""@),
            },
        }
    }
}

pub open spec fn listen_s(f: nat, t: TapeV, st: StateV, env: Frames, p: u16, body: Seq<StmtV>) -> Ex
    decreases f,
{
    if f == 0 {
        (t, st, env, Err(HaltV::OutOfFuel))
    } else {
        let (t1, a) = ask_maybe_s(t, RequestV::Listen(p), 0);
        match a {
            Err(h) => (t1, st, env, Err(h)),
            Ok(Err(m)) => (t1, st, env, Err(HaltV::Error("kan ikkje lytta på port "@ + nat_text(p as nat) + ": "@ + m))),
            Ok(Ok(_)) => serve_loop_s((f - 1) as nat, t1, st, env, body),
        }
    }
}

/// Serves connections one after another, for as long as the budget lasts.
pub open spec fn serve_loop_s(f: nat, t: TapeV, st: StateV, env: Frames, body: Seq<StmtV>) -> Ex
    decreases f,
{
    if f == 0 {
        (t, st, env, Err(HaltV::OutOfFuel))
    } else {
        let g = (f - 1) as nat;
        let (t1, a) = ask_done_s(t, RequestV::Accept);
        match a {
            Err(h) => (t1, st, env, Err(h)),
            Ok(_) => {
                let (t2, b) = ask_text_s(t1, RequestV::ReadConn);
                match b {
                    Err(h) => (t2, st, env, Err(h)),
                    Ok(line) => {
                        let parts = words_s(line);
                        let (t3, c) = headers_s(g, t2, 0);
                        match c {
                            Err(h) => (t3, st, env, Err(h)),
                            Ok(cl) => {
                                let (t4, d) = ask_text_s(t3, RequestV::ReadBody(cl));
                                match d {
                                    Err(h) => (t4, st, env, Err(h)),
                                    Ok(kropp) => {
                                        let e1 = env_set(
                                            env_set(
                                                env_set(env_push(env), "metode"@, ValueV::Str(first_or(parts, 0, "GET"@))),
                                                "vegen"@,
                                                ValueV::Str(first_or(parts, 1, "/"@)),
                                            ),
                                            "kropp"@,
                                            ValueV::Str(kropp),
                                        );
                                        let (t5, s5, e5, r) = block_s(g, t4, with_response(st, None), e1, body, 0);
                                        match r {
                                            Err(HaltV::Error(_)) => reply_s(g, t5, s5, env_pop(e5), body),
                                            Err(h) => (t5, s5, e5, Err(h)),
                                            Ok(_) => reply_s(g, t5, s5, env_pop(e5), body),
                                        }
                                    },
                                }
                            },
                        }
                    },
                }
            },
        }
    }
}

/// Sends the reply the handler chose (empty if none) and serves the next connection.
pub open spec fn reply_s(f: nat, t: TapeV, st: StateV, env: Frames, body: Seq<StmtV>) -> Ex
    decreases f,
{
    if f == 0 {
        (t, st, env, Err(HaltV::OutOfFuel))
    } else {
        let resp = match st.response {
            Some(r) => r,
            None => Seq::empty(),
        };
        let s1 = with_response(st, None);
        let (t1, a) = ask_done_s(t, RequestV::Send(http_text(resp)));
        match a {
            Err(h) => (t1, s1, env, Err(h)),
            Ok(_) => serve_loop_s((f - 1) as nat, t1, s1, env, body),
        }
    }
}

/// Running a program: its statements in one fresh scope. A signal at the top ends
/// the program quietly.
pub open spec fn run_s(f: nat, t: TapeV, st: StateV, program: Seq<StmtV>) -> (TapeV, StateV, Result<(), HaltV>) {
    let (t1, s1, _e, r) = block_s(f, t, st, env_fresh(), program, 0);
    match r {
        Err(h) => (t1, s1, Err(h)),
        Ok(_) => (t1, s1, Ok(())),
    }
}

} // verus!
