//! The interpreter: runs a program's statements over its state, and asks the host
//! for whatever lies outside it. Every function here does what its counterpart in
//! `semantics` says.
use std::rc::Rc;
use vstd::prelude::*;
use crate::handles::{frames_ok, id_bound, state_ok, vals_ok};
use crate::host::{halt_settled, settled, tape_kept};
use crate::ast::{clone_names, clone_stmts, expr_v, exprs_v, names_v, stmt_v, stmts_v, Expr, ExprV, Stmt, StmtV};
use crate::builtins::{call_builtin, char_texts, char_values, opt_v};
use crate::host::{res_v, Answer, AnswerV, FloatOp, Halt, HaltV, Request, Tape, TapeV};
use crate::ops::apply_binop;
use crate::scope::{
    bind, env_assign, env_fresh, env_pop, env_push, env_set, lookup, Bindings, Env, Frames, Scope,
};
use crate::semantics::{
    after_round, arity_msg, bind_params, block_s, call_func_s, call_method_s, class_from, class_of,
    class_slot, content_length, count_s, defaults_s, each_s, eval_index_s, eval_s, evals_s, exec_s,
    field_s, first_or, forever_s, headers_s, http_text, index_into, method_slot, new_object_s,
    put_class, put_method, quoted, run_s, scoped_s, serve_loop_s, serve_s, listen_s, undefined,
    var_lookup, while_s, with_response, ClassEntryV, ClassV, HeapObjV, MethodV, SignalV, StateV,
};
use crate::show::{show, show_s};
use crate::strings::{chomp, parse_usize, trim_chars, utf8_length, words, words_s};
use crate::text::{chars_of, lowercase_text, nat_text, push_nat_text, push_wide_text, string_of, to_lowercase};
use crate::value::{clone_value, index_msg, norm_index, normalize_idx, push_value, truthy_v, value_v, values_v, Value, ValueV};

verus! {

struct HeapObj {
    class: String,
    fields: Scope,
}

struct Method {
    name: String,
    params: Rc<Vec<String>>,
    body: Rc<Vec<Stmt>>,
}

struct FieldDefault {
    name: String,
    expr: Expr,
}

struct StoredClass {
    defaults: Rc<Vec<FieldDefault>>,
    methods: Vec<Method>,
}

struct ClassEntry {
    name: String,
    class: StoredClass,
}

/// A running interpreter's state: the functions defined, the reply an HTTP handler
/// chose, the objects made and the classes defined. It lives on from one program to
/// the next, as in the REPL.
pub struct Interpreter {
    globals: Scope,
    response: Option<String>,
    heap: Vec<HeapObj>,
    classes: Vec<ClassEntry>,
}

/// A signal a statement sends to the blocks around it.
pub enum Signal {
    Return(Value),
    Break,
    Continue,
}

spec fn heap_v(h: Seq<HeapObj>) -> Seq<HeapObjV> {
    Seq::new(h.len(), |i: int| HeapObjV { class: h[i].class@, fields: h[i].fields@ })
}

spec fn defaults_v(d: Seq<FieldDefault>) -> Seq<(Seq<char>, ExprV)> {
    Seq::new(d.len(), |i: int| (d[i].name@, d[i].expr@))
}

spec fn method_v(m: Method) -> MethodV {
    MethodV { name: m.name@, params: names_v(*m.params), body: stmts_v(*m.body) }
}

spec fn methods_v(ms: Seq<Method>) -> Seq<MethodV> {
    Seq::new(ms.len(), |i: int| method_v(ms[i]))
}

spec fn class_v(c: StoredClass) -> ClassV {
    ClassV { defaults: defaults_v((*c.defaults)@), methods: methods_v(c.methods@) }
}

spec fn classes_v(cs: Seq<ClassEntry>) -> Seq<ClassEntryV> {
    Seq::new(cs.len(), |i: int| ClassEntryV { name: cs[i].name@, class: class_v(cs[i].class) })
}

spec fn response_v(r: Option<String>) -> Option<Seq<char>> {
    match r {
        Some(s) => Some(s@),
        None => None,
    }
}

impl View for Interpreter {
    type V = StateV;

    closed spec fn view(&self) -> StateV {
        StateV {
            globals: self.globals@,
            response: response_v(self.response),
            heap: heap_v(self.heap@),
            classes: classes_v(self.classes@),
        }
    }
}

pub open spec fn signal_v(s: Signal) -> SignalV {
    match s {
        Signal::Return(v) => SignalV::Return(v@),
        Signal::Break => SignalV::Break,
        Signal::Continue => SignalV::Continue,
    }
}

pub open spec fn flow_v(r: Result<Option<Signal>, Halt>) -> Result<Option<SignalV>, HaltV> {
    match r {
        Ok(Some(s)) => Ok(Some(signal_v(s))),
        Ok(None) => Ok(None),
        Err(h) => Err(h@),
    }
}

pub open spec fn vals_v(r: Result<Vec<Value>, Halt>) -> Result<Seq<ValueV>, HaltV> {
    match r {
        Ok(v) => Ok(values_v(v)),
        Err(h) => Err(h@),
    }
}

pub open spec fn unit_v(r: Result<(), Halt>) -> Result<(), HaltV> {
    match r {
        Ok(_) => Ok(()),
        Err(h) => Err(h@),
    }
}

/// The step budget of a run.
pub open spec fn budget() -> nat {
    u64::MAX as nat
}

proof fn lemma_class_slot(cs: Seq<ClassEntryV>, k: Seq<char>, m: int)
    requires
        -1 <= m < cs.len(),
        m >= 0 ==> cs[m].name == k,
        forall|j: int| m < j < cs.len() ==> cs[j].name != k,
    ensures
        class_slot(cs, k) == m,
    decreases cs.len(),
{
    if cs.len() > 0 && m < cs.len() - 1 {
        assert(cs[cs.len() - 1].name != k);
        lemma_class_slot(cs.drop_last(), k, m);
    }
}

proof fn lemma_method_slot(ms: Seq<MethodV>, k: Seq<char>, m: int)
    requires
        -1 <= m < ms.len(),
        m >= 0 ==> ms[m].name == k,
        forall|j: int| m < j < ms.len() ==> ms[j].name != k,
    ensures
        method_slot(ms, k) == m,
    decreases ms.len(),
{
    if ms.len() > 0 && m < ms.len() - 1 {
        assert(ms[ms.len() - 1].name != k);
        lemma_method_slot(ms.drop_last(), k, m);
    }
}

fn find_method(ms: &Vec<Method>, k: &String) -> (r: Option<usize>)
    ensures
        match r {
            Some(i) => i == method_slot(methods_v(ms@), k@) && i < ms@.len(),
            None => method_slot(methods_v(ms@), k@) == -1,
        },
{
    let ghost mv = methods_v(ms@);
    let mut i = ms.len();
    while i > 0
        invariant
            i <= ms@.len(),
            mv == methods_v(ms@),
            forall|j: int| i <= j < ms@.len() ==> mv[j].name != k@,
        decreases i,
    {
        if ms[i - 1].name == *k {
            proof {
                lemma_method_slot(mv, k@, i - 1);
            }
            return Some(i - 1);
        }
        i -= 1;
    }
    proof {
        lemma_method_slot(mv, k@, -1);
    }
    None
}

fn put_method_exec(ms: &mut Vec<Method>, m: Method)
    ensures
        methods_v(final(ms)@) == put_method(methods_v(old(ms)@), method_v(m)),
{
    let ghost mv = method_v(m);
    match find_method(ms, &m.name) {
        Some(i) => {
            let mut x = m;
            std::mem::swap(&mut ms[i], &mut x);
            assert(methods_v(ms@) =~= methods_v(old(ms)@).update(i as int, mv));
        },
        None => {
            ms.push(m);
            assert(methods_v(ms@) =~= methods_v(old(ms)@).push(mv));
        },
    }
}

/// Binds `params[i]` to `args[i]` in order.
fn bind_all(env: &mut Env, params: &Vec<String>, args: Vec<Value>)
    requires
        params@.len() == args@.len(),
    ensures
        final(env)@ == bind_params(old(env)@, names_v(*params), values_v(args), 0),
        forall|n: nat| frames_ok(old(env)@, n) && vals_ok(values_v(args), n) ==> #[trigger] frames_ok(final(env)@, n),
{
    proof {
        assert forall|n: nat| frames_ok(old(env)@, n) && vals_ok(values_v(args), n) implies #[trigger] frames_ok(
            bind_params(old(env)@, names_v(*params), values_v(args), 0),
            n,
        ) by {
            crate::handles::lemma_bind_params_ok(old(env)@, names_v(*params), values_v(args), 0, n);
        }
    }
    let ghost pv = names_v(*params);
    let ghost av = values_v(args);
    let mut args = args;
    let mut i: usize = 0;
    while i < params.len()
        invariant
            i <= params@.len(),
            params@.len() == args@.len(),
            pv == names_v(*params),
            av.len() == args@.len(),
            forall|j: int| i <= j < args@.len() ==> (#[trigger] args@[j])@ == av[j],
            bind_params(env@, pv, av, i as int) == bind_params(old(env)@, pv, av, 0),
        decreases params@.len() - i,
    {
        let mut x = Value::Null;
        std::mem::swap(&mut args[i], &mut x);
        assert(x@ == av[i as int]);
        env.set(&params[i], x);
        i += 1;
    }
}

fn error_of(m: Vec<char>) -> (h: Halt)
    ensures
        h@ == HaltV::Error(m@),
{
    Halt::Error(string_of(m.as_slice()))
}

/// The error `pre` followed by a value's text and `post`; the text may need the host.
fn show_error(tape: &mut Tape, pre: &str, v: &Value, post: &str) -> (h: Halt)
    ensures
        ({
            let (t1, r) = show_s(old(tape)@, v@);
            final(tape)@ == t1 && h@ == match r {
                Ok(s) => HaltV::Error(pre@ + s + post@),
                Err(x) => x,
            }
        }),
        tape_kept(old(tape)@, final(tape)@),
        halt_settled(final(tape)@, h@),
{
    match show(tape, v) {
        Ok(s) => {
            let mut m = pre.to_owned();
            m.append(s.as_str());
            m.append(post);
            Halt::Error(m)
        },
        Err(h) => h,
    }
}

fn quoted_error(pre: &str, name: &String, post: &str) -> (h: Halt)
    ensures
        h@ == quoted(pre@, name@, post@),
{
    let mut m = pre.to_owned();
    m.append(name.as_str());
    m.append(post);
    Halt::Error(m)
}

fn arity_halt(who: &String, want: usize, got: usize) -> (h: Halt)
    ensures
        h@ == arity_msg(who@, want as nat, got as nat),
{
    let mut v = chars_of(who.as_str());
    let a = chars_of(": ventar ");
    crate::text::push_all(&mut v, &a);
    push_nat_text(&mut v, want as u64);
    let b = chars_of(" argument, fekk ");
    crate::text::push_all(&mut v, &b);
    push_nat_text(&mut v, got as u64);
    assert(v@ =~= who@ + ": ventar "@ + nat_text(want as nat) + " argument, fekk "@ + nat_text(got as nat));
    error_of(v)
}

/// The word at `i`, or `d` when there are not that many words.
fn first_word_or(parts: &Vec<Vec<char>>, i: usize, d: &str) -> (r: String)
    ensures
        r@ == first_or(Seq::new(parts@.len(), |k: int| parts@[k]@), i as int, d@),
{
    if i < parts.len() {
        string_of(parts[i].as_slice())
    } else {
        d.to_owned()
    }
}

/// The length a header line gives the body, if it is a `Content-Length` header.
fn content_length_of(line: &String) -> (r: Option<usize>)
    ensures
        match r {
            Some(n) => content_length(line@) == Some(n as nat),
            None => content_length(line@) is None,
        },
{
    let lower = to_lowercase(line.as_str());
    let cs = chars_of(lower.as_str());
    let key = chars_of("content-length:");
    let kl = key.len();
    if cs.len() < kl {
        return None;
    }
    let mut k: usize = 0;
    while k < kl
        invariant
            kl == key@.len(),
            key@ == "content-length:"@,
            cs@ == lowercase_text(line@),
            kl <= cs@.len(),
            k <= kl,
            forall|j: int| 0 <= j < k ==> cs@[j] == key@[j],
        decreases kl - k,
    {
        if cs[k] != key[k] {
            assert(cs@.take(kl as int)[k as int] != key@[k as int]);
            return None;
        }
        k += 1;
    }
    assert(cs@.take(kl as int) =~= key@);
    let mut rest: Vec<char> = Vec::new();
    let mut j = kl;
    while j < cs.len()
        invariant
            kl <= j <= cs@.len(),
            rest@ == cs@.subrange(kl as int, j as int),
        decreases cs@.len() - j,
    {
        rest.push(cs[j]);
        j += 1;
        assert(rest@ =~= cs@.subrange(kl as int, j as int));
    }
    assert(rest@ =~= cs@.skip(kl as int));
    let tr = trim_chars(&rest);
    match parse_usize(&tr) {
        Some(n) => Some(n),
        None => Some(0),
    }
}

/// The text of the HTTP response for a reply.
fn http_response(resp: &String) -> (r: String)
    ensures
        r@ == http_text(resp@),
{
    let cs = chars_of(resp.as_str());
    let n = utf8_length(&cs);
    let mut v = chars_of("HTTP/1.1 200 OK\r\nContent-Length: ");
    push_wide_text(&mut v, n);
    let mid = chars_of("\r\nContent-Type: text/plain; charset=utf-8\r\nConnection: close\r\n\r\n");
    crate::text::push_all(&mut v, &mid);
    crate::text::push_all(&mut v, &cs);
    string_of(v.as_slice())
}

/// Reads header lines up to the first blank one.
fn read_headers(tape: &mut Tape, f: u64) -> (r: Result<usize, Halt>)
    ensures
        ({
            let (t1, x) = headers_s(f as nat, old(tape)@, 0);
            final(tape)@ == t1 && match r {
                Ok(n) => x == Ok::<nat, HaltV>(n as nat),
                Err(h) => x == Err::<nat, HaltV>(h@),
            }
        }),
        tape_kept(old(tape)@, final(tape)@),
        settled(final(tape)@, r),
{
    let mut cl: usize = 0;
    let mut k = f;
    loop
        invariant
            tape_kept(old(tape)@, tape@),
            k <= f,
            headers_s(k as nat, tape@, cl as nat) == headers_s(f as nat, old(tape)@, 0),
        decreases k,
    {
        if k == 0 {
            return Err(Halt::OutOfFuel);
        }
        let line = match tape.ask_text(Request::ReadConn) {
            Ok(l) => l,
            Err(h) => {
                return Err(h);
            },
        };
        let cs = chars_of(line.as_str());
        if crate::strings::is_blank(&cs) {
            return Ok(cl);
        }
        match content_length_of(&line) {
            Some(n) => {
                cl = n;
            },
            None => {},
        }
        k = k - 1;
    }
}

fn build_class(body: &Vec<Stmt>) -> (r: Option<StoredClass>)
    ensures
        match r {
            Some(c) => class_of(stmts_v(*body)) == Some(class_v(c)),
            None => class_of(stmts_v(*body)) is None,
        },
{
    let ghost bv = stmts_v(*body);
    let mut defaults: Vec<FieldDefault> = Vec::new();
    let mut methods: Vec<Method> = Vec::new();
    let mut i: usize = 0;
    assert(defaults_v(defaults@) =~= Seq::<(Seq<char>, ExprV)>::empty());
    assert(methods_v(methods@) =~= Seq::<MethodV>::empty());
    while i < body.len()
        invariant
            i <= body@.len(),
            bv == stmts_v(*body),
            bv.len() == body@.len(),
            class_from(bv, i as int, ClassV { defaults: defaults_v(defaults@), methods: methods_v(methods@) }) == class_of(bv),
        decreases body@.len() - i,
    {
        assert(bv[i as int] == stmt_v(body@[i as int]));
        match &body[i] {
            Stmt::Assign { name, value, .. } => {
                let ghost before = defaults_v(defaults@);
                defaults.push(FieldDefault { name: name.clone(), expr: crate::ast::clone_expr(value) });
                assert(defaults_v(defaults@) =~= before.push((name@, value@)));
            },
            Stmt::FuncDef { name, params, body: mb, .. } => {
                let m = Method { name: name.clone(), params: Rc::new(clone_names(params)), body: Rc::new(clone_stmts(mb)) };
                put_method_exec(&mut methods, m);
            },
            _ => {
                return None;
            },
        }
        i += 1;
    }
    Some(StoredClass { defaults: Rc::new(defaults), methods })
}

impl Interpreter {
    /// An interpreter with nothing defined.
    pub fn new() -> (i: Interpreter)
        ensures
            i@ == (StateV { globals: Seq::empty(), response: None, heap: Seq::empty(), classes: Seq::empty() }),
            state_ok(i@),
    {
        let i = Interpreter { globals: Scope::new(), response: None, heap: Vec::new(), classes: Vec::new() };
        assert(i@.heap =~= Seq::<HeapObjV>::empty());
        assert(i@.classes =~= Seq::<ClassEntryV>::empty());
        i
    }

    /// A copy of the interpreter's state, to go back to.
    pub fn snapshot(&self) -> (r: Interpreter)
        ensures
            r@ == self@,
    {
        let mut heap: Vec<HeapObj> = Vec::new();
        let mut i: usize = 0;
        while i < self.heap.len()
            invariant
                i <= self.heap@.len(),
                heap_v(heap@) == heap_v(self.heap@).subrange(0, i as int),
            decreases self.heap@.len() - i,
        {
            let ghost before = heap_v(heap@);
            let o = HeapObj { class: self.heap[i].class.clone(), fields: self.heap[i].fields.copy() };
            let ghost ov = HeapObjV { class: o.class@, fields: o.fields@ };
            assert(ov == heap_v(self.heap@)[i as int]);
            heap.push(o);
            assert(heap_v(heap@) =~= before.push(ov));
            i += 1;
            assert(heap_v(heap@) =~= heap_v(self.heap@).subrange(0, i as int));
        }
        assert(heap_v(heap@) =~= heap_v(self.heap@));
        let mut classes: Vec<ClassEntry> = Vec::new();
        let mut j: usize = 0;
        while j < self.classes.len()
            invariant
                j <= self.classes@.len(),
                classes_v(classes@) == classes_v(self.classes@).subrange(0, j as int),
            decreases self.classes@.len() - j,
        {
            let c = &self.classes[j].class;
            let mut methods: Vec<Method> = Vec::new();
            let mut k: usize = 0;
            while k < c.methods.len()
                invariant
                    k <= c.methods@.len(),
                    methods_v(methods@) == methods_v(c.methods@).subrange(0, k as int),
                decreases c.methods@.len() - k,
            {
                let m = &c.methods[k];
                let ghost before = methods_v(methods@);
                let nm = Method { name: m.name.clone(), params: crate::value::share(&m.params), body: crate::value::share(&m.body) };
                assert(method_v(nm) == methods_v(c.methods@)[k as int]);
                methods.push(nm);
                assert(methods_v(methods@) =~= before.push(method_v(nm)));
                k += 1;
                assert(methods_v(methods@) =~= methods_v(c.methods@).subrange(0, k as int));
            }
            assert(methods_v(methods@) =~= methods_v(c.methods@));
            let ghost before = classes_v(classes@);
            let e = ClassEntry {
                name: self.classes[j].name.clone(),
                class: StoredClass { defaults: crate::value::share(&c.defaults), methods },
            };
            let ghost ev = ClassEntryV { name: e.name@, class: class_v(e.class) };
            assert(ev == classes_v(self.classes@)[j as int]);
            classes.push(e);
            assert(classes_v(classes@) =~= before.push(ev));
            j += 1;
            assert(classes_v(classes@) =~= classes_v(self.classes@).subrange(0, j as int));
        }
        assert(classes_v(classes@) =~= classes_v(self.classes@));
        let response = match &self.response {
            Some(s) => Some(s.clone()),
            None => None,
        };
        Interpreter { globals: self.globals.copy(), response, heap, classes }
    }

    fn var_get<'a>(&'a self, env: &'a Env, name: &String) -> (r: Option<&'a Value>)
        ensures
            match r {
                Some(v) => var_lookup(self@, env@, name@) == Some(v@),
                None => var_lookup(self@, env@, name@) is None,
            },
    {
        match env.get(name) {
            Some(v) => Some(v),
            None => self.globals.get(name),
        }
    }

    fn find_class(&self, k: &String) -> (r: Option<usize>)
        ensures
            match r {
                Some(i) => i == class_slot(self@.classes, k@) && i < self.classes@.len(),
                None => class_slot(self@.classes, k@) == -1,
            },
    {
        let ghost cv = self@.classes;
        let mut i = self.classes.len();
        while i > 0
            invariant
                i <= self.classes@.len(),
                cv == self@.classes,
                cv.len() == self.classes@.len(),
                forall|j: int| i <= j < cv.len() ==> cv[j].name != k@,
            decreases i,
        {
            if self.classes[i - 1].name == *k {
                proof {
                    lemma_class_slot(cv, k@, i - 1);
                }
                return Some(i - 1);
            }
            i -= 1;
        }
        proof {
            lemma_class_slot(cv, k@, -1);
        }
        None
    }

    fn put_class_exec(&mut self, k: &String, c: StoredClass)
        ensures
            final(self)@ == (StateV { classes: put_class(old(self)@.classes, k@, class_v(c)), ..old(self)@ }),
    {
        let ghost cv = class_v(c);
        match self.find_class(k) {
            Some(i) => {
                let mut e = ClassEntry { name: k.clone(), class: c };
                std::mem::swap(&mut self.classes[i], &mut e);
                assert(self@.classes =~= old(self)@.classes.update(i as int, ClassEntryV { name: k@, class: cv }));
            },
            None => {
                self.classes.push(ClassEntry { name: k.clone(), class: c });
                assert(self@.classes =~= old(self)@.classes.push(ClassEntryV { name: k@, class: cv }));
            },
        }
    }

    /// Binds `field` to `v` in object `id`.
    fn set_field(&mut self, id: usize, field: &String, v: Value)
        requires
            id < old(self)@.heap.len(),
        ensures
            final(self)@ == (StateV {
                heap: old(self)@.heap.update(
                    id as int,
                    HeapObjV { class: old(self)@.heap[id as int].class, fields: bind(old(self)@.heap[id as int].fields, field@, v@) },
                ),
                ..old(self)@
            }),
            state_ok(old(self)@) && id_bound(v@) <= old(self)@.heap.len() ==> state_ok(final(self)@),
    {
        let ghost vv = v@;
        let mut o = HeapObj { class: String::new(), fields: Scope::new() };
        std::mem::swap(&mut o, &mut self.heap[id]);
        o.fields.insert(field, v);
        std::mem::swap(&mut o, &mut self.heap[id]);
        assert(self@.heap =~= old(self)@.heap.update(
            id as int,
            HeapObjV { class: old(self)@.heap[id as int].class, fields: bind(old(self)@.heap[id as int].fields, field@, vv) },
        ));
        proof {
            if state_ok(old(self)@) && id_bound(vv) <= old(self)@.heap.len() {
                crate::handles::lemma_bind_ok(old(self)@.heap[id as int].fields, field@, vv, old(self)@.heap.len());
            }
        }
    }

    // ── expressions ──

    fn expr_float(&mut self, tape: &mut Tape, f: u64, env: &Env, e: &Expr) -> (r: Result<Value, Halt>)
        requires
            state_ok(old(self)@),
            frames_ok(env@, old(self)@.heap.len()),
            f > 0,
            e is Float,
        ensures
            (final(tape)@, final(self)@, res_v(r)) == eval_s(f as nat, old(tape)@, old(self)@, env@, e@),
            tape_kept(old(tape)@, final(tape)@),
            settled(final(tape)@, r),
            state_ok(final(self)@),
            old(self)@.heap.len() <= final(self)@.heap.len(),
            r is Ok ==> id_bound(r->Ok_0@) <= final(self)@.heap.len(),
        decreases f, 0nat,
    {
        let g = f - 1;
        match e {
            Expr::Float(s) => match tape.ask_bits(Request::Float(FloatOp::Parse(s.clone()))) {
                Ok(b) => Ok(Value::Float(b)),
                Err(h) => Err(h),
            },
            _ => {
                proof {
                    assert(false);
                }
                Err(Halt::Mismatch)
            },
        }
    }

    fn expr_var(&mut self, tape: &mut Tape, f: u64, env: &Env, e: &Expr) -> (r: Result<Value, Halt>)
        requires
            state_ok(old(self)@),
            frames_ok(env@, old(self)@.heap.len()),
            f > 0,
            e is Var,
        ensures
            (final(tape)@, final(self)@, res_v(r)) == eval_s(f as nat, old(tape)@, old(self)@, env@, e@),
            tape_kept(old(tape)@, final(tape)@),
            settled(final(tape)@, r),
            state_ok(final(self)@),
            old(self)@.heap.len() <= final(self)@.heap.len(),
            r is Ok ==> id_bound(r->Ok_0@) <= final(self)@.heap.len(),
        decreases f, 0nat,
    {
        let g = f - 1;
        match e {
            Expr::Var(name) => match self.var_get(env, name) {
                Some(v) => {
                    proof {
                        crate::handles::lemma_var_ok(self@, env@, name@);
                    }
                    Ok(clone_value(v))
                },
                None => Err(quoted_error("'", name, "' er ikkje definert")),
            },
            _ => {
                proof {
                    assert(false);
                }
                Err(Halt::Mismatch)
            },
        }
    }

    fn expr_list(&mut self, tape: &mut Tape, f: u64, env: &Env, e: &Expr) -> (r: Result<Value, Halt>)
        requires
            state_ok(old(self)@),
            frames_ok(env@, old(self)@.heap.len()),
            f > 0,
            e is List,
        ensures
            (final(tape)@, final(self)@, res_v(r)) == eval_s(f as nat, old(tape)@, old(self)@, env@, e@),
            tape_kept(old(tape)@, final(tape)@),
            settled(final(tape)@, r),
            state_ok(final(self)@),
            old(self)@.heap.len() <= final(self)@.heap.len(),
            r is Ok ==> id_bound(r->Ok_0@) <= final(self)@.heap.len(),
        decreases f, 0nat,
    {
        let g = f - 1;
        match e {
            Expr::List(es) => match self.evals(tape, g, env, es) {
                Ok(vs) => {
                    proof {
                        crate::handles::lemma_list_bound(values_v(vs), self@.heap.len());
                    }
                    Ok(Value::List(vs))
                },
                Err(h) => Err(h),
            },
            _ => {
                proof {
                    assert(false);
                }
                Err(Halt::Mismatch)
            },
        }
    }

    fn expr_bin_op(&mut self, tape: &mut Tape, f: u64, env: &Env, e: &Expr) -> (r: Result<Value, Halt>)
        requires
            state_ok(old(self)@),
            frames_ok(env@, old(self)@.heap.len()),
            f > 0,
            e is BinOp,
        ensures
            (final(tape)@, final(self)@, res_v(r)) == eval_s(f as nat, old(tape)@, old(self)@, env@, e@),
            tape_kept(old(tape)@, final(tape)@),
            settled(final(tape)@, r),
            state_ok(final(self)@),
            old(self)@.heap.len() <= final(self)@.heap.len(),
            r is Ok ==> id_bound(r->Ok_0@) <= final(self)@.heap.len(),
        decreases f, 0nat,
    {
        let g = f - 1;
        match e {
            Expr::BinOp { op, left, right } => {
                let l = match self.eval(tape, g, env, left) {
                    Ok(v) => v,
                    Err(h) => {
                        return Err(h);
                    },
                };
                let r = match self.eval(tape, g, env, right) {
                    Ok(v) => v,
                    Err(h) => {
                        return Err(h);
                    },
                };
                proof {
                    crate::handles::lemma_binop_ok(tape@, *op, l@, r@, self@.heap.len());
                }
                apply_binop(tape, *op, &l, &r)
            },
            _ => {
                proof {
                    assert(false);
                }
                Err(Halt::Mismatch)
            },
        }
    }

    fn expr_not(&mut self, tape: &mut Tape, f: u64, env: &Env, e: &Expr) -> (r: Result<Value, Halt>)
        requires
            state_ok(old(self)@),
            frames_ok(env@, old(self)@.heap.len()),
            f > 0,
            e is Not,
        ensures
            (final(tape)@, final(self)@, res_v(r)) == eval_s(f as nat, old(tape)@, old(self)@, env@, e@),
            tape_kept(old(tape)@, final(tape)@),
            settled(final(tape)@, r),
            state_ok(final(self)@),
            old(self)@.heap.len() <= final(self)@.heap.len(),
            r is Ok ==> id_bound(r->Ok_0@) <= final(self)@.heap.len(),
        decreases f, 0nat,
    {
        let g = f - 1;
        match e {
            Expr::Not(x) => match self.eval(tape, g, env, x) {
                Ok(v) => Ok(Value::Bool(!v.truthy())),
                Err(h) => Err(h),
            },
            _ => {
                proof {
                    assert(false);
                }
                Err(Halt::Mismatch)
            },
        }
    }

    fn expr_call(&mut self, tape: &mut Tape, f: u64, env: &Env, e: &Expr) -> (r: Result<Value, Halt>)
        requires
            state_ok(old(self)@),
            frames_ok(env@, old(self)@.heap.len()),
            f > 0,
            e is Call,
        ensures
            (final(tape)@, final(self)@, res_v(r)) == eval_s(f as nat, old(tape)@, old(self)@, env@, e@),
            tape_kept(old(tape)@, final(tape)@),
            settled(final(tape)@, r),
            state_ok(final(self)@),
            old(self)@.heap.len() <= final(self)@.heap.len(),
            r is Ok ==> id_bound(r->Ok_0@) <= final(self)@.heap.len(),
        decreases f, 0nat,
    {
        let g = f - 1;
        match e {
            Expr::Call { name, args } => match self.evals(tape, g, env, args) {
                Ok(vs) => self.call_func(tape, g, name, vs),
                Err(h) => Err(h),
            },
            _ => {
                proof {
                    assert(false);
                }
                Err(Halt::Mismatch)
            },
        }
    }

    fn expr_field(&mut self, tape: &mut Tape, f: u64, env: &Env, e: &Expr) -> (r: Result<Value, Halt>)
        requires
            state_ok(old(self)@),
            frames_ok(env@, old(self)@.heap.len()),
            f > 0,
            e is Field,
        ensures
            (final(tape)@, final(self)@, res_v(r)) == eval_s(f as nat, old(tape)@, old(self)@, env@, e@),
            tape_kept(old(tape)@, final(tape)@),
            settled(final(tape)@, r),
            state_ok(final(self)@),
            old(self)@.heap.len() <= final(self)@.heap.len(),
            r is Ok ==> id_bound(r->Ok_0@) <= final(self)@.heap.len(),
        decreases f, 0nat,
    {
        let g = f - 1;
        match e {
            Expr::Field { obj, field } => match self.eval(tape, g, env, obj) {
                Ok(v) => self.field(tape, &v, field),
                Err(h) => Err(h),
            },
            _ => {
                proof {
                    assert(false);
                }
                Err(Halt::Mismatch)
            },
        }
    }

    fn expr_method_call(&mut self, tape: &mut Tape, f: u64, env: &Env, e: &Expr) -> (r: Result<Value, Halt>)
        requires
            state_ok(old(self)@),
            frames_ok(env@, old(self)@.heap.len()),
            f > 0,
            e is MethodCall,
        ensures
            (final(tape)@, final(self)@, res_v(r)) == eval_s(f as nat, old(tape)@, old(self)@, env@, e@),
            tape_kept(old(tape)@, final(tape)@),
            settled(final(tape)@, r),
            state_ok(final(self)@),
            old(self)@.heap.len() <= final(self)@.heap.len(),
            r is Ok ==> id_bound(r->Ok_0@) <= final(self)@.heap.len(),
        decreases f, 0nat,
    {
        let g = f - 1;
        match e {
            Expr::MethodCall { obj, method, args } => {
                let v = match self.eval(tape, g, env, obj) {
                    Ok(v) => v,
                    Err(h) => {
                        return Err(h);
                    },
                };
                match &v {
                    Value::Object { id, class } => match self.evals(tape, g, env, args) {
                        Ok(vs) => self.call_method(tape, g, *id, class, method, vs),
                        Err(h) => Err(h),
                    },
                    _ => Err(show_error(tape, "kan ikkje kalla metode på ", &v, "")),
                }
            },
            _ => {
                proof {
                    assert(false);
                }
                Err(Halt::Mismatch)
            },
        }
    }

    pub fn eval(&mut self, tape: &mut Tape, f: u64, env: &Env, e: &Expr) -> (r: Result<Value, Halt>)
        requires
            state_ok(old(self)@),
            frames_ok(env@, old(self)@.heap.len()),
        ensures
            (final(tape)@, final(self)@, res_v(r)) == eval_s(f as nat, old(tape)@, old(self)@, env@, e@),
            tape_kept(old(tape)@, final(tape)@),
            settled(final(tape)@, r),
            state_ok(final(self)@),
            old(self)@.heap.len() <= final(self)@.heap.len(),
            r is Ok ==> id_bound(r->Ok_0@) <= final(self)@.heap.len(),
        decreases f, 1nat,
    {
        if f == 0 {
            return Err(Halt::OutOfFuel);
        }
        let g = f - 1;
        match e {
            Expr::Int(n) => Ok(Value::Int(*n)),
            Expr::Float(..) => self.expr_float(tape, f, env, e),
            Expr::Str(s) => Ok(Value::Str(s.clone())),
            Expr::Bool(b) => Ok(Value::Bool(*b)),
            Expr::Null => Ok(Value::Null),
            Expr::Var(..) => self.expr_var(tape, f, env, e),
            Expr::List(..) => self.expr_list(tape, f, env, e),
            Expr::Index { obj, idx } => self.eval_index(tape, g, env, obj, idx),
            Expr::BinOp { .. } => self.expr_bin_op(tape, f, env, e),
            Expr::Not(..) => self.expr_not(tape, f, env, e),
            Expr::Call { .. } => self.expr_call(tape, f, env, e),
            Expr::New { class } => self.new_object(tape, g, class),
            Expr::Field { .. } => self.expr_field(tape, f, env, e),
            Expr::MethodCall { .. } => self.expr_method_call(tape, f, env, e),
        }
    }

    fn field(&self, tape: &mut Tape, v: &Value, field: &String) -> (r: Result<Value, Halt>)
        requires
            state_ok(self@),
            id_bound(v@) <= self@.heap.len(),
        ensures
            (final(tape)@, self@, res_v(r)) == field_s(old(tape)@, self@, v@, field@),
            tape_kept(old(tape)@, final(tape)@),
            settled(final(tape)@, r),
            r is Ok ==> id_bound(r->Ok_0@) <= self@.heap.len(),
    {
        match v {
            Value::Object { id, .. } => {
                proof {
                    crate::handles::lemma_lookup_ok(self@.heap[*id as int].fields, field@, self@.heap.len());
                }
                match self.heap[*id].fields.get(field) {
                    Some(x) => Ok(clone_value(x)),
                    None => Err(quoted_error("felt '", field, "' finst ikkje")),
                }
            },
            _ => Err(show_error(tape, "kan ikkje lesa felt frå ", v, "")),
        }
    }

    fn evals(&mut self, tape: &mut Tape, f: u64, env: &Env, es: &Vec<Expr>) -> (r: Result<Vec<Value>, Halt>)
        requires
            state_ok(old(self)@),
            frames_ok(env@, old(self)@.heap.len()),
        ensures
            (final(tape)@, final(self)@, vals_v(r)) == evals_s(f as nat, old(tape)@, old(self)@, env@, exprs_v(*es), 0, Seq::empty()),
            tape_kept(old(tape)@, final(tape)@),
            settled(final(tape)@, r),
            state_ok(final(self)@),
            old(self)@.heap.len() <= final(self)@.heap.len(),
            r is Ok ==> vals_ok(values_v(r->Ok_0), final(self)@.heap.len()),
        decreases f, 0nat,
    {
        let ghost ev = exprs_v(*es);
        let mut out: Vec<Value> = Vec::new();
        assert(values_v(out) =~= Seq::<ValueV>::empty());
        let mut i: usize = 0;
        let mut k = f;
        loop
            invariant
                state_ok(self@),
                old(self)@.heap.len() <= self@.heap.len(),
                frames_ok(env@, self@.heap.len()),
                tape_kept(old(tape)@, tape@),
                i <= es@.len(),
                k <= f,
                ev == exprs_v(*es),
                ev.len() == es@.len(),
                vals_ok(values_v(out), self@.heap.len()),
                evals_s(k as nat, tape@, self@, env@, ev, i as int, values_v(out)) == evals_s(
                    f as nat,
                    old(tape)@,
                    old(self)@,
                    env@,
                    ev,
                    0,
                    Seq::empty(),
                ),
            decreases es@.len() - i,
        {
            if i >= es.len() {
                return Ok(out);
            }
            if k == 0 {
                return Err(Halt::OutOfFuel);
            }
            let g = k - 1;
            assert(ev[i as int] == expr_v(es@[i as int]));
            match self.eval(tape, g, env, &es[i]) {
                Ok(v) => {
                    let ghost before = values_v(out);
                    let ghost vv = v@;
                    push_value(&mut out, v);
                    assert(values_v(out) == before.push(vv));
                },
                Err(h) => {
                    return Err(h);
                },
            }
            i += 1;
            k = g;
        }
    }

    fn index_value(&self, tape: &mut Tape, o: &Value, n: i64) -> (r: Result<Value, Halt>)
        requires
            id_bound(o@) <= self@.heap.len(),
        ensures
            (final(tape)@, self@, res_v(r)) == index_into(old(tape)@, self@, o@, n),
            tape_kept(old(tape)@, final(tape)@),
            settled(final(tape)@, r),
            r is Ok ==> id_bound(r->Ok_0@) <= self@.heap.len(),
    {
        proof {
            crate::handles::lemma_index_ok(old(tape)@, self@, o@, n);
        }
        match o {
            Value::List(xs) => match normalize_idx(n, xs.len()) {
                Ok(k) => {
                    assert(values_v(*xs)[k as int] == value_v(xs@[k as int]));
                    Ok(clone_value(&xs[k]))
                },
                Err(m) => Err(Halt::Error(m)),
            },
            Value::Str(s) => {
                let cs = chars_of(s.as_str());
                match normalize_idx(n, cs.len()) {
                    Ok(k) => {
                        let mut one: Vec<char> = Vec::new();
                        one.push(cs[k]);
                        assert(one@ =~= seq![s@[k as int]]);
                        Ok(Value::Str(string_of(one.as_slice())))
                    },
                    Err(m) => Err(Halt::Error(m)),
                }
            },
            _ => Err(show_error(tape, "kan ikkje indeksera ", o, "")),
        }
    }

    fn eval_index(&mut self, tape: &mut Tape, f: u64, env: &Env, obj: &Expr, idx: &Expr) -> (r: Result<Value, Halt>)
        requires
            state_ok(old(self)@),
            frames_ok(env@, old(self)@.heap.len()),
        ensures
            (final(tape)@, final(self)@, res_v(r)) == eval_index_s(f as nat, old(tape)@, old(self)@, env@, obj@, idx@),
            tape_kept(old(tape)@, final(tape)@),
            settled(final(tape)@, r),
            state_ok(final(self)@),
            old(self)@.heap.len() <= final(self)@.heap.len(),
            r is Ok ==> id_bound(r->Ok_0@) <= final(self)@.heap.len(),
        decreases f, 0nat,
    {
        if f == 0 {
            return Err(Halt::OutOfFuel);
        }
        let g = f - 1;
        let o = match self.eval(tape, g, env, obj) {
            Ok(v) => v,
            Err(h) => {
                return Err(h);
            },
        };
        let iv = match self.eval(tape, g, env, idx) {
            Ok(v) => v,
            Err(h) => {
                return Err(h);
            },
        };
        match &iv {
            Value::Int(n) => self.index_value(tape, &o, *n),
            Value::Float(b) => match tape.ask_int(Request::Float(FloatOp::ToInt(*b))) {
                Ok(n) => self.index_value(tape, &o, n),
                Err(h) => Err(h),
            },
            _ => Err(show_error(tape, "listeindeks må vera heiltal, fekk ", &iv, "")),
        }
    }

    fn new_object(&mut self, tape: &mut Tape, f: u64, class: &String) -> (r: Result<Value, Halt>)
        requires
            state_ok(old(self)@),
        ensures
            (final(tape)@, final(self)@, res_v(r)) == new_object_s(f as nat, old(tape)@, old(self)@, class@),
            tape_kept(old(tape)@, final(tape)@),
            settled(final(tape)@, r),
            state_ok(final(self)@),
            old(self)@.heap.len() <= final(self)@.heap.len(),
            r is Ok ==> id_bound(r->Ok_0@) <= final(self)@.heap.len(),
        decreases f, 0nat,
    {
        if f == 0 {
            return Err(Halt::OutOfFuel);
        }
        let g = f - 1;
        let ci = match self.find_class(class) {
            Some(i) => i,
            None => {
                return Err(quoted_error("klasse '", class, "' er ikkje definert"));
            },
        };
        let defaults = crate::value::share(&self.classes[ci].class.defaults);
        let id = self.heap.len();
        let ghost before = self@;
        self.heap.push(HeapObj { class: class.clone(), fields: Scope::new() });
        assert(self@.heap =~= before.heap.push(HeapObjV { class: class@, fields: Seq::empty() }));
        assert(state_ok(self@)) by {
            let st = self@;
            assert forall|k: int| 0 <= k < st.heap.len() implies crate::handles::binds_ok(#[trigger] st.heap[k].fields, st.heap.len()) by {
                if k < before.heap.len() {
                    assert(st.heap[k] == before.heap[k]);
                    assert(crate::handles::binds_ok(before.heap[k].fields, before.heap.len()));
                }
            }
        }
        match self.set_defaults(tape, g, id, &defaults) {
            Ok(_) => Ok(Value::Object { id, class: class.clone() }),
            Err(h) => Err(h),
        }
    }

    fn set_defaults(&mut self, tape: &mut Tape, f: u64, id: usize, defaults: &Vec<FieldDefault>) -> (r: Result<Value, Halt>)
        requires
            state_ok(old(self)@),
            id < old(self)@.heap.len(),
        ensures
            (final(tape)@, final(self)@, res_v(r)) == defaults_s(f as nat, old(tape)@, old(self)@, id as nat, defaults_v(defaults@), 0),
            tape_kept(old(tape)@, final(tape)@),
            settled(final(tape)@, r),
            state_ok(final(self)@),
            old(self)@.heap.len() <= final(self)@.heap.len(),
            r is Ok ==> id_bound(r->Ok_0@) <= final(self)@.heap.len(),
        decreases f, 0nat,
    {
        let ghost dv = defaults_v(defaults@);
        let empty = Env::new();
        let mut i: usize = 0;
        let mut k = f;
        loop
            invariant
                state_ok(self@),
                old(self)@.heap.len() <= self@.heap.len(),
                tape_kept(old(tape)@, tape@),
                i <= defaults@.len(),
                k <= f,
                dv == defaults_v(defaults@),
                dv.len() == defaults@.len(),
                empty@ == env_fresh(),
                frames_ok(empty@, self@.heap.len()),
                id < self@.heap.len(),
                defaults_s(k as nat, tape@, self@, id as nat, dv, i as int) == defaults_s(
                    f as nat,
                    old(tape)@,
                    old(self)@,
                    id as nat,
                    dv,
                    0,
                ),
            decreases defaults@.len() - i,
        {
            if i >= defaults.len() {
                return Ok(Value::Null);
            }
            if k == 0 {
                return Err(Halt::OutOfFuel);
            }
            let g = k - 1;
            match self.eval(tape, g, &empty, &defaults[i].expr) {
                Ok(v) => {
                    self.set_field(id, &defaults[i].name, v);
                },
                Err(h) => {
                    return Err(h);
                },
            }
            i += 1;
            k = g;
        }
    }

    fn call_func(&mut self, tape: &mut Tape, f: u64, name: &String, args: Vec<Value>) -> (r: Result<Value, Halt>)
        requires
            state_ok(old(self)@),
            vals_ok(values_v(args), old(self)@.heap.len()),
        ensures
            (final(tape)@, final(self)@, res_v(r)) == call_func_s(f as nat, old(tape)@, old(self)@, name@, values_v(args)),
            tape_kept(old(tape)@, final(tape)@),
            settled(final(tape)@, r),
            state_ok(final(self)@),
            old(self)@.heap.len() <= final(self)@.heap.len(),
            r is Ok ==> id_bound(r->Ok_0@) <= final(self)@.heap.len(),
        decreases f, 0nat,
    {
        if f == 0 {
            return Err(Halt::OutOfFuel);
        }
        let g = f - 1;
        proof {
            crate::handles::lemma_builtin_ok(tape@, name@, values_v(args), self@.heap.len());
        }
        match call_builtin(tape, name, &args) {
            Err(h) => {
                return Err(h);
            },
            Ok(Some(v)) => {
                return Ok(v);
            },
            Ok(None) => {},
        }
        let (params, body) = match self.globals.get(name) {
            None => {
                return Err(quoted_error("'", name, "' er ikkje definert"));
            },
            Some(Value::Func { params, body }) => (crate::value::share(params), crate::value::share(body)),
            Some(_) => {
                return Err(quoted_error("'", name, "' er ikkje ein funksjon"));
            },
        };
        if args.len() != params.len() {
            return Err(arity_halt(name, params.len(), args.len()));
        }
        let mut env = Env::new();
        bind_all(&mut env, &params, args);
        match self.exec_block(tape, g, &mut env, &body) {
            Err(h) => Err(h),
            Ok(Some(Signal::Return(v))) => Ok(v),
            Ok(_) => Ok(Value::Null),
        }
    }

    fn call_method(&mut self, tape: &mut Tape, f: u64, id: usize, class: &String, method: &String, args: Vec<Value>) -> (r: Result<Value, Halt>)
        requires
            state_ok(old(self)@),
            vals_ok(values_v(args), old(self)@.heap.len()),
            id < old(self)@.heap.len(),
        ensures
            (final(tape)@, final(self)@, res_v(r)) == call_method_s(f as nat, old(tape)@, old(self)@, id as nat, class@, method@, values_v(args)),
            tape_kept(old(tape)@, final(tape)@),
            settled(final(tape)@, r),
            state_ok(final(self)@),
            old(self)@.heap.len() <= final(self)@.heap.len(),
            r is Ok ==> id_bound(r->Ok_0@) <= final(self)@.heap.len(),
        decreases f, 0nat,
    {
        if f == 0 {
            return Err(Halt::OutOfFuel);
        }
        let g = f - 1;
        let ci = match self.find_class(class) {
            Some(i) => i,
            None => {
                return Err(quoted_error("klasse '", class, "' finst ikkje"));
            },
        };
        let mi = match find_method(&self.classes[ci].class.methods, method) {
            Some(i) => i,
            None => {
                let mut m = "'".to_owned();
                m.append(class.as_str());
                m.append("' har ingen metode '");
                m.append(method.as_str());
                m.append("'");
                return Err(Halt::Error(m));
            },
        };
        let params = crate::value::share(&self.classes[ci].class.methods[mi].params);
        let body = crate::value::share(&self.classes[ci].class.methods[mi].body);
        assert(methods_v(self.classes@[ci as int].class.methods@)[mi as int] == method_v(self.classes@[ci as int].class.methods@[mi as int]));
        if args.len() != params.len() {
            let mut who = class.clone();
            who.append(".");
            who.append(method.as_str());
            return Err(arity_halt(&who, params.len(), args.len()));
        }
        let mut env = Env::new();
        env.set(&"sjølv".to_owned(), Value::Object { id, class: class.clone() });
        bind_all(&mut env, &params, args);
        match self.exec_block(tape, g, &mut env, &body) {
            Err(h) => Err(h),
            Ok(Some(Signal::Return(v))) => Ok(v),
            Ok(_) => Ok(Value::Null),
        }
    }

    // ── statements ──

    fn exec_block(&mut self, tape: &mut Tape, f: u64, env: &mut Env, ss: &Vec<Stmt>) -> (r: Result<Option<Signal>, Halt>)
        requires
            state_ok(old(self)@),
            frames_ok(old(env)@, old(self)@.heap.len()),
        ensures
            (final(tape)@, final(self)@, final(env)@, flow_v(r)) == block_s(f as nat, old(tape)@, old(self)@, old(env)@, stmts_v(*ss), 0),
            tape_kept(old(tape)@, final(tape)@),
            settled(final(tape)@, r),
            state_ok(final(self)@),
            old(self)@.heap.len() <= final(self)@.heap.len(),
            frames_ok(final(env)@, final(self)@.heap.len()),
            r matches Ok(Some(Signal::Return(v))) ==> id_bound(v@) <= final(self)@.heap.len(),
        decreases f, 0nat,
    {
        let ghost sv = stmts_v(*ss);
        let mut i: usize = 0;
        let mut k = f;
        loop
            invariant
                state_ok(self@),
                old(self)@.heap.len() <= self@.heap.len(),
                frames_ok(env@, self@.heap.len()),
                tape_kept(old(tape)@, tape@),
                i <= ss@.len(),
                k <= f,
                sv == stmts_v(*ss),
                sv.len() == ss@.len(),
                block_s(k as nat, tape@, self@, env@, sv, i as int) == block_s(f as nat, old(tape)@, old(self)@, old(env)@, sv, 0),
            decreases ss@.len() - i,
        {
            if i >= ss.len() {
                return Ok(None);
            }
            if k == 0 {
                return Err(Halt::OutOfFuel);
            }
            let g = k - 1;
            assert(sv[i as int] == stmt_v(ss@[i as int]));
            match self.exec_stmt(tape, g, env, &ss[i]) {
                Ok(None) => {},
                other => {
                    return other;
                },
            }
            i += 1;
            k = g;
        }
    }

    fn scoped(&mut self, tape: &mut Tape, f: u64, env: &mut Env, body: &Vec<Stmt>) -> (r: Result<Option<Signal>, Halt>)
        requires
            state_ok(old(self)@),
            frames_ok(old(env)@, old(self)@.heap.len()),
        ensures
            (final(tape)@, final(self)@, final(env)@, flow_v(r)) == scoped_s(f as nat, old(tape)@, old(self)@, old(env)@, stmts_v(*body)),
            tape_kept(old(tape)@, final(tape)@),
            settled(final(tape)@, r),
            state_ok(final(self)@),
            old(self)@.heap.len() <= final(self)@.heap.len(),
            frames_ok(final(env)@, final(self)@.heap.len()),
            r matches Ok(Some(Signal::Return(v))) ==> id_bound(v@) <= final(self)@.heap.len(),
        decreases f, 0nat,
    {
        if f == 0 {
            return Err(Halt::OutOfFuel);
        }
        let g = f - 1;
        env.push();
        match self.exec_block(tape, g, env, body) {
            Err(h) => Err(h),
            Ok(sig) => {
                env.pop();
                Ok(sig)
            },
        }
    }

    fn exec_while(&mut self, tape: &mut Tape, f: u64, env: &mut Env, cond: &Expr, body: &Vec<Stmt>) -> (r: Result<Option<Signal>, Halt>)
        requires
            state_ok(old(self)@),
            frames_ok(old(env)@, old(self)@.heap.len()),
        ensures
            (final(tape)@, final(self)@, final(env)@, flow_v(r)) == while_s(f as nat, old(tape)@, old(self)@, old(env)@, cond@, stmts_v(*body)),
            tape_kept(old(tape)@, final(tape)@),
            settled(final(tape)@, r),
            state_ok(final(self)@),
            old(self)@.heap.len() <= final(self)@.heap.len(),
            frames_ok(final(env)@, final(self)@.heap.len()),
            r matches Ok(Some(Signal::Return(v))) ==> id_bound(v@) <= final(self)@.heap.len(),
        decreases f, 0nat,
    {
        let mut k = f;
        loop
            invariant
                state_ok(self@),
                old(self)@.heap.len() <= self@.heap.len(),
                frames_ok(env@, self@.heap.len()),
                tape_kept(old(tape)@, tape@),
                k <= f,
                while_s(k as nat, tape@, self@, env@, cond@, stmts_v(*body)) == while_s(f as nat, old(tape)@, old(self)@, old(env)@, cond@, stmts_v(*body)),
            decreases k,
        {
            if k == 0 {
                return Err(Halt::OutOfFuel);
            }
            let g = k - 1;
            let v = match self.eval(tape, g, env, cond) {
                Ok(v) => v,
                Err(h) => {
                    return Err(h);
                },
            };
            if !v.truthy() {
                return Ok(None);
            }
            match self.scoped(tape, g, env, body) {
                Err(h) => {
                    return Err(h);
                },
                Ok(None) => {},
                Ok(Some(Signal::Continue)) => {},
                Ok(Some(Signal::Break)) => {
                    return Ok(None);
                },
                Ok(Some(Signal::Return(x))) => {
                    return Ok(Some(Signal::Return(x)));
                },
            }
            k = g;
        }
    }

    fn exec_forever(&mut self, tape: &mut Tape, f: u64, env: &mut Env, body: &Vec<Stmt>) -> (r: Result<Option<Signal>, Halt>)
        requires
            state_ok(old(self)@),
            frames_ok(old(env)@, old(self)@.heap.len()),
        ensures
            (final(tape)@, final(self)@, final(env)@, flow_v(r)) == forever_s(f as nat, old(tape)@, old(self)@, old(env)@, stmts_v(*body)),
            tape_kept(old(tape)@, final(tape)@),
            settled(final(tape)@, r),
            state_ok(final(self)@),
            old(self)@.heap.len() <= final(self)@.heap.len(),
            frames_ok(final(env)@, final(self)@.heap.len()),
            r matches Ok(Some(Signal::Return(v))) ==> id_bound(v@) <= final(self)@.heap.len(),
        decreases f, 0nat,
    {
        let mut k = f;
        loop
            invariant
                state_ok(self@),
                old(self)@.heap.len() <= self@.heap.len(),
                frames_ok(env@, self@.heap.len()),
                tape_kept(old(tape)@, tape@),
                k <= f,
                forever_s(k as nat, tape@, self@, env@, stmts_v(*body)) == forever_s(f as nat, old(tape)@, old(self)@, old(env)@, stmts_v(*body)),
            decreases k,
        {
            if k == 0 {
                return Err(Halt::OutOfFuel);
            }
            let g = k - 1;
            match self.scoped(tape, g, env, body) {
                Err(h) => {
                    return Err(h);
                },
                Ok(None) => {},
                Ok(Some(Signal::Continue)) => {},
                Ok(Some(Signal::Break)) => {
                    return Ok(None);
                },
                Ok(Some(Signal::Return(x))) => {
                    return Ok(Some(Signal::Return(x)));
                },
            }
            k = g;
        }
    }

    fn exec_each(&mut self, tape: &mut Tape, f: u64, env: &mut Env, var: &String, items: &Vec<Value>, body: &Vec<Stmt>) -> (r: Result<Option<Signal>, Halt>)
        requires
            state_ok(old(self)@),
            vals_ok(values_v(*items), old(self)@.heap.len()),
            frames_ok(old(env)@, old(self)@.heap.len()),
        ensures
            (final(tape)@, final(self)@, final(env)@, flow_v(r)) == each_s(f as nat, old(tape)@, old(self)@, old(env)@, var@, values_v(*items), 0, stmts_v(*body)),
            tape_kept(old(tape)@, final(tape)@),
            settled(final(tape)@, r),
            state_ok(final(self)@),
            old(self)@.heap.len() <= final(self)@.heap.len(),
            frames_ok(final(env)@, final(self)@.heap.len()),
            r matches Ok(Some(Signal::Return(v))) ==> id_bound(v@) <= final(self)@.heap.len(),
        decreases f, 0nat,
    {
        let ghost iv = values_v(*items);
        let mut i: usize = 0;
        let mut k = f;
        loop
            invariant
                state_ok(self@),
                old(self)@.heap.len() <= self@.heap.len(),
                frames_ok(env@, self@.heap.len()),
                tape_kept(old(tape)@, tape@),
                i <= items@.len(),
                k <= f,
                iv == values_v(*items),
                iv.len() == items@.len(),
                vals_ok(iv, self@.heap.len()),
                each_s(k as nat, tape@, self@, env@, var@, iv, i as int, stmts_v(*body)) == each_s(
                    f as nat,
                    old(tape)@,
                    old(self)@,
                    old(env)@,
                    var@,
                    iv,
                    0,
                    stmts_v(*body),
                ),
            decreases items@.len() - i,
        {
            if i >= items.len() {
                return Ok(None);
            }
            if k == 0 {
                return Err(Halt::OutOfFuel);
            }
            let g = k - 1;
            assert(iv[i as int] == value_v(items@[i as int]));
            env.push();
            env.set(var, clone_value(&items[i]));
            match self.exec_block(tape, g, env, body) {
                Err(h) => {
                    return Err(h);
                },
                Ok(None) => {
                    env.pop();
                },
                Ok(Some(Signal::Continue)) => {
                    env.pop();
                },
                Ok(Some(Signal::Break)) => {
                    env.pop();
                    return Ok(None);
                },
                Ok(Some(Signal::Return(x))) => {
                    env.pop();
                    return Ok(Some(Signal::Return(x)));
                },
            }
            i += 1;
            k = g;
        }
    }

    fn exec_count(&mut self, tape: &mut Tape, f: u64, env: &mut Env, var: &String, n: i64, body: &Vec<Stmt>) -> (r: Result<Option<Signal>, Halt>)
        requires
            state_ok(old(self)@),
            frames_ok(old(env)@, old(self)@.heap.len()),
        ensures
            (final(tape)@, final(self)@, final(env)@, flow_v(r)) == count_s(f as nat, old(tape)@, old(self)@, old(env)@, var@, n, 0, stmts_v(*body)),
            tape_kept(old(tape)@, final(tape)@),
            settled(final(tape)@, r),
            state_ok(final(self)@),
            old(self)@.heap.len() <= final(self)@.heap.len(),
            frames_ok(final(env)@, final(self)@.heap.len()),
            r matches Ok(Some(Signal::Return(v))) ==> id_bound(v@) <= final(self)@.heap.len(),
        decreases f, 0nat,
    {
        let mut i: i64 = 0;
        let mut k = f;
        loop
            invariant
                state_ok(self@),
                old(self)@.heap.len() <= self@.heap.len(),
                frames_ok(env@, self@.heap.len()),
                tape_kept(old(tape)@, tape@),
                0 <= i,
                i <= n || n <= 0,
                k <= f,
                count_s(k as nat, tape@, self@, env@, var@, n, i, stmts_v(*body)) == count_s(
                    f as nat,
                    old(tape)@,
                    old(self)@,
                    old(env)@,
                    var@,
                    n,
                    0,
                    stmts_v(*body),
                ),
            decreases n - i,
        {
            if i >= n {
                return Ok(None);
            }
            if k == 0 {
                return Err(Halt::OutOfFuel);
            }
            let g = k - 1;
            env.push();
            env.set(var, Value::Int(i));
            match self.exec_block(tape, g, env, body) {
                Err(h) => {
                    return Err(h);
                },
                Ok(None) => {
                    env.pop();
                },
                Ok(Some(Signal::Continue)) => {
                    env.pop();
                },
                Ok(Some(Signal::Break)) => {
                    env.pop();
                    return Ok(None);
                },
                Ok(Some(Signal::Return(x))) => {
                    env.pop();
                    return Ok(Some(Signal::Return(x)));
                },
            }
            i += 1;
            k = g;
        }
    }

    fn exec_serve(&mut self, tape: &mut Tape, f: u64, env: &mut Env, port: &Expr, body: &Vec<Stmt>) -> (r: Result<Option<Signal>, Halt>)
        requires
            state_ok(old(self)@),
            frames_ok(old(env)@, old(self)@.heap.len()),
        ensures
            (final(tape)@, final(self)@, final(env)@, flow_v(r)) == serve_s(f as nat, old(tape)@, old(self)@, old(env)@, port@, stmts_v(*body)),
            tape_kept(old(tape)@, final(tape)@),
            settled(final(tape)@, r),
            state_ok(final(self)@),
            old(self)@.heap.len() <= final(self)@.heap.len(),
            frames_ok(final(env)@, final(self)@.heap.len()),
            r matches Ok(Some(Signal::Return(v))) ==> id_bound(v@) <= final(self)@.heap.len(),
        decreases f, 0nat,
    {
        if f == 0 {
            return Err(Halt::OutOfFuel);
        }
        let g = f - 1;
        let v = match self.eval(tape, g, env, port) {
            Ok(v) => v,
            Err(h) => {
                return Err(h);
            },
        };
        match &v {
            Value::Int(n) => self.listen(tape, g, env, *n as u16, body),
            Value::Float(b) => match tape.ask_int(Request::Float(FloatOp::ToPort(*b))) {
                Ok(p) => self.listen(tape, g, env, p as u16, body),
                Err(h) => Err(h),
            },
            _ => Err(show_error(tape, "port må vera heiltal, fekk ", &v, "")),
        }
    }

    fn listen(&mut self, tape: &mut Tape, f: u64, env: &mut Env, p: u16, body: &Vec<Stmt>) -> (r: Result<Option<Signal>, Halt>)
        requires
            state_ok(old(self)@),
            frames_ok(old(env)@, old(self)@.heap.len()),
        ensures
            (final(tape)@, final(self)@, final(env)@, flow_v(r)) == listen_s(f as nat, old(tape)@, old(self)@, old(env)@, p, stmts_v(*body)),
            tape_kept(old(tape)@, final(tape)@),
            settled(final(tape)@, r),
            state_ok(final(self)@),
            old(self)@.heap.len() <= final(self)@.heap.len(),
            frames_ok(final(env)@, final(self)@.heap.len()),
            r matches Ok(Some(Signal::Return(v))) ==> id_bound(v@) <= final(self)@.heap.len(),
        decreases f, 0nat,
    {
        if f == 0 {
            return Err(Halt::OutOfFuel);
        }
        match tape.ask_maybe(Request::Listen(p), 0) {
            Err(h) => Err(h),
            Ok(Err(m)) => {
                let mut v = chars_of("kan ikkje lytta på port ");
                push_nat_text(&mut v, p as u64);
                let sep = chars_of(": ");
                crate::text::push_all(&mut v, &sep);
                let mc = chars_of(m.as_str());
                crate::text::push_all(&mut v, &mc);
                Err(error_of(v))
            },
            Ok(Ok(_)) => self.serve_loop(tape, f - 1, env, body),
        }
    }

    fn serve_loop(&mut self, tape: &mut Tape, f: u64, env: &mut Env, body: &Vec<Stmt>) -> (r: Result<Option<Signal>, Halt>)
        requires
            state_ok(old(self)@),
            frames_ok(old(env)@, old(self)@.heap.len()),
        ensures
            (final(tape)@, final(self)@, final(env)@, flow_v(r)) == serve_loop_s(f as nat, old(tape)@, old(self)@, old(env)@, stmts_v(*body)),
            tape_kept(old(tape)@, final(tape)@),
            settled(final(tape)@, r),
            state_ok(final(self)@),
            old(self)@.heap.len() <= final(self)@.heap.len(),
            frames_ok(final(env)@, final(self)@.heap.len()),
            r matches Ok(Some(Signal::Return(v))) ==> id_bound(v@) <= final(self)@.heap.len(),
        decreases f, 0nat,
    {
        let mut k = f;
        loop
            invariant
                state_ok(self@),
                old(self)@.heap.len() <= self@.heap.len(),
                frames_ok(env@, self@.heap.len()),
                tape_kept(old(tape)@, tape@),
                k <= f,
                serve_loop_s(k as nat, tape@, self@, env@, stmts_v(*body)) == serve_loop_s(f as nat, old(tape)@, old(self)@, old(env)@, stmts_v(*body)),
            decreases k,
        {
            if k == 0 {
                return Err(Halt::OutOfFuel);
            }
            let g = k - 1;
            match tape.ask_done(Request::Accept) {
                Err(h) => {
                    return Err(h);
                },
                Ok(_) => {},
            }
            let line = match tape.ask_text(Request::ReadConn) {
                Ok(l) => l,
                Err(h) => {
                    return Err(h);
                },
            };
            let lc = chars_of(line.as_str());
            let parts = words(&lc);
            proof {
                assert(Seq::new(parts@.len(), |j: int| parts@[j]@) =~= words_s(line@));
            }
            let cl = match read_headers(tape, g) {
                Ok(n) => n,
                Err(h) => {
                    return Err(h);
                },
            };
            let kropp = match tape.ask_text(Request::ReadBody(cl)) {
                Ok(s) => s,
                Err(h) => {
                    return Err(h);
                },
            };
            env.push();
            env.set(&"metode".to_owned(), Value::Str(first_word_or(&parts, 0, "GET")));
            env.set(&"vegen".to_owned(), Value::Str(first_word_or(&parts, 1, "/")));
            env.set(&"kropp".to_owned(), Value::Str(kropp));
            self.response = None;
            match self.exec_block(tape, g, env, body) {
                Err(Halt::Error(_)) => {},
                Err(h) => {
                    return Err(h);
                },
                Ok(_) => {},
            }
            env.pop();
            if g == 0 {
                return Err(Halt::OutOfFuel);
            }
            let resp = match &self.response {
                Some(s) => s.clone(),
                None => String::new(),
            };
            self.response = None;
            match tape.ask_done(Request::Send(http_response(&resp))) {
                Err(h) => {
                    return Err(h);
                },
                Ok(_) => {},
            }
            k = g - 1;
        }
    }

    fn stmt_assign(&mut self, tape: &mut Tape, f: u64, env: &mut Env, s: &Stmt) -> (r: Result<Option<Signal>, Halt>)
        requires
            state_ok(old(self)@),
            frames_ok(old(env)@, old(self)@.heap.len()),
            f > 0,
            s is Assign,
        ensures
            (final(tape)@, final(self)@, final(env)@, flow_v(r)) == exec_s(f as nat, old(tape)@, old(self)@, old(env)@, s@),
            tape_kept(old(tape)@, final(tape)@),
            settled(final(tape)@, r),
            state_ok(final(self)@),
            old(self)@.heap.len() <= final(self)@.heap.len(),
            frames_ok(final(env)@, final(self)@.heap.len()),
            r matches Ok(Some(Signal::Return(v))) ==> id_bound(v@) <= final(self)@.heap.len(),
        decreases f, 0nat,
    {
        let g = f - 1;
        match s {
            Stmt::Assign { name, value, .. } => match self.eval(tape, g, env, value) {
                Ok(v) => {
                    env.set(name, v);
                    Ok(None)
                },
                Err(h) => Err(h),
            },
            _ => {
                proof {
                    assert(false);
                }
                Err(Halt::Mismatch)
            },
        }
    }

    fn stmt_reassign(&mut self, tape: &mut Tape, f: u64, env: &mut Env, s: &Stmt) -> (r: Result<Option<Signal>, Halt>)
        requires
            state_ok(old(self)@),
            frames_ok(old(env)@, old(self)@.heap.len()),
            f > 0,
            s is Reassign,
        ensures
            (final(tape)@, final(self)@, final(env)@, flow_v(r)) == exec_s(f as nat, old(tape)@, old(self)@, old(env)@, s@),
            tape_kept(old(tape)@, final(tape)@),
            settled(final(tape)@, r),
            state_ok(final(self)@),
            old(self)@.heap.len() <= final(self)@.heap.len(),
            frames_ok(final(env)@, final(self)@.heap.len()),
            r matches Ok(Some(Signal::Return(v))) ==> id_bound(v@) <= final(self)@.heap.len(),
        decreases f, 0nat,
    {
        let g = f - 1;
        match s {
            Stmt::Reassign { name, value, .. } => match self.eval(tape, g, env, value) {
                Ok(v) => {
                    env.assign(name, v);
                    Ok(None)
                },
                Err(h) => Err(h),
            },
            _ => {
                proof {
                    assert(false);
                }
                Err(Halt::Mismatch)
            },
        }
    }

    fn stmt_print(&mut self, tape: &mut Tape, f: u64, env: &mut Env, s: &Stmt) -> (r: Result<Option<Signal>, Halt>)
        requires
            state_ok(old(self)@),
            frames_ok(old(env)@, old(self)@.heap.len()),
            f > 0,
            s is Print,
        ensures
            (final(tape)@, final(self)@, final(env)@, flow_v(r)) == exec_s(f as nat, old(tape)@, old(self)@, old(env)@, s@),
            tape_kept(old(tape)@, final(tape)@),
            settled(final(tape)@, r),
            state_ok(final(self)@),
            old(self)@.heap.len() <= final(self)@.heap.len(),
            frames_ok(final(env)@, final(self)@.heap.len()),
            r matches Ok(Some(Signal::Return(v))) ==> id_bound(v@) <= final(self)@.heap.len(),
        decreases f, 0nat,
    {
        let g = f - 1;
        match s {
            Stmt::Print { value, .. } => {
                let v = match self.eval(tape, g, env, value) {
                    Ok(v) => v,
                    Err(h) => {
                        return Err(h);
                    },
                };
                let text = match show(tape, &v) {
                    Ok(t) => t,
                    Err(h) => {
                        return Err(h);
                    },
                };
                match tape.ask_done(Request::Print(text)) {
                    Ok(_) => Ok(None),
                    Err(h) => Err(h),
                }
            },
            _ => {
                proof {
                    assert(false);
                }
                Err(Halt::Mismatch)
            },
        }
    }

    fn stmt_input(&mut self, tape: &mut Tape, f: u64, env: &mut Env, s: &Stmt) -> (r: Result<Option<Signal>, Halt>)
        requires
            state_ok(old(self)@),
            frames_ok(old(env)@, old(self)@.heap.len()),
            f > 0,
            s is Input,
        ensures
            (final(tape)@, final(self)@, final(env)@, flow_v(r)) == exec_s(f as nat, old(tape)@, old(self)@, old(env)@, s@),
            tape_kept(old(tape)@, final(tape)@),
            settled(final(tape)@, r),
            state_ok(final(self)@),
            old(self)@.heap.len() <= final(self)@.heap.len(),
            frames_ok(final(env)@, final(self)@.heap.len()),
            r matches Ok(Some(Signal::Return(v))) ==> id_bound(v@) <= final(self)@.heap.len(),
        decreases f, 0nat,
    {
        let g = f - 1;
        match s {
            Stmt::Input { name, .. } => match tape.ask_text(Request::ReadInput) {
                Ok(line) => {
                    let cs = chars_of(line.as_str());
                    let c = chomp(&cs);
                    env.set(name, Value::Str(string_of(c.as_slice())));
                    Ok(None)
                },
                Err(h) => Err(h),
            },
            _ => {
                proof {
                    assert(false);
                }
                Err(Halt::Mismatch)
            },
        }
    }

    fn stmt_if(&mut self, tape: &mut Tape, f: u64, env: &mut Env, s: &Stmt) -> (r: Result<Option<Signal>, Halt>)
        requires
            state_ok(old(self)@),
            frames_ok(old(env)@, old(self)@.heap.len()),
            f > 0,
            s is If,
        ensures
            (final(tape)@, final(self)@, final(env)@, flow_v(r)) == exec_s(f as nat, old(tape)@, old(self)@, old(env)@, s@),
            tape_kept(old(tape)@, final(tape)@),
            settled(final(tape)@, r),
            state_ok(final(self)@),
            old(self)@.heap.len() <= final(self)@.heap.len(),
            frames_ok(final(env)@, final(self)@.heap.len()),
            r matches Ok(Some(Signal::Return(v))) ==> id_bound(v@) <= final(self)@.heap.len(),
        decreases f, 0nat,
    {
        let g = f - 1;
        match s {
            Stmt::If { cond, then_body, else_body, .. } => {
                let v = match self.eval(tape, g, env, cond) {
                    Ok(v) => v,
                    Err(h) => {
                        return Err(h);
                    },
                };
                if v.truthy() {
                    self.scoped(tape, g, env, then_body)
                } else {
                    match else_body {
                        Some(b) => self.scoped(tape, g, env, b),
                        None => Ok(None),
                    }
                }
            },
            _ => {
                proof {
                    assert(false);
                }
                Err(Halt::Mismatch)
            },
        }
    }

    fn stmt_for_each(&mut self, tape: &mut Tape, f: u64, env: &mut Env, s: &Stmt) -> (r: Result<Option<Signal>, Halt>)
        requires
            state_ok(old(self)@),
            frames_ok(old(env)@, old(self)@.heap.len()),
            f > 0,
            s is ForEach,
        ensures
            (final(tape)@, final(self)@, final(env)@, flow_v(r)) == exec_s(f as nat, old(tape)@, old(self)@, old(env)@, s@),
            tape_kept(old(tape)@, final(tape)@),
            settled(final(tape)@, r),
            state_ok(final(self)@),
            old(self)@.heap.len() <= final(self)@.heap.len(),
            frames_ok(final(env)@, final(self)@.heap.len()),
            r matches Ok(Some(Signal::Return(v))) ==> id_bound(v@) <= final(self)@.heap.len(),
        decreases f, 0nat,
    {
        let g = f - 1;
        match s {
            Stmt::ForEach { var, iterable, body, .. } => {
                let v = match self.eval(tape, g, env, iterable) {
                    Ok(v) => v,
                    Err(h) => {
                        return Err(h);
                    },
                };
                match &v {
                    Value::List(xs) => {
                        proof {
                            crate::handles::lemma_list_bound(values_v(*xs), self@.heap.len());
                        }
                        self.exec_each(tape, g, env, var, xs, body)
                    },
                    Value::Str(cs) => {
                        let items = char_values(cs);
                        proof {
                            assert(vals_ok(values_v(items), self@.heap.len())) by {
                                assert(values_v(items) == char_texts(cs@));
                            }
                        }
                        self.exec_each(tape, g, env, var, &items, body)
                    },
                    _ => Err(show_error(tape, "kan ikkje iterera over ", &v, "")),
                }
            },
            _ => {
                proof {
                    assert(false);
                }
                Err(Halt::Mismatch)
            },
        }
    }

    fn stmt_count_loop(&mut self, tape: &mut Tape, f: u64, env: &mut Env, s: &Stmt) -> (r: Result<Option<Signal>, Halt>)
        requires
            state_ok(old(self)@),
            frames_ok(old(env)@, old(self)@.heap.len()),
            f > 0,
            s is CountLoop,
        ensures
            (final(tape)@, final(self)@, final(env)@, flow_v(r)) == exec_s(f as nat, old(tape)@, old(self)@, old(env)@, s@),
            tape_kept(old(tape)@, final(tape)@),
            settled(final(tape)@, r),
            state_ok(final(self)@),
            old(self)@.heap.len() <= final(self)@.heap.len(),
            frames_ok(final(env)@, final(self)@.heap.len()),
            r matches Ok(Some(Signal::Return(v))) ==> id_bound(v@) <= final(self)@.heap.len(),
        decreases f, 0nat,
    {
        let g = f - 1;
        match s {
            Stmt::CountLoop { count, var, body, .. } => {
                let v = match self.eval(tape, g, env, count) {
                    Ok(v) => v,
                    Err(h) => {
                        return Err(h);
                    },
                };
                match &v {
                    Value::Int(n) => self.exec_count(tape, g, env, var, *n, body),
                    Value::Float(b) => match tape.ask_int(Request::Float(FloatOp::ToInt(*b))) {
                        Ok(n) => self.exec_count(tape, g, env, var, n, body),
                        Err(h) => Err(h),
                    },
                    _ => Err(show_error(tape, "gongar krev heiltal, fekk ", &v, "")),
                }
            },
            _ => {
                proof {
                    assert(false);
                }
                Err(Halt::Mismatch)
            },
        }
    }

    fn stmt_func_def(&mut self, tape: &mut Tape, f: u64, env: &mut Env, s: &Stmt) -> (r: Result<Option<Signal>, Halt>)
        requires
            state_ok(old(self)@),
            frames_ok(old(env)@, old(self)@.heap.len()),
            f > 0,
            s is FuncDef,
        ensures
            (final(tape)@, final(self)@, final(env)@, flow_v(r)) == exec_s(f as nat, old(tape)@, old(self)@, old(env)@, s@),
            tape_kept(old(tape)@, final(tape)@),
            settled(final(tape)@, r),
            state_ok(final(self)@),
            old(self)@.heap.len() <= final(self)@.heap.len(),
            frames_ok(final(env)@, final(self)@.heap.len()),
            r matches Ok(Some(Signal::Return(v))) ==> id_bound(v@) <= final(self)@.heap.len(),
        decreases f, 0nat,
    {
        let g = f - 1;
        match s {
            Stmt::FuncDef { name, params, body, .. } => {
                let fv = Value::Func { params: Rc::new(clone_names(params)), body: Rc::new(clone_stmts(body)) };
                self.globals.insert(name, fv);
                Ok(None)
            },
            _ => {
                proof {
                    assert(false);
                }
                Err(Halt::Mismatch)
            },
        }
    }

    fn stmt_func_call(&mut self, tape: &mut Tape, f: u64, env: &mut Env, s: &Stmt) -> (r: Result<Option<Signal>, Halt>)
        requires
            state_ok(old(self)@),
            frames_ok(old(env)@, old(self)@.heap.len()),
            f > 0,
            s is FuncCall,
        ensures
            (final(tape)@, final(self)@, final(env)@, flow_v(r)) == exec_s(f as nat, old(tape)@, old(self)@, old(env)@, s@),
            tape_kept(old(tape)@, final(tape)@),
            settled(final(tape)@, r),
            state_ok(final(self)@),
            old(self)@.heap.len() <= final(self)@.heap.len(),
            frames_ok(final(env)@, final(self)@.heap.len()),
            r matches Ok(Some(Signal::Return(v))) ==> id_bound(v@) <= final(self)@.heap.len(),
        decreases f, 0nat,
    {
        let g = f - 1;
        match s {
            Stmt::FuncCall { name, args, .. } => match self.evals(tape, g, env, args) {
                Ok(vs) => match self.call_func(tape, g, name, vs) {
                    Ok(_) => Ok(None),
                    Err(h) => Err(h),
                },
                Err(h) => Err(h),
            },
            _ => {
                proof {
                    assert(false);
                }
                Err(Halt::Mismatch)
            },
        }
    }

    fn stmt_return(&mut self, tape: &mut Tape, f: u64, env: &mut Env, s: &Stmt) -> (r: Result<Option<Signal>, Halt>)
        requires
            state_ok(old(self)@),
            frames_ok(old(env)@, old(self)@.heap.len()),
            f > 0,
            s is Return,
        ensures
            (final(tape)@, final(self)@, final(env)@, flow_v(r)) == exec_s(f as nat, old(tape)@, old(self)@, old(env)@, s@),
            tape_kept(old(tape)@, final(tape)@),
            settled(final(tape)@, r),
            state_ok(final(self)@),
            old(self)@.heap.len() <= final(self)@.heap.len(),
            frames_ok(final(env)@, final(self)@.heap.len()),
            r matches Ok(Some(Signal::Return(v))) ==> id_bound(v@) <= final(self)@.heap.len(),
        decreases f, 0nat,
    {
        let g = f - 1;
        match s {
            Stmt::Return { value, .. } => match self.eval(tape, g, env, value) {
                Ok(v) => Ok(Some(Signal::Return(v))),
                Err(h) => Err(h),
            },
            _ => {
                proof {
                    assert(false);
                }
                Err(Halt::Mismatch)
            },
        }
    }

    fn stmt_raise(&mut self, tape: &mut Tape, f: u64, env: &mut Env, s: &Stmt) -> (r: Result<Option<Signal>, Halt>)
        requires
            state_ok(old(self)@),
            frames_ok(old(env)@, old(self)@.heap.len()),
            f > 0,
            s is Raise,
        ensures
            (final(tape)@, final(self)@, final(env)@, flow_v(r)) == exec_s(f as nat, old(tape)@, old(self)@, old(env)@, s@),
            tape_kept(old(tape)@, final(tape)@),
            settled(final(tape)@, r),
            state_ok(final(self)@),
            old(self)@.heap.len() <= final(self)@.heap.len(),
            frames_ok(final(env)@, final(self)@.heap.len()),
            r matches Ok(Some(Signal::Return(v))) ==> id_bound(v@) <= final(self)@.heap.len(),
        decreases f, 0nat,
    {
        let g = f - 1;
        match s {
            Stmt::Raise { value, .. } => match self.eval(tape, g, env, value) {
                Ok(v) => Err(show_error(tape, "", &v, "")),
                Err(h) => Err(h),
            },
            _ => {
                proof {
                    assert(false);
                }
                Err(Halt::Mismatch)
            },
        }
    }

    fn stmt_assert(&mut self, tape: &mut Tape, f: u64, env: &mut Env, s: &Stmt) -> (r: Result<Option<Signal>, Halt>)
        requires
            state_ok(old(self)@),
            frames_ok(old(env)@, old(self)@.heap.len()),
            f > 0,
            s is Assert,
        ensures
            (final(tape)@, final(self)@, final(env)@, flow_v(r)) == exec_s(f as nat, old(tape)@, old(self)@, old(env)@, s@),
            tape_kept(old(tape)@, final(tape)@),
            settled(final(tape)@, r),
            state_ok(final(self)@),
            old(self)@.heap.len() <= final(self)@.heap.len(),
            frames_ok(final(env)@, final(self)@.heap.len()),
            r matches Ok(Some(Signal::Return(v))) ==> id_bound(v@) <= final(self)@.heap.len(),
        decreases f, 0nat,
    {
        let g = f - 1;
        match s {
            Stmt::Assert { cond, .. } => match self.eval(tape, g, env, cond) {
                Ok(v) => if v.truthy() {
                    Ok(None)
                } else {
                    Err(show_error(tape, "Vakt broten: ", &v, " er ikkje sant"))
                },
                Err(h) => Err(h),
            },
            _ => {
                proof {
                    assert(false);
                }
                Err(Halt::Mismatch)
            },
        }
    }

    fn stmt_sleep(&mut self, tape: &mut Tape, f: u64, env: &mut Env, s: &Stmt) -> (r: Result<Option<Signal>, Halt>)
        requires
            state_ok(old(self)@),
            frames_ok(old(env)@, old(self)@.heap.len()),
            f > 0,
            s is Sleep,
        ensures
            (final(tape)@, final(self)@, final(env)@, flow_v(r)) == exec_s(f as nat, old(tape)@, old(self)@, old(env)@, s@),
            tape_kept(old(tape)@, final(tape)@),
            settled(final(tape)@, r),
            state_ok(final(self)@),
            old(self)@.heap.len() <= final(self)@.heap.len(),
            frames_ok(final(env)@, final(self)@.heap.len()),
            r matches Ok(Some(Signal::Return(v))) ==> id_bound(v@) <= final(self)@.heap.len(),
        decreases f, 0nat,
    {
        let g = f - 1;
        match s {
            Stmt::Sleep { secs, .. } => {
                let v = match self.eval(tape, g, env, secs) {
                    Ok(v) => v,
                    Err(h) => {
                        return Err(h);
                    },
                };
                match &v {
                    Value::Int(n) => match tape.ask_done(Request::SleepInt(*n)) {
                        Ok(_) => Ok(None),
                        Err(h) => Err(h),
                    },
                    Value::Float(b) => match tape.ask_done(Request::SleepFloat(*b)) {
                        Ok(_) => Ok(None),
                        Err(h) => Err(h),
                    },
                    _ => Err(show_error(tape, "kvil krev tal, fekk ", &v, "")),
                }
            },
            _ => {
                proof {
                    assert(false);
                }
                Err(Halt::Mismatch)
            },
        }
    }

    fn stmt_respond(&mut self, tape: &mut Tape, f: u64, env: &mut Env, s: &Stmt) -> (r: Result<Option<Signal>, Halt>)
        requires
            state_ok(old(self)@),
            frames_ok(old(env)@, old(self)@.heap.len()),
            f > 0,
            s is Respond,
        ensures
            (final(tape)@, final(self)@, final(env)@, flow_v(r)) == exec_s(f as nat, old(tape)@, old(self)@, old(env)@, s@),
            tape_kept(old(tape)@, final(tape)@),
            settled(final(tape)@, r),
            state_ok(final(self)@),
            old(self)@.heap.len() <= final(self)@.heap.len(),
            frames_ok(final(env)@, final(self)@.heap.len()),
            r matches Ok(Some(Signal::Return(v))) ==> id_bound(v@) <= final(self)@.heap.len(),
        decreases f, 0nat,
    {
        let g = f - 1;
        match s {
            Stmt::Respond { value, .. } => {
                let v = match self.eval(tape, g, env, value) {
                    Ok(v) => v,
                    Err(h) => {
                        return Err(h);
                    },
                };
                match show(tape, &v) {
                    Ok(text) => {
                        self.response = Some(text);
                        Ok(None)
                    },
                    Err(h) => Err(h),
                }
            },
            _ => {
                proof {
                    assert(false);
                }
                Err(Halt::Mismatch)
            },
        }
    }

    fn stmt_class_def(&mut self, tape: &mut Tape, f: u64, env: &mut Env, s: &Stmt) -> (r: Result<Option<Signal>, Halt>)
        requires
            state_ok(old(self)@),
            frames_ok(old(env)@, old(self)@.heap.len()),
            f > 0,
            s is ClassDef,
        ensures
            (final(tape)@, final(self)@, final(env)@, flow_v(r)) == exec_s(f as nat, old(tape)@, old(self)@, old(env)@, s@),
            tape_kept(old(tape)@, final(tape)@),
            settled(final(tape)@, r),
            state_ok(final(self)@),
            old(self)@.heap.len() <= final(self)@.heap.len(),
            frames_ok(final(env)@, final(self)@.heap.len()),
            r matches Ok(Some(Signal::Return(v))) ==> id_bound(v@) <= final(self)@.heap.len(),
        decreases f, 0nat,
    {
        let g = f - 1;
        match s {
            Stmt::ClassDef { name, body, .. } => match build_class(body) {
                Some(c) => {
                    self.put_class_exec(name, c);
                    Ok(None)
                },
                None => Err(Halt::Error("Klasse kan berre innehalda felt og metodar".to_owned())),
            },
            _ => {
                proof {
                    assert(false);
                }
                Err(Halt::Mismatch)
            },
        }
    }

    fn stmt_field_assign(&mut self, tape: &mut Tape, f: u64, env: &mut Env, s: &Stmt) -> (r: Result<Option<Signal>, Halt>)
        requires
            state_ok(old(self)@),
            frames_ok(old(env)@, old(self)@.heap.len()),
            f > 0,
            s is FieldAssign,
        ensures
            (final(tape)@, final(self)@, final(env)@, flow_v(r)) == exec_s(f as nat, old(tape)@, old(self)@, old(env)@, s@),
            tape_kept(old(tape)@, final(tape)@),
            settled(final(tape)@, r),
            state_ok(final(self)@),
            old(self)@.heap.len() <= final(self)@.heap.len(),
            frames_ok(final(env)@, final(self)@.heap.len()),
            r matches Ok(Some(Signal::Return(v))) ==> id_bound(v@) <= final(self)@.heap.len(),
        decreases f, 0nat,
    {
        let g = f - 1;
        match s {
            Stmt::FieldAssign { obj, field, value, .. } => {
                proof {
                    crate::handles::lemma_var_ok(self@, env@, obj@);
                }
                let target = match self.var_get(env, obj) {
                    Some(Value::Object { id, .. }) => Some(*id),
                    _ => None,
                };
                match target {
                    Some(id) => match self.eval(tape, g, env, value) {
                        Ok(v) => {
                            self.set_field(id, field, v);
                            Ok(None)
                        },
                        Err(h) => Err(h),
                    },
                    None => Err(quoted_error("'", obj, "' er ikkje eit objekt")),
                }
            },
            _ => {
                proof {
                    assert(false);
                }
                Err(Halt::Mismatch)
            },
        }
    }

    fn stmt_method_call(&mut self, tape: &mut Tape, f: u64, env: &mut Env, s: &Stmt) -> (r: Result<Option<Signal>, Halt>)
        requires
            state_ok(old(self)@),
            frames_ok(old(env)@, old(self)@.heap.len()),
            f > 0,
            s is MethodCall,
        ensures
            (final(tape)@, final(self)@, final(env)@, flow_v(r)) == exec_s(f as nat, old(tape)@, old(self)@, old(env)@, s@),
            tape_kept(old(tape)@, final(tape)@),
            settled(final(tape)@, r),
            state_ok(final(self)@),
            old(self)@.heap.len() <= final(self)@.heap.len(),
            frames_ok(final(env)@, final(self)@.heap.len()),
            r matches Ok(Some(Signal::Return(v))) ==> id_bound(v@) <= final(self)@.heap.len(),
        decreases f, 0nat,
    {
        let g = f - 1;
        match s {
            Stmt::MethodCall { obj, method, args, .. } => {
                proof {
                    crate::handles::lemma_var_ok(self@, env@, obj@);
                }
                let target = match self.var_get(env, obj) {
                    Some(Value::Object { id, class }) => Some((*id, class.clone())),
                    _ => None,
                };
                match target {
                    Some((id, class)) => match self.evals(tape, g, env, args) {
                        Ok(vs) => match self.call_method(tape, g, id, &class, method, vs) {
                            Ok(_) => Ok(None),
                            Err(h) => Err(h),
                        },
                        Err(h) => Err(h),
                    },
                    None => Err(quoted_error("'", obj, "' er ikkje eit objekt")),
                }
            },
            _ => {
                proof {
                    assert(false);
                }
                Err(Halt::Mismatch)
            },
        }
    }

    fn stmt_try_catch(&mut self, tape: &mut Tape, f: u64, env: &mut Env, s: &Stmt) -> (r: Result<Option<Signal>, Halt>)
        requires
            state_ok(old(self)@),
            frames_ok(old(env)@, old(self)@.heap.len()),
            f > 0,
            s is TryCatch,
        ensures
            (final(tape)@, final(self)@, final(env)@, flow_v(r)) == exec_s(f as nat, old(tape)@, old(self)@, old(env)@, s@),
            tape_kept(old(tape)@, final(tape)@),
            settled(final(tape)@, r),
            state_ok(final(self)@),
            old(self)@.heap.len() <= final(self)@.heap.len(),
            frames_ok(final(env)@, final(self)@.heap.len()),
            r matches Ok(Some(Signal::Return(v))) ==> id_bound(v@) <= final(self)@.heap.len(),
        decreases f, 0nat,
    {
        let g = f - 1;
        match s {
            Stmt::TryCatch { try_body, catch_body, .. } => {
                env.push();
                let r = self.exec_block(tape, g, env, try_body);
                env.pop();
                match r {
                    Err(Halt::Error(m)) => {
                        env.push();
                        env.set(&"feilen".to_owned(), Value::Str(m));
                        match self.exec_block(tape, g, env, catch_body) {
                            Err(h) => Err(h),
                            Ok(sig) => {
                                env.pop();
                                Ok(sig)
                            },
                        }
                    },
                    other => other,
                }
            },
            _ => {
                proof {
                    assert(false);
                }
                Err(Halt::Mismatch)
            },
        }
    }

    fn stmt_read_file(&mut self, tape: &mut Tape, f: u64, env: &mut Env, s: &Stmt) -> (r: Result<Option<Signal>, Halt>)
        requires
            state_ok(old(self)@),
            frames_ok(old(env)@, old(self)@.heap.len()),
            f > 0,
            s is ReadFile,
        ensures
            (final(tape)@, final(self)@, final(env)@, flow_v(r)) == exec_s(f as nat, old(tape)@, old(self)@, old(env)@, s@),
            tape_kept(old(tape)@, final(tape)@),
            settled(final(tape)@, r),
            state_ok(final(self)@),
            old(self)@.heap.len() <= final(self)@.heap.len(),
            frames_ok(final(env)@, final(self)@.heap.len()),
            r matches Ok(Some(Signal::Return(v))) ==> id_bound(v@) <= final(self)@.heap.len(),
        decreases f, 0nat,
    {
        let g = f - 1;
        match s {
            Stmt::ReadFile { path, name, .. } => {
                let p = match self.eval(tape, g, env, path) {
                    Ok(v) => v,
                    Err(h) => {
                        return Err(h);
                    },
                };
                let ps = match show(tape, &p) {
                    Ok(t) => t,
                    Err(h) => {
                        return Err(h);
                    },
                };
                match tape.ask_maybe(Request::ReadFile(ps.clone()), 1) {
                    Err(h) => Err(h),
                    Ok(Err(m)) => {
                        let mut msg = "kan ikkje lesa '".to_owned();
                        msg.append(ps.as_str());
                        msg.append("': ");
                        msg.append(m.as_str());
                        Err(Halt::Error(msg))
                    },
                    Ok(Ok(Answer::Text(text))) => {
                        env.set(name, Value::Str(text));
                        Ok(None)
                    },
                    Ok(Ok(_)) => Err(Halt::Mismatch),
                }
            },
            _ => {
                proof {
                    assert(false);
                }
                Err(Halt::Mismatch)
            },
        }
    }

    fn stmt_write_file(&mut self, tape: &mut Tape, f: u64, env: &mut Env, s: &Stmt) -> (r: Result<Option<Signal>, Halt>)
        requires
            state_ok(old(self)@),
            frames_ok(old(env)@, old(self)@.heap.len()),
            f > 0,
            s is WriteFile,
        ensures
            (final(tape)@, final(self)@, final(env)@, flow_v(r)) == exec_s(f as nat, old(tape)@, old(self)@, old(env)@, s@),
            tape_kept(old(tape)@, final(tape)@),
            settled(final(tape)@, r),
            state_ok(final(self)@),
            old(self)@.heap.len() <= final(self)@.heap.len(),
            frames_ok(final(env)@, final(self)@.heap.len()),
            r matches Ok(Some(Signal::Return(v))) ==> id_bound(v@) <= final(self)@.heap.len(),
        decreases f, 0nat,
    {
        let g = f - 1;
        match s {
            Stmt::WriteFile { path, content, .. } => {
                let p = match self.eval(tape, g, env, path) {
                    Ok(v) => v,
                    Err(h) => {
                        return Err(h);
                    },
                };
                let c = match self.eval(tape, g, env, content) {
                    Ok(v) => v,
                    Err(h) => {
                        return Err(h);
                    },
                };
                let ps = match show(tape, &p) {
                    Ok(t) => t,
                    Err(h) => {
                        return Err(h);
                    },
                };
                let cs = match show(tape, &c) {
                    Ok(t) => t,
                    Err(h) => {
                        return Err(h);
                    },
                };
                match tape.ask_maybe(Request::WriteFile(ps.clone(), cs), 0) {
                    Err(h) => Err(h),
                    Ok(Err(m)) => {
                        let mut msg = "kan ikkje skriva '".to_owned();
                        msg.append(ps.as_str());
                        msg.append("': ");
                        msg.append(m.as_str());
                        Err(Halt::Error(msg))
                    },
                    Ok(Ok(_)) => Ok(None),
                }
            },
            _ => {
                proof {
                    assert(false);
                }
                Err(Halt::Mismatch)
            },
        }
    }

    fn stmt_while(&mut self, tape: &mut Tape, f: u64, env: &mut Env, s: &Stmt) -> (r: Result<Option<Signal>, Halt>)
        requires
            state_ok(old(self)@),
            frames_ok(old(env)@, old(self)@.heap.len()),
            f > 0,
            s is While,
        ensures
            (final(tape)@, final(self)@, final(env)@, flow_v(r)) == exec_s(f as nat, old(tape)@, old(self)@, old(env)@, s@),
            tape_kept(old(tape)@, final(tape)@),
            settled(final(tape)@, r),
            state_ok(final(self)@),
            old(self)@.heap.len() <= final(self)@.heap.len(),
            frames_ok(final(env)@, final(self)@.heap.len()),
            r matches Ok(Some(Signal::Return(v))) ==> id_bound(v@) <= final(self)@.heap.len(),
        decreases f, 0nat,
    {
        let g = f - 1;
        match s {
            Stmt::While { cond, body, .. } => self.exec_while(tape, g, env, cond, body),
            _ => {
                proof {
                    assert(false);
                }
                Err(Halt::Mismatch)
            },
        }
    }

    fn stmt_inf_loop(&mut self, tape: &mut Tape, f: u64, env: &mut Env, s: &Stmt) -> (r: Result<Option<Signal>, Halt>)
        requires
            state_ok(old(self)@),
            frames_ok(old(env)@, old(self)@.heap.len()),
            f > 0,
            s is InfLoop,
        ensures
            (final(tape)@, final(self)@, final(env)@, flow_v(r)) == exec_s(f as nat, old(tape)@, old(self)@, old(env)@, s@),
            tape_kept(old(tape)@, final(tape)@),
            settled(final(tape)@, r),
            state_ok(final(self)@),
            old(self)@.heap.len() <= final(self)@.heap.len(),
            frames_ok(final(env)@, final(self)@.heap.len()),
            r matches Ok(Some(Signal::Return(v))) ==> id_bound(v@) <= final(self)@.heap.len(),
        decreases f, 0nat,
    {
        let g = f - 1;
        match s {
            Stmt::InfLoop { body, .. } => self.exec_forever(tape, g, env, body),
            _ => {
                proof {
                    assert(false);
                }
                Err(Halt::Mismatch)
            },
        }
    }

    #[verifier::rlimit(50)]
    fn stmt_serve(&mut self, tape: &mut Tape, f: u64, env: &mut Env, s: &Stmt) -> (r: Result<Option<Signal>, Halt>)
        requires
            state_ok(old(self)@),
            frames_ok(old(env)@, old(self)@.heap.len()),
            f > 0,
            s is Serve,
        ensures
            (final(tape)@, final(self)@, final(env)@, flow_v(r)) == exec_s(f as nat, old(tape)@, old(self)@, old(env)@, s@),
            tape_kept(old(tape)@, final(tape)@),
            settled(final(tape)@, r),
            state_ok(final(self)@),
            old(self)@.heap.len() <= final(self)@.heap.len(),
            frames_ok(final(env)@, final(self)@.heap.len()),
            r matches Ok(Some(Signal::Return(v))) ==> id_bound(v@) <= final(self)@.heap.len(),
        decreases f, 0nat,
    {
        let g = f - 1;
        match s {
            Stmt::Serve { port, body, .. } => self.exec_serve(tape, g, env, port, body),
            _ => {
                proof {
                    assert(false);
                }
                Err(Halt::Mismatch)
            },
        }
    }

    fn stmt_break(&mut self, tape: &mut Tape, f: u64, env: &mut Env, s: &Stmt) -> (r: Result<Option<Signal>, Halt>)
        requires
            state_ok(old(self)@),
            frames_ok(old(env)@, old(self)@.heap.len()),
            f > 0,
            s is Break,
        ensures
            (final(tape)@, final(self)@, final(env)@, flow_v(r)) == exec_s(f as nat, old(tape)@, old(self)@, old(env)@, s@),
            tape_kept(old(tape)@, final(tape)@),
            settled(final(tape)@, r),
            state_ok(final(self)@),
            old(self)@.heap.len() <= final(self)@.heap.len(),
            frames_ok(final(env)@, final(self)@.heap.len()),
            r matches Ok(Some(Signal::Return(v))) ==> id_bound(v@) <= final(self)@.heap.len(),
        decreases f, 0nat,
    {
        let g = f - 1;
        match s {
            Stmt::Break { .. } => Ok(Some(Signal::Break)),
            _ => {
                proof {
                    assert(false);
                }
                Err(Halt::Mismatch)
            },
        }
    }

    fn stmt_continue(&mut self, tape: &mut Tape, f: u64, env: &mut Env, s: &Stmt) -> (r: Result<Option<Signal>, Halt>)
        requires
            state_ok(old(self)@),
            frames_ok(old(env)@, old(self)@.heap.len()),
            f > 0,
            s is Continue,
        ensures
            (final(tape)@, final(self)@, final(env)@, flow_v(r)) == exec_s(f as nat, old(tape)@, old(self)@, old(env)@, s@),
            tape_kept(old(tape)@, final(tape)@),
            settled(final(tape)@, r),
            state_ok(final(self)@),
            old(self)@.heap.len() <= final(self)@.heap.len(),
            frames_ok(final(env)@, final(self)@.heap.len()),
            r matches Ok(Some(Signal::Return(v))) ==> id_bound(v@) <= final(self)@.heap.len(),
        decreases f, 0nat,
    {
        let g = f - 1;
        match s {
            Stmt::Continue { .. } => Ok(Some(Signal::Continue)),
            _ => {
                proof {
                    assert(false);
                }
                Err(Halt::Mismatch)
            },
        }
    }

    fn exec_stmt(&mut self, tape: &mut Tape, f: u64, env: &mut Env, s: &Stmt) -> (r: Result<Option<Signal>, Halt>)
        requires
            state_ok(old(self)@),
            frames_ok(old(env)@, old(self)@.heap.len()),
        ensures
            (final(tape)@, final(self)@, final(env)@, flow_v(r)) == exec_s(f as nat, old(tape)@, old(self)@, old(env)@, s@),
            tape_kept(old(tape)@, final(tape)@),
            settled(final(tape)@, r),
            state_ok(final(self)@),
            old(self)@.heap.len() <= final(self)@.heap.len(),
            frames_ok(final(env)@, final(self)@.heap.len()),
            r matches Ok(Some(Signal::Return(v))) ==> id_bound(v@) <= final(self)@.heap.len(),
        decreases f, 1nat,
    {
        if f == 0 {
            return Err(Halt::OutOfFuel);
        }
        match s {
            Stmt::Assign { .. } => self.stmt_assign(tape, f, env, s),
            Stmt::Reassign { .. } => self.stmt_reassign(tape, f, env, s),
            Stmt::Print { .. } => self.stmt_print(tape, f, env, s),
            Stmt::Input { .. } => self.stmt_input(tape, f, env, s),
            Stmt::If { .. } => self.stmt_if(tape, f, env, s),
            Stmt::While { .. } => self.stmt_while(tape, f, env, s),
            Stmt::ForEach { .. } => self.stmt_for_each(tape, f, env, s),
            Stmt::InfLoop { .. } => self.stmt_inf_loop(tape, f, env, s),
            Stmt::CountLoop { .. } => self.stmt_count_loop(tape, f, env, s),
            Stmt::FuncDef { .. } => self.stmt_func_def(tape, f, env, s),
            Stmt::FuncCall { .. } => self.stmt_func_call(tape, f, env, s),
            Stmt::Return { .. } => self.stmt_return(tape, f, env, s),
            Stmt::Break { .. } => self.stmt_break(tape, f, env, s),
            Stmt::Continue { .. } => self.stmt_continue(tape, f, env, s),
            Stmt::Raise { .. } => self.stmt_raise(tape, f, env, s),
            Stmt::Assert { .. } => self.stmt_assert(tape, f, env, s),
            Stmt::Sleep { .. } => self.stmt_sleep(tape, f, env, s),
            Stmt::Respond { .. } => self.stmt_respond(tape, f, env, s),
            Stmt::Serve { .. } => self.stmt_serve(tape, f, env, s),
            Stmt::ClassDef { .. } => self.stmt_class_def(tape, f, env, s),
            Stmt::FieldAssign { .. } => self.stmt_field_assign(tape, f, env, s),
            Stmt::MethodCall { .. } => self.stmt_method_call(tape, f, env, s),
            Stmt::TryCatch { .. } => self.stmt_try_catch(tape, f, env, s),
            Stmt::ReadFile { .. } => self.stmt_read_file(tape, f, env, s),
            Stmt::WriteFile { .. } => self.stmt_write_file(tape, f, env, s),
        }
    }

    /// Runs a program to its end, to its first error, or to the first request it
    /// finds no answer for on the tape.
    ///
    /// The run does what `run_s` says. Besides, it reads the tape's answers in order
    /// and changes none of them, and stops for a new answer only once it has used
    /// all of them; the objects made stay, and every object a global or a field
    /// refers to is one that was made, before the run as after it.
    pub fn run(&mut self, program: &Vec<Stmt>, tape: &mut Tape) -> (r: Result<(), Halt>)
        requires
            state_ok(old(self)@),
        ensures
            ({
                let (t1, s1, x) = run_s(budget(), old(tape)@, old(self)@, stmts_v(*program));
                final(tape)@ == t1 && final(self)@ == s1 && unit_v(r) == x
            }),
            tape_kept(old(tape)@, final(tape)@),
            settled(final(tape)@, r),
            state_ok(final(self)@),
            old(self)@.heap.len() <= final(self)@.heap.len(),
    {
        let mut env = Env::new();
        match self.exec_block(tape, u64::MAX, &mut env, program) {
            Err(h) => Err(h),
            Ok(_) => Ok(()),
        }
    }
}

impl Default for Interpreter {
    fn default() -> (i: Interpreter)
        ensures
            i@ == (StateV { globals: Seq::empty(), response: None, heap: Seq::empty(), classes: Seq::empty() }),
    {
        Interpreter::new()
    }
}

} // verus!
