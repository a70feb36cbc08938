//! Objects are referred to by their place in the interpreter's list of objects. That
//! list only grows, and every reference in a value, a scope, a global or a field is
//! to an object already made: the definitions here say so, and the lemmas show that
//! every step keeps it so.
use vstd::prelude::*;
use crate::ast::BinOpKind;
use crate::builtins::{builtin_s, char_texts, count_list, insert_s, sort_from, texts_of};
use crate::host::{HaltV, TapeV};
use crate::ops::binop_s;
use crate::scope::{
    bind, env_assign, env_fresh, env_lookup, env_pop, env_push, env_set, frame_of, lemma_frame_of,
    lemma_slot, lookup, slot, Bindings, Frames,
};
use crate::semantics::{bind_params, index_into, var_lookup, StateV};
use crate::value::ValueV;

verus! {

/// One more than the largest object number a value refers to (0 if none).
pub open spec fn id_bound(v: ValueV) -> nat
    decreases v, 1nat,
{
    match v {
        ValueV::Object { id, .. } => id + 1,
        ValueV::List(xs) => list_bound(xs),
        _ => 0,
    }
}

pub open spec fn list_bound(xs: Seq<ValueV>) -> nat
    decreases xs, 0nat,
{
    if xs.len() == 0 {
        0
    } else {
        let a = list_bound(xs.drop_last());
        let b = id_bound(xs.last());
        if a >= b {
            a
        } else {
            b
        }
    }
}

/// Every value refers only to objects numbered below `n`.
pub open spec fn vals_ok(xs: Seq<ValueV>, n: nat) -> bool {
    forall|i: int| 0 <= i < xs.len() ==> id_bound(#[trigger] xs[i]) <= n
}

pub open spec fn binds_ok(b: Bindings, n: nat) -> bool {
    forall|i: int| 0 <= i < b.len() ==> id_bound(#[trigger] b[i].1) <= n
}

pub open spec fn frames_ok(fs: Frames, n: nat) -> bool {
    forall|j: int| 0 <= j < fs.len() ==> binds_ok(#[trigger] fs[j], n)
}

/// The globals and the fields of every object refer only to objects made.
pub open spec fn state_ok(st: StateV) -> bool {
    &&& binds_ok(st.globals, st.heap.len())
    &&& forall|k: int| 0 <= k < st.heap.len() ==> binds_ok(#[trigger] st.heap[k].fields, st.heap.len())
}

pub proof fn lemma_list_bound(xs: Seq<ValueV>, n: nat)
    ensures
        list_bound(xs) <= n <==> vals_ok(xs, n),
    decreases xs.len(),
{
    if xs.len() > 0 {
        let d = xs.drop_last();
        lemma_list_bound(d, n);
        if list_bound(xs) <= n {
            assert forall|i: int| 0 <= i < xs.len() implies id_bound(#[trigger] xs[i]) <= n by {
                if i < xs.len() - 1 {
                    assert(xs[i] == d[i]);
                }
            }
        }
        if vals_ok(xs, n) {
            assert forall|i: int| 0 <= i < d.len() implies id_bound(#[trigger] d[i]) <= n by {
                assert(d[i] == xs[i]);
            }
            assert(id_bound(xs[xs.len() - 1]) <= n);
        }
    }
}

pub proof fn lemma_lookup_ok(b: Bindings, k: Seq<char>, n: nat)
    requires
        binds_ok(b, n),
    ensures
        lookup(b, k) is Some ==> id_bound(lookup(b, k)->Some_0) <= n,
{
    lemma_slot(b, k);
}

pub proof fn lemma_bind_ok(b: Bindings, k: Seq<char>, v: ValueV, n: nat)
    requires
        binds_ok(b, n),
        id_bound(v) <= n,
    ensures
        binds_ok(bind(b, k, v), n),
{
    lemma_slot(b, k);
    let t = bind(b, k, v);
    assert forall|i: int| 0 <= i < t.len() implies id_bound(#[trigger] t[i].1) <= n by {
        if i < b.len() && i != slot(b, k) {
            assert(t[i] == b[i]);
        }
    }
}

pub proof fn lemma_env_lookup_ok(fs: Frames, k: Seq<char>, n: nat)
    requires
        frames_ok(fs, n),
    ensures
        env_lookup(fs, k) is Some ==> id_bound(env_lookup(fs, k)->Some_0) <= n,
    decreases fs.len(),
{
    if fs.len() > 0 {
        assert(binds_ok(fs[fs.len() - 1], n));
        lemma_lookup_ok(fs.last(), k, n);
        let d = fs.drop_last();
        assert forall|j: int| 0 <= j < d.len() implies binds_ok(#[trigger] d[j], n) by {
            assert(d[j] == fs[j]);
        }
        lemma_env_lookup_ok(d, k, n);
    }
}

pub proof fn lemma_var_ok(st: StateV, env: Frames, k: Seq<char>)
    requires
        state_ok(st),
        frames_ok(env, st.heap.len()),
    ensures
        var_lookup(st, env, k) is Some ==> id_bound(var_lookup(st, env, k)->Some_0) <= st.heap.len(),
{
    lemma_env_lookup_ok(env, k, st.heap.len());
    lemma_lookup_ok(st.globals, k, st.heap.len());
}

pub proof fn lemma_env_set_ok(fs: Frames, k: Seq<char>, v: ValueV, n: nat)
    requires
        frames_ok(fs, n),
        id_bound(v) <= n,
    ensures
        frames_ok(env_set(fs, k, v), n),
{
    if fs.len() > 0 {
        assert(binds_ok(fs[fs.len() - 1], n));
        lemma_bind_ok(fs.last(), k, v, n);
    }
}

pub proof fn lemma_env_assign_ok(fs: Frames, k: Seq<char>, v: ValueV, n: nat)
    requires
        frames_ok(fs, n),
        id_bound(v) <= n,
    ensures
        frames_ok(env_assign(fs, k, v), n),
{
    lemma_frame_of(fs, k);
    let f = frame_of(fs, k);
    if f >= 0 {
        assert(binds_ok(fs[f], n));
        lemma_bind_ok(fs[f], k, v, n);
    } else {
        lemma_env_set_ok(fs, k, v, n);
    }
}

pub proof fn lemma_env_shape_ok(fs: Frames, n: nat)
    requires
        frames_ok(fs, n),
    ensures
        frames_ok(env_push(fs), n),
        frames_ok(env_pop(fs), n),
        frames_ok(env_fresh(), n),
{
    let p = env_push(fs);
    assert forall|j: int| 0 <= j < p.len() implies binds_ok(#[trigger] p[j], n) by {
        if j < fs.len() {
            assert(p[j] == fs[j]);
        }
    }
    let q = env_pop(fs);
    assert forall|j: int| 0 <= j < q.len() implies binds_ok(#[trigger] q[j], n) by {
        assert(q[j] == fs[j]);
    }
    let e = env_fresh();
    assert forall|j: int| 0 <= j < e.len() implies binds_ok(#[trigger] e[j], n) by {
        assert(e[j] == Seq::<(Seq<char>, ValueV)>::empty());
    }
}

pub proof fn lemma_fresh_ok(n: nat)
    ensures
        frames_ok(env_fresh(), n),
{
    lemma_env_shape_ok(Seq::empty(), n);
}

pub proof fn lemma_bind_params_ok(fs: Frames, params: Seq<Seq<char>>, args: Seq<ValueV>, i: int, n: nat)
    requires
        frames_ok(fs, n),
        vals_ok(args, n),
    ensures
        frames_ok(bind_params(fs, params, args, i), n),
    decreases params.len() - i,
{
    if 0 <= i < params.len() && i < args.len() {
        assert(id_bound(args[i]) <= n);
        lemma_env_set_ok(fs, params[i], args[i], n);
        lemma_bind_params_ok(env_set(fs, params[i], args[i]), params, args, i + 1, n);
    }
}

/// The operators make no references that their operands did not hold.
pub proof fn lemma_binop_ok(t: TapeV, op: BinOpKind, l: ValueV, r: ValueV, n: nat)
    requires
        id_bound(l) <= n,
        id_bound(r) <= n,
    ensures
        binop_s(t, op, l, r).1 is Ok ==> id_bound(binop_s(t, op, l, r).1->Ok_0) <= n,
{
    if op == BinOpKind::Add {
        if let (ValueV::List(a), ValueV::List(b)) = (l, r) {
            lemma_list_bound(a, n);
            lemma_list_bound(b, n);
            lemma_list_bound(a + b, n);
            assert forall|i: int| 0 <= i < (a + b).len() implies id_bound(#[trigger] (a + b)[i]) <= n by {
                if i < a.len() {
                    assert((a + b)[i] == a[i]);
                } else {
                    assert((a + b)[i] == b[i - a.len()]);
                }
            }
        }
    }
}

pub proof fn lemma_index_ok(t: TapeV, st: StateV, o: ValueV, k: i64)
    requires
        id_bound(o) <= st.heap.len(),
    ensures
        index_into(t, st, o, k).2 is Ok ==> id_bound(index_into(t, st, o, k).2->Ok_0) <= st.heap.len(),
{
    if let ValueV::List(xs) = o {
        lemma_list_bound(xs, st.heap.len());
    }
}

proof fn lemma_insert_ok(t: TapeV, s: Seq<ValueV>, x: ValueV, j: int, n: nat)
    requires
        vals_ok(s, n),
        id_bound(x) <= n,
    ensures
        insert_s(t, s, x, j).1 is Ok ==> vals_ok(insert_s(t, s, x, j).1->Ok_0, n),
    decreases j,
{
    if j <= 0 || j > s.len() {
        let r = s.insert(0, x);
        assert forall|i: int| 0 <= i < r.len() implies id_bound(#[trigger] r[i]) <= n by {
            if i > 0 {
                assert(r[i] == s[i - 1]);
            }
        }
    } else {
        lemma_insert_ok(crate::ops::compare_s(t, s[j - 1], x).0, s, x, j - 1, n);
        let r = s.insert(j, x);
        assert forall|i: int| 0 <= i < r.len() implies id_bound(#[trigger] r[i]) <= n by {
            if i < j {
                assert(r[i] == s[i]);
            } else if i > j {
                assert(r[i] == s[i - 1]);
            }
        }
    }
}

proof fn lemma_sort_ok(t: TapeV, xs: Seq<ValueV>, i: int, acc: Seq<ValueV>, n: nat)
    requires
        vals_ok(xs, n),
        vals_ok(acc, n),
    ensures
        sort_from(t, xs, i, acc).1 is Ok ==> vals_ok(sort_from(t, xs, i, acc).1->Ok_0, n),
    decreases xs.len() - i,
{
    if 0 <= i < xs.len() {
        assert(id_bound(xs[i]) <= n);
        lemma_insert_ok(t, acc, xs[i], acc.len() as int, n);
        let (t1, r) = insert_s(t, acc, xs[i], acc.len() as int);
        if let Ok(a) = r {
            lemma_sort_ok(t1, xs, i + 1, a, n);
        }
    }
}

/// The built-in functions make no references that their arguments did not hold.
pub proof fn lemma_builtin_ok(t: TapeV, name: Seq<char>, args: Seq<ValueV>, n: nat)
    requires
        vals_ok(args, n),
    ensures
        builtin_s(t, name, args).1 matches Ok(Some(v)) ==> id_bound(v) <= n,
{
    if args.len() >= 1 {
        assert(id_bound(args[0]) <= n);
        if let ValueV::List(xs) = args[0] {
            lemma_list_bound(xs, n);
            lemma_sort_ok(t, xs, 0, Seq::empty(), n);
            let (t1, r) = sort_from(t, xs, 0, Seq::empty());
            if let Ok(ys) = r {
                lemma_list_bound(ys, n);
            }
            if args.len() >= 2 {
                assert(id_bound(args[1]) <= n);
                let p = xs.push(args[1]);
                assert forall|i: int| 0 <= i < p.len() implies id_bound(#[trigger] p[i]) <= n by {
                    if i < xs.len() {
                        assert(p[i] == xs[i]);
                    }
                }
                lemma_list_bound(p, n);
                if let ValueV::Int(ix) = args[1] {
                    if let Some(k) = crate::value::norm_index(ix as int, xs.len() as int) {
                        let q = xs.remove(k);
                        assert forall|i: int| 0 <= i < q.len() implies id_bound(#[trigger] q[i]) <= n by {
                            if i < k {
                                assert(q[i] == xs[i]);
                            } else {
                                assert(q[i] == xs[i + 1]);
                            }
                        }
                        lemma_list_bound(q, n);
                        assert(id_bound(ValueV::List(q)) <= n);
                    }
                }
            }
        }
        if let ValueV::Int(m) = args[0] {
            lemma_list_bound(count_list(m as int), 0);
        }
        if let ValueV::Float(b) = args[0] {
            let (t1, r) = crate::host::ask_int_s(t, crate::host::RequestV::Float(crate::host::FloatOpV::ToInt(b)));
            if let Ok(m) = r {
                lemma_list_bound(count_list(m as int), 0);
            }
        }
        if let ValueV::Str(s) = args[0] {
            lemma_list_bound(char_texts(s), 0);
            if args.len() >= 2 {
                if let ValueV::Str(sep) = args[1] {
                    lemma_list_bound(texts_of(crate::strings::split_s(s, sep)), 0);
                }
            }
        }
    }
}

} // verus!
