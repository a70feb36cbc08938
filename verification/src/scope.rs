//! Name bindings: one scope (a map from names to values), and the stack of scopes
//! that a running block sees.
use vstd::prelude::*;
use crate::value::{Value, ValueV};
use crate::handles::{binds_ok, frames_ok, id_bound};

verus! {

/// One scope, as the names it binds in order of first binding.
pub type Bindings = Seq<(Seq<char>, ValueV)>;

/// A stack of scopes, innermost last.
pub type Frames = Seq<Bindings>;

pub struct Binding {
    pub name: String,
    pub value: Value,
}

pub open spec fn bindings_v(xs: Seq<Binding>) -> Bindings {
    Seq::new(xs.len(), |i: int| (xs[i].name@, xs[i].value@))
}

/// Where `k` is bound in `s` (its last binding), or -1.
pub open spec fn slot(s: Bindings, k: Seq<char>) -> int
    decreases s.len(),
{
    if s.len() == 0 {
        -1
    } else if s.last().0 == k {
        s.len() - 1
    } else {
        slot(s.drop_last(), k)
    }
}

/// The value bound to `k`.
pub open spec fn lookup(s: Bindings, k: Seq<char>) -> Option<ValueV> {
    let i = slot(s, k);
    if i >= 0 {
        Some(s[i].1)
    } else {
        None
    }
}

/// `s` with `k` bound to `v`: an existing binding is replaced where it stands, a new
/// one goes last.
pub open spec fn bind(s: Bindings, k: Seq<char>, v: ValueV) -> Bindings {
    let i = slot(s, k);
    if i >= 0 {
        s.update(i, (k, v))
    } else {
        s.push((k, v))
    }
}

/// The scope as a map.
pub open spec fn bindings_map(s: Bindings) -> Map<Seq<char>, ValueV> {
    Map::new(|k: Seq<char>| slot(s, k) >= 0, |k: Seq<char>| s[slot(s, k)].1)
}

pub proof fn lemma_slot(s: Bindings, k: Seq<char>)
    ensures
        -1 <= slot(s, k) < s.len(),
        slot(s, k) >= 0 ==> s[slot(s, k)].0 == k,
        forall|j: int| slot(s, k) < j < s.len() ==> s[j].0 != k,
    decreases s.len(),
{
    if s.len() > 0 && s.last().0 != k {
        let t = s.drop_last();
        lemma_slot(t, k);
        assert forall|j: int| slot(s, k) < j < s.len() implies s[j].0 != k by {
            if j < s.len() - 1 {
                assert(s[j] == t[j]);
            }
        }
    }
}

/// `slot` is the last position that binds `k`.
pub proof fn lemma_slot_is(s: Bindings, k: Seq<char>, m: int)
    requires
        -1 <= m < s.len(),
        m >= 0 ==> s[m].0 == k,
        forall|j: int| m < j < s.len() ==> s[j].0 != k,
    ensures
        slot(s, k) == m,
    decreases s.len(),
{
    if s.len() > 0 && m < s.len() - 1 {
        assert(s[s.len() - 1].0 != k);
        lemma_slot_is(s.drop_last(), k, m);
    }
}

pub proof fn lemma_bind(s: Bindings, k: Seq<char>, v: ValueV, k2: Seq<char>)
    ensures
        lookup(bind(s, k, v), k) == Some(v),
        k2 != k ==> lookup(bind(s, k, v), k2) == lookup(s, k2),
        k2 != k ==> slot(bind(s, k, v), k2) == slot(s, k2),
        slot(s, k) >= 0 ==> slot(bind(s, k, v), k) == slot(s, k),
        bind(s, k, v).len() == if slot(s, k) >= 0 { s.len() } else { s.len() + 1 },
{
    lemma_slot(s, k);
    lemma_slot(s, k2);
    let t = bind(s, k, v);
    let i = slot(s, k);
    if i >= 0 {
        lemma_slot_is(t, k, i);
        if k2 != k {
            lemma_slot_is(t, k2, slot(s, k2));
        }
    } else {
        lemma_slot_is(t, k, s.len() as int);
        if k2 != k {
            lemma_slot_is(t, k2, slot(s, k2));
        }
    }
}

/// A scope: the names bound in one block.
pub struct Scope {
    entries: Vec<Binding>,
}

impl View for Scope {
    type V = Bindings;

    closed spec fn view(&self) -> Bindings {
        bindings_v(self.entries@)
    }
}

impl Scope {
    pub fn new() -> (s: Scope)
        ensures
            s@ == Seq::<(Seq<char>, ValueV)>::empty(),
    {
        let s = Scope { entries: Vec::new() };
        assert(s@ =~= Seq::<(Seq<char>, ValueV)>::empty());
        s
    }

    /// A copy of the scope.
    pub fn copy(&self) -> (r: Scope)
        ensures
            r@ == self@,
    {
        let mut out: Vec<Binding> = Vec::new();
        let mut i: usize = 0;
        while i < self.entries.len()
            invariant
                i <= self.entries@.len(),
                bindings_v(out@) == bindings_v(self.entries@).subrange(0, i as int),
            decreases self.entries@.len() - i,
        {
            let ghost before = bindings_v(out@);
            let b = Binding { name: self.entries[i].name.clone(), value: crate::value::clone_value(&self.entries[i].value) };
            let ghost bv = (b.name@, b.value@);
            assert(bv == bindings_v(self.entries@)[i as int]);
            out.push(b);
            assert(bindings_v(out@) =~= before.push(bv));
            assert(bindings_v(out@) =~= bindings_v(self.entries@).subrange(0, i + 1));
            i += 1;
        }
        assert(bindings_v(out@) =~= bindings_v(self.entries@));
        Scope { entries: out }
    }

    fn find(&self, k: &String) -> (r: Option<usize>)
        ensures
            match r {
                Some(i) => i == slot(self@, k@) && i < self@.len(),
                None => slot(self@, k@) == -1,
            },
    {
        proof {
            lemma_slot(self@, k@);
        }
        let mut i = self.entries.len();
        while i > 0
            invariant
                i <= self.entries@.len(),
                self@.len() == self.entries@.len(),
                forall|j: int| i <= j < self@.len() ==> self@[j].0 != k@,
            decreases i,
        {
            if self.entries[i - 1].name == *k {
                proof {
                    lemma_slot_is(self@, k@, i - 1);
                }
                return Some(i - 1);
            }
            i -= 1;
        }
        proof {
            lemma_slot_is(self@, k@, -1);
        }
        None
    }

    /// The value bound to `k`.
    pub fn get(&self, k: &String) -> (r: Option<&Value>)
        ensures
            match r {
                Some(v) => lookup(self@, k@) == Some(v@),
                None => lookup(self@, k@) is None,
            },
    {
        match self.find(k) {
            Some(i) => Some(&self.entries[i].value),
            None => None,
        }
    }

    /// Binds `k` to `v` (`HashMap::insert`).
    pub fn insert(&mut self, k: &String, v: Value)
        ensures
            final(self)@ == bind(old(self)@, k@, v@),
            forall|n: nat| binds_ok(old(self)@, n) && id_bound(v@) <= n ==> #[trigger] binds_ok(final(self)@, n),
    {
        proof {
            assert forall|n: nat| binds_ok(old(self)@, n) && id_bound(v@) <= n implies #[trigger] binds_ok(bind(old(self)@, k@, v@), n) by {
                crate::handles::lemma_bind_ok(old(self)@, k@, v@, n);
            }
        }
        match self.find(k) {
            Some(i) => {
                let mut b = Binding { name: k.clone(), value: v };
                std::mem::swap(&mut self.entries[i], &mut b);
                assert(self@ =~= old(self)@.update(i as int, (k@, v@)));
            },
            None => {
                self.entries.push(Binding { name: k.clone(), value: v });
                assert(self@ =~= old(self)@.push((k@, v@)));
            },
        }
    }
}

// ── the scope stack ──

/// The value of `k` as the innermost scope that binds it has it.
pub open spec fn env_lookup(fs: Frames, k: Seq<char>) -> Option<ValueV>
    decreases fs.len(),
{
    if fs.len() == 0 {
        None
    } else {
        match lookup(fs.last(), k) {
            Some(v) => Some(v),
            None => env_lookup(fs.drop_last(), k),
        }
    }
}

/// Binds `k` in the innermost scope.
pub open spec fn env_set(fs: Frames, k: Seq<char>, v: ValueV) -> Frames {
    if fs.len() == 0 {
        fs
    } else {
        fs.update(fs.len() - 1, bind(fs.last(), k, v))
    }
}

/// The innermost scope that binds `k`, or -1.
pub open spec fn frame_of(fs: Frames, k: Seq<char>) -> int
    decreases fs.len(),
{
    if fs.len() == 0 {
        -1
    } else if slot(fs.last(), k) >= 0 {
        fs.len() - 1
    } else {
        frame_of(fs.drop_last(), k)
    }
}

/// Rebinds `k` where the innermost scope that binds it is; binds it in the
/// innermost scope when none does.
pub open spec fn env_assign(fs: Frames, k: Seq<char>, v: ValueV) -> Frames {
    let f = frame_of(fs, k);
    if f >= 0 {
        fs.update(f, bind(fs[f], k, v))
    } else {
        env_set(fs, k, v)
    }
}

pub open spec fn env_push(fs: Frames) -> Frames {
    fs.push(Seq::empty())
}

/// Drops the innermost scope, keeping the outermost one.
pub open spec fn env_pop(fs: Frames) -> Frames {
    if fs.len() > 1 {
        fs.drop_last()
    } else {
        fs
    }
}

pub open spec fn env_fresh() -> Frames {
    seq![Seq::empty()]
}

pub proof fn lemma_frame_of(fs: Frames, k: Seq<char>)
    ensures
        -1 <= frame_of(fs, k) < fs.len(),
        frame_of(fs, k) >= 0 ==> slot(fs[frame_of(fs, k)], k) >= 0,
        forall|j: int| frame_of(fs, k) < j < fs.len() ==> slot(#[trigger] fs[j], k) < 0,
        frame_of(fs, k) >= 0 ==> env_lookup(fs, k) == lookup(fs[frame_of(fs, k)], k),
        frame_of(fs, k) < 0 ==> env_lookup(fs, k) is None,
    decreases fs.len(),
{
    if fs.len() > 0 && slot(fs.last(), k) < 0 {
        let t = fs.drop_last();
        lemma_frame_of(t, k);
        assert forall|j: int| frame_of(fs, k) < j < fs.len() implies slot(#[trigger] fs[j], k) < 0 by {
            if j < fs.len() - 1 {
                assert(fs[j] == t[j]);
            }
        }
    }
}

/// `frame_of` is the innermost scope that binds `k`.
pub proof fn lemma_frame_of_is(fs: Frames, k: Seq<char>, m: int)
    requires
        -1 <= m < fs.len(),
        m >= 0 ==> slot(fs[m], k) >= 0,
        forall|j: int| m < j < fs.len() ==> slot(#[trigger] fs[j], k) < 0,
    ensures
        frame_of(fs, k) == m,
    decreases fs.len(),
{
    if fs.len() > 0 && m < fs.len() - 1 {
        assert(slot(fs[fs.len() - 1], k) < 0);
        let t = fs.drop_last();
        assert forall|j: int| m < j < t.len() implies slot(#[trigger] t[j], k) < 0 by {
            assert(t[j] == fs[j]);
        }
        lemma_frame_of_is(t, k, m);
    }
}

/// A stack of scopes.
pub struct Env {
    frames: Vec<Scope>,
}

impl View for Env {
    type V = Frames;

    closed spec fn view(&self) -> Frames {
        Seq::new(self.frames@.len(), |i: int| self.frames@[i]@)
    }
}

impl Env {
    /// A stack with one empty scope.
    pub fn new() -> (e: Env)
        ensures
            e@ == env_fresh(),
            forall|n: nat| #[trigger] frames_ok(e@, n),
    {
        proof {
            assert forall|n: nat| #[trigger] frames_ok(env_fresh(), n) by {
                crate::handles::lemma_fresh_ok(n);
            }
        }
        let mut frames: Vec<Scope> = Vec::new();
        frames.push(Scope::new());
        let e = Env { frames };
        assert(e@ =~= env_fresh());
        e
    }

    pub fn push(&mut self)
        ensures
            final(self)@ == env_push(old(self)@),
            forall|n: nat| frames_ok(old(self)@, n) ==> #[trigger] frames_ok(final(self)@, n),
    {
        proof {
            assert forall|n: nat| frames_ok(old(self)@, n) implies #[trigger] frames_ok(env_push(old(self)@), n) by {
                crate::handles::lemma_env_shape_ok(old(self)@, n);
            }
        }
        self.frames.push(Scope::new());
        assert(self@ =~= env_push(old(self)@));
    }

    pub fn pop(&mut self)
        ensures
            final(self)@ == env_pop(old(self)@),
            forall|n: nat| frames_ok(old(self)@, n) ==> #[trigger] frames_ok(final(self)@, n),
    {
        proof {
            assert forall|n: nat| frames_ok(old(self)@, n) implies #[trigger] frames_ok(env_pop(old(self)@), n) by {
                crate::handles::lemma_env_shape_ok(old(self)@, n);
            }
        }
        if self.frames.len() > 1 {
            self.frames.pop();
            assert(self@ =~= env_pop(old(self)@));
        }
    }

    /// The value of `k` in the innermost scope that binds it.
    pub fn get(&self, k: &String) -> (r: Option<&Value>)
        ensures
            match r {
                Some(v) => env_lookup(self@, k@) == Some(v@),
                None => env_lookup(self@, k@) is None,
            },
    {
        let mut i = self.frames.len();
        assert(self@.subrange(0, i as int) =~= self@);
        while i > 0
            invariant
                i <= self.frames@.len(),
                self@.len() == self.frames@.len(),
                env_lookup(self@, k@) == env_lookup(self@.subrange(0, i as int), k@),
            decreases i,
        {
            let ghost pre = self@.subrange(0, i as int);
            assert(pre.last() == self@[i - 1]);
            assert(pre.drop_last() =~= self@.subrange(0, i - 1));
            match self.frames[i - 1].get(k) {
                Some(v) => {
                    return Some(v);
                },
                None => {},
            }
            i -= 1;
        }
        None
    }

    /// Binds `k` in the innermost scope.
    pub fn set(&mut self, k: &String, v: Value)
        ensures
            final(self)@ == env_set(old(self)@, k@, v@),
            forall|n: nat| frames_ok(old(self)@, n) && id_bound(v@) <= n ==> #[trigger] frames_ok(final(self)@, n),
    {
        proof {
            assert forall|n: nat| frames_ok(old(self)@, n) && id_bound(v@) <= n implies #[trigger] frames_ok(env_set(old(self)@, k@, v@), n) by {
                crate::handles::lemma_env_set_ok(old(self)@, k@, v@, n);
            }
        }
        let n = self.frames.len();
        if n > 0 {
            let ghost vv = v@;
            let mut fr = Scope::new();
            std::mem::swap(&mut fr, &mut self.frames[n - 1]);
            fr.insert(k, v);
            std::mem::swap(&mut fr, &mut self.frames[n - 1]);
            assert(self@ =~= env_set(old(self)@, k@, vv));
        }
    }

    /// Rebinds `k` in the innermost scope that binds it, else binds it in the
    /// innermost scope.
    pub fn assign(&mut self, k: &String, v: Value)
        ensures
            final(self)@ == env_assign(old(self)@, k@, v@),
            forall|n: nat| frames_ok(old(self)@, n) && id_bound(v@) <= n ==> #[trigger] frames_ok(final(self)@, n),
    {
        proof {
            assert forall|n: nat| frames_ok(old(self)@, n) && id_bound(v@) <= n implies #[trigger] frames_ok(env_assign(old(self)@, k@, v@), n) by {
                crate::handles::lemma_env_assign_ok(old(self)@, k@, v@, n);
            }
        }
        proof {
            lemma_frame_of(self@, k@);
        }
        let ghost vv = v@;
        let mut i = self.frames.len();
        while i > 0
            invariant
                i <= self.frames@.len(),
                self@ == old(self)@,
                vv == v@,
                self@.len() == self.frames@.len(),
                forall|j: int| i <= j < self@.len() ==> slot(#[trigger] self@[j], k@) < 0,
            decreases i,
        {
            if self.frames[i - 1].find(k).is_some() {
                proof {
                    lemma_frame_of_is(self@, k@, i - 1);
                }
                let mut fr = Scope::new();
                std::mem::swap(&mut fr, &mut self.frames[i - 1]);
                fr.insert(k, v);
                std::mem::swap(&mut fr, &mut self.frames[i - 1]);
                assert(self@ =~= old(self)@.update(i - 1, bind(old(self)@[i - 1], k@, vv)));
                return;
            }
            i -= 1;
        }
        proof {
            lemma_frame_of_is(self@, k@, -1);
        }
        self.set(k, v);
    }
}

// ── laws ──

/// Reading a name right after binding it gives the value bound.
pub proof fn law_set_then_get(fs: Frames, k: Seq<char>, v: ValueV)
    requires
        fs.len() > 0,
    ensures
        env_lookup(env_set(fs, k, v), k) == Some(v),
{
    lemma_bind(fs.last(), k, v, k);
}

/// Binding one name leaves every other name as it was.
pub proof fn law_set_keeps_others(fs: Frames, k: Seq<char>, v: ValueV, k2: Seq<char>)
    requires
        k2 != k,
    ensures
        env_lookup(env_set(fs, k, v), k2) == env_lookup(fs, k2),
{
    if fs.len() > 0 {
        lemma_bind(fs.last(), k, v, k2);
        let t = env_set(fs, k, v);
        assert(t.drop_last() =~= fs.drop_last());
    }
}

/// Reading a name right after assigning it gives the value assigned.
pub proof fn law_assign_then_get(fs: Frames, k: Seq<char>, v: ValueV)
    requires
        fs.len() > 0,
    ensures
        env_lookup(env_assign(fs, k, v), k) == Some(v),
{
    lemma_frame_of(fs, k);
    let f = frame_of(fs, k);
    if f >= 0 {
        let t = env_assign(fs, k, v);
        lemma_bind(fs[f], k, v, k);
        lemma_frame_of(t, k);
        assert(frame_of(t, k) == f) by {
            if frame_of(t, k) > f {
                assert(t[frame_of(t, k)] == fs[frame_of(t, k)]);
            }
            if frame_of(t, k) < f {
                assert(slot(t[f], k) >= 0);
            }
        }
    } else {
        law_set_then_get(fs, k, v);
    }
}

/// Assigning a name never changes how many scopes there are.
pub proof fn law_assign_keeps_depth(fs: Frames, k: Seq<char>, v: ValueV)
    ensures
        env_assign(fs, k, v).len() == fs.len(),
{
    lemma_frame_of(fs, k);
}

/// Opening a scope hides nothing.
pub proof fn law_push_keeps_names(fs: Frames, k: Seq<char>)
    ensures
        env_lookup(env_push(fs), k) == env_lookup(fs, k),
{
    let t = env_push(fs);
    assert(t.drop_last() =~= fs);
    assert(slot(t.last(), k) == -1);
}

/// Closing a scope right after opening it gives back the stack as it was.
pub proof fn law_pop_undoes_push(fs: Frames)
    requires
        fs.len() > 0,
    ensures
        env_pop(env_push(fs)) == fs,
{
    assert(env_push(fs).drop_last() =~= fs);
}

/// A binding made in an inner scope is gone once that scope closes.
pub proof fn law_pop_forgets_inner(fs: Frames, k: Seq<char>, v: ValueV)
    requires
        fs.len() > 0,
    ensures
        env_pop(env_set(env_push(fs), k, v)) == fs,
{
    let t = env_set(env_push(fs), k, v);
    assert(t.drop_last() =~= fs);
}

/// Assigning in an inner scope a name that an outer scope binds changes the outer
/// binding: once the inner scope closes, the name has the new value.
pub proof fn law_assign_reaches_outer(fs: Frames, k: Seq<char>, v: ValueV)
    requires
        fs.len() > 0,
        env_lookup(fs, k) is Some,
    ensures
        env_lookup(env_pop(env_assign(env_push(fs), k, v)), k) == Some(v),
{
    let p = env_push(fs);
    lemma_frame_of(fs, k);
    lemma_frame_of(p, k);
    assert(slot(p.last(), k) == -1);
    assert(p.drop_last() =~= fs);
    assert(frame_of(p, k) == frame_of(fs, k));
    let f = frame_of(fs, k);
    let a = env_assign(p, k, v);
    let b = env_pop(a);
    assert(b =~= fs.update(f, bind(fs[f], k, v)));
    law_assign_then_get(fs, k, v);
    assert(env_assign(fs, k, v) == fs.update(f, bind(fs[f], k, v)));
}

} // verus!
