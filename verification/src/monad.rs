//! The monad operations behind `mdo!` blocks, for `Option`, `Result` and
//! `Vec`: `unit` wraps a value, `bind` hands each wrapped value to a
//! function and joins what it returns, `filter` keeps what a predicate
//! accepts.

use vstd::prelude::*;

verus! {

// ---------------------------------------------------------------------------
// The models

/// The concatenation of a sequence of sequences.
pub open spec fn flatten<B>(ys: Seq<Seq<B>>) -> Seq<B>
    decreases ys.len(),
{
    if ys.len() == 0 {
        Seq::empty()
    } else {
        flatten(ys.drop_last()) + ys.last()
    }
}

/// `bind` on sequences with a function `g`.
pub open spec fn seq_bind<A, B>(s: Seq<A>, g: spec_fn(A) -> Seq<B>) -> Seq<B> {
    flatten(s.map_values(g))
}

/// `bind` on options with a function `g`.
pub open spec fn opt_bind<A, B>(m: Option<A>, g: spec_fn(A) -> Option<B>) -> Option<B> {
    match m {
        Some(a) => g(a),
        None => None,
    }
}

/// `bind` on results with a function `g`.
pub open spec fn res_bind<A, B, E>(m: Result<A, E>, g: spec_fn(A) -> Result<B, E>) -> Result<B, E> {
    match m {
        Ok(a) => g(a),
        Err(e) => Err(e),
    }
}

/// The elements of `s` whose flag in `keep` is set, in order.
pub open spec fn keep_flagged<A>(s: Seq<A>, keep: Seq<bool>) -> Seq<A>
    decreases s.len(),
{
    if s.len() == 0 || keep.len() == 0 {
        Seq::empty()
    } else {
        keep_flagged(s.drop_last(), keep.drop_last()) + if keep.last() {
            seq![s.last()]
        } else {
            Seq::empty()
        }
    }
}

pub open spec fn vec_views<B>(ys: Seq<Vec<B>>) -> Seq<Seq<B>> {
    ys.map_values(|y: Vec<B>| y@)
}

/// `r` is what binding `v` with `f` gives: the concatenation of one result
/// of `f` for each element of `v`, in order.
pub open spec fn bind_result<A, B, F: Fn(A) -> Vec<B>>(v: Seq<A>, f: F, r: Seq<B>) -> bool {
    exists|ys: Seq<Vec<B>>|
        {
            &&& ys.len() == v.len()
            &&& forall|k: int| 0 <= k < ys.len() ==> f.ensures((v[k],), #[trigger] ys[k])
            &&& r == flatten(vec_views(ys))
        }
}

/// On each element of `v`, `f` can only return a vector holding `g` of it.
pub open spec fn given_by<A, B, F: Fn(A) -> Vec<B>>(f: F, v: Seq<A>, g: spec_fn(A) -> Seq<B>) -> bool {
    forall|k: int, y: Vec<B>| 0 <= k < v.len() && #[trigger] f.ensures((v[k],), y) ==> y@ == g(v[k])
}

// ---------------------------------------------------------------------------
// Option

/// `Some(value)`.
pub fn option_unit<A>(value: A) -> (r: Option<A>)
    ensures
        r == Some(value),
{
    Some(value)
}

/// The result of `f` on the value held, or `None`.
pub fn option_bind<A, B, F: Fn(A) -> Option<B>>(m: Option<A>, f: F) -> (r: Option<B>)
    requires
        m matches Some(a) ==> f.requires((a,)),
    ensures
        m matches Some(a) ==> f.ensures((a,), r),
        m is None ==> r is None,
{
    match m {
        Some(a) => f(a),
        None => None,
    }
}

/// The value held where `pred` accepts it, else `None`.
pub fn option_filter<A, P: Fn(&A) -> bool>(m: Option<A>, pred: P) -> (r: Option<A>)
    requires
        m matches Some(a) ==> pred.requires((&a,)),
    ensures
        m is None ==> r is None,
        m matches Some(a) ==> exists|b: bool| pred.ensures((&a,), b) && r == (if b { Some(a) } else { None }),
{
    match m {
        Some(a) => {
            let b = pred(&a);
            if b {
                Some(a)
            } else {
                None
            }
        },
        None => None,
    }
}

// ---------------------------------------------------------------------------
// Result

/// `Ok(value)`.
pub fn result_unit<A, E>(value: A) -> (r: Result<A, E>)
    ensures
        r == Ok::<A, E>(value),
{
    Ok(value)
}

/// The result of `f` on the value held, or the error held.
pub fn result_bind<A, B, E, F: Fn(A) -> Result<B, E>>(m: Result<A, E>, f: F) -> (r: Result<B, E>)
    requires
        m matches Ok(a) ==> f.requires((a,)),
    ensures
        m matches Ok(a) ==> f.ensures((a,), r),
        m matches Err(e) ==> r == Err::<B, E>(e),
{
    match m {
        Ok(a) => f(a),
        Err(e) => Err(e),
    }
}

/// A result is kept as it is, whatever the predicate.
pub fn result_filter<A, E, P: Fn(&A) -> bool>(m: Result<A, E>, _pred: P) -> (r: Result<A, E>)
    ensures
        r == m,
{
    m
}

// ---------------------------------------------------------------------------
// Vec

/// `vec![value]`.
pub fn vec_unit<A>(value: A) -> (r: Vec<A>)
    ensures
        r@ == seq![value],
{
    let mut r = Vec::new();
    r.push(value);
    assert(r@ =~= seq![value]);
    r
}

/// The elements of `v` in reverse order.
fn reversed<A>(v: Vec<A>) -> (r: Vec<A>)
    ensures
        r@.len() == v@.len(),
        forall|m: int| 0 <= m < v@.len() ==> r@[m] == v@[v@.len() - 1 - m],
{
    let ghost vs = v@;
    let mut v = v;
    let mut r: Vec<A> = Vec::new();
    while v.len() > 0
        invariant
            r@.len() + v@.len() == vs.len(),
            v@ == vs.subrange(0, v@.len() as int),
            forall|m: int| 0 <= m < r@.len() ==> r@[m] == vs[vs.len() - 1 - m],
        decreases v.len(),
    {
        let x = v.pop().unwrap();
        r.push(x);
    }
    r
}

/// What `f` returns for each element, in order, concatenated.
pub fn vec_bind<A, B, F: Fn(A) -> Vec<B>>(v: Vec<A>, f: F) -> (r: Vec<B>)
    requires
        forall|k: int| 0 <= k < v@.len() ==> f.requires((#[trigger] v@[k],)),
    ensures
        bind_result(v@, f, r@),
{
    let ghost vs = v@;
    let mut out: Vec<B> = Vec::new();
    let ghost mut ys: Seq<Vec<B>> = Seq::empty();
    let mut k: usize = 0;
    let mut v = reversed(v);
    let n = v.len();
    assert(vs.len() <= usize::MAX);
    assert(flatten(vec_views(ys)) =~= Seq::<B>::empty());
    while v.len() > 0
        invariant
            k + v.len() == vs.len(),
            vs.len() <= usize::MAX,
            forall|m: int| 0 <= m < v@.len() ==> v@[m] == vs[vs.len() - 1 - m],
            forall|m: int| 0 <= m < vs.len() ==> f.requires((#[trigger] vs[m],)),
            ys.len() == k,
            forall|m: int| 0 <= m < k ==> f.ensures((vs[m],), #[trigger] ys[m]),
            out@ == flatten(vec_views(ys)),
        decreases v.len(),
    {
        let a = v.pop().unwrap();
        assert(a == vs[k as int]);
        let mut y = f(a);
        proof {
            let ys0 = ys;
            ys = ys.push(y);
            assert(vec_views(ys).drop_last() =~= vec_views(ys0));
        }
        out.append(&mut y);
        k = k + 1;
    }
    assert(ys.len() == vs.len() && forall|m: int| 0 <= m < ys.len() ==> f.ensures((vs[m],), #[trigger] ys[m]));
    out
}

/// The elements that `pred` accepts, in order.
pub fn vec_filter<A, P: Fn(&A) -> bool>(v: Vec<A>, pred: P) -> (r: Vec<A>)
    requires
        forall|k: int| 0 <= k < v@.len() ==> pred.requires((&#[trigger] v@[k],)),
    ensures
        exists|keep: Seq<bool>|
            {
                &&& keep.len() == v@.len()
                &&& forall|k: int| 0 <= k < keep.len() ==> pred.ensures((&v@[k],), #[trigger] keep[k])
                &&& r@ == keep_flagged(v@, keep)
            },
{
    let ghost vs = v@;
    let mut out: Vec<A> = Vec::new();
    let ghost mut keep: Seq<bool> = Seq::empty();
    let mut k: usize = 0;
    let mut v = reversed(v);
    let n = v.len();
    assert(vs.len() <= usize::MAX);
    assert(keep_flagged(vs.subrange(0, 0), keep) =~= Seq::<A>::empty());
    while v.len() > 0
        invariant
            k + v.len() == vs.len(),
            vs.len() <= usize::MAX,
            forall|m: int| 0 <= m < v@.len() ==> v@[m] == vs[vs.len() - 1 - m],
            forall|m: int| 0 <= m < vs.len() ==> pred.requires((&#[trigger] vs[m],)),
            keep.len() == k,
            forall|m: int| 0 <= m < k ==> pred.ensures((&vs[m],), #[trigger] keep[m]),
            out@ == keep_flagged(vs.subrange(0, k as int), keep),
        decreases v.len(),
    {
        let a = v.pop().unwrap();
        assert(a == vs[k as int]);
        let b = pred(&a);
        let ghost before = out@;
        let ghost keep0 = keep;
        proof {
            keep = keep.push(b);
            assert(vs.subrange(0, k + 1).drop_last() =~= vs.subrange(0, k as int));
            assert(keep.drop_last() =~= keep0);
        }
        if b {
            out.push(a);
        }
        assert(out@ =~= before + if b { seq![vs[k as int]] } else { Seq::<A>::empty() });
        k = k + 1;
    }
    assert(vs.subrange(0, vs.len() as int) =~= vs);
    out
}

// ---------------------------------------------------------------------------
// The monad laws

pub proof fn lemma_flatten_concat<B>(p: Seq<Seq<B>>, q: Seq<Seq<B>>)
    ensures
        flatten(p + q) == flatten(p) + flatten(q),
    decreases q.len(),
{
    if q.len() == 0 {
        assert(p + q =~= p);
        assert(flatten(p) + flatten(q) =~= flatten(p));
    } else {
        lemma_flatten_concat(p, q.drop_last());
        assert((p + q).drop_last() =~= p + q.drop_last());
        assert((p + q).last() == q.last());
        assert(flatten(p + q) =~= flatten(p) + flatten(q));
    }
}

/// `bind` over a concatenation is the concatenation of the `bind`s.
pub proof fn lemma_bind_concat<A, B>(x: Seq<A>, y: Seq<A>, g: spec_fn(A) -> Seq<B>)
    ensures
        seq_bind(x + y, g) == seq_bind(x, g) + seq_bind(y, g),
{
    assert((x + y).map_values(g) =~= x.map_values(g) + y.map_values(g));
    lemma_flatten_concat(x.map_values(g), y.map_values(g));
}

/// Left identity: binding a unit hands its value to the function.
pub proof fn law_vec_left_identity<A, B>(a: A, g: spec_fn(A) -> Seq<B>)
    ensures
        seq_bind(seq![a], g) == g(a),
{
    let m = seq![a].map_values(g);
    assert(m.drop_last() =~= Seq::<Seq<B>>::empty());
    assert(flatten(m.drop_last()) =~= Seq::<B>::empty());
    assert(flatten(m) =~= g(a));
}

/// Right identity: binding with unit gives back what was bound.
pub proof fn law_vec_right_identity<A>(s: Seq<A>)
    ensures
        seq_bind(s, |x: A| seq![x]) == s,
    decreases s.len(),
{
    let u = |x: A| seq![x];
    if s.len() == 0 {
        assert(s.map_values(u) =~= Seq::<Seq<A>>::empty());
        assert(seq_bind(s, u) =~= s);
    } else {
        law_vec_right_identity(s.drop_last());
        assert(s.drop_last() + seq![s.last()] =~= s);
        lemma_bind_concat(s.drop_last(), seq![s.last()], u);
        law_vec_left_identity(s.last(), u);
        assert(seq_bind(s, u) =~= s);
    }
}

/// Associativity: binding with `f` then `g` is binding with the function
/// that binds `f`'s result with `g`.
pub proof fn law_vec_associativity<A, B, C>(s: Seq<A>, f: spec_fn(A) -> Seq<B>, g: spec_fn(B) -> Seq<C>)
    ensures
        seq_bind(seq_bind(s, f), g) == seq_bind(s, |x: A| seq_bind(f(x), g)),
    decreases s.len(),
{
    let h = |x: A| seq_bind(f(x), g);
    if s.len() == 0 {
        assert(s.map_values(f) =~= Seq::<Seq<B>>::empty());
        assert(seq_bind(s, f) =~= Seq::<B>::empty());
        assert(seq_bind(s, f).map_values(g) =~= Seq::<Seq<C>>::empty());
        assert(s.map_values(h) =~= Seq::<Seq<C>>::empty());
    } else {
        let init = s.drop_last();
        let a = s.last();
        law_vec_associativity(init, f, g);
        assert(init + seq![a] =~= s);
        lemma_bind_concat(init, seq![a], f);
        lemma_bind_concat(init, seq![a], h);
        law_vec_left_identity(a, f);
        law_vec_left_identity(a, h);
        lemma_bind_concat(seq_bind(init, f), f(a), g);
    }
}

/// What `vec_bind` returns with a function whose results are `g`'s.
pub proof fn law_vec_bind_model<A, B>(v: Seq<A>, ys: Seq<Vec<B>>, g: spec_fn(A) -> Seq<B>)
    requires
        ys.len() == v.len(),
        forall|k: int| 0 <= k < v.len() ==> (#[trigger] ys[k])@ == g(v[k]),
    ensures
        flatten(vec_views(ys)) == seq_bind(v, g),
{
    assert(vec_views(ys) =~= v.map_values(g));
}

/// What `vec_bind` returns where `f` gives `g` of each element: the bind
/// of the model.
pub proof fn law_vec_bind_result<A, B, F: Fn(A) -> Vec<B>>(v: Seq<A>, f: F, g: spec_fn(A) -> Seq<B>, r: Seq<B>)
    requires
        bind_result(v, f, r),
        given_by(f, v, g),
    ensures
        r == seq_bind(v, g),
{
    let ys = choose|ys: Seq<Vec<B>>|
        {
            &&& ys.len() == v.len()
            &&& forall|k: int| 0 <= k < ys.len() ==> f.ensures((v[k],), #[trigger] ys[k])
            &&& r == flatten(vec_views(ys))
        };
    assert forall|k: int| 0 <= k < v.len() implies (#[trigger] ys[k])@ == g(v[k]) by {
        assert(f.ensures((v[k],), ys[k]));
    }
    law_vec_bind_model(v, ys, g);
}

/// Left identity for `vec_bind`: binding `vec![a]` with `f` gives one of the
/// results of `f` for `a`, as it is.
pub proof fn law_vec_bind_left_identity<A, B, F: Fn(A) -> Vec<B>>(a: A, f: F, r: Seq<B>)
    requires
        bind_result(seq![a], f, r),
    ensures
        exists|y: Vec<B>| f.ensures((a,), y) && r == y@,
{
    let ys = choose|ys: Seq<Vec<B>>|
        {
            &&& ys.len() == seq![a].len()
            &&& forall|k: int| 0 <= k < ys.len() ==> f.ensures((seq![a][k],), #[trigger] ys[k])
            &&& r == flatten(vec_views(ys))
        };
    assert(f.ensures((seq![a][0],), ys[0]));
    let m = vec_views(ys);
    assert(m.drop_last() =~= Seq::<Seq<B>>::empty());
    assert(flatten(m.drop_last()) =~= Seq::<B>::empty());
    assert(flatten(m) =~= ys[0]@);
}

/// Right identity for `vec_bind`: binding `v` with a function that returns
/// `vec![x]` for each element `x` (as `vec_unit` does) gives `v` back.
pub proof fn law_vec_bind_right_identity<A, F: Fn(A) -> Vec<A>>(v: Seq<A>, f: F, r: Seq<A>)
    requires
        bind_result(v, f, r),
        given_by(f, v, |x: A| seq![x]),
    ensures
        r == v,
{
    law_vec_bind_result(v, f, |x: A| seq![x], r);
    law_vec_right_identity(v);
}

/// Associativity for `vec_bind`: binding with `f` and then with `g` gives
/// what binding once with `h` gives, where `h` returns for each element what
/// binding `f`'s result with `g` gives.
pub proof fn law_vec_bind_associativity<A, B, C, F: Fn(A) -> Vec<B>, G: Fn(B) -> Vec<C>, H: Fn(A) -> Vec<C>>(
    v: Seq<A>,
    f: F,
    g: G,
    h: H,
    fs: spec_fn(A) -> Seq<B>,
    gs: spec_fn(B) -> Seq<C>,
    r1: Seq<B>,
    r2: Seq<C>,
    r3: Seq<C>,
)
    requires
        given_by(f, v, fs),
        bind_result(v, f, r1),
        given_by(g, r1, gs),
        bind_result(r1, g, r2),
        given_by(h, v, |x: A| seq_bind(fs(x), gs)),
        bind_result(v, h, r3),
    ensures
        r2 == r3,
{
    law_vec_bind_result(v, f, fs, r1);
    law_vec_bind_result(r1, g, gs, r2);
    law_vec_bind_result(v, h, |x: A| seq_bind(fs(x), gs), r3);
    law_vec_associativity(v, fs, gs);
}

/// Left identity for options.
pub proof fn law_option_left_identity<A, B>(a: A, g: spec_fn(A) -> Option<B>)
    ensures
        opt_bind(Some(a), g) == g(a),
{
}

/// Right identity for options.
pub proof fn law_option_right_identity<A>(m: Option<A>)
    ensures
        opt_bind(m, |x: A| Some(x)) == m,
{
}

/// Associativity for options.
pub proof fn law_option_associativity<A, B, C>(m: Option<A>, f: spec_fn(A) -> Option<B>, g: spec_fn(B) -> Option<C>)
    ensures
        opt_bind(opt_bind(m, f), g) == opt_bind(m, |x: A| opt_bind(f(x), g)),
{
}

/// Left identity for results.
pub proof fn law_result_left_identity<A, B, E>(a: A, g: spec_fn(A) -> Result<B, E>)
    ensures
        res_bind(Ok::<A, E>(a), g) == g(a),
{
}

/// Right identity for results.
pub proof fn law_result_right_identity<A, E>(m: Result<A, E>)
    ensures
        res_bind(m, |x: A| Ok::<A, E>(x)) == m,
{
}

/// Associativity for results.
pub proof fn law_result_associativity<A, B, C, E>(
    m: Result<A, E>,
    f: spec_fn(A) -> Result<B, E>,
    g: spec_fn(B) -> Result<C, E>,
)
    ensures
        res_bind(res_bind(m, f), g) == res_bind(m, |x: A| res_bind(f(x), g)),
{
}

/// Filtering keeps at most the elements there were, all of them where every
/// one is accepted, and none where none is.
pub proof fn law_filter_bounds<A>(s: Seq<A>, keep: Seq<bool>)
    requires
        keep.len() == s.len(),
    ensures
        keep_flagged(s, keep).len() <= s.len(),
        (forall|k: int| 0 <= k < keep.len() ==> #[trigger] keep[k]) ==> keep_flagged(s, keep) == s,
        (forall|k: int| 0 <= k < keep.len() ==> !#[trigger] keep[k]) ==> keep_flagged(s, keep).len() == 0,
    decreases s.len(),
{
    if s.len() > 0 {
        law_filter_bounds(s.drop_last(), keep.drop_last());
        if forall|k: int| 0 <= k < keep.len() ==> #[trigger] keep[k] {
            assert forall|k: int| 0 <= k < keep.drop_last().len() implies #[trigger] keep.drop_last()[k] by {
                assert(keep[k]);
            }
            assert(keep[keep.len() - 1]);
            assert(s.drop_last() + seq![s.last()] =~= s);
        }
        if forall|k: int| 0 <= k < keep.len() ==> !#[trigger] keep[k] {
            assert forall|k: int| 0 <= k < keep.drop_last().len() implies !#[trigger] keep.drop_last()[k] by {
                assert(!keep[k]);
            }
            assert(!keep[keep.len() - 1]);
        }
    }
}

/// The number of set flags.
pub open spec fn count_true(keep: Seq<bool>) -> nat
    decreases keep.len(),
{
    if keep.len() == 0 {
        0
    } else {
        count_true(keep.drop_last()) + if keep.last() {
            1nat
        } else {
            0nat
        }
    }
}

/// Filtering one element keeps it exactly when its flag is set, and
/// filtering a concatenation is the concatenation of the filterings: each
/// element is kept or dropped by its own flag alone, in order, whatever the
/// flags of the others.
pub proof fn law_filter_by_own_flag<A>(s1: Seq<A>, k1: Seq<bool>, s2: Seq<A>, k2: Seq<bool>, x: A, b: bool)
    requires
        s1.len() == k1.len(),
        s2.len() == k2.len(),
    ensures
        keep_flagged(seq![x], seq![b]) == if b { seq![x] } else { Seq::<A>::empty() },
        keep_flagged(s1 + s2, k1 + k2) == keep_flagged(s1, k1) + keep_flagged(s2, k2),
        keep_flagged(s1, k1).len() == count_true(k1),
    decreases s1.len() + s2.len(),
{
    assert(seq![x].drop_last() =~= Seq::<A>::empty());
    assert(seq![b].drop_last() =~= Seq::<bool>::empty());
    assert(keep_flagged(Seq::<A>::empty(), Seq::<bool>::empty()) =~= Seq::<A>::empty());
    if s2.len() == 0 {
        assert(s1 + s2 =~= s1);
        assert(k1 + k2 =~= k1);
        assert(keep_flagged(s1, k1) + keep_flagged(s2, k2) =~= keep_flagged(s1, k1));
    } else {
        law_filter_by_own_flag(s1, k1, s2.drop_last(), k2.drop_last(), x, b);
        assert((s1 + s2).drop_last() =~= s1 + s2.drop_last());
        assert((k1 + k2).drop_last() =~= k1 + k2.drop_last());
        assert((s1 + s2).last() == s2.last());
        assert((k1 + k2).last() == k2.last());
        assert(keep_flagged(s1 + s2, k1 + k2) =~= keep_flagged(s1, k1) + keep_flagged(s2, k2));
    }
    if s1.len() > 0 {
        law_filter_by_own_flag(s1.drop_last(), k1.drop_last(), s2, k2, x, b);
    }
}

} // verus!
