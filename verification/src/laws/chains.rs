//! Laws of composition: a chain of functions runs in order, and how the
//! chain is grouped makes no difference.

use vstd::prelude::*;
use crate::compose::{chain_accepts, chain_relates, is_composition, is_run};

verus! {

/// A run of `fs` followed by a run of `gs` that starts where the first one
/// ended is a run of `fs + gs`.
pub proof fn lemma_run_join<T, F: Fn(T) -> T>(
    fs: Seq<F>,
    gs: Seq<F>,
    first: Seq<T>,
    second: Seq<T>,
    k: int,
)
    requires
        is_run(fs, first, fs.len() as int),
        is_run(gs, second, k),
        first[fs.len() as int] == second[0],
    ensures
        is_run(fs + gs, first + second.skip(1), fs.len() + k),
        (first + second.skip(1))[0] == first[0],
        forall|j: int| 0 <= j <= k ==> (first + second.skip(1))[fs.len() + j] == #[trigger] second[j],
{
    let n = fs.len() as int;
    let whole = first + second.skip(1);
    assert forall|j: int| 0 <= j <= k implies whole[n + j] == #[trigger] second[j] by {
        if j > 0 {
            assert(whole[n + j] == second.skip(1)[j - 1]);
        }
    }
    assert forall|i: int| 0 <= i < n + k implies call_ensures(
        (fs + gs)[i],
        (#[trigger] whole[i],),
        whole[i + 1],
    ) by {
        if i < n {
            assert((fs + gs)[i] == fs[i] && whole[i] == first[i]);
        } else {
            assert((fs + gs)[i] == gs[i - n] && whole[i] == second[i - n]);
        }
    }
}

/// A run of `fs + gs` that goes beyond `fs` is a run of all of `fs`
/// followed by a run of `gs` from where that one ended.
pub proof fn lemma_run_split<T, F: Fn(T) -> T>(fs: Seq<F>, gs: Seq<F>, trace: Seq<T>, k: int)
    requires
        fs.len() <= k,
        is_run(fs + gs, trace, k),
    ensures
        is_run(fs, trace.take(fs.len() as int + 1), fs.len() as int),
        is_run(gs, trace.skip(fs.len() as int), k - fs.len()),
{
    let n = fs.len() as int;
    let first = trace.take(n + 1);
    let second = trace.skip(n);
    assert forall|i: int| 0 <= i < n implies call_ensures(
        fs[i],
        (#[trigger] first[i],),
        first[i + 1],
    ) by {
        assert((fs + gs)[i] == fs[i] && first[i] == trace[i]);
    }
    assert forall|i: int| 0 <= i < k - n implies call_ensures(
        gs[i],
        (#[trigger] second[i],),
        second[i + 1],
    ) by {
        assert((fs + gs)[n + i] == gs[i] && second[i] == trace[n + i]);
    }
}

/// As far as it stays within `fs`, a run of `fs + gs` is a run of `fs`, and
/// the other way round.
pub proof fn lemma_run_prefix<T, F: Fn(T) -> T>(fs: Seq<F>, gs: Seq<F>, trace: Seq<T>, k: int)
    requires
        k <= fs.len(),
    ensures
        is_run(fs, trace, k) <==> is_run(fs + gs, trace, k),
{
    assert(forall|i: int| 0 <= i < k ==> (fs + gs)[i] == fs[i]);
}

/// Composition keeps the order and does not depend on grouping: running
/// `fs` followed by `gs` as one chain is running `fs`, then running `gs` on
/// what came out.
pub proof fn lemma_chain_concat<T, F: Fn(T) -> T>(fs: Seq<F>, gs: Seq<F>, x: T, y: T)
    ensures
        chain_relates(fs + gs, x, y) <==> exists|mid: T| #[trigger]
            chain_relates(fs, x, mid) && chain_relates(gs, mid, y),
{
    let n = fs.len() as int;
    let m = gs.len() as int;
    if chain_relates(fs + gs, x, y) {
        let trace = choose|trace: Seq<T>| #[trigger]
            is_run(fs + gs, trace, (fs + gs).len() as int) && trace[0] == x && trace[(fs
                + gs).len() as int] == y;
        lemma_run_split(fs, gs, trace, n + m);
        let mid = trace[n];
        assert(trace.take(n + 1)[n] == mid && trace.skip(n)[0] == mid);
        assert(chain_relates(fs, x, mid) && chain_relates(gs, mid, y));
    }
    if exists|mid: T| #[trigger] chain_relates(fs, x, mid) && chain_relates(gs, mid, y) {
        let mid = choose|mid: T| #[trigger] chain_relates(fs, x, mid) && chain_relates(gs, mid, y);
        let first = choose|trace: Seq<T>| #[trigger]
            is_run(fs, trace, n) && trace[0] == x && trace[n] == mid;
        let second = choose|trace: Seq<T>| #[trigger]
            is_run(gs, trace, m) && trace[0] == mid && trace[m] == y;
        lemma_run_join(fs, gs, first, second, m);
        let whole = first + second.skip(1);
        assert(is_run(fs + gs, whole, (fs + gs).len() as int) && whole[0] == x && whole[(fs
            + gs).len() as int] == y);
    }
}

/// `fs` followed by `gs` may be run on `x` exactly where `fs` may be run on
/// `x` and `gs` may be run on whatever `fs` gives for it.
pub proof fn lemma_chain_accepts_concat<T, F: Fn(T) -> T>(fs: Seq<F>, gs: Seq<F>, x: T)
    ensures
        chain_accepts(fs + gs, x) <==> chain_accepts(fs, x) && forall|mid: T| #[trigger]
            chain_relates(fs, x, mid) ==> chain_accepts(gs, mid),
{
    let n = fs.len() as int;
    let m = gs.len() as int;
    if chain_accepts(fs + gs, x) {
        assert forall|trace: Seq<T>, k: int|
            k < fs.len() && #[trigger] is_run(fs, trace, k) && trace[0] == x implies call_requires(
            fs[k],
            (trace[k],),
        ) by {
            lemma_run_prefix(fs, gs, trace, k);
        }
        assert forall|mid: T| #[trigger] chain_relates(fs, x, mid) implies chain_accepts(
            gs,
            mid,
        ) by {
            let first = choose|trace: Seq<T>| #[trigger]
                is_run(fs, trace, n) && trace[0] == x && trace[n] == mid;
            assert forall|second: Seq<T>, k: int|
                k < gs.len() && #[trigger] is_run(gs, second, k) && second[0]
                    == mid implies call_requires(gs[k], (second[k],)) by {
                lemma_run_join(fs, gs, first, second, k);
                assert((fs + gs)[n + k] == gs[k]);
            }
        }
    }
    if chain_accepts(fs, x) && forall|mid: T| #[trigger]
        chain_relates(fs, x, mid) ==> chain_accepts(gs, mid) {
        assert forall|trace: Seq<T>, k: int|
            k < (fs + gs).len() && #[trigger] is_run(fs + gs, trace, k) && trace[0]
                == x implies call_requires((fs + gs)[k], (trace[k],)) by {
            if k < n {
                lemma_run_prefix(fs, gs, trace, k);
            } else {
                lemma_run_split(fs, gs, trace, k);
                assert(chain_relates(fs, x, trace[n]));
                assert((fs + gs)[k] == gs[k - n] && trace.skip(n)[k - n] == trace[k]);
            }
        }
    }
}

/// `a` takes `x` to `p`, `b` takes `p` to `q`, and `c` takes `q` to `y`.
pub open spec fn in_sequence<T, A, B, C>(a: A, b: B, c: C, x: T, p: T, q: T, y: T) -> bool where
    A: Fn(T) -> T,
    B: Fn(T) -> T,
    C: Fn(T) -> T,
 {
    &&& call_ensures(a, (x,), p)
    &&& call_ensures(b, (p,), q)
    &&& call_ensures(c, (q,), y)
}

/// `a`, then `b`, then `c` may be run on `x`: each accepts whatever came
/// before it.
pub open spec fn sequence_accepts<T, A, B, C>(a: A, b: B, c: C, x: T) -> bool where
    A: Fn(T) -> T,
    B: Fn(T) -> T,
    C: Fn(T) -> T,
 {
    &&& call_requires(a, (x,))
    &&& forall|p: T| #[trigger]
        call_ensures(a, (x,), p) ==> {
            &&& call_requires(b, (p,))
            &&& forall|q: T| #[trigger] call_ensures(b, (p,), q) ==> call_requires(c, (q,))
        }
}

/// Applying the composition of `[a, b, c]` is applying `a`, then `b`, then
/// `c`.
pub proof fn lemma_chain_of_three<T, F: Fn(T) -> T>(a: F, b: F, c: F, x: T, y: T)
    ensures
        chain_relates(seq![a, b, c], x, y) <==> exists|p: T, q: T| #[trigger]
            in_sequence(a, b, c, x, p, q, y),
{
    let abc = seq![a, b, c];
    if chain_relates(abc, x, y) {
        let trace = choose|trace: Seq<T>| #[trigger]
            is_run(abc, trace, abc.len() as int) && trace[0] == x && trace[abc.len() as int] == y;
        assert(in_sequence(a, b, c, x, trace[1], trace[2], y));
    }
    if exists|p: T, q: T| #[trigger] in_sequence(a, b, c, x, p, q, y) {
        let (p, q) = choose|p: T, q: T| #[trigger] in_sequence(a, b, c, x, p, q, y);
        let trace = seq![x, p, q, y];
        assert(is_run(abc, trace, abc.len() as int) && trace[0] == x && trace[abc.len() as int]
            == y);
    }
}

/// The composition of no functions gives its input back, and nothing else.
pub proof fn lemma_empty_chain_is_identity<T, F: Fn(T) -> T>(x: T, y: T)
    ensures
        chain_accepts(Seq::<F>::empty(), x),
        chain_relates(Seq::<F>::empty(), x, y) <==> y == x,
{
    let none = Seq::<F>::empty();
    if y == x {
        let trace = seq![x];
        assert(is_run(none, trace, none.len() as int) && trace[0] == x && trace[none.len() as int]
            == y);
    }
}

/// Composition is associative: `a` and `b` composed first and then `c`, or
/// `a` composed with the composition of `b` and `c`, both may be run
/// wherever `a`, `b`, `c` may be run in turn, and both give only what `a`,
/// then `b`, then `c` give.
pub proof fn lemma_compose_associative<T, A, B, C, AB, BC, L, R>(
    a: A,
    b: B,
    c: C,
    ab: AB,
    bc: BC,
    left: L,
    right: R,
    x: T,
    y: T,
) where
    A: Fn(T) -> T,
    B: Fn(T) -> T,
    C: Fn(T) -> T,
    AB: Fn(T) -> T,
    BC: Fn(T) -> T,
    L: Fn(T) -> T,
    R: Fn(T) -> T,

    requires
        is_composition(ab, a, b),
        is_composition(left, ab, c),
        is_composition(bc, b, c),
        is_composition(right, a, bc),
    ensures
        sequence_accepts(a, b, c, x) ==> call_requires(left, (x,)) && call_requires(right, (x,)),
        call_ensures(left, (x,), y) ==> exists|p: T, q: T| #[trigger] in_sequence(a, b, c, x, p, q, y),
        call_ensures(right, (x,), y) ==> exists|p: T, q: T| #[trigger]
            in_sequence(a, b, c, x, p, q, y),
{
    if sequence_accepts(a, b, c, x) {
        assert forall|q: T| call_ensures(ab, (x,), q) implies call_requires(c, (q,)) by {
            let p = choose|p: T| #[trigger] call_ensures(a, (x,), p) && call_ensures(b, (p,), q);
            assert(call_requires(b, (p,)));
        }
        assert forall|p: T| call_ensures(a, (x,), p) implies call_requires(bc, (p,)) by {
            assert(call_requires(b, (p,)));
        }
    }
    if call_ensures(left, (x,), y) {
        let q = choose|q: T| #[trigger] call_ensures(ab, (x,), q) && call_ensures(c, (q,), y);
        let p = choose|p: T| #[trigger] call_ensures(a, (x,), p) && call_ensures(b, (p,), q);
        assert(in_sequence(a, b, c, x, p, q, y));
    }
    if call_ensures(right, (x,), y) {
        let p = choose|p: T| #[trigger] call_ensures(a, (x,), p) && call_ensures(bc, (p,), y);
        let q = choose|q: T| #[trigger] call_ensures(b, (p,), q) && call_ensures(c, (q,), y);
        assert(in_sequence(a, b, c, x, p, q, y));
    }
}

} // verus!
