//! Composition of unary functions, applied left to right.

use vstd::prelude::*;

verus! {

/// `trace` records a run of the first `n` functions of `fs`: it starts
/// with the input, and each function, in order, took the value before it to
/// the value after it.
pub open spec fn is_run<T, F: Fn(T) -> T>(fs: Seq<F>, trace: Seq<T>, n: int) -> bool {
    &&& 0 <= n <= fs.len()
    &&& trace.len() == n + 1
    &&& forall|i: int| 0 <= i < n ==> call_ensures(fs[i], (#[trigger] trace[i],), trace[i + 1])
}

/// The chain `fs` may be run on `x`: however far a run from `x` has come,
/// the next function accepts the value reached.
pub open spec fn chain_accepts<T, F: Fn(T) -> T>(fs: Seq<F>, x: T) -> bool {
    forall|trace: Seq<T>, n: int|
        n < fs.len() && #[trigger] is_run(fs, trace, n) && trace[0] == x ==> call_requires(
            fs[n],
            (trace[n],),
        )
}

/// Running the chain `fs` on `x` can give `y`: some run of all of `fs`
/// starts with `x` and ends with `y`.  The empty chain gives `x` itself.
pub open spec fn chain_relates<T, F: Fn(T) -> T>(fs: Seq<F>, x: T, y: T) -> bool {
    exists|trace: Seq<T>| #[trigger]
        is_run(fs, trace, fs.len() as int) && trace[0] == x && trace[fs.len() as int] == y
}

/// `r` applies `f`, then `g`: it may be called on `x` where `f` accepts `x`
/// and `g` accepts whatever `f` gives for it, and each of its outputs is an
/// output of `g` on an output of `f` on `x`.
pub open spec fn is_composition<T, F, G, R>(r: R, f: F, g: G) -> bool where
    F: Fn(T) -> T,
    G: Fn(T) -> T,
    R: Fn(T) -> T,
 {
    &&& forall|x: T|
        call_requires(f, (x,)) && (forall|mid: T|
            call_ensures(f, (x,), mid) ==> call_requires(g, (mid,))) ==> #[trigger] call_requires(
            r,
            (x,),
        )
    &&& forall|x: T, y: T| #[trigger]
        call_ensures(r, (x,), y) ==> exists|mid: T| #[trigger]
            call_ensures(f, (x,), mid) && call_ensures(g, (mid,), y)
}

/// `compose(f, g)` is the function that applies `f`, then `g`.
pub fn compose<T, F, G>(f: F, g: G) -> (r: impl Fn(T) -> T) where F: Fn(T) -> T, G: Fn(T) -> T
    ensures
        is_composition(r, f, g),
{
    move |x: T| -> (y: T)
        requires
            call_requires(f, (x,)),
            forall|mid: T| call_ensures(f, (x,), mid) ==> call_requires(g, (mid,)),
        ensures
            exists|mid: T| #[trigger] call_ensures(f, (x,), mid) && call_ensures(g, (mid,), y),
        {
            let mid = f(x);
            g(mid)
        }
}

/// `compose_vec(fs)` is the function that applies each element of `fs` in
/// turn, the first one first.  For an empty `fs` it is the identity.
///
/// It may be called wherever the chain may be run, and each of its outputs
/// is an output of the chain.
pub fn compose_vec<T, F>(fs: Vec<F>) -> (r: impl Fn(T) -> T) where F: Fn(T) -> T
    ensures
        forall|x: T| chain_accepts(fs@, x) ==> #[trigger] call_requires(r, (x,)),
        forall|x: T, y: T| #[trigger] call_ensures(r, (x,), y) ==> chain_relates(fs@, x, y),
{
    move |x: T| -> (y: T)
        requires
            chain_accepts(fs@, x),
        ensures
            chain_relates(fs@, x, y),
        {
            let mut acc = x;
            let mut i: usize = 0;
            let ghost mut trace: Seq<T> = seq![x];
            while i < fs.len()
                invariant
                    i <= fs.len(),
                    chain_accepts(fs@, x),
                    is_run(fs@, trace, i as int),
                    trace[0] == x,
                    trace[i as int] == acc,
                decreases fs.len() - i,
            {
                acc = (fs[i])(acc);
                proof {
                    let longer = trace.push(acc);
                    assert forall|j: int| 0 <= j < i + 1 implies call_ensures(
                        fs@[j],
                        (#[trigger] longer[j],),
                        longer[j + 1],
                    ) by {
                        if j < i {
                            assert(longer[j] == trace[j] && longer[j + 1] == trace[j + 1]);
                        }
                    }
                    trace = longer;
                }
                i += 1;
            }
            acc
        }
}

} // verus!
