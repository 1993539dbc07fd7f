//! The building blocks taken from the `curri` crate: identity, boxing of
//! a function, and branching on a predicate.
//!
//! Verus does not read that crate, so what this module says of its
//! functions is taken on trust; each such item says so.  Everything else in
//! this library is proved against these statements.

use vstd::prelude::*;
use curri::Curry;
use crate::context::State;

verus! {

/// Trusted: `curri::identity` hands its argument back unchanged.
pub assume_specification<T>[ curri::identity::<T> ](x: T) -> (r: T)
    ensures
        r == x,
;

/// Trusted: boxes an enter and an exit function with `curri`'s
/// `Curry::curry`, which for a unary function returns a boxed closure that
/// passes its argument to the function and returns the function's result.
/// The contract claims just that of each stored function: it may be called
/// wherever the function given may, and gives only what that function can
/// give.
#[verifier::external_body]
pub(crate) fn curry_pair<T: 'static, F, G>(enter: F, exit: G) -> (s: State<T>) where
    F: Fn(T) -> T + 'static,
    G: Fn(T) -> T + 'static,

    ensures
        s.stands_for(enter, exit),
{
    State { enter: Box::new(enter.curry()), exit: Box::new(exit.curry()) }
}

/// The inputs on which a branch over `check` may run: `check` may be
/// called, and whichever way it answers, the function chosen by that answer
/// may be called.
pub open spec fn branch_accepts<T, F, G, H>(check: F, if_fn: G, else_fn: H, t: T) -> bool where
    F: Fn(&T) -> bool,
    G: Fn(T) -> T,
    H: Fn(T) -> T,
 {
    &&& call_requires(check, (&t,))
    &&& forall|b: bool| #[trigger]
        call_ensures(check, (&t,), b) ==> if b {
            call_requires(if_fn, (t,))
        } else {
            call_requires(else_fn, (t,))
        }
}

/// The outputs of a branch over `check`: `check` gave some answer, and the
/// function chosen by that answer gave the output.
pub open spec fn branch_relates<T, F, G, H>(check: F, if_fn: G, else_fn: H, t: T, out: T) -> bool where
    F: Fn(&T) -> bool,
    G: Fn(T) -> T,
    H: Fn(T) -> T,
 {
    exists|b: bool| #[trigger]
        call_ensures(check, (&t,), b) && if b {
            call_ensures(if_fn, (t,), out)
        } else {
            call_ensures(else_fn, (t,), out)
        }
}

/// Trusted: builds the branching function with `curri::if_else`, whose
/// result calls `check` on a reference to its input and then hands the
/// input to `if_fn` where the answer was `true`, to `else_fn` where it was
/// `false`, returning what that function returns.
#[verifier::external_body]
pub(crate) fn branch<'a, T: 'a, F, G, H>(check: F, if_fn: G, else_fn: H) -> (r: impl Fn(T) -> T + 'a) where
    F: Fn(&T) -> bool + 'a,
    G: Fn(T) -> T + 'a,
    H: Fn(T) -> T + 'a,

    ensures
        forall|t: T| branch_accepts(check, if_fn, else_fn, t) ==> #[trigger] call_requires(r, (t,)),
        forall|t: T, out: T| #[trigger]
            call_ensures(r, (t,), out) ==> branch_relates(check, if_fn, else_fn, t, out),
{
    let chosen = curri::if_else(check, if_fn, else_fn);
    move |t: T| chosen(t)
}

} // verus!
