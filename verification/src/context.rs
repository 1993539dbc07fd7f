//! Context functions: the enter and exit actions of a state.

use vstd::prelude::*;

verus! {

/// A function over the context value, seen through one operation.
///
/// The machine stores many different functions in one map, so it holds them
/// as `Box<dyn ContextFn<T>>`.  Each carries its own precondition
/// (`accepts`) and its own input/output relation (`relates`).
pub trait ContextFn<T> {
    /// The inputs on which `apply` may be called.
    spec fn accepts(&self, input: T) -> bool;

    /// The outputs that `apply` can give for an input.
    spec fn relates(&self, input: T, output: T) -> bool;

    /// Runs the function once.
    fn apply(&self, input: T) -> (output: T)
        requires
            self.accepts(input),
        ensures
            self.relates(input, output),
    ;
}

/// Every unary function or closure over `T` is a context function, with the
/// precondition and the postcondition that it was declared with.
impl<T, F: Fn(T) -> T> ContextFn<T> for F {
    open spec fn accepts(&self, input: T) -> bool {
        call_requires(*self, (input,))
    }

    open spec fn relates(&self, input: T, output: T) -> bool {
        call_ensures(*self, (input,), output)
    }

    fn apply(&self, input: T) -> (output: T) {
        self(input)
    }
}

/// A registered state: what runs when the machine enters it and when it
/// leaves it.
#[verifier::reject_recursive_types(T)]
pub struct State<T> {
    pub enter: Box<dyn ContextFn<T>>,
    pub exit: Box<dyn ContextFn<T>>,
}

impl<T> State<T> {
    /// The stored pair stands for the functions `enter` and `exit`: the
    /// stored enter function may be called wherever `enter` may and gives
    /// only outputs that `enter` can give, and likewise for `exit`.
    pub open spec fn stands_for<F: Fn(T) -> T, G: Fn(T) -> T>(self, enter: F, exit: G) -> bool {
        &&& forall|x: T| call_requires(enter, (x,)) ==> #[trigger] self.enter.accepts(x)
        &&& forall|x: T, y: T| #[trigger] self.enter.relates(x, y) ==> call_ensures(enter, (x,), y)
        &&& forall|x: T| call_requires(exit, (x,)) ==> #[trigger] self.exit.accepts(x)
        &&& forall|x: T, y: T| #[trigger] self.exit.relates(x, y) ==> call_ensures(exit, (x,), y)
    }
}

} // verus!
