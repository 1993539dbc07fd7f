//! The machine, and the transformations that register states and edges and
//! fire events.

use vstd::prelude::*;
use vstd::hash_map::StringHashMap;
use crate::combinators::{branch, curry_pair};
use crate::context::State;
use crate::edges::{copy_edges, find_edge, first_match, labels};

verus! {

/// A finite-state machine over a context of type `T`.
#[verifier::reject_recursive_types(T)]
pub struct Machine<T> {
    /// The payload that enter and exit functions transform.
    pub context: T,
    /// The label of the state the machine is in.
    pub current_state: String,
    /// The registered states, by name.
    pub states: StringHashMap<State<T>>,
    /// The registered edges `(from, to)`, by event label, in the order in
    /// which they were registered.
    pub transitions: StringHashMap<Vec<(String, String)>>,
}

/// What a machine is, as mathematics: its context, the text of its current
/// state, its states by name, and for each event label the sequence of its
/// edges.
#[verifier::reject_recursive_types(T)]
pub struct MachineView<T> {
    pub context: T,
    pub current_state: Seq<char>,
    pub states: Map<Seq<char>, State<T>>,
    pub transitions: Map<Seq<char>, Seq<(Seq<char>, Seq<char>)>>,
}

impl<T> View for Machine<T> {
    type V = MachineView<T>;

    open spec fn view(&self) -> MachineView<T> {
        MachineView {
            context: self.context,
            current_state: self.current_state@,
            states: self.states@,
            transitions: Map::new(
                |on: Seq<char>| self.transitions@.contains_key(on),
                |on: Seq<char>| labels(self.transitions@[on]@),
            ),
        }
    }
}

impl<T> MachineView<T> {
    /// The machine as it is made: nothing registered yet.
    pub open spec fn fresh(context: T, state: Seq<char>) -> MachineView<T> {
        MachineView { context, current_state: state, states: Map::empty(), transitions: Map::empty() }
    }

    /// The edges registered under `on`, oldest first; none for a label that
    /// was never registered.
    pub open spec fn edges(self, on: Seq<char>) -> Seq<(Seq<char>, Seq<char>)> {
        if self.transitions.contains_key(on) {
            self.transitions[on]
        } else {
            Seq::empty()
        }
    }

    /// The machine with `state` registered under `name`, in place of
    /// whatever was registered under that name before.
    pub open spec fn with_state(self, name: Seq<char>, state: State<T>) -> MachineView<T> {
        MachineView { states: self.states.insert(name, state), ..self }
    }

    /// The machine with the edge `(from, to)` added after the edges already
    /// registered under `on`.
    pub open spec fn with_edge(self, on: Seq<char>, from: Seq<char>, to: Seq<char>) -> MachineView<
        T,
    > {
        MachineView { transitions: self.transitions.insert(on, self.edges(on).push((from, to))), ..self }
    }

    /// The state that firing `on` leads to: the target of the earliest edge
    /// under `on` whose source is the wildcard or the current state.
    pub open spec fn target(self, on: Seq<char>) -> Option<Seq<char>> {
        match first_match(self.edges(on), self.current_state) {
            Some(i) => Some(self.edges(on)[i].1),
            None => None,
        }
    }

    /// Firing `on` would follow an edge, but the state to leave or the state
    /// to enter was never registered.
    pub open spec fn dangling(self, on: Seq<char>) -> bool {
        match self.target(on) {
            Some(to) => !self.states.contains_key(self.current_state) || !self.states.contains_key(
                to,
            ),
            None => false,
        }
    }

    /// Every registered function accepts every context.
    pub open spec fn total(self) -> bool {
        &&& forall|name: Seq<char>, x: T|
            self.states.contains_key(name) ==> #[trigger] self.states[name].enter.accepts(x)
        &&& forall|name: Seq<char>, x: T|
            self.states.contains_key(name) ==> #[trigger] self.states[name].exit.accepts(x)
    }

    /// `on` can be fired: either no edge applies, or both states of the edge
    /// that applies are registered, the exit function of the current state
    /// accepts the context, and the enter function of the target accepts
    /// whatever that exit function gives.
    pub open spec fn can_fire(self, on: Seq<char>) -> bool {
        match self.target(on) {
            Some(to) => {
                &&& !self.dangling(on)
                &&& self.states[self.current_state].exit.accepts(self.context)
                &&& forall|mid: T| #[trigger]
                    self.states[self.current_state].exit.relates(self.context, mid)
                        ==> self.states[to].enter.accepts(mid)
            },
            None => true,
        }
    }

    /// Firing `on` can turn this machine into `next`.
    ///
    /// Where no edge applies, `next` is this machine.  Otherwise `next` is
    /// in the target state, with the same states and edges, and its context
    /// is what the target's enter function gave for what the current state's
    /// exit function gave for the old context.
    pub open spec fn fired(self, on: Seq<char>, next: MachineView<T>) -> bool {
        match self.target(on) {
            Some(to) => {
                &&& next.current_state == to
                &&& next.states == self.states
                &&& next.transitions == self.transitions
                &&& exists|mid: T| #[trigger]
                    self.states[self.current_state].exit.relates(self.context, mid)
                        && self.states[to].enter.relates(mid, next.context)
            },
            None => next == self,
        }
    }
}

impl<T> Machine<T> {
    /// A machine in state `state` with nothing registered.
    pub fn new(context: T, state: String) -> (machine: Self)
        ensures
            machine@ == MachineView::fresh(context, state@),
    {
        let machine = Machine {
            context,
            current_state: state,
            states: StringHashMap::<State<T>>::new(),
            transitions: StringHashMap::<Vec<(String, String)>>::new(),
        };
        assert(machine@.transitions =~= Map::empty());
        machine
    }

    /// The state that firing `on` would lead to, if an edge applies.
    pub fn target(&self, on: &str) -> (to: Option<&String>)
        ensures
            match to {
                Some(label) => self@.target(on@) == Some(label@),
                None => self@.target(on@).is_none(),
            },
    {
        match self.transitions.get(on) {
            Some(edges) => {
                match find_edge(edges, &self.current_state) {
                    Some(i) => Some(&edges[i].1),
                    None => None,
                }
            },
            None => {
                proof {
                    crate::edges::lemma_first_match_none(self@.edges(on@), self@.current_state);
                }
                None
            },
        }
    }

    /// Whether firing `on` would follow an edge to or from a state that was
    /// never registered.
    pub fn dangling(&self, on: &str) -> (b: bool)
        ensures
            b == self@.dangling(on@),
    {
        match self.target(on) {
            Some(to) => !self.states.contains_key(self.current_state.as_str())
                || !self.states.contains_key(to.as_str()),
            None => false,
        }
    }
}

impl<T> Machine<T> {
    /// Follows the edge that applies for `on`: runs the exit function of the
    /// current state, then the enter function of the target, and moves to
    /// the target.
    fn fire(self, on: &str) -> (next: Machine<T>)
        requires
            self@.target(on@).is_some(),
            self@.can_fire(on@),
        ensures
            self@.fired(on@, next@),
    {
        let to = self.target(on).unwrap().clone();
        let Machine { context, current_state, states, transitions } = self;
        let leaving = states.get(current_state.as_str()).unwrap();
        let entering = states.get(to.as_str()).unwrap();
        let mid = leaving.exit.apply(context);
        let context = entering.enter.apply(mid);
        Machine { context, current_state: to, states, transitions }
    }
}

/// `after` is `before` with a state registered under `name` whose stored
/// pair stands for `enter` and `exit`; nothing else differs.
pub open spec fn state_registered<T, F: Fn(T) -> T, G: Fn(T) -> T>(
    before: MachineView<T>,
    name: Seq<char>,
    enter: F,
    exit: G,
    after: MachineView<T>,
) -> bool {
    &&& after.states.contains_key(name)
    &&& after.states[name].stands_for(enter, exit)
    &&& after == before.with_state(name, after.states[name])
}

/// The transformation that registers the state `name` with its enter and
/// exit functions, replacing an earlier state of that name.  It accepts
/// every machine and leaves context, current state and edges as they were.
pub fn state<T: 'static, F, G>(name: &'static str, enter: F, exit: G) -> (r: impl Fn(Machine<T>) -> Machine<T>) where
    F: Fn(T) -> T + Copy + 'static,
    G: Fn(T) -> T + Copy + 'static,

    ensures
        forall|m: Machine<T>| #[trigger] call_requires(r, (m,)),
        forall|m: Machine<T>, n: Machine<T>| #[trigger]
            call_ensures(r, (m,), n) ==> state_registered(m@, name@, enter, exit, n@),
{
    move |machine: Machine<T>| -> (n: Machine<T>)
        ensures
            state_registered(machine@, name@, enter, exit, n@),
        {
            let mut next = machine;
            next.states.insert(name.to_owned(), curry_pair(enter, exit));
            next
        }
}

/// The transformation that registers the edge `(from, to)` under the event
/// `on`, after the edges already registered under it.  It accepts every
/// machine and leaves context, current state and states as they were.
pub fn transitions<T>(on: &'static str, from: &'static str, to: &'static str) -> (r: impl Fn(
    Machine<T>,
) -> Machine<T>)
    ensures
        forall|m: Machine<T>| #[trigger] call_requires(r, (m,)),
        forall|m: Machine<T>, n: Machine<T>| #[trigger]
            call_ensures(r, (m,), n) ==> n@ == m@.with_edge(on@, from@, to@),
{
    move |machine: Machine<T>| -> (n: Machine<T>)
        ensures
            n@ == machine@.with_edge(on@, from@, to@),
        {
            let mut next = machine;
            let mut edges = match next.transitions.get(on) {
                Some(registered) => copy_edges(registered),
                None => Vec::new(),
            };
            edges.push((from.to_owned(), to.to_owned()));
            assert(labels(edges@) =~= machine@.edges(on@).push((from@, to@)));
            next.transitions.insert(on.to_owned(), edges);
            assert(next@.transitions =~= machine@.with_edge(on@, from@, to@).transitions);
            next
        }
}

/// The transformation that fires the event `on`.
///
/// It accepts every machine on which `on` can be fired.  A machine in which
/// no edge under `on` applies comes back as it is; otherwise the machine
/// follows the earliest edge that applies.
pub fn trigger<'a, T: 'a>(on: &'static str) -> (r: impl Fn(Machine<T>) -> Machine<T> + 'a)
    ensures
        forall|m: Machine<T>| m@.can_fire(on@) ==> #[trigger] call_requires(r, (m,)),
        forall|m: Machine<T>, n: Machine<T>| #[trigger]
            call_ensures(r, (m,), n) ==> m@.fired(on@, n@),
{
    let check = move |m: &Machine<T>| -> (applies: bool)
        ensures
            applies == m@.target(on@).is_some(),
        { m.target(on).is_some() };
    let if_fn = move |m: Machine<T>| -> (n: Machine<T>)
        requires
            m@.target(on@).is_some(),
            m@.can_fire(on@),
        ensures
            m@.fired(on@, n@),
        { m.fire(on) };
    let else_fn = curri::identity;
    branch(check, if_fn, else_fn)
}

} // verus!
