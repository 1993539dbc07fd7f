//! Laws of the machine: what firing and registering do, whatever the
//! machine.

use vstd::prelude::*;
use crate::edges::{
    edge_matches, first_match, is_first_match, lemma_first_match_none, lemma_first_match_unique,
    wildcard,
};
use crate::fsm::{state_registered, MachineView};

verus! {


/// Firing an event under which nothing was ever registered is always
/// possible and changes nothing: the only machine it can give is the one it
/// was fired on, so context and current state stay as they were.
pub proof fn lemma_unregistered_event_is_noop<T>(m: MachineView<T>, on: Seq<char>)
    requires
        !m.transitions.contains_key(on),
    ensures
        m.target(on).is_none(),
        m.can_fire(on),
        forall|next: MachineView<T>| #[trigger] m.fired(on, next) <==> next == m,
{
    lemma_first_match_none(m.edges(on), m.current_state);
}

/// Firing an event none of whose edges starts at the wildcard or at the
/// current state is always possible and changes nothing.
pub proof fn lemma_unmatched_event_is_noop<T>(m: MachineView<T>, on: Seq<char>)
    requires
        forall|j: int|
            0 <= j < m.edges(on).len() ==> !edge_matches(#[trigger] m.edges(on)[j], m.current_state),
    ensures
        m.target(on).is_none(),
        m.can_fire(on),
        forall|next: MachineView<T>| #[trigger] m.fired(on, next) <==> next == m,
{
    lemma_first_match_none(m.edges(on), m.current_state);
}

/// Where the edge at `i` applies, an edge is selected, and it stands at `i`
/// or earlier; it is the earliest edge that applies.
pub proof fn lemma_selection_is_earliest(
    edges: Seq<(Seq<char>, Seq<char>)>,
    current: Seq<char>,
    i: int,
)
    requires
        0 <= i < edges.len(),
        edge_matches(edges[i], current),
    ensures
        first_match(edges, current).is_some(),
        first_match(edges, current).unwrap() <= i,
        is_first_match(edges, current, first_match(edges, current).unwrap()),
    decreases i,
{
    if exists|j: int| 0 <= j < i && edge_matches(edges[j], current) {
        let j = choose|j: int| 0 <= j < i && edge_matches(edges[j], current);
        lemma_selection_is_earliest(edges, current, j);
    } else {
        lemma_first_match_unique(edges, current, i);
    }
}

/// An edge that applies is never selected while an earlier edge applies
/// too: among the edges of one event, the first registered wins.
pub proof fn lemma_later_edge_is_not_selected(
    edges: Seq<(Seq<char>, Seq<char>)>,
    current: Seq<char>,
    earlier: int,
    later: int,
)
    requires
        0 <= earlier < later < edges.len(),
        edge_matches(edges[earlier], current),
    ensures
        first_match(edges, current) != Some(later),
{
    lemma_selection_is_earliest(edges, current, earlier);
}

/// Firing an event moves the machine to the target of the earliest edge
/// under that event that applies in the current state.
pub proof fn lemma_fired_follows_earliest_edge<T>(
    m: MachineView<T>,
    on: Seq<char>,
    i: int,
    next: MachineView<T>,
)
    requires
        is_first_match(m.edges(on), m.current_state, i),
        m.fired(on, next),
    ensures
        m.target(on) == Some(m.edges(on)[i].1),
        next.current_state == m.edges(on)[i].1,
{
    lemma_first_match_unique(m.edges(on), m.current_state, i);
}

/// A new edge goes behind the edges already registered under its event, and
/// the edges of every other event stay as they were.
pub proof fn lemma_with_edge_appends<T>(
    m: MachineView<T>,
    on: Seq<char>,
    from: Seq<char>,
    to: Seq<char>,
    other: Seq<char>,
)
    ensures
        m.with_edge(on, from, to).edges(on) == m.edges(on).push((from, to)),
        other != on ==> m.with_edge(on, from, to).edges(other) == m.edges(other),
        m.with_edge(on, from, to).context == m.context,
        m.with_edge(on, from, to).current_state == m.current_state,
        m.with_edge(on, from, to).states == m.states,
{
}

/// Registering one more edge never changes where an event leads that
/// already led somewhere: the edge registered earlier keeps its precedence.
pub proof fn lemma_new_edge_keeps_selection<T>(
    m: MachineView<T>,
    on: Seq<char>,
    from: Seq<char>,
    to: Seq<char>,
    fired: Seq<char>,
)
    requires
        m.target(fired).is_some(),
    ensures
        m.with_edge(on, from, to).target(fired) == m.target(fired),
{
    let after = m.with_edge(on, from, to);
    if fired == on {
        let old_edges = m.edges(on);
        let new_edges = after.edges(on);
        let i = first_match(old_edges, m.current_state).unwrap();
        assert(is_first_match(old_edges, m.current_state, i));
        assert(new_edges == old_edges.push((from, to)));
        assert forall|j: int| 0 <= j < i implies !edge_matches(
            #[trigger] new_edges[j],
            m.current_state,
        ) by {
            assert(new_edges[j] == old_edges[j]);
        }
        assert(new_edges[i] == old_edges[i]);
        lemma_first_match_unique(new_edges, m.current_state, i);
    } else {
        assert(after.edges(fired) == m.edges(fired));
    }
}

/// An event whose first edge starts at the wildcard leads to that edge's
/// target from every current state.
pub proof fn lemma_wildcard_fires_from_any_state<T>(m: MachineView<T>, on: Seq<char>, to: Seq<char>)
    requires
        m.edges(on).len() > 0,
        m.edges(on)[0] == (wildcard(), to),
    ensures
        m.target(on) == Some(to),
{
    lemma_first_match_unique(m.edges(on), m.current_state, 0);
}

/// Registering a state twice under one name leaves the machine as if only
/// the second registration had been made.
pub proof fn lemma_reregistration_replaces<T, F1, G1, F2, G2>(
    start: MachineView<T>,
    name: Seq<char>,
    enter1: F1,
    exit1: G1,
    once: MachineView<T>,
    enter2: F2,
    exit2: G2,
    twice: MachineView<T>,
) where F1: Fn(T) -> T, G1: Fn(T) -> T, F2: Fn(T) -> T, G2: Fn(T) -> T
    requires
        state_registered(start, name, enter1, exit1, once),
        state_registered(once, name, enter2, exit2, twice),
    ensures
        state_registered(start, name, enter2, exit2, twice),
{
    let first = once.states[name];
    let second = twice.states[name];
    assert(start.states.insert(name, first).insert(name, second) =~= start.states.insert(
        name,
        second,
    ));
}

/// Leaving a state runs the exit function that was registered for it last:
/// the value handed on to the target's enter function is an output of that
/// exit function on the old context.
pub proof fn lemma_fired_runs_registered_exit<T, F, G>(
    before: MachineView<T>,
    name: Seq<char>,
    enter: F,
    exit: G,
    m: MachineView<T>,
    on: Seq<char>,
    next: MachineView<T>,
) where F: Fn(T) -> T, G: Fn(T) -> T
    requires
        state_registered(before, name, enter, exit, m),
        m.current_state == name,
        m.target(on).is_some(),
        m.fired(on, next),
    ensures
        exists|mid: T| #[trigger]
            call_ensures(exit, (m.context,), mid) && m.states[m.target(on).unwrap()].enter.relates(
                mid,
                next.context,
            ),
{
    let to = m.target(on).unwrap();
    let mid = choose|mid: T| #[trigger]
        m.states[m.current_state].exit.relates(m.context, mid) && m.states[to].enter.relates(
            mid,
            next.context,
        );
    assert(call_ensures(exit, (m.context,), mid));
}

/// Entering a state runs the enter function that was registered for it
/// last: the new context is an output of that enter function on what the
/// exit function of the state left gave.
pub proof fn lemma_fired_runs_registered_enter<T, F, G>(
    before: MachineView<T>,
    name: Seq<char>,
    enter: F,
    exit: G,
    m: MachineView<T>,
    on: Seq<char>,
    next: MachineView<T>,
) where F: Fn(T) -> T, G: Fn(T) -> T
    requires
        state_registered(before, name, enter, exit, m),
        m.target(on) == Some(name),
        m.fired(on, next),
    ensures
        next.current_state == name,
        exists|mid: T| #[trigger]
            m.states[m.current_state].exit.relates(m.context, mid) && call_ensures(
                enter,
                (mid,),
                next.context,
            ),
{
    let mid = choose|mid: T| #[trigger]
        m.states[m.current_state].exit.relates(m.context, mid) && m.states[name].enter.relates(
            mid,
            next.context,
        );
    assert(call_ensures(enter, (mid,), next.context));
}

/// Registering a state only adds: every state registered before is still
/// registered, each under another name with the pair it had, and context,
/// current state and edges are as they were.
pub proof fn lemma_state_registration_only_adds<T, F, G>(
    before: MachineView<T>,
    name: Seq<char>,
    enter: F,
    exit: G,
    after: MachineView<T>,
) where F: Fn(T) -> T, G: Fn(T) -> T
    requires
        state_registered(before, name, enter, exit, after),
    ensures
        after.states.dom() == before.states.dom().insert(name),
        forall|other: Seq<char>|
            other != name && before.states.contains_key(other) ==> #[trigger] after.states[other]
                == before.states[other],
        after.context == before.context,
        after.current_state == before.current_state,
        after.transitions == before.transitions,
{
}

/// A firing that follows an edge ends in a registered state.
pub proof fn lemma_fired_lands_in_registered_state<T>(
    m: MachineView<T>,
    on: Seq<char>,
    next: MachineView<T>,
)
    requires
        m.target(on).is_some(),
        m.can_fire(on),
        m.fired(on, next),
    ensures
        next.states.contains_key(next.current_state),
{
}

/// Where every registered function accepts every context, an event can be
/// fired exactly when it does not lead to or from an unregistered state.
pub proof fn lemma_total_machine_fires_unless_dangling<T>(m: MachineView<T>, on: Seq<char>)
    requires
        m.total(),
    ensures
        m.can_fire(on) <==> !m.dangling(on),
{
}

/// Registering functions that accept every context keeps a machine total.
pub proof fn lemma_state_registration_keeps_total<T, F, G>(
    before: MachineView<T>,
    name: Seq<char>,
    enter: F,
    exit: G,
    after: MachineView<T>,
) where F: Fn(T) -> T, G: Fn(T) -> T
    requires
        before.total(),
        state_registered(before, name, enter, exit, after),
        forall|x: T| call_requires(enter, (x,)),
        forall|x: T| call_requires(exit, (x,)),
    ensures
        after.total(),
{
    assert forall|other: Seq<char>, x: T| after.states.contains_key(other) implies #[trigger]
        after.states[other].enter.accepts(x) by {
        if other != name {
            assert(before.states.contains_key(other));
            assert(after.states[other] == before.states[other]);
        }
    }
    assert forall|other: Seq<char>, x: T| after.states.contains_key(other) implies #[trigger]
        after.states[other].exit.accepts(x) by {
        if other != name {
            assert(before.states.contains_key(other));
            assert(after.states[other] == before.states[other]);
        }
    }
}

/// Registering an edge and firing an event keep a machine total.
pub proof fn lemma_edges_and_firing_keep_total<T>(
    m: MachineView<T>,
    on: Seq<char>,
    from: Seq<char>,
    to: Seq<char>,
    next: MachineView<T>,
)
    requires
        m.total(),
    ensures
        m.with_edge(on, from, to).total(),
        m.fired(on, next) ==> next.total(),
{
}

} // verus!
