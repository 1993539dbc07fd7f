//! Edges and the rule that picks one: the first edge, in registration order,
//! whose source is the wildcard or the current state.

use vstd::prelude::*;

verus! {

/// The source label that stands for any current state: the text `*`.
pub open spec fn wildcard() -> Seq<char> {
    seq!['*']
}

/// The labels of a list of edges: each `(from, to)` pair as text.
pub open spec fn labels(edges: Seq<(String, String)>) -> Seq<(Seq<char>, Seq<char>)> {
    Seq::new(edges.len(), |i: int| (edges[i].0@, edges[i].1@))
}

/// An edge applies in state `current` when its source is the wildcard or
/// is `current` itself, character for character.
pub open spec fn edge_matches(edge: (Seq<char>, Seq<char>), current: Seq<char>) -> bool {
    edge.0 == wildcard() || edge.0 == current
}

/// `i` is the position of the earliest edge that applies in `current`.
pub open spec fn is_first_match(
    edges: Seq<(Seq<char>, Seq<char>)>,
    current: Seq<char>,
    i: int,
) -> bool {
    &&& 0 <= i < edges.len()
    &&& edge_matches(edges[i], current)
    &&& forall|j: int| 0 <= j < i ==> !edge_matches(#[trigger] edges[j], current)
}

/// The position of the earliest edge that applies in `current`, if any
/// edge does.
pub open spec fn first_match(edges: Seq<(Seq<char>, Seq<char>)>, current: Seq<char>) -> Option<
    int,
> {
    if exists|i: int| is_first_match(edges, current, i) {
        Some(choose|i: int| is_first_match(edges, current, i))
    } else {
        None
    }
}

/// There is at most one earliest match, so `first_match` is that one.
pub proof fn lemma_first_match_unique(
    edges: Seq<(Seq<char>, Seq<char>)>,
    current: Seq<char>,
    i: int,
)
    requires
        is_first_match(edges, current, i),
    ensures
        first_match(edges, current) == Some(i),
{
    let k = choose|k: int| is_first_match(edges, current, k);
    if k < i {
        assert(!edge_matches(edges[k], current));
    } else if i < k {
        assert(!edge_matches(edges[i], current));
    }
}

/// Where no edge applies, there is no first match.
pub proof fn lemma_first_match_none(edges: Seq<(Seq<char>, Seq<char>)>, current: Seq<char>)
    requires
        forall|j: int| 0 <= j < edges.len() ==> !edge_matches(#[trigger] edges[j], current),
    ensures
        first_match(edges, current).is_none(),
{
}

/// Finds the earliest edge in `edges` that applies in state `current`.
pub fn find_edge(edges: &Vec<(String, String)>, current: &String) -> (found: Option<usize>)
    ensures
        match found {
            Some(i) => first_match(labels(edges@), current@) == Some(i as int),
            None => first_match(labels(edges@), current@).is_none(),
        },
{
    let star = "*".to_owned();
    proof {
        reveal_strlit("*");
    }
    let mut i: usize = 0;
    while i < edges.len()
        invariant
            i <= edges.len(),
            star@ == wildcard(),
            forall|j: int| 0 <= j < i ==> !edge_matches(#[trigger] labels(edges@)[j], current@),
        decreases edges.len() - i,
    {
        if edges[i].0 == star || edges[i].0 == *current {
            proof {
                lemma_first_match_unique(labels(edges@), current@, i as int);
            }
            return Some(i);
        }
        i += 1;
    }
    proof {
        lemma_first_match_none(labels(edges@), current@);
    }
    None
}

/// Copies a list of edges, label for label.
pub(crate) fn copy_edges(edges: &Vec<(String, String)>) -> (copy: Vec<(String, String)>)
    ensures
        copy@ == edges@,
{
    let mut copy: Vec<(String, String)> = Vec::new();
    let mut i: usize = 0;
    while i < edges.len()
        invariant
            i <= edges.len(),
            copy@ == edges@.take(i as int),
        decreases edges.len() - i,
    {
        copy.push((edges[i].0.clone(), edges[i].1.clone()));
        i += 1;
    }
    copy
}

} // verus!
