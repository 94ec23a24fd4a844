//! Ordering a set of declared components: finding a repeated identity, and
//! bringing the components into the order of their dependencies.

use vstd::prelude::*;
use crate::component::name::{contains_name, names, Name};
use crate::graph::{
    depends_on, eligible, extend, first_eligible, first_repeat, lemma_first_eligible,
    lemma_first_eligible_is, lemma_first_repeat_is, lemma_push_eligible, ready, repeats,
    topological_order, well_placed, Node,
};

verus! {

/// The dependency graph that a list of identities and a list of dependency
/// lists declare: vertex `i` has identity `ids[i]` and names `deps[i]`.
pub open spec fn graph_of(ids: Seq<Name>, deps: Seq<Vec<Name>>) -> Seq<Node> {
    Seq::new(ids.len(), |i: int| Node { id: ids[i]@, deps: names(deps[i]@) })
}

/// A list of positions as mathematical integers.
pub open spec fn indices(v: Seq<usize>) -> Seq<int> {
    v.map_values(|x: usize| x as int)
}

/// The first position in `ids` that holds a name found at an earlier
/// position.
pub fn find_duplicate(ids: &Vec<Name>) -> (r: Option<usize>)
    ensures
        match r {
            Some(j) => j < ids.len() && j == first_repeat(names(ids@), 0),
            None => first_repeat(names(ids@), 0) == ids.len(),
        },
{
    let ghost all = names(ids@);
    let mut j: usize = 0;
    while j < ids.len()
        invariant
            j <= ids.len(),
            all == names(ids@),
            forall|q: int| 0 <= q < j ==> !#[trigger] repeats(all, q),
        decreases ids.len() - j,
    {
        let mut i: usize = 0;
        while i < j
            invariant
                i <= j < ids.len(),
                all == names(ids@),
                forall|q: int| 0 <= q < j ==> !#[trigger] repeats(all, q),
                forall|p: int| 0 <= p < i ==> #[trigger] all[p] != all[j as int],
            decreases j - i,
        {
            if ids[i].same(&ids[j]) {
                proof {
                    assert(all[i as int] == all[j as int]);
                    lemma_first_repeat_is(all, 0, j as int);
                }
                return Some(j);
            }
            i += 1;
        }
        j += 1;
    }
    proof {
        lemma_first_repeat_is(all, 0, ids.len() as int);
    }
    None
}

/// Whether every component that component `i` depends on is marked in `done`.
fn is_ready(
    ids: &Vec<Name>,
    deps: &Vec<Vec<Name>>,
    done: &Vec<bool>,
    i: usize,
    Ghost(placed): Ghost<Seq<int>>,
) -> (r: bool)
    requires
        ids.len() == deps.len(),
        done.len() == ids.len(),
        i < ids.len(),
        forall|j: int| 0 <= j < done.len() ==> done[j] == placed.contains(j),
    ensures
        r == ready(graph_of(ids@, deps@), placed, i as int),
{
    let ghost g = graph_of(ids@, deps@);
    let mut j: usize = 0;
    while j < ids.len()
        invariant
            j <= ids.len(),
            ids.len() == deps.len(),
            done.len() == ids.len(),
            i < ids.len(),
            g == graph_of(ids@, deps@),
            forall|j: int| 0 <= j < done.len() ==> done[j] == placed.contains(j),
            forall|q: int| 0 <= q < j && #[trigger] depends_on(g, i as int, q) ==> placed.contains(q),
        decreases ids.len() - j,
    {
        if !done[j] && contains_name(&deps[i], &ids[j]) {
            assert(depends_on(g, i as int, j as int));
            return false;
        }
        j += 1;
    }
    true
}

/// The earliest component that is not marked in `done` and is ready; the
/// number of components if there is none.
fn find_eligible(
    ids: &Vec<Name>,
    deps: &Vec<Vec<Name>>,
    done: &Vec<bool>,
    Ghost(placed): Ghost<Seq<int>>,
) -> (r: usize)
    requires
        ids.len() == deps.len(),
        done.len() == ids.len(),
        forall|j: int| 0 <= j < done.len() ==> done[j] == placed.contains(j),
    ensures
        r == first_eligible(graph_of(ids@, deps@), placed, 0),
        r <= ids.len(),
{
    let ghost g = graph_of(ids@, deps@);
    let mut i: usize = 0;
    while i < ids.len()
        invariant
            i <= ids.len(),
            ids.len() == deps.len(),
            done.len() == ids.len(),
            g == graph_of(ids@, deps@),
            forall|j: int| 0 <= j < done.len() ==> done[j] == placed.contains(j),
            forall|q: int| 0 <= q < i ==> !#[trigger] eligible(g, placed, q),
        decreases ids.len() - i,
    {
        if !done[i] && is_ready(ids, deps, done, i, Ghost(placed)) {
            proof {
                lemma_first_eligible_is(g, placed, 0, i as int);
            }
            return i;
        }
        i += 1;
    }
    proof {
        lemma_first_eligible_is(g, placed, 0, ids.len() as int);
    }
    i
}

/// The components in the order of their dependencies: at each step the
/// earliest declared component whose dependencies have all been placed.
/// Components on a cycle, and those that depend on one, are left out.
pub fn sort(ids: &Vec<Name>, deps: &Vec<Vec<Name>>) -> (order: Vec<usize>)
    requires
        ids.len() == deps.len(),
    ensures
        indices(order@) == topological_order(graph_of(ids@, deps@)),
{
    let ghost g = graph_of(ids@, deps@);
    let n = ids.len();
    let mut done: Vec<bool> = Vec::new();
    while done.len() < n
        invariant
            done.len() <= n,
            forall|j: int| 0 <= j < done.len() ==> !done[j],
        decreases n - done.len(),
    {
        done.push(false);
    }
    let mut order: Vec<usize> = Vec::new();
    assert(indices(order@) =~= Seq::<int>::empty());
    while order.len() < n
        invariant
            n == ids.len(),
            ids.len() == deps.len(),
            done.len() == n,
            g == graph_of(ids@, deps@),
            well_placed(g, indices(order@)),
            forall|j: int| 0 <= j < done.len() ==> done[j] == indices(order@).contains(j),
            extend(g, indices(order@)) == topological_order(g),
        decreases n - order.len(),
    {
        let ghost placed = indices(order@);
        let i = find_eligible(ids, deps, &done, Ghost(placed));
        if i == n {
            return order;
        }
        proof {
            lemma_first_eligible(g, placed, 0);
            lemma_push_eligible(g, placed, i as int);
        }
        order.push(i);
        done.set(i, true);
        proof {
            assert(indices(order@) =~= placed.push(i as int));
            assert forall|j: int| 0 <= j < done.len() implies done[j] == indices(order@).contains(
                j,
            ) by {
                if j == i {
                    assert(indices(order@)[placed.len() as int] == j);
                } else if placed.contains(j) {
                    let q = choose|q: int| 0 <= q < placed.len() && placed[q] == j;
                    assert(indices(order@)[q] == j);
                } else {
                }
            }
        }
    }
    order
}

} // verus!
