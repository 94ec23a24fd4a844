//! The dependency graph of a set of components, as a mathematical object:
//! what it means for one component to depend on another, what a cycle is,
//! and the order in which components are brought up.

use vstd::prelude::*;

verus! {

/// One vertex of the dependency graph: the identity of a component and the
/// identities it names as its dependencies.
pub struct Node {
    pub id: Seq<char>,
    pub deps: Seq<Seq<char>>,
}

/// Vertex `i` names the identity of vertex `j` among its dependencies.
///
/// A dependency on an identity that no vertex carries relates to nothing.
pub open spec fn depends_on(g: Seq<Node>, i: int, j: int) -> bool {
    g[i].deps.contains(g[j].id)
}

/// The identities of the vertices, in the order of registration.
pub open spec fn identities(g: Seq<Node>) -> Seq<Seq<char>> {
    g.map_values(|v: Node| v.id)
}

/// No identity occurs twice in the list.
pub open spec fn distinct(ids: Seq<Seq<char>>) -> bool {
    forall|i: int, j: int| 0 <= i < j < ids.len() ==> #[trigger] ids[i] != #[trigger] ids[j]
}

/// The identity at position `j` occurs at an earlier position too.
pub open spec fn repeats(ids: Seq<Seq<char>>, j: int) -> bool {
    exists|i: int| 0 <= i < j && #[trigger] ids[i] == ids[j]
}

/// The least position at or after `from` whose identity occurs earlier;
/// `ids.len()` if there is none.
pub open spec fn first_repeat(ids: Seq<Seq<char>>, from: int) -> int
    decreases ids.len() - from,
{
    if from >= ids.len() {
        ids.len() as int
    } else if repeats(ids, from) {
        from
    } else {
        first_repeat(ids, from + 1)
    }
}

/// The vertex that follows position `k` on a closed path.
pub open spec fn successor(path: Seq<int>, k: int) -> int {
    if k + 1 < path.len() {
        path[k + 1]
    } else {
        path[0]
    }
}

/// `path` is a closed walk along dependency edges: every vertex on it depends
/// on the next one, and the last depends on the first.
pub open spec fn is_cycle(g: Seq<Node>, path: Seq<int>) -> bool {
    &&& path.len() > 0
    &&& forall|k: int| 0 <= k < path.len() ==> 0 <= #[trigger] path[k] < g.len()
    &&& forall|k: int|
        0 <= k < path.len() ==> depends_on(g, path[k], #[trigger] successor(path, k))
}

/// The vertex at position `k` of `chain` depends on the one after it.
pub open spec fn linked(g: Seq<Node>, chain: Seq<int>, k: int) -> bool {
    depends_on(g, chain[k], chain[k + 1])
}

/// `chain` is a chain of dependencies: every vertex on it depends on the
/// next one.
pub open spec fn is_chain(g: Seq<Node>, chain: Seq<int>) -> bool {
    &&& chain.len() > 0
    &&& forall|k: int| 0 <= k < chain.len() ==> 0 <= #[trigger] chain[k] < g.len()
    &&& forall|k: int| 0 <= k < chain.len() - 1 ==> #[trigger] linked(g, chain, k)
}

/// The graph has no cycle.
pub open spec fn acyclic(g: Seq<Node>) -> bool {
    forall|path: Seq<int>| !is_cycle(g, path)
}

/// Every vertex that `i` depends on is among `placed`.
pub open spec fn ready(g: Seq<Node>, placed: Seq<int>, i: int) -> bool {
    forall|j: int| 0 <= j < g.len() && #[trigger] depends_on(g, i, j) ==> placed.contains(j)
}

/// Vertex `i` can be placed next: it is not placed yet and is ready.
pub open spec fn eligible(g: Seq<Node>, placed: Seq<int>, i: int) -> bool {
    0 <= i < g.len() && !placed.contains(i) && ready(g, placed, i)
}

/// The least eligible vertex at or after `from`; `g.len()` if there is none.
pub open spec fn first_eligible(g: Seq<Node>, placed: Seq<int>, from: int) -> int
    decreases g.len() - from,
{
    if from >= g.len() {
        g.len() as int
    } else if eligible(g, placed, from) {
        from
    } else {
        first_eligible(g, placed, from + 1)
    }
}

/// `placed`, extended by the least eligible vertex again and again until
/// none is left.
pub open spec fn extend(g: Seq<Node>, placed: Seq<int>) -> Seq<int>
    decreases g.len() - placed.len(),
{
    let i = first_eligible(g, placed, 0);
    if placed.len() < g.len() && i < g.len() {
        extend(g, placed.push(i))
    } else {
        placed
    }
}

/// The order in which the vertices are brought up: at each step the vertex
/// registered earliest among those whose dependencies have all been placed.
/// Vertices that lie on a cycle, or depend on one, are left out.
pub open spec fn topological_order(g: Seq<Node>) -> Seq<int> {
    extend(g, Seq::empty())
}

/// The vertex at position `p` was ready when it was placed.
pub open spec fn placed_after_deps(g: Seq<Node>, placed: Seq<int>, p: int) -> bool {
    ready(g, placed.take(p), placed[p])
}

/// `placed` lists distinct vertices, each after everything it depends on.
pub open spec fn well_placed(g: Seq<Node>, placed: Seq<int>) -> bool {
    &&& placed.no_duplicates()
    &&& forall|p: int| 0 <= p < placed.len() ==> 0 <= #[trigger] placed[p] < g.len()
    &&& forall|p: int| 0 <= p < placed.len() ==> #[trigger] placed_after_deps(g, placed, p)
}

/// The vertices below `n` that `order` leaves out, ascending.
pub open spec fn left_out_below(order: Seq<int>, n: int) -> Seq<int>
    decreases n,
{
    if n <= 0 {
        Seq::empty()
    } else if order.contains(n - 1) {
        left_out_below(order, n - 1)
    } else {
        left_out_below(order, n - 1).push(n - 1)
    }
}

/// The vertices that `order` leaves out, in the order of registration.
pub open spec fn left_out(g: Seq<Node>, order: Seq<int>) -> Seq<int> {
    left_out_below(order, g.len() as int)
}

/// The least position at or after `from` that holds `id`; `ids.len()` if
/// there is none.
pub open spec fn position(ids: Seq<Seq<char>>, id: Seq<char>, from: int) -> int
    decreases ids.len() - from,
{
    if from >= ids.len() {
        ids.len() as int
    } else if ids[from] == id {
        from
    } else {
        position(ids, id, from + 1)
    }
}

/// The identities of the given vertices.
pub open spec fn ids_of(g: Seq<Node>, vertices: Seq<int>) -> Seq<Seq<char>> {
    vertices.map_values(|i: int| g[i].id)
}

/// What `first_repeat` returns: a position that repeats an earlier identity,
/// before which, from `from` on, none does; or the length of the list.
pub proof fn lemma_first_repeat(ids: Seq<Seq<char>>, from: int)
    requires
        0 <= from <= ids.len(),
    ensures
        from <= first_repeat(ids, from) <= ids.len(),
        first_repeat(ids, from) < ids.len() ==> repeats(ids, first_repeat(ids, from)),
        forall|j: int| from <= j < first_repeat(ids, from) ==> !#[trigger] repeats(ids, j),
    decreases ids.len() - from,
{
    if from < ids.len() && !repeats(ids, from) {
        lemma_first_repeat(ids, from + 1);
    }
}

/// The identities are distinct exactly when none repeats an earlier one.
pub proof fn lemma_distinct_iff_no_repeat(ids: Seq<Seq<char>>)
    ensures
        distinct(ids) <==> first_repeat(ids, 0) == ids.len(),
{
    lemma_first_repeat(ids, 0);
    if first_repeat(ids, 0) == ids.len() {
        assert forall|i: int, j: int| 0 <= i < j < ids.len() implies #[trigger] ids[i]
            != #[trigger] ids[j] by {
            assert(!repeats(ids, j));
        }
    }
}

/// The least position at or after `from` whose identity occurs earlier is
/// the one before which there is none.
pub proof fn lemma_first_repeat_is(ids: Seq<Seq<char>>, from: int, j: int)
    requires
        0 <= from <= j <= ids.len(),
        forall|q: int| from <= q < j ==> !#[trigger] repeats(ids, q),
        j < ids.len() ==> repeats(ids, j),
    ensures
        first_repeat(ids, from) == j,
    decreases j - from,
{
    if from < j {
        lemma_first_repeat_is(ids, from + 1, j);
    }
}

/// The least eligible vertex at or after `from` is the one before which none
/// is eligible.
pub proof fn lemma_first_eligible_is(g: Seq<Node>, placed: Seq<int>, from: int, i: int)
    requires
        0 <= from <= i <= g.len(),
        forall|q: int| from <= q < i ==> !#[trigger] eligible(g, placed, q),
        i < g.len() ==> eligible(g, placed, i),
    ensures
        first_eligible(g, placed, from) == i,
    decreases i - from,
{
    if from < i {
        lemma_first_eligible_is(g, placed, from + 1, i);
    }
}

/// What `first_eligible` returns: an eligible vertex before which, from
/// `from` on, none is eligible; or the number of vertices.
pub proof fn lemma_first_eligible(g: Seq<Node>, placed: Seq<int>, from: int)
    requires
        0 <= from <= g.len(),
    ensures
        from <= first_eligible(g, placed, from) <= g.len(),
        first_eligible(g, placed, from) < g.len() ==> eligible(
            g,
            placed,
            first_eligible(g, placed, from),
        ),
        forall|i: int|
            from <= i < first_eligible(g, placed, from) ==> !#[trigger] eligible(g, placed, i),
    decreases g.len() - from,
{
    if from < g.len() && !eligible(g, placed, from) {
        lemma_first_eligible(g, placed, from + 1);
    }
}

/// What is left out: exactly the vertices below `n` that are not in `order`.
pub proof fn lemma_left_out_below(order: Seq<int>, n: int, i: int)
    ensures
        left_out_below(order, n).contains(i) <==> 0 <= i < n && !order.contains(i),
    decreases n,
{
    if n > 0 {
        lemma_left_out_below(order, n - 1, i);
        let rest = left_out_below(order, n - 1);
        if !order.contains(n - 1) {
            let all = rest.push(n - 1);
            if rest.contains(i) {
                let q = choose|q: int| 0 <= q < rest.len() && rest[q] == i;
                assert(all[q] == i);
            }
            if i == n - 1 {
                assert(all[rest.len() as int] == i);
            }
        }
    }
}

/// Where `position` finds the identity and where it does not.
pub proof fn lemma_position(ids: Seq<Seq<char>>, id: Seq<char>, from: int)
    requires
        0 <= from <= ids.len(),
    ensures
        from <= position(ids, id, from) <= ids.len(),
        position(ids, id, from) < ids.len() ==> ids[position(ids, id, from)] == id,
        forall|q: int| from <= q < position(ids, id, from) ==> #[trigger] ids[q] != id,
    decreases ids.len() - from,
{
    if from < ids.len() && ids[from] != id {
        lemma_position(ids, id, from + 1);
    }
}

/// The least position at or after `from` that holds `id` is the one before
/// which none does.
pub proof fn lemma_position_is(ids: Seq<Seq<char>>, id: Seq<char>, from: int, i: int)
    requires
        0 <= from <= i <= ids.len(),
        forall|q: int| from <= q < i ==> #[trigger] ids[q] != id,
        i < ids.len() ==> ids[i] == id,
    ensures
        position(ids, id, from) == i,
    decreases i - from,
{
    if from < i {
        lemma_position_is(ids, id, from + 1, i);
    }
}

/// A list of distinct vertices is no longer than the graph, and one as long
/// as the graph holds every vertex.
pub proof fn lemma_well_placed_len(g: Seq<Node>, placed: Seq<int>)
    requires
        well_placed(g, placed),
    ensures
        placed.len() <= g.len(),
        placed.len() == g.len() ==> forall|i: int| 0 <= i < g.len() ==> placed.contains(i),
{
    let range = vstd::set_lib::set_int_range(0, g.len() as int);
    vstd::set_lib::lemma_int_range(0, g.len() as int);
    placed.unique_seq_to_set();
    assert(placed.to_set().subset_of(range)) by {
        assert forall|x: int| placed.to_set().contains(x) implies range.contains(x) by {
            let p = choose|p: int| 0 <= p < placed.len() && placed[p] == x;
            assert(0 <= placed[p] < g.len());
        }
    }
    vstd::set_lib::lemma_len_subset(placed.to_set(), range);
    if placed.len() == g.len() {
        vstd::set_lib::lemma_subset_equality(placed.to_set(), range);
        assert forall|i: int| 0 <= i < g.len() implies placed.contains(i) by {
            assert(range.contains(i));
            assert(placed.to_set().contains(i));
        }
    }
}

/// Placing an eligible vertex keeps a list well placed.
pub proof fn lemma_push_eligible(g: Seq<Node>, placed: Seq<int>, i: int)
    requires
        well_placed(g, placed),
        eligible(g, placed, i),
    ensures
        well_placed(g, placed.push(i)),
{
    let next = placed.push(i);
    assert forall|p: int| 0 <= p < next.len() implies #[trigger] placed_after_deps(g, next, p) by {
        if p < placed.len() {
            assert(next.take(p) =~= placed.take(p));
            assert(placed_after_deps(g, placed, p));
        } else {
            assert(next.take(p) =~= placed);
        }
    }
}

/// What `extend` returns: a well placed list that begins with `placed` and
/// that no further vertex can join.
pub proof fn lemma_extend(g: Seq<Node>, placed: Seq<int>)
    requires
        well_placed(g, placed),
    ensures
        well_placed(g, extend(g, placed)),
        placed.len() <= extend(g, placed).len() <= g.len(),
        extend(g, placed).take(placed.len() as int) =~= placed,
        forall|i: int| !#[trigger] eligible(g, extend(g, placed), i),
    decreases g.len() - placed.len(),
{
    lemma_well_placed_len(g, placed);
    lemma_first_eligible(g, placed, 0);
    let i = first_eligible(g, placed, 0);
    if placed.len() < g.len() && i < g.len() {
        let next = placed.push(i);
        lemma_push_eligible(g, placed, i);
        lemma_extend(g, next);
        assert(extend(g, next).take(placed.len() as int) =~= extend(g, next).take(
            next.len() as int,
        ).take(placed.len() as int));
    }
}

/// Every vertex that `extend` adds is the least eligible one at the time.
pub proof fn lemma_extend_takes_earliest(g: Seq<Node>, placed: Seq<int>, k: int)
    requires
        well_placed(g, placed),
        placed.len() <= k < extend(g, placed).len(),
    ensures
        extend(g, placed)[k] == first_eligible(g, extend(g, placed).take(k), 0),
    decreases g.len() - placed.len(),
{
    let i = first_eligible(g, placed, 0);
    lemma_first_eligible(g, placed, 0);
    if placed.len() < g.len() && i < g.len() {
        let next = placed.push(i);
        let all = extend(g, placed);
        lemma_push_eligible(g, placed, i);
        lemma_extend(g, next);
        assert(all.take(next.len() as int) =~= next);
        if k == placed.len() {
            assert(all[k] == all.take(next.len() as int)[k]);
            assert(all.take(k) =~= all.take(next.len() as int).take(k));
            assert(next.take(k) =~= placed);
        } else {
            lemma_extend_takes_earliest(g, next, k);
        }
    }
}

/// No vertex of a cycle occurs among the first `p` vertices of a well placed
/// list.
pub proof fn lemma_cycle_not_among(g: Seq<Node>, placed: Seq<int>, path: Seq<int>, p: int)
    requires
        well_placed(g, placed),
        is_cycle(g, path),
        0 <= p <= placed.len(),
    ensures
        forall|q: int, k: int| 0 <= q < p && 0 <= k < path.len() ==> placed[q] != path[k],
    decreases p,
{
    if p > 0 {
        lemma_cycle_not_among(g, placed, path, p - 1);
        assert forall|k: int| 0 <= k < path.len() implies placed[p - 1] != path[k] by {
            if placed[p - 1] == path[k] {
                let next = successor(path, k);
                let k2 = if k + 1 < path.len() {
                    k + 1
                } else {
                    0
                };
                assert(next == path[k2]);
                assert(depends_on(g, path[k], next));
                assert(placed_after_deps(g, placed, p - 1));
                let before = placed.take(p - 1);
                assert(before.contains(next));
                let q = choose|q: int| 0 <= q < before.len() && before[q] == next;
                assert(placed[q] == path[k2]);
            }
        }
    }
}

/// Some dependency of `at` that is not placed; where `at` is not placed and
/// nothing is eligible, there is one.
pub open spec fn blocker(g: Seq<Node>, placed: Seq<int>, at: int) -> int {
    choose|j: int| 0 <= j < g.len() && #[trigger] depends_on(g, at, j) && !placed.contains(j)
}

/// The vertex reached from `start` after `k` steps, each step going to a
/// dependency that is not placed.
pub open spec fn walk(g: Seq<Node>, placed: Seq<int>, start: int, k: nat) -> int
    decreases k,
{
    if k == 0 {
        start
    } else {
        blocker(g, placed, walk(g, placed, start, (k - 1) as nat))
    }
}

/// A vertex that is neither placed nor eligible has a blocker: a dependency
/// that is not placed.
pub proof fn lemma_blocker(g: Seq<Node>, placed: Seq<int>, at: int)
    requires
        0 <= at < g.len(),
        !placed.contains(at),
        !eligible(g, placed, at),
    ensures
        0 <= blocker(g, placed, at) < g.len(),
        depends_on(g, at, blocker(g, placed, at)),
        !placed.contains(blocker(g, placed, at)),
{
    assert(!ready(g, placed, at));
}

/// Where nothing is eligible, a walk that starts at a vertex outside `placed`
/// stays outside `placed`, and each of its steps follows a dependency.
pub proof fn lemma_walk(g: Seq<Node>, placed: Seq<int>, start: int, k: nat)
    requires
        0 <= start < g.len(),
        !placed.contains(start),
        forall|i: int| !#[trigger] eligible(g, placed, i),
    ensures
        0 <= walk(g, placed, start, k) < g.len(),
        !placed.contains(walk(g, placed, start, k)),
        depends_on(g, walk(g, placed, start, k), walk(g, placed, start, k + 1)),
    decreases k,
{
    if k > 0 {
        lemma_walk(g, placed, start, (k - 1) as nat);
        lemma_blocker(g, placed, walk(g, placed, start, (k - 1) as nat));
    }
    lemma_blocker(g, placed, walk(g, placed, start, k));
}

/// Where nothing is eligible, a vertex that is not placed lies on a cycle or
/// depends on one: a chain of dependencies leads from it to a cycle, and
/// neither holds a vertex that is placed.
pub proof fn lemma_unplaced_leads_to_cycle(g: Seq<Node>, placed: Seq<int>, start: int) -> (found: (
    Seq<int>,
    Seq<int>,
))
    requires
        0 <= start < g.len(),
        !placed.contains(start),
        forall|i: int| !#[trigger] eligible(g, placed, i),
    ensures
        is_chain(g, found.0),
        found.0[0] == start,
        is_cycle(g, found.1),
        found.0.last() == found.1[0],
        forall|k: int| 0 <= k < found.1.len() ==> !placed.contains(#[trigger] found.1[k]),
{
    let n = g.len() as int;
    let range = vstd::set_lib::set_int_range(0, n);
    vstd::set_lib::lemma_int_range(0, n);
    // a walk of n + 1 vertices visits one of them twice
    let w = Seq::new((n + 1) as nat, |k: int| walk(g, placed, start, k as nat));
    assert forall|k: int| 0 <= k < w.len() implies 0 <= #[trigger] w[k] < n && !placed.contains(
        w[k],
    ) && depends_on(g, w[k], walk(g, placed, start, (k + 1) as nat)) by {
        lemma_walk(g, placed, start, k as nat);
    }
    assert(!w.no_duplicates()) by {
        if w.no_duplicates() {
            w.unique_seq_to_set();
            assert(w.to_set().subset_of(range)) by {
                assert forall|x: int| w.to_set().contains(x) implies range.contains(x) by {
                    let k = choose|k: int| 0 <= k < w.len() && w[k] == x;
                    assert(0 <= w[k] < n);
                }
            }
            vstd::set_lib::lemma_len_subset(w.to_set(), range);
        }
    }
    let (a, b) = choose|a: int, b: int| 0 <= a < w.len() && 0 <= b < w.len() && a != b && w[a] == w[b];
    let lo = if a < b {
        a
    } else {
        b
    };
    let hi = if a < b {
        b
    } else {
        a
    };
    // the walk up to the first visit is the chain, from there to the second the cycle
    let chain = w.subrange(0, lo + 1);
    let path = w.subrange(lo, hi);
    assert forall|k: int| 0 <= k < path.len() implies depends_on(
        g,
        path[k],
        #[trigger] successor(path, k),
    ) by {
        assert(path[k] == w[lo + k]);
        assert(depends_on(g, w[lo + k], walk(g, placed, start, (lo + k + 1) as nat)));
        if k + 1 < path.len() {
            assert(path[k + 1] == w[lo + k + 1]);
        } else {
            assert(walk(g, placed, start, (lo + k + 1) as nat) == w[hi]);
            assert(path[0] == w[lo]);
        }
    }
    assert forall|k: int| 0 <= k < path.len() implies 0 <= #[trigger] path[k] < g.len()
        && !placed.contains(path[k]) by {
        assert(path[k] == w[lo + k]);
    }
    assert forall|k: int| 0 <= k < chain.len() - 1 implies #[trigger] linked(g, chain, k) by {
        assert(chain[k] == w[k]);
        assert(chain[k + 1] == w[k + 1]);
        assert(depends_on(g, w[k], walk(g, placed, start, (k + 1) as nat)));
    }
    assert forall|k: int| 0 <= k < chain.len() implies 0 <= #[trigger] chain[k] < g.len() by {
        assert(chain[k] == w[k]);
    }
    assert(chain[0] == w[0]);
    assert(chain.last() == w[lo]);
    (chain, path)
}

/// Where some vertex is not placed and none is eligible, the vertices that
/// are not placed hold a cycle.
pub proof fn lemma_stuck_has_cycle(g: Seq<Node>, placed: Seq<int>) -> (path: Seq<int>)
    requires
        well_placed(g, placed),
        placed.len() < g.len(),
        forall|i: int| !#[trigger] eligible(g, placed, i),
    ensures
        is_cycle(g, path),
        forall|k: int| 0 <= k < path.len() ==> !placed.contains(#[trigger] path[k]),
{
    let n = g.len() as int;
    let range = vstd::set_lib::set_int_range(0, n);
    vstd::set_lib::lemma_int_range(0, n);
    // some vertex is not placed
    placed.lemma_cardinality_of_set();
    let start = choose|i: int| 0 <= i < n && !placed.contains(i);
    assert(0 <= start < n && !placed.contains(start)) by {
        if forall|i: int| 0 <= i < n ==> placed.contains(i) {
            assert(range.subset_of(placed.to_set()));
            vstd::set_lib::lemma_len_subset(range, placed.to_set());
        }
    }
    lemma_unplaced_leads_to_cycle(g, placed, start).1
}

/// The order lists distinct vertices, each after everything it depends on,
/// and no vertex that it leaves out could be placed after it.
pub proof fn lemma_order_well_placed(g: Seq<Node>)
    ensures
        well_placed(g, topological_order(g)),
        topological_order(g).len() <= g.len(),
        forall|i: int| !#[trigger] eligible(g, topological_order(g), i),
{
    lemma_extend(g, Seq::empty());
}

/// In the order, a vertex stands after every vertex it depends on.
pub proof fn lemma_order_respects_dependencies(g: Seq<Node>, a: int, b: int)
    requires
        0 <= a < topological_order(g).len(),
        0 <= b < topological_order(g).len(),
        depends_on(g, topological_order(g)[a], topological_order(g)[b]),
    ensures
        b < a,
{
    let order = topological_order(g);
    lemma_order_well_placed(g);
    assert(placed_after_deps(g, order, a));
    assert(0 <= order[b] < g.len());
    let before = order.take(a);
    assert(before.contains(order[b]));
    let q = choose|q: int| 0 <= q < before.len() && before[q] == order[b];
    assert(order[q] == order[b]);
}

/// Ties are broken by registration: the vertex at each position of the order
/// is eligible after the vertices before it, and no vertex registered
/// earlier is.
pub proof fn lemma_order_takes_earliest(g: Seq<Node>, k: int)
    requires
        0 <= k < topological_order(g).len(),
    ensures
        eligible(g, topological_order(g).take(k), topological_order(g)[k]),
        forall|i: int|
            0 <= i < topological_order(g)[k] ==> !#[trigger] eligible(
                g,
                topological_order(g).take(k),
                i,
            ),
{
    let order = topological_order(g);
    lemma_extend_takes_earliest(g, Seq::empty(), k);
    lemma_first_eligible(g, order.take(k), 0);
    lemma_order_well_placed(g);
}

/// No vertex of a cycle is in the order.
pub proof fn lemma_cycle_is_left_out(g: Seq<Node>, path: Seq<int>, k: int)
    requires
        is_cycle(g, path),
        0 <= k < path.len(),
    ensures
        !topological_order(g).contains(path[k]),
{
    let order = topological_order(g);
    lemma_order_well_placed(g);
    lemma_cycle_not_among(g, order, path, order.len() as int);
}

/// A vertex that the order leaves out lies on a cycle or depends on one: a
/// chain of dependencies leads from it to a cycle.
pub proof fn lemma_left_out_leads_to_cycle(g: Seq<Node>, v: int) -> (found: (Seq<int>, Seq<int>))
    requires
        0 <= v < g.len(),
        !topological_order(g).contains(v),
    ensures
        is_chain(g, found.0),
        found.0[0] == v,
        is_cycle(g, found.1),
        found.0.last() == found.1[0],
{
    lemma_order_well_placed(g);
    lemma_unplaced_leads_to_cycle(g, topological_order(g), v)
}

/// The order holds every vertex exactly when the graph has no cycle.
pub proof fn lemma_complete_iff_acyclic(g: Seq<Node>)
    ensures
        topological_order(g).len() == g.len() <==> acyclic(g),
{
    let order = topological_order(g);
    lemma_order_well_placed(g);
    lemma_well_placed_len(g, order);
    if order.len() == g.len() {
        assert forall|path: Seq<int>| !is_cycle(g, path) by {
            if is_cycle(g, path) {
                lemma_cycle_is_left_out(g, path, 0);
                assert(0 <= path[0] < g.len());
            }
        }
    } else {
        let path = lemma_stuck_has_cycle(g, order);
        assert(is_cycle(g, path));
    }
}

} // verus!
