//! The component registry: the components of an application under their
//! identities, and the order in which they are initialised and shut down.

use vstd::prelude::*;
use crate::component::name::{names, Name};
use crate::component::Component;
use crate::error::{error_views, ErrorView, FrameworkError};
use crate::graph::{
    acyclic, depends_on, distinct, first_repeat, identities, ids_of, is_chain, is_cycle,
    lemma_complete_iff_acyclic, lemma_cycle_is_left_out, lemma_distinct_iff_no_repeat,
    lemma_first_repeat, lemma_left_out_below, lemma_left_out_leads_to_cycle, lemma_order_respects_dependencies,
    lemma_order_well_placed, lemma_position_is, lemma_well_placed_len, left_out, left_out_below,
    position, repeats, topological_order, Node,
};
use crate::order::{find_duplicate, graph_of, indices, sort};

verus! {

/// A component together with what it declares of itself: its identity and
/// the identities of the components it depends on.
pub struct Entry<C> {
    pub id: Name,
    pub dependencies: Vec<Name>,
    pub component: C,
}

/// The two lifecycle hooks of a component.
pub enum Hook {
    AfterConfig,
    BeforeShutdown,
}

/// One invocation of a hook: which hook, on which component (by its position
/// in the registry), and what the hook returned.
pub struct Call {
    pub hook: Hook,
    pub vertex: int,
    pub outcome: Result<(), String>,
}

/// The components of an application, in the order of registration, with the
/// order in which their hooks are invoked.
pub struct Registry<C> {
    ids: Vec<Name>,
    deps: Vec<Vec<Name>>,
    components: Vec<C>,
    order: Vec<usize>,
    history: Ghost<Seq<Call>>,
}

/// The vertices that a list of entries declares.
pub open spec fn declared<C>(entries: Seq<Entry<C>>) -> Seq<Node> {
    Seq::new(entries.len(), |i: int| Node { id: entries[i].id@, deps: names(entries[i].dependencies@) })
}

/// The components that a list of entries holds.
pub open spec fn payload<C>(entries: Seq<Entry<C>>) -> Seq<C> {
    entries.map_values(|e: Entry<C>| e.component)
}

/// Whether a set of declared components is accepted, and the error if not:
/// the first component that repeats an earlier identity; else, if the
/// dependencies hold a cycle, the identities of the components that cannot
/// be ordered, in the order of registration.
pub open spec fn registration(g: Seq<Node>) -> Result<(), ErrorView> {
    let ids = identities(g);
    let order = topological_order(g);
    if first_repeat(ids, 0) < ids.len() {
        Err(ErrorView::DuplicateComponent(ids[first_repeat(ids, 0)]))
    } else if order.len() < g.len() {
        Err(ErrorView::CyclicDependency(ids_of(g, left_out(g, order))))
    } else {
        Ok(())
    }
}

/// The vertices on which a list of calls was made, in the order of the calls.
pub open spec fn vertices(calls: Seq<Call>) -> Seq<int> {
    calls.map_values(|c: Call| c.vertex)
}

/// The names of the components that `order` leaves out, in the order of
/// registration.
fn left_out_names(ids: &Vec<Name>, order: &Vec<usize>, Ghost(g): Ghost<Seq<Node>>) -> (r: Vec<Name>)
    requires
        g.len() == ids.len(),
        identities(g) == names(ids@),
    ensures
        names(r@) == ids_of(g, left_out(g, indices(order@))),
{
    let ghost placed = indices(order@);
    let mut out: Vec<Name> = Vec::new();
    let mut i: usize = 0;
    while i < ids.len()
        invariant
            i <= ids.len(),
            g.len() == ids.len(),
            identities(g) == names(ids@),
            placed == indices(order@),
            names(out@) == ids_of(g, left_out_below(placed, i as int)),
        decreases ids.len() - i,
    {
        let mut found = false;
        let mut k: usize = 0;
        while k < order.len()
            invariant
                k <= order.len(),
                placed == indices(order@),
                found == exists|q: int| 0 <= q < k && placed[q] == i,
            decreases order.len() - k,
        {
            if order[k] == i {
                assert(placed[k as int] == i);
                found = true;
            }
            k += 1;
        }
        if !found {
            let ghost earlier = out@;
            out.push(ids[i]);
            proof {
                assert(identities(g)[i as int] == names(ids@)[i as int]);
                assert(names(out@) =~= names(earlier).push(ids@[i as int]@));
            }
        }
        i += 1;
    }
    out
}

impl<C> Registry<C> {
    /// The dependency graph that the registered components declare.
    pub closed spec fn graph(&self) -> Seq<Node> {
        graph_of(self.ids@, self.deps@)
    }

    /// The registered components, in the order of registration.
    pub closed spec fn components(&self) -> Seq<C> {
        self.components@
    }

    /// The order in which `after_config` goes round: positions in the order
    /// of registration.
    pub closed spec fn broadcast_order(&self) -> Seq<int> {
        indices(self.order@)
    }

    /// The order in which `before_shutdown` goes round.
    pub open spec fn shutdown_order(&self) -> Seq<int> {
        self.broadcast_order().reverse()
    }

    /// Every hook that this registry has invoked, oldest first, with what
    /// each returned. The registry keeps this record as it makes the calls;
    /// the contracts of the broadcasts say of each recorded call that the
    /// component went through its hook with that result.
    pub closed spec fn history(&self) -> Seq<Call> {
        self.history@
    }

    /// The registry is well formed: it holds one component per declared
    /// vertex, the identities are distinct, the dependencies hold no cycle,
    /// and the broadcast order is the topological order of the graph.
    pub closed spec fn wf(&self) -> bool {
        &&& self.ids.len() == self.deps.len()
        &&& self.ids.len() == self.components.len()
        &&& registration(self.graph()) is Ok
        &&& self.broadcast_order() == topological_order(self.graph())
    }

    /// What well-formedness says in terms of the graph.
    pub proof fn lemma_wf(&self)
        requires
            self.wf(),
        ensures
            self.components().len() == self.graph().len(),
            registration(self.graph()) is Ok,
            self.broadcast_order() == topological_order(self.graph()),
            self.broadcast_order().len() == self.graph().len(),
    {
        lemma_order_well_placed(self.graph());
    }

    /// The stored order is a list of distinct positions, one per component.
    proof fn lemma_order_bounds(&self)
        requires
            self.wf(),
        ensures
            self.order@.len() == self.ids@.len(),
            self.ids@.len() == self.graph().len(),
            indices(self.order@).no_duplicates(),
            forall|p: int|
                0 <= p < self.order@.len() ==> (#[trigger] self.order@[p]) < self.ids@.len(),
    {
        let g = self.graph();
        lemma_order_well_placed(g);
        assert forall|p: int| 0 <= p < self.order@.len() implies (#[trigger] self.order@[p])
            < self.ids@.len() by {
            assert(indices(self.order@)[p] == self.order@[p]);
        }
    }

    /// An empty registry.
    pub fn new() -> (r: Self)
        ensures
            r.wf(),
            r.graph() == Seq::<Node>::empty(),
            r.components() == Seq::<C>::empty(),
            r.history() == Seq::<Call>::empty(),
    {
        let r = Registry {
            ids: Vec::new(),
            deps: Vec::new(),
            components: Vec::new(),
            order: Vec::new(),
            history: Ghost(Seq::empty()),
        };
        proof {
            let g = graph_of(r.ids@, r.deps@);
            assert(indices(r.order@) =~= Seq::<int>::empty());
            lemma_order_well_placed(g);
        }
        r
    }

    /// The number of registered components.
    pub fn len(&self) -> (r: usize)
        ensures
            r == self.components().len(),
    {
        self.components.len()
    }

    /// Whether no component is registered.
    pub fn is_empty(&self) -> (r: bool)
        ensures
            r == (self.components().len() == 0),
    {
        self.components.len() == 0
    }

    /// What `register_entries` does to a registry: on success the entries are
    /// appended; on failure nothing changes. Whether it succeeds is decided
    /// by the graph of the old and the new components together. No hook is
    /// invoked either way.
    pub open spec fn registered(
        pre: Self,
        entries: Seq<Entry<C>>,
        post: Self,
        r: Result<(), FrameworkError>,
    ) -> bool {
        let all = pre.graph() + declared(entries);
        &&& post.history() == pre.history()
        &&& match r {
            Ok(()) => {
                &&& registration(all) is Ok
                &&& post.graph() == all
                &&& post.components() == pre.components() + payload(entries)
            },
            Err(e) => {
                &&& registration(all) == Err::<(), ErrorView>(e@)
                &&& post.graph() == pre.graph()
                &&& post.components() == pre.components()
                &&& post.broadcast_order() == pre.broadcast_order()
            },
        }
    }

    /// Adds the given components, each under the identity and with the
    /// dependencies that its entry declares.
    ///
    /// Fails, leaving the registry as it was, if an identity would occur
    /// twice or if the dependencies would hold a cycle.
    pub fn register_entries(&mut self, entries: Vec<Entry<C>>) -> (r: Result<(), FrameworkError>)
        requires
            old(self).wf(),
        ensures
            final(self).wf(),
            Self::registered(*old(self), entries@, *final(self), r),
    {
        let old_len = self.ids.len();
        let ghost all = old(self).graph() + declared(entries@);
        let ghost given = entries@;
        for entry in it: entries
            invariant
                it.seq() == given,
                old_len == old(self).ids.len(),
                self.ids.len() == old_len + it.index(),
                self.deps.len() == self.ids.len(),
                self.components.len() == self.ids.len(),
                self.order == old(self).order,
                self.history == old(self).history,
                self.ids@.take(old_len as int) == old(self).ids@,
                self.deps@.take(old_len as int) == old(self).deps@,
                self.components@.take(old_len as int) == old(self).components@,
                forall|i: int|
                    0 <= i < it.index() ==> self.ids@[old_len + i] == (#[trigger] given[i]).id,
                forall|i: int|
                    0 <= i < it.index() ==> self.deps@[old_len + i] == (
                    #[trigger] given[i]).dependencies,
                forall|i: int|
                    0 <= i < it.index() ==> self.components@[old_len + i] == (
                    #[trigger] given[i]).component,
        {
            let Entry { id, dependencies, component } = entry;
            let ghost before_components = self.components@;
            self.ids.push(id);
            self.deps.push(dependencies);
            self.components.push(component);
            proof {
                assert(self.components@.take(old_len as int) =~= before_components.take(
                    old_len as int,
                ));
            }
        }
        proof {
            let g = graph_of(self.ids@, self.deps@);
            assert forall|i: int| 0 <= i < g.len() implies g[i] == all[i] by {}
            assert(g =~= all);
            assert(self.components@ =~= old(self).components@ + payload(given));
            assert(identities(all) =~= names(self.ids@));
        }
        match find_duplicate(&self.ids) {
            Some(j) => {
                let name = self.ids[j];
                self.ids.truncate(old_len);
                self.deps.truncate(old_len);
                self.components.truncate(old_len);
                return Err(FrameworkError::DuplicateComponent(name));
            },
            None => {},
        }
        let order = sort(&self.ids, &self.deps);
        proof {
            lemma_order_well_placed(all);
        }
        if order.len() < self.ids.len() {
            let left = left_out_names(&self.ids, &order, Ghost(all));
            self.ids.truncate(old_len);
            self.deps.truncate(old_len);
            self.components.truncate(old_len);
            return Err(FrameworkError::CyclicDependency(left));
        }
        self.order = order;
        Ok(())
    }
}

/// What the last hook of a round of `after_config` returned, as the result
/// of the round tells it: the cause of the failure that ended the round, or
/// success.
pub open spec fn last_outcome(r: Result<(), FrameworkError>) -> Result<(), String> {
    match r {
        Err(FrameworkError::ComponentInitError(_, cause)) => Err(cause),
        _ => Ok(()),
    }
}

/// What the hook at position `p` of a round of `after_config` returned, in
/// a round that invoked `m` hooks and ended with `r`: every hook before the
/// last one succeeded.
pub open spec fn hook_outcome(r: Result<(), FrameworkError>, p: int, m: int) -> Result<(), String> {
    if p == m - 1 {
        last_outcome(r)
    } else {
        Ok(())
    }
}

/// The calls that a round of `after_config` makes when it invokes `m` hooks
/// and ends with `r`: on the first `m` components of `order`, in that order.
pub open spec fn init_calls(order: Seq<int>, m: int, r: Result<(), FrameworkError>) -> Seq<Call> {
    Seq::new(
        m as nat,
        |p: int| Call { hook: Hook::AfterConfig, vertex: order[p], outcome: hook_outcome(r, p, m) },
    )
}

/// The errors that a list of shutdown calls gives rise to: one for each call
/// that failed, in the order of the calls.
pub open spec fn shutdown_errors(g: Seq<Node>, calls: Seq<Call>) -> Seq<ErrorView>
    decreases calls.len(),
{
    if calls.len() == 0 {
        Seq::empty()
    } else {
        let rest = shutdown_errors(g, calls.drop_last());
        match calls.last().outcome {
            Err(cause) => rest.push(
                ErrorView::ComponentShutdownError(g[calls.last().vertex].id, cause@),
            ),
            Ok(_) => rest,
        }
    }
}

/// Invokes `after_config` on the component at position `i`: that component
/// goes through one call of its hook with `config`, whose result is
/// returned; the others stay as they are.
pub fn after_config_at<C: Component>(components: &mut Vec<C>, i: usize, config: &C::Config) -> (r:
    Result<(), String>)
    requires
        i < old(components).len(),
    ensures
        final(components)@.len() == old(components)@.len(),
        forall|j: int|
            0 <= j < old(components)@.len() && j != i ==> final(components)@[j] == old(components)@[j],
        exists|h: &mut C|
            mut_ref_current(h) == old(components)@[i as int] && mut_ref_future(h) == final(components)@[i as int] && #[trigger] call_ensures(C::after_config, (h, config), r),
{
    components[i].after_config(config)
}

/// Invokes `before_shutdown` on the component at position `i`: that
/// component goes through one call of its hook, whose result is returned;
/// the others stay as they are.
pub fn before_shutdown_at<C: Component>(components: &mut Vec<C>, i: usize) -> (r: Result<
    (),
    String,
>)
    requires
        i < old(components).len(),
    ensures
        final(components)@.len() == old(components)@.len(),
        forall|j: int|
            0 <= j < old(components)@.len() && j != i ==> final(components)@[j] == old(components)@[j],
        exists|h: &mut C|
            mut_ref_current(h) == old(components)@[i as int] && mut_ref_future(h) == final(components)@[i as int] && #[trigger] call_ensures(C::before_shutdown, (h,), r),
{
    components[i].before_shutdown()
}

impl<C> Registry<C> {
    /// The position of the component registered under `id`; the number of
    /// components if there is none.
    fn find(&self, id: &Name) -> (r: usize)
        requires
            self.wf(),
        ensures
            r == position(identities(self.graph()), id@, 0),
            r <= self.components().len(),
    {
        let ghost ids = identities(self.graph());
        let mut i: usize = 0;
        while i < self.ids.len()
            invariant
                i <= self.ids.len(),
                self.wf(),
                ids == identities(self.graph()),
                forall|q: int| 0 <= q < i ==> #[trigger] ids[q] != id@,
            decreases self.ids.len() - i,
        {
            if self.ids[i].same(id) {
                proof {
                    lemma_position_is(ids, id@, 0, i as int);
                }
                return i;
            }
            i += 1;
        }
        proof {
            lemma_position_is(ids, id@, 0, i as int);
        }
        i
    }

    /// The component registered under `id`, if there is one.
    pub fn get(&self, id: &Name) -> (r: Option<&C>)
        requires
            self.wf(),
        ensures
            ({
                let i = position(identities(self.graph()), id@, 0);
                match r {
                    Some(c) => i < self.components().len() && *c == self.components()[i],
                    None => i == self.components().len(),
                }
            }),
    {
        let i = self.find(id);
        if i < self.components.len() {
            Some(&self.components[i])
        } else {
            None
        }
    }

    /// The component registered under `id`, if there is one, for changing it.
    /// Nothing else of the registry changes.
    pub fn get_mut(&mut self, id: &Name) -> (r: Option<&mut C>)
        requires
            old(self).wf(),
        ensures
            final(self).wf(),
            final(self).graph() == old(self).graph(),
            final(self).broadcast_order() == old(self).broadcast_order(),
            final(self).history() == old(self).history(),
            ({
                let i = position(identities(old(self).graph()), id@, 0);
                match r {
                    Some(c) => {
                        &&& i < old(self).components().len()
                        &&& *c == old(self).components()[i]
                        &&& final(self).components() == old(self).components().update(
                            i,
                            *final(c),
                        )
                    },
                    None => {
                        &&& i == old(self).components().len()
                        &&& final(self).components() == old(self).components()
                    },
                }
            }),
    {
        let i = self.find(id);
        if i < self.components.len() {
            Some(&mut self.components[i])
        } else {
            None
        }
    }

    /// The identities of the registered components, in the order of
    /// registration.
    pub fn ids(&self) -> (r: Vec<Name>)
        ensures
            names(r@) == identities(self.graph()),
    {
        let mut out: Vec<Name> = Vec::new();
        let mut i: usize = 0;
        while i < self.ids.len()
            invariant
                i <= self.ids.len(),
                out.len() == i,
                forall|q: int| 0 <= q < i ==> out@[q] == self.ids@[q],
            decreases self.ids.len() - i,
        {
            out.push(self.ids[i]);
            i += 1;
        }
        out
    }

    /// The identities of the registered components, in the order in which
    /// `after_config` reaches them.
    pub fn order(&self) -> (r: Vec<Name>)
        requires
            self.wf(),
        ensures
            names(r@) == ids_of(self.graph(), self.broadcast_order()),
    {
        proof {
            self.lemma_order_bounds();
        }
        let mut out: Vec<Name> = Vec::new();
        let mut k: usize = 0;
        while k < self.order.len()
            invariant
                k <= self.order.len(),
                out.len() == k,
                self.ids.len() == self.graph().len(),
                forall|p: int|
                    0 <= p < self.order@.len() ==> (#[trigger] self.order@[p]) < self.ids@.len(),
                forall|q: int| 0 <= q < k ==> out@[q] == self.ids@[self.order@[q] as int],
            decreases self.order.len() - k,
        {
            out.push(self.ids[self.order[k]]);
            k += 1;
        }
        out
    }
}

/// The entries hold the given components, each with an identity that its
/// `id` can return and a list of dependencies that its `dependencies` can
/// return.
pub open spec fn reported<C: Component>(components: Seq<C>, entries: Seq<Entry<C>>) -> bool {
    &&& entries.len() == components.len()
    &&& payload(entries) == components
    &&& forall|i: int|
        0 <= i < entries.len() ==> call_ensures(C::id, (&components[i],), (#[trigger] entries[i]).id)
            && call_ensures(C::dependencies, (&components[i],), entries[i].dependencies)
}

/// Asks each component for its identity and its dependencies: each entry
/// holds its component with what the component returned.
pub fn describe<C: Component>(components: Vec<C>) -> (entries: Vec<Entry<C>>)
    ensures
        reported(components@, entries@),
{
    let ghost given = components@;
    let mut entries: Vec<Entry<C>> = Vec::new();
    for component in it: components
        invariant
            it.seq() == given,
            entries.len() == it.index(),
            forall|i: int|
                0 <= i < it.index() ==> (#[trigger] entries@[i]).component == given[i]
                    && call_ensures(C::id, (&given[i],), entries@[i].id) && call_ensures(
                    C::dependencies,
                    (&given[i],),
                    entries@[i].dependencies,
                ),
    {
        let id = component.id();
        let dependencies = component.dependencies();
        entries.push(Entry { id, dependencies, component });
    }
    assert(payload(entries@) =~= given);
    entries
}

impl<C: Component> Registry<C> {
    /// Adds the given components, each under the identity and with the
    /// dependencies that it reports of itself: there are entries that hold
    /// the components with what their `id` and `dependencies` returned, and
    /// the outcome is that of `register_entries` on them.
    ///
    /// Fails, leaving the registry as it was, if an identity would occur
    /// twice or if the dependencies would hold a cycle. No hook is invoked.
    pub fn register(&mut self, components: Vec<C>) -> (r: Result<(), FrameworkError>)
        requires
            old(self).wf(),
        ensures
            final(self).wf(),
            exists|entries: Seq<Entry<C>>|
                reported(components@, entries) && #[trigger] Self::registered(
                    *old(self),
                    entries,
                    *final(self),
                    r,
                ),
    {
        let entries = describe(components);
        self.register_entries(entries)
    }

    /// Invokes `after_config` with `config` on the components, each after
    /// the components it depends on. The first failure ends the round: it is
    /// returned with the identity of the component that failed and the cause
    /// that its hook gave, and the components after it in the order are not
    /// touched. Each component before it, and the failing one, has gone
    /// through exactly one call of its hook.
    pub fn broadcast_after_config(&mut self, config: &C::Config) -> (r: Result<(), FrameworkError>)
        requires
            old(self).wf(),
        ensures
            final(self).wf(),
            final(self).graph() == old(self).graph(),
            final(self).broadcast_order() == old(self).broadcast_order(),
            final(self).components().len() == old(self).components().len(),
            ({
                let order = old(self).broadcast_order();
                let m = final(self).history().len() - old(self).history().len();
                &&& 0 <= m <= order.len()
                &&& final(self).history() == old(self).history() + init_calls(order, m, r)
                &&& match r {
                    Ok(()) => m == order.len(),
                    Err(e) => {
                        &&& m >= 1
                        &&& e matches FrameworkError::ComponentInitError(id, _)
                        &&& id@ == old(self).graph()[order[m - 1]].id
                    },
                }
                &&& forall|p: int|
                    0 <= p < m ==> 0 <= #[trigger] order[p] < old(self).components().len() && exists|h: &mut C|
                        #![trigger call_ensures(C::after_config, (h, config), hook_outcome(r, p, m))]
                        mut_ref_current(h) == old(self).components()[order[p]] && mut_ref_future(h) == final(self).components()[order[p]]
                            && call_ensures(C::after_config, (h, config), hook_outcome(r, p, m))
                &&& forall|j: int|
                    m <= j < order.len() ==> final(self).components()[#[trigger] order[j]] == old(
                        self,
                    ).components()[order[j]]
            }),
    {
        proof {
            self.lemma_order_bounds();
        }
        let ghost order = indices(self.order@);
        let ghost g = self.graph();
        let n = self.order.len();
        let mut k: usize = 0;
        while k < n
            invariant
                k <= n,
                n == self.order@.len(),
                self.ids == old(self).ids,
                self.deps == old(self).deps,
                self.order == old(self).order,
                self.components@.len() == old(self).components@.len(),
                old(self).wf(),
                g == old(self).graph(),
                order == indices(self.order@),
                order.no_duplicates(),
                self.ids@.len() == self.components@.len(),
                self.ids@.len() == g.len(),
                forall|p: int|
                    0 <= p < self.order@.len() ==> (#[trigger] self.order@[p]) < self.ids@.len(),
                self.history@ == old(self).history@ + init_calls(
                    order,
                    k as int,
                    Ok::<(), FrameworkError>(()),
                ),
                forall|p: int|
                    0 <= p < k ==> 0 <= #[trigger] order[p] < old(self).components@.len() && exists|h: &mut C|
                        #![trigger call_ensures(C::after_config, (h, config), Ok::<(), String>(()))]
                        mut_ref_current(h) == old(self).components@[order[p]] && mut_ref_future(h) == self.components@[order[p]]
                            && call_ensures(C::after_config, (h, config), Ok::<(), String>(())),
                forall|j: int|
                    k <= j < n ==> self.components@[#[trigger] order[j]] == old(
                        self,
                    ).components@[order[j]],
            decreases n - k,
        {
            let idx = self.order[k];
            assert(order[k as int] == idx);
            let id = self.ids[idx];
            let ghost before = self.components@;
            let outcome = after_config_at(&mut self.components, idx, config);
            let ghost returned = outcome;
            proof {
                assert forall|j: int| k < j < n implies self.components@[#[trigger] order[j]]
                    == old(self).components@[order[j]] by {
                    assert(order[j] != order[k as int]);
                }
                // the components reached before are as their hooks left them
                assert forall|p: int| 0 <= p < k implies self.components@[#[trigger] order[p]]
                    == before[order[p]] by {
                    assert(order[p] != order[k as int]);
                }
                let call = Call { hook: Hook::AfterConfig, vertex: idx as int, outcome: returned };
                self.history@ = self.history@.push(call);
            }
            match outcome {
                Ok(()) => {
                    proof {
                        let r = Ok::<(), FrameworkError>(());
                        assert(returned->Ok_0 == ());
                        assert(returned == hook_outcome(r, k as int, k + 1));
                        assert(self.history@ =~= old(self).history@ + init_calls(order, k + 1, r));
                    }
                },
                Err(cause) => {
                    let e = FrameworkError::ComponentInitError(id, cause);
                    proof {
                        let r = Err::<(), FrameworkError>(e);
                        assert(returned == hook_outcome(r, k as int, k + 1));
                        assert(self.history@ =~= old(self).history@ + init_calls(order, k + 1, r));
                        assert forall|p: int| 0 <= p < k implies #[trigger] hook_outcome(
                            r,
                            p,
                            k + 1,
                        ) == Ok::<(), String>(()) by {}
                    }
                    return Err(e);
                },
            }
            k += 1;
        }
        proof {
            let r = Ok::<(), FrameworkError>(());
            assert forall|p: int| 0 <= p < n implies #[trigger] hook_outcome(r, p, n as int)
                == Ok::<(), String>(()) by {}
        }
        Ok(())
    }

    /// Invokes `before_shutdown` on every component, in the reverse of the
    /// order of `after_config`. A failure does not end the round: it is
    /// recorded with the identity of the component and the cause that its
    /// hook gave, and the round goes on. Every component has gone through
    /// exactly one call of its hook. The failures are returned in the order
    /// in which they occurred.
    pub fn broadcast_shutdown(&mut self) -> (errors: Vec<FrameworkError>)
        requires
            old(self).wf(),
        ensures
            final(self).wf(),
            final(self).graph() == old(self).graph(),
            final(self).broadcast_order() == old(self).broadcast_order(),
            final(self).components().len() == old(self).components().len(),
            ({
                let calls = final(self).history().skip(old(self).history().len() as int);
                &&& final(self).history() == old(self).history() + calls
                &&& vertices(calls) == old(self).shutdown_order()
                &&& forall|p: int|
                    0 <= p < calls.len() ==> (#[trigger] calls[p]).hook == Hook::BeforeShutdown
                        && exists|h: &mut C|
                        #![trigger call_ensures(C::before_shutdown, (h,), calls[p].outcome)]
                        mut_ref_current(h) == old(self).components()[calls[p].vertex] && mut_ref_future(h)
                            == final(self).components()[calls[p].vertex] && call_ensures(
                            C::before_shutdown,
                            (h,),
                            calls[p].outcome,
                        )
                &&& error_views(errors@) == shutdown_errors(old(self).graph(), calls)
            }),
    {
        proof {
            self.lemma_order_bounds();
        }
        let ghost order = indices(self.order@);
        let ghost g = self.graph();
        let ghost calls: Seq<Call> = Seq::empty();
        let n = self.order.len();
        let mut errors: Vec<FrameworkError> = Vec::new();
        let mut k: usize = n;
        while k > 0
            invariant
                k <= n,
                n == self.order@.len(),
                self.ids == old(self).ids,
                self.deps == old(self).deps,
                self.order == old(self).order,
                self.components@.len() == old(self).components@.len(),
                old(self).wf(),
                g == old(self).graph(),
                order == indices(self.order@),
                order.no_duplicates(),
                self.ids@.len() == self.components@.len(),
                self.ids@.len() == g.len(),
                forall|p: int|
                    0 <= p < self.order@.len() ==> (#[trigger] self.order@[p]) < self.ids@.len(),
                self.history@ == old(self).history@ + calls,
                calls.len() == n - k,
                forall|p: int| 0 <= p < calls.len() ==> (#[trigger] calls[p]).vertex == order[n - 1 - p],
                forall|p: int|
                    0 <= p < calls.len() ==> (#[trigger] calls[p]).hook == Hook::BeforeShutdown
                        && exists|h: &mut C|
                        #![trigger call_ensures(C::before_shutdown, (h,), calls[p].outcome)]
                        mut_ref_current(h) == old(self).components@[calls[p].vertex] && mut_ref_future(h)
                            == self.components@[calls[p].vertex] && call_ensures(
                            C::before_shutdown,
                            (h,),
                            calls[p].outcome,
                        ),
                forall|j: int|
                    0 <= j < k ==> self.components@[#[trigger] order[j]] == old(
                        self,
                    ).components@[order[j]],
                error_views(errors@) == shutdown_errors(g, calls),
            decreases k,
        {
            k -= 1;
            let idx = self.order[k];
            assert(order[k as int] == idx);
            let id = self.ids[idx];
            let ghost before = self.components@;
            let ghost earlier = calls;
            let ghost earlier_errors = errors@;
            let outcome = before_shutdown_at(&mut self.components, idx);
            proof {
                let call = Call { hook: Hook::BeforeShutdown, vertex: idx as int, outcome };
                calls = calls.push(call);
                self.history@ = self.history@.push(call);
                assert(calls.drop_last() =~= earlier);
                assert forall|j: int| 0 <= j < k implies self.components@[#[trigger] order[j]]
                    == old(self).components@[order[j]] by {
                    assert(order[j] != order[k as int]);
                }
                // the components reached before are as their hooks left them
                assert forall|p: int| 0 <= p < earlier.len() implies self.components@[(
                #[trigger] earlier[p]).vertex] == before[earlier[p].vertex] && calls[p]
                    == earlier[p] by {
                    assert(earlier[p].vertex == order[n - 1 - p]);
                    assert(order[n - 1 - p] != order[k as int]);
                }
                assert(calls[earlier.len() as int] == call);
            }
            match outcome {
                Ok(()) => {},
                Err(cause) => {
                    errors.push(FrameworkError::ComponentShutdownError(id, cause));
                    assert(error_views(errors@) =~= error_views(earlier_errors).push(
                        ErrorView::ComponentShutdownError(id@, cause@),
                    ));
                },
            }
        }
        proof {
            assert(self.history@.skip(old(self).history@.len() as int) =~= calls);
        }
        errors
    }
}

/// A set of declared components is accepted exactly when its identities are
/// distinct and its dependencies hold no cycle.
pub proof fn lemma_accepted_iff_distinct_and_acyclic(g: Seq<Node>)
    ensures
        registration(g) is Ok <==> distinct(identities(g)) && acyclic(g),
{
    lemma_distinct_iff_no_repeat(identities(g));
    lemma_first_repeat(identities(g), 0);
    lemma_complete_iff_acyclic(g);
    lemma_order_well_placed(g);
}

/// Where two components carry the same identity, the set is rejected as
/// holding a duplicate, whatever its dependencies are, and the error names
/// an identity that occurs twice.
pub proof fn lemma_duplicate_is_rejected(g: Seq<Node>, i: int, j: int)
    requires
        0 <= i < j < g.len(),
        g[i].id == g[j].id,
    ensures
        registration(g) matches Err(ErrorView::DuplicateComponent(id)) && exists|a: int, b: int|
            0 <= a < b < g.len() && (#[trigger] g[a]).id == id && (#[trigger] g[b]).id == id,
{
    let ids = identities(g);
    lemma_first_repeat(ids, 0);
    assert(ids[i] == ids[j]);
    assert(repeats(ids, j));
    let b = first_repeat(ids, 0);
    let a = choose|a: int| 0 <= a < b && #[trigger] ids[a] == ids[b];
    assert(g[a].id == ids[b] && g[b].id == ids[b]);
}

/// Where the identities are distinct and the dependencies hold a cycle, the
/// set is rejected as cyclic, and the error names every component on the
/// cycle.
pub proof fn lemma_cycle_is_rejected(g: Seq<Node>, path: Seq<int>, k: int)
    requires
        distinct(identities(g)),
        is_cycle(g, path),
        0 <= k < path.len(),
    ensures
        registration(g) matches Err(ErrorView::CyclicDependency(ids)) && ids.contains(
            g[path[k]].id,
        ),
{
    let order = topological_order(g);
    lemma_distinct_iff_no_repeat(identities(g));
    lemma_complete_iff_acyclic(g);
    lemma_order_well_placed(g);
    lemma_cycle_is_left_out(g, path, k);
    let v = path[k];
    lemma_left_out_below(order, g.len() as int, v);
    let left = left_out(g, order);
    let q = choose|q: int| 0 <= q < left.len() && left[q] == v;
    assert(ids_of(g, left)[q] == g[v].id);
}

/// Every identity that a cyclic-dependency error names belongs to a
/// component that lies on a cycle or depends on one: a chain of dependencies
/// leads from that component to a cycle.
pub proof fn lemma_cycle_error_names_only_the_stuck(g: Seq<Node>, q: int) -> (found: (
    int,
    Seq<int>,
    Seq<int>,
))
    requires
        registration(g) matches Err(ErrorView::CyclicDependency(ids)) && 0 <= q < ids.len(),
    ensures
        registration(g) matches Err(ErrorView::CyclicDependency(ids)) && ids[q] == g[found.0].id,
        is_chain(g, found.1),
        found.1[0] == found.0,
        is_cycle(g, found.2),
        found.1.last() == found.2[0],
{
    let order = topological_order(g);
    let left = left_out(g, order);
    let v = left[q];
    assert(left.contains(v));
    lemma_left_out_below(order, g.len() as int, v);
    let (chain, cycle) = lemma_left_out_leads_to_cycle(g, v);
    (v, chain, cycle)
}

/// In the broadcast order of a registry, a component stands after every
/// component that it depends on.
pub proof fn lemma_dependencies_come_first<C>(registry: Registry<C>, a: int, b: int)
    requires
        registry.wf(),
        0 <= a < registry.broadcast_order().len(),
        0 <= b < registry.broadcast_order().len(),
        depends_on(registry.graph(), registry.broadcast_order()[a], registry.broadcast_order()[b]),
    ensures
        b < a,
{
    registry.lemma_wf();
    lemma_order_respects_dependencies(registry.graph(), a, b);
}

/// The broadcast order of a registry holds every component exactly once.
pub proof fn lemma_order_holds_each_once<C>(registry: Registry<C>, i: int)
    requires
        registry.wf(),
        0 <= i < registry.components().len(),
    ensures
        registry.broadcast_order().no_duplicates(),
        registry.broadcast_order().contains(i),
{
    registry.lemma_wf();
    lemma_order_well_placed(registry.graph());
    lemma_well_placed_len(registry.graph(), registry.broadcast_order());
}

/// A round of `after_config` that invokes `m` hooks reaches each of the
/// first `m` components of the order exactly once, and none of the others.
pub proof fn lemma_round_reaches_each_once<C>(
    registry: Registry<C>,
    m: int,
    r: Result<(), FrameworkError>,
    j: int,
    p: int,
)
    requires
        registry.wf(),
        0 <= m <= registry.broadcast_order().len(),
        0 <= j < registry.broadcast_order().len(),
        0 <= p < m,
    ensures
        init_calls(registry.broadcast_order(), m, r)[p].vertex
            == registry.broadcast_order()[j] <==> p == j,
{
    registry.lemma_wf();
    lemma_order_well_placed(registry.graph());
}

/// The shutdown order is the broadcast order read backwards.
pub proof fn lemma_shutdown_reverses_broadcast<C>(registry: Registry<C>, p: int)
    requires
        0 <= p < registry.broadcast_order().len(),
    ensures
        registry.shutdown_order().len() == registry.broadcast_order().len(),
        registry.shutdown_order()[p] == registry.broadcast_order()[registry.broadcast_order().len()
            - 1 - p],
{
}

} // verus!
