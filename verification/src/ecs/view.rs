//! Views: queries over the entities of a world that carry components of chosen types.
use std::marker::PhantomData;
use vstd::prelude::*;

use crate::ecs::store::ComponentStore;
use crate::ecs::world::{EntityId, World};
use crate::utils::hlist::{Has, Prepend};

verus! {

/// Asks a view for component type `T` under requirement `R` ([Required], [Optional] or
/// [Marked]).
pub struct ComponentBinding<T, R> {
    typ: PhantomData<T>,
    requirement: PhantomData<R>,
}

impl<T, R> ComponentBinding<T, R> {
    fn new() -> (r: Self) {
        ComponentBinding { typ: PhantomData, requirement: PhantomData }
    }
}

impl<T, R> Default for ComponentBinding<T, R> {
    fn default() -> (r: Self) {
        Self::new()
    }
}

impl<T, R> Clone for ComponentBinding<T, R> {
    fn clone(&self) -> (r: Self) {
        Self::new()
    }
}

impl<T, R> Copy for ComponentBinding<T, R> {

}

/// How an entity's component of one type takes part in a match: given the component, if the
/// entity has one, and the list of results so far, it gives the longer list or rejects the
/// entity.
pub trait BindingRequirement<T, C>: Sized {
    type Resolved;

    /// `None` when the entity is rejected.
    spec fn spec_resolve(component: Option<T>, list: C) -> Option<Self::Resolved>;

    fn resolve(component: Option<T>, list: C) -> (r: Result<Self::Resolved, ()>)
        ensures
            match r {
                Ok(resolved) => Self::spec_resolve(component, list) == Some(resolved),
                Err(_) => Self::spec_resolve(component, list) is None,
            },
    ;
}

/// The entity must have the component; the component goes in front of the results.
pub struct Required;

impl<T, C: Prepend> BindingRequirement<T, C> for Required {
    type Resolved = (T, C);

    open spec fn spec_resolve(component: Option<T>, list: C) -> Option<(T, C)> {
        match component {
            Some(component) => Some((component, list)),
            None => None,
        }
    }

    fn resolve(component: Option<T>, list: C) -> (r: Result<(T, C), ()>) {
        match component {
            Some(component) => Ok(list.prepend(component)),
            None => Err(()),
        }
    }
}

/// The entity may have the component; the component, if any, goes in front of the results.
pub struct Optional;

impl<T, C: Prepend> BindingRequirement<T, C> for Optional {
    type Resolved = (Option<T>, C);

    open spec fn spec_resolve(component: Option<T>, list: C) -> Option<(Option<T>, C)> {
        Some((component, list))
    }

    fn resolve(component: Option<T>, list: C) -> (r: Result<(Option<T>, C), ()>) {
        Ok(list.prepend(component))
    }
}

/// The entity must have the component; the results do not include it.
pub struct Marked;

impl<T, C: Prepend> BindingRequirement<T, C> for Marked {
    type Resolved = C;

    open spec fn spec_resolve(component: Option<T>, list: C) -> Option<C> {
        match component {
            Some(_) => Some(list),
            None => None,
        }
    }

    fn resolve(component: Option<T>, list: C) -> (r: Result<C, ()>) {
        match component {
            Some(_) => Ok(list),
            None => Err(()),
        }
    }
}

/// A binding together with the store that it reads.
pub struct Bound<'v, T, R> {
    store: &'v ComponentStore<T>,
    binding: ComponentBinding<T, R>,
}

impl<'v, T, R> Bound<'v, T, R> {
    /// The store that the binding reads.
    pub closed spec fn store(self) -> &'v ComponentStore<T> {
        self.store
    }

    /// The bound that reads `store`.
    pub closed spec fn spec_new(store: &'v ComponentStore<T>) -> Self {
        Bound { store, binding: ComponentBinding { typ: PhantomData, requirement: PhantomData } }
    }

    /// The bound made for `store` reads `store`.
    pub proof fn lemma_new_store(store: &'v ComponentStore<T>)
        ensures
            Self::spec_new(store).store() == store,
    {
    }
}

/// The reference to the component of `entity` in `store`, if it has one.
pub open spec fn stored_ref<'v, T>(store: &'v ComponentStore<T>, entity: EntityId) -> Option<&'v T> {
    match store.spec_get(entity) {
        Some(component) => Some(&component),
        None => None,
    }
}

/// A list of bound stores that can match entities, building a list of results on top of `C`.
pub trait Bounds<'v, C>: Sized {
    type Result;

    /// The results for `entity`, or `None` when a binding rejects it.
    spec fn spec_match(self, entity: EntityId, list: C) -> Option<Self::Result>;

    fn match_entity(&self, entity: EntityId, list: C) -> (r: Option<Self::Result>)
        ensures
            r == self.spec_match(entity, list),
    ;
}

impl<'v, C> Bounds<'v, C> for () {
    type Result = C;

    open spec fn spec_match(self, entity: EntityId, list: C) -> Option<C> {
        Some(list)
    }

    fn match_entity(&self, _entity: EntityId, list: C) -> (r: Option<C>) {
        Some(list)
    }
}

impl<'v, C, T, R, Tail> Bounds<'v, C> for (Bound<'v, T, R>, Tail) where
    R: BindingRequirement<&'v T, C>,
    Tail: Bounds<'v, R::Resolved>,
 {
    type Result = Tail::Result;

    open spec fn spec_match(self, entity: EntityId, list: C) -> Option<Tail::Result> {
        match R::spec_resolve(stored_ref(self.0.store(), entity), list) {
            Some(resolved) => self.1.spec_match(entity, resolved),
            None => None,
        }
    }

    fn match_entity(&self, entity: EntityId, list: C) -> (r: Option<Tail::Result>) {
        let component = self.0.store.get(entity);
        let list = match R::resolve(component, list) {
            Ok(list) => list,
            Err(_) => return None,
        };
        self.1.match_entity(entity, list)
    }
}

/// Looks up the stores of a world on behalf of a list of bindings.
pub struct StoreLocker<'a, S> {
    world: &'a World<S>,
}

impl<'a, S> StoreLocker<'a, S> {
    pub closed spec fn world(self) -> &'a World<S> {
        self.world
    }

    /// Binds every binding of `bindings` to the world's store of its component type.
    pub fn lock<L, I>(&self, bindings: L) -> (r: L::Bounds) where L: LockStores<'a, S, I>
        ensures
            r == bindings.spec_lock(self.world()),
    {
        bindings.lock(self)
    }
}

/// Lists of bindings whose component stores the world's store list `S` holds, at the positions
/// that `I` encodes.
pub trait LockStores<'a, S, I>: Sized {
    type Bounds;

    /// Every binding bound to the store of its component type in `world`, in order.
    spec fn spec_lock(self, world: &'a World<S>) -> Self::Bounds;

    fn lock(self, locker: &StoreLocker<'a, S>) -> (r: Self::Bounds)
        ensures
            r == self.spec_lock(locker.world()),
    ;
}

impl<'a, S> LockStores<'a, S, ()> for () {
    type Bounds = ();

    open spec fn spec_lock(self, world: &'a World<S>) -> () {
        ()
    }

    fn lock(self, _locker: &StoreLocker<'a, S>) -> (r: ()) {
        ()
    }
}

impl<'a, S, T: 'a, R, Tail, HeadIndex, TailIndex> LockStores<'a, S, (HeadIndex, TailIndex)> for (
    ComponentBinding<T, R>,
    Tail,
) where S: Has<ComponentStore<T>, HeadIndex>, Tail: LockStores<'a, S, TailIndex> {
    type Bounds = (Bound<'a, T, R>, Tail::Bounds);

    open spec fn spec_lock(self, world: &'a World<S>) -> (Bound<'a, T, R>, Tail::Bounds) {
        (Bound::spec_new(&world.stores().spec_get()), self.1.spec_lock(world))
    }

    fn lock(self, locker: &StoreLocker<'a, S>) -> (r: (Bound<'a, T, R>, Tail::Bounds)) {
        let (binding, tail) = self;
        let store = locker.world.components();
        (Bound { store, binding }, tail.lock(locker))
    }
}

/// Collects the bindings of a view, most recent first.
pub struct ViewBuilder<C> {
    components: C,
}

impl ViewBuilder<()> {
    fn new() -> (r: Self)
        ensures
            r.bindings() == (),
    {
        ViewBuilder { components: () }
    }
}

impl<C> ViewBuilder<C> {
    /// The bindings so far.
    pub closed spec fn bindings(self) -> C {
        self.components
    }
}

impl<C: Prepend> ViewBuilder<C> {
    fn with_binding<T, R>(self, binding: ComponentBinding<T, R>) -> (r: ViewBuilder<
        (ComponentBinding<T, R>, C),
    >)
        ensures
            r.bindings() == (binding, self.bindings()),
    {
        ViewBuilder { components: self.components.prepend(binding) }
    }

    /// Adds a binding that only matches entities with a component of type `T` and yields it.
    pub fn required<T>(self) -> (r: ViewBuilder<(ComponentBinding<T, Required>, C)>)
        ensures
            r.bindings().1 == self.bindings(),
    {
        self.with_binding(ComponentBinding::new())
    }

    /// Adds a binding that yields the component of type `T`, if the entity has one.
    pub fn optional<T>(self) -> (r: ViewBuilder<(ComponentBinding<T, Optional>, C)>)
        ensures
            r.bindings().1 == self.bindings(),
    {
        self.with_binding(ComponentBinding::new())
    }

    /// Adds a binding that only matches entities with a component of type `T`, without
    /// yielding it.
    pub fn marked<T>(self) -> (r: ViewBuilder<(ComponentBinding<T, Marked>, C)>)
        ensures
            r.bindings().1 == self.bindings(),
    {
        self.with_binding(ComponentBinding::new())
    }

    /// The view of `world` with these bindings.
    pub fn build<'a, S, I>(self, world: &'a World<S>) -> (r: WorldView<'a, S, C::Bounds>) where
        C: LockStores<'a, S, I>,
        ensures
            r.world() == world,
            r.bounds() == self.bindings().spec_lock(world),
    {
        let locker = StoreLocker { world };
        let bounds = locker.lock(self.components);
        WorldView { world, bounds }
    }
}

/// The entities of a world matched against a list of bound stores.
pub struct WorldView<'w, S, B> {
    world: &'w World<S>,
    bounds: B,
}

impl<'w> WorldView<'w, (), ()> {
    pub fn builder() -> (r: ViewBuilder<()>)
        ensures
            r.bindings() == (),
    {
        ViewBuilder::new()
    }
}

/// `matches` lists `(entity, results)` for exactly the entities alive in `world` that `bounds`
/// matches, with their results, in the order of their slots.
pub open spec fn lists_matches<'w, S, B: Bounds<'w, ()>>(
    world: World<S>,
    bounds: B,
    matches: Seq<(EntityId, B::Result)>,
) -> bool {
    &&& forall|k: int|
        #![trigger matches[k]]
        0 <= k < matches.len() ==> {
            &&& world.spec_is_alive(matches[k].0)
            &&& bounds.spec_match(matches[k].0, ()) == Some(matches[k].1)
        }
    &&& forall|entity: EntityId|
        #![trigger bounds.spec_match(entity, ())]
        world.spec_is_alive(entity) && bounds.spec_match(entity, ()) is Some ==> exists|k: int|
            0 <= k < matches.len() && matches[k].0 == entity
    &&& forall|i: int, j: int|
        0 <= i < j < matches.len() ==> (#[trigger] matches[i]).0.slot() < (
        #[trigger] matches[j]).0.slot()
}

impl<'w, S, B> WorldView<'w, S, B> {
    pub closed spec fn world(self) -> &'w World<S> {
        self.world
    }

    pub closed spec fn bounds(self) -> B {
        self.bounds
    }

    /// Every alive entity that the bindings match, with its results, in the order of slots.
    pub fn iter(&self) -> (r: Vec<(EntityId, B::Result)>) where B: Bounds<'w, ()>
        ensures
            lists_matches(*self.world(), self.bounds(), r@),
    {
        let entities = self.world.entity_iter();
        let mut matches: Vec<(EntityId, B::Result)> = Vec::new();
        let ghost mut positions: Seq<int> = Seq::empty();
        let mut index: usize = 0;
        while index < entities.len()
            invariant
                0 <= index <= entities@.len(),
                positions.len() == matches@.len(),
                forall|k: int|
                    #![trigger positions[k]]
                    0 <= k < positions.len() ==> {
                        &&& 0 <= positions[k] < index
                        &&& entities@[positions[k]] == matches@[k].0
                        &&& self.bounds.spec_match(matches@[k].0, ()) == Some(matches@[k].1)
                    },
                forall|k1: int, k2: int|
                    0 <= k1 < k2 < positions.len() ==> #[trigger] positions[k1] < #[trigger] positions[k2],
                forall|i: int|
                    0 <= i < index && self.bounds.spec_match(#[trigger] entities@[i], ()) is Some
                        ==> exists|k: int| 0 <= k < positions.len() && #[trigger] positions[k] == i,
            decreases entities@.len() - index,
        {
            let entity = entities[index];
            match self.bounds.match_entity(entity, ()) {
                Some(matched) => {
                    matches.push((entity, matched));
                    proof {
                        let before = positions;
                        positions = positions.push(index as int);
                        assert forall|i: int|
                            0 <= i < index + 1 && self.bounds.spec_match(#[trigger] entities@[i], ()) is Some
                                implies exists|k: int| 0 <= k < positions.len() && #[trigger] positions[k] == i by {
                            if i < index {
                                let k = choose|k: int| 0 <= k < before.len() && #[trigger] before[k] == i;
                                assert(positions[k] == i);
                            } else {
                                assert(positions[before.len() as int] == i);
                            }
                        }
                    }
                },
                None => {},
            }
            index += 1;
        }
        proof {
            self.lemma_positions_give_matches(entities@, matches@, positions);
        }
        matches
    }

    proof fn lemma_positions_give_matches(
        self,
        entities: Seq<EntityId>,
        matches: Seq<(EntityId, B::Result)>,
        positions: Seq<int>,
    ) where B: Bounds<'w, ()>
        requires
            forall|entity: EntityId| entities.contains(entity) <==> self.world.spec_is_alive(entity),
            forall|i: int, j: int|
                0 <= i < j < entities.len() ==> (#[trigger] entities[i]).slot() < (
                #[trigger] entities[j]).slot(),
            positions.len() == matches.len(),
            forall|k: int|
                #![trigger positions[k]]
                0 <= k < positions.len() ==> {
                    &&& 0 <= positions[k] < entities.len()
                    &&& entities[positions[k]] == matches[k].0
                    &&& self.bounds.spec_match(matches[k].0, ()) == Some(matches[k].1)
                },
            forall|k1: int, k2: int|
                0 <= k1 < k2 < positions.len() ==> #[trigger] positions[k1] < #[trigger] positions[k2],
            forall|i: int|
                0 <= i < entities.len() && self.bounds.spec_match(#[trigger] entities[i], ()) is Some
                    ==> exists|k: int| 0 <= k < positions.len() && #[trigger] positions[k] == i,
        ensures
            lists_matches(*self.world, self.bounds, matches),
    {
        assert forall|k: int| #![trigger matches[k]] 0 <= k < matches.len() implies {
            &&& self.world.spec_is_alive(matches[k].0)
            &&& self.bounds.spec_match(matches[k].0, ()) == Some(matches[k].1)
        } by {
            assert(entities[positions[k]] == matches[k].0);
            assert(entities.contains(matches[k].0));
        }
        assert forall|entity: EntityId|
            #![trigger self.bounds.spec_match(entity, ())]
            self.world.spec_is_alive(entity) && self.bounds.spec_match(entity, ()) is Some
                implies exists|k: int| 0 <= k < matches.len() && matches[k].0 == entity by {
            assert(entities.contains(entity));
            let i = choose|i: int| 0 <= i < entities.len() && entities[i] == entity;
            assert(self.bounds.spec_match(entities[i], ()) is Some);
            let k = choose|k: int| 0 <= k < positions.len() && #[trigger] positions[k] == i;
            assert(matches[k].0 == entity);
        }
        assert forall|i: int, j: int|
            0 <= i < j < matches.len() implies (#[trigger] matches[i]).0.slot() < (
            #[trigger] matches[j]).0.slot() by {
            assert(positions[i] < positions[j]);
            assert(entities[positions[i]] == matches[i].0);
            assert(entities[positions[j]] == matches[j].0);
        }
    }
}


/// A required binding sees, for any entity, exactly the component that its store holds for that
/// entity: with one, the component goes in front of the results and matching goes on; without
/// one, the entity is rejected.
pub proof fn lemma_required_binding_reads_store<'v, T, C: Prepend, Tail: Bounds<'v, (&'v T, C)>>(
    bound: Bound<'v, T, Required>,
    tail: Tail,
    entity: EntityId,
    list: C,
)
    ensures
        (bound, tail).spec_match(entity, list) == match bound.store().spec_get(entity) {
            Some(component) => tail.spec_match(entity, (&component, list)),
            None => None,
        },
{
}

/// An optional binding hands on, for any entity, exactly the component that its store holds for
/// that entity, or `None`, and never rejects the entity.
pub proof fn lemma_optional_binding_reads_store<
    'v,
    T,
    C: Prepend,
    Tail: Bounds<'v, (Option<&'v T>, C)>,
>(bound: Bound<'v, T, Optional>, tail: Tail, entity: EntityId, list: C)
    ensures
        (bound, tail).spec_match(entity, list) == tail.spec_match(
            entity,
            (
                match bound.store().spec_get(entity) {
                    Some(component) => Some(&component),
                    None => None,
                },
                list,
            ),
        ),
{
}

/// A marked binding lets an entity through exactly when its store holds a component for it, and
/// adds nothing to the results.
pub proof fn lemma_marked_binding_reads_store<'v, T, C: Prepend, Tail: Bounds<'v, C>>(
    bound: Bound<'v, T, Marked>,
    tail: Tail,
    entity: EntityId,
    list: C,
)
    ensures
        (bound, tail).spec_match(entity, list) == if bound.store().spec_get(entity) is Some {
            tail.spec_match(entity, list)
        } else {
            None
        },
{
}

/// A view with one required binding lists an alive entity exactly when the bound store holds a
/// component for it, whatever the entity's generation, and lists it with that component.
pub proof fn lemma_required_view_lists_holders<'w, S, T>(
    world: World<S>,
    store: &'w ComponentStore<T>,
    matches: Seq<(EntityId, (&'w T, ()))>,
)
    requires
        lists_matches(world, (Bound::<'w, T, Required>::spec_new(store), ()), matches),
    ensures
        forall|entity: EntityId|
            world.spec_is_alive(entity) ==> ((exists|k: int|
                0 <= k < matches.len() && #[trigger] matches[k].0 == entity) <==> store.spec_get(
                entity,
            ) is Some),
        forall|k: int|
            0 <= k < matches.len() ==> store.spec_get(#[trigger] matches[k].0) == Some(
                *matches[k].1.0,
            ),
{
    let bounds = (Bound::<'w, T, Required>::spec_new(store), ());
    Bound::<'w, T, Required>::lemma_new_store(store);
    assert forall|entity: EntityId| world.spec_is_alive(entity) implies ((exists|k: int|
        0 <= k < matches.len() && #[trigger] matches[k].0 == entity) <==> store.spec_get(
        entity,
    ) is Some) by {
        lemma_required_binding_reads_store(bounds.0, (), entity, ());
        if store.spec_get(entity) is Some {
            assert(bounds.spec_match(entity, ()) is Some);
        } else {
            assert forall|k: int| 0 <= k < matches.len() implies #[trigger] matches[k].0 != entity by {
                lemma_required_binding_reads_store(bounds.0, (), matches[k].0, ());
            }
        }
    }
    assert forall|k: int| 0 <= k < matches.len() implies store.spec_get(
        #[trigger] matches[k].0,
    ) == Some(*matches[k].1.0) by {
        lemma_required_binding_reads_store(bounds.0, (), matches[k].0, ());
    }
}

/// `entities` are in strictly increasing order of their slots.
pub open spec fn sorted_by_slot(entities: Seq<EntityId>) -> bool {
    forall|i: int, j: int| 0 <= i < j < entities.len() ==> (#[trigger] entities[i]).slot() < (
    #[trigger] entities[j]).slot()
}

/// Two lists of entities, each in strictly increasing order of slots, that hold the same entities
/// are the same list.
proof fn lemma_sorted_same_members(a: Seq<EntityId>, b: Seq<EntityId>)
    requires
        sorted_by_slot(a),
        sorted_by_slot(b),
        forall|entity: EntityId| a.contains(entity) <==> b.contains(entity),
    ensures
        a == b,
    decreases a.len(),
{
    if a.len() == 0 {
        if b.len() > 0 {
            assert(b.contains(b[0]));
        }
        assert(a =~= b);
    } else {
        assert(a.contains(a[0]));
        let j = choose|j: int| 0 <= j < b.len() && b[j] == a[0];
        assert(b.contains(b[0]));
        let i = choose|i: int| 0 <= i < a.len() && a[i] == b[0];
        if i > 0 {
            assert(a[0].slot() < a[i].slot());
            if j > 0 {
                assert(b[0].slot() < b[j].slot());
            }
        }
        if j > 0 {
            assert(b[0].slot() < b[j].slot());
        }
        assert(a[0] == b[0]);
        let ar = a.drop_first();
        let br = b.drop_first();
        assert forall|entity: EntityId| ar.contains(entity) implies br.contains(entity) by {
            let k = choose|k: int| 0 <= k < ar.len() && ar[k] == entity;
            assert(a[k + 1] == entity);
            assert(a[0].slot() < a[k + 1].slot());
            assert(b.contains(entity));
            let l = choose|l: int| 0 <= l < b.len() && b[l] == entity;
            if l == 0 {
                assert(false);
            }
            assert(br[l - 1] == entity);
        }
        assert forall|entity: EntityId| br.contains(entity) implies ar.contains(entity) by {
            let k = choose|k: int| 0 <= k < br.len() && br[k] == entity;
            assert(b[k + 1] == entity);
            assert(b[0].slot() < b[k + 1].slot());
            assert(a.contains(entity));
            let l = choose|l: int| 0 <= l < a.len() && a[l] == entity;
            if l == 0 {
                assert(false);
            }
            assert(ar[l - 1] == entity);
        }
        assert(sorted_by_slot(ar)) by {
            assert forall|x: int, y: int| 0 <= x < y < ar.len() implies (#[trigger] ar[x]).slot() < (
            #[trigger] ar[y]).slot() by {
                assert(ar[x] == a[x + 1] && ar[y] == a[y + 1]);
            }
        }
        assert(sorted_by_slot(br)) by {
            assert forall|x: int, y: int| 0 <= x < y < br.len() implies (#[trigger] br[x]).slot() < (
            #[trigger] br[y]).slot() by {
                assert(br[x] == b[x + 1] && br[y] == b[y + 1]);
            }
        }
        lemma_sorted_same_members(ar, br);
        assert(a =~= b) by {
            assert forall|k: int| 0 <= k < a.len() implies a[k] == b[k] by {
                if k > 0 {
                    assert(a[k] == ar[k - 1] && b[k] == br[k - 1]);
                }
            }
        }
    }
}

/// A view without bindings lists every alive entity, in the order of slots: its entities are
/// exactly what [World::entity_iter] gives.
pub proof fn lemma_unbound_view_lists_alive<S>(
    world: World<S>,
    alive: Seq<EntityId>,
    matches: Seq<(EntityId, ())>,
)
    requires
        forall|entity: EntityId| alive.contains(entity) <==> world.spec_is_alive(entity),
        sorted_by_slot(alive),
        lists_matches(world, (), matches),
    ensures
        matches.map_values(|m: (EntityId, ())| m.0) == alive,
{
    let listed = matches.map_values(|m: (EntityId, ())| m.0);
    assert forall|entity: EntityId| listed.contains(entity) <==> alive.contains(entity) by {
        if listed.contains(entity) {
            let k = choose|k: int| 0 <= k < listed.len() && listed[k] == entity;
            assert(matches[k].0 == entity);
        }
        if alive.contains(entity) {
            assert(().spec_match(entity, ()) is Some);
            let k = choose|k: int| 0 <= k < matches.len() && matches[k].0 == entity;
            assert(listed[k] == entity);
        }
    }
    assert(sorted_by_slot(listed)) by {
        assert forall|x: int, y: int| 0 <= x < y < listed.len() implies (#[trigger] listed[x]).slot() < (
        #[trigger] listed[y]).slot() by {
            assert(listed[x] == matches[x].0 && listed[y] == matches[y].0);
        }
    }
    lemma_sorted_same_members(listed, alive);
}

} // verus!
