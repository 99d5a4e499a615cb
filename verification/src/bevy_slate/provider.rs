//! The surface provider of the Bevy runtime: the registry of font assets,
//! and how a batch of surface updates becomes spawned, tracked nodes.
use vstd::prelude::*;

use std::collections::HashMap;

use bevy::ecs::entity::Entity;
use vstd::hash_map::StringHashMap;

verus! {

broadcast use {vstd::hash_map::axiom_string_hash_map_spec_len, vstd::std_specs::hash::group_hash_axioms};

/// Font assets, found by their family name.
pub struct FontRegistry<H> {
    assets: Vec<H>,
    index: StringHashMap<usize>,
}

impl<H> FontRegistry<H> {
    /// Every family name points at a registered asset.
    #[verifier::type_invariant]
    spec fn wf(self) -> bool {
        forall|f: Seq<char>| #[trigger]
            self.index@.contains_key(f) ==> self.index@[f] < self.assets@.len()
    }

    /// The registered family names.
    pub closed spec fn families(&self) -> Set<Seq<char>> {
        self.index@.dom()
    }

    /// The asset registered for a family name.
    pub closed spec fn asset_of(&self, family: Seq<char>) -> H {
        self.assets@[self.index@[family] as int]
    }

    /// The number of assets added so far.
    pub closed spec fn asset_count(&self) -> nat {
        self.assets@.len()
    }

    /// An empty registry.
    pub fn new() -> (r: Self)
        ensures
            r.families() == Set::<Seq<char>>::empty(),
            r.asset_count() == 0,
    {
        FontRegistry { assets: Vec::new(), index: StringHashMap::new() }
    }

    /// An empty registry with room for `cap` fonts.
    pub fn with_capacity(cap: usize) -> (r: Self)
        ensures
            r.families() == Set::<Seq<char>>::empty(),
            r.asset_count() == 0,
    {
        FontRegistry { assets: Vec::with_capacity(cap), index: StringHashMap::with_capacity(cap) }
    }

    /// Registers `asset` under `family`; a family that was registered
    /// before now points at the new asset. Every other family keeps its
    /// asset.
    pub fn add(&mut self, family: &str, asset: H) -> (r: &Self)
        requires
            old(self).asset_count() < usize::MAX,
        ensures
            final(self).families() == old(self).families().insert(family@),
            final(self).asset_of(family@) == asset,
            forall|f: Seq<char>|
                #![trigger final(self).asset_of(f)]
                f != family@ && old(self).families().contains(f) ==> final(self).asset_of(f)
                    == old(self).asset_of(f),
            final(self).asset_count() == old(self).asset_count() + 1,
            *r == *final(self),
    {
        proof {
            use_type_invariant(&*self);
        }
        let mut taken = FontRegistry::new();
        core::mem::swap(&mut taken, self);
        proof {
            use_type_invariant(&taken);
        }
        let FontRegistry { mut assets, mut index } = taken;
        let idx = assets.len();
        assets.push(asset);
        index.insert(family.to_owned(), idx);
        *self = FontRegistry { assets, index };
        self
    }
}

impl<H: Clone> FontRegistry<H> {
    /// A copy of the asset registered for `family`, if there is one.
    pub fn get(&self, family: &str) -> (r: Option<H>)
        ensures
            r is Some <==> self.families().contains(family@),
            r is Some ==> cloned::<H>(self.asset_of(family@), r->0),
    {
        proof {
            use_type_invariant(self);
        }
        match self.index.get(family) {
            Some(idx) => Some(self.assets[*idx].clone()),
            None => None,
        }
    }
}


//---
/// A change to the nodes of a surface, by the identifier of the node.
#[derive(Copy, Clone, Debug, PartialEq, Eq, Structural)]
pub enum SurfaceUpdate {
    Add(u128),
    Update(u128),
    Remove(u128),
}

/// What the provider does for one surface update.
#[derive(Copy, Clone, Debug)]
pub enum UpdateStep {
    /// Spawn the node and its subtree under the surface's root.
    Spawn(u128),
    /// The node was already spawned by an earlier update of this batch.
    Skip,
    /// Update the node, which is tracked by this entity.
    Update(u128, Entity),
    /// The node to update is not tracked; the update is skipped.
    Untracked(u128),
    /// Remove the node.
    Remove(u128),
}

/// The nodes spawned during one batch of updates, and the entities they
/// were spawned as.
pub struct ConsumedUpdates {
    entities: HashMap<u128, Entity>,
    order: Vec<u128>,
}

impl ConsumedUpdates {
    /// Each spawned node is listed once, and the list holds exactly the
    /// spawned nodes.
    #[verifier::type_invariant]
    spec fn wf(self) -> bool {
        &&& self.order@.no_duplicates()
        &&& forall|id: u128| #[trigger] self.entities@.contains_key(id) <==> self.order@.contains(id)
    }

    /// The entity of each node spawned in this batch.
    pub closed spec fn spawned(&self) -> Map<u128, Entity> {
        self.entities@
    }

    /// No node spawned yet.
    pub fn with_capacity(capacity: usize) -> (c: Self)
        ensures
            c.spawned() == Map::<u128, Entity>::empty(),
    {
        ConsumedUpdates { entities: HashMap::with_capacity(capacity), order: Vec::new() }
    }

    /// Whether the node was spawned in this batch.
    pub fn contains(&self, id: u128) -> (r: bool)
        ensures
            r == self.spawned().contains_key(id),
    {
        self.entities.contains_key(&id)
    }

    /// Records that the node was spawned as `entity`.
    pub fn insert(&mut self, id: u128, entity: Entity)
        ensures
            final(self).spawned() == old(self).spawned().insert(id, entity),
    {
        proof {
            use_type_invariant(&*self);
        }
        let mut taken = ConsumedUpdates { entities: HashMap::new(), order: Vec::new() };
        core::mem::swap(&mut taken, self);
        proof {
            use_type_invariant(&taken);
        }
        let ConsumedUpdates { mut entities, mut order } = taken;
        let ghost old_order = order@;
        let ghost old_entities = entities@;
        if !entities.contains_key(&id) {
            order.push(id);
            proof {
                assert forall|k: u128| order@.contains(k) <==> (old_order.contains(k) || k == id) by {
                    lemma_push_contains(old_order, id, k);
                }
                assert forall|a: int, b: int|
                    0 <= a < b < order@.len() implies order@[a] != order@[b] by {
                    if b == order@.len() - 1 {
                        assert(old_order[a] == order@[a]);
                        assert(old_order.contains(order@[a]));
                    }
                }
            }
        }
        entities.insert(id, entity);
        proof {
            assert forall|k: u128| #[trigger] entities@.contains_key(k) <==> order@.contains(k) by {
                if old_entities.contains_key(id) {
                    assert(order@ == old_order);
                }
            }
        }
        *self = ConsumedUpdates { entities, order };
    }

    /// The number of nodes spawned in this batch.
    pub fn len(&self) -> (n: usize)
        ensures
            n == self.spawned().len(),
    {
        proof {
            use_type_invariant(self);
        }
        self.entities.len()
    }
}

/// A sequence with an element pushed contains what it contained before,
/// and the pushed element.
proof fn lemma_push_contains<A>(s: Seq<A>, a: A, k: A)
    ensures
        s.push(a).contains(k) <==> (s.contains(k) || k == a),
{
    if s.push(a).contains(k) {
        let j = choose|j: int| 0 <= j < s.push(a).len() && s.push(a)[j] == k;
        if j < s.len() {
            assert(s[j] == k);
        }
    }
    if s.contains(k) {
        let j = choose|j: int| 0 <= j < s.len() && s[j] == k;
        assert(s.push(a)[j] == k);
    }
    if k == a {
        assert(s.push(a)[s.len() as int] == a);
    }
}

/// Takes the batch of updates to consume under the surface's root entity:
/// without a root, nothing is taken and the updates stay as they are;
/// with one, all of them are taken, in order, and none is left.
pub fn take_batch(root_entity: Option<Entity>, updates: &mut Vec<SurfaceUpdate>) -> (r: Option<
    (Entity, Vec<SurfaceUpdate>),
>)
    ensures
        match root_entity {
            None => r is None && final(updates)@ == old(updates)@,
            Some(root) => r matches Some((e, batch)) && e == root && batch@ == old(updates)@
                && final(updates)@.len() == 0,
        },
{
    match root_entity {
        None => None,
        Some(root) => {
            let mut batch: Vec<SurfaceUpdate> = Vec::new();
            core::mem::swap(&mut batch, updates);
            Some((root, batch))
        },
    }
}

/// The step for one update: an added node is spawned unless this batch
/// already spawned it; an updated node is updated if it is tracked and
/// skipped if not; a removed node is removed.
pub fn plan_update(consumed: &ConsumedUpdates, entity_index: &HashMap<u128, Entity>, update: SurfaceUpdate) -> (step: UpdateStep)
    ensures
        match update {
            SurfaceUpdate::Add(id) => if consumed.spawned().contains_key(id) {
                step is Skip
            } else {
                step == UpdateStep::Spawn(id)
            },
            SurfaceUpdate::Update(id) => if entity_index@.contains_key(id) {
                step == UpdateStep::Update(id, entity_index@[id])
            } else {
                step == UpdateStep::Untracked(id)
            },
            SurfaceUpdate::Remove(id) => step == UpdateStep::Remove(id),
        },
{
    match update {
        SurfaceUpdate::Add(id) => {
            if !consumed.contains(id) {
                UpdateStep::Spawn(id)
            } else {
                UpdateStep::Skip
            }
        },
        SurfaceUpdate::Update(id) => {
            match entity_index.get(&id) {
                Some(entity) => UpdateStep::Update(id, *entity),
                None => UpdateStep::Untracked(id),
            }
        },
        SurfaceUpdate::Remove(id) => UpdateStep::Remove(id),
    }
}

/// Moves the nodes spawned in a batch into the index of tracked nodes: a
/// node spawned again replaces its old entity; every other tracked node
/// keeps its entity.
pub fn merge_consumed(entity_index: &mut HashMap<u128, Entity>, consumed: ConsumedUpdates)
    ensures
        final(entity_index)@ == old(entity_index)@.union_prefer_right(consumed.spawned()),
{
    proof {
        use_type_invariant(&consumed);
    }
    let ConsumedUpdates { entities, order } = consumed;
    let ghost start = entity_index@;
    let mut i: usize = 0;
    while i < order.len()
        invariant
            i <= order@.len(),
            order@.no_duplicates(),
            forall|id: u128| #[trigger] entities@.contains_key(id) <==> order@.contains(id),
            entity_index@ == start.union_prefer_right(
                entities@.restrict(order@.take(i as int).to_set()),
            ),
        decreases order@.len() - i,
    {
        let id = order[i];
        assert(order@.contains(id));
        let entity = *entities.get(&id).unwrap();
        entity_index.insert(id, entity);
        proof {
            assert(order@.take(i + 1).to_set() =~= order@.take(i as int).to_set().insert(id)) by {
                assert(order@.take(i + 1) =~= order@.take(i as int).push(id));
                assert forall|k: u128|
                    order@.take(i + 1).contains(k) <==> (order@.take(i as int).contains(k) || k
                        == id) by {
                    lemma_push_contains(order@.take(i as int), id, k);
                }
            }
            assert(entity_index@ =~= start.union_prefer_right(
                entities@.restrict(order@.take(i + 1).to_set()),
            ));
        }
        i = i + 1;
    }
    proof {
        assert(order@.take(order@.len() as int) =~= order@);
        assert(entities@.restrict(order@.to_set()) =~= entities@);
    }
}

/// The step for one update, given the nodes this batch has spawned so far
/// and the index of tracked nodes.
pub open spec fn plan_step(
    consumed: Map<u128, Entity>,
    index: Map<u128, Entity>,
    update: SurfaceUpdate,
) -> UpdateStep {
    match update {
        SurfaceUpdate::Add(id) => if consumed.contains_key(id) {
            UpdateStep::Skip
        } else {
            UpdateStep::Spawn(id)
        },
        SurfaceUpdate::Update(id) => if index.contains_key(id) {
            UpdateStep::Update(id, index[id])
        } else {
            UpdateStep::Untracked(id)
        },
        SurfaceUpdate::Remove(id) => UpdateStep::Remove(id),
    }
}

/// `consumed` after recording, in order, the nodes of a spawned subtree
/// and the entities they were spawned as.
pub open spec fn record_spawned(consumed: Map<u128, Entity>, spawned: Seq<(u128, Entity)>) -> Map<
    u128,
    Entity,
>
    decreases spawned.len(),
{
    if spawned.len() == 0 {
        consumed
    } else {
        record_spawned(consumed, spawned.drop_last()).insert(spawned.last().0, spawned.last().1)
    }
}

/// The nodes a batch spawns, after those in `consumed`: each added node
/// that the batch has not spawned yet is spawned, and `spawned[k]` is what
/// spawning the node of the `k`-th update records.
pub open spec fn consume_batch(
    consumed: Map<u128, Entity>,
    updates: Seq<SurfaceUpdate>,
    spawned: Seq<Seq<(u128, Entity)>>,
) -> Map<u128, Entity>
    decreases updates.len(),
{
    if updates.len() == 0 {
        consumed
    } else {
        let before = consume_batch(consumed, updates.drop_last(), spawned);
        match updates.last() {
            SurfaceUpdate::Add(id) => if before.contains_key(id) {
                before
            } else {
                record_spawned(before, spawned[updates.len() - 1])
            },
            _ => before,
        }
    }
}

/// The values of the spawn records of a batch.
pub open spec fn spawned_view(spawned: Seq<Vec<(u128, Entity)>>) -> Seq<Seq<(u128, Entity)>> {
    spawned.map_values(|v: Vec<(u128, Entity)>| v@)
}

/// Consumes a batch of surface updates under the surface's root entity:
/// gives the step of each update, in order; records, for each node that
/// is spawned, the nodes of its subtree as `spawned` gives them for that
/// update; and moves them into the index of tracked nodes. Without a root,
/// nothing is consumed and nothing changes.
pub fn consume_updates(
    root_entity: Option<Entity>,
    updates: &mut Vec<SurfaceUpdate>,
    entity_index: &mut HashMap<u128, Entity>,
    spawned: &Vec<Vec<(u128, Entity)>>,
) -> (steps: Vec<UpdateStep>)
    requires
        spawned@.len() == old(updates)@.len(),
    ensures
        match root_entity {
            None => final(updates)@ == old(updates)@ && final(entity_index)@ == old(entity_index)@
                && steps@.len() == 0,
            Some(_) => {
                &&& final(updates)@.len() == 0
                &&& final(entity_index)@ == old(entity_index)@.union_prefer_right(
                    consume_batch(Map::empty(), old(updates)@, spawned_view(spawned@)),
                )
                &&& steps@.len() == old(updates)@.len()
                &&& forall|k: int|
                    0 <= k < steps@.len() ==> #[trigger] steps@[k] == plan_step(
                        consume_batch(
                            Map::empty(),
                            old(updates)@.take(k),
                            spawned_view(spawned@),
                        ),
                        old(entity_index)@,
                        old(updates)@[k],
                    )
            },
        },
{
    let ghost u0 = updates@;
    let ghost sv = spawned_view(spawned@);
    let batch = match take_batch(root_entity, updates) {
        None => {
            return Vec::new();
        },
        Some((_, b)) => b,
    };
    let mut consumed = ConsumedUpdates::with_capacity(batch.len());
    let mut steps: Vec<UpdateStep> = Vec::new();
    let mut k: usize = 0;
    proof {
        assert(batch@.take(0) =~= Seq::<SurfaceUpdate>::empty());
    }
    while k < batch.len()
        invariant
            k <= batch@.len(),
            batch@ == u0,
            u0 == old(updates)@,
            sv == spawned_view(spawned@),
            spawned@.len() == batch@.len(),
            entity_index@ == old(entity_index)@,
            consumed.spawned() == consume_batch(Map::empty(), batch@.take(k as int), sv),
            steps@.len() == k,
            forall|j: int|
                0 <= j < k ==> #[trigger] steps@[j] == plan_step(
                    consume_batch(Map::empty(), u0.take(j), sv),
                    old(entity_index)@,
                    u0[j],
                ),
        decreases batch@.len() - k,
    {
        let ghost before = consumed.spawned();
        let update = batch[k];
        let step = plan_update(&consumed, entity_index, update);
        proof {
            assert(step == plan_step(before, entity_index@, update));
            assert(batch@.take(k + 1).drop_last() =~= batch@.take(k as int));
            assert(batch@.take(k + 1).last() == update);
        }
        if let UpdateStep::Spawn(_) = step {
            let records = &spawned[k];
            let mut m: usize = 0;
            proof {
                assert(records@.take(0) =~= Seq::<(u128, Entity)>::empty());
                assert(sv[k as int] == records@);
            }
            while m < records.len()
                invariant
                    m <= records@.len(),
                    consumed.spawned() == record_spawned(before, records@.take(m as int)),
                decreases records@.len() - m,
            {
                let (id, entity) = records[m];
                consumed.insert(id, entity);
                proof {
                    assert(records@.take(m + 1).drop_last() =~= records@.take(m as int));
                }
                m = m + 1;
            }
            proof {
                assert(records@.take(m as int) =~= records@);
            }
        }
        steps.push(step);
        k = k + 1;
    }
    proof {
        assert(batch@.take(k as int) =~= batch@);
    }
    merge_consumed(entity_index, consumed);
    steps
}

/// What a lookup finds after an add: the added family finds the added
/// asset, every other registered family finds what it found before, and no
/// other family appears.
pub proof fn lemma_lookup_after_add<H>(
    before: FontRegistry<H>,
    after: FontRegistry<H>,
    family: Seq<char>,
    asset: H,
    f: Seq<char>,
)
    requires
        after.families() == before.families().insert(family),
        after.asset_of(family) == asset,
        forall|g: Seq<char>|
            #![trigger after.asset_of(g)]
            g != family && before.families().contains(g) ==> after.asset_of(g)
                == before.asset_of(g),
    ensures
        after.families().contains(f) <==> (f == family || before.families().contains(f)),
        f == family ==> after.asset_of(f) == asset,
        f != family && before.families().contains(f) ==> after.asset_of(f) == before.asset_of(f),
{
}

} // verus!
