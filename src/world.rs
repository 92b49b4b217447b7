use vstd::prelude::*;
use crate::physics::{PhysicsRegistry, Pose, handle_key};
use crate::store::{
    Entity, EntityStore, casualties, doom, ids_increasing, lemma_survivors_from, survivors,
};
use crate::components::{Bundle, Kind, all_kinds, key_of};
use crate::handle::Handle;

verus! {

broadcast use vstd::std_specs::hash::group_hash_axioms;

/// The registry key of the body an entity holds, if any.
pub open spec fn body_key(e: Entity) -> Option<u64> {
    match e.parts.physics_body {
        Some(b) => Some(handle_key(b.0)),
        None => None,
    }
}

/// The registry key of the collider an entity holds, if any.
pub open spec fn collider_key(e: Entity) -> Option<u64> {
    match e.parts.physics_collider {
        Some(c) => Some(handle_key(c.0)),
        None => None,
    }
}

/// The body key (`bodies`) or the collider key (`!bodies`) of an entity.
pub open spec fn slot(e: Entity, bodies: bool) -> Option<u64> {
    if bodies {
        body_key(e)
    } else {
        collider_key(e)
    }
}

/// The body keys (`bodies`) or the collider keys (`!bodies`) that the
/// entities of `s` hold.
pub open spec fn key_set(s: Seq<Entity>, bodies: bool) -> Set<u64>
    decreases s.len(),
{
    if s.len() == 0 {
        Set::empty()
    } else {
        let r = key_set(s.drop_last(), bodies);
        match slot(s.last(), bodies) {
            Some(k) => r.insert(k),
            None => r,
        }
    }
}

/// Two entities hold the same body or the same collider.
pub open spec fn shares(a: Entity, b: Entity) -> bool {
    ||| (body_key(a).is_some() && body_key(a) == body_key(b))
    ||| (collider_key(a).is_some() && collider_key(a) == collider_key(b))
}

/// The entity store together with the physics handles its entities own.
pub struct World {
    pub store: EntityStore,
    pub physics: PhysicsRegistry,
}

impl World {
    /// Committed entities followed by buffered ones.
    pub open spec fn all(&self) -> Seq<Entity> {
        self.store.live@ + self.store.pending@
    }

    pub open spec fn handles_valid(&self, e: Entity) -> bool {
        &&& (body_key(e) matches Some(k) ==> self.physics.bodies@.contains_key(k))
        &&& (collider_key(e) matches Some(k) ==> self.physics.colliders@.contains(k))
    }

    /// Every handle an entity holds is live, and no two entities hold the
    /// same handle.
    pub open spec fn wf(&self) -> bool {
        &&& self.store.wf()
        &&& self.physics.wf()
        &&& forall|i: int| 0 <= i < self.all().len() ==> self.handles_valid(#[trigger] self.all()[i])
        &&& forall|i: int, j: int|
            0 <= i < self.all().len() && 0 <= j < self.all().len() && i != j ==> !shares(
                #[trigger] self.all()[i],
                #[trigger] self.all()[j],
            )
    }

    /// No entity holds a body or collider that `parts` holds.
    pub open spec fn unclaimed(&self, parts: Bundle) -> bool {
        forall|i: int|
            0 <= i < self.all().len() ==> {
                &&& (parts.physics_body matches Some(b) ==> body_key(#[trigger] self.all()[i])
                    != Some(handle_key(b.0)))
                &&& (parts.physics_collider matches Some(c) ==> collider_key(self.all()[i])
                    != Some(handle_key(c.0)))
            }
    }

    /// An empty world with every component type registered.
    pub fn new() -> (r: World)
        ensures
            r.wf(),
            r.store.registered == all_kinds(),
            r.store.live@.len() == 0,
            r.store.pending@.len() == 0,
            r.store.next_id == 0,
            r.physics.bodies@ == Map::<u64, Pose>::empty(),
            r.physics.colliders@ == Set::<u64>::empty(),
            r.physics.handles.id == 0,
    {
        let mut store = EntityStore::new();
        store.register(Kind::SpriteXY);
        store.register(Kind::SpriteUV);
        store.register(Kind::SpriteWH);
        store.register(Kind::SpriteR);
        store.register(Kind::PhysicsBody);
        store.register(Kind::PhysicsCollider);
        store.register(Kind::SyncSpriteToPhysics);
        store.register(Kind::CursorSnapSpriteToGrid);
        store.register(Kind::CursorEmitDestroyEventOnLMBDown);
        store.register(Kind::SetUVOnLMBDown);
        store.register(Kind::SetUVOnLMBUp);
        store.register(Kind::HP);
        store.register(Kind::TakeCursorDamage);
        store.register(Kind::KillUpon0HP);
        assert(0u64 | 0x1u64 | 0x2u64 | 0x4u64 | 0x8u64 | 0x10u64 | 0x20u64 | 0x40u64 | 0x80u64
            | 0x100u64 | 0x200u64 | 0x400u64 | 0x800u64 | 0x1000u64 | 0x2000u64 == 0x3fffu64)
            by (bit_vector);
        World { store, physics: PhysicsRegistry::new() }
    }

    proof fn lemma_fresh_unowned(&self)
        requires
            self.wf(),
        ensures
            forall|i: int|
                0 <= i < self.all().len() ==> (body_key(#[trigger] self.all()[i]) matches Some(k)
                    ==> k < self.physics.handles.id as int * 0x1_0000_0000) && (collider_key(
                    self.all()[i],
                ) matches Some(k) ==> k < self.physics.handles.id as int * 0x1_0000_0000),
    {
        assert forall|i: int| 0 <= i < self.all().len() implies (body_key(
            #[trigger] self.all()[i],
        ) matches Some(k) ==> k < self.physics.handles.id as int * 0x1_0000_0000) && (collider_key(
            self.all()[i],
        ) matches Some(k) ==> k < self.physics.handles.id as int * 0x1_0000_0000) by {
            assert(self.handles_valid(self.all()[i]));
        }
    }

    /// Registers a new body at `pose`, held by no entity yet.
    pub fn add_body(&mut self, pose: Pose) -> (h: Handle)
        requires
            old(self).wf(),
            old(self).physics.handles.id < u32::MAX,
        ensures
            final(self).wf(),
            final(self).store == old(self).store,
            final(self).physics.bodies@ == old(self).physics.bodies@.insert(handle_key(h), pose),
            final(self).physics.colliders@ == old(self).physics.colliders@,
            final(self).physics.handles.id == old(self).physics.handles.id + 1,
            old(self).physics.is_fresh(h),
            forall|i: int|
                0 <= i < final(self).all().len() ==> body_key(#[trigger] final(self).all()[i])
                    != Some(handle_key(h)) && collider_key(final(self).all()[i]) != Some(
                    handle_key(h),
                ),
    {
        proof {
            self.lemma_fresh_unowned();
        }
        let h = self.physics.add_body(pose);
        proof {
            assert forall|i: int| 0 <= i < self.all().len() implies self.handles_valid(
                #[trigger] self.all()[i],
            ) by {
                assert(old(self).handles_valid(old(self).all()[i]));
            }
        }
        h
    }

    /// Registers a new collider, held by no entity yet.
    pub fn add_collider(&mut self) -> (h: Handle)
        requires
            old(self).wf(),
            old(self).physics.handles.id < u32::MAX,
        ensures
            final(self).wf(),
            final(self).store == old(self).store,
            final(self).physics.colliders@ == old(self).physics.colliders@.insert(handle_key(h)),
            final(self).physics.bodies@ == old(self).physics.bodies@,
            final(self).physics.handles.id == old(self).physics.handles.id + 1,
            old(self).physics.is_fresh(h),
            forall|i: int|
                0 <= i < final(self).all().len() ==> body_key(#[trigger] final(self).all()[i])
                    != Some(handle_key(h)) && collider_key(final(self).all()[i]) != Some(
                    handle_key(h),
                ),
    {
        proof {
            self.lemma_fresh_unowned();
        }
        let h = self.physics.add_collider();
        proof {
            assert forall|i: int| 0 <= i < self.all().len() implies self.handles_valid(
                #[trigger] self.all()[i],
            ) by {
                assert(old(self).handles_valid(old(self).all()[i]));
            }
        }
        h
    }

    /// Buffers a new entity holding exactly `parts`, whose handles must be
    /// live and held by no other entity. Returns its id.
    pub fn spawn(&mut self, parts: Bundle) -> (id: u64)
        requires
            old(self).wf(),
            key_of(parts) & old(self).store.registered == key_of(parts),
            old(self).store.next_id < u64::MAX,
            old(self).handles_valid(Entity { id: 0, key: 0, doomed: false, parts }),
            old(self).unclaimed(parts),
        ensures
            final(self).wf(),
            id == old(self).store.next_id,
            final(self).store.next_id == old(self).store.next_id + 1,
            final(self).store.registered == old(self).store.registered,
            final(self).store.live == old(self).store.live,
            final(self).store.pending@ == old(self).store.pending@.push(
                Entity { id, key: key_of(parts), doomed: false, parts },
            ),
            final(self).physics == old(self).physics,
    {
        let id = self.store.insert(parts);
        proof {
            let e = Entity { id, key: key_of(parts), doomed: false, parts };
            let a0 = old(self).all();
            assert(self.all() =~= a0.push(e));
            assert forall|i: int| 0 <= i < self.all().len() implies self.handles_valid(
                #[trigger] self.all()[i],
            ) by {
                if i < a0.len() {
                    assert(old(self).handles_valid(a0[i]));
                }
            }
            assert forall|i: int, j: int|
                0 <= i < self.all().len() && 0 <= j < self.all().len() && i != j implies !shares(
                #[trigger] self.all()[i],
                #[trigger] self.all()[j],
            ) by {
                if i < a0.len() && j < a0.len() {
                    assert(!shares(a0[i], a0[j]));
                }
            }
        }
        id
    }

    /// Replaces the component values of the committed entity at `i`,
    /// keeping the component types it holds and its handles.
    pub fn set_parts(&mut self, i: usize, parts: Bundle)
        requires
            old(self).wf(),
            i < old(self).store.live@.len(),
            key_of(parts) == old(self).store.live@[i as int].key,
            parts.physics_body == old(self).store.live@[i as int].parts.physics_body,
            parts.physics_collider == old(self).store.live@[i as int].parts.physics_collider,
        ensures
            final(self).wf(),
            final(self).store.live@ == old(self).store.live@.update(
                i as int,
                Entity { parts, ..old(self).store.live@[i as int] },
            ),
            final(self).store.pending == old(self).store.pending,
            final(self).store.registered == old(self).store.registered,
            final(self).store.next_id == old(self).store.next_id,
            final(self).physics == old(self).physics,
    {
        self.store.set_parts(i, parts);
        proof {
            let a0 = old(self).all();
            assert(self.all() =~= a0.update(i as int, self.store.live@[i as int]));
            assert forall|j: int| 0 <= j < self.all().len() implies self.handles_valid(
                #[trigger] self.all()[j],
            ) by {
                assert(old(self).handles_valid(a0[j]));
            }
            assert forall|j: int, l: int|
                0 <= j < self.all().len() && 0 <= l < self.all().len() && j != l implies !shares(
                #[trigger] self.all()[j],
                #[trigger] self.all()[l],
            ) by {
                assert(!shares(a0[j], a0[l]));
            }
        }
    }

    /// Flags the committed entity at `i` for removal at the next commit.
    pub fn flag_destroy(&mut self, i: usize)
        requires
            old(self).wf(),
            i < old(self).store.live@.len(),
        ensures
            final(self).wf(),
            final(self).store.live@ == old(self).store.live@.update(
                i as int,
                doom(old(self).store.live@[i as int]),
            ),
            final(self).store.pending == old(self).store.pending,
            final(self).store.registered == old(self).store.registered,
            final(self).store.next_id == old(self).store.next_id,
            final(self).physics == old(self).physics,
    {
        self.store.flag_destroy(i);
        proof {
            let a0 = old(self).all();
            assert(self.all() =~= a0.update(i as int, self.store.live@[i as int]));
            assert forall|j: int| 0 <= j < self.all().len() implies self.handles_valid(
                #[trigger] self.all()[j],
            ) by {
                assert(old(self).handles_valid(a0[j]));
            }
            assert forall|j: int, l: int|
                0 <= j < self.all().len() && 0 <= l < self.all().len() && j != l implies !shares(
                #[trigger] self.all()[j],
                #[trigger] self.all()[l],
            ) by {
                assert(!shares(a0[j], a0[l]));
            }
        }
    }

    /// Applies the store's buffered changes and releases the body and
    /// collider of every entity that leaves. Returns the entities that left.
    pub fn commit(&mut self) -> (removed: Vec<Entity>)
        requires
            old(self).wf(),
        ensures
            final(self).wf(),
            final(self).store.live@ == survivors(old(self).store.live@) + old(self).store.pending@,
            final(self).store.pending@.len() == 0,
            final(self).store.registered == old(self).store.registered,
            final(self).store.next_id == old(self).store.next_id,
            removed@ == casualties(old(self).store.live@),
            final(self).physics.bodies@ == old(self).physics.bodies@.remove_keys(
                key_set(removed@, true),
            ),
            final(self).physics.colliders@ == old(self).physics.colliders@.difference(
                key_set(removed@, false),
            ),
            final(self).physics.handles == old(self).physics.handles,
    {
        let removed = self.store.commit();
        let ghost b0 = self.physics.bodies@;
        let ghost c0 = self.physics.colliders@;
        let ghost st = self.store;
        let mut i: usize = 0;
        while i < removed.len()
            invariant
                i <= removed@.len(),
                self.physics.wf(),
                self.physics.handles == old(self).physics.handles,
                self.store == st,
                b0 == old(self).physics.bodies@,
                c0 == old(self).physics.colliders@,
                self.physics.bodies@ == b0.remove_keys(key_set(removed@.take(i as int), true)),
                self.physics.colliders@ == c0.difference(key_set(removed@.take(i as int), false)),
            decreases removed@.len() - i,
        {
            let e = removed[i];
            let ghost bs = key_set(removed@.take(i as int), true);
            let ghost cs = key_set(removed@.take(i as int), false);
            proof {
                let t = removed@.take(i + 1);
                assert(t.drop_last() =~= removed@.take(i as int));
                assert(t.last() == e);
                assert(key_set(t, true) == (match body_key(e) {
                    Some(k) => bs.insert(k),
                    None => bs,
                }));
                assert(key_set(t, false) == (match collider_key(e) {
                    Some(k) => cs.insert(k),
                    None => cs,
                }));
            }
            match e.parts.physics_body {
                Some(b) => {
                    self.physics.release_body(b.0);
                    assert(b0.remove_keys(bs).remove(handle_key(b.0)) =~= b0.remove_keys(
                        bs.insert(handle_key(b.0)),
                    ));
                },
                None => {},
            }
            match e.parts.physics_collider {
                Some(c) => {
                    self.physics.release_collider(c.0);
                    assert(c0.difference(cs).remove(handle_key(c.0)) =~= c0.difference(
                        cs.insert(handle_key(c.0)),
                    ));
                },
                None => {},
            }
            i = i + 1;
        }
        assert(removed@.take(i as int) =~= removed@);
        proof {
            self.lemma_commit_wf(*old(self), removed@);
        }
        removed
    }

    proof fn lemma_commit_wf(&self, before: World, removed: Seq<Entity>)
        requires
            before.wf(),
            self.store.wf(),
            self.physics.wf(),
            removed == casualties(before.store.live@),
            self.store.live@ == survivors(before.store.live@) + before.store.pending@,
            self.store.pending@.len() == 0,
            self.physics.bodies@ == before.physics.bodies@.remove_keys(
                key_set(removed, true),
            ),
            self.physics.colliders@ == before.physics.colliders@.difference(
                key_set(removed, false),
            ),
        ensures
            self.wf(),
    {
        let live = before.store.live@;
        let old_all = before.all();
        let sv = survivors(live);
        let new_all = self.all();
        assert(new_all =~= sv + before.store.pending@);
        lemma_survivors_from(live);
        lemma_casualties_from(live);
        lemma_key_set(removed, true);
        lemma_key_set(removed, false);
        // Each entity that stays is an entity of before, at a position that
        // holds no flagged entity of `live`.
        assert forall|i: int| 0 <= i < new_all.len() implies exists|m: int|
            0 <= m < old_all.len() && old_all[m] == #[trigger] new_all[i] && (m < live.len()
                ==> !live[m].doomed) by {
            if i < sv.len() {
                let m = choose|m: int| 0 <= m < live.len() && live[m] == sv[i];
                assert(old_all[m] == live[m]);
            } else {
                let m = live.len() + (i - sv.len());
                assert(old_all[m] == new_all[i]);
            }
        }
        assert forall|i: int| 0 <= i < new_all.len() implies self.handles_valid(
            #[trigger] new_all[i],
        ) by {
            let e = new_all[i];
            let m = choose|m: int|
                0 <= m < old_all.len() && old_all[m] == e && (m < live.len() ==> !live[m].doomed);
            assert(before.handles_valid(old_all[m]));
            if let Some(k) = body_key(e) {
                if key_set(removed, true).contains(k) {
                    let q = choose|q: int|
                        0 <= q < removed.len() && slot(removed[q], true) == Some(k);
                    let m2 = choose|m2: int| 0 <= m2 < live.len() && live[m2] == removed[q];
                    assert(old_all[m2] == live[m2]);
                    assert(shares(old_all[m], old_all[m2]));
                }
            }
            if let Some(k) = collider_key(e) {
                if key_set(removed, false).contains(k) {
                    let q = choose|q: int|
                        0 <= q < removed.len() && slot(removed[q], false) == Some(
                            k,
                        );
                    let m2 = choose|m2: int| 0 <= m2 < live.len() && live[m2] == removed[q];
                    assert(old_all[m2] == live[m2]);
                    assert(shares(old_all[m], old_all[m2]));
                }
            }
        }
        assert forall|i: int, j: int|
            0 <= i < new_all.len() && 0 <= j < new_all.len() && i != j implies !shares(
            #[trigger] new_all[i],
            #[trigger] new_all[j],
        ) by {
            let mi = choose|m: int|
                0 <= m < old_all.len() && old_all[m] == new_all[i] && (m < live.len()
                    ==> !live[m].doomed);
            let mj = choose|m: int|
                0 <= m < old_all.len() && old_all[m] == new_all[j] && (m < live.len()
                    ==> !live[m].doomed);
            assert(ids_increasing(self.store.live@ + self.store.pending@));
            if i < j {
                assert(new_all[i].id < new_all[j].id);
            } else {
                assert(new_all[j].id < new_all[i].id);
            }
        }
    }
}

/// Handles leave with their entity: when a flagged entity that holds a body
/// or a collider is committed away, the registry that results no longer
/// holds that body or collider, so every later lookup of it fails.
pub proof fn lemma_release_on_destroy(w: World, i: int)
    requires
        w.wf(),
        0 <= i < w.store.live@.len(),
        w.store.live@[i].doomed,
    ensures
        w.store.live@[i].parts.physics_body matches Some(b) ==> !w.physics.bodies@.remove_keys(
            key_set(casualties(w.store.live@), true),
        ).contains_key(handle_key(b.0)),
        w.store.live@[i].parts.physics_collider matches Some(c) ==> !w.physics.colliders@.difference(
            key_set(casualties(w.store.live@), false),
        ).contains(handle_key(c.0)),
{
    let live = w.store.live@;
    let cas = casualties(live);
    lemma_casualties_cover(live);
    lemma_key_set(cas, true);
    lemma_key_set(cas, false);
    assert(cas.contains(live[i]));
    let q = choose|q: int| 0 <= q < cas.len() && cas[q] == live[i];
    assert(slot(cas[q], true) == body_key(live[i]));
    assert(slot(cas[q], false) == collider_key(live[i]));
}

/// Membership in `key_set`: a key is in it exactly when some entity yields it.
pub proof fn lemma_key_set(s: Seq<Entity>, sel: bool)
    ensures
        forall|k: u64|
            #[trigger] key_set(s, sel).contains(k) <==> exists|q: int|
                0 <= q < s.len() && slot(s[q], sel) == Some(k),
    decreases s.len(),
{
    if s.len() > 0 {
        let p = s.drop_last();
        lemma_key_set(p, sel);
        let r = key_set(p, sel);
        assert(s.last() == s[s.len() - 1]);
        assert(key_set(s, sel) == (match slot(s.last(), sel) {
            Some(k2) => r.insert(k2),
            None => r,
        }));
        assert forall|k: u64| #[trigger] key_set(s, sel).contains(k) <==> exists|q: int|
            0 <= q < s.len() && slot(s[q], sel) == Some(k) by {
            if r.contains(k) {
                let q = choose|q: int| 0 <= q < p.len() && slot(p[q], sel) == Some(k);
                assert(s[q] == p[q]);
            }
            if exists|q: int| 0 <= q < s.len() && slot(s[q], sel) == Some(k) {
                let q = choose|q: int| 0 <= q < s.len() && slot(s[q], sel) == Some(k);
                if q < s.len() - 1 {
                    assert(p[q] == s[q]);
                }
            }
        }
    }
}

/// The entities that `casualties` yields are flagged entities of `s`.
pub proof fn lemma_casualties_from(s: Seq<Entity>)
    ensures
        forall|k: int|
            #![trigger casualties(s)[k]]
            0 <= k < casualties(s).len() ==> exists|m: int|
                0 <= m < s.len() && #[trigger] s[m] == casualties(s)[k] && s[m].doomed,
    decreases s.len(),
{
    if s.len() > 0 {
        let p = s.drop_last();
        lemma_casualties_from(p);
        assert forall|k: int|
            #![trigger casualties(s)[k]]
            0 <= k < casualties(s).len() implies exists|m: int|
            0 <= m < s.len() && #[trigger] s[m] == casualties(s)[k] && s[m].doomed by {
            if k < casualties(p).len() {
                let m = choose|m: int|
                    0 <= m < p.len() && p[m] == casualties(p)[k] && p[m].doomed;
                assert(s[m] == p[m]);
            } else {
                assert(s[s.len() - 1] == casualties(s)[k]);
            }
        }
    }
}

/// Every flagged entity of `s` is among its casualties.
pub proof fn lemma_casualties_cover(s: Seq<Entity>)
    ensures
        forall|m: int| 0 <= m < s.len() && #[trigger] s[m].doomed ==> casualties(s).contains(s[m]),
    decreases s.len(),
{
    if s.len() > 0 {
        let p = s.drop_last();
        lemma_casualties_cover(p);
        assert forall|m: int| 0 <= m < s.len() && #[trigger] s[m].doomed implies casualties(
            s,
        ).contains(s[m]) by {
            if m < s.len() - 1 {
                assert(p[m] == s[m]);
                assert(casualties(p).contains(p[m]));
                let k = choose|k: int| 0 <= k < casualties(p).len() && casualties(p)[k] == p[m];
                assert(casualties(s)[k] == s[m]);
            } else {
                let c = casualties(s);
                assert(c[c.len() - 1] == s[m]);
            }
        }
    }
}

} // verus!
