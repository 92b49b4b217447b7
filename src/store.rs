use vstd::prelude::*;
use crate::components::{Bundle, Kind, key_of, kind_bit};

verus! {

/// One entity: a stable id, the key of the component types it holds, whether
/// it is flagged for removal at the next commit, and its components.
#[derive(Debug, Copy, Clone)]
pub struct Entity {
    pub id: u64,
    pub key: u64,
    pub doomed: bool,
    pub parts: Bundle,
}

/// A key matches a query when it holds every bit of `inc` and no bit of `exc`.
pub open spec fn key_matches(key: u64, inc: u64, exc: u64) -> bool {
    key & inc == inc && key & exc == 0
}

/// The positions, in order, of the first `n` entities of `s` that match.
pub open spec fn matching(s: Seq<Entity>, inc: u64, exc: u64, n: int) -> Seq<usize>
    decreases n,
{
    if n <= 0 {
        Seq::empty()
    } else {
        let r = matching(s, inc, exc, n - 1);
        if key_matches(s[n - 1].key, inc, exc) {
            r.push((n - 1) as usize)
        } else {
            r
        }
    }
}

/// The entities of `s` that are not flagged, in order.
pub open spec fn survivors(s: Seq<Entity>) -> Seq<Entity>
    decreases s.len(),
{
    if s.len() == 0 {
        s
    } else {
        let r = survivors(s.drop_last());
        if s.last().doomed {
            r
        } else {
            r.push(s.last())
        }
    }
}

/// The entities of `s` that are flagged, in order.
pub open spec fn casualties(s: Seq<Entity>) -> Seq<Entity>
    decreases s.len(),
{
    if s.len() == 0 {
        s
    } else {
        let r = casualties(s.drop_last());
        if s.last().doomed {
            r.push(s.last())
        } else {
            r
        }
    }
}

pub open spec fn ids_increasing(s: Seq<Entity>) -> bool {
    forall|i: int, j: int| 0 <= i < j < s.len() ==> #[trigger] s[i].id < #[trigger] s[j].id
}

pub open spec fn doom(e: Entity) -> Entity {
    Entity { doomed: true, ..e }
}

/// Component storage with bitmask queries. Inserts and removals are
/// buffered and take effect together at `commit`; between commits the set
/// of committed entities and their keys never change.
pub struct EntityStore {
    /// The bits of the registered component types.
    pub registered: u64,
    /// Committed entities, visible to queries.
    pub live: Vec<Entity>,
    /// Entities inserted since the last commit.
    pub pending: Vec<Entity>,
    /// The id the next inserted entity gets.
    pub next_id: u64,
}

impl EntityStore {
    pub open spec fn entity_ok(&self, e: Entity) -> bool {
        &&& e.key == key_of(e.parts)
        &&& e.key & self.registered == e.key
        &&& e.id < self.next_id
    }

    pub open spec fn wf(&self) -> bool {
        &&& forall|i: int| 0 <= i < self.live@.len() ==> self.entity_ok(#[trigger] self.live@[i])
        &&& forall|i: int|
            0 <= i < self.pending@.len() ==> self.entity_ok(#[trigger] self.pending@[i])
                && !self.pending@[i].doomed
        &&& ids_increasing(self.live@ + self.pending@)
    }

    pub open spec fn is_registered(&self, k: Kind) -> bool {
        self.registered & kind_bit(k) == kind_bit(k)
    }

    /// An empty store with no component type registered.
    pub fn new() -> (r: EntityStore)
        ensures
            r.wf(),
            r.registered == 0,
            r.live@.len() == 0,
            r.pending@.len() == 0,
            r.next_id == 0,
    {
        EntityStore { registered: 0, live: Vec::new(), pending: Vec::new(), next_id: 0 }
    }

    /// Declares a component type, giving it its bit of the key space.
    pub fn register(&mut self, k: Kind)
        requires
            old(self).wf(),
        ensures
            final(self).wf(),
            final(self).registered == old(self).registered | kind_bit(k),
            final(self).live == old(self).live,
            final(self).pending == old(self).pending,
            final(self).next_id == old(self).next_id,
    {
        let b = k.bit();
        let ghost before = self.registered;
        self.registered = self.registered | b;
        proof {
            assert forall|key: u64| key & before == key implies key & (before | b) == key by {
                lemma_and_or(key, before, b);
            }
            assert forall|i: int| 0 <= i < self.live@.len() implies self.entity_ok(
                #[trigger] self.live@[i],
            ) by {
                lemma_and_or(self.live@[i].key, before, b);
            }
            assert forall|i: int| 0 <= i < self.pending@.len() implies self.entity_ok(
                #[trigger] self.pending@[i],
            ) && !self.pending@[i].doomed by {
                lemma_and_or(self.pending@[i].key, before, b);
            }
        }
    }

    /// The key bit of a registered component type.
    pub fn key_for(&self, k: Kind) -> (r: u64)
        requires
            self.is_registered(k),
        ensures
            r == kind_bit(k),
    {
        k.bit()
    }

    /// Buffers a new entity holding exactly `parts`; it becomes visible to
    /// queries at the next commit. Returns its id.
    pub fn insert(&mut self, parts: Bundle) -> (id: u64)
        requires
            old(self).wf(),
            key_of(parts) & old(self).registered == key_of(parts),
            old(self).next_id < u64::MAX,
        ensures
            final(self).wf(),
            id == old(self).next_id,
            final(self).next_id == old(self).next_id + 1,
            final(self).registered == old(self).registered,
            final(self).live == old(self).live,
            final(self).pending@ == old(self).pending@.push(
                Entity { id, key: key_of(parts), doomed: false, parts },
            ),
    {
        let id = self.next_id;
        let e = Entity { id, key: parts.key(), doomed: false, parts };
        let ghost all = self.live@ + self.pending@;
        self.pending.push(e);
        self.next_id = self.next_id + 1;
        proof {
            assert(self.live@ + self.pending@ =~= all.push(e));
            assert forall|i: int| 0 <= i < all.len() implies #[trigger] all[i].id < id by {
                if i < self.live@.len() {
                    assert(all[i] == self.live@[i]);
                } else {
                    assert(all[i] == old(self).pending@[i - self.live@.len()]);
                }
            }
            assert forall|i: int| 0 <= i < self.live@.len() implies self.entity_ok(
                #[trigger] self.live@[i],
            ) by {
                assert(old(self).entity_ok(old(self).live@[i]));
            }
            assert forall|i: int| 0 <= i < self.pending@.len() implies self.entity_ok(
                #[trigger] self.pending@[i],
            ) && !self.pending@[i].doomed by {
                if i < old(self).pending@.len() {
                    assert(old(self).entity_ok(old(self).pending@[i]));
                }
            }
        }
        id
    }

    /// Number of committed entities.
    pub fn len(&self) -> (r: usize)
        ensures
            r == self.live@.len(),
    {
        self.live.len()
    }

    /// The committed entity at position `i`.
    pub fn get(&self, i: usize) -> (r: Entity)
        requires
            i < self.live@.len(),
        ensures
            r == self.live@[i as int],
    {
        self.live[i]
    }

    /// Replaces the component values of the committed entity at `i`; the set
    /// of component types it holds stays the same.
    pub fn set_parts(&mut self, i: usize, parts: Bundle)
        requires
            old(self).wf(),
            i < old(self).live@.len(),
            key_of(parts) == old(self).live@[i as int].key,
        ensures
            final(self).wf(),
            final(self).live@ == old(self).live@.update(
                i as int,
                Entity { parts, ..old(self).live@[i as int] },
            ),
            final(self).pending == old(self).pending,
            final(self).registered == old(self).registered,
            final(self).next_id == old(self).next_id,
    {
        let mut e = self.live[i];
        e.parts = parts;
        let ghost all = self.live@ + self.pending@;
        self.live.set(i, e);
        proof {
            let nw = all.update(i as int, e);
            assert(self.live@ + self.pending@ =~= nw);
            assert forall|a: int, b: int| 0 <= a < b < nw.len() implies #[trigger] nw[a].id
                < #[trigger] nw[b].id by {
                assert(nw[a].id == all[a].id);
                assert(nw[b].id == all[b].id);
            }
            assert forall|j: int| 0 <= j < self.live@.len() implies self.entity_ok(
                #[trigger] self.live@[j],
            ) by {
                assert(old(self).entity_ok(old(self).live@[j]));
            }
        }
    }

    /// Flags the committed entity at `i` for removal at the next commit. It
    /// stays visible to queries until then.
    pub fn flag_destroy(&mut self, i: usize)
        requires
            old(self).wf(),
            i < old(self).live@.len(),
        ensures
            final(self).wf(),
            final(self).live@ == old(self).live@.update(i as int, doom(old(self).live@[i as int])),
            final(self).pending == old(self).pending,
            final(self).registered == old(self).registered,
            final(self).next_id == old(self).next_id,
    {
        let mut e = self.live[i];
        e.doomed = true;
        let ghost all = self.live@ + self.pending@;
        self.live.set(i, e);
        proof {
            let nw = all.update(i as int, e);
            assert(self.live@ + self.pending@ =~= nw);
            assert forall|a: int, b: int| 0 <= a < b < nw.len() implies #[trigger] nw[a].id
                < #[trigger] nw[b].id by {
                assert(nw[a].id == all[a].id);
                assert(nw[b].id == all[b].id);
            }
            assert forall|j: int| 0 <= j < self.live@.len() implies self.entity_ok(
                #[trigger] self.live@[j],
            ) by {
                assert(old(self).entity_ok(old(self).live@[j]));
            }
        }
    }

    /// The positions, in increasing order, of the committed entities whose
    /// key holds every bit of `inc` and no bit of `exc`.
    pub fn query(&self, inc: u64, exc: u64) -> (r: Vec<usize>)
        requires
            inc & self.registered == inc,
            exc & self.registered == exc,
        ensures
            r@ == matching(self.live@, inc, exc, self.live@.len() as int),
            forall|i: int|
                0 <= i < self.live@.len() ==> (r@.contains(i as usize) <==> key_matches(
                    #[trigger] self.live@[i].key,
                    inc,
                    exc,
                )),
            forall|k: int| 0 <= k < r@.len() ==> #[trigger] r@[k] < self.live@.len(),
            forall|k: int, l: int| 0 <= k < l < r@.len() ==> #[trigger] r@[k] < #[trigger] r@[l],
    {
        let mut r: Vec<usize> = Vec::new();
        let mut n: usize = 0;
        while n < self.live.len()
            invariant
                n <= self.live@.len(),
                r@ == matching(self.live@, inc, exc, n as int),
            decreases self.live@.len() - n,
        {
            let key = self.live[n].key;
            if key & inc == inc && key & exc == 0 {
                r.push(n);
            }
            n = n + 1;
        }
        proof {
            lemma_matching(self.live@, inc, exc, self.live@.len() as int);
        }
        r
    }

    /// Applies the buffered changes: flagged entities leave, buffered inserts
    /// join, in order. Returns the entities that left.
    pub fn commit(&mut self) -> (removed: Vec<Entity>)
        requires
            old(self).wf(),
        ensures
            final(self).wf(),
            final(self).live@ == survivors(old(self).live@) + old(self).pending@,
            final(self).pending@.len() == 0,
            final(self).registered == old(self).registered,
            final(self).next_id == old(self).next_id,
            removed@ == casualties(old(self).live@),
    {
        let mut kept: Vec<Entity> = Vec::new();
        let mut removed: Vec<Entity> = Vec::new();
        let mut i: usize = 0;
        while i < self.live.len()
            invariant
                i <= self.live@.len(),
                kept@ == survivors(self.live@.take(i as int)),
                removed@ == casualties(self.live@.take(i as int)),
            decreases self.live@.len() - i,
        {
            let e = self.live[i];
            assert(self.live@.take(i + 1).drop_last() =~= self.live@.take(i as int));
            if e.doomed {
                removed.push(e);
            } else {
                kept.push(e);
            }
            i = i + 1;
        }
        assert(self.live@.take(i as int) =~= self.live@);
        let ghost s = kept@;
        let mut j: usize = 0;
        while j < self.pending.len()
            invariant
                j <= self.pending@.len(),
                kept@ == s + self.pending@.take(j as int),
            decreases self.pending@.len() - j,
        {
            kept.push(self.pending[j]);
            assert(self.pending@.take(j + 1) =~= self.pending@.take(j as int).push(
                self.pending@[j as int],
            ));
            j = j + 1;
        }
        assert(self.pending@.take(j as int) =~= self.pending@);
        proof {
            lemma_survivors(old(self).live@, old(self).pending@);
        }
        self.live = kept;
        self.pending = Vec::new();
        proof {
            let sv = survivors(old(self).live@);
            assert forall|k: int| 0 <= k < self.live@.len() implies self.entity_ok(
                #[trigger] self.live@[k],
            ) by {
                if k < sv.len() {
                    let e = sv[k];
                    assert(old(self).live@.contains(e));
                    let m = choose|m: int| 0 <= m < old(self).live@.len() && old(self).live@[m] == e;
                    assert(old(self).entity_ok(old(self).live@[m]));
                } else {
                    assert(self.live@[k] == old(self).pending@[k - sv.len()]);
                    assert(old(self).entity_ok(old(self).pending@[k - sv.len()]));
                }
            }
            assert(self.live@ + self.pending@ =~= self.live@);
        }
        removed
    }
}

proof fn lemma_and_or(key: u64, r: u64, b: u64)
    requires
        key & r == key,
    ensures
        key & (r | b) == key,
{
    assert(key & r == key ==> key & (r | b) == key) by (bit_vector);
}

/// What `matching` yields: exactly the positions below `n` whose keys match,
/// each once, in increasing order.
pub proof fn lemma_matching(s: Seq<Entity>, inc: u64, exc: u64, n: int)
    requires
        0 <= n <= s.len(),
        n <= usize::MAX,
    ensures
        forall|i: int|
            0 <= i < n ==> (matching(s, inc, exc, n).contains(i as usize) <==> key_matches(
                #[trigger] s[i].key,
                inc,
                exc,
            )),
        forall|k: int|
            0 <= k < matching(s, inc, exc, n).len() ==> #[trigger] matching(s, inc, exc, n)[k]
                < n,
        forall|k: int, l: int|
            0 <= k < l < matching(s, inc, exc, n).len() ==> #[trigger] matching(s, inc, exc, n)[k]
                < #[trigger] matching(s, inc, exc, n)[l],
    decreases n,
{
    if n > 0 {
        lemma_matching(s, inc, exc, n - 1);
        let r = matching(s, inc, exc, n - 1);
        let m = matching(s, inc, exc, n);
        assert forall|i: int| 0 <= i < n implies (m.contains(i as usize) <==> key_matches(
            #[trigger] s[i].key,
            inc,
            exc,
        )) by {
            if key_matches(s[n - 1].key, inc, exc) {
                assert(m == r.push((n - 1) as usize));
                if i < n - 1 {
                    if m.contains(i as usize) {
                        let k = choose|k: int| 0 <= k < m.len() && m[k] == i as usize;
                        if k < r.len() {
                            assert(r[k] == i as usize);
                            assert(r.contains(i as usize));
                        }
                    }
                    if r.contains(i as usize) {
                        let k = choose|k: int| 0 <= k < r.len() && r[k] == i as usize;
                        assert(m[k] == i as usize);
                    }
                } else {
                    assert(m[m.len() - 1] == i as usize);
                }
            } else {
                assert(m == r);
                if i == n - 1 && m.contains(i as usize) {
                    let k = choose|k: int| 0 <= k < m.len() && m[k] == i as usize;
                    assert(m[k] < n - 1);
                }
            }
        }
    }
}

/// The entities that `survivors` keeps are unflagged entities of `s`.
pub proof fn lemma_survivors_from(s: Seq<Entity>)
    ensures
        forall|k: int|
            #![trigger survivors(s)[k]]
            0 <= k < survivors(s).len() ==> exists|m: int|
                0 <= m < s.len() && #[trigger] s[m] == survivors(s)[k] && !s[m].doomed,
    decreases s.len(),
{
    if s.len() > 0 {
        let p = s.drop_last();
        lemma_survivors_from(p);
        assert forall|k: int|
            #![trigger survivors(s)[k]]
            0 <= k < survivors(s).len() implies exists|m: int|
            0 <= m < s.len() && #[trigger] s[m] == survivors(s)[k] && !s[m].doomed by {
            if k < survivors(p).len() {
                let m = choose|m: int|
                    0 <= m < p.len() && p[m] == survivors(p)[k] && !p[m].doomed;
                assert(s[m] == p[m]);
            } else {
                assert(s[s.len() - 1] == survivors(s)[k]);
            }
        }
    }
}

/// Removal is deferred: flagging the entity at `i` leaves the result of
/// every query unchanged until the next commit, and after that commit no
/// committed entity has the flagged entity's id.
pub proof fn lemma_deferred_destroy(s: EntityStore, i: int, inc: u64, exc: u64)
    requires
        s.wf(),
        0 <= i < s.live@.len(),
    ensures
        matching(s.live@.update(i, doom(s.live@[i])), inc, exc, s.live@.len() as int) == matching(
            s.live@,
            inc,
            exc,
            s.live@.len() as int,
        ),
        forall|k: int|
            0 <= k < (survivors(s.live@.update(i, doom(s.live@[i]))) + s.pending@).len() ==> (
            #[trigger] (survivors(s.live@.update(i, doom(s.live@[i]))) + s.pending@)[k]).id
                != s.live@[i].id,
{
    let live = s.live@;
    let flagged = live.update(i, doom(live[i]));
    lemma_matching_same_keys(flagged, live, inc, exc, live.len() as int);
    lemma_survivors_from(flagged);
    let sv = survivors(flagged);
    let after = sv + s.pending@;
    let all = live + s.pending@;
    assert forall|k: int| 0 <= k < after.len() implies (#[trigger] after[k]).id != live[i].id by {
        assert(all[i] == live[i]);
        if k < sv.len() {
            let m = choose|m: int| 0 <= m < flagged.len() && #[trigger] flagged[m] == sv[k] && !flagged[m].doomed;
            assert(m != i);
            assert(all[m] == live[m]);
            assert(flagged[m] == live[m]);
        } else {
            let m = live.len() + (k - sv.len());
            assert(all[m] == after[k]);
        }
    }
}

/// Queries read keys alone.
proof fn lemma_matching_same_keys(a: Seq<Entity>, b: Seq<Entity>, inc: u64, exc: u64, n: int)
    requires
        0 <= n <= a.len(),
        a.len() == b.len(),
        forall|j: int| 0 <= j < a.len() ==> #[trigger] a[j].key == b[j].key,
    ensures
        matching(a, inc, exc, n) == matching(b, inc, exc, n),
    decreases n,
{
    if n > 0 {
        lemma_matching_same_keys(a, b, inc, exc, n - 1);
        assert(a[n - 1].key == b[n - 1].key);
    }
}

/// Dropping the flagged entities keeps what remains in order, unflagged and
/// drawn from the given sequence.
proof fn lemma_survivors(s: Seq<Entity>, t: Seq<Entity>)
    requires
        ids_increasing(s + t),
    ensures
        ids_increasing(survivors(s) + t),
        forall|k: int|
            0 <= k < survivors(s).len() ==> s.contains(#[trigger] survivors(s)[k])
                && !survivors(s)[k].doomed,
    decreases s.len(),
{
    if s.len() == 0 {
        assert(survivors(s) + t =~= s + t);
    } else {
        let p = s.drop_last();
        let x = s.last();
        assert(s + t =~= p + (seq![x] + t));
        lemma_survivors(p, seq![x] + t);
        let sp = survivors(p);
        let u = sp + (seq![x] + t);
        if x.doomed {
            let v = sp + t;
            assert forall|i: int, j: int| 0 <= i < j < v.len() implies #[trigger] v[i].id
                < #[trigger] v[j].id by {
                let i2 = if i < sp.len() {
                    i
                } else {
                    i + 1
                };
                let j2 = if j < sp.len() {
                    j
                } else {
                    j + 1
                };
                assert(v[i] == u[i2]);
                assert(v[j] == u[j2]);
            }
        } else {
            assert(sp.push(x) + t =~= u);
        }
        assert forall|k: int| 0 <= k < survivors(s).len() implies s.contains(
            #[trigger] survivors(s)[k],
        ) && !survivors(s)[k].doomed by {
            if k < sp.len() {
                let e = sp[k];
                assert(survivors(s)[k] == e);
                assert(p.contains(e));
                let m = choose|m: int| 0 <= m < p.len() && p[m] == e;
                assert(s[m] == e);
            } else {
                assert(survivors(s)[k] == x);
                assert(s[s.len() - 1] == x);
            }
        }
    }
}

} // verus!
