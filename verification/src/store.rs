//! The entity store.
//!
//! Every stored record is an [`Entity`]: a domain payload together with an
//! identity and two timestamps.  Records of one payload type live in a
//! [`Collection`], which hands out ascending ids and keeps them unique.
//! Timestamps come from the logical clock of the database that owns the
//! collections; a collection only demands that the stamp handed to a
//! mutation lies strictly after every stamp already stored, which is what
//! makes `updated_at` strictly increase across successful updates.

use vstd::prelude::*;

use crate::crud::Patchable;

verus! {

pub struct Entity<D> {
    pub id: u64,
    pub data: D,
    pub created_at: u64,
    pub updated_at: u64,
}

pub struct Collection<D> {
    pub entities: Vec<Entity<D>>,
    pub next_id: u64,
}

impl<D> Collection<D> {
    pub open spec fn len(self) -> int {
        self.entities@.len() as int
    }

    /// Some stored record carries this id.
    pub open spec fn has(self, id: u64) -> bool {
        exists|i: int| 0 <= i < self.len() && self.entities@[i].id == id
    }

    /// The position of the record carrying `id`.
    pub open spec fn idx(self, id: u64) -> int {
        choose|i: int| 0 <= i < self.len() && self.entities@[i].id == id
    }

    /// The record carrying `id`.
    pub open spec fn get(self, id: u64) -> Entity<D> {
        self.entities@[self.idx(id)]
    }

    /// Ids are unique, below the id counter, and creation never lies after
    /// the latest update.
    pub open spec fn wf(self) -> bool {
        &&& forall|i: int, j: int|
            0 <= i < j < self.len() ==> self.entities@[i].id != self.entities@[j].id
        &&& forall|i: int| 0 <= i < self.len() ==> self.entities@[i].id < self.next_id
        &&& forall|i: int|
            0 <= i < self.len() ==> self.entities@[i].created_at <= self.entities@[i].updated_at
    }

    /// Every stored timestamp is at most `t`.
    pub open spec fn times_le(self, t: int) -> bool {
        forall|i: int|
            0 <= i < self.len() ==> self.entities@[i].created_at <= t
                && self.entities@[i].updated_at <= t
    }

    /// `post` is the state after inserting `data` into `pre` at time `now`.
    pub open spec fn inserted(pre: Self, post: Self, data: D, now: u64) -> bool {
        &&& post.entities@ == pre.entities@.push(
            Entity { id: pre.next_id, data, created_at: now, updated_at: now },
        )
        &&& post.next_id == pre.next_id + 1
    }

    /// In a well-formed collection, the record seen at position `i` is the
    /// record `get` returns for its id.
    pub proof fn lemma_at(self, i: int)
        requires
            self.wf(),
            0 <= i < self.len(),
        ensures
            self.has(self.entities@[i].id),
            self.idx(self.entities@[i].id) == i,
            self.get(self.entities@[i].id) == self.entities@[i],
    {
        let id = self.entities@[i].id;
        assert(self.has(id));
        let j = self.idx(id);
        if j != i {
            if j < i {
                assert(self.entities@[j].id != self.entities@[i].id);
            } else {
                assert(self.entities@[i].id != self.entities@[j].id);
            }
        }
    }

    /// Replacing the record at `i` by one with the same id keeps the
    /// collection well formed and leaves every other record as it was.
    pub proof fn lemma_replaced(pre: Self, post: Self, i: int, e: Entity<D>)
        requires
            pre.wf(),
            0 <= i < pre.len(),
            post.entities@ == pre.entities@.update(i, e),
            e.id == pre.entities@[i].id,
            e.created_at <= e.updated_at,
            post.next_id == pre.next_id,
        ensures
            post.wf(),
            forall|x: u64| post.has(x) == pre.has(x),
            post.get(e.id) == e,
            forall|x: u64| x != e.id && pre.has(x) ==> post.get(x) == pre.get(x),
            pre.get(e.id) == pre.entities@[i],
    {
        pre.lemma_at(i);
        assert forall|x: u64| post.has(x) == pre.has(x) by {
            if pre.has(x) {
                let k = pre.idx(x);
                assert(post.entities@[k].id == x);
            }
            if post.has(x) {
                let k = post.idx(x);
                assert(pre.entities@[k].id == x || x == e.id);
            }
        }
        post.lemma_at(i);
        assert forall|x: u64| x != e.id && pre.has(x) implies post.get(x) == pre.get(x) by {
            let k = pre.idx(x);
            assert(pre.entities@[k].id == x);
            assert(k != i);
            assert(post.entities@[k] == pre.entities@[k]);
            post.lemma_at(k);
        }
    }

    /// An update by id in two halves: `mid` is the state after
    /// [`Self::extract`] took the record `e` at position `i` out, `post` the
    /// state after [`Self::restore`] put the successor `e2` back in its
    /// place.  The successor keeps id and creation time and is stamped with
    /// `now`, which lies after every stored timestamp; nothing else moves.
    pub proof fn lemma_update_entity(
        pre: Self,
        mid: Self,
        post: Self,
        i: int,
        e: Entity<D>,
        e2: Entity<D>,
        now: u64,
    )
        requires
            pre.wf(),
            pre.times_le(now - 1),
            0 <= i < pre.len(),
            pre.entities@[i] == e,
            mid.entities@ == pre.entities@.remove(i),
            mid.next_id == pre.next_id,
            post.entities@ == mid.entities@.insert(i, e2),
            post.next_id == mid.next_id,
            e2.id == e.id,
            e2.created_at == e.created_at,
            e2.updated_at == now,
        ensures
            post.wf(),
            post.times_le(now as int),
            post.next_id == pre.next_id,
            forall|x: u64| post.has(x) == pre.has(x),
            pre.has(e.id),
            pre.idx(e.id) == i,
            pre.get(e.id) == e,
            post.get(e.id) == e2,
            e.updated_at < now,
            forall|x: u64| x != e.id && pre.has(x) ==> post.get(x) == pre.get(x),
    {
        pre.lemma_at(i);
        assert(post.entities@ =~= pre.entities@.update(i, e2));
        assert(e2.created_at <= e2.updated_at) by {
            assert(pre.entities@[i].created_at <= now - 1);
        }
        Self::lemma_replaced(pre, post, i, e2);
        assert(post.times_le(now as int)) by {
            assert(forall|k: int|
                0 <= k < post.entities@.len() ==> post.entities@[k]
                    == pre.entities@.update(i, e2)[k]);
        }
        assert(e.updated_at < now) by {
            assert(pre.entities@[i].updated_at <= now - 1);
        }
    }

    /// One step of a keep/delete walk that keeps the record at `done`.
    pub proof fn lemma_keep_step(
        pre: Seq<Entity<D>>,
        kept0: Seq<Entity<D>>,
        kept: Seq<Entity<D>>,
        done: int,
        p: spec_fn(Entity<D>) -> bool,
    )
        requires
            forall|i: int, j: int| 0 <= i < j < pre.len() ==> pre[i].id != pre[j].id,
            0 <= done < pre.len(),
            kept == kept0.push(pre[done]),
            !p(pre[done]),
            forall|k: int| 0 <= k < kept0.len() ==> pre.subrange(0, done).contains(kept0[k])
                && !p(kept0[k]),
            forall|j: int| 0 <= j < done && !p(pre[j]) ==> kept0.contains(pre[j]),
            forall|a: int, b: int| 0 <= a < b < kept0.len() ==> kept0[a] != kept0[b],
        ensures
            forall|k: int| 0 <= k < kept.len() ==> pre.subrange(0, done + 1).contains(kept[k])
                && !p(kept[k]),
            forall|j: int| 0 <= j < done + 1 && !p(pre[j]) ==> kept.contains(pre[j]),
            forall|a: int, b: int| 0 <= a < b < kept.len() ==> kept[a] != kept[b],
    {
        let sub0 = pre.subrange(0, done);
        let sub1 = pre.subrange(0, done + 1);
        let e = pre[done];
        assert(kept[kept.len() - 1] == e);
        assert(sub1[done] == e);
        assert forall|k: int| 0 <= k < kept.len()
            implies sub1.contains(kept[k]) && !p(kept[k]) by {
            if k < kept.len() - 1 {
                assert(sub0.contains(kept0[k]));
                let j = sub0.index_of(kept0[k]);
                assert(sub1[j] == kept[k]);
            } else {
                assert(sub1.contains(e)) by {
                    assert(sub1[done] == e);
                }
            }
        }
        assert forall|j: int| 0 <= j < done + 1 && !p(pre[j])
            implies kept.contains(pre[j]) by {
            if j < done {
                assert(kept0.contains(pre[j]));
                let k = kept0.index_of(pre[j]);
                assert(kept[k] == pre[j]);
            } else {
                assert(kept.contains(e)) by {
                    assert(kept[kept.len() - 1] == e);
                }
            }
        }
        assert forall|a: int, b: int| 0 <= a < b < kept.len()
            implies kept[a] != kept[b] by {
            if b == kept.len() - 1 {
                assert(sub0.contains(kept0[a]));
                let j = sub0.index_of(kept0[a]);
                assert(pre[j] == kept[a]);
                if kept[a] == e {
                    assert(pre[j].id != pre[done].id);
                }
            }
        }
    }

    /// One step of a keep/delete walk that drops the record at `done`.
    pub proof fn lemma_skip_step(
        pre: Seq<Entity<D>>,
        kept: Seq<Entity<D>>,
        done: int,
        p: spec_fn(Entity<D>) -> bool,
    )
        requires
            0 <= done < pre.len(),
            p(pre[done]),
            forall|k: int| 0 <= k < kept.len() ==> pre.subrange(0, done).contains(kept[k])
                && !p(kept[k]),
            forall|j: int| 0 <= j < done && !p(pre[j]) ==> kept.contains(pre[j]),
        ensures
            forall|k: int| 0 <= k < kept.len() ==> pre.subrange(0, done + 1).contains(kept[k])
                && !p(kept[k]),
            forall|j: int| 0 <= j < done + 1 && !p(pre[j]) ==> kept.contains(pre[j]),
    {
        let sub0 = pre.subrange(0, done);
        let sub1 = pre.subrange(0, done + 1);
        assert forall|k: int| 0 <= k < kept.len()
            implies sub1.contains(kept[k]) && !p(kept[k]) by {
            assert(sub0.contains(kept[k]));
            let j = sub0.index_of(kept[k]);
            assert(sub1[j] == kept[k]);
        }
    }

    /// What holds of the whole collection after a keep/delete walk.
    pub proof fn lemma_filtered(pre: Self, post: Self, p: spec_fn(Entity<D>) -> bool)
        requires
            pre.wf(),
            post.next_id == pre.next_id,
            forall|k: int| 0 <= k < post.len() ==> pre.entities@.contains(post.entities@[k])
                && !p(post.entities@[k]),
            forall|j: int| 0 <= j < pre.len() && !p(pre.entities@[j]) ==> post.entities@.contains(
                pre.entities@[j],
            ),
            forall|a: int, b: int| 0 <= a < b < post.len() ==> post.entities@[a]
                != post.entities@[b],
        ensures
            post.wf(),
            forall|t: int| pre.times_le(t) ==> post.times_le(t),
            forall|x: u64| post.has(x) == (pre.has(x) && !p(pre.get(x))),
            forall|x: u64| pre.has(x) && !p(pre.get(x)) ==> post.get(x) == pre.get(x),
            forall|i: int| 0 <= i < post.len() ==> !p(post.entities@[i]),
    {
        assert(post.wf()) by {
            assert forall|a: int, b: int|
                0 <= a < b < post.len()
                implies post.entities@[a].id != post.entities@[b].id by {
                let ia = pre.entities@.index_of(post.entities@[a]);
                let ib = pre.entities@.index_of(post.entities@[b]);
                assert(pre.entities@[ia] == post.entities@[a]);
                assert(pre.entities@[ib] == post.entities@[b]);
                if ia == ib {
                    assert(post.entities@[a] == post.entities@[b]);
                } else if ia < ib {
                    assert(pre.entities@[ia].id != pre.entities@[ib].id);
                } else {
                    assert(pre.entities@[ib].id != pre.entities@[ia].id);
                }
            }
            assert forall|k: int| 0 <= k < post.len()
                implies post.entities@[k].id < post.next_id && post.entities@[k].created_at
                    <= post.entities@[k].updated_at by {
                let j = pre.entities@.index_of(post.entities@[k]);
                assert(pre.entities@[j] == post.entities@[k]);
            }
        }
        assert forall|t: int| pre.times_le(t) implies post.times_le(t) by {
            assert forall|k: int| 0 <= k < post.len()
                implies post.entities@[k].created_at <= t && post.entities@[k].updated_at
                    <= t by {
                let j = pre.entities@.index_of(post.entities@[k]);
                assert(pre.entities@[j] == post.entities@[k]);
            }
        }
        assert forall|x: u64| post.has(x) == (pre.has(x) && !p(pre.get(x))) by {
            if post.has(x) {
                let k = post.idx(x);
                let j = pre.entities@.index_of(post.entities@[k]);
                assert(pre.entities@[j] == post.entities@[k]);
                pre.lemma_at(j);
            }
            if pre.has(x) && !p(pre.get(x)) {
                let j = pre.idx(x);
                assert(post.entities@.contains(pre.entities@[j]));
                let k = post.entities@.index_of(pre.entities@[j]);
                assert(post.entities@[k].id == x);
            }
        }
        assert forall|x: u64| pre.has(x) && !p(pre.get(x))
            implies post.get(x) == pre.get(x) by {
            let j = pre.idx(x);
            assert(post.entities@.contains(pre.entities@[j]));
            let k = post.entities@.index_of(pre.entities@[j]);
            assert(post.entities@[k] == pre.entities@[j]);
            post.lemma_at(k);
        }
    }

    /// Whether every id of the set is stored here.
    pub fn contains_all_ids(&self, ids: &crate::idset::IdSet) -> (r: bool)
        requires
            self.wf(),
        ensures
            r == forall|x: u64| ids.has(x) ==> self.has(x),
    {
        let mut i: usize = 0;
        while i < ids.len()
            invariant
                self.wf(),
                i <= ids.elems().len(),
                forall|k: int| 0 <= k < i ==> self.has(ids.elems()[k]),
            decreases ids.elems().len() - i,
        {
            match self.find_index(ids.at(i)) {
                Some(_) => {},
                None => {
                    proof {
                        assert(ids.has(ids.elems()[i as int]));
                    }
                    return false;
                },
            }
            i += 1;
        }
        proof {
            assert forall|x: u64| ids.has(x) implies self.has(x) by {
                let k = ids.elems().index_of(x);
                assert(ids.elems()[k] == x);
            }
        }
        true
    }

    pub fn find_index(&self, id: u64) -> (r: Option<usize>)
        requires
            self.wf(),
        ensures
            match r {
                Some(i) => self.has(id) && i as int == self.idx(id)
                    && i < self.entities@.len() && self.entities@[i as int].id == id,
                None => !self.has(id),
            },
    {
        let mut i: usize = 0;
        while i < self.entities.len()
            invariant
                self.wf(),
                i <= self.entities@.len(),
                forall|k: int| 0 <= k < i ==> self.entities@[k].id != id,
            decreases self.entities@.len() - i,
        {
            if self.entities[i].id == id {
                proof {
                    self.lemma_at(i as int);
                }
                return Some(i);
            }
            i += 1;
        }
        None
    }

    pub fn lookup(&self, id: u64) -> (r: Option<&Entity<D>>)
        requires
            self.wf(),
        ensures
            match r {
                Some(e) => self.has(id) && *e == self.get(id),
                None => !self.has(id),
            },
    {
        match self.find_index(id) {
            Some(i) => Some(&self.entities[i]),
            None => None,
        }
    }

    /// Store a new record.  The id handed back was never in use before, and
    /// the record starts its life with `created_at == updated_at == now`.
    pub fn insert_one(&mut self, data: D, now: u64) -> (r: u64)
        requires
            old(self).wf(),
            old(self).times_le(now - 1),
            old(self).next_id < u64::MAX,
        ensures
            r == old(self).next_id,
            !old(self).has(r),
            Self::inserted(*old(self), *final(self), data, now),
            final(self).entities@.len() == old(self).entities@.len() + 1,
            final(self).wf(),
            final(self).times_le(now as int),
            final(self).has(r),
            final(self).get(r) == (Entity { id: r, data, created_at: now, updated_at: now }),
            forall|x: u64| final(self).has(x) == (old(self).has(x) || x == r),
            forall|x: u64| x != r && old(self).has(x) ==> final(self).get(x) == old(self).get(x),
    {
        let id = self.next_id;
        self.next_id = self.next_id + 1;
        self.entities.push(Entity { id, data, created_at: now, updated_at: now });
        proof {
            let n = self.entities@.len() - 1;
            self.lemma_at(n);
            assert forall|x: u64| self.has(x) == (old(self).has(x) || x == id) by {
                if old(self).has(x) {
                    let k = old(self).idx(x);
                    assert(self.entities@[k].id == x);
                }
                if self.has(x) && x != id {
                    let k = self.idx(x);
                    assert(k < n);
                    assert(old(self).entities@[k].id == x);
                }
            }
            assert forall|x: u64| x != id && old(self).has(x)
                implies self.get(x) == old(self).get(x) by {
                let k = old(self).idx(x);
                assert(self.entities@[k] == old(self).entities@[k]);
                self.lemma_at(k);
            }
        }
        id
    }

    /// Take the record carrying `id` out of the collection, handing back its
    /// position so [`Self::restore`] can put a successor in its place.
    pub fn extract(&mut self, id: u64) -> (r: Option<(usize, Entity<D>)>)
        requires
            old(self).wf(),
        ensures
            match r {
                Some(p) => old(self).has(id) && p.1 == old(self).get(id)
                    && p.0 as int == old(self).idx(id) && p.0 < old(self).entities@.len()
                    && final(self).entities@ == old(self).entities@.remove(p.0 as int)
                    && final(self).next_id == old(self).next_id,
                None => !old(self).has(id) && *final(self) == *old(self),
            },
    {
        match self.find_index(id) {
            Some(i) => {
                let e = self.entities.remove(i);
                Some((i, e))
            },
            None => None,
        }
    }

    pub fn restore(&mut self, i: usize, e: Entity<D>)
        requires
            i <= old(self).entities@.len(),
        ensures
            final(self).entities@ == old(self).entities@.insert(i as int, e),
            final(self).next_id == old(self).next_id,
    {
        self.entities.insert(i, e);
    }

    /// Atomically land a patch on the record carrying `id`: set fields
    /// replace, unset fields keep, and the record gets a fresh `updated_at`.
    /// Absence leaves the collection untouched.
    pub fn set_data(&mut self, id: u64, patch: D::Patch, now: u64) -> (r: bool) where D: Patchable
        requires
            old(self).wf(),
            old(self).times_le(now - 1),
        ensures
            final(self).wf(),
            final(self).times_le(now as int),
            final(self).next_id == old(self).next_id,
            r == old(self).has(id),
            final(self).entities@.len() == old(self).entities@.len(),
            !r ==> *final(self) == *old(self),
            forall|x: u64| final(self).has(x) == old(self).has(x),
            r ==> final(self).get(id) == (Entity {
                id,
                data: old(self).get(id).data.patched_spec(patch),
                created_at: old(self).get(id).created_at,
                updated_at: now,
            }),
            r ==> old(self).get(id).updated_at < now,
            forall|x: u64| x != id && old(self).has(x) ==> final(self).get(x) == old(self).get(x),
    {
        match self.extract(id) {
            Some((i, e)) => {
                let ghost mid = *self;
                let ghost e0 = e;
                let Entity { id: eid, data, created_at, updated_at: _ } = e;
                let e2 = Entity { id: eid, data: data.apply_patch(patch), created_at, updated_at: now };
                self.restore(i, e2);
                proof {
                    Collection::lemma_update_entity(*old(self), mid, *self, i as int, e0, e2, now);
                }
                true
            },
            None => false,
        }
    }

    /// Delete the record carrying `id`; the count of deleted records comes
    /// back.
    pub fn delete_by_id(&mut self, id: u64) -> (r: u64)
        requires
            old(self).wf(),
        ensures
            final(self).wf(),
            final(self).next_id == old(self).next_id,
            !final(self).has(id),
            old(self).has(id) ==> r == 1
                && final(self).entities@ == old(self).entities@.remove(old(self).idx(id)),
            !old(self).has(id) ==> r == 0 && *final(self) == *old(self),
            forall|x: u64| final(self).has(x) == (old(self).has(x) && x != id),
            forall|x: u64| x != id && old(self).has(x) ==> final(self).get(x) == old(self).get(x),
            forall|t: int| old(self).times_le(t) ==> final(self).times_le(t),
    {
        let r;
        match self.extract(id) {
            Some((i, e)) => {
                r = 1;
            },
            None => {
                r = 0;
            },
        }
        proof {
            if old(self).has(id) {
                let i = old(self).idx(id);
                assert forall|x: u64| self.has(x) == (old(self).has(x) && x != id) by {
                    if self.has(x) {
                        let k = self.idx(x);
                        let prev = if k < i { k } else { k + 1 };
                        assert(old(self).entities@[prev].id == x);
                        if x == id {
                            old(self).lemma_at(prev);
                            assert(false);
                        }
                    }
                    if old(self).has(x) && x != id {
                        let k = old(self).idx(x);
                        assert(k != i);
                        let here = if k < i { k } else { k - 1 };
                        assert(self.entities@[here].id == x);
                    }
                }
                assert forall|x: u64| x != id && old(self).has(x)
                    implies self.get(x) == old(self).get(x) by {
                    let k = old(self).idx(x);
                    assert(k != i);
                    let here = if k < i { k } else { k - 1 };
                    assert(self.entities@[here] == old(self).entities@[k]);
                    self.lemma_at(here);
                    old(self).lemma_at(k);
                }
                assert(self.wf()) by {
                    assert(forall|k: int| #![trigger self.entities@[k]]
                        0 <= k < self.entities@.len() ==> {
                            let prev = if k < i { k } else { k + 1 };
                            self.entities@[k] == old(self).entities@[prev]
                        });
                }
                assert forall|t: int| old(self).times_le(t) implies self.times_le(t) by {
                    assert(forall|k: int| #![trigger self.entities@[k]]
                        0 <= k < self.entities@.len() ==> {
                            let prev = if k < i { k } else { k + 1 };
                            self.entities@[k] == old(self).entities@[prev]
                        });
                }
            }
        }
        r
    }
}

} // verus!
